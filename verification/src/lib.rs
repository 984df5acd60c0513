//! Timed melee combat: attack phases, hit resolution and health bookkeeping.
//!
//! Every entity is known here by the 64 bits of its identifier, and every
//! span of time is a whole number of nanoseconds.

pub mod action;
pub mod animation;
pub mod error;
pub mod health;
pub mod hit;
pub mod intent;
pub mod manager;
pub mod pipeline;
pub mod skeleton;
pub mod timer;
pub mod weapon;
