//! What can be wrong with the numbers that a combatant is set up with.

use vstd::prelude::*;

verus! {

/// A value that no combatant can be built from.
#[derive(Clone, Copy, Debug, PartialEq, Eq, Structural)]
pub enum ConfigurationError {
    /// A phase of an attack was given a duration below zero.
    NegativeDuration,
    /// A combatant was given a health maximum below zero.
    NegativeMaxHealth,
}

impl ConfigurationError {
    /// The error in words.
    pub fn message(&self) -> (text: &'static str)
        ensures
            text@ == match *self {
                ConfigurationError::NegativeDuration => "a phase duration is negative"@,
                ConfigurationError::NegativeMaxHealth => "the maximum health is negative"@,
            },
    {
        match self {
            ConfigurationError::NegativeDuration => "a phase duration is negative",
            ConfigurationError::NegativeMaxHealth => "the maximum health is negative",
        }
    }
}

} // verus!
