//! Which clip an animated entity plays, given what it is doing.

use crate::action::AttackType;
use vstd::prelude::*;

verus! {

/// Whose set of clips an entity plays from.
#[derive(Clone, Copy, Debug, PartialEq, Eq, Structural)]
pub enum ResourceHandle {
    Character,
    Enemy,
}

/// The clips that a set has.
#[derive(Clone, Copy, Debug, PartialEq, Eq, Structural)]
pub enum Clip {
    Idle,
    Running,
    Jumping,
    LightAttack,
    HeavyAttack,
}

/// How a clip is played: over and over, or once at a speed in percent of its
/// own.
#[derive(Clone, Copy, Debug, PartialEq, Eq, Structural)]
pub enum Playback {
    Repeat,
    Speed(u32),
}

/// A clip, the milliseconds over which it is blended in, and how it is
/// played.
#[derive(Clone, Copy, Debug, PartialEq, Eq, Structural)]
pub struct ClipChoice {
    pub clip: Clip,
    pub blend_millis: u64,
    pub playback: Playback,
}

/// The clip for an entity. One that the player controls shows its attack
/// first, then whether it is in the air, then whether it moves; any other
/// stands idle.
pub open spec fn clip_for(
    controlled: bool,
    airborne: bool,
    moving: bool,
    attack: Option<AttackType>,
) -> ClipChoice {
    if !controlled {
        ClipChoice { clip: Clip::Idle, blend_millis: 250, playback: Playback::Repeat }
    } else {
        match attack {
            Some(AttackType::Light) => ClipChoice {
                clip: Clip::LightAttack,
                blend_millis: 50,
                playback: Playback::Speed(200),
            },
            Some(AttackType::Heavy) => ClipChoice {
                clip: Clip::HeavyAttack,
                blend_millis: 50,
                playback: Playback::Speed(200),
            },
            None => if airborne {
                ClipChoice { clip: Clip::Jumping, blend_millis: 50, playback: Playback::Speed(80) }
            } else if moving {
                ClipChoice { clip: Clip::Running, blend_millis: 250, playback: Playback::Repeat }
            } else {
                ClipChoice { clip: Clip::Idle, blend_millis: 250, playback: Playback::Repeat }
            },
        }
    }
}

/// The clip for an entity that is doing what the arguments say.
pub fn select_clip(controlled: bool, airborne: bool, moving: bool, attack: Option<AttackType>) -> (
    choice: ClipChoice
)
    ensures
        choice == clip_for(controlled, airborne, moving, attack),
{
    if !controlled {
        return ClipChoice { clip: Clip::Idle, blend_millis: 250, playback: Playback::Repeat };
    }
    match attack {
        Some(AttackType::Light) => ClipChoice {
            clip: Clip::LightAttack,
            blend_millis: 50,
            playback: Playback::Speed(200),
        },
        Some(AttackType::Heavy) => ClipChoice {
            clip: Clip::HeavyAttack,
            blend_millis: 50,
            playback: Playback::Speed(200),
        },
        None => if airborne {
            ClipChoice { clip: Clip::Jumping, blend_millis: 50, playback: Playback::Speed(80) }
        } else if moving {
            ClipChoice { clip: Clip::Running, blend_millis: 250, playback: Playback::Repeat }
        } else {
            ClipChoice { clip: Clip::Idle, blend_millis: 250, playback: Playback::Repeat }
        },
    }
}

/// The name under which a set of clips holds the given clip.
pub fn clip_name(clip: Clip) -> (name: &'static str)
    ensures
        name@ == match clip {
            Clip::Idle => "Idle"@,
            Clip::Running => "Running"@,
            Clip::Jumping => "Jumping"@,
            Clip::LightAttack => "LightAttack"@,
            Clip::HeavyAttack => "HeavyAttack"@,
        },
{
    match clip {
        Clip::Idle => "Idle",
        Clip::Running => "Running",
        Clip::Jumping => "Jumping",
        Clip::LightAttack => "LightAttack",
        Clip::HeavyAttack => "HeavyAttack",
    }
}

/// What an animated entity is playing, by the index of the clip in its set.
#[derive(Clone, Copy, Debug, PartialEq, Eq, Structural)]
pub struct AnimationHandler {
    pub current_animation: usize,
    pub resource_type: ResourceHandle,
}

impl AnimationHandler {
    /// Makes the clip of the given index the current one, and says whether
    /// it was another before: only then is it started.
    pub fn switch_to(&mut self, index: usize) -> (changed: bool)
        ensures
            changed == (old(self).current_animation != index),
            final(self).current_animation == index,
            final(self).resource_type == old(self).resource_type,
    {
        let changed = self.current_animation != index;
        self.current_animation = index;
        changed
    }
}

/// The entity that the camera locks on to after the lock is toggled: none
/// if it was locked, else the last of the enemies, if there is one.
pub open spec fn toggled_target(current: Option<u64>, enemies: Seq<u64>) -> Option<u64> {
    if current.is_some() || enemies.len() == 0 {
        None
    } else {
        Some(enemies.last())
    }
}

/// Toggles the camera's lock on a target.
pub fn find_target(current: Option<u64>, enemies: &Vec<u64>) -> (target: Option<u64>)
    ensures
        target == toggled_target(current, enemies@),
{
    if current.is_some() || enemies.len() == 0 {
        None
    } else {
        Some(enemies[enemies.len() - 1])
    }
}

} // verus!
