//! What a combatant fights with: one attack template of each type.

use crate::action::{ActionState, AttackType, CombatAction};
use vstd::prelude::*;

verus! {

/// The light attack that a weapon has unless it is given another.
pub open spec fn default_light() -> ActionState {
    ActionState::template(AttackType::Light, 200_000_000, 100_000_000, 450_000_000, 2)
}

/// The heavy attack that a weapon has unless it is given another.
pub open spec fn default_heavy() -> ActionState {
    ActionState::template(AttackType::Heavy, 400_000_000, 200_000_000, 1_000_000_000, 4)
}

/// The two attacks of a weapon, as templates that are never ticked.
#[derive(Clone, Copy, Debug)]
pub struct WeaponStats {
    pub light_attack: CombatAction,
    pub heavy_attack: CombatAction,
}

impl WeaponStats {
    /// The template for the given type of attack.
    pub open spec fn template_spec(self, attack_type: AttackType) -> ActionState {
        match attack_type {
            AttackType::Light => self.light_attack@,
            AttackType::Heavy => self.heavy_attack@,
        }
    }

    /// The template for the given type of attack.
    pub fn template(&self, attack_type: AttackType) -> (action: CombatAction)
        ensures
            action@ == self.template_spec(attack_type),
    {
        match attack_type {
            AttackType::Light => self.light_attack,
            AttackType::Heavy => self.heavy_attack,
        }
    }
}

impl Default for WeaponStats {
    fn default() -> (stats: WeaponStats)
        ensures
            stats.light_attack@ == default_light(),
            stats.heavy_attack@ == default_heavy(),
    {
        let light = CombatAction::new(AttackType::Light, 200_000_000, 100_000_000, 450_000_000, 2);
        let heavy = CombatAction::new(
            AttackType::Heavy,
            400_000_000,
            200_000_000,
            1_000_000_000,
            4,
        );
        WeaponStats { light_attack: light.unwrap(), heavy_attack: heavy.unwrap() }
    }
}

/// A weapon: its attacks, and the entity that shows it, if any.
#[derive(Clone, Copy, Debug)]
pub struct Weapon {
    pub weapon_entity: Option<u64>,
    pub weapon_stats: WeaponStats,
}

impl Default for Weapon {
    fn default() -> (weapon: Weapon)
        ensures
            weapon.weapon_entity.is_none(),
            weapon.weapon_stats.light_attack@ == default_light(),
            weapon.weapon_stats.heavy_attack@ == default_heavy(),
    {
        Weapon { weapon_entity: None, weapon_stats: WeaponStats::default() }
    }
}

} // verus!
