//! Who decides to attack: the player by a button, the others by closing in
//! and rolling for the type of attack.

use crate::action::AttackType;
use crate::manager::{Combatant, CombatantState};
use rand::Rng;
use vstd::prelude::*;

verus! {

/// The buttons that an input event can name.
#[derive(Clone, Copy, Debug, PartialEq, Eq, Structural)]
pub enum AttackButton {
    Primary,
    Secondary,
    Other,
}

/// The attack that a button asks for, if it asks for one.
pub open spec fn attack_for(button: AttackButton) -> Option<AttackType> {
    match button {
        AttackButton::Primary => Some(AttackType::Light),
        AttackButton::Secondary => Some(AttackType::Heavy),
        AttackButton::Other => None,
    }
}

/// The attack that the first of the buttons that ask for one asks for.
pub open spec fn first_attack(buttons: Seq<AttackButton>) -> Option<AttackType>
    decreases buttons.len(),
{
    if buttons.len() == 0 {
        None
    } else if attack_for(buttons.first()).is_some() {
        attack_for(buttons.first())
    } else {
        first_attack(buttons.drop_first())
    }
}

/// How a combatant without a player picks its attacks: the chance, in
/// percent, that an attack is a light one.
#[derive(Clone, Copy, Debug, PartialEq, Eq, Structural)]
pub struct NpcPolicy {
    pub light_percent: u32,
}

impl Default for NpcPolicy {
    /// Every attack is a light one.
    fn default() -> (policy: NpcPolicy)
        ensures
            policy.light_percent == 100,
    {
        NpcPolicy { light_percent: 100 }
    }
}

impl NpcPolicy {
    /// The attack that the policy picks on the given roll.
    pub open spec fn choice(self, roll: u32) -> AttackType {
        if roll < self.light_percent {
            AttackType::Light
        } else {
            AttackType::Heavy
        }
    }

    /// The attack that the policy picks on the given roll.
    pub fn pick(&self, roll: u32) -> (picked: AttackType)
        ensures
            picked == self.choice(roll),
    {
        if roll < self.light_percent {
            AttackType::Light
        } else {
            AttackType::Heavy
        }
    }
}

/// The attack that a combatant without a player makes on the given roll, if
/// it makes one: it must be in attack mode and have no attack in flight.
pub open spec fn npc_choice(s: CombatantState, policy: NpcPolicy, roll: u32) -> Option<
    AttackType,
> {
    if s.engaged && !s.in_attack() {
        Some(policy.choice(roll))
    } else {
        None
    }
}

/// Who proposes the attacks of a combatant.
#[derive(Debug)]
pub enum IntentSource {
    /// The player, with the button events of this tick.
    Player(Vec<AttackButton>),
    /// A policy, for a combatant without a player.
    Npc(NpcPolicy),
}

impl IntentSource {
    /// The attack that the source proposes for the combatant in this tick,
    /// if any, where `roll` is the number that a policy has rolled. No
    /// source proposes an attack while one is in flight.
    pub open spec fn proposal(self, s: CombatantState, roll: u32) -> Option<AttackType> {
        if s.in_attack() {
            None
        } else {
            match self {
                IntentSource::Player(buttons) => first_attack(buttons@),
                IntentSource::Npc(policy) => npc_choice(s, policy, roll),
            }
        }
    }
}

/// The combatant after the attack that was proposed, if any, has been asked
/// for.
pub open spec fn after_proposal(s: CombatantState, proposed: Option<AttackType>) -> CombatantState {
    match proposed {
        Some(attack_type) => s.request(attack_type),
        None => s,
    }
}

/// Draws a number below one hundred from the thread's generator, with
/// `rand::rng` and `Rng::random_range`. The contract claims the range and
/// nothing of the number drawn.
#[verifier::external_body]
fn roll_percent() -> (roll: u32)
    ensures
        roll < 100,
{
    rand::rng().random_range(0..100u32)
}

/// The attack that a button asks for, if it asks for one.
pub fn attack_for_button(button: AttackButton) -> (wanted: Option<AttackType>)
    ensures
        wanted == attack_for(button),
{
    match button {
        AttackButton::Primary => Some(AttackType::Light),
        AttackButton::Secondary => Some(AttackType::Heavy),
        AttackButton::Other => None,
    }
}

/// The attack that the first of the buttons that ask for one asks for.
pub fn first_attack_among(buttons: &Vec<AttackButton>) -> (wanted: Option<AttackType>)
    ensures
        wanted == first_attack(buttons@),
{
    let mut i: usize = 0;
    proof {
        assert(buttons@.skip(0) =~= buttons@);
    }
    while i < buttons.len()
        invariant
            i <= buttons.len(),
            first_attack(buttons@) == first_attack(buttons@.skip(i as int)),
        decreases buttons.len() - i,
    {
        proof {
            assert(buttons@.skip(i as int).drop_first() =~= buttons@.skip(i + 1));
        }
        let wanted = attack_for_button(buttons[i]);
        if wanted.is_some() {
            return wanted;
        }
        i += 1;
    }
    None
}

impl IntentSource {
    /// The attack that the source proposes for the combatant on the given
    /// roll.
    pub fn propose_on(&self, combatant: &Combatant, roll: u32) -> (proposed: Option<AttackType>)
        ensures
            proposed == self.proposal(combatant@, roll),
    {
        if combatant.in_attack() {
            return None;
        }
        match self {
            IntentSource::Player(buttons) => first_attack_among(buttons),
            IntentSource::Npc(policy) => {
                if combatant.attack_mode().is_some() {
                    Some(policy.pick(roll))
                } else {
                    None
                }
            },
        }
    }

    /// Asks for the attack that the source proposes on the given roll, and
    /// returns that attack.
    pub fn act_on(&self, combatant: &mut Combatant, roll: u32) -> (started: Option<AttackType>)
        ensures
            started == self.proposal(old(combatant)@, roll),
            final(combatant)@ == after_proposal(old(combatant)@, started),
    {
        let proposed = self.propose_on(combatant, roll);
        match proposed {
            Some(attack_type) => {
                combatant.request(attack_type);
            },
            None => {},
        }
        proposed
    }

    /// Asks for the attack that the source proposes, and returns that
    /// attack. Where a policy proposes, the type of the attack is rolled
    /// for: what happens is what `act_on` does on some roll below one
    /// hundred.
    pub fn act(&self, combatant: &mut Combatant) -> (started: Option<AttackType>)
        ensures
            exists|roll: u32|
                roll < 100 && #[trigger] self.proposal(old(combatant)@, roll) == started,
            final(combatant)@ == after_proposal(old(combatant)@, started),
    {
        let roll = roll_percent();
        self.act_on(combatant, roll)
    }
}

/// Hands the button events of one tick to the player's combatant. While an
/// attack is in flight they are all dropped. Otherwise the first button
/// that asks for an attack starts it, and the rest are dropped.
pub fn player_attack_trigger(combatant: &mut Combatant, buttons: &Vec<AttackButton>) -> (started:
    Option<AttackType>)
    ensures
        started == if old(combatant)@.in_attack() {
            None
        } else {
            first_attack(buttons@)
        },
        final(combatant)@ == after_proposal(old(combatant)@, started),
{
    if combatant.in_attack() {
        return None;
    }
    let wanted = first_attack_among(buttons);
    match wanted {
        Some(attack_type) => {
            combatant.request(attack_type);
        },
        None => {},
    }
    wanted
}

/// Lets a combatant without a player attack on the given roll, if it is in
/// attack mode and has no attack in flight.
pub fn npc_attack_on(combatant: &mut Combatant, policy: &NpcPolicy, roll: u32) -> (started:
    Option<AttackType>)
    ensures
        started == npc_choice(old(combatant)@, *policy, roll),
        final(combatant)@ == after_proposal(old(combatant)@, started),
{
    if combatant.attack_mode().is_none() || combatant.in_attack() {
        return None;
    }
    let attack_type = policy.pick(roll);
    combatant.request(attack_type);
    Some(attack_type)
}

/// Lets a combatant without a player attack if it is in attack mode and
/// has no attack in flight. The type of the attack is rolled for: what
/// happens is what `npc_attack_on` does on some roll below one hundred.
pub fn npc_attack(combatant: &mut Combatant, policy: &NpcPolicy) -> (started: Option<AttackType>)
    ensures
        exists|roll: u32|
            roll < 100 && #[trigger] npc_choice(old(combatant)@, *policy, roll) == started,
        final(combatant)@ == after_proposal(old(combatant)@, started),
{
    let roll = roll_percent();
    npc_attack_on(combatant, policy, roll)
}

/// What a combatant without a player does about its distance to the target:
/// within reach it enters attack mode and holds its ground, out of reach it
/// moves closer. Says whether to move.
pub fn close_in(combatant: &mut Combatant, in_reach: bool) -> (advance: bool)
    ensures
        advance == !in_reach,
        final(combatant)@ == if in_reach {
            old(combatant)@.engage()
        } else {
            old(combatant)@
        },
{
    if in_reach {
        combatant.engage();
    }
    !in_reach
}

/// A policy that always picks the light attack picks it on every roll, and
/// one that never picks it picks the heavy attack on every roll.
pub proof fn lemma_policy_extremes(policy: NpcPolicy, roll: u32)
    requires
        roll < 100,
    ensures
        policy.light_percent >= 100 ==> policy.choice(roll) == AttackType::Light,
        policy.light_percent == 0 ==> policy.choice(roll) == AttackType::Heavy,
{
}

/// Every source respects the latch. While an attack is in flight, no source
/// proposes another, whatever the buttons and whatever the roll; and what a
/// source proposes otherwise is started as the weapon's template of that
/// type.
pub proof fn lemma_sources_respect_latch(source: IntentSource, s: CombatantState, roll: u32)
    ensures
        s.in_attack() ==> source.proposal(s, roll).is_none(),
        s.in_attack() ==> after_proposal(s, source.proposal(s, roll)) == s,
        source.proposal(s, roll) matches Some(attack_type) ==> after_proposal(
            s,
            source.proposal(s, roll),
        ).action == Some(s.template(attack_type).started()),
{
}

} // verus!
