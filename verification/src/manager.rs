//! The latch that lets a combatant make one attack at a time.

use crate::action::{
    ActionState, AttackState, AttackType, CombatAction, PhaseChange, PhaseTransition,
};
use crate::weapon::Weapon;
use vstd::prelude::*;

verus! {

/// A weapon and the flag that is up while its owner has an attack in flight.
#[derive(Clone, Copy, Debug)]
pub struct CombatManager {
    pub weapon: Weapon,
    pub in_attack: bool,
}

impl CombatManager {
    /// A manager whose owner is free to attack.
    pub fn new(weapon: Weapon) -> (manager: CombatManager)
        ensures
            manager.weapon == weapon,
            !manager.in_attack,
    {
        CombatManager { weapon, in_attack: false }
    }

    /// Asks for an attack. While an attack is in flight the request is
    /// dropped and nothing changes. Otherwise the latch closes and the
    /// weapon's template of that type comes back started.
    pub fn request_attack(&mut self, attack_type: AttackType) -> (started: Option<CombatAction>)
        ensures
            final(self).weapon == old(self).weapon,
            final(self).in_attack,
            started.is_some() <==> !old(self).in_attack,
            started.is_some() ==> started.unwrap()@ == old(self).weapon.weapon_stats.template_spec(
                attack_type,
            ).started(),
    {
        if self.in_attack {
            return None;
        }
        let action = self.weapon.weapon_stats.template(attack_type).started();
        self.in_attack = true;
        Some(action)
    }

    /// Brings the latch in line with whether the owner still has an attack:
    /// once the attack is gone, the owner is free again.
    pub fn sync_latch(&mut self, has_action: bool)
        ensures
            final(self).weapon == old(self).weapon,
            final(self).in_attack == (old(self).in_attack && has_action),
    {
        if !has_action && self.in_attack {
            self.in_attack = false;
        }
    }
}

/// The mark of a combatant that has closed in on its target and attacks
/// when it can.
#[derive(Clone, Copy, Debug, PartialEq, Eq, Structural)]
pub struct AttackMode;

/// What a combatant is: the templates of its weapon, the attack that it has
/// in flight, if any, and whether it is in attack mode. The latch is closed
/// exactly while there is an attack in flight.
pub struct CombatantState {
    pub weapon_entity: Option<u64>,
    pub light: ActionState,
    pub heavy: ActionState,
    pub action: Option<ActionState>,
    pub engaged: bool,
}

/// What a tick of a combatant reports.
#[derive(Clone, Copy, Debug, PartialEq, Eq, Structural)]
pub struct TickReport {
    /// What the tick did to the attack in flight; `None` if there was none.
    pub transition: Option<PhaseTransition>,
    /// The damage that the attack deals to what it touches in this tick;
    /// `None` outside the hit window.
    pub hit_damage: Option<i32>,
}

impl CombatantState {
    pub open spec fn wf(self) -> bool {
        &&& self.light.wf()
        &&& self.heavy.wf()
        &&& match self.action {
            Some(a) => a.wf() && a.phase != AttackState::Idle,
            None => true,
        }
    }

    pub open spec fn in_attack(self) -> bool {
        self.action.is_some()
    }

    pub open spec fn template(self, attack_type: AttackType) -> ActionState {
        match attack_type {
            AttackType::Light => self.light,
            AttackType::Heavy => self.heavy,
        }
    }

    /// The combatant after a request for an attack: unchanged while an
    /// attack is in flight, else with the template of that type started.
    pub open spec fn request(self, attack_type: AttackType) -> CombatantState {
        if self.in_attack() {
            self
        } else {
            CombatantState { action: Some(self.template(attack_type).started()), ..self }
        }
    }

    /// The combatant in attack mode.
    pub open spec fn engage(self) -> CombatantState {
        CombatantState { engaged: true, ..self }
    }

    /// The combatant after a tick of `dt`: the attack in flight takes its
    /// step. When the step ends it, the attack is dropped and the combatant
    /// leaves attack mode.
    pub open spec fn tick(self, dt: nat) -> CombatantState {
        match self.action {
            None => self,
            Some(a) => if a.step(dt).phase == AttackState::Idle {
                CombatantState { action: None, engaged: false, ..self }
            } else {
                CombatantState { action: Some(a.step(dt)), ..self }
            },
        }
    }

    /// What a tick of `dt` reports.
    pub open spec fn report(self, dt: nat) -> TickReport {
        match self.action {
            None => TickReport { transition: None, hit_damage: None },
            Some(a) => TickReport {
                transition: Some(a.signal(dt)),
                hit_damage: if a.phase == AttackState::Attack {
                    Some(a.damage)
                } else {
                    None
                },
            },
        }
    }
}

/// Something that happens to a combatant.
pub enum CombatantEvent {
    Request(AttackType),
    Tick(nat),
    Engage,
}

impl CombatantState {
    pub open spec fn apply(self, event: CombatantEvent) -> CombatantState {
        match event {
            CombatantEvent::Request(attack_type) => self.request(attack_type),
            CombatantEvent::Tick(dt) => self.tick(dt),
            CombatantEvent::Engage => self.engage(),
        }
    }

    /// The combatant after the given events, in order.
    pub open spec fn run(self, events: Seq<CombatantEvent>) -> CombatantState
        decreases events.len(),
    {
        if events.len() == 0 {
            self
        } else {
            self.run(events.drop_last()).apply(events.last())
        }
    }
}

/// How many attacks the given events start on the given combatant.
pub open spec fn attacks_started(s: CombatantState, events: Seq<CombatantEvent>) -> nat
    decreases events.len(),
{
    if events.len() == 0 {
        0
    } else {
        let before = s.run(events.drop_last());
        attacks_started(s, events.drop_last()) + if events.last() is Request
            && !before.in_attack() {
            1nat
        } else {
            0nat
        }
    }
}

/// How many attacks the given events bring to their end on the given
/// combatant.
pub open spec fn attacks_ended(s: CombatantState, events: Seq<CombatantEvent>) -> nat
    decreases events.len(),
{
    if events.len() == 0 {
        0
    } else {
        let before = s.run(events.drop_last());
        attacks_ended(s, events.drop_last()) + if before.in_attack() && !before.apply(
            events.last(),
        ).in_attack() {
            1nat
        } else {
            0nat
        }
    }
}

/// A request made while an attack is in flight changes nothing: no second
/// attack is made and the one in flight is as it was.
pub proof fn lemma_closed_latch_drops_request(s: CombatantState, attack_type: AttackType)
    requires
        s.in_attack(),
    ensures
        s.request(attack_type) == s,
{
}

/// A request made while no attack is in flight starts the template of the
/// type that was asked for, and closes the latch.
pub proof fn lemma_open_latch_starts_attack(s: CombatantState, attack_type: AttackType)
    requires
        s.wf(),
        !s.in_attack(),
    ensures
        s.request(attack_type).wf(),
        s.request(attack_type).in_attack(),
        s.request(attack_type).action == Some(s.template(attack_type).started()),
        s.request(attack_type).action.unwrap().phase == AttackState::Windup,
        s.request(attack_type).action.unwrap().timer.elapsed == 0,
{
}

/// Whatever happens to a combatant, it stays well formed and its weapon is
/// the same.
pub proof fn lemma_apply_wf(s: CombatantState, event: CombatantEvent)
    requires
        s.wf(),
    ensures
        s.apply(event).wf(),
        s.apply(event).weapon_entity == s.weapon_entity,
        s.apply(event).light == s.light,
        s.apply(event).heavy == s.heavy,
{
}

/// The latch opens only where an attack ends: a tick that finds the latch
/// closed leaves it closed unless that tick is the one that ends the attack,
/// and nothing else opens it.
pub proof fn lemma_latch_opens_on_removal(s: CombatantState, event: CombatantEvent)
    requires
        s.wf(),
        s.in_attack(),
    ensures
        !s.apply(event).in_attack() <==> (event matches CombatantEvent::Tick(dt)
            && s.action.unwrap().signal(dt).change == PhaseChange::Remove),
{
}

/// One attack at a time. Over any course of requests and ticks that begins
/// with the latch open, every attack that was started has ended, but for the
/// one that is in flight while the latch is closed: the attacks started are
/// the attacks ended, plus one exactly while an attack is in flight.
pub proof fn lemma_one_attack_at_a_time(s: CombatantState, events: Seq<CombatantEvent>)
    requires
        s.wf(),
        !s.in_attack(),
    ensures
        s.run(events).wf(),
        attacks_started(s, events) == attacks_ended(s, events) + if s.run(events).in_attack() {
            1nat
        } else {
            0nat
        },
    decreases events.len(),
{
    if events.len() > 0 {
        lemma_one_attack_at_a_time(s, events.drop_last());
    }
}

/// A combatant: a weapon, and at most one attack in flight.
#[derive(Clone, Copy, Debug)]
pub struct Combatant {
    manager: CombatManager,
    action: Option<CombatAction>,
    attack_mode: Option<AttackMode>,
}

impl View for Combatant {
    type V = CombatantState;

    closed spec fn view(&self) -> CombatantState {
        CombatantState {
            weapon_entity: self.manager.weapon.weapon_entity,
            light: self.manager.weapon.weapon_stats.light_attack@,
            heavy: self.manager.weapon.weapon_stats.heavy_attack@,
            action: match self.action {
                Some(a) => Some(a@),
                None => None,
            },
            engaged: self.attack_mode.is_some(),
        }
    }
}

impl Combatant {
    /// The latch is closed exactly while an attack is in flight, and an
    /// attack in flight is never idle.
    #[verifier::type_invariant]
    pub closed spec fn inv(self) -> bool {
        &&& self@.wf()
        &&& self.manager.in_attack == self.action.is_some()
    }

    /// A combatant with the given weapon and no attack in flight.
    pub fn new(weapon: Weapon) -> (combatant: Combatant)
        ensures
            combatant@.wf(),
            combatant@.weapon_entity == weapon.weapon_entity,
            combatant@.light == weapon.weapon_stats.light_attack@,
            combatant@.heavy == weapon.weapon_stats.heavy_attack@,
            combatant@.action.is_none(),
            !combatant@.engaged,
    {
        proof {
            use_type_invariant(&weapon.weapon_stats.light_attack);
            use_type_invariant(&weapon.weapon_stats.heavy_attack);
        }
        Combatant { manager: CombatManager::new(weapon), action: None, attack_mode: None }
    }

    /// The weapon and the latch.
    pub fn manager(&self) -> (manager: CombatManager)
        ensures
            self@.wf(),
            manager.in_attack == self@.in_attack(),
            manager.weapon.weapon_entity == self@.weapon_entity,
            manager.weapon.weapon_stats.light_attack@ == self@.light,
            manager.weapon.weapon_stats.heavy_attack@ == self@.heavy,
    {
        proof {
            use_type_invariant(self);
        }
        self.manager
    }

    /// Whether an attack is in flight.
    pub fn in_attack(&self) -> (closed: bool)
        ensures
            self@.wf(),
            closed == self@.in_attack(),
    {
        proof {
            use_type_invariant(self);
        }
        self.manager.in_attack
    }

    /// The attack in flight, if any.
    pub fn action(&self) -> (action: Option<CombatAction>)
        ensures
            self@.wf(),
            action.is_some() == self@.action.is_some(),
            action.is_some() ==> action.unwrap()@ == self@.action.unwrap(),
    {
        proof {
            use_type_invariant(self);
        }
        self.action
    }

    /// The phase of the attack in flight; `Idle` when there is none.
    pub fn attack_state(&self) -> (phase: AttackState)
        ensures
            phase == match self@.action {
                Some(a) => a.phase,
                None => AttackState::Idle,
            },
    {
        match self.action {
            Some(a) => a.attack_state(),
            None => AttackState::Idle,
        }
    }

    /// The mark of attack mode, if the combatant is in it.
    pub fn attack_mode(&self) -> (mode: Option<AttackMode>)
        ensures
            mode.is_some() == self@.engaged,
    {
        self.attack_mode
    }

    /// Puts the combatant into attack mode.
    pub fn engage(&mut self)
        ensures
            final(self)@ == old(self)@.engage(),
    {
        proof {
            use_type_invariant(&*self);
        }
        *self = Combatant { attack_mode: Some(AttackMode), ..*self };
    }

    /// Asks for an attack, and says whether one was started.
    pub fn request(&mut self, attack_type: AttackType) -> (accepted: bool)
        ensures
            final(self)@ == old(self)@.request(attack_type),
            accepted == !old(self)@.in_attack(),
    {
        proof {
            use_type_invariant(&*self);
        }
        let mut manager = self.manager;
        match manager.request_attack(attack_type) {
            Some(action) => {
                proof {
                    use_type_invariant(&action);
                }
                *self = Combatant { manager, action: Some(action), ..*self };
                true
            },
            None => false,
        }
    }

    /// Lets `dt` nanoseconds pass.
    pub fn tick(&mut self, dt: u64) -> (report: TickReport)
        ensures
            final(self)@ == old(self)@.tick(dt as nat),
            report == old(self)@.report(dt as nat),
    {
        proof {
            use_type_invariant(&*self);
        }
        match self.action {
            None => TickReport { transition: None, hit_damage: None },
            Some(before) => {
                let mut action = before;
                let transition = action.advance(dt);
                let hit_damage = if transition.hit_window {
                    Some(before.damage())
                } else {
                    None
                };
                proof {
                    use_type_invariant(&action);
                }
                let mut manager = self.manager;
                if transition.change == PhaseChange::Remove {
                    manager.sync_latch(false);
                    *self = Combatant { manager, action: None, attack_mode: None };
                } else {
                    *self = Combatant { manager, action: Some(action), ..*self };
                }
                TickReport { transition: Some(transition), hit_damage }
            },
        }
    }
}

} // verus!
