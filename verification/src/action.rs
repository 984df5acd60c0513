//! One attack in flight: its phases, and the step that time makes it take.

use crate::error::ConfigurationError;
use crate::timer::{CombatTimer, TimerState};
use vstd::prelude::*;

verus! {

/// The two attacks that a weapon offers.
#[derive(Clone, Copy, Debug, PartialEq, Eq, Structural)]
pub enum AttackType {
    Light,
    Heavy,
}

/// Where an attack stands. `Idle` is the state of a template that has not
/// been started, and of an attack that is over.
#[derive(Clone, Copy, Debug, PartialEq, Eq, Structural)]
pub enum AttackState {
    Windup,
    Attack,
    Cooldown,
    Idle,
}

impl Default for AttackState {
    fn default() -> (state: AttackState)
        ensures
            state == AttackState::Idle,
    {
        AttackState::Idle
    }
}

/// What one tick did to the phase of an attack.
#[derive(Clone, Copy, Debug, PartialEq, Eq, Structural)]
pub enum PhaseChange {
    /// The phase goes on.
    Stay,
    /// The windup is over and the attack phase has begun.
    EnterAttack,
    /// The attack phase is over and the cooldown has begun.
    EnterCooldown,
    /// The attack is over: its owner drops it and may attack again.
    Remove,
}

/// The outcome of one tick of an attack.
#[derive(Clone, Copy, Debug, PartialEq, Eq, Structural)]
pub struct PhaseTransition {
    pub change: PhaseChange,
    /// Whether the tick began in the attack phase, in which hits count.
    pub hit_window: bool,
}

/// What an attack is. Durations are in nanoseconds.
pub struct ActionState {
    pub attack_type: AttackType,
    pub phase: AttackState,
    pub timer: TimerState,
    pub windup: nat,
    pub attack_time: nat,
    pub cooldown: nat,
    pub damage: i32,
}

impl ActionState {
    /// How long the given phase of this attack lasts.
    pub open spec fn phase_duration(self, phase: AttackState) -> nat {
        match phase {
            AttackState::Windup => self.windup,
            AttackState::Attack => self.attack_time,
            AttackState::Cooldown => self.cooldown,
            AttackState::Idle => 0,
        }
    }

    /// The timer of a running attack is the timer of its current phase.
    pub open spec fn wf(self) -> bool {
        &&& self.timer.wf()
        &&& self.phase != AttackState::Idle ==> self.timer.duration == self.phase_duration(
            self.phase,
        )
    }

    /// An attack that has not been started.
    pub open spec fn template(
        attack_type: AttackType,
        windup: nat,
        attack_time: nat,
        cooldown: nat,
        damage: i32,
    ) -> ActionState {
        ActionState {
            attack_type,
            phase: AttackState::Idle,
            timer: TimerState::fresh(0),
            windup,
            attack_time,
            cooldown,
            damage,
        }
    }

    /// This attack put into the given phase, with a timer started for it.
    pub open spec fn entering(self, phase: AttackState) -> ActionState {
        ActionState { phase, timer: TimerState::fresh(self.phase_duration(phase)), ..self }
    }

    /// This attack as it is when its owner starts it.
    pub open spec fn started(self) -> ActionState {
        self.entering(AttackState::Windup)
    }

    /// The phase that follows the given one.
    pub open spec fn next_phase(phase: AttackState) -> AttackState {
        match phase {
            AttackState::Windup => AttackState::Attack,
            AttackState::Attack => AttackState::Cooldown,
            AttackState::Cooldown => AttackState::Idle,
            AttackState::Idle => AttackState::Idle,
        }
    }

    /// Whether a tick of `dt` brings the current phase to its end.
    pub open spec fn expires(self, dt: nat) -> bool {
        self.phase != AttackState::Idle && self.timer.tick(dt).finished()
    }

    /// The attack after a tick of `dt`. A phase that is not over has its
    /// timer moved on. A phase that is over gives way to the next one, whose
    /// timer starts at zero; the cooldown gives way to `Idle` and leaves the
    /// timer as it ended. An idle attack does not change.
    pub open spec fn step(self, dt: nat) -> ActionState {
        match self.phase {
            AttackState::Idle => self,
            AttackState::Cooldown => if self.expires(dt) {
                ActionState { phase: AttackState::Idle, timer: self.timer.tick(dt), ..self }
            } else {
                ActionState { timer: self.timer.tick(dt), ..self }
            },
            _ => if self.expires(dt) {
                self.entering(Self::next_phase(self.phase))
            } else {
                ActionState { timer: self.timer.tick(dt), ..self }
            },
        }
    }

    /// What a tick of `dt` reports to the owner of the attack.
    pub open spec fn signal(self, dt: nat) -> PhaseTransition {
        PhaseTransition {
            change: match self.phase {
                AttackState::Idle => PhaseChange::Remove,
                AttackState::Windup => if self.expires(dt) {
                    PhaseChange::EnterAttack
                } else {
                    PhaseChange::Stay
                },
                AttackState::Attack => if self.expires(dt) {
                    PhaseChange::EnterCooldown
                } else {
                    PhaseChange::Stay
                },
                AttackState::Cooldown => if self.expires(dt) {
                    PhaseChange::Remove
                } else {
                    PhaseChange::Stay
                },
            },
            hit_window: self.phase == AttackState::Attack,
        }
    }

    /// The place of the current phase in the course of an attack.
    pub open spec fn rank(self) -> nat {
        match self.phase {
            AttackState::Windup => 0,
            AttackState::Attack => 1,
            AttackState::Cooldown => 2,
            AttackState::Idle => 3,
        }
    }

    /// The time that the attack has put behind it: the phases that are over
    /// in full, and of the current phase what its timer has counted.
    pub open spec fn progress(self) -> nat {
        match self.phase {
            AttackState::Windup => self.timer.elapsed,
            AttackState::Attack => self.windup + self.timer.elapsed,
            AttackState::Cooldown => self.windup + self.attack_time + self.timer.elapsed,
            AttackState::Idle => self.windup + self.attack_time + self.cooldown,
        }
    }

    /// The time that all three phases take together.
    pub open spec fn total_duration(self) -> nat {
        self.windup + self.attack_time + self.cooldown
    }

    /// The attack after one tick for each entry of `dts`, in order.
    pub open spec fn run(self, dts: Seq<nat>) -> ActionState
        decreases dts.len(),
    {
        if dts.len() == 0 {
            self
        } else {
            self.run(dts.drop_last()).step(dts.last())
        }
    }
}

/// The sum of the ticks in `dts`.
pub open spec fn total_time(dts: Seq<nat>) -> nat
    decreases dts.len(),
{
    if dts.len() == 0 {
        0
    } else {
        total_time(dts.drop_last()) + dts.last()
    }
}

/// One tick keeps an attack well formed, leaves its phase or moves it to the
/// next one, and says so: the phase changes exactly when the tick reports a
/// change, and the reported change is the one that was made.
pub proof fn lemma_step_in_order(s: ActionState, dt: nat)
    requires
        s.wf(),
    ensures
        s.step(dt).wf(),
        s.step(dt).rank() == s.rank() || s.step(dt).rank() == s.rank() + 1,
        s.step(dt).rank() == s.rank() + 1 <==> s.expires(dt),
        s.step(dt).phase == if s.expires(dt) {
            ActionState::next_phase(s.phase)
        } else {
            s.phase
        },
        s.signal(dt).change == PhaseChange::Stay <==> s.phase != AttackState::Idle && !s.expires(
            dt,
        ),
        s.signal(dt).change == PhaseChange::Remove <==> s.step(dt).phase == AttackState::Idle,
        s.signal(dt).change == PhaseChange::EnterAttack <==> s.phase == AttackState::Windup
            && s.step(dt).phase == AttackState::Attack,
        s.signal(dt).change == PhaseChange::EnterCooldown <==> s.phase == AttackState::Attack
            && s.step(dt).phase == AttackState::Cooldown,
        s.step(dt).attack_type == s.attack_type,
        s.step(dt).windup == s.windup,
        s.step(dt).attack_time == s.attack_time,
        s.step(dt).cooldown == s.cooldown,
        s.step(dt).damage == s.damage,
{
}

/// A run of one tick more is the run so far and then that tick.
pub proof fn lemma_run_unfolds(s: ActionState, dts: Seq<nat>, k: int)
    requires
        0 <= k < dts.len(),
    ensures
        s.run(dts.take(k + 1)) == s.run(dts.take(k)).step(dts[k]),
        total_time(dts.take(k + 1)) == total_time(dts.take(k)) + dts[k],
{
    assert(dts.take(k + 1).drop_last() =~= dts.take(k));
}

/// However an attack is ticked, it stays well formed.
pub proof fn lemma_run_wf(s: ActionState, dts: Seq<nat>)
    requires
        s.wf(),
    ensures
        s.run(dts).wf(),
        s.run(dts).windup == s.windup,
        s.run(dts).attack_time == s.attack_time,
        s.run(dts).cooldown == s.cooldown,
        s.run(dts).damage == s.damage,
        s.run(dts).attack_type == s.attack_type,
    decreases dts.len(),
{
    if dts.len() > 0 {
        lemma_run_wf(s, dts.drop_last());
    }
}

/// The phases come in their order. However an attack is ticked, between the
/// state after `i` ticks and the state after `j >= i` ticks the phase has
/// not gone back, and it has moved on by at most one phase for each tick:
/// none is visited again and none is left out.
pub proof fn lemma_phases_in_order(s: ActionState, dts: Seq<nat>, i: int, j: int)
    requires
        s.wf(),
        0 <= i <= j <= dts.len(),
    ensures
        s.run(dts.take(i)).rank() <= s.run(dts.take(j)).rank() <= s.run(dts.take(i)).rank() + (j
            - i),
    decreases j - i,
{
    if i < j {
        lemma_phases_in_order(s, dts, i, j - 1);
        lemma_run_unfolds(s, dts, j - 1);
        lemma_run_wf(s, dts.take(j - 1));
    }
}

/// One tick of a running attack adds its time to the progress of the attack,
/// less what goes past the end of a phase: that much is lost, it is no more
/// than the tick, and nothing is lost while the phase goes on.
pub proof fn lemma_step_progress(s: ActionState, dt: nat)
    requires
        s.wf(),
        s.phase != AttackState::Idle,
    ensures
        s.progress() <= s.step(dt).progress() <= s.progress() + dt,
        !s.expires(dt) ==> s.step(dt).progress() == s.progress() + dt,
        s.expires(dt) ==> s.step(dt).progress() == s.progress() + s.timer.remaining(),
{
}

/// Time is conserved over a run whose ticks all find the attack running.
/// The progress made is the time that was ticked, less what was lost at the
/// end of a phase; with no tick longer than `longest`, each phase that ended
/// lost at most `longest`.
pub proof fn lemma_run_progress(s: ActionState, dts: Seq<nat>, longest: nat)
    requires
        s.wf(),
        forall|k: int| 0 <= k < dts.len() ==> dts[k] <= longest,
        forall|k: int| 0 <= k < dts.len() ==> s.run(dts.take(k)).phase != AttackState::Idle,
    ensures
        s.run(dts).progress() <= s.progress() + total_time(dts),
        s.progress() + total_time(dts) <= s.run(dts).progress() + longest * (s.run(dts).rank()
            - s.rank()),
        s.rank() <= s.run(dts).rank(),
    decreases dts.len(),
{
    if dts.len() > 0 {
        let before = dts.drop_last();
        assert forall|k: int| 0 <= k < before.len() implies s.run(before.take(k)).phase
            != AttackState::Idle by {
            assert(before.take(k) =~= dts.take(k));
        }
        lemma_run_progress(s, before, longest);
        lemma_run_wf(s, before);
        let mid = s.run(before);
        assert(longest * (mid.rank() + 1 - s.rank()) == longest * (mid.rank() - s.rank())
            + longest) by (nonlinear_arith);
        assert(longest * (mid.rank() - s.rank()) >= 0) by (nonlinear_arith)
            requires
                mid.rank() >= s.rank(),
        ;
    }
}

/// A phase takes its duration, within one tick. If a phase is ticked from
/// its start until the tick that ends it, then the ticks add up to at least
/// the duration of the phase, and to less than that plus the longest tick
/// if the phase has any duration at all.
pub proof fn lemma_phase_takes_its_duration(s: ActionState, dts: Seq<nat>, longest: nat)
    requires
        s.wf(),
        s.phase != AttackState::Idle,
        s.timer.elapsed == 0,
        forall|k: int| 0 <= k < dts.len() ==> dts[k] <= longest,
        forall|k: int| 0 <= k < dts.len() ==> s.run(dts.take(k)).phase == s.phase,
        s.run(dts).phase == ActionState::next_phase(s.phase),
    ensures
        dts.len() > 0,
        s.timer.duration <= total_time(dts) <= s.timer.duration + longest,
        s.timer.duration > 0 ==> total_time(dts) < s.timer.duration + longest,
{
    let n = dts.len() - 1;
    let before = dts.take(n);
    assert forall|k: int| 0 <= k < before.len() implies s.run(before.take(k)).phase
        != AttackState::Idle by {
        assert(before.take(k) =~= dts.take(k));
    }
    lemma_run_progress(s, before, longest);
    lemma_run_wf(s, before);
    assert(longest * 0 == 0) by (nonlinear_arith);
    if s.timer.duration > 0 && n > 0 {
        // The tick before the last one left the phase running.
        lemma_run_wf(s, dts.take(n - 1));
    }
}

/// The time that an attack takes is the time of its three phases. If an
/// attack is started and ticked until the tick that ends it, then the ticks
/// add up to at least the three durations together, and to no more than that
/// plus three times the longest tick: one tick's overshoot for each phase.
pub proof fn lemma_time_is_conserved(s: ActionState, dts: Seq<nat>, longest: nat)
    requires
        s.wf(),
        s.phase == AttackState::Windup,
        s.timer.elapsed == 0,
        forall|k: int| 0 <= k < dts.len() ==> dts[k] <= longest,
        forall|k: int| 0 <= k < dts.len() ==> s.run(dts.take(k)).phase != AttackState::Idle,
        s.run(dts).phase == AttackState::Idle,
    ensures
        s.total_duration() <= total_time(dts) <= s.total_duration() + 3 * longest,
{
    lemma_run_progress(s, dts, longest);
    lemma_run_wf(s, dts);
    assert(longest * 3 == 3 * longest) by (nonlinear_arith);
}

/// One attack in flight, or the template of one.
#[derive(Clone, Copy, Debug)]
pub struct CombatAction {
    attack_type: AttackType,
    attack_state: AttackState,
    combat_timer: CombatTimer,
    windup: u64,
    attack_time: u64,
    cooldown: u64,
    damage: i32,
}

impl View for CombatAction {
    type V = ActionState;

    closed spec fn view(&self) -> ActionState {
        ActionState {
            attack_type: self.attack_type,
            phase: self.attack_state,
            timer: self.combat_timer@,
            windup: self.windup as nat,
            attack_time: self.attack_time as nat,
            cooldown: self.cooldown as nat,
            damage: self.damage,
        }
    }
}

impl CombatAction {
    /// Every attack that the program holds is well formed.
    #[verifier::type_invariant]
    pub open spec fn inv(self) -> bool {
        self@.wf()
    }

    /// Makes the template of an attack from its three durations, in
    /// nanoseconds, and its damage. A negative duration is refused.
    pub fn new(
        attack_type: AttackType,
        windup: i64,
        attack_time: i64,
        cooldown: i64,
        damage: i32,
    ) -> (made: Result<CombatAction, ConfigurationError>)
        ensures
            made.is_err() <==> windup < 0 || attack_time < 0 || cooldown < 0,
            made.is_err() ==> made == Err::<CombatAction, _>(ConfigurationError::NegativeDuration),
            made.is_ok() ==> made.unwrap()@ == ActionState::template(
                attack_type,
                windup as nat,
                attack_time as nat,
                cooldown as nat,
                damage,
            ),
    {
        if windup < 0 || attack_time < 0 || cooldown < 0 {
            return Err(ConfigurationError::NegativeDuration);
        }
        Ok(
            CombatAction {
                attack_type,
                attack_state: AttackState::Idle,
                combat_timer: CombatTimer::default(),
                windup: windup as u64,
                attack_time: attack_time as u64,
                cooldown: cooldown as u64,
                damage,
            },
        )
    }

    pub fn attack_type(&self) -> (t: AttackType)
        ensures
            t == self@.attack_type,
    {
        self.attack_type
    }

    pub fn attack_state(&self) -> (phase: AttackState)
        ensures
            phase == self@.phase,
    {
        self.attack_state
    }

    pub fn combat_timer(&self) -> (timer: CombatTimer)
        ensures
            timer@ == self@.timer,
    {
        self.combat_timer
    }

    pub fn windup(&self) -> (d: u64)
        ensures
            d == self@.windup,
    {
        self.windup
    }

    pub fn attack_time(&self) -> (d: u64)
        ensures
            d == self@.attack_time,
    {
        self.attack_time
    }

    pub fn cooldown(&self) -> (d: u64)
        ensures
            d == self@.cooldown,
    {
        self.cooldown
    }

    pub fn damage(&self) -> (d: i32)
        ensures
            d == self@.damage,
    {
        self.damage
    }

    /// The attack as its owner starts it: in its windup, with the timer of
    /// the windup at zero.
    pub fn started(&self) -> (action: CombatAction)
        ensures
            action@ == self@.started(),
    {
        CombatAction {
            attack_state: AttackState::Windup,
            combat_timer: CombatTimer::new(self.windup),
            ..*self
        }
    }

    /// Lets `dt` nanoseconds pass.
    pub fn advance(&mut self, dt: u64) -> (transition: PhaseTransition)
        ensures
            final(self)@ == old(self)@.step(dt as nat),
            transition == old(self)@.signal(dt as nat),
    {
        proof {
            use_type_invariant(&*self);
        }
        let phase = self.attack_state;
        let hit_window = phase == AttackState::Attack;
        if phase == AttackState::Idle {
            return PhaseTransition { change: PhaseChange::Remove, hit_window };
        }
        let mut timer = self.combat_timer;
        timer.tick(dt);
        if !timer.finished() {
            *self = CombatAction { combat_timer: timer, ..*self };
            return PhaseTransition { change: PhaseChange::Stay, hit_window };
        }
        match phase {
            AttackState::Windup => {
                *self = CombatAction {
                    attack_state: AttackState::Attack,
                    combat_timer: CombatTimer::new(self.attack_time),
                    ..*self
                };
                PhaseTransition { change: PhaseChange::EnterAttack, hit_window }
            },
            AttackState::Attack => {
                *self = CombatAction {
                    attack_state: AttackState::Cooldown,
                    combat_timer: CombatTimer::new(self.cooldown),
                    ..*self
                };
                PhaseTransition { change: PhaseChange::EnterCooldown, hit_window }
            },
            _ => {
                *self = CombatAction {
                    attack_state: AttackState::Idle,
                    combat_timer: timer,
                    ..*self
                };
                PhaseTransition { change: PhaseChange::Remove, hit_window }
            },
        }
    }
}

} // verus!
