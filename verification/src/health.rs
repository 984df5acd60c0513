//! Health, the events that change it, and the ledger that applies them.

use crate::error::ConfigurationError;
use std::collections::HashMap;
use vstd::prelude::*;

verus! {

broadcast use vstd::std_specs::hash::group_hash_axioms;

/// What the health of an entity is: how much is left, and how much there
/// can be.
pub struct HealthState {
    pub current: int,
    pub max: int,
}

/// `value` brought into the range from `low` to `high`.
pub open spec fn clamp(value: int, low: int, high: int) -> int {
    if value < low {
        low
    } else if value > high {
        high
    } else {
        value
    }
}

impl HealthState {
    /// Health is never below zero and never above its maximum.
    pub open spec fn wf(self) -> bool {
        0 <= self.current <= self.max
    }

    pub open spec fn full(max: int) -> HealthState {
        HealthState { current: max, max }
    }

    pub open spec fn is_dead(self) -> bool {
        self.current <= 0
    }

    /// The health after `amount` is added to it: a loss where `amount` is
    /// negative, a gain where it is positive.
    pub open spec fn apply(self, amount: int) -> HealthState {
        HealthState { current: clamp(self.current + amount, 0, self.max), max: self.max }
    }

    /// Whether adding `amount` takes the entity from life to death.
    pub open spec fn dies(self, amount: int) -> bool {
        self.current > 0 && self.apply(amount).current <= 0
    }
}

/// The health of one entity.
#[derive(Clone, Copy, Debug)]
pub struct Health {
    current_health: i32,
    max_health: i32,
}

impl View for Health {
    type V = HealthState;

    closed spec fn view(&self) -> HealthState {
        HealthState { current: self.current_health as int, max: self.max_health as int }
    }
}

impl Health {
    /// Every health that the program holds is within its bounds.
    #[verifier::type_invariant]
    pub open spec fn inv(self) -> bool {
        self@.wf()
    }

    /// Full health with the given maximum. A maximum below zero is refused.
    pub fn new(max_health: i32) -> (made: Result<Health, ConfigurationError>)
        ensures
            made.is_err() <==> max_health < 0,
            made.is_err() ==> made == Err::<Health, _>(ConfigurationError::NegativeMaxHealth),
            made.is_ok() ==> made.unwrap()@ == HealthState::full(max_health as int),
    {
        if max_health < 0 {
            return Err(ConfigurationError::NegativeMaxHealth);
        }
        Ok(Health { current_health: max_health, max_health })
    }

    pub fn current(&self) -> (current: i32)
        ensures
            current == self@.current,
            self@.wf(),
    {
        proof {
            use_type_invariant(self);
        }
        self.current_health
    }

    pub fn max(&self) -> (max: i32)
        ensures
            max == self@.max,
            self@.wf(),
    {
        proof {
            use_type_invariant(self);
        }
        self.max_health
    }

    pub fn is_dead(&self) -> (dead: bool)
        ensures
            dead == self@.is_dead(),
    {
        self.current_health <= 0
    }

    /// Adds `amount` to the health and says whether that was the death of
    /// the entity.
    pub fn apply(&mut self, amount: i32) -> (died: bool)
        ensures
            final(self)@ == old(self)@.apply(amount as int),
            died == old(self)@.dies(amount as int),
    {
        proof {
            use_type_invariant(&*self);
        }
        let before = self.current_health;
        let sum: i64 = before as i64 + amount as i64;
        let after: i32 = if sum < 0 {
            0
        } else if sum > self.max_health as i64 {
            self.max_health
        } else {
            sum as i32
        };
        *self = Health { current_health: after, max_health: self.max_health };
        before > 0 && after <= 0
    }
}

/// A change to the health of one entity: a loss where `amount` is negative.
#[derive(Clone, Copy, Debug, PartialEq, Eq, Structural)]
pub struct HealthModifyEvent {
    pub amount: i32,
    pub damaged_entity: u64,
}

/// The death of an entity.
#[derive(Clone, Copy, Debug, PartialEq, Eq, Structural)]
pub struct DeathEvent(pub u64);

/// The healths of all entities by identifier, as a ledger sees them.
pub type Healths = Map<u64, HealthState>;

/// Every health in the ledger is within its bounds.
pub open spec fn healths_wf(healths: Healths) -> bool {
    forall|entity: u64| healths.contains_key(entity) ==> (#[trigger] healths[entity]).wf()
}

/// The healths after one event. An event for an entity that has no health
/// changes nothing.
pub open spec fn healths_after(healths: Healths, event: HealthModifyEvent) -> Healths {
    if healths.contains_key(event.damaged_entity) {
        healths.insert(
            event.damaged_entity,
            healths[event.damaged_entity].apply(event.amount as int),
        )
    } else {
        healths
    }
}

/// Whether the event is the death of its target.
pub open spec fn kills(healths: Healths, event: HealthModifyEvent) -> bool {
    healths.contains_key(event.damaged_entity) && healths[event.damaged_entity].dies(
        event.amount as int,
    )
}

/// The healths after the given events, in order.
pub open spec fn healths_after_all(healths: Healths, events: Seq<HealthModifyEvent>) -> Healths
    decreases events.len(),
{
    if events.len() == 0 {
        healths
    } else {
        healths_after(healths_after_all(healths, events.drop_last()), events.last())
    }
}

/// The deaths that the given events cause, in the order of the events.
pub open spec fn deaths_from(healths: Healths, events: Seq<HealthModifyEvent>) -> Seq<DeathEvent>
    decreases events.len(),
{
    if events.len() == 0 {
        Seq::empty()
    } else {
        let before = deaths_from(healths, events.drop_last());
        if kills(healths_after_all(healths, events.drop_last()), events.last()) {
            before.push(DeathEvent(events.last().damaged_entity))
        } else {
            before
        }
    }
}

/// How often the given entity dies in `deaths`.
pub open spec fn death_count(deaths: Seq<DeathEvent>, entity: u64) -> nat
    decreases deaths.len(),
{
    if deaths.len() == 0 {
        0
    } else {
        death_count(deaths.drop_last(), entity) + if deaths.last() == DeathEvent(entity) {
            1nat
        } else {
            0nat
        }
    }
}

/// Whether no event in `events` adds health to the given entity.
pub open spec fn only_harms(events: Seq<HealthModifyEvent>, entity: u64) -> bool {
    forall|k: int|
        0 <= k < events.len() && (#[trigger] events[k]).damaged_entity == entity
            ==> events[k].amount <= 0
}

/// Health stays within its bounds under every change, and its maximum stays
/// what it was.
pub proof fn lemma_apply_clamps(health: HealthState, amount: int)
    requires
        health.wf(),
    ensures
        health.apply(amount).wf(),
        health.apply(amount).max == health.max,
{
}

/// The dead do not die again: a change to an entity that is at zero is no
/// death, whatever the amount.
pub proof fn lemma_dead_do_not_die(health: HealthState, amount: int)
    requires
        health.wf(),
        health.is_dead(),
    ensures
        !health.dies(amount),
        amount <= 0 ==> health.apply(amount) == health,
{
}

/// One event changes no health but its target's, whose maximum it keeps,
/// and leaves the ledger with the same entities.
pub proof fn lemma_event_touches_target_only(healths: Healths, event: HealthModifyEvent)
    requires
        healths_wf(healths),
    ensures
        healths_wf(healths_after(healths, event)),
        healths_after(healths, event).dom() == healths.dom(),
        forall|entity: u64|
            healths.contains_key(entity) && entity != event.damaged_entity ==> healths_after(
                healths,
                event,
            )[entity] == healths[entity],
        forall|entity: u64|
            healths.contains_key(entity) ==> (#[trigger] healths_after(healths, event)[entity]).max
                == healths[entity].max,
{
}

/// The fold over one event more is the fold so far and then that event.
pub proof fn lemma_events_unfold(healths: Healths, events: Seq<HealthModifyEvent>, k: int)
    requires
        0 <= k < events.len(),
    ensures
        healths_after_all(healths, events.take(k + 1)) == healths_after(
            healths_after_all(healths, events.take(k)),
            events[k],
        ),
        deaths_from(healths, events.take(k + 1)) == if kills(
            healths_after_all(healths, events.take(k)),
            events[k],
        ) {
            deaths_from(healths, events.take(k)).push(DeathEvent(events[k].damaged_entity))
        } else {
            deaths_from(healths, events.take(k))
        },
{
    assert(events.take(k + 1).drop_last() =~= events.take(k));
}

/// Health is clamped throughout. After every event of any sequence of
/// events, each health in the ledger is at least zero and at most its
/// maximum, the maxima are what they were, and no entity has come or gone.
pub proof fn lemma_health_stays_clamped(healths: Healths, events: Seq<HealthModifyEvent>, k: int)
    requires
        healths_wf(healths),
        0 <= k <= events.len(),
    ensures
        healths_wf(healths_after_all(healths, events.take(k))),
        healths_after_all(healths, events.take(k)).dom() == healths.dom(),
        forall|entity: u64|
            healths.contains_key(entity) ==> (#[trigger] healths_after_all(
                healths,
                events.take(k),
            )[entity]).max == healths[entity].max,
    decreases k,
{
    if k > 0 {
        lemma_health_stays_clamped(healths, events, k - 1);
        lemma_events_unfold(healths, events, k - 1);
    }
}

/// An entity dies once. Over any sequence of events that does not heal it,
/// an entity dies at most once: exactly once if it was alive before and is
/// at zero after, and never otherwise. Further harm to the dead is no
/// further death.
pub proof fn lemma_single_death(healths: Healths, events: Seq<HealthModifyEvent>, entity: u64)
    requires
        healths_wf(healths),
        only_harms(events, entity),
    ensures
        death_count(deaths_from(healths, events), entity) <= 1,
        death_count(deaths_from(healths, events), entity) == 1 <==> healths.contains_key(entity)
            && healths[entity].current > 0 && healths_after_all(healths, events)[entity].current
            == 0,
        healths.contains_key(entity) ==> healths_after_all(healths, events)[entity].current
            <= healths[entity].current,
    decreases events.len(),
{
    if events.len() > 0 {
        let before = events.drop_last();
        let last = events.last();
        assert(only_harms(before, entity)) by {
            assert forall|k: int| 0 <= k < before.len() implies before[k] == events[k] by {}
        }
        lemma_single_death(healths, before, entity);
        lemma_health_stays_clamped(healths, events, events.len() - 1);
        let mid = healths_after_all(healths, before);
        let deaths = deaths_from(healths, before);
        if kills(mid, last) {
            assert(deaths.push(DeathEvent(last.damaged_entity)).drop_last() =~= deaths);
        }
    }
}

/// How many events in `events` add health to the given entity.
pub open spec fn heal_count(events: Seq<HealthModifyEvent>, entity: u64) -> nat
    decreases events.len(),
{
    if events.len() == 0 {
        0
    } else {
        heal_count(events.drop_last(), entity) + if events.last().damaged_entity == entity
            && events.last().amount > 0 {
            1nat
        } else {
            0nat
        }
    }
}

/// An entity dies once for each time that it runs out of health. Whatever
/// the events, it cannot die again before it has been healed: it dies at
/// most once more often than it is healed, and as often at most if it is
/// alive in the end.
pub proof fn lemma_death_needs_life(
    healths: Healths,
    events: Seq<HealthModifyEvent>,
    entity: u64,
)
    requires
        healths_wf(healths),
    ensures
        death_count(deaths_from(healths, events), entity) + if healths.contains_key(entity)
            && healths_after_all(healths, events)[entity].current > 0 {
            1nat
        } else {
            0nat
        } <= heal_count(events, entity) + 1,
        !healths.contains_key(entity) ==> death_count(deaths_from(healths, events), entity) == 0,
    decreases events.len(),
{
    if events.len() > 0 {
        let before = events.drop_last();
        let last = events.last();
        lemma_death_needs_life(healths, before, entity);
        lemma_health_stays_clamped(healths, events, events.len() - 1);
        let mid = healths_after_all(healths, before);
        let deaths = deaths_from(healths, before);
        if kills(mid, last) {
            assert(deaths.push(DeathEvent(last.damaged_entity)).drop_last() =~= deaths);
        }
    }
}

/// Events for different targets do not depend on their order.
pub proof fn lemma_independent_events_commute(
    healths: Healths,
    first: HealthModifyEvent,
    second: HealthModifyEvent,
)
    requires
        first.damaged_entity != second.damaged_entity,
    ensures
        healths_after(healths_after(healths, first), second) == healths_after(
            healths_after(healths, second),
            first,
        ),
        kills(healths_after(healths, first), second) == kills(healths, second),
        kills(healths_after(healths, second), first) == kills(healths, first),
{
}

/// Taking an entity out of the ledger twice is taking it out once.
pub proof fn lemma_removal_is_idempotent(healths: Healths, entity: u64)
    ensures
        healths.remove(entity).remove(entity) == healths.remove(entity),
        !healths.contains_key(entity) ==> healths.remove(entity) == healths,
{
}

/// A death is always the death of the target of an event, and that target
/// is at zero right after.
pub proof fn lemma_death_has_cause(healths: Healths, events: Seq<HealthModifyEvent>, k: int)
    requires
        healths_wf(healths),
        0 <= k < events.len(),
        kills(healths_after_all(healths, events.take(k)), events[k]),
    ensures
        healths.contains_key(events[k].damaged_entity),
        healths_after_all(healths, events.take(k))[events[k].damaged_entity].current > 0,
        healths_after_all(healths, events.take(k + 1))[events[k].damaged_entity].current == 0,
{
    lemma_health_stays_clamped(healths, events, k);
    lemma_events_unfold(healths, events, k);
}

/// The healths of the entities that can be hurt.
#[derive(Debug)]
pub struct HealthLedger {
    entries: HashMap<u64, Health>,
}

impl View for HealthLedger {
    type V = Healths;

    closed spec fn view(&self) -> Healths {
        self.entries@.map_values(|health: Health| health@)
    }
}

impl HealthLedger {
    #[verifier::type_invariant]
    closed spec fn inv(self) -> bool {
        forall|entity: u64|
            self.entries@.contains_key(entity) ==> (#[trigger] self.entries@[entity]).inv()
    }

    /// A ledger without entries.
    pub fn new() -> (ledger: HealthLedger)
        ensures
            ledger@ == Map::<u64, HealthState>::empty(),
            healths_wf(ledger@),
    {
        HealthLedger { entries: HashMap::new() }
    }

    /// Enters the health of an entity, in place of any that it had.
    pub fn insert(&mut self, entity: u64, health: Health)
        ensures
            final(self)@ == old(self)@.insert(entity, health@),
            healths_wf(final(self)@),
    {
        proof {
            use_type_invariant(&*self);
            use_type_invariant(&health);
        }
        let mut entries = HashMap::new();
        std::mem::swap(&mut entries, &mut self.entries);
        entries.insert(entity, health);
        self.entries = entries;
    }

    /// The health of an entity, if the ledger has it.
    pub fn get(&self, entity: u64) -> (found: Option<Health>)
        ensures
            healths_wf(self@),
            found.is_some() == self@.contains_key(entity),
            found.is_some() ==> found.unwrap()@ == self@[entity],
    {
        proof {
            use_type_invariant(self);
        }
        match self.entries.get(&entity) {
            Some(health) => Some(*health),
            None => None,
        }
    }

    /// Takes a dead entity out of the ledger. An entity that is not in it
    /// is left out of it: the same death may be handled twice.
    pub fn on_death(&mut self, death: DeathEvent)
        ensures
            final(self)@ == old(self)@.remove(death.0),
            healths_wf(final(self)@),
    {
        proof {
            use_type_invariant(&*self);
        }
        let mut entries = HashMap::new();
        std::mem::swap(&mut entries, &mut self.entries);
        entries.remove(&death.0);
        self.entries = entries;
    }

    /// Applies one event, and says whether it was the death of its target.
    /// An event for an entity that is not in the ledger is dropped.
    pub fn apply_event(&mut self, event: HealthModifyEvent) -> (died: bool)
        ensures
            final(self)@ == healths_after(old(self)@, event),
            died == kills(old(self)@, event),
            healths_wf(final(self)@),
    {
        proof {
            use_type_invariant(&*self);
        }
        let found = self.get(event.damaged_entity);
        match found {
            Some(before) => {
                let mut health = before;
                let died = health.apply(event.amount);
                self.insert(event.damaged_entity, health);
                died
            },
            None => false,
        }
    }

    /// Applies the events in their order and returns the deaths that they
    /// cause, in that order.
    pub fn apply(&mut self, events: &Vec<HealthModifyEvent>) -> (deaths: Vec<DeathEvent>)
        ensures
            final(self)@ == healths_after_all(old(self)@, events@),
            deaths@ == deaths_from(old(self)@, events@),
            healths_wf(final(self)@),
    {
        let mut deaths: Vec<DeathEvent> = Vec::new();
        let mut i: usize = 0;
        proof {
            use_type_invariant(&*self);
        }
        while i < events.len()
            invariant
                i <= events.len(),
                self@ == healths_after_all(old(self)@, events@.take(i as int)),
                deaths@ == deaths_from(old(self)@, events@.take(i as int)),
                healths_wf(self@),
            decreases events.len() - i,
        {
            let event = events[i];
            proof {
                lemma_events_unfold(old(self)@, events@, i as int);
            }
            if self.apply_event(event) {
                deaths.push(DeathEvent(event.damaged_entity));
            }
            i += 1;
        }
        proof {
            assert(events@.take(events.len() as int) =~= events@);
        }
        deaths
    }
}

} // verus!
