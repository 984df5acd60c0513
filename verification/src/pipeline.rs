//! One tick of the whole fight, in its fixed order: attacks move on, open
//! hit windows are resolved, health is changed, and the dead leave.

use crate::health::{
    deaths_from, healths_after_all, healths_wf, DeathEvent, Health, HealthLedger,
    HealthModifyEvent, HealthState, Healths,
};
use crate::hit::{
    contacts_of, contacts_with, hits, resolve, resolve_collisions, struck, AttackCollider, Contact,
};
use crate::manager::{Combatant, CombatantState};
use avian3d::collision::Collisions;
use vstd::prelude::*;

verus! {

/// An open hit window: the attacker is in its attack phase in this tick and
/// deals the damage to what it touches.
#[derive(Clone, Copy, Debug, PartialEq, Eq, Structural)]
pub struct AttackEvent {
    pub damage: i32,
    pub attacker: u64,
}

/// A combatant and the entity that it is.
#[derive(Clone, Copy, Debug)]
pub struct Entrant {
    pub entity: u64,
    pub combatant: Combatant,
}

/// What an entrant is.
pub struct EntrantState {
    pub entity: u64,
    pub combatant: CombatantState,
}

impl View for Entrant {
    type V = EntrantState;

    open spec fn view(&self) -> EntrantState {
        EntrantState { entity: self.entity, combatant: self.combatant@ }
    }
}

/// The views of the given entrants.
pub open spec fn entrant_states(entrants: Seq<Entrant>) -> Seq<EntrantState> {
    entrants.map_values(|entrant: Entrant| entrant@)
}

/// The entrants after a tick of `dt`.
pub open spec fn ticked(entrants: Seq<EntrantState>, dt: nat) -> Seq<EntrantState> {
    entrants.map_values(
        |entrant: EntrantState|
            EntrantState { entity: entrant.entity, combatant: entrant.combatant.tick(dt) },
    )
}

/// The hit windows that are open in a tick of `dt`, in the order of the
/// entrants.
pub open spec fn windows(entrants: Seq<EntrantState>, dt: nat) -> Seq<AttackEvent>
    decreases entrants.len(),
{
    if entrants.len() == 0 {
        Seq::empty()
    } else {
        let before = windows(entrants.drop_last(), dt);
        match entrants.last().combatant.report(dt).hit_damage {
            Some(damage) => before.push(AttackEvent { damage, attacker: entrants.last().entity }),
            None => before,
        }
    }
}

/// The changes of health that the given hit windows make, window by window.
pub open spec fn all_hits(
    open_windows: Seq<AttackEvent>,
    colliders: Seq<AttackCollider>,
    touching: spec_fn(u64) -> Seq<Contact>,
) -> Seq<HealthModifyEvent>
    decreases open_windows.len(),
{
    if open_windows.len() == 0 {
        Seq::empty()
    } else {
        all_hits(open_windows.drop_last(), colliders, touching) + hits(
            struck(open_windows.last().attacker, colliders, touching),
            open_windows.last().damage,
        )
    }
}

/// Whether the given entity is among the dead.
pub open spec fn is_among(dead: Seq<DeathEvent>, entity: u64) -> bool {
    dead.contains(DeathEvent(entity))
}

/// The healths without those of the dead.
pub open spec fn without_dead(healths: Healths, dead: Seq<DeathEvent>) -> Healths
    decreases dead.len(),
{
    if dead.len() == 0 {
        healths
    } else {
        without_dead(healths, dead.drop_last()).remove(dead.last().0)
    }
}

/// The entrants that are not among the dead.
pub open spec fn surviving(entrants: Seq<EntrantState>, dead: Seq<DeathEvent>) -> Seq<
    EntrantState,
> {
    entrants.filter(|entrant: EntrantState| !is_among(dead, entrant.entity))
}

/// The colliders that neither are nor belong to one of the dead.
pub open spec fn remaining(colliders: Seq<AttackCollider>, dead: Seq<DeathEvent>) -> Seq<
    AttackCollider,
> {
    colliders.filter(
        |collider: AttackCollider|
            !is_among(dead, collider.parent) && !is_among(dead, collider.entity),
    )
}

/// What a fight is: who fights, with which colliders, and the health of
/// everything that can be hurt.
pub struct ArenaState {
    pub entrants: Seq<EntrantState>,
    pub colliders: Seq<AttackCollider>,
    pub healths: Healths,
}

impl ArenaState {
    /// The changes of health that a tick of `dt` makes, given what touches
    /// each collider.
    pub open spec fn changes(self, dt: nat, touching: spec_fn(u64) -> Seq<Contact>) -> Seq<
        HealthModifyEvent,
    > {
        all_hits(windows(self.entrants, dt), self.colliders, touching)
    }

    /// The deaths of a tick of `dt`.
    pub open spec fn deaths(self, dt: nat, touching: spec_fn(u64) -> Seq<Contact>) -> Seq<
        DeathEvent,
    > {
        deaths_from(self.healths, self.changes(dt, touching))
    }

    /// The fight after a tick of `dt`. Every attack takes its step; the hit
    /// windows that were open at the start of the tick are resolved in the
    /// order of the entrants; the changes are applied in that order; and
    /// the dead are taken out with their colliders.
    pub open spec fn tick(self, dt: nat, touching: spec_fn(u64) -> Seq<Contact>) -> ArenaState {
        let dead = self.deaths(dt, touching);
        ArenaState {
            entrants: surviving(ticked(self.entrants, dt), dead),
            colliders: remaining(self.colliders, dead),
            healths: without_dead(
                healths_after_all(self.healths, self.changes(dt, touching)),
                dead,
            ),
        }
    }
}

/// The dead are gone after the tick in which they die: no entity that died
/// has health, fights or strikes any more, and whatever did not die is as
/// the tick left it.
pub proof fn lemma_dead_are_gone(
    s: ArenaState,
    dt: nat,
    touching: spec_fn(u64) -> Seq<Contact>,
    entity: u64,
)
    ensures
        is_among(s.deaths(dt, touching), entity) ==> !s.tick(dt, touching).healths.contains_key(
            entity,
        ),
        !is_among(s.deaths(dt, touching), entity) ==> (s.tick(dt, touching).healths.contains_key(
            entity,
        ) <==> healths_after_all(s.healths, s.changes(dt, touching)).contains_key(entity)),
        !is_among(s.deaths(dt, touching), entity) && s.tick(dt, touching).healths.contains_key(
            entity,
        ) ==> s.tick(dt, touching).healths[entity] == healths_after_all(
            s.healths,
            s.changes(dt, touching),
        )[entity],
        forall|k: int|
            0 <= k < s.tick(dt, touching).entrants.len() ==> !is_among(
                s.deaths(dt, touching),
                (#[trigger] s.tick(dt, touching).entrants[k]).entity,
            ),
        forall|k: int|
            0 <= k < s.tick(dt, touching).colliders.len() ==> !is_among(
                s.deaths(dt, touching),
                (#[trigger] s.tick(dt, touching).colliders[k]).parent,
            ) && !is_among(s.deaths(dt, touching), s.tick(dt, touching).colliders[k].entity),
{
    let dead = s.deaths(dt, touching);
    let after = healths_after_all(s.healths, s.changes(dt, touching));
    lemma_without_dead(after, dead, entity);
    let alive = |entrant: EntrantState| !is_among(dead, entrant.entity);
    let left = |collider: AttackCollider|
        !is_among(dead, collider.parent) && !is_among(dead, collider.entity);
    assert forall|k: int| 0 <= k < s.tick(dt, touching).entrants.len() implies !is_among(
        dead,
        (#[trigger] s.tick(dt, touching).entrants[k]).entity,
    ) by {
        ticked(s.entrants, dt).lemma_filter_pred(alive, k);
    }
    assert forall|k: int| 0 <= k < s.tick(dt, touching).colliders.len() implies !is_among(
        dead,
        (#[trigger] s.tick(dt, touching).colliders[k]).parent,
    ) && !is_among(dead, s.tick(dt, touching).colliders[k].entity) by {
        s.colliders.lemma_filter_pred(left, k);
    }
}

/// Taking out the dead takes out exactly them.
pub proof fn lemma_without_dead(healths: Healths, dead: Seq<DeathEvent>, entity: u64)
    ensures
        without_dead(healths, dead).contains_key(entity) <==> healths.contains_key(entity)
            && !is_among(dead, entity),
        without_dead(healths, dead).contains_key(entity) ==> without_dead(healths, dead)[entity]
            == healths[entity],
    decreases dead.len(),
{
    if dead.len() > 0 {
        lemma_without_dead(healths, dead.drop_last(), entity);
        if is_among(dead, entity) {
            let k = choose|k: int| 0 <= k < dead.len() && dead[k] == DeathEvent(entity);
            if k < dead.len() - 1 {
                assert(dead.drop_last()[k] == DeathEvent(entity));
            }
        }
        if is_among(dead.drop_last(), entity) {
            let k = choose|k: int|
                0 <= k < dead.drop_last().len() && dead.drop_last()[k] == DeathEvent(entity);
            assert(dead[k] == DeathEvent(entity));
        }
        if dead.last().0 == entity {
            assert(dead[dead.len() - 1] == DeathEvent(entity));
        }
    }
}

/// The changes of health that the given hit windows make on the given
/// contacts.
pub fn resolve_windows(
    open_windows: &Vec<AttackEvent>,
    colliders: &Vec<AttackCollider>,
    contacts: &Vec<Contact>,
) -> (events: Vec<HealthModifyEvent>)
    ensures
        events@ == all_hits(
            open_windows@,
            colliders@,
            |entity: u64| contacts_with(contacts@, entity),
        ),
{
    let ghost touching = |entity: u64| contacts_with(contacts@, entity);
    let mut events: Vec<HealthModifyEvent> = Vec::new();
    let mut i: usize = 0;
    while i < open_windows.len()
        invariant
            i <= open_windows.len(),
            touching == |entity: u64| contacts_with(contacts@, entity),
            events@ == all_hits(open_windows@.take(i as int), colliders@, touching),
        decreases open_windows.len() - i,
    {
        let window = open_windows[i];
        let mut found = resolve(window.attacker, window.damage, colliders, contacts);
        proof {
            assert(open_windows@.take(i + 1).drop_last() =~= open_windows@.take(i as int));
        }
        events.append(&mut found);
        i += 1;
    }
    proof {
        assert(open_windows@.take(open_windows.len() as int) =~= open_windows@);
    }
    events
}

/// The changes of health that the given hit windows make on the collisions
/// that the physics engine holds.
pub fn resolve_windows_collisions(
    open_windows: &Vec<AttackEvent>,
    colliders: &Vec<AttackCollider>,
    collisions: &Collisions,
) -> (events: Vec<HealthModifyEvent>)
    ensures
        events@ == all_hits(
            open_windows@,
            colliders@,
            |entity: u64| contacts_of(*collisions, entity),
        ),
{
    let ghost touching = |entity: u64| contacts_of(*collisions, entity);
    let mut events: Vec<HealthModifyEvent> = Vec::new();
    let mut i: usize = 0;
    while i < open_windows.len()
        invariant
            i <= open_windows.len(),
            touching == |entity: u64| contacts_of(*collisions, entity),
            events@ == all_hits(open_windows@.take(i as int), colliders@, touching),
        decreases open_windows.len() - i,
    {
        let window = open_windows[i];
        let mut found = resolve_collisions(window.attacker, window.damage, colliders, collisions);
        proof {
            assert(open_windows@.take(i + 1).drop_last() =~= open_windows@.take(i as int));
        }
        events.append(&mut found);
        i += 1;
    }
    proof {
        assert(open_windows@.take(open_windows.len() as int) =~= open_windows@);
    }
    events
}

/// Whether the given entity is among the dead.
pub fn died(dead: &Vec<DeathEvent>, entity: u64) -> (found: bool)
    ensures
        found == is_among(dead@, entity),
{
    let mut i: usize = 0;
    while i < dead.len()
        invariant
            i <= dead.len(),
            forall|k: int| 0 <= k < i ==> dead@[k] != DeathEvent(entity),
        decreases dead.len() - i,
    {
        if dead[i].0 == entity {
            return true;
        }
        i += 1;
    }
    false
}

/// A fight: who fights, with which colliders, and the health of everything
/// that can be hurt.
#[derive(Debug)]
pub struct Arena {
    entrants: Vec<Entrant>,
    colliders: Vec<AttackCollider>,
    ledger: HealthLedger,
}

impl View for Arena {
    type V = ArenaState;

    closed spec fn view(&self) -> ArenaState {
        ArenaState {
            entrants: entrant_states(self.entrants@),
            colliders: self.colliders@,
            healths: self.ledger@,
        }
    }
}

impl Arena {
    /// A fight that nobody has joined.
    pub fn new() -> (arena: Arena)
        ensures
            arena@.entrants.len() == 0,
            arena@.colliders.len() == 0,
            arena@.healths == Map::<u64, HealthState>::empty(),
    {
        Arena { entrants: Vec::new(), colliders: Vec::new(), ledger: HealthLedger::new() }
    }

    /// Lets a combatant join the fight.
    pub fn add_entrant(&mut self, entity: u64, combatant: Combatant)
        ensures
            final(self)@ == (ArenaState {
                entrants: old(self)@.entrants.push(
                    EntrantState { entity, combatant: combatant@ },
                ),
                ..old(self)@
            }),
    {
        self.entrants.push(Entrant { entity, combatant });
        proof {
            assert(entrant_states(self.entrants@) =~= old(self)@.entrants.push(
                EntrantState { entity, combatant: combatant@ },
            ));
        }
    }

    /// Adds a collider to the fight.
    pub fn add_collider(&mut self, collider: AttackCollider)
        ensures
            final(self)@ == (ArenaState {
                colliders: old(self)@.colliders.push(collider),
                ..old(self)@
            }),
    {
        self.colliders.push(collider);
    }

    /// Gives an entity its health, in place of any that it had.
    pub fn set_health(&mut self, entity: u64, health: Health)
        ensures
            final(self)@ == (ArenaState {
                healths: old(self)@.healths.insert(entity, health@),
                ..old(self)@
            }),
    {
        self.ledger.insert(entity, health);
    }

    /// The health of an entity, if it has any.
    pub fn health(&self, entity: u64) -> (found: Option<Health>)
        ensures
            healths_wf(self@.healths),
            found.is_some() == self@.healths.contains_key(entity),
            found.is_some() ==> found.unwrap()@ == self@.healths[entity],
    {
        self.ledger.get(entity)
    }

    /// How many combatants are in the fight.
    pub fn entrant_count(&self) -> (count: usize)
        ensures
            count == self@.entrants.len(),
    {
        self.entrants.len()
    }

    /// The combatant at the given place among the entrants.
    pub fn entrant(&self, index: usize) -> (found: Option<Entrant>)
        ensures
            found.is_some() == (index < self@.entrants.len()),
            found.is_some() ==> found.unwrap()@ == self@.entrants[index as int],
    {
        if index < self.entrants.len() {
            Some(self.entrants[index])
        } else {
            None
        }
    }

    /// Puts the given combatant in the place of the one at `index`, under
    /// the same entity. Says whether there is such a place.
    pub fn set_combatant(&mut self, index: usize, combatant: Combatant) -> (done: bool)
        ensures
            done == (index < old(self)@.entrants.len()),
            done ==> final(self)@ == (ArenaState {
                entrants: old(self)@.entrants.update(
                    index as int,
                    EntrantState {
                        entity: old(self)@.entrants[index as int].entity,
                        combatant: combatant@,
                    },
                ),
                ..old(self)@
            }),
            !done ==> final(self)@ == old(self)@,
    {
        if index >= self.entrants.len() {
            return false;
        }
        let entity = self.entrants[index].entity;
        self.entrants[index] = Entrant { entity, combatant };
        proof {
            assert(entrant_states(self.entrants@) =~= old(self)@.entrants.update(
                index as int,
                EntrantState { entity, combatant: combatant@ },
            ));
        }
        true
    }

    /// The colliders in the fight.
    pub fn colliders(&self) -> (colliders: &Vec<AttackCollider>)
        ensures
            colliders@ == self@.colliders,
    {
        &self.colliders
    }

    /// Lets every attack take its step, and returns the hit windows that
    /// were open at the start of the tick.
    pub fn advance(&mut self, dt: u64) -> (open_windows: Vec<AttackEvent>)
        ensures
            final(self)@ == (ArenaState {
                entrants: ticked(old(self)@.entrants, dt as nat),
                ..old(self)@
            }),
            open_windows@ == windows(old(self)@.entrants, dt as nat),
    {
        let mut after: Vec<Entrant> = Vec::new();
        let mut open_windows: Vec<AttackEvent> = Vec::new();
        let mut i: usize = 0;
        while i < self.entrants.len()
            invariant
                i <= self.entrants.len(),
                *self == *old(self),
                after@.len() == i,
                entrant_states(after@) == ticked(
                    entrant_states(self.entrants@.take(i as int)),
                    dt as nat,
                ),
                open_windows@ == windows(entrant_states(self.entrants@.take(i as int)), dt as nat),
            decreases self.entrants.len() - i,
        {
            let entrant = self.entrants[i];
            let mut combatant = entrant.combatant;
            let report = combatant.tick(dt);
            proof {
                let so_far = self.entrants@.take(i as int);
                let with_this = self.entrants@.take(i + 1);
                assert(entrant_states(with_this).drop_last() =~= entrant_states(so_far));
                assert(entrant_states(with_this).last() == entrant@);
            }
            let ghost before = after@;
            after.push(Entrant { entity: entrant.entity, combatant });
            match report.hit_damage {
                Some(damage) => {
                    open_windows.push(AttackEvent { damage, attacker: entrant.entity });
                },
                None => {},
            }
            proof {
                let so_far = entrant_states(self.entrants@.take(i as int));
                let with_this = entrant_states(self.entrants@.take(i + 1));
                assert forall|k: int| 0 <= k <= i implies entrant_states(after@)[k] == ticked(
                    with_this,
                    dt as nat,
                )[k] by {
                    if k < i {
                        assert(entrant_states(before)[k] == ticked(so_far, dt as nat)[k]);
                        assert(so_far[k] == with_this[k]);
                    }
                }
                assert(entrant_states(after@) =~= ticked(with_this, dt as nat));
            }
            i += 1;
        }
        proof {
            assert(self.entrants@.take(self.entrants.len() as int) =~= self.entrants@);
        }
        self.entrants = after;
        open_windows
    }

    /// Takes the dead out of the fight, with their colliders.
    pub fn bury(&mut self, dead: &Vec<DeathEvent>)
        ensures
            final(self)@ == (ArenaState {
                entrants: surviving(old(self)@.entrants, dead@),
                colliders: remaining(old(self)@.colliders, dead@),
                healths: without_dead(old(self)@.healths, dead@),
            }),
    {
        let mut i: usize = 0;
        while i < dead.len()
            invariant
                i <= dead.len(),
                self.entrants == old(self).entrants,
                self.colliders == old(self).colliders,
                self.ledger@ == without_dead(old(self).ledger@, dead@.take(i as int)),
            decreases dead.len() - i,
        {
            proof {
                assert(dead@.take(i + 1).drop_last() =~= dead@.take(i as int));
            }
            self.ledger.on_death(dead[i]);
            i += 1;
        }
        proof {
            assert(dead@.take(dead.len() as int) =~= dead@);
        }
        let ghost alive = |entrant: EntrantState| !is_among(dead@, entrant.entity);
        let mut entrants: Vec<Entrant> = Vec::new();
        let mut j: usize = 0;
        while j < self.entrants.len()
            invariant
                j <= self.entrants.len(),
                self.entrants == old(self).entrants,
                self.colliders == old(self).colliders,
                self.ledger@ == without_dead(old(self).ledger@, dead@),
                alive == |entrant: EntrantState| !is_among(dead@, entrant.entity),
                entrant_states(entrants@) == entrant_states(self.entrants@.take(j as int)).filter(
                    alive,
                ),
            decreases self.entrants.len() - j,
        {
            let entrant = self.entrants[j];
            proof {
                let so_far = self.entrants@.take(j as int);
                let with_this = self.entrants@.take(j + 1);
                assert(entrant_states(with_this).drop_last() =~= entrant_states(so_far));
                assert(entrant_states(with_this).last() == entrant@);
                reveal(Seq::filter);
            }
            if !died(dead, entrant.entity) {
                entrants.push(entrant);
                proof {
                    assert(entrant_states(entrants@) =~= entrant_states(
                        self.entrants@.take(j as int),
                    ).filter(alive).push(entrant@));
                }
            }
            j += 1;
        }
        proof {
            assert(self.entrants@.take(self.entrants.len() as int) =~= self.entrants@);
        }
        let ghost left = |collider: AttackCollider|
            !is_among(dead@, collider.parent) && !is_among(dead@, collider.entity);
        let mut colliders: Vec<AttackCollider> = Vec::new();
        let mut k: usize = 0;
        while k < self.colliders.len()
            invariant
                k <= self.colliders.len(),
                self.colliders == old(self).colliders,
                left == |collider: AttackCollider|
                    !is_among(dead@, collider.parent) && !is_among(dead@, collider.entity),
                colliders@ == self.colliders@.take(k as int).filter(left),
            decreases self.colliders.len() - k,
        {
            let collider = self.colliders[k];
            proof {
                assert(self.colliders@.take(k + 1).drop_last() =~= self.colliders@.take(k as int));
                reveal(Seq::filter);
            }
            if !died(dead, collider.parent) && !died(dead, collider.entity) {
                colliders.push(collider);
            }
            k += 1;
        }
        proof {
            assert(self.colliders@.take(self.colliders.len() as int) =~= self.colliders@);
        }
        self.entrants = entrants;
        self.colliders = colliders;
    }

    /// One tick of the fight on the contacts of that tick. Returns the
    /// deaths, in the order in which they came about.
    pub fn tick(&mut self, dt: u64, contacts: &Vec<Contact>) -> (deaths: Vec<DeathEvent>)
        ensures
            final(self)@ == old(self)@.tick(
                dt as nat,
                |entity: u64| contacts_with(contacts@, entity),
            ),
            deaths@ == old(self)@.deaths(
                dt as nat,
                |entity: u64| contacts_with(contacts@, entity),
            ),
    {
        let open_windows = self.advance(dt);
        let events = resolve_windows(&open_windows, &self.colliders, contacts);
        let deaths = self.ledger.apply(&events);
        self.bury(&deaths);
        deaths
    }

    /// One tick of the fight on the collisions that the physics engine
    /// holds. Returns the deaths, in the order in which they came about.
    pub fn tick_collisions(&mut self, dt: u64, collisions: &Collisions) -> (deaths: Vec<
        DeathEvent,
    >)
        ensures
            final(self)@ == old(self)@.tick(
                dt as nat,
                |entity: u64| contacts_of(*collisions, entity),
            ),
            deaths@ == old(self)@.deaths(
                dt as nat,
                |entity: u64| contacts_of(*collisions, entity),
            ),
    {
        let open_windows = self.advance(dt);
        let events = resolve_windows_collisions(&open_windows, &self.colliders, collisions);
        let deaths = self.ledger.apply(&events);
        self.bury(&deaths);
        deaths
    }
}

} // verus!
