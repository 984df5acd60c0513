//! Who is struck: from the contacts of an attacker's colliders to the
//! events that take health from each target once.

use crate::health::HealthModifyEvent;
use avian3d::collision::Collisions;
use bevy::ecs::entity::Entity;
use vstd::prelude::*;

verus! {

/// avian's store of the colliders that touch, taken as it is.
#[verifier::external_type_specification]
#[verifier::external_body]
pub struct ExCollisions(Collisions);

/// What `touching` returns: the contacts of the current frame that the
/// collisions hold for the entity with the given bits, in the order in which
/// the collisions hold them.
pub uninterp spec fn contacts_of(collisions: Collisions, entity: u64) -> Seq<Contact>;

/// Asks avian's `Collisions::collisions_with_entity` for the contacts of
/// one entity and gives the two sides of each. The contract claims no more
/// than that the answer depends on the collisions and the entity alone. Bits
/// that are no entity's have no contacts.
#[verifier::external_body]
fn touching(collisions: &Collisions, entity: u64) -> (found: Vec<Contact>)
    ensures
        found@ == contacts_of(*collisions, entity),
{
    match Entity::try_from_bits(entity) {
        Ok(entity) => collisions.collisions_with_entity(entity).map(
            |contacts| (contacts.entity1.to_bits(), contacts.entity2.to_bits()),
        ).collect(),
        Err(_) => Vec::new(),
    }
}

/// A collision volume on the striking limb of an attacker.
#[derive(Clone, Copy, Debug, PartialEq, Eq, Structural)]
pub struct AttackCollider {
    /// The entity that carries the volume.
    pub entity: u64,
    /// The attacker that the volume belongs to.
    pub parent: u64,
}

/// Two entities whose volumes touch.
pub type Contact = (u64, u64);

/// Whether the contact involves the given entity.
pub open spec fn touches(contact: Contact, entity: u64) -> bool {
    contact.0 == entity || contact.1 == entity
}

/// The other side of a contact, seen from the given collider.
pub open spec fn opponent(contact: Contact, collider: u64) -> u64 {
    if contact.0 == collider {
        contact.1
    } else {
        contact.0
    }
}

/// The change of health that a hit of the given damage makes. The damage is
/// taken away; the one damage that has no opposite heals by the most there
/// is.
pub open spec fn damage_delta(damage: i32) -> i32 {
    if damage == i32::MIN {
        i32::MAX
    } else {
        (-damage) as i32
    }
}

/// The contacts among `contacts` that involve the given entity, in their
/// order.
pub open spec fn contacts_with(contacts: Seq<Contact>, entity: u64) -> Seq<Contact> {
    contacts.filter(|contact: Contact| touches(contact, entity))
}

/// `seen` and then the opponents that `collider` has in `touching`, in their
/// order, but for the attacker itself and for those that are there already.
pub open spec fn with_opponents(
    seen: Seq<u64>,
    attacker: u64,
    collider: u64,
    touching: Seq<Contact>,
) -> Seq<u64>
    decreases touching.len(),
{
    if touching.len() == 0 {
        seen
    } else {
        let before = with_opponents(seen, attacker, collider, touching.drop_last());
        let target = opponent(touching.last(), collider);
        if target == attacker || before.contains(target) {
            before
        } else {
            before.push(target)
        }
    }
}

/// The targets that the attacker strikes: for each of its colliders in
/// turn, the opponents of that collider in the contacts that `touching`
/// gives for it, each target once, where it first comes up.
pub open spec fn struck(
    attacker: u64,
    colliders: Seq<AttackCollider>,
    touching: spec_fn(u64) -> Seq<Contact>,
) -> Seq<u64>
    decreases colliders.len(),
{
    if colliders.len() == 0 {
        Seq::empty()
    } else {
        let before = struck(attacker, colliders.drop_last(), touching);
        let collider = colliders.last();
        if collider.parent == attacker {
            with_opponents(before, attacker, collider.entity, touching(collider.entity))
        } else {
            before
        }
    }
}

/// The events that take the damage from each of the targets.
pub open spec fn hits(targets: Seq<u64>, damage: i32) -> Seq<HealthModifyEvent> {
    targets.map_values(
        |target: u64| HealthModifyEvent { amount: damage_delta(damage), damaged_entity: target },
    )
}

/// Whether some collider of the attacker has the target as its opponent in
/// one of its contacts.
pub open spec fn reaches(
    attacker: u64,
    colliders: Seq<AttackCollider>,
    touching: spec_fn(u64) -> Seq<Contact>,
    target: u64,
) -> bool {
    exists|i: int, j: int|
        0 <= i < colliders.len() && colliders[i].parent == attacker && 0 <= j < touching(
            colliders[i].entity,
        ).len() && opponent(#[trigger] touching(colliders[i].entity)[j], colliders[i].entity)
            == target
}

/// Adding the opponents of one collider keeps what was there, adds nothing
/// twice, and adds exactly the opponents that are not the attacker.
pub proof fn lemma_with_opponents(
    seen: Seq<u64>,
    attacker: u64,
    collider: u64,
    touching: Seq<Contact>,
)
    requires
        seen.no_duplicates(),
    ensures
        with_opponents(seen, attacker, collider, touching).no_duplicates(),
        seen.is_prefix_of(with_opponents(seen, attacker, collider, touching)),
        forall|target: u64|
            #[trigger] with_opponents(seen, attacker, collider, touching).contains(target) <==> (
            seen.contains(target) || (target != attacker && exists|j: int|
                0 <= j < touching.len() && opponent(#[trigger] touching[j], collider) == target)),
    decreases touching.len(),
{
    let all = with_opponents(seen, attacker, collider, touching);
    if touching.len() > 0 {
        let rest = touching.drop_last();
        let before = with_opponents(seen, attacker, collider, rest);
        lemma_with_opponents(seen, attacker, collider, rest);
        assert forall|target: u64| #[trigger] all.contains(target) implies (seen.contains(target)
            || (target != attacker && exists|j: int|
            0 <= j < touching.len() && opponent(#[trigger] touching[j], collider) == target)) by {
            if !before.contains(target) {
                assert(opponent(touching[touching.len() - 1], collider) == target);
            } else if !seen.contains(target) {
                let j = choose|j: int|
                    0 <= j < rest.len() && opponent(#[trigger] rest[j], collider) == target;
                assert(touching[j] == rest[j]);
            }
        }
        assert forall|target: u64|
            (seen.contains(target) || (target != attacker && exists|j: int|
                0 <= j < touching.len() && opponent(#[trigger] touching[j], collider)
                    == target)) implies #[trigger] all.contains(target) by {
            if !seen.contains(target) {
                let j = choose|j: int|
                    0 <= j < touching.len() && opponent(#[trigger] touching[j], collider) == target;
                if j < rest.len() {
                    assert(rest[j] == touching[j]);
                }
            }
            if before.contains(target) {
                let k = choose|k: int| 0 <= k < before.len() && before[k] == target;
                assert(all[k] == target);
            } else {
                assert(all[before.len() as int] == target);
            }
        }
    }
}

/// Each target is struck once. No target comes up twice among the struck,
/// however many colliders of the attacker touch it; the attacker is not
/// among them; and a target is among them exactly if some collider of the
/// attacker reaches it.
pub proof fn lemma_struck_once(
    attacker: u64,
    colliders: Seq<AttackCollider>,
    touching: spec_fn(u64) -> Seq<Contact>,
)
    ensures
        struck(attacker, colliders, touching).no_duplicates(),
        !struck(attacker, colliders, touching).contains(attacker),
        forall|target: u64|
            #[trigger] struck(attacker, colliders, touching).contains(target) <==> target
                != attacker && reaches(attacker, colliders, touching, target),
    decreases colliders.len(),
{
    let all = struck(attacker, colliders, touching);
    if colliders.len() > 0 {
        let rest = colliders.drop_last();
        let collider = colliders.last();
        lemma_struck_once(attacker, rest, touching);
        if collider.parent == attacker {
            lemma_with_opponents(
                struck(attacker, rest, touching),
                attacker,
                collider.entity,
                touching(collider.entity),
            );
        }
        assert forall|target: u64|
            target != attacker && reaches(
                attacker,
                colliders,
                touching,
                target,
            ) implies #[trigger] all.contains(target) by {
            let (i, j) = choose|i: int, j: int|
                0 <= i < colliders.len() && colliders[i].parent == attacker && 0 <= j < touching(
                    colliders[i].entity,
                ).len() && opponent(
                    #[trigger] touching(colliders[i].entity)[j],
                    colliders[i].entity,
                ) == target;
            if i < rest.len() {
                assert(opponent(touching(rest[i].entity)[j], rest[i].entity) == target);
            }
        }
    }
}

/// An attacker without colliders strikes nothing.
pub proof fn lemma_no_colliders_no_hits(
    attacker: u64,
    damage: i32,
    colliders: Seq<AttackCollider>,
    touching: spec_fn(u64) -> Seq<Contact>,
)
    requires
        forall|i: int| 0 <= i < colliders.len() ==> (#[trigger] colliders[i]).parent != attacker,
    ensures
        struck(attacker, colliders, touching) == Seq::<u64>::empty(),
        hits(struck(attacker, colliders, touching), damage) == Seq::<HealthModifyEvent>::empty(),
    decreases colliders.len(),
{
    if colliders.len() > 0 {
        lemma_no_colliders_no_hits(attacker, damage, colliders.drop_last(), touching);
    }
}

/// One event for each target. The events of a hit window name no target
/// twice, each takes the same amount, and a target is named exactly if it
/// is not the attacker and some collider of the attacker reaches it.
pub proof fn lemma_one_hit_per_target(
    attacker: u64,
    damage: i32,
    colliders: Seq<AttackCollider>,
    touching: spec_fn(u64) -> Seq<Contact>,
)
    ensures
        forall|i: int, j: int|
            0 <= i < j < hits(struck(attacker, colliders, touching), damage).len() ==> (
            #[trigger] hits(struck(attacker, colliders, touching), damage)[i]).damaged_entity != (
            #[trigger] hits(struck(attacker, colliders, touching), damage)[j]).damaged_entity,
        forall|i: int|
            0 <= i < hits(struck(attacker, colliders, touching), damage).len() ==> (#[trigger] hits(
                struck(attacker, colliders, touching),
                damage,
            )[i]).amount == damage_delta(damage),
        forall|target: u64|
            target != attacker && reaches(attacker, colliders, touching, target) <==> exists|
                i: int,
            |
                0 <= i < hits(struck(attacker, colliders, touching), damage).len() && (
                #[trigger] hits(struck(attacker, colliders, touching), damage)[i]).damaged_entity
                    == target,
{
    let targets = struck(attacker, colliders, touching);
    let events = hits(targets, damage);
    lemma_struck_once(attacker, colliders, touching);
    assert forall|target: u64|
        target != attacker && reaches(attacker, colliders, touching, target) implies exists|
        i: int,
    |
        0 <= i < events.len() && (#[trigger] events[i]).damaged_entity == target by {
        assert(targets.contains(target));
        let i = choose|i: int| 0 <= i < targets.len() && targets[i] == target;
        assert(events[i].damaged_entity == target);
    }
    assert forall|target: u64|
        (exists|i: int|
            0 <= i < events.len() && (#[trigger] events[i]).damaged_entity
                == target) implies target != attacker && reaches(
        attacker,
        colliders,
        touching,
        target,
    ) by {
        assert(targets.contains(target));
    }
}

/// The change of health that a hit of the given damage makes.
pub fn delta_for(damage: i32) -> (delta: i32)
    ensures
        delta == damage_delta(damage),
{
    if damage == i32::MIN {
        i32::MAX
    } else {
        -damage
    }
}

/// The contacts among `contacts` that involve the given entity.
pub fn contacts_involving(contacts: &Vec<Contact>, entity: u64) -> (found: Vec<Contact>)
    ensures
        found@ == contacts_with(contacts@, entity),
{
    let mut found: Vec<Contact> = Vec::new();
    let mut i: usize = 0;
    while i < contacts.len()
        invariant
            i <= contacts.len(),
            found@ == contacts_with(contacts@.take(i as int), entity),
        decreases contacts.len() - i,
    {
        let contact = contacts[i];
        proof {
            assert(contacts@.take(i + 1).drop_last() =~= contacts@.take(i as int));
            reveal(Seq::filter);
        }
        if contact.0 == entity || contact.1 == entity {
            found.push(contact);
        }
        i += 1;
    }
    proof {
        assert(contacts@.take(contacts.len() as int) =~= contacts@);
    }
    found
}

fn holds(targets: &Vec<u64>, target: u64) -> (found: bool)
    ensures
        found == targets@.contains(target),
{
    let mut i: usize = 0;
    while i < targets.len()
        invariant
            i <= targets.len(),
            forall|k: int| 0 <= k < i ==> targets@[k] != target,
        decreases targets.len() - i,
    {
        if targets[i] == target {
            return true;
        }
        i += 1;
    }
    false
}

/// Adds to `targets` the opponents that `collider` has in the contacts
/// `touching`, but for the attacker and for those that are there already.
pub fn add_opponents(
    targets: &mut Vec<u64>,
    attacker: u64,
    collider: u64,
    touching: &Vec<Contact>,
)
    ensures
        final(targets)@ == with_opponents(old(targets)@, attacker, collider, touching@),
{
    let mut i: usize = 0;
    while i < touching.len()
        invariant
            i <= touching.len(),
            targets@ == with_opponents(
                old(targets)@,
                attacker,
                collider,
                touching@.take(i as int),
            ),
        decreases touching.len() - i,
    {
        let contact = touching[i];
        let target = if contact.0 == collider {
            contact.1
        } else {
            contact.0
        };
        proof {
            assert(touching@.take(i + 1).drop_last() =~= touching@.take(i as int));
        }
        if target != attacker && !holds(targets, target) {
            targets.push(target);
        }
        i += 1;
    }
    proof {
        assert(touching@.take(touching.len() as int) =~= touching@);
    }
}

/// The events that take the damage from each of the targets, in their
/// order.
pub fn hits_on(targets: &Vec<u64>, damage: i32) -> (events: Vec<HealthModifyEvent>)
    ensures
        events@ == hits(targets@, damage),
{
    let amount = delta_for(damage);
    let mut events: Vec<HealthModifyEvent> = Vec::new();
    let mut i: usize = 0;
    while i < targets.len()
        invariant
            i <= targets.len(),
            amount == damage_delta(damage),
            events@ == hits(targets@.take(i as int), damage),
        decreases targets.len() - i,
    {
        events.push(HealthModifyEvent { amount, damaged_entity: targets[i] });
        proof {
        }
        i += 1;
    }
    proof {
    }
    events
}

/// Resolves one tick of an open hit window from the contacts of that tick.
/// Every entity that touches a collider of the attacker loses the damage
/// once, however many colliders touch it; the attacker itself loses nothing.
/// The events come in the order in which the targets first come up, collider
/// by collider.
pub fn resolve(
    attacker: u64,
    damage: i32,
    colliders: &Vec<AttackCollider>,
    contacts: &Vec<Contact>,
) -> (events: Vec<HealthModifyEvent>)
    ensures
        events@ == hits(
            struck(attacker, colliders@, |entity: u64| contacts_with(contacts@, entity)),
            damage,
        ),
{
    let ghost touching = |entity: u64| contacts_with(contacts@, entity);
    let mut targets: Vec<u64> = Vec::new();
    let mut i: usize = 0;
    while i < colliders.len()
        invariant
            i <= colliders.len(),
            touching == |entity: u64| contacts_with(contacts@, entity),
            targets@ == struck(attacker, colliders@.take(i as int), touching),
        decreases colliders.len() - i,
    {
        let collider = colliders[i];
        proof {
            assert(colliders@.take(i + 1).drop_last() =~= colliders@.take(i as int));
        }
        if collider.parent == attacker {
            let found = contacts_involving(contacts, collider.entity);
            add_opponents(&mut targets, attacker, collider.entity, &found);
        }
        i += 1;
    }
    proof {
        assert(colliders@.take(colliders.len() as int) =~= colliders@);
    }
    hits_on(&targets, damage)
}

/// Resolves one tick of an open hit window from the collisions that the
/// physics engine holds, as `resolve` does from a list of contacts.
pub fn resolve_collisions(
    attacker: u64,
    damage: i32,
    colliders: &Vec<AttackCollider>,
    collisions: &Collisions,
) -> (events: Vec<HealthModifyEvent>)
    ensures
        events@ == hits(
            struck(attacker, colliders@, |entity: u64| contacts_of(*collisions, entity)),
            damage,
        ),
{
    let ghost touching_spec = |entity: u64| contacts_of(*collisions, entity);
    let mut targets: Vec<u64> = Vec::new();
    let mut i: usize = 0;
    while i < colliders.len()
        invariant
            i <= colliders.len(),
            touching_spec == |entity: u64| contacts_of(*collisions, entity),
            targets@ == struck(attacker, colliders@.take(i as int), touching_spec),
        decreases colliders.len() - i,
    {
        let collider = colliders[i];
        proof {
            assert(colliders@.take(i + 1).drop_last() =~= colliders@.take(i as int));
        }
        if collider.parent == attacker {
            let found = touching(collisions, collider.entity);
            add_opponents(&mut targets, attacker, collider.entity, &found);
        }
        i += 1;
    }
    proof {
        assert(colliders@.take(colliders.len() as int) =~= colliders@);
    }
    hits_on(&targets, damage)
}

} // verus!
