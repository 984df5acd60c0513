//! Which bones of an attacker strike: the one-time build of its colliders.

use crate::hit::AttackCollider;
use vstd::prelude::*;

verus! {

/// A named part of an attacker's body.
#[derive(Debug)]
pub struct Bone {
    pub entity: u64,
    pub name: String,
}

/// Whether `part` occurs in `text` as a run of characters.
pub open spec fn has_infix(text: Seq<char>, part: Seq<char>) -> bool {
    exists|start: int|
        0 <= start <= text.len() - part.len() && #[trigger] text.subrange(
            start,
            start + part.len(),
        ) == part
}

/// The bones that strike: the one of the hand, and every finger.
pub open spec fn is_strike_bone(name: Seq<char>) -> bool {
    name == "Bone.023"@ || has_infix(name, "Finger"@)
}

/// The collider that a bone gets where it strikes for `owner`.
pub open spec fn collider_on(owner: u64, bone: Bone) -> AttackCollider {
    AttackCollider { entity: bone.entity, parent: owner }
}

/// The colliders of an attacker: one on each of its bones that strike, in
/// the order of the bones.
pub open spec fn colliders_for(owner: u64, bones: Seq<Bone>) -> Seq<AttackCollider> {
    bones.filter(|bone: Bone| is_strike_bone(bone.name@)).map_values(
        |bone: Bone| collider_on(owner, bone),
    )
}

/// std's `==` on two strings. The contract claims that it holds exactly of
/// strings with the same characters.
#[verifier::external_body]
fn same_text(left: &str, right: &str) -> (same: bool)
    ensures
        same == (left@ == right@),
{
    left == right
}

/// std's `str::contains` with a string as the pattern. The contract claims
/// that it holds exactly where the pattern occurs in the text.
#[verifier::external_body]
fn contains_text(text: &str, part: &str) -> (found: bool)
    ensures
        found == has_infix(text@, part@),
{
    text.contains(part)
}

/// Whether the bone of the given name strikes.
pub fn names_strike_bone(name: &str) -> (strikes: bool)
    ensures
        strikes == is_strike_bone(name@),
{
    same_text(name, "Bone.023") || contains_text(name, "Finger")
}

/// Builds the colliders of one attacker from the bones below it.
pub fn setup_attack_colliders(owner: u64, bones: &Vec<Bone>) -> (colliders: Vec<AttackCollider>)
    ensures
        colliders@ == colliders_for(owner, bones@),
{
    let mut colliders: Vec<AttackCollider> = Vec::new();
    let mut i: usize = 0;
    while i < bones.len()
        invariant
            i <= bones.len(),
            colliders@ == colliders_for(owner, bones@.take(i as int)),
        decreases bones.len() - i,
    {
        proof {
            assert(bones@.take(i + 1).drop_last() =~= bones@.take(i as int));
            reveal(Seq::filter);
        }
        if names_strike_bone(bones[i].name.as_str()) {
            colliders.push(AttackCollider { entity: bones[i].entity, parent: owner });
        }
        i += 1;
    }
    proof {
        assert(bones@.take(bones.len() as int) =~= bones@);
    }
    colliders
}

/// Whether some bone that strikes carries the given entity.
pub open spec fn strikes_with(bones: Seq<Bone>, entity: u64) -> bool {
    exists|b: int|
        0 <= b < bones.len() && is_strike_bone((#[trigger] bones[b]).name@) && bones[b].entity
            == entity
}

/// Whether some collider among `colliders` sits on the given entity.
pub open spec fn sits_on(colliders: Seq<AttackCollider>, entity: u64) -> bool {
    exists|k: int| 0 <= k < colliders.len() && (#[trigger] colliders[k]).entity == entity
}

/// Every collider that is built belongs to the owner and sits on a bone
/// that strikes, and every bone that strikes gets one.
pub proof fn lemma_colliders_sit_on_strike_bones(owner: u64, bones: Seq<Bone>)
    ensures
        forall|k: int|
            0 <= k < colliders_for(owner, bones).len() ==> (#[trigger] colliders_for(
                owner,
                bones,
            )[k]).parent == owner,
        forall|entity: u64|
            #[trigger] sits_on(colliders_for(owner, bones), entity) <==> strikes_with(
                bones,
                entity,
            ),
{
    let pred = |bone: Bone| is_strike_bone(bone.name@);
    let kept = bones.filter(pred);
    let made = colliders_for(owner, bones);
    assert forall|entity: u64| #[trigger] sits_on(made, entity) implies strikes_with(
        bones,
        entity,
    ) by {
        let k = choose|k: int| 0 <= k < made.len() && (#[trigger] made[k]).entity == entity;
        bones.lemma_filter_contains_rev(pred, kept[k]);
    }
    assert forall|entity: u64| strikes_with(bones, entity) implies #[trigger] sits_on(
        made,
        entity,
    ) by {
        let b = choose|b: int|
            0 <= b < bones.len() && is_strike_bone((#[trigger] bones[b]).name@) && bones[b].entity
                == entity;
        bones.lemma_filter_contains(pred, b);
        let k = choose|k: int| 0 <= k < kept.len() && kept[k] == bones[b];
        assert(made[k].entity == entity);
    }
}

} // verus!
