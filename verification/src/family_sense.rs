//! What belonging to one another comes to: who leaves is no longer listed, who is removed takes along
//! what belongs to it, and pairs and lists keep their order.
use vstd::prelude::*;
use crate::entity::Entity;
use crate::events::pair_of;
use crate::hierarchy::{
    attached, distinct_views, law_removed_entity_is_gone, left_parent, lemma_left_parent_distinct,
    lemma_removals_distinct, lemma_view_row_range, removal, removal_of_all, struck, view_row, without,
    MemberView,
};
use crate::scene_deps::first_missing;

verus! {

/// Of two entities the one with the smaller index is named first, and both are named.
pub proof fn law_lower_entity_is_named_first(a: Entity, b: Entity)
    ensures
        pair_of(a, b).0.index_of() <= pair_of(a, b).1.index_of(),
        pair_of(a, b) == (a, b) || pair_of(a, b) == (b, a),
{
}

/// A list that an entity has left has all others in it, and not the entity.
pub proof fn law_who_leaves_is_not_listed(list: Seq<Entity>, entity: Entity, other: Entity)
    ensures
        !without(list, entity).contains(entity),
        other != entity ==> without(list, entity).contains(other) == list.contains(other),
        without(list, entity).len() <= list.len(),
        !list.contains(entity) ==> without(list, entity) == list,
    decreases list.len(),
{
    if list.len() > 0 {
        let rest = list.drop_last();
        let less = without(rest, entity);
        law_who_leaves_is_not_listed(rest, entity, other);
        assert(list == rest.push(list.last()));
        vstd::seq_lib::lemma_seq_contains_after_push(rest, list.last(), other);
        vstd::seq_lib::lemma_seq_contains_after_push(rest, list.last(), entity);
        if list.last() != entity {
            vstd::seq_lib::lemma_seq_contains_after_push(less, list.last(), entity);
            vstd::seq_lib::lemma_seq_contains_after_push(less, list.last(), other);
        }
    }
}

/// An entity that leaves its parent is no longer among the parent's children, and nobody else's
/// children change.
pub proof fn law_leaving_is_of_one_parent(members: Seq<MemberView>, entity: Entity, k: int)
    requires
        0 <= k < members.len(),
    ensures
        ({
            let after = left_parent(members, entity);
            let i = view_row(members, entity);
            &&& after.len() == members.len()
            &&& after[k].entity == members[k].entity && after[k].parent == members[k].parent
            &&& i >= 0 && members[i].parent is Some && k == view_row(
                members,
                members[i].parent->Some_0,
            ) ==> !after[k].child_seq().contains(entity)
            &&& i >= 0 && members[i].parent is Some && k != view_row(
                members,
                members[i].parent->Some_0,
            ) ==> after[k] == members[k]
            &&& i >= 0 && members[i].parent is None ==> after[k] == members[k]
        }),
{
    let i = view_row(members, entity);
    lemma_view_row_range(members, entity, members.len() as int);
    if i >= 0 && members[i].parent is Some {
        let p = view_row(members, members[i].parent->Some_0);
        lemma_view_row_range(members, members[i].parent->Some_0, members.len() as int);
        if p >= 0 {
            law_who_leaves_is_not_listed(members[p].child_seq(), entity, entity);
        }
    }
}

/// Attaching a child changes nobody but the child and the parent; the parent keeps the children that it
/// had, in their order, and gets no other; the child keeps its own.
pub proof fn law_attaching_is_between_two(
    members: Seq<MemberView>,
    child: Entity,
    parent: Entity,
    k: int,
)
    requires
        view_row(members, child) >= 0,
        view_row(members, parent) >= 0,
        child != parent,
        0 <= k < members.len(),
    ensures
        ({
            let after = attached(members, child, parent);
            let c = view_row(members, child);
            let p = view_row(members, parent);
            let before = members[p].child_seq();
            &&& k != c && k != p ==> after[k] == members[k]
            &&& after[c].children == members[c].children && after[c].entity == child
            &&& after[p].parent == members[p].parent && after[p].entity == parent
            &&& after[p].child_seq().take(before.len() as int) == before
            &&& after[p].child_seq().len() <= before.len() + 1
            &&& before.contains(child) ==> after[p].child_seq() == before
        }),
{
    lemma_view_row_range(members, child, members.len() as int);
    lemma_view_row_range(members, parent, members.len() as int);
    let p = view_row(members, parent);
    let before = members[p].child_seq();
    assert(before.take(before.len() as int) == before);
    assert(before.push(child).take(before.len() as int) == before);
}

/// Who is not there does not come back when others are removed.
proof fn lemma_gone_stays_gone(members: Seq<MemberView>, entity: Entity, gone: Entity, depth: nat)
    requires
        view_row(members, gone) < 0,
    ensures
        view_row(removal(members, entity, depth).members, gone) < 0,
    decreases depth, 1int, 0int,
{
    lemma_view_row_range(members, gone, members.len() as int);
    if depth > 0 {
        let apart = left_parent(members, entity);
        assert forall|k: int| 0 <= k < apart.len() implies (#[trigger] apart[k]).entity != gone by {
            lemma_leaving_keeps_entities(members, entity, k);
        }
        lemma_absent(apart, gone);
        let i = view_row(apart, entity);
        let children = if i < 0 {
            Seq::empty()
        } else {
            apart[i].child_seq()
        };
        lemma_gone_stay_gone(apart, children, children.len(), gone, (depth - 1) as nat);
        let below = removal_of_all(apart, children, children.len(), (depth - 1) as nat);
        if view_row(below.members, entity) >= 0 {
            lemma_view_row_range(below.members, entity, below.members.len() as int);
            lemma_view_row_range(below.members, gone, below.members.len() as int);
            let after = struck(below.members, entity);
            let at = view_row(below.members, entity);
            assert forall|k: int| 0 <= k < after.len() implies (#[trigger] after[k]).entity
                != gone by {
                let j = if k < at {
                    k
                } else {
                    k + 1
                };
                assert(after[k] == below.members[j]);
            }
            lemma_absent(after, gone);
        }
    }
}

proof fn lemma_gone_stay_gone(
    members: Seq<MemberView>,
    list: Seq<Entity>,
    n: nat,
    gone: Entity,
    depth: nat,
)
    requires
        view_row(members, gone) < 0,
    ensures
        view_row(removal_of_all(members, list, n, depth).members, gone) < 0,
    decreases depth, 2int, n,
{
    if n > 0 {
        lemma_gone_stay_gone(members, list, (n - 1) as nat, gone, depth);
        let before = removal_of_all(members, list, (n - 1) as nat, depth);
        lemma_gone_stays_gone(before.members, list[n - 1], gone, depth);
    }
}

proof fn lemma_leaving_keeps_entities(members: Seq<MemberView>, entity: Entity, k: int)
    requires
        0 <= k < left_parent(members, entity).len(),
    ensures
        left_parent(members, entity).len() == members.len(),
        left_parent(members, entity)[k].entity == members[k].entity,
{
    let i = view_row(members, entity);
    lemma_view_row_range(members, entity, members.len() as int);
    if i >= 0 && members[i].parent is Some {
        lemma_view_row_range(members, members[i].parent->Some_0, members.len() as int);
    }
    law_leaving_is_of_one_parent(members, entity, k);
}

proof fn lemma_absent(members: Seq<MemberView>, gone: Entity)
    requires
        forall|k: int| 0 <= k < members.len() ==> (#[trigger] members[k]).entity != gone,
    ensures
        view_row(members, gone) < 0,
{
    lemma_view_row_range(members, gone, members.len() as int);
}

proof fn lemma_listed_are_gone(
    members: Seq<MemberView>,
    list: Seq<Entity>,
    n: nat,
    k: int,
    depth: nat,
)
    requires
        distinct_views(members),
        0 <= k < n <= list.len(),
        depth > 0,
    ensures
        view_row(removal_of_all(members, list, n, depth).members, list[k]) < 0,
    decreases n,
{
    let before = removal_of_all(members, list, (n - 1) as nat, depth);
    lemma_removals_distinct(members, list, (n - 1) as nat, depth);
    if k < n - 1 {
        lemma_listed_are_gone(members, list, (n - 1) as nat, k, depth);
        lemma_gone_stays_gone(before.members, list[n - 1], list[k], depth);
    } else {
        law_removed_entity_is_gone(before.members, list[k], depth);
    }
}

/// An entity that is removed takes its children along.
pub proof fn law_children_go_with_their_parent(
    members: Seq<MemberView>,
    entity: Entity,
    depth: nat,
    k: int,
)
    requires
        distinct_views(members),
        depth > 1,
        view_row(left_parent(members, entity), entity) >= 0,
        0 <= k < left_parent(members, entity)[view_row(
            left_parent(members, entity),
            entity,
        )].child_seq().len(),
    ensures
        ({
            let apart = left_parent(members, entity);
            let child = apart[view_row(apart, entity)].child_seq()[k];
            view_row(removal(members, entity, depth).members, child) < 0
        }),
{
    let apart = left_parent(members, entity);
    let children = apart[view_row(apart, entity)].child_seq();
    let child = children[k];
    lemma_left_parent_distinct(members, entity);
    lemma_listed_are_gone(apart, children, children.len(), k, (depth - 1) as nat);
    let below = removal_of_all(apart, children, children.len(), (depth - 1) as nat);
    lemma_view_row_range(below.members, child, below.members.len() as int);
    if view_row(below.members, entity) >= 0 {
        let at = view_row(below.members, entity);
        lemma_view_row_range(below.members, entity, below.members.len() as int);
        let after = struck(below.members, entity);
        assert forall|j: int| 0 <= j < after.len() implies (#[trigger] after[j]).entity != child by {
            let i = if j < at {
                j
            } else {
                j + 1
            };
            assert(after[j] == below.members[i]);
        }
        lemma_absent(after, child);
    }
}

/// What is said to be missing is the first that is not there; where none is, all are there.
pub proof fn law_first_missing_is_found(keys: Seq<String>, there: Set<Seq<char>>, from: int)
    requires
        0 <= from <= keys.len(),
    ensures
        from <= first_missing(keys, there, from) <= keys.len(),
        first_missing(keys, there, from) < keys.len() ==> !there.contains(
            keys[first_missing(keys, there, from)]@,
        ),
        forall|i: int|
            from <= i < first_missing(keys, there, from) ==> there.contains((#[trigger] keys[i])@),
    decreases keys.len() - from,
{
    if from < keys.len() && there.contains(keys[from]@) {
        law_first_missing_is_found(keys, there, from + 1);
    }
}

} // verus!
