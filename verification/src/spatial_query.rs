//! What a query of the tree of boxes finds.
use vstd::prelude::*;
use crate::motion::WorldBounds;
use crate::scalar::{Fixed, Scalar};
use crate::spatial::{
    boxes_overlap, each_held_once, entry_added, grown, is_held, met, quarter_cut, seat, tree_wf,
    QuadtreeEntry, QuadtreeNode,
};
use crate::vectors::Vec2;

verus! {

/// Whether a node is another one or lies somewhere below it.
pub open spec fn under<S>(nodes: Seq<QuadtreeNode<S>>, top: int, i: int) -> bool
    decreases nodes.len() - top,
{
    if top < 0 || top >= nodes.len() {
        false
    } else {
        i == top || match nodes[top].children {
            Some(first) => first > top && first + 4 <= nodes.len() && (under(
                nodes,
                first as int,
                i,
            ) || under(nodes, first + 1, i) || under(nodes, first + 2, i) || under(
                nodes,
                first + 3,
                i,
            )),
            None => false,
        }
    }
}

/// Whether a node is one of the quarters of another.
pub open spec fn is_quarter<S>(nodes: Seq<QuadtreeNode<S>>, parent: int, i: int) -> bool {
    &&& 0 <= parent < nodes.len()
    &&& nodes[parent].children is Some
    &&& nodes[parent].children->0 <= i < nodes[parent].children->0 + 4
}

/// The numbers of the boxes that a query at or below a node meets.
pub open spec fn met_numbers<S: Scalar>(
    nodes: Seq<QuadtreeNode<S>>,
    node: int,
    center: Vec2<S>,
    half: Vec2<S>,
) -> Seq<u64>
    decreases nodes.len() - node,
{
    if node < 0 || node >= nodes.len() || !boxes_overlap(
        center,
        half,
        nodes[node].middle(),
        nodes[node].extent(),
    ) {
        Seq::empty()
    } else {
        let own = nodes[node].held();
        match nodes[node].children {
            Some(first) => if first > node && first + 4 <= nodes.len() {
                own + met_numbers(nodes, first as int, center, half) + met_numbers(
                    nodes,
                    first + 1,
                    center,
                    half,
                ) + met_numbers(nodes, first + 2, center, half) + met_numbers(
                    nodes,
                    first + 3,
                    center,
                    half,
                )
            } else {
                own
            },
            None => own,
        }
    }
}

proof fn lemma_met_by_number<S: Scalar>(
    nodes: Seq<QuadtreeNode<S>>,
    entries: Seq<QuadtreeEntry<S>>,
    node: int,
    center: Vec2<S>,
    half: Vec2<S>,
)
    ensures
        met(nodes, entries, node, center, half) == met_numbers(
            nodes,
            node,
            center,
            half,
        ).map_values(|e: u64| entries[e as int].entity.bits),
    decreases nodes.len() - node,
{
    let name = |e: u64| entries[e as int].entity.bits;
    if 0 <= node < nodes.len() {
        if let Some(first) = nodes[node].children {
            if first > node && first + 4 <= nodes.len() {
                lemma_met_by_number(nodes, entries, first as int, center, half);
                lemma_met_by_number(nodes, entries, first + 1, center, half);
                lemma_met_by_number(nodes, entries, first + 2, center, half);
                lemma_met_by_number(nodes, entries, first + 3, center, half);
            }
        }
    }
    assert(met(nodes, entries, node, center, half) =~= met_numbers(
        nodes,
        node,
        center,
        half,
    ).map_values(name));
}

proof fn lemma_under_is_after<S>(nodes: Seq<QuadtreeNode<S>>, top: int, i: int)
    requires
        under(nodes, top, i),
    ensures
        0 <= top <= i < nodes.len(),
    decreases nodes.len() - top,
{
    if i != top {
        let first = nodes[top].children->0 as int;
        if under(nodes, first, i) {
            lemma_under_is_after(nodes, first, i);
        } else if under(nodes, first + 1, i) {
            lemma_under_is_after(nodes, first + 1, i);
        } else if under(nodes, first + 2, i) {
            lemma_under_is_after(nodes, first + 2, i);
        } else {
            lemma_under_is_after(nodes, first + 3, i);
        }
    }
}

/// What lies below a node is a quarter of something that lies below it.
proof fn lemma_under_has_parent<S>(nodes: Seq<QuadtreeNode<S>>, top: int, i: int) -> (parent: int)
    requires
        under(nodes, top, i),
        i != top,
    ensures
        is_quarter(nodes, parent, i),
        under(nodes, top, parent),
        parent < i,
    decreases nodes.len() - top,
{
    let first = nodes[top].children->0 as int;
    if first <= i < first + 4 {
        top
    } else if under(nodes, first, i) {
        lemma_under_has_parent(nodes, first, i)
    } else if under(nodes, first + 1, i) {
        lemma_under_has_parent(nodes, first + 1, i)
    } else if under(nodes, first + 2, i) {
        lemma_under_has_parent(nodes, first + 2, i)
    } else {
        lemma_under_has_parent(nodes, first + 3, i)
    }
}

proof fn lemma_one_line_down<S: Scalar>(
    nodes: Seq<QuadtreeNode<S>>,
    entries: nat,
    a: int,
    b: int,
    i: int,
)
    requires
        tree_wf(nodes, entries),
        under(nodes, a, i),
        under(nodes, b, i),
    ensures
        under(nodes, a, b) || under(nodes, b, a),
    decreases i,
{
    lemma_under_is_after(nodes, a, i);
    if i != a && i != b {
        let p = lemma_under_has_parent(nodes, a, i);
        let q = lemma_under_has_parent(nodes, b, i);
        assert(nodes[p].children is Some && nodes[q].children is Some);
        assert(p == q);
        lemma_under_is_after(nodes, a, p);
        lemma_one_line_down(nodes, entries, a, b, p);
    }
}

/// Nothing lies below two quarters of one node.
proof fn lemma_quarters_are_apart<S: Scalar>(
    nodes: Seq<QuadtreeNode<S>>,
    entries: nat,
    node: int,
    a: int,
    b: int,
    i: int,
)
    requires
        tree_wf(nodes, entries),
        is_quarter(nodes, node, a),
        is_quarter(nodes, node, b),
        a != b,
        under(nodes, a, i),
    ensures
        !under(nodes, b, i),
{
    if under(nodes, b, i) {
        lemma_one_line_down(nodes, entries, a, b, i);
        let (top, low) = if under(nodes, a, b) {
            (a, b)
        } else {
            (b, a)
        };
        let p = lemma_under_has_parent(nodes, top, low);
        lemma_under_is_after(nodes, top, p);
        assert(nodes[p].children is Some && nodes[node].children is Some);
        assert(node < nodes[node].children->0);
    }
}

/// Whether a number is held somewhere below a node.
pub open spec fn held_under<S: Scalar>(nodes: Seq<QuadtreeNode<S>>, top: int, e: u64) -> bool {
    exists|i: int, k: int|
        under(nodes, top, i) && 0 <= k < nodes[i].held().len() && #[trigger] nodes[i].held()[k] == e
}

proof fn lemma_held_further_up<S: Scalar>(
    nodes: Seq<QuadtreeNode<S>>,
    top: int,
    quarter: int,
    e: u64,
)
    requires
        is_quarter(nodes, top, quarter),
        top < nodes[top].children->0,
        nodes[top].children->0 + 4 <= nodes.len(),
        held_under(nodes, quarter, e),
    ensures
        held_under(nodes, top, e),
{
    let (i, k) = choose|i: int, k: int|
        under(nodes, quarter, i) && 0 <= k < nodes[i].held().len()
            && #[trigger] nodes[i].held()[k] == e;
    assert(under(nodes, top, i));
    assert(nodes[i].held()[k] == e);
}

proof fn lemma_met_are_held_below<S: Scalar>(
    nodes: Seq<QuadtreeNode<S>>,
    node: int,
    center: Vec2<S>,
    half: Vec2<S>,
)
    ensures
        forall|e: u64| #[trigger]
            met_numbers(nodes, node, center, half).contains(e) ==> held_under(nodes, node, e),
    decreases nodes.len() - node,
{
    let all = met_numbers(nodes, node, center, half);
    if 0 <= node < nodes.len() && boxes_overlap(
        center,
        half,
        nodes[node].middle(),
        nodes[node].extent(),
    ) {
        let own = nodes[node].held();
        let cut = nodes[node].children is Some && nodes[node].children->0 > node
            && nodes[node].children->0 + 4 <= nodes.len();
        let first = nodes[node].children->0 as int;
        if cut {
            lemma_met_are_held_below(nodes, first, center, half);
            lemma_met_are_held_below(nodes, first + 1, center, half);
            lemma_met_are_held_below(nodes, first + 2, center, half);
            lemma_met_are_held_below(nodes, first + 3, center, half);
        }
        assert forall|e: u64| #[trigger] all.contains(e) implies held_under(nodes, node, e) by {
            let at = choose|at: int| 0 <= at < all.len() && all[at] == e;
            if at < own.len() {
                assert(nodes[node].held()[at] == e);
                assert(under(nodes, node, node));
            } else {
                let q = lemma_met_in_a_quarter(nodes, node, center, half, e, at);
                lemma_held_further_up(nodes, node, first + q, e);
            }
        }
    }
}

proof fn lemma_met_in_a_quarter<S: Scalar>(
    nodes: Seq<QuadtreeNode<S>>,
    node: int,
    center: Vec2<S>,
    half: Vec2<S>,
    e: u64,
    at: int,
) -> (q: int)
    requires
        0 <= node < nodes.len(),
        boxes_overlap(center, half, nodes[node].middle(), nodes[node].extent()),
        nodes[node].held().len() <= at < met_numbers(nodes, node, center, half).len(),
        met_numbers(nodes, node, center, half)[at] == e,
    ensures
        nodes[node].children is Some,
        nodes[node].children->0 > node,
        nodes[node].children->0 + 4 <= nodes.len(),
        0 <= q < 4,
        met_numbers(nodes, nodes[node].children->0 + q, center, half).contains(e),
{
    let own = nodes[node].held();
    let first = nodes[node].children->0 as int;
    let a = met_numbers(nodes, first, center, half);
    let b = met_numbers(nodes, first + 1, center, half);
    let c = met_numbers(nodes, first + 2, center, half);
    let d = met_numbers(nodes, first + 3, center, half);
    let n = at - own.len();
    if n < a.len() {
        assert(a[n] == e);
        0
    } else if n < a.len() + b.len() {
        assert(b[n - a.len()] == e);
        1
    } else if n < a.len() + b.len() + c.len() {
        assert(c[n - a.len() - b.len()] == e);
        2
    } else {
        assert(d[n - a.len() - b.len() - c.len()] == e);
        3
    }
}

proof fn lemma_apart_joins<A>(a: Seq<A>, b: Seq<A>)
    requires
        a.no_duplicates(),
        b.no_duplicates(),
        forall|x: A| #[trigger] a.contains(x) ==> !b.contains(x),
    ensures
        (a + b).no_duplicates(),
        forall|x: A| #[trigger] (a + b).contains(x) <==> a.contains(x) || b.contains(x),
{
    let both = a + b;
    assert forall|x: A| #[trigger] both.contains(x) <==> a.contains(x) || b.contains(x) by {
        if a.contains(x) {
            let i = a.index_of(x);
            assert(both[i] == x);
        } else if b.contains(x) {
            let i = b.index_of(x);
            assert(both[a.len() + i] == x);
        } else if both.contains(x) {
            let i = both.index_of(x);
            if i < a.len() {
                assert(a[i] == x);
            } else {
                assert(b[i - a.len()] == x);
            }
        }
    }
    assert forall|i: int, j: int| 0 <= i < j < both.len() implies both[i] != both[j] by {
        if i < a.len() {
            assert(a.contains(both[i]));
            if j >= a.len() {
                assert(both[j] == b[j - a.len()]);
                assert(b.contains(both[j]));
            }
        }
    }
}

/// Two nodes that have nothing below them in common hold nothing in common below them.
proof fn lemma_held_apart<S: Scalar>(
    nodes: Seq<QuadtreeNode<S>>,
    entries: nat,
    node: int,
    a: int,
    b: int,
    e: u64,
)
    requires
        tree_wf(nodes, entries),
        each_held_once(nodes, entries),
        is_quarter(nodes, node, a),
        is_quarter(nodes, node, b) && a != b || b == node,
        held_under(nodes, a, e),
    ensures
        b == node ==> !nodes[node].held().contains(e),
        b != node ==> !held_under(nodes, b, e),
{
    let (i, k) = choose|i: int, k: int|
        under(nodes, a, i) && 0 <= k < nodes[i].held().len()
            && #[trigger] nodes[i].held()[k] == e;
    lemma_under_is_after(nodes, a, i);
    assert(nodes[node].children->0 > node);
    if b == node && nodes[node].held().contains(e) {
        let m = nodes[node].held().index_of(e);
        assert(nodes[node].held()[m] == nodes[i].held()[k]);
    }
    if b != node && held_under(nodes, b, e) {
        let (j, m) = choose|j: int, m: int|
            under(nodes, b, j) && 0 <= m < nodes[j].held().len()
                && #[trigger] nodes[j].held()[m] == e;
        lemma_under_is_after(nodes, b, j);
        assert(nodes[i].held()[k] == nodes[j].held()[m]);
        lemma_quarters_are_apart(nodes, entries, node, a, b, i);
    }
}

proof fn lemma_met_once<S: Scalar>(
    nodes: Seq<QuadtreeNode<S>>,
    entries: nat,
    node: int,
    center: Vec2<S>,
    half: Vec2<S>,
)
    requires
        tree_wf(nodes, entries),
        each_held_once(nodes, entries),
    ensures
        met_numbers(nodes, node, center, half).no_duplicates(),
    decreases nodes.len() - node,
{
    if 0 <= node < nodes.len() && boxes_overlap(
        center,
        half,
        nodes[node].middle(),
        nodes[node].extent(),
    ) {
        let own = nodes[node].held();
        assert forall|k: int, m: int| 0 <= k < own.len() && 0 <= m < own.len() && k != m implies
            own[k] != own[m] by {
            assert(nodes[node].held()[k] == own[k] && nodes[node].held()[m] == own[m]);
        }
        if nodes[node].children is Some {
            let first = nodes[node].children->0 as int;
            let a = met_numbers(nodes, first, center, half);
            let b = met_numbers(nodes, first + 1, center, half);
            let c = met_numbers(nodes, first + 2, center, half);
            let d = met_numbers(nodes, first + 3, center, half);
            lemma_met_once(nodes, entries, first, center, half);
            lemma_met_once(nodes, entries, first + 1, center, half);
            lemma_met_once(nodes, entries, first + 2, center, half);
            lemma_met_once(nodes, entries, first + 3, center, half);
            lemma_met_are_held_below(nodes, first, center, half);
            lemma_met_are_held_below(nodes, first + 1, center, half);
            lemma_met_are_held_below(nodes, first + 2, center, half);
            lemma_met_are_held_below(nodes, first + 3, center, half);
            assert forall|e: u64| #[trigger] own.contains(e) implies !a.contains(e) by {
                if a.contains(e) {
                    lemma_held_apart(nodes, entries, node, first, node, e);
                }
            }
            lemma_apart_joins(own, a);
            assert forall|e: u64| #[trigger] (own + a).contains(e) implies !b.contains(e) by {
                if b.contains(e) {
                    lemma_held_apart(nodes, entries, node, first + 1, node, e);
                    lemma_held_apart(nodes, entries, node, first + 1, first, e);
                }
            }
            lemma_apart_joins(own + a, b);
            assert forall|e: u64| #[trigger] (own + a + b).contains(e) implies !c.contains(e) by {
                if c.contains(e) {
                    lemma_held_apart(nodes, entries, node, first + 2, node, e);
                    lemma_held_apart(nodes, entries, node, first + 2, first, e);
                    lemma_held_apart(nodes, entries, node, first + 2, first + 1, e);
                }
            }
            lemma_apart_joins(own + a + b, c);
            assert forall|e: u64| #[trigger] (own + a + b + c).contains(e) implies !d.contains(
                e,
            ) by {
                if d.contains(e) {
                    lemma_held_apart(nodes, entries, node, first + 3, node, e);
                    lemma_held_apart(nodes, entries, node, first + 3, first, e);
                    lemma_held_apart(nodes, entries, node, first + 3, first + 1, e);
                    lemma_held_apart(nodes, entries, node, first + 3, first + 2, e);
                }
            }
            lemma_apart_joins(own + a + b + c, d);
        }
    }
}

/// No two boxes belong to the same entity.
pub open spec fn entities_differ<S>(entries: Seq<QuadtreeEntry<S>>) -> bool {
    forall|i: int, j: int|
        #![trigger entries[i], entries[j]]
        0 <= i < j < entries.len() ==> entries[i].entity.bits != entries[j].entity.bits
}

/// Whether an entity is that of one of the boxes.
pub open spec fn has_a_box<S>(entries: Seq<QuadtreeEntry<S>>, bits: u64) -> bool {
    exists|e: int| 0 <= e < entries.len() && (#[trigger] entries[e]).entity.bits == bits
}

/// A query names only entities that have a box in the tree, and none of them twice where every box
/// has its own entity. A tree without nodes answers with nothing.
pub proof fn law_query_names_each_once<S: Scalar>(
    nodes: Seq<QuadtreeNode<S>>,
    entries: Seq<QuadtreeEntry<S>>,
    center: Vec2<S>,
    half: Vec2<S>,
)
    requires
        tree_wf(nodes, entries.len()),
        each_held_once(nodes, entries.len()),
    ensures
        forall|k: int|
            0 <= k < met(nodes, entries, 0, center, half).len() ==> has_a_box(
                entries,
                #[trigger] met(nodes, entries, 0, center, half)[k],
            ),
        entities_differ(entries) ==> met(nodes, entries, 0, center, half).no_duplicates(),
        nodes.len() == 0 ==> met(nodes, entries, 0, center, half).len() == 0,
{
    let all = met(nodes, entries, 0, center, half);
    let numbers = met_numbers(nodes, 0, center, half);
    lemma_met_by_number(nodes, entries, 0, center, half);
    lemma_met_are_held_below(nodes, 0, center, half);
    lemma_met_once(nodes, entries.len(), 0, center, half);
    assert forall|k: int| 0 <= k < all.len() implies numbers[k] < entries.len() && has_a_box(
        entries,
        #[trigger] all[k],
    ) by {
        assert(numbers.contains(numbers[k]));
        let (i, m) = choose|i: int, m: int|
            under(nodes, 0, i) && 0 <= m < nodes[i].held().len()
                && #[trigger] nodes[i].held()[m] == numbers[k];
        lemma_under_is_after(nodes, 0, i);
        assert(nodes[i].held()[m] < entries.len());
        assert(entries[numbers[k] as int].entity.bits == all[k]);
    }
    if entities_differ(entries) {
        assert forall|i: int, j: int| 0 <= i < j < all.len() implies all[i] != all[j] by {
            assert(numbers[i] != numbers[j]);
            let (x, y) = (numbers[i] as int, numbers[j] as int);
            assert(all[i] == entries[x].entity.bits && all[j] == entries[y].entity.bits);
        }
    }
}

/// Whether a box lies within two corners.
pub open spec fn lies_within<S: Scalar>(e: QuadtreeEntry<S>, low: Vec2<S>, high: Vec2<S>) -> bool {
    let min = e.center.minus_spec(e.half);
    let max = e.center.plus_spec(e.half);
    low.x.le_spec(min.x) && max.x.le_spec(high.x) && low.y.le_spec(min.y) && max.y.le_spec(high.y)
}

/// Whether what a tree was before is still there: its nodes cover what they did, and those that
/// had quarters have them still.
pub open spec fn kept<S: Scalar>(
    before: Seq<QuadtreeNode<S>>,
    after: Seq<QuadtreeNode<S>>,
) -> bool {
    &&& before.len() <= after.len()
    &&& forall|i: int|
        0 <= i < before.len() ==> (#[trigger] after[i]).min == before[i].min && after[i].max
            == before[i].max && (before[i].children is Some ==> after[i].children
            == before[i].children)
}

proof fn lemma_under_is_kept<S: Scalar>(
    before: Seq<QuadtreeNode<S>>,
    after: Seq<QuadtreeNode<S>>,
    top: int,
    i: int,
)
    requires
        kept(before, after),
        under(before, top, i),
    ensures
        under(after, top, i),
    decreases before.len() - top,
{
    if i != top {
        let first = before[top].children->0 as int;
        assert(after[top].children == before[top].children);
        if under(before, first, i) {
            lemma_under_is_kept(before, after, first, i);
        } else if under(before, first + 1, i) {
            lemma_under_is_kept(before, after, first + 1, i);
        } else if under(before, first + 2, i) {
            lemma_under_is_kept(before, after, first + 2, i);
        } else {
            lemma_under_is_kept(before, after, first + 3, i);
        }
    }
}

/// The seat of a box lies below where the search for it began, and covers the box if that did.
proof fn lemma_seat_covers<S: Scalar>(
    nodes: Seq<QuadtreeNode<S>>,
    entries: nat,
    e: QuadtreeEntry<S>,
    node: int,
    levels: nat,
)
    requires
        tree_wf(nodes, entries),
        0 <= node < nodes.len(),
    ensures
        ({
            let place = seat(nodes, e, node, levels).0;
            &&& under(nodes, node, place)
            &&& lies_within(e, nodes[node].min, nodes[node].max) ==> lies_within(
                e,
                nodes[place].min,
                nodes[place].max,
            )
        }),
    decreases levels,
{
    if levels > 0 && nodes[node].children is Some {
        if let Some(q) = nodes[node].fitting_quarter(e) {
            assert(quarter_cut(nodes, node, q));
            lemma_seat_covers(
                nodes,
                entries,
                e,
                nodes[node].children->0 + q,
                (levels - 1) as nat,
            );
        }
    }
}

/// Whether a node lies below the root and covers a box if the root does.
pub open spec fn has_room<S: Scalar>(
    nodes: Seq<QuadtreeNode<S>>,
    i: int,
    e: QuadtreeEntry<S>,
) -> bool {
    &&& under(nodes, 0, i)
    &&& lies_within(e, nodes[0].min, nodes[0].max) ==> lies_within(e, nodes[i].min, nodes[i].max)
}

/// Whether every box is held below the root, by a node that covers it if the root does.
pub open spec fn held_in_place<S: Scalar>(
    nodes: Seq<QuadtreeNode<S>>,
    entries: Seq<QuadtreeEntry<S>>,
) -> bool {
    forall|i: int, k: int|
        0 <= i < nodes.len() && 0 <= k < nodes[i].held().len() ==> has_room(
            nodes,
            i,
            entries[(#[trigger] nodes[i].held()[k]) as int],
        )
}

proof fn lemma_grown_holds_in_place<S: Scalar>(
    nodes: Seq<QuadtreeNode<S>>,
    entries: Seq<QuadtreeEntry<S>>,
    n: nat,
    bounds: WorldBounds<S>,
    depth: nat,
    capacity: usize,
)
    requires
        grown(nodes, entries, n, bounds, depth, capacity),
        n <= entries.len(),
        n < u64::MAX,
    ensures
        nodes.len() > 0,
        nodes[0].min == bounds.min,
        nodes[0].max == bounds.max,
        held_in_place(nodes, entries),
    decreases n,
{
    if n > 0 {
        let before = choose|before: Seq<QuadtreeNode<S>>|
            grown(before, entries, (n - 1) as nat, bounds, depth, capacity)
                && #[trigger] entry_added(
                before,
                nodes,
                entries[n - 1],
                (n - 1) as u64,
                0,
                depth,
                capacity,
            );
        lemma_grown_holds_in_place(before, entries, (n - 1) as nat, bounds, depth, capacity);
        assert(kept(before, nodes));
        lemma_seat_covers(nodes, n, entries[n - 1], 0, depth);
        let place = seat(nodes, entries[n - 1], 0, depth).0;
        assert forall|i: int, k: int|
            0 <= i < nodes.len() && 0 <= k < nodes[i].held().len() implies has_room(
            nodes,
            i,
            entries[(#[trigger] nodes[i].held()[k]) as int],
        ) by {
            if i < before.len() && k < before[i].held().len() {
                assert(nodes[i].held()[k] == before[i].held()[k]);
                lemma_under_is_kept(before, nodes, 0, i);
            } else {
                assert(i == place);
                assert(nodes[i].held()[k] == (n - 1) as u64);
            }
        }
    } else {
        assert(nodes[0].held().len() == 0);
    }
}

/// Whether a place is so near that sums of two such do not leave the number line.
pub open spec fn near(x: Fixed) -> bool {
    -0x3fff_ffff_ffff_ffff <= x.0 <= 0x3fff_ffff_ffff_ffff
}

/// Whether two corners are in order and near.
pub open spec fn laid_out(low: Vec2<Fixed>, high: Vec2<Fixed>) -> bool {
    &&& near(low.x) && near(low.y) && near(high.x) && near(high.y)
    &&& low.x.0 <= high.x.0 && low.y.0 <= high.y.0
}

/// Whether a box overlaps one of the tree; boxes that only touch do not.
pub open spec fn overlaps(
    center: Vec2<Fixed>,
    half: Vec2<Fixed>,
    e: QuadtreeEntry<Fixed>,
) -> bool {
    let dx = center.x.0 - e.center.x.0;
    let dy = center.y.0 - e.center.y.0;
    &&& -(half.x.0 + e.half.x.0) < dx < half.x.0 + e.half.x.0
    &&& -(half.y.0 + e.half.y.0) < dy < half.y.0 + e.half.y.0
}

/// Whether a box and a side of a node miss one another though they overlap. The middle of a node
/// whose side is odd falls between two places, and its far end is taken one unit too near. A box
/// that reaches into no more than that last unit does not meet the node.
pub open spec fn side_missed(low: Fixed, high: Fixed, center: Fixed, half: Fixed) -> bool {
    (low.0 + high.0) % 2 != 0 && high.0 - 1 == center.0 - half.0
}

pub open spec fn node_missed(
    node: QuadtreeNode<Fixed>,
    center: Vec2<Fixed>,
    half: Vec2<Fixed>,
) -> bool {
    side_missed(node.min.x, node.max.x, center.x, half.x) || side_missed(
        node.min.y,
        node.max.y,
        center.y,
        half.y,
    )
}

/// Whether a query misses one of the nodes on the way down to a box.
pub open spec fn way_missed(
    nodes: Seq<QuadtreeNode<Fixed>>,
    center: Vec2<Fixed>,
    half: Vec2<Fixed>,
    number: u64,
) -> bool {
    exists|i: int| #[trigger]
        under(nodes, 0, i) && held_under(nodes, i, number) && node_missed(nodes[i], center, half)
}

proof fn lemma_halves(x: Fixed)
    ensures
        x.times_spec(crate::scalar::ratio_spec(1, 2)).0 == x.0 as int / 2,
{
    assert(crate::scalar::ratio_spec::<Fixed>(1, 2) == Fixed(32768));
    assert((x.0 * 32768) / 65536 == x.0 as int / 2);
}

/// What lies below a node covers a part of it.
proof fn lemma_under_is_laid_out(
    nodes: Seq<QuadtreeNode<Fixed>>,
    entries: nat,
    top: int,
    i: int,
    e: QuadtreeEntry<Fixed>,
)
    requires
        tree_wf(nodes, entries),
        under(nodes, top, i),
        laid_out(nodes[top].min, nodes[top].max),
        lies_within(e, nodes[i].min, nodes[i].max),
    ensures
        lies_within(e, nodes[top].min, nodes[top].max),
    decreases nodes.len() - top,
{
    if i != top {
        let first = nodes[top].children->0 as int;
        let q: int = if under(nodes, first, i) {
            0
        } else if under(nodes, first + 1, i) {
            1
        } else if under(nodes, first + 2, i) {
            2
        } else {
            3
        };
        lemma_quarter_is_laid_out(nodes, entries, top, q);
        lemma_under_is_laid_out(nodes, entries, first + q, i, e);
    }
}

proof fn lemma_quarter_is_laid_out(
    nodes: Seq<QuadtreeNode<Fixed>>,
    entries: nat,
    top: int,
    q: int,
)
    requires
        tree_wf(nodes, entries),
        0 <= top < nodes.len(),
        nodes[top].children is Some,
        0 <= q < 4,
        laid_out(nodes[top].min, nodes[top].max),
    ensures
        ({
            let child = nodes[nodes[top].children->0 + q];
            &&& laid_out(child.min, child.max)
            &&& nodes[top].min.x.0 <= child.min.x.0 && child.max.x.0 <= nodes[top].max.x.0
            &&& nodes[top].min.y.0 <= child.min.y.0 && child.max.y.0 <= nodes[top].max.y.0
        }),
{
    let here = nodes[top];
    assert(quarter_cut(nodes, top, q));
    lemma_halves(here.min.x.plus_spec(here.max.x));
    lemma_halves(here.min.y.plus_spec(here.max.y));
}

/// A box that overlaps one within a node meets the node, unless it reaches only into the last unit
/// of an odd side.
proof fn lemma_cover_is_overlapped(
    node: QuadtreeNode<Fixed>,
    e: QuadtreeEntry<Fixed>,
    center: Vec2<Fixed>,
    half: Vec2<Fixed>,
)
    requires
        laid_out(node.min, node.max),
        lies_within(e, node.min, node.max),
        e.half.x.0 >= 0 && e.half.y.0 >= 0,
        half.x.0 >= 0 && half.y.0 >= 0,
        near(center.x) && near(center.y) && near(half.x) && near(half.y),
        overlaps(center, half, e),
    ensures
        boxes_overlap(center, half, node.middle(), node.extent()) == !node_missed(
            node,
            center,
            half,
        ),
{
    lemma_halves(node.min.x.plus_spec(node.max.x));
    lemma_halves(node.min.y.plus_spec(node.max.y));
    lemma_halves(node.max.x.minus_spec(node.min.x));
    lemma_halves(node.max.y.minus_spec(node.min.y));
}

/// The nodes below a node on the way down to a box meet a query exactly if the box is met.
proof fn lemma_way_down_is_met(
    nodes: Seq<QuadtreeNode<Fixed>>,
    entries: Seq<QuadtreeEntry<Fixed>>,
    top: int,
    i: int,
    k: int,
    center: Vec2<Fixed>,
    half: Vec2<Fixed>,
)
    requires
        tree_wf(nodes, entries.len()),
        each_held_once(nodes, entries.len()),
        under(nodes, 0, top),
        under(nodes, top, i),
        laid_out(nodes[top].min, nodes[top].max),
        0 <= k < nodes[i].held().len(),
        half.x.0 >= 0 && half.y.0 >= 0,
        near(center.x) && near(center.y) && near(half.x) && near(half.y),
        ({
            let e = entries[nodes[i].held()[k] as int];
            &&& lies_within(e, nodes[i].min, nodes[i].max)
            &&& e.half.x.0 >= 0 && e.half.y.0 >= 0
            &&& overlaps(center, half, e)
        }),
    ensures
        !way_missed(nodes, center, half, nodes[i].held()[k]) ==> met_numbers(
            nodes,
            top,
            center,
            half,
        ).contains(nodes[i].held()[k]),
    decreases nodes.len() - top,
{
    let number = nodes[i].held()[k];
    let e = entries[number as int];
    lemma_under_is_laid_out(nodes, entries.len(), top, i, e);
    lemma_cover_is_overlapped(nodes[top], e, center, half);
    let all = met_numbers(nodes, top, center, half);
    let own = nodes[top].held();
    assert(held_under(nodes, top, number));
    if way_missed(nodes, center, half, number) {
    } else if i == top {
        assert(!node_missed(nodes[top], center, half));
        assert(all[k] == number);
    } else {
        assert(!node_missed(nodes[top], center, half));
        let first = nodes[top].children->0 as int;
        let a = met_numbers(nodes, first, center, half);
        let b = met_numbers(nodes, first + 1, center, half);
        let c = met_numbers(nodes, first + 2, center, half);
        let d = met_numbers(nodes, first + 3, center, half);
        let q: int = if under(nodes, first, i) {
            0
        } else if under(nodes, first + 1, i) {
            1
        } else if under(nodes, first + 2, i) {
            2
        } else {
            3
        };
        lemma_quarter_is_laid_out(nodes, entries.len(), top, q);
        lemma_quarter_is_under(nodes, 0, top, first + q);
        lemma_way_down_is_met(nodes, entries, first + q, i, k, center, half);
        let at = met_numbers(nodes, first + q, center, half).index_of(number);
        let skip: int = own.len() + (if q > 0 {
            a.len() as int
        } else {
            0
        }) + (if q > 1 {
            b.len() as int
        } else {
            0
        }) + (if q > 2 {
            c.len() as int
        } else {
            0
        });
        assert(all == own + a + b + c + d);
        assert(all[skip + at] == number);
    }
}

/// A quarter of a node below another one is below that too.
proof fn lemma_quarter_is_under<S: Scalar>(
    nodes: Seq<QuadtreeNode<S>>,
    top: int,
    node: int,
    quarter: int,
)
    requires
        under(nodes, top, node),
        is_quarter(nodes, node, quarter),
        node < nodes[node].children->0,
        nodes[node].children->0 + 4 <= nodes.len(),
    ensures
        under(nodes, top, quarter),
    decreases nodes.len() - top,
{
    if node == top {
        assert(under(nodes, quarter, quarter));
    } else {
        let first = nodes[top].children->0 as int;
        if under(nodes, first, node) {
            lemma_quarter_is_under(nodes, first, node, quarter);
        } else if under(nodes, first + 1, node) {
            lemma_quarter_is_under(nodes, first + 1, node, quarter);
        } else if under(nodes, first + 2, node) {
            lemma_quarter_is_under(nodes, first + 2, node, quarter);
        } else {
            lemma_quarter_is_under(nodes, first + 3, node, quarter);
        }
    }
}

/// Whether a query is made of places that can be told and of a box, in a tree that was built from
/// boxes.
pub open spec fn query_fits(
    nodes: Seq<QuadtreeNode<Fixed>>,
    entries: Seq<QuadtreeEntry<Fixed>>,
    bounds: WorldBounds<Fixed>,
    depth: nat,
    capacity: usize,
    center: Vec2<Fixed>,
    half: Vec2<Fixed>,
) -> bool {
    &&& grown(nodes, entries, entries.len(), bounds, depth, capacity)
    &&& tree_wf(nodes, entries.len())
    &&& each_held_once(nodes, entries.len())
    &&& entries.len() < u64::MAX
    &&& laid_out(bounds.min, bounds.max)
    &&& half.x.0 >= 0 && half.y.0 >= 0
    &&& near(center.x) && near(center.y) && near(half.x) && near(half.y)
}

/// A query of a tree that was built from boxes meets every box within the bounds that it overlaps,
/// by however little. Left out is a query that misses a node on the way to the box: it reaches only
/// into the last unit of a node whose side is odd, whose middle falls between two places.
pub proof fn law_query_meets_what_it_overlaps(
    nodes: Seq<QuadtreeNode<Fixed>>,
    entries: Seq<QuadtreeEntry<Fixed>>,
    bounds: WorldBounds<Fixed>,
    depth: nat,
    capacity: usize,
    center: Vec2<Fixed>,
    half: Vec2<Fixed>,
    number: int,
)
    requires
        query_fits(nodes, entries, bounds, depth, capacity, center, half),
        0 <= number < entries.len(),
        entries[number].half.x.0 >= 0 && entries[number].half.y.0 >= 0,
        lies_within(entries[number], bounds.min, bounds.max),
        overlaps(center, half, entries[number]),
        !way_missed(nodes, center, half, number as u64),
    ensures
        met(nodes, entries, 0, center, half).contains(entries[number].entity.bits),
{
    let e = number as u64;
    lemma_grown_holds_in_place(nodes, entries, entries.len(), bounds, depth, capacity);
    assert(is_held(nodes, e));
    let (i, k) = choose|i: int, k: int|
        0 <= i < nodes.len() && 0 <= k < nodes[i].held().len() && #[trigger] nodes[i].held()[k]
            == e;
    lemma_way_down_is_met(nodes, entries, 0, i, k, center, half);
    lemma_met_by_number(nodes, entries, 0, center, half);
    let at = met_numbers(nodes, 0, center, half).index_of(e);
    assert(met(nodes, entries, 0, center, half)[at] == entries[number].entity.bits);
}

/// Whether the sides of every node are even, so that their middles fall on places.
pub open spec fn cut_evenly(nodes: Seq<QuadtreeNode<Fixed>>) -> bool {
    forall|i: int|
        #![trigger nodes[i]]
        0 <= i < nodes.len() ==> (nodes[i].min.x.0 + nodes[i].max.x.0) % 2 == 0 && (
        nodes[i].min.y.0 + nodes[i].max.y.0) % 2 == 0
}

/// Where every node is cut evenly no query misses a node, and where the lower ends of a query lie
/// at least two units below the upper ends of a box it does not miss one on the way to that box.
pub proof fn law_even_or_deep_queries_miss_nothing(
    nodes: Seq<QuadtreeNode<Fixed>>,
    entries: Seq<QuadtreeEntry<Fixed>>,
    bounds: WorldBounds<Fixed>,
    depth: nat,
    capacity: usize,
    center: Vec2<Fixed>,
    half: Vec2<Fixed>,
    number: int,
)
    requires
        query_fits(nodes, entries, bounds, depth, capacity, center, half),
        0 <= number < entries.len(),
        lies_within(entries[number], bounds.min, bounds.max),
        cut_evenly(nodes) || ({
            let e = entries[number];
            &&& center.x.0 - half.x.0 < e.center.x.0 + e.half.x.0 - 1
            &&& center.y.0 - half.y.0 < e.center.y.0 + e.half.y.0 - 1
        }),
    ensures
        !way_missed(nodes, center, half, number as u64),
{
    let e = entries[number];
    lemma_grown_holds_in_place(nodes, entries, entries.len(), bounds, depth, capacity);
    assert forall|i: int| #[trigger] under(nodes, 0, i) && held_under(nodes, i, number as u64) implies
        !node_missed(nodes[i], center, half) by {
        lemma_under_is_after(nodes, 0, i);
        let (j, k) = choose|j: int, k: int|
            under(nodes, i, j) && 0 <= k < nodes[j].held().len() && #[trigger] nodes[j].held()[k]
                == number as u64;
        lemma_under_is_after(nodes, i, j);
        lemma_path_is_laid_out(nodes, entries.len(), 0, i);
        assert(has_room(nodes, j, entries[nodes[j].held()[k] as int]));
        lemma_under_is_laid_out(nodes, entries.len(), i, j, e);
    }
}

/// What lies below a node that is laid out is laid out.
proof fn lemma_path_is_laid_out(
    nodes: Seq<QuadtreeNode<Fixed>>,
    entries: nat,
    top: int,
    i: int,
)
    requires
        tree_wf(nodes, entries),
        under(nodes, top, i),
        laid_out(nodes[top].min, nodes[top].max),
    ensures
        laid_out(nodes[i].min, nodes[i].max),
    decreases nodes.len() - top,
{
    if i != top {
        let first = nodes[top].children->0 as int;
        let q: int = if under(nodes, first, i) {
            0
        } else if under(nodes, first + 1, i) {
            1
        } else if under(nodes, first + 2, i) {
            2
        } else {
            3
        };
        lemma_quarter_is_laid_out(nodes, entries, top, q);
        lemma_path_is_laid_out(nodes, entries, first + q, i);
    }
}

proof fn lemma_further_under<S: Scalar>(nodes: Seq<QuadtreeNode<S>>, a: int, b: int, c: int)
    requires
        under(nodes, a, b),
        under(nodes, b, c),
    ensures
        under(nodes, a, c),
    decreases nodes.len() - a,
{
    if a != b {
        let first = nodes[a].children->0 as int;
        if under(nodes, first, b) {
            lemma_further_under(nodes, first, b, c);
        } else if under(nodes, first + 1, b) {
            lemma_further_under(nodes, first + 1, b, c);
        } else if under(nodes, first + 2, b) {
            lemma_further_under(nodes, first + 2, b, c);
        } else {
            lemma_further_under(nodes, first + 3, b, c);
        }
    }
}

/// A query that meets a box meets every node on the way down to it.
proof fn lemma_met_all_the_way<S: Scalar>(
    nodes: Seq<QuadtreeNode<S>>,
    entries: nat,
    top: int,
    i: int,
    center: Vec2<S>,
    half: Vec2<S>,
    number: u64,
)
    requires
        tree_wf(nodes, entries),
        each_held_once(nodes, entries),
        under(nodes, top, i),
        held_under(nodes, i, number),
        met_numbers(nodes, top, center, half).contains(number),
    ensures
        boxes_overlap(center, half, nodes[i].middle(), nodes[i].extent()),
    decreases nodes.len() - top,
{
    let all = met_numbers(nodes, top, center, half);
    let at = choose|at: int| 0 <= at < all.len() && all[at] == number;
    if i != top {
        let first = nodes[top].children->0 as int;
        let q: int = if under(nodes, first, i) {
            0
        } else if under(nodes, first + 1, i) {
            1
        } else if under(nodes, first + 2, i) {
            2
        } else {
            3
        };
        let (j, k) = choose|j: int, k: int|
            under(nodes, i, j) && 0 <= k < nodes[j].held().len() && #[trigger] nodes[j].held()[k]
                == number;
        lemma_further_under(nodes, first + q, i, j);
        assert(held_under(nodes, first + q, number)) by {
            assert(nodes[j].held()[k] == number);
        }
        lemma_held_apart(nodes, entries, top, first + q, top, number);
        if at < nodes[top].held().len() {
            assert(nodes[top].held().contains(number));
        }
        let r = lemma_met_in_a_quarter(nodes, top, center, half, number, at);
        lemma_met_are_held_below(nodes, first + r, center, half);
        if r != q {
            lemma_held_apart(nodes, entries, top, first + q, first + r, number);
        }
        lemma_met_all_the_way(nodes, entries, first + q, i, center, half, number);
    }
}

/// A query that misses a node on the way to a box that it overlaps does not meet the box, if no
/// other box is of the same entity.
pub proof fn law_missed_boxes_are_not_met(
    nodes: Seq<QuadtreeNode<Fixed>>,
    entries: Seq<QuadtreeEntry<Fixed>>,
    bounds: WorldBounds<Fixed>,
    depth: nat,
    capacity: usize,
    center: Vec2<Fixed>,
    half: Vec2<Fixed>,
    number: int,
)
    requires
        query_fits(nodes, entries, bounds, depth, capacity, center, half),
        entities_differ(entries),
        0 <= number < entries.len(),
        entries[number].half.x.0 >= 0 && entries[number].half.y.0 >= 0,
        lies_within(entries[number], bounds.min, bounds.max),
        overlaps(center, half, entries[number]),
        way_missed(nodes, center, half, number as u64),
    ensures
        !met(nodes, entries, 0, center, half).contains(entries[number].entity.bits),
{
    let e = entries[number];
    let bits = e.entity.bits;
    let all = met(nodes, entries, 0, center, half);
    let numbers = met_numbers(nodes, 0, center, half);
    lemma_met_by_number(nodes, entries, 0, center, half);
    if all.contains(bits) {
        let at = choose|at: int| 0 <= at < all.len() && all[at] == bits;
        lemma_met_are_held_below(nodes, 0, center, half);
        assert(numbers.contains(numbers[at]));
        let (x, y) = choose|x: int, y: int|
            under(nodes, 0, x) && 0 <= y < nodes[x].held().len() && #[trigger] nodes[x].held()[y]
                == numbers[at];
        lemma_under_is_after(nodes, 0, x);
        assert(nodes[x].held()[y] < entries.len());
        let other = numbers[at] as int;
        assert(entries[other].entity.bits == entries[number].entity.bits);
        assert(other == number);
        let i = choose|i: int| #[trigger]
            under(nodes, 0, i) && held_under(nodes, i, number as u64) && node_missed(
                nodes[i],
                center,
                half,
            );
        lemma_met_all_the_way(nodes, entries.len(), 0, i, center, half, number as u64);
        lemma_grown_holds_in_place(nodes, entries, entries.len(), bounds, depth, capacity);
        let (j, k) = choose|j: int, k: int|
            under(nodes, i, j) && 0 <= k < nodes[j].held().len() && #[trigger] nodes[j].held()[k]
                == number as u64;
        lemma_under_is_after(nodes, 0, i);
        lemma_under_is_after(nodes, i, j);
        lemma_path_is_laid_out(nodes, entries.len(), 0, i);
        assert(has_room(nodes, j, entries[nodes[j].held()[k] as int]));
        lemma_under_is_laid_out(nodes, entries.len(), i, j, e);
        lemma_cover_is_overlapped(nodes[i], e, center, half);
    }
}

} // verus!
