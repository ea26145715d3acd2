//! Where the entities of a scene lie: roots where their own parts say, whatever else there is.
use vstd::prelude::*;
use crate::scalar::Fixed;
use crate::skeleton::Pose;
use crate::transform::{
    distinct_rows, lemma_node_row_range, lemma_visit_counts, node_row, popped, roots_entered,
    unvisited, walk_start, walked, world_after, SceneNode, Walk,
};

verus! {

/// What was visited stays where it was put.
spec fn put_for_good<M>(before: Walk<M>, after: Walk<M>) -> bool {
    &&& after.visited.len() == before.visited.len()
    &&& after.world.len() == before.world.len()
    &&& forall|i: int|
        0 <= i < before.visited.len() && #[trigger] before.visited[i] ==> after.visited[i]
            && after.world[i] == before.world[i]
}

proof fn lemma_walk_puts_for_good<V: Copy, Q: Copy, M: Pose<V, Q>>(
    w: Walk<M>,
    rows: Seq<SceneNode<V, Q, M>>,
)
    requires
        w.visited.len() == rows.len(),
        w.world.len() == rows.len(),
    ensures
        put_for_good(w, walked(w, rows)),
    decreases unvisited(w.visited, rows.len() as int), w.stack.len(),
{
    if w.stack.len() > 0 {
        let (bits, _) = w.stack.last();
        let row = node_row(rows, bits, rows.len() as int);
        lemma_node_row_range(rows, bits, rows.len() as int);
        if row >= 0 && !w.visited[row] {
            lemma_visit_counts(w.visited, row, rows.len() as int);
        }
        let next = popped(w, rows);
        assert(put_for_good(w, next));
        lemma_walk_puts_for_good(next, rows);
        let after = walked(next, rows);
        assert forall|i: int| 0 <= i < w.visited.len() && #[trigger] w.visited[i] implies
            after.visited[i] && after.world[i] == w.world[i] by {
            assert(next.visited[i]);
        }
    }
}

proof fn lemma_roots_are_put<V: Copy, Q: Copy, M: Pose<V, Q>>(
    rows: Seq<SceneNode<V, Q, M>>,
    n: int,
    i: int,
)
    requires
        0 <= i < n <= rows.len(),
        !rows[i].has_parent,
    ensures
        ({
            let w = roots_entered(walk_start(rows), rows, n);
            w.visited[i] && w.world[i] == rows[i].local()
        }),
    decreases n,
{
    lemma_roots_keep_size(rows, n - 1);
    if i < n - 1 {
        lemma_roots_are_put(rows, n - 1, i);
    }
}

proof fn lemma_roots_keep_size<V: Copy, Q: Copy, M: Pose<V, Q>>(
    rows: Seq<SceneNode<V, Q, M>>,
    n: int,
)
    requires
        0 <= n <= rows.len(),
    ensures
        ({
            let w = roots_entered(walk_start(rows), rows, n);
            w.visited.len() == rows.len() && w.world.len() == rows.len()
        }),
    decreases n,
{
    if n > 0 {
        lemma_roots_keep_size(rows, n - 1);
    }
}

/// A root lies where its own place says, whatever names it as a child: a place in space counts as
/// the pose of its scale, its rotation and its translation, then the pose in the plane, then none.
pub proof fn law_root_lies_at_its_own_place<V: Copy, Q: Copy, M: Pose<V, Q>>(
    rows: Seq<SceneNode<V, Q, M>>,
    i: int,
)
    requires
        0 <= i < rows.len(),
        !rows[i].has_parent,
    ensures
        match rows[i].space {
            Some(parts) => {
                let (size, turn, place) = parts;
                world_after(rows, i) == M::of_parts_spec(size, turn, place)
            },
            None => match rows[i].plane {
                Some(pose) => world_after(rows, i) == pose,
                None => world_after(rows, i) == M::identity_spec(),
            },
        },
{
    let n = rows.len() as int;
    lemma_roots_keep_size(rows, n);
    lemma_roots_are_put(rows, n, i);
    let start = roots_entered(walk_start(rows), rows, n);
    lemma_walk_puts_for_good(start, rows);
    assert(start.visited[i]);
}

/// Whatever reads the parts of a pose back reads of a root in space the translation, the scale and
/// the rotation that the root has, each in its role.
pub proof fn law_parts_of_a_root_read_back<V: Copy, Q: Copy, M: Pose<V, Q>>(
    rows: Seq<SceneNode<V, Q, M>>,
    i: int,
    place: spec_fn(M) -> V,
    size: spec_fn(M) -> V,
    turn: spec_fn(M) -> Q,
)
    requires
        0 <= i < rows.len(),
        !rows[i].has_parent,
        rows[i].space is Some,
    ensures
        ({
            let (own_size, own_turn, own_place) = rows[i].space->0;
            let reads_place = forall|s: V, q: Q, t: V| place(#[trigger] M::of_parts_spec(s, q, t)) == t;
            let reads_size = forall|s: V, q: Q, t: V| size(#[trigger] M::of_parts_spec(s, q, t)) == s;
            let reads_turn = forall|s: V, q: Q, t: V| turn(#[trigger] M::of_parts_spec(s, q, t)) == q;
            &&& reads_place ==> place(world_after(rows, i)) == own_place
            &&& reads_size ==> size(world_after(rows, i)) == own_size
            &&& reads_turn ==> turn(world_after(rows, i)) == own_turn
        }),
{
    law_root_lies_at_its_own_place(rows, i);
    let (own_size, own_turn, own_place) = rows[i].space->0;
    assert(world_after(rows, i) == M::of_parts_spec(own_size, own_turn, own_place));
}

/// On a line a root with a place in space lies at its translation, and one without at its pose in
/// the plane.
pub proof fn law_root_on_a_line_lies_at_its_translation(
    rows: Seq<SceneNode<Fixed, Fixed, Fixed>>,
    i: int,
)
    requires
        0 <= i < rows.len(),
        !rows[i].has_parent,
    ensures
        match rows[i].space {
            Some((_, _, place)) => world_after(rows, i) == place,
            None => match rows[i].plane {
                Some(place) => world_after(rows, i) == place,
                None => world_after(rows, i).0 == 0,
            },
        },
{
    law_root_lies_at_its_own_place(rows, i);
}

/// Of two entities on a line that differ only by where a root lies, everything below that root
/// differs by as much: a child that is named by one parent lies as far from its parent as its own
/// place says.
pub proof fn law_child_on_a_line_keeps_its_distance(
    rows: Seq<SceneNode<Fixed, Fixed, Fixed>>,
    parent: int,
    child: int,
)
    requires
        distinct_rows(rows),
        rows.len() <= u64::MAX,
        crate::transform::is_forest(rows),
        0 <= child < rows.len(),
        crate::transform::is_child(rows, parent, child),
    ensures
        ({
            let own = match rows[child].space {
                Some((_, _, place)) => place.0 as int,
                None => match rows[child].plane {
                    Some(place) => place.0 as int,
                    None => 0,
                },
            };
            let sum = world_after(rows, parent).0 + own;
            i64::MIN <= sum <= i64::MAX ==> world_after(rows, child).0 == sum
        }),
{
    crate::transform::law_forest_is_placed_in_whole(rows);
    assert(crate::transform::is_child(rows, parent, child));
}

} // verus!
