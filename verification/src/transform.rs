//! How the places of entities follow from those of their parents.
use std::collections::HashMap;
use vstd::prelude::*;
use crate::entity::Entity;
use crate::skeleton::Pose;
use crate::small_list::{small_clear, small_items, small_len, small_new, small_pop, small_push, SmallList};

verus! {

broadcast use vstd::std_specs::hash::group_hash_axioms;

/// Marks of the rows that a walk has come to; a new walk forgets them without clearing.
pub struct VisitTracker {
    pub marks: Vec<u32>,
    pub generation: u32,
}

impl VisitTracker {
    /// No mark is of a walk to come.
    pub open spec fn wf(self) -> bool {
        forall|i: int| 0 <= i < self.marks@.len() ==> (#[trigger] self.marks@[i]) <= self.generation
    }

    pub open spec fn marked(self, index: u32) -> bool {
        index < self.marks@.len() && self.marks@[index as int] == self.generation
    }

    pub fn new() -> (r: Self)
        ensures
            r.wf(),
            forall|index: u32| !#[trigger] r.marked(index),
    {
        VisitTracker { marks: Vec::new(), generation: 0 }
    }

    /// Forgets every mark.
    pub fn clear(&mut self)
        requires
            old(self).wf(),
        ensures
            final(self).wf(),
            forall|index: u32| !#[trigger] final(self).marked(index),
            final(self).generation > 0,
    {
        if self.generation == 0xffff_ffff {
            let n: usize = self.marks.len();
            let mut i: usize = 0;
            while i < n
                invariant
                    n == self.marks@.len(),
                    i <= n,
                    forall|j: int| 0 <= j < i ==> (#[trigger] self.marks@[j]) == 0,
                decreases n - i,
            {
                self.marks.set(i, 0);
                i = i + 1;
            }
            self.generation = 1;
        } else {
            self.generation = self.generation + 1;
        }
    }

    /// Marks a row.
    pub fn mark(&mut self, entity: Entity)
        requires
            old(self).wf(),
            old(self).generation > 0,
        ensures
            final(self).wf(),
            final(self).generation == old(self).generation,
            final(self).marked(entity.index_of()),
            forall|index: u32|
                index != entity.index_of() ==> #[trigger] final(self).marked(index) == old(self).marked(index),
    {
        let index: usize = entity.index() as usize;
        while self.marks.len() <= index
            invariant
                self.wf(),
                self.generation == old(self).generation,
                self.generation > 0,
                old(self).marks@.len() <= self.marks@.len(),
                index <= u32::MAX,
                forall|j: int|
                    0 <= j < self.marks@.len() ==> #[trigger] self.marks@[j] == (if j < old(self).marks@.len() {
                        old(self).marks@[j]
                    } else {
                        0
                    }),
            decreases index + 1 - self.marks@.len(),
        {
            self.marks.push(0);
        }
        self.marks.set(index, self.generation);
    }

    pub fn is_marked(&self, entity: Entity) -> (r: bool)
        ensures
            r == self.marked(entity.index_of()),
    {
        let index: usize = entity.index() as usize;
        index < self.marks.len() && self.marks[index] == self.generation
    }
}

#[derive(Clone, Copy, Debug, PartialEq, Eq, Structural)]
pub enum TransformPropagationMode {
    Flat,
    Hierarchy,
}

#[derive(Clone, Copy)]
pub struct TransformPropagationStats {
    pub mode: TransformPropagationMode,
    pub total_entities: u32,
    pub root_entities: u32,
    pub processed_entities: u32,
    pub max_stack_size: u32,
}

impl TransformPropagationStats {
    pub fn default() -> (r: Self)
        ensures
            r == (TransformPropagationStats {
                mode: TransformPropagationMode::Flat,
                total_entities: 0,
                root_entities: 0,
                processed_entities: 0,
                max_stack_size: 0,
            }),
    {
        TransformPropagationStats {
            mode: TransformPropagationMode::Flat,
            total_entities: 0,
            root_entities: 0,
            processed_entities: 0,
            max_stack_size: 0,
        }
    }
}

/// An entity with a place in the world. `plane` is its pose in the plane, `space` the scale,
/// rotation and translation it has in space.
pub struct SceneNode<V, Q, M> {
    pub entity: Entity,
    pub has_parent: bool,
    pub children: Vec<Entity>,
    pub plane: Option<M>,
    pub space: Option<(V, Q, V)>,
    pub world: M,
}

impl<V: Copy, Q: Copy, M: Pose<V, Q>> SceneNode<V, Q, M> {
    /// The pose relative to the parent: the one in space where there is one.
    pub open spec fn local(self) -> M {
        match self.space {
            Some((scale, rotation, translation)) => M::of_parts_spec(scale, rotation, translation),
            None => match self.plane {
                Some(pose) => pose,
                None => M::identity_spec(),
            },
        }
    }

    pub fn compose_local(&self) -> (r: M)
        ensures
            r == self.local(),
    {
        match self.space {
            Some((scale, rotation, translation)) => M::of_parts(scale, rotation, translation),
            None => match self.plane {
                Some(pose) => pose,
                None => M::identity(),
            },
        }
    }
}

/// The rows are of different entities.
pub open spec fn distinct_rows<V, Q, M>(rows: Seq<SceneNode<V, Q, M>>) -> bool {
    forall|i: int, j: int|
        0 <= i < rows.len() && 0 <= j < rows.len() && i != j ==> (
        #[trigger] rows[i]).entity.index_of() != (#[trigger] rows[j]).entity.index_of()
}

/// The row of an entity among the first `n`, or -1.
pub open spec fn node_row<V, Q, M>(rows: Seq<SceneNode<V, Q, M>>, bits: u64, n: int) -> int
    decreases n,
{
    if n <= 0 {
        -1
    } else if rows[n - 1].entity.bits == bits {
        n - 1
    } else {
        node_row(rows, bits, n - 1)
    }
}

/// How far a walk through the hierarchy has come: the poses found, the rows visited, and the
/// entities to go to next, each with the row of the parent that named it.
pub struct Walk<M> {
    pub world: Seq<M>,
    pub visited: Seq<bool>,
    pub stack: Seq<(u64, u64)>,
    pub processed: nat,
    pub deepest: nat,
}

/// The children of a row put on the stack so that the first one is on top.
pub open spec fn with_children(stack: Seq<(u64, u64)>, children: Seq<Entity>, row: u64) -> Seq<
    (u64, u64),
> {
    stack + Seq::new(
        children.len(),
        |i: int| (children[children.len() - 1 - i].bits, row),
    )
}

pub open spec fn entered<V: Copy, Q: Copy, M: Pose<V, Q>>(
    w: Walk<M>,
    rows: Seq<SceneNode<V, Q, M>>,
    row: int,
    pose: M,
) -> Walk<M> {
    let stack = with_children(w.stack, rows[row].children@, row as u64);
    Walk {
        world: w.world.update(row, pose),
        visited: w.visited.update(row, true),
        stack,
        processed: w.processed + 1,
        deepest: if w.deepest < stack.len() {
            stack.len()
        } else {
            w.deepest
        },
    }
}

/// The roots among the first `n` rows entered: they lie where their own pose says.
pub open spec fn roots_entered<V: Copy, Q: Copy, M: Pose<V, Q>>(
    w: Walk<M>,
    rows: Seq<SceneNode<V, Q, M>>,
    n: int,
) -> Walk<M>
    decreases n,
{
    if n <= 0 {
        w
    } else {
        let before = roots_entered(w, rows, n - 1);
        if rows[n - 1].has_parent {
            before
        } else {
            entered(before, rows, n - 1, rows[n - 1].local())
        }
    }
}

/// The entity on top of the stack visited: one that is not there or was visited already is
/// dropped, any other lies within its parent.
pub open spec fn popped<V: Copy, Q: Copy, M: Pose<V, Q>>(w: Walk<M>, rows: Seq<SceneNode<V, Q, M>>) -> Walk<
    M,
> {
    let (bits, parent) = w.stack.last();
    let rest = Walk { stack: w.stack.drop_last(), ..w };
    let row = node_row(rows, bits, rows.len() as int);
    if row < 0 || w.visited[row] {
        rest
    } else {
        entered(rest, rows, row, w.world[parent as int].within_spec(rows[row].local()))
    }
}

/// How many of the first `n` rows are still to be visited.
pub open spec fn unvisited(visited: Seq<bool>, n: int) -> nat
    decreases n,
{
    if n <= 0 {
        0
    } else {
        unvisited(visited, n - 1) + (if visited[n - 1] {
            0nat
        } else {
            1nat
        })
    }
}

pub proof fn lemma_visit_counts(visited: Seq<bool>, row: int, n: int)
    requires
        0 <= row < n <= visited.len(),
        !visited[row],
    ensures
        unvisited(visited.update(row, true), n) + 1 == unvisited(visited, n),
    decreases n,
{
    if row < n - 1 {
        lemma_visit_counts(visited, row, n - 1);
    } else {
        lemma_other_visit(visited, row, n - 1);
    }
}

proof fn lemma_other_visit(visited: Seq<bool>, row: int, n: int)
    requires
        0 <= n <= row < visited.len(),
    ensures
        unvisited(visited.update(row, true), n) == unvisited(visited, n),
    decreases n,
{
    if n > 0 {
        lemma_other_visit(visited, row, n - 1);
    }
}

pub proof fn lemma_node_row_range<V, Q, M>(rows: Seq<SceneNode<V, Q, M>>, bits: u64, n: int)
    requires
        0 <= n <= rows.len(),
    ensures
        -1 <= node_row(rows, bits, n) < n || n == 0 && node_row(rows, bits, n) == -1,
        node_row(rows, bits, n) >= 0 ==> rows[node_row(rows, bits, n)].entity.bits == bits,
    decreases n,
{
    if n > 0 {
        lemma_node_row_range(rows, bits, n - 1);
    }
}

/// The walk after the stack was worked off.
pub open spec fn walked<V: Copy, Q: Copy, M: Pose<V, Q>>(w: Walk<M>, rows: Seq<SceneNode<V, Q, M>>) -> Walk<
    M,
>
    decreases unvisited(w.visited, rows.len() as int), w.stack.len(),
    when w.visited.len() == rows.len()
{
    if w.stack.len() == 0 {
        w
    } else {
        proof {
            let (bits, _) = w.stack.last();
            let row = node_row(rows, bits, rows.len() as int);
            lemma_node_row_range(rows, bits, rows.len() as int);
            if row >= 0 && !w.visited[row] {
                lemma_visit_counts(w.visited, row, rows.len() as int);
            }
        }
        walked(popped(w, rows), rows)
    }
}

pub open spec fn walk_start<V, Q, M>(rows: Seq<SceneNode<V, Q, M>>) -> Walk<M> {
    Walk {
        world: rows.map_values(|r: SceneNode<V, Q, M>| r.world),
        visited: Seq::new(rows.len(), |i: int| false),
        stack: Seq::empty(),
        processed: 0,
        deepest: 0,
    }
}

/// The whole walk: from the roots down.
pub open spec fn walk_of<V: Copy, Q: Copy, M: Pose<V, Q>>(rows: Seq<SceneNode<V, Q, M>>) -> Walk<M> {
    walked(roots_entered(walk_start(rows), rows, rows.len() as int), rows)
}

/// The pose of a row after a walk; rows that it did not come to lie where their own pose says.
pub open spec fn world_after<V: Copy, Q: Copy, M: Pose<V, Q>>(rows: Seq<SceneNode<V, Q, M>>, i: int) -> M {
    if walk_of(rows).visited[i] {
        walk_of(rows).world[i]
    } else {
        rows[i].local()
    }
}

/// How many of the first `n` rows are roots.
pub open spec fn root_count<V, Q, M>(rows: Seq<SceneNode<V, Q, M>>, n: int) -> nat
    decreases n,
{
    if n <= 0 {
        0
    } else {
        root_count(rows, n - 1) + (if rows[n - 1].has_parent {
            0nat
        } else {
            1nat
        })
    }
}

/// What a walk needs while it runs; kept from one to the next.
pub struct TransformPropagationScratch {
    pub stack: SmallList,
    pub parents: SmallList,
    pub visited: VisitTracker,
}

impl TransformPropagationScratch {
    pub open spec fn wf(self) -> bool {
        self.visited.wf()
    }

    pub fn new() -> (r: Self)
        ensures
            r.wf(),
    {
        TransformPropagationScratch {
            stack: small_new(),
            parents: small_new(),
            visited: VisitTracker::new(),
        }
    }

    /// The two lists side by side.
    spec fn pending(self) -> Seq<(u64, u64)> {
        Seq::new(
            small_items(self.stack).len(),
            |i: int| (small_items(self.stack)[i], small_items(self.parents)[i]),
        )
    }

    spec fn paired(self) -> bool {
        small_items(self.stack).len() == small_items(self.parents).len()
    }

    fn push_children(&mut self, children: &Vec<Entity>, row: usize)
        requires
            old(self).paired(),
        ensures
            final(self).paired(),
            final(self).visited == old(self).visited,
            final(self).pending() == with_children(old(self).pending(), children@, row as u64),
    {
        let ghost added = Seq::new(
            children@.len(),
            |i: int| (children@[children@.len() - 1 - i].bits, row as u64),
        );
        let n: usize = children.len();
        let mut k: usize = 0;
        while k < n
            invariant
                n == children@.len(),
                k <= n,
                self.paired(),
                self.visited == old(self).visited,
                added == Seq::new(
                    children@.len(),
                    |i: int| (children@[children@.len() - 1 - i].bits, row as u64),
                ),
                self.pending() == old(self).pending() + added.take(k as int),
            decreases n - k,
        {
            let ghost before = self.pending();
            small_push(&mut self.stack, children[n - 1 - k].bits);
            small_push(&mut self.parents, row as u64);
            proof {
                assert(self.pending() =~= before.push(added[k as int]));
                assert(added.take(k + 1) =~= added.take(k as int).push(added[k as int]));
                assert(self.pending() =~= old(self).pending() + added.take(k + 1));
            }
            k = k + 1;
        }
        assert(added.take(n as int) =~= added);
    }

    fn pop(&mut self) -> (r: Option<(u64, u64)>)
        requires
            old(self).paired(),
        ensures
            final(self).paired(),
            final(self).visited == old(self).visited,
            match r {
                Some(top) => old(self).pending().len() > 0 && top == old(self).pending().last()
                    && final(self).pending() == old(self).pending().drop_last(),
                None => old(self).pending().len() == 0 && final(self).pending() == old(self).pending(),
            },
    {
        let top = small_pop(&mut self.stack);
        let parent = small_pop(&mut self.parents);
        match (top, parent) {
            (Some(bits), Some(row)) => {
                assert(self.pending() =~= old(self).pending().drop_last());
                Some((bits, row))
            },
            _ => {
                assert(self.pending() =~= old(self).pending());
                None
            },
        }
    }
}

fn index_rows<V, Q, M>(rows: &Vec<SceneNode<V, Q, M>>) -> (r: HashMap<u64, usize>)
    ensures
        forall|bits: u64| #[trigger]
            r@.contains_key(bits) == (node_row(rows@, bits, rows@.len() as int) >= 0),
        forall|bits: u64| #[trigger]
            r@.contains_key(bits) ==> r@[bits] == node_row(rows@, bits, rows@.len() as int),
{
    let mut index: HashMap<u64, usize> = HashMap::new();
    let mut i: usize = 0;
    while i < rows.len()
        invariant
            i <= rows@.len(),
            forall|bits: u64| #[trigger]
                index@.contains_key(bits) == (node_row(rows@, bits, i as int) >= 0),
            forall|bits: u64| #[trigger]
                index@.contains_key(bits) ==> index@[bits] == node_row(rows@, bits, i as int),
        decreases rows@.len() - i,
    {
        index.insert(rows[i].entity.bits, i);
        i = i + 1;
    }
    index
}

/// A walk in running code stands where the walk in the model does.
spec fn in_step<V: Copy, Q: Copy, M: Pose<V, Q>>(
    rows: Seq<SceneNode<V, Q, M>>,
    scratch: TransformPropagationScratch,
    world: Seq<M>,
    processed: u32,
    deepest: usize,
    w: Walk<M>,
) -> bool {
    &&& scratch.visited.wf()
    &&& scratch.visited.generation > 0
    &&& scratch.paired()
    &&& w.world == world
    &&& world.len() == rows.len()
    &&& w.visited.len() == rows.len()
    &&& forall|i: int|
        0 <= i < rows.len() ==> #[trigger] w.visited[i] == scratch.visited.marked(
            rows[i].entity.index_of(),
        )
    &&& w.stack == scratch.pending()
    &&& w.processed == processed
    &&& processed + unvisited(w.visited, rows.len() as int) == rows.len()
    &&& w.deepest == deepest
    &&& forall|k: int| 0 <= k < w.stack.len() ==> (#[trigger] w.stack[k]).1 < rows.len()
}

fn enter_row<V: Copy, Q: Copy, M: Pose<V, Q>>(
    rows: &Vec<SceneNode<V, Q, M>>,
    row: usize,
    pose: M,
    scratch: &mut TransformPropagationScratch,
    world: &mut Vec<M>,
    processed: &mut u32,
    deepest: &mut usize,
    Ghost(w): Ghost<Walk<M>>,
)
    requires
        row < rows@.len() <= u32::MAX,
        distinct_rows(rows@),
        in_step(rows@, *old(scratch), old(world)@, *old(processed), *old(deepest), w),
        !w.visited[row as int],
    ensures
        in_step(
            rows@,
            *final(scratch),
            final(world)@,
            *final(processed),
            *final(deepest),
            entered(w, rows@, row as int, pose),
        ),
{
    proof {
        lemma_visit_counts(w.visited, row as int, rows@.len() as int);
    }
    world.set(row, pose);
    scratch.visited.mark(rows[row].entity);
    *processed = *processed + 1;
    scratch.push_children(&rows[row].children, row);
    let depth: usize = small_len(&scratch.stack);
    if *deepest < depth {
        *deepest = depth;
    }
    proof {
        let e = entered(w, rows@, row as int, pose);
        assert(e.visited =~= w.visited.update(row as int, true));
        assert forall|i: int| 0 <= i < rows@.len() implies #[trigger] e.visited[i]
            == scratch.visited.marked(rows@[i].entity.index_of()) by {
            assert(w.visited[i] == old(scratch).visited.marked(rows@[i].entity.index_of()));
            if i != row {
                assert(rows@[i].entity.index_of() != rows@[row as int].entity.index_of());
            }
        }
        assert forall|k: int| 0 <= k < e.stack.len() implies (#[trigger] e.stack[k]).1 < rows@.len() by {
            if k < w.stack.len() {
                assert(e.stack[k] == w.stack[k]);
            }
        }
    }
}

fn walk_roots<V: Copy, Q: Copy, M: Pose<V, Q>>(
    rows: &Vec<SceneNode<V, Q, M>>,
    scratch: &mut TransformPropagationScratch,
    world: &mut Vec<M>,
    processed: &mut u32,
    deepest: &mut usize,
) -> (roots: u32)
    requires
        rows@.len() <= u32::MAX,
        distinct_rows(rows@),
        in_step(
            rows@,
            *old(scratch),
            old(world)@,
            *old(processed),
            *old(deepest),
            walk_start(rows@),
        ),
    ensures
        roots == root_count(rows@, rows@.len() as int),
        in_step(
            rows@,
            *final(scratch),
            final(world)@,
            *final(processed),
            *final(deepest),
            roots_entered(walk_start(rows@), rows@, rows@.len() as int),
        ),
{
    let mut roots: u32 = 0;
    let mut i: usize = 0;
    while i < rows.len()
        invariant
            i <= rows@.len() <= u32::MAX,
            distinct_rows(rows@),
            roots <= i,
            roots == root_count(rows@, i as int),
            in_step(
                rows@,
                *scratch,
                world@,
                *processed,
                *deepest,
                roots_entered(walk_start(rows@), rows@, i as int),
            ),
            forall|j: int|
                i <= j < rows@.len() ==> !(#[trigger] roots_entered(
                    walk_start(rows@),
                    rows@,
                    i as int,
                ).visited[j]),
        decreases rows@.len() - i,
    {
        let ghost w = roots_entered(walk_start(rows@), rows@, i as int);
        if !rows[i].has_parent {
            let local = rows[i].compose_local();
            enter_row(rows, i, local, scratch, world, processed, deepest, Ghost(w));
            roots = roots + 1;
        }
        i = i + 1;
    }
    roots
}

fn walk_down<V: Copy, Q: Copy, M: Pose<V, Q>>(
    rows: &Vec<SceneNode<V, Q, M>>,
    index: &HashMap<u64, usize>,
    scratch: &mut TransformPropagationScratch,
    world: &mut Vec<M>,
    processed: &mut u32,
    deepest: &mut usize,
    Ghost(start): Ghost<Walk<M>>,
)
    requires
        rows@.len() <= u32::MAX,
        distinct_rows(rows@),
        in_step(rows@, *old(scratch), old(world)@, *old(processed), *old(deepest), start),
        forall|bits: u64| #[trigger]
            index@.contains_key(bits) == (node_row(rows@, bits, rows@.len() as int) >= 0),
        forall|bits: u64| #[trigger]
            index@.contains_key(bits) ==> index@[bits] == node_row(
                rows@,
                bits,
                rows@.len() as int,
            ),
    ensures
        in_step(
            rows@,
            *final(scratch),
            final(world)@,
            *final(processed),
            *final(deepest),
            walked(start, rows@),
        ),
{
    let ghost mut w = start;
    loop
        invariant_except_break
            rows@.len() <= u32::MAX,
            distinct_rows(rows@),
            in_step(rows@, *scratch, world@, *processed, *deepest, w),
            walked(start, rows@) == walked(w, rows@),
            forall|bits: u64| #[trigger]
                index@.contains_key(bits) == (node_row(rows@, bits, rows@.len() as int) >= 0),
            forall|bits: u64| #[trigger]
                index@.contains_key(bits) ==> index@[bits] == node_row(
                    rows@,
                    bits,
                    rows@.len() as int,
                ),
        ensures
            in_step(rows@, *scratch, world@, *processed, *deepest, walked(start, rows@)),
        decreases unvisited(w.visited, rows@.len() as int), w.stack.len(),
    {
        match scratch.pop() {
            None => {
                assert(in_step(rows@, *scratch, world@, *processed, *deepest, walked(w, rows@)));
                break;
            },
            Some((bits, parent)) => {
                let ghost before = w;
                let ghost rest = Walk { stack: w.stack.drop_last(), ..w };
                proof {
                    lemma_node_row_range(rows@, bits, rows@.len() as int);
                    assert(w.stack[w.stack.len() - 1].1 < rows@.len());
                    assert forall|k: int| 0 <= k < rest.stack.len() implies (
                    #[trigger] rest.stack[k]).1 < rows@.len() by {
                        assert(rest.stack[k] == w.stack[k]);
                    }
                    assert(in_step(rows@, *scratch, world@, *processed, *deepest, rest));
                    w = popped(before, rows@);
                }
                if let Some(row) = index.get(&bits) {
                    let row: usize = *row;
                    if !scratch.visited.is_marked(rows[row].entity) {
                        assert(!rest.visited[row as int]);
                        proof {
                            lemma_visit_counts(before.visited, row as int, rows@.len() as int);
                        }
                        let pose = world[parent as usize].within(rows[row].compose_local());
                        enter_row(
                            rows,
                            row,
                            pose,
                            scratch,
                            world,
                            processed,
                            deepest,
                            Ghost(rest),
                        );
                    } else {
                        assert(rest.visited[row as int]);
                    }
                }
            },
        }
    }
}

fn current_worlds<V: Copy, Q: Copy, M: Pose<V, Q>>(rows: &Vec<SceneNode<V, Q, M>>) -> (r: Vec<M>)
    ensures
        r@ == rows@.map_values(|row: SceneNode<V, Q, M>| row.world),
{
    let mut out: Vec<M> = Vec::new();
    let mut i: usize = 0;
    while i < rows.len()
        invariant
            i <= rows@.len(),
            out@.len() == i,
            forall|j: int| 0 <= j < i ==> #[trigger] out@[j] == rows@[j].world,
        decreases rows@.len() - i,
    {
        out.push(rows[i].world);
        i = i + 1;
    }
    assert(out@ =~= rows@.map_values(|row: SceneNode<V, Q, M>| row.world));
    out
}

proof fn lemma_all_unvisited(visited: Seq<bool>, n: int)
    requires
        0 <= n <= visited.len(),
        forall|i: int| 0 <= i < visited.len() ==> !(#[trigger] visited[i]),
    ensures
        unvisited(visited, n) == n,
    decreases n,
{
    if n > 0 {
        lemma_all_unvisited(visited, n - 1);
    }
}

/// Puts every row where its own pose says.
fn place_flat<V: Copy, Q: Copy, M: Pose<V, Q>>(rows: &mut Vec<SceneNode<V, Q, M>>)
    ensures
        final(rows)@.len() == old(rows)@.len(),
        forall|i: int|
            0 <= i < old(rows)@.len() ==> #[trigger] final(rows)@[i] == (SceneNode {
                world: old(rows)@[i].local(),
                ..old(rows)@[i]
            }),
{
    let mut i: usize = 0;
    while i < rows.len()
        invariant
            i <= rows@.len(),
            rows@.len() == old(rows)@.len(),
            forall|j: int| i <= j < rows@.len() ==> #[trigger] rows@[j] == old(rows)@[j],
            forall|j: int|
                0 <= j < i ==> #[trigger] rows@[j] == (SceneNode {
                    world: old(rows)@[j].local(),
                    ..old(rows)@[j]
                }),
        decreases rows@.len() - i,
    {
        let local = rows[i].compose_local();
        rows[i].world = local;
        i = i + 1;
    }
}

fn place_walked<V: Copy, Q: Copy, M: Pose<V, Q>>(
    rows: &mut Vec<SceneNode<V, Q, M>>,
    visited: &VisitTracker,
    world: &Vec<M>,
)
    requires
        world@.len() == old(rows)@.len(),
    ensures
        final(rows)@.len() == old(rows)@.len(),
        forall|i: int|
            0 <= i < old(rows)@.len() ==> #[trigger] final(rows)@[i] == (SceneNode {
                world: if visited.marked(old(rows)@[i].entity.index_of()) {
                    world@[i]
                } else {
                    old(rows)@[i].local()
                },
                ..old(rows)@[i]
            }),
{
    let mut i: usize = 0;
    while i < rows.len()
        invariant
            i <= rows@.len(),
            rows@.len() == old(rows)@.len(),
            world@.len() == rows@.len(),
            forall|j: int| i <= j < rows@.len() ==> #[trigger] rows@[j] == old(rows)@[j],
            forall|j: int|
                0 <= j < i ==> #[trigger] rows@[j] == (SceneNode {
                    world: if visited.marked(old(rows)@[j].entity.index_of()) {
                        world@[j]
                    } else {
                        old(rows)@[j].local()
                    },
                    ..old(rows)@[j]
                }),
        decreases rows@.len() - i,
    {
        assert(rows@[i as int] == old(rows)@[i as int]);
        let pose = if visited.is_marked(rows[i].entity) {
            world[i]
        } else {
            rows[i].compose_local()
        };
        rows[i].world = pose;
        i = i + 1;
    }
}

/// Finds where every entity lies in the world. `any_parent` says whether any entity has a parent:
/// without one everything lies where its own pose says.
pub fn propagate_scene_transforms<V: Copy, Q: Copy, M: Pose<V, Q>>(
    rows: &mut Vec<SceneNode<V, Q, M>>,
    any_parent: bool,
    scratch: &mut TransformPropagationScratch,
) -> (stats: TransformPropagationStats)
    requires
        old(scratch).wf(),
        old(rows)@.len() <= u32::MAX,
        distinct_rows(old(rows)@),
    ensures
        final(scratch).wf(),
        final(rows)@.len() == old(rows)@.len(),
        forall|i: int|
            0 <= i < old(rows)@.len() ==> #[trigger] final(rows)@[i] == (SceneNode {
                world: if any_parent {
                    world_after(old(rows)@, i)
                } else {
                    old(rows)@[i].local()
                },
                ..old(rows)@[i]
            }),
        ({
            let n = old(rows)@.len();
            let w = walk_of(old(rows)@);
            stats == (if any_parent {
                TransformPropagationStats {
                    mode: TransformPropagationMode::Hierarchy,
                    total_entities: w.processed as u32,
                    root_entities: root_count(old(rows)@, n as int) as u32,
                    processed_entities: w.processed as u32,
                    max_stack_size: w.deepest as usize as u32,
                }
            } else {
                TransformPropagationStats {
                    mode: TransformPropagationMode::Flat,
                    total_entities: n as u32,
                    root_entities: n as u32,
                    processed_entities: n as u32,
                    max_stack_size: 0,
                }
            })
        }),
{
    small_clear(&mut scratch.stack);
    small_clear(&mut scratch.parents);
    scratch.visited.clear();
    if !any_parent {
        place_flat(rows);
        let n: u32 = rows.len() as u32;
        return TransformPropagationStats {
            mode: TransformPropagationMode::Flat,
            total_entities: n,
            root_entities: n,
            processed_entities: n,
            max_stack_size: 0,
        };
    }
    let index = index_rows(rows);
    let mut world = current_worlds(rows);
    let mut processed: u32 = 0;
    let mut deepest: usize = 0;
    proof {
        let start = walk_start(rows@);
        lemma_all_unvisited(start.visited, rows@.len() as int);
        assert(start.stack =~= scratch.pending());
    }
    let roots: u32 = walk_roots(rows, scratch, &mut world, &mut processed, &mut deepest);
    let ghost down = roots_entered(walk_start(rows@), rows@, rows@.len() as int);
    walk_down(rows, &index, scratch, &mut world, &mut processed, &mut deepest, Ghost(down));
    let ghost before = rows@;
    place_walked(rows, &scratch.visited, &world);
    proof {
        let w = walk_of(before);
        assert forall|i: int| 0 <= i < before.len() implies #[trigger] rows@[i] == (SceneNode {
            world: world_after(before, i),
            ..before[i]
        }) by {
            assert(w.visited[i] == scratch.visited.marked(before[i].entity.index_of()));
        }
    }
    TransformPropagationStats {
        mode: TransformPropagationMode::Hierarchy,
        total_entities: processed,
        root_entities: roots,
        processed_entities: processed,
        max_stack_size: deepest as u32,
    }
}

/// A row lies within another row that has it among its children.
pub open spec fn lies_within<V: Copy, Q: Copy, M: Pose<V, Q>>(
    world: Seq<M>,
    rows: Seq<SceneNode<V, Q, M>>,
    i: int,
    parent: int,
) -> bool {
    &&& 0 <= parent < rows.len()
    &&& has_child(rows[parent].children@, rows[i].entity.bits)
    &&& world[i] == world[parent].within_spec(rows[i].local())
}

pub open spec fn has_child(children: Seq<Entity>, bits: u64) -> bool {
    exists|k: int| 0 <= k < children.len() && (#[trigger] children[k]).bits == bits
}

/// A row that was visited is a root that lies where its own pose says, or lies within a visited
/// row.
pub open spec fn well_placed<V: Copy, Q: Copy, M: Pose<V, Q>>(
    w: Walk<M>,
    rows: Seq<SceneNode<V, Q, M>>,
    i: int,
) -> bool {
    w.visited[i] ==> (!rows[i].has_parent && w.world[i] == rows[i].local()) || exists|parent: int|
        w.visited[parent] && #[trigger] lies_within(w.world, rows, i, parent)
}

spec fn walk_sound<V: Copy, Q: Copy, M: Pose<V, Q>>(w: Walk<M>, rows: Seq<SceneNode<V, Q, M>>) -> bool {
    &&& w.world.len() == rows.len()
    &&& w.visited.len() == rows.len()
    &&& rows.len() <= u64::MAX
    &&& forall|i: int| 0 <= i < rows.len() ==> #[trigger] well_placed(w, rows, i)
    &&& forall|k: int|
        0 <= k < w.stack.len() ==> (#[trigger] w.stack[k]).1 < rows.len()
            && w.visited[w.stack[k].1 as int] && has_child(
            rows[w.stack[k].1 as int].children@,
            w.stack[k].0,
        )
}

proof fn lemma_enter_sound<V: Copy, Q: Copy, M: Pose<V, Q>>(
    w: Walk<M>,
    rows: Seq<SceneNode<V, Q, M>>,
    row: int,
    pose: M,
)
    requires
        walk_sound(w, rows),
        0 <= row < rows.len(),
        !w.visited[row],
        (!rows[row].has_parent && pose == rows[row].local()) || exists|parent: int|
            0 <= parent < rows.len() && w.visited[parent] && has_child(
                rows[parent].children@,
                rows[row].entity.bits,
            ) && pose == (#[trigger] w.world[parent]).within_spec(rows[row].local()),
    ensures
        walk_sound(entered(w, rows, row, pose), rows),
{
    let e = entered(w, rows, row, pose);
    assert forall|i: int| 0 <= i < rows.len() implies #[trigger] well_placed(e, rows, i) by {
        assert(well_placed(w, rows, i));
        if i == row {
            if rows[row].has_parent || pose != rows[row].local() {
                let parent = choose|parent: int|
                    0 <= parent < rows.len() && w.visited[parent] && has_child(
                        rows[parent].children@,
                        rows[row].entity.bits,
                    ) && pose == (#[trigger] w.world[parent]).within_spec(rows[row].local());
                assert(e.visited[parent] && lies_within(e.world, rows, i, parent));
            }
        } else if w.visited[i] && !(!rows[i].has_parent && w.world[i] == rows[i].local()) {
            let parent = choose|parent: int|
                w.visited[parent] && #[trigger] lies_within(w.world, rows, i, parent);
            assert(e.visited[parent] && lies_within(e.world, rows, i, parent));
        }
    }
    let children = rows[row].children@;
    assert forall|k: int| 0 <= k < e.stack.len() implies (#[trigger] e.stack[k]).1 < rows.len()
        && e.visited[e.stack[k].1 as int] && has_child(
        rows[e.stack[k].1 as int].children@,
        e.stack[k].0,
    ) by {
        if k < w.stack.len() {
            assert(e.stack[k] == w.stack[k]);
        } else {
            let at = children.len() - 1 - (k - w.stack.len());
            assert(children[at].bits == e.stack[k].0);
        }
    }
}

proof fn lemma_roots_sound<V: Copy, Q: Copy, M: Pose<V, Q>>(rows: Seq<SceneNode<V, Q, M>>, n: int)
    requires
        0 <= n <= rows.len() <= u64::MAX,
    ensures
        walk_sound(roots_entered(walk_start(rows), rows, n), rows),
        forall|j: int|
            n <= j < rows.len() ==> !(#[trigger] roots_entered(
                walk_start(rows),
                rows,
                n,
            ).visited[j]),
    decreases n,
{
    if n > 0 {
        lemma_roots_sound(rows, n - 1);
        if !rows[n - 1].has_parent {
            lemma_enter_sound(
                roots_entered(walk_start(rows), rows, n - 1),
                rows,
                n - 1,
                rows[n - 1].local(),
            );
        }
    }
}

proof fn lemma_walk_sound<V: Copy, Q: Copy, M: Pose<V, Q>>(w: Walk<M>, rows: Seq<SceneNode<V, Q, M>>)
    requires
        walk_sound(w, rows),
    ensures
        walk_sound(walked(w, rows), rows),
    decreases unvisited(w.visited, rows.len() as int), w.stack.len(),
{
    if w.stack.len() > 0 {
        let (bits, parent) = w.stack.last();
        let rest = Walk { stack: w.stack.drop_last(), ..w };
        let row = node_row(rows, bits, rows.len() as int);
        lemma_node_row_range(rows, bits, rows.len() as int);
        assert(w.stack[w.stack.len() - 1].1 < rows.len());
        assert(walk_sound(rest, rows)) by {
            assert forall|i: int| 0 <= i < rows.len() implies #[trigger] well_placed(
                rest,
                rows,
                i,
            ) by {
                assert(well_placed(w, rows, i));
                if w.visited[i] && !(!rows[i].has_parent && w.world[i] == rows[i].local()) {
                    let p = choose|p: int|
                        w.visited[p] && #[trigger] lies_within(w.world, rows, i, p);
                    assert(rest.visited[p] && lies_within(rest.world, rows, i, p));
                }
            }
            assert forall|k: int| 0 <= k < rest.stack.len() implies (#[trigger] rest.stack[k]).1
                < rows.len() && rest.visited[rest.stack[k].1 as int] && has_child(
                rows[rest.stack[k].1 as int].children@,
                rest.stack[k].0,
            ) by {
                assert(rest.stack[k] == w.stack[k]);
            }
        }
        if row >= 0 && !w.visited[row] {
            lemma_visit_counts(w.visited, row, rows.len() as int);
            let pose = w.world[parent as int].within_spec(rows[row].local());
            assert(rest.visited[parent as int] && has_child(
                rows[parent as int].children@,
                rows[row].entity.bits,
            ) && pose == rest.world[parent as int].within_spec(rows[row].local()));
            lemma_enter_sound(rest, rows, row, pose);
        }
        lemma_walk_sound(popped(w, rows), rows);
    }
}

/// Wherever the walk comes, an entity is a root at its own pose or lies within a parent that has
/// it among its children; a cycle or an entity named twice changes nothing of that.
pub proof fn law_children_lie_within_their_parents<V: Copy, Q: Copy, M: Pose<V, Q>>(
    rows: Seq<SceneNode<V, Q, M>>,
    i: int,
)
    requires
        0 <= i < rows.len() <= u64::MAX,
    ensures
        well_placed(walk_of(rows), rows, i),
{
    lemma_roots_sound(rows, rows.len() as int);
    lemma_walk_sound(roots_entered(walk_start(rows), rows, rows.len() as int), rows);
}

/// Whether a row has another one among its children.
pub open spec fn is_child<V, Q, M>(rows: Seq<SceneNode<V, Q, M>>, parent: int, i: int) -> bool {
    0 <= parent < rows.len() && has_child(rows[parent].children@, rows[i].entity.bits)
}

/// Whether a row is so many steps below a root.
pub open spec fn below_root<V, Q, M>(rows: Seq<SceneNode<V, Q, M>>, i: int, steps: nat) -> bool
    decreases steps,
{
    if steps == 0 {
        !rows[i].has_parent
    } else {
        exists|parent: int| #[trigger]
            is_child(rows, parent, i) && below_root(rows, parent, (steps - 1) as nat)
    }
}

pub open spec fn hangs_from_root<V, Q, M>(rows: Seq<SceneNode<V, Q, M>>, i: int) -> bool {
    exists|steps: nat| below_root(rows, i, steps)
}

/// Every row hangs from a root, and no row is a child of two rows; roots are children of none.
pub open spec fn is_forest<V, Q, M>(rows: Seq<SceneNode<V, Q, M>>) -> bool {
    &&& forall|i: int| 0 <= i < rows.len() ==> #[trigger] hangs_from_root(rows, i)
    &&& forall|p: int, q: int, i: int|
        0 <= i < rows.len() && #[trigger] is_child(rows, p, i) && #[trigger] is_child(rows, q, i)
            ==> p == q
    &&& forall|p: int, i: int|
        0 <= i < rows.len() && #[trigger] is_child(rows, p, i) ==> rows[i].has_parent
}

proof fn lemma_row_is_found<V, Q, M>(rows: Seq<SceneNode<V, Q, M>>, i: int, n: int)
    requires
        distinct_rows(rows),
        0 <= i < n <= rows.len(),
    ensures
        node_row(rows, rows[i].entity.bits, n) == i,
    decreases n,
{
    if i < n - 1 {
        assert(rows[i].entity.index_of() != rows[n - 1].entity.index_of());
        lemma_row_is_found(rows, i, n - 1);
    }
}

spec fn waits(stack: Seq<(u64, u64)>, bits: u64) -> bool {
    exists|k: int| 0 <= k < stack.len() && (#[trigger] stack[k]).0 == bits
}

/// Every row is counted once it is visited, and the children of visited rows are visited or wait.
spec fn walk_misses_none<V: Copy, Q: Copy, M: Pose<V, Q>>(
    w: Walk<M>,
    rows: Seq<SceneNode<V, Q, M>>,
) -> bool {
    &&& w.visited.len() == rows.len()
    &&& w.processed + unvisited(w.visited, rows.len() as int) == rows.len()
    &&& forall|p: int, i: int|
        0 <= i < rows.len() && #[trigger] is_child(rows, p, i) && w.visited[p] ==> w.visited[i]
            || waits(w.stack, rows[i].entity.bits)
}

proof fn lemma_enter_misses_none<V: Copy, Q: Copy, M: Pose<V, Q>>(
    w: Walk<M>,
    rest: Walk<M>,
    rows: Seq<SceneNode<V, Q, M>>,
    row: int,
    pose: M,
)
    requires
        walk_misses_none(w, rows),
        rest.visited == w.visited,
        rest.processed == w.processed,
        rest.stack == w.stack || w.stack.len() > 0 && rest.stack == w.stack.drop_last()
            && w.stack.last().0 == rows[row].entity.bits,
        0 <= row < rows.len(),
        !w.visited[row],
        distinct_rows(rows),
    ensures
        walk_misses_none(entered(rest, rows, row, pose), rows),
{
    let e = entered(rest, rows, row, pose);
    lemma_visit_counts(w.visited, row, rows.len() as int);
    let children = rows[row].children@;
    assert forall|p: int, i: int|
        0 <= i < rows.len() && #[trigger] is_child(rows, p, i) && e.visited[p] implies e.visited[i]
        || waits(e.stack, rows[i].entity.bits) by {
        let bits = rows[i].entity.bits;
        if !e.visited[i] {
            if p == row {
                let c = choose|c: int| 0 <= c < children.len() && (#[trigger] children[c]).bits == bits;
                let k = rest.stack.len() + (children.len() - 1 - c);
                assert(e.stack[k].0 == bits);
            } else {
                assert(waits(w.stack, bits));
                let k = choose|k: int| 0 <= k < w.stack.len() && (#[trigger] w.stack[k]).0 == bits;
                if k >= rest.stack.len() {
                    assert(rows[i].entity.bits == rows[row].entity.bits);
                    lemma_row_is_found(rows, i, rows.len() as int);
                    lemma_row_is_found(rows, row, rows.len() as int);
                }
                assert(e.stack[k] == w.stack[k]);
            }
        }
    }
}

proof fn lemma_roots_miss_none<V: Copy, Q: Copy, M: Pose<V, Q>>(
    rows: Seq<SceneNode<V, Q, M>>,
    n: int,
)
    requires
        0 <= n <= rows.len(),
        distinct_rows(rows),
    ensures
        ({
            let w = roots_entered(walk_start(rows), rows, n);
            &&& walk_misses_none(w, rows)
            &&& forall|j: int| 0 <= j < n && !(#[trigger] rows[j]).has_parent ==> w.visited[j]
            &&& forall|j: int| n <= j < rows.len() ==> !(#[trigger] w.visited[j])
        }),
    decreases n,
{
    if n > 0 {
        lemma_roots_miss_none(rows, n - 1);
        let w = roots_entered(walk_start(rows), rows, n - 1);
        if !rows[n - 1].has_parent {
            lemma_enter_misses_none(w, w, rows, n - 1, rows[n - 1].local());
        }
    } else {
        lemma_all_unvisited(walk_start(rows).visited, rows.len() as int);
    }
}

proof fn lemma_walk_misses_none<V: Copy, Q: Copy, M: Pose<V, Q>>(
    w: Walk<M>,
    rows: Seq<SceneNode<V, Q, M>>,
)
    requires
        walk_misses_none(w, rows),
        distinct_rows(rows),
    ensures
        walk_misses_none(walked(w, rows), rows),
        walked(w, rows).stack.len() == 0,
        forall|i: int|
            0 <= i < rows.len() && w.visited[i] ==> #[trigger] walked(w, rows).visited[i],
    decreases unvisited(w.visited, rows.len() as int), w.stack.len(),
{
    if w.stack.len() > 0 {
        let (bits, parent) = w.stack.last();
        let rest = Walk { stack: w.stack.drop_last(), ..w };
        let row = node_row(rows, bits, rows.len() as int);
        lemma_node_row_range(rows, bits, rows.len() as int);
        if row >= 0 && !w.visited[row] {
            lemma_visit_counts(w.visited, row, rows.len() as int);
            let pose = w.world[parent as int].within_spec(rows[row].local());
            lemma_enter_misses_none(w, rest, rows, row, pose);
        } else {
            assert forall|p: int, i: int|
                0 <= i < rows.len() && #[trigger] is_child(rows, p, i) && rest.visited[p] implies
                rest.visited[i] || waits(rest.stack, rows[i].entity.bits) by {
                if !rest.visited[i] {
                    assert(waits(w.stack, rows[i].entity.bits));
                    let k = choose|k: int|
                        0 <= k < w.stack.len() && (#[trigger] w.stack[k]).0
                            == rows[i].entity.bits;
                    if k == w.stack.len() - 1 {
                        lemma_row_is_found(rows, i, rows.len() as int);
                    }
                    assert(rest.stack[k] == w.stack[k]);
                }
            }
        }
        lemma_walk_misses_none(popped(w, rows), rows);
    }
}

proof fn lemma_hanging_rows_are_visited<V: Copy, Q: Copy, M: Pose<V, Q>>(
    w: Walk<M>,
    rows: Seq<SceneNode<V, Q, M>>,
    i: int,
    steps: nat,
)
    requires
        walk_misses_none(w, rows),
        w.stack.len() == 0,
        forall|j: int| 0 <= j < rows.len() && !(#[trigger] rows[j]).has_parent ==> w.visited[j],
        0 <= i < rows.len(),
        below_root(rows, i, steps),
    ensures
        w.visited[i],
    decreases steps,
{
    if steps > 0 {
        let parent = choose|parent: int| #[trigger]
            is_child(rows, parent, i) && below_root(rows, parent, (steps - 1) as nat);
        lemma_hanging_rows_are_visited(w, rows, parent, (steps - 1) as nat);
        assert(is_child(rows, parent, i));
    }
}

proof fn lemma_none_unvisited(visited: Seq<bool>, n: int)
    requires
        0 <= n <= visited.len(),
        forall|i: int| 0 <= i < n ==> #[trigger] visited[i],
    ensures
        unvisited(visited, n) == 0,
    decreases n,
{
    if n > 0 {
        lemma_none_unvisited(visited, n - 1);
    }
}

/// The walk comes to every entity that hangs from a root.
pub proof fn law_what_hangs_from_a_root_is_visited<V: Copy, Q: Copy, M: Pose<V, Q>>(
    rows: Seq<SceneNode<V, Q, M>>,
    i: int,
)
    requires
        distinct_rows(rows),
        0 <= i < rows.len(),
        hangs_from_root(rows, i),
    ensures
        walk_of(rows).visited[i],
{
    let start = roots_entered(walk_start(rows), rows, rows.len() as int);
    lemma_roots_miss_none(rows, rows.len() as int);
    lemma_walk_misses_none(start, rows);
    let steps = choose|steps: nat| below_root(rows, i, steps);
    lemma_hanging_rows_are_visited(walk_of(rows), rows, i, steps);
}

/// In a forest the walk comes to every entity once: as many are counted as there are, roots lie
/// where their own pose says, and every child lies within its parent.
pub proof fn law_forest_is_placed_in_whole<V: Copy, Q: Copy, M: Pose<V, Q>>(
    rows: Seq<SceneNode<V, Q, M>>,
)
    requires
        distinct_rows(rows),
        rows.len() <= u64::MAX,
        is_forest(rows),
    ensures
        walk_of(rows).processed == rows.len(),
        forall|i: int|
            0 <= i < rows.len() && !(#[trigger] rows[i]).has_parent ==> world_after(rows, i)
                == rows[i].local(),
        forall|p: int, i: int|
            0 <= i < rows.len() && #[trigger] is_child(rows, p, i) ==> world_after(rows, i)
                == world_after(rows, p).within_spec(rows[i].local()),
{
    let w = walk_of(rows);
    let start = roots_entered(walk_start(rows), rows, rows.len() as int);
    lemma_roots_miss_none(rows, rows.len() as int);
    lemma_walk_misses_none(start, rows);
    assert forall|i: int| 0 <= i < rows.len() implies #[trigger] w.visited[i] by {
        assert(hangs_from_root(rows, i));
        law_what_hangs_from_a_root_is_visited(rows, i);
    }
    lemma_none_unvisited(w.visited, rows.len() as int);
    assert forall|i: int| 0 <= i < rows.len() && !(#[trigger] rows[i]).has_parent implies
        world_after(rows, i) == rows[i].local() by {
        assert(w.visited[i]);
        law_children_lie_within_their_parents(rows, i);
        if w.world[i] != rows[i].local() {
            let p = choose|p: int| w.visited[p] && #[trigger] lies_within(w.world, rows, i, p);
            assert(is_child(rows, p, i));
        }
    }
    assert forall|p: int, i: int| 0 <= i < rows.len() && #[trigger] is_child(rows, p, i) implies
        world_after(rows, i) == world_after(rows, p).within_spec(rows[i].local()) by {
        assert(w.visited[i] && w.visited[p]);
        law_children_lie_within_their_parents(rows, i);
        assert(rows[i].has_parent);
        let q = choose|q: int| w.visited[q] && #[trigger] lies_within(w.world, rows, i, q);
        assert(is_child(rows, q, i));
    }
}

} // verus!
