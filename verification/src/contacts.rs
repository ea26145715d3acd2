//! Which boxes touch, when they start and stop doing so, and how they push one another apart.
use vstd::prelude::*;
use crate::entity::Entity;
use crate::events::{ordered_pair, EventBus, GameEvent};
use crate::scalar::{ratio, Scalar};
use crate::small_list::{
    small_clear, small_contains, small_get, small_items, small_len, small_new, small_push, SmallList,
};
use crate::spatial::{aabb_overlap, SpatialHash, SpatialMode, SpatialQuadtree};
use crate::vectors::Vec2;

verus! {

/// The pairs that touch, in the order in which they were found; none twice.
pub struct ParticleContacts {
    pub pairs: Vec<(Entity, Entity)>,
}

impl ParticleContacts {
    pub open spec fn wf(self) -> bool {
        self.pairs@.no_duplicates()
    }

    pub fn new() -> (r: Self)
        ensures
            r.wf(),
            r.pairs@.len() == 0,
    {
        ParticleContacts { pairs: Vec::new() }
    }
}

fn has_pair(pairs: &Vec<(Entity, Entity)>, pair: (Entity, Entity)) -> (r: bool)
    ensures
        r == pairs@.contains(pair),
{
    let mut i: usize = 0;
    while i < pairs.len()
        invariant
            i <= pairs@.len(),
            forall|j: int| 0 <= j < i ==> pairs@[j] != pair,
        decreases pairs@.len() - i,
    {
        if pairs[i].0 == pair.0 && pairs[i].1 == pair.1 {
            assert(pairs@[i as int] == pair);
            return true;
        }
        i = i + 1;
    }
    false
}

/// The pairs without one of them.
pub open spec fn without_pair(pairs: Seq<(Entity, Entity)>, pair: (Entity, Entity)) -> Seq<
    (Entity, Entity),
>
    decreases pairs.len(),
{
    if pairs.len() == 0 {
        pairs
    } else if pairs.last() == pair {
        without_pair(pairs.drop_last(), pair)
    } else {
        without_pair(pairs.drop_last(), pair).push(pairs.last())
    }
}

fn take_pair(pairs: &mut Vec<(Entity, Entity)>, pair: (Entity, Entity)) -> (r: bool)
    ensures
        r == old(pairs)@.contains(pair),
        final(pairs)@ == without_pair(old(pairs)@, pair),
{
    let mut kept: Vec<(Entity, Entity)> = Vec::new();
    let mut found: bool = false;
    let mut i: usize = 0;
    while i < pairs.len()
        invariant
            i <= pairs@.len(),
            pairs@ == old(pairs)@,
            kept@ == without_pair(pairs@.take(i as int), pair),
            found == exists|j: int| 0 <= j < i && pairs@[j] == pair,
        decreases pairs@.len() - i,
    {
        proof {
            assert(pairs@.take(i + 1).drop_last() =~= pairs@.take(i as int));
            assert(pairs@.take(i + 1).last() == pairs@[i as int]);
        }
        if pairs[i].0 == pair.0 && pairs[i].1 == pair.1 {
            found = true;
            assert(pairs@[i as int] == pair);
        } else {
            kept.push(pairs[i]);
        }
        i = i + 1;
    }
    assert(pairs@.take(i as int) =~= pairs@);
    *pairs = kept;
    found
}

/// A box that can touch others; one without a velocity does not move.
pub struct ColliderRow<S> {
    pub entity: Entity,
    pub translation: Vec2<S>,
    pub half: Vec2<S>,
    pub velocity: Option<Vec2<S>>,
}

/// The row of an entity among the first `n`, or -1.
pub open spec fn row_of<S>(rows: Seq<ColliderRow<S>>, bits: u64, n: int) -> int
    decreases n,
{
    if n <= 0 {
        -1
    } else if rows[n - 1].entity.bits == bits {
        n - 1
    } else {
        row_of(rows, bits, n - 1)
    }
}

fn find_row<S>(rows: &Vec<ColliderRow<S>>, bits: u64) -> (r: Option<usize>)
    ensures
        match r {
            Some(i) => i == row_of(rows@, bits, rows@.len() as int) && i < rows@.len()
                && rows@[i as int].entity.bits == bits,
            None => row_of(rows@, bits, rows@.len() as int) == -1,
        },
{
    let mut n: usize = rows.len();
    while n > 0
        invariant
            n <= rows@.len(),
            row_of(rows@, bits, rows@.len() as int) == row_of(rows@, bits, n as int),
        decreases n,
    {
        if rows[n - 1].entity.bits == bits {
            return Some(n - 1);
        }
        n = n - 1;
    }
    None
}

/// How far the search for what a box touches has come.
pub struct Touching<S> {
    pub checked: Seq<u64>,
    pub impulse: Vec2<S>,
    pub pairs: Seq<(Entity, Entity)>,
    pub previous: Seq<(Entity, Entity)>,
    pub events: Seq<GameEvent<S>>,
}

/// The push on a box away from another one.
pub open spec fn push_apart<S: Scalar>(at: Vec2<S>, other: Vec2<S>) -> Vec2<S> {
    let delta = at.minus_spec(other);
    Vec2 { x: delta.x.sign_spec(), y: delta.y.sign_spec() }.scaled_spec(
        crate::scalar::ratio_spec(4, 100),
    )
}

/// One more candidate looked at: one already checked, the box itself, one without a box and one
/// that is not touched change nothing else. A pair that was not there in the frame before has
/// started to touch.
pub open spec fn looked_at<S: Scalar>(
    t: Touching<S>,
    rows: Seq<ColliderRow<S>>,
    me: ColliderRow<S>,
    other: u64,
) -> Touching<S> {
    if other == me.entity.bits || t.checked.contains(other) {
        t
    } else {
        let seen = Touching { checked: t.checked.push(other), ..t };
        let i = row_of(rows, other, rows.len() as int);
        if i < 0 || !crate::spatial::boxes_overlap(
            me.translation,
            me.half,
            rows[i].translation,
            rows[i].half,
        ) {
            seen
        } else {
            let pair = crate::events::pair_of(me.entity, rows[i].entity);
            let pushed = Touching {
                impulse: t.impulse.plus_spec(push_apart(me.translation, rows[i].translation)),
                ..seen
            };
            if t.pairs.contains(pair) {
                pushed
            } else {
                Touching {
                    pairs: t.pairs.push(pair),
                    previous: without_pair(t.previous, pair),
                    events: if t.previous.contains(pair) {
                        t.events
                    } else {
                        t.events.push(GameEvent::CollisionStarted { a: pair.0, b: pair.1 })
                    },
                    ..pushed
                }
            }
        }
    }
}

/// The first `n` candidates looked at.
pub open spec fn all_looked_at<S: Scalar>(
    t: Touching<S>,
    rows: Seq<ColliderRow<S>>,
    me: ColliderRow<S>,
    candidates: Seq<u64>,
    n: int,
) -> Touching<S>
    decreases n,
{
    if n <= 0 {
        t
    } else {
        looked_at(all_looked_at(t, rows, me, candidates, n - 1), rows, me, candidates[n - 1])
    }
}

/// The state of a search in running code.
struct Search<S> {
    checked: SmallList,
    impulse: Vec2<S>,
    pairs: Vec<(Entity, Entity)>,
    previous: Vec<(Entity, Entity)>,
    events: EventBus<S>,
}

impl<S: Scalar> Search<S> {
    spec fn state(self) -> Touching<S> {
        Touching {
            checked: small_items(self.checked),
            impulse: self.impulse,
            pairs: self.pairs@,
            previous: self.previous@,
            events: self.events@,
        }
    }

    fn look_at(&mut self, rows: &Vec<ColliderRow<S>>, me: usize, other: u64)
        requires
            me < rows@.len(),
        ensures
            final(self).state() == looked_at(old(self).state(), rows@, rows@[me as int], other),
    {
        if other == rows[me].entity.bits || small_contains(&self.checked, other) {
            return ;
        }
        small_push(&mut self.checked, other);
        if let Some(i) = find_row(rows, other) {
            let at = rows[me].translation;
            let there = rows[i].translation;
            if aabb_overlap(at, rows[me].half, there, rows[i].half) {
                let delta = at.minus(there);
                let push = Vec2 { x: delta.x.sign(), y: delta.y.sign() }.scaled(ratio(4, 100));
                self.impulse = self.impulse.plus(push);
                let pair = ordered_pair(rows[me].entity, rows[i].entity);
                if !has_pair(&self.pairs, pair) {
                    self.pairs.push(pair);
                    if !take_pair(&mut self.previous, pair) {
                        self.events.push(GameEvent::CollisionStarted { a: pair.0, b: pair.1 });
                    }
                }
            }
        }
    }

    fn look_at_list(&mut self, rows: &Vec<ColliderRow<S>>, me: usize, list: &Vec<Entity>)
        requires
            me < rows@.len(),
        ensures
            final(self).state() == all_looked_at(
                old(self).state(),
                rows@,
                rows@[me as int],
                bits_of(list@),
                list@.len() as int,
            ),
    {
        let mut k: usize = 0;
        while k < list.len()
            invariant
                me < rows@.len(),
                k <= list@.len(),
                self.state() == all_looked_at(
                    old(self).state(),
                    rows@,
                    rows@[me as int],
                    bits_of(list@),
                    k as int,
                ),
            decreases list@.len() - k,
        {
            assert(bits_of(list@)[k as int] == list@[k as int].bits);
            self.look_at(rows, me, list[k].bits);
            k = k + 1;
        }
    }

    fn look_at_candidates(&mut self, rows: &Vec<ColliderRow<S>>, me: usize, list: &SmallList)
        requires
            me < rows@.len(),
        ensures
            final(self).state() == all_looked_at(
                old(self).state(),
                rows@,
                rows@[me as int],
                small_items(*list),
                small_items(*list).len() as int,
            ),
    {
        let n: usize = small_len(list);
        let mut k: usize = 0;
        while k < n
            invariant
                me < rows@.len(),
                n == small_items(*list).len(),
                k <= n,
                self.state() == all_looked_at(
                    old(self).state(),
                    rows@,
                    rows@[me as int],
                    small_items(*list),
                    k as int,
                ),
            decreases n - k,
        {
            self.look_at(rows, me, small_get(list, k));
            k = k + 1;
        }
    }
}

pub open spec fn bits_of(list: Seq<Entity>) -> Seq<u64> {
    list.map_values(|e: Entity| e.bits)
}

/// The cells around a cell, row by row from below; a cell that would lie beyond the numbers has
/// nobody in it.
pub open spec fn cell_beside<S: Scalar>(grid: SpatialHash<S>, key: (i32, i32), n: int) -> Seq<u64> {
    let x = key.0 + n % 3 - 1;
    let y = key.1 + n / 3 - 1;
    if i32::MIN <= x <= i32::MAX && i32::MIN <= y <= i32::MAX {
        bits_of(grid.listed((x as i32, y as i32)))
    } else {
        Seq::empty()
    }
}

/// The search over the first `n` of the nine cells around a box.
pub open spec fn cells_looked_at<S: Scalar>(
    t: Touching<S>,
    rows: Seq<ColliderRow<S>>,
    me: ColliderRow<S>,
    grid: SpatialHash<S>,
    n: int,
) -> Touching<S>
    decreases n,
{
    if n <= 0 {
        t
    } else {
        let list = cell_beside(grid, crate::spatial::cell_of(me.translation, grid.cell), n - 1);
        all_looked_at(
            cells_looked_at(t, rows, me, grid, n - 1),
            rows,
            me,
            list,
            list.len() as int,
        )
    }
}

/// The part of the plane that a box asks the tree for: a little more than itself.
pub open spec fn asked_half<S: Scalar>(half: Vec2<S>) -> Vec2<S> {
    half.scaled_spec(crate::scalar::ratio_spec(105, 100))
}

/// The search of one box.
pub open spec fn searched<S: Scalar>(
    t: Touching<S>,
    rows: Seq<ColliderRow<S>>,
    me: ColliderRow<S>,
    grid: SpatialHash<S>,
    tree: SpatialQuadtree<S>,
    mode: SpatialMode,
) -> Touching<S> {
    let start = Touching { checked: Seq::empty(), impulse: Vec2::zero_spec(), ..t };
    match mode {
        SpatialMode::Grid => cells_looked_at(start, rows, me, grid, 9),
        SpatialMode::Quadtree => {
            let found = crate::spatial::met(
                tree.nodes@,
                tree.entries@,
                0,
                me.translation,
                asked_half(me.half),
            );
            all_looked_at(start, rows, me, found, found.len() as int)
        },
    }
}

/// The searches of those of the first `n` boxes that move; without any node the tree finds
/// nothing.
pub open spec fn swept<S: Scalar>(
    t: Touching<S>,
    rows: Seq<ColliderRow<S>>,
    grid: SpatialHash<S>,
    tree: SpatialQuadtree<S>,
    mode: SpatialMode,
    n: int,
) -> Touching<S>
    decreases n,
{
    if n <= 0 {
        t
    } else {
        let before = swept(t, rows, grid, tree, mode, n - 1);
        if rows[n - 1].velocity is None {
            before
        } else {
            searched(before, rows, rows[n - 1], grid, tree, mode)
        }
    }
}

/// What the search of a box starts from: nothing touches yet, and everything that touched may have
/// stopped.
pub open spec fn sweep_start<S: Scalar>(
    touched: Seq<(Entity, Entity)>,
    events: Seq<GameEvent<S>>,
) -> Touching<S> {
    Touching {
        checked: Seq::empty(),
        impulse: Vec2::zero_spec(),
        pairs: Seq::empty(),
        previous: touched,
        events,
    }
}

/// The events that the pairs which no longer touch have ended, in order.
pub open spec fn ended_events<S>(pairs: Seq<(Entity, Entity)>) -> Seq<GameEvent<S>> {
    Seq::new(
        pairs.len(),
        |i: int|
            {
                let pair = crate::events::pair_of(pairs[i].0, pairs[i].1);
                GameEvent::CollisionEnded { a: pair.0, b: pair.1 }
            },
    )
}

/// The velocity of the `i`-th box after the search: pushed away from what it touches.
pub open spec fn pushed_velocity<S: Scalar>(
    t: Touching<S>,
    rows: Seq<ColliderRow<S>>,
    grid: SpatialHash<S>,
    tree: SpatialQuadtree<S>,
    mode: SpatialMode,
    i: int,
) -> Option<Vec2<S>> {
    match rows[i].velocity {
        Some(v) => if mode is Quadtree && tree.nodes@.len() == 0 {
            Some(v)
        } else {
            Some(v.plus_spec(swept(t, rows, grid, tree, mode, i + 1).impulse))
        },
        None => None,
    }
}

fn search_box<S: Scalar>(
    search: &mut Search<S>,
    rows: &Vec<ColliderRow<S>>,
    me: usize,
    grid: &SpatialHash<S>,
    tree: &SpatialQuadtree<S>,
    mode: SpatialMode,
)
    requires
        me < rows@.len(),
        tree.wf(),
    ensures
        final(search).state() == searched(
            old(search).state(),
            rows@,
            rows@[me as int],
            *grid,
            *tree,
            mode,
        ),
{
    small_clear(&mut search.checked);
    search.impulse = Vec2::zero();
    let ghost start = search.state();
    match mode {
        SpatialMode::Grid => {
            let (kx, ky) = grid.key(rows[me].translation);
            let mut n: i64 = 0;
            while n < 9
                invariant
                    0 <= n <= 9,
                    me < rows@.len(),
                    (kx, ky) == crate::spatial::cell_of(rows@[me as int].translation, grid.cell),
                    search.state() == cells_looked_at(
                        start,
                        rows@,
                        rows@[me as int],
                        *grid,
                        n as int,
                    ),
                decreases 9 - n,
            {
                let x: i64 = kx as i64 + n % 3 - 1;
                let y: i64 = ky as i64 + n / 3 - 1;
                if -2147483648 <= x && x <= 2147483647 && -2147483648 <= y && y <= 2147483647 {
                    match grid.cell_entities(x as i32, y as i32) {
                        Some(list) => {
                            search.look_at_list(rows, me, list);
                        },
                        None => {
                            assert(bits_of(grid.listed((x as i32, y as i32))).len() == 0);
                        },
                    }
                }
                n = n + 1;
            }
        },
        SpatialMode::Quadtree => {
            let mut found = small_new();
            tree.query(rows[me].translation, rows[me].half.scaled(ratio(105, 100)), &mut found);
            search.look_at_candidates(rows, me, &found);
        },
    }
}

/// Finds what touches: boxes that move are pushed away from what they touch, pairs that start and
/// stop touching are reported.
pub fn collide_spatial<S: Scalar>(
    grid: &SpatialHash<S>,
    tree: &SpatialQuadtree<S>,
    mode: SpatialMode,
    rows: &mut Vec<ColliderRow<S>>,
    contacts: &mut ParticleContacts,
    events: &mut EventBus<S>,
)
    requires
        tree.wf(),
    ensures
        ({
            let start = sweep_start(old(contacts).pairs@, old(events)@);
            let n = old(rows)@.len() as int;
            let done = swept(start, old(rows)@, *grid, *tree, mode, n);
            &&& final(contacts).pairs@ == done.pairs
            &&& final(events)@ == done.events + ended_events::<S>(done.previous)
            &&& final(rows)@.len() == n
            &&& forall|i: int|
                0 <= i < n ==> #[trigger] final(rows)@[i] == (ColliderRow {
                    velocity: pushed_velocity(start, old(rows)@, *grid, *tree, mode, i),
                    ..old(rows)@[i]
                })
        }),
{
    let mut previous: Vec<(Entity, Entity)> = Vec::new();
    std::mem::swap(&mut previous, &mut contacts.pairs);
    let mut bus: EventBus<S> = EventBus::new();
    std::mem::swap(&mut bus, events);
    let mut search = Search {
        checked: small_new(),
        impulse: Vec2::zero(),
        pairs: Vec::new(),
        previous,
        events: bus,
    };
    let ghost start = sweep_start(old(contacts).pairs@, old(events)@);
    let mut pushed: Vec<Option<Vec2<S>>> = Vec::new();
    let mut i: usize = 0;
    while i < rows.len()
        invariant
            i <= rows@.len(),
            rows@ == old(rows)@,
            tree.wf(),
            pushed@.len() == i,
            start == sweep_start(old(contacts).pairs@, old(events)@),
            search.state() == swept(start, rows@, *grid, *tree, mode, i as int),
            forall|j: int|
                0 <= j < i ==> #[trigger] pushed@[j] == pushed_velocity(
                    start,
                    rows@,
                    *grid,
                    *tree,
                    mode,
                    j,
                ),
        decreases rows@.len() - i,
    {
        match rows[i].velocity {
            Some(v) => {
                search_box(&mut search, rows, i, grid, tree, mode);
                if matches!(mode, SpatialMode::Quadtree) && tree.node_count() == 0 {
                    pushed.push(Some(v));
                } else {
                    pushed.push(Some(v.plus(search.impulse)));
                }
            },
            None => {
                pushed.push(None);
            },
        }
        i = i + 1;
    }
    let mut k: usize = 0;
    while k < rows.len()
        invariant
            k <= rows@.len(),
            rows@.len() == old(rows)@.len(),
            pushed@.len() == rows@.len(),
            forall|j: int| k <= j < rows@.len() ==> #[trigger] rows@[j] == old(rows)@[j],
            forall|j: int|
                0 <= j < k ==> #[trigger] rows@[j] == (ColliderRow {
                    velocity: pushed@[j],
                    ..old(rows)@[j]
                }),
        decreases rows@.len() - k,
    {
        rows[k].velocity = pushed[k];
        k = k + 1;
    }
    let Search { checked: _, impulse: _, pairs, previous: left, events: bus } = search;
    contacts.pairs = pairs;
    *events = bus;
    let ghost reported = events@;
    let ghost ended = ended_events::<S>(left@);
    let mut m: usize = 0;
    while m < left.len()
        invariant
            m <= left@.len(),
            ended == ended_events::<S>(left@),
            events@ == reported + ended.take(m as int),
        decreases left@.len() - m,
    {
        events.push(GameEvent::collision_ended(left[m].0, left[m].1));
        proof {
            assert(ended.take(m + 1) =~= ended.take(m as int).push(ended[m as int]));
            assert(events@ =~= reported + ended.take(m + 1));
        }
        m = m + 1;
    }
    assert(ended.take(m as int) =~= ended);
}

proof fn lemma_without_pair(pairs: Seq<(Entity, Entity)>, pair: (Entity, Entity))
    ensures
        forall|p: (Entity, Entity)| #[trigger]
            without_pair(pairs, pair).contains(p) == (pairs.contains(p) && p != pair),
    decreases pairs.len(),
{
    if pairs.len() > 0 {
        let first = pairs.drop_last();
        lemma_without_pair(first, pair);
        let r = without_pair(pairs, pair);
        assert forall|p: (Entity, Entity)| #[trigger] r.contains(p) == (pairs.contains(p) && p
            != pair) by {
            assert(pairs =~= first.push(pairs.last()));
            assert(first.push(pairs.last()).contains(p) == (first.contains(p) || pairs.last() == p))
                by {
                vstd::seq_lib::lemma_seq_contains_after_push(first, pairs.last(), p);
            }
            if pairs.last() != pair {
                let w = without_pair(first, pair);
                vstd::seq_lib::lemma_seq_contains_after_push(w, pairs.last(), p);
                assert(w.contains(p) == (first.contains(p) && p != pair));
            } else {
                assert(without_pair(first, pair).contains(p) == (first.contains(p) && p != pair));
            }
        }
    }
}

/// No pair is noted twice, and each that touched before is either noted again or still waits to
/// be reported as ended.
pub open spec fn accounted<S>(t: Touching<S>, touched: Seq<(Entity, Entity)>) -> bool {
    &&& t.pairs.no_duplicates()
    &&& forall|p: (Entity, Entity)| #[trigger]
        t.previous.contains(p) == (touched.contains(p) && !t.pairs.contains(p))
}

proof fn lemma_look_accounts<S: Scalar>(
    t: Touching<S>,
    rows: Seq<ColliderRow<S>>,
    me: ColliderRow<S>,
    other: u64,
    touched: Seq<(Entity, Entity)>,
)
    requires
        accounted(t, touched),
    ensures
        accounted(looked_at(t, rows, me, other), touched),
{
    let r = looked_at(t, rows, me, other);
    let i = row_of(rows, other, rows.len() as int);
    let pair = crate::events::pair_of(me.entity, rows[i].entity);
    assert(t.pairs.push(pair).len() == t.pairs.len() + 1);
    if r.pairs.len() != t.pairs.len() {
        assert(r.pairs == t.pairs.push(pair));
        lemma_without_pair(t.previous, pair);
        assert forall|p: (Entity, Entity)| #[trigger] r.previous.contains(p) == (touched.contains(p)
            && !r.pairs.contains(p)) by {
            vstd::seq_lib::lemma_seq_contains_after_push(t.pairs, pair, p);
            assert(t.previous.contains(p) == (touched.contains(p) && !t.pairs.contains(p)));
        }
        assert forall|a: int, b: int| 0 <= a < b < r.pairs.len() implies r.pairs[a] != r.pairs[b] by {
            if b == t.pairs.len() {
                assert(t.pairs.contains(t.pairs[a]));
            }
        }
    } else {
        assert(r.pairs == t.pairs && r.previous == t.previous);
    }
}

proof fn lemma_looks_account<S: Scalar>(
    t: Touching<S>,
    rows: Seq<ColliderRow<S>>,
    me: ColliderRow<S>,
    candidates: Seq<u64>,
    n: int,
    touched: Seq<(Entity, Entity)>,
)
    requires
        accounted(t, touched),
    ensures
        accounted(all_looked_at(t, rows, me, candidates, n), touched),
    decreases n,
{
    if n > 0 {
        lemma_looks_account(t, rows, me, candidates, n - 1, touched);
        lemma_look_accounts(
            all_looked_at(t, rows, me, candidates, n - 1),
            rows,
            me,
            candidates[n - 1],
            touched,
        );
    }
}

proof fn lemma_cells_account<S: Scalar>(
    t: Touching<S>,
    rows: Seq<ColliderRow<S>>,
    me: ColliderRow<S>,
    grid: SpatialHash<S>,
    n: int,
    touched: Seq<(Entity, Entity)>,
)
    requires
        accounted(t, touched),
    ensures
        accounted(cells_looked_at(t, rows, me, grid, n), touched),
    decreases n,
{
    if n > 0 {
        lemma_cells_account(t, rows, me, grid, n - 1, touched);
        let list = cell_beside(grid, crate::spatial::cell_of(me.translation, grid.cell), n - 1);
        lemma_looks_account(
            cells_looked_at(t, rows, me, grid, n - 1),
            rows,
            me,
            list,
            list.len() as int,
            touched,
        );
    }
}

/// After a sweep no pair is noted twice, and every pair that touched before either touches still
/// or is among those that have ended, never both.
pub proof fn law_contacts_last_or_end<S: Scalar>(
    touched: Seq<(Entity, Entity)>,
    events: Seq<GameEvent<S>>,
    rows: Seq<ColliderRow<S>>,
    grid: SpatialHash<S>,
    tree: SpatialQuadtree<S>,
    mode: SpatialMode,
    n: int,
)
    ensures
        accounted(
            swept(sweep_start(touched, events), rows, grid, tree, mode, n),
            touched,
        ),
    decreases n,
{
    let start = sweep_start::<S>(touched, events);
    if n > 0 {
        law_contacts_last_or_end(touched, events, rows, grid, tree, mode, n - 1);
        let before = swept(start, rows, grid, tree, mode, n - 1);
        if rows[n - 1].velocity is Some {
            let me = rows[n - 1];
            let fresh = Touching { checked: Seq::empty(), impulse: Vec2::zero_spec(), ..before };
            assert(accounted(fresh, touched)) by {
                assert forall|p: (Entity, Entity)| #[trigger] fresh.previous.contains(p) == (
                touched.contains(p) && !fresh.pairs.contains(p)) by {
                    assert(before.previous.contains(p) == (touched.contains(p)
                        && !before.pairs.contains(p)));
                }
            }
            match mode {
                SpatialMode::Grid => {
                    lemma_cells_account(fresh, rows, me, grid, 9, touched);
                },
                SpatialMode::Quadtree => {
                    let found = crate::spatial::met(
                        tree.nodes@,
                        tree.entries@,
                        0,
                        me.translation,
                        asked_half(me.half),
                    );
                    lemma_looks_account(fresh, rows, me, found, found.len() as int, touched);
                },
            }
        }
    }
}

} // verus!
