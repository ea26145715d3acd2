//! Which entities are near a place: a grid of cells, and a tree of quarters for crowded scenes.
use std::collections::HashMap;
use vstd::prelude::*;
use crate::entity::Entity;
use crate::motion::WorldBounds;
use crate::scalar::{ratio, Fixed, Scalar};
use crate::small_list::{small_clear, small_get, small_items, small_len, small_new, small_push, SmallList};
use crate::vectors::Vec2;

verus! {

broadcast use vstd::std_specs::hash::group_hash_axioms;

/// The number that stands for a cell.
pub open spec fn cell_number(kx: i32, ky: i32) -> u64 {
    ((kx + 2147483648) * 4294967296 + (ky + 2147483648)) as u64
}

fn number_cell(kx: i32, ky: i32) -> (r: u64)
    ensures
        r == cell_number(kx, ky),
{
    let high: u64 = (kx as i64 + 2147483648) as u64;
    let low: u64 = (ky as i64 + 2147483648) as u64;
    high * 4294967296 + low
}

/// Different cells have different numbers.
pub proof fn law_cells_have_their_own_numbers(a: (i32, i32), b: (i32, i32))
    requires
        cell_number(a.0, a.1) == cell_number(b.0, b.1),
    ensures
        a == b,
{
    assert((a.0 + 2147483648) * 4294967296 + (a.1 + 2147483648) == (b.0 + 2147483648) * 4294967296
        + (b.1 + 2147483648));
}

/// A grid of square cells, each with the entities whose boxes touch it.
pub struct SpatialHash<S> {
    pub cell: S,
    pub grid: HashMap<u64, Vec<Entity>>,
    pub active_cells: Vec<(i32, i32)>,
}

/// The cell that a place lies in.
pub open spec fn cell_of<S: Scalar>(p: Vec2<S>, cell: S) -> (i32, i32) {
    (p.x.over_spec(cell).floor_steps_spec(), p.y.over_spec(cell).floor_steps_spec())
}

/// Whether a cell lies between two corner cells.
pub open spec fn cell_within(k: (i32, i32), low: (i32, i32), high: (i32, i32)) -> bool {
    low.0 <= k.0 <= high.0 && low.1 <= k.1 <= high.1
}

/// Whether a cell comes before another one when rows are walked from the lower corner on.
pub open spec fn walked_before(k: (i32, i32), x: int, y: int) -> bool {
    k.1 < y || (k.1 == y && k.0 < x)
}

impl<S: Scalar> SpatialHash<S> {
    /// The entities of a cell in the order they came.
    pub open spec fn listed(self, k: (i32, i32)) -> Seq<Entity> {
        if self.grid@.contains_key(cell_number(k.0, k.1)) {
            self.grid@[cell_number(k.0, k.1)]@
        } else {
            Seq::empty()
        }
    }

    /// The active cells are those with entities, each once.
    pub open spec fn wf(self) -> bool {
        &&& forall|i: int, j: int|
            0 <= i < j < self.active_cells@.len() ==> self.active_cells@[i]
                != self.active_cells@[j]
        &&& forall|k: (i32, i32)|
            self.active_cells@.contains(k) == (#[trigger] self.listed(k).len() > 0)
    }

    pub fn new(cell: S) -> (r: Self)
        ensures
            r.wf(),
            r.cell == cell,
            r.active_cells@.len() == 0,
            forall|k: (i32, i32)| (#[trigger] r.listed(k)).len() == 0,
    {
        SpatialHash { cell, grid: HashMap::new(), active_cells: Vec::new() }
    }

    /// Empties every cell.
    pub fn begin_frame(&mut self)
        requires
            old(self).wf(),
        ensures
            final(self).wf(),
            final(self).cell == old(self).cell,
            final(self).active_cells@.len() == 0,
            forall|k: (i32, i32)| (#[trigger] final(self).listed(k)).len() == 0,
    {
        let mut i: usize = 0;
        while i < self.active_cells.len()
            invariant
                i <= self.active_cells@.len(),
                self.cell == old(self).cell,
                self.active_cells == old(self).active_cells,
                old(self).wf(),
                forall|k: (i32, i32)|
                    (#[trigger] self.listed(k)).len() == 0 || self.listed(k) == old(self).listed(k),
                forall|j: int|
                    0 <= j < i ==> self.listed(#[trigger] self.active_cells@[j]).len() == 0,
            decreases self.active_cells@.len() - i,
        {
            let (kx, ky) = self.active_cells[i];
            let number: u64 = number_cell(kx, ky);
            let ghost before = *self;
            if self.grid.contains_key(&number) {
                self.grid.insert(number, Vec::new());
            }
            proof {
                assert forall|k: (i32, i32)| (#[trigger] self.listed(k)).len() == 0 || self.listed(k)
                    == old(self).listed(k) by {
                    assert(before.listed(k).len() == 0 || before.listed(k) == old(self).listed(k));
                    if cell_number(k.0, k.1) == number {
                        law_cells_have_their_own_numbers(k, (kx, ky));
                    }
                }
                assert forall|j: int| 0 <= j < i + 1 implies self.listed(
                    #[trigger] self.active_cells@[j],
                ).len() == 0 by {
                    let k = self.active_cells@[j];
                    if j < i {
                        assert(before.listed(before.active_cells@[j]).len() == 0);
                    }
                    if cell_number(k.0, k.1) == number {
                        law_cells_have_their_own_numbers(k, (kx, ky));
                    }
                }
            }
            i = i + 1;
        }
        proof {
            assert forall|k: (i32, i32)| (#[trigger] self.listed(k)).len() == 0 by {
                if old(self).listed(k).len() > 0 {
                    assert(old(self).active_cells@.contains(k));
                    let j = choose|j: int|
                        0 <= j < old(self).active_cells@.len() && old(self).active_cells@[j] == k;
                    assert(self.listed(self.active_cells@[j]).len() == 0);
                }
            }
        }
        let ghost before = *self;
        self.active_cells = Vec::new();
        proof {
            assert forall|k: (i32, i32)|
                self.active_cells@.contains(k) == (#[trigger] self.listed(k).len() > 0) by {
                assert(before.listed(k).len() == 0);
            }
            assert forall|k: (i32, i32)| (#[trigger] self.listed(k)).len() == 0 by {
                assert(before.listed(k).len() == 0);
            }
        }
    }

    pub fn key(&self, p: Vec2<S>) -> (r: (i32, i32))
        ensures
            r == cell_of(p, self.cell),
    {
        (p.x.over(self.cell).floor_steps(), p.y.over(self.cell).floor_steps())
    }

    /// Adds an entity to one cell.
    fn add_to_cell(&mut self, e: Entity, kx: i32, ky: i32)
        requires
            old(self).wf(),
        ensures
            final(self).wf(),
            final(self).cell == old(self).cell,
            final(self).listed((kx, ky)) == old(self).listed((kx, ky)).push(e),
            forall|k: (i32, i32)|
                k != (kx, ky) ==> #[trigger] final(self).listed(k) == old(self).listed(k),
    {
        let number: u64 = number_cell(kx, ky);
        let mut list: Vec<Entity> = match self.grid.remove(&number) {
            Some(list) => list,
            None => Vec::new(),
        };
        assert(list@ == old(self).listed((kx, ky)));
        if list.len() == 0 {
            self.active_cells.push((kx, ky));
        }
        list.push(e);
        self.grid.insert(number, list);
        proof {
            assert forall|k: (i32, i32)| k != (kx, ky) implies #[trigger] self.listed(k) == old(self).listed(k) by {
                if cell_number(k.0, k.1) == number {
                    law_cells_have_their_own_numbers(k, (kx, ky));
                }
            }
            let before = old(self).active_cells@;
            let now = self.active_cells@;
            let fresh = old(self).listed((kx, ky)).len() == 0;
            assert(before.contains((kx, ky)) == !fresh);
            assert forall|k: (i32, i32)| now.contains(k) == (#[trigger] self.listed(k).len() > 0) by {
                assert(before.contains(k) == (old(self).listed(k).len() > 0));
                if k == (kx, ky) {
                    if fresh {
                        assert(now[before.len() as int] == k);
                    } else {
                        let i = choose|i: int| 0 <= i < before.len() && before[i] == k;
                        assert(now[i] == k);
                    }
                } else {
                    if before.contains(k) {
                        let i = choose|i: int| 0 <= i < before.len() && before[i] == k;
                        assert(now[i] == k);
                    }
                    if now.contains(k) {
                        let i = choose|i: int| 0 <= i < now.len() && now[i] == k;
                        assert(i < before.len());
                        assert(before[i] == k);
                    }
                }
            }
            assert forall|i: int, j: int| 0 <= i < j < now.len() implies now[i] != now[j] by {
                if fresh && j == before.len() {
                    assert(now[i] == before[i]);
                    assert(before.contains(before[i]));
                } else {
                    assert(now[i] == before[i] && now[j] == before[j]);
                }
            }
        }
    }

    /// Adds an entity to every cell that its box touches, and to no other.
    pub fn insert(&mut self, e: Entity, pos: Vec2<S>, half: Vec2<S>)
        requires
            old(self).wf(),
        ensures
            final(self).wf(),
            final(self).cell == old(self).cell,
            ({
                let low = cell_of(pos.minus_spec(half), old(self).cell);
                let high = cell_of(pos.plus_spec(half), old(self).cell);
                forall|k: (i32, i32)| #[trigger]
                    final(self).listed(k) == (if cell_within(k, low, high) {
                        old(self).listed(k).push(e)
                    } else {
                        old(self).listed(k)
                    })
            }),
    {
        let (kx0, ky0) = self.key(pos.minus(half));
        let (kx1, ky1) = self.key(pos.plus(half));
        let mut y: i64 = ky0 as i64;
        while y <= ky1 as i64
            invariant
                self.wf(),
                self.cell == old(self).cell,
                ky0 <= y,
                y <= ky1 + 1 || y == ky0,
                forall|k: (i32, i32)| #[trigger]
                    self.listed(k) == (if cell_within(k, (kx0, ky0), (kx1, ky1)) && k.1 < y {
                        old(self).listed(k).push(e)
                    } else {
                        old(self).listed(k)
                    }),
            decreases ky1 + 1 - y,
        {
            let mut x: i64 = kx0 as i64;
            while x <= kx1 as i64
                invariant
                    self.wf(),
                    self.cell == old(self).cell,
                    ky0 <= y <= ky1,
                    kx0 <= x,
                    x <= kx1 + 1 || x == kx0,
                    forall|k: (i32, i32)| #[trigger]
                        self.listed(k) == (if cell_within(k, (kx0, ky0), (kx1, ky1))
                            && walked_before(k, x as int, y as int) {
                            old(self).listed(k).push(e)
                        } else {
                            old(self).listed(k)
                        }),
                decreases kx1 + 1 - x,
            {
                let ghost before = *self;
                self.add_to_cell(e, x as i32, y as i32);
                proof {
                    assert forall|k: (i32, i32)| #[trigger]
                        self.listed(k) == (if cell_within(k, (kx0, ky0), (kx1, ky1))
                            && walked_before(k, x + 1, y as int) {
                            old(self).listed(k).push(e)
                        } else {
                            old(self).listed(k)
                        }) by {
                        let at = before.listed(k);
                        if k != (x as i32, y as i32) {
                            assert(self.listed(k) == before.listed(k));
                        }
                    }
                }
                x = x + 1;
            }
            y = y + 1;
        }
    }

    pub fn occupied_cells(&self) -> (r: usize)
        ensures
            r == self.active_cells@.len(),
    {
        self.active_cells.len()
    }

    /// How many entries the first `n` active cells hold, and the most that one of them holds.
    pub open spec fn occupancy(self, n: int) -> (nat, nat)
        decreases n,
    {
        if n <= 0 {
            (0, 0)
        } else {
            let (total, most) = self.occupancy(n - 1);
            let len = self.listed(self.active_cells@[n - 1]).len();
            (
                total + len,
                if most < len {
                    len
                } else {
                    most
                },
            )
        }
    }

    /// The entities of a cell.
    pub fn cell_entities(&self, kx: i32, ky: i32) -> (r: Option<&Vec<Entity>>)
        ensures
            match r {
                Some(list) => list@ == self.listed((kx, ky)),
                None => self.listed((kx, ky)).len() == 0,
            },
    {
        self.grid.get(&number_cell(kx, ky))
    }

    /// Counts the entries of all active cells, as far as a number goes, and of the fullest one.
    pub fn count_entries(&self) -> (r: (usize, usize))
        ensures
            ({
                let (total, most) = self.occupancy(self.active_cells@.len() as int);
                r.1 == most && r.0 == (if total > usize::MAX {
                    usize::MAX as nat
                } else {
                    total
                })
            }),
    {
        let mut total: usize = 0;
        let mut most: usize = 0;
        let mut i: usize = 0;
        while i < self.active_cells.len()
            invariant
                i <= self.active_cells@.len(),
                most == self.occupancy(i as int).1,
                total == (if self.occupancy(i as int).0 > usize::MAX {
                    usize::MAX as nat
                } else {
                    self.occupancy(i as int).0
                }),
            decreases self.active_cells@.len() - i,
        {
            let (kx, ky) = self.active_cells[i];
            let len: usize = match self.cell_entities(kx, ky) {
                Some(list) => list.len(),
                None => 0,
            };
            total = total.saturating_add(len);
            if most < len {
                most = len;
            }
            i = i + 1;
        }
        (total, most)
    }
}

#[derive(Clone, Copy)]
pub struct SpatialIndexConfig<S> {
    pub fallback_enabled: bool,
    pub density_threshold: S,
}

impl<S: Scalar> SpatialIndexConfig<S> {
    pub fn default() -> (r: Self)
        ensures
            r == (SpatialIndexConfig {
                fallback_enabled: false,
                density_threshold: S::from_count_spec(6),
            }),
    {
        SpatialIndexConfig { fallback_enabled: false, density_threshold: S::from_count(6) }
    }

    /// A threshold below one entry to a cell is one entry to a cell.
    pub fn set_spatial_density_threshold(&mut self, threshold: S)
        ensures
            *final(self) == (SpatialIndexConfig {
                density_threshold: threshold.larger_spec(S::one_spec()),
                ..*old(self)
            }),
    {
        self.density_threshold = threshold.larger(S::one());
    }
}

#[derive(Clone, Copy, Debug, PartialEq, Eq, Structural)]
pub enum SpatialMode {
    Grid,
    Quadtree,
}

#[derive(Clone, Copy)]
pub struct SpatialMetrics<S> {
    pub occupied_cells: usize,
    pub max_cell_occupancy: usize,
    pub average_occupancy: S,
    pub entity_count: usize,
    pub mode: SpatialMode,
    pub quadtree_nodes: usize,
}

impl<S: Scalar> SpatialMetrics<S> {
    pub fn default() -> (r: Self)
        ensures
            r == (SpatialMetrics {
                occupied_cells: 0,
                max_cell_occupancy: 0,
                average_occupancy: S::zero_spec(),
                entity_count: 0,
                mode: SpatialMode::Grid,
                quadtree_nodes: 0,
            }),
    {
        SpatialMetrics {
            occupied_cells: 0,
            max_cell_occupancy: 0,
            average_occupancy: S::zero(),
            entity_count: 0,
            mode: SpatialMode::Grid,
            quadtree_nodes: 0,
        }
    }
}

/// A box in the plane with the entity it belongs to.
#[derive(Clone, Copy)]
pub struct QuadtreeEntry<S> {
    pub entity: Entity,
    pub center: Vec2<S>,
    pub half: Vec2<S>,
}

pub struct QuadtreeNode<S> {
    pub min: Vec2<S>,
    pub max: Vec2<S>,
    pub children: Option<usize>,
    pub entries: SmallList,
}

impl<S: Scalar> QuadtreeNode<S> {
    /// The numbers of the entries that the node itself holds.
    pub open spec fn held(self) -> Seq<u64> {
        small_items(self.entries)
    }

    pub open spec fn middle(self) -> Vec2<S> {
        self.min.plus_spec(self.max).scaled_spec(crate::scalar::ratio_spec(1, 2))
    }

    pub open spec fn extent(self) -> Vec2<S> {
        self.max.minus_spec(self.min).scaled_spec(crate::scalar::ratio_spec(1, 2))
    }

    fn center(&self) -> (r: Vec2<S>)
        ensures
            r == self.middle(),
    {
        self.min.plus(self.max).scaled(ratio(1, 2))
    }

    fn half(&self) -> (r: Vec2<S>)
        ensures
            r == self.extent(),
    {
        self.max.minus(self.min).scaled(ratio(1, 2))
    }

    /// The corners of a quarter: bit 0 is the right half, bit 1 the upper one.
    pub open spec fn quarter(self, q: int) -> (Vec2<S>, Vec2<S>) {
        let mid = self.middle();
        let right = q == 1 || q == 3;
        let upper = q == 2 || q == 3;
        (
            Vec2 {
                x: if right {
                    mid.x
                } else {
                    self.min.x
                },
                y: if upper {
                    mid.y
                } else {
                    self.min.y
                },
            },
            Vec2 {
                x: if right {
                    self.max.x
                } else {
                    mid.x
                },
                y: if upper {
                    self.max.y
                } else {
                    mid.y
                },
            },
        )
    }

    fn cut_quarter(&self, q: usize) -> (r: (Vec2<S>, Vec2<S>))
        ensures
            r == self.quarter(q as int),
    {
        let mid = self.center();
        let right = q == 1 || q == 3;
        let upper = q == 2 || q == 3;
        (
            Vec2 {
                x: if right {
                    mid.x
                } else {
                    self.min.x
                },
                y: if upper {
                    mid.y
                } else {
                    self.min.y
                },
            },
            Vec2 {
                x: if right {
                    self.max.x
                } else {
                    mid.x
                },
                y: if upper {
                    self.max.y
                } else {
                    mid.y
                },
            },
        )
    }

    /// The quarter that the middle of a box lies in.
    pub open spec fn quadrant(self, e: QuadtreeEntry<S>) -> int {
        let mid = self.middle();
        (if mid.x.le_spec(e.center.x) {
            1int
        } else {
            0
        }) + (if mid.y.le_spec(e.center.y) {
            2int
        } else {
            0
        })
    }

    /// The quarter that holds a box in whole, if one does.
    pub open spec fn fitting_quarter(self, e: QuadtreeEntry<S>) -> Option<int> {
        let (low, high) = self.quarter(self.quadrant(e));
        let min = e.center.minus_spec(e.half);
        let max = e.center.plus_spec(e.half);
        if low.x.le_spec(min.x) && max.x.le_spec(high.x) && low.y.le_spec(min.y) && max.y.le_spec(
            high.y,
        ) {
            Some(self.quadrant(e))
        } else {
            None
        }
    }

    fn child_for_entry(&self, e: &QuadtreeEntry<S>) -> (r: Option<usize>)
        ensures
            match r {
                Some(q) => self.fitting_quarter(*e) == Some(q as int) && q < 4,
                None => self.fitting_quarter(*e) is None,
            },
    {
        let mid = self.center();
        let mut q: usize = 0;
        if mid.x.le(e.center.x) {
            q = 1;
        }
        if mid.y.le(e.center.y) {
            q = q + 2;
        }
        let (low, high) = self.cut_quarter(q);
        let min = e.center.minus(e.half);
        let max = e.center.plus(e.half);
        if low.x.le(min.x) && max.x.le(high.x) && low.y.le(min.y) && max.y.le(high.y) {
            Some(q)
        } else {
            None
        }
    }
}

/// Whether two boxes overlap; boxes that only touch do not.
pub open spec fn boxes_overlap<S: Scalar>(a: Vec2<S>, a_half: Vec2<S>, b: Vec2<S>, b_half: Vec2<S>) -> bool {
    a.x.minus_spec(b.x).magnitude_spec().lt_spec(a_half.x.plus_spec(b_half.x)) && a.y.minus_spec(
        b.y,
    ).magnitude_spec().lt_spec(a_half.y.plus_spec(b_half.y))
}

pub fn aabb_overlap<S: Scalar>(a: Vec2<S>, a_half: Vec2<S>, b: Vec2<S>, b_half: Vec2<S>) -> (r: bool)
    ensures
        r == boxes_overlap(a, a_half, b, b_half),
{
    a.x.minus(b.x).magnitude().lt(a_half.x.plus(b_half.x)) && a.y.minus(b.y).magnitude().lt(
        a_half.y.plus(b_half.y),
    )
}

/// A tree of boxes: every node covers a part of the plane and can have four quarters. The quarters
/// of a node stand next to one another.
pub struct SpatialQuadtree<S> {
    pub nodes: Vec<QuadtreeNode<S>>,
    pub entries: Vec<QuadtreeEntry<S>>,
    pub max_depth: u32,
    pub capacity: usize,
}

/// The quarters of every node come after it, are all there, are cut from it and belong to it alone,
/// and nodes hold entries that exist.
pub open spec fn tree_wf<S: Scalar>(nodes: Seq<QuadtreeNode<S>>, entries: nat) -> bool {
    &&& forall|i: int|
        0 <= i < nodes.len() && (#[trigger] nodes[i]).children is Some ==> i
            < nodes[i].children->0 && nodes[i].children->0 + 4 <= nodes.len()
    &&& forall|i: int, q: int|
        0 <= i < nodes.len() && nodes[i].children is Some && 0 <= q < 4 ==> #[trigger] quarter_cut(
            nodes,
            i,
            q,
        )
    &&& forall|i: int, j: int|
        #![trigger nodes[i].children, nodes[j].children]
        0 <= i < nodes.len() && 0 <= j < nodes.len() && i != j && nodes[i].children is Some
            && nodes[j].children is Some ==> nodes[i].children->0 + 4 <= nodes[j].children->0
            || nodes[j].children->0 + 4 <= nodes[i].children->0
    &&& forall|i: int, k: int|
        0 <= i < nodes.len() && 0 <= k < nodes[i].held().len() ==> (
        #[trigger] nodes[i].held()[k]) < entries
}

/// The `q`-th quarter of a node covers that part of it.
pub open spec fn quarter_cut<S: Scalar>(nodes: Seq<QuadtreeNode<S>>, i: int, q: int) -> bool {
    let child = nodes[nodes[i].children->0 + q];
    (child.min, child.max) == nodes[i].quarter(q)
}

/// Every entry is held by exactly one node, once.
pub open spec fn each_held_once<S: Scalar>(nodes: Seq<QuadtreeNode<S>>, entries: nat) -> bool {
    &&& forall|e: u64| e < entries ==> #[trigger] is_held(nodes, e)
    &&& forall|i: int, k: int, j: int, m: int|
        #![trigger nodes[i].held()[k], nodes[j].held()[m]]
        0 <= i < nodes.len() && 0 <= k < nodes[i].held().len() && 0 <= j < nodes.len() && 0 <= m
            < nodes[j].held().len() && nodes[i].held()[k] == nodes[j].held()[m] ==> i == j && k == m
}

pub open spec fn is_held<S: Scalar>(nodes: Seq<QuadtreeNode<S>>, e: u64) -> bool {
    exists|i: int, k: int|
        0 <= i < nodes.len() && 0 <= k < nodes[i].held().len() && #[trigger] nodes[i].held()[k] == e
}

/// Where an entry belongs below a node: in the quarter that holds it in whole, as deep as there
/// are quarters; with how many levels are left there.
pub open spec fn seat<S: Scalar>(
    nodes: Seq<QuadtreeNode<S>>,
    e: QuadtreeEntry<S>,
    node: int,
    levels: nat,
) -> (int, nat)
    decreases levels,
{
    if levels == 0 || nodes[node].children is None {
        (node, levels)
    } else {
        match nodes[node].fitting_quarter(e) {
            Some(q) => seat(nodes, e, nodes[node].children->0 + q, (levels - 1) as nat),
            None => (node, levels),
        }
    }
}

/// What adding an entry below a node makes of the tree: one node, the entry's seat, holds it now;
/// nodes that were full on the way may have got quarters, and nothing else changed.
pub open spec fn entry_added<S: Scalar>(
    before: Seq<QuadtreeNode<S>>,
    after: Seq<QuadtreeNode<S>>,
    e: QuadtreeEntry<S>,
    number: u64,
    node: int,
    levels: nat,
    capacity: usize,
) -> bool {
    let (place, left) = seat(after, e, node, levels);
    &&& before.len() <= after.len()
    &&& forall|i: int|
        0 <= i < before.len() ==> (#[trigger] after[i]).min == before[i].min && after[i].max
            == before[i].max
    &&& forall|i: int|
        0 <= i < before.len() && (#[trigger] after[i]).children != before[i].children
            ==> before[i].children is None && before[i].held().len() >= capacity
    &&& 0 <= place < after.len()
    &&& forall|i: int|
        0 <= i < after.len() ==> (#[trigger] after[i]).held() == (if i < before.len() {
            before[i].held()
        } else {
            Seq::empty()
        }) + (if i == place {
            seq![number]
        } else {
            Seq::empty()
        })
    &&& left > 0 && after[place].held().len() > capacity ==> after[place].children is Some
}

impl<S: Scalar> SpatialQuadtree<S> {
    pub open spec fn wf(self) -> bool {
        &&& tree_wf(self.nodes@, self.entries@.len())
        &&& each_held_once(self.nodes@, self.entries@.len())
        &&& self.entries@.len() <= u64::MAX
    }

    pub fn new(max_depth: u32, capacity: usize) -> (r: Self)
        ensures
            r.wf(),
            r.nodes@.len() == 0,
            r.entries@.len() == 0,
            r.max_depth == max_depth,
            r.capacity == capacity,
    {
        SpatialQuadtree { nodes: Vec::new(), entries: Vec::new(), max_depth, capacity }
    }

    pub fn clear(&mut self)
        ensures
            final(self).wf(),
            final(self).nodes@.len() == 0,
            final(self).entries@.len() == 0,
            final(self).max_depth == old(self).max_depth,
            final(self).capacity == old(self).capacity,
    {
        self.nodes = Vec::new();
        self.entries = Vec::new();
    }

    /// Gives a node its four quarters.
    fn subdivide(&mut self, node: usize)
        requires
            node < old(self).nodes@.len(),
            old(self).nodes@.len() + 4 <= usize::MAX,
            old(self).nodes@[node as int].children is None,
            tree_wf(old(self).nodes@, old(self).entries@.len()),
        ensures
            final(self).entries == old(self).entries,
            final(self).max_depth == old(self).max_depth,
            final(self).capacity == old(self).capacity,
            tree_wf(final(self).nodes@, final(self).entries@.len()),
            final(self).nodes@.len() == old(self).nodes@.len() + 4,
            final(self).nodes@[node as int].children == Some(old(self).nodes@.len() as usize),
            forall|i: int|
                0 <= i < old(self).nodes@.len() ==> (#[trigger] final(self).nodes@[i]).min
                    == old(self).nodes@[i].min && final(self).nodes@[i].max
                    == old(self).nodes@[i].max && final(self).nodes@[i].held()
                    == old(self).nodes@[i].held(),
            forall|i: int|
                0 <= i < old(self).nodes@.len() && i != node ==> (
                #[trigger] final(self).nodes@[i]).children == old(self).nodes@[i].children,
            forall|q: int|
                0 <= q < 4 ==> {
                    let child = #[trigger] final(self).nodes@[old(self).nodes@.len() + q];
                    &&& (child.min, child.max) == old(self).nodes@[node as int].quarter(q)
                    &&& child.children is None
                    &&& child.held() == Seq::<u64>::empty()
                },
    {
        let first: usize = self.nodes.len();
        let mut q: usize = 0;
        while q < 4
            invariant
                q <= 4,
                node < first,
                first == old(self).nodes@.len(),
                first + 4 <= usize::MAX,
                self.nodes@.len() == first + q,
                self.entries == old(self).entries,
                self.max_depth == old(self).max_depth,
                self.capacity == old(self).capacity,
                forall|i: int| 0 <= i < first ==> #[trigger] self.nodes@[i] == old(self).nodes@[i],
                forall|p: int|
                    0 <= p < q ==> {
                        let child = #[trigger] self.nodes@[first + p];
                        &&& (child.min, child.max) == old(self).nodes@[node as int].quarter(p)
                        &&& child.children is None
                        &&& child.held() == Seq::<u64>::empty()
                    },
            decreases 4 - q,
        {
            let (min, max) = self.nodes[node].cut_quarter(q);
            self.nodes.push(QuadtreeNode { min, max, children: None, entries: small_new() });
            q = q + 1;
        }
        self.nodes[node].children = Some(first);
        proof {
            let now = self.nodes@;
            let entries = self.entries@.len();
            assert forall|i: int|
                0 <= i < now.len() && (#[trigger] now[i]).children is Some implies i
                < now[i].children->0 && now[i].children->0 + 4 <= now.len() by {
                if i < first && i != node {
                    assert(now[i] == old(self).nodes@[i]);
                } else if i >= first {
                    assert(now[first + (i - first)].children is None);
                }
            }
            assert forall|i: int, p: int|
                0 <= i < now.len() && now[i].children is Some && 0 <= p < 4 implies #[trigger] quarter_cut(
                now,
                i,
                p,
            ) by {
                if i == node {
                    assert(now[first + p].children is None);
                } else if i < first {
                    assert(now[i] == old(self).nodes@[i]);
                    assert(quarter_cut(old(self).nodes@, i, p));
                    let c = now[i].children->0 + p;
                    assert(now[c].min == old(self).nodes@[c].min);
                } else {
                    assert(now[first + (i - first)].children is None);
                }
            }
            assert forall|i: int, j: int|
                #![trigger now[i].children, now[j].children]
                0 <= i < now.len() && 0 <= j < now.len() && i != j && now[i].children is Some
                    && now[j].children is Some implies now[i].children->0 + 4 <= now[j].children->0
                || now[j].children->0 + 4 <= now[i].children->0 by {
                if i >= first {
                    assert(now[first + (i - first)].children is None);
                } else if j >= first {
                    assert(now[first + (j - first)].children is None);
                } else {
                    let were = old(self).nodes@;
                    if i != node {
                        assert(now[i].children == were[i].children);
                        assert(were[i].children is Some);
                    }
                    if j != node {
                        assert(now[j].children == were[j].children);
                        assert(were[j].children is Some);
                    }
                }
            }
            assert forall|i: int, k: int|
                0 <= i < now.len() && 0 <= k < now[i].held().len() implies (
            #[trigger] now[i].held()[k]) < entries by {
                if i < first {
                    assert(now[i].held() == old(self).nodes@[i].held());
                    assert(old(self).nodes@[i].held()[k] < entries);
                } else {
                    assert(now[first + (i - first)].held() == Seq::<u64>::empty());
                }
            }
        }
    }

    /// Puts an entry where it belongs at or below a node.
    fn insert_entry(&mut self, node: usize, number: usize, levels: u32)
        requires
            node < old(self).nodes@.len(),
            number < old(self).entries@.len(),
            old(self).entries@.len() <= u64::MAX,
            old(self).nodes@.len() + 4 * levels <= usize::MAX,
            tree_wf(old(self).nodes@, old(self).entries@.len()),
        ensures
            final(self).entries == old(self).entries,
            final(self).max_depth == old(self).max_depth,
            final(self).capacity == old(self).capacity,
            final(self).nodes@.len() <= old(self).nodes@.len() + 4 * levels,
            tree_wf(final(self).nodes@, final(self).entries@.len()),
            entry_added(
                old(self).nodes@,
                final(self).nodes@,
                old(self).entries@[number as int],
                number as u64,
                node as int,
                levels as nat,
                old(self).capacity,
            ),
        decreases levels,
    {
        let ghost entry = self.entries@[number as int];
        if levels > 0 {
            if small_len(&self.nodes[node].entries) >= self.capacity
                && self.nodes[node].children.is_none() {
                self.subdivide(node);
            }
            let ghost middle = *self;
            if let Some(first) = self.nodes[node].children {
                if let Some(q) = self.nodes[node].child_for_entry(&self.entries[number]) {
                    self.insert_entry(first + q, number, levels - 1);
                    proof {
                        let before = old(self).nodes@;
                        let now = self.nodes@;
                        assert(now[node as int].children == Some(first)) by {
                            assert(middle.nodes@[node as int].children == Some(first));
                        }
                        assert(now[node as int].min == middle.nodes@[node as int].min);
                        assert(now[node as int].max == middle.nodes@[node as int].max);
                        assert(now[node as int].fitting_quarter(entry) == Some(q as int));
                        assert(seat(now, entry, node as int, levels as nat) == seat(
                            now,
                            entry,
                            first + q,
                            (levels - 1) as nat,
                        ));
                        let (place, left) = seat(now, entry, node as int, levels as nat);
                        assert forall|i: int| 0 <= i < now.len() implies (#[trigger] now[i]).held()
                            == (if i < before.len() {
                            before[i].held()
                        } else {
                            Seq::empty()
                        }) + (if i == place {
                            seq![number as u64]
                        } else {
                            Seq::empty()
                        }) by {
                            if before.len() <= i < middle.nodes@.len() {
                                assert(middle.nodes@[before.len() + (i - before.len())].held()
                                    == Seq::<u64>::empty());
                            }
                        }
                    }
                    return ;
                }
            }
        }
        let ghost middle = *self;
        small_push(&mut self.nodes[node].entries, number as u64);
        proof {
            let before = old(self).nodes@;
            let now = self.nodes@;
            assert(now.len() == middle.nodes@.len());
            assert forall|i: int| 0 <= i < now.len() && i != node implies #[trigger] now[i]
                == middle.nodes@[i] by {}
            assert(now[node as int].held() == middle.nodes@[node as int].held().push(
                number as u64,
            ));
            assert(now[node as int].children == middle.nodes@[node as int].children);
            assert(seat(now, entry, node as int, levels as nat) == (node as int, levels as nat));
            assert forall|i: int| 0 <= i < now.len() implies (#[trigger] now[i]).held() == (if i
                < before.len() {
                before[i].held()
            } else {
                Seq::empty()
            }) + (if i == node {
                seq![number as u64]
            } else {
                Seq::empty()
            }) by {
                if before.len() <= i < middle.nodes@.len() {
                    assert(middle.nodes@[before.len() + (i - before.len())].held() == Seq::<
                        u64,
                    >::empty());
                }
                if i == node {
                    assert(now[i].held() =~= before[i].held() + seq![number as u64]);
                } else if i < before.len() {
                    assert(now[i].held() =~= before[i].held() + Seq::empty());
                } else {
                    assert(now[i].held() =~= Seq::<u64>::empty() + Seq::empty());
                }
            }
            assert forall|i: int, p: int|
                0 <= i < now.len() && now[i].children is Some && 0 <= p < 4 implies #[trigger] quarter_cut(
                now,
                i,
                p,
            ) by {
                assert(quarter_cut(middle.nodes@, i, p));
                let c = now[i].children->0 + p;
                assert(now[c].min == middle.nodes@[c].min && now[c].max == middle.nodes@[c].max);
            }
            assert forall|i: int, k: int|
                0 <= i < now.len() && 0 <= k < now[i].held().len() implies (
            #[trigger] now[i].held()[k]) < self.entries@.len() by {
                if i != node {
                    assert(middle.nodes@[i].held()[k] < self.entries@.len());
                } else if k < middle.nodes@[i].held().len() {
                    assert(now[i].held()[k] == middle.nodes@[i].held()[k]);
                    assert(middle.nodes@[i].held()[k] < self.entries@.len());
                }
            }
        }
    }

    pub fn node_count(&self) -> (r: usize)
        ensures
            r == self.nodes@.len(),
    {
        self.nodes.len()
    }
}

proof fn lemma_added_stays_held_once<S: Scalar>(
    before: Seq<QuadtreeNode<S>>,
    after: Seq<QuadtreeNode<S>>,
    e: QuadtreeEntry<S>,
    number: u64,
    levels: nat,
    capacity: usize,
)
    requires
        tree_wf(before, number as nat),
        each_held_once(before, number as nat),
        entry_added(before, after, e, number, 0, levels, capacity),
        number < u64::MAX,
    ensures
        each_held_once(after, (number + 1) as nat),
{
    let (place, _) = seat(after, e, 0, levels);
    let old_held = |i: int|
        if i < before.len() {
            before[i].held()
        } else {
            Seq::<u64>::empty()
        };
    assert forall|i: int| 0 <= i < after.len() implies (#[trigger] after[i]).held() == old_held(i)
        + (if i == place {
        seq![number]
    } else {
        Seq::empty()
    }) by {}
    assert forall|x: u64| x < number + 1 implies #[trigger] is_held(after, x) by {
        if x < number {
            assert(is_held(before, x));
            let (i, k) = choose|i: int, k: int|
                0 <= i < before.len() && 0 <= k < before[i].held().len()
                    && #[trigger] before[i].held()[k] == x;
            assert(after[i].held()[k] == x);
        } else {
            let k = old_held(place).len() as int;
            assert(after[place].held()[k] == number);
        }
    }
    assert forall|i: int, k: int, j: int, m: int|
        #![trigger after[i].held()[k], after[j].held()[m]]
        0 <= i < after.len() && 0 <= k < after[i].held().len() && 0 <= j < after.len() && 0 <= m
            < after[j].held().len() && after[i].held()[k] == after[j].held()[m] implies i == j && k
        == m by {
        let fresh_i = k >= old_held(i).len();
        let fresh_j = m >= old_held(j).len();
        if !fresh_i {
            assert(after[i].held()[k] == before[i].held()[k]);
            assert(before[i].held()[k] < number);
        }
        if !fresh_j {
            assert(after[j].held()[m] == before[j].held()[m]);
            assert(before[j].held()[m] < number);
        }
    }
}

/// A tree that grew by adding the first `n` boxes one after the other to a root, and was in order
/// all the while.
pub open spec fn grown<S: Scalar>(
    nodes: Seq<QuadtreeNode<S>>,
    boxes: Seq<QuadtreeEntry<S>>,
    n: nat,
    bounds: WorldBounds<S>,
    depth: nat,
    capacity: usize,
) -> bool
    decreases n,
{
    if n == 0 {
        &&& nodes.len() == 1
        &&& nodes[0].min == bounds.min
        &&& nodes[0].max == bounds.max
        &&& nodes[0].children is None
        &&& nodes[0].held() == Seq::<u64>::empty()
    } else {
        &&& tree_wf(nodes, n)
        &&& exists|before: Seq<QuadtreeNode<S>>|
            grown(before, boxes, (n - 1) as nat, bounds, depth, capacity)
                && #[trigger] entry_added(
                before,
                nodes,
                boxes[n - 1],
                (n - 1) as u64,
                0,
                depth,
                capacity,
            )
    }
}

impl<S: Scalar> SpatialQuadtree<S> {
    /// Builds the tree anew from boxes: the root covers the bounds, and every box has its place.
    pub fn rebuild(&mut self, bounds: &WorldBounds<S>, colliders: &Vec<QuadtreeEntry<S>>)
        requires
            1 + 4 * old(self).max_depth * colliders@.len() <= usize::MAX,
            colliders@.len() < u64::MAX,
        ensures
            final(self).wf(),
            final(self).max_depth == old(self).max_depth,
            final(self).capacity == old(self).capacity,
            final(self).entries@ == colliders@,
            grown(
                final(self).nodes@,
                colliders@,
                colliders@.len(),
                *bounds,
                old(self).max_depth as nat,
                old(self).capacity,
            ),
            final(self).nodes@.len() >= 1,
    {
        self.clear();
        self.nodes.push(
            QuadtreeNode {
                min: bounds.min,
                max: bounds.max,
                children: None,
                entries: small_new(),
            },
        );
        let mut i: usize = 0;
        while i < colliders.len()
            invariant
                i <= colliders@.len(),
                self.max_depth == old(self).max_depth,
                self.capacity == old(self).capacity,
                1 + 4 * old(self).max_depth * colliders@.len() <= usize::MAX,
                colliders@.len() < u64::MAX,
                self.entries@ == colliders@.take(i as int),
                1 <= self.nodes@.len() <= 1 + 4 * old(self).max_depth * i,
                grown(
                    self.nodes@,
                    colliders@,
                    i as nat,
                    *bounds,
                    old(self).max_depth as nat,
                    old(self).capacity,
                ),
                tree_wf(self.nodes@, i as nat),
                each_held_once(self.nodes@, i as nat),
            decreases colliders@.len() - i,
        {
            let ghost before = self.nodes@;
            let depth: u32 = self.max_depth;
            self.entries.push(colliders[i]);
            proof {
                assert(self.entries@ =~= colliders@.take(i + 1));
                assert(4 * depth * i + 4 * depth == 4 * depth * (i + 1)) by (nonlinear_arith);
                assert(4 * depth * (i + 1) <= 4 * depth * colliders@.len()) by (nonlinear_arith)
                    requires
                        i + 1 <= colliders@.len(),
                ;
                assert forall|n: int, k: int|
                    0 <= n < before.len() && 0 <= k < before[n].held().len() implies (
                #[trigger] before[n].held()[k]) < i + 1 by {
                    assert(before[n].held()[k] < i);
                }
            }
            self.insert_entry(0, i, depth);
            proof {
                lemma_added_stays_held_once(
                    before,
                    self.nodes@,
                    colliders@[i as int],
                    i as u64,
                    depth as nat,
                    self.capacity,
                );
                assert(grown(
                    before,
                    colliders@,
                    i as nat,
                    *bounds,
                    depth as nat,
                    self.capacity,
                ));
                assert(entry_added(
                    before,
                    self.nodes@,
                    colliders@[(i + 1) as nat - 1],
                    ((i + 1) as nat - 1) as u64,
                    0,
                    depth as nat,
                    self.capacity,
                ));
                assert(grown(
                    self.nodes@,
                    colliders@,
                    (i + 1) as nat,
                    *bounds,
                    depth as nat,
                    self.capacity,
                ));
            }
            i = i + 1;
        }
        assert(colliders@.take(i as int) =~= colliders@);
    }
}

/// The entities that a query at or below a node meets: those of every node that the box overlaps,
/// a node before its quarters.
pub open spec fn met<S: Scalar>(
    nodes: Seq<QuadtreeNode<S>>,
    entries: Seq<QuadtreeEntry<S>>,
    node: int,
    center: Vec2<S>,
    half: Vec2<S>,
) -> Seq<u64>
    decreases nodes.len() - node,
{
    if node < 0 || node >= nodes.len() || !boxes_overlap(
        center,
        half,
        nodes[node].middle(),
        nodes[node].extent(),
    ) {
        Seq::empty()
    } else {
        let own = nodes[node].held().map_values(|e: u64| entries[e as int].entity.bits);
        match nodes[node].children {
            Some(first) => if first > node && first + 4 <= nodes.len() {
                own + met(nodes, entries, first as int, center, half) + met(
                    nodes,
                    entries,
                    first + 1,
                    center,
                    half,
                ) + met(nodes, entries, first + 2, center, half) + met(
                    nodes,
                    entries,
                    first + 3,
                    center,
                    half,
                )
            } else {
                own
            },
            None => own,
        }
    }
}

impl<S: Scalar> SpatialQuadtree<S> {
    fn query_node(&self, node: usize, center: Vec2<S>, half: Vec2<S>, out: &mut SmallList)
        requires
            self.wf(),
            node < self.nodes@.len(),
        ensures
            small_items(*final(out)) == small_items(*old(out)) + met(
                self.nodes@,
                self.entries@,
                node as int,
                center,
                half,
            ),
        decreases self.nodes@.len() - node,
    {
        let here = &self.nodes[node];
        if !aabb_overlap(center, half, here.center(), here.half()) {
            assert(small_items(*out) =~= small_items(*old(out)) + Seq::<u64>::empty());
            return ;
        }
        let ghost own = here.held().map_values(|e: u64| self.entries@[e as int].entity.bits);
        let n: usize = small_len(&here.entries);
        let mut k: usize = 0;
        while k < n
            invariant
                self.wf(),
                node < self.nodes@.len(),
                *here == self.nodes@[node as int],
                n == here.held().len(),
                k <= n,
                own == here.held().map_values(|e: u64| self.entries@[e as int].entity.bits),
                small_items(*out) == small_items(*old(out)) + own.take(k as int),
            decreases n - k,
        {
            let e: u64 = small_get(&here.entries, k);
            assert(self.nodes@[node as int].held()[k as int] < self.entries@.len());
            assert(self.entries.len() > e);
            small_push(out, self.entries[e as usize].entity.bits);
            proof {
                assert(own.take(k + 1) =~= own.take(k as int).push(own[k as int]));
                assert(small_items(*out) =~= small_items(*old(out)) + own.take(k + 1));
            }
            k = k + 1;
        }
        assert(own.take(n as int) =~= own);
        if let Some(first) = here.children {
            assert(self.nodes.len() >= first + 4);
            self.query_node(first, center, half, out);
            self.query_node(first + 1, center, half, out);
            self.query_node(first + 2, center, half, out);
            self.query_node(first + 3, center, half, out);
            assert(small_items(*out) =~= small_items(*old(out)) + met(
                self.nodes@,
                self.entries@,
                node as int,
                center,
                half,
            ));
        }
    }

    /// The entities of every node that a box overlaps.
    pub fn query(&self, center: Vec2<S>, half: Vec2<S>, out: &mut SmallList)
        requires
            self.wf(),
        ensures
            small_items(*final(out)) == met(self.nodes@, self.entries@, 0, center, half),
    {
        small_clear(out);
        if self.nodes.len() > 0 {
            self.query_node(0, center, half, out);
        }
        assert(small_items(*out) =~= met(self.nodes@, self.entries@, 0, center, half));
    }
}

/// Those of the first `n` boxes that touch a cell, in order.
pub open spec fn touching<S: Scalar>(
    boxes: Seq<QuadtreeEntry<S>>,
    cell: S,
    k: (i32, i32),
    n: int,
) -> Seq<Entity>
    decreases n,
{
    if n <= 0 {
        Seq::empty()
    } else {
        let b = boxes[n - 1];
        let low = cell_of(b.center.minus_spec(b.half), cell);
        let high = cell_of(b.center.plus_spec(b.half), cell);
        if cell_within(k, low, high) {
            touching(boxes, cell, k, n - 1).push(b.entity)
        } else {
            touching(boxes, cell, k, n - 1)
        }
    }
}

/// Whether a scene is so crowded that the tree takes over.
pub open spec fn crowded<S: Scalar>(config: SpatialIndexConfig<S>, average: S) -> bool {
    config.fallback_enabled && config.density_threshold.larger_spec(S::one_spec()).le_spec(average)
}

/// Fills the grid with boxes, and the tree too where the scene is crowded; else the tree is
/// emptied.
pub fn build_spatial_index<S: Scalar>(
    grid: &mut SpatialHash<S>,
    tree: &mut SpatialQuadtree<S>,
    bounds: &WorldBounds<S>,
    config: &SpatialIndexConfig<S>,
    colliders: &Vec<QuadtreeEntry<S>>,
) -> (metrics: SpatialMetrics<S>)
    requires
        old(grid).wf(),
        1 + 4 * old(tree).max_depth * colliders@.len() <= usize::MAX,
        colliders@.len() < u64::MAX,
    ensures
        final(grid).wf(),
        final(grid).cell == old(grid).cell,
        forall|k: (i32, i32)| #[trigger]
            final(grid).listed(k) == touching(
                colliders@,
                old(grid).cell,
                k,
                colliders@.len() as int,
            ),
        ({
            let cells = final(grid).active_cells@.len();
            let (sum, most) = final(grid).occupancy(cells as int);
            let total = if sum > usize::MAX {
                usize::MAX
            } else {
                sum as usize
            };
            let average = if cells > 0 {
                S::from_count_spec(total).over_spec(S::from_count_spec(cells as usize))
            } else {
                S::zero_spec()
            };
            let uses_tree = crowded(*config, average);
            &&& metrics == (SpatialMetrics {
                occupied_cells: cells as usize,
                max_cell_occupancy: most as usize,
                average_occupancy: average,
                entity_count: colliders@.len() as usize,
                mode: if uses_tree {
                    SpatialMode::Quadtree
                } else {
                    SpatialMode::Grid
                },
                quadtree_nodes: final(tree).nodes@.len() as usize,
            })
            &&& final(tree).wf()
            &&& final(tree).max_depth == old(tree).max_depth
            &&& final(tree).capacity == old(tree).capacity
            &&& if uses_tree {
                final(tree).entries@ == colliders@ && grown(
                    final(tree).nodes@,
                    colliders@,
                    colliders@.len(),
                    *bounds,
                    old(tree).max_depth as nat,
                    old(tree).capacity,
                )
            } else {
                final(tree).nodes@.len() == 0 && final(tree).entries@.len() == 0
            }
        }),
{
    grid.begin_frame();
    let mut i: usize = 0;
    while i < colliders.len()
        invariant
            i <= colliders@.len(),
            grid.wf(),
            grid.cell == old(grid).cell,
            forall|k: (i32, i32)| #[trigger]
                grid.listed(k) == touching(colliders@, old(grid).cell, k, i as int),
        decreases colliders@.len() - i,
    {
        let ghost before = *grid;
        grid.insert(colliders[i].entity, colliders[i].center, colliders[i].half);
        proof {
            assert forall|k: (i32, i32)| #[trigger]
                grid.listed(k) == touching(colliders@, old(grid).cell, k, i + 1) by {
                let at = before.listed(k);
            }
        }
        i = i + 1;
    }
    let occupied: usize = grid.occupied_cells();
    let (total, most) = grid.count_entries();
    let average = if occupied > 0 {
        S::from_count(total).over(S::from_count(occupied))
    } else {
        S::zero()
    };
    let uses_tree = config.fallback_enabled && config.density_threshold.larger(S::one()).le(average);
    let mode = if uses_tree {
        tree.rebuild(bounds, colliders);
        SpatialMode::Quadtree
    } else {
        tree.clear();
        SpatialMode::Grid
    };
    SpatialMetrics {
        occupied_cells: occupied,
        max_cell_occupancy: most,
        average_occupancy: average,
        entity_count: colliders.len(),
        mode,
        quadtree_nodes: tree.node_count(),
    }
}

/// The lower and the upper corner of every cell that holds something.
pub fn spatial_hash_rects<S: Scalar>(grid: &SpatialHash<S>) -> (r: Vec<(Vec2<S>, Vec2<S>)>)
    ensures
        r@.len() == grid.active_cells@.len(),
        forall|i: int|
            0 <= i < r@.len() ==> ({
                let k = grid.active_cells@[i];
                let min = Vec2 {
                    x: S::from_steps_spec(k.0).times_spec(grid.cell),
                    y: S::from_steps_spec(k.1).times_spec(grid.cell),
                };
                #[trigger] r@[i] == (min, min.plus_spec(Vec2::both(grid.cell)))
            }),
{
    let mut out: Vec<(Vec2<S>, Vec2<S>)> = Vec::new();
    let mut i: usize = 0;
    while i < grid.active_cells.len()
        invariant
            i <= grid.active_cells@.len(),
            out@.len() == i,
            forall|j: int|
                0 <= j < i ==> ({
                    let k = grid.active_cells@[j];
                    let min = Vec2 {
                        x: S::from_steps_spec(k.0).times_spec(grid.cell),
                        y: S::from_steps_spec(k.1).times_spec(grid.cell),
                    };
                    #[trigger] out@[j] == (min, min.plus_spec(Vec2::both(grid.cell)))
                }),
        decreases grid.active_cells@.len() - i,
    {
        let (kx, ky) = grid.active_cells[i];
        let min = Vec2 {
            x: S::from_steps(kx).times(grid.cell),
            y: S::from_steps(ky).times(grid.cell),
        };
        out.push((min, min.plus(Vec2 { x: grid.cell, y: grid.cell })));
        i = i + 1;
    }
    out
}

/// The number of the cell that a place lies in along one side.
pub open spec fn side_cell(x: Fixed, cell: Fixed) -> i32 {
    x.over_spec(cell).floor_steps_spec()
}

proof fn lemma_side_cells_in_order(x: Fixed, y: Fixed, cell: Fixed)
    requires
        cell.0 > 0,
        x.0 <= y.0,
    ensures
        side_cell(x, cell) <= side_cell(y, cell),
{
    let c = cell.0 as int;
    let a = x.0 * 65536;
    let b = y.0 * 65536;
    vstd::arithmetic::div_mod::lemma_div_is_ordered(a, b, c);
    let qa = crate::scalar::saturated(a / c);
    let qb = crate::scalar::saturated(b / c);
    vstd::arithmetic::div_mod::lemma_div_is_ordered(qa as int, qb as int, 65536);
}

/// A cell along one side that two boxes share.
proof fn lemma_shared_side(a: Fixed, a_half: Fixed, b: Fixed, b_half: Fixed, cell: Fixed) -> (k: i32)
    requires
        cell.0 > 0,
        a_half.0 >= 0,
        b_half.0 >= 0,
        a.minus_spec(b).magnitude_spec().lt_spec(a_half.plus_spec(b_half)),
        side_fits(a, a_half),
        side_fits(b, b_half),
    ensures
        side_cell(a.minus_spec(a_half), cell) <= k <= side_cell(a.plus_spec(a_half), cell),
        side_cell(b.minus_spec(b_half), cell) <= k <= side_cell(b.plus_spec(b_half), cell),
{
    let low_a = a.minus_spec(a_half);
    let low_b = b.minus_spec(b_half);
    let high_a = a.plus_spec(a_half);
    let high_b = b.plus_spec(b_half);
    let p = if low_a.0 < low_b.0 {
        low_b
    } else {
        low_a
    };
    assert(p.0 <= high_a.0 && p.0 <= high_b.0);
    lemma_side_cells_in_order(low_a, p, cell);
    lemma_side_cells_in_order(low_b, p, cell);
    lemma_side_cells_in_order(p, high_a, cell);
    lemma_side_cells_in_order(p, high_b, cell);
    side_cell(p, cell)
}

/// Whether both ends of a box along a side can be told.
pub open spec fn side_fits(a: Fixed, half: Fixed) -> bool {
    i64::MIN <= a.0 - half.0 && a.0 + half.0 <= i64::MAX
}

/// In fixed point two boxes that overlap share a cell, so a look into the cells of one finds the
/// other.
pub proof fn law_overlapping_boxes_share_a_cell(
    a: Vec2<Fixed>,
    a_half: Vec2<Fixed>,
    b: Vec2<Fixed>,
    b_half: Vec2<Fixed>,
    cell: Fixed,
)
    requires
        cell.0 > 0,
        a_half.x.0 >= 0 && a_half.y.0 >= 0 && b_half.x.0 >= 0 && b_half.y.0 >= 0,
        side_fits(a.x, a_half.x) && side_fits(a.y, a_half.y),
        side_fits(b.x, b_half.x) && side_fits(b.y, b_half.y),
        boxes_overlap(a, a_half, b, b_half),
    ensures
        exists|k: (i32, i32)|
            #![trigger cell_number(k.0, k.1)]
            cell_within(
                k,
                cell_of(a.minus_spec(a_half), cell),
                cell_of(a.plus_spec(a_half), cell),
            ) && cell_within(
                k,
                cell_of(b.minus_spec(b_half), cell),
                cell_of(b.plus_spec(b_half), cell),
            ),
{
    let kx = lemma_shared_side(a.x, a_half.x, b.x, b_half.x, cell);
    let ky = lemma_shared_side(a.y, a_half.y, b.y, b_half.y, cell);
    let number = cell_number(kx, ky);
    assert(number == cell_number((kx, ky).0, (kx, ky).1));
}

} // verus!
