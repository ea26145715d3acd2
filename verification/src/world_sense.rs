//! What editing the world comes to: extents follow scales, the first of several is the one that
//! counts, and what physics tells reaches the entities it is about.
use vstd::prelude::*;
use crate::anim_stats::{SpriteAnimPerfSample, SpriteAnimPerfTelemetry, SpriteAnimStepKind};
use crate::collisions::{
    force_told, forces_told, touch_told, touches_told, ColliderEntities, CollisionEventKind,
    ForceReport, TouchReport,
};
use crate::contacts::{pushed_velocity, swept, ColliderRow, Touching};
use crate::entity::Entity;
use crate::gpu_baseline::{sum_of, PassSamples};
use crate::profiler::{with_sample, SystemTiming};
use crate::scalar::{Fixed, Scalar};
use crate::scene::EntityRow;
use crate::spatial::{
    cell_of, QuadtreeEntry, QuadtreeNode, SpatialHash, SpatialMode, SpatialQuadtree,
};
use crate::sprite::SpriteAnimationLoopMode;
use crate::vectors::{Vec2, Vec3};
use crate::world_edit::{is_sprite_body, place_of_id, SpriteInstanceTransform};

verus! {

/// A body that is a sprite reaches half its side each way from where it is drawn, and is at rest as
/// far as forces go.
pub proof fn law_sprite_bodies_cover_their_sprites(
    row: EntityRow<Fixed>,
    entity: Entity,
    scene_id: String,
    translation: Vec2<Fixed>,
    side: Fixed,
    mass: Fixed,
    velocity: Vec2<Fixed>,
)
    requires
        is_sprite_body(row, entity, scene_id, translation, side, mass, velocity),
        0 <= side.0,
    ensures
        row.half is Some && row.body is Some,
        2 * row.half->Some_0.x.0 <= row.transform.scale.x.0 <= 2 * row.half->Some_0.x.0 + 1,
        2 * row.half->Some_0.y.0 <= row.transform.scale.y.0 <= 2 * row.half->Some_0.y.0 + 1,
        row.body->Some_0.translation == row.transform.translation,
        Some(row.body->Some_0.half) == row.half,
        Some(row.body->Some_0.mass) == row.mass,
        Some(row.body->Some_0.velocity) == row.velocity,
        row.force == Some(Vec2 { x: Fixed(0), y: Fixed(0) }),
{
    lemma_half_of(side);
}

proof fn lemma_half_of(x: Fixed)
    ensures
        x.times_spec(crate::scalar::ratio_spec(1, 2)).0 == x.0 as int / 2,
{
    assert(Fixed::from_count_spec(1) == Fixed(65536));
    assert(Fixed::from_count_spec(2) == Fixed(131072));
    assert(65536int * 65536 / 131072 == 32768);
    assert(x.0 * 32768 / 65536 == x.0 as int / 2);
}

/// A new scale of an entity is taken on by its transform, by its extent and by its body alike; nothing
/// is placed, turned or sped up by it, and an entity whose extent stays as it is keeps its mass, if
/// that is not too small.
pub proof fn law_extents_follow_scales(row: EntityRow<Fixed>, scale: Vec2<Fixed>)
    requires
        i64::MIN < scale.x.0 && i64::MIN < scale.y.0,
    ensures
        ({
            let after = row.scaled(scale);
            &&& after.transform.scale == scale
            &&& after.transform.translation == row.transform.translation
            &&& after.transform.rotation == row.transform.rotation
            &&& after.velocity == row.velocity && after.force == row.force
            &&& after.half is Some == row.half is Some
            &&& after.half is Some ==> 2 * after.half->Some_0.x.0 <= scale.x.magnitude_spec().0 <= 2
                * after.half->Some_0.x.0 + 1
            &&& after.half is Some ==> 2 * after.half->Some_0.y.0 <= scale.y.magnitude_spec().0 <= 2
                * after.half->Some_0.y.0 + 1
            &&& row.body is Some && row.half is Some ==> Some(after.body->Some_0.half) == after.half
            &&& row.body is Some && row.mass is Some ==> Some(after.body->Some_0.mass) == after.mass
            &&& row.body is Some ==> after.body->Some_0.translation == row.body->Some_0.translation
                && after.body->Some_0.velocity == row.body->Some_0.velocity
            &&& row.half is Some && after.half == row.half && row.mass is Some && 656
                <= row.mass->Some_0.0 ==> after.mass == row.mass
        }),
{
    lemma_half_of(scale.x.magnitude_spec());
    lemma_half_of(scale.y.magnitude_spec());
    let now = crate::motion::rescaled_half(scale);
    let area = crate::motion::box_area(now);
    if 0 < area.0 {
        assert(area.0 * 65536 / area.0 as int == 65536) by (nonlinear_arith)
            requires
                0 < area.0,
        ;
        if row.mass is Some {
            let m = row.mass->Some_0.0;
            assert(m * 65536 / 65536 == m);
        }
    }
    assert(Fixed::from_count_spec(1) == Fixed(65536));
    assert(Fixed::from_count_spec(100) == Fixed(6553600));
    assert(65536int * 65536 / 6553600 == 655);
}

/// The box around a sprite holds its four corners.
pub proof fn law_boxes_hold_their_sprites(t: SpriteInstanceTransform<Fixed>)
    requires
        -0x1000_0000_0000_0000 <= t.axis_x.x.0 <= 0x1000_0000_0000_0000,
        -0x1000_0000_0000_0000 <= t.axis_x.y.0 <= 0x1000_0000_0000_0000,
        -0x1000_0000_0000_0000 <= t.axis_y.x.0 <= 0x1000_0000_0000_0000,
        -0x1000_0000_0000_0000 <= t.axis_y.y.0 <= 0x1000_0000_0000_0000,
        t.axis_x.x.0 as int % 2 == 0 && t.axis_x.y.0 as int % 2 == 0,
        t.axis_y.x.0 as int % 2 == 0 && t.axis_y.y.0 as int % 2 == 0,
    ensures
        ({
            let b = t.half_box();
            &&& -2 * b.x.0 <= t.axis_x.x.0 + t.axis_y.x.0 <= 2 * b.x.0
            &&& -2 * b.x.0 <= t.axis_x.x.0 - t.axis_y.x.0 <= 2 * b.x.0
            &&& -2 * b.y.0 <= t.axis_x.y.0 + t.axis_y.y.0 <= 2 * b.y.0
            &&& -2 * b.y.0 <= t.axis_x.y.0 - t.axis_y.y.0 <= 2 * b.y.0
            &&& t.axis_y.x.0 == 0 ==> 2 * b.x.0 == t.axis_x.x.magnitude_spec().0
            &&& t.axis_x.y.0 == 0 ==> 2 * b.y.0 == t.axis_y.y.magnitude_spec().0
        }),
{
    lemma_half_of(t.axis_x.x);
    lemma_half_of(t.axis_x.y);
    lemma_half_of(t.axis_y.x);
    lemma_half_of(t.axis_y.y);
}

/// The entity of a name is the first that has it; where none is found, none has it.
pub proof fn law_first_of_a_name_is_found(rows: Seq<EntityRow<Fixed>>, id: Seq<char>, from: int)
    requires
        0 <= from <= rows.len(),
    ensures
        ({
            let i = place_of_id(rows, id, from);
            &&& from <= i <= rows.len()
            &&& i < rows.len() ==> rows[i].scene_id@ == id
            &&& forall|j: int| from <= j < i ==> (#[trigger] rows[j]).scene_id@ != id
        }),
    decreases rows.len() - from,
{
    if from < rows.len() && rows[from].scene_id@ != id {
        law_first_of_a_name_is_found(rows, id, from + 1);
    }
}

/// Changing how the first entity that spins does so changes no other, and nothing else of it.
pub proof fn law_first_that_spins_is_changed(rows: Seq<EntityRow<Fixed>>, speed: Fixed, k: int)
    requires
        0 <= k < rows.len(),
    ensures
        ({
            let after = crate::draw::spun(rows, speed);
            &&& after.len() == rows.len()
            &&& (exists|j: int| 0 <= j < k && (#[trigger] rows[j]).spin is Some) ==> after[k]
                == rows[k]
            &&& rows[k].spin is None ==> after[k] == rows[k]
            &&& rows[k].spin is Some && (forall|j: int|
                0 <= j < k ==> (#[trigger] rows[j]).spin is None) ==> after[k].spin == Some(speed)
                && after[k].transform == rows[k].transform && after[k].entity == rows[k].entity
        }),
{
    lemma_first_spinning(rows, 0);
    let i = crate::draw::first_spinning(rows, 0);
    if exists|j: int| 0 <= j < k && (#[trigger] rows[j]).spin is Some {
        let j = choose|j: int| 0 <= j < k && (#[trigger] rows[j]).spin is Some;
        assert(i <= j);
    }
}

proof fn lemma_first_spinning(rows: Seq<EntityRow<Fixed>>, from: int)
    requires
        0 <= from <= rows.len(),
    ensures
        ({
            let i = crate::draw::first_spinning(rows, from);
            &&& from <= i <= rows.len()
            &&& i < rows.len() ==> rows[i].spin is Some
            &&& forall|j: int| from <= j < i ==> (#[trigger] rows[j]).spin is None
        }),
    decreases rows.len() - from,
{
    if from < rows.len() && rows[from].spin is None {
        lemma_first_spinning(rows, from + 1);
    }
}

/// Every touch between colliders of two entities that do not merely sense is told, of those two
/// entities, as a start or as an end; and nothing else is told of touches.
pub proof fn law_touches_are_told<F>(owners: ColliderEntities, touches: Seq<TouchReport>, n: int)
    requires
        0 <= n <= touches.len(),
    ensures
        forall|i: int|
            0 <= i < n && !(#[trigger] touches[i]).sensor && owners.owner(touches[i].first) is Some
                && owners.owner(touches[i].second) is Some ==> touches_told::<F>(
                owners,
                touches,
                n,
            ).contains(
                (
                    if touches[i].started {
                        CollisionEventKind::Started
                    } else {
                        CollisionEventKind::Stopped
                    },
                    owners.owner(touches[i].first)->Some_0,
                    owners.owner(touches[i].second)->Some_0,
                ),
            ),
        forall|k: int|
            0 <= k < touches_told::<F>(owners, touches, n).len() ==> touch_behind(
                owners,
                touches,
                n,
                #[trigger] touches_told::<F>(owners, touches, n)[k],
            ),
    decreases n,
{
    if n > 0 {
        law_touches_are_told::<F>(owners, touches, n - 1);
        let before = touches_told::<F>(owners, touches, n - 1);
        let told = touch_told::<F>(owners, touches[n - 1]);
        let all = touches_told::<F>(owners, touches, n);
        if told is Some {
            assert(all == before.push(told->Some_0));
            assert(all[before.len() as int] == told->Some_0);
            assert forall|x: (CollisionEventKind<F>, Entity, Entity)|
                before.contains(x) implies all.contains(x) by {
                let j = choose|j: int| 0 <= j < before.len() && before[j] == x;
                assert(all[j] == x);
            }
        }
        assert forall|k: int| 0 <= k < all.len() implies touch_behind(
            owners,
            touches,
            n,
            #[trigger] all[k],
        ) by {
            if k < before.len() {
                assert(all[k] == before[k]);
                assert(touch_behind(owners, touches, n - 1, before[k]));
                let i = choose|i: int| 0 <= i < n - 1 && tells(owners, #[trigger] touches[i], all[k]);
                assert(tells(owners, touches[i], all[k]));
            } else {
                assert(tells(owners, touches[n - 1], all[k]));
            }
        }
    }
}

/// Whether something told of entities is of this touch.
pub open spec fn tells<F>(
    owners: ColliderEntities,
    t: TouchReport,
    told: (CollisionEventKind<F>, Entity, Entity),
) -> bool {
    &&& !t.sensor
    &&& owners.owner(t.first) == Some(told.1)
    &&& owners.owner(t.second) == Some(told.2)
    &&& told.0 is Started <==> t.started
    &&& told.0 is Stopped <==> !t.started
}

/// Whether something told of entities is of one of the first touches.
pub open spec fn touch_behind<F>(
    owners: ColliderEntities,
    touches: Seq<TouchReport>,
    n: int,
    told: (CollisionEventKind<F>, Entity, Entity),
) -> bool {
    exists|i: int| 0 <= i < n && tells(owners, #[trigger] touches[i], told)
}

/// Forces are told after what was told before, each of its two entities, and those whose colliders
/// belong to none are left out.
pub proof fn law_forces_are_told<F>(
    owners: ColliderEntities,
    start: Seq<(CollisionEventKind<F>, Entity, Entity)>,
    forces: Seq<ForceReport<F>>,
    n: int,
)
    requires
        0 < n <= forces.len(),
    ensures
        ({
            let before = forces_told(owners, start, forces, n - 1);
            let after = forces_told(owners, start, forces, n);
            let f = forces[n - 1];
            let known = owners.owner(f.first) is Some && owners.owner(f.second) is Some;
            &&& forces_told(owners, start, forces, 0) == start
            &&& !known ==> after == before
            &&& known ==> after.len() == before.len() + 1 && after.drop_last() == before
                && after.last().0 == CollisionEventKind::Force(f.force) && Some(after.last().1)
                == owners.owner(f.first) && Some(after.last().2) == owners.owner(f.second)
        }),
{
    let before = forces_told(owners, start, forces, n - 1);
    if force_told(owners, forces[n - 1]) is Some {
        let told = force_told(owners, forces[n - 1])->Some_0;
        assert(before.push(told).drop_last() == before);
    }
}

/// The slow share of a frame's animators, times all of them, makes the slow ones, down to the smallest
/// step; and frames count as slow in a row as long as more than a hundredth were.
pub proof fn law_slow_frames_are_counted(t: SpriteAnimPerfTelemetry<Fixed>)
    requires
        0 < t.current.fast_animators + t.current.slow_animators <= u32::MAX,
        t.slow_threshold_streak < u32::MAX,
    ensures
        ({
            let slow = t.current.slow_animators as int;
            let all = t.current.fast_animators + t.current.slow_animators;
            let share = t.current.slow_share().0;
            &&& share * all <= 65536 * slow < (share + 1) * all
            &&& 100 * slow <= all ==> t.next_slow_streak() == 0
            &&& all <= 99 * slow ==> t.next_slow_streak() == t.slow_threshold_streak + 1
        }),
{
    let slow = t.current.slow_animators as int;
    let all = t.current.fast_animators + t.current.slow_animators;
    assert(Fixed::from_count_spec(t.current.slow_animators as usize).0 == 65536 * slow);
    assert(Fixed::from_count_spec(all as usize).0 == 65536 * all);
    let q = (65536 * slow) * 65536 / (65536 * all);
    assert(q * all <= 65536 * slow < (q + 1) * all && 0 <= q <= 65536 * slow) by (nonlinear_arith)
        requires
            q == (65536 * slow) * 65536 / (65536 * all),
            0 < all,
            0 <= slow,
    ;
    assert(Fixed::from_count_spec(1) == Fixed(65536));
    assert(Fixed::from_count_spec(100) == Fixed(6553600));
    assert(65536int * 65536 / 6553600 == 655);
    assert(100 * slow <= all ==> q <= 655) by (nonlinear_arith)
        requires
            q * all <= 65536 * slow,
            0 < all,
    ;
    assert(all <= 99 * slow ==> 656 <= q) by (nonlinear_arith)
        requires
            65536 * slow < (q + 1) * all,
            0 < all,
    ;
}

/// A box that lies in one of a node's quarters belongs to that quarter: to the right ones where it lies
/// right of the middle, to the upper ones where it lies above it. One that does not belongs to none.
pub proof fn law_boxes_belong_to_their_quarter(node: QuadtreeNode<Fixed>, e: QuadtreeEntry<Fixed>)
    requires
        near_enough(node.min) && near_enough(node.max) && near_enough(e.center) && near_enough(
            e.half,
        ),
        node.min.x.0 <= node.max.x.0 && node.min.y.0 <= node.max.y.0,
        0 < e.half.x.0 && 0 < e.half.y.0,
        node.min.x.0 <= e.center.x.0 - e.half.x.0 && e.center.x.0 + e.half.x.0 <= node.max.x.0,
        node.min.y.0 <= e.center.y.0 - e.half.y.0 && e.center.y.0 + e.half.y.0 <= node.max.y.0,
    ensures
        ({
            let mid = node.middle();
            let left = e.center.x.0 + e.half.x.0 <= mid.x.0;
            let right = mid.x.0 <= e.center.x.0 - e.half.x.0;
            let below = e.center.y.0 + e.half.y.0 <= mid.y.0;
            let above = mid.y.0 <= e.center.y.0 - e.half.y.0;
            &&& left && below ==> node.fitting_quarter(e) == Some(0int)
            &&& right && below ==> node.fitting_quarter(e) == Some(1int)
            &&& left && above ==> node.fitting_quarter(e) == Some(2int)
            &&& right && above ==> node.fitting_quarter(e) == Some(3int)
            &&& !left && !right || !below && !above ==> node.fitting_quarter(e) is None
        }),
        2 * node.middle().x.0 <= node.min.x.0 + node.max.x.0 <= 2 * node.middle().x.0 + 1,
        2 * node.middle().y.0 <= node.min.y.0 + node.max.y.0 <= 2 * node.middle().y.0 + 1,
{
    lemma_half_of(node.min.x.plus_spec(node.max.x));
    lemma_half_of(node.min.y.plus_spec(node.max.y));
}

/// Whether sums of two such numbers are exact.
pub open spec fn near_enough(v: Vec2<Fixed>) -> bool {
    &&& -0x1000_0000_0000_0000 <= v.x.0 <= 0x1000_0000_0000_0000
    &&& -0x1000_0000_0000_0000 <= v.y.0 <= 0x1000_0000_0000_0000
}

/// A mesh is drawn where it lies: its place and its size in the plane are those in space, seen from the
/// front; its depth and its turning are left alone.
pub proof fn law_meshes_lie_alike_in_the_plane(
    row: EntityRow<Fixed>,
    translation: Vec3<Fixed>,
    scale: Vec3<Fixed>,
    velocity: Vec2<Fixed>,
)
    requires
        row.transform3d is Some,
    ensures
        ({
            let after = row.mesh_moved(translation).mesh_scaled(scale);
            let t = after.transform3d->Some_0;
            &&& after.transform3d is Some
            &&& t.translation == translation && t.scale == scale
            &&& t.rotation == row.transform3d->Some_0.rotation
            &&& after.transform.translation.x == t.translation.x && after.transform.translation.y
                == t.translation.y
            &&& after.transform.scale.x == t.scale.x && after.transform.scale.y == t.scale.y
            &&& after.transform.rotation == row.transform.rotation
            &&& row.mesh_scaled(scale).mesh_moved(translation) == after
        }),
        ({
            let after = row.sped(velocity);
            &&& row.velocity is Some ==> after.velocity == Some(velocity)
            &&& row.velocity is None ==> after.velocity is None
            &&& row.body is Some ==> after.body->Some_0.velocity == velocity
                && after.body->Some_0.translation == row.body->Some_0.translation
                && after.body->Some_0.mass == row.body->Some_0.mass
            &&& after.transform == row.transform
        }),
{
}

/// What is noted of a timed system: the last time, the longest, and how many; the average of passes
/// times their number is the time that they took, down to the smallest step.
pub proof fn law_timings_are_noted(t: SystemTiming<Fixed>, ms: Fixed, p: PassSamples<Fixed>)
    requires
        0 <= t.total_ms.0 <= 0x1000_0000_0000_0000,
        0 <= ms.0 <= 0x1000_0000_0000_0000,
        t.samples < u64::MAX,
        0 < p.samples@.len() <= 0x1_0000_0000,
        0 <= sum_of(p.samples@, p.samples@.len() as int).0 <= 0x1000_0000_0000_0000,
        p.samples@.len() <= usize::MAX,
    ensures
        ({
            let after = with_sample(t, ms);
            &&& after.last_ms == ms
            &&& t.max_ms.0 <= after.max_ms.0 && ms.0 <= after.max_ms.0
            &&& after.max_ms == ms || after.max_ms == t.max_ms
            &&& after.total_ms.0 == t.total_ms.0 + ms.0
            &&& after.samples == t.samples + 1
        }),
        ({
            let sum = sum_of(p.samples@, p.samples@.len() as int).0;
            let n = p.samples@.len() as int;
            p.mean_of().0 * n <= sum < (p.mean_of().0 + 1) * n
        }),
{
    let b = sum_of(p.samples@, p.samples@.len() as int).0 as int;
    let n = p.samples@.len() as int;
    assert(Fixed::from_count_spec(n as usize).0 == 65536 * n);
    let q = b * 65536 / (65536 * n);
    assert(q * n <= b < (q + 1) * n && 0 <= q <= b) by (nonlinear_arith)
        requires
            q == b * 65536 / (65536 * n),
            0 < n,
            0 <= b,
    ;
}

/// An animator that is counted is counted once: among the fast or the slow ones, and by the kind of
/// its step.
pub proof fn law_animators_are_counted_once(
    s: SpriteAnimPerfSample<Fixed>,
    mode: SpriteAnimationLoopMode,
    events: bool,
    kind: SpriteAnimStepKind,
)
    requires
        s.fast_animators < u32::MAX && s.slow_animators < u32::MAX,
        s.var_dt_animators < u32::MAX && s.const_dt_animators < u32::MAX,
        s.ping_pong_animators < u32::MAX && s.events_heavy_animators < u32::MAX,
    ensures
        ({
            let f = s.with_fast_animator(kind);
            &&& f.fast_animators == s.fast_animators + 1 && f.slow_animators == s.slow_animators
            &&& f.var_dt_animators + f.const_dt_animators == s.var_dt_animators
                + s.const_dt_animators + 1
            &&& kind is Fixed ==> f.const_dt_animators == s.const_dt_animators + 1
        }),
        ({
            let g = s.with_general_animator(mode, events, kind);
            &&& g.slow_animators == s.slow_animators + 1 && g.fast_animators == s.fast_animators
            &&& g.var_dt_animators + g.const_dt_animators == s.var_dt_animators
                + s.const_dt_animators + 1
            &&& kind is Variable ==> g.var_dt_animators == s.var_dt_animators + 1
            &&& g.ping_pong_animators - s.ping_pong_animators == (if mode is PingPong {
                1int
            } else {
                0
            })
            &&& g.events_heavy_animators - s.events_heavy_animators == (if events {
                1int
            } else {
                0
            })
        }),
{
}

/// A box that moves is sped up by what pushes it, and one that does not move is not.
pub proof fn law_pushed_boxes_change_their_velocity(
    t: Touching<Fixed>,
    rows: Seq<ColliderRow<Fixed>>,
    grid: SpatialHash<Fixed>,
    tree: SpatialQuadtree<Fixed>,
    i: int,
)
    requires
        0 <= i < rows.len(),
        rows[i].velocity is Some ==> near_enough(rows[i].velocity->Some_0),
        near_enough(swept(t, rows, grid, tree, SpatialMode::Grid, i + 1).impulse),
    ensures
        ({
            let after = pushed_velocity(t, rows, grid, tree, SpatialMode::Grid, i);
            let push = swept(t, rows, grid, tree, SpatialMode::Grid, i + 1).impulse;
            &&& rows[i].velocity is None ==> after is None
            &&& rows[i].velocity is Some ==> after is Some && after->Some_0.x.0
                == rows[i].velocity->Some_0.x.0 + push.x.0 && after->Some_0.y.0
                == rows[i].velocity->Some_0.y.0 + push.y.0
        }),
{
}

/// A place lies in its cell: between the sides that the cell's numbers give.
pub proof fn law_places_lie_in_their_cells(p: Vec2<Fixed>, cell: Fixed)
    requires
        0 < cell.0 <= 0x1_0000_0000,
        -0x7fff_ffff * cell.0 <= p.x.0 <= 0x7fff_ffff * cell.0,
        -0x7fff_ffff * cell.0 <= p.y.0 <= 0x7fff_ffff * cell.0,
        -0x1000_0000_0000 <= p.x.0 <= 0x1000_0000_0000,
        -0x1000_0000_0000 <= p.y.0 <= 0x1000_0000_0000,
    ensures
        ({
            let (kx, ky) = cell_of(p, cell);
            &&& kx * cell.0 <= p.x.0 < (kx + 1) * cell.0
            &&& ky * cell.0 <= p.y.0 < (ky + 1) * cell.0
        }),
{
    lemma_cell_side(p.x, cell);
    lemma_cell_side(p.y, cell);
}

proof fn lemma_cell_side(x: Fixed, cell: Fixed)
    requires
        0 < cell.0 <= 0x1_0000_0000,
        -0x7fff_ffff * cell.0 <= x.0 <= 0x7fff_ffff * cell.0,
        -0x1000_0000_0000 <= x.0 <= 0x1000_0000_0000,
    ensures
        ({
            let k = x.over_spec(cell).floor_steps_spec();
            k * cell.0 <= x.0 < (k + 1) * cell.0
        }),
{
    let c = cell.0 as int;
    let v = x.0 as int;
    let q = v * 65536 / c;
    assert(q * c <= v * 65536 < (q + 1) * c) by (nonlinear_arith)
        requires
            q == v * 65536 / c,
            0 < c,
    ;
    assert(-0x1000_0000_0000_0000 <= q <= 0x1000_0000_0000_0000) by (nonlinear_arith)
        requires
            q * c <= v * 65536 < (q + 1) * c,
            0 < c,
            -0x1000_0000_0000 <= v <= 0x1000_0000_0000,
    ;
    let k = q / 65536;
    assert(k * c <= v < (k + 1) * c) by (nonlinear_arith)
        requires
            q * c <= v * 65536 < (q + 1) * c,
            k * 65536 <= q < (k + 1) * 65536,
            0 < c,
    ;
    assert(-0x8000_0000 <= k <= 0x7fff_ffff) by (nonlinear_arith)
        requires
            k * c <= v < (k + 1) * c,
            -0x7fff_ffff * c <= v <= 0x7fff_ffff * c,
            0 < c,
    ;
}

} // verus!
