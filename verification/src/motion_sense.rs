//! What moving comes to: bounds keep things in, forces push their way, orbits go round, and boxes
//! that touch part. Numbers are fixed-point numbers, of which signs and sizes can be told.
use vstd::prelude::*;
use crate::animation_time::{AnimationDelta, AnimationTime};
use crate::components::{OrbitController, Transform};
use crate::contacts::{looked_at, push_apart, row_of, ColliderRow, Touching};
use crate::draw::{axes_of_matrix, plane_matrix};
use crate::entity::Entity;
use crate::events::{pair_of, GameEvent};
use crate::gizmo::{handle_at, kind_under, scale_ratio, Axis2, ScaleHandle, ScaleHandleKind};
use crate::motion::{
    bounced, covers, mass_in_proportion, moved_on, orbital, rescaled_half,
    solved_velocity, spun, PhysicsParams, WorldBounds,
};
use crate::scalar::{Fixed, Scalar};
use crate::spatial::boxes_overlap;
use crate::vectors::Vec2;

verus! {

/// Whether a number is so small that a few of its size add up exactly.
pub open spec fn modest(x: Fixed) -> bool {
    -0x1000_0000_0000_0000 <= x.0 <= 0x1000_0000_0000_0000
}

/// A half of something.
proof fn lemma_half()
    ensures
        crate::scalar::ratio_spec::<Fixed>(1, 2) == Fixed(32768),
{
    assert(Fixed::from_count_spec(1) == Fixed(65536));
    assert(Fixed::from_count_spec(2) == Fixed(131072));
    assert(65536int * 65536 / 131072 == 32768);
}

proof fn lemma_product(a: int, b: int)
    ensures
        a == 0 || b == 0 ==> a * b == 0,
        0 <= a && 0 <= b ==> 0 <= a * b,
        a <= 0 && 0 <= b ==> a * b <= 0,
        0 <= a && b <= 0 ==> a * b <= 0,
        a < 0 && 0 < b ==> a * b < 0,
        0 < a && 0 < b ==> 0 < a * b,
{
    assert(a == 0 || b == 0 ==> a * b == 0) by (nonlinear_arith);
    assert(0 <= a && 0 <= b ==> 0 <= a * b) by (nonlinear_arith);
    assert(a <= 0 && 0 <= b ==> a * b <= 0) by (nonlinear_arith);
    assert(0 <= a && b <= 0 ==> a * b <= 0) by (nonlinear_arith);
    assert(a < 0 && 0 < b ==> a * b < 0) by (nonlinear_arith);
    assert(0 < a && 0 < b ==> 0 < a * b) by (nonlinear_arith);
}

/// What bounces is within the bounds afterwards, if it fits. It stays as it is where it was within
/// them; else it is put at the end that it had passed, with its speed turned inward and as large as
/// it was.
pub proof fn law_bounds_keep_things_in(at: Fixed, v: Fixed, half: Fixed, low: Fixed, high: Fixed)
    requires
        modest(at) && modest(half) && modest(low) && modest(high),
        i64::MIN < v.0,
        0 <= half.0,
        2 * half.0 <= high.0 - low.0,
    ensures
        ({
            let (place, speed) = bounced(at, v, half, low, high);
            &&& low.0 <= place.0 - half.0
            &&& place.0 + half.0 <= high.0
            &&& low.0 <= at.0 - half.0 && at.0 + half.0 <= high.0 ==> place == at && speed == v
            &&& at.0 - half.0 < low.0 ==> place.0 == low.0 + half.0 && 0 <= speed.0
            &&& high.0 < at.0 + half.0 ==> place.0 == high.0 - half.0 && speed.0 <= 0
            &&& speed.0 == v.0 || speed.0 == -v.0
        }),
{
}

/// The four walls stand just outside the bounds: their inner sides are the sides of the bounds. Those
/// below and above reach over the corners where the bounds lie evenly around the middle.
pub proof fn law_walls_stand_around_the_bounds(bounds: WorldBounds<Fixed>)
    requires
        modest(bounds.min.x) && modest(bounds.min.y) && modest(bounds.max.x) && modest(bounds.max.y),
        modest(bounds.thickness),
        0 <= bounds.thickness.0,
        bounds.min.x.0 <= bounds.max.x.0 && bounds.min.y.0 <= bounds.max.y.0,
    ensures
        ({
            let w = bounds.walls_of();
            &&& w.len() == 4
            &&& w[0].center.y.0 + w[0].half.y.0 == bounds.min.y.0
            &&& w[1].center.y.0 - w[1].half.y.0 == bounds.max.y.0
            &&& w[2].center.x.0 + w[2].half.x.0 == bounds.min.x.0
            &&& w[3].center.x.0 - w[3].half.x.0 == bounds.max.x.0
            &&& bounds.min.x.0 == -bounds.max.x.0 ==> w[0].center.x.0 + w[0].half.x.0
                == bounds.max.x.0 + bounds.thickness.0 && w[1].half == w[0].half
            &&& bounds.min.y.0 == -bounds.max.y.0 ==> w[2].center.y.0 + w[2].half.y.0
                == bounds.max.y.0 + bounds.thickness.0 && w[3].half == w[2].half
        }),
{
    lemma_half();
    let dx = bounds.max.x.0 - bounds.min.x.0;
    let dy = bounds.max.y.0 - bounds.min.y.0;
    assert(dx * 32768 / 65536 == dx / 2);
    assert(dy * 32768 / 65536 == dy / 2);
}

/// In a second a thing moves by its velocity and turns by its speed; in no time it does neither, and
/// nothing else of it changes.
pub proof fn law_velocity_is_distance_over_time(t: Transform<Fixed>, velocity: Vec2<Fixed>, speed: Fixed)
    requires
        modest(t.translation.x) && modest(t.translation.y) && modest(t.rotation),
        modest(velocity.x) && modest(velocity.y) && modest(speed),
    ensures
        ({
            let second = Fixed(65536);
            let after = moved_on(t, velocity, second);
            &&& after.translation.x.0 == t.translation.x.0 + velocity.x.0
            &&& after.translation.y.0 == t.translation.y.0 + velocity.y.0
            &&& after.rotation == t.rotation && after.scale == t.scale
            &&& spun(t, speed, second).rotation.0 == t.rotation.0 + speed.0
            &&& spun(t, speed, second).translation == t.translation && spun(t, speed, second).scale
                == t.scale
            &&& moved_on(t, velocity, Fixed(0)) == t
            &&& spun(t, speed, Fixed(0)) == t
        }),
{
    assert(velocity.x.0 * 65536 / 65536 == velocity.x.0);
    assert(velocity.y.0 * 65536 / 65536 == velocity.y.0);
    assert(speed.0 * 65536 / 65536 == speed.0);
    lemma_product(velocity.x.0 as int, 0);
    lemma_product(velocity.y.0 as int, 0);
    lemma_product(speed.0 as int, 0);
}

/// A force without gravity sets a thing at rest off in its own direction, and never against it; a
/// thing that nothing acts on gets no faster and does not turn round.
pub proof fn law_forces_push_their_way(
    velocity: Vec2<Fixed>,
    force: Vec2<Fixed>,
    mass: Fixed,
    params: PhysicsParams<Fixed>,
    dt: Fixed,
)
    requires
        0 < mass.0,
        0 < dt.0 <= 0x80_0000,
        0 <= params.linear_damping.0 <= 0x100_0000,
        params.gravity.x.0 == 0 && params.gravity.y.0 == 0,
    ensures
        ({
            let v = solved_velocity(velocity, force, mass, params, dt);
            let rests = velocity.x.0 == 0 && velocity.y.0 == 0;
            let free = force.x.0 == 0 && force.y.0 == 0;
            &&& rests && 0 <= force.x.0 ==> 0 <= v.x.0
            &&& rests && force.x.0 <= 0 ==> v.x.0 <= 0
            &&& rests && 0 <= force.y.0 ==> 0 <= v.y.0
            &&& rests && force.y.0 <= 0 ==> v.y.0 <= 0
            &&& rests && force.x.0 < 0 ==> v.x.0 < 0
            &&& rests && force.y.0 < 0 ==> v.y.0 < 0
            &&& free && 0 <= velocity.x.0 ==> 0 <= v.x.0 <= velocity.x.0
            &&& free && velocity.x.0 <= 0 ==> velocity.x.0 <= v.x.0 <= 0
            &&& free && 0 <= velocity.y.0 ==> 0 <= v.y.0 <= velocity.y.0
            &&& free && velocity.y.0 <= 0 ==> velocity.y.0 <= v.y.0 <= 0
            &&& free && params.linear_damping.0 == 0 ==> v == velocity
        }),
{
    let d = params.linear_damping.times_spec(dt);
    let p = params.linear_damping.0 * dt.0;
    assert(0 <= p <= 0x8000_0000_0000) by (nonlinear_arith)
        requires
            0 < dt.0 <= 0x80_0000,
            0 <= params.linear_damping.0 <= 0x100_0000,
            p == params.linear_damping.0 * dt.0,
    ;
    assert(params.linear_damping.0 == 0 ==> p == 0) by (nonlinear_arith)
        requires
            p == params.linear_damping.0 * dt.0,
    ;
    assert(0 <= d.0 <= 0x8000_0000);
    let one = Fixed::one_spec();
    let k = one.over_spec(one.plus_spec(d));
    let b = 65536 + d.0;
    let q = 4294967296int / b;
    assert(0 < q <= 65536) by (nonlinear_arith)
        requires
            q == 4294967296int / b,
            65536 <= b <= 65536 + 0x8000_0000,
    ;
    assert(d.0 == 0 ==> q == 65536) by (nonlinear_arith)
        requires
            q == 4294967296int / b,
            b == 65536 + d.0,
    ;
    assert(k.0 == q);
    lemma_push_axis(velocity.x, force.x, mass, dt, k);
    lemma_push_axis(velocity.y, force.y, mass, dt, k);
}

proof fn lemma_push_axis(v: Fixed, f: Fixed, mass: Fixed, dt: Fixed, k: Fixed)
    requires
        0 < mass.0,
        0 < dt.0,
        0 <= k.0 <= 65536,
    ensures
        ({
            let a = f.over_spec(mass).plus_spec(Fixed(0));
            let r = v.plus_spec(a.times_spec(dt)).times_spec(k);
            &&& v.0 == 0 && 0 <= f.0 ==> 0 <= r.0
            &&& v.0 == 0 && f.0 <= 0 ==> r.0 <= 0
            &&& v.0 == 0 && f.0 < 0 && 0 < k.0 ==> r.0 < 0
            &&& f.0 == 0 && 0 <= v.0 ==> 0 <= r.0 <= v.0
            &&& f.0 == 0 && v.0 <= 0 ==> v.0 <= r.0 <= 0
            &&& f.0 == 0 && k.0 == 65536 ==> r == v
        }),
{
    let p = f.0 * 65536;
    let q = p / mass.0 as int;
    assert((0 <= p ==> 0 <= q) && (p < 0 ==> q < 0) && (p == 0 ==> q == 0)) by (nonlinear_arith)
        requires
            q == p / mass.0 as int,
            0 < mass.0,
    ;
    let a = f.over_spec(mass).plus_spec(Fixed(0));
    lemma_product(a.0 as int, dt.0 as int);
    let w = v.plus_spec(a.times_spec(dt));
    lemma_product(w.0 as int, k.0 as int);
    assert(0 <= w.0 ==> w.0 * k.0 <= w.0 * 65536) by (nonlinear_arith)
        requires
            0 <= k.0 <= 65536,
    ;
    assert(w.0 <= 0 ==> w.0 * 65536 <= w.0 * k.0) by (nonlinear_arith)
        requires
            0 <= k.0 <= 65536,
    ;
    assert(w.0 * 65536 / 65536 == w.0);
}

/// What is on an orbit moves across the line to the centre, to the left of it for a positive speed,
/// and as fast as it is far away for a speed of one.
pub proof fn law_orbits_go_round(at: Vec2<Fixed>, orbit: OrbitController<Fixed>)
    requires
        modest(at.x) && modest(at.y) && modest(orbit.center.x) && modest(orbit.center.y),
        orbital(at, orbit) is Some,
        orbit.angular_speed.0 == 65536,
    ensures
        ({
            let v = orbital(at, orbit)->0;
            let x = at.x.0 - orbit.center.x.0;
            let y = at.y.0 - orbit.center.y.0;
            &&& v.x.0 * x + v.y.0 * y == 0
            &&& x * v.y.0 - y * v.x.0 == x * x + y * y
        }),
{
    let v = orbital(at, orbit)->0;
    let x = at.x.0 - orbit.center.x.0;
    let y = at.y.0 - orbit.center.y.0;
    assert((-y) * 65536 / 65536 == -y);
    assert(x * 65536 / 65536 == x);
    assert(v.x.0 == -y && v.y.0 == x);
    assert((-y) * x + x * y == 0) by (nonlinear_arith);
    assert(x * x - y * (-y) == x * x + y * y) by (nonlinear_arith);
}

/// A box covers its middle and its corners and nothing beyond them.
pub proof fn law_boxes_cover_up_to_their_corners(center: Vec2<Fixed>, half: Vec2<Fixed>, at: Vec2<Fixed>)
    requires
        modest(center.x) && modest(center.y) && modest(half.x) && modest(half.y) && modest(at.x)
            && modest(at.y),
    ensures
        covers(center, half, at) == (center.x.0 - half.x.0 <= at.x.0 <= center.x.0 + half.x.0
            && center.y.0 - half.y.0 <= at.y.0 <= center.y.0 + half.y.0),
{
}

/// A box that is as large as it was keeps its mass, if that is not too small, and one that is given
/// a scale is half as large to each side, whatever the sign of the scale.
pub proof fn law_mass_goes_with_the_area(mass: Fixed, area: Fixed, scale: Vec2<Fixed>)
    requires
        0 < area.0,
        656 <= mass.0,
        i64::MIN < scale.x.0 && i64::MIN < scale.y.0,
    ensures
        mass_in_proportion(mass, area, area) == mass,
        2 * rescaled_half(scale).x.0 <= (if scale.x.0 < 0 {
            -scale.x.0
        } else {
            scale.x.0 as int
        }) <= 2 * rescaled_half(scale).x.0 + 1,
        2 * rescaled_half(scale).y.0 <= (if scale.y.0 < 0 {
            -scale.y.0
        } else {
            scale.y.0 as int
        }) <= 2 * rescaled_half(scale).y.0 + 1,
{
    lemma_half();
    assert(area.0 * 65536 / area.0 as int == 65536) by (nonlinear_arith)
        requires
            0 < area.0,
    ;
    assert(mass.0 * 65536 / 65536 == mass.0);
    assert(Fixed::from_count_spec(100) == Fixed(6553600));
    assert(65536int * 65536 / 6553600 == 655);
    let x = scale.x.magnitude_spec().0;
    let y = scale.y.magnitude_spec().0;
    assert(x * 32768 / 65536 == x / 2);
    assert(y * 32768 / 65536 == y / 2);
}

/// Boxes that touch are pushed apart: away from the other box along both axes, by the same amount.
pub proof fn law_boxes_are_pushed_apart(at: Vec2<Fixed>, other: Vec2<Fixed>)
    requires
        modest(at.x) && modest(at.y) && modest(other.x) && modest(other.y),
    ensures
        ({
            let push = push_apart(at, other);
            &&& at.x.0 < other.x.0 ==> push.x.0 < 0
            &&& other.x.0 < at.x.0 ==> 0 < push.x.0
            &&& at.y.0 < other.y.0 ==> push.y.0 < 0
            &&& other.y.0 < at.y.0 ==> 0 < push.y.0
            &&& at.x.0 != other.x.0 ==> push.x.0 == -push_apart(other, at).x.0
            &&& at.y.0 != other.y.0 ==> push.y.0 == -push_apart(other, at).y.0
        }),
{
    let k: Fixed = crate::scalar::ratio_spec(4, 100);
    assert(Fixed::from_count_spec(4) == Fixed(262144));
    assert(Fixed::from_count_spec(100) == Fixed(6553600));
    assert(262144int * 65536 / 6553600 == 2621);
    assert(65536int * 2621 / 65536 == 2621);
    assert((-65536int) * 2621 / 65536 == -2621);
}

/// Looking at another box notes a contact exactly if there is such a box and it overlaps: then the
/// pair is noted, it no longer waits to be reported as ended, and its start is reported if it is new.
pub proof fn law_contacts_are_overlaps<S: Scalar>(
    t: Touching<S>,
    rows: Seq<ColliderRow<S>>,
    me: ColliderRow<S>,
    other: u64,
)
    requires
        other != me.entity.bits,
        !t.checked.contains(other),
    ensures
        ({
            let after = looked_at(t, rows, me, other);
            let i = row_of(rows, other, rows.len() as int);
            let pair = pair_of(me.entity, rows[i].entity);
            let overlaps = i >= 0 && boxes_overlap(
                me.translation,
                me.half,
                rows[i].translation,
                rows[i].half,
            );
            &&& !overlaps ==> after.pairs == t.pairs && after.events == t.events && after.previous
                == t.previous && after.impulse == t.impulse
            &&& overlaps ==> after.pairs.contains(pair)
            &&& overlaps && !t.pairs.contains(pair) && !t.previous.contains(pair) ==> after.events
                == t.events.push(GameEvent::CollisionStarted { a: pair.0, b: pair.1 })
            &&& overlaps && (t.pairs.contains(pair) || t.previous.contains(pair)) ==> after.events
                == t.events
            &&& overlaps && !t.pairs.contains(pair) ==> !after.previous.contains(pair)
            &&& overlaps ==> after.impulse == t.impulse.plus_spec(
                push_apart(me.translation, rows[i].translation),
            )
        }),
{
    let i = row_of(rows, other, rows.len() as int);
    let pair = pair_of(me.entity, rows[i].entity);
    vstd::seq_lib::lemma_seq_contains_after_push(t.pairs, pair, pair);
    lemma_pair_is_gone(t.previous, pair);
}

proof fn lemma_pair_is_gone(pairs: Seq<(Entity, Entity)>, pair: (Entity, Entity))
    ensures
        !crate::contacts::without_pair(pairs, pair).contains(pair),
    decreases pairs.len(),
{
    if pairs.len() > 0 {
        lemma_pair_is_gone(pairs.drop_last(), pair);
        let less = crate::contacts::without_pair(pairs.drop_last(), pair);
        if pairs.last() != pair {
            vstd::seq_lib::lemma_seq_contains_after_push(less, pairs.last(), pair);
        }
    }
}

/// Whether boxes overlap does not depend on which of them is asked, and is told by the distance of
/// their middles along both axes.
pub proof fn law_overlap_is_mutual(
    a: Vec2<Fixed>,
    a_half: Vec2<Fixed>,
    b: Vec2<Fixed>,
    b_half: Vec2<Fixed>,
)
    requires
        modest(a.x) && modest(a.y) && modest(b.x) && modest(b.y),
        modest(a_half.x) && modest(a_half.y) && modest(b_half.x) && modest(b_half.y),
    ensures
        boxes_overlap(a, a_half, b, b_half) == boxes_overlap(b, b_half, a, a_half),
        boxes_overlap(a, a_half, b, b_half) == (a.x.0 - a_half.x.0 < b.x.0 + b_half.x.0 && b.x.0
            - b_half.x.0 < a.x.0 + a_half.x.0 && a.y.0 - a_half.y.0 < b.y.0 + b_half.y.0 && b.y.0
            - b_half.y.0 < a.y.0 + a_half.y.0),
{
}

/// A ratio by which something is scaled stays between a twentieth and twenty; within them it is the
/// one that was asked for, or the tenth next to it.
pub proof fn law_scale_ratios_are_held(x: Fixed, snap: bool)
    ensures
        3276 <= scale_ratio(x, snap).0 <= 1310720,
        !snap && 3276 <= x.0 <= 1310720 ==> scale_ratio(x, snap) == x,
        !snap && x.0 < 3276 ==> scale_ratio(x, snap).0 == 3276,
        !snap && 1310720 < x.0 ==> scale_ratio(x, snap).0 == 1310720,
        snap && 6553 <= x.0 <= 1300000 ==> x.0 - 3400 <= scale_ratio(x, snap).0 <= x.0 + 3400,
{
    assert(Fixed::from_count_spec(1) == Fixed(65536));
    assert(Fixed::from_count_spec(20) == Fixed(1310720));
    assert(Fixed::from_count_spec(10) == Fixed(655360));
    assert(65536int * 65536 / 1310720 == 3276);
    assert(65536int * 65536 / 655360 == 6553);
    let held = crate::gizmo::held_ratio(x);
    assert(3276 <= held.0 <= 1310720);
    let q = held.over_spec(Fixed(6553));
    let n = (q.0 + 32768) / 65536;
    assert(q.0 == held.0 * 65536 / 6553);
    assert(0 <= q.0 <= 13108400);
    assert(q.rounded_spec().0 == n * 65536);
    assert((n * 65536) * 6553 / 65536 == n * 6553);
}

/// A handle of an axis is under a pointer that lies along that axis rather than along the other one,
/// and not with shift; with shift, and round about, it is the one for both.
pub proof fn law_handles_lie_along_their_axes(rel: Vec2<Fixed>, shift: bool)
    requires
        modest(rel.x) && modest(rel.y),
    ensures
        ({
            let x = rel.x.magnitude_spec().0;
            let y = rel.y.magnitude_spec().0;
            &&& kind_under(rel, shift) == Some(ScaleHandleKind::Axis(Axis2::X)) ==> !shift && y < x
            &&& kind_under(rel, shift) == Some(ScaleHandleKind::Axis(Axis2::Y)) ==> !shift && x < y
            &&& !shift && y == 0 && 655360 <= x <= 2883584 ==> kind_under(rel, shift) == Some(
                ScaleHandleKind::Axis(Axis2::X),
            )
            &&& !shift && x == 0 && 655360 <= y <= 2883584 ==> kind_under(rel, shift) == Some(
                ScaleHandleKind::Axis(Axis2::Y),
            )
            &&& shift && (y == 0 && 655360 <= x <= 2883584 || x == 0 && 655360 <= y <= 2883584)
                ==> kind_under(rel, shift) == Some(ScaleHandleKind::Uniform)
        }),
{
    assert(Fixed::from_count_spec(10) == Fixed(655360));
    assert(Fixed::from_count_spec(44) == Fixed(2883584));
    assert(Fixed::from_count_spec(4) == Fixed(262144));
}

/// The extent at which an axis is taken hold of is how far along that axis the pointer is.
pub proof fn law_handles_measure_along_their_axes(axis: Axis2, delta: Vec2<Fixed>)
    requires
        modest(delta.x) && modest(delta.y),
    ensures
        match handle_at(ScaleHandleKind::Axis(axis), delta) {
            Some(ScaleHandle::Axis { axis: held, start_extent }) => held == axis && (
            match axis {
                Axis2::X => start_extent.0 == delta.x.0 || start_extent.0 == -delta.x.0,
                Axis2::Y => start_extent.0 == delta.y.0 || start_extent.0 == -delta.y.0,
            }) && 0 < start_extent.0,
            Some(_) => false,
            None => match axis {
                Axis2::X => -1 <= delta.x.0 <= 1,
                Axis2::Y => -1 <= delta.y.0 <= 1,
            },
        },
{
    assert(delta.x.0 * 65536 / 65536 == delta.x.0);
    assert(delta.y.0 * 65536 / 65536 == delta.y.0);
    lemma_product(delta.x.0 as int, 0);
    lemma_product(delta.y.0 as int, 0);
}

/// The matrix of a place in the plane moves the middle to its translation; without a rotation it
/// stretches each axis by its own scale, and a quarter turn puts the first axis on the second.
pub proof fn law_plane_matrices_put_axes_in_place(t: Transform<Fixed>)
    requires
        modest(t.scale.x) && modest(t.scale.y),
    ensures
        ({
            let still = axes_of_matrix(plane_matrix(t, Fixed(0), Fixed(65536)));
            let quarter = axes_of_matrix(plane_matrix(t, Fixed(65536), Fixed(0)));
            &&& still.translation.x == t.translation.x && still.translation.y == t.translation.y
            &&& still.translation.z.0 == 0
            &&& still.axis_x.x == t.scale.x && still.axis_x.y.0 == 0 && still.axis_x.z.0 == 0
            &&& still.axis_y.y == t.scale.y && still.axis_y.x.0 == 0 && still.axis_y.z.0 == 0
            &&& quarter.axis_x.y == t.scale.x && quarter.axis_x.x.0 == 0
            &&& quarter.axis_y.x.0 == -t.scale.y.0 && quarter.axis_y.y.0 == 0
            &&& quarter.translation == still.translation
        }),
{
    assert(65536 * t.scale.x.0 / 65536 == t.scale.x.0);
    assert(65536 * t.scale.y.0 / 65536 == t.scale.y.0);
    assert((-65536) * t.scale.y.0 / 65536 == -t.scale.y.0);
    lemma_product(0, t.scale.x.0 as int);
    lemma_product(0, t.scale.y.0 as int);
}

/// A clock that is not paused gives out the time that passes times its scale: at a scale of one the
/// very time, at none nothing; and what is left of fixed steps is less than a step.
pub proof fn law_clocks_give_out_scaled_time(clock: AnimationTime<Fixed>, raw_dt: Fixed)
    requires
        !clock.paused,
        0 < raw_dt.0,
        modest(raw_dt),
    ensures
        clock.fixed_step is None && clock.scale.0 == 65536 ==> clock.consumed(raw_dt)
            == (AnimationDelta::Single(raw_dt), Fixed(0)),
        clock.fixed_step is None && clock.scale.0 == 131072 ==> clock.consumed(raw_dt)
            == (AnimationDelta::Single(Fixed((2 * raw_dt.0) as i64)), Fixed(0)),
        clock.scale.0 == 0 ==> clock.consumed(raw_dt) == (
            AnimationDelta::<Fixed>::Idle,
            clock.remainder,
        ),
        clock.fixed_step is Some && clock.scale.0 == 65536 && 0 < clock.fixed_step->Some_0.0
            && 0 <= clock.remainder.0 && clock.remainder.0 + raw_dt.0 < clock.fixed_step->Some_0.0
            ==> clock.consumed(raw_dt) == (
            AnimationDelta::<Fixed>::Idle,
            Fixed((clock.remainder.0 + raw_dt.0) as i64),
        ),
{
    assert(raw_dt.0 * 65536 / 65536 == raw_dt.0);
    assert(raw_dt.0 * 131072 / 65536 == 2 * raw_dt.0);
    lemma_product(raw_dt.0 as int, 0);
    if clock.fixed_step is Some && 0 < clock.fixed_step->Some_0.0 {
        let g = clock.remainder.0 + raw_dt.0;
        let s = clock.fixed_step->Some_0.0 as int;
        let q = g * 65536 / s;
        assert(0 <= g < s ==> 0 <= q < 65536) by (nonlinear_arith)
            requires
                q == g * 65536 / s,
                0 < s,
        ;
    }
}

} // verus!
