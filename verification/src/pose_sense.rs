//! What playing a skeleton comes to, and what a facet of a surface shows: curves move their own parts
//! of a joint, time goes on as it is asked to, and what does not lean mirrors straight back.
use vstd::prelude::*;
use crate::animation_time::AnimationTime;
use crate::camera::SmallAngles;
use crate::components::{Transform, Transform3D};
use crate::contacts::asked_half;
use crate::ibl::{
    bit, even_point, facet_cosine, facet_normal, facet_sine, factors, is_mirrored, mirrored, reflected,
    smith, Curves,
};
use crate::light_maps::{
    default_ground, default_horizon, default_sky, default_sun, facet_share, middle_of, mirrored_parts,
    specular_samples, table_entry, HdrImage, BRDF_SAMPLE_COUNT, SPECULAR_SAMPLE_COUNT,
};
use crate::light_sense::{
    law_up_is_along_the_normal, lemma_times_nothing, lemma_times_whole, upright,
};
use crate::picking::picking_ball;
use crate::scalar::{Fixed, Scalar, TrackValue};
use crate::skeleton::{
    joint_time, joint_value, local_pose, JointCurve, Pose, SkeletonActor, SkeletonInstance,
    SkeletonJoint,
};
use crate::vectors::{Vec2, Vec3};

verus! {

/// Each track of a joint's curve moves its own part of the joint: the others stay as the joint rests.
pub proof fn law_curves_move_their_own_part<
    S: Scalar,
    V: TrackValue<S>,
    Q: TrackValue<S>,
    M: Pose<V, Q>,
>(joint: SkeletonJoint<V, Q, M>, curve: JointCurve<S, V, Q>, time: S, looped: bool)
    ensures
        ({
            let pose = local_pose::<S, V, Q, M>(joint, Some(curve), time, looped);
            &&& curve.translation is Some && curve.rotation is None && curve.scale is None ==> pose
                == M::of_parts_spec(
                joint.rest_scale,
                joint.rest_rotation,
                joint_value(curve.translation->Some_0, time, looped),
            )
            &&& curve.translation is None && curve.rotation is None && curve.scale is Some ==> pose
                == M::of_parts_spec(
                joint_value(curve.scale->Some_0, time, looped),
                joint.rest_rotation,
                joint.rest_translation,
            )
            &&& curve.translation is None && curve.rotation is Some && curve.scale is None
                && curve.rotation->Some_0.keyframes@.len() > 0 ==> pose == M::of_parts_spec(
                joint.rest_scale,
                M::unit_spec(joint_value(curve.rotation->Some_0, time, looped)),
                joint.rest_translation,
            )
            &&& curve.translation is None && curve.rotation is None && curve.scale is None ==> pose
                == local_pose::<S, V, Q, M>(joint, None, time, looped)
        }),
{
}

/// A track that does not repeat is read at the time itself within its length, else at the end that the
/// time lies beyond.
pub proof fn law_joint_tracks_end_at_their_end(time: Fixed, duration: Fixed)
    requires
        0 < duration.0,
    ensures
        time.0 <= 0 ==> joint_time(time, duration, false).0 == 0,
        0 <= time.0 <= duration.0 ==> joint_time(time, duration, false) == time,
        duration.0 <= time.0 ==> joint_time(time, duration, false) == duration,
        0 <= time.0 < duration.0 - 1 ==> joint_time(time, duration, true) == time,
{
}

/// A skeleton that plays goes on by the time that passes, at the rate that it has; it stops at the end
/// of a clip that does not repeat, and stands still while it does not play.
pub proof fn law_skeletons_go_on_with_time(
    actor: SkeletonActor<Fixed, Fixed, Fixed, Fixed>,
    delta: Fixed,
    clock: AnimationTime<Fixed>,
)
    requires
        actor.instance.active_clip is Some,
        !actor.instance.playback_rate_dirty,
        actor.instance.playback_rate.0 == 65536,
        0 < delta.0 <= 0x1000_0000_0000_0000,
        0 <= actor.instance.time.0 <= actor.instance.active_clip->Some_0.duration.0,
        1 < actor.instance.active_clip->Some_0.duration.0 <= 0x1000_0000_0000_0000,
    ensures
        ({
            let before = actor.instance;
            let after = actor.playback_after(delta, false, clock);
            let end = before.active_clip->Some_0.duration.0;
            &&& !before.playing ==> after.time == before.time && !after.playing
            &&& before.playing && before.time.0 + delta.0 < end - 1 ==> after.time.0
                == before.time.0 + delta.0 && after.playing
            &&& before.playing && !before.looped && end <= before.time.0 + delta.0 ==> after.time.0
                == end && !after.playing
            &&& before.looped ==> after.playing == before.playing && (before.playing ==> 0
                <= after.time.0 <= end)
            &&& after.looped == before.looped
        }),
{
    assert(delta.0 * 65536 / 65536 == delta.0);
    let end = actor.instance.active_clip->Some_0.duration;
    let next = Fixed((actor.instance.time.0 + delta.0) as i64);
    crate::scalar::law_fixed_remainder_lies_within(next, end);
    if next.0 < end.0 {
        vstd::arithmetic::div_mod::lemma_small_mod(next.0 as nat, end.0 as nat);
    }
}

/// At a rate of its own speed times the scale of its group a skeleton plays: at one alone where the
/// other is one.
pub proof fn law_skeletons_have_their_rate(
    instance: SkeletonInstance<Fixed, Fixed, Fixed, Fixed>,
    scale: Fixed,
)
    ensures
        !instance.playback_rate_dirty ==> instance.rated(scale) == instance,
        instance.playback_rate_dirty && scale.0 == 65536 ==> instance.rated(scale).playback_rate
            == instance.speed,
        instance.playback_rate_dirty && instance.speed.0 == 65536 ==> instance.rated(
            scale,
        ).playback_rate == scale,
        instance.rated(scale).time == instance.time,
{
    assert(instance.speed.0 * 65536 / 65536 == instance.speed.0);
    assert(65536 * scale.0 / 65536 == scale.0);
}

/// What is neither played nor marked is not posed; what has no clip goes to rest.
pub proof fn law_still_skeletons_are_left(
    actor: SkeletonActor<Fixed, Fixed, Fixed, Fixed>,
    delta: Fixed,
    scaled: bool,
    clock: AnimationTime<Fixed>,
)
    ensures
        ({
            let step = actor.step_due(delta, scaled, clock).2;
            &&& actor.instance.active_clip is None <==> step is Rest
            &&& actor.instance.active_clip is Some && !actor.instance.playing
                && !actor.instance.dirty ==> step is Unchanged
            &&& actor.instance.active_clip is Some && actor.instance.dirty ==> step is Posed
            &&& step is Posed ==> !actor.playback_after(delta, scaled, clock).dirty
        }),
{
}

/// A facet that does not lean faces as its surface does, whatever the roughness and however it is
/// turned.
pub proof fn law_level_facets_face_with_the_surface<A: Curves<Fixed>>(
    normal: Vec3<Fixed>,
    turn: Fixed,
    roughness: Fixed,
)
    requires
        0 <= roughness.0 <= 65536,
    ensures
        facet_normal::<Fixed, A>(normal, Vec2 { x: turn, y: Fixed(0) }, roughness) == normal,
{
    crate::surface_sense::law_facets_lean_as_on_a_circle(roughness, Fixed(65536));
    lemma_times_nothing();
    lemma_times_whole();
    let c = facet_cosine(Fixed(0), roughness);
    assert(c == Fixed(65536));
    assert(facet_sine(c) == Fixed(0));
    let still = Vec3 { x: Fixed(0), y: Fixed(0), z: Fixed(0) };
    law_up_is_along_the_normal(normal, still);
}

/// The first thing that an upright surface mirrors comes from straight ahead of it, whatever its
/// roughness.
pub proof fn law_surfaces_mirror_what_is_ahead(image: HdrImage<Fixed>, up: bool, roughness: Fixed)
    requires
        0 <= roughness.0 <= 65536,
    ensures
        specular_samples::<Fixed, SmallAngles>(image, upright(up), roughness)[0].direction
            == upright(up),
{
    lemma_first_point();
    let dir = upright(up);
    let point = even_point::<Fixed>(0, SPECULAR_SAMPLE_COUNT);
    law_level_facets_face_with_the_surface::<SmallAngles>(dir, point.x, roughness);
    assert(facet_normal::<Fixed, SmallAngles>(dir, point, roughness) == dir);
    lemma_times_nothing();
    lemma_times_whole();
    let back = dir.negated_spec();
    let d = dir.y;
    assert(65536int * 65536 / 65536 == 65536);
    assert((-65536int) * 65536 / 65536 == -65536);
    assert(65536int * (-65536) / 65536 == -65536);
    assert((-65536int) * (-65536) / 65536 == 65536);
    assert(back.dot_spec(dir).0 == -65536);
    assert(Fixed::from_count_spec(2) == Fixed(131072));
    assert(131072int * (-65536) / 65536 == -131072);
    assert((-65536int) * (-131072) / 65536 == 131072);
    let r = reflected(back, dir);
    assert(r == dir);
    assert(dir.dot_spec(dir).0 == 65536);
    assert(dir.length_spec() == Fixed(65536)) by {
        crate::scalar::lemma_floor_root_unique(4294967296, 65536);
    }
    assert(dir.unit_spec() == dir);
    let samples = specular_samples::<Fixed, SmallAngles>(image, dir, roughness);
    assert(samples[0].direction == reflected(
        dir.negated_spec(),
        facet_normal::<Fixed, SmallAngles>(dir, point, roughness),
    ).unit_spec());
}

/// The first of the points that lie evenly over a square lies in its corner.
proof fn lemma_first_point()
    ensures
        even_point::<Fixed>(0, SPECULAR_SAMPLE_COUNT).y.0 == 0,
{
    assert forall|i: u32| i < 32 implies !#[trigger] bit(0, i) by {
        assert((0u32 >> i) & 1u32 == 0u32) by (bit_vector);
    }
    assert(is_mirrored(0, 0));
    assert(is_mirrored(mirrored(0), 0));
    crate::ibl::lemma_mirrored_once(mirrored(0), 0, 0);
    assert(Fixed::from_count_spec(0) == Fixed(0));
    assert(Fixed::from_count_spec(65536).0 == 4294967296);
    assert(0int * 65536 / 4294967296 == 0);
}

/// The horizon is at half the height: nearest there, farthest at the top and at the bottom, and as near
/// above as below.
pub proof fn law_horizon_is_halfway_up(v: Fixed, w: Fixed)
    requires
        0 <= v.0 <= w.0 <= 32768,
    ensures
        0 <= default_horizon(v).0 <= default_horizon(w).0 <= 65536,
        default_horizon(Fixed(32768)).0 == 65536,
        default_horizon(Fixed(0)).0 == 0,
        default_horizon(Fixed((65536 - v.0) as i64)) == default_horizon(v),
{
    assert(Fixed::from_count_spec(1) == Fixed(65536));
    assert(Fixed::from_count_spec(2) == Fixed(131072));
    assert(65536int * 65536 / 131072 == 32768);
    lemma_twice_of(v.0 - 32768);
    lemma_twice_of(w.0 - 32768);
    lemma_twice_of(32768 - v.0);
    lemma_twice_of(0);
    lemma_twice_of(-32768);
}

proof fn lemma_twice_of(x: int)
    ensures
        131072 * x / 65536 == 2 * x,
{
}

/// The middles of the parts of a way follow one another from its start to its end.
pub proof fn law_middles_lie_halfway(i: u32, size: u32)
    requires
        i < size <= 65536,
    ensures
        ({
            let m = middle_of::<Fixed>(i, size).0;
            &&& 2 * m * size <= 65536 * (2 * i + 1)
            &&& 65536 * (2 * i + 1) < 2 * (m + 1) * size
            &&& 0 <= m < 65536
        }),
{
    assert(Fixed::from_count_spec(1) == Fixed(65536));
    assert(Fixed::from_count_spec(2) == Fixed(131072));
    assert(65536int * 65536 / 131072 == 32768);
    assert(Fixed::from_count_spec(i as usize).0 == 65536 * i);
    assert(Fixed::from_count_spec(size as usize).0 == 65536 * size);
    let n = size as int;
    let t = 65536 * i + 32768;
    let q = t * 65536 / (65536 * n);
    assert(q * n <= t < (q + 1) * n && 0 <= q < 65536) by (nonlinear_arith)
        requires
            q == t * 65536 / (65536 * n),
            0 <= t < 65536 * n,
            0 < n,
    ;
    assert(2 * q * n == 2 * (q * n) && 2 * (q + 1) * n == 2 * ((q + 1) * n)) by (nonlinear_arith);
}

/// A box asks for at least what it covers.
pub proof fn law_boxes_ask_for_what_they_cover(half: Vec2<Fixed>)
    requires
        0 <= half.x.0 <= 0x1000_0000_0000_0000,
        0 <= half.y.0 <= 0x1000_0000_0000_0000,
    ensures
        half.x.0 <= asked_half(half).x.0,
        half.y.0 <= asked_half(half).y.0,
{
    assert(Fixed::from_count_spec(105) == Fixed(6881280));
    assert(Fixed::from_count_spec(100) == Fixed(6553600));
    assert(6881280int * 65536 / 6553600 == 68812);
    crate::particle_motion::lemma_times_keeps_sign(half.x, Fixed(68812));
    crate::particle_motion::lemma_times_keeps_sign(half.y, Fixed(68812));
}

/// A surface that is seen straight on mirrors by its level facet all light in the part that does not
/// depend on the angle, and none in the other.
pub proof fn law_straight_mirrors_lose_nothing(roughness: Fixed)
    requires
        0 <= roughness.0 <= 65536,
    ensures
        facet_share::<Fixed, SmallAngles>(Fixed(65536), roughness, 0) == Some((Fixed(65536), Fixed(0))),
{
    lemma_first_point();
    lemma_times_nothing();
    lemma_times_whole();
    let zero = Fixed(0);
    let one = Fixed(65536);
    let normal = Vec3 { x: zero, y: zero, z: one };
    let point = even_point::<Fixed>(0, BRDF_SAMPLE_COUNT);
    assert(point.y == even_point::<Fixed>(0, SPECULAR_SAMPLE_COUNT).y);
    law_level_facets_face_with_the_surface::<SmallAngles>(normal, point.x, roughness);
    let h = facet_normal::<Fixed, SmallAngles>(normal, point, roughness);
    assert(h == normal);
    let v = Vec3 { x: one.minus_spec(one.times_spec(one)).root_spec(), y: zero, z: one };
    assert(v == normal);
    law_up_is_along_the_normal(normal, v.negated_spec());
    let l = reflected(v.negated_spec(), h);
    assert(l == normal);
    assert(normal.dot_spec(normal) == one);
    crate::surface_sense::law_rough_surfaces_throw_less_back(one, roughness, roughness);
    assert(smith(normal, v, l, roughness) == one);
    reveal_with_fuel(factors, 6);
    assert(SmallAngles::repeated_spec(zero, 5) == zero);
    assert(65536int * 65536 / 65536 == 65536);
    assert(one.over_spec(one) == one);
    assert(Fixed::from_count_spec(1) == one);
    assert(Fixed::from_count_spec(10000) == Fixed(655360000));
    assert(65536int * 65536 / 655360000 == 6);
}

/// The sun is seen best at its own place.
pub proof fn law_sun_is_brightest_at_its_place(u: Fixed, v: Fixed)
    ensures
        ({
            let at_u: Fixed = crate::scalar::ratio_spec(2, 10);
            let at_v: Fixed = crate::scalar::ratio_spec(35, 100);
            &&& default_sun::<Fixed, SmallAngles>(at_u, at_v).0 == 65536
            &&& default_sun::<Fixed, SmallAngles>(u, v).0 <= 65536
        }),
{
    lemma_times_nothing();
    let at_u: Fixed = crate::scalar::ratio_spec(2, 10);
    let at_v: Fixed = crate::scalar::ratio_spec(35, 100);
    let here = Vec2 { x: at_u.minus_spec(at_u), y: at_v.minus_spec(at_v) };
    assert(here.length_spec().0 == 0);
    let away = Vec2 { x: u.minus_spec(at_u), y: v.minus_spec(at_v) };
    let d = away.dot_spec(away);
    if 0 < d.0 {
        crate::scalar::lemma_root_fits(d.0 as int);
    }
    let far = away.length_spec();
    assert(Fixed::from_count_spec(6) == Fixed(393216));
    assert(Fixed::from_count_spec(12) == Fixed(786432));
    crate::particle_motion::lemma_times_keeps_sign(far, Fixed(393216));
    let share = Fixed::one_spec().minus_spec(far.times_spec(Fixed(393216))).larger_spec(Fixed(0));
    assert(0 <= share.0 <= 65536);
    let less = share.minus_spec(Fixed::one_spec());
    assert(786432 * less.0 / 65536 <= 0);
}

/// What is picked of an entity is a ball around where it lies: as large as it is at a scale of one, and
/// larger by the largest of its scales.
pub proof fn law_balls_lie_around_their_entities(
    t: Transform3D<Fixed>,
    plane: Transform<Fixed>,
    radius: Fixed,
)
    requires
        0 <= radius.0,
        65536 <= t.scale.x.0 && t.scale.y.0 == 65536 && t.scale.z.0 == 65536,
    ensures
        picking_ball(Some(t), Some(plane), radius).0 == t.translation,
        radius.0 <= picking_ball(Some(t), Some(plane), radius).1.0,
        t.scale.x.0 == 65536 ==> picking_ball(Some(t), Some(plane), radius).1 == radius,
        picking_ball(None, Some(plane), radius).0.x == plane.translation.x,
        picking_ball(None, Some(plane), radius).0.y == plane.translation.y,
        picking_ball(None, Some(plane), radius).0.z.0 == 0,
        picking_ball(None, Some(plane), radius).1 == radius,
{
    assert(Fixed::from_count_spec(1) == Fixed(65536));
    assert(Fixed::from_count_spec(10_000) == Fixed(655360000));
    assert(65536int * 65536 / 655360000 == 6);
    crate::particle_motion::lemma_times_keeps_sign(radius, t.scale.x);
}

/// A table of what surfaces mirror goes by the angle along its rows and by the roughness down its
/// columns.
pub proof fn law_tables_go_by_angle_and_roughness(x: u32, y: u32, size: u32)
    requires
        x < size && y < size,
    ensures
        ({
            let entry = table_entry::<Fixed, SmallAngles>(x, y, size);
            let angle = middle_of::<Fixed>(x, size);
            let roughness = middle_of::<Fixed>(y, size);
            &&& (entry.x, entry.y) == mirrored_parts::<Fixed, SmallAngles>(angle, roughness)
            &&& entry.z.0 == 0
        }),
{
}

/// The sky is nowhere darker than at the top and nowhere lighter than at the bottom, and the ground
/// gets lighter towards the horizon.
pub proof fn law_sky_gets_lighter_downward(v: Fixed)
    requires
        0 <= v.0 <= 65536,
    ensures
        ({
            let sky = default_sky(v);
            let top = default_sky(Fixed(0));
            let bottom = default_sky(Fixed(65536));
            &&& top.x.0 - 1 <= sky.x.0 <= bottom.x.0 && top.x.0 < bottom.x.0
            &&& top.y.0 - 1 <= sky.y.0 <= bottom.y.0 && top.y.0 < bottom.y.0
            &&& top.z.0 - 1 <= sky.z.0 <= bottom.z.0 && top.z.0 < bottom.z.0
        }),
        ({
            let ground = default_ground(v);
            let far = default_ground(Fixed(0));
            let near = default_ground(Fixed(65536));
            &&& far.x.0 - 1 <= ground.x.0 <= near.x.0 && far.x.0 < near.x.0
            &&& far.y.0 - 1 <= ground.y.0 <= near.y.0 && far.y.0 < near.y.0
            &&& far.z.0 - 1 <= ground.z.0 <= near.z.0 && far.z.0 < near.z.0
        }),
{
    assert(Fixed::from_count_spec(100) == Fixed(6553600));
    assert(Fixed::from_count_spec(25).0 * 65536 / 6553600 == 16384);
    assert(Fixed::from_count_spec(35).0 * 65536 / 6553600 == 22937);
    assert(Fixed::from_count_spec(60).0 * 65536 / 6553600 == 39321);
    assert(Fixed::from_count_spec(65).0 * 65536 / 6553600 == 42598);
    assert(Fixed::from_count_spec(70).0 * 65536 / 6553600 == 45875);
    assert(Fixed::from_count_spec(90).0 * 65536 / 6553600 == 58982);
    assert(Fixed::from_count_spec(8).0 * 65536 / 6553600 == 5242);
    assert(Fixed::from_count_spec(7).0 * 65536 / 6553600 == 4587);
    assert(Fixed::from_count_spec(5).0 * 65536 / 6553600 == 3276);
    assert(Fixed::from_count_spec(20).0 * 65536 / 6553600 == 13107);
    assert(Fixed::from_count_spec(18).0 * 65536 / 6553600 == 11796);
    assert(Fixed::from_count_spec(16).0 * 65536 / 6553600 == 10485);
    lemma_between(16384, 42598, v.0 as int);
    lemma_between(22937, 45875, v.0 as int);
    lemma_between(39321, 58982, v.0 as int);
    lemma_between(5242, 13107, v.0 as int);
    lemma_between(4587, 11796, v.0 as int);
    lemma_between(3276, 10485, v.0 as int);
    lemma_times_nothing();
    lemma_times_whole();
}

proof fn lemma_between(a: int, b: int, v: int)
    requires
        0 <= a <= b <= 65536,
        0 <= v <= 65536,
    ensures
        a - 1 <= a * (65536 - v) / 65536 + b * v / 65536 <= b,
        0 <= a * (65536 - v) / 65536 <= 65536,
        0 <= b * v / 65536 <= 65536,
{
    let p = a * (65536 - v);
    let q = b * v;
    assert(65536 * a <= p + q <= 65536 * b && 0 <= p && 0 <= q) by (nonlinear_arith)
        requires
            p == a * (65536 - v),
            q == b * v,
            0 <= a <= b,
            0 <= v <= 65536,
    ;
}

} // verus!
