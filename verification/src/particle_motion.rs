//! What moves particles: which way fields and attractors push, and how particles age. Numbers are
//! fixed-point numbers, of which signs and sizes can be told.
use vstd::prelude::*;
use crate::particles::{
    attractor_push, falloff_at, field_push, particle_stepped, total_accel, ForceFalloff, ForceField,
    ForceFieldKind, ParticleAttractor, ParticleRow,
};
use crate::scalar::{Fixed, Scalar};
use crate::vectors::Vec2;

verus! {

/// A product with a positive number has the sign of its other factor, or is nothing.
pub proof fn lemma_times_keeps_sign(a: Fixed, k: Fixed)
    requires
        0 <= k.0,
    ensures
        0 <= a.0 ==> 0 <= a.times_spec(k).0,
        a.0 <= 0 ==> a.times_spec(k).0 <= 0,
        a.0 < 0 && 0 < k.0 ==> a.times_spec(k).0 < 0,
        a.0 == 0 ==> a.times_spec(k).0 == 0,
        0 <= a.0 && 65536 <= k.0 ==> a.0 <= a.times_spec(k).0,
        0 <= a.0 && k.0 <= 65536 ==> a.times_spec(k).0 <= a.0,
        k.0 == 65536 ==> a.times_spec(k) == a,
{
    let p = a.0 * k.0;
    assert(0 <= a.0 ==> 0 <= p) by (nonlinear_arith)
        requires
            0 <= k.0,
            p == a.0 * k.0,
    ;
    assert(a.0 <= 0 ==> p <= 0) by (nonlinear_arith)
        requires
            0 <= k.0,
            p == a.0 * k.0,
    ;
    assert(a.0 < 0 && 0 < k.0 ==> p < 0) by (nonlinear_arith)
        requires
            p == a.0 * k.0,
    ;
    assert(0 <= a.0 && 65536 <= k.0 ==> a.0 * 65536 <= p) by (nonlinear_arith)
        requires
            p == a.0 * k.0,
    ;
    assert(0 <= a.0 && k.0 <= 65536 ==> p <= a.0 * 65536) by (nonlinear_arith)
        requires
            p == a.0 * k.0,
    ;
    assert(a.0 * 65536 / 65536 == a.0);
}

pub proof fn lemma_over_keeps_sign(a: Fixed, k: Fixed)
    requires
        0 < k.0,
    ensures
        0 <= a.0 ==> 0 <= a.over_spec(k).0,
        a.0 <= 0 ==> a.over_spec(k).0 <= 0,
        a.0 < 0 ==> a.over_spec(k).0 < 0,
        0 < a.0 && k.0 <= a.0 * 65536 ==> 0 < a.over_spec(k).0,
        0 <= a.0 <= k.0 ==> a.over_spec(k).0 <= 65536,
        a == k ==> a.over_spec(k).0 == 65536,
{
    let p = a.0 * 65536;
    let q = p / k.0 as int;
    assert(0 <= p ==> 0 <= q) by (nonlinear_arith)
        requires
            q == p / k.0 as int,
            0 < k.0,
    ;
    assert(p < 0 ==> q < 0) by (nonlinear_arith)
        requires
            q == p / k.0 as int,
            0 < k.0,
    ;
    assert(k.0 <= p ==> 1 <= q) by (nonlinear_arith)
        requires
            q == p / k.0 as int,
            0 < k.0,
    ;
    assert(a.0 <= k.0 ==> q <= 65536) by (nonlinear_arith)
        requires
            q == p / k.0 as int,
            p == a.0 * 65536,
            0 < k.0,
    ;
    assert(a.0 == k.0 ==> q == 65536) by (nonlinear_arith)
        requires
            q == p / k.0 as int,
            p == a.0 * 65536,
            0 < k.0,
    ;
}

/// All of a force is left where it starts or does not fade, none of it at its radius and beyond, and
/// no more of it further away.
pub proof fn law_forces_fade_with_distance(
    falloff: ForceFalloff,
    near: Fixed,
    far: Fixed,
    radius: Fixed,
)
    requires
        0 <= near.0 <= far.0,
        0 < radius.0,
    ensures
        0 <= falloff_at(falloff, far, radius).0 <= falloff_at(falloff, near, radius).0 <= 65536,
        falloff == ForceFalloff::Constant ==> falloff_at(falloff, far, radius).0 == 65536,
        falloff == ForceFalloff::Linear && near.0 == 0 ==> falloff_at(falloff, near, radius).0 == 65536,
        falloff == ForceFalloff::Linear && radius.0 <= far.0 ==> falloff_at(falloff, far, radius).0
            == 0,
        falloff == ForceFalloff::Linear && far.0 < radius.0 && 65536 * far.0 < 65535 * radius.0
            ==> 0 < falloff_at(falloff, far, radius).0,
{
    let a = near.0 * 65536 / radius.0 as int;
    let b = far.0 * 65536 / radius.0 as int;
    assert(0 <= a <= b) by (nonlinear_arith)
        requires
            a == near.0 * 65536 / radius.0 as int,
            b == far.0 * 65536 / radius.0 as int,
            0 <= near.0 <= far.0,
            0 < radius.0,
    ;
    assert(near.0 == 0 ==> a == 0) by (nonlinear_arith)
        requires
            a == near.0 * 65536 / radius.0 as int,
            0 < radius.0,
    ;
    assert(radius.0 <= far.0 ==> 65536 <= b) by (nonlinear_arith)
        requires
            b == far.0 * 65536 / radius.0 as int,
            0 < radius.0,
    ;
    assert(65536 * far.0 < 65535 * radius.0 ==> b < 65535) by (nonlinear_arith)
        requires
            b == far.0 * 65536 / radius.0 as int,
            0 < radius.0,
    ;
}

/// Whether an attractor reaches a place: neither too near nor too far, and not faded.
pub open spec fn reaches(at: Vec2<Fixed>, origin: Vec2<Fixed>, a: ParticleAttractor<Fixed>) -> bool {
    let distance = origin.minus_spec(at).length_spec();
    &&& a.min_distance.0 < distance.0 <= a.radius.0
    &&& 0 < falloff_at(a.falloff, distance, a.radius).0
    &&& 0 < distance.0
}

/// An attractor of positive strength draws what it reaches towards itself along both axes, and never
/// away: to the left and downward in any case, to the right and upward where it is strong enough for
/// the step to be told.
pub proof fn law_attractors_draw_near(
    at: Vec2<Fixed>,
    origin: Vec2<Fixed>,
    a: ParticleAttractor<Fixed>,
    accel: Vec2<Fixed>,
)
    requires
        0 < a.strength.0,
        reaches(at, origin, a),
    ensures
        ({
            let pulled = attractor_push(at, origin, a, accel);
            let distance = origin.minus_spec(at).length_spec();
            &&& at.x.0 <= origin.x.0 ==> accel.x.0 <= pulled.x.0
            &&& origin.x.0 <= at.x.0 ==> pulled.x.0 <= accel.x.0
            &&& at.y.0 <= origin.y.0 ==> accel.y.0 <= pulled.y.0
            &&& origin.y.0 <= at.y.0 ==> pulled.y.0 <= accel.y.0
            &&& a.max_acceleration.0 <= 0 && i64::MIN < accel.x.0 && origin.x.0 < at.x.0
                ==> pulled.x.0 < accel.x.0
            &&& a.max_acceleration.0 <= 0 && i64::MIN < accel.y.0 && origin.y.0 < at.y.0
                ==> pulled.y.0 < accel.y.0
            &&& a.max_acceleration.0 <= 0 && accel.x.0 < i64::MAX && 65536 <= a.strength.0 && a.falloff
                == ForceFalloff::Constant && at.x.0 < origin.x.0 && distance.0 <= (origin.x.0 - at.x.0)
                * 65536 ==> accel.x.0 < pulled.x.0
            &&& a.max_acceleration.0 <= 0 && accel.y.0 < i64::MAX && 65536 <= a.strength.0 && a.falloff
                == ForceFalloff::Constant && at.y.0 < origin.y.0 && distance.0 <= (origin.y.0 - at.y.0)
                * 65536 ==> accel.y.0 < pulled.y.0
        }),
{
    let way = origin.minus_spec(at);
    let distance = way.length_spec();
    let share = falloff_at(a.falloff, distance, a.radius);
    let turned = way.over_spec(distance);
    let strong = turned.scaled_spec(a.strength);
    let push = strong.scaled_spec(share);
    lemma_over_keeps_sign(way.x, distance);
    lemma_over_keeps_sign(way.y, distance);
    lemma_times_keeps_sign(turned.x, a.strength);
    lemma_times_keeps_sign(turned.y, a.strength);
    lemma_times_keeps_sign(strong.x, share);
    lemma_times_keeps_sign(strong.y, share);
    lemma_unit_keeps_sign(push);
    let unit = push.unit_or_zero_spec();
    if 0 < a.max_acceleration.0 {
        lemma_times_keeps_sign(unit.x, a.max_acceleration);
        lemma_times_keeps_sign(unit.y, a.max_acceleration);
    }
}

proof fn lemma_unit_keeps_sign(v: Vec2<Fixed>)
    ensures
        ({
            let u = v.unit_or_zero_spec();
            &&& 0 <= v.x.0 ==> 0 <= u.x.0
            &&& v.x.0 <= 0 ==> u.x.0 <= 0
            &&& 0 <= v.y.0 ==> 0 <= u.y.0
            &&& v.y.0 <= 0 ==> u.y.0 <= 0
            &&& 0 < Fixed::one_spec().over_spec(v.length_spec()).0 ==> {
                &&& v.x.0 < 0 ==> u.x.0 < 0
                &&& v.y.0 < 0 ==> u.y.0 < 0
            }
        }),
{
    let k = Fixed::one_spec().over_spec(v.length_spec());
    if 0 < k.0 {
        lemma_times_keeps_sign(v.x, k);
        lemma_times_keeps_sign(v.y, k);
    }
}

/// An attractor does nothing to what is too near or too far.
pub proof fn law_attractors_have_their_reach(
    at: Vec2<Fixed>,
    origin: Vec2<Fixed>,
    a: ParticleAttractor<Fixed>,
    accel: Vec2<Fixed>,
)
    requires
        ({
            let distance = origin.minus_spec(at).length_spec();
            distance.0 <= a.min_distance.0 || a.radius.0 < distance.0
        }),
    ensures
        attractor_push(at, origin, a, accel) == accel,
{
}

/// A radial field of positive strength pushes away from its origin along both axes and never towards
/// it, one with a direction pushes along that direction wherever the place is.
pub proof fn law_fields_push_their_way(
    at: Vec2<Fixed>,
    origin: Vec2<Fixed>,
    field: ForceField<Fixed>,
    accel: Vec2<Fixed>,
)
    requires
        0 < field.strength.0,
        0 < field.radius.0,
    ensures
        ({
            let pushed = field_push(at, origin, field, accel);
            let way = if field.kind == ForceFieldKind::Radial {
                (at.x.0 - origin.x.0, at.y.0 - origin.y.0)
            } else {
                (field.direction.x.0 as int, field.direction.y.0 as int)
            };
            &&& 0 <= way.0 ==> accel.x.0 <= pushed.x.0
            &&& way.0 <= 0 ==> pushed.x.0 <= accel.x.0
            &&& 0 <= way.1 ==> accel.y.0 <= pushed.y.0
            &&& way.1 <= 0 ==> pushed.y.0 <= accel.y.0
        }),
        field.kind == ForceFieldKind::Directional && 0 < Fixed::one_spec().over_spec(
            field.direction.length_spec(),
        ).0 && 0 < falloff_at(field.falloff, at.minus_spec(origin).length_spec(), field.radius).0
            && i64::MIN < accel.x.0 && field.direction.x.0 < 0 ==> field_push(
            at,
            origin,
            field,
            accel,
        ).x.0 < accel.x.0,
        field.kind == ForceFieldKind::Radial && 0 < Fixed::one_spec().over_spec(
            at.minus_spec(origin).length_spec(),
        ).0 && 0 < falloff_at(field.falloff, at.minus_spec(origin).length_spec(), field.radius).0
            && 1 < at.minus_spec(origin).dot_spec(at.minus_spec(origin)).0 && i64::MIN < accel.x.0
            && at.x.0 < origin.x.0 ==> field_push(at, origin, field, accel).x.0 < accel.x.0,
{
    let away = at.minus_spec(origin);
    let dir = if field.kind == ForceFieldKind::Radial {
        away
    } else {
        field.direction
    };
    let distance = away.length_spec();
    let share = falloff_at(field.falloff, distance, field.radius);
    let unit = dir.unit_or_zero_spec();
    let strong = unit.scaled_spec(field.strength);
    lemma_unit_keeps_sign(dir);
    lemma_times_keeps_sign(unit.x, field.strength);
    lemma_times_keeps_sign(unit.y, field.strength);
    lemma_times_keeps_sign(strong.x, share);
    lemma_times_keeps_sign(strong.y, share);
}

/// Acceleration speeds a particle up in its direction, the more the lighter it is, and without any
/// the particle only slows down.
pub proof fn law_acceleration_turns_into_speed(
    p: ParticleRow<Fixed>,
    accel: Vec2<Fixed>,
    dt: Fixed,
)
    requires
        p.velocity is Some,
        p.velocity->0.x.0 == 0 && p.velocity->0.y.0 == 0,
        0 < dt.0,
    ensures
        ({
            let v = p.velocity_after(accel, dt);
            &&& v is Some
            &&& 0 <= accel.x.0 ==> 0 <= v->0.x.0
            &&& accel.x.0 <= 0 ==> v->0.x.0 <= 0
            &&& 0 <= accel.y.0 ==> 0 <= v->0.y.0
            &&& accel.y.0 <= 0 ==> v->0.y.0 <= 0
            &&& accel.x.0 < 0 && 0 < p.inverse_mass().0 ==> v->0.x.0 < 0
            &&& accel.y.0 < 0 && 0 < p.inverse_mass().0 ==> v->0.y.0 < 0
            &&& 2 <= accel.x.0 && 65536 <= p.inverse_mass().0 && 65536 <= dt.0 ==> 0 < v->0.x.0
            &&& 2 <= accel.y.0 && 65536 <= p.inverse_mass().0 && 65536 <= dt.0 ==> 0 < v->0.y.0
            &&& p.net_force(accel) == accel
        }),
{
    let k = p.inverse_mass();
    assert(0 <= k.0) by {
        if let Some(m) = p.mass {
            if 0 < m.0 {
                lemma_over_keeps_sign(Fixed::one_spec(), m);
            }
        }
    }
    let slow: Fixed = crate::scalar::ratio_spec(98, 100);
    assert(slow == Fixed(64225)) by {
        assert(98 * 65536 * 65536 / (100 * 65536) == 64225);
    }
    let a = accel.scaled_spec(k);
    let b = a.scaled_spec(dt);
    lemma_times_keeps_sign(accel.x, k);
    lemma_times_keeps_sign(accel.y, k);
    lemma_times_keeps_sign(a.x, dt);
    lemma_times_keeps_sign(a.y, dt);
    lemma_times_keeps_sign(b.x, slow);
    lemma_times_keeps_sign(b.y, slow);
    assert(2 <= b.x.0 ==> 0 < b.x.times_spec(slow).0) by {
        assert(2 <= b.x.0 ==> 65536 <= b.x.0 * 64225);
    }
    assert(2 <= b.y.0 ==> 0 < b.y.times_spec(slow).0) by {
        assert(2 <= b.y.0 ==> 65536 <= b.y.0 * 64225);
    }
}

/// A particle at rest with a single attractor in reach and no fields sets off towards the attractor.
pub proof fn law_particle_sets_off_towards_an_attractor<H: Fn(Vec2<Fixed>) -> Fixed>(
    p: ParticleRow<Fixed>,
    after: ParticleRow<Fixed>,
    origin: Vec2<Fixed>,
    a: ParticleAttractor<Fixed>,
    dt: Fixed,
    heading: H,
)
    requires
        particle_stepped(p, after, Seq::empty(), seq![(origin, a)], dt, heading),
        dt.0 < p.particle.lifetime.0,
        i64::MIN <= p.particle.lifetime.0 - dt.0,
        0 < dt.0,
        p.velocity is Some,
        p.velocity->0.x.0 == 0 && p.velocity->0.y.0 == 0,
        p.mass is None,
        0 < a.strength.0,
        a.max_acceleration.0 <= 0,
        reaches(p.transform.translation, origin, a),
    ensures
        ({
            let at = p.transform.translation;
            let v = after.velocity->0;
            &&& after.velocity is Some
            &&& origin.x.0 < at.x.0 ==> v.x.0 < 0
            &&& origin.y.0 < at.y.0 ==> v.y.0 < 0
            &&& at.x.0 < origin.x.0 ==> 0 <= v.x.0
            &&& at.y.0 < origin.y.0 ==> 0 <= v.y.0
            &&& origin.x.0 == at.x.0 ==> v.x.0 == 0
            &&& origin.y.0 == at.y.0 ==> v.y.0 == 0
            &&& after.transform.translation == at
        }),
{
    let at = p.transform.translation;
    let none = Vec2::<Fixed>::zero_spec();
    let accel = attractor_push(at, origin, a, none);
    let all = seq![(origin, a)];
    reveal_with_fuel(crate::particles::attractors_accel, 3);
    assert(crate::particles::fields_accel(at, Seq::empty(), 0) == none);
    assert(total_accel(at, Seq::empty(), all) == accel) by {
        assert(all.len() == 1 && all[0] == (origin, a));
    }
    law_attractors_draw_near(at, origin, a, none);
    law_acceleration_turns_into_speed(p, accel, dt);
}

/// A particle gets older by the time that passes and ends when its time is up; until then it keeps
/// its place, and what it does not have it does not get.
pub proof fn law_particles_age<H: Fn(Vec2<Fixed>) -> Fixed>(
    p: ParticleRow<Fixed>,
    after: ParticleRow<Fixed>,
    fields: Seq<(Vec2<Fixed>, ForceField<Fixed>)>,
    attractors: Seq<(Vec2<Fixed>, ParticleAttractor<Fixed>)>,
    dt: Fixed,
    heading: H,
)
    requires
        particle_stepped(p, after, fields, attractors, dt, heading),
        i64::MIN <= p.particle.lifetime.0 - dt.0 <= i64::MAX,
    ensures
        after.particle.lifetime.0 == p.particle.lifetime.0 - dt.0,
        after.particle.max_lifetime == p.particle.max_lifetime,
        p.expires(dt) == (p.particle.lifetime.0 <= dt.0),
        after.transform.translation == p.transform.translation,
        after.entity == p.entity,
        after.velocity is Some == p.velocity is Some,
        after.force is Some == p.force is Some,
        after.half is Some == p.half is Some,
        after.visual == p.visual && after.trail == p.trail && after.mass == p.mass,
{
}

/// A particle looks at its birth as it starts and, as its time runs out, as it ends; in between it
/// goes from the one to the other, and never back.
pub proof fn law_particles_go_from_start_to_end(p: ParticleRow<Fixed>, early: Fixed, late: Fixed)
    requires
        0 < p.particle.max_lifetime.0,
        0 <= p.particle.lifetime.0 - late.0,
        early.0 <= late.0,
        p.particle.lifetime.0 - early.0 <= p.particle.max_lifetime.0,
        -0x4000_0000_0000_0000 <= p.visual.start_size.0 <= 0x3fff_ffff_ffff_ffff,
        -0x4000_0000_0000_0000 <= p.visual.end_size.0 <= 0x3fff_ffff_ffff_ffff,
        -0x4000_0000_0000_0000 <= p.visual.start_color.w.0 <= 0x3fff_ffff_ffff_ffff,
        -0x4000_0000_0000_0000 <= p.visual.end_color.w.0 <= 0x3fff_ffff_ffff_ffff,
    ensures
        0 <= p.progress(early).0 <= p.progress(late).0 <= 65536,
        p.particle.lifetime.0 - early.0 == p.particle.max_lifetime.0 ==> p.size(early)
            == p.visual.start_size && p.color(early).w == p.visual.start_color.w,
        p.particle.lifetime.0 == late.0 ==> p.size(late) == p.visual.end_size && p.color(late).w
            == p.visual.end_color.w,
        p.visual.start_size.0 <= p.visual.end_size.0 ==> p.visual.start_size.0 <= p.size(early).0
            <= p.size(late).0 <= p.visual.end_size.0,
{
    let m = p.particle.max_lifetime.0 as int;
    let a = p.particle.lifetime.0 - early.0;
    let b = p.particle.lifetime.0 - late.0;
    let qa = a * 65536 / m;
    let qb = b * 65536 / m;
    assert(0 <= qb <= qa <= 65536) by (nonlinear_arith)
        requires
            qa == a * 65536 / m,
            qb == b * 65536 / m,
            0 <= b <= a <= m,
            0 < m,
    ;
    assert(a == m ==> qa == 65536) by (nonlinear_arith)
        requires
            qa == a * 65536 / m,
            0 < m,
    ;
    assert(b == 0 ==> qb == 0) by (nonlinear_arith)
        requires
            qb == b * 65536 / m,
            0 < m,
    ;
    assert(p.aged(early).0 == a && p.aged(late).0 == b);
    assert(p.progress(early).0 == 65536 - qa && p.progress(late).0 == 65536 - qb);
    let d = p.visual.end_size.0 - p.visual.start_size.0;
    let x = 65536 - qa;
    let y = 65536 - qb;
    assert(0 <= d ==> 0 <= d * x <= d * y <= d * 65536) by (nonlinear_arith)
        requires
            0 <= x <= y <= 65536,
    ;
    assert(d * 65536 / 65536 == d);
    let w = p.visual.end_color.w.0 - p.visual.start_color.w.0;
    assert(w * 65536 / 65536 == w);
    assert(d * 0 == 0 && w * 0 == 0);
}

} // verus!
