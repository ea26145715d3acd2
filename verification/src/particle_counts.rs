//! What spawning comes to: what an emitter gathers it spawns in whole particles, and the caps hold.
use vstd::prelude::*;
use crate::components::ParticleEmitter;
use crate::particles::{
    backlog_after, backlog_peak, backlog_sum, emitter_after, is_spawned, particle_after, spawn_count,
    spawn_room, trail_velocity, NewParticle, ParticleBudgetMetrics, ParticleCaps, ParticleRow,
};
use crate::particle_motion::lemma_times_keeps_sign;
use crate::scalar::{Fixed, Scalar};
use crate::vectors::Vec2;

verus! {

/// What an emitter has gathered is either spawned or kept: with the particles that it spawns, what is
/// left makes up what it had and what came to it in the frame, as far as the cap lets it gather.
/// It spawns no more than there is room for, and as much as it can.
pub proof fn law_gathered_is_spawned_or_kept(
    e: ParticleEmitter<Fixed>,
    caps: ParticleCaps<Fixed>,
    dt: Fixed,
    room: int,
)
    requires
        0 <= e.accumulator.0 <= 0x4000_0000_0000,
        -0x4000_0000 <= e.rate.0 <= 0x4000_0000,
        0 <= dt.0 <= 0x4000_0000,
        0 <= caps.max_emitter_backlog.0 <= 0x4000_0000_0000,
        0 <= room <= i32::MAX,
    ensures
        ({
            let count = spawn_count(e, caps, dt, room);
            let after = emitter_after(e, caps, dt, count);
            let gained = if 0 < e.rate.0 {
                e.rate.0 * dt.0 / 65536
            } else {
                0
            };
            let whole = if e.accumulator.0 + gained < caps.max_emitter_backlog.0 {
                e.accumulator.0 + gained
            } else {
                caps.max_emitter_backlog.0 as int
            };
            &&& after.accumulator.0 + 65536 * count == whole
            &&& 0 <= count <= room
            &&& 0 <= after.accumulator.0
            &&& count < room ==> after.accumulator.0 < 65536
            &&& after == (ParticleEmitter { accumulator: after.accumulator, ..e })
        }),
{
    let r = if 0 < e.rate.0 {
        e.rate.0 as int
    } else {
        0
    };
    let p = r * dt.0;
    assert(0 <= p <= 0x1000_0000_0000_0000) by (nonlinear_arith)
        requires
            p == r * dt.0,
            0 <= r <= 0x4000_0000,
            0 <= dt.0 <= 0x4000_0000,
    ;
    assert(r == 0 ==> p == 0) by (nonlinear_arith)
        requires
            p == r * dt.0,
    ;
    let gathered = backlog_after(e, caps, dt);
    assert(0 <= gathered.0 <= 0x4000_0000_0000);
    assert(0 <= gathered.0 as int / 65536 <= 0x4000_0000);
}

/// There is never room for more than the caps leave, and as much as they leave.
pub proof fn law_caps_leave_room(caps: ParticleCaps<Fixed>, active: u32)
    ensures
        spawn_room(caps, active) <= caps.max_spawn_per_frame,
        active <= caps.max_total ==> active + spawn_room(caps, active) <= caps.max_total,
        caps.max_total <= active ==> spawn_room(caps, active) == 0,
        spawn_room(caps, active) == caps.max_spawn_per_frame || active + spawn_room(caps, active)
            == caps.max_total || caps.max_total <= active,
{
}

/// The largest backlog is one of them, or none, and no emitter has gathered more.
pub proof fn law_peak_is_the_largest(emitters: Seq<ParticleEmitter<Fixed>>, n: int, i: int)
    requires
        0 <= i < n <= emitters.len(),
    ensures
        emitters[i].accumulator.0 <= backlog_peak(emitters, n).0,
        backlog_peak(emitters, n).0 == 0 || exists|j: int|
            0 <= j < n && (#[trigger] emitters[j]).accumulator == backlog_peak(emitters, n),
    decreases n,
{
    if n > 1 {
        let before = backlog_peak(emitters, n - 1);
        law_peak_is_the_largest(emitters, n - 1, if i < n - 1 {
            i
        } else {
            0
        });
        if backlog_peak(emitters, n) == before {
            if before.0 != 0 {
                let j = choose|j: int|
                    0 <= j < n - 1 && (#[trigger] emitters[j]).accumulator == before;
                assert(emitters[j].accumulator == before);
            }
        } else {
            assert(emitters[n - 1].accumulator == backlog_peak(emitters, n));
        }
    } else {
        assert(backlog_peak(emitters, 0) == Fixed(0));
        assert(emitters[0].accumulator == emitters[n - 1].accumulator);
    }
}

/// Two emitters that change places leave the sum as it was.
pub proof fn law_backlogs_add_up(a: ParticleEmitter<Fixed>, b: ParticleEmitter<Fixed>)
    requires
        -0x1000_0000_0000_0000 <= a.accumulator.0 <= 0x1000_0000_0000_0000,
        -0x1000_0000_0000_0000 <= b.accumulator.0 <= 0x1000_0000_0000_0000,
    ensures
        backlog_sum(seq![a, b], 2).0 == a.accumulator.0 + b.accumulator.0,
        backlog_sum(seq![a, b], 2) == backlog_sum(seq![b, a], 2),
{
    reveal_with_fuel(backlog_sum, 3);
}

/// The share of particles that there are, times those that there may be, makes those that there are;
/// and the average backlog, times the emitters, makes the whole backlog: down to the smallest step.
pub proof fn law_shares_make_the_whole(m: ParticleBudgetMetrics<Fixed>)
    requires
        0 < m.max_total,
        0 < m.total_emitters,
        -0x1000_0000_0000_0000 <= m.emitter_backlog_total.0 <= 0x1000_0000_0000_0000,
    ensures
        m.utilization().0 * m.max_total <= 65536 * m.active_particles < (m.utilization().0 + 1)
            * m.max_total,
        m.mean_backlog().0 * m.total_emitters <= m.emitter_backlog_total.0 < (m.mean_backlog().0 + 1)
            * m.total_emitters,
{
    let a = m.active_particles as int;
    let t = m.max_total as int;
    assert(Fixed::from_count_spec(m.active_particles as usize).0 == 65536 * a);
    assert(Fixed::from_count_spec(m.max_total as usize).0 == 65536 * t);
    let q = (65536 * a) * 65536 / (65536 * t);
    assert(q * t <= 65536 * a < (q + 1) * t && 0 <= q <= 65536 * a) by (nonlinear_arith)
        requires
            q == (65536 * a) * 65536 / (65536 * t),
            0 < t,
            0 <= a,
    ;
    let b = m.emitter_backlog_total.0 as int;
    let n = m.total_emitters as int;
    assert(Fixed::from_count_spec(m.total_emitters as usize).0 == 65536 * n);
    let p = b * 65536 / (65536 * n);
    assert(p * n <= b < (p + 1) * n) by (nonlinear_arith)
        requires
            p == b * 65536 / (65536 * n),
            0 < n,
    ;
    assert(-0x1000_0000_0000_0000 <= p <= 0x1000_0000_0000_0000) by (nonlinear_arith)
        requires
            p * n <= b < (p + 1) * n,
            0 < n,
            -0x1000_0000_0000_0000 <= b <= 0x1000_0000_0000_0000,
    ;
}

/// A trail is no shorter for more speed, as long as its scale is not negative; it stays between its
/// least and its largest length, and no wider than the larger of its own width and its particle's.
pub proof fn law_trails_grow_with_speed(p: ParticleRow<Fixed>, slow: Fixed, fast: Fixed, size: Fixed)
    requires
        p.trail is Some,
        0 <= slow.0 <= fast.0,
        0 <= p.trail->Some_0.length_scale.0,
        655 <= p.trail->Some_0.min_length.0 <= p.trail->Some_0.max_length.0,
    ensures
        p.stretch(slow, size).1.0 <= p.stretch(fast, size).1.0,
        p.trail->Some_0.min_length.0 <= p.stretch(fast, size).1.0 <= p.trail->Some_0.max_length.0,
        size.0 <= p.stretch(fast, size).0.0,
        p.trail->Some_0.width.0 <= p.stretch(fast, size).0.0,
        p.stretch(fast, size).0.0 == 655 || p.stretch(fast, size).0 == size || p.stretch(
            fast,
            size,
        ).0 == p.trail->Some_0.width,
        0 <= p.stretch(fast, size).2.0 <= 65536,
        p.stretch(slow, size).0 == p.stretch(fast, size).0,
{
    assert(Fixed::from_count_spec(1) == Fixed(65536));
    assert(Fixed::from_count_spec(100) == Fixed(6553600));
    assert(65536int * 65536 / 6553600 == 655);
    let k = p.trail->Some_0.length_scale.0;
    assert(0 <= slow.0 * k <= fast.0 * k) by (nonlinear_arith)
        requires
            0 <= slow.0 <= fast.0,
            0 <= k,
    ;
}

/// What a mass takes away from a push is as much as the mass is: its inverse times the mass makes one,
/// down to the smallest step. Without a mass, or with none that counts, nothing is taken away.
pub proof fn law_heavier_is_slower(p: ParticleRow<Fixed>)
    ensures
        p.mass is Some && 0 < p.mass->Some_0.0 ==> p.inverse_mass().0 * p.mass->Some_0.0
            <= 4294967296 < (p.inverse_mass().0 + 1) * p.mass->Some_0.0,
        p.mass is None || p.mass->Some_0.0 <= 0 ==> p.inverse_mass().0 == 65536,
{
    if p.mass is Some && 0 < p.mass->Some_0.0 {
        let m = p.mass->Some_0.0 as int;
        let q = 4294967296int / m;
        assert(q * m <= 4294967296 < (q + 1) * m && 0 <= q <= 4294967296) by (nonlinear_arith)
            requires
                q == 4294967296int / m,
                0 < m,
        ;
    }
}

/// A particle sets off from its emitter along its direction, at the speed of the emitter, with its
/// whole life before it, and looks as particles of the emitter do at the start.
pub proof fn law_particles_set_off_from_their_emitter(
    r: NewParticle<Fixed>,
    emitter: ParticleEmitter<Fixed>,
    at: Vec2<Fixed>,
    dir: Vec2<Fixed>,
)
    requires
        is_spawned(r, emitter, at, dir),
        0 <= emitter.speed.0,
        -0x1000_0000_0000_0000 <= at.x.0 <= 0x1000_0000_0000_0000,
        -0x1000_0000_0000_0000 <= at.y.0 <= 0x1000_0000_0000_0000,
    ensures
        0 <= dir.x.0 ==> 0 <= r.velocity.x.0 && at.x.0 <= r.transform.translation.x.0,
        dir.x.0 <= 0 ==> r.velocity.x.0 <= 0 && r.transform.translation.x.0 <= at.x.0,
        0 <= dir.y.0 ==> 0 <= r.velocity.y.0 && at.y.0 <= r.transform.translation.y.0,
        dir.y.0 <= 0 ==> r.velocity.y.0 <= 0 && r.transform.translation.y.0 <= at.y.0,
        emitter.speed.0 == 65536 ==> r.velocity == dir,
        r.particle.lifetime == r.particle.max_lifetime && r.particle.lifetime == emitter.lifetime,
        r.tint == emitter.start_color && r.visual.start_color == emitter.start_color,
        r.visual.end_color == emitter.end_color,
        r.visual.start_size == emitter.start_size && r.visual.end_size == emitter.end_size,
        655 <= emitter.start_size.0 ==> r.transform.scale.x == emitter.start_size
            && r.transform.scale.y == emitter.start_size,
        r.transform.rotation.0 == 0 && r.force.x.0 == 0 && r.force.y.0 == 0,
        r.sprite.atlas_key == emitter.atlas && r.sprite.region == emitter.region,
{
    assert(Fixed::from_count_spec(1) == Fixed(65536));
    assert(Fixed::from_count_spec(5) == Fixed(327680));
    assert(Fixed::from_count_spec(100) == Fixed(6553600));
    assert(327680int * 65536 / 6553600 == 3276);
    assert(65536int * 65536 / 6553600 == 655);
    lemma_times_keeps_sign(dir.x, Fixed(3276));
    lemma_times_keeps_sign(dir.y, Fixed(3276));
    lemma_times_keeps_sign(dir.x, emitter.speed);
    lemma_times_keeps_sign(dir.y, emitter.speed);
}

/// A particle is drawn as wide as it is and as long as its trail makes it, reaches half of both each
/// way, and fades by its trail; its place is not changed by that.
pub proof fn law_particles_are_drawn_as_they_stretch(
    p: ParticleRow<Fixed>,
    accel: Vec2<Fixed>,
    dt: Fixed,
    turned: Fixed,
)
    requires
        p.half is Some,
    ensures
        ({
            let after = particle_after(p, accel, dt, turned);
            let (width, length, fade) = p.stretch(
                trail_velocity(p.velocity_after(accel, dt)).length_spec(),
                p.size(dt),
            );
            &&& after.transform.scale.x == width && after.transform.scale.y == length
            &&& after.transform.translation == p.transform.translation
            &&& after.transform.rotation == turned
            &&& after.half is Some
            &&& 1312 <= width.0 ==> 2 * after.half->Some_0.x.0 <= width.0 <= 2
                * after.half->Some_0.x.0 + 1
            &&& 1312 <= length.0 ==> 2 * after.half->Some_0.y.0 <= length.0 <= 2
                * after.half->Some_0.y.0 + 1
            &&& fade.0 == 65536 ==> after.tint == p.color(dt)
            &&& fade.0 == 0 ==> after.tint.w.0 == 0
            &&& after.tint.x == p.color(dt).x && after.tint.y == p.color(dt).y && after.tint.z
                == p.color(dt).z
        }),
{
    assert(Fixed::from_count_spec(1) == Fixed(65536));
    assert(Fixed::from_count_spec(2) == Fixed(131072));
    assert(Fixed::from_count_spec(100) == Fixed(6553600));
    assert(65536int * 65536 / 131072 == 32768);
    assert(65536int * 65536 / 6553600 == 655);
    let after = particle_after(p, accel, dt, turned);
    let w = after.transform.scale.x.0;
    let l = after.transform.scale.y.0;
    assert(w * 32768 / 65536 == w as int / 2);
    assert(l * 32768 / 65536 == l as int / 2);
    let c = p.color(dt).w.0;
    assert(c * 65536 / 65536 == c && c * 0 == 0);
}

} // verus!
