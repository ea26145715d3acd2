//! Particles: how many are spawned, and how they move and look.
use vstd::prelude::*;
use crate::components::{Particle, ParticleEmitter, ParticleTrail, ParticleVisual, Transform};
use crate::entity::Entity;
use crate::scalar::{clamped, ratio, Scalar};
use crate::sprite::Sprite;
use crate::vectors::{Vec2, Vec4};

verus! {

#[derive(Clone, Copy)]
pub struct ParticleCaps<S> {
    pub max_spawn_per_frame: u32,
    pub max_total: u32,
    pub max_emitter_backlog: S,
}

impl<S: Scalar> ParticleCaps<S> {
    pub fn default() -> (r: Self)
        ensures
            r.max_spawn_per_frame == 256,
            r.max_total == 2_000,
            r.max_emitter_backlog == S::from_count_spec(64),
    {
        ParticleCaps {
            max_spawn_per_frame: 256,
            max_total: 2_000,
            max_emitter_backlog: S::from_count(64),
        }
    }

    /// No more may be spawned in a frame than there may be, and no backlog is below zero.
    pub fn new(max_spawn_per_frame: u32, max_total: u32, max_emitter_backlog: S) -> (r: Self)
        ensures
            r.max_spawn_per_frame == (if max_spawn_per_frame < max_total {
                max_spawn_per_frame
            } else {
                max_total
            }),
            r.max_total == max_total,
            r.max_emitter_backlog == max_emitter_backlog.larger_spec(S::zero_spec()),
    {
        ParticleCaps {
            max_spawn_per_frame: if max_spawn_per_frame < max_total {
                max_spawn_per_frame
            } else {
                max_total
            },
            max_total,
            max_emitter_backlog: max_emitter_backlog.larger(S::zero()),
        }
    }
}

#[derive(Clone, Copy)]
pub struct ParticleState {
    pub active_particles: u32,
}

#[derive(Clone, Copy)]
pub struct ParticleBudgetMetrics<S> {
    pub active_particles: u32,
    pub available_spawn_this_frame: u32,
    pub max_total: u32,
    pub max_spawn_per_frame: u32,
    pub total_emitters: u32,
    pub emitter_backlog_total: S,
    pub emitter_backlog_max_observed: S,
    pub emitter_backlog_limit: S,
}

impl<S: Scalar> ParticleBudgetMetrics<S> {
    /// How much of what there may be there is.
    pub open spec fn utilization(self) -> S {
        if self.max_total == 0 {
            S::zero_spec()
        } else {
            S::from_count_spec(self.active_particles as usize).over_spec(
                S::from_count_spec(self.max_total as usize),
            )
        }
    }

    pub fn cap_utilization(&self) -> (r: S)
        ensures
            r == self.utilization(),
            r == (if self.max_total == 0 {
                S::zero_spec()
            } else {
                S::from_count_spec(self.active_particles as usize).over_spec(
                    S::from_count_spec(self.max_total as usize),
                )
            }),
    {
        if self.max_total == 0 {
            S::zero()
        } else {
            S::from_count(self.active_particles as usize).over(
                S::from_count(self.max_total as usize),
            )
        }
    }

    /// What an emitter has gathered on average.
    pub open spec fn mean_backlog(self) -> S {
        if self.total_emitters == 0 {
            S::zero_spec()
        } else {
            self.emitter_backlog_total.over_spec(S::from_count_spec(self.total_emitters as usize))
        }
    }

    pub fn average_backlog(&self) -> (r: S)
        ensures
            r == self.mean_backlog(),
            r == (if self.total_emitters == 0 {
                S::zero_spec()
            } else {
                self.emitter_backlog_total.over_spec(
                    S::from_count_spec(self.total_emitters as usize),
                )
            }),
    {
        if self.total_emitters == 0 {
            S::zero()
        } else {
            self.emitter_backlog_total.over(S::from_count(self.total_emitters as usize))
        }
    }
}

/// The accumulators of the first `n` emitters summed.
pub open spec fn backlog_sum<S: Scalar>(emitters: Seq<ParticleEmitter<S>>, n: int) -> S
    decreases n,
{
    if n <= 0 {
        S::zero_spec()
    } else {
        backlog_sum(emitters, n - 1).plus_spec(emitters[n - 1].accumulator)
    }
}

/// The largest accumulator of the first `n` emitters, and not below zero.
pub open spec fn backlog_peak<S: Scalar>(emitters: Seq<ParticleEmitter<S>>, n: int) -> S
    decreases n,
{
    if n <= 0 {
        S::zero_spec()
    } else {
        backlog_peak(emitters, n - 1).larger_spec(emitters[n - 1].accumulator)
    }
}

/// How many particles may still be spawned in a frame.
pub open spec fn spawn_room<S>(caps: ParticleCaps<S>, active: u32) -> u32 {
    let headroom = if active < caps.max_total {
        (caps.max_total - active) as u32
    } else {
        0
    };
    if headroom < caps.max_spawn_per_frame {
        headroom
    } else {
        caps.max_spawn_per_frame
    }
}

pub fn particle_budget_metrics<S: Scalar>(
    caps: &ParticleCaps<S>,
    active_particles: u32,
    emitters: &Vec<ParticleEmitter<S>>,
) -> (r: ParticleBudgetMetrics<S>)
    requires
        emitters@.len() <= u32::MAX,
    ensures
        r == (ParticleBudgetMetrics {
            active_particles,
            available_spawn_this_frame: spawn_room(*caps, active_particles),
            max_total: caps.max_total,
            max_spawn_per_frame: caps.max_spawn_per_frame,
            total_emitters: emitters@.len() as u32,
            emitter_backlog_total: backlog_sum(emitters@, emitters@.len() as int),
            emitter_backlog_max_observed: backlog_peak(emitters@, emitters@.len() as int),
            emitter_backlog_limit: caps.max_emitter_backlog,
        }),
{
    let mut total = S::zero();
    let mut peak = S::zero();
    let mut i: usize = 0;
    while i < emitters.len()
        invariant
            i <= emitters@.len(),
            total == backlog_sum(emitters@, i as int),
            peak == backlog_peak(emitters@, i as int),
        decreases emitters@.len() - i,
    {
        total = total.plus(emitters[i].accumulator);
        peak = peak.larger(emitters[i].accumulator);
        i = i + 1;
    }
    let headroom: u32 = if active_particles < caps.max_total {
        caps.max_total - active_particles
    } else {
        0
    };
    ParticleBudgetMetrics {
        active_particles,
        available_spawn_this_frame: if headroom < caps.max_spawn_per_frame {
            headroom
        } else {
            caps.max_spawn_per_frame
        },
        max_total: caps.max_total,
        max_spawn_per_frame: caps.max_spawn_per_frame,
        total_emitters: emitters.len() as u32,
        emitter_backlog_total: total,
        emitter_backlog_max_observed: peak,
        emitter_backlog_limit: caps.max_emitter_backlog,
    }
}

/// What an emitter has gathered after a frame, before it spawns.
pub open spec fn backlog_after<S: Scalar>(e: ParticleEmitter<S>, caps: ParticleCaps<S>, dt: S) -> S {
    e.accumulator.plus_spec(e.rate.larger_spec(S::zero_spec()).times_spec(dt)).smaller_spec(
        caps.max_emitter_backlog,
    )
}

/// How many an emitter spawns with `room` left: what it has gathered in whole, as far as there is
/// room.
pub open spec fn spawn_count<S: Scalar>(e: ParticleEmitter<S>, caps: ParticleCaps<S>, dt: S, room: int) -> int {
    let desired = backlog_after(e, caps, dt).floor_steps_spec();
    if desired <= 0 || room <= 0 {
        0
    } else if desired < room {
        desired as int
    } else {
        room
    }
}

/// The room that the first `n` emitters leave.
pub open spec fn room_left<S: Scalar>(
    emitters: Seq<ParticleEmitter<S>>,
    caps: ParticleCaps<S>,
    dt: S,
    room: int,
    n: int,
) -> int
    decreases n,
{
    if n <= 0 {
        room
    } else {
        let before = room_left(emitters, caps, dt, room, n - 1);
        before - spawn_count(emitters[n - 1], caps, dt, before)
    }
}

pub open spec fn emitter_after<S: Scalar>(e: ParticleEmitter<S>, caps: ParticleCaps<S>, dt: S, count: int) -> ParticleEmitter<
    S,
> {
    let gathered = backlog_after(e, caps, dt);
    ParticleEmitter {
        accumulator: if count > 0 {
            gathered.minus_spec(S::from_steps_spec(count as i32))
        } else {
            gathered
        },
        ..e
    }
}

fn emitter_step<S: Scalar>(
    emitter: &mut ParticleEmitter<S>,
    caps: &ParticleCaps<S>,
    dt: S,
    room: i32,
) -> (count: i32)
    requires
        room >= 0,
    ensures
        count == spawn_count(*old(emitter), *caps, dt, room as int),
        *final(emitter) == emitter_after(*old(emitter), *caps, dt, count as int),
{
    emitter.accumulator =
    emitter.accumulator.plus(emitter.rate.larger(S::zero()).times(dt)).smaller(
        caps.max_emitter_backlog,
    );
    let desired: i32 = emitter.accumulator.floor_steps();
    if desired <= 0 || room <= 0 {
        return 0;
    }
    let count: i32 = if desired < room {
        desired
    } else {
        room
    };
    emitter.accumulator = emitter.accumulator.minus(S::from_steps(count));
    count
}

/// The room at the start of a frame. A limit beyond the range of `i32` allows nothing.
pub open spec fn frame_room<S>(caps: ParticleCaps<S>, active: u32) -> int {
    if caps.max_spawn_per_frame > i32::MAX {
        0
    } else {
        spawn_room(caps, active) as int
    }
}

/// Lets every emitter gather for a frame and says how many each of them spawns: in order, as long
/// as the caps leave room.
pub fn update_emitters<S: Scalar>(
    emitters: &mut Vec<ParticleEmitter<S>>,
    caps: &ParticleCaps<S>,
    state: &mut ParticleState,
    dt: S,
) -> (counts: Vec<i32>)
    requires
        caps.max_total <= i32::MAX,
    ensures
        ({
            let room = frame_room(*caps, old(state).active_particles);
            let n = old(emitters)@.len() as int;
            &&& counts@.len() == n
            &&& final(emitters)@.len() == n
            &&& forall|i: int|
                0 <= i < n ==> #[trigger] counts@[i] == spawn_count(
                    old(emitters)@[i],
                    *caps,
                    dt,
                    room_left(old(emitters)@, *caps, dt, room, i),
                )
            &&& forall|i: int|
                0 <= i < n ==> #[trigger] final(emitters)@[i] == emitter_after(
                    old(emitters)@[i],
                    *caps,
                    dt,
                    counts@[i] as int,
                )
            &&& final(state).active_particles == (if old(state).active_particles < caps.max_total {
                old(state).active_particles as int
            } else {
                caps.max_total as int
            }) + room - room_left(old(emitters)@, *caps, dt, room, n)
        }),
{
    let active: u32 = if state.active_particles < caps.max_total {
        state.active_particles
    } else {
        caps.max_total
    };
    let headroom: u32 = caps.max_total - active;
    let room: i32 = if caps.max_spawn_per_frame > 0x7fff_ffff {
        0
    } else if headroom < caps.max_spawn_per_frame {
        headroom as i32
    } else {
        caps.max_spawn_per_frame as i32
    };
    let mut left: i32 = room;
    let mut counts: Vec<i32> = Vec::new();
    let mut i: usize = 0;
    while i < emitters.len()
        invariant
            i <= emitters@.len(),
            emitters@.len() == old(emitters)@.len(),
            counts@.len() == i,
            0 <= left <= room,
            left == room_left(old(emitters)@, *caps, dt, room as int, i as int),
            forall|j: int| i <= j < emitters@.len() ==> #[trigger] emitters@[j] == old(emitters)@[j],
            forall|j: int|
                0 <= j < i ==> #[trigger] counts@[j] == spawn_count(
                    old(emitters)@[j],
                    *caps,
                    dt,
                    room_left(old(emitters)@, *caps, dt, room as int, j),
                ),
            forall|j: int|
                0 <= j < i ==> #[trigger] emitters@[j] == emitter_after(
                    old(emitters)@[j],
                    *caps,
                    dt,
                    counts@[j] as int,
                ),
        decreases emitters@.len() - i,
    {
        let count: i32 = emitter_step(&mut emitters[i], caps, dt, left);
        counts.push(count);
        left = left - count;
        i = i + 1;
    }
    state.active_particles = active + (room - left) as u32;
    counts
}

/// However many emitters want to spawn, a frame spawns no more than its room, so that the
/// particles never exceed their total.
pub proof fn law_emitters_keep_within_caps<S: Scalar>(
    emitters: Seq<ParticleEmitter<S>>,
    caps: ParticleCaps<S>,
    dt: S,
    active: u32,
    n: int,
)
    requires
        0 <= n <= emitters.len(),
        active <= caps.max_total,
        caps.max_total <= i32::MAX,
    ensures
        ({
            let room = frame_room(caps, active);
            let spawned = room - room_left(emitters, caps, dt, room, n);
            &&& 0 <= spawned <= caps.max_spawn_per_frame
            &&& active + spawned <= caps.max_total
            &&& room_left(emitters, caps, dt, room, n) >= 0
        }),
    decreases n,
{
    if n > 0 {
        law_emitters_keep_within_caps(emitters, caps, dt, active, n - 1);
    }
}

/// What a spawned particle is made of.
pub struct NewParticle<S> {
    pub transform: Transform<S>,
    pub velocity: Vec2<S>,
    pub force: Vec2<S>,
    pub mass: S,
    pub sprite: Sprite<S>,
    pub tint: Vec4<S>,
    pub half: Vec2<S>,
    pub particle: Particle<S>,
    pub visual: ParticleVisual<S>,
    pub trail: Option<ParticleTrail<S>>,
}

/// Whether a particle is one that leaves an emitter in the direction `dir`.
pub open spec fn is_spawned<S: Scalar>(
    r: NewParticle<S>,
    emitter: ParticleEmitter<S>,
    translation: Vec2<S>,
    dir: Vec2<S>,
) -> bool {
    let tiny: S = crate::scalar::ratio_spec(1, 100);
    let size = emitter.start_size.larger_spec(tiny);
    &&& r.transform == (Transform {
        translation: translation.plus_spec(
            dir.scaled_spec(crate::scalar::ratio_spec(5, 100)),
        ),
        rotation: S::zero_spec(),
        scale: Vec2::both(size),
    })
    &&& r.velocity == dir.scaled_spec(emitter.speed)
    &&& r.force == Vec2::<S>::zero_spec()
    &&& r.mass == crate::scalar::ratio_spec::<S>(2, 10)
    &&& r.sprite.atlas_key == emitter.atlas
    &&& r.sprite.region == emitter.region
    &&& r.sprite.region_id == crate::sprite::UNINITIALIZED_REGION
    &&& r.tint == emitter.start_color
    &&& r.half == Vec2::both(
        size.times_spec(crate::scalar::ratio_spec(1, 2)).larger_spec(tiny),
    )
    &&& r.particle == (Particle {
        lifetime: emitter.lifetime,
        max_lifetime: emitter.lifetime,
    })
    &&& r.visual == (ParticleVisual {
        start_color: emitter.start_color,
        end_color: emitter.end_color,
        start_size: emitter.start_size,
        end_size: emitter.end_size,
    })
    &&& r.trail == emitter.trail
}

/// A particle that leaves an emitter in the direction `dir`.
pub fn spawn_particle<S: Scalar>(
    emitter: &ParticleEmitter<S>,
    translation: Vec2<S>,
    dir: Vec2<S>,
) -> (r: NewParticle<S>)
    ensures
        is_spawned(r, *emitter, translation, dir),
        ({
            let tiny: S = crate::scalar::ratio_spec(1, 100);
            let size = emitter.start_size.larger_spec(tiny);
            &&& r.transform == (Transform {
                translation: translation.plus_spec(
                    dir.scaled_spec(crate::scalar::ratio_spec(5, 100)),
                ),
                rotation: S::zero_spec(),
                scale: Vec2::both(size),
            })
            &&& r.velocity == dir.scaled_spec(emitter.speed)
            &&& r.force == Vec2::<S>::zero_spec()
            &&& r.mass == crate::scalar::ratio_spec::<S>(2, 10)
            &&& r.sprite.atlas_key == emitter.atlas
            &&& r.sprite.region == emitter.region
            &&& r.sprite.region_id == crate::sprite::UNINITIALIZED_REGION
            &&& r.tint == emitter.start_color
            &&& r.half == Vec2::both(
                size.times_spec(crate::scalar::ratio_spec(1, 2)).larger_spec(tiny),
            )
            &&& r.particle == (Particle {
                lifetime: emitter.lifetime,
                max_lifetime: emitter.lifetime,
            })
            &&& r.visual == (ParticleVisual {
                start_color: emitter.start_color,
                end_color: emitter.end_color,
                start_size: emitter.start_size,
                end_size: emitter.end_size,
            })
            &&& r.trail == emitter.trail
        }),
{
    let tiny: S = ratio(1, 100);
    let size = emitter.start_size.larger(tiny);
    let extent = size.times(ratio(1, 2)).larger(tiny);
    NewParticle {
        transform: Transform {
            translation: translation.plus(dir.scaled(ratio(5, 100))),
            rotation: S::zero(),
            scale: Vec2 { x: size, y: size },
        },
        velocity: dir.scaled(emitter.speed),
        force: Vec2::zero(),
        mass: ratio(2, 10),
        sprite: Sprite::uninitialized(emitter.atlas.clone(), emitter.region.clone()),
        tint: emitter.start_color,
        half: Vec2 { x: extent, y: extent },
        particle: Particle { lifetime: emitter.lifetime, max_lifetime: emitter.lifetime },
        visual: ParticleVisual {
            start_color: emitter.start_color,
            end_color: emitter.end_color,
            start_size: emitter.start_size,
            end_size: emitter.end_size,
        },
        trail: emitter.trail,
    }
}

#[derive(Clone, Copy, PartialEq, Eq, Structural)]
pub enum ForceFieldKind {
    Radial,
    Directional,
}

/// How a force fades with distance.
#[derive(Clone, Copy, PartialEq, Eq, Structural)]
pub enum ForceFalloff {
    Constant,
    Linear,
}

#[derive(Clone, Copy)]
pub struct ForceField<S> {
    pub kind: ForceFieldKind,
    pub strength: S,
    pub radius: S,
    pub falloff: ForceFalloff,
    pub direction: Vec2<S>,
}

#[derive(Clone, Copy)]
pub struct ParticleAttractor<S> {
    pub strength: S,
    pub radius: S,
    pub min_distance: S,
    pub max_acceleration: S,
    pub falloff: ForceFalloff,
}

/// The share of a force that is left at a distance.
pub open spec fn falloff_at<S: Scalar>(falloff: ForceFalloff, distance: S, radius: S) -> S {
    if falloff is Constant {
        S::one_spec()
    } else if radius.le_spec(S::zero_spec()) {
        S::zero_spec()
    } else {
        crate::scalar::clamped_spec(
            S::one_spec().minus_spec(distance.over_spec(radius)),
            S::zero_spec(),
            S::one_spec(),
        )
    }
}

fn fall_off<S: Scalar>(falloff: ForceFalloff, distance: S, radius: S) -> (r: S)
    ensures
        r == falloff_at(falloff, distance, radius),
{
    match falloff {
        ForceFalloff::Constant => S::one(),
        ForceFalloff::Linear => if radius.le(S::zero()) {
            S::zero()
        } else {
            clamped(S::one().minus(distance.over(radius)), S::zero(), S::one())
        },
    }
}

/// What a force field adds to the acceleration at a place.
pub open spec fn field_push<S: Scalar>(at: Vec2<S>, origin: Vec2<S>, field: ForceField<S>, accel: Vec2<S>) -> Vec2<
    S,
> {
    let away = at.minus_spec(origin);
    let dir = if field.kind is Radial {
        away
    } else {
        field.direction
    };
    let distance = away.length_spec();
    let share = falloff_at(field.falloff, distance, field.radius);
    if field.kind is Radial && dir.dot_spec(dir).le_spec(S::machine_epsilon_spec()) {
        accel
    } else if share.le_spec(S::zero_spec()) && field.kind is Radial && field.radius.lt_spec(
        distance,
    ) {
        accel
    } else {
        accel.plus_spec(dir.unit_or_zero_spec().scaled_spec(field.strength).scaled_spec(share))
    }
}

fn push_by_field<S: Scalar>(at: Vec2<S>, origin: Vec2<S>, field: &ForceField<S>, accel: Vec2<S>) -> (r: Vec2<
    S,
>)
    ensures
        r == field_push(at, origin, *field, accel),
{
    let away = at.minus(origin);
    let radial = matches!(field.kind, ForceFieldKind::Radial);
    let dir = if radial {
        away
    } else {
        field.direction
    };
    if radial && dir.dot(dir).le(S::machine_epsilon()) {
        return accel;
    }
    let distance = away.length();
    let share = fall_off(field.falloff, distance, field.radius);
    if share.le(S::zero()) && radial && field.radius.lt(distance) {
        return accel;
    }
    accel.plus(dir.unit_or_zero().scaled(field.strength).scaled(share))
}

/// What an attractor adds to the acceleration at a place: nothing too near or too far, and no
/// more than its limit.
pub open spec fn attractor_push<S: Scalar>(
    at: Vec2<S>,
    origin: Vec2<S>,
    a: ParticleAttractor<S>,
    accel: Vec2<S>,
) -> Vec2<S> {
    let to_origin = origin.minus_spec(at);
    let dist = to_origin.length_spec();
    let share = falloff_at(a.falloff, dist, a.radius);
    if dist.le_spec(a.min_distance) || a.radius.lt_spec(dist) || share.le_spec(S::zero_spec()) {
        accel
    } else {
        let push = to_origin.over_spec(dist).scaled_spec(a.strength).scaled_spec(share);
        let max = a.max_acceleration;
        if S::zero_spec().lt_spec(max) && max.times_spec(max).lt_spec(push.dot_spec(push)) {
            accel.plus_spec(push.unit_or_zero_spec().scaled_spec(max))
        } else {
            accel.plus_spec(push)
        }
    }
}

fn push_by_attractor<S: Scalar>(
    at: Vec2<S>,
    origin: Vec2<S>,
    a: &ParticleAttractor<S>,
    accel: Vec2<S>,
) -> (r: Vec2<S>)
    ensures
        r == attractor_push(at, origin, *a, accel),
{
    let to_origin = origin.minus(at);
    let dist = to_origin.length();
    if dist.le(a.min_distance) || a.radius.lt(dist) {
        return accel;
    }
    let share = fall_off(a.falloff, dist, a.radius);
    if share.le(S::zero()) {
        return accel;
    }
    let push = to_origin.over(dist).scaled(a.strength).scaled(share);
    let max = a.max_acceleration;
    if S::zero().lt(max) && max.times(max).lt(push.dot(push)) {
        accel.plus(push.unit_or_zero().scaled(max))
    } else {
        accel.plus(push)
    }
}

/// The acceleration that the first `n` fields give at a place.
pub open spec fn fields_accel<S: Scalar>(at: Vec2<S>, fields: Seq<(Vec2<S>, ForceField<S>)>, n: int) -> Vec2<
    S,
>
    decreases n,
{
    if n <= 0 {
        Vec2::zero_spec()
    } else {
        field_push(at, fields[n - 1].0, fields[n - 1].1, fields_accel(at, fields, n - 1))
    }
}

/// The acceleration after the first `n` attractors have added to it.
pub open spec fn attractors_accel<S: Scalar>(
    at: Vec2<S>,
    attractors: Seq<(Vec2<S>, ParticleAttractor<S>)>,
    start: Vec2<S>,
    n: int,
) -> Vec2<S>
    decreases n,
{
    if n <= 0 {
        start
    } else {
        attractor_push(
            at,
            attractors[n - 1].0,
            attractors[n - 1].1,
            attractors_accel(at, attractors, start, n - 1),
        )
    }
}

pub open spec fn total_accel<S: Scalar>(
    at: Vec2<S>,
    fields: Seq<(Vec2<S>, ForceField<S>)>,
    attractors: Seq<(Vec2<S>, ParticleAttractor<S>)>,
) -> Vec2<S> {
    attractors_accel(
        at,
        attractors,
        fields_accel(at, fields, fields.len() as int),
        attractors.len() as int,
    )
}

fn sum_accel<S: Scalar>(
    at: Vec2<S>,
    fields: &Vec<(Vec2<S>, ForceField<S>)>,
    attractors: &Vec<(Vec2<S>, ParticleAttractor<S>)>,
) -> (r: Vec2<S>)
    ensures
        r == total_accel(at, fields@, attractors@),
{
    let mut accel: Vec2<S> = Vec2::zero();
    let mut i: usize = 0;
    while i < fields.len()
        invariant
            i <= fields@.len(),
            accel == fields_accel(at, fields@, i as int),
        decreases fields@.len() - i,
    {
        accel = push_by_field(at, fields[i].0, &fields[i].1, accel);
        i = i + 1;
    }
    let ghost start = accel;
    let mut j: usize = 0;
    while j < attractors.len()
        invariant
            j <= attractors@.len(),
            accel == attractors_accel(at, attractors@, start, j as int),
        decreases attractors@.len() - j,
    {
        accel = push_by_attractor(at, attractors[j].0, &attractors[j].1, accel);
        j = j + 1;
    }
    accel
}

/// A particle with all that a frame changes of it.
pub struct ParticleRow<S> {
    pub entity: Entity,
    pub particle: Particle<S>,
    pub transform: Transform<S>,
    pub velocity: Option<Vec2<S>>,
    pub visual: ParticleVisual<S>,
    pub tint: Vec4<S>,
    pub half: Option<Vec2<S>>,
    pub force: Option<Vec2<S>>,
    pub mass: Option<S>,
    pub trail: Option<ParticleTrail<S>>,
}

impl<S: Scalar> ParticleRow<S> {
    pub open spec fn aged(self, dt: S) -> S {
        self.particle.lifetime.minus_spec(dt)
    }

    /// Whether the particle ends in this frame.
    pub open spec fn expires(self, dt: S) -> bool {
        self.aged(dt).le_spec(S::zero_spec())
    }

    /// How far through its life the particle is.
    pub open spec fn progress(self, dt: S) -> S {
        S::one_spec().minus_spec(
            crate::scalar::clamped_spec(
                self.aged(dt).over_spec(self.particle.max_lifetime),
                S::zero_spec(),
                S::one_spec(),
            ),
        )
    }

    pub open spec fn inverse_mass(self) -> S {
        match self.mass {
            Some(m) => if S::zero_spec().lt_spec(m) {
                S::one_spec().over_spec(m)
            } else {
                S::one_spec()
            },
            None => S::one_spec(),
        }
    }

    /// The velocity after a frame: accelerated, and slowed down a little.
    pub open spec fn velocity_after(self, accel: Vec2<S>, dt: S) -> Option<Vec2<S>> {
        match self.velocity {
            Some(v) => {
                let pushed = if accel.same_spec(Vec2::zero_spec()) {
                    v
                } else {
                    v.plus_spec(accel.scaled_spec(self.inverse_mass()).scaled_spec(dt))
                };
                Some(pushed.scaled_spec(crate::scalar::ratio_spec(98, 100)))
            },
            None => None,
        }
    }

    /// The force that acted: none on a particle that does not move.
    pub open spec fn net_force(self, accel: Vec2<S>) -> Vec2<S> {
        if self.velocity is Some && !accel.same_spec(Vec2::zero_spec()) {
            accel
        } else {
            Vec2::zero_spec()
        }
    }

    pub open spec fn size(self, dt: S) -> S {
        self.visual.start_size.plus_spec(
            self.visual.end_size.minus_spec(self.visual.start_size).times_spec(self.progress(dt)),
        )
    }

    pub open spec fn color(self, dt: S) -> Vec4<S> {
        self.visual.start_color.plus_spec(
            self.visual.end_color.minus_spec(self.visual.start_color).scaled_spec(
                self.progress(dt),
            ),
        )
    }

    /// Width, length and fading of a particle that has this speed and size.
    pub open spec fn stretch(self, speed: S, size: S) -> (S, S, S) {
        let tiny = crate::scalar::ratio_spec(1, 100);
        let width = size.larger_spec(tiny);
        match self.trail {
            Some(t) => (
                width.larger_spec(t.width.larger_spec(tiny)),
                crate::scalar::clamped_spec(
                    speed.times_spec(t.length_scale),
                    t.min_length,
                    t.max_length.larger_spec(t.min_length),
                ).larger_spec(tiny),
                crate::scalar::clamped_spec(t.fade, S::zero_spec(), S::one_spec()),
            ),
            None => (width, width, S::one_spec()),
        }
    }
}

/// The speed that a trail goes by.
pub open spec fn trail_velocity<S: Scalar>(velocity: Option<Vec2<S>>) -> Vec2<S> {
    match velocity {
        Some(v) => v,
        None => Vec2::zero_spec(),
    }
}

/// A particle after a frame it has lived through. `turned` is its rotation: `heading` of its
/// velocity where it has a trail and moves, else as it was.
pub open spec fn particle_after<S: Scalar>(
    p: ParticleRow<S>,
    accel: Vec2<S>,
    dt: S,
    turned: S,
) -> ParticleRow<S> {
    let half = crate::scalar::ratio_spec(1, 2);
    let tiny = crate::scalar::ratio_spec(1, 100);
    let velocity = p.velocity_after(accel, dt);
    let (width, length, fade) = p.stretch(trail_velocity(velocity).length_spec(), p.size(dt));
    let color = p.color(dt);
    ParticleRow {
        particle: Particle { lifetime: p.aged(dt), ..p.particle },
        velocity,
        force: match p.force {
            Some(_) => Some(p.net_force(accel)),
            None => None,
        },
        transform: Transform {
            rotation: turned,
            scale: Vec2 { x: width, y: length },
            ..p.transform
        },
        half: match p.half {
            Some(_) => Some(
                Vec2 {
                    x: width.times_spec(half).larger_spec(tiny),
                    y: length.times_spec(half).larger_spec(tiny),
                },
            ),
            None => None,
        },
        tint: Vec4 { w: color.w.times_spec(fade), ..color },
        ..p
    }
}

/// Whether a particle turns into the direction it moves in.
pub open spec fn turns<S: Scalar>(p: ParticleRow<S>, accel: Vec2<S>, dt: S) -> bool {
    p.trail is Some && S::machine_epsilon_spec().lt_spec(
        trail_velocity(p.velocity_after(accel, dt)).length_spec(),
    )
}

/// What a frame makes of a particle. `heading` gives the rotation of something that moves with a
/// velocity.
pub open spec fn particle_stepped<S: Scalar, H: Fn(Vec2<S>) -> S>(
    p: ParticleRow<S>,
    r: ParticleRow<S>,
    fields: Seq<(Vec2<S>, ForceField<S>)>,
    attractors: Seq<(Vec2<S>, ParticleAttractor<S>)>,
    dt: S,
    heading: H,
) -> bool {
    if p.expires(dt) {
        r == (ParticleRow { particle: Particle { lifetime: p.aged(dt), ..p.particle }, ..p })
    } else {
        let accel = total_accel(p.transform.translation, fields, attractors);
        &&& r == particle_after(p, accel, dt, r.transform.rotation)
        &&& if turns(p, accel, dt) {
            call_ensures(
                heading,
                (trail_velocity(p.velocity_after(accel, dt)),),
                r.transform.rotation,
            )
        } else {
            r.transform.rotation == p.transform.rotation
        }
    }
}

impl<S: Scalar> ParticleRow<S> {
    fn inv_mass(&self) -> (r: S)
        ensures
            r == self.inverse_mass(),
    {
        match self.mass {
            Some(m) => if S::zero().lt(m) {
                S::one().over(m)
            } else {
                S::one()
            },
            None => S::one(),
        }
    }

    /// Moves the velocity on and notes the force that acted.
    fn accelerate(&mut self, accel: Vec2<S>, dt: S)
        ensures
            *final(self) == (ParticleRow {
                velocity: old(self).velocity_after(accel, dt),
                force: match old(self).force {
                    Some(_) => Some(old(self).net_force(accel)),
                    None => None,
                },
                ..*old(self)
            }),
    {
        let still = accel.same(Vec2::zero());
        let moves = self.velocity.is_some();
        let inv_mass = self.inv_mass();
        if let Some(v) = self.velocity {
            let pushed = if still {
                v
            } else {
                v.plus(accel.scaled(inv_mass).scaled(dt))
            };
            self.velocity = Some(pushed.scaled(ratio(98, 100)));
        }
        if self.force.is_some() {
            self.force =
            Some(
                if moves && !still {
                    accel
                } else {
                    Vec2::zero()
                },
            );
        }
    }

    fn extent(&self, speed: S, size: S) -> (r: (S, S, S))
        ensures
            r == self.stretch(speed, size),
    {
        let tiny: S = ratio(1, 100);
        let width = size.larger(tiny);
        match &self.trail {
            Some(t) => (
                width.larger(t.width.larger(tiny)),
                clamped(
                    speed.times(t.length_scale),
                    t.min_length,
                    t.max_length.larger(t.min_length),
                ).larger(tiny),
                clamped(t.fade, S::zero(), S::one()),
            ),
            None => (width, width, S::one()),
        }
    }

    /// The size and the colour that belong to how far through its life the particle is.
    fn looks(&self, lifetime: S) -> (r: (S, Vec4<S>))
        ensures
            forall|dt: S|
                self.aged(dt) == lifetime ==> r == (#[trigger] self.size(dt), self.color(dt)),
    {
        let share = clamped(
            lifetime.over(self.particle.max_lifetime),
            S::zero(),
            S::one(),
        );
        let progress = S::one().minus(share);
        let visual = &self.visual;
        (
            visual.start_size.plus(visual.end_size.minus(visual.start_size).times(progress)),
            visual.start_color.plus(visual.end_color.minus(visual.start_color).scaled(progress)),
        )
    }
}

fn step_particle<S: Scalar, H: Fn(Vec2<S>) -> S>(
    p: &mut ParticleRow<S>,
    fields: &Vec<(Vec2<S>, ForceField<S>)>,
    attractors: &Vec<(Vec2<S>, ParticleAttractor<S>)>,
    dt: S,
    heading: &H,
) -> (alive: bool)
    requires
        forall|v: Vec2<S>| call_requires(*heading, (v,)),
    ensures
        alive == !old(p).expires(dt),
        particle_stepped(*old(p), *final(p), fields@, attractors@, dt, *heading),
{
    let lifetime = p.particle.lifetime.minus(dt);
    let (size, color) = p.looks(lifetime);
    assert(p.aged(dt) == lifetime);
    assert((size, color) == (p.size(dt), p.color(dt)));
    p.particle.lifetime = lifetime;
    if lifetime.le(S::zero()) {
        return false;
    }
    let accel = sum_accel(p.transform.translation, fields, attractors);
    p.accelerate(accel, dt);
    let velocity = match p.velocity {
        Some(v) => v,
        None => Vec2::zero(),
    };
    let speed = velocity.length();
    let (width, length, fade) = p.extent(speed, size);
    if p.trail.is_some() && S::machine_epsilon().lt(speed) {
        p.transform.rotation = heading(velocity);
    }
    p.transform.scale = Vec2 { x: width, y: length };
    if p.half.is_some() {
        let half: S = ratio(1, 2);
        let tiny: S = ratio(1, 100);
        p.half =
        Some(
            Vec2 {
                x: width.times(half).larger(tiny),
                y: length.times(half).larger(tiny),
            },
        );
    }
    p.tint = Vec4 { w: color.w.times(fade), ..color };
    true
}

/// The entities of those of the first `n` particles that end in a frame.
pub open spec fn expired<S: Scalar>(rows: Seq<ParticleRow<S>>, dt: S, n: int) -> Seq<Entity>
    decreases n,
{
    if n <= 0 {
        Seq::empty()
    } else if rows[n - 1].expires(dt) {
        expired(rows, dt, n - 1).push(rows[n - 1].entity)
    } else {
        expired(rows, dt, n - 1)
    }
}

/// Moves every particle on by a frame; says which end in it. The others are what is active.
pub fn update_particles<S: Scalar, H: Fn(Vec2<S>) -> S>(
    rows: &mut Vec<ParticleRow<S>>,
    fields: &Vec<(Vec2<S>, ForceField<S>)>,
    attractors: &Vec<(Vec2<S>, ParticleAttractor<S>)>,
    dt: S,
    state: &mut ParticleState,
    heading: &H,
) -> (ended: Vec<Entity>)
    requires
        forall|v: Vec2<S>| call_requires(*heading, (v,)),
    ensures
        final(rows)@.len() == old(rows)@.len(),
        forall|i: int|
            0 <= i < old(rows)@.len() ==> particle_stepped(
                #[trigger] old(rows)@[i],
                final(rows)@[i],
                fields@,
                attractors@,
                dt,
                *heading,
            ),
        ended@ == expired(old(rows)@, dt, old(rows)@.len() as int),
        final(state).active_particles == (if old(rows)@.len() - ended@.len() > u32::MAX {
            u32::MAX as int
        } else {
            old(rows)@.len() - ended@.len()
        }),
{
    let mut ended: Vec<Entity> = Vec::new();
    let mut active: u32 = 0;
    let mut i: usize = 0;
    while i < rows.len()
        invariant
            i <= rows@.len(),
            rows@.len() == old(rows)@.len(),
            forall|v: Vec2<S>| call_requires(*heading, (v,)),
            forall|j: int| i <= j < rows@.len() ==> #[trigger] rows@[j] == old(rows)@[j],
            forall|j: int|
                0 <= j < i ==> particle_stepped(
                    #[trigger] old(rows)@[j],
                    rows@[j],
                    fields@,
                    attractors@,
                    dt,
                    *heading,
                ),
            ended@ == expired(old(rows)@, dt, i as int),
            ended@.len() <= i,
            active == (if i - ended@.len() > u32::MAX {
                u32::MAX as int
            } else {
                i - ended@.len()
            }),
        decreases rows@.len() - i,
    {
        assert(rows@[i as int] == old(rows)@[i as int]);
        let entity = rows[i].entity;
        if step_particle(&mut rows[i], fields, attractors, dt, heading) {
            active = active.saturating_add(1);
        } else {
            ended.push(entity);
        }
        i = i + 1;
    }
    state.active_particles = active;
    ended
}

} // verus!
