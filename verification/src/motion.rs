//! How entities move in the plane.
use vstd::prelude::*;
use crate::components::{OrbitController, Transform};
use crate::scalar::{ratio, Scalar};
use crate::vectors::{Vec2, Vec3};

verus! {

#[derive(Clone, Copy)]
pub struct PhysicsParams<S> {
    pub gravity: Vec2<S>,
    pub linear_damping: S,
}

/// The part of the plane that entities are kept in.
#[derive(Clone, Copy)]
pub struct WorldBounds<S> {
    pub min: Vec2<S>,
    pub max: Vec2<S>,
    pub thickness: S,
}

/// A wall: its middle and half its extent.
#[derive(Clone, Copy)]
pub struct Wall<S> {
    pub center: Vec2<S>,
    pub half: Vec2<S>,
}

impl<S: Scalar> WorldBounds<S> {
    /// Half the extent of the walls below and above.
    pub open spec fn level_half(self) -> Vec2<S> {
        Vec2 {
            x: self.max.x.minus_spec(self.min.x).times_spec(
                crate::scalar::ratio_spec(1, 2),
            ).plus_spec(self.thickness),
            y: self.thickness,
        }
    }

    /// Half the extent of the walls left and right.
    pub open spec fn upright_half(self) -> Vec2<S> {
        Vec2 {
            x: self.thickness,
            y: self.max.y.minus_spec(self.min.y).times_spec(
                crate::scalar::ratio_spec(1, 2),
            ).plus_spec(self.thickness),
        }
    }

    /// The walls below, above, left and right.
    pub open spec fn walls_of(self) -> Seq<Wall<S>> {
        let zero = S::zero_spec();
        let t = self.thickness;
        seq![
            Wall {
                center: Vec2 { x: zero, y: self.min.y.minus_spec(t) },
                half: self.level_half(),
            },
            Wall {
                center: Vec2 { x: zero, y: self.max.y.plus_spec(t) },
                half: self.level_half(),
            },
            Wall {
                center: Vec2 { x: self.min.x.minus_spec(t), y: zero },
                half: self.upright_half(),
            },
            Wall {
                center: Vec2 { x: self.max.x.plus_spec(t), y: zero },
                half: self.upright_half(),
            },
        ]
    }

    /// The four walls around the bounds: below, above, left and right.
    pub fn walls(&self) -> (r: Vec<Wall<S>>)
        ensures
            r@ =~= self.walls_of(),
            ({
                let zero = S::zero_spec();
                let t = self.thickness;
                r@ =~= seq![
                    Wall {
                        center: Vec2 { x: zero, y: self.min.y.minus_spec(t) },
                        half: self.level_half(),
                    },
                    Wall {
                        center: Vec2 { x: zero, y: self.max.y.plus_spec(t) },
                        half: self.level_half(),
                    },
                    Wall {
                        center: Vec2 { x: self.min.x.minus_spec(t), y: zero },
                        half: self.upright_half(),
                    },
                    Wall {
                        center: Vec2 { x: self.max.x.plus_spec(t), y: zero },
                        half: self.upright_half(),
                    },
                ]
            }),
    {
        let zero = S::zero();
        let t = self.thickness;
        let level = Vec2 {
            x: self.max.x.minus(self.min.x).times(ratio(1, 2)).plus(t),
            y: t,
        };
        let upright = Vec2 {
            x: t,
            y: self.max.y.minus(self.min.y).times(ratio(1, 2)).plus(t),
        };
        let mut walls: Vec<Wall<S>> = Vec::new();
        walls.push(Wall { center: Vec2 { x: zero, y: self.min.y.minus(t) }, half: level });
        walls.push(Wall { center: Vec2 { x: zero, y: self.max.y.plus(t) }, half: level });
        walls.push(Wall { center: Vec2 { x: self.min.x.minus(t), y: zero }, half: upright });
        walls.push(Wall { center: Vec2 { x: self.max.x.plus(t), y: zero }, half: upright });
        walls
    }
}

/// A transform that has turned for a while.
pub open spec fn spun<S: Scalar>(t: Transform<S>, speed: S, dt: S) -> Transform<S> {
    Transform { rotation: t.rotation.plus_spec(speed.times_spec(dt)), ..t }
}

pub fn apply_spin<S: Scalar>(transform: &mut Transform<S>, speed: S, dt: S)
    ensures
        *final(transform) == spun(*old(transform), speed, dt),
        *final(transform) == (Transform {
            rotation: old(transform).rotation.plus_spec(speed.times_spec(dt)),
            ..*old(transform)
        }),
{
    transform.rotation = transform.rotation.plus(speed.times(dt));
}

/// The velocity after a frame under a force: accelerated, and damped.
pub open spec fn solved_velocity<S: Scalar>(
    velocity: Vec2<S>,
    force: Vec2<S>,
    mass: S,
    params: PhysicsParams<S>,
    dt: S,
) -> Vec2<S> {
    let accel = force.over_spec(mass).plus_spec(params.gravity);
    let one = S::one_spec();
    velocity.plus_spec(accel.scaled_spec(dt)).scaled_spec(
        one.over_spec(one.plus_spec(params.linear_damping.times_spec(dt))),
    )
}

/// Turns the force that gathered into velocity; nothing without a mass.
pub fn solve_forces<S: Scalar>(
    velocity: &mut Vec2<S>,
    force: &mut Vec2<S>,
    mass: S,
    params: &PhysicsParams<S>,
    dt: S,
)
    ensures
        ({
            let moves = !mass.le_spec(S::zero_spec());
            &&& *final(velocity) == (if moves {
                solved_velocity(*old(velocity), *old(force), mass, *params, dt)
            } else {
                *old(velocity)
            })
            &&& *final(force) == (if moves {
                Vec2::zero_spec()
            } else {
                *old(force)
            })
        }),
{
    if mass.le(S::zero()) {
        return ;
    }
    let accel = force.over(mass).plus(params.gravity);
    let one = S::one();
    *velocity =
    velocity.plus(accel.scaled(dt)).scaled(one.over(one.plus(params.linear_damping.times(dt))));
    *force = Vec2::zero();
}

/// A transform that has moved for a while.
pub open spec fn moved_on<S: Scalar>(t: Transform<S>, velocity: Vec2<S>, dt: S) -> Transform<S> {
    Transform { translation: t.translation.plus_spec(velocity.scaled_spec(dt)), ..t }
}

pub fn integrate_position<S: Scalar>(transform: &mut Transform<S>, velocity: Vec2<S>, dt: S)
    ensures
        *final(transform) == moved_on(*old(transform), velocity, dt),
        *final(transform) == (Transform {
            translation: old(transform).translation.plus_spec(velocity.scaled_spec(dt)),
            ..*old(transform)
        }),
{
    transform.translation = transform.translation.plus(velocity.scaled(dt));
}

/// The velocity on an orbit; none in the centre.
pub open spec fn orbital<S: Scalar>(translation: Vec2<S>, orbit: OrbitController<S>) -> Option<
    Vec2<S>,
> {
    let offset = translation.minus_spec(orbit.center);
    if offset.dot_spec(offset).le_spec(S::machine_epsilon_spec()) {
        None
    } else {
        Some(
            Vec2 {
                x: offset.y.negated_spec().times_spec(orbit.angular_speed),
                y: offset.x.times_spec(orbit.angular_speed),
            },
        )
    }
}

/// The velocity that keeps something on its orbit; none in the centre.
pub fn orbit_velocity<S: Scalar>(translation: Vec2<S>, orbit: &OrbitController<S>) -> (r: Option<
    Vec2<S>,
>)
    ensures
        r == orbital(translation, *orbit),
        ({
            let offset = translation.minus_spec(orbit.center);
            r == (if offset.dot_spec(offset).le_spec(S::machine_epsilon_spec()) {
                None
            } else {
                Some(
                    Vec2 { x: offset.y.negated_spec(), y: offset.x }.scaled_spec(
                        orbit.angular_speed,
                    ),
                )
            })
        }),
{
    let offset = translation.minus(orbit.center);
    if offset.dot(offset).le(S::machine_epsilon()) {
        return None;
    }
    Some(Vec2 { x: offset.y.negated(), y: offset.x }.scaled(orbit.angular_speed))
}

/// The extent of something that has none of its own.
pub open spec fn half_or_default<S: Scalar>(half: Option<Vec2<S>>) -> Vec2<S> {
    match half {
        Some(h) => h,
        None => Vec2::both(crate::scalar::ratio_spec(1, 4)),
    }
}

pub fn extent_or_default<S: Scalar>(half: Option<Vec2<S>>) -> (r: Vec2<S>)
    ensures
        r == half_or_default(half),
{
    match half {
        Some(h) => h,
        None => {
            let quarter: S = ratio(1, 4);
            Vec2 { x: quarter, y: quarter }
        },
    }
}

/// Place and velocity along one axis after bouncing off both ends, the lower one first.
pub open spec fn bounced<S: Scalar>(at: S, v: S, half: S, low: S, high: S) -> (S, S) {
    let (at1, v1) = if at.minus_spec(half).lt_spec(low) {
        (low.plus_spec(half), v.magnitude_spec())
    } else {
        (at, v)
    };
    if high.lt_spec(at1.plus_spec(half)) {
        (high.minus_spec(half), v1.magnitude_spec().negated_spec())
    } else {
        (at1, v1)
    }
}

fn bounce_axis<S: Scalar>(at: S, v: S, half: S, low: S, high: S) -> (r: (S, S))
    ensures
        r == bounced(at, v, half, low, high),
{
    let mut place = at;
    let mut speed = v;
    if place.minus(half).lt(low) {
        place = low.plus(half);
        speed = speed.magnitude();
    }
    if high.lt(place.plus(half)) {
        place = high.minus(half);
        speed = speed.magnitude().negated();
    }
    (place, speed)
}

/// Keeps something within the bounds and turns its velocity back inside.
pub fn bounce<S: Scalar>(
    translation: &mut Vec2<S>,
    velocity: &mut Vec2<S>,
    half: Option<Vec2<S>>,
    bounds: &WorldBounds<S>,
)
    ensures
        ({
            let h = half_or_default(half);
            let x = bounced(old(translation).x, old(velocity).x, h.x, bounds.min.x, bounds.max.x);
            let y = bounced(old(translation).y, old(velocity).y, h.y, bounds.min.y, bounds.max.y);
            *final(translation) == (Vec2 { x: x.0, y: y.0 }) && *final(velocity) == (Vec2 {
                x: x.1,
                y: y.1,
            })
        }),
{
    let h = extent_or_default(half);
    let (x, vx) = bounce_axis(translation.x, velocity.x, h.x, bounds.min.x, bounds.max.x);
    let (y, vy) = bounce_axis(translation.y, velocity.y, h.y, bounds.min.y, bounds.max.y);
    *translation = Vec2 { x, y };
    *velocity = Vec2 { x: vx, y: vy };
}

/// The lower and the upper corner of a box around a middle.
pub fn corners_around<S: Scalar>(center: Vec2<S>, half: Vec2<S>) -> (r: (Vec2<S>, Vec2<S>))
    ensures
        r == (center.minus_spec(half), center.plus_spec(half)),
{
    (center.minus(half), center.plus(half))
}

/// Whether a place lies in the box around a middle.
pub open spec fn covers<S: Scalar>(center: Vec2<S>, half: Vec2<S>, at: Vec2<S>) -> bool {
    at.x.minus_spec(center.x).magnitude_spec().le_spec(half.x) && at.y.minus_spec(
        center.y,
    ).magnitude_spec().le_spec(half.y)
}

pub fn box_covers<S: Scalar>(center: Vec2<S>, half: Vec2<S>, at: Vec2<S>) -> (r: bool)
    ensures
        r == covers(center, half, at),
{
    at.x.minus(center.x).magnitude().le(half.x) && at.y.minus(center.y).magnitude().le(half.y)
}

/// What a new scale makes of a body.
#[derive(Clone, Copy)]
pub struct Rescaled<S> {
    pub half: Vec2<S>,
    pub mass: Option<S>,
}

pub open spec fn box_area<S: Scalar>(half: Vec2<S>) -> S {
    let tiny = crate::scalar::ratio_spec(1, 100);
    let two = S::from_count_spec(2);
    half.x.larger_spec(tiny).times_spec(two).times_spec(half.y.larger_spec(tiny).times_spec(two))
}

fn area<S: Scalar>(half: Vec2<S>) -> (r: S)
    ensures
        r == box_area(half),
{
    let tiny: S = ratio(1, 100);
    let two = S::from_count(2);
    half.x.larger(tiny).times(two).times(half.y.larger(tiny).times(two))
}

pub open spec fn rescaled_half<S: Scalar>(scale: Vec2<S>) -> Vec2<S> {
    Vec2 { x: scale.x.magnitude_spec(), y: scale.y.magnitude_spec() }.scaled_spec(
        crate::scalar::ratio_spec(1, 2),
    )
}

/// The mass of a box that had another extent.
pub open spec fn mass_in_proportion<S: Scalar>(mass: S, now: S, before: S) -> S {
    mass.times_spec(now.over_spec(before)).larger_spec(crate::scalar::ratio_spec(1, 100))
}

/// The extent, and the mass in proportion to the area, that a new scale gives; none where the
/// scale is zero in one direction.
pub fn rescale<S: Scalar>(scale: Vec2<S>, previous_half: Option<Vec2<S>>, mass: Option<S>) -> (r: Option<
    Rescaled<S>,
>)
    ensures
        r is Some && r->0.mass is Some ==> previous_half is Some ==> r->0.mass->0
            == mass_in_proportion(mass->0, box_area(r->0.half), box_area(previous_half->0)),
        ({
            let epsilon = S::machine_epsilon_spec();
            let half = rescaled_half(scale);
            let before = box_area(
                match previous_half {
                    Some(h) => h,
                    None => half,
                },
            );
            r == (if scale.x.magnitude_spec().lt_spec(epsilon) || scale.y.magnitude_spec().lt_spec(
                epsilon,
            ) {
                None
            } else {
                Some(
                    Rescaled {
                        half,
                        mass: if mass is Some && S::zero_spec().lt_spec(before) {
                            Some(
                                mass->0.times_spec(box_area(half).over_spec(before)).larger_spec(
                                    crate::scalar::ratio_spec(1, 100),
                                ),
                            )
                        } else {
                            None
                        },
                    },
                )
            })
        }),
{
    let epsilon = S::machine_epsilon();
    if scale.x.magnitude().lt(epsilon) || scale.y.magnitude().lt(epsilon) {
        return None;
    }
    let half = Vec2 { x: scale.x.magnitude(), y: scale.y.magnitude() }.scaled(ratio(1, 2));
    let before = area(
        match previous_half {
            Some(h) => h,
            None => half,
        },
    );
    let now = area(half);
    let mass = match mass {
        Some(m) => if S::zero().lt(before) {
            Some(m.times(now.over(before)).larger(ratio(1, 100)))
        } else {
            None
        },
        None => None,
    };
    Some(Rescaled { half, mass })
}

/// The plane transform follows a mesh that was moved.
pub fn follow_translation<S: Scalar>(transform: &mut Transform<S>, translation: Vec3<S>)
    ensures
        *final(transform) == (Transform {
            translation: Vec2 { x: translation.x, y: translation.y },
            ..*old(transform)
        }),
{
    transform.translation = Vec2 { x: translation.x, y: translation.y };
}

/// The plane transform follows a mesh that was scaled.
pub fn follow_scale<S: Scalar>(transform: &mut Transform<S>, scale: Vec3<S>)
    ensures
        *final(transform) == (Transform {
            scale: Vec2 { x: scale.x, y: scale.y },
            ..*old(transform)
        }),
{
    transform.scale = Vec2 { x: scale.x, y: scale.y };
}

} // verus!
