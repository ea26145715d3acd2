//! Finding what a ray or a point hits.
use vstd::prelude::*;
use crate::components::{Transform, Transform3D};
use crate::entity::Entity;
use crate::mesh::MeshBounds;
use crate::motion::{box_covers, extent_or_default};
use crate::scalar::{ratio, Scalar};
use crate::vectors::{Vec2, Vec3};

verus! {

/// How far along a ray a ball is hit: at the nearer side, or at the farther one from inside.
pub open spec fn sphere_hit<S: Scalar>(origin: Vec3<S>, dir: Vec3<S>, center: Vec3<S>, radius: S) -> Option<
    S,
> {
    let zero = S::zero_spec();
    let oc = origin.minus_spec(center);
    let b = oc.dot_spec(dir);
    let c = oc.dot_spec(oc).minus_spec(radius.times_spec(radius));
    let discriminant = b.times_spec(b).minus_spec(c);
    let near = b.negated_spec().minus_spec(discriminant.root_spec());
    let far = b.negated_spec().plus_spec(discriminant.root_spec());
    if discriminant.lt_spec(zero) {
        None
    } else if !near.lt_spec(zero) {
        Some(near)
    } else if !far.lt_spec(zero) {
        Some(far)
    } else {
        None
    }
}

pub fn ray_sphere_intersection<S: Scalar>(
    origin: Vec3<S>,
    dir: Vec3<S>,
    center: Vec3<S>,
    radius: S,
) -> (r: Option<S>)
    ensures
        r == sphere_hit(origin, dir, center, radius),
{
    let zero = S::zero();
    let oc = origin.minus(center);
    let b = oc.dot(dir);
    let c = oc.dot(oc).minus(radius.times(radius));
    let discriminant = b.times(b).minus(c);
    if discriminant.lt(zero) {
        return None;
    }
    let root = discriminant.root();
    let mut t = b.negated().minus(root);
    if t.lt(zero) {
        t = b.negated().plus(root);
    }
    if t.lt(zero) {
        return None;
    }
    Some(t)
}

/// The stretch of a ray within a box, narrowed by one axis; none where it is empty.
pub open spec fn slab<S: Scalar>(span: Option<(S, S)>, o: S, d: S, min: S, max: S) -> Option<(S, S)> {
    match span {
        None => None,
        Some((enter, leave)) => if d.magnitude_spec().lt_spec(
            crate::scalar::ratio_spec(1, 1_000_000),
        ) {
            if o.lt_spec(min) || max.lt_spec(o) {
                None
            } else {
                span
            }
        } else {
            let inv = S::one_spec().over_spec(d);
            let a = min.minus_spec(o).times_spec(inv);
            let b = max.minus_spec(o).times_spec(inv);
            let (first, last) = if b.lt_spec(a) {
                (b, a)
            } else {
                (a, b)
            };
            let from = enter.larger_spec(first);
            let to = leave.smaller_spec(last);
            if to.lt_spec(from) {
                None
            } else {
                Some((from, to))
            }
        },
    }
}

fn narrow<S: Scalar>(span: Option<(S, S)>, o: S, d: S, min: S, max: S) -> (r: Option<(S, S)>)
    ensures
        r == slab(span, o, d, min, max),
{
    match span {
        None => None,
        Some((enter, leave)) => {
            if d.magnitude().lt(ratio(1, 1_000_000)) {
                if o.lt(min) || max.lt(o) {
                    return None;
                }
                return Some((enter, leave));
            }
            let inv = S::one().over(d);
            let a = min.minus(o).times(inv);
            let b = max.minus(o).times(inv);
            let (first, last) = if b.lt(a) {
                (b, a)
            } else {
                (a, b)
            };
            let from = enter.larger(first);
            let to = leave.smaller(last);
            if to.lt(from) {
                None
            } else {
                Some((from, to))
            }
        },
    }
}

/// How far along a ray a box is hit, and where.
pub open spec fn aabb_hit<S: Scalar>(origin: Vec3<S>, dir: Vec3<S>, min: Vec3<S>, max: Vec3<S>) -> Option<
    (S, Vec3<S>),
> {
    let zero = S::zero_spec();
    let whole = Some((zero, S::topmost_spec()));
    let x = slab(whole, origin.x, dir.x, min.x, max.x);
    let y = slab(x, origin.y, dir.y, min.y, max.y);
    match slab(y, origin.z, dir.z, min.z, max.z) {
        None => None,
        Some((enter, leave)) => if leave.lt_spec(zero) {
            None
        } else {
            let t = if zero.le_spec(enter) {
                enter
            } else {
                leave
            };
            Some((t, origin.plus_spec(dir.scaled_spec(t))))
        },
    }
}

pub fn ray_aabb_intersection<S: Scalar>(
    origin: Vec3<S>,
    dir: Vec3<S>,
    min: Vec3<S>,
    max: Vec3<S>,
) -> (r: Option<(S, Vec3<S>)>)
    ensures
        r == aabb_hit(origin, dir, min, max),
{
    let zero = S::zero();
    let x = narrow(Some((zero, S::topmost())), origin.x, dir.x, min.x, max.x);
    let y = narrow(x, origin.y, dir.y, min.y, max.y);
    match narrow(y, origin.z, dir.z, min.z, max.z) {
        None => None,
        Some((enter, leave)) => {
            if leave.lt(zero) {
                return None;
            }
            let t = if zero.le(enter) {
                enter
            } else {
                leave
            };
            Some((t, origin.plus(dir.scaled(t))))
        },
    }
}

/// The scale that a box is picked with: never so small that it cannot be undone; none where it is
/// not finite.
pub fn picking_scale<S: Scalar>(scale: Vec3<S>) -> (r: Option<Vec3<S>>)
    ensures
        ({
            let least = crate::scalar::ratio_spec(1, 10_000);
            r == (if scale.x.finite_spec() && scale.y.finite_spec() && scale.z.finite_spec() {
                Some(
                    Vec3 {
                        x: scale.x.magnitude_spec().larger_spec(least),
                        y: scale.y.magnitude_spec().larger_spec(least),
                        z: scale.z.magnitude_spec().larger_spec(least),
                    },
                )
            } else {
                None
            })
        }),
{
    let least: S = ratio(1, 10_000);
    if scale.x.finite() && scale.y.finite() && scale.z.finite() {
        Some(
            Vec3 {
                x: scale.x.magnitude().larger(least),
                y: scale.y.magnitude().larger(least),
                z: scale.z.magnitude().larger(least),
            },
        )
    } else {
        None
    }
}

/// Where a ray hits a turned box, in the box's own space; the ray is given in that space.
pub open spec fn obb_hit<S: Scalar>(
    origin_local: Vec3<S>,
    dir_local: Vec3<S>,
    bounds: MeshBounds<S>,
) -> Option<Vec3<S>> {
    if dir_local.dot_spec(dir_local).le_spec(S::machine_epsilon_spec()) {
        None
    } else {
        match aabb_hit(origin_local, dir_local.unit_spec(), bounds.min, bounds.max) {
            None => None,
            Some((t, hit)) => if t.lt_spec(S::zero_spec()) {
                None
            } else {
                Some(hit)
            },
        }
    }
}

/// How far from `origin` a ray hits a turned box. The ray is given in the box's own space too, and
/// `to_world` leads from there.
pub fn ray_hit_obb<S: Scalar, P: Fn(Vec3<S>) -> Vec3<S>>(
    origin: Vec3<S>,
    origin_local: Vec3<S>,
    dir_local: Vec3<S>,
    bounds: &MeshBounds<S>,
    to_world: &P,
) -> (r: Option<S>)
    requires
        forall|v: Vec3<S>| call_requires(*to_world, (v,)),
    ensures
        match r {
            Some(distance) => obb_hit(origin_local, dir_local, *bounds) is Some && exists|w: Vec3<S>|
                call_ensures(*to_world, (obb_hit(origin_local, dir_local, *bounds)->0,), w)
                    && distance == (#[trigger] w.minus_spec(origin)).length_spec(),
            None => obb_hit(origin_local, dir_local, *bounds) is None,
        },
{
    if dir_local.dot(dir_local).le(S::machine_epsilon()) {
        return None;
    }
    match ray_aabb_intersection(origin_local, dir_local.unit(), bounds.min, bounds.max) {
        None => None,
        Some((t, hit)) => {
            if t.lt(S::zero()) {
                return None;
            }
            let world = to_world(hit);
            Some(world.minus(origin).length())
        },
    }
}

/// The ball that stands for an entity where its box was not hit.
pub open spec fn picking_ball<S: Scalar>(
    transform3d: Option<Transform3D<S>>,
    transform: Option<Transform<S>>,
    radius: S,
) -> (Vec3<S>, S) {
    match transform3d {
        Some(t) => (
            t.translation,
            radius.times_spec(
                t.scale.x.magnitude_spec().larger_spec(t.scale.y.magnitude_spec()).larger_spec(
                    t.scale.z.magnitude_spec(),
                ).larger_spec(crate::scalar::ratio_spec(1, 10_000)),
            ),
        ),
        None => match transform {
            Some(t) => (
                Vec3 { x: t.translation.x, y: t.translation.y, z: S::zero_spec() },
                radius,
            ),
            None => (Vec3::zero_spec(), radius),
        },
    }
}

pub fn ball_of<S: Scalar>(
    transform3d: Option<Transform3D<S>>,
    transform: Option<Transform<S>>,
    radius: S,
) -> (r: (Vec3<S>, S))
    ensures
        r == picking_ball(transform3d, transform, radius),
{
    match transform3d {
        Some(t) => (
            t.translation,
            radius.times(
                t.scale.x.magnitude().larger(t.scale.y.magnitude()).larger(
                    t.scale.z.magnitude(),
                ).larger(ratio(1, 10_000)),
            ),
        ),
        None => match transform {
            Some(t) => (Vec3 { x: t.translation.x, y: t.translation.y, z: S::zero() }, radius),
            None => (Vec3::zero(), radius),
        },
    }
}

/// An entity that a ray may hit: how far away its box is hit, and the ball that stands for it
/// otherwise.
pub struct PickCandidate<S> {
    pub entity: Entity,
    pub box_distance: Option<S>,
    pub center: Vec3<S>,
    pub radius: S,
}

impl<S: Scalar> PickCandidate<S> {
    pub open spec fn distance(self, origin: Vec3<S>, dir: Vec3<S>) -> Option<S> {
        if self.box_distance is Some {
            self.box_distance
        } else if S::zero_spec().lt_spec(self.radius) {
            sphere_hit(origin, dir, self.center, self.radius)
        } else {
            None
        }
    }

    fn hit(&self, origin: Vec3<S>, dir: Vec3<S>) -> (r: Option<S>)
        ensures
            r == self.distance(origin, dir),
    {
        if self.box_distance.is_some() {
            self.box_distance
        } else if S::zero().lt(self.radius) {
            ray_sphere_intersection(origin, dir, self.center, self.radius)
        } else {
            None
        }
    }
}

/// The nearest hit among the first `n` candidates; of equally near ones the first.
pub open spec fn nearest<S: Scalar>(
    candidates: Seq<PickCandidate<S>>,
    origin: Vec3<S>,
    dir: Vec3<S>,
    n: int,
) -> Option<(Entity, S)>
    decreases n,
{
    if n <= 0 {
        None
    } else {
        let before = nearest(candidates, origin, dir, n - 1);
        match candidates[n - 1].distance(origin, dir) {
            None => before,
            Some(d) => match before {
                Some((_, best)) => if best.le_spec(d) {
                    before
                } else {
                    Some((candidates[n - 1].entity, d))
                },
                None => Some((candidates[n - 1].entity, d)),
            },
        }
    }
}

/// The direction that is picked along; none where there is no direction.
pub fn picking_direction<S: Scalar>(direction: Vec3<S>) -> (r: Option<Vec3<S>>)
    ensures
        ({
            let dir = direction.unit_or_zero_spec();
            r == (if dir.dot_spec(dir).le_spec(S::machine_epsilon_spec()) {
                None
            } else {
                Some(dir)
            })
        }),
{
    let dir = direction.unit_or_zero();
    if dir.dot(dir).le(S::machine_epsilon()) {
        None
    } else {
        Some(dir)
    }
}

/// The entity that a ray hits first.
pub fn pick_entity_3d<S: Scalar>(
    candidates: &Vec<PickCandidate<S>>,
    origin: Vec3<S>,
    dir: Vec3<S>,
) -> (r: Option<Entity>)
    ensures
        r == (match nearest(candidates@, origin, dir, candidates@.len() as int) {
            Some((entity, _)) => Some(entity),
            None => None,
        }),
{
    let mut closest: Option<(Entity, S)> = None;
    let mut i: usize = 0;
    while i < candidates.len()
        invariant
            i <= candidates@.len(),
            closest == nearest(candidates@, origin, dir, i as int),
        decreases candidates@.len() - i,
    {
        if let Some(d) = candidates[i].hit(origin, dir) {
            let keep = match closest {
                Some((_, best)) => best.le(d),
                None => false,
            };
            if !keep {
                closest = Some((candidates[i].entity, d));
            }
        }
        i = i + 1;
    }
    match closest {
        Some((entity, _)) => Some(entity),
        None => None,
    }
}

/// An entity in the plane with its middle and, where it has one, its extent.
pub struct PickBox<S> {
    pub entity: Entity,
    pub center: Vec2<S>,
    pub half: Option<Vec2<S>>,
}

impl<S: Scalar> PickBox<S> {
    pub open spec fn holds(self, at: Vec2<S>) -> bool {
        crate::motion::covers(self.center, crate::motion::half_or_default(self.half), at)
    }
}

/// The first entity whose box holds a place.
pub fn pick_entity<S: Scalar>(boxes: &Vec<PickBox<S>>, at: Vec2<S>) -> (r: Option<Entity>)
    ensures
        match r {
            Some(entity) => exists|i: int|
                0 <= i < boxes@.len() && (#[trigger] boxes@[i]).holds(at) && boxes@[i].entity
                    == entity && forall|j: int| 0 <= j < i ==> !(#[trigger] boxes@[j]).holds(at),
            None => forall|i: int| 0 <= i < boxes@.len() ==> !(#[trigger] boxes@[i]).holds(at),
        },
{
    let mut i: usize = 0;
    while i < boxes.len()
        invariant
            i <= boxes@.len(),
            forall|j: int| 0 <= j < i ==> !(#[trigger] boxes@[j]).holds(at),
        decreases boxes@.len() - i,
    {
        if box_covers(boxes[i].center, extent_or_default(boxes[i].half), at) {
            assert(boxes@[i as int].holds(at));
            return Some(boxes[i].entity);
        }
        i = i + 1;
    }
    None
}

} // verus!
