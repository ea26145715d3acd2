//! Cameras that circle a point or fly freely.
use vstd::prelude::*;
use crate::scalar::{clamped, clamped_spec, ratio, ratio_spec, Fixed, Scalar};
use crate::vectors::{Vec2, Vec3};

verus! {

#[derive(Clone, Copy)]
pub struct Camera3D<S> {
    pub position: Vec3<S>,
    pub target: Vec3<S>,
    pub up: Vec3<S>,
    pub fov_y_radians: S,
    pub near: S,
    pub far: S,
}

/// A camera that circles a point.
#[derive(Clone, Copy)]
pub struct OrbitCamera<S> {
    pub target: Vec3<S>,
    pub radius: S,
    pub yaw_radians: S,
    pub pitch_radians: S,
}

/// A camera that flies freely.
#[derive(Clone, Copy)]
pub struct FreeflyController<S> {
    pub position: Vec3<S>,
    pub yaw: S,
    pub pitch: S,
    pub roll: S,
}

/// Where a camera looks, to its right, and up.
#[derive(Clone, Copy)]
pub struct Axes<S> {
    pub forward: Vec3<S>,
    pub right: Vec3<S>,
    pub up: Vec3<S>,
}

/// How cameras turn.
pub trait CameraRig<S: Scalar>: Sized {
    /// The angle of a direction on the ground.
    spec fn turn_spec(x: S, z: S) -> S;

    /// The angle at which a direction of length one rises.
    spec fn rise_spec(y: S) -> S;

    /// The steepest angle at which a camera looks up or down.
    spec fn steepest_spec() -> S;

    spec fn half_turn_spec() -> S;

    spec fn view_angle_spec() -> S;

    /// `e` to the power of a number.
    spec fn grown_spec(x: S) -> S;

    spec fn axes_spec(yaw: S, pitch: S, roll: S) -> Axes<S>;

    /// A camera that circles a point, before it was turned.
    spec fn fresh_orbit_spec(target: Vec3<S>, radius: S) -> OrbitCamera<S>;

    spec fn orbited_spec(orbit: OrbitCamera<S>, delta: Vec2<S>) -> OrbitCamera<S>;

    spec fn zoomed_spec(orbit: OrbitCamera<S>, factor: S) -> OrbitCamera<S>;

    spec fn orbit_camera_spec(orbit: OrbitCamera<S>) -> Camera3D<S>;

    fn turn(x: S, z: S) -> (r: S)
        ensures
            r == Self::turn_spec(x, z),
    ;

    fn rise(y: S) -> (r: S)
        ensures
            r == Self::rise_spec(y),
    ;

    fn steepest() -> (r: S)
        ensures
            r == Self::steepest_spec(),
    ;

    fn half_turn() -> (r: S)
        ensures
            r == Self::half_turn_spec(),
    ;

    fn view_angle() -> (r: S)
        ensures
            r == Self::view_angle_spec(),
    ;

    fn grown(x: S) -> (r: S)
        ensures
            r == Self::grown_spec(x),
    ;

    fn axes(yaw: S, pitch: S, roll: S) -> (r: Axes<S>)
        ensures
            r == Self::axes_spec(yaw, pitch, roll),
    ;

    fn fresh_orbit(target: Vec3<S>, radius: S) -> (r: OrbitCamera<S>)
        ensures
            r == Self::fresh_orbit_spec(target, radius),
    ;

    fn orbited(orbit: OrbitCamera<S>, delta: Vec2<S>) -> (r: OrbitCamera<S>)
        ensures
            r == Self::orbited_spec(orbit, delta),
    ;

    fn zoomed(orbit: OrbitCamera<S>, factor: S) -> (r: OrbitCamera<S>)
        ensures
            r == Self::zoomed_spec(orbit, factor),
    ;

    fn orbit_camera(orbit: OrbitCamera<S>) -> (r: Camera3D<S>)
        ensures
            r == Self::orbit_camera_spec(orbit),
    ;
}

/// A rig for small angles, which are their own sines and whose cosines are one.
pub struct SmallAngles;

impl CameraRig<Fixed> for SmallAngles {
    open spec fn turn_spec(x: Fixed, z: Fixed) -> Fixed {
        x.over_spec(z)
    }

    open spec fn rise_spec(y: Fixed) -> Fixed {
        y
    }

    open spec fn steepest_spec() -> Fixed {
        ratio_spec(1, 2)
    }

    open spec fn half_turn_spec() -> Fixed {
        ratio_spec(22, 7)
    }

    open spec fn view_angle_spec() -> Fixed {
        Fixed::one_spec()
    }

    open spec fn grown_spec(x: Fixed) -> Fixed {
        Fixed::one_spec().plus_spec(x)
    }

    open spec fn axes_spec(yaw: Fixed, pitch: Fixed, roll: Fixed) -> Axes<Fixed> {
        Axes {
            forward: Vec3 { x: yaw.negated_spec(), y: pitch, z: Fixed::one_spec().negated_spec() },
            right: Vec3 { x: Fixed::one_spec(), y: roll, z: yaw.negated_spec() },
            up: Vec3 { x: roll.negated_spec(), y: Fixed::one_spec(), z: pitch },
        }
    }

    open spec fn fresh_orbit_spec(target: Vec3<Fixed>, radius: Fixed) -> OrbitCamera<Fixed> {
        OrbitCamera {
            target,
            radius,
            yaw_radians: Fixed::zero_spec(),
            pitch_radians: Fixed::zero_spec(),
        }
    }

    open spec fn orbited_spec(orbit: OrbitCamera<Fixed>, delta: Vec2<Fixed>) -> OrbitCamera<Fixed> {
        OrbitCamera {
            yaw_radians: orbit.yaw_radians.plus_spec(delta.x),
            pitch_radians: clamped_spec(
                orbit.pitch_radians.plus_spec(delta.y),
                Self::steepest_spec().negated_spec(),
                Self::steepest_spec(),
            ),
            ..orbit
        }
    }

    open spec fn zoomed_spec(orbit: OrbitCamera<Fixed>, factor: Fixed) -> OrbitCamera<Fixed> {
        OrbitCamera { radius: orbit.radius.times_spec(factor), ..orbit }
    }

    open spec fn orbit_camera_spec(orbit: OrbitCamera<Fixed>) -> Camera3D<Fixed> {
        Camera3D {
            position: orbit.target.plus_spec(
                (Vec3 {
                    x: orbit.yaw_radians,
                    y: orbit.pitch_radians,
                    z: Fixed::one_spec(),
                }).scaled_spec(orbit.radius),
            ),
            target: orbit.target,
            up: Vec3 { x: Fixed::zero_spec(), y: Fixed::one_spec(), z: Fixed::zero_spec() },
            fov_y_radians: Self::view_angle_spec(),
            near: ratio_spec(1, 10),
            far: Fixed::from_count_spec(100),
        }
    }

    fn turn(x: Fixed, z: Fixed) -> (r: Fixed) {
        x.over(z)
    }

    fn rise(y: Fixed) -> (r: Fixed) {
        y
    }

    fn steepest() -> (r: Fixed) {
        ratio(1, 2)
    }

    fn half_turn() -> (r: Fixed) {
        ratio(22, 7)
    }

    fn view_angle() -> (r: Fixed) {
        Fixed::one()
    }

    fn grown(x: Fixed) -> (r: Fixed) {
        Fixed::one().plus(x)
    }

    fn axes(yaw: Fixed, pitch: Fixed, roll: Fixed) -> (r: Axes<Fixed>) {
        Axes {
            forward: Vec3 { x: yaw.negated(), y: pitch, z: Fixed::one().negated() },
            right: Vec3 { x: Fixed::one(), y: roll, z: yaw.negated() },
            up: Vec3 { x: roll.negated(), y: Fixed::one(), z: pitch },
        }
    }

    fn fresh_orbit(target: Vec3<Fixed>, radius: Fixed) -> (r: OrbitCamera<Fixed>) {
        OrbitCamera {
            target,
            radius,
            yaw_radians: Fixed::zero(),
            pitch_radians: Fixed::zero(),
        }
    }

    fn orbited(orbit: OrbitCamera<Fixed>, delta: Vec2<Fixed>) -> (r: OrbitCamera<Fixed>) {
        OrbitCamera {
            yaw_radians: orbit.yaw_radians.plus(delta.x),
            pitch_radians: clamped(
                orbit.pitch_radians.plus(delta.y),
                Self::steepest().negated(),
                Self::steepest(),
            ),
            target: orbit.target,
            radius: orbit.radius,
        }
    }

    fn zoomed(orbit: OrbitCamera<Fixed>, factor: Fixed) -> (r: OrbitCamera<Fixed>) {
        OrbitCamera {
            radius: orbit.radius.times(factor),
            target: orbit.target,
            yaw_radians: orbit.yaw_radians,
            pitch_radians: orbit.pitch_radians,
        }
    }

    fn orbit_camera(orbit: OrbitCamera<Fixed>) -> (r: Camera3D<Fixed>) {
        let away = Vec3 { x: orbit.yaw_radians, y: orbit.pitch_radians, z: Fixed::one() };
        Camera3D {
            position: orbit.target.plus(away.scaled(orbit.radius)),
            target: orbit.target,
            up: Vec3 { x: Fixed::zero(), y: Fixed::one(), z: Fixed::zero() },
            fov_y_radians: Self::view_angle(),
            near: ratio(1, 10),
            far: Fixed::from_count(100),
        }
    }
}

/// An angle held between the steepest ways down and up.
pub open spec fn held_pitch<S: Scalar, R: CameraRig<S>>(x: S) -> S {
    clamped_spec(x, R::steepest_spec().negated_spec(), R::steepest_spec())
}

pub fn hold_pitch<S: Scalar, R: CameraRig<S>>(x: S) -> (r: S)
    ensures
        r == held_pitch::<S, R>(x),
{
    clamped(x, R::steepest().negated(), R::steepest())
}

impl<S: Scalar> FreeflyController<S> {
    pub open spec fn resting() -> Self {
        FreeflyController {
            position: Vec3::zero_spec(),
            yaw: S::zero_spec(),
            pitch: S::zero_spec(),
            roll: S::zero_spec(),
        }
    }

    /// Where it looks as a camera does.
    pub open spec fn looking_as<R: CameraRig<S>>(camera: Camera3D<S>) -> Self {
        let forward = camera.target.minus_spec(camera.position).unit_or_zero_spec();
        FreeflyController {
            position: camera.position,
            yaw: R::turn_spec(forward.x, forward.z),
            pitch: held_pitch::<S, R>(R::rise_spec(forward.y)),
            roll: S::zero_spec(),
        }
    }

    pub fn from_camera<R: CameraRig<S>>(camera: Camera3D<S>) -> (r: Self)
        ensures
            r == Self::looking_as::<R>(camera),
    {
        let forward = camera.target.minus(camera.position).unit_or_zero();
        FreeflyController {
            position: camera.position,
            yaw: R::turn(forward.x, forward.z),
            pitch: hold_pitch::<S, R>(R::rise(forward.y)),
            roll: S::zero(),
        }
    }

    pub open spec fn axes_of<R: CameraRig<S>>(self) -> Axes<S> {
        R::axes_spec(self.yaw, self.pitch, self.roll)
    }

    /// The camera that looks as it does; up is up where it has no up of its own.
    pub open spec fn camera_of<R: CameraRig<S>>(self) -> Camera3D<S> {
        let axes = self.axes_of::<R>();
        let up = axes.up.unit_or_zero_spec();
        Camera3D {
            position: self.position,
            target: self.position.plus_spec(axes.forward),
            up: if S::zero_spec().lt_spec(up.dot_spec(up)) {
                up
            } else {
                Vec3 { x: S::zero_spec(), y: S::one_spec(), z: S::zero_spec() }
            },
            fov_y_radians: R::view_angle_spec(),
            near: ratio_spec(1, 10),
            far: S::from_count_spec(100),
        }
    }

    pub fn to_camera<R: CameraRig<S>>(self) -> (r: Camera3D<S>)
        ensures
            r == self.camera_of::<R>(),
    {
        let axes = R::axes(self.yaw, self.pitch, self.roll);
        let up = axes.up.unit_or_zero();
        Camera3D {
            position: self.position,
            target: self.position.plus(axes.forward),
            up: if S::zero().lt(up.dot(up)) {
                up
            } else {
                Vec3 { x: S::zero(), y: S::one(), z: S::zero() }
            },
            fov_y_radians: R::view_angle(),
            near: ratio(1, 10),
            far: S::from_count(100),
        }
    }
}

impl<S: Scalar> Default for FreeflyController<S> {
    fn default() -> (r: Self)
        ensures
            r == Self::resting(),
    {
        FreeflyController {
            position: Vec3::zero(),
            yaw: S::zero(),
            pitch: S::zero(),
            roll: S::zero(),
        }
    }
}

/// A number after `n` steps down.
pub open spec fn lowered<S: Scalar>(x: S, step: S, n: nat) -> S
    decreases n,
{
    if n == 0 {
        x
    } else {
        lowered(x, step, (n - 1) as nat).minus_spec(step)
    }
}

/// A number after `n` steps up.
pub open spec fn raised<S: Scalar>(x: S, step: S, n: nat) -> S
    decreases n,
{
    if n == 0 {
        x
    } else {
        raised(x, step, (n - 1) as nat).plus_spec(step)
    }
}

pub open spec fn full_turn<S: Scalar>(half: S) -> S {
    S::from_count_spec(2).times_spec(half)
}

/// Whether an angle is no more than half a turn after `n` turns back, and no less after `m` turns
/// on from there, and before neither.
pub open spec fn wraps_in<S: Scalar>(x: S, half: S, n: nat, m: nat) -> bool {
    let step = full_turn(half);
    let y = lowered(x, step, n);
    &&& forall|k: nat| k < n ==> half.lt_spec(#[trigger] lowered(x, step, k))
    &&& !half.lt_spec(y)
    &&& forall|k: nat| k < m ==> (#[trigger] raised(y, step, k)).lt_spec(half.negated_spec())
    &&& !raised(y, step, m).lt_spec(half.negated_spec())
}

/// Whether an angle can be brought within half a turn at all.
pub open spec fn wraps<S: Scalar>(x: S, half: S) -> bool {
    exists|n: nat, m: nat| wraps_in(x, half, n, m)
}

/// How often an angle is turned back and on.
pub open spec fn wrap_counts<S: Scalar>(x: S, half: S) -> (nat, nat) {
    choose|n: nat, m: nat| wraps_in(x, half, n, m)
}

/// An angle brought within half a turn by whole turns.
pub open spec fn wrapped<S: Scalar>(x: S, half: S) -> S {
    let (n, m) = wrap_counts(x, half);
    raised(lowered(x, full_turn(half), n), full_turn(half), m)
}

/// An angle that is brought within half a turn is not below it, nor above it where it came from
/// above; and one that is within it stays.
pub proof fn law_wrapped_angle_is_within<S: Scalar>(x: S, half: S)
    requires
        wraps(x, half),
    ensures
        !wrapped(x, half).lt_spec(half.negated_spec()),
        wrap_counts(x, half).1 == 0 ==> !half.lt_spec(wrapped(x, half)),
        !half.lt_spec(x) && !x.lt_spec(half.negated_spec()) ==> wrapped(x, half) == x,
{
    let (n, m) = wrap_counts(x, half);
    assert(wraps_in(x, half, n, m));
    if !half.lt_spec(x) {
        assert(lowered(x, full_turn(half), 0) == x);
        assert(n == 0);
        if !x.lt_spec(half.negated_spec()) {
            assert(raised(x, full_turn(half), 0) == x);
        }
    }
}

pub fn wrap_angle<S: Scalar>(x: S, half: S) -> (r: S)
    requires
        wraps(x, half),
    ensures
        r == wrapped(x, half),
{
    let ghost (n, m) = wrap_counts(x, half);
    assert(wraps_in(x, half, n, m));
    let step = S::from_count(2).times(half);
    let mut r = x;
    let ghost mut i: nat = 0;
    while half.lt(r)
        invariant
            wraps_in(x, half, n, m),
            step == full_turn(half),
            r == lowered(x, step, i),
            i <= n,
        decreases n - i,
    {
        r = r.minus(step);
        proof {
            i = i + 1;
        }
    }
    assert(i == n);
    let ghost y = r;
    let least = half.negated();
    let ghost mut j: nat = 0;
    while r.lt(least)
        invariant
            wraps_in(x, half, n, m),
            step == full_turn(half),
            least == half.negated_spec(),
            y == lowered(x, step, n),
            r == raised(y, step, j),
            j <= m,
        decreases m - j,
    {
        r = r.plus(step);
        proof {
            j = j + 1;
        }
    }
    assert(j == m);
    r
}

/// Whether an angle can be brought within half a turn by no more than `most` turns either way.
pub open spec fn wraps_within<S: Scalar>(x: S, half: S, most: u32) -> bool {
    exists|n: nat, m: nat| n <= most && m <= most && wraps_in(x, half, n, m)
}

pub fn can_wrap<S: Scalar>(x: S, half: S, most: u32) -> (r: bool)
    ensures
        r == wraps_within(x, half, most),
        r ==> wraps(x, half),
{
    let step = S::from_count(2).times(half);
    let mut at = x;
    let mut n: u32 = 0;
    while half.lt(at)
        invariant
            step == full_turn(half),
            n <= most,
            at == lowered(x, step, n as nat),
            forall|k: nat| k < n ==> half.lt_spec(#[trigger] lowered(x, step, k)),
        decreases most - n,
    {
        if n == most {
            proof {
                assert forall|a: nat, b: nat| a <= most && b <= most implies !wraps_in(
                    x,
                    half,
                    a,
                    b,
                ) by {
                    assert(half.lt_spec(lowered(x, step, a)));
                }
            }
            return false;
        }
        at = at.minus(step);
        n = n + 1;
    }
    let ghost y = at;
    let least = half.negated();
    let mut m: u32 = 0;
    while at.lt(least)
        invariant
            step == full_turn(half),
            least == half.negated_spec(),
            n <= most,
            m <= most,
            y == lowered(x, step, n as nat),
            !half.lt_spec(y),
            forall|k: nat| k < n ==> half.lt_spec(#[trigger] lowered(x, step, k)),
            at == raised(y, step, m as nat),
            forall|k: nat| k < m ==> (#[trigger] raised(y, step, k)).lt_spec(least),
        decreases most - m,
    {
        if m == most {
            proof {
                assert forall|a: nat, b: nat| a <= most && b <= most implies !wraps_in(
                    x,
                    half,
                    a,
                    b,
                ) by {
                    if wraps_in(x, half, a, b) {
                        if a < n {
                            assert(half.lt_spec(lowered(x, step, a)));
                        } else if n < a {
                            assert(half.lt_spec(lowered(x, step, n as nat)));
                        }
                        assert(raised(y, step, b).lt_spec(least));
                    }
                }
            }
            return false;
        }
        at = at.plus(step);
        m = m + 1;
    }
    assert(wraps_in(x, half, n as nat, m as nat));
    true
}

} // verus!
