//! What cameras come to: they stand where they were put, look where they were turned, and come back
//! by whole turns.
use vstd::prelude::*;
use crate::camera::{
    full_turn, held_pitch, lowered, raised, wrap_counts, wrapped, wraps, wraps_in, Camera3D,
    CameraRig, FreeflyController, OrbitCamera, SmallAngles,
};
use crate::mesh_preview::PreviewView;
use crate::mesh_sense::{lemma_unit_keeps_sign3, modest3};
use crate::particle_motion::lemma_over_keeps_sign;
use crate::scalar::{Fixed, Scalar};
use crate::vectors::{Vec2, Vec3};

verus! {

/// A camera that flies stands where it is, looks the way that it faces, and has up on the side of its
/// own up; it sees from near to far.
pub proof fn law_flying_cameras_look_ahead<R: CameraRig<Fixed>>(fly: FreeflyController<Fixed>)
    requires
        modest3(fly.position),
        modest3(fly.axes_of::<R>().forward),
    ensures
        ({
            let camera = fly.camera_of::<R>();
            let axes = fly.axes_of::<R>();
            &&& camera.position == fly.position
            &&& camera.target.x.0 == fly.position.x.0 + axes.forward.x.0
            &&& camera.target.y.0 == fly.position.y.0 + axes.forward.y.0
            &&& camera.target.z.0 == fly.position.z.0 + axes.forward.z.0
            &&& axes.up.y.0 >= 0 ==> camera.up.y.0 >= 0
            &&& camera.up != (Vec3 { x: Fixed(0), y: Fixed(65536), z: Fixed(0) }) ==> {
                &&& axes.up.x.0 >= 0 ==> camera.up.x.0 >= 0
                &&& axes.up.x.0 <= 0 ==> camera.up.x.0 <= 0
                &&& axes.up.y.0 <= 0 ==> camera.up.y.0 <= 0
                &&& axes.up.z.0 >= 0 ==> camera.up.z.0 >= 0
                &&& axes.up.z.0 <= 0 ==> camera.up.z.0 <= 0
            }
            &&& 0 < camera.near.0 < camera.far.0
        }),
{
    lemma_unit_keeps_sign3(fly.axes_of::<R>().up);
    assert(Fixed::from_count_spec(1) == Fixed(65536));
    assert(Fixed::from_count_spec(10) == Fixed(655360));
    assert(Fixed::from_count_spec(100) == Fixed(6553600));
    assert(65536int * 65536 / 655360 == 6553);
}

/// What flies as a camera looks stands where the camera does, upright, and looks no steeper than it
/// may: up where the camera looks up, and level where the camera does.
pub proof fn law_flying_starts_from_the_camera(camera: Camera3D<Fixed>)
    requires
        modest3(camera.position) && modest3(camera.target),
    ensures
        ({
            let fly = FreeflyController::looking_as::<SmallAngles>(camera);
            &&& fly.position == camera.position
            &&& fly.roll.0 == 0
            &&& -32768 <= fly.pitch.0 <= 32768
            &&& camera.position.y.0 <= camera.target.y.0 ==> 0 <= fly.pitch.0
            &&& camera.target.y.0 <= camera.position.y.0 ==> fly.pitch.0 <= 0
            &&& camera.target.x == camera.position.x ==> fly.yaw.0 == 0
            &&& camera.position.x.0 <= camera.target.x.0 && camera.position.z.0 < camera.target.z.0
                ==> 0 <= fly.yaw.0
            &&& camera.target.x.0 <= camera.position.x.0 && camera.position.z.0 < camera.target.z.0
                ==> fly.yaw.0 <= 0
            &&& camera.position.x.0 <= camera.target.x.0 && camera.target.x.0 - camera.position.x.0
                <= camera.target.z.0 - camera.position.z.0 ==> fly.yaw.0 <= 65536
        }),
{
    assert(Fixed::from_count_spec(1) == Fixed(65536));
    assert(Fixed::from_count_spec(2) == Fixed(131072));
    assert(65536int * 65536 / 131072 == 32768);
    let away = camera.target.minus_spec(camera.position);
    let forward = away.unit_or_zero_spec();
    lemma_unit_keeps_sign3(away);
    if 0 <= away.x.0 <= away.z.0 {
        lemma_unit_keeps_order(away);
    }
    if 0 < forward.z.0 {
        lemma_over_keeps_sign(forward.x, forward.z);
    }
    if forward.x.0 == 0 && forward.z.0 != 0 {
        let z = forward.z.0 as int;
        assert(0int / z == 0) by (nonlinear_arith)
            requires
                z != 0,
        ;
    }
}

proof fn lemma_unit_keeps_order(v: Vec3<Fixed>)
    requires
        0 <= v.x.0 <= v.z.0,
    ensures
        0 <= v.unit_or_zero_spec().x.0 <= v.unit_or_zero_spec().z.0,
{
    lemma_unit_keeps_sign3(v);
    let k = Fixed::one_spec().over_spec(v.length_spec());
    if 0 < k.0 {
        assert(v.x.0 * k.0 <= v.z.0 * k.0) by (nonlinear_arith)
            requires
                v.x.0 <= v.z.0,
                0 < k.0,
        ;
    }
}

/// A camera that circles looks at what it circles; as it goes round and zooms it keeps circling the
/// same, never steeper than it may, and zooming by one leaves it where it was.
pub proof fn law_circling_cameras_look_at_their_middle(orbit: OrbitCamera<Fixed>, delta: Vec2<Fixed>, factor: Fixed)
    requires
        modest3(orbit.target),
        -0x1000_0000_0000_0000 <= orbit.radius.0 <= 0x1000_0000_0000_0000,
    ensures
        ({
            let camera = SmallAngles::orbit_camera_spec(orbit);
            let turned = SmallAngles::orbited_spec(orbit, delta);
            &&& camera.target == orbit.target
            &&& camera.position.z.0 == orbit.target.z.0 + orbit.radius.0
            &&& turned.target == orbit.target && turned.radius == orbit.radius
            &&& -32768 <= turned.pitch_radians.0 <= 32768
            &&& SmallAngles::zoomed_spec(orbit, Fixed(65536)) == orbit
            &&& SmallAngles::zoomed_spec(orbit, factor).target == orbit.target
            &&& SmallAngles::zoomed_spec(orbit, factor).yaw_radians == orbit.yaw_radians
            &&& SmallAngles::zoomed_spec(orbit, factor).pitch_radians == orbit.pitch_radians
        }),
{
    assert(Fixed::from_count_spec(1) == Fixed(65536));
    assert(Fixed::from_count_spec(2) == Fixed(131072));
    assert(65536int * 65536 / 131072 == 32768);
    assert(65536 * orbit.radius.0 / 65536 == orbit.radius.0);
    assert(orbit.radius.0 * 65536 / 65536 == orbit.radius.0);
}

/// A pitch is held between the steepest ways down and up, and is kept where it lies between them.
pub proof fn law_pitch_is_held(x: Fixed)
    ensures
        -32768 <= held_pitch::<Fixed, SmallAngles>(x).0 <= 32768,
        -32768 <= x.0 <= 32768 ==> held_pitch::<Fixed, SmallAngles>(x) == x,
{
    assert(Fixed::from_count_spec(1) == Fixed(65536));
    assert(Fixed::from_count_spec(2) == Fixed(131072));
    assert(65536int * 65536 / 131072 == 32768);
}

/// An angle that is brought within half a turn either way differs from what it was by whole turns.
pub proof fn law_wrapped_angles_differ_by_whole_turns(x: Fixed, half: Fixed)
    requires
        wraps(x, half),
        0 < half.0 <= 0x1000_0000_0000_0000,
        i64::MIN < x.0,
    ensures
        -half.0 <= wrapped(x, half).0 <= half.0,
        exists|k: int| wrapped(x, half).0 == x.0 + #[trigger] (k * (2 * half.0)),
{
    let (n, m) = wrap_counts(x, half);
    assert(wraps_in(x, half, n, m));
    let step = full_turn(half);
    assert(Fixed::from_count_spec(2) == Fixed(131072));
    assert(131072 * half.0 / 65536 == 2 * half.0);
    assert(step.0 == 2 * half.0);
    assert forall|j: nat| j < n implies half.lt_spec(#[trigger] lowered(x, step, j)) by {}
    lemma_lowered(x, half, n, n);
    let y = lowered(x, step, n);
    if n == 0 {
        lemma_raised(y, half, m, m);
        assert(wrapped(x, half).0 == x.0 + m * (2 * half.0));
    } else {
        assert(-half.0 <= y.0);
        if m > 0 {
            assert(raised(y, step, 0).lt_spec(half.negated_spec()));
        }
        assert(m == 0);
        assert(wrapped(x, half) == y);
        let k = -(n as int);
        assert(k * (2 * half.0) == -(n * (2 * half.0))) by (nonlinear_arith)
            requires
                k == -(n as int),
        ;
        assert(wrapped(x, half).0 == x.0 + k * (2 * half.0));
    }
}

proof fn lemma_lowered(x: Fixed, half: Fixed, i: nat, n: nat)
    requires
        i <= n,
        0 < half.0 <= 0x1000_0000_0000_0000,
        full_turn(half).0 == 2 * half.0,
        forall|j: nat| j < n ==> half.lt_spec(#[trigger] lowered(x, full_turn(half), j)),
    ensures
        lowered(x, full_turn(half), i).0 == x.0 - i * (2 * half.0),
        0 < i ==> -half.0 < lowered(x, full_turn(half), i).0,
    decreases i,
{
    if i > 0 {
        lemma_lowered(x, half, (i - 1) as nat, n);
        assert(half.lt_spec(lowered(x, full_turn(half), (i - 1) as nat)));
        assert(i * (2 * half.0) == (i - 1) * (2 * half.0) + 2 * half.0) by (nonlinear_arith);
    }
}

proof fn lemma_raised(y: Fixed, half: Fixed, i: nat, m: nat)
    requires
        i <= m,
        0 < half.0 <= 0x1000_0000_0000_0000,
        y.0 <= half.0,
        full_turn(half).0 == 2 * half.0,
        forall|j: nat|
            j < m ==> (#[trigger] raised(y, full_turn(half), j)).lt_spec(half.negated_spec()),
    ensures
        raised(y, full_turn(half), i).0 == y.0 + i * (2 * half.0),
        raised(y, full_turn(half), i).0 <= half.0,
    decreases i,
{
    if i > 0 {
        lemma_raised(y, half, (i - 1) as nat, m);
        assert(raised(y, full_turn(half), (i - 1) as nat).lt_spec(half.negated_spec()));
        assert(i * (2 * half.0) == (i - 1) * (2 * half.0) + 2 * half.0) by (nonlinear_arith);
    }
}

/// At rest the axes of the rig for small angles look along the third axis away from it, with the first
/// to the right and the second up; turning left looks left, raising looks up, and without a roll what
/// lies to the right and above stays square to the way ahead.
pub proof fn law_axes_of_small_angles(yaw: Fixed, pitch: Fixed)
    requires
        -65536 <= yaw.0 <= 65536,
        -65536 <= pitch.0 <= 65536,
    ensures
        ({
            let still = SmallAngles::axes_spec(Fixed(0), Fixed(0), Fixed(0));
            &&& still.forward == (Vec3 { x: Fixed(0), y: Fixed(0), z: Fixed(-65536i64) })
            &&& still.right == (Vec3 { x: Fixed(65536), y: Fixed(0), z: Fixed(0) })
            &&& still.up == (Vec3 { x: Fixed(0), y: Fixed(65536), z: Fixed(0) })
        }),
        ({
            let a = SmallAngles::axes_spec(yaw, pitch, Fixed(0));
            &&& 0 < yaw.0 ==> a.forward.x.0 < 0
            &&& yaw.0 < 0 ==> 0 < a.forward.x.0
            &&& 0 < pitch.0 ==> 0 < a.forward.y.0
            &&& a.forward.x.0 * a.right.x.0 + a.forward.y.0 * a.right.y.0 + a.forward.z.0
                * a.right.z.0 == 0
            &&& a.forward.x.0 * a.up.x.0 + a.forward.y.0 * a.up.y.0 + a.forward.z.0 * a.up.z.0 == 0
        }),
{
    let a = SmallAngles::axes_spec(yaw, pitch, Fixed(0));
    assert((-yaw.0) * 65536 + pitch.0 * 0 + (-65536) * (-yaw.0) == 0) by (nonlinear_arith);
    assert((-yaw.0) * 0 + pitch.0 * 65536 + (-65536) * pitch.0 == 0) by (nonlinear_arith);
}

/// A camera that circles from straight behind its middle and is read back into a circling one stands
/// where it stood.
pub proof fn law_circling_is_read_back(view: PreviewView<Fixed>, far: Fixed)
    requires
        modest3(view.orbit.target),
        6553 <= far.0 <= 0x1000_0000,
        far.0 as int % 256 == 0,
        view.camera.position.x == view.orbit.target.x,
        view.camera.position.y == view.orbit.target.y,
        view.camera.position.z.0 == view.orbit.target.z.0 + far.0,
    ensures
        view.synced_orbit::<SmallAngles>().radius == far,
        view.synced_orbit::<SmallAngles>().yaw_radians.0 == 0,
        view.synced_orbit::<SmallAngles>().pitch_radians.0 == 0,
        SmallAngles::orbit_camera_spec(view.synced_orbit::<SmallAngles>()).position
            == view.camera.position,
{
    let away = view.camera.position.minus_spec(view.orbit.target);
    assert(away == (Vec3 { x: Fixed(0), y: Fixed(0), z: far }));
    let f = far.0 as int;
    let a = f / 256;
    assert(f * f == a * a * 65536) by (nonlinear_arith)
        requires
            f == a * 256,
    ;
    let d = a * a;
    assert(0 < d <= 0x100_0000_0000) by (nonlinear_arith)
        requires
            0 < a <= 0x10_0000,
            d == a * a,
    ;
    assert(25 * 25 <= d) by (nonlinear_arith)
        requires
            25 <= a,
            d == a * a,
    ;
    assert(0int * 0 == 0);
    assert(away.dot_spec(away).0 == d);
    assert(Fixed::from_count_spec(1) == Fixed(65536));
    assert(Fixed::from_count_spec(100000) == Fixed(6553600000));
    assert(65536int * 65536 / 6553600000 == 0);
    assert(f * f <= d * 65536 < (f + 1) * (f + 1)) by (nonlinear_arith)
        requires
            f * f == d * 65536,
            0 < f,
    ;
    crate::scalar::lemma_floor_root_unique(d * 65536, f);
    assert(away.length_spec() == far);
    assert(Fixed::from_count_spec(2) == Fixed(131072));
    assert(Fixed::from_count_spec(10) == Fixed(655360));
    assert(65536int * 65536 / 655360 == 6553);
    assert(65536int * 65536 / 131072 == 32768);
    assert(0int / f == 0) by (nonlinear_arith)
        requires
            0 < f,
    ;
    assert(0 * far.0 == 0);
    assert(65536 * far.0 / 65536 == far.0);
}

} // verus!
