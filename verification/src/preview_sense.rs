//! What steering the preview camera comes to: keys and mouse lead where they say.
use vstd::prelude::*;
use crate::camera::{Axes, CameraRig, SmallAngles};
use crate::input::{Input, InputAction, InputState};
use crate::mesh_preview::{some_distance, MeshControlMode, PreviewView};
use crate::mesh_sense::{lemma_unit_keeps_sign3, modest3};
use crate::particle_motion::{lemma_over_keeps_sign, lemma_times_keeps_sign};
use crate::scalar::{Fixed, Scalar};
use crate::vectors::Vec3;

verus! {

/// A camera that is focused looks at the centre and circles it from as far as it was, though never
/// from too near, and is turned as before.
pub proof fn law_focus_looks_at_the_centre(view: PreviewView<Fixed>, center: Vec3<Fixed>)
    ensures
        ({
            let after = view.focused::<SmallAngles>(center);
            let far = view.camera.position.minus_spec(center).length_spec();
            &&& after.camera.target == center
            &&& after.orbit.target == center
            &&& after.frustum_focus == center
            &&& after.orbit.radius == after.frustum_distance
            &&& 6553 <= after.orbit.radius.0
            &&& 6553 <= far.0 ==> after.orbit.radius == far
            &&& after.orbit.yaw_radians == view.orbit.yaw_radians
            &&& after.orbit.pitch_radians == view.orbit.pitch_radians
            &&& after.mode == view.mode && after.frustum_lock == view.frustum_lock
            &&& after.freefly.position == after.camera.position
        }),
{
    lemma_tenth();
}

proof fn lemma_tenth()
    ensures
        crate::scalar::ratio_spec::<Fixed>(1, 10).0 == 6553,
{
    assert(Fixed::from_count_spec(1) == Fixed(65536));
    assert(Fixed::from_count_spec(10) == Fixed(655360));
    assert(65536int * 65536 / 655360 == 6553);
}

/// Whether of the keys that move the camera just one is seen.
pub open spec fn sees_only(s: InputState<Fixed>, action: InputAction) -> bool {
    &&& s.sees(InputAction::FreeflyForward) == (action == InputAction::FreeflyForward)
    &&& s.sees(InputAction::FreeflyBackward) == (action == InputAction::FreeflyBackward)
    &&& s.sees(InputAction::FreeflyRight) == (action == InputAction::FreeflyRight)
    &&& s.sees(InputAction::FreeflyLeft) == (action == InputAction::FreeflyLeft)
    &&& s.sees(InputAction::FreeflyAscend) == (action == InputAction::FreeflyAscend)
    &&& s.sees(InputAction::FreeflyDescend) == (action == InputAction::FreeflyDescend)
}

/// Whether a vector goes the same way as another along each axis, or not at all.
pub open spec fn goes_with(way: Vec3<Fixed>, axis: Vec3<Fixed>) -> bool {
    &&& 0 <= axis.x.0 ==> 0 <= way.x.0
    &&& axis.x.0 <= 0 ==> way.x.0 <= 0
    &&& 0 <= axis.y.0 ==> 0 <= way.y.0
    &&& axis.y.0 <= 0 ==> way.y.0 <= 0
    &&& 0 <= axis.z.0 ==> 0 <= way.z.0
    &&& axis.z.0 <= 0 ==> way.z.0 <= 0
}

pub open spec fn goes_against(way: Vec3<Fixed>, axis: Vec3<Fixed>) -> bool {
    &&& 0 <= axis.x.0 ==> way.x.0 <= 0
    &&& axis.x.0 <= 0 ==> 0 <= way.x.0
    &&& 0 <= axis.y.0 ==> way.y.0 <= 0
    &&& axis.y.0 <= 0 ==> 0 <= way.y.0
    &&& 0 <= axis.z.0 ==> way.z.0 <= 0
    &&& axis.z.0 <= 0 ==> 0 <= way.z.0
}

/// A single key moves the camera ahead or back, to its right or left, or up or down as the key says;
/// with none it stays, and so it does while it is locked.
pub proof fn law_keys_move_the_camera_their_way(
    view: PreviewView<Fixed>,
    axes: Axes<Fixed>,
    s: InputState<Fixed>,
)
    requires
        0 <= view.freefly_speed.0,
    ensures
        ({
            let v = view.velocity_asked(axes, s);
            let still = Vec3 { x: Fixed(0), y: Fixed(0), z: Fixed(0) };
            &&& view.frustum_lock ==> v == still
            &&& sees_only(s, InputAction::FreeflyBoost) ==> v == still
            &&& sees_only(s, InputAction::FreeflyForward) ==> view.frustum_lock || goes_with(
                v,
                axes.forward,
            )
            &&& sees_only(s, InputAction::FreeflyBackward) ==> view.frustum_lock || goes_against(
                v,
                axes.forward,
            )
            &&& sees_only(s, InputAction::FreeflyRight) ==> view.frustum_lock || goes_with(
                v,
                axes.right,
            )
            &&& sees_only(s, InputAction::FreeflyLeft) ==> view.frustum_lock || goes_against(
                v,
                axes.right,
            )
            &&& sees_only(s, InputAction::FreeflyAscend) ==> view.frustum_lock || goes_with(
                v,
                axes.up,
            )
            &&& sees_only(s, InputAction::FreeflyDescend) ==> view.frustum_lock || goes_against(
                v,
                axes.up,
            )
        }),
{
    lemma_unit_keeps_sign3(axes.forward);
    lemma_unit_keeps_sign3(axes.right);
    lemma_unit_keeps_sign3(axes.up);
    let way = view.way_asked(axes, s);
    lemma_unit_keeps_sign3(way);
    let unit = way.unit_or_zero_spec();
    lemma_scaled_keeps_sign(unit, view.freefly_speed);
    let fast = unit.scaled_spec(view.freefly_speed);
    assert(Fixed::from_count_spec(3) == Fixed(196608));
    lemma_scaled_keeps_sign(fast, Fixed(196608));
    lemma_scaled_keeps_sign(fast, Fixed(65536));
    assert(0int * 0 == 0);
}

proof fn lemma_scaled_keeps_sign(v: Vec3<Fixed>, k: Fixed)
    requires
        0 <= k.0,
    ensures
        goes_with(v.scaled_spec(k), v),
        k.0 == 65536 ==> v.scaled_spec(k) == v,
{
    lemma_times_keeps_sign(v.x, k);
    lemma_times_keeps_sign(v.y, k);
    lemma_times_keeps_sign(v.z, k);
}

/// With the key for it pressed too, the camera goes three times as fast.
pub proof fn law_boost_is_threefold(
    view: PreviewView<Fixed>,
    axes: Axes<Fixed>,
    plain: InputState<Fixed>,
    boosted: InputState<Fixed>,
)
    requires
        !plain.sees(InputAction::FreeflyBoost),
        boosted.sees(InputAction::FreeflyBoost),
        view.way_asked(axes, plain) == view.way_asked(axes, boosted),
        -0x1000_0000_0000_0000 <= view.velocity_asked(axes, plain).x.0 <= 0x1000_0000_0000_0000,
        -0x1000_0000_0000_0000 <= view.velocity_asked(axes, plain).y.0 <= 0x1000_0000_0000_0000,
        -0x1000_0000_0000_0000 <= view.velocity_asked(axes, plain).z.0 <= 0x1000_0000_0000_0000,
    ensures
        ({
            let v = view.velocity_asked(axes, plain);
            let w = view.velocity_asked(axes, boosted);
            w.x.0 == 3 * v.x.0 && w.y.0 == 3 * v.y.0 && w.z.0 == 3 * v.z.0
        }),
{
    assert(Fixed::from_count_spec(3) == Fixed(196608));
    let way = view.way_asked(axes, plain);
    let fast = way.unit_or_zero_spec().scaled_spec(view.freefly_speed);
    lemma_scaled_keeps_sign(fast, Fixed(65536));
    assert(fast.x.0 * 196608 / 65536 == 3 * fast.x.0);
    assert(fast.y.0 * 196608 / 65536 == 3 * fast.y.0);
    assert(fast.z.0 * 196608 / 65536 == 3 * fast.z.0);
}

/// What flies goes on by its velocity over the time of the step, and its own speed stays between a
/// tenth and two hundred once the wheel is turned: not slower for turning it on, not faster for
/// turning it back.
pub proof fn law_flight_follows_its_velocity(view: PreviewView<Fixed>, input: Input<Fixed>, dt: Fixed)
    requires
        modest3(view.freefly.position),
        0 <= dt.0,
        6553 <= view.freefly_speed.0 <= 13107200,
    ensures
        ({
            let after = view.moved::<SmallAngles>(input, dt);
            let v = after.freefly_velocity;
            &&& 0 <= v.x.0 ==> view.freefly.position.x.0 <= after.freefly.position.x.0
            &&& v.x.0 <= 0 ==> after.freefly.position.x.0 <= view.freefly.position.x.0
            &&& 0 <= v.y.0 ==> view.freefly.position.y.0 <= after.freefly.position.y.0
            &&& v.y.0 <= 0 ==> after.freefly.position.y.0 <= view.freefly.position.y.0
            &&& 0 <= v.z.0 ==> view.freefly.position.z.0 <= after.freefly.position.z.0
            &&& v.z.0 <= 0 ==> after.freefly.position.z.0 <= view.freefly.position.z.0
            &&& dt.0 == 65536 && modest3(v) ==> after.freefly.position.x.0
                == view.freefly.position.x.0 + v.x.0 && after.freefly.position.y.0
                == view.freefly.position.y.0 + v.y.0 && after.freefly.position.z.0
                == view.freefly.position.z.0 + v.z.0
            &&& 6553 <= after.freefly_speed.0 <= 13107200
            &&& 0 <= input.wheel.0 ==> view.freefly_speed.0 <= after.freefly_speed.0
            &&& input.wheel.0 <= 0 ==> after.freefly_speed.0 <= view.freefly_speed.0
            &&& after.freefly.yaw == view.freefly.yaw && after.freefly.pitch == view.freefly.pitch
        }),
{
    lemma_tenth();
    assert(Fixed::from_count_spec(200) == Fixed(13107200));
    let after = view.moved::<SmallAngles>(input, dt);
    let v = after.freefly_velocity;
    lemma_scaled_keeps_sign(v, dt);
    assert(Fixed::from_count_spec(1) == Fixed(65536));
    assert(Fixed::from_count_spec(5) == Fixed(327680));
    assert(Fixed::from_count_spec(6) == Fixed(393216));
    assert(Fixed::from_count_spec(100) == Fixed(6553600));
    assert(65536int * 65536 / 327680 == 13107);
    assert(393216int * 65536 / 6553600 == 3932);
    lemma_times_keeps_sign(input.wheel, Fixed(3932));
    let factor = crate::scalar::clamped_spec(
        Fixed::one_spec().plus_spec(input.wheel.times_spec(crate::scalar::ratio_spec(6, 100))),
        crate::scalar::ratio_spec(1, 5),
        Fixed::from_count_spec(5),
    );
    assert(13107 <= factor.0 <= 327680);
    lemma_times_keeps_sign(view.freefly_speed, factor);
}

/// A camera that moves by itself goes round one way and rises, keeping its distance and its middle.
pub proof fn law_scripted_cameras_go_round(view: PreviewView<Fixed>, dt: Fixed)
    requires
        0 <= dt.0 <= 0x1_0000_0000,
        -0x1000_0000_0000 <= view.orbit.yaw_radians.0 <= 0x1000_0000_0000,
        -32768 <= view.orbit.pitch_radians.0 <= 32768,
    ensures
        ({
            let after = view.scripted::<SmallAngles>(dt);
            &&& after.orbit.target == view.orbit.target && after.orbit.radius == view.orbit.radius
            &&& after.orbit.yaw_radians.0 == view.orbit.yaw_radians.0 + dt.0 as int / 4
            &&& view.orbit.pitch_radians.0 <= after.orbit.pitch_radians.0 <= 32768
            &&& after.camera.target == view.orbit.target
            &&& after.freefly.position == after.camera.position
        }),
{
    assert(Fixed::from_count_spec(1) == Fixed(65536));
    assert(Fixed::from_count_spec(2) == Fixed(131072));
    assert(Fixed::from_count_spec(4) == Fixed(262144));
    assert(Fixed::from_count_spec(12) == Fixed(786432));
    assert(Fixed::from_count_spec(100) == Fixed(6553600));
    assert(65536int * 65536 / 131072 == 32768);
    assert(65536int * 65536 / 262144 == 16384);
    assert(786432int * 65536 / 6553600 == 7864);
    assert(16384 * dt.0 / 65536 == dt.0 as int / 4);
    assert(0 <= 7864 * dt.0 / 65536);
}

/// Dragging to one side turns the camera to that side and dragging up or down likewise; the wheel
/// takes it nearer or farther by its sign, and without either the camera stays as it was.
pub proof fn law_dragging_turns_the_camera(view: PreviewView<Fixed>, input: Input<Fixed>)
    requires
        -0x1000_0000_0000 <= view.orbit.yaw_radians.0 <= 0x1000_0000_0000,
        -32768 <= view.orbit.pitch_radians.0 <= 32768,
        0 <= view.orbit.radius.0,
        -0x1000_0000_0000 <= input.mouse_delta.0.0 <= 0x1000_0000_0000,
        -0x1000_0000_0000 <= input.mouse_delta.1.0 <= 0x1000_0000_0000,
        -65536 <= input.wheel.0 <= 0x1_0000_0000,
    ensures
        ({
            let after = view.dragged::<SmallAngles>(input).orbit;
            let before = view.orbit;
            &&& after.target == before.target
            &&& 0 <= input.mouse_delta.0.0 ==> before.yaw_radians.0 <= after.yaw_radians.0
            &&& input.mouse_delta.0.0 <= 0 ==> after.yaw_radians.0 <= before.yaw_radians.0
            &&& 0 <= input.mouse_delta.1.0 ==> before.pitch_radians.0 <= after.pitch_radians.0
            &&& input.mouse_delta.1.0 <= 0 ==> after.pitch_radians.0 <= before.pitch_radians.0
            &&& 0 <= input.wheel.0 ==> before.radius.0 <= after.radius.0
            &&& input.wheel.0 <= 0 ==> after.radius.0 <= before.radius.0
            &&& !input.state.right_pressed ==> after.yaw_radians == before.yaw_radians
                && after.pitch_radians == before.pitch_radians
            &&& view.frustum_lock ==> after.radius == before.radius
        }),
{
    assert(Fixed::from_count_spec(1) == Fixed(65536));
    assert(Fixed::from_count_spec(2) == Fixed(131072));
    assert(Fixed::from_count_spec(8) == Fixed(524288));
    assert(Fixed::from_count_spec(12) == Fixed(786432));
    assert(Fixed::from_count_spec(100) == Fixed(6553600));
    assert(Fixed::from_count_spec(1000) == Fixed(65536000));
    assert(65536int * 65536 / 131072 == 32768);
    assert(524288int * 65536 / 65536000 == 524);
    assert(786432int * 65536 / 6553600 == 7864);
    lemma_times_keeps_sign(input.mouse_delta.0, Fixed(524));
    lemma_times_keeps_sign(input.mouse_delta.1, Fixed(524));
    lemma_times_keeps_sign(input.wheel, Fixed(7864));
    let grown = SmallAngles::grown_spec(input.wheel.times_spec(Fixed(7864)));
    assert(-7864 <= input.wheel.0 * 7864 / 65536);
    assert(0 <= grown.0);
    lemma_times_keeps_sign(view.orbit.radius, grown);
}

/// A locked camera that flies looks from its place towards what it is locked on.
pub proof fn law_locked_cameras_look_at_their_focus(view: PreviewView<Fixed>)
    requires
        view.frustum_lock,
        modest3(view.freefly.position) && modest3(view.frustum_focus),
        modest3(view.freefly.axes_of::<SmallAngles>().forward),
        6553 <= view.frustum_distance.0,
        crate::mesh_preview::has_length(
            view.frustum_focus.minus_spec(view.freefly.position).unit_or_zero_spec(),
        ),
    ensures
        ({
            let after = view.framed::<SmallAngles>();
            let to = view.frustum_focus;
            let from = view.freefly.position;
            let looks = after.camera.target;
            &&& after.camera.position == from
            &&& from.x.0 <= to.x.0 ==> from.x.0 <= looks.x.0
            &&& to.x.0 <= from.x.0 ==> looks.x.0 <= from.x.0
            &&& from.y.0 <= to.y.0 ==> from.y.0 <= looks.y.0
            &&& to.y.0 <= from.y.0 ==> looks.y.0 <= from.y.0
            &&& from.z.0 <= to.z.0 ==> from.z.0 <= looks.z.0
            &&& to.z.0 <= from.z.0 ==> looks.z.0 <= from.z.0
            &&& after.orbit == view.orbit
            &&& after.freefly.position == from
        }),
{
    let away = view.frustum_focus.minus_spec(view.freefly.position);
    lemma_unit_keeps_sign3(away);
    lemma_scaled_keeps_sign(away.unit_or_zero_spec(), view.frustum_distance);
}

/// Changing over to free flight leaves the camera where it is; changing over to circling keeps what is
/// circled, and looks at it. Either way the camera comes to rest, and a mode that is on already
/// changes nothing.
pub proof fn law_modes_change_without_a_jump(view: PreviewView<Fixed>, mode: MeshControlMode)
    ensures
        ({
            let after = view.switched::<SmallAngles>(mode);
            &&& after.mode == mode
            &&& mode == view.mode ==> after == view
            &&& mode != view.mode ==> after.freefly_velocity == Vec3::<Fixed>::zero_spec()
                && after.freefly_rot_velocity == Vec3::<Fixed>::zero_spec()
            &&& mode != view.mode && mode == MeshControlMode::Freefly ==> after.camera.position
                == view.camera.position && after.freefly.position == view.camera.position
            &&& mode != view.mode && mode != MeshControlMode::Freefly ==> after.orbit.target
                == view.orbit.target && after.camera.target == view.orbit.target
                && some_distance(after.orbit.radius) == after.orbit.radius
            &&& after.frustum_lock == view.frustum_lock && after.frustum_focus
                == view.frustum_focus
        }),
{
}

/// Turning is asked for by the mouse while its right button is held, to the side that it moves to, and
/// by the two keys for rolling, which cancel; nothing else turns the camera.
pub proof fn law_mouse_and_keys_ask_for_turns(input: Input<Fixed>, dt: Fixed)
    requires
        0 < dt.0,
    ensures
        ({
            let asked = PreviewView::<Fixed>::turn_asked(input, dt);
            let right = input.state.sees(InputAction::FreeflyRollRight);
            let left = input.state.sees(InputAction::FreeflyRollLeft);
            &&& !input.state.right_pressed ==> asked.x.0 == 0 && asked.y.0 == 0
            &&& 0 <= input.mouse_delta.0.0 ==> 0 <= asked.x.0
            &&& input.mouse_delta.0.0 <= 0 ==> asked.x.0 <= 0
            &&& 0 <= input.mouse_delta.1.0 ==> 0 <= asked.y.0
            &&& input.mouse_delta.1.0 <= 0 ==> asked.y.0 <= 0
            &&& right == left ==> asked.z.0 == 0
            &&& right && !left ==> 0 < asked.z.0
            &&& left && !right ==> asked.z.0 < 0
        }),
{
    assert(Fixed::from_count_spec(2) == Fixed(131072));
    assert(Fixed::from_count_spec(5) == Fixed(327680));
    assert(Fixed::from_count_spec(8) == Fixed(524288));
    assert(Fixed::from_count_spec(1000) == Fixed(65536000));
    assert(524288int * 65536 / 65536000 == 524);
    assert(327680int * 65536 / 131072 == 163840);
    lemma_times_keeps_sign(input.mouse_delta.0, Fixed(524));
    lemma_times_keeps_sign(input.mouse_delta.1, Fixed(524));
    lemma_over_keeps_sign(input.mouse_delta.0.times_spec(Fixed(524)), dt);
    lemma_over_keeps_sign(input.mouse_delta.1.times_spec(Fixed(524)), dt);
    assert(65536int * 163840 / 65536 == 163840);
    assert((-65536int) * 163840 / 65536 == -163840);
}

/// A camera that flies turns by its spin over the time of the step, each way by its own, and stays
/// where it is while it turns.
pub proof fn law_flight_turns_by_its_spin(view: PreviewView<Fixed>, input: Input<Fixed>, dt: Fixed)
    requires
        0 <= dt.0,
        -0x1000_0000_0000_0000 <= view.freefly.yaw.0 <= 0x1000_0000_0000_0000,
        -0x1000_0000_0000_0000 <= view.freefly.roll.0 <= 0x1000_0000_0000_0000,
        -32768 <= view.freefly.pitch.0 <= 32768,
    ensures
        ({
            let after = view.steered::<SmallAngles>(input, dt);
            let spin = after.freefly_rot_velocity;
            &&& after.freefly.position == view.freefly.position
            &&& 0 <= spin.x.0 ==> view.freefly.yaw.0 <= after.freefly.yaw.0
            &&& spin.x.0 <= 0 ==> after.freefly.yaw.0 <= view.freefly.yaw.0
            &&& 0 <= spin.y.0 ==> view.freefly.pitch.0 <= after.freefly.pitch.0
            &&& spin.y.0 <= 0 ==> after.freefly.pitch.0 <= view.freefly.pitch.0
            &&& 0 <= spin.z.0 ==> view.freefly.roll.0 <= after.freefly.roll.0
            &&& spin.z.0 <= 0 ==> after.freefly.roll.0 <= view.freefly.roll.0
            &&& -32768 <= after.freefly.pitch.0 <= 32768
            &&& after.camera == view.camera && after.orbit == view.orbit
        }),
{
    assert(Fixed::from_count_spec(1) == Fixed(65536));
    assert(Fixed::from_count_spec(2) == Fixed(131072));
    assert(65536int * 65536 / 131072 == 32768);
    let spin = view.steered::<SmallAngles>(input, dt).freefly_rot_velocity;
    lemma_times_keeps_sign(spin.x, dt);
    lemma_times_keeps_sign(spin.y, dt);
    lemma_times_keeps_sign(spin.z, dt);
}

/// A camera that is locked comes to rest with its focus noted, and one that flies turns towards it;
/// asking again changes nothing, and no lock moves the camera.
pub proof fn law_locking_notes_the_focus(view: PreviewView<Fixed>, focus: Vec3<Fixed>)
    requires
        modest3(view.freefly.position) && modest3(focus),
    ensures
        ({
            let after = view.locked::<SmallAngles>(true, focus);
            &&& after.frustum_lock
            &&& view.frustum_lock ==> after == view
            &&& !view.frustum_lock ==> {
                &&& after.frustum_focus == focus
                &&& 6553 <= after.frustum_distance.0
                &&& after.freefly_velocity == Vec3::<Fixed>::zero_spec()
                &&& view.freefly.position.y.0 <= focus.y.0 && view.mode
                    == MeshControlMode::Freefly ==> after.freefly == view.freefly || 0
                    <= after.freefly.pitch.0
                &&& focus.y.0 <= view.freefly.position.y.0 && view.mode
                    == MeshControlMode::Freefly ==> after.freefly == view.freefly
                    || after.freefly.pitch.0 <= 0
            }
            &&& after.camera == view.camera && after.freefly.position == view.freefly.position
            &&& view.mode != MeshControlMode::Freefly ==> after.freefly == view.freefly
        }),
{
    lemma_tenth();
    assert(Fixed::from_count_spec(1) == Fixed(65536));
    assert(Fixed::from_count_spec(2) == Fixed(131072));
    assert(65536int * 65536 / 131072 == 32768);
    lemma_unit_keeps_sign3(focus.minus_spec(view.freefly.position));
}

/// A camera that is reset comes to rest, untilted and unturned, around what it circled and from as far;
/// what flies starts from there, and a locked camera looks out for what is selected.
pub proof fn law_reset_cameras_are_level(view: PreviewView<Fixed>, selected: Option<Vec3<Fixed>>)
    ensures
        ({
            let after = view.reset::<SmallAngles>(selected);
            &&& after.orbit.target == view.orbit.target && after.orbit.radius == view.orbit.radius
            &&& after.orbit.yaw_radians.0 == 0 && after.orbit.pitch_radians.0 == 0
            &&& after.freefly_velocity == Vec3::<Fixed>::zero_spec()
                && after.freefly_rot_velocity == Vec3::<Fixed>::zero_spec()
            &&& after.mode == view.mode && after.frustum_lock == view.frustum_lock
            &&& after.freefly.position == after.camera.position
            &&& view.mode != MeshControlMode::Freefly ==> after.camera.target == view.orbit.target
            &&& view.frustum_lock && selected is Some ==> Some(after.frustum_focus) == selected
            &&& view.frustum_lock && selected is None ==> after.frustum_focus == view.orbit.target
            &&& !view.frustum_lock ==> after.frustum_distance == view.orbit.radius
        }),
{
}

} // verus!
