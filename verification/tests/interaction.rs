use kestrel_engine::camera::{
    wrap_angle, Axes, Camera3D, CameraRig, FreeflyController, OrbitCamera,
};
use kestrel_engine::gizmo::{
    apply_scale_ratio, detect_scale_handle, Axis2, GizmoMode, ScaleHandle, ScaleHandleKind,
};
use kestrel_engine::input::{
    Input, InputAction, InputBindings, InputEvent, InputKeyBinding, Key, MouseButton,
    NamedKeyCode,
};
use kestrel_engine::mesh_preview::{MeshControlMode, PreviewView};
use kestrel_engine::scalar::Scalar;
use kestrel_engine::vectors::{Vec2, Vec3};

/// A number as the engine computes with it.
#[derive(Clone, Copy, Debug, PartialEq)]
struct Num(f32);

impl Scalar for Num {
    fn zero() -> Self {
        Num(0.0)
    }
    fn one() -> Self {
        Num(1.0)
    }
    fn clip_epsilon() -> Self {
        Num(1e-5)
    }
    fn machine_epsilon() -> Self {
        Num(f32::EPSILON)
    }
    fn from_count(count: usize) -> Self {
        Num(count as f32)
    }
    fn plus(self, rhs: Self) -> Self {
        Num(self.0 + rhs.0)
    }
    fn minus(self, rhs: Self) -> Self {
        Num(self.0 - rhs.0)
    }
    fn times(self, rhs: Self) -> Self {
        Num(self.0 * rhs.0)
    }
    fn over(self, rhs: Self) -> Self {
        Num(self.0 / rhs.0)
    }
    fn negated(self) -> Self {
        Num(-self.0)
    }
    fn rem_euclid_by(self, rhs: Self) -> Self {
        Num(self.0.rem_euclid(rhs.0))
    }
    fn floored(self) -> Self {
        Num(self.0.floor())
    }
    fn floor_count(self) -> u64 {
        self.0.floor() as u64
    }
    fn floor_steps(self) -> i32 {
        self.0.floor() as i32
    }
    fn ceil_steps(self) -> i32 {
        self.0.ceil() as i32
    }
    fn from_steps(steps: i32) -> Self {
        Num(steps as f32)
    }
    fn to_fixed(self) -> u32 {
        (self.0 * 65536.0).round() as u32
    }
    fn from_fixed(value: u32) -> Self {
        Num(value as f32 / 65536.0)
    }
    fn lt(self, rhs: Self) -> bool {
        self.0 < rhs.0
    }
    fn le(self, rhs: Self) -> bool {
        self.0 <= rhs.0
    }
    fn same(self, rhs: Self) -> bool {
        self.0 == rhs.0
    }
    fn finite(self) -> bool {
        self.0.is_finite()
    }
    fn nan(self) -> bool {
        self.0.is_nan()
    }
    fn larger(self, rhs: Self) -> Self {
        Num(self.0.max(rhs.0))
    }
    fn smaller(self, rhs: Self) -> Self {
        Num(self.0.min(rhs.0))
    }
    fn magnitude(self) -> Self {
        Num(self.0.abs())
    }
    fn rounded(self) -> Self {
        Num(self.0.round())
    }
    fn sign(self) -> Self {
        Num(self.0.signum())
    }
    fn root(self) -> Self {
        Num(self.0.sqrt())
    }
    fn topmost() -> Self {
        Num(f32::INFINITY)
    }
    fn zero_spec() -> Self {
        Self::zero()
    }
    fn one_spec() -> Self {
        Self::one()
    }
    fn clip_epsilon_spec() -> Self {
        Self::clip_epsilon()
    }
    fn machine_epsilon_spec() -> Self {
        Self::machine_epsilon()
    }
    fn from_count_spec(count: usize) -> Self {
        Self::from_count(count)
    }
    fn plus_spec(self, rhs: Self) -> Self {
        self.plus(rhs)
    }
    fn minus_spec(self, rhs: Self) -> Self {
        self.minus(rhs)
    }
    fn times_spec(self, rhs: Self) -> Self {
        self.times(rhs)
    }
    fn over_spec(self, rhs: Self) -> Self {
        self.over(rhs)
    }
    fn negated_spec(self) -> Self {
        self.negated()
    }
    fn rem_euclid_by_spec(self, rhs: Self) -> Self {
        self.rem_euclid_by(rhs)
    }
    fn floored_spec(self) -> Self {
        self.floored()
    }
    fn floor_count_spec(self) -> u64 {
        self.floor_count()
    }
    fn floor_steps_spec(self) -> i32 {
        self.floor_steps()
    }
    fn ceil_steps_spec(self) -> i32 {
        self.ceil_steps()
    }
    fn from_steps_spec(steps: i32) -> Self {
        Self::from_steps(steps)
    }
    fn to_fixed_spec(self) -> u32 {
        self.to_fixed()
    }
    fn from_fixed_spec(value: u32) -> Self {
        Self::from_fixed(value)
    }
    fn lt_spec(self, rhs: Self) -> bool {
        self.lt(rhs)
    }
    fn le_spec(self, rhs: Self) -> bool {
        self.le(rhs)
    }
    fn same_spec(self, rhs: Self) -> bool {
        self.same(rhs)
    }
    fn finite_spec(self) -> bool {
        self.finite()
    }
    fn nan_spec(self) -> bool {
        self.nan()
    }
    fn larger_spec(self, rhs: Self) -> Self {
        self.larger(rhs)
    }
    fn smaller_spec(self, rhs: Self) -> Self {
        self.smaller(rhs)
    }
    fn magnitude_spec(self) -> Self {
        self.magnitude()
    }
    fn rounded_spec(self) -> Self {
        self.rounded()
    }
    fn sign_spec(self) -> Self {
        self.sign()
    }
    fn root_spec(self) -> Self {
        self.root()
    }
    fn topmost_spec() -> Self {
        Self::topmost()
    }
}

fn v2(x: f32, y: f32) -> Vec2<Num> {
    Vec2 { x: Num(x), y: Num(y) }
}

fn v3(x: f32, y: f32, z: f32) -> Vec3<Num> {
    Vec3 { x: Num(x), y: Num(y), z: Num(z) }
}

struct Rig;

impl CameraRig<Num> for Rig {
    fn turn(x: Num, z: Num) -> Num {
        Num(x.0.atan2(z.0))
    }
    fn rise(y: Num) -> Num {
        Num(y.0.asin())
    }
    fn steepest() -> Num {
        Num(std::f32::consts::FRAC_PI_2 - 0.01)
    }
    fn half_turn() -> Num {
        Num(std::f32::consts::PI)
    }
    fn view_angle() -> Num {
        Num(60.0_f32.to_radians())
    }
    fn grown(x: Num) -> Num {
        Num(x.0.exp())
    }
    fn axes(yaw: Num, _pitch: Num, _roll: Num) -> Axes<Num> {
        let (s, c) = yaw.0.sin_cos();
        Axes { forward: v3(-s, 0.0, -c), right: v3(c, 0.0, -s), up: v3(0.0, 1.0, 0.0) }
    }
    fn fresh_orbit(target: Vec3<Num>, radius: Num) -> OrbitCamera<Num> {
        OrbitCamera { target, radius, yaw_radians: Num(0.0), pitch_radians: Num(0.0) }
    }
    fn orbited(orbit: OrbitCamera<Num>, delta: Vec2<Num>) -> OrbitCamera<Num> {
        OrbitCamera {
            yaw_radians: Num(orbit.yaw_radians.0 + delta.x.0),
            pitch_radians: Num(orbit.pitch_radians.0 + delta.y.0),
            ..orbit
        }
    }
    fn zoomed(orbit: OrbitCamera<Num>, factor: Num) -> OrbitCamera<Num> {
        OrbitCamera { radius: Num(orbit.radius.0 * factor.0), ..orbit }
    }
    fn orbit_camera(orbit: OrbitCamera<Num>) -> Camera3D<Num> {
        let (s, c) = orbit.yaw_radians.0.sin_cos();
        let r = orbit.radius.0;
        Camera3D {
            position: v3(orbit.target.x.0 + s * r, orbit.target.y.0, orbit.target.z.0 + c * r),
            target: orbit.target,
            up: v3(0.0, 1.0, 0.0),
            fov_y_radians: Num(1.0),
            near: Num(0.1),
            far: Num(100.0),
        }
    }
    fn turn_spec(x: Num, z: Num) -> Num {
        Self::turn(x, z)
    }
    fn rise_spec(y: Num) -> Num {
        Self::rise(y)
    }
    fn steepest_spec() -> Num {
        Self::steepest()
    }
    fn half_turn_spec() -> Num {
        Self::half_turn()
    }
    fn view_angle_spec() -> Num {
        Self::view_angle()
    }
    fn grown_spec(x: Num) -> Num {
        Self::grown(x)
    }
    fn axes_spec(yaw: Num, _pitch: Num, _roll: Num) -> Axes<Num> {
        Self::axes(yaw, _pitch, _roll)
    }
    fn fresh_orbit_spec(target: Vec3<Num>, radius: Num) -> OrbitCamera<Num> {
        Self::fresh_orbit(target, radius)
    }
    fn orbited_spec(orbit: OrbitCamera<Num>, delta: Vec2<Num>) -> OrbitCamera<Num> {
        Self::orbited(orbit, delta)
    }
    fn zoomed_spec(orbit: OrbitCamera<Num>, factor: Num) -> OrbitCamera<Num> {
        Self::zoomed(orbit, factor)
    }
    fn orbit_camera_spec(orbit: OrbitCamera<Num>) -> Camera3D<Num> {
        Self::orbit_camera(orbit)
    }
}

fn key(text: &str, pressed: bool) -> InputEvent<Num> {
    InputEvent::Key { key: Key::Character(text.to_string()), pressed }
}

#[test]
fn keys_are_held_until_they_go_up() {
    let mut input = Input::<Num>::new();
    input.push(key("W", true));
    assert!(input.freefly_forward());
    input.push(key("w", false));
    assert!(!input.freefly_forward());
    input.push(InputEvent::Key { key: Key::Named(NamedKeyCode::Shift), pressed: true });
    assert!(input.freefly_boost() && input.shift_held());
    assert_eq!(input.events.len(), 3);
}

#[test]
fn actions_that_are_done_once_are_taken_once() {
    let mut input = Input::<Num>::new();
    input.push(InputEvent::Key { key: Key::Named(NamedKeyCode::Space), pressed: true });
    input.push(InputEvent::Key { key: Key::Named(NamedKeyCode::Space), pressed: false });
    assert!(input.take_space_pressed());
    assert!(!input.take_space_pressed());
    input.push(key("m", true));
    input.clear_frame();
    assert!(!input.take_mesh_toggle());
}

#[test]
fn the_mouse_adds_up_over_a_frame() {
    let mut input = Input::<Num>::new();
    input.push(InputEvent::MouseMove { dx: Num(1.0), dy: Num(2.0) });
    input.push(InputEvent::MouseMove { dx: Num(3.0), dy: Num(-1.0) });
    input.push(InputEvent::Wheel { delta: Num(0.5) });
    input.push(InputEvent::MouseButton { button: MouseButton::Left, pressed: true });
    input.push(InputEvent::CursorPos { x: Num(9.0), y: Num(8.0) });
    assert_eq!(input.mouse_delta, (Num(4.0), Num(1.0)));
    assert_eq!(input.consume_wheel_delta(), Some(Num(0.5)));
    assert_eq!(input.consume_wheel_delta(), None);
    assert!(input.left_held());
    assert!(input.take_left_click());
    assert!(!input.take_left_click());
    assert_eq!(input.cursor_position(), Some((Num(9.0), Num(8.0))));
    input.clear_frame();
    assert_eq!(input.mouse_delta, (Num(0.0), Num(0.0)));
    assert!(input.left_held());
}

#[test]
fn settings_replace_the_keys_of_an_action() {
    let config = vec![
        (" Freefly_Forward ".to_string(), vec![" I ".to_string(), "nonsense".to_string()]),
        ("spawn_burst_large".to_string(), vec!["??".to_string()]),
        ("dance".to_string(), vec!["x".to_string()]),
    ];
    let (bindings, warnings) = InputBindings::from_config(&config, "input.json");
    assert_eq!(
        warnings,
        vec![
            "[input] input.json: unknown key 'nonsense' for action ' Freefly_Forward ', ignoring.",
            "[input] input.json: unknown key '??' for action 'spawn_burst_large', ignoring.",
            "[input] input.json: action 'spawn_burst_large' has no valid keys, keeping defaults.",
            "[input] input.json: unknown action 'dance', ignoring.",
        ]
    );
    let mut input = Input::<Num>::with_bindings(bindings);
    input.push(key("i", true));
    assert!(input.freefly_forward());
    input.push(key("w", true));
    input.push(key("b", true));
    assert!(input.take_b_pressed());
}

#[test]
fn names_of_keys_and_actions_are_read() {
    assert_eq!(NamedKeyCode::from_str("left_ctrl"), Some(NamedKeyCode::Control));
    assert_eq!(NamedKeyCode::from_str("enter"), None);
    assert_eq!(InputAction::from_str("mesh_toggle"), Some(InputAction::MeshToggle));
    assert_eq!(InputAction::from_str("Mesh_Toggle"), None);
    assert!(matches!(
        InputKeyBinding::from_config_value("  SHIFT "),
        Some(InputKeyBinding::Named(NamedKeyCode::Shift))
    ));
    match InputKeyBinding::from_config_value("\u{c4}") {
        Some(InputKeyBinding::Character(text)) => assert_eq!(text, "\u{e4}"),
        _ => panic!("a single character is a key"),
    }
    assert!(InputKeyBinding::from_config_value("   ").is_none());
    assert!(InputKeyBinding::from_event_key(&Key::Character(String::new())).is_none());
    assert!(InputKeyBinding::from_event_key(&Key::Other).is_none());
}

#[test]
fn scale_ratios_snap_to_tenths() {
    assert_eq!(apply_scale_ratio(Num(0.01), false), Num(1.0 / 20.0));
    assert_eq!(apply_scale_ratio(Num(100.0), false), Num(20.0));
    assert!((apply_scale_ratio(Num(1.26), true).0 - 1.3).abs() < 1e-5);
    assert_eq!(apply_scale_ratio(Num(0.04), true), Num(0.1_f32 * 1.0));
}

#[test]
fn handles_are_found_under_the_pointer() {
    let zero = v2(0.0, 0.0);
    let (kind, handle) =
        detect_scale_handle(v2(2.0, 0.0), v2(30.0, 1.0), zero, zero, false).unwrap();
    assert_eq!(kind, ScaleHandleKind::Axis(Axis2::X));
    assert!(matches!(handle, ScaleHandle::Axis { start_extent: Num(e), .. } if e == 2.0));
    let (kind, _) = detect_scale_handle(v2(2.0, 0.0), v2(30.0, 1.0), zero, zero, true).unwrap();
    assert_eq!(kind, ScaleHandleKind::Uniform);
    let (kind, _) = detect_scale_handle(v2(0.0, 3.0), v2(0.0, -20.0), zero, zero, false).unwrap();
    assert_eq!(kind, ScaleHandleKind::Axis(Axis2::Y));
    let (kind, handle) =
        detect_scale_handle(v2(3.0, 4.0), v2(18.0, 18.0), zero, zero, false).unwrap();
    assert_eq!(kind, ScaleHandleKind::Uniform);
    assert_eq!(handle.kind(), kind);
    assert!(matches!(handle, ScaleHandle::Uniform { start_distance: Num(d) } if d == 5.0));
    assert!(detect_scale_handle(v2(1.0, 0.0), v2(2.0, 2.0), zero, zero, false).is_none());
    assert!(detect_scale_handle(zero, v2(30.0, 0.0), zero, zero, false).is_none());
    assert_eq!(Axis2::X.label(), "X axis");
    assert_eq!(GizmoMode::default(), GizmoMode::Translate);
}

#[test]
fn angles_come_within_half_a_turn() {
    let pi = Num(std::f32::consts::PI);
    assert!((wrap_angle(Num(7.0), pi).0 - (7.0 - 2.0 * pi.0)).abs() < 1e-5);
    assert!((wrap_angle(Num(-10.0), pi).0 - (-10.0 + 4.0 * pi.0)).abs() < 1e-5);
    assert_eq!(wrap_angle(Num(1.0), pi), Num(1.0));
}

#[test]
fn modes_come_round_after_three() {
    let mode = MeshControlMode::default();
    assert_eq!(mode.next(), MeshControlMode::Orbit);
    assert_eq!(mode.next().next().next(), mode);
    assert_eq!(MeshControlMode::Freefly.label(), "Free-fly");
    assert!(MeshControlMode::Disabled.status_message().starts_with("Scripted orbit"));
}

#[test]
fn the_script_turns_the_camera() {
    let mut view = PreviewView::<Num>::new::<Rig>();
    let mut input = Input::<Num>::new();
    assert!(!view.update_mesh_camera::<Rig>(&mut input, None, Num(0.5)));
    assert_eq!(view.orbit.yaw_radians, Num(0.25 * 0.5));
    assert_eq!(view.orbit.pitch_radians, Num(12.0 / 100.0 * 0.5));
    assert_eq!(view.frustum_distance, Num(5.0));
}

#[test]
fn dragging_turns_and_the_wheel_moves() {
    let mut view = PreviewView::<Num>::new::<Rig>();
    let mut input = Input::<Num>::new();
    assert!(view.set_mesh_control_mode::<Rig>(MeshControlMode::Orbit, &mut input));
    input.push(InputEvent::MouseButton { button: MouseButton::Right, pressed: true });
    input.push(InputEvent::MouseMove { dx: Num(10.0), dy: Num(0.0) });
    input.push(InputEvent::Wheel { delta: Num(1.0) });
    view.update_mesh_camera::<Rig>(&mut input, None, Num(0.1));
    assert!((view.orbit.yaw_radians.0 - 0.08).abs() < 1e-5);
    assert!((view.orbit.radius.0 - 5.0 * 0.12_f32.exp()).abs() < 1e-4);
    assert_eq!(input.wheel, Num(0.0));
}

#[test]
fn flight_goes_where_the_keys_point() {
    let mut view = PreviewView::<Num>::new::<Rig>();
    let mut input = Input::<Num>::new();
    view.set_mesh_control_mode::<Rig>(MeshControlMode::Freefly, &mut input);
    let start = view.freefly.position.z.0;
    input.push(key("w", true));
    input.push(InputEvent::Wheel { delta: Num(1.0) });
    assert!(view.update_mesh_camera::<Rig>(&mut input, None, Num(0.1)));
    assert!(view.freefly_speed.0 > 4.0);
    let expected = (1.0 - (-1.0_f32).exp()) * 4.0 * 0.1;
    assert!(((view.freefly.position.z.0 - start).abs() - expected).abs() < 1e-3);
    assert_eq!(view.frustum_focus.z, view.camera.target.z);
}

#[test]
fn a_lock_holds_the_camera_on_its_point() {
    let mut view = PreviewView::<Num>::new::<Rig>();
    let mut input = Input::<Num>::new();
    let place = v3(1.0, 2.0, 0.0);
    assert!(view.set_frustum_lock::<Rig>(true, place));
    assert!(!view.set_frustum_lock::<Rig>(true, place));
    view.update_mesh_camera::<Rig>(&mut input, Some(place), Num(0.1));
    assert_eq!(view.camera.target.x, Num(1.0));
    assert_eq!(view.orbit.target.y, Num(2.0));
    assert!(view.set_frustum_lock::<Rig>(false, place));
    assert_eq!(view.frustum_distance, view.orbit.radius);
    view.focus_mesh_center::<Rig>(v3(0.0, 0.0, 0.0));
    assert_eq!(view.orbit.target.x, Num(0.0));
    view.reset_mesh_camera::<Rig>(None);
    assert_eq!(view.orbit.yaw_radians, Num(0.0));
}

#[test]
fn a_remembered_camera_comes_back() {
    let mut view = PreviewView::<Num>::new::<Rig>();
    let mut input = Input::<Num>::new();
    view.set_mesh_control_mode::<Rig>(MeshControlMode::Freefly, &mut input);
    let saved = view.capture_preview_camera();
    let mut other = PreviewView::<Num>::new::<Rig>();
    other.apply_preview_camera::<Rig>(saved);
    assert_eq!(other.mode, MeshControlMode::Freefly);
    assert_eq!(other.camera.position.z, view.camera.position.z);
    assert_eq!(other.freefly.yaw, view.freefly.yaw);
    assert_eq!(FreeflyController::<Num>::default().yaw, Num(0.0));
}
