//! The preview of a mesh: how its camera is steered.
use vstd::prelude::*;
use crate::camera::{
    can_wrap, hold_pitch, held_pitch, wrap_angle, wrapped, wraps, wraps_within, Axes, Camera3D, CameraRig,
    FreeflyController, OrbitCamera,
};
use crate::info::EntityInfo;
use crate::input::{Input, InputAction, InputState};
use crate::scalar::{clamped, clamped_spec, ratio, ratio_spec, Scalar};
use crate::vectors::{Vec2, Vec3};

verus! {

#[derive(Clone, Copy, Debug, PartialEq, Eq, Structural)]
pub enum MeshControlMode {
    Disabled,
    Orbit,
    Freefly,
}

impl Default for MeshControlMode {
    fn default() -> (r: Self)
        ensures
            r == MeshControlMode::Disabled,
    {
        MeshControlMode::Disabled
    }
}

impl MeshControlMode {
    pub open spec fn next_of(self) -> Self {
        match self {
            MeshControlMode::Disabled => MeshControlMode::Orbit,
            MeshControlMode::Orbit => MeshControlMode::Freefly,
            MeshControlMode::Freefly => MeshControlMode::Disabled,
        }
    }

    pub fn next(self) -> (r: Self)
        ensures
            r == self.next_of(),
    {
        match self {
            MeshControlMode::Disabled => MeshControlMode::Orbit,
            MeshControlMode::Orbit => MeshControlMode::Freefly,
            MeshControlMode::Freefly => MeshControlMode::Disabled,
        }
    }

    pub open spec fn label_of(self) -> Seq<char> {
        match self {
            MeshControlMode::Disabled => "Disabled"@,
            MeshControlMode::Orbit => "Orbit"@,
            MeshControlMode::Freefly => "Free-fly"@,
        }
    }

    pub fn label(self) -> (r: &'static str)
        ensures
            r@ == self.label_of(),
    {
        match self {
            MeshControlMode::Disabled => "Disabled",
            MeshControlMode::Orbit => "Orbit",
            MeshControlMode::Freefly => "Free-fly",
        }
    }

    pub open spec fn status_of(self) -> Seq<char> {
        match self {
            MeshControlMode::Disabled => "Scripted orbit animates the camera (press M to switch modes)."@,
            MeshControlMode::Orbit => "Orbit control enabled (right-drag to orbit, scroll to zoom, L toggles frustum lock)."@,
            MeshControlMode::Freefly => "Free-fly enabled (RMB + WASD/QE to move, Z/C to roll, Shift to boost, L locks frustum)."@,
        }
    }

    pub fn status_message(self) -> (r: &'static str)
        ensures
            r@ == self.status_of(),
    {
        match self {
            MeshControlMode::Disabled => "Scripted orbit animates the camera (press M to switch modes).",
            MeshControlMode::Orbit => "Orbit control enabled (right-drag to orbit, scroll to zoom, L toggles frustum lock).",
            MeshControlMode::Freefly => "Free-fly enabled (RMB + WASD/QE to move, Z/C to roll, Shift to boost, L locks frustum).",
        }
    }
}

/// The modes follow one another in a circle of three.
pub proof fn law_modes_come_round(mode: MeshControlMode)
    ensures
        mode.next_of().next_of().next_of() == mode,
        mode.next_of() != mode,
        mode.next_of().next_of() != mode,
{
}

/// The camera of the preview and how it moves.
#[derive(Clone, Copy)]
pub struct PreviewView<S> {
    pub orbit: OrbitCamera<S>,
    pub camera: Camera3D<S>,
    pub mode: MeshControlMode,
    pub freefly: FreeflyController<S>,
    pub freefly_speed: S,
    pub freefly_velocity: Vec3<S>,
    pub freefly_rot_velocity: Vec3<S>,
    pub frustum_lock: bool,
    pub frustum_focus: Vec3<S>,
    pub frustum_distance: S,
}

/// How a scene remembers the camera of the preview.
#[derive(Clone, Copy)]
pub struct ScenePreviewCamera<S> {
    pub mode: MeshControlMode,
    pub orbit: OrbitCamera<S>,
    pub freefly: FreeflyController<S>,
    pub freefly_speed: S,
    pub frustum_lock: bool,
    pub frustum_focus: Vec3<S>,
    pub frustum_distance: S,
}

/// A distance that is not too small to look from.
pub open spec fn some_distance<S: Scalar>(x: S) -> S {
    x.larger_spec(ratio_spec(1, 10))
}

fn keep_distance<S: Scalar>(x: S) -> (r: S)
    ensures
        r == some_distance(x),
{
    x.larger(ratio(1, 10))
}

/// Where a camera looks that looks from its place in a direction, over a distance.
pub open spec fn looking_at<S: Scalar>(camera: Camera3D<S>, direction: Vec3<S>, distance: S) -> Camera3D<
    S,
> {
    Camera3D { target: camera.position.plus_spec(direction.scaled_spec(distance)), ..camera }
}

pub open spec fn has_length<S: Scalar>(v: Vec3<S>) -> bool {
    S::zero_spec().lt_spec(v.dot_spec(v))
}

fn is_long<S: Scalar>(v: Vec3<S>) -> (r: bool)
    ensures
        r == has_length(v),
{
    S::zero().lt(v.dot(v))
}

/// The side that two keys ask for.
pub open spec fn axis_of(more: bool, less: bool) -> i32 {
    if more == less {
        0
    } else if more {
        1
    } else {
        -1i32
    }
}

impl<S: Scalar> PreviewView<S> {
    pub open spec fn fresh<R: CameraRig<S>>() -> Self {
        let orbit = R::fresh_orbit_spec(Vec3::zero_spec(), S::from_count_spec(5));
        let camera = R::orbit_camera_spec(orbit);
        PreviewView {
            orbit,
            camera,
            mode: MeshControlMode::Disabled,
            freefly: FreeflyController::looking_as::<R>(camera),
            freefly_speed: S::from_count_spec(4),
            freefly_velocity: Vec3::zero_spec(),
            freefly_rot_velocity: Vec3::zero_spec(),
            frustum_lock: false,
            frustum_focus: Vec3::zero_spec(),
            frustum_distance: S::from_count_spec(5),
        }
    }

    pub fn new<R: CameraRig<S>>() -> (r: Self)
        ensures
            r == Self::fresh::<R>(),
    {
        let orbit = R::fresh_orbit(Vec3::zero(), S::from_count(5));
        let camera = R::orbit_camera(orbit);
        PreviewView {
            orbit,
            camera,
            mode: MeshControlMode::Disabled,
            freefly: FreeflyController::from_camera::<R>(camera),
            freefly_speed: S::from_count(4),
            freefly_velocity: Vec3::zero(),
            freefly_rot_velocity: Vec3::zero(),
            frustum_lock: false,
            frustum_focus: Vec3::zero(),
            frustum_distance: S::from_count(5),
        }
    }

    pub fn camera_forward(&self) -> (r: Vec3<S>)
        ensures
            r == self.camera.target.minus_spec(self.camera.position).unit_or_zero_spec(),
    {
        self.camera.target.minus(self.camera.position).unit_or_zero()
    }

    /// The camera circles with the orbit, and free flight starts from there.
    pub open spec fn circling<R: CameraRig<S>>(self, orbit: OrbitCamera<S>) -> Self {
        let camera = R::orbit_camera_spec(orbit);
        PreviewView {
            orbit,
            camera,
            freefly: FreeflyController::looking_as::<R>(camera),
            ..self
        }
    }

    fn circle<R: CameraRig<S>>(&mut self, orbit: OrbitCamera<S>)
        ensures
            *final(self) == old(self).circling::<R>(orbit),
    {
        self.orbit = orbit;
        self.camera = R::orbit_camera(orbit);
        self.freefly = FreeflyController::from_camera::<R>(self.camera);
    }

    pub open spec fn halted(self) -> Self {
        PreviewView {
            freefly_velocity: Vec3::zero_spec(),
            freefly_rot_velocity: Vec3::zero_spec(),
            ..self
        }
    }

    fn halt(&mut self)
        ensures
            *final(self) == old(self).halted(),
    {
        self.freefly_velocity = Vec3::zero();
        self.freefly_rot_velocity = Vec3::zero();
    }

    /// What a scene remembers of the camera.
    pub open spec fn captured(self) -> ScenePreviewCamera<S> {
        ScenePreviewCamera {
            mode: self.mode,
            orbit: self.orbit,
            freefly: self.freefly,
            freefly_speed: self.freefly_speed,
            frustum_lock: self.frustum_lock,
            frustum_focus: self.frustum_focus,
            frustum_distance: self.frustum_distance,
        }
    }

    pub fn capture_preview_camera(&self) -> (r: ScenePreviewCamera<S>)
        ensures
            r == self.captured(),
    {
        ScenePreviewCamera {
            mode: self.mode,
            orbit: self.orbit,
            freefly: self.freefly,
            freefly_speed: self.freefly_speed,
            frustum_lock: self.frustum_lock,
            frustum_focus: self.frustum_focus,
            frustum_distance: self.frustum_distance,
        }
    }

    /// The camera set as a scene remembers it, within what it can do.
    pub open spec fn restored<R: CameraRig<S>>(self, preview: ScenePreviewCamera<S>) -> Self {
        let orbit = OrbitCamera {
            target: preview.orbit.target,
            radius: some_distance(preview.orbit.radius),
            yaw_radians: preview.orbit.yaw_radians,
            pitch_radians: held_pitch::<S, R>(preview.orbit.pitch_radians),
        };
        let set = PreviewView {
            orbit,
            camera: self.camera,
            mode: preview.mode,
            freefly: preview.freefly,
            freefly_speed: preview.freefly_speed.larger_spec(ratio_spec(1, 100)),
            freefly_velocity: Vec3::zero_spec(),
            freefly_rot_velocity: Vec3::zero_spec(),
            frustum_lock: preview.frustum_lock,
            frustum_focus: preview.frustum_focus,
            frustum_distance: some_distance(preview.frustum_distance),
        };
        match preview.mode {
            MeshControlMode::Freefly => PreviewView {
                camera: preview.freefly.camera_of::<R>(),
                ..set
            },
            _ => set.circling::<R>(orbit),
        }
    }

    pub fn apply_preview_camera<R: CameraRig<S>>(&mut self, preview: ScenePreviewCamera<S>)
        ensures
            *final(self) == old(self).restored::<R>(preview),
    {
        let orbit = OrbitCamera {
            target: preview.orbit.target,
            radius: keep_distance(preview.orbit.radius),
            yaw_radians: preview.orbit.yaw_radians,
            pitch_radians: hold_pitch::<S, R>(preview.orbit.pitch_radians),
        };
        self.orbit = orbit;
        self.freefly = preview.freefly;
        self.freefly_speed = preview.freefly_speed.larger(ratio(1, 100));
        self.frustum_lock = preview.frustum_lock;
        self.frustum_focus = preview.frustum_focus;
        self.frustum_distance = keep_distance(preview.frustum_distance);
        self.halt();
        self.mode = preview.mode;
        match preview.mode {
            MeshControlMode::Freefly => {
                self.camera = self.freefly.to_camera::<R>();
            },
            _ => {
                self.circle::<R>(orbit);
            },
        }
    }

    /// The camera looks at a point and circles it.
    pub open spec fn focused<R: CameraRig<S>>(self, center: Vec3<S>) -> Self {
        let distance = some_distance(self.camera.position.minus_spec(center).length_spec());
        (PreviewView { frustum_focus: center, frustum_distance: distance, ..self }).circling::<R>(
            OrbitCamera { target: center, radius: distance, ..self.orbit },
        )
    }

    pub fn focus_mesh_center<R: CameraRig<S>>(&mut self, center: Vec3<S>)
        ensures
            *final(self) == old(self).focused::<R>(center),
    {
        let distance = keep_distance(self.camera.position.minus(center).length());
        self.frustum_focus = center;
        self.frustum_distance = distance;
        let orbit = OrbitCamera {
            target: center,
            radius: distance,
            yaw_radians: self.orbit.yaw_radians,
            pitch_radians: self.orbit.pitch_radians,
        };
        self.circle::<R>(orbit);
    }

    /// The orbit on which the camera is where it is.
    pub open spec fn synced_orbit<R: CameraRig<S>>(self) -> OrbitCamera<S> {
        let away = self.camera.position.minus_spec(self.orbit.target);
        let offset = if away.dot_spec(away).lt_spec(ratio_spec(1, 100000)) {
            Vec3 {
                x: S::zero_spec(),
                y: S::zero_spec(),
                z: some_distance(self.orbit.radius),
            }
        } else {
            away
        };
        let radius = some_distance(offset.length_spec());
        OrbitCamera {
            target: self.orbit.target,
            radius,
            yaw_radians: R::turn_spec(offset.x, offset.z),
            pitch_radians: held_pitch::<S, R>(
                R::rise_spec(
                    clamped_spec(
                        offset.y.over_spec(radius),
                        S::one_spec().negated_spec(),
                        S::one_spec(),
                    ),
                ),
            ),
        }
    }

    fn sync_orbit_from_camera_pose<R: CameraRig<S>>(&self) -> (r: OrbitCamera<S>)
        ensures
            r == self.synced_orbit::<R>(),
    {
        let away = self.camera.position.minus(self.orbit.target);
        let offset = if away.dot(away).lt(ratio(1, 100000)) {
            Vec3 { x: S::zero(), y: S::zero(), z: keep_distance(self.orbit.radius) }
        } else {
            away
        };
        let radius = keep_distance(offset.length());
        OrbitCamera {
            target: self.orbit.target,
            radius,
            yaw_radians: R::turn(offset.x, offset.z),
            pitch_radians: hold_pitch::<S, R>(
                R::rise(clamped(offset.y.over(radius), S::one().negated(), S::one())),
            ),
        }
    }

    /// After a change of mode. The camera stays where it is.
    pub open spec fn switched<R: CameraRig<S>>(self, mode: MeshControlMode) -> Self {
        if self.mode == mode {
            self
        } else {
            let still = self.halted();
            let set = match mode {
                MeshControlMode::Freefly => {
                    let freefly = FreeflyController::looking_as::<R>(self.camera);
                    PreviewView { freefly, camera: freefly.camera_of::<R>(), mode, ..still }
                },
                _ => PreviewView {
                    mode,
                    ..still.circling::<R>(self.synced_orbit::<R>())
                },
            };
            if set.frustum_lock {
                PreviewView {
                    frustum_distance: some_distance(
                        set.camera.position.minus_spec(set.frustum_focus).length_spec(),
                    ),
                    ..set
                }
            } else {
                set
            }
        }
    }

    /// Changes the mode; whether it was another one before. The wheel and the mouse are then at
    /// rest.
    pub fn set_mesh_control_mode<R: CameraRig<S>>(
        &mut self,
        mode: MeshControlMode,
        input: &mut Input<S>,
    ) -> (r: bool)
        ensures
            r == (old(self).mode != mode),
            *final(self) == old(self).switched::<R>(mode),
            final(input).bindings == old(input).bindings,
            final(input).events == old(input).events,
            final(input).state == old(input).state,
            final(input).wheel == (if r {
                S::zero_spec()
            } else {
                old(input).wheel
            }),
            final(input).mouse_delta == (if r {
                (S::zero_spec(), S::zero_spec())
            } else {
                old(input).mouse_delta
            }),
    {
        if self.mode == mode {
            return false;
        }
        self.halt();
        match mode {
            MeshControlMode::Freefly => {
                self.freefly = FreeflyController::from_camera::<R>(self.camera);
                self.camera = self.freefly.to_camera::<R>();
            },
            _ => {
                let orbit = self.sync_orbit_from_camera_pose::<R>();
                self.circle::<R>(orbit);
            },
        }
        self.mode = mode;
        input.wheel = S::zero();
        input.mouse_delta = (S::zero(), S::zero());
        if self.frustum_lock {
            self.frustum_distance = keep_distance(
                self.camera.position.minus(self.frustum_focus).length(),
            );
        }
        true
    }

    /// After the lock on a point was set or let go.
    pub open spec fn locked<R: CameraRig<S>>(self, enabled: bool, focus: Vec3<S>) -> Self {
        if self.frustum_lock == enabled {
            self
        } else if enabled {
            let direction = focus.minus_spec(self.freefly.position).unit_or_zero_spec();
            PreviewView {
                frustum_lock: true,
                frustum_focus: focus,
                frustum_distance: some_distance(
                    self.camera.position.minus_spec(focus).length_spec(),
                ),
                freefly: if self.mode == MeshControlMode::Freefly && has_length(direction) {
                    FreeflyController {
                        yaw: R::turn_spec(direction.x, direction.z),
                        pitch: held_pitch::<S, R>(R::rise_spec(direction.y)),
                        ..self.freefly
                    }
                } else {
                    self.freefly
                },
                ..self.halted()
            }
        } else {
            PreviewView {
                frustum_lock: false,
                frustum_distance: self.orbit.radius,
                ..self.halted()
            }
        }
    }

    /// Sets the lock on a point or lets it go; whether it was otherwise before.
    pub fn set_frustum_lock<R: CameraRig<S>>(&mut self, enabled: bool, focus: Vec3<S>) -> (r: bool)
        ensures
            r == (old(self).frustum_lock != enabled),
            *final(self) == old(self).locked::<R>(enabled, focus),
    {
        if self.frustum_lock == enabled {
            return false;
        }
        if enabled {
            self.frustum_focus = focus;
            self.frustum_distance = keep_distance(self.camera.position.minus(focus).length());
            if self.mode == MeshControlMode::Freefly {
                let direction = focus.minus(self.freefly.position).unit_or_zero();
                if is_long(direction) {
                    self.freefly.yaw = R::turn(direction.x, direction.z);
                    self.freefly.pitch = hold_pitch::<S, R>(R::rise(direction.y));
                }
            }
        } else {
            self.frustum_distance = self.orbit.radius;
        }
        self.frustum_lock = enabled;
        self.halt();
        true
    }

    /// The camera as it was before it was turned, at the distance that it has.
    pub open spec fn reset<R: CameraRig<S>>(self, selected: Option<Vec3<S>>) -> Self {
        let circling = self.halted().circling::<R>(
            R::fresh_orbit_spec(self.orbit.target, self.orbit.radius),
        );
        let set = if self.mode == MeshControlMode::Freefly {
            PreviewView { camera: circling.freefly.camera_of::<R>(), ..circling }
        } else {
            circling
        };
        if self.frustum_lock {
            let focus = match selected {
                Some(place) => place,
                None => set.orbit.target,
            };
            PreviewView {
                frustum_focus: focus,
                frustum_distance: some_distance(
                    set.camera.position.minus_spec(focus).length_spec(),
                ),
                ..set
            }
        } else {
            PreviewView { frustum_distance: set.orbit.radius, ..set }
        }
    }

    pub fn reset_mesh_camera<R: CameraRig<S>>(&mut self, selected: Option<Vec3<S>>)
        ensures
            *final(self) == old(self).reset::<R>(selected),
    {
        let orbit = R::fresh_orbit(self.orbit.target, self.orbit.radius);
        self.circle::<R>(orbit);
        self.halt();
        if self.mode == MeshControlMode::Freefly {
            self.camera = self.freefly.to_camera::<R>();
        }
        if self.frustum_lock {
            let focus = match selected {
                Some(place) => place,
                None => self.orbit.target,
            };
            self.frustum_focus = focus;
            self.frustum_distance = keep_distance(self.camera.position.minus(focus).length());
        } else {
            self.frustum_distance = self.orbit.radius;
        }
    }

    /// The script turns the camera.
    pub open spec fn scripted<R: CameraRig<S>>(self, dt: S) -> Self {
        self.halted().circling::<R>(
            R::orbited_spec(
                self.orbit,
                Vec2 {
                    x: ratio_spec::<S>(1, 4).times_spec(dt),
                    y: ratio_spec::<S>(12, 100).times_spec(dt),
                },
            ),
        )
    }

    /// Whether the mouse drags the camera.
    pub open spec fn drags(input: Input<S>) -> bool {
        &&& input.state.right_pressed
        &&& S::machine_epsilon_spec().lt_spec(input.mouse_delta.0.magnitude_spec())
            || S::machine_epsilon_spec().lt_spec(input.mouse_delta.1.magnitude_spec())
    }

    /// Whether the wheel is turned and not taken by the lock.
    pub open spec fn rolls(self, input: Input<S>) -> bool {
        S::zero_spec().lt_spec(input.wheel.magnitude_spec()) && !self.frustum_lock
    }

    /// The mouse turns the camera and the wheel moves it.
    pub open spec fn dragged<R: CameraRig<S>>(self, input: Input<S>) -> Self {
        let turned = if Self::drags(input) {
            R::orbited_spec(
                self.orbit,
                Vec2 {
                    x: input.mouse_delta.0.times_spec(ratio_spec(8, 1000)),
                    y: input.mouse_delta.1.times_spec(ratio_spec(8, 1000)),
                },
            )
        } else {
            self.orbit
        };
        self.halted().circling::<R>(
            if self.rolls(input) {
                R::zoomed_spec(
                    turned,
                    R::grown_spec(input.wheel.times_spec(ratio_spec(12, 100))),
                )
            } else {
                turned
            },
        )
    }

    fn script<R: CameraRig<S>>(&mut self, dt: S)
        ensures
            *final(self) == old(self).scripted::<R>(dt),
    {
        let delta = Vec2 {
            x: ratio::<S>(1, 4).times(dt),
            y: ratio::<S>(12, 100).times(dt),
        };
        let orbit = R::orbited(self.orbit, delta);
        self.halt();
        self.circle::<R>(orbit);
    }

    fn drag<R: CameraRig<S>>(&mut self, input: &Input<S>)
        ensures
            *final(self) == old(self).dragged::<R>(*input),
    {
        let mut orbit = self.orbit;
        let (dx, dy) = input.mouse_delta;
        if input.right_held() && (S::machine_epsilon().lt(dx.magnitude())
            || S::machine_epsilon().lt(dy.magnitude())) {
            let delta = Vec2 { x: dx.times(ratio(8, 1000)), y: dy.times(ratio(8, 1000)) };
            orbit = R::orbited(orbit, delta);
        }
        if S::zero().lt(input.wheel.magnitude()) && !self.frustum_lock {
            orbit = R::zoomed(orbit, R::grown(input.wheel.times(ratio(12, 100))));
        }
        self.halt();
        self.circle::<R>(orbit);
    }

    /// How fast the keys and the mouse ask the camera to turn.
    pub open spec fn turn_asked(input: Input<S>, dt: S) -> Vec3<S> {
        let roll = S::from_steps_spec(
            axis_of(
                input.state.sees(InputAction::FreeflyRollRight),
                input.state.sees(InputAction::FreeflyRollLeft),
            ),
        );
        Vec3 {
            x: if input.state.right_pressed {
                input.mouse_delta.0.times_spec(ratio_spec(8, 1000)).over_spec(dt)
            } else {
                S::zero_spec()
            },
            y: if input.state.right_pressed {
                input.mouse_delta.1.times_spec(ratio_spec(8, 1000)).over_spec(dt)
            } else {
                S::zero_spec()
            },
            z: if S::zero_spec().lt_spec(roll.magnitude_spec()) {
                roll.times_spec(ratio_spec(5, 2))
            } else {
                S::zero_spec()
            },
        }
    }

    /// How much of a change comes about in a step at a rate.
    pub open spec fn share<R: CameraRig<S>>(dt: S, rate: usize) -> S {
        S::one_spec().minus_spec(
            R::grown_spec(dt.negated_spec().times_spec(S::from_count_spec(rate))),
        )
    }

    /// The camera turned by a step; the roll is as it is before it is brought within half a turn.
    pub open spec fn steered<R: CameraRig<S>>(self, input: Input<S>, dt: S) -> Self {
        let spin = self.freefly_rot_velocity.lerp_spec(
            Self::turn_asked(input, dt),
            Self::share::<R>(dt, 14),
        );
        PreviewView {
            freefly_rot_velocity: spin,
            freefly: FreeflyController {
                position: self.freefly.position,
                yaw: self.freefly.yaw.plus_spec(spin.x.times_spec(dt)),
                pitch: held_pitch::<S, R>(self.freefly.pitch.plus_spec(spin.y.times_spec(dt))),
                roll: self.freefly.roll.plus_spec(spin.z.times_spec(dt)),
            },
            ..self
        }
    }

    /// The roll that a step leads to, before it is brought within half a turn.
    pub fn steer<R: CameraRig<S>>(&self, input: &Input<S>, dt: S) -> (r: Self)
        ensures
            r == self.steered::<R>(*input, dt),
    {
        let mut asked = Vec3 { x: S::zero(), y: S::zero(), z: S::zero() };
        if input.right_held() {
            asked.x = input.mouse_delta.0.times(ratio(8, 1000)).over(dt);
            asked.y = input.mouse_delta.1.times(ratio(8, 1000)).over(dt);
        }
        let more = input.freefly_roll_right();
        let less = input.freefly_roll_left();
        let side: i32 = if more == less {
            0
        } else if more {
            1
        } else {
            -1
        };
        let roll = S::from_steps(side);
        if S::zero().lt(roll.magnitude()) {
            asked.z = roll.times(ratio(5, 2));
        }
        let share = S::one().minus(R::grown(dt.negated().times(S::from_count(14))));
        let spin = self.freefly_rot_velocity.lerp(asked, share);
        PreviewView {
            orbit: self.orbit,
            camera: self.camera,
            mode: self.mode,
            freefly_speed: self.freefly_speed,
            freefly_velocity: self.freefly_velocity,
            frustum_lock: self.frustum_lock,
            frustum_focus: self.frustum_focus,
            frustum_distance: self.frustum_distance,
            freefly_rot_velocity: spin,
            freefly: FreeflyController {
                position: self.freefly.position,
                yaw: self.freefly.yaw.plus(spin.x.times(dt)),
                pitch: hold_pitch::<S, R>(self.freefly.pitch.plus(spin.y.times(dt))),
                roll: self.freefly.roll.plus(spin.z.times(dt)),
            },
        }
    }

    /// A direction with an axis added, taken off, both or neither.
    pub open spec fn pushed(from: Vec3<S>, axis: Vec3<S>, more: bool, less: bool) -> Vec3<S> {
        let added = if more {
            from.plus_spec(axis)
        } else {
            from
        };
        if less {
            added.minus_spec(axis)
        } else {
            added
        }
    }

    fn push_along(from: Vec3<S>, axis: Vec3<S>, more: bool, less: bool) -> (r: Vec3<S>)
        ensures
            r == Self::pushed(from, axis, more, less),
    {
        let mut r = from;
        if more {
            r = r.plus(axis);
        }
        if less {
            r = r.minus(axis);
        }
        r
    }

    /// Where the keys ask the camera to go.
    pub open spec fn way_asked(self, axes: Axes<S>, s: InputState<S>) -> Vec3<S> {
        if self.frustum_lock {
            Vec3::zero_spec()
        } else {
            let ahead = Self::pushed(
                Vec3::zero_spec(),
                axes.forward.unit_or_zero_spec(),
                s.sees(InputAction::FreeflyForward),
                s.sees(InputAction::FreeflyBackward),
            );
            let aside = Self::pushed(
                ahead,
                axes.right.unit_or_zero_spec(),
                s.sees(InputAction::FreeflyRight),
                s.sees(InputAction::FreeflyLeft),
            );
            Self::pushed(
                aside,
                axes.up.unit_or_zero_spec(),
                s.sees(InputAction::FreeflyAscend),
                s.sees(InputAction::FreeflyDescend),
            )
        }
    }

    /// How fast the keys ask the camera to move.
    pub open spec fn velocity_asked(self, axes: Axes<S>, s: InputState<S>) -> Vec3<S> {
        let way = self.way_asked(axes, s);
        if has_length(way) {
            way.unit_or_zero_spec().scaled_spec(self.freefly_speed).scaled_spec(
                if s.sees(InputAction::FreeflyBoost) {
                    S::from_count_spec(3)
                } else {
                    S::one_spec()
                },
            )
        } else {
            Vec3::zero_spec()
        }
    }

    fn ask_velocity(&self, axes: Axes<S>, input: &Input<S>) -> (r: Vec3<S>)
        ensures
            r == self.velocity_asked(axes, input.state),
    {
        let mut way = Vec3::zero();
        if !self.frustum_lock {
            way = Self::push_along(
                way,
                axes.forward.unit_or_zero(),
                input.freefly_forward(),
                input.freefly_backward(),
            );
            way = Self::push_along(
                way,
                axes.right.unit_or_zero(),
                input.freefly_right(),
                input.freefly_left(),
            );
            way = Self::push_along(
                way,
                axes.up.unit_or_zero(),
                input.freefly_ascend(),
                input.freefly_descend(),
            );
        }
        if is_long(way) {
            let boost = if input.freefly_boost() {
                S::from_count(3)
            } else {
                S::one()
            };
            way.unit_or_zero().scaled(self.freefly_speed).scaled(boost)
        } else {
            Vec3::zero()
        }
    }

    /// The camera moved by a step, with the speed that the wheel asks for afterwards.
    pub open spec fn moved<R: CameraRig<S>>(self, input: Input<S>, dt: S) -> Self {
        let velocity = self.freefly_velocity.lerp_spec(
            self.velocity_asked(self.freefly.axes_of::<R>(), input.state),
            Self::share::<R>(dt, 10),
        );
        PreviewView {
            freefly_velocity: velocity,
            freefly: FreeflyController {
                position: self.freefly.position.plus_spec(velocity.scaled_spec(dt)),
                ..self.freefly
            },
            freefly_speed: if self.rolls(input) {
                clamped_spec(
                    self.freefly_speed.times_spec(
                        clamped_spec(
                            S::one_spec().plus_spec(input.wheel.times_spec(ratio_spec(6, 100))),
                            ratio_spec(1, 5),
                            S::from_count_spec(5),
                        ),
                    ),
                    ratio_spec(1, 10),
                    S::from_count_spec(200),
                )
            } else {
                self.freefly_speed
            },
            ..self
        }
    }

    fn move_on<R: CameraRig<S>>(&mut self, input: &Input<S>, dt: S)
        ensures
            *final(self) == old(self).moved::<R>(*input, dt),
    {
        let axes = R::axes(self.freefly.yaw, self.freefly.pitch, self.freefly.roll);
        let asked = self.ask_velocity(axes, input);
        let share = S::one().minus(R::grown(dt.negated().times(S::from_count(10))));
        self.freefly_velocity = self.freefly_velocity.lerp(asked, share);
        self.freefly.position = self.freefly.position.plus(self.freefly_velocity.scaled(dt));
        if S::zero().lt(input.wheel.magnitude()) && !self.frustum_lock {
            let factor = clamped(
                S::one().plus(input.wheel.times(ratio(6, 100))),
                ratio(1, 5),
                S::from_count(5),
            );
            self.freefly_speed = clamped(
                self.freefly_speed.times(factor),
                ratio(1, 10),
                S::from_count(200),
            );
        }
    }

    /// The camera put where it flies; with a lock it looks at the point, else the orbit follows.
    pub open spec fn framed<R: CameraRig<S>>(self) -> Self {
        let camera = self.freefly.camera_of::<R>();
        if self.frustum_lock {
            let direction = self.frustum_focus.minus_spec(camera.position).unit_or_zero_spec();
            let aimed = if has_length(direction) {
                looking_at(camera, direction, self.frustum_distance)
            } else {
                camera
            };
            PreviewView {
                camera: aimed,
                freefly: FreeflyController::looking_as::<R>(aimed),
                ..self
            }
        } else {
            PreviewView {
                camera,
                orbit: OrbitCamera {
                    target: camera.target,
                    radius: some_distance(
                        camera.target.minus_spec(camera.position).length_spec(),
                    ),
                    ..self.orbit
                },
                ..self
            }
        }
    }

    fn frame<R: CameraRig<S>>(&mut self)
        ensures
            *final(self) == old(self).framed::<R>(),
    {
        self.camera = self.freefly.to_camera::<R>();
        if self.frustum_lock {
            let direction = self.frustum_focus.minus(self.camera.position).unit_or_zero();
            if is_long(direction) {
                self.camera.target = self.camera.position.plus(
                    direction.scaled(self.frustum_distance),
                );
            }
            self.freefly = FreeflyController::from_camera::<R>(self.camera);
        } else {
            self.orbit.target = self.camera.target;
            self.orbit.radius = keep_distance(
                self.camera.target.minus(self.camera.position).length(),
            );
        }
    }

    /// The least time that a step of free flight takes.
    pub open spec fn step_of(dt: S) -> S {
        dt.larger_spec(ratio_spec(1, 1000000))
    }

    /// The roll that free flight leads to, before it is brought within half a turn.
    pub open spec fn roll_after<R: CameraRig<S>>(self, input: Input<S>, dt: S) -> S {
        self.steered::<R>(input, Self::step_of(dt)).freefly.roll
    }

    /// The camera after a step of free flight.
    pub open spec fn flown<R: CameraRig<S>>(self, input: Input<S>, dt: S) -> Self {
        let step = Self::step_of(dt);
        let turned = self.steered::<R>(input, step);
        let wound = PreviewView {
            freefly: FreeflyController {
                roll: wrapped(turned.freefly.roll, R::half_turn_spec()),
                ..turned.freefly
            },
            ..turned
        };
        wound.moved::<R>(input, step).framed::<R>()
    }

    fn fly<R: CameraRig<S>>(&mut self, input: &Input<S>, dt: S)
        requires
            wraps(old(self).roll_after::<R>(*input, dt), R::half_turn_spec()),
        ensures
            *final(self) == old(self).flown::<R>(*input, dt),
    {
        let step = dt.larger(ratio(1, 1000000));
        let mut turned = self.steer::<R>(input, step);
        turned.freefly.roll = wrap_angle(turned.freefly.roll, R::half_turn());
        turned.move_on::<R>(input, step);
        turned.frame::<R>();
        *self = turned;
    }

    /// The camera after the mode had its way.
    pub open spec fn driven<R: CameraRig<S>>(self, input: Input<S>, dt: S) -> Self {
        match self.mode {
            MeshControlMode::Disabled => self.scripted::<R>(dt),
            MeshControlMode::Orbit => self.dragged::<R>(input),
            MeshControlMode::Freefly => self.flown::<R>(input, dt),
        }
    }

    /// With a lock, the camera held on its point; without one, the point goes with the camera.
    pub open spec fn held<R: CameraRig<S>>(self, focus: Vec3<S>) -> Self {
        if self.frustum_lock {
            let point = if has_length(focus) {
                focus
            } else {
                self.frustum_focus
            };
            let direction = point.minus_spec(self.camera.position).unit_or_zero_spec();
            let set = PreviewView { frustum_focus: point, ..self };
            if !has_length(direction) {
                set
            } else if self.mode == MeshControlMode::Freefly {
                let aimed = looking_at(self.camera, direction, self.frustum_distance);
                PreviewView {
                    camera: aimed,
                    freefly: FreeflyController::looking_as::<R>(aimed),
                    ..set
                }
            } else {
                let orbit = OrbitCamera {
                    target: point,
                    radius: some_distance(self.frustum_distance),
                    ..self.orbit
                };
                PreviewView {
                    orbit,
                    camera: Camera3D { target: focus, ..R::orbit_camera_spec(orbit) },
                    ..set
                }
            }
        } else if self.mode == MeshControlMode::Freefly {
            PreviewView {
                frustum_focus: self.camera.target,
                frustum_distance: some_distance(
                    self.camera.target.minus_spec(self.camera.position).length_spec(),
                ),
                ..self
            }
        } else {
            PreviewView {
                frustum_focus: self.orbit.target,
                frustum_distance: self.orbit.radius,
                ..self
            }
        }
    }

    fn hold<R: CameraRig<S>>(&mut self, focus: Vec3<S>)
        ensures
            *final(self) == old(self).held::<R>(focus),
    {
        if self.frustum_lock {
            if is_long(focus) {
                self.frustum_focus = focus;
            }
            let direction = self.frustum_focus.minus(self.camera.position).unit_or_zero();
            if is_long(direction) {
                if self.mode == MeshControlMode::Freefly {
                    self.camera.target = self.camera.position.plus(
                        direction.scaled(self.frustum_distance),
                    );
                    self.freefly = FreeflyController::from_camera::<R>(self.camera);
                } else {
                    self.orbit.target = self.frustum_focus;
                    self.orbit.radius = keep_distance(self.frustum_distance);
                    self.camera = R::orbit_camera(self.orbit);
                    self.camera.target = focus;
                }
            }
        } else if self.mode == MeshControlMode::Freefly {
            self.frustum_focus = self.camera.target;
            self.frustum_distance = keep_distance(
                self.frustum_focus.minus(self.camera.position).length(),
            );
        } else {
            self.frustum_focus = self.orbit.target;
            self.frustum_distance = self.orbit.radius;
        }
    }

    /// Whether the wheel is used up by a step.
    pub open spec fn takes_wheel(self, input: Input<S>) -> bool {
        self.mode != MeshControlMode::Disabled && self.rolls(input)
    }

    /// Moves the camera by a step. `selected` is where the selected entity is; without one the
    /// point of a lock is the middle of the orbit. Whether the wheel changed the speed of free
    /// flight.
    pub fn update_mesh_camera<R: CameraRig<S>>(
        &mut self,
        input: &mut Input<S>,
        selected: Option<Vec3<S>>,
        dt: S,
    ) -> (r: bool)
        requires
            old(self).mode == MeshControlMode::Freefly ==> wraps(
                old(self).roll_after::<R>(*old(input), dt),
                R::half_turn_spec(),
            ),
        ensures
            ({
                let driven = old(self).driven::<R>(*old(input), dt);
                *final(self) == driven.held::<R>(
                    match selected {
                        Some(place) => place,
                        None => driven.orbit.target,
                    },
                )
            }),
            r == (old(self).mode == MeshControlMode::Freefly && old(self).rolls(*old(input))),
            final(input).wheel == (if old(self).takes_wheel(*old(input)) {
                S::zero_spec()
            } else {
                old(input).wheel
            }),
            final(input).bindings == old(input).bindings,
            final(input).events == old(input).events,
            final(input).mouse_delta == old(input).mouse_delta,
            final(input).state == old(input).state,
    {
        let rolled = S::zero().lt(input.wheel.magnitude()) && !self.frustum_lock;
        let mode = self.mode;
        match mode {
            MeshControlMode::Disabled => self.script::<R>(dt),
            MeshControlMode::Orbit => self.drag::<R>(&*input),
            MeshControlMode::Freefly => self.fly::<R>(&*input, dt),
        }
        if mode != MeshControlMode::Disabled && rolled {
            input.wheel = S::zero();
        }
        let focus = match selected {
            Some(place) => place,
            None => self.orbit.target,
        };
        self.hold::<R>(focus);
        mode == MeshControlMode::Freefly && rolled
    }
}

impl<S: Scalar> PreviewView<S> {
    /// Moves the camera by a step as `update_mesh_camera` does, unless free flight would lead to a
    /// roll that more than `most` turns do not bring within half a turn: then nothing changes.
    pub fn try_update_mesh_camera<R: CameraRig<S>>(
        &mut self,
        input: &mut Input<S>,
        selected: Option<Vec3<S>>,
        dt: S,
        most: u32,
    ) -> (r: Option<bool>)
        ensures
            ({
                let can = old(self).mode == MeshControlMode::Freefly ==> wraps_within(
                    old(self).roll_after::<R>(*old(input), dt),
                    R::half_turn_spec(),
                    most,
                );
                let driven = old(self).driven::<R>(*old(input), dt);
                &&& r is Some == can
                &&& if can {
                    &&& *final(self) == driven.held::<R>(
                        match selected {
                            Some(place) => place,
                            None => driven.orbit.target,
                        },
                    )
                    &&& r->0 == (old(self).mode == MeshControlMode::Freefly && old(self).rolls(
                        *old(input),
                    ))
                    &&& final(input).wheel == (if old(self).takes_wheel(*old(input)) {
                        S::zero_spec()
                    } else {
                        old(input).wheel
                    })
                } else {
                    *final(self) == *old(self) && final(input).wheel == old(input).wheel
                }
            }),
            final(input).bindings == old(input).bindings,
            final(input).events == old(input).events,
            final(input).mouse_delta == old(input).mouse_delta,
            final(input).state == old(input).state,
    {
        if self.mode == MeshControlMode::Freefly {
            let step = dt.larger(ratio(1, 1000000));
            let roll = self.steer::<R>(&*input, step).freefly.roll;
            if !can_wrap(roll, R::half_turn(), most) {
                return None;
            }
        }
        Some(self.update_mesh_camera::<R>(input, selected, dt))
    }
}

/// A camera that a scene remembers comes back as it was, as far as it was within what it can do.
pub proof fn law_remembered_camera_comes_back<S: Scalar, R: CameraRig<S>>(
    view: PreviewView<S>,
    other: PreviewView<S>,
)
    requires
        view.mode == MeshControlMode::Freefly,
        some_distance(view.orbit.radius) == view.orbit.radius,
        held_pitch::<S, R>(view.orbit.pitch_radians) == view.orbit.pitch_radians,
        view.freefly_speed.larger_spec(ratio_spec(1, 100)) == view.freefly_speed,
        some_distance(view.frustum_distance) == view.frustum_distance,
        view.camera == view.freefly.camera_of::<R>(),
    ensures
        other.restored::<R>(view.captured()) == view.halted(),
{
}

/// Steering without a lock, in every mode, leaves the point that a lock would take at what the
/// camera looks at or circles.
pub proof fn law_point_goes_with_the_camera<S: Scalar, R: CameraRig<S>>(
    view: PreviewView<S>,
    focus: Vec3<S>,
)
    requires
        !view.frustum_lock,
    ensures
        view.held::<R>(focus).frustum_focus == (if view.mode == MeshControlMode::Freefly {
            view.camera.target
        } else {
            view.orbit.target
        }),
        view.held::<R>(focus).camera == view.camera,
        view.held::<R>(focus).orbit == view.orbit,
{
}

/// Where the selected entity is: at the place of its mesh, or on the ground where it has none.
pub open spec fn place_of<S: Scalar, P, C>(info: EntityInfo<S, P, C>) -> Vec3<S> {
    match info.mesh_transform {
        Some(t) => t.translation,
        None => Vec3 { x: info.translation.x, y: info.translation.y, z: S::zero_spec() },
    }
}

pub fn find_place<S: Scalar, P, C>(info: &EntityInfo<S, P, C>) -> (r: Vec3<S>)
    ensures
        r == place_of(*info),
{
    match &info.mesh_transform {
        Some(t) => t.translation,
        None => Vec3 { x: info.translation.x, y: info.translation.y, z: S::zero() },
    }
}

/// What is said of a lock that was set or let go.
pub open spec fn lock_text(enabled: bool) -> Seq<char> {
    if enabled {
        "Frustum lock enabled (wheel adjusts focus distance)."@
    } else {
        "Frustum lock disabled."@
    }
}

pub fn lock_message(enabled: bool) -> (r: &'static str)
    ensures
        r@ == lock_text(enabled),
{
    if enabled {
        "Frustum lock enabled (wheel adjusts focus distance)."
    } else {
        "Frustum lock disabled."
    }
}

impl<S: Scalar> PreviewView<S> {
    /// The point that a lock holds on to: the selected entity, or what the camera circles.
    pub open spec fn focus_point<P, C>(self, selected: Option<EntityInfo<S, P, C>>) -> Vec3<S> {
        match selected {
            Some(info) => place_of(info),
            None => self.orbit.target,
        }
    }

    pub fn compute_focus_point<P, C>(&self, selected: &Option<EntityInfo<S, P, C>>) -> (r: Vec3<S>)
        ensures
            r == self.focus_point(*selected),
    {
        match selected {
            Some(info) => find_place(info),
            None => self.orbit.target,
        }
    }

    /// Brings a selected mesh into view; what is said then. What has no mesh leaves the camera as
    /// it is.
    pub fn focus_selection_with_info<R: CameraRig<S>, P, C>(
        &mut self,
        info: &EntityInfo<S, P, C>,
    ) -> (r: &'static str)
        ensures
            match info.mesh_transform {
                Some(t) => *final(self) == old(self).focused::<R>(t.translation) && r@
                    == "Framed selection in 3D viewport."@,
                None => *final(self) == *old(self) && r@ == "Centered 2D camera on selection."@,
            },
    {
        match &info.mesh_transform {
            Some(t) => {
                self.focus_mesh_center::<R>(t.translation);
                "Framed selection in 3D viewport."
            },
            None => "Centered 2D camera on selection.",
        }
    }

    /// The camera looks at what is selected, or at `fallback` where nothing is; what is said then.
    pub fn snap_frustum_to_selection<R: CameraRig<S>, P, C>(
        &mut self,
        selection: &Option<EntityInfo<S, P, C>>,
        fallback: Vec3<S>,
    ) -> (r: &'static str)
        ensures
            *final(self) == old(self).focused::<R>(
                match *selection {
                    Some(info) => place_of(info),
                    None => fallback,
                },
            ),
            r@ == "Frustum focus updated."@,
    {
        let focus = match selection {
            Some(info) => find_place(info),
            None => fallback,
        };
        self.focus_mesh_center::<R>(focus);
        "Frustum focus updated."
    }

    /// The camera after the keys for its mode and its lock: the mode first.
    pub open spec fn commanded<R: CameraRig<S>>(
        self,
        toggles_mode: bool,
        toggles_lock: bool,
        selected: Option<Vec3<S>>,
    ) -> Self {
        let switched = if toggles_mode {
            self.switched::<R>(self.mode.next_of())
        } else {
            self
        };
        if toggles_lock {
            let focus = match selected {
                Some(place) => place,
                None => switched.orbit.target,
            };
            switched.locked::<R>(!switched.frustum_lock, focus)
        } else {
            switched
        }
    }

    /// Does what the keys for the mode and the lock ask for; what is said last. `selected` is
    /// where the selected entity is.
    pub fn handle_mesh_control_input<R: CameraRig<S>>(
        &mut self,
        input: &mut Input<S>,
        selected: Option<Vec3<S>>,
    ) -> (r: Option<&'static str>)
        ensures
            ({
                let toggles_mode = old(input).state.sees(InputAction::MeshToggle);
                let toggles_lock = old(input).state.sees(InputAction::FrustumLockToggle);
                &&& *final(self) == old(self).commanded::<R>(toggles_mode, toggles_lock, selected)
                &&& final(input).bindings == old(input).bindings
                &&& final(input).events == old(input).events
                &&& final(input).state.same_mouse(old(input).state)
                &&& final(input).state.seen@ == old(input).state.seen@.update(
                    InputAction::MeshToggle.number_of(),
                    false,
                ).update(InputAction::FrustumLockToggle.number_of(), false)
                &&& final(input).wheel == (if toggles_mode {
                    S::zero_spec()
                } else {
                    old(input).wheel
                })
                &&& final(input).mouse_delta == (if toggles_mode {
                    (S::zero_spec(), S::zero_spec())
                } else {
                    old(input).mouse_delta
                })
                &&& if toggles_lock {
                    r is Some && r->0@ == lock_text(!old(self).frustum_lock)
                } else if toggles_mode {
                    r is Some && r->0@ == old(self).mode.next_of().status_of()
                } else {
                    r is None
                }
            }),
    {
        let mut said: Option<&'static str> = None;
        if input.take_mesh_toggle() {
            let next = self.mode.next();
            self.set_mesh_control_mode::<R>(next, input);
            said = Some(next.status_message());
        }
        if input.take_frustum_lock_toggle() {
            let enabled = !self.frustum_lock;
            let focus = match selected {
                Some(place) => place,
                None => self.orbit.target,
            };
            self.set_frustum_lock::<R>(enabled, focus);
            said = Some(lock_message(enabled));
        }
        said
    }
}

} // verus!
