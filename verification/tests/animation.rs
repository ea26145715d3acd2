use glam::{Mat4, Quat, Vec2, Vec3, Vec4};
use kestrel_engine::anim_stats::{AnimationRecorder, SpriteAnimPerfTelemetry};
use kestrel_engine::animation_time::{AnimationDelta, AnimationTime};
use kestrel_engine::clip::{AnimationClip, ClipInstance, ClipSample, TransformTrackPlayer};
use kestrel_engine::clip_drive::{sys_drive_transform_clips, ClipActor, ClipTransform};
use kestrel_engine::clip_track::{ClipInterpolation, ClipKeyframe, ClipSegment, ClipTrack};
use kestrel_engine::entity::Entity;
use kestrel_engine::events::{EventBus, GameEvent};
use kestrel_engine::scalar::{Scalar, TrackValue};
use kestrel_engine::skeleton::{
    drive_skeletal_clips, BoneTransforms, JointCurve, JointTrack, Pose, SkeletalClip,
    SkeletonActor, SkeletonAsset, SkeletonInstance, SkeletonJoint,
};
use kestrel_engine::sprite::{
    Sprite, SpriteAnimation, SpriteAnimationFrame, SpriteAnimationLoopMode, SpriteFrameHotData,
    SpriteFrameState, UNINITIALIZED_REGION,
};
use kestrel_engine::sprite_advance::{advance_animation, advance_animation_loop_no_events};
use kestrel_engine::sprite_soa::SpriteAnimatorSoa;
use kestrel_engine::sprite_systems::{
    flush_sprite_state_updates, queue_sprite_frame_update, sys_apply_sprite_frame_states,
    sys_drive_sprite_animations, sys_flag_fast_sprite_animators, SpriteActor,
    SpriteFrameApplyQueue,
};
use std::f32::consts::TAU;
use std::sync::Arc;

/// A number as the engine computes with it.
#[derive(Clone, Copy, Debug, PartialEq)]
struct Num(f32);

impl Scalar for Num {
    fn zero() -> Self {
        Num(0.0)
    }
    fn one() -> Self {
        Num(1.0)
    }
    fn clip_epsilon() -> Self {
        Num(1e-5)
    }
    fn machine_epsilon() -> Self {
        Num(f32::EPSILON)
    }
    fn from_count(count: usize) -> Self {
        Num(count as f32)
    }
    fn plus(self, rhs: Self) -> Self {
        Num(self.0 + rhs.0)
    }
    fn minus(self, rhs: Self) -> Self {
        Num(self.0 - rhs.0)
    }
    fn times(self, rhs: Self) -> Self {
        Num(self.0 * rhs.0)
    }
    fn over(self, rhs: Self) -> Self {
        Num(self.0 / rhs.0)
    }
    fn negated(self) -> Self {
        Num(-self.0)
    }
    fn rem_euclid_by(self, rhs: Self) -> Self {
        Num(self.0.rem_euclid(rhs.0))
    }
    fn floored(self) -> Self {
        Num(self.0.floor())
    }
    fn floor_count(self) -> u64 {
        self.0.floor() as u64
    }
    fn floor_steps(self) -> i32 {
        self.0.floor() as i32
    }
    fn ceil_steps(self) -> i32 {
        self.0.ceil() as i32
    }
    fn from_steps(steps: i32) -> Self {
        Num(steps as f32)
    }
    fn to_fixed(self) -> u32 {
        (self.0 * 65536.0).round() as u32
    }
    fn from_fixed(value: u32) -> Self {
        Num(value as f32 / 65536.0)
    }
    fn lt(self, rhs: Self) -> bool {
        self.0 < rhs.0
    }
    fn le(self, rhs: Self) -> bool {
        self.0 <= rhs.0
    }
    fn same(self, rhs: Self) -> bool {
        self.0 == rhs.0
    }
    fn finite(self) -> bool {
        self.0.is_finite()
    }
    fn nan(self) -> bool {
        self.0.is_nan()
    }
    fn larger(self, rhs: Self) -> Self {
        Num(self.0.max(rhs.0))
    }
    fn smaller(self, rhs: Self) -> Self {
        Num(self.0.min(rhs.0))
    }
    fn magnitude(self) -> Self {
        Num(self.0.abs())
    }
    fn rounded(self) -> Self {
        Num(self.0.round())
    }
    fn sign(self) -> Self {
        Num(self.0.signum())
    }
    fn root(self) -> Self {
        Num(self.0.sqrt())
    }
    fn topmost() -> Self {
        Num(f32::INFINITY)
    }
    fn zero_spec() -> Self {
        Self::zero()
    }
    fn one_spec() -> Self {
        Self::one()
    }
    fn clip_epsilon_spec() -> Self {
        Self::clip_epsilon()
    }
    fn machine_epsilon_spec() -> Self {
        Self::machine_epsilon()
    }
    fn from_count_spec(count: usize) -> Self {
        Self::from_count(count)
    }
    fn plus_spec(self, rhs: Self) -> Self {
        self.plus(rhs)
    }
    fn minus_spec(self, rhs: Self) -> Self {
        self.minus(rhs)
    }
    fn times_spec(self, rhs: Self) -> Self {
        self.times(rhs)
    }
    fn over_spec(self, rhs: Self) -> Self {
        self.over(rhs)
    }
    fn negated_spec(self) -> Self {
        self.negated()
    }
    fn rem_euclid_by_spec(self, rhs: Self) -> Self {
        self.rem_euclid_by(rhs)
    }
    fn floored_spec(self) -> Self {
        self.floored()
    }
    fn floor_count_spec(self) -> u64 {
        self.floor_count()
    }
    fn floor_steps_spec(self) -> i32 {
        self.floor_steps()
    }
    fn ceil_steps_spec(self) -> i32 {
        self.ceil_steps()
    }
    fn from_steps_spec(steps: i32) -> Self {
        Self::from_steps(steps)
    }
    fn to_fixed_spec(self) -> u32 {
        self.to_fixed()
    }
    fn from_fixed_spec(value: u32) -> Self {
        Self::from_fixed(value)
    }
    fn lt_spec(self, rhs: Self) -> bool {
        self.lt(rhs)
    }
    fn le_spec(self, rhs: Self) -> bool {
        self.le(rhs)
    }
    fn same_spec(self, rhs: Self) -> bool {
        self.same(rhs)
    }
    fn finite_spec(self) -> bool {
        self.finite()
    }
    fn nan_spec(self) -> bool {
        self.nan()
    }
    fn larger_spec(self, rhs: Self) -> Self {
        self.larger(rhs)
    }
    fn smaller_spec(self, rhs: Self) -> Self {
        self.smaller(rhs)
    }
    fn magnitude_spec(self) -> Self {
        self.magnitude()
    }
    fn rounded_spec(self) -> Self {
        self.rounded()
    }
    fn sign_spec(self) -> Self {
        self.sign()
    }
    fn root_spec(self) -> Self {
        self.root()
    }
    fn topmost_spec() -> Self {
        Self::topmost()
    }
}

#[derive(Clone, Copy, Debug, PartialEq)]
struct Flat(Vec2);

#[derive(Clone, Copy, Debug, PartialEq)]
struct Space(Vec3);

#[derive(Clone, Copy, Debug, PartialEq)]
struct Turn(Quat);

#[derive(Clone, Copy, Debug, PartialEq)]
struct Colour(Vec4);

#[derive(Clone, Copy, Debug, PartialEq)]
struct Matrix(Mat4);

impl TrackValue<Num> for Num {
    fn origin() -> Self {
        Num(0.0)
    }
    fn shifted(self, slope: Self, amount: Num) -> Self {
        Num(self.0 + slope.0 * amount.0)
    }
    fn mixed(self, to: Self, alpha: Num) -> Self {
        Num(self.0 + (to.0 - self.0) * alpha.0)
    }
    fn alike(self, other: Self) -> bool {
        self.0 == other.0
    }
    fn origin_spec() -> Self {
        <Self as TrackValue<Num>>::origin()
    }
    fn shifted_spec(self, slope: Self, amount: Num) -> Self {
        self.shifted(slope, amount)
    }
    fn mixed_spec(self, to: Self, alpha: Num) -> Self {
        self.mixed(to, alpha)
    }
    fn alike_spec(self, other: Self) -> bool {
        self.alike(other)
    }
}

impl TrackValue<Num> for Flat {
    fn origin() -> Self {
        Flat(Vec2::ZERO)
    }
    fn shifted(self, slope: Self, amount: Num) -> Self {
        Flat(self.0 + slope.0 * amount.0)
    }
    fn mixed(self, to: Self, alpha: Num) -> Self {
        Flat(self.0 + (to.0 - self.0) * alpha.0)
    }
    fn alike(self, other: Self) -> bool {
        self.0 == other.0
    }
    fn origin_spec() -> Self {
        <Self as TrackValue<Num>>::origin()
    }
    fn shifted_spec(self, slope: Self, amount: Num) -> Self {
        self.shifted(slope, amount)
    }
    fn mixed_spec(self, to: Self, alpha: Num) -> Self {
        self.mixed(to, alpha)
    }
    fn alike_spec(self, other: Self) -> bool {
        self.alike(other)
    }
}

impl TrackValue<Num> for Space {
    fn origin() -> Self {
        Space(Vec3::ZERO)
    }
    fn shifted(self, slope: Self, amount: Num) -> Self {
        Space(self.0 + slope.0 * amount.0)
    }
    fn mixed(self, to: Self, alpha: Num) -> Self {
        Space(self.0 + (to.0 - self.0) * alpha.0)
    }
    fn alike(self, other: Self) -> bool {
        self.0 == other.0
    }
    fn origin_spec() -> Self {
        <Self as TrackValue<Num>>::origin()
    }
    fn shifted_spec(self, slope: Self, amount: Num) -> Self {
        self.shifted(slope, amount)
    }
    fn mixed_spec(self, to: Self, alpha: Num) -> Self {
        self.mixed(to, alpha)
    }
    fn alike_spec(self, other: Self) -> bool {
        self.alike(other)
    }
}

impl TrackValue<Num> for Colour {
    fn origin() -> Self {
        Colour(Vec4::ZERO)
    }
    fn shifted(self, slope: Self, amount: Num) -> Self {
        Colour(self.0 + slope.0 * amount.0)
    }
    fn mixed(self, to: Self, alpha: Num) -> Self {
        Colour(self.0 + (to.0 - self.0) * alpha.0)
    }
    fn alike(self, other: Self) -> bool {
        self.0 == other.0
    }
    fn origin_spec() -> Self {
        <Self as TrackValue<Num>>::origin()
    }
    fn shifted_spec(self, slope: Self, amount: Num) -> Self {
        self.shifted(slope, amount)
    }
    fn mixed_spec(self, to: Self, alpha: Num) -> Self {
        self.mixed(to, alpha)
    }
    fn alike_spec(self, other: Self) -> bool {
        self.alike(other)
    }
}

impl TrackValue<Num> for Turn {
    fn origin() -> Self {
        Turn(Quat::IDENTITY)
    }
    fn shifted(self, slope: Self, amount: Num) -> Self {
        Turn(self.0 + slope.0 * amount.0)
    }
    fn mixed(self, to: Self, alpha: Num) -> Self {
        Turn(self.0.slerp(to.0, alpha.0))
    }
    fn alike(self, other: Self) -> bool {
        self.0 == other.0
    }
    fn origin_spec() -> Self {
        <Self as TrackValue<Num>>::origin()
    }
    fn shifted_spec(self, slope: Self, amount: Num) -> Self {
        self.shifted(slope, amount)
    }
    fn mixed_spec(self, to: Self, alpha: Num) -> Self {
        self.mixed(to, alpha)
    }
    fn alike_spec(self, other: Self) -> bool {
        self.alike(other)
    }
}

impl Pose<Space, Turn> for Matrix {
    fn identity() -> Self {
        Matrix(Mat4::IDENTITY)
    }
    fn within(self, inner: Self) -> Self {
        Matrix(self.0 * inner.0)
    }
    fn of_parts(scale: Space, rotation: Turn, translation: Space) -> Self {
        Matrix(Mat4::from_scale_rotation_translation(scale.0, rotation.0, translation.0))
    }
    fn unit(rotation: Turn) -> Turn {
        Turn(rotation.0.normalize())
    }
    fn identity_spec() -> Self {
        Self::identity()
    }
    fn within_spec(self, inner: Self) -> Self {
        self.within(inner)
    }
    fn of_parts_spec(scale: Space, rotation: Turn, translation: Space) -> Self {
        Self::of_parts(scale, rotation, translation)
    }
    fn unit_spec(rotation: Turn) -> Turn {
        Self::unit(rotation)
    }
}

fn text(value: &str) -> Arc<String> {
    Arc::new(value.to_string())
}

fn frame(region: &str, region_id: u16, duration: f32, events: Vec<&str>) -> SpriteAnimationFrame<Num> {
    SpriteAnimationFrame {
        name: text(region),
        region: text(region),
        region_id,
        duration: Num(duration),
        uv: [Num(0.0); 4],
        events: Arc::new(events.into_iter().map(text).collect()),
    }
}

fn animation_of(
    frames: Vec<SpriteAnimationFrame<Num>>,
    durations: Vec<f32>,
    offsets: Vec<f32>,
    total: f32,
    mode: SpriteAnimationLoopMode,
) -> SpriteAnimation<Num> {
    let hot = frames
        .iter()
        .map(|f| SpriteFrameHotData { region_id: f.region_id, uv: f.uv })
        .collect();
    SpriteAnimation::new(
        text("timeline"),
        Arc::new(frames),
        Arc::new(hot),
        Arc::new(durations.into_iter().map(Num).collect()),
        Arc::new(offsets.into_iter().map(Num).collect()),
        Num(total),
        mode,
    )
}

fn actor(
    entity: Entity,
    animation: SpriteAnimation<Num>,
    sprite: Sprite<Num>,
    fast: bool,
) -> SpriteActor<Num> {
    let state = SpriteFrameState::from_sprite(&sprite);
    SpriteActor { entity, animation, state, sprite, fast }
}

fn sprite(region: &str, region_id: u16) -> Sprite<Num> {
    Sprite { atlas_key: text("atlas"), region: text(region), region_id, uv: [Num(0.0); 4] }
}

fn row(index: u64) -> Entity {
    Entity::from_bits(index)
}

type Skeleton = SkeletonAsset<Space, Turn, Matrix>;
type SkeletonClip = SkeletalClip<Num, Space, Turn>;
type SkeletonPlayer = SkeletonInstance<Num, Space, Turn, Matrix>;
type Clip = AnimationClip<Num, Flat, Colour>;

fn joint(parent: Option<u32>, local: Vec3, world: Vec3) -> SkeletonJoint<Space, Turn, Matrix> {
    SkeletonJoint {
        parent,
        rest_local: Matrix(Mat4::from_translation(local)),
        rest_world: Matrix(Mat4::from_translation(world)),
        rest_translation: Space(local),
        rest_rotation: Turn(Quat::IDENTITY),
        rest_scale: Space(Vec3::ONE),
        inverse_bind: Matrix(Mat4::IDENTITY),
    }
}

fn keys<V>(start: V, end: V) -> Option<JointTrack<Num, V>> {
    Some(JointTrack {
        interpolation: ClipInterpolation::Linear,
        keyframes: vec![
            ClipKeyframe { time: Num(0.0), value: start },
            ClipKeyframe { time: Num(1.0), value: end },
        ],
    })
}

struct SkeletalFixture {
    skeleton: Arc<Skeleton>,
    clip: Arc<SkeletonClip>,
}

impl SkeletalFixture {
    /// A slime with a root that rises and a child that rises, turns and stretches.
    fn load() -> Self {
        let skeleton = Arc::new(SkeletonAsset {
            joints: vec![
                joint(None, Vec3::new(0.0, 1.0, 0.0), Vec3::new(0.0, 1.0, 0.0)),
                joint(Some(0), Vec3::new(0.0, 2.0, 0.0), Vec3::new(0.0, 3.0, 0.0)),
            ],
            roots: vec![0],
        });
        let clip = Arc::new(SkeletalClip {
            name: text("slime"),
            looped: true,
            duration: Num(1.0),
            channels: vec![
                JointCurve {
                    joint_index: 0,
                    translation: keys(
                        Space(Vec3::new(0.0, 1.0, 0.0)),
                        Space(Vec3::new(0.0, 1.1, 0.0)),
                    ),
                    rotation: None,
                    scale: None,
                },
                JointCurve {
                    joint_index: 1,
                    translation: keys(
                        Space(Vec3::new(0.0, 2.0, 0.0)),
                        Space(Vec3::new(0.0, 2.2, 0.0)),
                    ),
                    rotation: keys(
                        Turn(Quat::IDENTITY),
                        Turn(Quat::from_rotation_z(std::f32::consts::FRAC_PI_2)),
                    ),
                    scale: keys(Space(Vec3::ONE), Space(Vec3::new(1.1, 0.9, 1.0))),
                },
            ],
        });
        SkeletalFixture { skeleton, clip }
    }

    fn instance(&self) -> SkeletonPlayer {
        SkeletonInstance::new(text("slime_rig"), Arc::clone(&self.skeleton))
    }

    fn sample(&self, time: f32) -> SkeletonPlayer {
        let mut instance = self.instance();
        instance.reset_to_rest_pose();
        instance.evaluate_skeleton_pose(&self.clip, Num(time));
        instance
    }
}

fn assert_mat4_approx(actual: Matrix, expected: Mat4, label: &str) {
    let a = actual.0.to_cols_array();
    let b = expected.to_cols_array();
    for i in 0..16 {
        assert!((a[i] - b[i]).abs() < 1e-4, "{label}: {a:?} is not {b:?}");
    }
}

#[test]
fn slime_rig_pose_matches_keyframes() {
    let fixture = SkeletalFixture::load();

    let at_start = fixture.sample(0.0);
    let expected_root_start = Mat4::from_translation(Vec3::new(0.0, 1.0, 0.0));
    let expected_child_local_start = Mat4::from_translation(Vec3::new(0.0, 2.0, 0.0));
    let expected_child_model_start = expected_root_start * expected_child_local_start;
    assert_mat4_approx(at_start.local_poses[0], expected_root_start, "root local @ t=0");
    assert_mat4_approx(at_start.model_poses[0], expected_root_start, "root model @ t=0");
    assert_mat4_approx(at_start.palette[0], expected_root_start, "root palette @ t=0");
    assert_mat4_approx(at_start.local_poses[1], expected_child_local_start, "child local @ t=0");
    assert_mat4_approx(at_start.model_poses[1], expected_child_model_start, "child model @ t=0");
    assert_mat4_approx(at_start.palette[1], expected_child_model_start, "child palette @ t=0");

    let at_mid = fixture.sample(0.5);
    let expected_root_mid = Mat4::from_translation(Vec3::new(0.0, 1.05, 0.0));
    let expected_child_local_mid = Mat4::from_scale_rotation_translation(
        Vec3::new(1.05, 0.95, 1.0),
        Quat::from_rotation_z(std::f32::consts::FRAC_PI_4),
        Vec3::new(0.0, 2.1, 0.0),
    );
    let expected_child_model_mid = expected_root_mid * expected_child_local_mid;
    assert_mat4_approx(at_mid.local_poses[0], expected_root_mid, "root local @ t=0.5");
    assert_mat4_approx(at_mid.model_poses[0], expected_root_mid, "root model @ t=0.5");
    assert_mat4_approx(at_mid.palette[0], expected_root_mid, "root palette @ t=0.5");
    assert_mat4_approx(at_mid.local_poses[1], expected_child_local_mid, "child local @ t=0.5");
    assert_mat4_approx(at_mid.model_poses[1], expected_child_model_mid, "child model @ t=0.5");
    assert_mat4_approx(at_mid.palette[1], expected_child_model_mid, "child palette @ t=0.5");

    let at_end = fixture.sample(1.0);
    let expected_root_end = Mat4::from_translation(Vec3::new(0.0, 1.1, 0.0));
    let expected_child_local_end = Mat4::from_scale_rotation_translation(
        Vec3::new(1.1, 0.9, 1.0),
        Quat::from_rotation_z(std::f32::consts::FRAC_PI_2),
        Vec3::new(0.0, 2.2, 0.0),
    );
    let expected_child_model_end = expected_root_end * expected_child_local_end;
    assert_mat4_approx(at_end.local_poses[0], expected_root_end, "root local @ t=1.0");
    assert_mat4_approx(at_end.model_poses[0], expected_root_end, "root model @ t=1.0");
    assert_mat4_approx(at_end.palette[0], expected_root_end, "root palette @ t=1.0");
    assert_mat4_approx(at_end.local_poses[1], expected_child_local_end, "child local @ t=1.0");
    assert_mat4_approx(at_end.model_poses[1], expected_child_model_end, "child model @ t=1.0");
    assert_mat4_approx(at_end.palette[1], expected_child_model_end, "child palette @ t=1.0");
}

#[test]
fn slime_rig_pose_wraps_time() {
    let fixture = SkeletalFixture::load();
    let early = fixture.sample(0.25);
    let late = fixture.sample(1.25);

    assert_mat4_approx(early.model_poses[0], late.model_poses[0].0, "root model wrap");
    assert_mat4_approx(early.palette[0], late.palette[0].0, "root palette wrap");
    assert_mat4_approx(early.model_poses[1], late.model_poses[1].0, "child model wrap");
    assert_mat4_approx(early.palette[1], late.palette[1].0, "child palette wrap");
}

#[test]
fn skeletal_driver_skips_paused_clean_instances() {
    let fixture = SkeletalFixture::load();
    let mut instance = fixture.instance();
    instance.set_active_clip(None, Some(Arc::clone(&fixture.clip)));
    instance.set_playing(false);
    instance.clear_dirty();

    let sentinel = Matrix(Mat4::from_scale(Vec3::splat(std::f32::consts::PI)));
    let mut bones: BoneTransforms<Matrix> = BoneTransforms::new::<Space, Turn>(instance.joint_count());
    for mat in bones.model.iter_mut() {
        *mat = sentinel;
    }
    for mat in bones.palette.iter_mut() {
        *mat = sentinel;
    }

    let mut skeletons = vec![SkeletonActor { instance, bones: Some(bones) }];
    let animation_time = AnimationTime::<Num>::new();

    drive_skeletal_clips(Num(0.1), false, &animation_time, &mut skeletons);
    {
        let bones_after = skeletons[0].bones.as_ref().unwrap();
        for mat in bones_after.model.iter().chain(bones_after.palette.iter()) {
            assert_eq!(
                mat.0.to_cols_array(),
                sentinel.0.to_cols_array(),
                "paused, clean instance should not rewrite bones"
            );
        }
    }

    skeletons[0].instance.set_time(Num(0.5));
    skeletons[0].instance.set_playing(false);
    drive_skeletal_clips(Num(0.0), false, &animation_time, &mut skeletons);

    let bones_after = skeletons[0].bones.as_ref().unwrap();
    assert!(
        bones_after.model.iter().any(|mat| mat.0.to_cols_array() != sentinel.0.to_cols_array()),
        "dirty paused instance should refresh bone transforms"
    );
    assert!(!skeletons[0].instance.dirty, "evaluated instance should clear dirty flag");
}

#[test]
fn sprite_animation_emits_initial_frame_events() {
    let animation = animation_of(
        vec![frame("frame0", 7, 0.1, vec!["spawn"])],
        vec![0.1],
        vec![0.0],
        0.1,
        SpriteAnimationLoopMode::Loop,
    );
    let mut actors = vec![actor(row(1), animation, sprite("frame0", 7), false)];
    let mut bus = EventBus::<Num>::new();
    let mut queue = SpriteFrameApplyQueue::new();
    let mut perf = SpriteAnimPerfTelemetry::new(240, false);
    let mut store = SpriteAnimatorSoa::new(false, false);
    let mut recorder = AnimationRecorder::new();
    sys_drive_sprite_animations(
        AnimationDelta::Single(Num(0.05)),
        &AnimationTime::new(),
        true,
        &mut bus,
        &mut queue,
        &mut perf,
        &mut store,
        &mut actors,
        &mut recorder,
        || 0,
    );

    let events = bus.drain();
    assert_eq!(events.len(), 1);
    match &events[0] {
        GameEvent::SpriteAnimationEvent { event, .. } => assert_eq!(event.as_str(), "spawn"),
        other => panic!("unexpected event: {}", other.describe("")),
    }
}

#[test]
fn fast_sprite_animators_receive_marker() {
    let animation = animation_of(
        vec![frame("frame", 1, 0.1, vec![])],
        vec![0.1],
        vec![0.0],
        0.1,
        SpriteAnimationLoopMode::Loop,
    );
    assert!(animation.fast_loop);

    let mut actors = vec![actor(row(1), animation, sprite("frame", 1), false)];
    let mut runtime = SpriteAnimatorSoa::new(false, false);
    sys_flag_fast_sprite_animators(&mut actors, &vec![0], &mut runtime);
    assert!(actors[0].fast);
}

#[test]
fn drive_fast_single_soa_advances_frames() {
    let animation = animation_of(
        vec![frame("frame", 0, 0.05, vec![]), frame("frame", 1, 0.05, vec![])],
        vec![0.05, 0.05],
        vec![0.0, 0.05],
        0.1,
        SpriteAnimationLoopMode::Loop,
    );
    let entity = row(3);
    let mut runtime = SpriteAnimatorSoa::new(false, false);
    runtime.upsert(entity, &animation);
    let mut actors = vec![SpriteActor {
        entity,
        animation,
        state: SpriteFrameState::new_uninitialized(),
        sprite: sprite("frame", UNINITIALIZED_REGION),
        fast: true,
    }];

    let mut frame_updates = SpriteFrameApplyQueue::new();
    let mut state_updates = Vec::new();
    let mut recorder = AnimationRecorder::new();
    runtime.drive_fast_single_soa(
        Num(0.05),
        false,
        &AnimationTime::new(),
        &mut state_updates,
        &mut recorder,
        || 0,
    );
    flush_sprite_state_updates(
        &runtime,
        &mut state_updates,
        &mut frame_updates,
        &mut actors,
        &mut recorder,
    );

    assert_eq!(runtime.hot[runtime.slot_index(entity).unwrap()].frame_index, 1);
    assert_eq!(frame_updates.len(), 1);
}

#[test]
fn sprite_animator_soa_upsert_and_remove_handles_updates() {
    let mut animation = animation_of(
        (0..4).map(|id| frame("frame", id, 0.1, vec![])).collect(),
        vec![0.1; 4],
        vec![0.0, 0.1, 0.2, 0.3],
        0.1,
        SpriteAnimationLoopMode::Loop,
    );
    let entity = row(7);
    animation.frame_index = 3;
    animation.elapsed_in_frame = Num(0.05);
    animation.current_duration = Num(0.2);
    animation.pending_small_delta = Num(0.01);
    animation.playback_rate = Num(1.5);
    animation.playback_rate_dirty = false;
    animation.forward = false;
    animation.prev_forward = false;
    animation.pending_start_events = true;

    let mut runtime = SpriteAnimatorSoa::new(false, false);
    assert!(runtime.is_empty());
    runtime.upsert(entity, &animation);
    assert_eq!(runtime.len(), 1);
    assert!(runtime.contains(entity));

    animation.frame_index = 1;
    animation.elapsed_in_frame = Num(0.02);
    runtime.upsert(entity, &animation);
    assert_eq!(runtime.len(), 1, "upsert should update existing slot");

    assert!(runtime.remove(entity));
    assert!(runtime.is_empty());
}

#[test]
fn queue_sprite_updates_deduplicate_entities() {
    let animation = animation_of(
        vec![frame("frame", 5, 0.1, vec![])],
        vec![0.1],
        vec![0.0],
        0.1,
        SpriteAnimationLoopMode::Loop,
    );
    let entity = row(42);
    let mut sprite_state = SpriteFrameState::new_uninitialized();
    let mut frame_updates = SpriteFrameApplyQueue::new();

    queue_sprite_frame_update(entity, &animation, &mut sprite_state, &mut frame_updates);
    assert_eq!(frame_updates.len(), 1);
    assert!(sprite_state.queued_for_apply);

    queue_sprite_frame_update(entity, &animation, &mut sprite_state, &mut frame_updates);
    assert_eq!(frame_updates.len(), 1);
}

#[test]
fn sprite_frame_queue_flag_clears_after_apply() {
    let animation = animation_of(
        vec![frame("frame", 1, 0.05, vec![]), frame("frame1", 2, 0.05, vec![])],
        vec![0.05, 0.05],
        vec![0.0, 0.05],
        0.1,
        SpriteAnimationLoopMode::Loop,
    );
    let entity = row(5);
    let mut actors = vec![SpriteActor {
        entity,
        animation,
        state: SpriteFrameState::new_uninitialized(),
        sprite: sprite("frame", UNINITIALIZED_REGION),
        fast: false,
    }];
    let mut queue = SpriteFrameApplyQueue::new();
    {
        let SpriteActor { animation, state, .. } = &mut actors[0];
        queue_sprite_frame_update(entity, animation, state, &mut queue);
    }
    assert!(actors[0].state.queued_for_apply);
    assert!(!queue.is_empty());

    let mut recorder = AnimationRecorder::new();
    sys_apply_sprite_frame_states(&mut queue, &mut actors, &mut recorder);

    assert!(!actors[0].state.queued_for_apply);
    assert!(queue.is_empty());
    assert_eq!(actors[0].sprite.region_id, 1);
}

#[test]
fn evented_animators_drop_stale_fast_markers() {
    let animation = animation_of(
        vec![frame("frame", 1, 0.1, vec!["spawn"])],
        vec![0.1],
        vec![0.0],
        0.1,
        SpriteAnimationLoopMode::Loop,
    );
    assert!(!animation.fast_loop);

    let mut actors = vec![actor(row(1), animation, sprite("frame", 1), true)];
    let mut runtime = SpriteAnimatorSoa::new(false, false);
    sys_flag_fast_sprite_animators(&mut actors, &vec![0], &mut runtime);
    assert!(!actors[0].fast);
}

#[test]
fn sprite_animation_rewinds_with_negative_delta() {
    let mut animation = animation_of(
        vec![
            frame("frame", 0, 0.2, vec![]),
            frame("frame", 0, 0.2, vec![]),
            frame("frame", 0, 0.2, vec![]),
        ],
        vec![0.2, 0.2, 0.2],
        vec![0.0, 0.2, 0.4],
        0.6,
        SpriteAnimationLoopMode::Loop,
    );
    animation.frame_index = 2;
    animation.elapsed_in_frame = Num(0.0);

    let changed = advance_animation(
        &mut animation,
        Num(-0.25),
        row(42),
        false,
        &mut EventBus::new(),
        true,
        &mut AnimationRecorder::new(),
    );
    assert!(changed);
    assert_eq!(animation.frame_index, 1);
}

#[test]
fn sprite_animation_ping_pong_rewind_restores_direction() {
    let mut animation = animation_of(
        vec![
            frame("frame", 0, 0.2, vec![]),
            frame("frame", 0, 0.2, vec![]),
            frame("frame", 0, 0.2, vec![]),
        ],
        vec![0.2, 0.2, 0.2],
        vec![0.0, 0.2, 0.4],
        0.6,
        SpriteAnimationLoopMode::PingPong,
    );
    animation.frame_index = animation.frames.len().saturating_sub(1);
    animation.forward = false;
    animation.prev_forward = true;
    animation.elapsed_in_frame = Num(0.0);
    animation.refresh_current_duration();

    let changed = advance_animation(
        &mut animation,
        Num(-0.3),
        row(7),
        false,
        &mut EventBus::new(),
        true,
        &mut AnimationRecorder::new(),
    );
    assert!(changed);
    assert!(animation.forward, "rewinding across the end should restore forward direction");
}

#[test]
fn fast_loop_advances_multiple_frames() {
    let mut animation = animation_of(
        (0..3).map(|id| frame("frame", id, 0.08, vec![])).collect(),
        vec![0.08, 0.08, 0.08],
        vec![0.0, 0.08, 0.16],
        0.24,
        SpriteAnimationLoopMode::Loop,
    );
    animation.frame_index = 1;
    animation.elapsed_in_frame = Num(0.06);
    animation.refresh_current_duration();

    let changed =
        advance_animation_loop_no_events(&mut animation, Num(0.05), &mut AnimationRecorder::new());
    assert!(changed, "fast loop should report a change when advancing past the current frame");
    assert_eq!(animation.frame_index, 2);
    assert!(
        (animation.elapsed_in_frame.0 - 0.03).abs() < 1e-4,
        "expected ~0.03s elapsed in frame, got {}",
        animation.elapsed_in_frame.0
    );
}

#[test]
fn fast_loop_large_delta_wraps_phase() {
    let mut animation = animation_of(
        vec![frame("frame", 0, 0.08, vec![]), frame("frame", 1, 0.12, vec![])],
        vec![0.08, 0.12],
        vec![0.0, 0.08],
        0.20,
        SpriteAnimationLoopMode::Loop,
    );
    animation.frame_index = 0;
    animation.elapsed_in_frame = Num(0.02);
    animation.refresh_current_duration();

    let delta = animation.total_duration.0 * 3.0 + 0.05;
    let changed =
        advance_animation_loop_no_events(&mut animation, Num(delta), &mut AnimationRecorder::new());
    assert!(changed, "wrapping multiple cycles should still flag a change");
    assert_eq!(
        animation.frame_index, 0,
        "wrapping an integer number of cycles plus delta should land back in frame 0"
    );
    assert!(
        (animation.elapsed_in_frame.0 - 0.07).abs() < 1e-4,
        "expected ~0.07s elapsed after wrapping, got {}",
        animation.elapsed_in_frame.0
    );
}

#[test]
fn fast_loop_rewinds_frames() {
    let mut animation = animation_of(
        (0..3).map(|id| frame("frame", id, 0.08, vec![])).collect(),
        vec![0.08, 0.08, 0.08],
        vec![0.0, 0.08, 0.16],
        0.24,
        SpriteAnimationLoopMode::Loop,
    );
    animation.frame_index = 1;
    animation.elapsed_in_frame = Num(0.02);
    animation.refresh_current_duration();

    let changed =
        advance_animation_loop_no_events(&mut animation, Num(-0.05), &mut AnimationRecorder::new());
    assert!(changed, "rewinding past the current frame should report a change");
    assert_eq!(animation.frame_index, 0);
    assert!(
        (animation.elapsed_in_frame.0 - 0.05).abs() < 1e-4,
        "expected ~0.05s elapsed after rewind, got {}",
        animation.elapsed_in_frame.0
    );
}

#[test]
fn drive_fixed_processes_each_step() {
    let animation = animation_of(
        vec![frame("frame", 0, 0.1, vec!["tick"]), frame("frame", 1, 0.1, vec![])],
        vec![0.1, 0.1],
        vec![0.0, 0.1],
        0.2,
        SpriteAnimationLoopMode::Loop,
    );
    let mut actors = vec![actor(row(1), animation, sprite("frame", 0), false)];
    let mut bus = EventBus::<Num>::new();
    let mut queue = SpriteFrameApplyQueue::new();
    let mut perf = SpriteAnimPerfTelemetry::new(240, false);
    let mut store = SpriteAnimatorSoa::new(false, false);
    let mut recorder = AnimationRecorder::new();
    sys_drive_sprite_animations(
        AnimationDelta::Fixed { step: Num(0.1), steps: 3 },
        &AnimationTime::new(),
        true,
        &mut bus,
        &mut queue,
        &mut perf,
        &mut store,
        &mut actors,
        &mut recorder,
        || 0,
    );
    assert_eq!(recorder.sprite.event_calls, 3);
}

fn bare_clip() -> Clip {
    AnimationClip {
        version: 1,
        looped: true,
        duration: Num(1.0),
        duration_inv: Num(1.0),
        translation: None,
        rotation: None,
        scale: None,
        tint: None,
    }
}

#[test]
fn clip_sample_waits_for_missing_components() {
    let mut instance = ClipInstance::new("clip".to_string(), Arc::new(bare_clip()));
    instance.translation.last = Some(Flat(Vec2::ZERO));

    let sample = ClipSample {
        translation: Some(Flat(Vec2::new(1.0, 2.0))),
        rotation: None,
        scale: None,
        tint: None,
    };

    let mut clip_actor: ClipActor<Num, Flat, Colour> = ClipActor {
        instance,
        transform_player: None,
        property_player: None,
        transform: None,
        tint: None,
    };
    clip_actor.apply_clip_sample(None, None, sample);
    assert_eq!(clip_actor.instance.translation.last, Some(Flat(Vec2::ZERO)));

    clip_actor.transform = Some(ClipTransform {
        translation: Flat(Vec2::ZERO),
        rotation: Num(0.0),
        scale: Flat(Vec2::ONE),
    });
    clip_actor.apply_clip_sample(None, None, sample);
    assert_eq!(clip_actor.transform.unwrap().translation, Flat(Vec2::new(1.0, 2.0)));
}

fn zero_duration_translation_clip(value: Vec2) -> Arc<Clip> {
    let mut clip = bare_clip();
    clip.duration = Num(0.0);
    clip.duration_inv = Num(0.0);
    clip.looped = false;
    clip.translation = Some(ClipTrack {
        interpolation: ClipInterpolation::Linear,
        keyframes: vec![ClipKeyframe { time: Num(0.0), value: Flat(value) }],
        duration: Num(0.0),
        duration_inv: Num(0.0),
        segment_offsets: vec![],
        segments: vec![],
    });
    Arc::new(clip)
}

#[test]
fn zero_duration_transform_clip_applies_sample() {
    let clip_translation = Vec2::new(3.0, 4.0);
    let clip = zero_duration_translation_clip(clip_translation);
    let mut clips: Vec<ClipActor<Num, Flat, Colour>> = vec![ClipActor {
        instance: ClipInstance::new("clip".to_string(), clip),
        transform_player: Some(TransformTrackPlayer::default()),
        property_player: None,
        transform: Some(ClipTransform {
            translation: Flat(Vec2::ZERO),
            rotation: Num(0.0),
            scale: Flat(Vec2::ONE),
        }),
        tint: None,
    }];
    sys_drive_transform_clips(
        AnimationDelta::Single(Num(0.1)),
        &AnimationTime::new(),
        &mut clips,
        &mut AnimationRecorder::new(),
        || 0,
    );
    let stored = clips.remove(0).transform.expect("transform missing");
    assert_eq!(stored.translation, Flat(clip_translation));
}

#[test]
fn clip_instance_set_time_wraps_negative_looped() {
    let mut instance: ClipInstance<Num, Flat, Colour> =
        ClipInstance::new("clip".to_string(), Arc::new(bare_clip()));
    instance.set_time(Num(-0.25));
    assert!((instance.time.0 - 0.75).abs() < 1e-6);
}

#[test]
fn skeleton_instance_set_time_handles_negative() {
    let skeleton = Arc::new(SkeletonAsset {
        joints: vec![joint(None, Vec3::ZERO, Vec3::ZERO)],
        roots: vec![0_u32],
    });
    let mut instance: SkeletonPlayer = SkeletonInstance::new(text("skel"), Arc::clone(&skeleton));
    let clip = Arc::new(SkeletalClip {
        name: text("clip"),
        looped: true,
        duration: Num(1.0),
        channels: vec![],
    });
    instance.set_active_clip(None, Some(clip));
    let time = instance.set_time(Num(-0.4));
    assert!((time.0 - 0.6).abs() < 1e-6);
}

#[test]
fn linear_rotation_clip_cached_sample_stays_in_sync() {
    let span = (0.5_f32 - 0.0).max(f32::EPSILON);
    let inv_span = 1.0 / span;
    let delta = TAU - 0.0;
    let mut clip = bare_clip();
    clip.duration = Num(span);
    clip.duration_inv = Num(inv_span);
    clip.rotation = Some(ClipTrack {
        interpolation: ClipInterpolation::Linear,
        keyframes: vec![
            ClipKeyframe { time: Num(0.0), value: Num(0.0) },
            ClipKeyframe { time: Num(0.5), value: Num(TAU) },
        ],
        duration: Num(span),
        duration_inv: Num(inv_span),
        segment_offsets: vec![Num(0.0)],
        segments: vec![ClipSegment {
            slope: Num(delta * inv_span),
            span: Num(span),
            inv_span: Num(inv_span),
        }],
    });
    let mut instance: ClipInstance<Num, Flat, Colour> =
        ClipInstance::new("clip".to_string(), Arc::new(clip));
    let mask = TransformTrackPlayer::default();
    let dt = Num(1.0 / 60.0);

    for step in 0..240 {
        instance.advance_time_masked(dt, Some(mask), None);
        let cached = instance.sample_cached().rotation.unwrap().0;
        let reference = instance.sample_at(instance.time).rotation.unwrap().0;
        let diff = (cached - reference).abs();
        assert!(
            diff <= 1e-5,
            "post-step mismatch at step {step}: time={} cached={} reference={} diff={}",
            instance.time.0,
            cached,
            reference,
            diff
        );
    }
}
