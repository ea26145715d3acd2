//! Skeletons: clips that move joints, and the poses that follow from them.
use std::sync::Arc;
use vstd::prelude::*;
use crate::animation_time::{AnimationDelta, AnimationTime};
use crate::clip_drive::plan_step;
use crate::clip_track::{sample_keyframes, ClipInterpolation, ClipKeyframe};
use crate::scalar::{clamped, Fixed, Scalar, TrackValue};
use crate::text::join3;

verus! {

/// A pose that can be put after another one: `V` are its offsets and scales, `Q` its rotations.
///
/// As with `Scalar`, every method gives back the value of its spec function and nothing is claimed
/// of how two of them relate.
pub trait Pose<V, Q>: Copy {
    spec fn identity_spec() -> Self;

    /// `inner` within `self`.
    spec fn within_spec(self, inner: Self) -> Self;

    spec fn of_parts_spec(scale: V, rotation: Q, translation: V) -> Self;

    /// A rotation brought back to unit length.
    spec fn unit_spec(rotation: Q) -> Q;

    fn identity() -> (r: Self)
        ensures
            r == Self::identity_spec(),
    ;

    fn within(self, inner: Self) -> (r: Self)
        ensures
            r == self.within_spec(inner),
    ;

    fn of_parts(scale: V, rotation: Q, translation: V) -> (r: Self)
        ensures
            r == Self::of_parts_spec(scale, rotation, translation),
    ;

    fn unit(rotation: Q) -> (r: Q)
        ensures
            r == Self::unit_spec(rotation),
    ;
}

/// Joints on a line: a pose is an offset, and neither scales nor turns.
impl Pose<Fixed, Fixed> for Fixed {
    open spec fn identity_spec() -> Self {
        Fixed(0)
    }

    open spec fn within_spec(self, inner: Self) -> Self {
        self.plus_spec(inner)
    }

    open spec fn of_parts_spec(scale: Fixed, rotation: Fixed, translation: Fixed) -> Self {
        translation
    }

    open spec fn unit_spec(rotation: Fixed) -> Fixed {
        rotation
    }

    fn identity() -> (r: Self) {
        Fixed(0)
    }

    fn within(self, inner: Self) -> (r: Self) {
        self.plus(inner)
    }

    fn of_parts(scale: Fixed, rotation: Fixed, translation: Fixed) -> (r: Self) {
        translation
    }

    fn unit(rotation: Fixed) -> (r: Fixed) {
        rotation
    }
}

#[derive(Clone, Copy)]
pub struct SkeletonJoint<V, Q, M> {
    pub parent: Option<u32>,
    pub rest_translation: V,
    pub rest_rotation: Q,
    pub rest_scale: V,
    pub rest_local: M,
    pub rest_world: M,
    pub inverse_bind: M,
}

pub struct SkeletonAsset<V, Q, M> {
    pub joints: Vec<SkeletonJoint<V, Q, M>>,
    pub roots: Vec<u32>,
}

pub struct JointTrack<S, V> {
    pub interpolation: ClipInterpolation,
    pub keyframes: Vec<ClipKeyframe<S, V>>,
}

pub struct JointCurve<S, V, Q> {
    pub joint_index: u32,
    pub translation: Option<JointTrack<S, V>>,
    pub rotation: Option<JointTrack<S, Q>>,
    pub scale: Option<JointTrack<S, V>>,
}

pub struct SkeletalClip<S, V, Q> {
    pub name: Arc<String>,
    pub looped: bool,
    pub duration: S,
    pub channels: Vec<JointCurve<S, V, Q>>,
}

/// The time at which a joint track of `duration` is read.
pub open spec fn joint_time<S: Scalar>(time: S, duration: S, looped: bool) -> S {
    let zero = S::zero_spec();
    if duration.le_spec(zero) {
        zero
    } else if looped {
        if time.minus_spec(duration).magnitude_spec().le_spec(S::clip_epsilon_spec()) {
            duration
        } else if zero.le_spec(time) && time.lt_spec(duration) {
            time
        } else {
            time.rem_euclid_by_spec(duration.larger_spec(S::machine_epsilon_spec()))
        }
    } else {
        crate::scalar::clamped_spec(time, zero, duration)
    }
}

/// A looped track of fixed-point times reads the same after any number of rounds, away from the
/// slack around its end.
pub proof fn law_looped_tracks_repeat(time: Fixed, duration: Fixed, rounds: int)
    requires
        0 < duration.0,
        i64::MIN <= time.0 - duration.0,
        0 <= rounds,
        time.0 + rounds * duration.0 <= i64::MAX,
        time.0 < duration.0 - 1 || duration.0 + 1 < time.0,
        ({
            let later = time.0 + rounds * duration.0;
            later < duration.0 - 1 || duration.0 + 1 < later
        }),
    ensures
        joint_time(Fixed((time.0 + rounds * duration.0) as i64), duration, true) == joint_time(
            time,
            duration,
            true,
        ),
        0 <= joint_time(time, duration, true).0 < duration.0,
{
    let d = duration.0 as int;
    let t = time.0 as int;
    let later = t + rounds * d;
    assert(rounds * d >= 0) by (nonlinear_arith)
        requires
            rounds >= 0,
            d > 0,
    ;
    assert(later % d == t % d) by {
        vstd::arithmetic::div_mod::lemma_mod_multiples_vanish(rounds, t, d);
        assert(d * rounds == rounds * d) by (nonlinear_arith);
    }
    vstd::arithmetic::div_mod::lemma_mod_bound(t, d);
    if 0 <= t < d {
        vstd::arithmetic::div_mod::lemma_small_mod(t as nat, d as nat);
    }
    if 0 <= later < d {
        vstd::arithmetic::div_mod::lemma_small_mod(later as nat, d as nat);
    }
}

fn normalize_joint_time<S: Scalar>(time: S, duration: S, looped: bool) -> (r: S)
    ensures
        r == joint_time(time, duration, looped),
{
    let zero = S::zero();
    if duration.le(zero) {
        return zero;
    }
    if looped {
        if time.minus(duration).magnitude().le(S::clip_epsilon()) {
            return duration;
        }
        if zero.le(time) && time.lt(duration) {
            return time;
        }
        time.rem_euclid_by(duration.larger(S::machine_epsilon()))
    } else {
        clamped(time, zero, duration)
    }
}

/// The value of a joint track; an empty one gives the origin.
pub open spec fn joint_value<S: Scalar, V: TrackValue<S>>(
    track: JointTrack<S, V>,
    time: S,
    looped: bool,
) -> V {
    if track.keyframes@.len() == 0 {
        V::origin_spec()
    } else {
        crate::clip_track::keyframes_value(
            track.keyframes@,
            track.interpolation,
            joint_time(time, track.keyframes@.last().time, looped),
        )
    }
}

pub fn sample_joint_track<S: Scalar, V: TrackValue<S>>(
    track: &JointTrack<S, V>,
    time: S,
    looped: bool,
) -> (r: V)
    ensures
        r == joint_value(*track, time, looped),
{
    let n: usize = track.keyframes.len();
    if n == 0 {
        return V::origin();
    }
    let duration = track.keyframes[n - 1].time;
    let sample_time = normalize_joint_time(time, duration, looped);
    sample_keyframes(&track.keyframes, track.interpolation, sample_time)
}

/// The children of joint `p` among the first `k` joints, in order.
pub open spec fn children_among<V, Q, M>(joints: Seq<SkeletonJoint<V, Q, M>>, p: int, k: int) -> Seq<
    usize,
>
    decreases k,
{
    if k <= 0 {
        Seq::empty()
    } else {
        let before = children_among(joints, p, k - 1);
        if joints[k - 1].parent is Some && joints[k - 1].parent->0 == p {
            before.push((k - 1) as usize)
        } else {
            before
        }
    }
}

pub open spec fn children_of<V, Q, M>(joints: Seq<SkeletonJoint<V, Q, M>>, p: int) -> Seq<usize> {
    children_among(joints, p, joints.len() as int)
}

/// Every child that is listed is a joint, and has the joint for its parent.
proof fn lemma_children_are_joints<V, Q, M>(
    joints: Seq<SkeletonJoint<V, Q, M>>,
    p: int,
    k: int,
    i: int,
)
    requires
        0 <= k <= joints.len(),
        joints.len() <= usize::MAX,
        0 <= i < children_among(joints, p, k).len(),
    ensures
        children_among(joints, p, k)[i] < k,
        joints[children_among(joints, p, k)[i] as int].parent is Some,
        joints[children_among(joints, p, k)[i] as int].parent->0 == p,
    decreases k,
{
    if k > 0 {
        let before = children_among(joints, p, k - 1);
        if i < before.len() {
            lemma_children_are_joints(joints, p, k - 1, i);
        }
    }
}

pub open spec fn children_match<V, Q, M>(
    children: Seq<Vec<usize>>,
    joints: Seq<SkeletonJoint<V, Q, M>>,
    k: int,
) -> bool {
    forall|p: int|
        0 <= p < children.len() ==> (#[trigger] children[p])@ == children_among(joints, p, k)
}

fn joint_children_of<V: Copy, Q: Copy, M: Copy>(joints: &Vec<SkeletonJoint<V, Q, M>>) -> (r: Vec<
    Vec<usize>,
>)
    ensures
        r@.len() == joints@.len(),
        children_match(r@, joints@, joints@.len() as int),
{
    let n: usize = joints.len();
    let mut children: Vec<Vec<usize>> = Vec::new();
    let mut i: usize = 0;
    while i < n
        invariant
            n == joints@.len(),
            i <= n,
            children@.len() == i,
            children_match(children@, joints@, 0),
        decreases n - i,
    {
        let none: Vec<usize> = Vec::new();
        assert(none@ =~= children_among(joints@, i as int, 0));
        children.push(none);
        i = i + 1;
    }
    let mut k: usize = 0;
    while k < n
        invariant
            n == joints@.len(),
            k <= n,
            children@.len() == n,
            children_match(children@, joints@, k as int),
        decreases n - k,
    {
        let ghost before = children@;
        if let Some(parent) = joints[k].parent {
            let at: usize = parent as usize;
            if at < n {
                children[at].push(k);
            }
        }
        proof {
            assert forall|p: int| 0 <= p < children@.len() implies (#[trigger] children@[p])@
                == children_among(joints@, p, k + 1) by {
                assert(before[p]@ == children_among(joints@, p, k as int));
            }
        }
        k = k + 1;
    }
    children
}

/// A list with `n` entries: cut off, or filled up with `fill`.
pub open spec fn sized<T>(list: Seq<T>, n: int, fill: T) -> Seq<T> {
    Seq::new(
        n as nat,
        |i: int|
            if i < list.len() {
                list[i]
            } else {
                fill
            },
    )
}

fn set_len<T: Copy>(list: &mut Vec<T>, n: usize, fill: T)
    ensures
        final(list)@ == sized(old(list)@, n as int, fill),
{
    if list.len() > n {
        list.truncate(n);
    }
    while list.len() < n
        invariant
            list@.len() <= n,
            forall|i: int|
                0 <= i < list@.len() ==> #[trigger] list@[i] == (if i < old(list)@.len() {
                    old(list)@[i]
                } else {
                    fill
                }),
            list@.len() >= (if old(list)@.len() < n { old(list)@.len() as int } else { n as int }),
        decreases n - list@.len(),
    {
        list.push(fill);
    }
    assert(list@ =~= sized(old(list)@, n as int, fill));
}

pub struct SkeletonInstance<S, V, Q, M> {
    pub skeleton_key: Arc<String>,
    pub skeleton: Arc<SkeletonAsset<V, Q, M>>,
    pub active_clip_key: Option<Arc<String>>,
    pub active_clip: Option<Arc<SkeletalClip<S, V, Q>>>,
    pub time: S,
    pub playing: bool,
    pub looped: bool,
    pub speed: S,
    pub group: Option<String>,
    pub playback_rate: S,
    pub playback_rate_dirty: bool,
    pub local_poses: Vec<M>,
    pub model_poses: Vec<M>,
    pub palette: Vec<M>,
    pub joint_channel_map: Vec<Option<usize>>,
    pub joint_children: Vec<Vec<usize>>,
    pub joint_visited: Vec<bool>,
    pub dirty: bool,
}

pub open spec fn rest_locals<V, Q, M>(joints: Seq<SkeletonJoint<V, Q, M>>) -> Seq<M> {
    joints.map_values(|j: SkeletonJoint<V, Q, M>| j.rest_local)
}

pub open spec fn rest_models<V, Q, M>(joints: Seq<SkeletonJoint<V, Q, M>>) -> Seq<M> {
    joints.map_values(|j: SkeletonJoint<V, Q, M>| j.rest_world)
}

pub open spec fn rest_palette<V, Q, M: Pose<V, Q>>(joints: Seq<SkeletonJoint<V, Q, M>>) -> Seq<M> {
    joints.map_values(|j: SkeletonJoint<V, Q, M>| j.rest_world.within_spec(j.inverse_bind))
}

impl<S: Scalar, V: TrackValue<S>, Q: TrackValue<S>, M: Pose<V, Q>> SkeletonInstance<S, V, Q, M> {
    pub open spec fn joints(self) -> Seq<SkeletonJoint<V, Q, M>> {
        self.skeleton.joints@
    }

    /// Every list has an entry per joint, and the children are those of the skeleton.
    pub open spec fn sized_for_joints(self) -> bool {
        let n = self.joints().len();
        &&& self.local_poses@.len() == n
        &&& self.model_poses@.len() == n
        &&& self.palette@.len() == n
        &&& self.joint_channel_map@.len() == n
        &&& self.joint_visited@.len() == n
        &&& self.joint_children@.len() == n
    }

    pub open spec fn children_exact(self) -> bool {
        children_match(self.joint_children@, self.joints(), self.joints().len() as int)
    }

    pub fn new(skeleton_key: Arc<String>, skeleton: Arc<SkeletonAsset<V, Q, M>>) -> (r: Self)
        ensures
            r.skeleton_key == skeleton_key,
            r.skeleton == skeleton,
            r.active_clip_key is None,
            r.active_clip is None,
            r.time == S::zero_spec(),
            r.playing,
            r.looped,
            r.speed == S::one_spec(),
            r.group is None,
            r.playback_rate == S::zero_spec(),
            r.playback_rate_dirty,
            r.local_poses@ == rest_locals(r.joints()),
            r.model_poses@ == rest_models(r.joints()),
            r.palette@ == rest_palette(r.joints()),
            r.joint_channel_map@ == Seq::new(r.joints().len(), |i: int| None::<usize>),
            r.joint_visited@ == Seq::new(r.joints().len(), |i: int| false),
            r.sized_for_joints(),
            r.children_exact(),
            !r.dirty,
    {
        let n: usize = skeleton.joints.len();
        let mut local_poses: Vec<M> = Vec::new();
        let mut model_poses: Vec<M> = Vec::new();
        let mut palette: Vec<M> = Vec::new();
        let mut joint_channel_map: Vec<Option<usize>> = Vec::new();
        let mut joint_visited: Vec<bool> = Vec::new();
        let mut i: usize = 0;
        let ghost joints = skeleton.joints@;
        while i < n
            invariant
                n == joints.len(),
                joints == skeleton.joints@,
                i <= n,
                local_poses@ =~= rest_locals(joints).take(i as int),
                model_poses@ =~= rest_models(joints).take(i as int),
                palette@ =~= rest_palette(joints).take(i as int),
                joint_channel_map@ =~= Seq::new(i as nat, |k: int| None::<usize>),
                joint_visited@ =~= Seq::new(i as nat, |k: int| false),
            decreases n - i,
        {
            let joint = skeleton.joints[i];
            local_poses.push(joint.rest_local);
            model_poses.push(joint.rest_world);
            palette.push(joint.rest_world.within(joint.inverse_bind));
            joint_channel_map.push(None);
            joint_visited.push(false);
            i = i + 1;
        }
        proof {
            assert(rest_locals(joints).take(n as int) =~= rest_locals(joints));
            assert(rest_models(joints).take(n as int) =~= rest_models(joints));
            assert(rest_palette(joints).take(n as int) =~= rest_palette(joints));
        }
        let joint_children = joint_children_of(&skeleton.joints);
        SkeletonInstance {
            skeleton_key,
            skeleton,
            active_clip_key: None,
            active_clip: None,
            time: S::zero(),
            playing: true,
            looped: true,
            speed: S::one(),
            group: None,
            playback_rate: S::zero(),
            playback_rate_dirty: true,
            local_poses,
            model_poses,
            palette,
            joint_channel_map,
            joint_children,
            joint_visited,
            dirty: false,
        }
    }

    pub fn joint_count(&self) -> (r: usize)
        ensures
            r == self.joints().len(),
    {
        self.skeleton.joints.len()
    }

    /// Another clip from its beginning; without one the looping stays as it was.
    pub fn set_active_clip(
        &mut self,
        clip_key: Option<Arc<String>>,
        clip: Option<Arc<SkeletalClip<S, V, Q>>>,
    )
        ensures
            *final(self) == (SkeletonInstance {
                active_clip_key: clip_key,
                looped: match clip {
                    Some(found) => found.looped,
                    None => old(self).looped,
                },
                active_clip: clip,
                time: S::zero_spec(),
                playing: true,
                playback_rate: S::zero_spec(),
                playback_rate_dirty: true,
                dirty: true,
                ..*old(self)
            }),
    {
        self.active_clip_key = clip_key;
        if let Some(found) = &clip {
            self.looped = found.looped;
        }
        self.active_clip = clip;
        self.time = S::zero();
        self.playing = true;
        self.playback_rate = S::zero();
        self.playback_rate_dirty = true;
        self.dirty = true;
    }

    pub fn set_playing(&mut self, playing: bool)
        ensures
            *final(self) == (SkeletonInstance { playing, ..*old(self) }),
    {
        self.playing = playing;
    }

    pub fn set_speed(&mut self, speed: S)
        ensures
            *final(self) == (SkeletonInstance { speed, playback_rate_dirty: true, ..*old(self) }),
    {
        self.speed = speed;
        self.playback_rate_dirty = true;
    }

    pub fn set_group(&mut self, group: Option<String>)
        ensures
            *final(self) == (SkeletonInstance { group, playback_rate_dirty: true, ..*old(self) }),
    {
        self.group = group;
        self.playback_rate_dirty = true;
    }

    /// The time that a jump to `time` gives, and whether the clip still plays there.
    pub open spec fn time_set_to(self, time: S) -> (S, bool) {
        let zero = S::zero_spec();
        match self.active_clip {
            None => (zero, self.playing),
            Some(clip) => {
                let duration = clip.duration.larger_spec(zero);
                let step = duration.larger_spec(S::machine_epsilon_spec());
                let wrapped = time.rem_euclid_by_spec(step);
                if duration.le_spec(zero) {
                    (zero, self.playing)
                } else if self.looped {
                    if step.minus_spec(wrapped).magnitude_spec().le_spec(S::clip_epsilon_spec()) {
                        (duration, self.playing)
                    } else {
                        (wrapped, self.playing)
                    }
                } else if time.le_spec(zero) {
                    (zero, self.playing)
                } else if duration.le_spec(time) {
                    (duration, false)
                } else {
                    (time, self.playing)
                }
            },
        }
    }

    pub fn set_time(&mut self, time: S) -> (r: S)
        ensures
            ({
                let (at, playing) = old(self).time_set_to(time);
                r == at && *final(self) == (SkeletonInstance {
                    time: at,
                    playing,
                    dirty: true,
                    ..*old(self)
                })
            }),
    {
        let zero = S::zero();
        let mut at = time;
        match &self.active_clip {
            None => {
                at = zero;
            },
            Some(clip) => {
                let duration = clip.duration.larger(zero);
                if duration.le(zero) {
                    at = zero;
                } else if self.looped {
                    let step = duration.larger(S::machine_epsilon());
                    at = time.rem_euclid_by(step);
                    if step.minus(at).magnitude().le(S::clip_epsilon()) {
                        at = duration;
                    }
                } else if at.le(zero) {
                    at = zero;
                } else if duration.le(at) {
                    at = duration;
                    self.playing = false;
                }
            },
        }
        self.time = at;
        self.dirty = true;
        at
    }

    pub open spec fn rated(self, scale: S) -> Self {
        if self.playback_rate_dirty {
            SkeletonInstance {
                playback_rate: self.speed.times_spec(scale),
                playback_rate_dirty: false,
                ..self
            }
        } else {
            self
        }
    }

    pub fn ensure_playback_rate(&mut self, group_scale: S) -> (r: S)
        ensures
            *final(self) == old(self).rated(group_scale),
            r == final(self).playback_rate,
    {
        if self.playback_rate_dirty {
            self.playback_rate = self.speed.times(group_scale);
            self.playback_rate_dirty = false;
        }
        self.playback_rate
    }

    pub fn clip_duration(&self) -> (r: S)
        ensures
            r == (match self.active_clip {
                Some(clip) => clip.duration.larger_spec(S::zero_spec()),
                None => S::zero_spec(),
            }),
    {
        match &self.active_clip {
            Some(clip) => clip.duration.larger(S::zero()),
            None => S::zero(),
        }
    }

    /// The name of the skeleton and that of the clip, with `::` between.
    pub fn active_clip_key(&self) -> (r: Option<String>)
        ensures
            match r {
                Some(key) => self.active_clip is Some && key@ == self.skeleton_key@ + "::"@
                    + self.active_clip->0.name@,
                None => self.active_clip is None,
            },
    {
        match &self.active_clip {
            Some(clip) => Some(
                join3(self.skeleton_key.as_str(), "::", clip.name.as_str()),
            ),
            None => None,
        }
    }

    pub fn has_clip(&self) -> (r: bool)
        ensures
            r == (self.active_clip is Some),
    {
        self.active_clip.is_some()
    }

    pub fn mark_dirty(&mut self)
        ensures
            *final(self) == (SkeletonInstance { dirty: true, ..*old(self) }),
    {
        self.dirty = true;
    }

    pub fn clear_dirty(&mut self)
        ensures
            *final(self) == (SkeletonInstance { dirty: false, ..*old(self) }),
    {
        self.dirty = false;
    }

    /// The parts of an instance that no pose changes.
    pub open spec fn same_playback(self, other: Self) -> bool {
        &&& self.skeleton_key == other.skeleton_key
        &&& self.skeleton == other.skeleton
        &&& self.active_clip_key == other.active_clip_key
        &&& self.active_clip == other.active_clip
        &&& self.time == other.time
        &&& self.playing == other.playing
        &&& self.looped == other.looped
        &&& self.speed == other.speed
        &&& self.group == other.group
        &&& self.playback_rate == other.playback_rate
        &&& self.playback_rate_dirty == other.playback_rate_dirty
    }

    /// Brings every list to one entry per joint.
    pub fn ensure_capacity(&mut self)
        requires
            old(self).joint_children@.len() == old(self).joints().len() ==> old(
                self).children_exact(),
        ensures
            final(self).sized_for_joints(),
            final(self).children_exact(),
            final(self).same_playback(*old(self)),
            final(self).dirty == old(self).dirty,
            final(self).local_poses@ == sized(
                old(self).local_poses@,
                old(self).joints().len() as int,
                M::identity_spec(),
            ),
            final(self).model_poses@ == sized(
                old(self).model_poses@,
                old(self).joints().len() as int,
                M::identity_spec(),
            ),
            final(self).palette@ == sized(
                old(self).palette@,
                old(self).joints().len() as int,
                M::identity_spec(),
            ),
    {
        let n: usize = self.joint_count();
        set_len(&mut self.local_poses, n, M::identity());
        set_len(&mut self.model_poses, n, M::identity());
        set_len(&mut self.palette, n, M::identity());
        set_len(&mut self.joint_channel_map, n, None);
        set_len(&mut self.joint_visited, n, false);
        if self.joint_children.len() != n {
            self.joint_children = joint_children_of(&self.skeleton.joints);
        }
    }

    /// Every joint back in its rest pose.
    pub fn reset_to_rest_pose(&mut self)
        requires
            old(self).sized_for_joints(),
        ensures
            final(self).sized_for_joints(),
            final(self).same_playback(*old(self)),
            final(self).joint_children == old(self).joint_children,
            final(self).local_poses@ == rest_locals(old(self).joints()),
            final(self).model_poses@ == rest_models(old(self).joints()),
            final(self).palette@ == rest_palette(old(self).joints()),
            !final(self).dirty,
    {
        let n: usize = self.joint_count();
        let mut i: usize = 0;
        while i < n
            invariant
                self.sized_for_joints(),
                self.same_playback(*old(self)),
                self.joint_children == old(self).joint_children,
                n == self.joints().len(),
                i <= n,
                forall|k: int|
                    0 <= k < i ==> #[trigger] self.local_poses@[k] == self.joints()[k].rest_local,
                forall|k: int|
                    0 <= k < i ==> #[trigger] self.model_poses@[k] == self.joints()[k].rest_world,
                forall|k: int|
                    0 <= k < i ==> #[trigger] self.palette@[k]
                        == self.joints()[k].rest_world.within_spec(self.joints()[k].inverse_bind),
            decreases n - i,
        {
            let joint = self.skeleton.joints[i];
            self.local_poses[i] = joint.rest_local;
            self.model_poses[i] = joint.rest_world;
            self.palette[i] = joint.rest_world.within(joint.inverse_bind);
            i = i + 1;
        }
        self.dirty = false;
        proof {
            assert(self.local_poses@ =~= rest_locals(self.joints()));
            assert(self.model_poses@ =~= rest_models(self.joints()));
            assert(self.palette@ =~= rest_palette(self.joints()));
        }
    }
}

/// The last of the first `k` curves that moves joint `j`.
pub open spec fn curve_for<S, V, Q>(channels: Seq<JointCurve<S, V, Q>>, j: int, k: int) -> Option<
    usize,
>
    decreases k,
{
    if k <= 0 {
        None
    } else if channels[k - 1].joint_index == j {
        Some((k - 1) as usize)
    } else {
        curve_for(channels, j, k - 1)
    }
}

proof fn lemma_curve_in_range<S, V, Q>(channels: Seq<JointCurve<S, V, Q>>, j: int, k: int)
    requires
        0 <= k <= channels.len(),
        channels.len() <= usize::MAX,
    ensures
        curve_for(channels, j, k) is Some ==> curve_for(channels, j, k)->0 < k,
    decreases k,
{
    if k > 0 {
        lemma_curve_in_range(channels, j, k - 1);
    }
}

/// The pose of a joint within its parent: what its curve gives at `time`, and rest where it gives
/// nothing.
pub open spec fn local_pose<S: Scalar, V: TrackValue<S>, Q: TrackValue<S>, M: Pose<V, Q>>(
    joint: SkeletonJoint<V, Q, M>,
    curve: Option<JointCurve<S, V, Q>>,
    time: S,
    looped: bool,
) -> M {
    let translation = match curve {
        Some(c) => match c.translation {
            Some(track) => joint_value(track, time, looped),
            None => joint.rest_translation,
        },
        None => joint.rest_translation,
    };
    let rotation = match curve {
        Some(c) => match c.rotation {
            Some(track) => if track.keyframes@.len() == 0 {
                Q::origin_spec()
            } else {
                M::unit_spec(joint_value(track, time, looped))
            },
            None => joint.rest_rotation,
        },
        None => joint.rest_rotation,
    };
    let scale = match curve {
        Some(c) => match c.scale {
            Some(track) => joint_value(track, time, looped),
            None => joint.rest_scale,
        },
        None => joint.rest_scale,
    };
    M::of_parts_spec(scale, rotation, translation)
}

fn curve_pose<S: Scalar, V: TrackValue<S>, Q: TrackValue<S>, M: Pose<V, Q>>(
    joint: &SkeletonJoint<V, Q, M>,
    curve: Option<&JointCurve<S, V, Q>>,
    time: S,
    looped: bool,
) -> (r: M)
    ensures
        r == local_pose(
            *joint,
            match curve {
                Some(c) => Some(*c),
                None => None,
            },
            time,
            looped,
        ),
{
    let mut translation = joint.rest_translation;
    let mut rotation = joint.rest_rotation;
    let mut scale = joint.rest_scale;
    if let Some(c) = curve {
        if let Some(track) = &c.translation {
            translation = sample_joint_track(track, time, looped);
        }
        if let Some(track) = &c.rotation {
            rotation = if track.keyframes.len() == 0 {
                Q::origin()
            } else {
                M::unit(sample_joint_track(track, time, looped))
            };
        }
        if let Some(track) = &c.scale {
            scale = sample_joint_track(track, time, looped);
        }
    }
    M::of_parts(scale, rotation, translation)
}

pub open spec fn local_poses_at<S: Scalar, V: TrackValue<S>, Q: TrackValue<S>, M: Pose<V, Q>>(
    joints: Seq<SkeletonJoint<V, Q, M>>,
    clip: SkeletalClip<S, V, Q>,
    time: S,
) -> Seq<M> {
    Seq::new(
        joints.len(),
        |j: int|
            {
                let channels = clip.channels@;
                local_pose(
                    joints[j],
                    match curve_for(channels, j, channels.len() as int) {
                        Some(k) => Some(channels[k as int]),
                        None => None,
                    },
                    time,
                    clip.looped,
                )
            },
    )
}

/// The poses within the model while they are passed down from joint to joint.
pub struct PoseState<M> {
    pub model: Seq<M>,
    pub palette: Seq<M>,
    pub visited: Seq<bool>,
}

/// What stays the same while poses are passed down.
pub struct PoseTree<V, Q, M> {
    pub joints: Seq<SkeletonJoint<V, Q, M>>,
    pub local: Seq<M>,
}

impl<M> PoseState<M> {
    /// Joint `j` posed within `parent`, then its children within it, `depth` levels at most.
    pub open spec fn passed_down<V, Q>(self, tree: PoseTree<V, Q, M>, j: int, parent: M, depth: nat) -> Self where
        M: Pose<V, Q>,

        decreases depth, 0nat,
    {
        if depth == 0 {
            self
        } else {
            let pose = parent.within_spec(tree.local[j]);
            let here = PoseState {
                model: self.model.update(j, pose),
                palette: self.palette.update(j, pose.within_spec(tree.joints[j].inverse_bind)),
                visited: self.visited.update(j, true),
            };
            here.children_posed(tree, children_of(tree.joints, j), 0, pose, (depth - 1) as nat)
        }
    }

    /// The joints of `kids` from `k` on posed within `parent`.
    pub open spec fn children_posed<V, Q>(
        self,
        tree: PoseTree<V, Q, M>,
        kids: Seq<usize>,
        k: int,
        parent: M,
        depth: nat,
    ) -> Self where M: Pose<V, Q>,
        decreases depth, 1 + kids.len() - k,
    {
        if k < 0 || k >= kids.len() {
            self
        } else {
            self.passed_down(tree, kids[k] as int, parent, depth).children_posed(
                tree,
                kids,
                k + 1,
                parent,
                depth,
            )
        }
    }

    /// The roots from `k` on posed, those that are joints.
    pub open spec fn roots_posed<V, Q>(self, tree: PoseTree<V, Q, M>, roots: Seq<u32>, k: int) -> Self where
        M: Pose<V, Q>,

        decreases roots.len() - k,
    {
        if k < 0 || k >= roots.len() {
            self
        } else if roots[k] < tree.joints.len() {
            self.passed_down(
                tree,
                roots[k] as int,
                M::identity_spec(),
                tree.joints.len(),
            ).roots_posed(tree, roots, k + 1)
        } else {
            self.roots_posed(tree, roots, k + 1)
        }
    }

    /// The joints from `j` on that were not reached posed as if they were roots.
    pub open spec fn strays_posed<V, Q>(self, tree: PoseTree<V, Q, M>, j: int) -> Self where
        M: Pose<V, Q>,

        decreases tree.joints.len() - j,
    {
        if j < 0 || j >= tree.joints.len() {
            self
        } else if self.visited[j] {
            self.strays_posed(tree, j + 1)
        } else {
            self.passed_down(tree, j, M::identity_spec(), tree.joints.len()).strays_posed(
                tree,
                j + 1,
            )
        }
    }
}

fn propagate_joint<V: Copy, Q: Copy, M: Pose<V, Q>>(
    joint_index: usize,
    parent: M,
    joints: &Vec<SkeletonJoint<V, Q, M>>,
    children: &Vec<Vec<usize>>,
    local: &Vec<M>,
    model: &mut Vec<M>,
    palette: &mut Vec<M>,
    visited: &mut Vec<bool>,
    depth: usize,
)
    requires
        joint_index < joints@.len(),
        children@.len() == joints@.len(),
        children_match(children@, joints@, joints@.len() as int),
        local@.len() == joints@.len(),
        old(model)@.len() == joints@.len(),
        old(palette)@.len() == joints@.len(),
        old(visited)@.len() == joints@.len(),
    ensures
        final(model)@.len() == joints@.len(),
        final(palette)@.len() == joints@.len(),
        final(visited)@.len() == joints@.len(),
        (PoseState { model: final(model)@, palette: final(palette)@, visited: final(visited)@ })
            == (PoseState {
            model: old(model)@,
            palette: old(palette)@,
            visited: old(visited)@,
        }).passed_down(
            PoseTree { joints: joints@, local: local@ },
            joint_index as int,
            parent,
            depth as nat,
        ),
    decreases depth,
{
    if depth == 0 {
        return ;
    }
    let ghost tree = PoseTree { joints: joints@, local: local@ };
    let pose = parent.within(local[joint_index]);
    model[joint_index] = pose;
    palette[joint_index] = pose.within(joints[joint_index].inverse_bind);
    visited[joint_index] = true;
    let kids: &Vec<usize> = &children[joint_index];
    assert(kids@ == children_of(joints@, joint_index as int));
    let ghost goal = (PoseState {
        model: model@,
        palette: palette@,
        visited: visited@,
    }).children_posed(tree, kids@, 0, pose, (depth - 1) as nat);
    let mut k: usize = 0;
    while k < kids.len()
        invariant
            0 < depth,
            k <= kids@.len(),
            tree == (PoseTree { joints: joints@, local: local@ }),
            kids@ == children_of(joints@, joint_index as int),
            children@.len() == joints@.len(),
            children_match(children@, joints@, joints@.len() as int),
            local@.len() == joints@.len(),
            model@.len() == joints@.len(),
            palette@.len() == joints@.len(),
            visited@.len() == joints@.len(),
            goal == (PoseState {
                model: model@,
                palette: palette@,
                visited: visited@,
            }).children_posed(tree, kids@, k as int, pose, (depth - 1) as nat),
        decreases kids@.len() - k,
    {
        proof {
            assert(joints.len() == joints@.len());
            lemma_children_are_joints(
                joints@,
                joint_index as int,
                joints@.len() as int,
                k as int,
            );
        }
        propagate_joint(
            kids[k],
            pose,
            joints,
            children,
            local,
            model,
            palette,
            visited,
            depth - 1,
        );
        k = k + 1;
    }
}

impl<S: Scalar, V: TrackValue<S>, Q: TrackValue<S>, M: Pose<V, Q>> SkeletonInstance<S, V, Q, M> {
    /// The poses that `clip` gives at `time`: the local ones from the curves, and those within the
    /// model from the roots down, with joints that no root reaches as roots of their own.
    pub open spec fn poses_at(self, clip: SkeletalClip<S, V, Q>, time: S) -> (Seq<M>, PoseState<M>) {
        let n = self.joints().len();
        let local = local_poses_at(self.joints(), clip, time);
        let tree = PoseTree { joints: self.joints(), local };
        let start = PoseState {
            model: sized(self.model_poses@, n as int, M::identity_spec()),
            palette: sized(self.palette@, n as int, M::identity_spec()),
            visited: Seq::new(n, |i: int| false),
        };
        (local, start.roots_posed(tree, self.skeleton.roots@, 0).strays_posed(tree, 0))
    }

    fn map_channels(&mut self, clip: &SkeletalClip<S, V, Q>)
        requires
            old(self).sized_for_joints(),
        ensures
            final(self).sized_for_joints(),
            forall|j: int|
                0 <= j < final(self).joints().len() ==> #[trigger] final(self).joint_channel_map@[j]
                    == curve_for(clip.channels@, j, clip.channels@.len() as int),
            *final(self) == (SkeletonInstance {
                joint_channel_map: final(self).joint_channel_map,
                ..*old(self)
            }),
    {
        let n: usize = self.joint_channel_map.len();
        let mut i: usize = 0;
        while i < n
            invariant
                self.sized_for_joints(),
                n == self.joint_channel_map@.len(),
                i <= n,
                forall|j: int| 0 <= j < i ==> #[trigger] self.joint_channel_map@[j] is None,
                *self == (SkeletonInstance {
                    joint_channel_map: self.joint_channel_map,
                    ..*old(self)
                }),
            decreases n - i,
        {
            self.joint_channel_map[i] = None;
            i = i + 1;
        }
        let mut k: usize = 0;
        while k < clip.channels.len()
            invariant
                self.sized_for_joints(),
                n == self.joint_channel_map@.len(),
                k <= clip.channels@.len(),
                forall|j: int|
                    0 <= j < n ==> #[trigger] self.joint_channel_map@[j] == curve_for(
                        clip.channels@,
                        j,
                        k as int,
                    ),
                *self == (SkeletonInstance {
                    joint_channel_map: self.joint_channel_map,
                    ..*old(self)
                }),
            decreases clip.channels@.len() - k,
        {
            let at: usize = clip.channels[k].joint_index as usize;
            if at < n {
                self.joint_channel_map[at] = Some(k);
            }
            k = k + 1;
        }
    }

    fn pose_locals(&mut self, clip: &SkeletalClip<S, V, Q>, time: S)
        requires
            old(self).sized_for_joints(),
            forall|j: int|
                0 <= j < old(self).joints().len() ==> #[trigger] old(self).joint_channel_map@[j]
                    == curve_for(clip.channels@, j, clip.channels@.len() as int),
        ensures
            final(self).sized_for_joints(),
            final(self).local_poses@ == local_poses_at(old(self).joints(), *clip, time),
            *final(self) == (SkeletonInstance {
                local_poses: final(self).local_poses,
                ..*old(self)
            }),
    {
        let n: usize = self.joint_count();
        let mut j: usize = 0;
        while j < n
            invariant
                self.sized_for_joints(),
                n == self.joints().len(),
                j <= n,
                forall|i: int|
                    0 <= i < n ==> #[trigger] self.joint_channel_map@[i] == curve_for(
                        clip.channels@,
                        i,
                        clip.channels@.len() as int,
                    ),
                forall|i: int|
                    0 <= i < j ==> #[trigger] self.local_poses@[i] == local_poses_at(
                        self.joints(),
                        *clip,
                        time,
                    )[i],
                *self == (SkeletonInstance { local_poses: self.local_poses, ..*old(self) }),
            decreases n - j,
        {
            proof {
                assert(clip.channels.len() == clip.channels@.len());
                lemma_curve_in_range(clip.channels@, j as int, clip.channels@.len() as int);
            }
            let curve = match self.joint_channel_map[j] {
                Some(k) => Some(&clip.channels[k]),
                None => None,
            };
            let pose = curve_pose(&self.skeleton.joints[j], curve, time, clip.looped);
            self.local_poses[j] = pose;
            j = j + 1;
        }
        assert(self.local_poses@ =~= local_poses_at(self.joints(), *clip, time));
    }

    fn pass_poses_down(&mut self)
        requires
            old(self).sized_for_joints(),
            old(self).children_exact(),
        ensures
            final(self).sized_for_joints(),
            final(self).children_exact(),
            ({
                let tree = PoseTree { joints: old(self).joints(), local: old(self).local_poses@ };
                let after = (PoseState {
                    model: old(self).model_poses@,
                    palette: old(self).palette@,
                    visited: Seq::new(old(self).joints().len(), |i: int| false),
                }).roots_posed(tree, old(self).skeleton.roots@, 0).strays_posed(tree, 0);
                &&& final(self).model_poses@ == after.model
                &&& final(self).palette@ == after.palette
                &&& final(self).joint_visited@ == after.visited
            }),
            *final(self) == (SkeletonInstance {
                model_poses: final(self).model_poses,
                palette: final(self).palette,
                joint_visited: final(self).joint_visited,
                ..*old(self)
            }),
    {
        let n: usize = self.joint_count();
        let mut i: usize = 0;
        while i < n
            invariant
                self.sized_for_joints(),
                n == self.joints().len(),
                i <= n,
                forall|k: int| 0 <= k < i ==> !(#[trigger] self.joint_visited@[k]),
                *self == (SkeletonInstance { joint_visited: self.joint_visited, ..*old(self) }),
            decreases n - i,
        {
            self.joint_visited[i] = false;
            i = i + 1;
        }
        let ghost tree = PoseTree { joints: self.joints(), local: self.local_poses@ };
        let ghost start = PoseState {
            model: self.model_poses@,
            palette: self.palette@,
            visited: Seq::new(n as nat, |i: int| false),
        };
        assert(self.joint_visited@ =~= start.visited);
        let ghost goal = start.roots_posed(tree, self.skeleton.roots@, 0);
        let mut k: usize = 0;
        while k < self.skeleton.roots.len()
            invariant
                self.sized_for_joints(),
                self.children_exact(),
                n == self.joints().len(),
                k <= self.skeleton.roots@.len(),
                tree == (PoseTree { joints: self.joints(), local: self.local_poses@ }),
                goal == (PoseState {
                    model: self.model_poses@,
                    palette: self.palette@,
                    visited: self.joint_visited@,
                }).roots_posed(tree, self.skeleton.roots@, k as int),
                *self == (SkeletonInstance {
                    model_poses: self.model_poses,
                    palette: self.palette,
                    joint_visited: self.joint_visited,
                    ..*old(self)
                }),
            decreases self.skeleton.roots@.len() - k,
        {
            let root: usize = self.skeleton.roots[k] as usize;
            if root < n {
                propagate_joint(
                    root,
                    M::identity(),
                    &self.skeleton.joints,
                    &self.joint_children,
                    &self.local_poses,
                    &mut self.model_poses,
                    &mut self.palette,
                    &mut self.joint_visited,
                    n,
                );
            }
            k = k + 1;
        }
        let ghost goal = (PoseState {
            model: self.model_poses@,
            palette: self.palette@,
            visited: self.joint_visited@,
        }).strays_posed(tree, 0);
        let mut j: usize = 0;
        while j < n
            invariant
                self.sized_for_joints(),
                self.children_exact(),
                n == self.joints().len(),
                j <= n,
                tree == (PoseTree { joints: self.joints(), local: self.local_poses@ }),
                goal == (PoseState {
                    model: self.model_poses@,
                    palette: self.palette@,
                    visited: self.joint_visited@,
                }).strays_posed(tree, j as int),
                *self == (SkeletonInstance {
                    model_poses: self.model_poses,
                    palette: self.palette,
                    joint_visited: self.joint_visited,
                    ..*old(self)
                }),
            decreases n - j,
        {
            if !self.joint_visited[j] {
                propagate_joint(
                    j,
                    M::identity(),
                    &self.skeleton.joints,
                    &self.joint_children,
                    &self.local_poses,
                    &mut self.model_poses,
                    &mut self.palette,
                    &mut self.joint_visited,
                    n,
                );
            }
            j = j + 1;
        }
    }

    /// Poses every joint as `clip` has it at `time`. A joint that is its own ancestor is entered no
    /// deeper than there are joints.
    pub fn evaluate_skeleton_pose(&mut self, clip: &SkeletalClip<S, V, Q>, time: S)
        requires
            old(self).joint_children@.len() == old(self).joints().len() ==> old(
                self).children_exact(),
        ensures
            final(self).same_playback(*old(self)),
            final(self).dirty == old(self).dirty,
            ({
                let (local, poses) = old(self).poses_at(*clip, time);
                if old(self).joints().len() == 0 {
                    *final(self) == *old(self)
                } else {
                    &&& final(self).sized_for_joints()
                    &&& final(self).children_exact()
                    &&& final(self).local_poses@ == local
                    &&& final(self).model_poses@ == poses.model
                    &&& final(self).palette@ == poses.palette
                }
            }),
    {
        if self.joint_count() == 0 {
            return ;
        }
        self.ensure_capacity();
        self.map_channels(clip);
        self.pose_locals(clip, time);
        self.pass_poses_down();
    }
}

/// Whether a track, where there is one with keyframes, ends at a time.
pub open spec fn track_ends_at<V>(track: Option<JointTrack<Fixed, V>>, end: Fixed) -> bool {
    track is Some && track->0.keyframes@.len() > 0 ==> track->0.keyframes@.last().time == end
}

/// Whether all tracks of a clip end at a time.
pub open spec fn tracks_end_at<V, Q>(clip: SkeletalClip<Fixed, V, Q>, end: Fixed) -> bool {
    forall|k: int|
        0 <= k < clip.channels@.len() ==> {
            let curve = #[trigger] clip.channels@[k];
            &&& track_ends_at(curve.translation, end)
            &&& track_ends_at(curve.rotation, end)
            &&& track_ends_at(curve.scale, end)
        }
}

proof fn lemma_joint_value_repeats<V: TrackValue<Fixed>>(
    track: JointTrack<Fixed, V>,
    end: Fixed,
    time: Fixed,
    rounds: int,
)
    requires
        track_ends_at(Some(track), end),
        0 < end.0,
        i64::MIN <= time.0 - end.0,
        0 <= rounds,
        time.0 + rounds * end.0 <= i64::MAX,
        time.0 < end.0 - 1 || end.0 + 1 < time.0,
        time.0 + rounds * end.0 < end.0 - 1 || end.0 + 1 < time.0 + rounds * end.0,
    ensures
        joint_value(track, Fixed((time.0 + rounds * end.0) as i64), true) == joint_value(
            track,
            time,
            true,
        ),
{
    law_looped_tracks_repeat(time, end, rounds);
}

/// The poses of a skeleton repeat: a looped clip whose tracks all end at one time gives the same
/// poses, within the parents and within the model, and the same palette any number of rounds later.
/// The slack around the end is left out.
pub proof fn law_looped_poses_repeat<V: TrackValue<Fixed>, Q: TrackValue<Fixed>, M: Pose<V, Q>>(
    instance: SkeletonInstance<Fixed, V, Q, M>,
    clip: SkeletalClip<Fixed, V, Q>,
    end: Fixed,
    time: Fixed,
    rounds: int,
)
    requires
        clip.looped,
        tracks_end_at(clip, end),
        clip.channels@.len() <= usize::MAX,
        0 < end.0,
        i64::MIN <= time.0 - end.0,
        0 <= rounds,
        time.0 + rounds * end.0 <= i64::MAX,
        time.0 < end.0 - 1 || end.0 + 1 < time.0,
        time.0 + rounds * end.0 < end.0 - 1 || end.0 + 1 < time.0 + rounds * end.0,
    ensures
        instance.poses_at(clip, Fixed((time.0 + rounds * end.0) as i64)) == instance.poses_at(
            clip,
            time,
        ),
{
    let later = Fixed((time.0 + rounds * end.0) as i64);
    let joints = instance.joints();
    let channels = clip.channels@;
    assert forall|j: int| 0 <= j < joints.len() implies local_poses_at(joints, clip, later)[j]
        == local_poses_at(joints, clip, time)[j] by {
        lemma_curve_in_range(channels, j, channels.len() as int);
        if let Some(k) = curve_for(channels, j, channels.len() as int) {
            let curve = channels[k as int];
            if let Some(track) = curve.translation {
                lemma_joint_value_repeats(track, end, time, rounds);
            }
            if let Some(track) = curve.rotation {
                lemma_joint_value_repeats(track, end, time, rounds);
            }
            if let Some(track) = curve.scale {
                lemma_joint_value_repeats(track, end, time, rounds);
            }
        }
    }
    assert(local_poses_at(joints, clip, later) =~= local_poses_at(joints, clip, time));
}

/// The poses of a skeleton as the renderer takes them.
pub struct BoneTransforms<M> {
    pub model: Vec<M>,
    pub palette: Vec<M>,
}

impl<M: Copy> BoneTransforms<M> {
    pub fn new<V, Q>(joint_count: usize) -> (r: Self) where M: Pose<V, Q>
        ensures
            r.model@ == Seq::new(joint_count as nat, |i: int| M::identity_spec()),
            r.palette@ == Seq::new(joint_count as nat, |i: int| M::identity_spec()),
    {
        let mut model: Vec<M> = Vec::new();
        let mut palette: Vec<M> = Vec::new();
        set_len(&mut model, joint_count, M::identity());
        set_len(&mut palette, joint_count, M::identity());
        assert(model@ =~= Seq::new(joint_count as nat, |i: int| M::identity_spec()));
        assert(palette@ =~= Seq::new(joint_count as nat, |i: int| M::identity_spec()));
        BoneTransforms { model, palette }
    }

    pub fn ensure_joint_count<V, Q>(&mut self, joint_count: usize) where M: Pose<V, Q>
        ensures
            final(self).model@ == sized(old(self).model@, joint_count as int, M::identity_spec()),
            final(self).palette@ == sized(
                old(self).palette@,
                joint_count as int,
                M::identity_spec(),
            ),
    {
        set_len(&mut self.model, joint_count, M::identity());
        set_len(&mut self.palette, joint_count, M::identity());
    }

    /// Takes the poses over.
    fn copy_poses(&mut self, model: &Vec<M>, palette: &Vec<M>)
        ensures
            final(self).model@ == model@,
            final(self).palette@ == palette@,
    {
        self.model = copied(model);
        self.palette = copied(palette);
    }
}

fn copied<T: Copy>(list: &Vec<T>) -> (r: Vec<T>)
    ensures
        r@ == list@,
{
    let mut out: Vec<T> = Vec::new();
    let mut i: usize = 0;
    while i < list.len()
        invariant
            i <= list@.len(),
            out@ == list@.take(i as int),
        decreases list@.len() - i,
    {
        out.push(list[i]);
        assert(out@ =~= list@.take(i + 1));
        i = i + 1;
    }
    assert(out@ =~= list@);
    out
}

/// An entity with a skeleton, and its bones if something is drawn with them.
pub struct SkeletonActor<S, V, Q, M> {
    pub instance: SkeletonInstance<S, V, Q, M>,
    pub bones: Option<BoneTransforms<M>>,
}

/// What a skeleton does in a pass.
#[derive(Clone, Copy, Debug, PartialEq, Eq, Structural)]
pub enum SkeletonStep {
    /// Without a clip it goes to rest.
    Rest,
    /// Nothing moves and nothing has changed.
    Unchanged,
    /// It is posed anew.
    Posed,
}

impl<S: Scalar, V: TrackValue<S>, Q: TrackValue<S>, M: Pose<V, Q>> SkeletonActor<S, V, Q, M> {
    pub open spec fn wf(self) -> bool {
        self.instance.joint_children@.len() == self.instance.joints().len()
            ==> self.instance.children_exact()
    }

    pub open spec fn scale_for(self, has_group_scales: bool, time: AnimationTime<S>) -> S {
        if has_group_scales {
            time.scale_of(
                match self.instance.group {
                    Some(name) => Some(name@),
                    None => None,
                },
            )
        } else {
            S::one_spec()
        }
    }

    /// The instance with its rate up to date, the step that is due, and what is to be done. A
    /// skeleton that stands still is posed anew only when it was marked.
    pub open spec fn step_due(self, delta: S, has_group_scales: bool, time: AnimationTime<S>) -> (
        SkeletonInstance<S, V, Q, M>,
        S,
        SkeletonStep,
    ) {
        let zero = S::zero_spec();
        let i = self.instance;
        let rated = i.rated(self.scale_for(has_group_scales, time));
        let scaled = delta.times_spec(rated.playback_rate);
        if i.active_clip is None {
            (i, zero, SkeletonStep::Rest)
        } else if !i.playing && !i.dirty {
            (i, zero, SkeletonStep::Unchanged)
        } else if (rated.playback_rate.same_spec(zero) || scaled.same_spec(zero)) && !i.dirty {
            (rated, zero, SkeletonStep::Unchanged)
        } else {
            (rated, scaled, SkeletonStep::Posed)
        }
    }

    /// The playback after a pass: the time moves where the clip plays, and what was posed is no
    /// longer marked.
    pub open spec fn playback_after(self, delta: S, has_group_scales: bool, time: AnimationTime<S>) -> SkeletonInstance<S, V, Q, M> {
        let (rated, scaled, step) = self.step_due(delta, has_group_scales, time);
        match step {
            SkeletonStep::Rest => SkeletonInstance { dirty: false, ..rated },
            SkeletonStep::Unchanged => rated,
            SkeletonStep::Posed => {
                let moved = if rated.playing && !scaled.same_spec(S::zero_spec()) {
                    let (at, playing) = rated.time_set_to(rated.time.plus_spec(scaled));
                    SkeletonInstance { time: at, playing, ..rated }
                } else {
                    rated
                };
                SkeletonInstance { dirty: false, ..moved }
            },
        }
    }

    /// What a pass makes of a skeleton: its playback, its poses, and its bones.
    pub open spec fn plays_to(
        self,
        after: Self,
        delta: S,
        has_group_scales: bool,
        time: AnimationTime<S>,
    ) -> bool {
        let step = self.step_due(delta, has_group_scales, time).2;
        let played = self.playback_after(delta, has_group_scales, time);
        let n = self.instance.joints().len() as int;
        let id = M::identity_spec();
        &&& after.instance.same_playback(played)
        &&& after.instance.dirty == played.dirty
        &&& after.bones is Some == self.bones is Some
        &&& match step {
            SkeletonStep::Rest => {
                &&& after.instance.local_poses@ == rest_locals(self.instance.joints())
                &&& after.instance.model_poses@ == rest_models(self.instance.joints())
                &&& after.instance.palette@ == rest_palette(self.instance.joints())
            },
            SkeletonStep::Unchanged => {
                &&& after.instance.local_poses@ == sized(self.instance.local_poses@, n, id)
                &&& after.instance.model_poses@ == sized(self.instance.model_poses@, n, id)
                &&& after.instance.palette@ == sized(self.instance.palette@, n, id)
                &&& after.bones == self.bones
            },
            SkeletonStep::Posed => {
                let (local, poses) = self.instance.poses_at(
                    *self.instance.active_clip->0,
                    after.instance.time,
                );
                n > 0 ==> {
                    &&& after.instance.local_poses@ == local
                    &&& after.instance.model_poses@ == poses.model
                    &&& after.instance.palette@ == poses.palette
                }
            },
        }
        &&& step is Unchanged || (after.bones is Some ==> after.bones->0.model@
            == after.instance.model_poses@ && after.bones->0.palette@ == after.instance.palette@)
    }

    fn hand_out_bones(&mut self)
        requires
            old(self).instance.sized_for_joints(),
        ensures
            final(self).instance == old(self).instance,
            final(self).bones is Some == old(self).bones is Some,
            final(self).bones is Some ==> final(self).bones->0.model@
                == old(self).instance.model_poses@ && final(self).bones->0.palette@
                == old(self).instance.palette@,
    {
        if let Some(bones) = &mut self.bones {
            bones.copy_poses(&self.instance.model_poses, &self.instance.palette);
        }
    }

    /// Plays a frame's time on one skeleton.
    pub fn play(&mut self, delta: S, has_group_scales: bool, time: &AnimationTime<S>) -> (step:
        SkeletonStep)
        requires
            old(self).wf(),
            time.wf(),
        ensures
            final(self).wf(),
            step == old(self).step_due(delta, has_group_scales, *time).2,
            old(self).plays_to(*final(self), delta, has_group_scales, *time),
    {
        let zero = S::zero();
        self.instance.ensure_capacity();
        proof {
            let n = self.instance.joints().len() as int;
            let id = M::identity_spec();
            assert(sized(self.instance.model_poses@, n, id) =~= self.instance.model_poses@);
            assert(sized(self.instance.palette@, n, id) =~= self.instance.palette@);
        }
        let clip = match &self.instance.active_clip {
            Some(clip) => clip.clone(),
            None => {
                self.instance.reset_to_rest_pose();
                self.hand_out_bones();
                return SkeletonStep::Rest;
            },
        };
        if !self.instance.playing && !self.instance.dirty {
            return SkeletonStep::Unchanged;
        }
        let scale = if has_group_scales {
            match &self.instance.group {
                Some(name) => time.group_scale(Some(name.as_str())),
                None => time.group_scale(None),
            }
        } else {
            S::one()
        };
        let rate = self.instance.ensure_playback_rate(scale);
        if rate.same(zero) && !self.instance.dirty {
            return SkeletonStep::Unchanged;
        }
        let scaled = delta.times(rate);
        if scaled.same(zero) && !self.instance.dirty {
            return SkeletonStep::Unchanged;
        }
        if self.instance.playing && !scaled.same(zero) {
            let target = self.instance.time.plus(scaled);
            let _at = self.instance.set_time(target);
        }
        let pose_time = self.instance.time;
        self.instance.evaluate_skeleton_pose(&clip, pose_time);
        self.hand_out_bones();
        self.instance.clear_dirty();
        SkeletonStep::Posed
    }
}

/// Plays `delta` on every skeleton of a table.
pub fn drive_skeletal_clips<S: Scalar, V: TrackValue<S>, Q: TrackValue<S>, M: Pose<V, Q>>(
    delta: S,
    has_group_scales: bool,
    time: &AnimationTime<S>,
    skeletons: &mut Vec<SkeletonActor<S, V, Q, M>>,
)
    requires
        time.wf(),
        forall|i: int| 0 <= i < old(skeletons)@.len() ==> (#[trigger] old(skeletons)@[i]).wf(),
    ensures
        final(skeletons)@.len() == old(skeletons)@.len(),
        forall|i: int|
            0 <= i < old(skeletons)@.len() ==> (#[trigger] final(skeletons)@[i]).wf() && old(
                skeletons)@[i].plays_to(final(skeletons)@[i], delta, has_group_scales, *time),
{
    let n: usize = skeletons.len();
    let mut i: usize = 0;
    while i < n
        invariant
            time.wf(),
            n == skeletons@.len(),
            n == old(skeletons)@.len(),
            i <= n,
            forall|j: int| 0 <= j < n ==> (#[trigger] skeletons@[j]).wf(),
            forall|j: int| i <= j < n ==> #[trigger] skeletons@[j] == old(skeletons)@[j],
            forall|j: int|
                0 <= j < i ==> old(skeletons)@[j].plays_to(
                    #[trigger] skeletons@[j],
                    delta,
                    has_group_scales,
                    *time,
                ),
        decreases n - i,
    {
        let ghost before = skeletons@;
        let _step = skeletons[i].play(delta, has_group_scales, time);
        proof {
            assert forall|j: int| 0 <= j < n && j != i implies #[trigger] skeletons@[j]
                == before[j] by {}
        }
        i = i + 1;
    }
}

/// Plays the frame's plan on every skeleton of a table.
pub fn sys_drive_skeletal_clips<S: Scalar, V: TrackValue<S>, Q: TrackValue<S>, M: Pose<V, Q>>(
    plan: AnimationDelta<S>,
    time: &AnimationTime<S>,
    skeletons: &mut Vec<SkeletonActor<S, V, Q, M>>,
)
    requires
        time.wf(),
        forall|i: int| 0 <= i < old(skeletons)@.len() ==> (#[trigger] old(skeletons)@[i]).wf(),
    ensures
        final(skeletons)@.len() == old(skeletons)@.len(),
        match crate::clip_drive::plan_as_step(plan) {
            None => final(skeletons)@ == old(skeletons)@,
            Some(step) => forall|i: int|
                0 <= i < old(skeletons)@.len() ==> (#[trigger] final(skeletons)@[i]).wf() && old(
                    skeletons)@[i].plays_to(
                    final(skeletons)@[i],
                    step,
                    crate::sprite_systems::has_scales(*time),
                    *time,
                ),
        },
{
    if let Some(step) = plan_step(plan) {
        drive_skeletal_clips(step, time.has_group_scales(), time, skeletons);
    }
}

/// A mesh that is drawn with the bones of a skeleton.
pub struct SkinMesh {
    pub skeleton_entity: Option<crate::entity::Entity>,
    pub mesh_key: Option<Arc<String>>,
    pub joint_count: u32,
}

impl SkinMesh {
    pub fn new(joint_count: usize) -> (r: Self)
        requires
            joint_count <= u32::MAX,
        ensures
            r.skeleton_entity is None,
            r.mesh_key is None,
            r.joint_count == joint_count,
    {
        SkinMesh { skeleton_entity: None, mesh_key: None, joint_count: joint_count as u32 }
    }

    pub fn set_skeleton(&mut self, skeleton: crate::entity::Entity)
        ensures
            *final(self) == (SkinMesh { skeleton_entity: Some(skeleton), ..*old(self) }),
    {
        self.skeleton_entity = Some(skeleton);
    }

    pub fn clear_skeleton(&mut self)
        ensures
            *final(self) == (SkinMesh { skeleton_entity: None, ..*old(self) }),
    {
        self.skeleton_entity = None;
    }

    pub fn set_mesh_key(&mut self, key: Arc<String>)
        ensures
            *final(self) == (SkinMesh { mesh_key: Some(key), ..*old(self) }),
    {
        self.mesh_key = Some(key);
    }

    pub fn clear_mesh_key(&mut self)
        ensures
            *final(self) == (SkinMesh { mesh_key: None, ..*old(self) }),
    {
        self.mesh_key = None;
    }

    pub fn joints(&self) -> (r: usize)
        ensures
            r == self.joint_count,
    {
        self.joint_count as usize
    }
}

} // verus!
