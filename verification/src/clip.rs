//! A playing animation clip: four tracks that move together, and the samples read from them.
use std::sync::Arc;
use vstd::prelude::*;
use crate::counts::wrapping_total;
use crate::clip_track::{sample_track, wrap_time_looped, Channel, ClipTrack};
use crate::scalar::{clamped, Fixed, Scalar, TrackValue};

verus! {

/// A clip with tracks for a planar translation, a rotation, a planar scale and a tint.
pub struct AnimationClip<S, P, C> {
    pub version: u32,
    pub looped: bool,
    pub duration: S,
    pub duration_inv: S,
    pub translation: Option<ClipTrack<S, P>>,
    pub rotation: Option<ClipTrack<S, S>>,
    pub scale: Option<ClipTrack<S, P>>,
    pub tint: Option<ClipTrack<S, C>>,
}

pub open spec fn track_wf<S, V>(track: Option<ClipTrack<S, V>>) -> bool {
    track is Some ==> track->0.wf()
}

impl<S, P, C> AnimationClip<S, P, C> {
    pub open spec fn wf(self) -> bool {
        track_wf(self.translation) && track_wf(self.rotation) && track_wf(self.scale) && track_wf(
            self.tint,
        )
    }
}

#[derive(Clone, Copy)]
pub struct ClipSample<S, P, C> {
    pub translation: Option<P>,
    pub rotation: Option<S>,
    pub scale: Option<P>,
    pub tint: Option<C>,
}

/// Which of the transform channels a clip may write.
#[derive(Clone, Copy, Debug, PartialEq, Eq, Structural)]
pub struct TransformTrackPlayer {
    pub apply_translation: bool,
    pub apply_rotation: bool,
    pub apply_scale: bool,
}

impl Default for TransformTrackPlayer {
    fn default() -> (r: Self)
        ensures
            r == all_transform_channels(),
    {
        TransformTrackPlayer { apply_translation: true, apply_rotation: true, apply_scale: true }
    }
}

pub open spec fn all_transform_channels() -> TransformTrackPlayer {
    TransformTrackPlayer { apply_translation: true, apply_rotation: true, apply_scale: true }
}

/// Whether a clip may write the tint.
#[derive(Clone, Copy, Debug, PartialEq, Eq, Structural)]
pub struct PropertyTrackPlayer {
    pub apply_tint: bool,
}

impl Default for PropertyTrackPlayer {
    fn default() -> (r: Self)
        ensures
            r == (PropertyTrackPlayer { apply_tint: true }),
    {
        PropertyTrackPlayer { apply_tint: true }
    }
}

impl PropertyTrackPlayer {
    pub fn new(apply_tint: bool) -> (r: Self)
        ensures
            r == (PropertyTrackPlayer { apply_tint }),
    {
        PropertyTrackPlayer { apply_tint }
    }
}

#[derive(Clone, Copy, Debug, PartialEq, Eq, Structural)]
pub struct ClipChannelMask {
    pub translation: bool,
    pub rotation: bool,
    pub scale: bool,
    pub tint: bool,
}

impl ClipChannelMask {
    pub open spec fn full() -> Self {
        ClipChannelMask { translation: true, rotation: true, scale: true, tint: true }
    }

    pub fn all() -> (r: Self)
        ensures
            r == Self::full(),
    {
        ClipChannelMask { translation: true, rotation: true, scale: true, tint: true }
    }

    /// Without a player, every channel that it would govern is on.
    pub open spec fn of_players(
        transform: Option<TransformTrackPlayer>,
        property: Option<PropertyTrackPlayer>,
    ) -> Self {
        ClipChannelMask {
            translation: transform is Some ==> transform->0.apply_translation,
            rotation: transform is Some ==> transform->0.apply_rotation,
            scale: transform is Some ==> transform->0.apply_scale,
            tint: property is Some ==> property->0.apply_tint,
        }
    }

    pub fn from_players(
        transform: Option<TransformTrackPlayer>,
        property: Option<PropertyTrackPlayer>,
    ) -> (r: Self)
        ensures
            r == Self::of_players(transform, property),
    {
        let transform_mask = match transform {
            Some(player) => player,
            None => TransformTrackPlayer::default(),
        };
        let property_mask = match property {
            Some(player) => player,
            None => PropertyTrackPlayer::default(),
        };
        ClipChannelMask {
            translation: transform_mask.apply_translation,
            rotation: transform_mask.apply_rotation,
            scale: transform_mask.apply_scale,
            tint: property_mask.apply_tint,
        }
    }

    pub open spec fn of_clip<S, P, C>(clip: AnimationClip<S, P, C>) -> Self {
        ClipChannelMask {
            translation: clip.translation is Some,
            rotation: clip.rotation is Some,
            scale: clip.scale is Some,
            tint: clip.tint is Some,
        }
    }

    pub fn from_clip<S, P, C>(clip: &AnimationClip<S, P, C>) -> (r: Self)
        ensures
            r == Self::of_clip(*clip),
    {
        ClipChannelMask {
            translation: clip.translation.is_some(),
            rotation: clip.rotation.is_some(),
            scale: clip.scale.is_some(),
            tint: clip.tint.is_some(),
        }
    }

    pub open spec fn common(self, other: Self) -> Self {
        ClipChannelMask {
            translation: self.translation && other.translation,
            rotation: self.rotation && other.rotation,
            scale: self.scale && other.scale,
            tint: self.tint && other.tint,
        }
    }

    pub fn intersect(self, other: Self) -> (r: Self)
        ensures
            r == self.common(other),
    {
        ClipChannelMask {
            translation: self.translation && other.translation,
            rotation: self.rotation && other.rotation,
            scale: self.scale && other.scale,
            tint: self.tint && other.tint,
        }
    }

    pub open spec fn none_set(self) -> bool {
        !self.translation && !self.rotation && !self.scale && !self.tint
    }

    pub fn is_empty(self) -> (r: bool)
        ensures
            r == self.none_set(),
    {
        !(self.translation || self.rotation || self.scale || self.tint)
    }
}

pub struct ClipInstance<S, P, C> {
    pub clip_key: String,
    pub clip: Arc<AnimationClip<S, P, C>>,
    pub clip_version: u32,
    pub time: S,
    pub playing: bool,
    pub looped: bool,
    pub speed: S,
    pub group: Option<String>,
    pub playback_rate: S,
    pub playback_rate_dirty: bool,
    pub translation: Channel<S, P>,
    pub rotation: Channel<S, S>,
    pub scale: Channel<S, P>,
    pub tint: Channel<S, C>,
    pub clip_channels: ClipChannelMask,
    /// Whole segments skipped by the tracks so far, for the statistics.
    pub segments_crossed: u64,
}

impl<S: Scalar + TrackValue<S>, P: TrackValue<S>, C: TrackValue<S>> ClipInstance<S, P, C> {
    /// The clip's tracks are well formed and the present channels are those of the clip.
    pub open spec fn wf(self) -> bool {
        self.clip.wf() && self.clip_channels == ClipChannelMask::of_clip(*self.clip)
    }

    pub open spec fn duration_of(self) -> S {
        self.clip.duration.larger_spec(S::zero_spec())
    }

    pub fn duration(&self) -> (r: S)
        ensures
            r == self.duration_of(),
    {
        self.clip.duration.larger(S::zero())
    }

    /// Every channel after a step of `delta` on the channels in `mask`.
    pub open spec fn tracks_advanced(self, delta: S, mask: ClipChannelMask) -> Self {
        let clip = *self.clip;
        let present = self.clip_channels;
        let (translation, c1) = self.translation.stepped(
            present.translation,
            clip.translation,
            mask.translation,
            self.time,
            self.looped,
            delta,
        );
        let (rotation, c2) = self.rotation.stepped(
            present.rotation,
            clip.rotation,
            mask.rotation,
            self.time,
            self.looped,
            delta,
        );
        let (scale, c3) = self.scale.stepped(
            present.scale,
            clip.scale,
            mask.scale,
            self.time,
            self.looped,
            delta,
        );
        let (tint, c4) = self.tint.stepped(
            present.tint,
            clip.tint,
            mask.tint,
            self.time,
            self.looped,
            delta,
        );
        ClipInstance {
            translation,
            rotation,
            scale,
            tint,
            segments_crossed: crate::counts::wrapping_sum(
                crate::counts::wrapping_sum(crate::counts::wrapping_sum(crate::counts::wrapping_sum(self.segments_crossed, c1), c2), c3),
                c4,
            ),
            ..self
        }
    }

    pub fn advance_track_states(&mut self, delta: S, mask: ClipChannelMask)
        requires
            old(self).wf(),
        ensures
            *final(self) == old(self).tracks_advanced(delta, mask),
            final(self).wf(),
    {
        let looped = self.looped;
        let time = self.time;
        let present = self.clip_channels;
        let crossed: u64 = self.translation.step(
            present.translation,
            &self.clip.translation,
            mask.translation,
            time,
            looped,
            delta,
        );
        self.segments_crossed = wrapping_total(self.segments_crossed, crossed);
        let crossed: u64 = self.rotation.step(
            present.rotation,
            &self.clip.rotation,
            mask.rotation,
            time,
            looped,
            delta,
        );
        self.segments_crossed = wrapping_total(self.segments_crossed, crossed);
        let crossed: u64 = self.scale.step(
            present.scale,
            &self.clip.scale,
            mask.scale,
            time,
            looped,
            delta,
        );
        self.segments_crossed = wrapping_total(self.segments_crossed, crossed);
        let crossed: u64 = self.tint.step(
            present.tint,
            &self.clip.tint,
            mask.tint,
            time,
            looped,
            delta,
        );
        self.segments_crossed = wrapping_total(self.segments_crossed, crossed);
    }

    /// Whether every played channel can take `delta` without leaving its segment.
    pub open spec fn segments_available(self, mask: ClipChannelMask, delta: S) -> bool {
        let played = mask.common(self.clip_channels);
        &&& played.translation ==> self.translation.state_current && self.translation.has_room(
            delta,
        )
        &&& played.rotation ==> self.rotation.state_current && self.rotation.has_room(delta)
        &&& played.scale ==> self.scale.state_current && self.scale.has_room(delta)
        &&& played.tint ==> self.tint.state_current && self.tint.has_room(delta)
    }

    pub fn fast_channel_segments_available(&self, mask: ClipChannelMask, delta: S) -> (r: bool)
        ensures
            r == self.segments_available(mask, delta),
    {
        let played = mask.intersect(self.clip_channels);
        (!played.translation || (self.translation.state_current
            && self.translation.fast_segment_has_room(delta))) && (!played.rotation || (
        self.rotation.state_current && self.rotation.fast_segment_has_room(delta))) && (
        !played.scale || (self.scale.state_current && self.scale.fast_segment_has_room(delta)))
            && (!played.tint || (self.tint.state_current && self.tint.fast_segment_has_room(delta)))
    }

    /// The channels that are present and not played fall behind.
    pub open spec fn unplayed_left_behind(self, delta: S, mask: ClipChannelMask) -> Self {
        if delta.le_spec(S::zero_spec()) {
            self
        } else {
            let present = self.clip_channels;
            ClipInstance {
                translation: if present.translation && !mask.translation {
                    Channel { state_current: false, sample_dirty: true, ..self.translation }
                } else {
                    self.translation
                },
                rotation: if present.rotation && !mask.rotation {
                    Channel { state_current: false, sample_dirty: true, ..self.rotation }
                } else {
                    self.rotation
                },
                scale: if present.scale && !mask.scale {
                    Channel { state_current: false, sample_dirty: true, ..self.scale }
                } else {
                    self.scale
                },
                tint: if present.tint && !mask.tint {
                    Channel { state_current: false, sample_dirty: true, ..self.tint }
                } else {
                    self.tint
                },
                ..self
            }
        }
    }

    pub fn invalidate_unmasked_channels(&mut self, delta: S, mask: ClipChannelMask)
        ensures
            *final(self) == old(self).unplayed_left_behind(delta, mask),
    {
        if delta.le(S::zero()) {
            return;
        }
        if self.clip_channels.translation && !mask.translation {
            self.translation.state_current = false;
            self.translation.sample_dirty = true;
        }
        if self.clip_channels.rotation && !mask.rotation {
            self.rotation.state_current = false;
            self.rotation.sample_dirty = true;
        }
        if self.clip_channels.scale && !mask.scale {
            self.scale.state_current = false;
            self.scale.sample_dirty = true;
        }
        if self.clip_channels.tint && !mask.tint {
            self.tint.state_current = false;
            self.tint.sample_dirty = true;
        }
    }

    /// The played channels move within their segments; the others fall behind.
    pub open spec fn nudged(self, delta: S, mask: ClipChannelMask) -> Self {
        let clip = *self.clip;
        let played = mask.common(self.clip_channels);
        (ClipInstance {
            translation: if played.translation {
                self.translation.nudged(clip.translation, delta)
            } else {
                self.translation
            },
            rotation: if played.rotation {
                self.rotation.nudged(clip.rotation, delta)
            } else {
                self.rotation
            },
            scale: if played.scale {
                self.scale.nudged(clip.scale, delta)
            } else {
                self.scale
            },
            tint: if played.tint {
                self.tint.nudged(clip.tint, delta)
            } else {
                self.tint
            },
            ..self
        }).unplayed_left_behind(delta, mask)
    }

    pub fn apply_fast_channel_delta(&mut self, delta: S, mask: ClipChannelMask)
        ensures
            *final(self) == old(self).nudged(delta, mask),
    {
        let played = mask.intersect(self.clip_channels);
        if played.translation {
            self.translation.nudge(&self.clip.translation, delta);
        }
        if played.rotation {
            self.rotation.nudge(&self.clip.rotation, delta);
        }
        if played.scale {
            self.scale.nudge(&self.clip.scale, delta);
        }
        if played.tint {
            self.tint.nudge(&self.clip.tint, delta);
        }
        self.invalidate_unmasked_channels(delta, mask);
    }

    /// Whether the step can be taken within the current segments.
    pub open spec fn fits_segments(self, previous_time: S, delta: S, mask: ClipChannelMask) -> bool {
        let zero = S::zero_spec();
        let target = previous_time.plus_spec(delta);
        ||| delta.le_spec(zero)
        ||| mask.none_set()
        ||| self.duration_of().le_spec(zero)
        ||| {
            &&& target.finite_spec()
            &&& !self.duration_of().minus_spec(S::clip_epsilon_spec()).le_spec(target)
            &&& self.segments_available(mask, delta)
        }
    }

    pub open spec fn fast_advanced(self, previous_time: S, delta: S, mask: ClipChannelMask) -> Self {
        let zero = S::zero_spec();
        if delta.le_spec(zero) {
            self
        } else if mask.none_set() {
            self.unplayed_left_behind(delta, mask)
        } else if self.duration_of().le_spec(zero) || !self.fits_segments(
            previous_time,
            delta,
            mask,
        ) {
            self
        } else {
            self.nudged(delta, mask)
        }
    }

    pub fn try_fast_channel_advance(&mut self, previous_time: S, delta: S, mask: ClipChannelMask) -> (r:
        bool)
        ensures
            r == old(self).fits_segments(previous_time, delta, mask),
            *final(self) == old(self).fast_advanced(previous_time, delta, mask),
    {
        let zero = S::zero();
        if delta.le(zero) {
            return true;
        }
        if mask.is_empty() {
            self.invalidate_unmasked_channels(delta, mask);
            return true;
        }
        let duration = self.duration();
        if duration.le(zero) {
            return true;
        }
        let target = previous_time.plus(delta);
        if !target.finite() || duration.minus(S::clip_epsilon()).le(target) {
            return false;
        }
        if !self.fast_channel_segments_available(mask, delta) {
            return false;
        }
        self.apply_fast_channel_delta(delta, mask);
        true
    }

    /// The clip's time, whether it still plays, and the part of `delta` that was used.
    pub open spec fn time_after(self, delta: S) -> (S, bool, S) {
        let zero = S::zero_spec();
        let eps = S::clip_epsilon_spec();
        let duration = self.duration_of();
        if self.looped {
            let raw = self.time.plus_spec(delta);
            let next = if raw.finite_spec() {
                raw
            } else {
                zero
            };
            if zero.le_spec(next) && next.lt_spec(duration.minus_spec(eps)) {
                (next, self.playing, delta)
            } else {
                let wrapped = crate::clip_track::wrapped_time(
                    next,
                    duration,
                    self.clip.duration_inv,
                );
                if wrapped.le_spec(eps) || duration.minus_spec(wrapped).le_spec(eps) {
                    (zero, self.playing, delta)
                } else {
                    (wrapped, self.playing, delta)
                }
            }
        } else {
            let held = self.time.plus_spec(delta).smaller_spec(duration);
            let ended = duration.minus_spec(eps).le_spec(held);
            let next = if ended {
                duration
            } else {
                held
            };
            (next, self.playing && !ended, next.minus_spec(self.time).larger_spec(zero))
        }
    }

    /// The instance after `delta` on the channels in `channel_mask`, and the part of `delta` used.
    pub open spec fn time_advanced(self, delta: S, channel_mask: ClipChannelMask) -> (Self, S) {
        let zero = S::zero_spec();
        let mask = channel_mask.common(self.clip_channels);
        if delta.le_spec(zero) {
            (self, zero)
        } else if self.duration_of().le_spec(zero) {
            ((ClipInstance { time: zero, ..self }).tracks_advanced(zero, mask), zero)
        } else {
            let (time, playing, applied) = self.time_after(delta);
            let moved = ClipInstance { time, playing, ..self };
            if applied.le_spec(zero) {
                (moved, zero)
            } else if !mask.none_set() && moved.fits_segments(self.time, applied, mask) {
                (moved.fast_advanced(self.time, applied, mask), applied)
            } else {
                (moved.tracks_advanced(applied, mask), applied)
            }
        }
    }

    /// Moves the time alone; the tracks follow separately.
    fn take_time_step(&mut self, delta: S) -> (applied: S)
        ensures
            ({
                let (time, playing, used) = old(self).time_after(delta);
                applied == used && *final(self) == (ClipInstance { time, playing, ..*old(self) })
            }),
    {
        let zero = S::zero();
        let eps = S::clip_epsilon();
        let duration = self.duration();
        if self.looped {
            let mut next = self.time.plus(delta);
            if !next.finite() {
                next = zero;
            }
            if zero.le(next) && next.lt(duration.minus(eps)) {
                self.time = next;
            } else {
                let mut wrapped = wrap_time_looped(next, duration, self.clip.duration_inv);
                if wrapped.le(eps) || duration.minus(wrapped).le(eps) {
                    wrapped = zero;
                }
                self.time = wrapped;
            }
            delta
        } else {
            let mut next = self.time.plus(delta).smaller(duration);
            if duration.minus(eps).le(next) {
                next = duration;
                self.playing = false;
            }
            let used = next.minus(self.time).larger(zero);
            self.time = next;
            used
        }
    }

    /// Whether a step walks the tracks, rather than nudging them within their segments or leaving
    /// them where they are.
    pub open spec fn walks_tracks(self, delta: S, channel_mask: ClipChannelMask) -> bool {
        let zero = S::zero_spec();
        let mask = channel_mask.common(self.clip_channels);
        let (time, playing, applied) = self.time_after(delta);
        let moved = ClipInstance { time, playing, ..self };
        &&& !delta.le_spec(zero)
        &&& self.duration_of().le_spec(zero) || (!applied.le_spec(zero) && (mask.none_set()
            || !moved.fits_segments(self.time, applied, mask)))
    }

    /// Takes a step as far as it goes without walking the tracks: the part of `delta` that was
    /// used, and how far the tracks have to be walked then.
    pub(crate) fn begin_step(&mut self, delta: S, channel_mask: ClipChannelMask) -> (r: (
        S,
        Option<S>,
    ))
        requires
            old(self).wf(),
        ensures
            final(self).wf(),
            final(self).clip_channels == old(self).clip_channels,
            ({
                let (after, used) = old(self).time_advanced(delta, channel_mask);
                &&& r.0 == used
                &&& match r.1 {
                    None => *final(self) == after && !old(self).walks_tracks(delta, channel_mask),
                    Some(step) => after == final(self).tracks_advanced(
                        step,
                        channel_mask.common(old(self).clip_channels),
                    ) && old(self).walks_tracks(delta, channel_mask),
                }
            }),
    {
        let zero = S::zero();
        if delta.le(zero) {
            return (zero, None);
        }
        let duration = self.duration();
        let mask = channel_mask.intersect(self.clip_channels);
        if duration.le(zero) {
            self.time = zero;
            return (zero, Some(zero));
        }
        let previous_time = self.time;
        let applied = self.take_time_step(delta);
        if applied.le(zero) {
            return (zero, None);
        }
        if !mask.is_empty() && self.try_fast_channel_advance(previous_time, applied, mask) {
            return (applied, None);
        }
        (applied, Some(applied))
    }

    pub fn advance_time_with_mask(&mut self, delta: S, channel_mask: ClipChannelMask) -> (applied: S)
        requires
            old(self).wf(),
        ensures
            (*final(self), applied) == old(self).time_advanced(delta, channel_mask),
            final(self).wf(),
    {
        let (applied, walk) = self.begin_step(delta, channel_mask);
        if let Some(step) = walk {
            let mask = channel_mask.intersect(self.clip_channels);
            self.advance_track_states(step, mask);
        }
        applied
    }

    pub fn advance_time(&mut self, delta: S) -> (applied: S)
        requires
            old(self).wf(),
        ensures
            (*final(self), applied) == old(self).time_advanced(delta, ClipChannelMask::full()),
            final(self).wf(),
    {
        self.advance_time_with_mask(delta, ClipChannelMask::all())
    }

    pub fn advance_time_masked(
        &mut self,
        delta: S,
        transform_mask: Option<TransformTrackPlayer>,
        property_mask: Option<PropertyTrackPlayer>,
    ) -> (applied: S)
        requires
            old(self).wf(),
        ensures
            (*final(self), applied) == old(self).time_advanced(
                delta,
                ClipChannelMask::of_players(transform_mask, property_mask),
            ),
            final(self).wf(),
    {
        let channel_mask = ClipChannelMask::from_players(transform_mask, property_mask);
        self.advance_time_with_mask(delta, channel_mask)
    }

    /// Every channel placed at the instance's time.
    pub open spec fn cursors_rebuilt(self) -> Self {
        let clip = *self.clip;
        ClipInstance {
            translation: self.translation.synced(clip.translation, self.time, self.looped),
            rotation: self.rotation.synced(clip.rotation, self.time, self.looped),
            scale: self.scale.synced(clip.scale, self.time, self.looped),
            tint: self.tint.synced(clip.tint, self.time, self.looped),
            ..self
        }
    }

    pub fn rebuild_track_cursors(&mut self)
        requires
            old(self).wf(),
        ensures
            *final(self) == old(self).cursors_rebuilt(),
            final(self).wf(),
    {
        let time = self.time;
        let looped = self.looped;
        self.translation.sync_state_to_time(&self.clip.translation, time, looped);
        self.rotation.sync_state_to_time(&self.clip.rotation, time, looped);
        self.scale.sync_state_to_time(&self.clip.scale, time, looped);
        self.tint.sync_state_to_time(&self.clip.tint, time, looped);
    }

    pub open spec fn cursors_reset(self) -> Self {
        ClipInstance {
            translation: self.translation.cursor_reset(),
            rotation: self.rotation.cursor_reset(),
            scale: self.scale.cursor_reset(),
            tint: self.tint.cursor_reset(),
            ..self
        }
    }

    fn reset_cursors(&mut self)
        ensures
            *final(self) == old(self).cursors_reset(),
    {
        self.translation.reset_cursor();
        self.rotation.reset_cursor();
        self.scale.reset_cursor();
        self.tint.reset_cursor();
    }

    /// The channels placed anew at the instance's time, as a jump leaves them.
    pub open spec fn settled(self) -> Self {
        self.cursors_rebuilt().tracks_advanced(
            S::zero_spec(),
            ClipChannelMask::full().common(self.clip_channels),
        )
    }

    fn settle(&mut self)
        requires
            old(self).wf(),
        ensures
            *final(self) == old(self).settled(),
            final(self).wf(),
    {
        self.rebuild_track_cursors();
        let mask = ClipChannelMask::all().intersect(self.clip_channels);
        self.advance_track_states(S::zero(), mask);
    }

    /// The instance as it stands at the beginning of its clip, with nothing sampled or applied.
    pub open spec fn rewound(self) -> Self {
        (ClipInstance {
            time: S::zero_spec(),
            playing: true,
            translation: Channel::fresh(false),
            rotation: Channel::fresh(false),
            scale: Channel::fresh(false),
            tint: Channel::fresh(false),
            ..self
        }).settled()
    }

    fn rewind(&mut self)
        requires
            old(self).wf(),
        ensures
            *final(self) == old(self).rewound(),
            final(self).wf(),
    {
        self.time = S::zero();
        self.playing = true;
        self.translation = Channel::new();
        self.rotation = Channel::new();
        self.scale = Channel::new();
        self.tint = Channel::new();
        self.reset_cursors();
        self.settle();
    }

    /// The instance that a new clip starts with.
    pub open spec fn started(clip_key: String, clip: Arc<AnimationClip<S, P, C>>) -> Self {
        (ClipInstance {
            clip_key,
            clip,
            clip_version: clip.version,
            time: S::zero_spec(),
            playing: true,
            looped: clip.looped,
            speed: S::one_spec(),
            group: None,
            playback_rate: S::zero_spec(),
            playback_rate_dirty: true,
            translation: Channel::fresh(true),
            rotation: Channel::fresh(true),
            scale: Channel::fresh(true),
            tint: Channel::fresh(true),
            clip_channels: ClipChannelMask::of_clip(*clip),
            segments_crossed: 0,
        }).settled()
    }

    pub fn new(clip_key: String, clip: Arc<AnimationClip<S, P, C>>) -> (r: Self)
        requires
            clip.wf(),
        ensures
            r == Self::started(clip_key, clip),
            r.wf(),
    {
        let version: u32 = clip.version;
        let looped = clip.looped;
        let clip_channels = ClipChannelMask::from_clip(&clip);
        let mut instance = ClipInstance {
            clip_key,
            clip,
            clip_version: version,
            time: S::zero(),
            playing: true,
            looped,
            speed: S::one(),
            group: None,
            playback_rate: S::zero(),
            playback_rate_dirty: true,
            translation: Channel::new(),
            rotation: Channel::new(),
            scale: Channel::new(),
            tint: Channel::new(),
            clip_channels,
            segments_crossed: 0,
        };
        instance.settle();
        instance
    }

    /// The instance with another clip: speed and group stay, all else starts over.
    pub open spec fn with_clip(self, clip_key: String, clip: Arc<AnimationClip<S, P, C>>) -> Self {
        (ClipInstance {
            clip_key,
            clip,
            clip_version: clip.version,
            looped: clip.looped,
            playback_rate: S::zero_spec(),
            playback_rate_dirty: true,
            clip_channels: ClipChannelMask::of_clip(*clip),
            ..self
        }).rewound()
    }

    pub fn replace_clip(&mut self, clip_key: String, clip: Arc<AnimationClip<S, P, C>>)
        requires
            clip.wf(),
        ensures
            *final(self) == old(self).with_clip(clip_key, clip),
            final(self).wf(),
    {
        self.clip_version = clip.version;
        self.clip_channels = ClipChannelMask::from_clip(&clip);
        self.looped = clip.looped;
        self.clip_key = clip_key;
        self.clip = clip;
        self.playback_rate = S::zero();
        self.playback_rate_dirty = true;
        self.rewind();
    }

    pub fn reset(&mut self)
        requires
            old(self).wf(),
        ensures
            *final(self) == old(self).rewound(),
            final(self).wf(),
    {
        self.rewind();
    }

    pub fn set_playing(&mut self, playing: bool)
        ensures
            *final(self) == (ClipInstance { playing, ..*old(self) }),
    {
        self.playing = playing;
    }

    pub fn set_speed(&mut self, speed: S)
        ensures
            *final(self) == (ClipInstance { speed, playback_rate_dirty: true, ..*old(self) }),
    {
        self.speed = speed;
        self.mark_playback_rate_dirty();
    }

    pub fn set_group(&mut self, group: Option<String>)
        ensures
            *final(self) == (ClipInstance { group, playback_rate_dirty: true, ..*old(self) }),
    {
        self.group = group;
        self.mark_playback_rate_dirty();
    }

    pub fn mark_playback_rate_dirty(&mut self)
        ensures
            *final(self) == (ClipInstance { playback_rate_dirty: true, ..*old(self) }),
    {
        self.playback_rate_dirty = true;
    }

    /// The rate is computed anew only after something it rests on was marked as changed.
    pub fn ensure_playback_rate(&mut self, group_scale: S) -> (r: S)
        ensures
            r == final(self).playback_rate,
            *final(self) == (if old(self).playback_rate_dirty {
                (ClipInstance {
                    playback_rate: old(self).speed.times_spec(group_scale),
                    playback_rate_dirty: false,
                    ..*old(self)
                })
            } else {
                *old(self)
            }),
    {
        if self.playback_rate_dirty {
            self.playback_rate = self.speed.times(group_scale);
            self.playback_rate_dirty = false;
        }
        self.playback_rate
    }

    pub fn has_tint_channel(&self) -> (r: bool)
        ensures
            r == self.clip_channels.tint,
    {
        self.clip_channels.tint
    }

    /// The time that a jump to `time` gives, and whether the clip still plays there.
    pub open spec fn time_set_to(self, time: S) -> (S, bool) {
        let zero = S::zero_spec();
        let eps = S::clip_epsilon_spec();
        let duration = self.duration_of();
        if !zero.lt_spec(duration) {
            (zero, self.playing)
        } else if self.looped {
            let wrapped = time.rem_euclid_by_spec(
                duration.larger_spec(S::machine_epsilon_spec()),
            );
            if wrapped.minus_spec(duration).magnitude_spec().le_spec(eps) || duration.minus_spec(
                wrapped,
            ).magnitude_spec().le_spec(eps) {
                (duration, self.playing)
            } else {
                (wrapped, self.playing)
            }
        } else {
            let held = crate::scalar::clamped_spec(time, zero, duration);
            if duration.minus_spec(eps).le_spec(held) {
                (duration, false)
            } else {
                (held, self.playing)
            }
        }
    }

    /// Puts the instance at a time as far as it goes without walking the tracks.
    pub(crate) fn begin_jump(&mut self, time: S)
        requires
            old(self).wf(),
        ensures
            ({
                let (at, playing) = old(self).time_set_to(time);
                *final(self) == (ClipInstance {
                    time: at,
                    playing,
                    ..*old(self)
                }).cursors_reset().cursors_rebuilt()
            }),
            final(self).wf(),
    {
        let zero = S::zero();
        let eps = S::clip_epsilon();
        let duration = self.duration();
        if zero.lt(duration) {
            if self.looped {
                let step = duration.larger(S::machine_epsilon());
                let mut wrapped = time.rem_euclid_by(step);
                if wrapped.minus(duration).magnitude().le(eps) || duration.minus(
                    wrapped,
                ).magnitude().le(eps) {
                    wrapped = duration;
                }
                self.time = wrapped;
            } else {
                let mut held = clamped(time, zero, duration);
                if duration.minus(eps).le(held) {
                    held = duration;
                    self.playing = false;
                }
                self.time = held;
            }
        } else {
            self.time = zero;
        }
        self.reset_cursors();
        self.rebuild_track_cursors();
    }

    pub fn set_time(&mut self, time: S)
        requires
            old(self).wf(),
        ensures
            *final(self) == ({
                let (at, playing) = old(self).time_set_to(time);
                (ClipInstance { time: at, playing, ..*old(self) }).cursors_reset().settled()
            }),
            final(self).wf(),
    {
        self.begin_jump(time);
        let mask = ClipChannelMask::all().intersect(self.clip_channels);
        self.advance_track_states(S::zero(), mask);
    }

    pub open spec fn value_at(self, time: S) -> ClipSample<S, P, C> {
        let clip = *self.clip;
        ClipSample {
            translation: value_of_track(clip.translation, time, self.looped),
            rotation: value_of_track(clip.rotation, time, self.looped),
            scale: value_of_track(clip.scale, time, self.looped),
            tint: value_of_track(clip.tint, time, self.looped),
        }
    }

    pub fn sample_at(&self, time: S) -> (r: ClipSample<S, P, C>)
        ensures
            r == self.value_at(time),
    {
        ClipSample {
            translation: sample_optional_track(&self.clip.translation, time, self.looped),
            rotation: sample_optional_track(&self.clip.rotation, time, self.looped),
            scale: sample_optional_track(&self.clip.scale, time, self.looped),
            tint: sample_optional_track(&self.clip.tint, time, self.looped),
        }
    }

    pub fn sample(&self) -> (r: ClipSample<S, P, C>)
        ensures
            r == self.value_at(self.time),
    {
        self.sample_at(self.time)
    }

    /// The channels in `mask` with their place and their sample brought up to date.
    pub open spec fn samples_ensured(self, mask: ClipChannelMask) -> Self {
        let clip = *self.clip;
        ClipInstance {
            translation: if mask.translation {
                self.translation.refreshed(clip.translation, self.time, self.looped)
            } else {
                self.translation
            },
            rotation: if mask.rotation {
                self.rotation.refreshed(clip.rotation, self.time, self.looped)
            } else {
                self.rotation
            },
            scale: if mask.scale {
                self.scale.refreshed(clip.scale, self.time, self.looped)
            } else {
                self.scale
            },
            tint: if mask.tint {
                self.tint.refreshed(clip.tint, self.time, self.looped)
            } else {
                self.tint
            },
            ..self
        }
    }

    fn ensure_current_sample_channels(&mut self, mask: ClipChannelMask)
        ensures
            *final(self) == old(self).samples_ensured(mask),
    {
        let time = self.time;
        let looped = self.looped;
        if mask.translation {
            self.translation.ensure_sample(&self.clip.translation, time, looped);
        }
        if mask.rotation {
            self.rotation.ensure_sample(&self.clip.rotation, time, looped);
        }
        if mask.scale {
            self.scale.ensure_sample(&self.clip.scale, time, looped);
        }
        if mask.tint {
            self.tint.ensure_sample(&self.clip.tint, time, looped);
        }
    }

    pub open spec fn known_sample(self) -> ClipSample<S, P, C> {
        ClipSample {
            translation: self.translation.sample,
            rotation: self.rotation.sample,
            scale: self.scale.sample,
            tint: self.tint.sample,
        }
    }

    pub fn current_sample_full(&mut self) -> (r: ClipSample<S, P, C>)
        ensures
            *final(self) == old(self).samples_ensured(ClipChannelMask::full()),
            r == final(self).known_sample(),
    {
        self.ensure_current_sample_channels(ClipChannelMask::all());
        ClipSample {
            translation: self.translation.sample,
            rotation: self.rotation.sample,
            scale: self.scale.sample,
            tint: self.tint.sample,
        }
    }

    pub fn sample_cached(&mut self) -> (r: ClipSample<S, P, C>)
        ensures
            *final(self) == old(self).samples_ensured(ClipChannelMask::full()),
            r == final(self).known_sample(),
    {
        self.current_sample_full()
    }

    /// Only the channels that the players let through are read and returned.
    pub fn sample_with_masks(
        &mut self,
        transform_mask: Option<TransformTrackPlayer>,
        property_mask: Option<PropertyTrackPlayer>,
    ) -> (r: ClipSample<S, P, C>)
        ensures
            *final(self) == old(self).samples_ensured(
                ClipChannelMask::of_players(transform_mask, property_mask),
            ),
            r == final(self).known_sample().masked(
                ClipChannelMask::of_players(transform_mask, property_mask),
            ),
    {
        let mask = ClipChannelMask::from_players(transform_mask, property_mask);
        self.sample_channels(mask)
    }

    /// The samples of the channels in `mask`; the others stay unread.
    pub fn sample_channels(&mut self, mask: ClipChannelMask) -> (r: ClipSample<S, P, C>)
        ensures
            *final(self) == old(self).samples_ensured(mask),
            r == final(self).known_sample().masked(mask),
    {
        self.ensure_current_sample_channels(mask);
        ClipSample {
            translation: if mask.translation {
                self.translation.sample
            } else {
                None
            },
            rotation: if mask.rotation {
                self.rotation.sample
            } else {
                None
            },
            scale: if mask.scale {
                self.scale.sample
            } else {
                None
            },
            tint: if mask.tint {
                self.tint.sample
            } else {
                None
            },
        }
    }

    /// The count of skipped segments since it was last taken.
    pub fn take_segments_crossed(&mut self) -> (r: u64)
        ensures
            r == old(self).segments_crossed,
            *final(self) == (ClipInstance { segments_crossed: 0, ..*old(self) }),
    {
        let crossed: u64 = self.segments_crossed;
        self.segments_crossed = 0;
        crossed
    }
}

impl<S, P, C> ClipSample<S, P, C> {
    pub open spec fn masked(self, mask: ClipChannelMask) -> Self {
        ClipSample {
            translation: if mask.translation {
                self.translation
            } else {
                None
            },
            rotation: if mask.rotation {
                self.rotation
            } else {
                None
            },
            scale: if mask.scale {
                self.scale
            } else {
                None
            },
            tint: if mask.tint {
                self.tint
            } else {
                None
            },
        }
    }
}

pub open spec fn value_of_track<S: Scalar, V: TrackValue<S>>(
    track: Option<ClipTrack<S, V>>,
    time: S,
    looped: bool,
) -> Option<V> {
    match track {
        Some(found) => crate::clip_track::track_value_at(found, time, looped),
        None => None,
    }
}

fn sample_optional_track<S: Scalar, V: TrackValue<S>>(
    track: &Option<ClipTrack<S, V>>,
    time: S,
    looped: bool,
) -> (r: Option<V>)
    ensures
        r == value_of_track(*track, time, looped),
{
    match track {
        Some(found) => sample_track(found, time, looped),
        None => None,
    }
}

/// A sample that was read is kept: reading it again changes nothing, and the channels that were
/// not asked for are as they were.
pub proof fn law_reading_twice_gives_the_same<
    S: Scalar + TrackValue<S>,
    P: TrackValue<S>,
    C: TrackValue<S>,
>(instance: ClipInstance<S, P, C>, mask: ClipChannelMask)
    ensures
        instance.samples_ensured(mask).samples_ensured(mask) == instance.samples_ensured(mask),
        instance.samples_ensured(mask).time == instance.time,
        !mask.translation ==> instance.samples_ensured(mask).translation == instance.translation,
        !mask.rotation ==> instance.samples_ensured(mask).rotation == instance.rotation,
        !mask.scale ==> instance.samples_ensured(mask).scale == instance.scale,
        !mask.tint ==> instance.samples_ensured(mask).tint == instance.tint,
{
    let clip = *instance.clip;
    crate::clip_track::lemma_refreshed_once(
        instance.translation,
        clip.translation,
        instance.time,
        instance.looped,
    );
    crate::clip_track::lemma_refreshed_once(
        instance.rotation,
        clip.rotation,
        instance.time,
        instance.looped,
    );
    crate::clip_track::lemma_refreshed_once(
        instance.scale,
        clip.scale,
        instance.time,
        instance.looped,
    );
    crate::clip_track::lemma_refreshed_once(
        instance.tint,
        clip.tint,
        instance.time,
        instance.looped,
    );
}

/// In fixed point a jump always lands within the clip.
pub proof fn law_fixed_jump_lands_within<P: TrackValue<Fixed>, C: TrackValue<Fixed>>(
    instance: ClipInstance<Fixed, P, C>,
    time: Fixed,
)
    ensures
        0 <= instance.time_set_to(time).0.0 <= instance.duration_of().0,
{
    let duration = instance.duration_of();
    if duration.0 > 0 {
        crate::scalar::law_fixed_remainder_lies_within(time, duration);
    }
}

} // verus!
