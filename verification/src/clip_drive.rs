//! Playing clips on entities: which tracks are read, what is written, and what is counted.
use vstd::prelude::*;
use crate::anim_stats::{
    record_transform_advance_time, record_transform_segment_crosses, AnimationRecorder,
    TransformClipStatAccumulator,
};
use crate::animation_time::{AnimationDelta, AnimationTime};
use crate::clip::{ClipChannelMask, ClipInstance, ClipSample, PropertyTrackPlayer, TransformTrackPlayer};
use crate::clip_track::Channel;
use crate::scalar::{Scalar, TrackValue};
use crate::stopwatch::{measured, read_clock, time_since};

verus! {

/// The place of an entity in the plane.
#[derive(Clone, Copy)]
pub struct ClipTransform<S, P> {
    pub translation: P,
    pub rotation: S,
    pub scale: P,
}

/// An entity that a clip plays on, with what the clip may write.
pub struct ClipActor<S, P, C> {
    pub instance: ClipInstance<S, P, C>,
    pub transform_player: Option<TransformTrackPlayer>,
    pub property_player: Option<PropertyTrackPlayer>,
    pub transform: Option<ClipTransform<S, P>>,
    pub tint: Option<C>,
}

/// Whether two optional values differ.
pub open spec fn differ<S, V: TrackValue<S>>(a: Option<V>, b: Option<V>) -> bool {
    match (a, b) {
        (Some(x), Some(y)) => !x.alike_spec(y),
        (None, None) => false,
        _ => true,
    }
}

fn values_differ<S, V: TrackValue<S>>(a: Option<V>, b: Option<V>) -> (r: bool)
    ensures
        r == differ::<S, V>(a, b),
{
    match (a, b) {
        (Some(x), Some(y)) => !x.alike(y),
        (None, None) => false,
        _ => true,
    }
}

/// What a channel leaves in its target: a sampled value that differs from the last one applied is
/// written, if the channel is on.
pub open spec fn written<S, V: TrackValue<S>>(
    target: V,
    on: bool,
    sample: Option<V>,
    last: Option<V>,
) -> V {
    if on && differ::<S, V>(sample, last) && sample is Some {
        sample->0
    } else {
        target
    }
}

fn write_value<S, V: TrackValue<S>>(target: V, on: bool, sample: Option<V>, last: Option<V>) -> (r: V)
    ensures
        r == written::<S, V>(target, on, sample, last),
{
    if on && values_differ::<S, V>(sample, last) {
        match sample {
            Some(value) => value,
            None => target,
        }
    } else {
        target
    }
}

/// What a channel remembers as applied: nothing when it is off, the sample when there was a target
/// for it, else what it remembered before.
pub open spec fn remembered<V>(on: bool, had_target: bool, sample: Option<V>, last: Option<V>) -> Option<V> {
    if !on {
        None
    } else if had_target {
        sample
    } else {
        last
    }
}

fn remember<V: Copy>(on: bool, had_target: bool, sample: Option<V>, last: Option<V>) -> (r: Option<V>)
    ensures
        r == remembered(on, had_target, sample, last),
{
    if !on {
        None
    } else if had_target {
        sample
    } else {
        last
    }
}

/// A transform with the transform channels of a sample written to it.
pub open spec fn transform_written<S: Scalar + TrackValue<S>, P: TrackValue<S>, C: TrackValue<S>>(
    t: ClipTransform<S, P>,
    instance: ClipInstance<S, P, C>,
    mask: ClipChannelMask,
    sample: ClipSample<S, P, C>,
) -> ClipTransform<S, P> {
    ClipTransform {
        translation: written::<S, P>(
            t.translation,
            mask.translation,
            sample.translation,
            instance.translation.last,
        ),
        rotation: written::<S, S>(
            t.rotation,
            mask.rotation,
            sample.rotation,
            instance.rotation.last,
        ),
        scale: written::<S, P>(t.scale, mask.scale, sample.scale, instance.scale.last),
    }
}

fn write_transform<S: Scalar + TrackValue<S>, P: TrackValue<S>, C: TrackValue<S>>(
    t: ClipTransform<S, P>,
    instance: &ClipInstance<S, P, C>,
    mask: ClipChannelMask,
    sample: &ClipSample<S, P, C>,
) -> (r: ClipTransform<S, P>)
    ensures
        r == transform_written(t, *instance, mask, *sample),
{
    ClipTransform {
        translation: write_value::<S, P>(
            t.translation,
            mask.translation,
            sample.translation,
            instance.translation.last,
        ),
        rotation: write_value::<S, S>(
            t.rotation,
            mask.rotation,
            sample.rotation,
            instance.rotation.last,
        ),
        scale: write_value::<S, P>(t.scale, mask.scale, sample.scale, instance.scale.last),
    }
}

/// An instance that remembers a sample as applied.
pub open spec fn sample_remembered<S: Scalar + TrackValue<S>, P: TrackValue<S>, C: TrackValue<S>>(
    i: ClipInstance<S, P, C>,
    mask: ClipChannelMask,
    had: bool,
    had_tint: bool,
    sample: ClipSample<S, P, C>,
) -> ClipInstance<S, P, C> {
    ClipInstance {
        translation: Channel {
            last: remembered(mask.translation, had, sample.translation, i.translation.last),
            ..i.translation
        },
        rotation: Channel {
            last: remembered(mask.rotation, had, sample.rotation, i.rotation.last),
            ..i.rotation
        },
        scale: Channel {
            last: remembered(mask.scale, had, sample.scale, i.scale.last),
            ..i.scale
        },
        tint: Channel {
            last: remembered(mask.tint, had_tint, sample.tint, i.tint.last),
            ..i.tint
        },
        ..i
    }
}

fn remember_sample<S: Scalar + TrackValue<S>, P: TrackValue<S>, C: TrackValue<S>>(
    i: &mut ClipInstance<S, P, C>,
    mask: ClipChannelMask,
    had: bool,
    had_tint: bool,
    sample: &ClipSample<S, P, C>,
)
    ensures
        *final(i) == sample_remembered(*old(i), mask, had, had_tint, *sample),
{
    let translation = remember(mask.translation, had, sample.translation, i.translation.last);
    let rotation = remember(mask.rotation, had, sample.rotation, i.rotation.last);
    let scale = remember(mask.scale, had, sample.scale, i.scale.last);
    let tint = remember(mask.tint, had_tint, sample.tint, i.tint.last);
    i.translation.set_last(translation);
    i.rotation.set_last(rotation);
    i.scale.set_last(scale);
    i.tint.set_last(tint);
}

impl<S: Scalar + TrackValue<S>, P: TrackValue<S>, C: TrackValue<S>> ClipActor<S, P, C> {
    /// The actor with a sample applied under `mask`.
    pub open spec fn sample_applied(self, mask: ClipChannelMask, sample: ClipSample<S, P, C>) -> Self {
        ClipActor {
            transform: match self.transform {
                Some(t) => Some(transform_written(t, self.instance, mask, sample)),
                None => None,
            },
            tint: match self.tint {
                Some(c) => Some(
                    written::<S, C>(c, mask.tint, sample.tint, self.instance.tint.last),
                ),
                None => None,
            },
            instance: sample_remembered(
                self.instance,
                mask,
                self.transform is Some,
                self.tint is Some,
                sample,
            ),
            ..self
        }
    }

    /// Writes a sample to the entity and remembers what was written.
    pub fn apply_clip_sample(
        &mut self,
        transform_player: Option<TransformTrackPlayer>,
        property_player: Option<PropertyTrackPlayer>,
        sample: ClipSample<S, P, C>,
    )
        ensures
            *final(self) == old(self).sample_applied(
                ClipChannelMask::of_players(transform_player, property_player),
                sample,
            ),
    {
        let mask = ClipChannelMask::from_players(transform_player, property_player);
        self.apply_masked(mask, sample);
    }

    fn apply_masked(&mut self, mask: ClipChannelMask, sample: ClipSample<S, P, C>)
        ensures
            *final(self) == old(self).sample_applied(mask, sample),
    {
        let had: bool = self.transform.is_some();
        let had_tint: bool = self.tint.is_some();
        if let Some(t) = self.transform {
            self.transform = Some(write_transform(t, &self.instance, mask, &sample));
        }
        if let Some(c) = self.tint {
            self.tint = Some(
                write_value::<S, C>(c, mask.tint, sample.tint, self.instance.tint.last),
            );
        }
        remember_sample(&mut self.instance, mask, had, had_tint, &sample);
    }
}

/// A sample that was just applied to an entity that has all it is written to does not write again.
pub proof fn law_applied_sample_is_not_rewritten<S, V: TrackValue<S>>(
    target: V,
    on: bool,
    sample: Option<V>,
    last: Option<V>,
)
    requires
        on,
        sample is Some ==> sample->0.alike_spec(sample->0),
    ensures
        ({
            let after = remembered(on, true, sample, last);
            written::<S, V>(target, on, sample, after) == target
        }),
{
}

impl<S: Scalar + TrackValue<S>, P: TrackValue<S>, C: TrackValue<S>> ClipActor<S, P, C> {
    pub open spec fn wf(self) -> bool {
        self.instance.wf()
    }

    /// Which channels the players let through, with everything on where there is none.
    pub open spec fn player_mask(self) -> ClipChannelMask {
        ClipChannelMask::of_players(self.transform_player, self.property_player)
    }

    /// Whether the clip is asked to write a tint and has one.
    pub open spec fn wants_tint(self) -> bool {
        self.property_player is Some && self.property_player->0.apply_tint
            && self.instance.clip_channels.tint
    }

    /// The channels that are read: those that are let through and have a target.
    pub open spec fn sampling_mask(self) -> ClipChannelMask {
        let players = self.player_mask();
        ClipChannelMask {
            translation: players.translation && self.transform is Some,
            rotation: players.rotation && self.transform is Some,
            scale: players.scale && self.transform is Some,
            tint: self.wants_tint() && self.tint is Some,
        }
    }

    /// The channels that are written and remembered.
    pub open spec fn applying_mask(self) -> ClipChannelMask {
        let players = self.player_mask();
        ClipChannelMask {
            translation: players.translation && self.transform is Some,
            rotation: players.rotation && self.transform is Some,
            scale: players.scale && self.transform is Some,
            tint: players.tint && !(self.wants_tint() && self.tint is None),
        }
    }

    pub open spec fn has_targets(self) -> bool {
        self.transform is Some || (self.wants_tint() && self.tint is Some)
    }

    /// Whether every transform channel is let through and everything wanted has a target.
    pub open spec fn takes_fast_path(self) -> bool {
        let players = self.player_mask();
        &&& self.transform is Some
        &&& players.translation && players.rotation && players.scale
        &&& self.wants_tint() ==> self.tint is Some
    }

    fn mask_of_players(&self) -> (r: ClipChannelMask)
        ensures
            r == self.player_mask(),
    {
        ClipChannelMask::from_players(self.transform_player, self.property_player)
    }

    fn tint_wanted(&self) -> (r: bool)
        ensures
            r == self.wants_tint(),
    {
        match self.property_player {
            Some(player) => player.apply_tint && self.instance.has_tint_channel(),
            None => false,
        }
    }

    /// The actor with the channels in `read` sampled and the sample applied under `applied`.
    #[verifier::opaque]
    pub open spec fn sampled_onto(self, read: ClipChannelMask, applied: ClipChannelMask) -> Self {
        let instance = self.instance.samples_ensured(read);
        (ClipActor { instance, ..self }).sample_applied(
            applied,
            instance.known_sample().masked(read),
        )
    }

    /// The times that reading and writing took.
    fn sample_onto<K: Fn() -> u64 + Copy>(
        &mut self,
        read: ClipChannelMask,
        applied: ClipChannelMask,
        clock: K,
    ) -> (r: (u64, u64))
        requires
            clock.requires(()),
        ensures
            *final(self) == old(self).sampled_onto(read, applied),
            old(self).wf() ==> final(self).wf(),
            measured(clock, r.0),
            measured(clock, r.1),
    {
        proof {
            reveal(ClipActor::sampled_onto);
        }
        let start: u64 = read_clock(clock);
        let sample = self.instance.sample_channels(read);
        let sample_ns: u64 = time_since(clock, start);
        let start: u64 = read_clock(clock);
        self.apply_masked(applied, sample);
        let apply_ns: u64 = time_since(clock, start);
        (sample_ns, apply_ns)
    }

    #[verifier::opaque]
    pub open spec fn jumped(self, time: S) -> Self {
        let (at, playing) = self.instance.time_set_to(time);
        ClipActor {
            instance: (ClipInstance {
                time: at,
                playing,
                ..self.instance
            }).cursors_reset().settled(),
            ..self
        }
    }

    /// The time that walking the tracks took.
    fn jump<K: Fn() -> u64 + Copy>(&mut self, time: S, clock: K) -> (r: u64)
        requires
            old(self).wf(),
            clock.requires(()),
        ensures
            *final(self) == old(self).jumped(time),
            final(self).wf(),
            measured(clock, r),
    {
        proof {
            reveal(ClipActor::jumped);
        }
        self.instance.begin_jump(time);
        let mask = ClipChannelMask::all().intersect(self.instance.clip_channels);
        let start: u64 = read_clock(clock);
        self.instance.advance_track_states(S::zero(), mask);
        time_since(clock, start)
    }

    /// The actor without a target: only the time moves, and nothing counts as applied any more.
    #[verifier::opaque]
    pub open spec fn untargeted(self, scaled: S) -> Self {
        let moved = self.jumped(self.instance.time.plus_spec(scaled));
        let i = moved.instance;
        ClipActor {
            instance: ClipInstance {
                translation: Channel { last: None, ..i.translation },
                rotation: Channel { last: None, ..i.rotation },
                scale: Channel { last: None, ..i.scale },
                tint: if self.wants_tint() {
                    Channel { last: None, ..i.tint }
                } else {
                    i.tint
                },
                ..i
            },
            ..moved
        }
    }

    fn play_untargeted<K: Fn() -> u64 + Copy>(&mut self, scaled: S, clock: K) -> (r: u64)
        requires
            old(self).wf(),
            clock.requires(()),
        ensures
            *final(self) == old(self).untargeted(scaled),
            final(self).wf(),
            measured(clock, r),
    {
        proof {
            reveal(ClipActor::untargeted);
        }
        let wants_tint: bool = self.tint_wanted();
        let time = self.instance.time.plus(scaled);
        let advance_ns: u64 = self.jump(time, clock);
        self.instance.translation.set_last(None);
        self.instance.rotation.set_last(None);
        self.instance.scale.set_last(None);
        if wants_tint {
            self.instance.tint.set_last(None);
        }
        advance_ns
    }

    /// The rate that the clip plays at, brought up to date.
    pub open spec fn rated(self, scale: S) -> Self {
        ClipActor {
            instance: if self.instance.playback_rate_dirty {
                ClipInstance {
                    playback_rate: self.instance.speed.times_spec(scale),
                    playback_rate_dirty: false,
                    ..self.instance
                }
            } else {
                self.instance
            },
            ..self
        }
    }

    pub open spec fn scale_for(self, has_group_scales: bool, time: AnimationTime<S>) -> S {
        if has_group_scales {
            time.scale_of(
                match self.instance.group {
                    Some(name) => Some(name@),
                    None => None,
                },
            )
        } else {
            S::one_spec()
        }
    }

    fn rate(&mut self, has_group_scales: bool, time: &AnimationTime<S>) -> (r: S)
        requires
            old(self).wf(),
            time.wf(),
        ensures
            *final(self) == old(self).rated(old(self).scale_for(has_group_scales, *time)),
            r == final(self).instance.playback_rate,
            final(self).wf(),
    {
        let scale = if has_group_scales {
            match &self.instance.group {
                Some(name) => time.group_scale(Some(name.as_str())),
                None => time.group_scale(None),
            }
        } else {
            S::one()
        };
        self.instance.ensure_playback_rate(scale)
    }

    /// The fast path or the slow path forward by `scaled`: the tracks move, and if they did, what
    /// they give is applied.
    #[verifier::opaque]
    pub open spec fn moved_forward(self, scaled: S) -> (Self, bool) {
        let (instance, applied) = self.instance.time_advanced(scaled, self.player_mask());
        let moved = ClipActor { instance, ..self };
        if applied.le_spec(S::zero_spec()) {
            (moved, false)
        } else if self.takes_fast_path() {
            (
                moved.sampled_onto(
                    ClipChannelMask::full(),
                    ClipChannelMask {
                        translation: true,
                        rotation: true,
                        scale: true,
                        tint: self.wants_tint(),
                    },
                ),
                true,
            )
        } else {
            (moved.sampled_onto(self.sampling_mask(), self.applying_mask()), true)
        }
    }

    fn move_forward<K: Fn() -> u64 + Copy>(
        &mut self,
        scaled: S,
        fast: bool,
        read: ClipChannelMask,
        applied: ClipChannelMask,
        clock: K,
    ) -> (r: (bool, ClipSpans))
        requires
            old(self).wf(),
            fast == old(self).takes_fast_path(),
            !fast ==> read == old(self).sampling_mask() && applied == old(self).applying_mask(),
            clock.requires(()),
        ensures
            (*final(self), r.0) == old(self).moved_forward(scaled),
            final(self).wf(),
            r.1.taken(
                clock,
                ClipWork {
                    walked: old(self).instance.walks_tracks(scaled, old(self).player_mask()),
                    read: r.0,
                },
            ),
    {
        proof {
            reveal(ClipActor::moved_forward);
        }
        let wants_tint: bool = self.tint_wanted();
        let players = self.mask_of_players();
        let (used, walk) = self.instance.begin_step(scaled, players);
        let mut spans = ClipSpans { advance_ns: 0, sample_ns: 0, apply_ns: 0 };
        if let Some(step) = walk {
            let mask = players.intersect(self.instance.clip_channels);
            let start: u64 = read_clock(clock);
            self.instance.advance_track_states(step, mask);
            spans.advance_ns = time_since(clock, start);
        }
        if used.le(S::zero()) {
            return (false, spans);
        }
        let (sample_ns, apply_ns) = if fast {
            self.sample_onto(
                ClipChannelMask::all(),
                ClipChannelMask { translation: true, rotation: true, scale: true, tint: wants_tint },
                clock,
            )
        } else {
            self.sample_onto(read, applied, clock)
        };
        spans.sample_ns = sample_ns;
        spans.apply_ns = apply_ns;
        (true, spans)
    }

    /// What one clip does with a frame's time, and which way it took.
    pub open spec fn played(self, delta: S, has_group_scales: bool, time: AnimationTime<S>) -> (
        Self,
        ClipPath,
    ) {
        let zero = S::zero_spec();
        let rated = self.rated(self.scale_for(has_group_scales, time));
        let rate = rated.instance.playback_rate;
        let scaled = delta.times_spec(rate);
        if !self.instance.playing {
            (self, ClipPath::Skipped)
        } else if rate.same_spec(zero) || scaled.same_spec(zero) {
            (rated, ClipPath::Still)
        } else {
            rated.played_scaled(scaled)
        }
    }

    /// The same for a clip that plays, once its step is known.
    pub open spec fn played_scaled(self, scaled: S) -> (Self, ClipPath) {
        let zero = S::zero_spec();
        let empty = self.instance.duration_of().le_spec(zero);
        let actor = if empty {
            ClipActor { instance: ClipInstance { time: zero, ..self.instance }, ..self }
        } else {
            self
        };
        if !actor.has_targets() {
            (
                actor.untargeted(scaled),
                if empty {
                    ClipPath::ZeroDuration
                } else {
                    ClipPath::Still
                },
            )
        } else if empty {
            (
                actor.sampled_onto(actor.sampling_mask(), actor.applying_mask()),
                ClipPath::ZeroDuration,
            )
        } else if scaled.lt_spec(zero) {
            (
                actor.jumped(actor.instance.time.plus_spec(scaled)).sampled_onto(
                    actor.sampling_mask(),
                    actor.applying_mask(),
                ),
                ClipPath::Backward,
            )
        } else {
            let (after, moved) = actor.moved_forward(scaled);
            (after, ClipPath::Forward { fast: actor.takes_fast_path(), moved })
        }
    }

    /// What a frame's time has a clip do that is timed.
    pub open spec fn work(self, delta: S, has_group_scales: bool, time: AnimationTime<S>) -> ClipWork {
        let zero = S::zero_spec();
        let rated = self.rated(self.scale_for(has_group_scales, time));
        let rate = rated.instance.playback_rate;
        let scaled = delta.times_spec(rate);
        if !self.instance.playing || rate.same_spec(zero) || scaled.same_spec(zero) {
            ClipWork { walked: false, read: false }
        } else {
            rated.work_scaled(scaled)
        }
    }

    /// The same for a clip that plays, once its step is known.
    pub open spec fn work_scaled(self, scaled: S) -> ClipWork {
        let zero = S::zero_spec();
        let empty = self.instance.duration_of().le_spec(zero);
        if !self.has_targets() {
            ClipWork { walked: true, read: false }
        } else if empty {
            ClipWork { walked: false, read: true }
        } else if scaled.lt_spec(zero) {
            ClipWork { walked: true, read: true }
        } else {
            ClipWork {
                walked: self.instance.walks_tracks(scaled, self.player_mask()),
                read: self.moved_forward(scaled).1,
            }
        }
    }

    fn play_scaled<K: Fn() -> u64 + Copy>(&mut self, scaled: S, clock: K) -> (r: (
        ClipPath,
        ClipSpans,
    ))
        requires
            old(self).wf(),
            clock.requires(()),
        ensures
            (*final(self), r.0) == old(self).played_scaled(scaled),
            final(self).wf(),
            r.1.taken(clock, old(self).work_scaled(scaled)),
    {
        let zero = S::zero();
        let empty: bool = self.instance.duration().le(zero);
        if empty {
            self.instance.time = zero;
        }
        let players = self.mask_of_players();
        let wants_tint: bool = self.tint_wanted();
        let has_transform: bool = self.transform.is_some();
        let has_tint: bool = self.tint.is_some();
        if !has_transform && !(wants_tint && has_tint) {
            let advance_ns: u64 = self.play_untargeted(scaled, clock);
            let path = if empty {
                ClipPath::ZeroDuration
            } else {
                ClipPath::Still
            };
            return (path, ClipSpans { advance_ns, sample_ns: 0, apply_ns: 0 });
        }
        let read = ClipChannelMask {
            translation: players.translation && has_transform,
            rotation: players.rotation && has_transform,
            scale: players.scale && has_transform,
            tint: wants_tint && has_tint,
        };
        let applied = ClipChannelMask {
            translation: players.translation && has_transform,
            rotation: players.rotation && has_transform,
            scale: players.scale && has_transform,
            tint: players.tint && !(wants_tint && !has_tint),
        };
        if empty {
            let (sample_ns, apply_ns) = self.sample_onto(read, applied, clock);
            return (ClipPath::ZeroDuration, ClipSpans { advance_ns: 0, sample_ns, apply_ns });
        }
        if scaled.lt(zero) {
            let target = self.instance.time.plus(scaled);
            let advance_ns: u64 = self.jump(target, clock);
            let (sample_ns, apply_ns) = self.sample_onto(read, applied, clock);
            return (ClipPath::Backward, ClipSpans { advance_ns, sample_ns, apply_ns });
        }
        let fast: bool = has_transform && players.translation && players.rotation && players.scale
            && (!wants_tint || has_tint);
        let (moved, spans) = self.move_forward(scaled, fast, read, applied, clock);
        (ClipPath::Forward { fast, moved }, spans)
    }

    /// Plays a frame's time on one clip: the way it took, and how long its parts took by a clock
    /// that counts nanoseconds.
    pub fn play<K: Fn() -> u64 + Copy>(
        &mut self,
        delta: S,
        has_group_scales: bool,
        time: &AnimationTime<S>,
        clock: K,
    ) -> (r: (ClipPath, ClipSpans))
        requires
            old(self).wf(),
            time.wf(),
            clock.requires(()),
        ensures
            (*final(self), r.0) == old(self).played(delta, has_group_scales, *time),
            final(self).wf(),
            r.1.taken(clock, old(self).work(delta, has_group_scales, *time)),
    {
        let zero = S::zero();
        let none = ClipSpans { advance_ns: 0, sample_ns: 0, apply_ns: 0 };
        if !self.instance.playing {
            return (ClipPath::Skipped, none);
        }
        let rate = self.rate(has_group_scales, time);
        if rate.same(zero) {
            return (ClipPath::Still, none);
        }
        let scaled = delta.times(rate);
        if scaled.same(zero) {
            return (ClipPath::Still, none);
        }
        self.play_scaled(scaled, clock)
    }
}

/// How long a clip took to walk its tracks, to read them and to write what was read, in
/// nanoseconds.
#[derive(Clone, Copy, Debug, PartialEq, Eq, Structural)]
pub struct ClipSpans {
    pub advance_ns: u64,
    pub sample_ns: u64,
    pub apply_ns: u64,
}

/// What a clip did that is timed: whether its tracks were walked, and whether they were read and
/// written.
#[derive(Clone, Copy, Debug, PartialEq, Eq, Structural)]
pub struct ClipWork {
    pub walked: bool,
    pub read: bool,
}

impl ClipSpans {
    /// What was done was measured by the clock, and what was not done took no time.
    pub open spec fn taken<K: Fn() -> u64>(self, clock: K, work: ClipWork) -> bool {
        &&& if work.walked {
            measured(clock, self.advance_ns)
        } else {
            self.advance_ns == 0
        }
        &&& if work.read {
            measured(clock, self.sample_ns) && measured(clock, self.apply_ns)
        } else {
            self.sample_ns == 0 && self.apply_ns == 0
        }
    }
}

/// The way that a clip took through a pass.
#[derive(Clone, Copy, Debug, PartialEq, Eq, Structural)]
pub enum ClipPath {
    /// It does not play.
    Skipped,
    /// Nothing was read: it stands still, or has no target.
    Still,
    /// It lasts no time.
    ZeroDuration,
    Backward,
    Forward { fast: bool, moved: bool },
}

/// The counts of a pass once one more clip took `path`, and the times its parts took.
pub open spec fn path_counted(
    acc: TransformClipStatAccumulator,
    path: ClipPath,
    spans: ClipSpans,
) -> TransformClipStatAccumulator {
    let one = |on: bool| if on { 1int } else { 0int };
    let forward = path is Forward;
    let fast = forward && path->fast;
    let moved = forward && path->moved;
    TransformClipStatAccumulator {
        skipped_clips: (acc.skipped_clips + one(path is Skipped)) as u64,
        zero_duration_clips: (acc.zero_duration_clips + one(path is ZeroDuration)) as u64,
        slow_path_clips: (acc.slow_path_clips + one(path is Backward || (forward && !fast))) as u64,
        fast_path_clips: (acc.fast_path_clips + one(fast)) as u64,
        advance_calls: (acc.advance_calls + one(forward)) as u64,
        zero_delta_calls: (acc.zero_delta_calls + one(forward && !moved)) as u64,
        sample_time_ns: (acc.sample_time_ns + spans.sample_ns) as u128,
        apply_time_ns: (acc.apply_time_ns + spans.apply_ns) as u128,
    }
}

/// No count of `acc` is over `bound`, and no time over that of as many of the longest spans.
pub open spec fn counts_within(acc: TransformClipStatAccumulator, bound: int) -> bool {
    &&& acc.skipped_clips <= bound
    &&& acc.zero_duration_clips <= bound
    &&& acc.slow_path_clips <= bound
    &&& acc.fast_path_clips <= bound
    &&& acc.advance_calls <= bound
    &&& acc.zero_delta_calls <= bound
    &&& acc.sample_time_ns <= bound * u64::MAX
    &&& acc.apply_time_ns <= bound * u64::MAX
}

fn count_path(
    acc: &mut TransformClipStatAccumulator,
    path: ClipPath,
    spans: ClipSpans,
    Ghost(bound): Ghost<int>,
)
    requires
        counts_within(*old(acc), bound),
        bound < u64::MAX,
    ensures
        *final(acc) == path_counted(*old(acc), path, spans),
        counts_within(*final(acc), bound + 1),
{
    proof {
        assert((bound + 1) * u64::MAX == bound * u64::MAX + u64::MAX) by (nonlinear_arith);
        assert((bound + 1) * u64::MAX <= u128::MAX) by (nonlinear_arith)
            requires
                bound < u64::MAX,
        ;
    }
    acc.sample_time_ns = acc.sample_time_ns + spans.sample_ns as u128;
    acc.apply_time_ns = acc.apply_time_ns + spans.apply_ns as u128;
    match path {
        ClipPath::Skipped => {
            acc.skipped_clips = acc.skipped_clips + 1;
        },
        ClipPath::Still => {},
        ClipPath::ZeroDuration => {
            acc.zero_duration_clips = acc.zero_duration_clips + 1;
        },
        ClipPath::Backward => {
            acc.slow_path_clips = acc.slow_path_clips + 1;
        },
        ClipPath::Forward { fast, moved } => {
            acc.advance_calls = acc.advance_calls + 1;
            if fast {
                acc.fast_path_clips = acc.fast_path_clips + 1;
            } else {
                acc.slow_path_clips = acc.slow_path_clips + 1;
            }
            if !moved {
                acc.zero_delta_calls = acc.zero_delta_calls + 1;
            }
        },
    }
}

/// A pass over the clips of a table.
pub struct ClipPass<S, P, C> {
    pub actors: Seq<ClipActor<S, P, C>>,
    pub counts: TransformClipStatAccumulator,
    pub recorder: AnimationRecorder<S>,
}

pub open spec fn crosses_recorded<S>(recorder: AnimationRecorder<S>, crosses: u64) -> AnimationRecorder<S> {
    AnimationRecorder {
        clips: crate::anim_stats::TransformClipStats {
            segment_crosses: crate::counts::wrapping_sum(recorder.clips.segment_crosses, crosses),
            ..recorder.clips
        },
        ..recorder
    }
}

pub open spec fn walk_recorded<S>(recorder: AnimationRecorder<S>, nanos: u64) -> AnimationRecorder<S> {
    AnimationRecorder {
        clips: crate::anim_stats::TransformClipStats {
            advance_time_ns: crate::counts::wrapping_sum(recorder.clips.advance_time_ns, nanos),
            ..recorder.clips
        },
        ..recorder
    }
}

impl<S: Scalar + TrackValue<S>, P: TrackValue<S>, C: TrackValue<S>> ClipPass<S, P, C> {
    /// One clip's part of a pass: it plays, the segments that it skipped are counted, and the times
    /// that its parts took are added up.
    pub open spec fn clip_played(
        self,
        delta: S,
        has_group_scales: bool,
        time: AnimationTime<S>,
        spans: ClipSpans,
        i: int,
    ) -> Self {
        let (actor, path) = self.actors[i].played(delta, has_group_scales, time);
        ClipPass {
            actors: self.actors.update(
                i,
                ClipActor {
                    instance: ClipInstance { segments_crossed: 0, ..actor.instance },
                    ..actor
                },
            ),
            counts: path_counted(self.counts, path, spans),
            recorder: walk_recorded(
                crosses_recorded(self.recorder, actor.instance.segments_crossed),
                spans.advance_ns,
            ),
        }
    }

    /// The pass over the first `n` clips, each with the times that its parts took.
    pub open spec fn played_up_to(
        self,
        delta: S,
        has_group_scales: bool,
        time: AnimationTime<S>,
        spans: Seq<ClipSpans>,
        n: int,
    ) -> Self
        decreases n,
    {
        if n <= 0 {
            self
        } else {
            self.played_up_to(delta, has_group_scales, time, spans, n - 1).clip_played(
                delta,
                has_group_scales,
                time,
                spans[n - 1],
                n - 1,
            )
        }
    }
}

/// Whether the clock measured the times of every clip.
pub open spec fn spans_taken<
    S: Scalar + TrackValue<S>,
    P: TrackValue<S>,
    C: TrackValue<S>,
    K: Fn() -> u64,
>(
    clock: K,
    spans: Seq<ClipSpans>,
    actors: Seq<ClipActor<S, P, C>>,
    delta: S,
    has_group_scales: bool,
    time: AnimationTime<S>,
) -> bool {
    &&& spans.len() == actors.len()
    &&& forall|i: int|
        0 <= i < actors.len() ==> (#[trigger] spans[i]).taken(
            clock,
            actors[i].work(delta, has_group_scales, time),
        )
}

pub open spec fn counts_flushed<S>(
    recorder: AnimationRecorder<S>,
    acc: TransformClipStatAccumulator,
) -> AnimationRecorder<S> {
    let c = recorder.clips;
    AnimationRecorder {
        clips: crate::anim_stats::TransformClipStats {
            advance_calls: crate::counts::wrapping_sum(c.advance_calls, acc.advance_calls),
            zero_delta_calls: crate::counts::wrapping_sum(c.zero_delta_calls, acc.zero_delta_calls),
            skipped_clips: crate::counts::wrapping_sum(c.skipped_clips, acc.skipped_clips),
            zero_duration_clips: crate::counts::wrapping_sum(
                c.zero_duration_clips,
                acc.zero_duration_clips,
            ),
            fast_path_clips: crate::counts::wrapping_sum(c.fast_path_clips, acc.fast_path_clips),
            slow_path_clips: crate::counts::wrapping_sum(c.slow_path_clips, acc.slow_path_clips),
            sample_time_ns: crate::counts::wrapping_sum(
                c.sample_time_ns,
                crate::anim_stats::nanos_held(acc.sample_time_ns),
            ),
            apply_time_ns: crate::counts::wrapping_sum(
                c.apply_time_ns,
                crate::anim_stats::nanos_held(acc.apply_time_ns),
            ),
            ..c
        },
        ..recorder
    }
}

/// Whether a pass over the clips of a table leaves them and the recorder so: every clip played, and
/// what was done and the times that the clock measured were added up.
pub open spec fn all_played<
    S: Scalar + TrackValue<S>,
    P: TrackValue<S>,
    C: TrackValue<S>,
    K: Fn() -> u64,
>(
    clips: Seq<ClipActor<S, P, C>>,
    recorder: AnimationRecorder<S>,
    delta: S,
    has_group_scales: bool,
    time: AnimationTime<S>,
    clock: K,
    clips_after: Seq<ClipActor<S, P, C>>,
    recorder_after: AnimationRecorder<S>,
) -> bool {
    exists|spans: Seq<ClipSpans>|
        {
            let after = (ClipPass {
                actors: clips,
                counts: TransformClipStatAccumulator::nothing(),
                recorder,
            }).played_up_to(delta, has_group_scales, time, spans, clips.len() as int);
            &&& #[trigger] spans_taken(clock, spans, clips, delta, has_group_scales, time)
            &&& clips_after == after.actors
            &&& recorder_after == counts_flushed(after.recorder, after.counts)
        }
}

/// Plays `delta` on every clip of a table, in order, and adds up what was done and how long it took
/// by a clock that counts nanoseconds.
pub fn drive_transform_clips<
    S: Scalar + TrackValue<S>,
    P: TrackValue<S>,
    C: TrackValue<S>,
    K: Fn() -> u64 + Copy,
>(
    delta: S,
    has_group_scales: bool,
    time: &AnimationTime<S>,
    clips: &mut Vec<ClipActor<S, P, C>>,
    recorder: &mut AnimationRecorder<S>,
    clock: K,
)
    requires
        time.wf(),
        forall|i: int| 0 <= i < old(clips)@.len() ==> (#[trigger] old(clips)@[i]).wf(),
        clock.requires(()),
    ensures
        forall|i: int| 0 <= i < final(clips)@.len() ==> (#[trigger] final(clips)@[i]).wf(),
        all_played(
            old(clips)@,
            *old(recorder),
            delta,
            has_group_scales,
            *time,
            clock,
            final(clips)@,
            *final(recorder),
        ),
{
    let mut counts = TransformClipStatAccumulator::new();
    let ghost start = ClipPass { actors: clips@, counts, recorder: *recorder };
    let ghost mut spans: Seq<ClipSpans> = Seq::empty();
    let n: usize = clips.len();
    let mut i: usize = 0;
    while i < n
        invariant
            time.wf(),
            clock.requires(()),
            start == (ClipPass {
                actors: old(clips)@,
                counts: TransformClipStatAccumulator::nothing(),
                recorder: *old(recorder),
            }),
            n == clips@.len(),
            n == old(clips)@.len(),
            i <= n,
            forall|j: int| 0 <= j < clips@.len() ==> (#[trigger] clips@[j]).wf(),
            forall|j: int| i <= j < clips@.len() ==> #[trigger] clips@[j] == old(clips)@[j],
            counts_within(counts, i as int),
            spans.len() == i,
            forall|j: int|
                0 <= j < i ==> (#[trigger] spans[j]).taken(
                    clock,
                    old(clips)@[j].work(delta, has_group_scales, *time),
                ),
            (ClipPass { actors: clips@, counts, recorder: *recorder }) == start.played_up_to(
                delta,
                has_group_scales,
                *time,
                spans,
                i as int,
            ),
        decreases n - i,
    {
        let ghost before = clips@;
        let ghost known = spans;
        let (path, took) = clips[i].play(delta, has_group_scales, time, clock);
        count_path(&mut counts, path, took, Ghost(i as int));
        let crosses: u64 = clips[i].instance.take_segments_crossed();
        record_transform_segment_crosses(recorder, crosses);
        record_transform_advance_time(recorder, took.advance_ns as u128);
        proof {
            spans = spans.push(took);
            lemma_more_spans(start, delta, has_group_scales, *time, known, took, i as int);
            assert(clips@ =~= before.update(i as int, clips@[i as int]));
            assert forall|j: int| 0 <= j < clips@.len() implies (#[trigger] clips@[j]).wf() by {
                if j != i {
                    assert(clips@[j] == before[j]);
                }
            }
            assert forall|j: int| 0 <= j < i + 1 implies (#[trigger] spans[j]).taken(
                clock,
                old(clips)@[j].work(delta, has_group_scales, *time),
            ) by {
                if j < i {
                    assert(spans[j] == known[j]);
                }
            }
        }
        i = i + 1;
    }
    counts.flush(recorder);
    assert(spans_taken(clock, spans, old(clips)@, delta, has_group_scales, *time));
}

/// What comes later does not bear on the clips before.
proof fn lemma_more_spans<S: Scalar + TrackValue<S>, P: TrackValue<S>, C: TrackValue<S>>(
    start: ClipPass<S, P, C>,
    delta: S,
    has_group_scales: bool,
    time: AnimationTime<S>,
    spans: Seq<ClipSpans>,
    more: ClipSpans,
    n: int,
)
    requires
        n <= spans.len(),
    ensures
        start.played_up_to(delta, has_group_scales, time, spans.push(more), n)
            == start.played_up_to(delta, has_group_scales, time, spans, n),
    decreases n,
{
    if n > 0 {
        lemma_more_spans(start, delta, has_group_scales, time, spans, more, n - 1);
    }
}

/// The time that a plan gives to clips as one step; none when there is nothing to play.
pub open spec fn plan_as_step<S: Scalar>(plan: AnimationDelta<S>) -> Option<S> {
    let step = match plan {
        AnimationDelta::Idle => S::zero_spec(),
        AnimationDelta::Single(amount) => amount,
        AnimationDelta::Fixed { step, steps } => step.times_spec(
            S::from_count_spec(steps as usize),
        ),
    };
    if plan is Idle || step.same_spec(S::zero_spec()) {
        None
    } else {
        Some(step)
    }
}

pub fn plan_step<S: Scalar>(plan: AnimationDelta<S>) -> (r: Option<S>)
    ensures
        r == plan_as_step(plan),
{
    let step = match plan {
        AnimationDelta::Idle => {
            return None;
        },
        AnimationDelta::Single(amount) => amount,
        AnimationDelta::Fixed { step, steps } => step.times(S::from_count(steps as usize)),
    };
    if step.same(S::zero()) {
        None
    } else {
        Some(step)
    }
}

/// Plays the frame's plan on every clip of a table.
pub fn sys_drive_transform_clips<
    S: Scalar + TrackValue<S>,
    P: TrackValue<S>,
    C: TrackValue<S>,
    K: Fn() -> u64 + Copy,
>(
    plan: AnimationDelta<S>,
    time: &AnimationTime<S>,
    clips: &mut Vec<ClipActor<S, P, C>>,
    recorder: &mut AnimationRecorder<S>,
    clock: K,
)
    requires
        time.wf(),
        forall|i: int| 0 <= i < old(clips)@.len() ==> (#[trigger] old(clips)@[i]).wf(),
        clock.requires(()),
    ensures
        forall|i: int| 0 <= i < final(clips)@.len() ==> (#[trigger] final(clips)@[i]).wf(),
        match plan_as_step(plan) {
            None => final(clips)@ == old(clips)@ && *final(recorder) == *old(recorder),
            Some(step) => all_played(
                old(clips)@,
                *old(recorder),
                step,
                crate::sprite_systems::has_scales(*time),
                *time,
                clock,
                final(clips)@,
                *final(recorder),
            ),
        },
{
    if let Some(step) = plan_step(plan) {
        drive_transform_clips(step, time.has_group_scales(), time, clips, recorder, clock);
    }
}

} // verus!
