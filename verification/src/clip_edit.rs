//! Giving an entity a clip, and moving within it by hand.
use std::sync::Arc;
use vstd::prelude::*;
use crate::clip::{AnimationClip, ClipInstance, ClipSample, PropertyTrackPlayer, TransformTrackPlayer};
use crate::clip_drive::ClipTransform;
use crate::scalar::{Scalar, TrackValue};

verus! {

impl<S: Scalar + TrackValue<S>, P: TrackValue<S>, C: TrackValue<S>> ClipInstance<S, P, C> {
    /// The instance with a sample noted as what was written last.
    pub open spec fn with_last(self, sample: ClipSample<S, P, C>) -> Self {
        ClipInstance {
            translation: crate::clip_track::Channel {
                last: sample.translation,
                ..self.translation
            },
            rotation: crate::clip_track::Channel { last: sample.rotation, ..self.rotation },
            scale: crate::clip_track::Channel { last: sample.scale, ..self.scale },
            tint: crate::clip_track::Channel { last: sample.tint, ..self.tint },
            ..self
        }
    }

    fn note_last(&mut self, sample: &ClipSample<S, P, C>)
        ensures
            *final(self) == old(self).with_last(*sample),
    {
        self.translation.set_last(sample.translation);
        self.rotation.set_last(sample.rotation);
        self.scale.set_last(sample.scale);
        self.tint.set_last(sample.tint);
    }

    /// The instance with its sample of now noted as written.
    pub open spec fn noted(self) -> Self {
        self.with_last(self.value_at(self.time))
    }

    fn note_sample(&mut self) -> (sample: ClipSample<S, P, C>)
        requires
            old(self).wf(),
        ensures
            *final(self) == old(self).noted(),
            final(self).wf(),
            sample == old(self).value_at(old(self).time),
    {
        let sample = self.sample();
        self.note_last(&sample);
        sample
    }
}

/// The instance that plays a clip: the one that played another clip keeps its speed and group.
pub open spec fn clip_given<S: Scalar + TrackValue<S>, P: TrackValue<S>, C: TrackValue<S>>(
    current: Option<ClipInstance<S, P, C>>,
    clip_key: String,
    clip: Arc<AnimationClip<S, P, C>>,
) -> ClipInstance<S, P, C> {
    match current {
        Some(instance) => instance.with_clip(clip_key, clip),
        None => ClipInstance::started(clip_key, clip),
    }
}

/// Gives an entity a clip, and the sample that it starts with.
pub fn set_transform_clip<S: Scalar + TrackValue<S>, P: TrackValue<S>, C: TrackValue<S>>(
    current: Option<ClipInstance<S, P, C>>,
    clip_key: String,
    clip: Arc<AnimationClip<S, P, C>>,
) -> (r: (ClipInstance<S, P, C>, ClipSample<S, P, C>))
    requires
        clip.wf(),
    ensures
        ({
            let given = clip_given(current, clip_key, clip);
            r.0 == given.noted() && r.1 == given.value_at(given.time)
        }),
        r.0.wf(),
{
    let mut instance = match current {
        Some(playing) => {
            let mut playing = playing;
            playing.replace_clip(clip_key, clip);
            playing
        },
        None => ClipInstance::new(clip_key, clip),
    };
    let sample = instance.note_sample();
    (instance, sample)
}

/// Moves to a time of the clip; gives the sample there.
pub fn set_transform_clip_time<S: Scalar + TrackValue<S>, P: TrackValue<S>, C: TrackValue<S>>(
    instance: &mut ClipInstance<S, P, C>,
    time: S,
) -> (sample: ClipSample<S, P, C>)
    requires
        old(instance).wf(),
    ensures
        ({
            let (at, playing) = old(instance).time_set_to(time);
            let moved = (ClipInstance {
                time: at,
                playing,
                ..*old(instance)
            }).cursors_reset().settled();
            *final(instance) == moved.noted() && sample == moved.value_at(moved.time)
        }),
        final(instance).wf(),
{
    instance.set_time(time);
    instance.note_sample()
}

/// Starts the clip over; gives the sample there.
pub fn reset_transform_clip<S: Scalar + TrackValue<S>, P: TrackValue<S>, C: TrackValue<S>>(
    instance: &mut ClipInstance<S, P, C>,
) -> (sample: ClipSample<S, P, C>)
    requires
        old(instance).wf(),
    ensures
        *final(instance) == old(instance).rewound().noted(),
        sample == old(instance).rewound().value_at(old(instance).rewound().time),
        final(instance).wf(),
{
    instance.reset();
    instance.note_sample()
}

/// A speed that is not finite is ignored.
pub fn set_transform_clip_speed<S: Scalar + TrackValue<S>, P: TrackValue<S>, C: TrackValue<S>>(
    instance: &mut ClipInstance<S, P, C>,
    speed: S,
)
    ensures
        *final(instance) == (if speed.finite_spec() {
            ClipInstance { speed, playback_rate_dirty: true, ..*old(instance) }
        } else {
            *old(instance)
        }),
{
    if speed.finite() {
        instance.set_speed(speed);
    }
}

pub open spec fn or_kept<V>(on: bool, sample: Option<V>, kept: V) -> V {
    if on && sample is Some {
        sample->0
    } else {
        kept
    }
}

fn pick<V: Copy>(on: bool, sample: Option<V>, kept: V) -> (r: V)
    ensures
        r == or_kept(on, sample, kept),
{
    match sample {
        Some(value) => if on {
            value
        } else {
            kept
        },
        None => kept,
    }
}

/// Writes a sample to an entity at once, as far as its players let it. An entity without a player
/// lets everything through.
pub fn apply_clip_sample_immediate<S: Copy, P: Copy, C: Copy>(
    transform: &mut Option<ClipTransform<S, P>>,
    tint: &mut Option<C>,
    transform_player: Option<TransformTrackPlayer>,
    property_player: Option<PropertyTrackPlayer>,
    sample: &ClipSample<S, P, C>,
)
    ensures
        ({
            let mask = match transform_player {
                Some(mask) => mask,
                None => crate::clip::all_transform_channels(),
            };
            let tints = match property_player {
                Some(mask) => mask.apply_tint,
                None => true,
            };
            &&& *final(transform) == (match *old(transform) {
                Some(t) => Some(
                    ClipTransform {
                        translation: or_kept(
                            mask.apply_translation,
                            sample.translation,
                            t.translation,
                        ),
                        rotation: or_kept(mask.apply_rotation, sample.rotation, t.rotation),
                        scale: or_kept(mask.apply_scale, sample.scale, t.scale),
                    },
                ),
                None => None,
            })
            &&& *final(tint) == (match *old(tint) {
                Some(t) => Some(or_kept(tints, sample.tint, t)),
                None => None,
            })
        }),
{
    let mask = match transform_player {
        Some(mask) => mask,
        None => TransformTrackPlayer::default(),
    };
    let tints = match property_player {
        Some(mask) => mask.apply_tint,
        None => true,
    };
    if let Some(t) = *transform {
        *transform =
        Some(
            ClipTransform {
                translation: pick(mask.apply_translation, sample.translation, t.translation),
                rotation: pick(mask.apply_rotation, sample.rotation, t.rotation),
                scale: pick(mask.apply_scale, sample.scale, t.scale),
            },
        );
    }
    if let Some(t) = *tint {
        *tint = Some(pick(tints, sample.tint, t));
    }
}

} // verus!
