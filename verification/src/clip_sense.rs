//! What playing a clip comes to: each channel reaches its own target, and only where it may.
use vstd::prelude::*;
use crate::clip::{
    ClipChannelMask, ClipInstance, ClipSample, PropertyTrackPlayer, TransformTrackPlayer,
};
use crate::clip_drive::ClipActor;
use crate::clip_track::track_value_at;
use crate::scalar::{Fixed, Scalar};

verus! {

/// Whether what was last written to an entity is what it has.
pub open spec fn has_what_was_written(actor: ClipActor<Fixed, Fixed, Fixed>) -> bool {
    let last = actor.instance;
    &&& actor.transform is Some ==> {
        let t = actor.transform->Some_0;
        &&& last.translation.last is Some ==> last.translation.last == Some(t.translation)
        &&& last.rotation.last is Some ==> last.rotation.last == Some(t.rotation)
        &&& last.scale.last is Some ==> last.scale.last == Some(t.scale)
    }
    &&& actor.tint is Some && last.tint.last is Some ==> last.tint.last == actor.tint
}

/// After a sample is applied an entity has the sampled values where they may be written and what it
/// had elsewhere: place to place, rotation to rotation, scale to scale and tint to tint. It still has
/// then what was last written.
pub proof fn law_samples_reach_their_targets(
    actor: ClipActor<Fixed, Fixed, Fixed>,
    mask: ClipChannelMask,
    sample: ClipSample<Fixed, Fixed, Fixed>,
)
    requires
        has_what_was_written(actor),
        actor.transform is Some,
        actor.tint is Some,
    ensures
        ({
            let after = actor.sample_applied(mask, sample);
            let before = actor.transform->Some_0;
            let now = after.transform->Some_0;
            &&& after.transform is Some && after.tint is Some
            &&& has_what_was_written(after)
            &&& mask.translation && sample.translation is Some ==> Some(now.translation)
                == sample.translation
            &&& !(mask.translation && sample.translation is Some) ==> now.translation
                == before.translation
            &&& mask.rotation && sample.rotation is Some ==> Some(now.rotation) == sample.rotation
            &&& !(mask.rotation && sample.rotation is Some) ==> now.rotation == before.rotation
            &&& mask.scale && sample.scale is Some ==> Some(now.scale) == sample.scale
            &&& !(mask.scale && sample.scale is Some) ==> now.scale == before.scale
            &&& mask.tint && sample.tint is Some ==> after.tint == sample.tint
            &&& !(mask.tint && sample.tint is Some) ==> after.tint == actor.tint
            &&& after.instance.time == actor.instance.time && after.instance.clip
                == actor.instance.clip
        }),
{
}

/// An entity without a transform or a tint gets none from a sample.
pub proof fn law_samples_make_no_targets(
    actor: ClipActor<Fixed, Fixed, Fixed>,
    mask: ClipChannelMask,
    sample: ClipSample<Fixed, Fixed, Fixed>,
)
    ensures
        actor.transform is None ==> actor.sample_applied(mask, sample).transform is None,
        actor.tint is None ==> actor.sample_applied(mask, sample).tint is None,
{
}

/// A player shuts exactly the channels that it does not apply; without players all are open. What is
/// read is let through and has a target.
pub proof fn law_players_shut_channels(
    transform: TransformTrackPlayer,
    property: PropertyTrackPlayer,
    actor: ClipActor<Fixed, Fixed, Fixed>,
)
    ensures
        ({
            let mask = ClipChannelMask::of_players(Some(transform), Some(property));
            &&& mask.translation <==> transform.apply_translation
            &&& mask.rotation <==> transform.apply_rotation
            &&& mask.scale <==> transform.apply_scale
            &&& mask.tint <==> property.apply_tint
            &&& ClipChannelMask::of_players(None, None) == (ClipChannelMask {
                translation: true,
                rotation: true,
                scale: true,
                tint: true,
            })
        }),
        ({
            let read = actor.sampling_mask();
            let open = actor.player_mask();
            &&& read.translation ==> open.translation && actor.transform is Some
            &&& read.rotation ==> open.rotation && actor.transform is Some
            &&& read.scale ==> open.scale && actor.transform is Some
            &&& read.tint ==> open.tint && actor.tint is Some
            &&& actor.transform is Some && actor.player_mask().translation ==> read.translation
            &&& actor.transform is Some && actor.player_mask().rotation ==> read.rotation
            &&& actor.transform is Some && actor.player_mask().scale ==> read.scale
            &&& actor.transform is None && actor.tint is None ==> read.none_set()
        }),
{
}

/// A clip that does not repeat goes on by the time that passes, up to its end, where it stops playing;
/// of the time that passes it uses what it went on by.
pub proof fn law_clips_stop_at_their_end(instance: ClipInstance<Fixed, Fixed, Fixed>, delta: Fixed)
    requires
        !instance.looped,
        0 <= instance.time.0 <= instance.duration_of().0,
        1 < instance.duration_of().0 <= 0x1000_0000_0000_0000,
        0 < delta.0 <= 0x1000_0000_0000_0000,
    ensures
        ({
            let (time, playing, used) = instance.time_after(delta);
            let end = instance.duration_of().0;
            &&& instance.time.0 + delta.0 >= end - 1 ==> time.0 == end && !playing
            &&& instance.time.0 + delta.0 < end - 1 ==> time.0 == instance.time.0 + delta.0
                && playing == instance.playing
            &&& instance.time.0 + used.0 == time.0
        }),
{
}

/// A clip that repeats never stops by itself, goes on by the time that passes as long as it does not
/// come to its end, and uses all of the time.
pub proof fn law_repeating_clips_play_on(instance: ClipInstance<Fixed, Fixed, Fixed>, delta: Fixed)
    requires
        instance.looped,
        0 <= instance.time.0 <= instance.duration_of().0,
        1 < instance.duration_of().0 <= 0x1000_0000_0000_0000,
        0 < delta.0 <= 0x1000_0000_0000_0000,
    ensures
        ({
            let (time, playing, used) = instance.time_after(delta);
            &&& playing == instance.playing
            &&& used == delta
            &&& instance.time.0 + delta.0 < instance.duration_of().0 - 1 ==> time.0
                == instance.time.0 + delta.0
        }),
{
}

/// A sample that is masked keeps the channels of the mask and no others.
pub proof fn law_masked_samples_keep_open_channels(
    sample: ClipSample<Fixed, Fixed, Fixed>,
    mask: ClipChannelMask,
)
    ensures
        sample.masked(mask).translation == (if mask.translation {
            sample.translation
        } else {
            None
        }),
        sample.masked(mask).rotation == (if mask.rotation {
            sample.rotation
        } else {
            None
        }),
        sample.masked(mask).scale == (if mask.scale {
            sample.scale
        } else {
            None
        }),
        sample.masked(mask).tint == (if mask.tint {
            sample.tint
        } else {
            None
        }),
{
}

/// A jump within a clip lands on the time that is asked for; before the start of one that does not
/// repeat it lands on the start, and past the end on the end, where the clip stops.
pub proof fn law_jumps_land_on_their_time(instance: ClipInstance<Fixed, Fixed, Fixed>, time: Fixed)
    requires
        1 < instance.duration_of().0 <= 0x1000_0000_0000_0000,
    ensures
        ({
            let (at, playing) = instance.time_set_to(time);
            let end = instance.duration_of().0;
            &&& 0 <= at.0 <= end
            &&& 0 <= time.0 < end - 1 ==> at == time && playing == instance.playing
            &&& !instance.looped && time.0 <= 0 ==> at.0 == 0 && playing == instance.playing
            &&& !instance.looped && end <= time.0 ==> at.0 == end && !playing
            &&& instance.looped ==> playing == instance.playing
        }),
{
    let end = instance.duration_of();
    crate::scalar::law_fixed_remainder_lies_within(time, end);
    if 0 <= time.0 < end.0 {
        vstd::arithmetic::div_mod::lemma_small_mod(time.0 as nat, end.0 as nat);
    }
}

/// What a clip gives for a part of an entity comes from the track of that part, and nothing comes from
/// a track that it does not have.
pub proof fn law_values_come_from_their_tracks(
    instance: ClipInstance<Fixed, Fixed, Fixed>,
    time: Fixed,
)
    ensures
        ({
            let sample = instance.value_at(time);
            let clip = *instance.clip;
            let looped = instance.looped;
            &&& clip.translation is None ==> sample.translation is None
            &&& clip.translation is Some ==> sample.translation == track_value_at(
                clip.translation->Some_0,
                time,
                looped,
            )
            &&& clip.rotation is None ==> sample.rotation is None
            &&& clip.rotation is Some ==> sample.rotation == track_value_at(
                clip.rotation->Some_0,
                time,
                looped,
            )
            &&& clip.scale is None ==> sample.scale is None
            &&& clip.scale is Some ==> sample.scale == track_value_at(
                clip.scale->Some_0,
                time,
                looped,
            )
            &&& clip.tint is None ==> sample.tint is None
            &&& clip.tint is Some ==> sample.tint == track_value_at(clip.tint->Some_0, time, looped)
        }),
{
}

/// A clip that goes forward on an entity that has something to write to comes to the time that its step
/// leads to, and plays on as that time says.
pub proof fn law_clips_go_forward_in_time(actor: ClipActor<Fixed, Fixed, Fixed>, step: Fixed)
    requires
        actor.has_targets(),
        0 < actor.instance.duration_of().0,
        0 < step.0,
    ensures
        ({
            let after = actor.played_scaled(step).0;
            let (time, playing, used) = actor.instance.time_after(step);
            &&& after.instance.time == time
            &&& after.instance.playing == playing
            &&& after.instance.clip == actor.instance.clip
        }),
{
    reveal(ClipActor::moved_forward);
    reveal(ClipActor::sampled_onto);
}

} // verus!
