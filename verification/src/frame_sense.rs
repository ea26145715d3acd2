//! What showing frames comes to: time is gathered and not lost, animations start where they say, and
//! sprites show the frame that they are at.
use vstd::prelude::*;
use crate::anim_stats::AnimationRecorder;
use crate::draw::{drawn_as, DrawnSprite, SpriteInstance};
use crate::entity::Entity;
use crate::scalar::{Fixed, Scalar};
use crate::scene::AtlasRegion;
use crate::sprite::{Sprite, SpriteAnimation, SpriteAnimationFrame, SpriteAnimationLoopMode};
use crate::sprite_advance::{phase_after, phase_offset, phase_start};
use crate::sprite_slot::duration_after;
use crate::sprite_timeline::{
    carried_frame, labels, mode_for_looping, nth_place, occurrences, place_by_label,
    progress_in_frame, refreshed, rewound, shown, sprite_refreshed, timeline_started,
    AtlasTimeline,
};

verus! {

/// What is left over and what is due make up what was left over before and what came, unless time
/// turns round, which drops what was left. Nothing is due that is smaller than the least step, and
/// nothing is left over that is not.
pub proof fn law_small_times_are_gathered(pending: Fixed, delta: Fixed, least: Fixed)
    requires
        -0x1000_0000_0000_0000 <= pending.0 <= 0x1000_0000_0000_0000,
        -0x1000_0000_0000_0000 <= delta.0 <= 0x1000_0000_0000_0000,
        0 < least.0,
        -least.0 < pending.0 < least.0,
    ensures
        ({
            let (left, due) = SpriteAnimation::<Fixed>::delta_gathered(pending, delta, least);
            let out = match due {
                Some(step) => step.0 as int,
                None => 0,
            };
            let turns = pending.0 < 0 && 0 < delta.0 || 0 < pending.0 && delta.0 < 0;
            &&& !turns ==> left.0 + out == pending.0 + delta.0
            &&& turns ==> left.0 + out == delta.0
            &&& -least.0 < left.0 < least.0
            &&& due is Some ==> left.0 == 0 && (out <= -least.0 || least.0 <= out)
        }),
{
}

/// An animation that repeats starts within its length where it starts at random; one that plays once
/// starts no later than at its end; and one that starts at no random place starts where it says.
pub proof fn law_animations_start_within_themselves(a: SpriteAnimation<Fixed>, share: Fixed)
    requires
        0 < a.total_duration.0,
    ensures
        ({
            let at = phase_offset(a, share);
            let own = if a.start_offset.0 < 0 {
                0
            } else {
                a.start_offset.0 as int
            };
            &&& 0 <= at.0
            &&& a.random_start ==> at.0 < a.total_duration.0
            &&& !a.mode.repeats() ==> at.0 <= a.total_duration.0
            &&& !a.random_start && a.mode.repeats() ==> at.0 == own
            &&& !a.random_start && own <= a.total_duration.0 ==> at.0 == own
            &&& a.random_start && share.0 == 0 && own < a.total_duration.0 ==> at.0 == own
        }),
{
    let own = a.start_offset.larger_spec(Fixed(0));
    let total = a.total_duration;
    let sum = own.plus_spec(share.times_spec(total));
    crate::scalar::law_fixed_remainder_lies_within(sum, total);
    if share.0 == 0 {
        assert(0 * total.0 == 0);
        assert(sum == own);
        if own.0 < total.0 {
            vstd::arithmetic::div_mod::lemma_small_mod(own.0 as nat, total.0 as nat);
        }
    }
}

/// Where no time is to be skipped an animation starts at the beginning of its first frame, going
/// forward; and however it starts, it plays or rests as it did.
pub proof fn law_starting_is_at_the_first_frame(
    a: SpriteAnimation<Fixed>,
    recorder: AnimationRecorder<Fixed>,
    entity: Entity,
    share: Fixed,
)
    requires
        0 < a.frames@.len(),
    ensures
        ({
            let after = phase_after(a, recorder, entity, share).0;
            &&& after.playing == a.playing
            &&& phase_offset(a, share).0 <= 0 ==> {
                &&& after.frame_index == 0
                &&& after.elapsed_in_frame.0 == 0
                &&& after.forward && after.prev_forward
                &&& after.frames == a.frames
                &&& 0 < a.frame_durations@.len() ==> after.current_duration
                    == a.frame_durations@[0]
            }
        }),
{
}

/// A label that occurs is found: at the place that was asked for, or at its first place.
proof fn lemma_first_place(all: Seq<Seq<char>>, target: Seq<char>, from: int, i: int)
    requires
        0 <= from <= i < all.len(),
        all[i] == target,
        occurrences(all, target, from) == 0,
    ensures
        from <= nth_place(all, target, 1, from) < all.len(),
        all[nth_place(all, target, 1, from)] == target,
    decreases i - from,
{
    if all[from] != target {
        lemma_first_place(all, target, from + 1, i);
    } else {
        assert(occurrences(all, target, from + 1) == 1);
    }
}

proof fn lemma_place_has_label(all: Seq<Seq<char>>, target: Seq<char>, k: nat, from: int)
    requires
        0 <= from <= all.len(),
    ensures
        nth_place(all, target, k, from) >= 0 ==> nth_place(all, target, k, from) < all.len()
            && all[nth_place(all, target, k, from)] == target,
    decreases all.len() - from,
{
    if from < all.len() {
        lemma_place_has_label(all, target, k, from + 1);
    }
}

/// After its frames have changed an animation goes on with a frame of the same name, if there is one.
pub proof fn law_carried_frame_keeps_its_name(
    before: Seq<SpriteAnimationFrame<Fixed>>,
    index: int,
    now: Seq<SpriteAnimationFrame<Fixed>>,
    i: int,
)
    requires
        0 <= index < before.len(),
        0 <= i < now.len(),
        now[i].name@ == before[index].name@,
    ensures
        0 <= carried_frame(before, index, now) < now.len(),
        now[carried_frame(before, index, now)].name@ == before[index].name@,
{
    let old_names = labels(before, true);
    let names = labels(now, true);
    let target = old_names[index];
    assert(names[i] == target);
    lemma_first_place(names, target, 0, i);
    lemma_place_has_label(names, target, occurrences(old_names, target, index + 1), 0);
    let place = place_by_label(old_names, index, names);
    assert(0 <= place < names.len() && names[place] == target);
}

/// After its frames have changed an animation is as far into its frame, by share, as it was: at its
/// beginning if it was there, at its end if it was there, and never past it.
pub proof fn law_carried_frame_keeps_its_share(a: SpriteAnimation<Fixed>, d: AtlasTimeline<Fixed>)
    requires
        0 < d.frames@.len(),
        a.frame_index < a.frames@.len(),
        0 < a.frames@[a.frame_index as int].duration.0,
    ensures
        ({
            let after = refreshed(a, d);
            let full = a.frames@[a.frame_index as int].duration;
            &&& 0 < after.current_duration.0 ==> 0 <= after.elapsed_in_frame.0
                <= after.current_duration.0
            &&& a.elapsed_in_frame.0 == 0 ==> after.elapsed_in_frame.0 == 0
            &&& a.elapsed_in_frame == full && 0 < after.current_duration.0 ==> after.elapsed_in_frame
                == after.current_duration
            &&& after.playing == a.playing
            &&& after.frames == d.frames
        }),
{
    let share = progress_in_frame(a);
    let full = a.frames@[a.frame_index as int].duration;
    crate::particle_motion::lemma_over_keeps_sign(full, full);
    if a.elapsed_in_frame.0 == 0 {
        crate::particle_motion::lemma_over_keeps_sign(a.elapsed_in_frame, full);
    }
    assert(0 <= share.0 <= 65536);
    let after = refreshed(a, d);
    let length = after.current_duration.larger_spec(Fixed::machine_epsilon_spec());
    crate::particle_motion::lemma_times_keeps_sign(length, share);
    crate::particle_motion::lemma_times_keeps_sign(share, length);
    assert(share.0 * length.0 == length.0 * share.0) by (nonlinear_arith);
    assert(65536 * length.0 / 65536 == length.0);
}

/// A sprite shows the region of the frame that its animation is at, and keeps its atlas.
pub proof fn law_sprites_show_their_frame(sprite: Sprite<Fixed>, a: SpriteAnimation<Fixed>)
    requires
        a.frame_index < a.frames@.len(),
    ensures
        ({
            let frame = a.frames@[a.frame_index as int];
            let after = shown(sprite, a);
            &&& after.region == frame.region
            &&& after.region_id == frame.region_id
            &&& after.uv == frame.uv
            &&& after.atlas_key == sprite.atlas_key
            &&& shown(after, a) == after
            &&& sprite_refreshed(sprite, a).region_id == frame.region_id
            &&& sprite_refreshed(sprite, a).uv == frame.uv
            &&& sprite_refreshed(sprite, a).atlas_key == sprite.atlas_key
        }),
{
}

/// An animation plays as fast as its own speed and the scale of its group say: at either alone where
/// the other is one, and at a rate that was settled before until it is asked for anew.
pub proof fn law_rates_follow_speed_and_group(a: SpriteAnimation<Fixed>, scale: Fixed)
    ensures
        ({
            let after = a.rate_ensured(scale);
            &&& !a.playback_rate_dirty ==> after == a
            &&& !after.playback_rate_dirty
            &&& a.playback_rate_dirty && scale.0 == 65536 ==> after.playback_rate == a.speed
            &&& a.playback_rate_dirty && a.speed.0 == 65536 ==> after.playback_rate == scale
            &&& a.playback_rate_dirty && a.speed.0 == 0 ==> after.playback_rate.0 == 0
            &&& after.frame_index == a.frame_index && after.elapsed_in_frame == a.elapsed_in_frame
        }),
{
    assert(a.speed.0 * 65536 / 65536 == a.speed.0);
    assert(65536 * scale.0 / 65536 == scale.0);
    assert(0 * scale.0 == 0);
}

/// Asking an animation to repeat, or not to, makes it do so, and leaves its mode where it did so
/// already.
pub proof fn law_looping_is_as_asked(mode: SpriteAnimationLoopMode, looped: bool)
    ensures
        mode_for_looping(mode, looped).repeats() == looped,
        mode.repeats() == looped ==> mode_for_looping(mode, looped) == mode,
        mode_for_looping(mode_for_looping(mode, looped), looped) == mode_for_looping(mode, looped),
{
}

/// After a frame comes the next, and after the last the first.
pub proof fn law_frames_follow_one_another(durations: Seq<Fixed>, i: int)
    requires
        0 <= i < durations.len(),
    ensures
        i + 1 < durations.len() ==> duration_after(durations, i) == durations[i + 1],
        i + 1 == durations.len() ==> duration_after(durations, i) == durations[0],
{
    if i + 1 < durations.len() {
        vstd::arithmetic::div_mod::lemma_small_mod((i + 1) as nat, durations.len());
    } else {
        vstd::arithmetic::div_mod::lemma_mod_self_0(durations.len() as int);
    }
}

/// Putting an animation on a frame takes over that frame's times, and nothing of another.
pub proof fn law_frames_have_their_own_times(a: SpriteAnimation<Fixed>, i: int)
    requires
        a.wf(),
        0 <= i < a.frames@.len() <= usize::MAX,
    ensures
        a.at_frame(i).frame_index == i,
        a.at_frame(i).current_duration == a.frame_durations@[i],
        a.at_frame(i).current_frame_offset == a.frame_offsets@[i],
        a.at_frame(i).elapsed_in_frame == a.elapsed_in_frame,
        phase_start(a).frame_index == 0,
        phase_start(a).elapsed_in_frame.0 == 0,
        phase_start(a).current_duration == a.frame_durations@[0],
{
}

/// An animation of a new timeline starts over with the timeline's frames, in its mode and at the plain
/// speed; of the one before it keeps where it was to start and which group it was in.
pub proof fn law_new_timelines_start_over(
    d: AtlasTimeline<Fixed>,
    previous: Option<SpriteAnimation<Fixed>>,
)
    ensures
        ({
            let a = timeline_started(d, previous);
            &&& a.frames == d.frames && a.frame_durations == d.durations && a.frame_offsets
                == d.offsets && a.timeline == d.name
            &&& a.frame_index == 0 && a.elapsed_in_frame.0 == 0 && a.playing && a.forward
            &&& a.mode == d.loop_mode && a.looped == d.loop_mode.repeats()
            &&& a.speed.0 == 65536 && a.playback_rate_dirty
            &&& a.fast_loop ==> a.mode is Loop && !a.has_events
            &&& previous is Some ==> a.start_offset == previous->Some_0.start_offset
                && a.random_start == previous->Some_0.random_start && a.group
                == previous->Some_0.group
            &&& previous is None ==> a.start_offset.0 == 0 && !a.random_start && a.group is None
            &&& a.total_duration == d.total_duration
        }),
{
}

/// An animation that starts over plays forward from the beginning of its first frame; its speed and
/// group stay as they are.
pub proof fn law_starting_over_is_from_the_first_frame(a: SpriteAnimation<Fixed>)
    requires
        a.wf(),
        0 < a.frames@.len(),
    ensures
        rewound(a).frame_index == 0,
        rewound(a).elapsed_in_frame.0 == 0,
        rewound(a).playing && rewound(a).forward,
        rewound(a).current_duration == a.frame_durations@[0],
        rewound(a).speed == a.speed && rewound(a).group == a.group && rewound(a).mode == a.mode,
        rewound(rewound(a)) == rewound(a),
{
}

/// What is drawn of a sprite lies where its matrix puts it, shows its part of its own atlas, and is
/// white where nothing tints it.
pub proof fn law_sprites_are_drawn_as_they_are(
    row: DrawnSprite<Fixed>,
    known: Option<AtlasRegion<Fixed>>,
    made: SpriteInstance<Fixed>,
)
    requires
        drawn_as(row, known, made),
    ensures
        made.atlas == row.sprite.atlas_key,
        row.tint is None ==> forall|i: int| 0 <= i < 4 ==> (#[trigger] made.tint@[i]).0 == 65536,
        row.tint is Some ==> made.tint@[0] == row.tint->Some_0.x && made.tint@[3]
            == row.tint->Some_0.w,
        row.sprite.region_id != crate::sprite::UNINITIALIZED_REGION ==> made.uv_rect
            == row.sprite.uv,
        row.sprite.region_id == crate::sprite::UNINITIALIZED_REGION && known is Some ==> made.uv_rect
            == known->Some_0.uv,
        made.transform.translation.x == row.world@[12] && made.transform.translation.y
            == row.world@[13],
{
}

} // verus!
