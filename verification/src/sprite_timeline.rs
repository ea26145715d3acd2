//! Timelines of an atlas, and what becomes of an animation when its timeline changes.
use std::sync::Arc;
use vstd::prelude::*;
use crate::anim_stats::AnimationRecorder;
use crate::entity::Entity;
use crate::scalar::{clamped, Scalar};
use crate::sprite::{
    Sprite, SpriteAnimation, SpriteAnimationFrame, SpriteAnimationLoopMode, SpriteFrameHotData,
};
use crate::sprite_advance::initialize_animation_phase;
use crate::sprite_systems::SpriteActor;
use crate::text_map::{same_text, TextMap};

verus! {

/// A named run of frames.
pub struct AtlasTimeline<S> {
    pub name: Arc<String>,
    pub frames: Arc<Vec<SpriteAnimationFrame<S>>>,
    pub hot_data: Arc<Vec<SpriteFrameHotData<S>>>,
    pub durations: Arc<Vec<S>>,
    pub offsets: Arc<Vec<S>>,
    pub total_duration: S,
    pub loop_mode: SpriteAnimationLoopMode,
}

impl<S> AtlasTimeline<S> {
    /// Every frame has a duration, an offset and hot data.
    pub open spec fn wf(self) -> bool {
        &&& self.hot_data@.len() == self.frames@.len()
        &&& self.durations@.len() == self.frames@.len()
        &&& self.offsets@.len() == self.frames@.len()
    }
}

/// The names or the regions of frames.
pub open spec fn labels<S>(frames: Seq<SpriteAnimationFrame<S>>, by_name: bool) -> Seq<Seq<char>> {
    Seq::new(
        frames.len(),
        |i: int|
            if by_name {
                frames[i].name@
            } else {
                frames[i].region@
            },
    )
}

/// How often a label occurs among the first `n`.
pub open spec fn occurrences(labels: Seq<Seq<char>>, target: Seq<char>, n: int) -> nat
    decreases n,
{
    if n <= 0 {
        0
    } else {
        occurrences(labels, target, n - 1) + (if labels[n - 1] == target {
            1nat
        } else {
            0nat
        })
    }
}

/// The place of the `k`-th occurrence of a label at `from` or later, or -1; occurrences count from
/// the start.
pub open spec fn nth_place(labels: Seq<Seq<char>>, target: Seq<char>, k: nat, from: int) -> int
    decreases labels.len() - from,
{
    if from < 0 || from >= labels.len() {
        -1
    } else if labels[from] == target && occurrences(labels, target, from + 1) == k {
        from
    } else {
        nth_place(labels, target, k, from + 1)
    }
}

proof fn lemma_nth_place_range(labels: Seq<Seq<char>>, target: Seq<char>, k: nat, from: int)
    requires
        0 <= from <= labels.len(),
    ensures
        nth_place(labels, target, k, from) == -1 || from <= nth_place(labels, target, k, from)
            < labels.len(),
    decreases labels.len() - from,
{
    if from < labels.len() {
        lemma_nth_place_range(labels, target, k, from + 1);
    }
}

/// The place in `now` of the frame that stood at `index`: the one with the same label that is as
/// many-th of its label as it was, else the first one with that label, else -1.
pub open spec fn place_by_label(before: Seq<Seq<char>>, index: int, now: Seq<Seq<char>>) -> int {
    let target = before[index];
    let same = nth_place(now, target, occurrences(before, target, index + 1), 0);
    if same >= 0 {
        same
    } else {
        nth_place(now, target, 1, 0)
    }
}

/// The frame to go on with after the frames have changed: matched by name, else by region, else
/// the one at the same place, or the last.
pub open spec fn carried_frame<S>(
    before: Seq<SpriteAnimationFrame<S>>,
    index: int,
    now: Seq<SpriteAnimationFrame<S>>,
) -> int {
    let fallback = if index < now.len() {
        index
    } else {
        now.len() - 1
    };
    if index >= before.len() {
        fallback
    } else {
        let named = place_by_label(labels(before, true), index, labels(now, true));
        let placed = place_by_label(labels(before, false), index, labels(now, false));
        if named >= 0 {
            named
        } else if placed >= 0 {
            placed
        } else {
            fallback
        }
    }
}

proof fn lemma_occurrences_grow(labels: Seq<Seq<char>>, target: Seq<char>, a: int, b: int)
    requires
        0 <= a <= b,
    ensures
        occurrences(labels, target, a) <= occurrences(labels, target, b),
    decreases b - a,
{
    if a < b {
        lemma_occurrences_grow(labels, target, a, b - 1);
    }
}

proof fn lemma_own_place(labels: Seq<Seq<char>>, index: int, from: int)
    requires
        0 <= from <= index < labels.len(),
    ensures
        nth_place(
            labels,
            labels[index],
            occurrences(labels, labels[index], index + 1),
            from,
        ) == index,
    decreases index - from,
{
    if from < index {
        let target = labels[index];
        lemma_occurrences_grow(labels, target, from + 1, index);
        assert(occurrences(labels, target, index + 1) == occurrences(labels, target, index) + 1);
        lemma_own_place(labels, index, from + 1);
    }
}

/// Frames that did not change keep the current frame where it is.
pub proof fn law_unchanged_frames_keep_their_place<S>(
    frames: Seq<SpriteAnimationFrame<S>>,
    index: int,
)
    requires
        0 <= index < frames.len(),
    ensures
        carried_frame(frames, index, frames) == index,
{
    lemma_own_place(labels(frames, true), index, 0);
}

/// The frame that is carried over is one of the new frames.
pub proof fn law_carried_frame_exists<S>(
    before: Seq<SpriteAnimationFrame<S>>,
    index: int,
    now: Seq<SpriteAnimationFrame<S>>,
)
    requires
        index >= 0,
        now.len() > 0,
    ensures
        0 <= carried_frame(before, index, now) < now.len(),
{
    if index < before.len() {
        let names = labels(before, true);
        let regions = labels(before, false);
        lemma_nth_place_range(
            labels(now, true),
            names[index],
            occurrences(names, names[index], index + 1),
            0,
        );
        lemma_nth_place_range(labels(now, true), names[index], 1, 0);
        lemma_nth_place_range(
            labels(now, false),
            regions[index],
            occurrences(regions, regions[index], index + 1),
            0,
        );
        lemma_nth_place_range(labels(now, false), regions[index], 1, 0);
    }
}

fn label_matches<S>(frame: &SpriteAnimationFrame<S>, by_name: bool, target: &str) -> (r: bool)
    ensures
        r == ((if by_name {
            frame.name@
        } else {
            frame.region@
        }) == target@),
{
    if by_name {
        same_text(frame.name.as_str(), target)
    } else {
        same_text(frame.region.as_str(), target)
    }
}

fn count_label<S>(
    frames: &Vec<SpriteAnimationFrame<S>>,
    by_name: bool,
    target: &str,
    n: usize,
) -> (r: usize)
    requires
        n <= frames@.len(),
    ensures
        r == occurrences(labels(frames@, by_name), target@, n as int),
{
    let mut seen: usize = 0;
    let mut i: usize = 0;
    while i < n
        invariant
            i <= n,
            n <= frames@.len(),
            seen <= i,
            seen == occurrences(labels(frames@, by_name), target@, i as int),
        decreases n - i,
    {
        if label_matches(&frames[i], by_name, target) {
            seen = seen + 1;
        }
        i = i + 1;
    }
    seen
}

fn find_label<S>(
    frames: &Vec<SpriteAnimationFrame<S>>,
    by_name: bool,
    target: &str,
    occurrence: usize,
) -> (r: Option<usize>)
    ensures
        match r {
            Some(i) => i == nth_place(labels(frames@, by_name), target@, occurrence as nat, 0),
            None => nth_place(labels(frames@, by_name), target@, occurrence as nat, 0) == -1,
        },
{
    let ghost all = labels(frames@, by_name);
    let mut seen: usize = 0;
    let mut i: usize = 0;
    while i < frames.len()
        invariant
            i <= frames@.len(),
            seen <= i,
            all == labels(frames@, by_name),
            seen == occurrences(all, target@, i as int),
            nth_place(all, target@, occurrence as nat, 0) == nth_place(
                all,
                target@,
                occurrence as nat,
                i as int,
            ),
        decreases frames@.len() - i,
    {
        if label_matches(&frames[i], by_name, target) {
            seen = seen + 1;
            if seen == occurrence {
                return Some(i);
            }
        }
        i = i + 1;
    }
    None
}

fn find_by_label<S>(
    before: &Vec<SpriteAnimationFrame<S>>,
    index: usize,
    now: &Vec<SpriteAnimationFrame<S>>,
    by_name: bool,
) -> (r: Option<usize>)
    requires
        index < before@.len(),
    ensures
        match r {
            Some(i) => i == place_by_label(labels(before@, by_name), index as int, labels(now@, by_name))
                && i < now@.len(),
            None => place_by_label(labels(before@, by_name), index as int, labels(now@, by_name)) == -1,
        },
{
    let target = if by_name {
        before[index].name.as_str()
    } else {
        before[index].region.as_str()
    };
    assert(before.len() > index);
    let occurrence: usize = count_label(before, by_name, target, index + 1);
    proof {
        lemma_nth_place_range(labels(now@, by_name), target@, occurrence as nat, 0);
        lemma_nth_place_range(labels(now@, by_name), target@, 1, 0);
    }
    match find_label(now, by_name, target, occurrence) {
        Some(i) => Some(i),
        None => find_label(now, by_name, target, 1),
    }
}

pub fn carry_frame<S>(
    before: &Vec<SpriteAnimationFrame<S>>,
    index: usize,
    now: &Vec<SpriteAnimationFrame<S>>,
) -> (r: usize)
    requires
        now@.len() > 0,
    ensures
        r == carried_frame(before@, index as int, now@),
        r < now@.len(),
{
    let fallback: usize = if index < now.len() {
        index
    } else {
        now.len() - 1
    };
    if index >= before.len() {
        return fallback;
    }
    match find_by_label(before, index, now, true) {
        Some(i) => i,
        None => match find_by_label(before, index, now, false) {
            Some(i) => i,
            None => fallback,
        },
    }
}

/// An animation whose timeline is gone: no frames, and not playing.
pub open spec fn emptied<S: Scalar>(
    a: SpriteAnimation<S>,
    r: SpriteAnimation<S>,
) -> bool {
    &&& r.frames@.len() == 0
    &&& r.frame_hot_data@.len() == 0
    &&& r.frame_durations@.len() == 0
    &&& r.frame_offsets@.len() == 0
    &&& r == (SpriteAnimation {
        frames: r.frames,
        frame_hot_data: r.frame_hot_data,
        frame_durations: r.frame_durations,
        frame_offsets: r.frame_offsets,
        has_events: false,
        fast_loop: false,
        frame_index: 0,
        elapsed_in_frame: S::zero_spec(),
        playing: false,
        current_duration: S::zero_spec(),
        current_frame_offset: S::zero_spec(),
        ..a
    })
}

/// The animation with the frames of a timeline; where it stands is not yet carried over.
pub open spec fn refitted<S: Scalar>(a: SpriteAnimation<S>, d: AtlasTimeline<S>) -> SpriteAnimation<S> {
    let has_events = crate::sprite::any_frame_has_events(d.frames@);
    SpriteAnimation {
        frames: d.frames,
        frame_hot_data: d.hot_data,
        frame_durations: d.durations,
        frame_offsets: d.offsets,
        total_duration: d.total_duration,
        total_duration_inv: if S::zero_spec().lt_spec(d.total_duration) {
            S::one_spec().over_spec(d.total_duration)
        } else {
            S::zero_spec()
        },
        timeline: d.name,
        has_events,
        fast_loop: !has_events && a.mode is Loop,
        ..a
    }
}

/// How far into its frame an animation is, as a share of the frame.
pub open spec fn progress_in_frame<S: Scalar>(a: SpriteAnimation<S>) -> S {
    let epsilon = S::machine_epsilon_spec();
    let length = (if a.frame_index < a.frames@.len() {
        a.frames@[a.frame_index as int].duration
    } else {
        epsilon
    }).larger_spec(epsilon);
    crate::scalar::clamped_spec(
        a.elapsed_in_frame.over_spec(length),
        S::zero_spec(),
        S::one_spec(),
    )
}

/// The animation after its timeline was loaded anew: the current frame is carried over, and so is
/// how far into it the animation was.
pub open spec fn refreshed<S: Scalar>(a: SpriteAnimation<S>, d: AtlasTimeline<S>) -> SpriteAnimation<
    S,
> {
    let fitted = refitted(a, d);
    if d.frames@.len() == 0 {
        SpriteAnimation {
            frame_index: 0,
            elapsed_in_frame: S::zero_spec(),
            playing: false,
            current_duration: S::zero_spec(),
            current_frame_offset: S::zero_spec(),
            ..fitted
        }
    } else {
        let moded = (SpriteAnimation {
            mode: d.loop_mode,
            looped: d.loop_mode.repeats(),
            forward: true,
            prev_forward: true,
            fast_loop: !fitted.has_events && d.loop_mode is Loop,
            ..fitted
        }).start_events_refreshed();
        let seated = moded.at_frame(carried_frame(a.frames@, a.frame_index as int, d.frames@));
        let length = seated.current_duration.larger_spec(S::machine_epsilon_spec());
        SpriteAnimation {
            elapsed_in_frame: progress_in_frame(a).times_spec(length).smaller_spec(length),
            playing: a.playing,
            forward: a.forward,
            speed: a.speed,
            playback_rate_dirty: true,
            ..seated
        }
    }
}

fn frames_have_events<S>(frames: &Vec<SpriteAnimationFrame<S>>) -> (r: bool)
    ensures
        r == crate::sprite::any_frame_has_events(frames@),
{
    let mut i: usize = 0;
    while i < frames.len()
        invariant
            i <= frames@.len(),
            forall|j: int| 0 <= j < i ==> (#[trigger] frames@[j]).events@.len() == 0,
        decreases frames@.len() - i,
    {
        if frames[i].events.len() > 0 {
            return true;
        }
        i = i + 1;
    }
    false
}

/// Takes the frames of an animation whose timeline is gone.
pub fn clear_frames<S: Scalar>(animation: &mut SpriteAnimation<S>)
    ensures
        emptied(*old(animation), *final(animation)),
{
    animation.frames = Arc::new(Vec::new());
    animation.frame_hot_data = Arc::new(Vec::new());
    animation.frame_durations = Arc::new(Vec::new());
    animation.frame_offsets = Arc::new(Vec::new());
    animation.has_events = false;
    animation.fast_loop = false;
    animation.frame_index = 0;
    animation.elapsed_in_frame = S::zero();
    animation.playing = false;
    animation.refresh_current_duration();
}

fn refit<S: Scalar>(animation: &mut SpriteAnimation<S>, definition: &AtlasTimeline<S>)
    ensures
        *final(animation) == refitted(*old(animation), *definition),
{
    animation.frames = definition.frames.clone();
    animation.frame_hot_data = definition.hot_data.clone();
    animation.frame_durations = definition.durations.clone();
    animation.frame_offsets = definition.offsets.clone();
    animation.total_duration = definition.total_duration;
    animation.total_duration_inv = if S::zero().lt(definition.total_duration) {
        S::one().over(definition.total_duration)
    } else {
        S::zero()
    };
    animation.timeline = definition.name.clone();
    animation.has_events = frames_have_events(&animation.frames);
    animation.fast_loop = !animation.has_events && matches!(
        animation.mode,
        SpriteAnimationLoopMode::Loop
    );
}

fn frame_progress<S: Scalar>(animation: &SpriteAnimation<S>) -> (r: S)
    ensures
        r == progress_in_frame(*animation),
{
    let epsilon = S::machine_epsilon();
    let length = if animation.frame_index < animation.frames.len() {
        animation.frames[animation.frame_index].duration
    } else {
        epsilon
    };
    clamped(animation.elapsed_in_frame.over(length.larger(epsilon)), S::zero(), S::one())
}

/// Gives an animation the frames its timeline has now.
pub fn refresh_animation<S: Scalar>(
    animation: &mut SpriteAnimation<S>,
    definition: &AtlasTimeline<S>,
)
    requires
        definition.wf(),
    ensures
        *final(animation) == refreshed(*old(animation), *definition),
        final(animation).wf(),
{
    let progress = frame_progress(animation);
    let before = animation.frames.clone();
    let index: usize = animation.frame_index;
    let playing: bool = animation.playing;
    let forward: bool = animation.forward;
    let speed = animation.speed;
    refit(animation, definition);
    if animation.frames.len() == 0 {
        animation.frame_index = 0;
        animation.elapsed_in_frame = S::zero();
        animation.playing = false;
        animation.refresh_current_duration();
        return ;
    }
    animation.set_mode(definition.loop_mode);
    let target: usize = carry_frame(&before, index, &animation.frames);
    animation.set_frame_metrics(target);
    let length = animation.current_duration.larger(S::machine_epsilon());
    animation.elapsed_in_frame = progress.times(length).smaller(length);
    animation.playing = playing;
    animation.forward = forward;
    animation.set_speed(speed);
}

/// What a sprite shows after its animation was refreshed.
pub open spec fn sprite_refreshed<S: Scalar>(sprite: Sprite<S>, a: SpriteAnimation<S>) -> Sprite<S> {
    if a.frame_index < a.frames@.len() {
        let frame = a.frames@[a.frame_index as int];
        Sprite {
            region: if sprite.region_id == crate::sprite::UNINITIALIZED_REGION {
                frame.region
            } else {
                sprite.region
            },
            region_id: frame.region_id,
            uv: frame.uv,
            ..sprite
        }
    } else {
        sprite
    }
}

/// One actor after the timelines of an atlas were loaded anew; actors of other atlases keep
/// everything.
pub open spec fn actor_refreshed<S: Scalar>(
    before: SpriteActor<S>,
    after: SpriteActor<S>,
    atlas_key: Seq<char>,
    timelines: Map<Seq<char>, AtlasTimeline<S>>,
) -> bool {
    if before.sprite.atlas_key@ != atlas_key {
        after == before
    } else if !timelines.contains_key(before.animation.timeline@) {
        emptied(before.animation, after.animation) && after == (SpriteActor {
            animation: after.animation,
            ..before
        })
    } else {
        let animation = refreshed(before.animation, timelines[before.animation.timeline@]);
        after == (SpriteActor {
            animation,
            sprite: sprite_refreshed(before.sprite, animation),
            ..before
        })
    }
}

/// How many of the first `n` actors use an atlas.
pub open spec fn users_of_atlas<S>(
    actors: Seq<SpriteActor<S>>,
    atlas_key: Seq<char>,
    n: int,
) -> nat
    decreases n,
{
    if n <= 0 {
        0
    } else {
        users_of_atlas(actors, atlas_key, n - 1) + (if actors[n - 1].sprite.atlas_key@ == atlas_key {
            1nat
        } else {
            0nat
        })
    }
}

fn refresh_actor<S: Scalar>(actor: &mut SpriteActor<S>, timelines: &TextMap<AtlasTimeline<S>>)
    requires
        timelines.wf(),
        forall|name: Seq<char>| #[trigger]
            timelines@.contains_key(name) ==> timelines@[name].wf(),
    ensures
        actor_refreshed(*old(actor), *final(actor), old(actor).sprite.atlas_key@, timelines@),
{
    match timelines.get(actor.animation.timeline.as_str()) {
        Some(definition) => {
            refresh_animation(&mut actor.animation, definition);
            if actor.animation.frame_index < actor.animation.frames.len() {
                actor.sprite.apply_frame(&actor.animation.frames[actor.animation.frame_index]);
            }
        },
        None => {
            clear_frames(&mut actor.animation);
        },
    }
}

/// Gives every animation of an atlas the frames that the timelines of the atlas have now, and
/// says how many animations that were.
pub fn refresh_sprite_animations_for_atlas<S: Scalar>(
    actors: &mut Vec<SpriteActor<S>>,
    atlas_key: &str,
    timelines: &TextMap<AtlasTimeline<S>>,
) -> (updated: usize)
    requires
        timelines.wf(),
        forall|name: Seq<char>| #[trigger]
            timelines@.contains_key(name) ==> timelines@[name].wf(),
    ensures
        final(actors)@.len() == old(actors)@.len(),
        forall|i: int|
            0 <= i < old(actors)@.len() ==> actor_refreshed(
                #[trigger] old(actors)@[i],
                final(actors)@[i],
                atlas_key@,
                timelines@,
            ),
        updated == users_of_atlas(old(actors)@, atlas_key@, old(actors)@.len() as int),
{
    let mut updated: usize = 0;
    let mut i: usize = 0;
    while i < actors.len()
        invariant
            i <= actors@.len(),
            actors@.len() == old(actors)@.len(),
            timelines.wf(),
            forall|name: Seq<char>| #[trigger]
                timelines@.contains_key(name) ==> timelines@[name].wf(),
            forall|j: int|
                0 <= j < i ==> actor_refreshed(
                    #[trigger] old(actors)@[j],
                    actors@[j],
                    atlas_key@,
                    timelines@,
                ),
            forall|j: int| i <= j < actors@.len() ==> actors@[j] == #[trigger] old(actors)@[j],
            updated <= i,
            updated == users_of_atlas(old(actors)@, atlas_key@, i as int),
        decreases actors@.len() - i,
    {
        assert(actors@[i as int] == old(actors)@[i as int]);
        if same_text(actors[i].sprite.atlas_key.as_str(), atlas_key) {
            refresh_actor(&mut actors[i], timelines);
            updated = updated + 1;
        }
        i = i + 1;
    }
    updated
}

/// What a sprite shows of a frame that its animation was put on: the region is always written.
pub open spec fn shown<S>(sprite: Sprite<S>, a: SpriteAnimation<S>) -> Sprite<S> {
    if a.frame_index < a.frames@.len() {
        let frame = a.frames@[a.frame_index as int];
        Sprite { region: frame.region, region_id: frame.region_id, uv: frame.uv, ..sprite }
    } else {
        sprite
    }
}

pub fn show_current_frame<S: Scalar>(sprite: &mut Sprite<S>, animation: &SpriteAnimation<S>)
    ensures
        *final(sprite) == shown(*old(sprite), *animation),
{
    if animation.frame_index < animation.frames.len() {
        let frame = &animation.frames[animation.frame_index];
        sprite.region = frame.region.clone();
        sprite.region_id = frame.region_id;
        sprite.uv = frame.uv;
    }
}

/// The animation at its first frame, playing forward.
pub open spec fn rewound<S: Scalar>(a: SpriteAnimation<S>) -> SpriteAnimation<S> {
    SpriteAnimation {
        elapsed_in_frame: S::zero_spec(),
        playing: true,
        forward: true,
        ..a.at_frame(0)
    }
}

/// Starts an animation over and shows its first frame; nothing happens without frames.
pub fn reset_sprite_animation<S: Scalar>(
    animation: &mut SpriteAnimation<S>,
    sprite: &mut Sprite<S>,
) -> (r: bool)
    requires
        old(animation).wf(),
    ensures
        r == (old(animation).frames@.len() > 0),
        *final(animation) == (if r {
            rewound(*old(animation))
        } else {
            *old(animation)
        }),
        *final(sprite) == (if r {
            shown(*old(sprite), *final(animation))
        } else {
            *old(sprite)
        }),
{
    if animation.frames.len() == 0 {
        return false;
    }
    animation.elapsed_in_frame = S::zero();
    animation.playing = true;
    animation.forward = true;
    animation.set_frame_metrics(0);
    show_current_frame(sprite, animation);
    true
}

/// Jumps to a frame and shows it when that moved anything; false without frames.
pub fn seek_sprite_animation_frame<S: Scalar>(
    animation: &mut SpriteAnimation<S>,
    sprite: &mut Sprite<S>,
    frame: usize,
) -> (r: bool)
    requires
        old(animation).wf(),
    ensures
        ({
            let len = old(animation).frames@.len();
            let target = if frame < len {
                frame as int
            } else {
                len - 1
            };
            let stands = old(animation).frame_index == target && old(animation).elapsed_in_frame.same_spec(S::zero_spec());
            &&& r == (len > 0)
            &&& if len == 0 || stands {
                *final(animation) == *old(animation) && *final(sprite) == *old(sprite)
            } else {
                *final(animation) == (SpriteAnimation {
                    elapsed_in_frame: S::zero_spec(),
                    ..old(animation).at_frame(target)
                }) && *final(sprite) == shown(*old(sprite), *final(animation))
            }
        }),
{
    match animation.seek_frame(frame) {
        None => false,
        Some(moved) => {
            if moved {
                show_current_frame(sprite, animation);
            }
            true
        },
    }
}

/// The mode after an animation was asked to loop or to stop doing so: a mode that already does
/// what is asked is kept.
pub open spec fn mode_for_looping(mode: SpriteAnimationLoopMode, looped: bool) -> SpriteAnimationLoopMode {
    if mode.repeats() == looped {
        mode
    } else if looped {
        SpriteAnimationLoopMode::Loop
    } else {
        SpriteAnimationLoopMode::OnceStop
    }
}

pub fn set_sprite_animation_looped<S: Scalar>(animation: &mut SpriteAnimation<S>, looped: bool)
    ensures
        ({
            let mode = mode_for_looping(old(animation).mode, looped);
            *final(animation) == (if old(animation).mode.repeats() == looped {
                SpriteAnimation { looped, ..*old(animation) }
            } else {
                (SpriteAnimation {
                    mode,
                    looped: mode.repeats(),
                    forward: true,
                    prev_forward: true,
                    fast_loop: !old(animation).has_events && mode is Loop,
                    ..*old(animation)
                }).start_events_refreshed()
            })
        }),
{
    if animation.mode.looped() == looped {
        animation.looped = looped;
    } else if looped {
        animation.set_mode(SpriteAnimationLoopMode::Loop);
    } else {
        animation.set_mode(SpriteAnimationLoopMode::OnceStop);
    }
}

/// A speed that is not finite is ignored.
pub fn set_sprite_animation_speed<S: Scalar>(animation: &mut SpriteAnimation<S>, speed: S)
    ensures
        *final(animation) == (if speed.finite_spec() {
            SpriteAnimation { speed, playback_rate_dirty: true, ..*old(animation) }
        } else {
            *old(animation)
        }),
{
    if speed.finite() {
        animation.set_speed(speed);
    }
}

/// A fresh animation of a timeline that keeps where and how a former one was to start.
pub open spec fn timeline_started<S: Scalar>(
    d: AtlasTimeline<S>,
    previous: Option<SpriteAnimation<S>>,
) -> SpriteAnimation<S> {
    let zero = S::zero_spec();
    let has_events = crate::sprite::any_frame_has_events(d.frames@);
    let fresh = (SpriteAnimation {
        timeline: d.name,
        frames: d.frames,
        frame_hot_data: d.hot_data,
        frame_durations: d.durations,
        frame_offsets: d.offsets,
        total_duration: d.total_duration,
        total_duration_inv: if zero.lt_spec(d.total_duration) {
            S::one_spec().over_spec(d.total_duration)
        } else {
            zero
        },
        current_duration: crate::sprite::first_or_zero(d.durations@),
        current_frame_offset: crate::sprite::first_or_zero(d.offsets@),
        frame_index: 0,
        elapsed_in_frame: zero,
        pending_small_delta: zero,
        playing: true,
        looped: d.loop_mode.repeats(),
        mode: d.loop_mode,
        forward: true,
        speed: S::one_spec(),
        start_offset: zero,
        random_start: false,
        group: None,
        has_events,
        playback_rate: zero,
        playback_rate_dirty: true,
        fast_loop: !has_events && d.loop_mode is Loop,
        pending_start_events: false,
        prev_forward: true,
    }).start_events_refreshed();
    match previous {
        Some(p) => SpriteAnimation {
            start_offset: p.start_offset,
            random_start: p.random_start,
            group: p.group,
            ..fresh
        },
        None => fresh,
    }
}

fn start_timeline<S: Scalar>(
    definition: &AtlasTimeline<S>,
    previous: Option<SpriteAnimation<S>>,
) -> (r: SpriteAnimation<S>)
    requires
        definition.wf(),
    ensures
        r == timeline_started(*definition, previous),
        r.wf(),
{
    let mut animation = SpriteAnimation::new(
        definition.name.clone(),
        definition.frames.clone(),
        definition.hot_data.clone(),
        definition.durations.clone(),
        definition.offsets.clone(),
        definition.total_duration,
        definition.loop_mode,
    );
    if let Some(former) = previous {
        animation.start_offset = former.start_offset;
        animation.random_start = former.random_start;
        animation.group = former.group;
    }
    animation
}

/// A sprite with its animation, and what was recorded.
pub struct Stage<S> {
    pub sprite: Sprite<S>,
    pub animation: SpriteAnimation<S>,
    pub recorder: AnimationRecorder<S>,
}

impl<S: Scalar> Stage<S> {
    /// The animation put where it starts, and its frame shown.
    #[verifier::opaque]
    pub open spec fn phased(self, entity: Entity, random_fraction: S) -> Self {
        let (animation, recorder) = crate::sprite_advance::phase_after(
            self.animation,
            self.recorder,
            entity,
            random_fraction,
        );
        Stage { sprite: shown(self.sprite, animation), animation, recorder }
    }

    /// The animation started over, and its frame shown.
    pub open spec fn rewound(self) -> Self {
        let animation = rewound(self.animation);
        Stage { sprite: shown(self.sprite, animation), animation, ..self }
    }
}

/// Puts an animation where it starts and shows the frame it stands on.
pub fn reinitialize_sprite_animation_phase<S: Scalar>(
    animation: &mut SpriteAnimation<S>,
    sprite: &mut Sprite<S>,
    entity: Entity,
    random_fraction: S,
    recorder: &mut AnimationRecorder<S>,
)
    requires
        old(animation).wf(),
    ensures
        (Stage { sprite: *final(sprite), animation: *final(animation), recorder: *final(recorder) })
            == (Stage {
            sprite: *old(sprite),
            animation: *old(animation),
            recorder: *old(recorder),
        }).phased(entity, random_fraction),
        final(animation).wf(),
        final(sprite).atlas_key == old(sprite).atlas_key,
{
    reveal(Stage::phased);
    initialize_animation_phase(animation, entity, random_fraction, recorder);
    show_current_frame(sprite, animation);
}

/// A sprite that starts to play a timeline. `previous` is the animation it played before, which
/// says how and where the new one starts.
#[verifier::opaque]
pub open spec fn timeline_set<S: Scalar>(
    sprite: Sprite<S>,
    d: AtlasTimeline<S>,
    previous: Option<SpriteAnimation<S>>,
    recorder: AnimationRecorder<S>,
    entity: Entity,
    random_fraction: S,
) -> Stage<S> {
    Stage { sprite, animation: timeline_started(d, previous), recorder }.rewound().phased(
        entity,
        random_fraction,
    )
}

/// Lets a sprite play a timeline; none, and nothing happens, where the timeline has no frames.
pub fn set_sprite_timeline<S: Scalar>(
    sprite: &mut Sprite<S>,
    definition: &AtlasTimeline<S>,
    previous: Option<SpriteAnimation<S>>,
    entity: Entity,
    random_fraction: S,
    recorder: &mut AnimationRecorder<S>,
) -> (r: Option<SpriteAnimation<S>>)
    requires
        definition.wf(),
    ensures
        final(sprite).atlas_key == old(sprite).atlas_key,
        match r {
            Some(animation) => definition.frames@.len() > 0 && animation.wf() && (Stage {
                sprite: *final(sprite),
                animation,
                recorder: *final(recorder),
            }) == timeline_set(
                *old(sprite),
                *definition,
                previous,
                *old(recorder),
                entity,
                random_fraction,
            ),
            None => definition.frames@.len() == 0 && *final(sprite) == *old(sprite)
                && *final(recorder) == *old(recorder),
        },
{
    reveal(timeline_set);
    if definition.frames.len() == 0 {
        return None;
    }
    let mut animation = start_timeline(definition, previous);
    reset_sprite_animation(&mut animation, sprite);
    reinitialize_sprite_animation_phase(&mut animation, sprite, entity, random_fraction, recorder);
    Some(animation)
}

/// Sets where an animation starts, and puts it there.
pub fn set_sprite_animation_start_offset<S: Scalar>(
    animation: &mut SpriteAnimation<S>,
    sprite: &mut Sprite<S>,
    offset: S,
    entity: Entity,
    random_fraction: S,
    recorder: &mut AnimationRecorder<S>,
)
    requires
        old(animation).wf(),
    ensures
        (Stage { sprite: *final(sprite), animation: *final(animation), recorder: *final(recorder) })
            == (Stage {
            sprite: *old(sprite),
            animation: SpriteAnimation {
                start_offset: offset.larger_spec(S::zero_spec()),
                ..*old(animation)
            },
            recorder: *old(recorder),
        }).phased(entity, random_fraction),
        final(animation).wf(),
        final(sprite).atlas_key == old(sprite).atlas_key,
{
    animation.set_start_offset(offset);
    reinitialize_sprite_animation_phase(animation, sprite, entity, random_fraction, recorder);
}

/// Sets whether an animation starts at a random place, and puts it where it starts.
pub fn set_sprite_animation_random_start<S: Scalar>(
    animation: &mut SpriteAnimation<S>,
    sprite: &mut Sprite<S>,
    random: bool,
    entity: Entity,
    random_fraction: S,
    recorder: &mut AnimationRecorder<S>,
)
    requires
        old(animation).wf(),
    ensures
        (Stage { sprite: *final(sprite), animation: *final(animation), recorder: *final(recorder) })
            == (Stage {
            sprite: *old(sprite),
            animation: SpriteAnimation { random_start: random, ..*old(animation) },
            recorder: *old(recorder),
        }).phased(entity, random_fraction),
        final(animation).wf(),
        final(sprite).atlas_key == old(sprite).atlas_key,
{
    animation.set_random_start(random);
    reinitialize_sprite_animation_phase(animation, sprite, entity, random_fraction, recorder);
}

/// An animation of the group takes its new rate up the next time it is driven.
pub open spec fn group_marked<S: Scalar>(a: SpriteAnimation<S>, group: Seq<char>) -> SpriteAnimation<
    S,
> {
    if a.group_name() == Some(group) {
        SpriteAnimation { playback_rate_dirty: true, ..a }
    } else {
        a
    }
}

fn mark_group<S: Scalar>(animation: &mut SpriteAnimation<S>, group: &str)
    ensures
        *final(animation) == group_marked(*old(animation), group@),
{
    let belongs = match animation.group() {
        Some(name) => same_text(name, group),
        None => false,
    };
    if belongs {
        animation.mark_playback_rate_dirty();
    }
}

pub fn mark_group_dirty<S: Scalar>(actors: &mut Vec<SpriteActor<S>>, group: &str)
    ensures
        final(actors)@.len() == old(actors)@.len(),
        forall|i: int|
            0 <= i < old(actors)@.len() ==> #[trigger] final(actors)@[i] == (SpriteActor {
                animation: group_marked(old(actors)@[i].animation, group@),
                ..old(actors)@[i]
            }),
{
    let mut i: usize = 0;
    while i < actors.len()
        invariant
            i <= actors@.len(),
            actors@.len() == old(actors)@.len(),
            forall|j: int| i <= j < actors@.len() ==> #[trigger] actors@[j] == old(actors)@[j],
            forall|j: int|
                0 <= j < i ==> #[trigger] actors@[j] == (SpriteActor {
                    animation: group_marked(old(actors)@[j].animation, group@),
                    ..old(actors)@[j]
                }),
        decreases actors@.len() - i,
    {
        mark_group(&mut actors[i].animation, group);
        i = i + 1;
    }
}

} // verus!
