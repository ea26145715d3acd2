//! One animator of the packed store: its moving numbers, its tables and its flags.
use std::sync::Arc;
use vstd::prelude::*;
use crate::anim_stats::{
    perf_record_mod_or_div, record_fast_loop_binary_search, record_fast_loop_call,
    AnimationRecorder,
};
use crate::animation_time::AnimationTime;
use crate::scalar::Scalar;
use crate::sprite::{gather_delta, SpriteAnimation, SpriteAnimationFrame, SpriteFrameHotData};
use crate::sprite_advance::MAX_FRAME_STEPS;
use crate::sprite_loop::{jump, LoopClock};

verus! {

/// The switches of an animator, packed into bits.
#[derive(Clone, Copy, Debug, PartialEq, Eq, Structural)]
pub struct SpriteAnimatorFlags(pub u16);

pub const PLAYING: u16 = 1;

pub const LOOPED: u16 = 2;

pub const FORWARD: u16 = 4;

pub const PREV_FORWARD: u16 = 8;

pub const PENDING_START: u16 = 16;

pub const PLAYBACK_DIRTY: u16 = 32;

pub const NEEDS_PREP: u16 = 64;

pub const CONST_DT: u16 = 128;

impl SpriteAnimatorFlags {
    pub open spec fn has(self, mask: u16) -> bool {
        self.0 & mask != 0
    }

    pub open spec fn with(self, mask: u16, enabled: bool) -> Self {
        if enabled {
            SpriteAnimatorFlags(self.0 | mask)
        } else {
            SpriteAnimatorFlags(self.0 & !mask)
        }
    }

    pub fn set_bit(&mut self, mask: u16, enabled: bool)
        ensures
            *final(self) == old(self).with(mask, enabled),
    {
        if enabled {
            self.0 = self.0 | mask;
        } else {
            self.0 = self.0 & !mask;
        }
    }

    pub fn playing(self) -> (r: bool)
        ensures
            r == self.has(PLAYING),
    {
        self.0 & PLAYING != 0
    }

    pub fn playback_dirty(self) -> (r: bool)
        ensures
            r == self.has(PLAYBACK_DIRTY),
    {
        self.0 & PLAYBACK_DIRTY != 0
    }

    pub fn set_playback_dirty(&mut self, value: bool)
        ensures
            *final(self) == old(self).with(PLAYBACK_DIRTY, value),
    {
        self.set_bit(PLAYBACK_DIRTY, value);
    }

    pub fn needs_prep(self) -> (r: bool)
        ensures
            r == self.has(NEEDS_PREP),
    {
        self.0 & NEEDS_PREP != 0
    }

    pub fn set_needs_prep(&mut self, value: bool)
        ensures
            *final(self) == old(self).with(NEEDS_PREP, value),
    {
        self.set_bit(NEEDS_PREP, value);
    }

    pub fn const_dt(self) -> (r: bool)
        ensures
            r == self.has(CONST_DT),
    {
        self.0 & CONST_DT != 0
    }

    pub fn set_const_dt(&mut self, value: bool)
        ensures
            *final(self) == old(self).with(CONST_DT, value),
    {
        self.set_bit(CONST_DT, value);
    }

    pub open spec fn of_animation<S>(animation: SpriteAnimation<S>) -> Self {
        SpriteAnimatorFlags(0).with(PLAYING, animation.playing).with(
            LOOPED,
            animation.looped,
        ).with(FORWARD, animation.forward).with(PREV_FORWARD, animation.prev_forward).with(
            PENDING_START,
            animation.pending_start_events,
        ).with(PLAYBACK_DIRTY, animation.playback_rate_dirty).with(NEEDS_PREP, true)
    }

    /// The flags of an animation that is taken into the store; it has yet to be prepared.
    pub fn from_animation<S>(animation: &SpriteAnimation<S>) -> (r: Self)
        ensures
            r == Self::of_animation(*animation),
    {
        let mut flags = SpriteAnimatorFlags(0);
        flags.set_bit(PLAYING, animation.playing);
        flags.set_bit(LOOPED, animation.looped);
        flags.set_bit(FORWARD, animation.forward);
        flags.set_bit(PREV_FORWARD, animation.prev_forward);
        flags.set_bit(PENDING_START, animation.pending_start_events);
        flags.set_bit(PLAYBACK_DIRTY, animation.playback_rate_dirty);
        flags.set_needs_prep(true);
        flags
    }
}

/// A flag that was set is read back, and no flag under another mask changes.
pub proof fn law_flags_are_independent(
    flags: SpriteAnimatorFlags,
    mask: u16,
    other: u16,
    enabled: bool,
)
    requires
        mask != 0,
        mask & other == 0,
    ensures
        enabled ==> flags.with(mask, enabled).has(mask),
        !enabled ==> !flags.with(mask, enabled).has(mask),
        flags.with(mask, enabled).has(other) == flags.has(other),
{
    let f = flags.0;
    assert((f | mask) & mask != 0) by (bit_vector)
        requires
            mask != 0,
    ;
    assert((f & !mask) & mask == 0) by (bit_vector);
    assert((f | mask) & other == f & other) by (bit_vector)
        requires
            mask & other == 0,
    ;
    assert((f & !mask) & other == f & other) by (bit_vector)
        requires
            mask & other == 0,
    ;
}

/// The flags taken from an animation say of it what the animation says.
pub proof fn law_flags_mirror_animation<S>(animation: SpriteAnimation<S>)
    ensures
        ({
            let flags = SpriteAnimatorFlags::of_animation(animation);
            &&& flags.has(PLAYING) == animation.playing
            &&& flags.has(LOOPED) == animation.looped
            &&& flags.has(FORWARD) == animation.forward
            &&& flags.has(PREV_FORWARD) == animation.prev_forward
            &&& flags.has(PENDING_START) == animation.pending_start_events
            &&& flags.has(PLAYBACK_DIRTY) == animation.playback_rate_dirty
            &&& flags.has(NEEDS_PREP)
            &&& !flags.has(CONST_DT)
        }),
{
    let f0 = SpriteAnimatorFlags(0);
    let f1 = f0.with(PLAYING, animation.playing);
    let f2 = f1.with(LOOPED, animation.looped);
    let f3 = f2.with(FORWARD, animation.forward);
    let f4 = f3.with(PREV_FORWARD, animation.prev_forward);
    let f5 = f4.with(PENDING_START, animation.pending_start_events);
    let f6 = f5.with(PLAYBACK_DIRTY, animation.playback_rate_dirty);
    lemma_masks_apart();
    assert(forall|m: u16| (0u16 & m) == 0) by (bit_vector);
    assert forall|m: u16| !f0.has(m) by {
        assert((0u16 & m) == 0) by (bit_vector);
    }
    law_flags_are_independent(f0, PLAYING, CONST_DT, animation.playing);
    law_flags_are_independent(f1, LOOPED, PLAYING, animation.looped);
    law_flags_are_independent(f1, LOOPED, CONST_DT, animation.looped);
    law_flags_are_independent(f2, FORWARD, PLAYING, animation.forward);
    law_flags_are_independent(f2, FORWARD, LOOPED, animation.forward);
    law_flags_are_independent(f2, FORWARD, CONST_DT, animation.forward);
    law_flags_are_independent(f3, PREV_FORWARD, PLAYING, animation.prev_forward);
    law_flags_are_independent(f3, PREV_FORWARD, LOOPED, animation.prev_forward);
    law_flags_are_independent(f3, PREV_FORWARD, FORWARD, animation.prev_forward);
    law_flags_are_independent(f3, PREV_FORWARD, CONST_DT, animation.prev_forward);
    law_flags_are_independent(f4, PENDING_START, PLAYING, animation.pending_start_events);
    law_flags_are_independent(f4, PENDING_START, LOOPED, animation.pending_start_events);
    law_flags_are_independent(f4, PENDING_START, FORWARD, animation.pending_start_events);
    law_flags_are_independent(f4, PENDING_START, PREV_FORWARD, animation.pending_start_events);
    law_flags_are_independent(f4, PENDING_START, CONST_DT, animation.pending_start_events);
    law_flags_are_independent(f5, PLAYBACK_DIRTY, PLAYING, animation.playback_rate_dirty);
    law_flags_are_independent(f5, PLAYBACK_DIRTY, LOOPED, animation.playback_rate_dirty);
    law_flags_are_independent(f5, PLAYBACK_DIRTY, FORWARD, animation.playback_rate_dirty);
    law_flags_are_independent(f5, PLAYBACK_DIRTY, PREV_FORWARD, animation.playback_rate_dirty);
    law_flags_are_independent(f5, PLAYBACK_DIRTY, PENDING_START, animation.playback_rate_dirty);
    law_flags_are_independent(f5, PLAYBACK_DIRTY, CONST_DT, animation.playback_rate_dirty);
    law_flags_are_independent(f6, NEEDS_PREP, PLAYING, true);
    law_flags_are_independent(f6, NEEDS_PREP, LOOPED, true);
    law_flags_are_independent(f6, NEEDS_PREP, FORWARD, true);
    law_flags_are_independent(f6, NEEDS_PREP, PREV_FORWARD, true);
    law_flags_are_independent(f6, NEEDS_PREP, PENDING_START, true);
    law_flags_are_independent(f6, NEEDS_PREP, PLAYBACK_DIRTY, true);
    law_flags_are_independent(f6, NEEDS_PREP, CONST_DT, true);
}

proof fn lemma_masks_apart()
    ensures
        PLAYING & CONST_DT == 0,
        LOOPED & PLAYING == 0,
        LOOPED & CONST_DT == 0,
        FORWARD & PLAYING == 0,
        FORWARD & LOOPED == 0,
        FORWARD & CONST_DT == 0,
        PREV_FORWARD & PLAYING == 0,
        PREV_FORWARD & LOOPED == 0,
        PREV_FORWARD & FORWARD == 0,
        PREV_FORWARD & CONST_DT == 0,
        PENDING_START & PLAYING == 0,
        PENDING_START & LOOPED == 0,
        PENDING_START & FORWARD == 0,
        PENDING_START & PREV_FORWARD == 0,
        PENDING_START & CONST_DT == 0,
        PLAYBACK_DIRTY & PLAYING == 0,
        PLAYBACK_DIRTY & LOOPED == 0,
        PLAYBACK_DIRTY & FORWARD == 0,
        PLAYBACK_DIRTY & PREV_FORWARD == 0,
        PLAYBACK_DIRTY & PENDING_START == 0,
        PLAYBACK_DIRTY & CONST_DT == 0,
        NEEDS_PREP & PLAYING == 0,
        NEEDS_PREP & LOOPED == 0,
        NEEDS_PREP & FORWARD == 0,
        NEEDS_PREP & PREV_FORWARD == 0,
        NEEDS_PREP & PENDING_START == 0,
        NEEDS_PREP & PLAYBACK_DIRTY == 0,
        NEEDS_PREP & CONST_DT == 0,
{
    assert(1u16 & 128 == 0 && 2u16 & 1 == 0 && 2u16 & 128 == 0 && 4u16 & 1 == 0 && 4u16 & 2 == 0
        && 4u16 & 128 == 0 && 8u16 & 1 == 0 && 8u16 & 2 == 0 && 8u16 & 4 == 0 && 8u16 & 128 == 0
        && 16u16 & 1 == 0 && 16u16 & 2 == 0 && 16u16 & 4 == 0 && 16u16 & 8 == 0 && 16u16 & 128
        == 0 && 32u16 & 1 == 0 && 32u16 & 2 == 0 && 32u16 & 4 == 0 && 32u16 & 8 == 0 && 32u16 & 16
        == 0 && 32u16 & 128 == 0 && 64u16 & 1 == 0 && 64u16 & 2 == 0 && 64u16 & 4 == 0 && 64u16
        & 8 == 0 && 64u16 & 16 == 0 && 64u16 & 32 == 0 && 64u16 & 128 == 0) by (bit_vector);
}

/// The numbers of an animator that change while it plays.
#[derive(Clone, Copy)]
pub struct AnimatorHot<S> {
    pub frame_index: u32,
    pub elapsed_in_frame: S,
    pub current_duration: S,
    pub current_frame_offset: S,
    pub next_frame_duration: S,
    pub pending_delta: S,
    pub playback_rate: S,
}

/// The same place in 16.16 fixed point.
#[derive(Clone, Copy, Debug, PartialEq, Eq, Structural)]
pub struct AnimatorFixed {
    pub elapsed: u32,
    pub duration: u32,
    pub offset: u32,
    pub next_duration: u32,
}

/// What of an animator stays as it is while it plays.
pub struct AnimatorSource<S> {
    pub speed: S,
    pub total_duration: S,
    pub total_duration_inv: S,
    pub total_duration_fp: u32,
    pub const_dt_duration: S,
    pub const_dt_duration_fp: u32,
    pub const_dt_frame_count: u32,
    pub frames: Arc<Vec<SpriteAnimationFrame<S>>>,
    pub frame_hot_data: Arc<Vec<SpriteFrameHotData<S>>>,
    pub frame_durations: Arc<Vec<S>>,
    pub frame_offsets: Arc<Vec<S>>,
    pub frame_durations_fp: Arc<Vec<u32>>,
    pub frame_offsets_fp: Arc<Vec<u32>>,
    pub group: Option<String>,
}

/// The smallest duration in fixed point.
pub const FP_CLIP_EPSILON: u32 = 1;

pub open spec fn fixed_table<S: Scalar>(values: Seq<S>) -> Seq<u32> {
    values.map_values(|v: S| v.to_fixed_spec())
}

fn convert_slice_to_fp<S: Scalar>(values: &Vec<S>) -> (r: Vec<u32>)
    ensures
        r@ == fixed_table(values@),
{
    let mut out: Vec<u32> = Vec::new();
    let mut i: usize = 0;
    while i < values.len()
        invariant
            i <= values@.len(),
            out@ == fixed_table(values@.take(i as int)),
        decreases values@.len() - i,
    {
        out.push(values[i].to_fixed());
        proof {
            assert(values@.take(i + 1) =~= values@.take(i as int).push(values@[i as int]));
            assert(out@ =~= fixed_table(values@.take(i + 1)));
        }
        i = i + 1;
    }
    assert(values@.take(i as int) == values@);
    out
}

/// The duration of the frame after `frame_index`, going round; nothing lasts no time.
pub open spec fn duration_after<S: Scalar>(durations: Seq<S>, frame_index: int) -> S {
    if durations.len() == 0 {
        S::zero_spec()
    } else {
        durations[(frame_index + 1) % (durations.len() as int)]
    }
}

pub fn next_duration_from_slice<S: Scalar>(durations: &Vec<S>, frame_index: usize) -> (r: S)
    ensures
        r == duration_after(durations@, frame_index as int),
{
    let len: usize = durations.len();
    if len == 0 {
        return S::zero();
    }
    let at: usize = frame_index % len;
    let next: usize = if at + 1 == len {
        0
    } else {
        at + 1
    };
    proof {
        let n = len as int;
        let x = frame_index as int;
        vstd::arithmetic::div_mod::lemma_fundamental_div_mod(x, n);
        let q = x / n;
        if at + 1 == len {
            assert(x + 1 == (q + 1) * n + 0) by (nonlinear_arith)
                requires
                    x == n * q + at,
                    at + 1 == n,
            ;
            vstd::arithmetic::div_mod::lemma_fundamental_div_mod_converse(x + 1, n, q + 1, 0);
        } else {
            assert(x + 1 == q * n + (at + 1)) by (nonlinear_arith)
                requires
                    x == n * q + at,
            ;
            vstd::arithmetic::div_mod::lemma_fundamental_div_mod_converse(x + 1, n, q, at + 1);
        }
    }
    durations[next]
}

/// Whether every frame lasts as long as the first, within the slack, and some time at all.
pub open spec fn lasts_evenly<S: Scalar>(durations: Seq<S>) -> bool {
    &&& durations.len() > 0
    &&& !durations[0].le_spec(S::zero_spec())
    &&& forall|i: int|
        0 <= i < durations.len() ==> (#[trigger] durations[i]).minus_spec(
            durations[0],
        ).magnitude_spec().le_spec(S::clip_epsilon_spec())
}

/// The common duration of the frames, if they have one.
pub fn detect_const_dt_duration<S: Scalar>(durations: &Vec<S>) -> (r: Option<S>)
    ensures
        r == (if lasts_evenly(durations@) {
            Some(durations@[0])
        } else {
            None
        }),
{
    if durations.len() == 0 {
        return None;
    }
    let first = durations[0];
    if first.le(S::zero()) {
        return None;
    }
    let mut i: usize = 0;
    while i < durations.len()
        invariant
            durations@.len() > 0,
            first == durations@[0],
            i <= durations@.len(),
            forall|j: int|
                0 <= j < i ==> (#[trigger] durations@[j]).minus_spec(
                    first,
                ).magnitude_spec().le_spec(S::clip_epsilon_spec()),
        decreases durations@.len() - i,
    {
        if !durations[i].minus(first).magnitude().le(S::clip_epsilon()) {
            return None;
        }
        i = i + 1;
    }
    Some(first)
}

impl<S: Scalar> AnimatorSource<S> {
    /// The tables belong together and their length fits a frame index.
    pub open spec fn wf(self) -> bool {
        &&& self.frame_offsets@.len() == self.frame_durations@.len()
        &&& self.frame_durations_fp@.len() == self.frame_durations@.len()
        &&& self.frame_offsets_fp@.len() == self.frame_durations@.len()
        &&& self.frame_durations@.len() <= u32::MAX
        &&& self.const_dt_frame_count == at_least_one(self.frame_durations@.len() as int)
        &&& self.frames@.len() == self.frame_durations@.len()
        &&& self.frame_hot_data@.len() == self.frame_durations@.len()
    }

    pub open spec fn of_animation(animation: SpriteAnimation<S>, r: Self) -> bool {
        &&& r.speed == animation.speed
        &&& r.total_duration == animation.total_duration
        &&& r.total_duration_inv == animation.total_duration_inv
        &&& r.total_duration_fp == animation.total_duration.to_fixed_spec()
        &&& r.const_dt_duration == (if lasts_evenly(animation.frame_durations@) {
            animation.frame_durations@[0]
        } else {
            S::zero_spec()
        })
        &&& r.const_dt_duration_fp == (if lasts_evenly(animation.frame_durations@) {
            animation.frame_durations@[0].to_fixed_spec()
        } else {
            0
        })
        &&& r.const_dt_frame_count == (if animation.frame_durations@.len() == 0 {
            1
        } else {
            animation.frame_durations@.len()
        })
        &&& r.frames == animation.frames
        &&& r.frame_hot_data == animation.frame_hot_data
        &&& r.frame_durations == animation.frame_durations
        &&& r.frame_offsets == animation.frame_offsets
        &&& r.frame_durations_fp@ == fixed_table(animation.frame_durations@)
        &&& r.frame_offsets_fp@ == fixed_table(animation.frame_offsets@)
        &&& r.group == animation.group
    }

    pub fn from_animation(animation: &SpriteAnimation<S>) -> (r: Self)
        requires
            animation.wf(),
            animation.frames@.len() <= u32::MAX,
        ensures
            Self::of_animation(*animation, r),
            r.wf(),
    {
        let even = detect_const_dt_duration(&animation.frame_durations);
        let count: usize = animation.frame_durations.len();
        AnimatorSource {
            speed: animation.speed,
            total_duration: animation.total_duration,
            total_duration_inv: animation.total_duration_inv,
            total_duration_fp: animation.total_duration.to_fixed(),
            const_dt_duration: match even {
                Some(duration) => duration,
                None => S::zero(),
            },
            const_dt_duration_fp: match even {
                Some(duration) => duration.to_fixed(),
                None => 0,
            },
            const_dt_frame_count: if count == 0 {
                1
            } else {
                count as u32
            },
            frames: animation.frames.clone(),
            frame_hot_data: animation.frame_hot_data.clone(),
            frame_durations: animation.frame_durations.clone(),
            frame_offsets: animation.frame_offsets.clone(),
            frame_durations_fp: Arc::new(convert_slice_to_fp(&animation.frame_durations)),
            frame_offsets_fp: Arc::new(convert_slice_to_fp(&animation.frame_offsets)),
            group: animation.group.clone(),
        }
    }

    pub open spec fn group_name(self) -> Option<Seq<char>> {
        match self.group {
            Some(name) => Some(name@),
            None => None,
        }
    }
}

impl<S: Scalar> AnimatorHot<S> {
    pub open spec fn of_animation(animation: SpriteAnimation<S>) -> Self {
        AnimatorHot {
            frame_index: animation.frame_index as u32,
            elapsed_in_frame: animation.elapsed_in_frame,
            current_duration: animation.current_duration,
            current_frame_offset: animation.current_frame_offset,
            next_frame_duration: duration_after(
                animation.frame_durations@,
                animation.frame_index as int,
            ),
            pending_delta: animation.pending_small_delta,
            playback_rate: animation.playback_rate,
        }
    }

    pub fn from_animation(animation: &SpriteAnimation<S>) -> (r: Self)
        ensures
            r == Self::of_animation(*animation),
    {
        AnimatorHot {
            frame_index: animation.frame_index as u32,
            elapsed_in_frame: animation.elapsed_in_frame,
            current_duration: animation.current_duration,
            current_frame_offset: animation.current_frame_offset,
            next_frame_duration: next_duration_from_slice(
                &animation.frame_durations,
                animation.frame_index,
            ),
            pending_delta: animation.pending_small_delta,
            playback_rate: animation.playback_rate,
        }
    }

    pub open spec fn loop_clock(self) -> LoopClock<S> {
        LoopClock {
            frame_index: self.frame_index as usize,
            elapsed: self.elapsed_in_frame,
            duration: self.current_duration,
            offset: self.current_frame_offset,
        }
    }

    pub open spec fn at_clock(self, clock: LoopClock<S>) -> Self {
        AnimatorHot {
            frame_index: clock.frame_index as u32,
            elapsed_in_frame: clock.elapsed,
            current_duration: clock.duration,
            current_frame_offset: clock.offset,
            ..self
        }
    }
}

impl AnimatorFixed {
    pub open spec fn of_animation<S: Scalar>(animation: SpriteAnimation<S>) -> Self {
        AnimatorFixed {
            elapsed: animation.elapsed_in_frame.to_fixed_spec(),
            duration: animation.current_duration.to_fixed_spec(),
            offset: animation.current_frame_offset.to_fixed_spec(),
            next_duration: duration_after(
                animation.frame_durations@,
                animation.frame_index as int,
            ).to_fixed_spec(),
        }
    }

    pub fn from_animation<S: Scalar>(animation: &SpriteAnimation<S>) -> (r: Self)
        ensures
            r == Self::of_animation(*animation),
    {
        AnimatorFixed {
            elapsed: animation.elapsed_in_frame.to_fixed(),
            duration: animation.current_duration.to_fixed(),
            offset: animation.current_frame_offset.to_fixed(),
            next_duration: next_duration_from_slice(
                &animation.frame_durations,
                animation.frame_index,
            ).to_fixed(),
        }
    }
}

/// The moving parts of one animator.
pub struct AnimatorPlace<S> {
    pub hot: AnimatorHot<S>,
    pub fixed: AnimatorFixed,
}

impl<S: Scalar> AnimatorPlace<S> {
    /// The place with the duration of the frame to come looked up again.
    pub open spec fn next_refreshed(self, source: AnimatorSource<S>) -> Self {
        let next = duration_after(source.frame_durations@, self.hot.frame_index as int);
        AnimatorPlace {
            hot: AnimatorHot { next_frame_duration: next, ..self.hot },
            fixed: AnimatorFixed { next_duration: next.to_fixed_spec(), ..self.fixed },
        }
    }
}

pub fn refresh_next_frame_duration<S: Scalar>(
    hot: &mut AnimatorHot<S>,
    fixed: &mut AnimatorFixed,
    source: &AnimatorSource<S>,
)
    ensures
        (AnimatorPlace { hot: *final(hot), fixed: *final(fixed) }) == (AnimatorPlace {
            hot: *old(hot),
            fixed: *old(fixed),
        }).next_refreshed(*source),
{
    let next = next_duration_from_slice(&source.frame_durations, hot.frame_index as usize);
    hot.next_frame_duration = next;
    fixed.next_duration = next.to_fixed();
}

impl<S: Scalar> AnimatorPlace<S> {
    /// The place and the flags once the animator is ready to move: a frame that is gone gives way
    /// to the first, and an animator without frames stays unprepared.
    pub open spec fn prepared(self, source: AnimatorSource<S>, flags: SpriteAnimatorFlags) -> (
        Self,
        SpriteAnimatorFlags,
    ) {
        let count = source.frame_durations@.len();
        if count == 0 {
            (self, flags.with(NEEDS_PREP, true))
        } else if !flags.has(NEEDS_PREP) {
            (self, flags)
        } else {
            let seated = if self.hot.frame_index >= count {
                AnimatorPlace {
                    hot: AnimatorHot {
                        frame_index: 0,
                        elapsed_in_frame: S::zero_spec(),
                        current_duration: source.frame_durations@[0],
                        current_frame_offset: source.frame_offsets@[0],
                        ..self.hot
                    },
                    fixed: AnimatorFixed {
                        elapsed: 0,
                        duration: source.frame_durations_fp@[0],
                        offset: source.frame_offsets_fp@[0],
                        ..self.fixed
                    },
                }
            } else {
                self
            };
            (seated.next_refreshed(source), flags.with(NEEDS_PREP, false))
        }
    }
}

pub fn prepare_animation_slot<S: Scalar>(
    hot: &mut AnimatorHot<S>,
    fixed: &mut AnimatorFixed,
    source: &AnimatorSource<S>,
    flags: &mut SpriteAnimatorFlags,
) -> (r: bool)
    requires
        source.wf(),
    ensures
        (AnimatorPlace { hot: *final(hot), fixed: *final(fixed) }, *final(flags)) == (
        AnimatorPlace { hot: *old(hot), fixed: *old(fixed) }).prepared(*source, *old(flags)),
        r == (source.frame_durations@.len() > 0 && old(flags).has(PLAYING)),
        r && (old(flags).has(NEEDS_PREP) || old(hot).frame_index < source.frame_durations@.len())
            ==> final(hot).frame_index < source.frame_durations@.len(),
{
    let count: usize = source.frame_durations.len();
    if count == 0 {
        flags.set_needs_prep(true);
        return false;
    }
    if !flags.needs_prep() {
        return flags.playing();
    }
    if hot.frame_index as usize >= count {
        hot.frame_index = 0;
        hot.elapsed_in_frame = S::zero();
        hot.current_duration = source.frame_durations[0];
        hot.current_frame_offset = source.frame_offsets[0];
        fixed.elapsed = 0;
        fixed.duration = source.frame_durations_fp[0];
        fixed.offset = source.frame_offsets_fp[0];
    }
    proof {
        lemma_masks_apart();
        law_flags_are_independent(*flags, NEEDS_PREP, PLAYING, false);
    }
    flags.set_needs_prep(false);
    refresh_next_frame_duration(hot, fixed, source);
    flags.playing()
}

/// The rate of an animator, brought up to date.
pub open spec fn rate_resolved<S: Scalar>(
    hot: AnimatorHot<S>,
    source: AnimatorSource<S>,
    flags: SpriteAnimatorFlags,
    has_group_scales: bool,
    time: AnimationTime<S>,
) -> (AnimatorHot<S>, SpriteAnimatorFlags) {
    if flags.has(PLAYBACK_DIRTY) {
        let scale = if has_group_scales {
            time.scale_of(source.group_name())
        } else {
            S::one_spec()
        };
        (
            AnimatorHot { playback_rate: source.speed.times_spec(scale), ..hot },
            flags.with(PLAYBACK_DIRTY, false),
        )
    } else {
        (hot, flags)
    }
}

pub fn resolve_playback_rate_slot<S: Scalar>(
    hot: &mut AnimatorHot<S>,
    source: &AnimatorSource<S>,
    flags: &mut SpriteAnimatorFlags,
    has_group_scales: bool,
    time: &AnimationTime<S>,
) -> (r: Option<S>)
    requires
        time.wf(),
    ensures
        (*final(hot), *final(flags)) == rate_resolved(
            *old(hot),
            *source,
            *old(flags),
            has_group_scales,
            *time,
        ),
        r == (if final(hot).playback_rate.same_spec(S::zero_spec()) {
            None
        } else {
            Some(final(hot).playback_rate)
        }),
        final(hot).frame_index == old(hot).frame_index,
{
    if flags.playback_dirty() {
        let scale = if has_group_scales {
            match &source.group {
                Some(name) => time.group_scale(Some(name.as_str())),
                None => time.group_scale(None),
            }
        } else {
            S::one()
        };
        hot.playback_rate = source.speed.times(scale);
        flags.set_playback_dirty(false);
    }
    if hot.playback_rate.same(S::zero()) {
        None
    } else {
        Some(hot.playback_rate)
    }
}

pub fn accumulate_delta_slot<S: Scalar>(hot: &mut AnimatorHot<S>, delta: S, epsilon: S) -> (r: Option<
    S,
>)
    ensures
        ({
            let (pending, ready) = SpriteAnimation::<S>::delta_gathered(
                old(hot).pending_delta,
                delta,
                epsilon,
            );
            r == ready && *final(hot) == (AnimatorHot { pending_delta: pending, ..*old(hot) })
        }),
{
    let (pending, ready) = gather_delta(hot.pending_delta, delta, epsilon);
    hot.pending_delta = pending;
    ready
}

impl<S: Scalar> AnimatorPlace<S> {
    /// The place after a step of any length, found from the position in the loop; the fixed-point
    /// copy follows where the frame was looked up anew.
    pub open spec fn jumped(self, source: AnimatorSource<S>, delta: S) -> (
        Self,
        crate::sprite_loop::LoopJump<S>,
    ) {
        let jump = crate::sprite_loop::jumped(
            self.hot.loop_clock(),
            source.frame_durations@,
            source.frame_offsets@,
            source.total_duration,
            delta,
        );
        let moved = self.hot.at_clock(jump.clock);
        if jump.placed {
            (
                (AnimatorPlace {
                    hot: moved,
                    fixed: AnimatorFixed {
                        elapsed: jump.clock.elapsed.to_fixed_spec(),
                        duration: source.frame_durations_fp@[jump.clock.frame_index as int],
                        offset: source.frame_offsets_fp@[jump.clock.frame_index as int],
                        ..self.fixed
                    },
                }).next_refreshed(source),
                jump,
            )
        } else {
            (AnimatorPlace { hot: moved, fixed: self.fixed }, jump)
        }
    }
}

fn jump_slot<S: Scalar>(
    hot: &mut AnimatorHot<S>,
    fixed: &mut AnimatorFixed,
    source: &AnimatorSource<S>,
    delta: S,
    recorder: &mut AnimationRecorder<S>,
) -> (changed: bool)
    requires
        source.wf(),
        source.frame_durations@.len() > 0,
    ensures
        ({
            let (place, jump) = (AnimatorPlace { hot: *old(hot), fixed: *old(fixed) }).jumped(
                *source,
                delta,
            );
            &&& (AnimatorPlace { hot: *final(hot), fixed: *final(fixed) }) == place
            &&& changed == jump.changed
            &&& *final(recorder) == crate::sprite_advance::loop_recorded(
                *old(recorder),
                jump.wrapped,
            )
        }),
        old(hot).frame_index < source.frame_durations@.len() ==> final(hot).frame_index
            < source.frame_durations@.len(),
{
    record_fast_loop_call(recorder, 1);
    let clock = LoopClock {
        frame_index: hot.frame_index as usize,
        elapsed: hot.elapsed_in_frame,
        duration: hot.current_duration,
        offset: hot.current_frame_offset,
    };
    let moved = jump(
        clock,
        &source.frame_durations,
        &source.frame_offsets,
        source.total_duration,
        delta,
    );
    if moved.wrapped {
        record_fast_loop_binary_search(recorder, 1);
    }
    hot.frame_index = moved.clock.frame_index as u32;
    hot.elapsed_in_frame = moved.clock.elapsed;
    hot.current_duration = moved.clock.duration;
    hot.current_frame_offset = moved.clock.offset;
    if moved.placed {
        fixed.elapsed = moved.clock.elapsed.to_fixed();
        fixed.duration = source.frame_durations_fp[moved.clock.frame_index];
        fixed.offset = source.frame_offsets_fp[moved.clock.frame_index];
        refresh_next_frame_duration(hot, fixed, source);
    }
    moved.changed
}

/// Frame by frame forward with the duration of the next frame at hand.
pub open spec fn slot_walked_forward<S: Scalar>(
    durations: Seq<S>,
    offsets: Seq<S>,
    index: int,
    next_duration: S,
    remaining: S,
    fuel: nat,
) -> LoopClock<S>
    decreases fuel,
{
    let count = durations.len() as int;
    let next = crate::sprite_loop::next_in_loop(index, count);
    let threshold = next_duration.larger_spec(S::clip_epsilon_spec());
    if fuel == 0 || remaining.lt_spec(threshold) {
        LoopClock {
            frame_index: next as usize,
            elapsed: remaining.smaller_spec(next_duration),
            duration: next_duration,
            offset: offsets[next],
        }
    } else {
        slot_walked_forward(
            durations,
            offsets,
            next,
            durations[crate::sprite_loop::next_in_loop(next, count)],
            remaining.minus_spec(threshold),
            (fuel - 1) as nat,
        )
    }
}

pub open spec fn slot_walked_backward<S: Scalar>(
    durations: Seq<S>,
    offsets: Seq<S>,
    index: int,
    remaining: S,
    fuel: nat,
) -> LoopClock<S>
    decreases fuel,
{
    let prev = crate::sprite_loop::prev_in_loop(index, durations.len() as int);
    let duration = durations[prev];
    let threshold = duration.larger_spec(S::clip_epsilon_spec());
    if fuel == 0 || remaining.le_spec(threshold) {
        LoopClock {
            frame_index: prev as usize,
            elapsed: duration.minus_spec(remaining).larger_spec(S::zero_spec()),
            duration,
            offset: offsets[prev],
        }
    } else {
        slot_walked_backward(
            durations,
            offsets,
            prev,
            remaining.minus_spec(threshold),
            (fuel - 1) as nat,
        )
    }
}

fn slot_walk_forward<S: Scalar>(
    durations: &Vec<S>,
    offsets: &Vec<S>,
    from: usize,
    first_next: S,
    remaining: S,
) -> (r: LoopClock<S>)
    requires
        from < durations@.len(),
        offsets@.len() == durations@.len(),
    ensures
        r == slot_walked_forward(
            durations@,
            offsets@,
            from as int,
            first_next,
            remaining,
            MAX_FRAME_STEPS as nat,
        ),
        r.frame_index < durations@.len(),
{
    let count: usize = durations.len();
    let mut index: usize = from;
    let mut next_duration = first_next;
    let mut left = remaining;
    let mut fuel: u64 = MAX_FRAME_STEPS;
    let ghost goal = slot_walked_forward(
        durations@,
        offsets@,
        from as int,
        first_next,
        remaining,
        MAX_FRAME_STEPS as nat,
    );
    loop
        invariant
            index < count,
            count == durations@.len(),
            offsets@.len() == durations@.len(),
            goal == slot_walked_forward(
                durations@,
                offsets@,
                index as int,
                next_duration,
                left,
                fuel as nat,
            ),
            goal == slot_walked_forward(
                durations@,
                offsets@,
                from as int,
                first_next,
                remaining,
                MAX_FRAME_STEPS as nat,
            ),
        decreases fuel,
    {
        index = if index + 1 >= count {
            0
        } else {
            index + 1
        };
        let threshold = next_duration.larger(S::clip_epsilon());
        if fuel == 0 || left.lt(threshold) {
            return LoopClock {
                frame_index: index,
                elapsed: left.smaller(next_duration),
                duration: next_duration,
                offset: offsets[index],
            };
        }
        left = left.minus(threshold);
        let peek: usize = if index + 1 >= count {
            0
        } else {
            index + 1
        };
        next_duration = durations[peek];
        fuel = fuel - 1;
    }
}

fn slot_walk_backward<S: Scalar>(durations: &Vec<S>, offsets: &Vec<S>, from: usize, remaining: S) -> (r:
    LoopClock<S>)
    requires
        from < durations@.len(),
        offsets@.len() == durations@.len(),
    ensures
        r == slot_walked_backward(
            durations@,
            offsets@,
            from as int,
            remaining,
            MAX_FRAME_STEPS as nat,
        ),
        r.frame_index < durations@.len(),
{
    let count: usize = durations.len();
    let mut index: usize = from;
    let mut left = remaining;
    let mut fuel: u64 = MAX_FRAME_STEPS;
    let ghost goal = slot_walked_backward(
        durations@,
        offsets@,
        from as int,
        remaining,
        MAX_FRAME_STEPS as nat,
    );
    loop
        invariant
            index < count,
            count == durations@.len(),
            offsets@.len() == durations@.len(),
            goal == slot_walked_backward(durations@, offsets@, index as int, left, fuel as nat),
            goal == slot_walked_backward(
                durations@,
                offsets@,
                from as int,
                remaining,
                MAX_FRAME_STEPS as nat,
            ),
        decreases fuel,
    {
        index = if index == 0 {
            count - 1
        } else {
            index - 1
        };
        let duration = durations[index];
        let threshold = duration.larger(S::clip_epsilon());
        if fuel == 0 || left.le(threshold) {
            return LoopClock {
                frame_index: index,
                elapsed: duration.minus(left).larger(S::zero()),
                duration,
                offset: offsets[index],
            };
        }
        left = left.minus(threshold);
        fuel = fuel - 1;
    }
}

impl<S: Scalar> AnimatorPlace<S> {
    /// The place after a short step taken in scalar arithmetic, and whether a frame is entered.
    pub open spec fn walked(self, source: AnimatorSource<S>, delta: S) -> (Self, bool) {
        let zero = S::zero_spec();
        let eps = S::clip_epsilon_spec();
        let hot = self.hot;
        let moved = hot.elapsed_in_frame.plus_spec(delta);
        let threshold = hot.current_duration.larger_spec(eps);
        if zero.lt_spec(delta) {
            if moved.lt_spec(threshold) {
                (
                    AnimatorPlace {
                        hot: AnimatorHot {
                            elapsed_in_frame: moved.smaller_spec(hot.current_duration),
                            ..hot
                        },
                        fixed: self.fixed,
                    },
                    false,
                )
            } else {
                let clock = slot_walked_forward(
                    source.frame_durations@,
                    source.frame_offsets@,
                    hot.frame_index as int,
                    hot.next_frame_duration.larger_spec(eps),
                    moved.minus_spec(threshold),
                    MAX_FRAME_STEPS as nat,
                );
                (
                    (AnimatorPlace {
                        hot: hot.at_clock(clock),
                        fixed: self.fixed,
                    }).next_refreshed(source),
                    true,
                )
            }
        } else if eps.negated_spec().le_spec(moved) {
            (
                AnimatorPlace {
                    hot: AnimatorHot { elapsed_in_frame: moved.larger_spec(zero), ..hot },
                    fixed: self.fixed,
                },
                false,
            )
        } else {
            let clock = slot_walked_backward(
                source.frame_durations@,
                source.frame_offsets@,
                hot.frame_index as int,
                moved.negated_spec(),
                MAX_FRAME_STEPS as nat,
            );
            (
                (AnimatorPlace { hot: hot.at_clock(clock), fixed: self.fixed }).next_refreshed(
                    source,
                ),
                true,
            )
        }
    }
}

fn walk_slot<S: Scalar>(
    hot: &mut AnimatorHot<S>,
    fixed: &mut AnimatorFixed,
    source: &AnimatorSource<S>,
    delta: S,
) -> (entered: bool)
    requires
        source.wf(),
        old(hot).frame_index < source.frame_durations@.len(),
    ensures
        (AnimatorPlace { hot: *final(hot), fixed: *final(fixed) }, entered) == (AnimatorPlace {
            hot: *old(hot),
            fixed: *old(fixed),
        }).walked(*source, delta),
        final(hot).frame_index < source.frame_durations@.len(),
{
    let zero = S::zero();
    let eps = S::clip_epsilon();
    let moved = hot.elapsed_in_frame.plus(delta);
    let clock = if zero.lt(delta) {
        let threshold = hot.current_duration.larger(eps);
        if moved.lt(threshold) {
            hot.elapsed_in_frame = moved.smaller(hot.current_duration);
            return false;
        }
        slot_walk_forward(
            &source.frame_durations,
            &source.frame_offsets,
            hot.frame_index as usize,
            hot.next_frame_duration.larger(eps),
            moved.minus(threshold),
        )
    } else {
        if eps.negated().le(moved) {
            hot.elapsed_in_frame = moved.larger(zero);
            return false;
        }
        slot_walk_backward(
            &source.frame_durations,
            &source.frame_offsets,
            hot.frame_index as usize,
            moved.negated(),
        )
    };
    hot.frame_index = clock.frame_index as u32;
    hot.elapsed_in_frame = clock.elapsed;
    hot.current_duration = clock.duration;
    hot.current_frame_offset = clock.offset;
    refresh_next_frame_duration(hot, fixed, source);
    true
}

/// A place in a loop of frames, in whole fixed-point units.
pub struct FixedPlace {
    pub index: int,
    pub duration: int,
    pub elapsed: int,
}

pub open spec fn at_least_one(x: int) -> int {
    if x < 1 {
        1
    } else {
        x
    }
}

/// Frame by frame forward from behind `index`, with `next_duration` for the frame that comes: the
/// frame that covers what remains, and what of it is spent there.
pub open spec fn fixed_forward(
    durations: Seq<u32>,
    index: int,
    next_duration: int,
    remaining: int,
) -> FixedPlace
    decreases remaining,
{
    let count = durations.len() as int;
    let next = crate::sprite_loop::next_in_loop(index, count);
    let duration = at_least_one(next_duration);
    if remaining < duration {
        FixedPlace { index: next, duration, elapsed: remaining }
    } else {
        fixed_forward(
            durations,
            next,
            durations[crate::sprite_loop::next_in_loop(next, count)] as int,
            remaining - duration,
        )
    }
}

/// The time that the frames passed by `fixed_forward` last.
pub open spec fn fixed_passed(
    durations: Seq<u32>,
    index: int,
    next_duration: int,
    remaining: int,
) -> int
    decreases remaining,
{
    let count = durations.len() as int;
    let next = crate::sprite_loop::next_in_loop(index, count);
    let duration = at_least_one(next_duration);
    if remaining < duration {
        0
    } else {
        duration + fixed_passed(
            durations,
            next,
            durations[crate::sprite_loop::next_in_loop(next, count)] as int,
            remaining - duration,
        )
    }
}

/// In fixed point no time is lost or made: what was to go is what the passed frames last and what
/// is spent in the frame reached, which is less than that frame lasts.
pub proof fn law_fixed_forward_keeps_time(
    durations: Seq<u32>,
    index: int,
    next_duration: int,
    remaining: int,
)
    requires
        0 <= index < durations.len(),
        0 <= remaining,
    ensures
        ({
            let place = fixed_forward(durations, index, next_duration, remaining);
            &&& fixed_passed(durations, index, next_duration, remaining) + place.elapsed
                == remaining
            &&& 0 <= place.elapsed < place.duration
            &&& 0 <= place.index < durations.len()
        }),
    decreases remaining,
{
    let count = durations.len() as int;
    let next = crate::sprite_loop::next_in_loop(index, count);
    let duration = at_least_one(next_duration);
    if remaining >= duration {
        law_fixed_forward_keeps_time(
            durations,
            next,
            durations[crate::sprite_loop::next_in_loop(next, count)] as int,
            remaining - duration,
        );
    }
}

/// Frame by frame backward from before `index`; `remaining` counts from the end of the frame that
/// is entered.
pub open spec fn fixed_backward(durations: Seq<u32>, index: int, remaining: int) -> FixedPlace
    decreases remaining,
{
    let prev = crate::sprite_loop::prev_in_loop(index, durations.len() as int);
    let duration = at_least_one(durations[prev] as int);
    if remaining <= duration {
        FixedPlace { index: prev, duration, elapsed: duration - remaining }
    } else {
        fixed_backward(durations, prev, remaining - duration)
    }
}

proof fn lemma_fixed_backward_range(durations: Seq<u32>, index: int, remaining: int)
    requires
        0 <= index < durations.len(),
        0 < remaining,
    ensures
        ({
            let place = fixed_backward(durations, index, remaining);
            &&& 0 <= place.index < durations.len()
            &&& 0 <= place.elapsed < place.duration <= u32::MAX
        }),
    decreases remaining,
{
    let prev = crate::sprite_loop::prev_in_loop(index, durations.len() as int);
    let duration = at_least_one(durations[prev] as int);
    if remaining > duration {
        lemma_fixed_backward_range(durations, prev, remaining - duration);
    }
}

fn fixed_walk_forward(durations: &Vec<u32>, from: usize, first_next: u32, remaining: u64) -> (r: (
    usize,
    u32,
    u32,
))
    requires
        from < durations@.len(),
    ensures
        ({
            let place = fixed_forward(durations@, from as int, first_next as int, remaining as int);
            r.0 == place.index && r.1 == place.duration && r.2 == place.elapsed
        }),
        r.0 < durations@.len(),
{
    let count: usize = durations.len();
    let mut index: usize = from;
    let mut next_duration: u32 = first_next;
    let mut left: u64 = remaining;
    let ghost goal = fixed_forward(durations@, from as int, first_next as int, remaining as int);
    loop
        invariant
            index < count,
            count == durations@.len(),
            goal == fixed_forward(durations@, index as int, next_duration as int, left as int),
            goal == fixed_forward(durations@, from as int, first_next as int, remaining as int),
        decreases left,
    {
        index = if index + 1 >= count {
            0
        } else {
            index + 1
        };
        let duration: u32 = if next_duration < FP_CLIP_EPSILON {
            FP_CLIP_EPSILON
        } else {
            next_duration
        };
        if left < duration as u64 {
            return (index, duration, left as u32);
        }
        left = left - duration as u64;
        let peek: usize = if index + 1 >= count {
            0
        } else {
            index + 1
        };
        next_duration = durations[peek];
    }
}

fn fixed_walk_backward(durations: &Vec<u32>, from: usize, remaining: u64) -> (r: (
    usize,
    u32,
    u32,
))
    requires
        from < durations@.len(),
        0 < remaining,
    ensures
        ({
            let place = fixed_backward(durations@, from as int, remaining as int);
            r.0 == place.index && r.1 == place.duration && r.2 == place.elapsed
        }),
        r.0 < durations@.len(),
{
    let count: usize = durations.len();
    let mut index: usize = from;
    let mut left: u64 = remaining;
    let ghost goal = fixed_backward(durations@, from as int, remaining as int);
    loop
        invariant
            index < count,
            count == durations@.len(),
            0 < left,
            goal == fixed_backward(durations@, index as int, left as int),
            goal == fixed_backward(durations@, from as int, remaining as int),
        decreases left,
    {
        index = if index == 0 {
            count - 1
        } else {
            index - 1
        };
        let raw: u32 = durations[index];
        let duration: u32 = if raw < FP_CLIP_EPSILON {
            FP_CLIP_EPSILON
        } else {
            raw
        };
        if left <= duration as u64 {
            return (index, duration, duration - left as u32);
        }
        left = left - duration as u64;
    }
}

impl<S: Scalar> AnimatorPlace<S> {
    /// The place with `elapsed` fixed-point units spent in the current frame.
    pub open spec fn fixed_within(self, elapsed: int) -> Self {
        AnimatorPlace {
            hot: AnimatorHot {
                elapsed_in_frame: S::from_fixed_spec(elapsed as u32),
                current_frame_offset: S::from_fixed_spec(self.fixed.offset),
                ..self.hot
            },
            fixed: AnimatorFixed { elapsed: elapsed as u32, ..self.fixed },
        }
    }

    /// The place moved to another frame by fixed-point steps.
    pub open spec fn fixed_entered(self, source: AnimatorSource<S>, place: FixedPlace) -> Self {
        let offset = source.frame_offsets_fp@[place.index];
        (AnimatorPlace {
            hot: AnimatorHot {
                frame_index: place.index as u32,
                elapsed_in_frame: S::from_fixed_spec(place.elapsed as u32),
                current_duration: S::from_fixed_spec(place.duration as u32),
                current_frame_offset: S::from_fixed_spec(offset),
                ..self.hot
            },
            fixed: AnimatorFixed {
                elapsed: place.elapsed as u32,
                duration: place.duration as u32,
                offset,
                ..self.fixed
            },
        }).next_refreshed(source)
    }

    /// The place after a short step taken in fixed point, and whether a frame is entered.
    pub open spec fn fixed_walked(self, source: AnimatorSource<S>, delta: S) -> (Self, bool) {
        let duration = at_least_one(self.fixed.duration as int);
        if S::zero_spec().lt_spec(delta) {
            let moved = self.fixed.elapsed + delta.to_fixed_spec();
            if moved < duration {
                (self.fixed_within(moved), false)
            } else {
                (
                    self.fixed_entered(
                        source,
                        fixed_forward(
                            source.frame_durations_fp@,
                            self.hot.frame_index as int,
                            self.fixed.next_duration as int,
                            moved - duration,
                        ),
                    ),
                    true,
                )
            }
        } else {
            let moved = self.fixed.elapsed - delta.negated_spec().to_fixed_spec();
            if moved >= -1 {
                (
                    self.fixed_within(
                        if moved < 0 {
                            0
                        } else {
                            moved
                        },
                    ),
                    false,
                )
            } else {
                (
                    self.fixed_entered(
                        source,
                        fixed_backward(
                            source.frame_durations_fp@,
                            self.hot.frame_index as int,
                            -moved,
                        ),
                    ),
                    true,
                )
            }
        }
    }
}

fn enter_fixed_frame<S: Scalar>(
    hot: &mut AnimatorHot<S>,
    fixed: &mut AnimatorFixed,
    source: &AnimatorSource<S>,
    index: usize,
    duration: u32,
    elapsed: u32,
)
    requires
        source.wf(),
        index < source.frame_durations@.len(),
    ensures
        (AnimatorPlace { hot: *final(hot), fixed: *final(fixed) }) == (AnimatorPlace {
            hot: *old(hot),
            fixed: *old(fixed),
        }).fixed_entered(
            *source,
            (FixedPlace { index: index as int, duration: duration as int, elapsed: elapsed as int }),
        ),
        final(hot).frame_index == index,
{
    hot.frame_index = index as u32;
    fixed.duration = duration;
    hot.current_duration = S::from_fixed(duration);
    fixed.offset = source.frame_offsets_fp[index];
    hot.current_frame_offset = S::from_fixed(fixed.offset);
    fixed.elapsed = elapsed;
    hot.elapsed_in_frame = S::from_fixed(elapsed);
    refresh_next_frame_duration(hot, fixed, source);
}

fn stay_in_fixed_frame<S: Scalar>(hot: &mut AnimatorHot<S>, fixed: &mut AnimatorFixed, elapsed: u32)
    ensures
        (AnimatorPlace { hot: *final(hot), fixed: *final(fixed) }) == (AnimatorPlace {
            hot: *old(hot),
            fixed: *old(fixed),
        }).fixed_within(elapsed as int),
{
    fixed.elapsed = elapsed;
    hot.elapsed_in_frame = S::from_fixed(elapsed);
    hot.current_frame_offset = S::from_fixed(fixed.offset);
}

fn fixed_walk_slot<S: Scalar>(
    hot: &mut AnimatorHot<S>,
    fixed: &mut AnimatorFixed,
    source: &AnimatorSource<S>,
    delta: S,
) -> (entered: bool)
    requires
        source.wf(),
        old(hot).frame_index < source.frame_durations@.len(),
    ensures
        (AnimatorPlace { hot: *final(hot), fixed: *final(fixed) }, entered) == (AnimatorPlace {
            hot: *old(hot),
            fixed: *old(fixed),
        }).fixed_walked(*source, delta),
        final(hot).frame_index < source.frame_durations@.len(),
{
    if S::zero().lt(delta) {
        let moved: u64 = fixed.elapsed as u64 + delta.to_fixed() as u64;
        let duration: u32 = if fixed.duration < FP_CLIP_EPSILON {
            FP_CLIP_EPSILON
        } else {
            fixed.duration
        };
        if moved < duration as u64 {
            stay_in_fixed_frame(hot, fixed, moved as u32);
            return false;
        }
        let (index, reached, elapsed) = fixed_walk_forward(
            &source.frame_durations_fp,
            hot.frame_index as usize,
            fixed.next_duration,
            moved - duration as u64,
        );
        enter_fixed_frame(hot, fixed, source, index, reached, elapsed);
        true
    } else {
        let back: u64 = delta.negated().to_fixed() as u64;
        let moved: i64 = fixed.elapsed as i64 - back as i64;
        if moved >= -1 {
            let elapsed: u32 = if moved < 0 {
                0
            } else {
                moved as u32
            };
            stay_in_fixed_frame(hot, fixed, elapsed);
            return false;
        }
        let (index, reached, elapsed) = fixed_walk_backward(
            &source.frame_durations_fp,
            hot.frame_index as usize,
            (-moved) as u64,
        );
        enter_fixed_frame(hot, fixed, source, index, reached, elapsed);
        true
    }
}

impl<S: Scalar> AnimatorSource<S> {
    /// Whether a step covers so many rounds of the loop that walking is not worth it.
    pub open spec fn is_long_step(self, delta: S) -> bool {
        self.total_duration.larger_spec(S::machine_epsilon_spec()).times_spec(
            S::from_count_spec(4),
        ).le_spec(delta.magnitude_spec())
    }
}

impl<S: Scalar> AnimatorPlace<S> {
    /// The place after a step of `delta`, whether a frame is entered, and the recorder.
    pub open spec fn advanced(
        self,
        source: AnimatorSource<S>,
        flags: SpriteAnimatorFlags,
        fixed_point: bool,
        delta: S,
        recorder: AnimationRecorder<S>,
    ) -> (Self, bool, AnimationRecorder<S>) {
        let called = crate::sprite_advance::loop_recorded(recorder, false);
        if delta.same_spec(S::zero_spec()) || !flags.has(PLAYING) || source.frame_durations@.len()
            == 0 {
            (self, false, recorder)
        } else if source.is_long_step(delta) {
            let (place, jump) = self.jumped(source, delta);
            (
                place,
                jump.changed,
                crate::sprite_advance::loop_recorded(
                    crate::sprite_advance::mod_recorded(called),
                    jump.wrapped,
                ),
            )
        } else if fixed_point {
            let (place, entered) = self.fixed_walked(source, delta);
            (place, entered, called)
        } else {
            let (place, entered) = self.walked(source, delta);
            (place, entered, called)
        }
    }
}

/// Moves one animator by `delta`; says whether it shows another frame.
pub fn advance_animation_fast_loop_slot<S: Scalar>(
    hot: &mut AnimatorHot<S>,
    fixed: &mut AnimatorFixed,
    source: &AnimatorSource<S>,
    flags: SpriteAnimatorFlags,
    fixed_point: bool,
    delta: S,
    recorder: &mut AnimationRecorder<S>,
) -> (entered: bool)
    requires
        source.wf(),
        source.frame_durations@.len() > 0 ==> old(hot).frame_index < source.frame_durations@.len(),
    ensures
        (
            AnimatorPlace { hot: *final(hot), fixed: *final(fixed) },
            entered,
            *final(recorder),
        ) == (AnimatorPlace { hot: *old(hot), fixed: *old(fixed) }).advanced(
            *source,
            flags,
            fixed_point,
            delta,
            *old(recorder),
        ),
        source.frame_durations@.len() > 0 ==> final(hot).frame_index
            < source.frame_durations@.len(),
{
    if delta.same(S::zero()) || !flags.playing() {
        return false;
    }
    if source.frame_durations.len() == 0 {
        return false;
    }
    record_fast_loop_call(recorder, 1);
    let total = source.total_duration.larger(S::machine_epsilon());
    if total.times(S::from_count(4)).le(delta.magnitude()) {
        perf_record_mod_or_div(recorder);
        return jump_slot(hot, fixed, source, delta, recorder);
    }
    if fixed_point {
        fixed_walk_slot(hot, fixed, source, delta)
    } else {
        walk_slot(hot, fixed, source, delta)
    }
}

impl<S: Scalar> AnimatorPlace<S> {
    /// The whole frames that a step covers when every frame lasts `const_dt_duration_fp`.
    pub open spec fn even_steps(self, source: AnimatorSource<S>, delta: S) -> int {
        (self.fixed.elapsed + delta.to_fixed_spec()) / at_least_one(
            source.const_dt_duration_fp as int,
        )
    }

    /// The place after a step through frames that all last the same: the frame index moves by the
    /// whole frames covered, round the loop, and the rest is spent in the frame reached.
    pub open spec fn even_advanced(self, source: AnimatorSource<S>, delta: S) -> Self {
        let dt = at_least_one(source.const_dt_duration_fp as int);
        let total = self.fixed.elapsed + delta.to_fixed_spec();
        let frames = at_least_one(source.const_dt_frame_count as int);
        let index = (self.hot.frame_index + self.even_steps(source, delta)) % frames;
        let elapsed = (total % dt) as u32;
        let duration = if index < source.frame_durations@.len() {
            source.frame_durations@[index]
        } else {
            source.const_dt_duration
        };
        let duration_fp = if index < source.frame_durations_fp@.len() {
            source.frame_durations_fp@[index]
        } else {
            dt as u32
        };
        AnimatorPlace {
            hot: AnimatorHot {
                frame_index: index as u32,
                elapsed_in_frame: S::from_fixed_spec(elapsed),
                current_duration: duration,
                current_frame_offset: if index < source.frame_offsets@.len() {
                    source.frame_offsets@[index]
                } else {
                    S::zero_spec()
                },
                next_frame_duration: duration,
                ..self.hot
            },
            fixed: AnimatorFixed {
                elapsed,
                duration: duration_fp,
                offset: if index < source.frame_offsets_fp@.len() {
                    source.frame_offsets_fp@[index]
                } else {
                    0
                },
                next_duration: duration_fp,
            },
        }
    }
}

/// Moves one animator whose frames all last the same; says whether a frame boundary is crossed.
pub fn advance_const_dt_slot<S: Scalar>(
    hot: &mut AnimatorHot<S>,
    fixed: &mut AnimatorFixed,
    source: &AnimatorSource<S>,
    delta: S,
) -> (crossed: bool)
    ensures
        (AnimatorPlace { hot: *final(hot), fixed: *final(fixed) }) == (AnimatorPlace {
            hot: *old(hot),
            fixed: *old(fixed),
        }).even_advanced(*source, delta),
        crossed == ((AnimatorPlace { hot: *old(hot), fixed: *old(fixed) }).even_steps(
            *source,
            delta,
        ) > 0),
        final(hot).frame_index < at_least_one(source.const_dt_frame_count as int),
{
    let dt: u32 = if source.const_dt_duration_fp < FP_CLIP_EPSILON {
        FP_CLIP_EPSILON
    } else {
        source.const_dt_duration_fp
    };
    let total: u64 = fixed.elapsed as u64 + delta.to_fixed() as u64;
    let steps: u64 = total / dt as u64;
    let elapsed: u32 = (total % dt as u64) as u32;
    let frames: u32 = if source.const_dt_frame_count < 1 {
        1
    } else {
        source.const_dt_frame_count
    };
    let advance: u64 = steps % frames as u64;
    let index: u64 = (hot.frame_index as u64 + advance) % frames as u64;
    proof {
        vstd::arithmetic::div_mod::lemma_add_mod_noop_right(
            hot.frame_index as int,
            steps as int,
            frames as int,
        );
        vstd::arithmetic::div_mod::lemma_mod_bound(total as int, dt as int);
    }
    let at: usize = index as usize;
    hot.frame_index = index as u32;
    fixed.elapsed = elapsed;
    hot.elapsed_in_frame = S::from_fixed(elapsed);
    hot.current_frame_offset = if at < source.frame_offsets.len() {
        source.frame_offsets[at]
    } else {
        S::zero()
    };
    fixed.offset = if at < source.frame_offsets_fp.len() {
        source.frame_offsets_fp[at]
    } else {
        0
    };
    let duration = if at < source.frame_durations.len() {
        source.frame_durations[at]
    } else {
        source.const_dt_duration
    };
    hot.current_duration = duration;
    hot.next_frame_duration = duration;
    let duration_fp: u32 = if at < source.frame_durations_fp.len() {
        source.frame_durations_fp[at]
    } else {
        dt
    };
    fixed.duration = duration_fp;
    fixed.next_duration = duration_fp;
    steps > 0
}

/// Over frames that all last `dt` the step is kept exactly: the frames covered and what is spent
/// in the last of them make up what was spent before and the step.
pub proof fn law_even_advance_keeps_time<S: Scalar>(
    place: AnimatorPlace<S>,
    source: AnimatorSource<S>,
    delta: S,
)
    ensures
        place.even_steps(source, delta) * at_least_one(source.const_dt_duration_fp as int)
            + place.even_advanced(source, delta).fixed.elapsed == place.fixed.elapsed
            + delta.to_fixed_spec(),
        place.even_advanced(source, delta).fixed.elapsed < at_least_one(
            source.const_dt_duration_fp as int,
        ),
{
    let dt = at_least_one(source.const_dt_duration_fp as int);
    let total = place.fixed.elapsed + delta.to_fixed_spec();
    vstd::arithmetic::div_mod::lemma_fundamental_div_mod(total, dt);
    vstd::arithmetic::div_mod::lemma_mod_bound(total, dt);
    assert(place.even_steps(source, delta) * dt == dt * (total / dt)) by (nonlinear_arith)
        requires
            place.even_steps(source, delta) == total / dt,
    ;
}

/// Where all frames last the same, walking from frame to frame and dividing the time by that
/// length reach the same frame at the same moment.
pub proof fn law_walking_and_dividing_agree(
    durations: Seq<u32>,
    index: int,
    length: u32,
    remaining: int,
)
    requires
        0 <= index < durations.len(),
        1 <= length,
        0 <= remaining,
        forall|i: int| 0 <= i < durations.len() ==> #[trigger] durations[i] == length,
    ensures
        ({
            let place = fixed_forward(durations, index, length as int, remaining);
            &&& place.index == (index + 1 + remaining / length as int) % durations.len() as int
            &&& place.elapsed == remaining % length as int
            &&& place.duration == length
        }),
    decreases remaining,
{
    let n = durations.len() as int;
    let d = length as int;
    let next = crate::sprite_loop::next_in_loop(index, n);
    assert(next == (index + 1) % n) by {
        if index + 1 < n {
            vstd::arithmetic::div_mod::lemma_small_mod((index + 1) as nat, n as nat);
        } else {
            vstd::arithmetic::div_mod::lemma_mod_self_0(n);
        }
    }
    if remaining < d {
        vstd::arithmetic::div_mod::lemma_basic_div(remaining, d);
        vstd::arithmetic::div_mod::lemma_small_mod(remaining as nat, d as nat);
    } else {
        let after = crate::sprite_loop::next_in_loop(next, n);
        assert(durations[after] == length);
        law_walking_and_dividing_agree(durations, next, length, remaining - d);
        vstd::arithmetic::div_mod::lemma_div_plus_one(remaining - d, d);
        vstd::arithmetic::div_mod::lemma_mod_sub_multiples_vanish(remaining, d);
        vstd::arithmetic::div_mod::lemma_add_mod_noop(index + 1, remaining / d, n);
        vstd::arithmetic::div_mod::lemma_mod_twice(index + 1, n);
        vstd::arithmetic::div_mod::lemma_add_mod_noop(next, remaining / d, n);
    }
}

} // verus!
