//! Statistics of the animation systems: running counters, and a sample per frame with a bounded
//! history.
use std::collections::VecDeque;
use vstd::prelude::*;
use crate::animation_time::AnimationDelta;
use crate::counts::{held_sum, held_sum_u64, held_total, held_total_u64, wrapping_sum, wrapping_total};
use crate::scalar::Scalar;
use crate::sprite::SpriteAnimationLoopMode;

verus! {

/// Counters of the sprite animation systems since they were last cleared.
#[derive(Clone, Copy, Debug, PartialEq, Eq, Structural)]
pub struct SpriteAnimationStats {
    pub fast_loop_calls: u64,
    pub event_calls: u64,
    pub plain_calls: u64,
    pub fast_loop_binary_searches: u64,
    pub fast_bucket_entities: u64,
    pub general_bucket_entities: u64,
    pub fast_bucket_frames: u64,
    pub general_bucket_frames: u64,
    pub frame_apply_count: u64,
    pub state_flush_calls: u64,
    pub state_flush_entities: u64,
    pub frame_apply_queue_drains: u64,
    pub frame_apply_queue_len: u64,
}

impl SpriteAnimationStats {
    pub open spec fn cleared() -> Self {
        SpriteAnimationStats {
            fast_loop_calls: 0,
            event_calls: 0,
            plain_calls: 0,
            fast_loop_binary_searches: 0,
            fast_bucket_entities: 0,
            general_bucket_entities: 0,
            fast_bucket_frames: 0,
            general_bucket_frames: 0,
            frame_apply_count: 0,
            state_flush_calls: 0,
            state_flush_entities: 0,
            frame_apply_queue_drains: 0,
            frame_apply_queue_len: 0,
        }
    }
}

impl Default for SpriteAnimationStats {
    fn default() -> (r: Self)
        ensures
            r == SpriteAnimationStats::cleared(),
    {
        SpriteAnimationStats {
            fast_loop_calls: 0,
            event_calls: 0,
            plain_calls: 0,
            fast_loop_binary_searches: 0,
            fast_bucket_entities: 0,
            general_bucket_entities: 0,
            fast_bucket_frames: 0,
            general_bucket_frames: 0,
            frame_apply_count: 0,
            state_flush_calls: 0,
            state_flush_entities: 0,
            frame_apply_queue_drains: 0,
            frame_apply_queue_len: 0,
        }
    }
}

/// Counters of the clip systems since they were last cleared.
#[derive(Clone, Copy, Debug, PartialEq, Eq, Structural)]
pub struct TransformClipStats {
    pub advance_calls: u64,
    pub zero_delta_calls: u64,
    pub skipped_clips: u64,
    pub looped_resume_clips: u64,
    pub zero_duration_clips: u64,
    pub fast_path_clips: u64,
    pub slow_path_clips: u64,
    pub segment_crosses: u64,
    pub advance_time_ns: u64,
    pub sample_time_ns: u64,
    pub apply_time_ns: u64,
}

impl TransformClipStats {
    pub open spec fn cleared() -> Self {
        TransformClipStats {
            advance_calls: 0,
            zero_delta_calls: 0,
            skipped_clips: 0,
            looped_resume_clips: 0,
            zero_duration_clips: 0,
            fast_path_clips: 0,
            slow_path_clips: 0,
            segment_crosses: 0,
            advance_time_ns: 0,
            sample_time_ns: 0,
            apply_time_ns: 0,
        }
    }
}

impl Default for TransformClipStats {
    fn default() -> (r: Self)
        ensures
            r == TransformClipStats::cleared(),
    {
        TransformClipStats {
            advance_calls: 0,
            zero_delta_calls: 0,
            skipped_clips: 0,
            looped_resume_clips: 0,
            zero_duration_clips: 0,
            fast_path_clips: 0,
            slow_path_clips: 0,
            segment_crosses: 0,
            advance_time_ns: 0,
            sample_time_ns: 0,
            apply_time_ns: 0,
        }
    }
}

#[derive(Clone, Copy, Debug, PartialEq, Eq, Structural)]
pub enum SpriteAnimStepKind {
    Variable,
    Fixed,
}

impl SpriteAnimStepKind {
    pub open spec fn code(self) -> u8 {
        match self {
            SpriteAnimStepKind::Variable => 0,
            SpriteAnimStepKind::Fixed => 1,
        }
    }

    pub fn as_u8(self) -> (r: u8)
        ensures
            r == self.code(),
    {
        match self {
            SpriteAnimStepKind::Variable => 0,
            SpriteAnimStepKind::Fixed => 1,
        }
    }

    pub open spec fn of_code(value: u8) -> Self {
        if value == 1 {
            SpriteAnimStepKind::Fixed
        } else {
            SpriteAnimStepKind::Variable
        }
    }

    pub fn from_u8(value: u8) -> (r: Self)
        ensures
            r == Self::of_code(value),
    {
        if value == 1 {
            SpriteAnimStepKind::Fixed
        } else {
            SpriteAnimStepKind::Variable
        }
    }
}

/// A step kind is read back from its code.
pub proof fn law_step_kind_round_trip(kind: SpriteAnimStepKind)
    ensures
        SpriteAnimStepKind::of_code(kind.code()) == kind,
{
}

#[derive(Clone, Copy, Debug)]
pub enum SpriteAnimDeltaKind<S> {
    Idle,
    Variable,
    Fixed { step: S, steps: u32 },
}

impl<S: Copy> SpriteAnimDeltaKind<S> {
    pub open spec fn of_delta(value: AnimationDelta<S>) -> Self {
        match value {
            AnimationDelta::Idle => SpriteAnimDeltaKind::Idle,
            AnimationDelta::Single(_) => SpriteAnimDeltaKind::Variable,
            AnimationDelta::Fixed { step, steps } => SpriteAnimDeltaKind::Fixed { step, steps },
        }
    }

    pub fn from_delta(value: AnimationDelta<S>) -> (r: Self)
        ensures
            r == Self::of_delta(value),
    {
        match value {
            AnimationDelta::Idle => SpriteAnimDeltaKind::Idle,
            AnimationDelta::Single(_) => SpriteAnimDeltaKind::Variable,
            AnimationDelta::Fixed { step, steps } => SpriteAnimDeltaKind::Fixed { step, steps },
        }
    }
}

/// What one frame of sprite animation did.
#[derive(Clone, Copy, Debug)]
pub struct SpriteAnimPerfSample<S> {
    pub frame_index: u64,
    pub delta_kind: SpriteAnimDeltaKind<S>,
    pub fast_animators: u32,
    pub slow_animators: u32,
    pub fast_bucket_frames: u32,
    pub general_bucket_frames: u32,
    pub var_dt_animators: u32,
    pub const_dt_animators: u32,
    pub ping_pong_animators: u32,
    pub events_heavy_animators: u32,
    pub mod_or_div_calls: u32,
    pub simd_lanes_8: u32,
    pub simd_lanes_4: u32,
    pub simd_tail_scalar: u32,
    pub simd_chunk_time_ns: u64,
    pub simd_scalar_time_ns: u64,
    pub events_emitted: u32,
    pub events_coalesced: u32,
    pub slow_ratio_streak: u32,
    pub tail_scalar_streak: u32,
    pub simd_supported: bool,
}

impl<S: Copy> SpriteAnimPerfSample<S> {
    pub open spec fn blank() -> Self {
        SpriteAnimPerfSample {
            frame_index: 0,
            delta_kind: SpriteAnimDeltaKind::Idle,
            fast_animators: 0,
            slow_animators: 0,
            fast_bucket_frames: 0,
            general_bucket_frames: 0,
            var_dt_animators: 0,
            const_dt_animators: 0,
            ping_pong_animators: 0,
            events_heavy_animators: 0,
            mod_or_div_calls: 0,
            simd_lanes_8: 0,
            simd_lanes_4: 0,
            simd_tail_scalar: 0,
            simd_chunk_time_ns: 0,
            simd_scalar_time_ns: 0,
            events_emitted: 0,
            events_coalesced: 0,
            slow_ratio_streak: 0,
            tail_scalar_streak: 0,
            simd_supported: false,
        }
    }

    pub fn new() -> (r: Self)
        ensures
            r == Self::blank(),
    {
        SpriteAnimPerfSample {
            frame_index: 0,
            delta_kind: SpriteAnimDeltaKind::Idle,
            fast_animators: 0,
            slow_animators: 0,
            fast_bucket_frames: 0,
            general_bucket_frames: 0,
            var_dt_animators: 0,
            const_dt_animators: 0,
            ping_pong_animators: 0,
            events_heavy_animators: 0,
            mod_or_div_calls: 0,
            simd_lanes_8: 0,
            simd_lanes_4: 0,
            simd_tail_scalar: 0,
            simd_chunk_time_ns: 0,
            simd_scalar_time_ns: 0,
            events_emitted: 0,
            events_coalesced: 0,
            slow_ratio_streak: 0,
            tail_scalar_streak: 0,
            simd_supported: false,
        }
    }

    pub fn record_fast_bucket_frame(&mut self)
        ensures
            *final(self) == (SpriteAnimPerfSample {
                fast_bucket_frames: held_sum(old(self).fast_bucket_frames, 1),
                ..*old(self)
            }),
    {
        self.fast_bucket_frames = held_total(self.fast_bucket_frames, 1);
    }

    pub fn record_general_bucket_frame(&mut self)
        ensures
            *final(self) == (SpriteAnimPerfSample {
                general_bucket_frames: held_sum(old(self).general_bucket_frames, 1),
                ..*old(self)
            }),
    {
        self.general_bucket_frames = held_total(self.general_bucket_frames, 1);
    }

    pub fn record_events(&mut self, emitted: u32, coalesced: u32)
        ensures
            *final(self) == (SpriteAnimPerfSample {
                events_emitted: held_sum(old(self).events_emitted, emitted),
                events_coalesced: held_sum(old(self).events_coalesced, coalesced),
                ..*old(self)
            }),
    {
        self.events_emitted = held_total(self.events_emitted, emitted);
        self.events_coalesced = held_total(self.events_coalesced, coalesced);
    }

    pub fn record_mod_call(&mut self)
        ensures
            *final(self) == (SpriteAnimPerfSample {
                mod_or_div_calls: held_sum(old(self).mod_or_div_calls, 1),
                ..*old(self)
            }),
    {
        self.mod_or_div_calls = held_total(self.mod_or_div_calls, 1);
    }

    pub fn record_simd_mix(&mut self, lanes8: u32, lanes4: u32, tail: u32)
        ensures
            *final(self) == (SpriteAnimPerfSample {
                simd_lanes_8: held_sum(old(self).simd_lanes_8, lanes8),
                simd_lanes_4: held_sum(old(self).simd_lanes_4, lanes4),
                simd_tail_scalar: held_sum(old(self).simd_tail_scalar, tail),
                ..*old(self)
            }),
    {
        self.simd_lanes_8 = held_total(self.simd_lanes_8, lanes8);
        self.simd_lanes_4 = held_total(self.simd_lanes_4, lanes4);
        self.simd_tail_scalar = held_total(self.simd_tail_scalar, tail);
    }

    pub fn record_simd_chunk_time(&mut self, time_ns: u64)
        ensures
            *final(self) == (SpriteAnimPerfSample {
                simd_chunk_time_ns: held_sum_u64(old(self).simd_chunk_time_ns, time_ns),
                ..*old(self)
            }),
    {
        self.simd_chunk_time_ns = held_total_u64(self.simd_chunk_time_ns, time_ns);
    }

    pub fn record_simd_scalar_time(&mut self, time_ns: u64)
        ensures
            *final(self) == (SpriteAnimPerfSample {
                simd_scalar_time_ns: held_sum_u64(old(self).simd_scalar_time_ns, time_ns),
                ..*old(self)
            }),
    {
        self.simd_scalar_time_ns = held_total_u64(self.simd_scalar_time_ns, time_ns);
    }

    pub open spec fn with_step(self, step_kind: SpriteAnimStepKind) -> Self {
        match step_kind {
            SpriteAnimStepKind::Variable => SpriteAnimPerfSample {
                var_dt_animators: held_sum(self.var_dt_animators, 1),
                ..self
            },
            SpriteAnimStepKind::Fixed => SpriteAnimPerfSample {
                const_dt_animators: held_sum(self.const_dt_animators, 1),
                ..self
            },
        }
    }

    pub fn record_step_kind(&mut self, step_kind: SpriteAnimStepKind)
        ensures
            *final(self) == old(self).with_step(step_kind),
    {
        match step_kind {
            SpriteAnimStepKind::Variable => {
                self.var_dt_animators = held_total(self.var_dt_animators, 1);
            },
            SpriteAnimStepKind::Fixed => {
                self.const_dt_animators = held_total(self.const_dt_animators, 1);
            },
        }
    }

    pub open spec fn with_fast_animator(self, step_kind: SpriteAnimStepKind) -> Self {
        (SpriteAnimPerfSample {
            fast_animators: held_sum(self.fast_animators, 1),
            ..self
        }).with_step(step_kind)
    }

    pub fn record_fast_animator(&mut self, step_kind: SpriteAnimStepKind)
        ensures
            *final(self) == old(self).with_fast_animator(step_kind),
    {
        self.fast_animators = held_total(self.fast_animators, 1);
        self.record_step_kind(step_kind);
    }

    pub open spec fn with_general_animator(
        self,
        mode: SpriteAnimationLoopMode,
        has_events: bool,
        step_kind: SpriteAnimStepKind,
    ) -> Self {
        SpriteAnimPerfSample {
            slow_animators: held_sum(self.slow_animators, 1),
            ping_pong_animators: if mode is PingPong {
                held_sum(self.ping_pong_animators, 1)
            } else {
                self.ping_pong_animators
            },
            events_heavy_animators: if has_events {
                held_sum(self.events_heavy_animators, 1)
            } else {
                self.events_heavy_animators
            },
            ..self.with_step(step_kind)
        }
    }

    pub fn record_general_animator(
        &mut self,
        mode: SpriteAnimationLoopMode,
        has_events: bool,
        step_kind: SpriteAnimStepKind,
    )
        ensures
            *final(self) == old(self).with_general_animator(mode, has_events, step_kind),
    {
        self.slow_animators = held_total(self.slow_animators, 1);
        self.record_step_kind(step_kind);
        if matches!(mode, SpriteAnimationLoopMode::PingPong) {
            self.ping_pong_animators = held_total(self.ping_pong_animators, 1);
        }
        if has_events {
            self.events_heavy_animators = held_total(self.events_heavy_animators, 1);
        }
    }

    pub fn total_animators(&self) -> (r: u32)
        ensures
            r == held_sum(self.fast_animators, self.slow_animators),
    {
        held_total(self.fast_animators, self.slow_animators)
    }
}

impl<S: Scalar> SpriteAnimPerfSample<S> {
    pub open spec fn slow_share(self) -> S {
        let total = held_sum(self.fast_animators, self.slow_animators);
        if total == 0 {
            S::zero_spec()
        } else {
            S::from_count_spec(self.slow_animators as usize).over_spec(
                S::from_count_spec(total as usize),
            )
        }
    }

    /// The share of animators that took the general path.
    pub fn slow_ratio(&self) -> (r: S)
        ensures
            r == self.slow_share(),
    {
        let total: u32 = self.total_animators();
        if total == 0 {
            S::zero()
        } else {
            S::from_count(self.slow_animators as usize).over(S::from_count(total as usize))
        }
    }

    pub open spec fn tail_share(self) -> S {
        if self.fast_animators == 0 {
            S::zero_spec()
        } else {
            S::from_count_spec(self.simd_tail_scalar as usize).over_spec(
                S::from_count_spec(self.fast_animators as usize),
            )
        }
    }

    /// The share of fast animators that were left over from full lanes.
    pub fn tail_scalar_ratio(&self) -> (r: S)
        ensures
            r == self.tail_share(),
    {
        if self.fast_animators == 0 {
            S::zero()
        } else {
            S::from_count(self.simd_tail_scalar as usize).over(
                S::from_count(self.fast_animators as usize),
            )
        }
    }
}

/// Where the animation systems leave their counts.
pub struct AnimationRecorder<S> {
    pub sprite: SpriteAnimationStats,
    pub clips: TransformClipStats,
    /// The sample of the running frame, when one is taken.
    pub perf: Option<SpriteAnimPerfSample<S>>,
    pub step_kind: u8,
}

impl<S> AnimationRecorder<S> {
    pub fn new() -> (r: Self)
        ensures
            r.sprite == SpriteAnimationStats::cleared(),
            r.clips == TransformClipStats::cleared(),
            r.perf is None,
            r.step_kind == SpriteAnimStepKind::Variable.code(),
    {
        AnimationRecorder {
            sprite: SpriteAnimationStats::default(),
            clips: TransformClipStats::default(),
            perf: None,
            step_kind: SpriteAnimStepKind::Variable.as_u8(),
        }
    }
}

pub fn sprite_animation_stats_snapshot<S>(recorder: &AnimationRecorder<S>) -> (r:
    SpriteAnimationStats)
    ensures
        r == recorder.sprite,
{
    recorder.sprite
}

pub fn reset_sprite_animation_stats<S>(recorder: &mut AnimationRecorder<S>)
    ensures
        *final(recorder) == (AnimationRecorder {
            sprite: SpriteAnimationStats::cleared(),
            ..*old(recorder)
        }),
{
    recorder.sprite = SpriteAnimationStats::default();
}

pub fn transform_clip_stats_snapshot<S>(recorder: &AnimationRecorder<S>) -> (r: TransformClipStats)
    ensures
        r == recorder.clips,
{
    recorder.clips
}

pub fn reset_transform_clip_stats<S>(recorder: &mut AnimationRecorder<S>)
    ensures
        *final(recorder) == (AnimationRecorder {
            clips: TransformClipStats::cleared(),
            ..*old(recorder)
        }),
{
    recorder.clips = TransformClipStats::default();
}

pub open spec fn nanos_held(nanos: u128) -> u64 {
    if nanos > u64::MAX {
        u64::MAX
    } else {
        nanos as u64
    }
}

fn hold_nanos(nanos: u128) -> (r: u64)
    ensures
        r == nanos_held(nanos),
{
    if nanos > 18446744073709551615u128 {
        u64::MAX
    } else {
        nanos as u64
    }
}

pub fn record_fast_loop_call<S>(recorder: &mut AnimationRecorder<S>, count: u64)
    ensures
        *final(recorder) == (AnimationRecorder {
            sprite: SpriteAnimationStats {
                fast_loop_calls: wrapping_sum(old(recorder).sprite.fast_loop_calls, count),
                ..old(recorder).sprite
            },
            ..*old(recorder)
        }),
{
    recorder.sprite.fast_loop_calls = wrapping_total(recorder.sprite.fast_loop_calls, count);
}

pub fn record_event_call<S>(recorder: &mut AnimationRecorder<S>, count: u64)
    ensures
        *final(recorder) == (AnimationRecorder {
            sprite: SpriteAnimationStats {
                event_calls: wrapping_sum(old(recorder).sprite.event_calls, count),
                ..old(recorder).sprite
            },
            ..*old(recorder)
        }),
{
    recorder.sprite.event_calls = wrapping_total(recorder.sprite.event_calls, count);
}

pub fn record_plain_call<S>(recorder: &mut AnimationRecorder<S>, count: u64)
    ensures
        *final(recorder) == (AnimationRecorder {
            sprite: SpriteAnimationStats {
                plain_calls: wrapping_sum(old(recorder).sprite.plain_calls, count),
                ..old(recorder).sprite
            },
            ..*old(recorder)
        }),
{
    recorder.sprite.plain_calls = wrapping_total(recorder.sprite.plain_calls, count);
}

pub fn record_fast_loop_binary_search<S>(recorder: &mut AnimationRecorder<S>, count: u64)
    ensures
        *final(recorder) == (AnimationRecorder {
            sprite: SpriteAnimationStats {
                fast_loop_binary_searches: wrapping_sum(old(recorder).sprite.fast_loop_binary_searches, count),
                ..old(recorder).sprite
            },
            ..*old(recorder)
        }),
{
    recorder.sprite.fast_loop_binary_searches = wrapping_total(recorder.sprite.fast_loop_binary_searches, count);
}

pub fn record_sprite_frame_applies<S>(recorder: &mut AnimationRecorder<S>, count: u64)
    ensures
        *final(recorder) == (AnimationRecorder {
            sprite: SpriteAnimationStats {
                frame_apply_count: wrapping_sum(old(recorder).sprite.frame_apply_count, count),
                ..old(recorder).sprite
            },
            ..*old(recorder)
        }),
{
    recorder.sprite.frame_apply_count = wrapping_total(recorder.sprite.frame_apply_count, count);
}

pub fn record_fast_bucket_sample<S>(recorder: &mut AnimationRecorder<S>, count: u64)
    ensures
        *final(recorder) == (AnimationRecorder {
            sprite: SpriteAnimationStats {
                fast_bucket_entities: wrapping_sum(old(recorder).sprite.fast_bucket_entities, count),
                fast_bucket_frames: wrapping_sum(old(recorder).sprite.fast_bucket_frames, 1),
                ..old(recorder).sprite
            },
            ..*old(recorder)
        }),
{
    recorder.sprite.fast_bucket_entities = wrapping_total(recorder.sprite.fast_bucket_entities, count);
    recorder.sprite.fast_bucket_frames = wrapping_total(recorder.sprite.fast_bucket_frames, 1);
}

pub fn record_general_bucket_sample<S>(recorder: &mut AnimationRecorder<S>, count: u64)
    ensures
        *final(recorder) == (AnimationRecorder {
            sprite: SpriteAnimationStats {
                general_bucket_entities: wrapping_sum(old(recorder).sprite.general_bucket_entities, count),
                general_bucket_frames: wrapping_sum(old(recorder).sprite.general_bucket_frames, 1),
                ..old(recorder).sprite
            },
            ..*old(recorder)
        }),
{
    recorder.sprite.general_bucket_entities = wrapping_total(recorder.sprite.general_bucket_entities, count);
    recorder.sprite.general_bucket_frames = wrapping_total(recorder.sprite.general_bucket_frames, 1);
}

pub fn record_sprite_state_flush<S>(recorder: &mut AnimationRecorder<S>, batch_len: usize)
    ensures
        *final(recorder) == (AnimationRecorder {
            sprite: SpriteAnimationStats {
                state_flush_calls: wrapping_sum(old(recorder).sprite.state_flush_calls, 1),
                state_flush_entities: wrapping_sum(old(recorder).sprite.state_flush_entities, batch_len as u64),
                ..old(recorder).sprite
            },
            ..*old(recorder)
        }),
{
    recorder.sprite.state_flush_calls = wrapping_total(recorder.sprite.state_flush_calls, 1);
    recorder.sprite.state_flush_entities = wrapping_total(recorder.sprite.state_flush_entities, batch_len as u64);
}

pub fn record_sprite_frame_queue_depth<S>(recorder: &mut AnimationRecorder<S>, len: usize)
    ensures
        *final(recorder) == (AnimationRecorder {
            sprite: SpriteAnimationStats {
                frame_apply_queue_drains: wrapping_sum(old(recorder).sprite.frame_apply_queue_drains, 1),
                frame_apply_queue_len: wrapping_sum(old(recorder).sprite.frame_apply_queue_len, len as u64),
                ..old(recorder).sprite
            },
            ..*old(recorder)
        }),
{
    recorder.sprite.frame_apply_queue_drains = wrapping_total(recorder.sprite.frame_apply_queue_drains, 1);
    recorder.sprite.frame_apply_queue_len = wrapping_total(recorder.sprite.frame_apply_queue_len, len as u64);
}

pub fn record_transform_advance<S>(recorder: &mut AnimationRecorder<S>, count: u64)
    ensures
        *final(recorder) == (AnimationRecorder {
            clips: TransformClipStats {
                advance_calls: wrapping_sum(old(recorder).clips.advance_calls, count),
                ..old(recorder).clips
            },
            ..*old(recorder)
        }),
{
    recorder.clips.advance_calls = wrapping_total(recorder.clips.advance_calls, count);
}

pub fn record_transform_zero_delta<S>(recorder: &mut AnimationRecorder<S>, count: u64)
    ensures
        *final(recorder) == (AnimationRecorder {
            clips: TransformClipStats {
                zero_delta_calls: wrapping_sum(old(recorder).clips.zero_delta_calls, count),
                ..old(recorder).clips
            },
            ..*old(recorder)
        }),
{
    recorder.clips.zero_delta_calls = wrapping_total(recorder.clips.zero_delta_calls, count);
}

pub fn record_transform_skipped<S>(recorder: &mut AnimationRecorder<S>, count: u64)
    ensures
        *final(recorder) == (AnimationRecorder {
            clips: TransformClipStats {
                skipped_clips: wrapping_sum(old(recorder).clips.skipped_clips, count),
                ..old(recorder).clips
            },
            ..*old(recorder)
        }),
{
    recorder.clips.skipped_clips = wrapping_total(recorder.clips.skipped_clips, count);
}

pub fn record_transform_looped_resume<S>(recorder: &mut AnimationRecorder<S>, count: u64)
    ensures
        *final(recorder) == (AnimationRecorder {
            clips: TransformClipStats {
                looped_resume_clips: wrapping_sum(old(recorder).clips.looped_resume_clips, count),
                ..old(recorder).clips
            },
            ..*old(recorder)
        }),
{
    recorder.clips.looped_resume_clips = wrapping_total(recorder.clips.looped_resume_clips, count);
}

pub fn record_transform_zero_duration<S>(recorder: &mut AnimationRecorder<S>, count: u64)
    ensures
        *final(recorder) == (AnimationRecorder {
            clips: TransformClipStats {
                zero_duration_clips: wrapping_sum(old(recorder).clips.zero_duration_clips, count),
                ..old(recorder).clips
            },
            ..*old(recorder)
        }),
{
    recorder.clips.zero_duration_clips = wrapping_total(recorder.clips.zero_duration_clips, count);
}

pub fn record_transform_fast_path<S>(recorder: &mut AnimationRecorder<S>, count: u64)
    ensures
        *final(recorder) == (AnimationRecorder {
            clips: TransformClipStats {
                fast_path_clips: wrapping_sum(old(recorder).clips.fast_path_clips, count),
                ..old(recorder).clips
            },
            ..*old(recorder)
        }),
{
    recorder.clips.fast_path_clips = wrapping_total(recorder.clips.fast_path_clips, count);
}

pub fn record_transform_slow_path<S>(recorder: &mut AnimationRecorder<S>, count: u64)
    ensures
        *final(recorder) == (AnimationRecorder {
            clips: TransformClipStats {
                slow_path_clips: wrapping_sum(old(recorder).clips.slow_path_clips, count),
                ..old(recorder).clips
            },
            ..*old(recorder)
        }),
{
    recorder.clips.slow_path_clips = wrapping_total(recorder.clips.slow_path_clips, count);
}

pub fn record_transform_segment_crosses<S>(recorder: &mut AnimationRecorder<S>, count: u64)
    ensures
        *final(recorder) == (AnimationRecorder {
            clips: TransformClipStats {
                segment_crosses: wrapping_sum(old(recorder).clips.segment_crosses, count),
                ..old(recorder).clips
            },
            ..*old(recorder)
        }),
{
    recorder.clips.segment_crosses = wrapping_total(recorder.clips.segment_crosses, count);
}

/// A time that does not fit counts as the largest.
pub fn record_transform_advance_time<S>(recorder: &mut AnimationRecorder<S>, nanos: u128)
    ensures
        *final(recorder) == (AnimationRecorder {
            clips: TransformClipStats {
                advance_time_ns: wrapping_sum(old(recorder).clips.advance_time_ns, nanos_held(nanos)),
                ..old(recorder).clips
            },
            ..*old(recorder)
        }),
{
    recorder.clips.advance_time_ns = wrapping_total(recorder.clips.advance_time_ns, hold_nanos(nanos));
}

/// A time that does not fit counts as the largest.
pub fn record_transform_sample_time<S>(recorder: &mut AnimationRecorder<S>, nanos: u128)
    ensures
        *final(recorder) == (AnimationRecorder {
            clips: TransformClipStats {
                sample_time_ns: wrapping_sum(old(recorder).clips.sample_time_ns, nanos_held(nanos)),
                ..old(recorder).clips
            },
            ..*old(recorder)
        }),
{
    recorder.clips.sample_time_ns = wrapping_total(recorder.clips.sample_time_ns, hold_nanos(nanos));
}

/// A time that does not fit counts as the largest.
pub fn record_transform_apply_time<S>(recorder: &mut AnimationRecorder<S>, nanos: u128)
    ensures
        *final(recorder) == (AnimationRecorder {
            clips: TransformClipStats {
                apply_time_ns: wrapping_sum(old(recorder).clips.apply_time_ns, nanos_held(nanos)),
                ..old(recorder).clips
            },
            ..*old(recorder)
        }),
{
    recorder.clips.apply_time_ns = wrapping_total(recorder.clips.apply_time_ns, hold_nanos(nanos));
}

pub fn perf_set_step_kind<S>(recorder: &mut AnimationRecorder<S>, kind: SpriteAnimStepKind)
    ensures
        *final(recorder) == (AnimationRecorder { step_kind: kind.code(), ..*old(recorder) }),
{
    recorder.step_kind = kind.as_u8();
}

pub fn perf_current_step_kind<S>(recorder: &AnimationRecorder<S>) -> (r: SpriteAnimStepKind)
    ensures
        r == SpriteAnimStepKind::of_code(recorder.step_kind),
{
    SpriteAnimStepKind::from_u8(recorder.step_kind)
}

pub fn perf_record_fast_bucket_frame<S: Copy>(recorder: &mut AnimationRecorder<S>)
    ensures
        *final(recorder) == (if old(recorder).perf is Some {
            let s = old(recorder).perf->0;
            AnimationRecorder {
                perf: Some(SpriteAnimPerfSample { fast_bucket_frames: held_sum(s.fast_bucket_frames, 1), ..s }),
                ..*old(recorder)
            }
        } else {
            *old(recorder)
        }),
{
    if let Some(sample) = recorder.perf {
        let mut sample = sample;
        sample.record_fast_bucket_frame();
        recorder.perf = Some(sample);
    }
}

pub fn perf_record_general_bucket_frame<S: Copy>(recorder: &mut AnimationRecorder<S>)
    ensures
        *final(recorder) == (if old(recorder).perf is Some {
            let s = old(recorder).perf->0;
            AnimationRecorder {
                perf: Some(SpriteAnimPerfSample { general_bucket_frames: held_sum(s.general_bucket_frames, 1), ..s }),
                ..*old(recorder)
            }
        } else {
            *old(recorder)
        }),
{
    if let Some(sample) = recorder.perf {
        let mut sample = sample;
        sample.record_general_bucket_frame();
        recorder.perf = Some(sample);
    }
}

pub fn perf_record_fast_animator<S: Copy>(recorder: &mut AnimationRecorder<S>)
    ensures
        *final(recorder) == (if old(recorder).perf is Some {
            let s = old(recorder).perf->0;
            AnimationRecorder {
                perf: Some(s.with_fast_animator(SpriteAnimStepKind::of_code(old(recorder).step_kind))),
                ..*old(recorder)
            }
        } else {
            *old(recorder)
        }),
{
    if let Some(sample) = recorder.perf {
        let mut sample = sample;
        sample.record_fast_animator(perf_current_step_kind(recorder));
        recorder.perf = Some(sample);
    }
}

pub fn perf_record_general_animator<S: Copy>(recorder: &mut AnimationRecorder<S>, mode: SpriteAnimationLoopMode, has_events: bool)
    ensures
        *final(recorder) == (if old(recorder).perf is Some {
            let s = old(recorder).perf->0;
            AnimationRecorder {
                perf: Some(s.with_general_animator(mode, has_events, SpriteAnimStepKind::of_code(old(recorder).step_kind))),
                ..*old(recorder)
            }
        } else {
            *old(recorder)
        }),
{
    if let Some(sample) = recorder.perf {
        let mut sample = sample;
        sample.record_general_animator(mode, has_events, perf_current_step_kind(recorder));
        recorder.perf = Some(sample);
    }
}

pub fn perf_record_events<S: Copy>(recorder: &mut AnimationRecorder<S>, emitted: u32, coalesced: u32)
    ensures
        *final(recorder) == (if old(recorder).perf is Some && !(emitted == 0 && coalesced == 0) {
            let s = old(recorder).perf->0;
            AnimationRecorder {
                perf: Some(SpriteAnimPerfSample { events_emitted: held_sum(s.events_emitted, emitted), events_coalesced: held_sum(s.events_coalesced, coalesced), ..s }),
                ..*old(recorder)
            }
        } else {
            *old(recorder)
        }),
{
    if emitted == 0 && coalesced == 0 {
        return;
    }
    if let Some(sample) = recorder.perf {
        let mut sample = sample;
        sample.record_events(emitted, coalesced);
        recorder.perf = Some(sample);
    }
}

pub fn perf_record_mod_or_div<S: Copy>(recorder: &mut AnimationRecorder<S>)
    ensures
        *final(recorder) == (if old(recorder).perf is Some {
            let s = old(recorder).perf->0;
            AnimationRecorder {
                perf: Some(SpriteAnimPerfSample { mod_or_div_calls: held_sum(s.mod_or_div_calls, 1), ..s }),
                ..*old(recorder)
            }
        } else {
            *old(recorder)
        }),
{
    if let Some(sample) = recorder.perf {
        let mut sample = sample;
        sample.record_mod_call();
        recorder.perf = Some(sample);
    }
}

pub fn perf_record_simd_mix<S: Copy>(recorder: &mut AnimationRecorder<S>, lanes8: u32, lanes4: u32, tail: u32)
    ensures
        *final(recorder) == (if old(recorder).perf is Some && !(lanes8 == 0 && lanes4 == 0 && tail == 0) {
            let s = old(recorder).perf->0;
            AnimationRecorder {
                perf: Some(SpriteAnimPerfSample { simd_lanes_8: held_sum(s.simd_lanes_8, lanes8), simd_lanes_4: held_sum(s.simd_lanes_4, lanes4), simd_tail_scalar: held_sum(s.simd_tail_scalar, tail), ..s }),
                ..*old(recorder)
            }
        } else {
            *old(recorder)
        }),
{
    if lanes8 == 0 && lanes4 == 0 && tail == 0 {
        return;
    }
    if let Some(sample) = recorder.perf {
        let mut sample = sample;
        sample.record_simd_mix(lanes8, lanes4, tail);
        recorder.perf = Some(sample);
    }
}

pub fn perf_record_simd_chunk_time<S: Copy>(recorder: &mut AnimationRecorder<S>, time_ns: u64)
    ensures
        *final(recorder) == (if old(recorder).perf is Some && !(time_ns == 0) {
            let s = old(recorder).perf->0;
            AnimationRecorder {
                perf: Some(SpriteAnimPerfSample { simd_chunk_time_ns: held_sum_u64(s.simd_chunk_time_ns, time_ns), ..s }),
                ..*old(recorder)
            }
        } else {
            *old(recorder)
        }),
{
    if time_ns == 0 {
        return;
    }
    if let Some(sample) = recorder.perf {
        let mut sample = sample;
        sample.record_simd_chunk_time(time_ns);
        recorder.perf = Some(sample);
    }
}

pub fn perf_record_simd_scalar_time<S: Copy>(recorder: &mut AnimationRecorder<S>, time_ns: u64)
    ensures
        *final(recorder) == (if old(recorder).perf is Some && !(time_ns == 0) {
            let s = old(recorder).perf->0;
            AnimationRecorder {
                perf: Some(SpriteAnimPerfSample { simd_scalar_time_ns: held_sum_u64(s.simd_scalar_time_ns, time_ns), ..s }),
                ..*old(recorder)
            }
        } else {
            *old(recorder)
        }),
{
    if time_ns == 0 {
        return;
    }
    if let Some(sample) = recorder.perf {
        let mut sample = sample;
        sample.record_simd_scalar_time(time_ns);
        recorder.perf = Some(sample);
    }
}

/// Counts gathered over one pass of the clip system, added to the running counters at its end.
#[derive(Clone, Copy, Debug, PartialEq, Eq, Structural)]
pub struct TransformClipStatAccumulator {
    pub advance_calls: u64,
    pub zero_delta_calls: u64,
    pub skipped_clips: u64,
    pub zero_duration_clips: u64,
    pub fast_path_clips: u64,
    pub slow_path_clips: u64,
    pub sample_time_ns: u128,
    pub apply_time_ns: u128,
}

impl TransformClipStatAccumulator {
    pub open spec fn nothing() -> Self {
        TransformClipStatAccumulator {
            advance_calls: 0,
            zero_delta_calls: 0,
            skipped_clips: 0,
            zero_duration_clips: 0,
            fast_path_clips: 0,
            slow_path_clips: 0,
            sample_time_ns: 0,
            apply_time_ns: 0,
        }
    }

    pub fn new() -> (r: Self)
        ensures
            r == Self::nothing(),
    {
        TransformClipStatAccumulator {
            advance_calls: 0,
            zero_delta_calls: 0,
            skipped_clips: 0,
            zero_duration_clips: 0,
            fast_path_clips: 0,
            slow_path_clips: 0,
            sample_time_ns: 0,
            apply_time_ns: 0,
        }
    }

    /// Adds everything gathered to the running counters.
    pub fn flush<S>(self, recorder: &mut AnimationRecorder<S>)
        ensures
            *final(recorder) == (AnimationRecorder {
                clips: TransformClipStats {
                    advance_calls: wrapping_sum(old(recorder).clips.advance_calls, self.advance_calls),
                    zero_delta_calls: wrapping_sum(old(recorder).clips.zero_delta_calls, self.zero_delta_calls),
                    skipped_clips: wrapping_sum(old(recorder).clips.skipped_clips, self.skipped_clips),
                    zero_duration_clips: wrapping_sum(old(recorder).clips.zero_duration_clips, self.zero_duration_clips),
                    fast_path_clips: wrapping_sum(old(recorder).clips.fast_path_clips, self.fast_path_clips),
                    slow_path_clips: wrapping_sum(old(recorder).clips.slow_path_clips, self.slow_path_clips),
                    sample_time_ns: wrapping_sum(
                        old(recorder).clips.sample_time_ns,
                        nanos_held(self.sample_time_ns),
                    ),
                    apply_time_ns: wrapping_sum(
                        old(recorder).clips.apply_time_ns,
                        nanos_held(self.apply_time_ns),
                    ),
                    ..old(recorder).clips
                },
                ..*old(recorder)
            }),
    {
        record_transform_advance(recorder, self.advance_calls);
        record_transform_zero_delta(recorder, self.zero_delta_calls);
        record_transform_skipped(recorder, self.skipped_clips);
        record_transform_zero_duration(recorder, self.zero_duration_clips);
        record_transform_fast_path(recorder, self.fast_path_clips);
        record_transform_slow_path(recorder, self.slow_path_clips);
        record_transform_sample_time(recorder, self.sample_time_ns);
        record_transform_apply_time(recorder, self.apply_time_ns);
    }
}

/// The samples of the last frames, oldest first, and how long the ratios have been too high.
pub struct SpriteAnimPerfTelemetry<S> {
    pub current: SpriteAnimPerfSample<S>,
    pub history: VecDeque<SpriteAnimPerfSample<S>>,
    pub capacity: usize,
    pub frame_counter: u64,
    pub simd_enabled: bool,
    pub slow_threshold_streak: u32,
    pub tail_threshold_streak: u32,
}

/// One hundredth: the share of slow animators above which a frame counts as slow.
pub open spec fn slow_limit<S: Scalar>() -> S {
    S::from_count_spec(1).over_spec(S::from_count_spec(100))
}

/// One twentieth: the share of left-over animators above which a frame counts as ragged.
pub open spec fn tail_limit<S: Scalar>() -> S {
    S::from_count_spec(1).over_spec(S::from_count_spec(20))
}

/// What is left of a bounded history once another entry is at its end.
pub open spec fn ring_push<T>(history: Seq<T>, entry: T, capacity: int) -> Seq<T> {
    if history.len() == capacity {
        history.skip(1).push(entry)
    } else {
        history.push(entry)
    }
}

impl<S: Scalar> SpriteAnimPerfTelemetry<S> {
    /// The history never holds more than its capacity, which is at least one.
    pub open spec fn wf(self) -> bool {
        1 <= self.capacity && self.history@.len() <= self.capacity
    }

    pub fn new(capacity: usize, simd_enabled: bool) -> (r: Self)
        ensures
            r.wf(),
            r.current == SpriteAnimPerfSample::<S>::blank(),
            r.history@ == Seq::<SpriteAnimPerfSample<S>>::empty(),
            r.capacity == (if capacity < 1 { 1 } else { capacity }),
            r.frame_counter == 0,
            r.simd_enabled == simd_enabled,
            r.slow_threshold_streak == 0,
            r.tail_threshold_streak == 0,
    {
        SpriteAnimPerfTelemetry {
            current: SpriteAnimPerfSample::new(),
            history: VecDeque::new(),
            capacity: if capacity < 1 {
                1
            } else {
                capacity
            },
            frame_counter: 0,
            simd_enabled,
            slow_threshold_streak: 0,
            tail_threshold_streak: 0,
        }
    }

    /// Starts a new sample; the history is not touched.
    pub fn start_frame(&mut self, delta: AnimationDelta<S>)
        requires
            old(self).frame_counter < u64::MAX,
        ensures
            *final(self) == (SpriteAnimPerfTelemetry {
                current: SpriteAnimPerfSample {
                    frame_index: (old(self).frame_counter + 1) as u64,
                    delta_kind: SpriteAnimDeltaKind::of_delta(delta),
                    simd_supported: old(self).simd_enabled,
                    ..SpriteAnimPerfSample::<S>::blank()
                },
                ..*old(self)
            }),
    {
        self.current = SpriteAnimPerfSample::new();
        self.current.frame_index = self.frame_counter + 1;
        self.current.delta_kind = SpriteAnimDeltaKind::from_delta(delta);
        self.current.simd_supported = self.simd_enabled;
    }

    pub open spec fn next_slow_streak(self) -> u32 {
        if slow_limit::<S>().lt_spec(self.current.slow_share()) {
            held_sum(self.slow_threshold_streak, 1)
        } else {
            0
        }
    }

    pub open spec fn next_tail_streak(self) -> u32 {
        if self.current.simd_supported && self.current.fast_animators > 0 && tail_limit::<
            S,
        >().lt_spec(self.current.tail_share()) {
            held_sum(self.tail_threshold_streak, 1)
        } else {
            0
        }
    }

    /// Closes the running sample: the streaks grow or start over, and the sample joins the
    /// history, from which the oldest leaves when it is full.
    pub fn finish_frame(&mut self)
        requires
            old(self).wf(),
            old(self).frame_counter < u64::MAX,
        ensures
            final(self).wf(),
            final(self).frame_counter == old(self).frame_counter + 1,
            final(self).capacity == old(self).capacity,
            final(self).simd_enabled == old(self).simd_enabled,
            final(self).slow_threshold_streak == old(self).next_slow_streak(),
            final(self).tail_threshold_streak == old(self).next_tail_streak(),
            final(self).current == (SpriteAnimPerfSample {
                slow_ratio_streak: old(self).next_slow_streak(),
                tail_scalar_streak: old(self).next_tail_streak(),
                ..old(self).current
            }),
            final(self).history@ == ring_push(
                old(self).history@,
                final(self).current,
                old(self).capacity as int,
            ),
    {
        self.frame_counter = self.frame_counter + 1;
        let slow_bound = S::from_count(1).over(S::from_count(100));
        if slow_bound.lt(self.current.slow_ratio()) {
            self.slow_threshold_streak = held_total(self.slow_threshold_streak, 1);
        } else {
            self.slow_threshold_streak = 0;
        }
        self.current.slow_ratio_streak = self.slow_threshold_streak;
        if self.current.simd_supported && self.current.fast_animators > 0 {
            let tail_bound = S::from_count(1).over(S::from_count(20));
            if tail_bound.lt(self.current.tail_scalar_ratio()) {
                self.tail_threshold_streak = held_total(self.tail_threshold_streak, 1);
            } else {
                self.tail_threshold_streak = 0;
            }
        } else {
            self.tail_threshold_streak = 0;
        }
        self.current.tail_scalar_streak = self.tail_threshold_streak;
        if self.history.len() == self.capacity {
            let _oldest = self.history.pop_front();
            assert(self.history@ == old(self).history@.skip(1));
        }
        self.history.push_back(self.current);
    }

    pub fn latest(&self) -> (r: Option<SpriteAnimPerfSample<S>>)
        ensures
            r == (if self.history@.len() == 0 {
                None
            } else {
                Some(self.history@.last())
            }),
    {
        if self.history.len() == 0 {
            None
        } else {
            Some(self.history[self.history.len() - 1])
        }
    }

    /// The samples kept, oldest first.
    pub fn history(&self) -> (r: Vec<SpriteAnimPerfSample<S>>)
        ensures
            r@ == self.history@,
    {
        let mut out: Vec<SpriteAnimPerfSample<S>> = Vec::new();
        let mut i: usize = 0;
        while i < self.history.len()
            invariant
                i <= self.history@.len(),
                out@ == self.history@.take(i as int),
            decreases self.history@.len() - i,
        {
            out.push(self.history[i]);
            assert(out@ == self.history@.take(i + 1));
            i = i + 1;
        }
        assert(out@ == self.history@);
        out
    }

    pub fn clear_history(&mut self)
        ensures
            final(self).history@ == Seq::<SpriteAnimPerfSample<S>>::empty(),
            final(self).current == SpriteAnimPerfSample::<S>::blank(),
            final(self).frame_counter == 0,
            final(self).slow_threshold_streak == 0,
            final(self).tail_threshold_streak == 0,
            final(self).capacity == old(self).capacity,
            final(self).simd_enabled == old(self).simd_enabled,
            old(self).wf() ==> final(self).wf(),
    {
        self.history.clear();
        self.current = SpriteAnimPerfSample::new();
        self.frame_counter = 0;
        self.slow_threshold_streak = 0;
        self.tail_threshold_streak = 0;
    }
}

/// However many samples join, a bounded history keeps at most its capacity, and the newest of
/// them last.
pub proof fn law_history_is_bounded<T>(history: Seq<T>, entry: T, capacity: int)
    requires
        1 <= capacity,
        history.len() <= capacity,
    ensures
        ring_push(history, entry, capacity).len() <= capacity,
        ring_push(history, entry, capacity).last() == entry,
        forall|i: int|
            0 <= i < ring_push(history, entry, capacity).len() - 1 ==> ring_push(
                history,
                entry,
                capacity,
            )[i] == history[i + history.len() + 1 - ring_push(history, entry, capacity).len()],
{
}

} // verus!
