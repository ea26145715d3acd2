//! Keyframe tracks: where a time falls within a track, what the track's value is there, and how
//! a cursor into the track moves on.
use vstd::prelude::*;
use crate::scalar::{clamped, Scalar, TrackValue};

verus! {

#[derive(Clone, Copy, Debug, PartialEq, Eq, Structural)]
pub enum ClipInterpolation {
    Linear,
    Step,
}

#[derive(Clone, Copy)]
pub struct ClipKeyframe<S, V> {
    pub time: S,
    pub value: V,
}

/// What lies between two neighbouring keyframes.
#[derive(Clone, Copy)]
pub struct ClipSegment<S, V> {
    pub slope: V,
    pub span: S,
    pub inv_span: S,
}

pub struct ClipTrack<S, V> {
    pub interpolation: ClipInterpolation,
    pub keyframes: Vec<ClipKeyframe<S, V>>,
    pub duration: S,
    pub duration_inv: S,
    pub segment_offsets: Vec<S>,
    pub segments: Vec<ClipSegment<S, V>>,
}

impl<S, V> ClipTrack<S, V> {
    /// Every segment starts at a keyframe of its own.
    pub open spec fn wf(self) -> bool {
        self.segments.len() == 0 || self.segments.len() < self.keyframes.len()
    }
}

/// The moving state of one track of a playing clip.
#[derive(Clone, Copy)]
pub struct Channel<S, V> {
    pub cursor: usize,
    pub segment_time: S,
    pub segment_span: S,
    pub segment_start: V,
    pub segment_slope: V,
    pub cached_index: usize,
    pub cache_valid: bool,
    pub state_current: bool,
    pub sample_dirty: bool,
    pub sample: Option<V>,
    pub last: Option<V>,
}

#[derive(Clone, Copy)]
pub struct TrackAdvanceResult<S> {
    pub advanced: bool,
    pub segment_changed: bool,
    pub offset_delta: S,
    /// How many whole segments lie between the old and the new place.
    pub crosses: u64,
}

pub open spec fn no_advance<S: Scalar>() -> TrackAdvanceResult<S> {
    TrackAdvanceResult {
        advanced: false,
        segment_changed: false,
        offset_delta: S::zero_spec(),
        crosses: 0,
    }
}

/// The first index from `from` on whose start lies after `target`, or the length.
pub open spec fn first_start_above<S: Scalar>(starts: Seq<S>, target: S, from: int) -> int
    decreases starts.len() - from,
{
    if from < 0 || from >= starts.len() {
        starts.len() as int
    } else if starts[from].le_spec(target) {
        first_start_above(starts, target, from + 1)
    } else {
        from
    }
}

/// Every start before the found index is at or before `target`, and the start there is not.
pub proof fn lemma_first_start_above<S: Scalar>(starts: Seq<S>, target: S, from: int)
    requires
        0 <= from <= starts.len(),
    ensures
        from <= first_start_above(starts, target, from) <= starts.len(),
        forall|i: int|
            from <= i < first_start_above(starts, target, from) ==> (#[trigger] starts[i]).le_spec(
                target,
            ),
        first_start_above(starts, target, from) < starts.len() ==> !starts[first_start_above(
            starts,
            target,
            from,
        )].le_spec(target),
    decreases starts.len() - from,
{
    if from < starts.len() && starts[from].le_spec(target) {
        lemma_first_start_above(starts, target, from + 1);
    }
}

/// The segment whose start is the last one at or before `target`, held within the segments.
pub open spec fn segment_index_at<S: Scalar>(offsets: Seq<S>, target: S, last_segment: int) -> int {
    let idx = first_start_above(offsets, target, 0);
    if idx == 0 {
        0
    } else if idx - 1 < last_segment {
        idx - 1
    } else {
        last_segment
    }
}

pub fn locate_segment_index<S: Scalar>(offsets: &Vec<S>, target: S, last_segment: usize) -> (r:
    usize)
    ensures
        r == segment_index_at(offsets@, target, last_segment as int),
        r <= last_segment,
{
    if offsets.len() == 0 {
        return 0;
    }
    proof {
        lemma_first_start_above(offsets@, target, 0);
    }
    let mut idx: usize = 0;
    while idx < offsets.len() && offsets[idx].le(target)
        invariant
            idx <= offsets.len(),
            first_start_above(offsets@, target, 0) == first_start_above(
                offsets@,
                target,
                idx as int,
            ),
        decreases offsets.len() - idx,
    {
        idx = idx + 1;
    }
    if idx == 0 {
        0
    } else if idx - 1 < last_segment {
        idx - 1
    } else {
        last_segment
    }
}

/// A looped time brought into the clip's duration.
pub open spec fn wrapped_time<S: Scalar>(time: S, duration: S, duration_inv: S) -> S {
    let zero = S::zero_spec();
    if !time.finite_spec() || duration.le_spec(zero) {
        zero
    } else {
        let length = duration.larger_spec(S::machine_epsilon_spec());
        let scaled = time.times_spec(duration_inv);
        let remainder = time.minus_spec(scaled.floored_spec().times_spec(duration));
        let raw = if zero.lt_spec(duration_inv) && scaled.finite_spec()
            && remainder.finite_spec() {
            remainder
        } else {
            time.rem_euclid_by_spec(length)
        };
        let settled = if raw.finite_spec() {
            raw
        } else {
            zero
        };
        let lifted = if settled.lt_spec(zero) {
            settled.plus_spec(length)
        } else {
            settled
        };
        if length.le_spec(lifted) {
            lifted.minus_spec(length)
        } else {
            lifted
        }
    }
}

pub fn wrap_time_looped<S: Scalar>(time: S, duration: S, duration_inv: S) -> (r: S)
    ensures
        r == wrapped_time(time, duration, duration_inv),
{
    let zero = S::zero();
    if !time.finite() || duration.le(zero) {
        return zero;
    }
    let length = duration.larger(S::machine_epsilon());
    let mut wrapped = time.rem_euclid_by(length);
    if zero.lt(duration_inv) {
        let scaled = time.times(duration_inv);
        if scaled.finite() {
            let remainder = time.minus(scaled.floored().times(duration));
            if remainder.finite() {
                wrapped = remainder;
            }
        }
    }
    if !wrapped.finite() {
        wrapped = zero;
    }
    if wrapped.lt(zero) {
        wrapped = wrapped.plus(length);
    }
    if length.le(wrapped) {
        wrapped = wrapped.minus(length);
    }
    wrapped
}

/// Where a clip stands once its running time has reached `unwrapped`, and how many whole rounds
/// that took.
pub open spec fn target_time<S: Scalar>(
    unwrapped: S,
    duration: S,
    duration_inv: S,
    looped: bool,
) -> (S, u64) {
    let zero = S::zero_spec();
    let eps = S::clip_epsilon_spec();
    if duration.le_spec(zero) {
        (zero, 0)
    } else if !looped {
        let held = crate::scalar::clamped_spec(unwrapped, zero, duration);
        if duration.minus_spec(eps).le_spec(held) {
            (duration, 0)
        } else {
            (held, 0)
        }
    } else {
        let wrapped = wrapped_time(unwrapped, duration, duration_inv);
        let snapped = if wrapped.le_spec(eps) || duration.minus_spec(wrapped).le_spec(eps) {
            zero
        } else {
            wrapped
        };
        let rounds = if zero.le_spec(unwrapped) && zero.lt_spec(duration) {
            unwrapped.over_spec(duration).floor_count_spec()
        } else {
            0
        };
        (snapped, rounds)
    }
}

pub fn resolve_target_time<S: Scalar>(unwrapped: S, duration: S, duration_inv: S, looped: bool) -> (r: (
    S,
    u64,
))
    ensures
        r == target_time(unwrapped, duration, duration_inv, looped),
{
    let zero = S::zero();
    let eps = S::clip_epsilon();
    if duration.le(zero) {
        return (zero, 0);
    }
    if !looped {
        let held = clamped(unwrapped, zero, duration);
        if duration.minus(eps).le(held) {
            return (duration, 0);
        }
        return (held, 0);
    }
    let mut wrapped = wrap_time_looped(unwrapped, duration, duration_inv);
    if wrapped.le(eps) || duration.minus(wrapped).le(eps) {
        wrapped = zero;
    }
    let rounds: u64 = if zero.le(unwrapped) && zero.lt(duration) {
        unwrapped.over(duration).floor_count()
    } else {
        0
    };
    (wrapped, rounds)
}

/// How many whole segments lie strictly between two places of a track.
pub open spec fn segments_between(
    segment_count: nat,
    start_index: int,
    end_index: int,
    target_cycle: u64,
    looped: bool,
) -> u64 {
    let held = |x: int| if x > u64::MAX { u64::MAX as int } else { x };
    let end = if looped {
        held(held(target_cycle * segment_count) + end_index)
    } else {
        end_index
    };
    if segment_count == 0 || end <= start_index {
        0
    } else {
        (end - start_index - 1) as u64
    }
}

pub fn compute_segment_crosses(
    segment_count: usize,
    start_index: usize,
    end_index: usize,
    target_cycle: u64,
    looped: bool,
) -> (r: u64)
    ensures
        r == segments_between(
            segment_count as nat,
            start_index as int,
            end_index as int,
            target_cycle,
            looped,
        ),
{
    if segment_count == 0 {
        return 0;
    }
    let start: u64 = start_index as u64;
    let end: u64 = if looped {
        proof {
            assert(0 <= target_cycle * segment_count <= u64::MAX * u64::MAX) by (nonlinear_arith)
                requires
                    0 <= target_cycle <= u64::MAX,
                    0 <= segment_count <= u64::MAX,
            ;
        }
        let rounds: u128 = target_cycle as u128 * segment_count as u128;
        let held: u64 = if rounds > 18446744073709551615u128 {
            u64::MAX
        } else {
            rounds as u64
        };
        held.saturating_add(end_index as u64)
    } else {
        end_index as u64
    };
    end.saturating_sub(start).saturating_sub(1)
}

/// The time at which a track is read: looped times are wrapped, others are held in range.
pub open spec fn normalized_time<S: Scalar>(
    time: S,
    duration: S,
    duration_inv: S,
    looped: bool,
) -> S {
    let zero = S::zero_spec();
    let eps = S::clip_epsilon_spec();
    if duration.le_spec(zero) {
        zero
    } else if looped {
        if time.minus_spec(duration).magnitude_spec().le_spec(eps) {
            duration
        } else if zero.le_spec(time) && time.lt_spec(duration) {
            time
        } else {
            wrapped_time(time, duration, duration_inv)
        }
    } else {
        crate::scalar::clamped_spec(time, zero, duration)
    }
}

pub fn normalize_time<S: Scalar>(time: S, duration: S, duration_inv: S, looped: bool) -> (r: S)
    ensures
        r == normalized_time(time, duration, duration_inv, looped),
{
    let zero = S::zero();
    if duration.le(zero) {
        return zero;
    }
    if looped {
        if time.minus(duration).magnitude().le(S::clip_epsilon()) {
            return duration;
        }
        if zero.le(time) && time.lt(duration) {
            return time;
        }
        wrap_time_looped(time, duration, duration_inv)
    } else {
        clamped(time, zero, duration)
    }
}

/// The index of the last keyframe at or before `time`, held so that another keyframe follows.
pub open spec fn keyframe_times<S, V>(frames: Seq<ClipKeyframe<S, V>>) -> Seq<S> {
    Seq::new(frames.len(), |i: int| frames[i].time)
}

pub open spec fn cursor_at<S: Scalar, V>(frames: Seq<ClipKeyframe<S, V>>, time: S) -> (usize, S) {
    let zero = S::zero_spec();
    if frames.len() <= 1 || time.le_spec(frames[0].time) {
        (0, zero)
    } else {
        let above = first_start_above(keyframe_times(frames), time, 0);
        let last = frames.len() - 1;
        let index = if above <= 1 {
            0
        } else if above > last {
            last - 1
        } else {
            above - 1
        };
        let span = frames[index + 1].time.minus_spec(frames[index].time).larger_spec(zero);
        (
            index as usize,
            crate::scalar::clamped_spec(time.minus_spec(frames[index].time), zero, span),
        )
    }
}

pub fn cursor_from_time<S: Scalar, V: Copy>(frames: &Vec<ClipKeyframe<S, V>>, sample_time: S) -> (r:
    (usize, S))
    ensures
        r == cursor_at(frames@, sample_time),
        frames.len() > 1 ==> r.0 + 1 < frames.len(),
        frames.len() <= 1 ==> r.0 == 0,
{
    let zero = S::zero();
    if frames.len() == 0 {
        return (0, zero);
    }
    if frames.len() == 1 {
        return (0, zero);
    }
    let last_index: usize = frames.len() - 1;
    if sample_time.le(frames[0].time) {
        return (0, zero);
    }
    let ghost times = keyframe_times(frames@);
    proof {
        lemma_first_start_above(times, sample_time, 0);
    }
    let mut insertion: usize = 0;
    while insertion < frames.len() && frames[insertion].time.le(sample_time)
        invariant
            insertion <= frames.len(),
            times == keyframe_times(frames@),
            first_start_above(times, sample_time, 0) == first_start_above(
                times,
                sample_time,
                insertion as int,
            ),
        decreases frames.len() - insertion,
    {
        assert(times[insertion as int] == frames@[insertion as int].time);
        insertion = insertion + 1;
    }
    proof {
        if insertion < frames.len() {
            assert(times[insertion as int] == frames@[insertion as int].time);
        }
    }
    assert(insertion == first_start_above(times, sample_time, 0));
    if insertion == 0 {
        insertion = 1;
    }
    if insertion > last_index {
        insertion = last_index;
    }
    let index: usize = insertion - 1;
    let start = frames[index].time;
    let end = frames[index + 1].time;
    let span = end.minus(start).larger(zero);
    let offset = clamped(sample_time.minus(start), zero, span);
    (index, offset)
}

pub open spec fn rebuilt_cursor<S: Scalar, V>(track: ClipTrack<S, V>, time: S, looped: bool) -> (
    usize,
    S,
) {
    if track.keyframes.len() <= 1 {
        (0, S::zero_spec())
    } else {
        cursor_at(
            track.keyframes@,
            normalized_time(time, track.duration, track.duration_inv, looped),
        )
    }
}

/// The cursor and the offset into its segment for a clip time.
pub fn rebuild_cursor<S: Scalar, V: Copy>(track: &ClipTrack<S, V>, clip_time: S, looped: bool) -> (r:
    (usize, S))
    ensures
        r == rebuilt_cursor(*track, clip_time, looped),
        track.keyframes.len() > 1 ==> r.0 + 1 < track.keyframes.len(),
        track.keyframes.len() <= 1 ==> r.0 == 0,
{
    if track.keyframes.len() <= 1 {
        return (0, S::zero());
    }
    let sample_time = normalize_time(clip_time, track.duration, track.duration_inv, looped);
    cursor_from_time(&track.keyframes, sample_time)
}

/// The first index from `from` on that `time` does not reach beyond (`strict`: does not reach),
/// or the length.
pub open spec fn window_end<S: Scalar, V>(
    frames: Seq<ClipKeyframe<S, V>>,
    time: S,
    strict: bool,
    from: int,
) -> int
    decreases frames.len() - from,
{
    if from < 0 || from >= frames.len() {
        frames.len() as int
    } else if if strict {
        time.lt_spec(frames[from].time)
    } else {
        time.le_spec(frames[from].time)
    } {
        from
    } else {
        window_end(frames, time, strict, from + 1)
    }
}

proof fn lemma_window_end<S: Scalar, V>(
    frames: Seq<ClipKeyframe<S, V>>,
    time: S,
    strict: bool,
    from: int,
)
    requires
        0 <= from <= frames.len(),
    ensures
        from <= window_end(frames, time, strict, from) <= frames.len(),
    decreases frames.len() - from,
{
    if from < frames.len() {
        lemma_window_end(frames, time, strict, from + 1);
    }
}

/// The value of a non-empty keyframe list at `time`.
pub open spec fn keyframes_value<S: Scalar, V: TrackValue<S>>(
    frames: Seq<ClipKeyframe<S, V>>,
    mode: ClipInterpolation,
    time: S,
) -> V {
    if frames.len() == 1 || time.le_spec(frames[0].time) {
        frames[0].value
    } else {
        let end = window_end(frames, time, mode is Step, 1);
        if end >= frames.len() {
            frames.last().value
        } else if mode is Step {
            frames[end - 1].value
        } else {
            let start = frames[end - 1];
            let span = frames[end].time.minus_spec(start.time).larger_spec(
                S::machine_epsilon_spec(),
            );
            let alpha = crate::scalar::clamped_spec(
                time.minus_spec(start.time).over_spec(span),
                S::zero_spec(),
                S::one_spec(),
            );
            start.value.mixed_spec(frames[end].value, alpha)
        }
    }
}

pub fn sample_keyframes<S: Scalar, V: TrackValue<S>>(
    frames: &Vec<ClipKeyframe<S, V>>,
    mode: ClipInterpolation,
    time: S,
) -> (r: V)
    requires
        frames.len() > 0,
    ensures
        r == keyframes_value(frames@, mode, time),
{
    if frames.len() == 1 || time.le(frames[0].time) {
        return frames[0].value;
    }
    let strict: bool = matches!(mode, ClipInterpolation::Step);
    let mut end: usize = 1;
    while end < frames.len()
        invariant
            1 <= end <= frames.len(),
            frames.len() > 1,
            strict == (mode is Step),
            !time.le_spec(frames@[0].time),
            window_end(frames@, time, mode is Step, 1) == window_end(
                frames@,
                time,
                mode is Step,
                end as int,
            ),
        decreases frames.len() - end,
    {
        let stop = if strict {
            time.lt(frames[end].time)
        } else {
            time.le(frames[end].time)
        };
        if stop {
            let start = frames[end - 1];
            if strict {
                return start.value;
            }
            let span = frames[end].time.minus(start.time).larger(S::machine_epsilon());
            let alpha = clamped(time.minus(start.time).over(span), S::zero(), S::one());
            return start.value.mixed(frames[end].value, alpha);
        }
        end = end + 1;
    }
    frames[frames.len() - 1].value
}

pub open spec fn track_value_at<S: Scalar, V: TrackValue<S>>(
    track: ClipTrack<S, V>,
    time: S,
    looped: bool,
) -> Option<V> {
    if track.keyframes.len() == 0 {
        None
    } else {
        Some(
            keyframes_value(
                track.keyframes@,
                track.interpolation,
                normalized_time(time, track.duration, track.duration_inv, looped),
            ),
        )
    }
}

/// The value of a track at a clip time; an empty track has none.
pub fn sample_track<S: Scalar, V: TrackValue<S>>(track: &ClipTrack<S, V>, time: S, looped: bool) -> (r:
    Option<V>)
    ensures
        r == track_value_at(*track, time, looped),
{
    if track.keyframes.len() == 0 {
        return None;
    }
    let sample_time = normalize_time(time, track.duration, track.duration_inv, looped);
    Some(sample_keyframes(&track.keyframes, track.interpolation, sample_time))
}

pub open spec fn track_value_from_state<S: Scalar, V: TrackValue<S>>(
    track: ClipTrack<S, V>,
    cursor: int,
    segment_time: S,
) -> Option<V> {
    let zero = S::zero_spec();
    let frames = track.keyframes@;
    if frames.len() == 0 {
        None
    } else if frames.len() == 1 || cursor >= frames.len() - 1 {
        Some(frames.last().value)
    } else if track.interpolation is Step {
        let span = if cursor < track.segments.len() {
            track.segments[cursor].span.larger_spec(zero)
        } else {
            zero
        };
        let inv = if cursor < track.segments.len() {
            track.segments[cursor].inv_span
        } else {
            zero
        };
        if span.le_spec(zero) || S::one_spec().le_spec(segment_time.times_spec(inv)) {
            Some(frames[cursor + 1].value)
        } else {
            Some(frames[cursor].value)
        }
    } else if cursor < track.segments.len() {
        let span = track.segments[cursor].span.larger_spec(zero);
        let t = if zero.lt_spec(span) {
            crate::scalar::clamped_spec(segment_time, zero, span)
        } else {
            zero
        };
        Some(frames[cursor].value.shifted_spec(track.segments[cursor].slope, t))
    } else {
        Some(frames[cursor].value)
    }
}

/// The value at an offset into the segment at `cursor`, read from the track itself.
pub fn sample_track_from_state<S: Scalar, V: TrackValue<S>>(
    track: &ClipTrack<S, V>,
    cursor: usize,
    segment_time: S,
) -> (r: Option<V>)
    ensures
        r == track_value_from_state(*track, cursor as int, segment_time),
{
    let zero = S::zero();
    let len: usize = track.keyframes.len();
    if len == 0 {
        return None;
    }
    if len == 1 || cursor >= len - 1 {
        return Some(track.keyframes[len - 1].value);
    }
    let start = track.keyframes[cursor];
    let end = track.keyframes[cursor + 1];
    if matches!(track.interpolation, ClipInterpolation::Step) {
        let mut span = zero;
        let mut inv = zero;
        if cursor < track.segments.len() {
            span = track.segments[cursor].span.larger(zero);
            inv = track.segments[cursor].inv_span;
        }
        if span.le(zero) || S::one().le(segment_time.times(inv)) {
            Some(end.value)
        } else {
            Some(start.value)
        }
    } else if cursor < track.segments.len() {
        let span = track.segments[cursor].span.larger(zero);
        let t = if zero.lt(span) {
            clamped(segment_time, zero, span)
        } else {
            zero
        };
        Some(start.value.shifted(track.segments[cursor].slope, t))
    } else {
        Some(start.value)
    }
}

impl<S: Scalar, V: TrackValue<S>> Channel<S, V> {
    /// A channel that no track drives.
    pub open spec fn cleared(self) -> Self {
        Channel {
            cursor: 0,
            segment_time: S::zero_spec(),
            segment_span: S::zero_spec(),
            segment_start: V::origin_spec(),
            segment_slope: V::origin_spec(),
            cached_index: usize::MAX,
            cache_valid: false,
            state_current: true,
            sample_dirty: true,
            sample: None,
            last: self.last,
        }
    }

    pub fn clear(&mut self)
        ensures
            *final(self) == old(self).cleared(),
    {
        self.cursor = 0;
        self.segment_time = S::zero();
        self.segment_span = S::zero();
        self.segment_start = V::origin();
        self.segment_slope = V::origin();
        self.cached_index = usize::MAX;
        self.cache_valid = false;
        self.state_current = true;
        self.sample_dirty = true;
        self.sample = None;
    }

    /// A channel at the start, with nothing read yet.
    pub open spec fn fresh(current: bool) -> Self {
        Channel {
            cursor: 0,
            segment_time: S::zero_spec(),
            segment_span: S::zero_spec(),
            segment_start: V::origin_spec(),
            segment_slope: V::origin_spec(),
            cached_index: usize::MAX,
            cache_valid: false,
            state_current: current,
            sample_dirty: true,
            sample: None,
            last: None,
        }
    }

    pub fn new() -> (r: Self)
        ensures
            r == Self::fresh(true),
    {
        Channel {
            cursor: 0,
            segment_time: S::zero(),
            segment_span: S::zero(),
            segment_start: V::origin(),
            segment_slope: V::origin(),
            cached_index: usize::MAX,
            cache_valid: false,
            state_current: true,
            sample_dirty: true,
            sample: None,
            last: None,
        }
    }

    pub fn set_last(&mut self, last: Option<V>)
        ensures
            *final(self) == (Channel { last, ..*old(self) }),
    {
        self.last = last;
    }

    /// The place is forgotten; the last sample and the last applied value stay.
    pub open spec fn cursor_reset(self) -> Self {
        Channel {
            sample_dirty: self.sample_dirty,
            sample: self.sample,
            last: self.last,
            ..Self::fresh(false)
        }
    }

    pub fn reset_cursor(&mut self)
        ensures
            *final(self) == old(self).cursor_reset(),
    {
        self.cursor = 0;
        self.segment_time = S::zero();
        self.segment_span = S::zero();
        self.segment_start = V::origin();
        self.segment_slope = V::origin();
        self.cached_index = usize::MAX;
        self.cache_valid = false;
        self.state_current = false;
    }

    /// The channel placed at `time` of its track.
    pub open spec fn synced(self, track: Option<ClipTrack<S, V>>, time: S, looped: bool) -> Self {
        let zero = S::zero_spec();
        match track {
            Some(track) => {
                let (cursor, offset) = rebuilt_cursor(track, time, looped);
                let has_segment = cursor < track.segments.len();
                Channel {
                    cursor,
                    segment_time: offset,
                    segment_span: if has_segment {
                        track.segments[cursor as int].span.larger_spec(zero)
                    } else {
                        zero.larger_spec(zero)
                    },
                    segment_start: if cursor < track.keyframes.len() {
                        track.keyframes[cursor as int].value
                    } else {
                        V::origin_spec()
                    },
                    segment_slope: if has_segment {
                        track.segments[cursor as int].slope
                    } else {
                        V::origin_spec()
                    },
                    cached_index: if has_segment {
                        cursor
                    } else {
                        usize::MAX
                    },
                    cache_valid: has_segment,
                    state_current: true,
                    sample_dirty: true,
                    sample: self.sample,
                    last: self.last,
                }
            },
            None => Channel { sample: self.sample, ..self.cleared() },
        }
    }

    pub fn sync_state_to_time(&mut self, track: &Option<ClipTrack<S, V>>, time: S, looped: bool)
        ensures
            *final(self) == old(self).synced(*track, time, looped),
    {
        let zero = S::zero();
        match track {
            Some(track) => {
                let (cursor, offset) = rebuild_cursor(track, time, looped);
                self.cursor = cursor;
                self.segment_time = offset;
                if cursor < track.keyframes.len() {
                    self.segment_start = track.keyframes[cursor].value;
                } else {
                    self.segment_start = V::origin();
                }
                if cursor < track.segments.len() {
                    self.segment_span = track.segments[cursor].span.larger(zero);
                    self.segment_slope = track.segments[cursor].slope;
                    self.cached_index = cursor;
                    self.cache_valid = true;
                } else {
                    self.segment_span = zero.larger(zero);
                    self.segment_slope = V::origin();
                    self.cached_index = usize::MAX;
                    self.cache_valid = false;
                }
            },
            None => {
                self.cursor = 0;
                self.segment_time = zero;
                self.segment_span = zero;
                self.segment_start = V::origin();
                self.segment_slope = V::origin();
                self.cached_index = usize::MAX;
                self.cache_valid = false;
            },
        }
        self.state_current = true;
        self.sample_dirty = true;
    }
}

/// What a segment span counts as while a track advances.
pub open spec fn live_span<S: Scalar>(span: S) -> S {
    let positive = span.larger_spec(S::zero_spec());
    if positive.finite_spec() {
        positive
    } else {
        S::zero_spec()
    }
}

pub open spec fn span_of_segment<S: Scalar, V>(track: ClipTrack<S, V>, index: int) -> S {
    if 0 <= index < track.segments.len() {
        track.segments[index].span
    } else {
        S::zero_spec()
    }
}

/// Where a segment starts on the track's time axis.
pub open spec fn start_of_segment<S: Scalar, V>(track: ClipTrack<S, V>, index: int) -> S {
    if 0 <= index < track.segment_offsets.len() {
        track.segment_offsets[index]
    } else if 0 <= index < track.keyframes.len() {
        track.keyframes[index].time
    } else {
        S::zero_spec()
    }
}

fn segment_start_time<S: Scalar, V: Copy>(track: &ClipTrack<S, V>, index: usize) -> (r: S)
    ensures
        r == start_of_segment(*track, index as int),
{
    if index < track.segment_offsets.len() {
        track.segment_offsets[index]
    } else if index < track.keyframes.len() {
        track.keyframes[index].time
    } else {
        S::zero()
    }
}

fn live_segment_span<S: Scalar>(span: S) -> (r: S)
    ensures
        r == live_span(span),
{
    let positive = span.larger(S::zero());
    if positive.finite() {
        positive
    } else {
        S::zero()
    }
}

/// The step that is left of `delta` once whole rounds of a looped track are taken off.
pub open spec fn delta_within_round<S: Scalar>(delta: S, duration: S, looped: bool) -> S {
    if looped && S::zero_spec().lt_spec(duration) && duration.le_spec(delta) {
        delta.rem_euclid_by_spec(duration.larger_spec(S::machine_epsilon_spec()))
    } else {
        delta
    }
}

impl<S: Scalar, V: TrackValue<S>> Channel<S, V> {
    /// The channel with its cursor held within the segments and that segment's data at hand.
    pub open spec fn seated(self, track: ClipTrack<S, V>) -> Self {
        let last_segment = (track.segments.len() - 1) as usize;
        let index = if self.cursor < last_segment {
            self.cursor
        } else {
            last_segment
        };
        let cached = self.cache_valid && self.cached_index == index;
        let span = if S::zero_spec().lt_spec(self.segment_span) {
            self.segment_span
        } else {
            span_of_segment(track, index as int)
        };
        Channel {
            cursor: index,
            segment_start: if cached {
                self.segment_start
            } else {
                track.keyframes[index as int].value
            },
            segment_slope: if cached {
                self.segment_slope
            } else {
                track.segments[index as int].slope
            },
            cached_index: index,
            cache_valid: true,
            segment_span: live_span(span),
            ..self
        }
    }

    /// The channel and what happened to it after `delta` on its track.
    ///
    /// A step that fits into the segment moves the offset. A longer one finds the target time of
    /// the track, then the segment that holds it.
    pub open spec fn advanced(self, track: ClipTrack<S, V>, delta: S, looped: bool) -> (
        Self,
        TrackAdvanceResult<S>,
    ) {
        let zero = S::zero_spec();
        if track.keyframes.len() == 0 {
            (
                Channel {
                    cursor: 0,
                    segment_time: zero,
                    segment_span: zero,
                    cached_index: usize::MAX,
                    cache_valid: false,
                    ..self
                },
                no_advance(),
            )
        } else if track.keyframes.len() == 1 || track.segments.len() == 0 {
            (
                Channel {
                    cursor: 0,
                    segment_time: zero,
                    segment_span: zero,
                    segment_start: track.keyframes[0].value,
                    segment_slope: V::origin_spec(),
                    cached_index: 0,
                    cache_valid: true,
                    ..self
                },
                no_advance(),
            )
        } else {
            let seat = self.seated(track);
            let span = seat.segment_span;
            let offset = crate::scalar::clamped_spec(self.segment_time, zero, span);
            let step = delta_within_round(delta, track.duration, looped);
            let room = if offset.lt_spec(span) {
                span.minus_spec(offset)
            } else {
                zero
            };
            if delta.le_spec(zero) || step.le_spec(zero) {
                (Channel { segment_time: offset, ..seat }, no_advance())
            } else if span.le_spec(zero) || step.le_spec(room) {
                let moved = if zero.lt_spec(span) {
                    offset.plus_spec(step).smaller_spec(span)
                } else {
                    zero
                };
                (
                    Channel { segment_time: moved, ..seat },
                    TrackAdvanceResult {
                        advanced: true,
                        segment_changed: false,
                        offset_delta: moved.minus_spec(offset),
                        crosses: 0,
                    },
                )
            } else {
                let (target, rounds) = target_time(
                    start_of_segment(track, seat.cursor as int).plus_spec(offset).plus_spec(step),
                    track.duration,
                    track.duration_inv,
                    looped,
                );
                let index = segment_index_at(
                    track.segment_offsets@,
                    target,
                    track.segments.len() - 1,
                );
                let new_span = live_span(span_of_segment(track, index));
                let moved = if new_span.le_spec(zero) {
                    zero
                } else {
                    crate::scalar::clamped_spec(
                        target.minus_spec(start_of_segment(track, index)),
                        zero,
                        new_span,
                    )
                };
                (
                    Channel {
                        cursor: index as usize,
                        segment_time: moved,
                        segment_span: new_span,
                        segment_start: track.keyframes[index].value,
                        segment_slope: track.segments[index].slope,
                        cached_index: index as usize,
                        cache_valid: true,
                        ..seat
                    },
                    TrackAdvanceResult {
                        advanced: true,
                        segment_changed: index != seat.cursor,
                        offset_delta: if index != seat.cursor {
                            zero
                        } else {
                            moved.minus_spec(offset)
                        },
                        crosses: segments_between(
                            track.segments.len() as nat,
                            seat.cursor as int,
                            index,
                            rounds,
                            looped,
                        ),
                    },
                )
            }
        }
    }

    pub fn advance_track_state(&mut self, track: &ClipTrack<S, V>, delta: S, looped: bool) -> (r:
        TrackAdvanceResult<S>)
        requires
            track.wf(),
        ensures
            (*final(self), r) == old(self).advanced(*track, delta, looped),
    {
        let zero = S::zero();
        let mut result = TrackAdvanceResult {
            advanced: false,
            segment_changed: false,
            offset_delta: zero,
            crosses: 0,
        };
        if track.keyframes.len() == 0 {
            self.cursor = 0;
            self.segment_time = zero;
            self.segment_span = zero;
            self.cached_index = usize::MAX;
            self.cache_valid = false;
            return result;
        }
        if track.keyframes.len() == 1 || track.segments.len() == 0 {
            self.cursor = 0;
            self.segment_time = zero;
            self.segment_span = zero;
            self.segment_start = track.keyframes[0].value;
            self.segment_slope = V::origin();
            self.cached_index = 0;
            self.cache_valid = true;
            return result;
        }
        let last_segment: usize = track.segments.len() - 1;
        let index: usize = if self.cursor < last_segment {
            self.cursor
        } else {
            last_segment
        };
        self.cursor = index;
        if !self.cache_valid || self.cached_index != index {
            self.segment_start = track.keyframes[index].value;
            self.segment_slope = track.segments[index].slope;
            self.cached_index = index;
            self.cache_valid = true;
        }
        let raw_span = if zero.lt(self.segment_span) {
            self.segment_span
        } else {
            track.segments[index].span
        };
        let span = live_segment_span(raw_span);
        self.segment_span = span;
        assert(*self == (Channel { segment_time: old(self).segment_time, ..old(self).seated(*track) }));
        let mut offset = clamped(self.segment_time, zero, span);
        let initial_offset = offset;
        if delta.le(zero) {
            self.segment_time = offset;
            return result;
        }
        let mut step = delta;
        if looped && zero.lt(track.duration) && track.duration.le(delta) {
            let round = track.duration.larger(S::machine_epsilon());
            step = delta.rem_euclid_by(round);
            if step.le(zero) {
                self.segment_time = offset;
                return result;
            }
        }
        result.advanced = true;
        let room = if offset.lt(span) {
            span.minus(offset)
        } else {
            zero
        };
        if span.le(zero) || step.le(room) {
            if zero.lt(span) {
                offset = offset.plus(step).smaller(span);
            } else {
                offset = zero;
            }
            self.segment_time = offset;
            result.offset_delta = offset.minus(initial_offset);
            return result;
        }
        let start_time = segment_start_time(track, index);
        let (target, rounds) = resolve_target_time(
            start_time.plus(offset).plus(step),
            track.duration,
            track.duration_inv,
            looped,
        );
        let new_index: usize = locate_segment_index(&track.segment_offsets, target, last_segment);
        let new_start = segment_start_time(track, new_index);
        let new_span = live_segment_span(track.segments[new_index].span);
        let mut new_offset = clamped(target.minus(new_start), zero, new_span);
        if new_span.le(zero) {
            new_offset = zero;
        }
        self.segment_start = track.keyframes[new_index].value;
        self.segment_slope = track.segments[new_index].slope;
        self.cached_index = new_index;
        self.cache_valid = true;
        self.cursor = new_index;
        self.segment_span = new_span;
        self.segment_time = new_offset;
        result.segment_changed = new_index != index;
        if !result.segment_changed {
            result.offset_delta = new_offset.minus(initial_offset);
        }
        result.crosses = compute_segment_crosses(
            track.segments.len(),
            index,
            new_index,
            rounds,
            looped,
        );
        result
    }

    /// Whether an advanced channel still knows its sample: it does when it stayed in its segment
    /// and had one.
    pub open spec fn resampled(
        self,
        before: Self,
        interpolation: ClipInterpolation,
        result: TrackAdvanceResult<S>,
    ) -> Self {
        if !result.advanced {
            self
        } else if !before.sample_dirty && !result.segment_changed && before.sample is Some {
            if interpolation is Step || result.offset_delta.same_spec(S::zero_spec()) {
                Channel { sample_dirty: false, ..self }
            } else {
                Channel {
                    sample_dirty: false,
                    sample: Some(
                        before.sample->0.shifted_spec(self.segment_slope, result.offset_delta),
                    ),
                    ..self
                }
            }
        } else {
            Channel { sample_dirty: true, ..self }
        }
    }

    /// One channel's part of advancing a clip: a channel without a track is cleared, one that is
    /// not played falls behind, one that fell behind is placed anew, the others move on.
    pub open spec fn stepped(
        self,
        present: bool,
        track: Option<ClipTrack<S, V>>,
        played: bool,
        time: S,
        looped: bool,
        delta: S,
    ) -> (Self, u64) {
        if !present || track is None {
            (self.cleared(), 0)
        } else if played {
            if !self.state_current {
                (self.synced(track, time, looped), 0)
            } else if S::zero_spec().lt_spec(delta) {
                let (moved, result) = self.advanced(track->0, delta, looped);
                (moved.resampled(self, track->0.interpolation, result), result.crosses)
            } else {
                (self, 0)
            }
        } else if S::zero_spec().lt_spec(delta) {
            (Channel { state_current: false, sample_dirty: true, ..self }, 0)
        } else {
            (self, 0)
        }
    }

    pub fn step(
        &mut self,
        present: bool,
        track: &Option<ClipTrack<S, V>>,
        played: bool,
        time: S,
        looped: bool,
        delta: S,
    ) -> (crosses: u64)
        requires
            track is Some ==> track->0.wf(),
        ensures
            (*final(self), crosses) == old(self).stepped(
                present,
                *track,
                played,
                time,
                looped,
                delta,
            ),
    {
        if !present {
            self.clear();
            return 0;
        }
        match track {
            Some(found) => {
                if played {
                    if !self.state_current {
                        self.sync_state_to_time(track, time, looped);
                        0
                    } else if S::zero().lt(delta) {
                        let was_clean: bool = !self.sample_dirty;
                        let result = self.advance_track_state(found, delta, looped);
                        if result.advanced {
                            let mut kept_clean: bool = false;
                            if was_clean && !result.segment_changed {
                                if let Some(value) = self.sample {
                                    if !matches!(found.interpolation, ClipInterpolation::Step)
                                        && !result.offset_delta.same(S::zero()) {
                                        self.sample = Some(
                                            value.shifted(self.segment_slope, result.offset_delta),
                                        );
                                    }
                                    kept_clean = true;
                                }
                            }
                            self.sample_dirty = !kept_clean;
                        }
                        result.crosses
                    } else {
                        0
                    }
                } else if S::zero().lt(delta) {
                    self.state_current = false;
                    self.sample_dirty = true;
                    0
                } else {
                    0
                }
            },
            None => {
                self.clear();
                0
            },
        }
    }

    /// Whether a step of `delta` stays clear of the segment's end.
    pub open spec fn has_room(self, delta: S) -> bool {
        let zero = S::zero_spec();
        let eps = S::clip_epsilon_spec();
        let span = self.segment_span.larger_spec(zero);
        let offset = crate::scalar::clamped_spec(self.segment_time, zero, span);
        let remaining = span.minus_spec(offset).larger_spec(zero);
        !span.le_spec(zero) && eps.lt_spec(remaining) && delta.le_spec(remaining.minus_spec(eps))
    }

    pub fn fast_segment_has_room(&self, delta: S) -> (r: bool)
        ensures
            r == self.has_room(delta),
    {
        let zero = S::zero();
        let eps = S::clip_epsilon();
        let span = self.segment_span.larger(zero);
        if span.le(zero) {
            return false;
        }
        let offset = clamped(self.segment_time, zero, span);
        let remaining = span.minus(offset).larger(zero);
        eps.lt(remaining) && delta.le(remaining.minus(eps))
    }

    /// A step that stays within the segment: the offset moves, and a known sample with it.
    pub open spec fn nudged(self, track: Option<ClipTrack<S, V>>, delta: S) -> Self {
        let zero = S::zero_spec();
        let span = self.segment_span.larger_spec(zero);
        let moved = Channel {
            segment_time: if span.le_spec(zero) {
                zero
            } else {
                crate::scalar::clamped_spec(self.segment_time, zero, span).plus_spec(
                    delta,
                ).smaller_spec(span)
            },
            ..self
        };
        if self.sample_dirty {
            moved
        } else if track is None {
            Channel { sample_dirty: true, ..moved }
        } else if track->0.interpolation is Step {
            moved
        } else if self.sample is Some {
            Channel {
                sample: Some(self.sample->0.shifted_spec(self.segment_slope, delta)),
                ..moved
            }
        } else {
            Channel { sample_dirty: true, ..moved }
        }
    }

    pub fn nudge(&mut self, track: &Option<ClipTrack<S, V>>, delta: S)
        ensures
            *final(self) == old(self).nudged(*track, delta),
    {
        let zero = S::zero();
        let span = self.segment_span.larger(zero);
        if span.le(zero) {
            self.segment_time = zero;
        } else {
            let offset = clamped(self.segment_time, zero, span);
            self.segment_time = offset.plus(delta).smaller(span);
        }
        if self.sample_dirty {
            return;
        }
        match track {
            Some(found) => {
                if !matches!(found.interpolation, ClipInterpolation::Step) {
                    if let Some(value) = self.sample {
                        self.sample = Some(value.shifted(self.segment_slope, delta));
                    } else {
                        self.sample_dirty = true;
                    }
                }
            },
            None => {
                self.sample_dirty = true;
            },
        }
    }

    /// The value that the channel's own segment data give.
    pub open spec fn state_value(self, track: ClipTrack<S, V>) -> Option<V> {
        let zero = S::zero_spec();
        if self.cache_valid && self.cached_index == self.cursor {
            let span = self.segment_span.larger_spec(zero);
            let offset = if zero.lt_spec(span) {
                crate::scalar::clamped_spec(self.segment_time, zero, span)
            } else {
                zero
            };
            Some(
                if track.interpolation is Step {
                    if (span.le_spec(zero) || span.le_spec(offset)) && self.cursor + 1
                        < track.keyframes.len() {
                        track.keyframes[self.cursor + 1].value
                    } else {
                        self.segment_start
                    }
                } else if zero.lt_spec(span) {
                    self.segment_start.shifted_spec(
                        self.segment_slope,
                        crate::scalar::clamped_spec(offset, zero, span),
                    )
                } else {
                    self.segment_start
                },
            )
        } else {
            track_value_from_state(track, self.cursor as int, self.segment_time)
        }
    }

    pub fn sample_from_state_cached(&self, track: &ClipTrack<S, V>) -> (r: Option<V>)
        ensures
            r == self.state_value(*track),
    {
        let zero = S::zero();
        if self.cache_valid && self.cached_index == self.cursor {
            let span = self.segment_span.larger(zero);
            let offset = if zero.lt(span) {
                clamped(self.segment_time, zero, span)
            } else {
                zero
            };
            if matches!(track.interpolation, ClipInterpolation::Step) {
                if (span.le(zero) || span.le(offset)) && self.cursor < track.keyframes.len()
                    && self.cursor + 1 < track.keyframes.len() {
                    Some(track.keyframes[self.cursor + 1].value)
                } else {
                    Some(self.segment_start)
                }
            } else if zero.lt(span) {
                Some(self.segment_start.shifted(self.segment_slope, clamped(offset, zero, span)))
            } else {
                Some(self.segment_start)
            }
        } else {
            sample_track_from_state(track, self.cursor, self.segment_time)
        }
    }

    /// The channel with its place and its sample brought up to date.
    pub open spec fn refreshed(self, track: Option<ClipTrack<S, V>>, time: S, looped: bool) -> Self {
        let placed = if self.state_current {
            self
        } else {
            self.synced(track, time, looped)
        };
        if placed.sample_dirty {
            Channel {
                sample: match track {
                    Some(found) => placed.state_value(found),
                    None => None,
                },
                sample_dirty: false,
                ..placed
            }
        } else {
            placed
        }
    }

    pub fn ensure_sample(&mut self, track: &Option<ClipTrack<S, V>>, time: S, looped: bool)
        ensures
            *final(self) == old(self).refreshed(*track, time, looped),
    {
        if !self.state_current {
            self.sync_state_to_time(track, time, looped);
        }
        if self.sample_dirty {
            self.sample = match track {
                Some(found) => self.sample_from_state_cached(found),
                None => None,
            };
            self.sample_dirty = false;
        }
    }
}

pub proof fn lemma_refreshed_once<S: Scalar, V: TrackValue<S>>(
    channel: Channel<S, V>,
    track: Option<ClipTrack<S, V>>,
    time: S,
    looped: bool,
)
    ensures
        channel.refreshed(track, time, looped).refreshed(track, time, looped)
            == channel.refreshed(track, time, looped),
{
}

} // verus!
