//! What tracks come to: they go through their keyframes, and between two of them they stay between.
use vstd::prelude::*;
use crate::clip_track::{
    cursor_at, first_start_above, keyframe_times, keyframes_value, lemma_first_start_above,
    normalized_time, segments_between, window_end, ClipInterpolation, ClipKeyframe,
};
use crate::scalar::{Fixed, Scalar};

verus! {

/// Whether keyframes come one after the other, not too far apart, and hold no extreme values.
pub open spec fn comes_in_order(frames: Seq<ClipKeyframe<Fixed, Fixed>>) -> bool {
    &&& 0 < frames.len()
    &&& forall|i: int, j: int|
        0 <= i < j < frames.len() ==> (#[trigger] frames[i]).time.0 < (#[trigger] frames[j]).time.0
    &&& forall|i: int|
        0 <= i < frames.len() ==> -0x1000_0000_0000_0000 <= (#[trigger] frames[i]).time.0
            <= 0x1000_0000_0000_0000 && -0x1000_0000_0000_0000 <= frames[i].value.0
            <= 0x1000_0000_0000_0000
}

/// The first keyframe that ends the window of a time.
proof fn lemma_window(
    frames: Seq<ClipKeyframe<Fixed, Fixed>>,
    time: Fixed,
    strict: bool,
    from: int,
    at: int,
)
    requires
        comes_in_order(frames),
        1 <= from <= at <= frames.len(),
        forall|j: int|
            from <= j < at ==> if strict {
                (#[trigger] frames[j]).time.0 <= time.0
            } else {
                frames[j].time.0 < time.0
            },
        at < frames.len() ==> if strict {
            time.0 < frames[at].time.0
        } else {
            time.0 <= frames[at].time.0
        },
    ensures
        window_end(frames, time, strict, from) == at,
    decreases at - from,
{
    if from < at {
        lemma_window(frames, time, strict, from + 1, at);
    }
}

/// A track has at the time of a keyframe the value of that keyframe, the first value before the
/// first, and the last after the last.
pub proof fn law_tracks_go_through_their_keyframes(
    frames: Seq<ClipKeyframe<Fixed, Fixed>>,
    mode: ClipInterpolation,
    i: int,
    time: Fixed,
)
    requires
        comes_in_order(frames),
        0 <= i < frames.len(),
    ensures
        keyframes_value(frames, mode, frames[i].time) == frames[i].value,
        time.0 <= frames[0].time.0 ==> keyframes_value(frames, mode, time) == frames[0].value,
        frames.last().time.0 <= time.0 ==> keyframes_value(frames, mode, time) == frames.last().value,
{
    let n = frames.len() as int;
    lemma_at_keyframe(frames, mode, i);
    if frames.last().time.0 <= time.0 && 1 < n {
        if frames.last().time.0 == time.0 {
            lemma_at_keyframe(frames, mode, n - 1);
        } else {
            lemma_window(frames, time, mode is Step, 1, n);
        }
    }
}

proof fn lemma_at_keyframe(frames: Seq<ClipKeyframe<Fixed, Fixed>>, mode: ClipInterpolation, i: int)
    requires
        comes_in_order(frames),
        0 <= i < frames.len(),
    ensures
        keyframes_value(frames, mode, frames[i].time) == frames[i].value,
{
    let n = frames.len() as int;
    let t = frames[i].time;
    if n > 1 && 0 < i {
        if mode is Step {
            lemma_window(frames, t, true, 1, i + 1);
        } else {
            lemma_window(frames, t, false, 1, i);
            let d = t.0 - frames[i - 1].time.0;
            assert(0 < d);
            assert(d * 65536 / d == 65536) by (nonlinear_arith)
                requires
                    0 < d,
            ;
            let v = frames[i].value.0 - frames[i - 1].value.0;
            assert(v * 65536 / 65536 == v);
        }
    }
}

/// Between two keyframes the value lies between theirs, and a track that goes in steps keeps the value
/// of the one before. A track that does not goes on to the second value as time goes on: the later
/// the nearer.
pub proof fn law_tracks_stay_between_their_keyframes(
    frames: Seq<ClipKeyframe<Fixed, Fixed>>,
    mode: ClipInterpolation,
    i: int,
    t1: Fixed,
    t2: Fixed,
)
    requires
        comes_in_order(frames),
        0 <= i < frames.len() - 1,
        frames[i].time.0 < t1.0 <= t2.0 < frames[i + 1].time.0,
    ensures
        ({
            let a = frames[i].value.0;
            let b = frames[i + 1].value.0;
            let v1 = keyframes_value(frames, mode, t1).0;
            let v2 = keyframes_value(frames, mode, t2).0;
            &&& mode is Step ==> v1 == a && v2 == a
            &&& a <= b ==> a <= v1 <= v2 <= b
            &&& b <= a ==> b <= v2 <= v1 <= a
            &&& !(mode is Step) ==> {
                let span = frames[i + 1].time.0 - frames[i].time.0;
                let alpha = (t1.0 - frames[i].time.0) * 65536 / span;
                v1 == a + (b - a) * alpha / 65536
            }
        }),
{
    lemma_window(frames, t1, mode is Step, 1, i + 1);
    lemma_window(frames, t2, mode is Step, 1, i + 1);
    let span = frames[i + 1].time.0 - frames[i].time.0;
    let d1 = (t1.0 - frames[i].time.0) * 65536;
    let d2 = (t2.0 - frames[i].time.0) * 65536;
    let q1 = d1 / span;
    let q2 = d2 / span;
    assert(0 <= q1 && q1 <= q2 && q2 <= 65536) by (nonlinear_arith)
        requires
            q1 == d1 / span,
            q2 == d2 / span,
            0 <= d1 <= d2 <= span * 65536,
            0 < span,
    ;
    let v = frames[i + 1].value.0 - frames[i].value.0;
    let p1 = v * q1;
    let p2 = v * q2;
    assert(0 <= v ==> 0 <= p1 <= p2 <= v * 65536) by (nonlinear_arith)
        requires
            p1 == v * q1,
            p2 == v * q2,
            0 <= q1 <= q2 <= 65536,
    ;
    assert(v <= 0 ==> v * 65536 <= p2 <= p1 <= 0) by (nonlinear_arith)
        requires
            p1 == v * q1,
            p2 == v * q2,
            0 <= q1 <= q2 <= 65536,
    ;
    assert(v * 65536 / 65536 == v);
}

/// A cursor stands at the keyframe before its time, as far from it as the time is.
pub proof fn law_cursors_stand_before_their_time(
    frames: Seq<ClipKeyframe<Fixed, Fixed>>,
    time: Fixed,
)
    requires
        comes_in_order(frames),
        1 < frames.len() <= usize::MAX,
        frames[0].time.0 <= time.0 <= frames.last().time.0,
    ensures
        ({
            let (index, offset) = cursor_at(frames, time);
            &&& index + 1 < frames.len()
            &&& frames[index as int].time.0 <= time.0 <= frames[index + 1].time.0
            &&& frames[index as int].time.0 + offset.0 == time.0
        }),
{
    let times = keyframe_times(frames);
    lemma_first_start_above(times, time, 0);
    let above = first_start_above(times, time, 0);
    if !(time.0 <= frames[0].time.0) {
        if above == 0 {
            assert(!times[0].le_spec(time));
        }
        if above < frames.len() {
            assert(!times[above].le_spec(time));
        } else {
            assert(frames.last().time.0 <= time.0) by {
                assert(times[frames.len() - 1].le_spec(time));
            }
        }
        let index = cursor_at(frames, time).0 as int;
        assert(times[index].le_spec(time));
    }
}

/// A clip that does not repeat is read no earlier than its start and no later than its end; within
/// them, at the time itself.
pub proof fn law_clips_end_at_their_end(time: Fixed, duration: Fixed, inverse: Fixed)
    requires
        0 < duration.0,
    ensures
        ({
            let read = normalized_time(time, duration, inverse, false);
            &&& time.0 <= 0 ==> read.0 == 0
            &&& duration.0 <= time.0 ==> read == duration
            &&& 0 <= time.0 <= duration.0 ==> read == time
        }),
{
}

/// From one segment to a later one of the same round those between them are crossed, from a segment
/// to the next one none is; and every round more crosses all segments once more.
pub proof fn law_crossings_count_what_lies_between(count: nat, from: int, to: int, rounds: u64)
    requires
        0 < count,
        0 <= from < count,
        0 <= to < count,
        (rounds + 1) * count + to <= u64::MAX,
        rounds < u64::MAX,
    ensures
        from < to ==> segments_between(count, from, to, 0, false) + from + 1 == to,
        to <= from ==> segments_between(count, from, to, 0, false) == 0,
        segments_between(count, from, to, 0, true) == segments_between(count, from, to, 0, false),
        0 < rounds ==> segments_between(count, from, to, (rounds + 1) as u64, true)
            == segments_between(count, from, to, rounds, true) + count,
{
    assert(0 * count == 0);
    let a = rounds * count;
    assert((rounds + 1) * count == a + count) by (nonlinear_arith)
        requires
            a == rounds * count,
    ;
    if 0 < rounds {
        assert(count <= a) by (nonlinear_arith)
            requires
                a == rounds * count,
                0 < rounds,
        ;
    }
}

} // verus!
