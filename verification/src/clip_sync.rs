//! That the place which a channel keeps stays in step with the time of its clip, and that what it
//! reads there is what the track has there. Times are fixed-point numbers, which add exactly.
use vstd::arithmetic::div_mod::{
    lemma_add_mod_noop, lemma_mod_bound, lemma_mod_sub_multiples_vanish, lemma_mod_twice,
    lemma_small_mod,
};
use vstd::prelude::*;
use crate::clip_track::{
    cursor_at, delta_within_round, first_start_above, keyframe_times, lemma_first_start_above,
    normalized_time, segment_index_at, span_of_segment, start_of_segment, target_time,
    track_value_at, window_end, wrapped_time, Channel, ClipTrack,
};
use crate::clip::{ClipChannelMask, ClipInstance};
use crate::scalar::{Fixed, Scalar, TrackValue};

verus! {

/// Whether the segments of a track lie one behind the other between its keyframes, and the track
/// lasts until the last of them.
pub open spec fn segments_laid<V>(track: ClipTrack<Fixed, V>) -> bool {
    let n = track.segments@.len() as int;
    &&& n >= 1
    &&& track.keyframes@.len() == n + 1
    &&& track.segment_offsets@.len() == n
    &&& 0 <= track.keyframes@[0].time.0
    &&& forall|i: int|
        0 <= i < n ==> (#[trigger] track.segments@[i]).span.0 >= 1 && track.keyframes@[i].time.0
            + track.segments@[i].span.0 == track.keyframes@[i + 1].time.0
    &&& forall|i: int|
        0 <= i < n ==> #[trigger] track.segment_offsets@[i] == track.keyframes@[i].time
    &&& track.duration == track.keyframes@[n].time
    &&& track.duration.0 < i64::MAX
}

/// Whether a number that is multiplied with in place of a division is no larger than the quotient
/// of one and the duration.
pub open spec fn inverse_fits(duration: Fixed, inverse: Fixed) -> bool {
    0 <= inverse.0 && duration.0 * inverse.0 <= 65536 * 65536
}

/// The time of a keyframe.
pub open spec fn time_of<V>(track: ClipTrack<Fixed, V>, i: int) -> int {
    track.keyframes@[i].time.0 as int
}

proof fn lemma_times_grow<V>(track: ClipTrack<Fixed, V>, i: int, j: int)
    requires
        segments_laid(track),
        0 <= i <= j <= track.segments@.len(),
    ensures
        0 <= time_of(track, i),
        time_of(track, i) + (j - i) <= time_of(track, j) <= track.duration.0,
    decreases track.segments@.len() - i, j - i,
{
    let n = track.segments@.len() as int;
    if i > 0 {
        lemma_time_not_negative(track, i);
    }
    if i < j {
        assert(track.segments@[i].span.0 >= 1);
        lemma_times_grow(track, i + 1, j);
    } else if j < n {
        assert(track.segments@[j].span.0 >= 1);
        lemma_times_grow(track, j + 1, n);
    }
}

proof fn lemma_time_not_negative<V>(track: ClipTrack<Fixed, V>, i: int)
    requires
        segments_laid(track),
        0 <= i <= track.segments@.len(),
    ensures
        0 <= time_of(track, i),
    decreases i,
{
    if i > 0 {
        assert(track.segments@[i - 1].span.0 >= 1);
        lemma_time_not_negative(track, i - 1);
    }
}

impl<V: TrackValue<Fixed>> Channel<Fixed, V> {
    /// Where the channel stands on the time axis of its track.
    pub open spec fn place(self, track: ClipTrack<Fixed, V>) -> int {
        time_of(track, self.cursor as int) + self.segment_time.0
    }

    /// Whether the channel stands within a segment of its track and has that segment at hand.
    pub open spec fn stands(self, track: ClipTrack<Fixed, V>) -> bool {
        let i = self.cursor as int;
        &&& self.state_current
        &&& i < track.segments@.len()
        &&& 0 <= self.segment_time.0 <= track.segments@[i].span.0
        &&& self.segment_span == track.segments@[i].span
        &&& self.cache_valid
        &&& self.cached_index == self.cursor
        &&& self.segment_start == track.keyframes@[i].value
        &&& self.segment_slope == track.segments@[i].slope
    }

    /// Whether the channel stands at a time of its track, held between the first and the last
    /// keyframe.
    pub open spec fn stands_at(self, track: ClipTrack<Fixed, V>, t: Fixed) -> bool {
        self.stands(track) && self.place(track) == held_between(track, t)
    }
}

/// A time held between the first and the last keyframe of a track.
pub open spec fn held_between<V>(track: ClipTrack<Fixed, V>, t: Fixed) -> int {
    if t.0 < time_of(track, 0) {
        time_of(track, 0)
    } else if track.duration.0 < t.0 {
        track.duration.0 as int
    } else {
        t.0 as int
    }
}

/// The time of its own at which a track is read when its clip is at a time.
pub open spec fn read_at<V>(track: ClipTrack<Fixed, V>, t: Fixed, looped: bool) -> Fixed {
    normalized_time(t, track.duration, track.duration_inv, looped)
}

/// Where a track that stood at `t` stands `delta` later: at its end, or some rounds on.
pub open spec fn place_after(t: int, delta: int, duration: int, looped: bool) -> int {
    if looped {
        (t + delta) % duration
    } else if t + delta < duration {
        t + delta
    } else {
        duration
    }
}

/// Whether a place is not within the slack of one unit around the start and the end.
pub open spec fn clear_of_ends(place: int, duration: int) -> bool {
    1 < place < duration - 1
}

proof fn lemma_seated<V: TrackValue<Fixed>>(ch: Channel<Fixed, V>, track: ClipTrack<Fixed, V>)
    requires
        segments_laid(track),
        ch.stands(track),
    ensures
        ch.seated(track) == ch,
{
    assert(track.segments@[ch.cursor as int].span.0 >= 1);
}

/// Whether the rounds of a looped time are counted right, so that what is left is its remainder.
pub open spec fn rounds_counted(time: Fixed, duration: Fixed, inverse: Fixed) -> bool {
    wrapped_time(time, duration, inverse).0 == time.0 as int % duration.0 as int
}

/// The rounds of a time that is less than two rounds on are counted right.
pub proof fn law_first_rounds_are_counted(time: Fixed, duration: Fixed, inverse: Fixed)
    requires
        0 < duration.0 < i64::MAX,
        0 <= time.0,
        time.0 < 2 * duration.0,
        inverse_fits(duration, inverse),
    ensures
        rounds_counted(time, duration, inverse),
{
    let d = duration.0 as int;
    let t = time.0 as int;
    let p = t * inverse.0;
    let k = p / 65536 / 65536;
    if t < d {
        lemma_small_mod(t as nat, d as nat);
    } else {
        lemma_mod_sub_multiples_vanish(t, d);
        lemma_small_mod((t - d) as nat, d as nat);
    }
    if inverse.0 > 0 {
        assert(0 <= p) by (nonlinear_arith)
            requires
                p == t * inverse.0,
                0 <= t,
                0 < inverse.0,
        ;
        assert(p * d == t * (d * inverse.0)) by (nonlinear_arith)
            requires
                p == t * inverse.0,
        ;
        assert(p < 2 * 65536 * 65536) by (nonlinear_arith)
            requires
                p * d == t * (d * inverse.0),
                0 <= d * inverse.0 <= 65536 * 65536,
                0 <= t < 2 * d,
                0 <= p,
                0 < d,
        ;
        assert(t < d ==> p < 65536 * 65536) by (nonlinear_arith)
            requires
                p * d == t * (d * inverse.0),
                0 <= d * inverse.0 <= 65536 * 65536,
                0 <= t,
                0 <= p,
                0 < d,
        ;
        let scaled = time.times_spec(inverse);
        assert(scaled.0 == p / 65536);
        let whole = scaled.floored_spec();
        assert(whole.0 == k * 65536);
        assert(k == 0 || k == 1);
        assert(t < d ==> k == 0);
        let taken = whole.times_spec(duration);
        assert((k * 65536 * d) / 65536 == k * d) by {
            if k == 0 {
                assert(k * 65536 * d == 0) by (nonlinear_arith)
                    requires
                        k == 0,
                ;
            } else {
                assert(k * 65536 * d == 65536 * d) by (nonlinear_arith)
                    requires
                        k == 1,
                ;
            }
        }
        assert(taken.0 == k * d);
    }
}

/// Where the target of a step is, for a time that is less than two rounds on: at its place, or at
/// the end that it is within the slack of.
proof fn lemma_target(u: Fixed, duration: Fixed, inverse: Fixed, looped: bool)
    requires
        1 < duration.0 < i64::MAX,
        0 <= u.0,
        looped ==> u.0 < 2 * duration.0,
        inverse_fits(duration, inverse),
    ensures
        ({
            let y = target_time(u, duration, inverse, looped).0.0;
            let x = place_after(0, u.0 as int, duration.0 as int, looped);
            &&& 0 <= y <= duration.0
            &&& looped ==> y == (if x <= 1 || duration.0 - x <= 1 {
                0
            } else {
                x
            })
            &&& !looped ==> y == (if duration.0 - 1 <= x {
                duration.0 as int
            } else {
                x
            })
        }),
{
    if looped {
        law_first_rounds_are_counted(u, duration, inverse);
        lemma_mod_bound(u.0 as int, duration.0 as int);
    }
}

/// The segment that holds a time of the track.
proof fn lemma_segment_found<V>(track: ClipTrack<Fixed, V>, y: Fixed)
    requires
        segments_laid(track),
        0 <= y.0 <= track.duration.0,
    ensures
        ({
            let n = track.segments@.len() as int;
            let i = segment_index_at(track.segment_offsets@, y, n - 1);
            &&& 0 <= i < n
            &&& y.0 < time_of(track, 0) ==> i == 0
            &&& time_of(track, 0) <= y.0 ==> time_of(track, i) <= y.0 <= time_of(track, i)
                + track.segments@[i].span.0
        }),
{
    let n = track.segments@.len() as int;
    let starts = track.segment_offsets@;
    let above = first_start_above(starts, y, 0);
    lemma_first_start_above(starts, y, 0);
    if above > 0 {
        let i = above - 1;
        assert(starts[i].le_spec(y));
        assert(starts[i] == track.keyframes@[i].time);
        lemma_times_grow(track, 0, i);
        assert(track.segments@[i].span.0 >= 1);
        if above < n {
            assert(starts[above] == track.keyframes@[above].time);
        }
    } else {
        assert(starts[0] == track.keyframes@[0].time);
    }
}

impl<V: TrackValue<Fixed>> Channel<Fixed, V> {
    /// The step that a channel takes: whole rounds of a looped track are taken off.
    pub open spec fn own_step(self, track: ClipTrack<Fixed, V>, delta: Fixed, looped: bool) -> int {
        delta_within_round(delta, track.duration, looped).0 as int
    }

    /// Whether a step ends in the segment that the channel stands in.
    pub open spec fn stays_in_segment(
        self,
        track: ClipTrack<Fixed, V>,
        delta: Fixed,
        looped: bool,
    ) -> bool {
        self.segment_time.0 + self.own_step(track, delta, looped) <= self.segment_span.0
    }
}

/// A channel keeps time. A step that ends in its segment moves it by just that. A longer one leads
/// to where the track is then: at the end of a track that does not loop, or some rounds on, and from
/// within the slack of one unit around the ends right to the end or the start.
#[verifier::rlimit(60)]
pub proof fn law_track_keeps_time<V: TrackValue<Fixed>>(
    ch: Channel<Fixed, V>,
    track: ClipTrack<Fixed, V>,
    delta: Fixed,
    looped: bool,
)
    requires
        segments_laid(track),
        inverse_fits(track.duration, track.duration_inv),
        ch.stands(track),
        0 <= delta.0,
        ch.place(track) + delta.0 <= i64::MAX,
        1 < track.duration.0,
    ensures
        ({
            let after = ch.advanced(track, delta, looped).0;
            let d = track.duration.0 as int;
            let p = ch.place(track);
            let step = ch.own_step(track, delta, looped);
            let x = place_after(p, delta.0 as int, d, looped);
            &&& after.stands(track)
            &&& 0 <= step <= delta.0
            &&& looped ==> step < d && (p + step) % d == (p + delta.0) % d
            &&& delta.0 < d || !looped ==> step == delta.0
            &&& if ch.stays_in_segment(track, delta, looped) {
                after.place(track) == p + step
            } else {
                after.place(track) == held_between(
                    track,
                    if looped {
                        Fixed(
                            if x <= 1 || d - x <= 1 {
                                0
                            } else {
                                x as i64
                            },
                        )
                    } else {
                        Fixed(
                            if d - 1 <= x {
                                track.duration.0
                            } else {
                                x as i64
                            },
                        )
                    },
                )
            }
            &&& clear_of_ends(x, d) ==> after.stands_at(track, Fixed(x as i64))
        }),
{
    let n = track.segments@.len() as int;
    let d = track.duration.0 as int;
    let at = ch.cursor as int;
    let t0 = ch.place(track);
    lemma_seated(ch, track);
    lemma_times_grow(track, 0, at);
    lemma_times_grow(track, at, n);
    assert(track.segments@[at].span.0 >= 1);
    assert(time_of(track, at) + track.segments@[at].span.0 == time_of(track, at + 1));
    lemma_times_grow(track, at + 1, n);
    let step = delta_within_round(delta, track.duration, looped);
    lemma_mod_bound(delta.0 as int, d);
    assert(looped ==> (t0 + step.0) % d == (t0 + delta.0) % d && 0 <= step.0 < d) by {
        if looped {
            if d <= delta.0 {
                lemma_mod_twice(delta.0 as int, d);
                lemma_add_mod_noop(t0, delta.0 as int, d);
                lemma_add_mod_noop(t0, step.0 as int, d);
            } else {
                lemma_small_mod(delta.0 as nat, d as nat);
            }
        }
    }
    let x = place_after(t0, delta.0 as int, d, looped);
    let after = ch.advanced(track, delta, looped).0;
    let room = track.segments@[at].span.0 - ch.segment_time.0;
    if step.0 <= room || delta.0 == 0 {
        assert(after.place(track) == t0 + step.0);
        if looped {
            let y = t0 + step.0;
            if y < d {
                lemma_small_mod(y as nat, d as nat);
            } else {
                vstd::arithmetic::div_mod::lemma_mod_self_0(d);
            }
        }
    } else {
        let u = start_of_segment(track, at).plus_spec(ch.segment_time).plus_spec(step);
        assert(start_of_segment(track, at) == track.keyframes@[at].time);
        assert(u.0 == t0 + step.0);
        let target = target_time(u, track.duration, track.duration_inv, looped).0;
        lemma_target(u, track.duration, track.duration_inv, looped);
        lemma_segment_found(track, target);
        let i = segment_index_at(track.segment_offsets@, target, n - 1);
        assert(start_of_segment(track, i) == track.keyframes@[i].time);
        assert(span_of_segment(track, i) == track.segments@[i].span);
        assert(track.segments@[i].span.0 >= 1);
        lemma_times_grow(track, 0, i);
        assert(after.cursor == i);
        assert(after.stands(track));
    }
}

/// A time is read within its track: any time where the track does not loop, and a time of the first
/// two rounds where it does. A time that lies within the track and away from the slack around the
/// end is read as it is.
pub proof fn law_time_is_read_within(t: Fixed, duration: Fixed, inverse: Fixed, looped: bool)
    requires
        1 < duration.0 < i64::MAX,
        inverse_fits(duration, inverse),
        looped ==> 0 <= t.0 < 2 * duration.0,
    ensures
        0 <= normalized_time(t, duration, inverse, looped).0 <= duration.0,
        0 <= t.0 <= duration.0 && (looped ==> t.0 < duration.0 - 1 || t.0 == duration.0)
            ==> normalized_time(t, duration, inverse, looped) == t,
{
    if looped {
        law_first_rounds_are_counted(t, duration, inverse);
        lemma_mod_bound(t.0 as int, duration.0 as int);
    }
}

/// A channel that is placed anew stands at the time that is read, whatever it held before.
pub proof fn law_sync_lands_on_time<V: TrackValue<Fixed>>(
    ch: Channel<Fixed, V>,
    track: ClipTrack<Fixed, V>,
    t: Fixed,
    looped: bool,
)
    requires
        segments_laid(track),
        track.keyframes@.len() <= usize::MAX,
    ensures
        ch.synced(Some(track), t, looped).stands_at(track, read_at(track, t, looped)),
        ch.synced(Some(track), t, looped).sample_dirty,
{
    let n = track.segments@.len() as int;
    let at = read_at(track, t, looped);
    let frames = track.keyframes@;
    let times = keyframe_times(frames);
    let after = ch.synced(Some(track), t, looped);
    if at.0 <= time_of(track, 0) {
        assert(track.segments@[0].span.0 >= 1);
        lemma_times_grow(track, 0, n);
        assert(after.stands(track));
    } else {
        let above = first_start_above(times, at, 0);
        lemma_first_start_above(times, at, 0);
        assert(times[0] == frames[0].time);
        assert(above >= 1);
        let i = cursor_at(frames, at).0 as int;
        assert(i == (if above > n {
            n - 1
        } else {
            above - 1
        }));
        assert(times[i] == frames[i].time);
        assert(times[i].le_spec(at));
        if above <= n {
            assert(times[above] == frames[above].time);
        }
        assert(track.segments@[i].span.0 >= 1);
        lemma_times_grow(track, 0, i);
        lemma_times_grow(track, i, n);
        lemma_times_grow(track, i + 1, n);
        assert(frames[i].time.0 <= at.0);
        assert(at.0 <= frames[i + 1].time.0 || i == n - 1);
        assert(after.cursor == i);
        assert(after.stands(track));
    }
}

/// A step that stays clear of the segment's end keeps time.
pub proof fn law_nudge_keeps_time<V: TrackValue<Fixed>>(
    ch: Channel<Fixed, V>,
    track: ClipTrack<Fixed, V>,
    delta: Fixed,
)
    requires
        segments_laid(track),
        ch.stands(track),
        0 < delta.0,
        ch.has_room(delta),
    ensures
        ch.place(track) + delta.0 < track.duration.0,
        ch.nudged(Some(track), delta).stands(track),
        ch.nudged(Some(track), delta).place(track) == ch.place(track) + delta.0,
{
    let at = ch.cursor as int;
    assert(track.segments@[at].span.0 >= 1);
    lemma_times_grow(track, at + 1, track.segments@.len() as int);
    lemma_times_grow(track, 0, at);
}

proof fn lemma_window<V>(
    track: ClipTrack<Fixed, V>,
    time: Fixed,
    strict: bool,
    from: int,
    end: int,
)
    requires
        1 <= from <= end <= track.keyframes@.len(),
        forall|i: int|
            from <= i < end ==> if strict {
                (#[trigger] track.keyframes@[i]).time.0 <= time.0
            } else {
                track.keyframes@[i].time.0 < time.0
            },
        end < track.keyframes@.len() ==> if strict {
            time.0 < track.keyframes@[end].time.0
        } else {
            time.0 <= track.keyframes@[end].time.0
        },
    ensures
        window_end(track.keyframes@, time, strict, from) == end,
    decreases end - from,
{
    if from < end {
        assert(if strict {
            track.keyframes@[from].time.0 <= time.0
        } else {
            track.keyframes@[from].time.0 < time.0
        });
        lemma_window(track, time, strict, from + 1, end);
    }
}

/// What a linear track gives at an offset into a segment: the value of its keyframe, moved along
/// its slope.
pub open spec fn moved_along<V: TrackValue<Fixed>>(
    track: ClipTrack<Fixed, V>,
    i: int,
    offset: Fixed,
) -> V {
    track.keyframes@[i].value.shifted_spec(track.segments@[i].slope, offset)
}

/// What a linear track has between two keyframes: a mixture of their values.
pub open spec fn mixed_between<V: TrackValue<Fixed>>(
    track: ClipTrack<Fixed, V>,
    i: int,
    offset: Fixed,
) -> V {
    track.keyframes@[i].value.mixed_spec(
        track.keyframes@[i + 1].value,
        offset.over_spec(track.segments@[i].span),
    )
}

/// What a linear track gives at an offset into a segment: a keyframe that is met exactly is taken
/// as the end of the segment before it.
pub open spec fn mixed_at<V: TrackValue<Fixed>>(
    track: ClipTrack<Fixed, V>,
    i: int,
    offset: Fixed,
) -> V {
    if offset.0 > 0 {
        mixed_between(track, i, offset)
    } else if i == 0 {
        track.keyframes@[0].value
    } else {
        mixed_between(track, i - 1, track.segments@[i - 1].span)
    }
}

/// What a channel reads where it stands is what its track has there: for a stepped track the very
/// value, for a linear one the keyframe's value moved along the slope by the offset from that
/// keyframe, where the track itself mixes the two keyframes by the same offset.
#[verifier::rlimit(40)]
pub proof fn law_cached_sample_is_the_sample<V: TrackValue<Fixed>>(
    ch: Channel<Fixed, V>,
    track: ClipTrack<Fixed, V>,
    t: Fixed,
    looped: bool,
)
    requires
        segments_laid(track),
        ch.stands_at(track, read_at(track, t, looped)),
    ensures
        track.interpolation is Step ==> ch.state_value(track) == track_value_at(track, t, looped),
        track.interpolation is Linear ==> ch.state_value(track) == Some(
            moved_along(track, ch.cursor as int, ch.segment_time),
        ),
        track.interpolation is Linear && read_at(track, t, looped).0 <= track.duration.0
            ==> track_value_at(track, t, looped) == Some(
            mixed_at(track, ch.cursor as int, ch.segment_time),
        ),
        track.interpolation is Linear && track.duration.0 < read_at(track, t, looped).0
            ==> track_value_at(track, t, looped) == Some(track.keyframes@.last().value),
{
    let n = track.segments@.len() as int;
    let at = ch.cursor as int;
    let frames = track.keyframes@;
    let span = track.segments@[at].span.0;
    let t = read_at(track, t, looped);
    assert(span >= 1);
    lemma_times_grow(track, 0, at);
    lemma_times_grow(track, at + 1, n);
    assert(forall|i: int| 0 <= i <= at ==> (#[trigger] frames[i]).time.0 <= frames[at].time.0) by {
        assert forall|i: int| 0 <= i <= at implies (#[trigger] frames[i]).time.0
            <= frames[at].time.0 by {
            lemma_times_grow(track, i, at);
        }
    }
    assert(forall|i: int| 0 <= i < at ==> (#[trigger] frames[i]).time.0 < frames[at].time.0) by {
        assert forall|i: int| 0 <= i < at implies (#[trigger] frames[i]).time.0
            < frames[at].time.0 by {
            lemma_times_grow(track, i, at);
        }
    }
    if t.0 <= frames[0].time.0 {
        assert(at == 0 && ch.segment_time.0 == 0) by {
            if at > 0 {
                lemma_times_grow(track, 0, at);
            }
        }
    } else if track.duration.0 < t.0 {
        assert(at == n - 1 && ch.segment_time.0 == span) by {
            if at < n - 1 {
                lemma_times_grow(track, at + 1, n);
                assert(track.segments@[n - 1].span.0 >= 1);
                lemma_times_grow(track, at + 1, n - 1);
            }
        }
        lemma_window(track, t, track.interpolation is Step, 1, n + 1);
    } else if track.interpolation is Step {
        if ch.segment_time.0 < span {
            lemma_window(track, t, true, 1, at + 1);
        } else if at + 1 < n {
            assert(track.segments@[at + 1].span.0 >= 1);
            lemma_window(track, t, true, 1, at + 2);
        } else {
            lemma_window(track, t, true, 1, at + 2);
        }
    } else if ch.segment_time.0 > 0 {
        lemma_window(track, t, false, 1, at + 1);
        assert(ch.segment_time.0 * 65536 / span as int <= 65536) by (nonlinear_arith)
            requires
                0 < ch.segment_time.0 <= span,
        ;
        assert(0 <= ch.segment_time.0 * 65536 / span as int) by (nonlinear_arith)
            requires
                0 < ch.segment_time.0 <= span,
        ;
    } else {
        assert(at > 0);
        lemma_window(track, t, false, 1, at);
        let before = track.segments@[at - 1].span.0 as int;
        assert(before >= 1);
        assert(before * 65536 / before == 65536) by (nonlinear_arith)
            requires
                before >= 1,
        ;
    }
}

/// Whether the values of a track and the differences between them are far from the ends of the
/// range, and every slope is the difference over the span.
pub open spec fn slopes_fit(track: ClipTrack<Fixed, Fixed>) -> bool {
    &&& forall|i: int|
        0 <= i < track.keyframes@.len() ==> -0x1000_0000_0000 <= (
        #[trigger] track.keyframes@[i]).value.0 <= 0x1000_0000_0000
    &&& forall|i: int|
        0 <= i < track.segments@.len() ==> (#[trigger] track.segments@[i]).slope
            == track.keyframes@[i + 1].value.minus_spec(track.keyframes@[i].value).over_spec(
            track.segments@[i].span,
        )
}

/// The number of a sample.
pub open spec fn number(sample: Option<Fixed>) -> int {
    match sample {
        Some(value) => value.0 as int,
        None => 0,
    }
}

pub open spec fn distance(a: int, b: int) -> int {
    if a < b {
        b - a
    } else {
        a - b
    }
}

proof fn lemma_rounded_products_are_close(
    d: int,
    off: int,
    span: int,
    slope: int,
    moved: int,
    alpha: int,
    mixed: int,
)
    requires
        0 <= off <= span,
        1 <= span,
        slope * span <= d * 65536 < slope * span + span,
        moved * 65536 <= slope * off < moved * 65536 + 65536,
        alpha * span <= off * 65536 < alpha * span + span,
        mixed * 65536 <= d * alpha < mixed * 65536 + 65536,
    ensures
        65536 * distance(moved, mixed) < off + distance(d, 0) + 65536,
{
    let size = distance(d, 0);
    assert(slope * off * span <= d * 65536 * off) by (nonlinear_arith)
        requires
            slope * span <= d * 65536,
            0 <= off,
    ;
    assert(d * 65536 * off - span * off <= slope * off * span) by (nonlinear_arith)
        requires
            d * 65536 < slope * span + span,
            0 <= off,
    ;
    assert(d * alpha * span <= d * 65536 * off + size * span) by (nonlinear_arith)
        requires
            alpha * span <= off * 65536 < alpha * span + span,
            size == (if d < 0 {
                0 - d
            } else {
                d - 0
            }),
            1 <= span,
    ;
    assert(d * 65536 * off - size * span <= d * alpha * span) by (nonlinear_arith)
        requires
            alpha * span <= off * 65536 < alpha * span + span,
            size == (if d < 0 {
                0 - d
            } else {
                d - 0
            }),
            1 <= span,
    ;
    assert(moved * 65536 * span <= slope * off * span) by (nonlinear_arith)
        requires
            moved * 65536 <= slope * off,
            1 <= span,
    ;
    assert(slope * off * span < moved * 65536 * span + 65536 * span) by (nonlinear_arith)
        requires
            slope * off < moved * 65536 + 65536,
            1 <= span,
    ;
    assert(mixed * 65536 * span <= d * alpha * span) by (nonlinear_arith)
        requires
            mixed * 65536 <= d * alpha,
            1 <= span,
    ;
    assert(d * alpha * span < mixed * 65536 * span + 65536 * span) by (nonlinear_arith)
        requires
            d * alpha < mixed * 65536 + 65536,
            1 <= span,
    ;
    assert((moved - mixed) * 65536 < size + 65536) by (nonlinear_arith)
        requires
            moved * 65536 * span - mixed * 65536 * span < size * span + 65536 * span,
            1 <= span,
    ;
    assert((mixed - moved) * 65536 < size + off + 65536) by (nonlinear_arith)
        requires
            mixed * 65536 * span - moved * 65536 * span < size * span + span * off + 65536 * span,
            1 <= span,
    ;
}

proof fn lemma_quotient(a: int, b: int)
    requires
        1 <= b,
    ensures
        (a / b) * b <= a < (a / b) * b + b,
{
    vstd::arithmetic::div_mod::lemma_fundamental_div_mod(a, b);
    lemma_mod_bound(a, b);
    assert(b * (a / b) == (a / b) * b) by (nonlinear_arith);
}

/// A linear track of fixed-point values reads nearly the same from where its channel stands as
/// from the track itself: the two roundings are off by no more than one unit, and one more for
/// every whole of the offset and of the distance between the keyframes.
#[verifier::rlimit(60)]
pub proof fn law_linear_samples_are_close(
    ch: Channel<Fixed, Fixed>,
    track: ClipTrack<Fixed, Fixed>,
    t: Fixed,
    looped: bool,
)
    requires
        segments_laid(track),
        slopes_fit(track),
        track.interpolation is Linear,
        track.duration.0 <= 0x1000_0000_0000,
        ch.stands_at(track, read_at(track, t, looped)),
    ensures
        ch.state_value(track) is Some,
        track_value_at(track, t, looped) is Some,
        ({
            let i = ch.cursor as int;
            let apart = distance(
                track.keyframes@[i].value.0 as int,
                track.keyframes@[i + 1].value.0 as int,
            );
            65536 * distance(
                number(ch.state_value(track)),
                number(track_value_at(track, t, looped)),
            ) < ch.segment_time.0 + apart + 65536
        }),
{
    law_cached_sample_is_the_sample(ch, track, t, looped);
    let n = track.segments@.len() as int;
    let i = ch.cursor as int;
    let span = track.segments@[i].span.0 as int;
    let off = ch.segment_time.0 as int;
    let from = track.keyframes@[i].value;
    let to = track.keyframes@[i + 1].value;
    let d = to.0 - from.0;
    assert(span >= 1);
    lemma_times_grow(track, 0, i);
    lemma_times_grow(track, i + 1, n);
    let slope = d * 65536 / span;
    lemma_quotient(d * 65536, span);
    assert(-0x4000_0000_0000_0000 <= slope <= 0x4000_0000_0000_0000) by (nonlinear_arith)
        requires
            slope * span <= d * 65536 < slope * span + span,
            -0x2000_0000_0000 <= d <= 0x2000_0000_0000,
            1 <= span,
    ;
    assert(track.segments@[i].slope.0 == slope);
    let moved = slope * off / 65536;
    lemma_quotient(slope * off, 65536);
    assert(-0x4000_0000_0000 <= moved <= 0x4000_0000_0000) by (nonlinear_arith)
        requires
            moved * 65536 <= slope * off < moved * 65536 + 65536,
            slope * span <= d * 65536 < slope * span + span,
            -0x2000_0000_0000 <= d <= 0x2000_0000_0000,
            0 <= off <= span <= 0x1000_0000_0000,
            1 <= span,
    ;
    assert(number(ch.state_value(track)) == from.0 + moved);
    if off > 0 {
        let alpha = off * 65536 / span;
        lemma_quotient(off * 65536, span);
        assert(0 <= alpha <= 65536) by (nonlinear_arith)
            requires
                alpha * span <= off * 65536 < alpha * span + span,
                0 <= off <= span,
                1 <= span,
        ;
        let mixed = d * alpha / 65536;
        lemma_quotient(d * alpha, 65536);
        assert(-0x2000_0000_0001 <= mixed <= 0x2000_0000_0000) by (nonlinear_arith)
            requires
                mixed * 65536 <= d * alpha < mixed * 65536 + 65536,
                -0x2000_0000_0000 <= d <= 0x2000_0000_0000,
                0 <= alpha <= 65536,
        ;
        if track.duration.0 < read_at(track, t, looped).0 {
            assert(i == n - 1 && off == span) by {
                lemma_times_grow(track, i + 1, n);
            }
            assert(alpha == 65536) by (nonlinear_arith)
                requires
                    alpha == off * 65536 / span,
                    off == span,
                    1 <= span,
            ;
            assert(d * 65536 / 65536 == d);
        }
        assert(number(track_value_at(track, t, looped)) == from.0 + mixed);
        lemma_rounded_products_are_close(d, off, span, slope, moved, alpha, mixed);
    } else {
        assert(slope * off == 0) by (nonlinear_arith)
            requires
                off == 0,
        ;
        if i > 0 {
            let before = track.segments@[i - 1].span.0 as int;
            assert(before >= 1);
            assert(before * 65536 / before == 65536) by (nonlinear_arith)
                requires
                    before >= 1,
            ;
            let past = track.keyframes@[i - 1].value;
            assert((from.0 - past.0) * 65536 / 65536 == from.0 - past.0);
        }
        assert(number(track_value_at(track, t, looped)) == from.0);
    }
}

/// A sample that is moved along with its channel, rather than read anew, drifts by no more than one
/// unit a step from what would be read.
#[verifier::rlimit(60)]
pub proof fn law_moved_sample_drifts_by_one(
    ch: Channel<Fixed, Fixed>,
    track: ClipTrack<Fixed, Fixed>,
    delta: Fixed,
)
    requires
        segments_laid(track),
        track.interpolation is Linear,
        ch.stands(track),
        !ch.sample_dirty,
        ch.sample is Some,
        0 < delta.0,
        ch.has_room(delta),
        -0x1000_0000_0000 <= ch.segment_start.0 <= 0x1000_0000_0000,
        -0x1000_0000_0000 <= number(ch.sample) <= 0x1000_0000_0000,
        -0x1_0000_0000 <= ch.segment_slope.0 <= 0x1_0000_0000,
        track.duration.0 <= 0x1000_0000_0000,
    ensures
        ({
            let after = ch.nudged(Some(track), delta);
            &&& !after.sample_dirty && after.sample is Some
            &&& distance(number(after.sample), number(after.state_value(track))) <= distance(
                number(ch.sample),
                number(ch.state_value(track)),
            ) + 1
        }),
{
    let i = ch.cursor as int;
    assert(track.segments@[i].span.0 >= 1);
    lemma_times_grow(track, 0, i);
    lemma_times_grow(track, i + 1, track.segments@.len() as int);
    let slope = ch.segment_slope.0 as int;
    let off = ch.segment_time.0 as int;
    let step = delta.0 as int;
    let a = slope * off;
    let b = slope * step;
    assert(slope * (off + step) == a + b) by (nonlinear_arith)
        requires
            a == slope * off,
            b == slope * step,
    ;
    assert(-0x1000_0000_0000 * 0x1_0000_0000 <= a <= 0x1000_0000_0000 * 0x1_0000_0000)
        by (nonlinear_arith)
        requires
            a == slope * off,
            -0x1_0000_0000 <= slope <= 0x1_0000_0000,
            0 <= off <= 0x1000_0000_0000,
    ;
    assert(-0x1000_0000_0000 * 0x1_0000_0000 <= b <= 0x1000_0000_0000 * 0x1_0000_0000)
        by (nonlinear_arith)
        requires
            b == slope * step,
            -0x1_0000_0000 <= slope <= 0x1_0000_0000,
            0 <= step <= 0x1000_0000_0000,
    ;
    let after = ch.nudged(Some(track), delta);
    assert(after.segment_time.0 == off + step);
    assert(number(after.sample) == number(ch.sample) + b / 65536);
    assert(number(after.state_value(track)) == ch.segment_start.0 + (a + b) / 65536);
    assert(number(ch.state_value(track)) == ch.segment_start.0 + a / 65536);
}

/// The same where the tracks are walked and the channel stays in its segment.
#[verifier::rlimit(60)]
pub proof fn law_walked_sample_drifts_by_one(
    ch: Channel<Fixed, Fixed>,
    track: ClipTrack<Fixed, Fixed>,
    delta: Fixed,
    time: Fixed,
    looped: bool,
)
    requires
        segments_laid(track),
        track.interpolation is Linear,
        ch.stands(track),
        !ch.sample_dirty,
        ch.sample is Some,
        0 < delta.0,
        -0x1000_0000_0000 <= ch.segment_start.0 <= 0x1000_0000_0000,
        -0x1000_0000_0000 <= number(ch.sample) <= 0x1000_0000_0000,
        -0x1_0000_0000 <= ch.segment_slope.0 <= 0x1_0000_0000,
        track.duration.0 <= 0x1000_0000_0000,
    ensures
        ({
            let after = ch.stepped(true, Some(track), true, time, looped, delta).0;
            after.stands(track) && !after.sample_dirty ==> after.sample is Some && distance(
                number(after.sample),
                number(after.state_value(track)),
            ) <= distance(number(ch.sample), number(ch.state_value(track))) + 1
        }),
{
    let after = ch.stepped(true, Some(track), true, time, looped, delta).0;
    let i = ch.cursor as int;
    lemma_seated(ch, track);
    assert(track.segments@[i].span.0 >= 1);
    lemma_times_grow(track, 0, i);
    lemma_times_grow(track, i + 1, track.segments@.len() as int);
    if after.stands(track) && !after.sample_dirty {
        assert(after.cursor == ch.cursor);
        let slope = ch.segment_slope.0 as int;
        let off = ch.segment_time.0 as int;
        let step = after.segment_time.0 - off;
        let a = slope * off;
        let b = slope * step;
        assert(slope * (off + step) == a + b) by (nonlinear_arith)
            requires
                a == slope * off,
                b == slope * step,
        ;
        assert(-0x1000_0000_0000 * 0x1_0000_0000 <= a <= 0x1000_0000_0000 * 0x1_0000_0000)
            by (nonlinear_arith)
            requires
                a == slope * off,
                -0x1_0000_0000 <= slope <= 0x1_0000_0000,
                0 <= off <= 0x1000_0000_0000,
        ;
        assert(-0x1000_0000_0000 * 0x1_0000_0000 <= b <= 0x1000_0000_0000 * 0x1_0000_0000)
            by (nonlinear_arith)
            requires
                b == slope * step,
                -0x1_0000_0000 <= slope <= 0x1_0000_0000,
                -0x1000_0000_0000 <= step <= 0x1000_0000_0000,
        ;
        assert(number(after.sample) == number(ch.sample) + b / 65536);
        assert(number(after.state_value(track)) == ch.segment_start.0 + (a + b) / 65536);
        assert(number(ch.state_value(track)) == ch.segment_start.0 + a / 65536);
    }
}

/// A sample of a stepped track that is kept, rather than read anew, is what would be read, as long
/// as the channel does not come to stand on the very end of its segment.
pub proof fn law_kept_sample_is_the_sample<V: TrackValue<Fixed>>(
    ch: Channel<Fixed, V>,
    track: ClipTrack<Fixed, V>,
    delta: Fixed,
    time: Fixed,
    looped: bool,
)
    requires
        segments_laid(track),
        track.interpolation is Step,
        ch.stands(track),
        !ch.sample_dirty,
        ch.segment_time.0 < ch.segment_span.0,
        ch.sample == ch.state_value(track),
        0 < delta.0,
    ensures
        ch.has_room(delta) ==> {
            let after = ch.nudged(Some(track), delta);
            !after.sample_dirty && after.sample == after.state_value(track)
        },
        ({
            let after = ch.stepped(true, Some(track), true, time, looped, delta).0;
            after.stands(track) && !after.sample_dirty && after.segment_time.0
                < after.segment_span.0 ==> after.sample == after.state_value(track)
        }),
{
    lemma_seated(ch, track);
    assert(track.segments@[ch.cursor as int].span.0 >= 1);
}

/// Whether a track has at most one keyframe, and so always the same value.
pub open spec fn is_short<V>(track: ClipTrack<Fixed, V>) -> bool {
    track.keyframes@.len() <= 1 && track.segments@.len() == 0
}

/// Whether a track has its segments laid between its keyframes, or needs none.
pub open spec fn is_laid<V>(track: ClipTrack<Fixed, V>) -> bool {
    is_short(track) || (segments_laid(track) && track.keyframes@.len() <= usize::MAX)
}

/// Whether a channel has the one value of a short track, or its lack, at hand.
pub open spec fn rests<V: TrackValue<Fixed>>(
    ch: Channel<Fixed, V>,
    track: ClipTrack<Fixed, V>,
) -> bool {
    &&& ch.state_current
    &&& ch.cursor == 0
    &&& ch.segment_span.0 <= 0
    &&& ch.cache_valid ==> track.keyframes@.len() == 1 && ch.cached_index == 0 && ch.segment_start
        == track.keyframes@[0].value
}

/// Whether a sample is what a track has when its clip is at a time. For a stepped track it is the
/// track's value. For a linear one it is a keyframe's value moved along the slope by the time since
/// that keyframe, where the track itself mixes the keyframes by the same time.
pub open spec fn reads_value<V: TrackValue<Fixed>>(
    sample: Option<V>,
    track: ClipTrack<Fixed, V>,
    t: Fixed,
    looped: bool,
) -> bool {
    let at = read_at(track, t, looped);
    &&& is_short(track) || track.interpolation is Step ==> sample == track_value_at(track, t, looped)
    &&& !is_short(track) && track.interpolation is Linear ==> exists|i: int, offset: Fixed|
        {
            &&& 0 <= i < track.segments@.len()
            &&& 0 <= offset.0 <= track.segments@[i].span.0
            &&& time_of(track, i) + offset.0 == held_between(track, at)
            &&& sample == Some(#[trigger] moved_along(track, i, offset))
            &&& track_value_at(track, t, looped) == Some(
                if at.0 <= track.duration.0 {
                    mixed_at(track, i, offset)
                } else {
                    track.keyframes@.last().value
                },
            )
        }
}

/// A channel that is placed anew and read gives what its track has, whatever it held before.
proof fn lemma_placed_reads<V: TrackValue<Fixed>>(
    ch: Channel<Fixed, V>,
    track: ClipTrack<Fixed, V>,
    t: Fixed,
    looped: bool,
)
    requires
        is_laid(track),
    ensures
        follows(ch.synced(Some(track), t, looped), Some(track), t, looped),
        reads_value(ch.synced(Some(track), t, looped).state_value(track), track, t, looped),
{
    let placed = ch.synced(Some(track), t, looped);
    if !is_short(track) {
        law_sync_lands_on_time(ch, track, t, looped);
        lemma_standing_reads(placed, track, t, looped);
    }
}

proof fn lemma_standing_reads<V: TrackValue<Fixed>>(
    ch: Channel<Fixed, V>,
    track: ClipTrack<Fixed, V>,
    t: Fixed,
    looped: bool,
)
    requires
        is_laid(track),
        if is_short(track) {
            rests(ch, track)
        } else {
            ch.stands_at(track, read_at(track, t, looped))
        },
    ensures
        reads_value(ch.state_value(track), track, t, looped),
{
    if !is_short(track) {
        law_cached_sample_is_the_sample(ch, track, t, looped);
        if track.interpolation is Linear {
            assert(ch.state_value(track) == Some(
                moved_along(track, ch.cursor as int, ch.segment_time),
            ));
        }
    }
}

/// A channel that is not played falls behind, and what is then read of it is what its track has at
/// the new time, whatever it held before, at every time and for a track of any length.
pub proof fn law_unplayed_channel_reads_its_value<V: TrackValue<Fixed>>(
    ch: Channel<Fixed, V>,
    track: ClipTrack<Fixed, V>,
    t: Fixed,
    looped: bool,
    delta: Fixed,
)
    requires
        is_laid(track),
        0 < delta.0,
    ensures
        ({
            let after = ch.stepped(true, Some(track), false, t, looped, delta).0;
            let read = after.refreshed(Some(track), t, looped);
            &&& reads_value(read.sample, track, t, looped)
            &&& read.last == ch.last
        }),
{
    let after = ch.stepped(true, Some(track), false, t, looped, delta).0;
    lemma_placed_reads(after, track, t, looped);
}

/// Whether a track, where there is one, is laid and lasts long enough to be walked.
pub open spec fn can_be_walked<V>(track: Option<ClipTrack<Fixed, V>>) -> bool {
    match track {
        Some(track) => is_laid(track) && (is_short(track) || (1 < track.duration.0 && inverse_fits(
            track.duration,
            track.duration_inv,
        ))),
        None => true,
    }
}

/// Whether a channel that is up to date stands where its track is read at a time of the clip.
pub open spec fn follows<V: TrackValue<Fixed>>(
    ch: Channel<Fixed, V>,
    track: Option<ClipTrack<Fixed, V>>,
    t: Fixed,
    looped: bool,
) -> bool {
    match track {
        Some(track) => ch.state_current ==> if is_short(track) {
            rests(ch, track)
        } else {
            ch.stands_at(track, read_at(track, t, looped))
        },
        None => true,
    }
}

impl<P: TrackValue<Fixed>, C: TrackValue<Fixed>> ClipInstance<Fixed, P, C> {
    /// Whether the tracks are laid.
    pub open spec fn laid_out(self) -> bool {
        let clip = *self.clip;
        &&& self.wf()
        &&& 1 < clip.duration.0 < i64::MAX
        &&& can_be_walked(clip.translation)
        &&& can_be_walked(clip.rotation)
        &&& can_be_walked(clip.scale)
        &&& can_be_walked(clip.tint)
    }

    /// Whether the clip is at a time that it can come to: a looped clip goes from just before its
    /// end right to the end or the start.
    pub open spec fn at_a_time(self) -> bool {
        &&& 0 <= self.time.0 <= self.clip.duration.0
        &&& self.looped ==> self.time.0 != self.clip.duration.0 - 1
    }

    /// Whether every channel that is up to date stands where its track is read at the clip's time.
    pub open spec fn in_step(self) -> bool {
        let clip = *self.clip;
        &&& self.at_a_time()
        &&& follows(self.translation, clip.translation, self.time, self.looped)
        &&& follows(self.rotation, clip.rotation, self.time, self.looped)
        &&& follows(self.scale, clip.scale, self.time, self.looped)
        &&& follows(self.tint, clip.tint, self.time, self.looped)
    }
}

/// Whether a channel comes to stand apart from its clip at the ends of its track. Where the clip
/// starts over, that is a step that ends in the channel's own segment within the slack of one unit
/// around the ends, which the clip takes for its start. Where the track does not loop, it is a step
/// into another segment to one unit before the end, which the channel takes for the end.
pub open spec fn slips<V: TrackValue<Fixed>>(
    ch: Channel<Fixed, V>,
    track: ClipTrack<Fixed, V>,
    delta: Fixed,
    looped: bool,
    starts_over: bool,
) -> bool {
    let z = ch.place(track) + ch.own_step(track, delta, looped);
    let stays = ch.stays_in_segment(track, delta, looped);
    if looped {
        starts_over && stays && (z == 1 || track.duration.0 - 1 <= z)
    } else {
        !stays && z == track.duration.0 - 1
    }
}

/// Whether a looped track of another length than its clip comes to the same place by its own
/// rounds as by those of the clip, away from the ends of the track.
pub open spec fn rounds_agree<V>(
    track: ClipTrack<Fixed, V>,
    t: Fixed,
    next: Fixed,
    delta: Fixed,
) -> bool {
    let d = track.duration.0 as int;
    let at = read_at(track, t, true).0 as int;
    &&& 0 <= at <= d && at <= t.0 && (t.0 - at) % d == 0
    &&& (t.0 + delta.0 - next.0) % d == 0
    &&& clear_of_ends(next.0 as int % d, d)
    &&& rounds_counted(next, track.duration, track.duration_inv)
}

/// Whether a channel that is played keeps up with a step of its clip from `t` to `next`. One that
/// fell behind is placed anew, and always does. The others have to be past their first keyframe.
pub open spec fn keeps_up<V: TrackValue<Fixed>>(
    ch: Channel<Fixed, V>,
    track: Option<ClipTrack<Fixed, V>>,
    t: Fixed,
    next: Fixed,
    delta: Fixed,
    looped: bool,
    duration: Fixed,
    inverse: Fixed,
) -> bool {
    match track {
        Some(track) => !ch.state_current || is_short(track) || {
            &&& time_of(track, 0) <= read_at(track, t, looped).0
            &&& if looped && (track.duration != duration || track.duration_inv != inverse) {
                rounds_agree(track, t, next, delta)
            } else {
                !slips(ch, track, delta, looped, duration.0 - 1 <= t.0 + delta.0)
            }
        },
        None => true,
    }
}

/// The time of a clip a step later: at its end, or some rounds on, and from within the slack of one
/// unit around the ends right to the end or the start.
pub open spec fn time_later(t: int, delta: int, duration: int, looped: bool) -> int {
    let x = place_after(t, delta, duration, looped);
    if looped {
        if duration - 1 <= t + delta && (x <= 1 || duration - x <= 1) {
            0
        } else {
            x
        }
    } else if duration - 1 <= x {
        duration
    } else {
        x
    }
}

/// A channel that followed its clip before a step follows it afterwards.
#[verifier::rlimit(60)]
proof fn lemma_step_follows<V: TrackValue<Fixed>>(
    ch: Channel<Fixed, V>,
    track: Option<ClipTrack<Fixed, V>>,
    played: bool,
    t: Fixed,
    next: Fixed,
    looped: bool,
    delta: Fixed,
    duration: Fixed,
    inverse: Fixed,
)
    requires
        1 < duration.0 < i64::MAX,
        can_be_walked(track),
        follows(ch, track, t, looped),
        0 <= t.0 <= duration.0,
        looped ==> t.0 != duration.0 - 1,
        0 < delta.0,
        t.0 + delta.0 <= i64::MAX,
        next.0 == time_later(t.0 as int, delta.0 as int, duration.0 as int, looped),
        !looped ==> next.0 == t.0 + delta.0,
        played ==> keeps_up(ch, track, t, next, delta, looped, duration, inverse),
    ensures
        follows(ch.stepped(track is Some, track, played, next, looped, delta).0, track, next, looped),
{
    if let Some(track) = track {
        if played && ch.state_current && !is_short(track) {
            let n = track.segments@.len() as int;
            let d = track.duration.0 as int;
            let p = ch.place(track);
            lemma_times_grow(track, 0, n);
            lemma_times_grow(track, 0, ch.cursor as int);
            assert(track.segments@[ch.cursor as int].span.0 >= 1);
            lemma_mod_bound(t.0 + delta.0, duration.0 as int);
            if looped && (track.duration != duration || track.duration_inv != inverse) {
                lemma_rounds_lead_to(track, t, next, delta);
                assert(p == read_at(track, t, looped).0);
            } else if looped {
                law_time_is_read_within(t, track.duration, track.duration_inv, looped);
                law_time_is_read_within(next, track.duration, track.duration_inv, looped);
                assert(p == t.0);
                if t.0 + delta.0 < d {
                    lemma_small_mod((t.0 + delta.0) as nat, d as nat);
                }
            } else {
                assert(p <= t.0);
            }
            law_track_keeps_time(ch, track, delta, looped);
            let step = ch.own_step(track, delta, looped);
            if looped && ch.stays_in_segment(track, delta, looped) {
                lemma_times_grow(track, ch.cursor as int + 1, n);
                if p + step < d {
                    lemma_small_mod((p + step) as nat, d as nat);
                } else {
                    vstd::arithmetic::div_mod::lemma_mod_self_0(d);
                }
            }
            if !ch.stays_in_segment(track, delta, looped) {
                assert(p + step >= 2);
            } else {
                lemma_times_grow(track, ch.cursor as int + 1, n);
            }
            let (moved, result) = ch.advanced(track, delta, looped);
            let after = moved.resampled(ch, track.interpolation, result);
            assert(moved.stands_at(track, read_at(track, next, looped)));
            assert(after.stands_at(track, read_at(track, next, looped)));
        } else if played && !ch.state_current {
            lemma_placed_reads(ch, track, next, looped);
        }
    }
}

/// A channel that slips does stand apart from its clip then, if its track fills the clip.
pub proof fn law_slipping_channel_stands_apart<V: TrackValue<Fixed>>(
    ch: Channel<Fixed, V>,
    track: ClipTrack<Fixed, V>,
    t: Fixed,
    looped: bool,
    delta: Fixed,
)
    requires
        segments_laid(track),
        time_of(track, 0) == 0,
        1 < track.duration.0,
        inverse_fits(track.duration, track.duration_inv),
        0 <= t.0 <= track.duration.0,
        looped ==> t.0 != track.duration.0 - 1,
        ch.stands_at(track, read_at(track, t, looped)),
        0 < delta.0,
        t.0 + delta.0 <= i64::MAX,
        slips(ch, track, delta, looped, track.duration.0 - 1 <= t.0 + delta.0),
    ensures
        ({
            let next = time_later(t.0 as int, delta.0 as int, track.duration.0 as int, looped);
            let after = ch.advanced(track, delta, looped).0;
            &&& looped ==> next == 0 && after.place(track) > 0
            &&& !looped ==> t.0 + delta.0 == track.duration.0 - 1 && after.place(track)
                == track.duration.0
        }),
{
    let n = track.segments@.len() as int;
    let d = track.duration.0 as int;
    let p = ch.place(track);
    lemma_times_grow(track, 0, n);
    lemma_times_grow(track, 0, ch.cursor as int);
    assert(track.segments@[ch.cursor as int].span.0 >= 1);
    lemma_times_grow(track, ch.cursor as int + 1, n);
    law_time_is_read_within(t, track.duration, track.duration_inv, looped);
    assert(p == t.0);
    law_track_keeps_time(ch, track, delta, looped);
    let z = p + ch.own_step(track, delta, looped);
    if looped {
        if z < d {
            lemma_small_mod(z as nat, d as nat);
        } else {
            vstd::arithmetic::div_mod::lemma_mod_self_0(d);
        }
    }
}

/// Where a track of another length is read after a step.
proof fn lemma_rounds_lead_to<V>(track: ClipTrack<Fixed, V>, t: Fixed, next: Fixed, delta: Fixed)
    requires
        segments_laid(track),
        1 < track.duration.0,
        0 <= t.0,
        0 <= next.0,
        0 < delta.0,
        t.0 + delta.0 <= i64::MAX,
        rounds_agree(track, t, next, delta),
    ensures
        ({
            let d = track.duration.0 as int;
            let at = read_at(track, t, true).0 as int;
            &&& read_at(track, next, true).0 == next.0 as int % d
            &&& place_after(at, delta.0 as int, d, true) == next.0 as int % d
        }),
{
    let d = track.duration.0 as int;
    let at = read_at(track, t, true).0 as int;
    let a = (t.0 - at) as int;
    let b = (t.0 + delta.0 - next.0) as int;
    lemma_add_mod_noop(at + delta.0, a, d);
    lemma_add_mod_noop(next.0 as int, b, d);
    lemma_mod_twice(at + delta.0, d);
    lemma_mod_twice(next.0 as int, d);
    assert(at + delta.0 + a == next.0 + b);
    if next.0 < d {
        lemma_small_mod(next.0 as nat, d as nat);
    } else if next.0 == d {
        vstd::arithmetic::div_mod::lemma_mod_self_0(d);
    } else if next.0 == d + 1 {
        lemma_mod_sub_multiples_vanish(1, d);
        lemma_small_mod(1, d as nat);
        vstd::arithmetic::div_mod::lemma_mod_add_multiples_vanish(1, d);
    }
}

#[verifier::rlimit(60)]
proof fn lemma_nudge_follows<V: TrackValue<Fixed>>(
    ch: Channel<Fixed, V>,
    track: Option<ClipTrack<Fixed, V>>,
    t: Fixed,
    next: Fixed,
    looped: bool,
    delta: Fixed,
    duration: Fixed,
    inverse: Fixed,
)
    requires
        1 < duration.0 < i64::MAX,
        can_be_walked(track),
        follows(ch, track, t, looped),
        0 <= t.0 <= duration.0,
        looped ==> t.0 != duration.0 - 1,
        0 < delta.0,
        next.0 == t.0 + delta.0 < duration.0 - 1,
        track is Some ==> ch.state_current && ch.has_room(delta),
        keeps_up(ch, track, t, next, delta, looped, duration, inverse),
    ensures
        follows(ch.nudged(track, delta), track, next, looped),
{
    if let Some(track) = track {
        let n = track.segments@.len() as int;
        let d = track.duration.0 as int;
        let p = ch.place(track);
        assert(!is_short(track));
        lemma_times_grow(track, 0, n);
        lemma_times_grow(track, 0, ch.cursor as int);
        law_nudge_keeps_time(ch, track, delta);
        if looped && (track.duration != duration || track.duration_inv != inverse) {
            lemma_rounds_lead_to(track, t, next, delta);
            lemma_small_mod((p + delta.0) as nat, d as nat);
        } else if looped {
            law_time_is_read_within(t, track.duration, track.duration_inv, looped);
            law_time_is_read_within(next, track.duration, track.duration_inv, looped);
        } else {
            assert(p == t.0);
        }
        let after = ch.nudged(Some(track), delta);
        assert(after.stands_at(track, read_at(track, next, looped)));
    }
}

/// The clip's time after a step.
proof fn lemma_time_after<P: TrackValue<Fixed>, C: TrackValue<Fixed>>(
    instance: ClipInstance<Fixed, P, C>,
    delta: Fixed,
)
    requires
        instance.laid_out(),
        instance.at_a_time(),
        0 < delta.0,
        instance.time.0 + delta.0 <= i64::MAX,
        instance.looped ==> rounds_counted(
            Fixed((instance.time.0 + delta.0) as i64),
            instance.clip.duration,
            instance.clip.duration_inv,
        ),
    ensures
        ({
            let d = instance.clip.duration.0 as int;
            let t = instance.time.0 as int;
            let (next, _, used) = instance.time_after(delta);
            &&& next.0 == time_later(t, delta.0 as int, d, instance.looped)
            &&& 0 <= next.0 <= d
            &&& instance.looped ==> next.0 != d - 1 && used == delta
            &&& !instance.looped ==> used.0 == next.0 - t && next.0 == time_later(
                t,
                used.0 as int,
                d,
                false,
            )
        }),
{
    let d = instance.clip.duration.0 as int;
    let u = instance.time.0 + delta.0;
    assert(instance.duration_of() == instance.clip.duration);
    assert(instance.time.plus_spec(delta) == Fixed(u as i64));
    lemma_mod_bound(u, d);
    if instance.looped {
        if u < d {
            lemma_small_mod(u as nat, d as nat);
        }
    }
}

/// Whether every channel that is played keeps up with a step.
#[verifier::opaque]
pub open spec fn all_keep_up<P: TrackValue<Fixed>, C: TrackValue<Fixed>>(
    instance: ClipInstance<Fixed, P, C>,
    next: Fixed,
    delta: Fixed,
    mask: ClipChannelMask,
) -> bool {
    let clip = *instance.clip;
    let d = clip.duration;
    let inv = clip.duration_inv;
    let t = instance.time;
    let looped = instance.looped;
    let i = instance;
    &&& mask.translation ==> keeps_up(i.translation, clip.translation, t, next, delta, looped, d, inv)
    &&& mask.rotation ==> keeps_up(i.rotation, clip.rotation, t, next, delta, looped, d, inv)
    &&& mask.scale ==> keeps_up(i.scale, clip.scale, t, next, delta, looped, d, inv)
    &&& mask.tint ==> keeps_up(i.tint, clip.tint, t, next, delta, looped, d, inv)
}

proof fn lemma_tracks_follow<P: TrackValue<Fixed>, C: TrackValue<Fixed>>(
    instance: ClipInstance<Fixed, P, C>,
    moved: ClipInstance<Fixed, P, C>,
    delta: Fixed,
    m: ClipChannelMask,
)
    requires
        instance.laid_out(),
        instance.in_step(),
        0 < delta.0,
        instance.time.0 + delta.0 <= i64::MAX,
        moved == (ClipInstance { time: moved.time, playing: moved.playing, ..instance }),
        moved.at_a_time(),
        moved.time.0 == time_later(
            instance.time.0 as int,
            delta.0 as int,
            instance.clip.duration.0 as int,
            instance.looped,
        ),
        !instance.looped ==> moved.time.0 == instance.time.0 + delta.0,
        all_keep_up(instance, moved.time, delta, m),
    ensures
        moved.tracks_advanced(delta, m).in_step(),
        moved.tracks_advanced(delta, m).laid_out(),
        moved.tracks_advanced(delta, m).time == moved.time,
{
    let clip = *instance.clip;
    let d = clip.duration;
    let inv = clip.duration_inv;
    let t = instance.time;
    let next = moved.time;
    let looped = instance.looped;
    let i = instance;
    reveal(all_keep_up);
    lemma_step_follows(i.translation, clip.translation, m.translation, t, next, looped, delta, d, inv);
    lemma_step_follows(i.rotation, clip.rotation, m.rotation, t, next, looped, delta, d, inv);
    lemma_step_follows(i.scale, clip.scale, m.scale, t, next, looped, delta, d, inv);
    lemma_step_follows(i.tint, clip.tint, m.tint, t, next, looped, delta, d, inv);
}

proof fn lemma_nudges_follow<P: TrackValue<Fixed>, C: TrackValue<Fixed>>(
    instance: ClipInstance<Fixed, P, C>,
    moved: ClipInstance<Fixed, P, C>,
    delta: Fixed,
    m: ClipChannelMask,
)
    requires
        instance.laid_out(),
        instance.in_step(),
        0 < delta.0,
        moved == (ClipInstance { time: moved.time, playing: moved.playing, ..instance }),
        moved.time.0 == instance.time.0 + delta.0 < instance.clip.duration.0 - 1,
        m.common(instance.clip_channels) == m,
        moved.segments_available(m, delta),
        all_keep_up(instance, moved.time, delta, m),
    ensures
        moved.nudged(delta, m).in_step(),
        moved.nudged(delta, m).laid_out(),
        moved.nudged(delta, m).time == moved.time,
{
    let clip = *instance.clip;
    let d = clip.duration;
    let inv = clip.duration_inv;
    let t = instance.time;
    let next = moved.time;
    let looped = instance.looped;
    let i = instance;
    reveal(all_keep_up);
    if m.translation {
        lemma_nudge_follows(i.translation, clip.translation, t, next, looped, delta, d, inv);
    }
    if m.rotation {
        lemma_nudge_follows(i.rotation, clip.rotation, t, next, looped, delta, d, inv);
    }
    if m.scale {
        lemma_nudge_follows(i.scale, clip.scale, t, next, looped, delta, d, inv);
    }
    if m.tint {
        lemma_nudge_follows(i.tint, clip.tint, t, next, looped, delta, d, inv);
    }
}

/// Playing a clip keeps all its channels in step with its time, whichever way is taken: every
/// channel that is up to date stands where its track is read at the new time of the clip. So for
/// tracks of any length, at the ends too. Left out are channels that do not keep up, and steps so
/// long that the clip miscounts its rounds.
pub proof fn law_playing_keeps_step<P: TrackValue<Fixed>, C: TrackValue<Fixed>>(
    instance: ClipInstance<Fixed, P, C>,
    delta: Fixed,
    mask: ClipChannelMask,
)
    requires
        instance.laid_out(),
        instance.in_step(),
        0 < delta.0,
        instance.time.0 + delta.0 <= i64::MAX,
        instance.looped ==> rounds_counted(
            Fixed((instance.time.0 + delta.0) as i64),
            instance.clip.duration,
            instance.clip.duration_inv,
        ),
        ({
            let (next, _, used) = instance.time_after(delta);
            all_keep_up(instance, next, used, mask.common(instance.clip_channels))
        }),
    ensures
        ({
            let after = instance.time_advanced(delta, mask).0;
            &&& after.laid_out()
            &&& after.in_step()
            &&& after.time.0 == time_later(
                instance.time.0 as int,
                delta.0 as int,
                instance.clip.duration.0 as int,
                instance.looped,
            )
        }),
{
    let m = mask.common(instance.clip_channels);
    lemma_time_after(instance, delta);
    let (time, playing, used) = instance.time_after(delta);
    let moved = ClipInstance { time, playing, ..instance };
    lemma_ways_of_advancing(instance, delta, mask);
    if used.0 <= 0 {
        lemma_standing_still_is_in_step(instance, moved);
    } else if !m.none_set() && moved.fits_segments(instance.time, used, m) {
        if instance.looped {
            lemma_small_mod((instance.time.0 + used.0) as nat, instance.clip.duration.0 as nat);
        }
        lemma_nudges_follow(instance, moved, used, m);
    } else {
        lemma_tracks_follow(instance, moved, used, m);
    }
}

/// Which of the ways a step takes.
proof fn lemma_ways_of_advancing<P: TrackValue<Fixed>, C: TrackValue<Fixed>>(
    instance: ClipInstance<Fixed, P, C>,
    delta: Fixed,
    mask: ClipChannelMask,
)
    requires
        0 < delta.0,
        1 < instance.clip.duration.0,
        0 <= instance.time.0,
    ensures
        ({
            let m = mask.common(instance.clip_channels);
            let (time, playing, used) = instance.time_after(delta);
            let moved = ClipInstance { time, playing, ..instance };
            let near = !m.none_set() && moved.fits_segments(instance.time, used, m);
            &&& m.common(instance.clip_channels) == m
            &&& used.0 > 0 && near ==> moved.segments_available(m, used) && instance.time.0 + used.0
                < instance.clip.duration.0 - 1
            &&& instance.time_advanced(delta, mask).0 == (if used.0 <= 0 {
                moved
            } else if near {
                moved.nudged(used, m)
            } else {
                moved.tracks_advanced(used, m)
            })
        }),
{
    assert(instance.duration_of() == instance.clip.duration);
}

proof fn lemma_standing_still_is_in_step<P: TrackValue<Fixed>, C: TrackValue<Fixed>>(
    instance: ClipInstance<Fixed, P, C>,
    moved: ClipInstance<Fixed, P, C>,
)
    requires
        instance.laid_out(),
        instance.in_step(),
        moved == (ClipInstance { playing: moved.playing, ..instance }),
    ensures
        moved.laid_out(),
        moved.in_step(),
{
}

/// A channel that followed its clip reads what its track has at the clip's time, unless it moved
/// an earlier sample along.
proof fn lemma_refreshed_reads<V: TrackValue<Fixed>>(
    ch: Channel<Fixed, V>,
    track: ClipTrack<Fixed, V>,
    t: Fixed,
    looped: bool,
)
    requires
        is_laid(track),
        follows(ch, Some(track), t, looped),
    ensures
        ({
            let after = ch.refreshed(Some(track), t, looped);
            &&& follows(after, Some(track), t, looped)
            &&& ch.sample_dirty || !ch.state_current ==> reads_value(
                after.sample,
                track,
                t,
                looped,
            )
        }),
{
    if ch.state_current {
        lemma_standing_reads(ch, track, t, looped);
    } else {
        lemma_placed_reads(ch, track, t, looped);
    }
    let after = ch.refreshed(Some(track), t, looped);
    if !is_short(track) {
        assert(after.stands_at(track, read_at(track, t, looped)));
    }
}

/// What is read of a clip in step is what the clip has at its time: so for every channel that has
/// no sample moved along from an earlier step.
pub proof fn law_cached_clip_reads_its_time<P: TrackValue<Fixed>, C: TrackValue<Fixed>>(
    instance: ClipInstance<Fixed, P, C>,
)
    requires
        instance.laid_out(),
        instance.in_step(),
    ensures
        ({
            let clip = *instance.clip;
            let t = instance.time;
            let read = instance.samples_ensured(ClipChannelMask::full());
            &&& read.in_step()
            &&& clip.translation is Some && (instance.translation.sample_dirty
                || !instance.translation.state_current) ==> reads_value(
                read.translation.sample,
                clip.translation->0,
                t,
                instance.looped,
            )
            &&& clip.rotation is Some && (instance.rotation.sample_dirty
                || !instance.rotation.state_current) ==> reads_value(
                read.rotation.sample,
                clip.rotation->0,
                t,
                instance.looped,
            )
            &&& clip.scale is Some && (instance.scale.sample_dirty
                || !instance.scale.state_current) ==> reads_value(
                read.scale.sample,
                clip.scale->0,
                t,
                instance.looped,
            )
            &&& clip.tint is Some && (instance.tint.sample_dirty || !instance.tint.state_current)
                ==> reads_value(read.tint.sample, clip.tint->0, t, instance.looped)
        }),
{
    let clip = *instance.clip;
    let t = instance.time;
    let looped = instance.looped;
    if clip.translation is Some {
        lemma_refreshed_reads(instance.translation, clip.translation->0, t, looped);
    }
    if clip.rotation is Some {
        lemma_refreshed_reads(instance.rotation, clip.rotation->0, t, looped);
    }
    if clip.scale is Some {
        lemma_refreshed_reads(instance.scale, clip.scale->0, t, looped);
    }
    if clip.tint is Some {
        lemma_refreshed_reads(instance.tint, clip.tint->0, t, looped);
    }
}

/// Once the tracks of a clip have moved on, every channel that was not played is read anew: it
/// gives what its track has at the clip's time, whatever it held before, whatever that time is and
/// however long the track. The clip's time, whether it plays and what was last applied stay as they
/// were.
pub proof fn law_unplayed_channels_read_their_values<P: TrackValue<Fixed>, C: TrackValue<Fixed>>(
    instance: ClipInstance<Fixed, P, C>,
    delta: Fixed,
    mask: ClipChannelMask,
)
    requires
        instance.wf(),
        ({
            let clip = *instance.clip;
            &&& clip.translation is Some ==> is_laid(clip.translation->0)
            &&& clip.rotation is Some ==> is_laid(clip.rotation->0)
            &&& clip.scale is Some ==> is_laid(clip.scale->0)
            &&& clip.tint is Some ==> is_laid(clip.tint->0)
        }),
        0 < delta.0,
    ensures
        ({
            let clip = *instance.clip;
            let t = instance.time;
            let looped = instance.looped;
            let after = instance.tracks_advanced(delta, mask);
            let read = after.samples_ensured(ClipChannelMask::full());
            &&& after.time == instance.time && after.playing == instance.playing
            &&& after.looped == instance.looped && after.speed == instance.speed
            &&& clip.translation is Some && !mask.translation ==> reads_value(
                read.translation.sample,
                clip.translation->0,
                t,
                looped,
            ) && after.translation.last == instance.translation.last
            &&& clip.rotation is Some && !mask.rotation ==> reads_value(
                read.rotation.sample,
                clip.rotation->0,
                t,
                looped,
            ) && after.rotation.last == instance.rotation.last
            &&& clip.scale is Some && !mask.scale ==> reads_value(
                read.scale.sample,
                clip.scale->0,
                t,
                looped,
            ) && after.scale.last == instance.scale.last
            &&& clip.tint is Some && !mask.tint ==> reads_value(
                read.tint.sample,
                clip.tint->0,
                t,
                looped,
            ) && after.tint.last == instance.tint.last
        }),
{
    let clip = *instance.clip;
    let t = instance.time;
    let looped = instance.looped;
    if clip.translation is Some {
        law_unplayed_channel_reads_its_value(
            instance.translation,
            clip.translation->0,
            t,
            looped,
            delta,
        );
    }
    if clip.rotation is Some {
        law_unplayed_channel_reads_its_value(instance.rotation, clip.rotation->0, t, looped, delta);
    }
    if clip.scale is Some {
        law_unplayed_channel_reads_its_value(instance.scale, clip.scale->0, t, looped, delta);
    }
    if clip.tint is Some {
        law_unplayed_channel_reads_its_value(instance.tint, clip.tint->0, t, looped, delta);
    }
}

/// A clip that is placed at a time of its own, as a new one is and one that jumped, is in step.
pub proof fn law_placed_clip_is_in_step<P: TrackValue<Fixed>, C: TrackValue<Fixed>>(
    instance: ClipInstance<Fixed, P, C>,
)
    requires
        instance.laid_out(),
        instance.at_a_time(),
    ensures
        instance.settled().in_step(),
        instance.settled().laid_out(),
        instance.settled().time == instance.time,
{
    let clip = *instance.clip;
    let t = instance.time;
    let looped = instance.looped;
    if clip.translation is Some {
        lemma_placed_reads(instance.translation, clip.translation->0, t, looped);
    }
    if clip.rotation is Some {
        lemma_placed_reads(instance.rotation, clip.rotation->0, t, looped);
    }
    if clip.scale is Some {
        lemma_placed_reads(instance.scale, clip.scale->0, t, looped);
    }
    if clip.tint is Some {
        lemma_placed_reads(instance.tint, clip.tint->0, t, looped);
    }
}

/// Whether the sample that a channel has at hand, if it has one, is within `k` units of what would
/// be read where it stands.
pub open spec fn drift_within(
    ch: Channel<Fixed, Fixed>,
    track: ClipTrack<Fixed, Fixed>,
    k: int,
) -> bool {
    ch.state_current && !ch.sample_dirty ==> ch.sample is Some && distance(
        number(ch.sample),
        number(ch.state_value(track)),
    ) <= k
}

/// Whether the values and slopes of a linear track, and a sample of it, are far from the ends of
/// the range.
pub open spec fn far_from_ends(
    ch: Channel<Fixed, Fixed>,
    track: ClipTrack<Fixed, Fixed>,
) -> bool {
    &&& segments_laid(track)
    &&& track.interpolation is Linear
    &&& track.duration.0 <= 0x1000_0000_0000
    &&& -0x1000_0000_0000 <= ch.segment_start.0 <= 0x1000_0000_0000
    &&& -0x1000_0000_0000 <= number(ch.sample) <= 0x1000_0000_0000
    &&& -0x1_0000_0000 <= ch.segment_slope.0 <= 0x1_0000_0000
}

/// Playing a clip with a linear rotation keeps it in step, and moves the sample of the rotation by
/// no more than one unit away from what would be read.
pub proof fn law_rotation_drifts_by_one<P: TrackValue<Fixed>, C: TrackValue<Fixed>>(
    instance: ClipInstance<Fixed, P, C>,
    delta: Fixed,
    mask: ClipChannelMask,
    k: int,
)
    requires
        instance.laid_out(),
        instance.in_step(),
        0 < delta.0,
        instance.time.0 + delta.0 <= i64::MAX,
        instance.looped ==> rounds_counted(
            Fixed((instance.time.0 + delta.0) as i64),
            instance.clip.duration,
            instance.clip.duration_inv,
        ),
        ({
            let (next, _, used) = instance.time_after(delta);
            all_keep_up(instance, next, used, mask.common(instance.clip_channels))
        }),
        instance.clip.rotation is Some,
        far_from_ends(instance.rotation, instance.clip.rotation->0),
        0 <= k,
        drift_within(instance.rotation, instance.clip.rotation->0, k),
    ensures
        ({
            let after = instance.time_advanced(delta, mask).0;
            &&& after.in_step()
            &&& after.clip == instance.clip
            &&& drift_within(after.rotation, instance.clip.rotation->0, k + 1)
        }),
{
    law_playing_keeps_step(instance, delta, mask);
    lemma_time_after(instance, delta);
    lemma_ways_of_advancing(instance, delta, mask);
    let m = mask.common(instance.clip_channels);
    let (time, playing, used) = instance.time_after(delta);
    let moved = ClipInstance { time, playing, ..instance };
    let track = instance.clip.rotation->0;
    let ch = instance.rotation;
    if used.0 > 0 {
        lemma_rotation_drifts(ch, track, m.rotation, time, instance.looped, used, k);
    }
}

proof fn lemma_rotation_drifts(
    ch: Channel<Fixed, Fixed>,
    track: ClipTrack<Fixed, Fixed>,
    played: bool,
    next: Fixed,
    looped: bool,
    delta: Fixed,
    k: int,
)
    requires
        far_from_ends(ch, track),
        ch.state_current ==> ch.stands(track),
        0 < delta.0,
        drift_within(ch, track, k),
    ensures
        ({
            let after = ch.stepped(true, Some(track), played, next, looped, delta).0;
            after.state_current ==> after.stands(track) ==> drift_within(after, track, k + 1)
        }),
        ch.state_current && ch.has_room(delta) ==> drift_within(
            ch.nudged(Some(track), delta),
            track,
            k + 1,
        ),
{
    if ch.state_current {
        lemma_seated(ch, track);
        if !ch.sample_dirty {
            law_walked_sample_drifts_by_one(ch, track, delta, next, looped);
            if ch.has_room(delta) {
                law_moved_sample_drifts_by_one(ch, track, delta);
            }
        }
    }
}

/// The rotation that is read of a clip in step is close to the one that its track has at the clip's
/// time: by the units that its sample drifted, one unit, and one more for every whole of the offset
/// and of the distance between the keyframes.
pub proof fn law_cached_rotation_is_close<P: TrackValue<Fixed>, C: TrackValue<Fixed>>(
    instance: ClipInstance<Fixed, P, C>,
    k: int,
)
    requires
        instance.laid_out(),
        instance.in_step(),
        instance.clip.rotation is Some,
        far_from_ends(instance.rotation, instance.clip.rotation->0),
        slopes_fit(instance.clip.rotation->0),
        0 <= k,
        drift_within(instance.rotation, instance.clip.rotation->0, k),
    ensures
        ({
            let track = instance.clip.rotation->0;
            let read = instance.samples_ensured(ClipChannelMask::full()).rotation;
            let value = track_value_at(track, instance.time, instance.looped);
            let i = read.cursor as int;
            let apart = distance(
                track.keyframes@[i].value.0 as int,
                track.keyframes@[i + 1].value.0 as int,
            );
            &&& read.sample is Some && value is Some
            &&& 65536 * (distance(number(read.sample), number(value)) - k) < read.segment_time.0
                + apart + 65536
        }),
{
    let track = instance.clip.rotation->0;
    let t = instance.time;
    let looped = instance.looped;
    let ch = instance.rotation;
    let read = ch.refreshed(Some(track), t, looped);
    if !ch.state_current {
        law_sync_lands_on_time(ch, track, t, looped);
    }
    assert(read.stands_at(track, read_at(track, t, looped)));
    law_linear_samples_are_close(read, track, t, looped);
    assert(distance(number(read.sample), number(read.state_value(track))) <= k);
}

} // verus!
