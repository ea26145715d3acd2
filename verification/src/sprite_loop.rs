//! The short way through a looping sprite animation without events: only the place in the loop
//! moves.
use vstd::prelude::*;
use crate::scalar::{Fixed, Scalar};
use crate::sprite_advance::MAX_FRAME_STEPS;

verus! {

/// The place within a loop of frames.
#[derive(Clone, Copy)]
pub struct LoopClock<S> {
    pub frame_index: usize,
    pub elapsed: S,
    pub duration: S,
    pub offset: S,
}

/// The first index from `from` on whose start `time` lies before, or the length.
pub open spec fn first_start_after<S: Scalar>(starts: Seq<S>, time: S, from: int) -> int
    decreases starts.len() - from,
{
    if from < 0 || from >= starts.len() || time.lt_spec(starts[from]) {
        if from < 0 || from >= starts.len() {
            starts.len() as int
        } else {
            from
        }
    } else {
        first_start_after(starts, time, from + 1)
    }
}

proof fn lemma_first_start_after<S: Scalar>(starts: Seq<S>, time: S, from: int)
    requires
        0 <= from <= starts.len(),
    ensures
        from <= first_start_after(starts, time, from) <= starts.len(),
    decreases starts.len() - from,
{
    if from < starts.len() && !time.lt_spec(starts[from]) {
        lemma_first_start_after(starts, time, from + 1);
    }
}

/// The frame of a loop that is shown at `time`, by the starts of the frames.
pub open spec fn frame_at<S: Scalar>(starts: Seq<S>, frame_count: int, time: S) -> int {
    let after = first_start_after(starts, time, 0);
    let index = if after > 0 {
        after - 1
    } else {
        0
    };
    if frame_count == 1 {
        0
    } else if index >= frame_count {
        frame_count - 1
    } else {
        index
    }
}

fn find_frame<S: Scalar>(starts: &Vec<S>, frame_count: usize, time: S) -> (r: usize)
    requires
        frame_count > 0,
    ensures
        r == frame_at(starts@, frame_count as int, time),
        r < frame_count,
{
    if frame_count == 1 {
        return 0;
    }
    let mut after: usize = 0;
    while after < starts.len() && !time.lt(starts[after])
        invariant
            after <= starts@.len(),
            first_start_after(starts@, time, 0) == first_start_after(starts@, time, after as int),
        decreases starts@.len() - after,
    {
        after = after + 1;
    }
    let index: usize = if after > 0 {
        after - 1
    } else {
        0
    };
    if index >= frame_count {
        frame_count - 1
    } else {
        index
    }
}

/// A position on the time axis of a loop brought into its length.
pub open spec fn position_in_loop<S: Scalar>(position: S, total: S) -> S {
    let wrapped = position.rem_euclid_by_spec(total);
    if wrapped.nan_spec() {
        S::zero_spec()
    } else if total.le_spec(wrapped) {
        total.minus_spec(S::machine_epsilon_spec())
    } else if wrapped.lt_spec(S::zero_spec()) {
        S::zero_spec()
    } else {
        wrapped
    }
}

fn bring_into_loop<S: Scalar>(position: S, total: S) -> (r: S)
    ensures
        r == position_in_loop(position, total),
{
    let wrapped = position.rem_euclid_by(total);
    if wrapped.nan() {
        S::zero()
    } else if total.le(wrapped) {
        total.minus(S::machine_epsilon())
    } else if wrapped.lt(S::zero()) {
        S::zero()
    } else {
        wrapped
    }
}

/// How a long step through a loop came out.
#[derive(Clone, Copy)]
pub struct LoopJump<S> {
    pub clock: LoopClock<S>,
    /// Another frame is shown, or the loop was gone round.
    pub changed: bool,
    /// The position left the loop's length and was brought back into it.
    pub wrapped: bool,
    /// The place was looked up anew, rather than moved within its frame.
    pub placed: bool,
}

/// The place after a step of any length, found from the position on the time axis.
///
/// Within the slack of the frame's ends the place stays in its frame.
pub open spec fn jumped<S: Scalar>(
    clock: LoopClock<S>,
    durations: Seq<S>,
    offsets: Seq<S>,
    total_duration: S,
    delta: S,
) -> LoopJump<S> {
    let zero = S::zero_spec();
    let eps = S::clip_epsilon_spec();
    let total = total_duration.larger_spec(zero).larger_spec(S::machine_epsilon_spec());
    let duration = clock.duration.larger_spec(zero);
    let moved = clock.elapsed.plus_spec(delta);
    let count = durations.len() as int;
    if total_duration.larger_spec(zero).le_spec(zero) {
        LoopJump { clock, changed: false, wrapped: false, placed: false }
    } else if zero.lt_spec(delta) && moved.le_spec(duration.plus_spec(eps)) {
        LoopJump {
            clock: LoopClock { elapsed: moved.smaller_spec(duration), ..clock },
            changed: false,
            wrapped: false,
            placed: false,
        }
    } else if !zero.lt_spec(delta) && delta.lt_spec(zero) && eps.negated_spec().le_spec(moved) {
        LoopJump {
            clock: LoopClock { elapsed: moved.larger_spec(zero), ..clock },
            changed: false,
            wrapped: false,
            placed: false,
        }
    } else {
        let position = clock.offset.plus_spec(clock.elapsed).plus_spec(delta);
        let place = position_in_loop(position, total);
        let wrapped = position.lt_spec(zero) || total.le_spec(position);
        let index = frame_at(offsets, count, place);
        let start = if index < offsets.len() {
            offsets[index]
        } else {
            zero
        };
        let raw = durations[index];
        let new_duration = if raw.lt_spec(zero) {
            zero
        } else {
            raw
        };
        let since = place.minus_spec(start);
        let previous = if clock.frame_index < count - 1 {
            clock.frame_index as int
        } else {
            count - 1
        };
        LoopJump {
            clock: LoopClock {
                frame_index: index as usize,
                elapsed: if since.lt_spec(zero) {
                    zero
                } else if new_duration.lt_spec(since) {
                    new_duration
                } else {
                    since
                },
                duration: new_duration,
                offset: start,
            },
            changed: wrapped || index != previous,
            wrapped,
            placed: true,
        }
    }
}

pub fn jump<S: Scalar>(
    clock: LoopClock<S>,
    durations: &Vec<S>,
    offsets: &Vec<S>,
    total_duration: S,
    delta: S,
) -> (r: LoopJump<S>)
    requires
        durations@.len() > 0,
    ensures
        r == jumped(clock, durations@, offsets@, total_duration, delta),
        r.placed ==> r.clock.frame_index < durations@.len(),
        !r.placed ==> r.clock.frame_index == clock.frame_index,
{
    let zero = S::zero();
    let eps = S::clip_epsilon();
    let positive = total_duration.larger(zero);
    if positive.le(zero) {
        return LoopJump { clock, changed: false, wrapped: false, placed: false };
    }
    let total = positive.larger(S::machine_epsilon());
    let duration = clock.duration.larger(zero);
    let moved = clock.elapsed.plus(delta);
    if zero.lt(delta) {
        if moved.le(duration.plus(eps)) {
            let elapsed = moved.smaller(duration);
            return LoopJump {
                clock: LoopClock {
                    frame_index: clock.frame_index,
                    elapsed,
                    duration: clock.duration,
                    offset: clock.offset,
                },
                changed: false,
                wrapped: false,
                placed: false,
            };
        }
    } else if delta.lt(zero) {
        if eps.negated().le(moved) {
            let elapsed = moved.larger(zero);
            return LoopJump {
                clock: LoopClock {
                    frame_index: clock.frame_index,
                    elapsed,
                    duration: clock.duration,
                    offset: clock.offset,
                },
                changed: false,
                wrapped: false,
                placed: false,
            };
        }
    }
    let count: usize = durations.len();
    let position = clock.offset.plus(clock.elapsed).plus(delta);
    let place = bring_into_loop(position, total);
    let wrapped = position.lt(zero) || total.le(position);
    let index: usize = find_frame(offsets, count, place);
    let start = if index < offsets.len() {
        offsets[index]
    } else {
        zero
    };
    let raw = durations[index];
    let new_duration = if raw.lt(zero) {
        zero
    } else {
        raw
    };
    let since = place.minus(start);
    let elapsed = if since.lt(zero) {
        zero
    } else if new_duration.lt(since) {
        new_duration
    } else {
        since
    };
    let previous: usize = if clock.frame_index < count - 1 {
        clock.frame_index
    } else {
        count - 1
    };
    LoopJump {
        clock: LoopClock { frame_index: index, elapsed, duration: new_duration, offset: start },
        changed: wrapped || index != previous,
        wrapped,
        placed: true,
    }
}

pub open spec fn next_in_loop(index: int, count: int) -> int {
    if index + 1 >= count {
        0
    } else {
        index + 1
    }
}

pub open spec fn prev_in_loop(index: int, count: int) -> int {
    if index == 0 {
        count - 1
    } else {
        index - 1
    }
}

/// Frame by frame forward, starting behind `index` with `remaining` to go: the frame whose
/// duration covers what remains.
pub open spec fn walked_forward<S: Scalar>(
    durations: Seq<S>,
    offsets: Seq<S>,
    index: int,
    remaining: S,
    fuel: nat,
) -> LoopClock<S>
    decreases fuel,
{
    let next = next_in_loop(index, durations.len() as int);
    let duration = durations[next].larger_spec(S::clip_epsilon_spec());
    if fuel == 0 || remaining.le_spec(duration) {
        LoopClock { frame_index: next as usize, elapsed: remaining, duration, offset: offsets[next] }
    } else {
        walked_forward(
            durations,
            offsets,
            next,
            remaining.minus_spec(duration),
            (fuel - 1) as nat,
        )
    }
}

/// The same backward: `remaining` is counted from the end of the frame that is entered.
pub open spec fn walked_backward<S: Scalar>(
    durations: Seq<S>,
    offsets: Seq<S>,
    index: int,
    remaining: S,
    fuel: nat,
) -> LoopClock<S>
    decreases fuel,
{
    let prev = prev_in_loop(index, durations.len() as int);
    let duration = durations[prev].larger_spec(S::clip_epsilon_spec());
    if fuel == 0 || remaining.le_spec(duration) {
        LoopClock {
            frame_index: prev as usize,
            elapsed: duration.minus_spec(remaining).larger_spec(S::zero_spec()),
            duration,
            offset: offsets[prev],
        }
    } else {
        walked_backward(
            durations,
            offsets,
            prev,
            remaining.minus_spec(duration),
            (fuel - 1) as nat,
        )
    }
}

fn walk_forward<S: Scalar>(durations: &Vec<S>, offsets: &Vec<S>, from: usize, remaining: S) -> (r:
    LoopClock<S>)
    requires
        from < durations@.len(),
        offsets@.len() == durations@.len(),
    ensures
        r == walked_forward(
            durations@,
            offsets@,
            from as int,
            remaining,
            MAX_FRAME_STEPS as nat,
        ),
        r.frame_index < durations@.len(),
{
    let count: usize = durations.len();
    let mut index: usize = from;
    let mut left = remaining;
    let mut fuel: u64 = MAX_FRAME_STEPS;
    let ghost goal = walked_forward(
        durations@,
        offsets@,
        from as int,
        remaining,
        MAX_FRAME_STEPS as nat,
    );
    loop
        invariant
            index < count,
            count == durations@.len(),
            offsets@.len() == durations@.len(),
            goal == walked_forward(durations@, offsets@, index as int, left, fuel as nat),
            goal == walked_forward(
                durations@,
                offsets@,
                from as int,
                remaining,
                MAX_FRAME_STEPS as nat,
            ),
        decreases fuel,
    {
        index = if index + 1 >= count {
            0
        } else {
            index + 1
        };
        let duration = durations[index].larger(S::clip_epsilon());
        if fuel == 0 || left.le(duration) {
            return LoopClock {
                frame_index: index,
                elapsed: left,
                duration,
                offset: offsets[index],
            };
        }
        left = left.minus(duration);
        fuel = fuel - 1;
    }
}

fn walk_backward<S: Scalar>(durations: &Vec<S>, offsets: &Vec<S>, from: usize, remaining: S) -> (r:
    LoopClock<S>)
    requires
        from < durations@.len(),
        offsets@.len() == durations@.len(),
    ensures
        r == walked_backward(
            durations@,
            offsets@,
            from as int,
            remaining,
            MAX_FRAME_STEPS as nat,
        ),
        r.frame_index < durations@.len(),
{
    let count: usize = durations.len();
    let mut index: usize = from;
    let mut left = remaining;
    let mut fuel: u64 = MAX_FRAME_STEPS;
    let ghost goal = walked_backward(
        durations@,
        offsets@,
        from as int,
        remaining,
        MAX_FRAME_STEPS as nat,
    );
    loop
        invariant
            index < count,
            count == durations@.len(),
            offsets@.len() == durations@.len(),
            goal == walked_backward(durations@, offsets@, index as int, left, fuel as nat),
            goal == walked_backward(
                durations@,
                offsets@,
                from as int,
                remaining,
                MAX_FRAME_STEPS as nat,
            ),
        decreases fuel,
    {
        index = if index == 0 {
            count - 1
        } else {
            index - 1
        };
        let duration = durations[index].larger(S::clip_epsilon());
        if fuel == 0 || left.le(duration) {
            return LoopClock {
                frame_index: index,
                elapsed: duration.minus(left).larger(S::zero()),
                duration,
                offset: offsets[index],
            };
        }
        left = left.minus(duration);
        fuel = fuel - 1;
    }
}

/// The place after a short step, found frame by frame, and whether a frame is entered.
pub open spec fn walked<S: Scalar>(
    clock: LoopClock<S>,
    durations: Seq<S>,
    offsets: Seq<S>,
    delta: S,
) -> (LoopClock<S>, bool) {
    let zero = S::zero_spec();
    let eps = S::clip_epsilon_spec();
    let moved = clock.elapsed.plus_spec(delta);
    let duration = clock.duration.larger_spec(eps);
    if zero.lt_spec(delta) {
        if moved.le_spec(duration) {
            (LoopClock { elapsed: moved, ..clock }, false)
        } else {
            (
                walked_forward(
                    durations,
                    offsets,
                    clock.frame_index as int,
                    moved.minus_spec(duration),
                    MAX_FRAME_STEPS as nat,
                ),
                true,
            )
        }
    } else if eps.negated_spec().le_spec(moved) {
        (LoopClock { elapsed: moved.larger_spec(zero), ..clock }, false)
    } else {
        (
            walked_backward(
                durations,
                offsets,
                clock.frame_index as int,
                moved.negated_spec(),
                MAX_FRAME_STEPS as nat,
            ),
            true,
        )
    }
}

pub fn walk<S: Scalar>(clock: LoopClock<S>, durations: &Vec<S>, offsets: &Vec<S>, delta: S) -> (r: (
    LoopClock<S>,
    bool,
))
    requires
        clock.frame_index < durations@.len(),
        offsets@.len() == durations@.len(),
    ensures
        r == walked(clock, durations@, offsets@, delta),
        r.0.frame_index < durations@.len(),
{
    let zero = S::zero();
    let eps = S::clip_epsilon();
    let moved = clock.elapsed.plus(delta);
    if zero.lt(delta) {
        let duration = clock.duration.larger(eps);
        if moved.le(duration) {
            let mut next = clock;
            next.elapsed = moved;
            (next, false)
        } else {
            (walk_forward(durations, offsets, clock.frame_index, moved.minus(duration)), true)
        }
    } else if eps.negated().le(moved) {
        let mut next = clock;
        next.elapsed = moved.larger(zero);
        (next, false)
    } else {
        (walk_backward(durations, offsets, clock.frame_index, moved.negated()), true)
    }
}

/// Whether frames that last some time lie one behind the other, from the start of a loop to its
/// end.
pub open spec fn frames_laid(durations: Seq<Fixed>, offsets: Seq<Fixed>, total: Fixed) -> bool {
    &&& 0 < durations.len() == offsets.len()
    &&& durations.len() <= usize::MAX
    &&& offsets[0].0 == 0
    &&& forall|i: int| 0 <= i < durations.len() ==> (#[trigger] durations[i]).0 >= 1
    &&& forall|i: int|
        0 <= i < durations.len() - 1 ==> (#[trigger] offsets[i]).0 + durations[i].0 == offsets[i
            + 1].0
    &&& total.0 == offsets.last().0 + durations.last().0
    &&& total.0 < i64::MAX
}

/// Whether a clock stands within a frame of a loop.
pub open spec fn clock_stands(
    clock: LoopClock<Fixed>,
    durations: Seq<Fixed>,
    offsets: Seq<Fixed>,
) -> bool {
    &&& clock.frame_index < durations.len()
    &&& clock.offset == offsets[clock.frame_index as int]
    &&& clock.duration == durations[clock.frame_index as int]
    &&& 0 <= clock.elapsed.0 <= clock.duration.0
}

proof fn lemma_start_found(starts: Seq<Fixed>, time: Fixed, from: int)
    requires
        0 <= from <= starts.len(),
    ensures
        ({
            let after = first_start_after(starts, time, from);
            &&& from <= after <= starts.len()
            &&& from < after ==> starts[after - 1].0 <= time.0
            &&& after < starts.len() ==> time.0 < starts[after].0
        }),
    decreases starts.len() - from,
{
    if from < starts.len() && !time.lt_spec(starts[from]) {
        lemma_start_found(starts, time, from + 1);
    }
}

proof fn lemma_starts_within(durations: Seq<Fixed>, offsets: Seq<Fixed>, total: Fixed, i: int)
    requires
        frames_laid(durations, offsets, total),
        0 <= i < durations.len(),
    ensures
        0 <= offsets[i].0,
        offsets[i].0 + durations[i].0 <= total.0,
    decreases durations.len() - i,
{
    lemma_start_not_negative(durations, offsets, total, i);
    if i < durations.len() - 1 {
        lemma_starts_within(durations, offsets, total, i + 1);
        assert(durations[i + 1].0 >= 1);
        assert(offsets[i].0 + durations[i].0 == offsets[i + 1].0);
    }
}

proof fn lemma_start_not_negative(
    durations: Seq<Fixed>,
    offsets: Seq<Fixed>,
    total: Fixed,
    i: int,
)
    requires
        frames_laid(durations, offsets, total),
        0 <= i < durations.len(),
    ensures
        0 <= offsets[i].0,
    decreases i,
{
    if i > 0 {
        lemma_start_not_negative(durations, offsets, total, i - 1);
        assert(durations[i - 1].0 >= 1);
        assert(offsets[i - 1].0 + durations[i - 1].0 == offsets[i - 1 + 1].0);
    }
}

proof fn lemma_place_found(durations: Seq<Fixed>, offsets: Seq<Fixed>, total: Fixed, place: Fixed)
    requires
        frames_laid(durations, offsets, total),
        0 <= place.0 < total.0,
    ensures
        ({
            let index = frame_at(offsets, durations.len() as int, place);
            &&& 0 <= index < durations.len()
            &&& 0 <= offsets[index].0 <= place.0 < offsets[index].0 + durations[index].0
        }),
{
    let found = first_start_after(offsets, place, 0);
    lemma_start_found(offsets, place, 0);
    assert(found > 0);
    let index = found - 1;
    lemma_starts_within(durations, offsets, total, index);
    if found < offsets.len() {
        assert(offsets[index].0 + durations[index].0 == offsets[index + 1].0);
    }
}

proof fn lemma_position_brought_in(position: Fixed, total: Fixed)
    requires
        total.0 > 0,
    ensures
        position_in_loop(position, total).0 == position.0 as int % total.0 as int,
        0 <= position_in_loop(position, total).0 < total.0,
{
    vstd::arithmetic::div_mod::lemma_mod_bound(position.0 as int, total.0 as int);
}

/// A step of any length through a loop of fixed-point frames keeps time: the place that it leads
/// to is the place before it plus the step, up to whole rounds; and the clock stands within a
/// frame again. The slack at the ends of a frame is left out.
#[verifier::rlimit(60)]
pub proof fn law_loop_jump_keeps_time(
    clock: LoopClock<Fixed>,
    durations: Seq<Fixed>,
    offsets: Seq<Fixed>,
    total: Fixed,
    delta: Fixed,
)
    requires
        frames_laid(durations, offsets, total),
        clock_stands(clock, durations, offsets),
        i64::MIN <= clock.elapsed.0 + delta.0,
        clock.offset.0 + clock.elapsed.0 + delta.0 <= i64::MAX,
        delta.0 > 0 ==> clock.elapsed.0 + delta.0 != clock.duration.0 + 1,
        delta.0 < 0 ==> clock.elapsed.0 + delta.0 != -1,
    ensures
        ({
            let after = jumped(clock, durations, offsets, total, delta).clock;
            &&& clock_stands(after, durations, offsets)
            &&& (after.offset.0 + after.elapsed.0) % total.0 as int == (clock.offset.0
                + clock.elapsed.0 + delta.0) % total.0 as int
        }),
{
    let at = clock.frame_index as int;
    lemma_starts_within(durations, offsets, total, at);
    let position = clock.offset.plus_spec(clock.elapsed).plus_spec(delta);
    assert(position.0 == clock.offset.0 + clock.elapsed.0 + delta.0);
    let r = jumped(clock, durations, offsets, total, delta);
    if r.placed {
        let place = position_in_loop(position, total);
        lemma_position_brought_in(position, total);
        lemma_place_found(durations, offsets, total, place);
        let index = frame_at(offsets, durations.len() as int, place);
        assert(r.clock.frame_index == index);
        assert(r.clock.offset == offsets[index]);
        assert(r.clock.duration == durations[index]);
        assert(r.clock.elapsed.0 == place.0 - offsets[index].0);
        vstd::arithmetic::div_mod::lemma_mod_twice(position.0 as int, total.0 as int);
    } else {
        assert(r.clock.elapsed.0 == clock.elapsed.0 + delta.0);
    }
}

/// Going round a loop of fixed-point frames any number of times leads back to the same place,
/// unless the slack at the end of its one frame takes the step up.
pub proof fn law_whole_rounds_lead_back(
    clock: LoopClock<Fixed>,
    durations: Seq<Fixed>,
    offsets: Seq<Fixed>,
    total: Fixed,
    rounds: int,
)
    requires
        frames_laid(durations, offsets, total),
        clock_stands(clock, durations, offsets),
        clock.elapsed.0 < clock.duration.0,
        1 <= rounds,
        rounds * total.0 + total.0 <= i64::MAX,
        clock.elapsed.0 + rounds * total.0 != clock.duration.0 + 1,
    ensures
        ({
            let after = jumped(
                clock,
                durations,
                offsets,
                total,
                Fixed((rounds * total.0) as i64),
            ).clock;
            (after.offset.0 + after.elapsed.0) % total.0 as int == clock.offset.0
                + clock.elapsed.0
        }),
{
    let at = clock.frame_index as int;
    let n = total.0 as int;
    lemma_starts_within(durations, offsets, total, at);
    assert(rounds * n >= n) by (nonlinear_arith)
        requires
            rounds >= 1,
            n >= 0,
    ;
    let place = clock.offset.0 + clock.elapsed.0;
    assert((place + rounds * n) % n == place) by {
        vstd::arithmetic::div_mod::lemma_mod_multiples_vanish(rounds, place, n);
        vstd::arithmetic::div_mod::lemma_small_mod(place as nat, n as nat);
        assert(n * rounds == rounds * n) by (nonlinear_arith);
    }
    law_loop_jump_keeps_time(clock, durations, offsets, total, Fixed((rounds * n) as i64));
}

} // verus!
