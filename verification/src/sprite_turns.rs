//! What moving a sprite animation comes to: which frame is shown, in which direction it goes on,
//! what is sent, and where the time goes. Times are fixed-point numbers, which add exactly.
use vstd::prelude::*;
use crate::anim_stats::AnimationRecorder;
use crate::entity::Entity;
use crate::events::GameEvent;
use crate::scalar::{Fixed, Scalar};
use crate::sprite::{SpriteAnimation, SpriteAnimationLoopMode};
use crate::sprite_advance::{advance_run, PlaybackRun};

verus! {

/// Whether an animation plays each of its frames once.
pub open spec fn plays_once(mode: SpriteAnimationLoopMode) -> bool {
    mode == SpriteAnimationLoopMode::OnceStop || mode == SpriteAnimationLoopMode::OnceHold
}

/// Whether a frame is shown: its number, its duration and its offset are those at hand.
pub open spec fn shows(a: SpriteAnimation<Fixed>, index: int) -> bool {
    &&& a.frame_index == index
    &&& a.current_duration == a.frame_durations@[index]
    &&& a.current_frame_offset == a.frame_offsets@[index]
}

/// Whether two animations play the same frames in the same way, wherever they are in them.
pub open spec fn same_material(a: SpriteAnimation<Fixed>, b: SpriteAnimation<Fixed>) -> bool {
    &&& a.timeline == b.timeline && a.frames == b.frames && a.frame_hot_data == b.frame_hot_data
    &&& a.frame_durations == b.frame_durations && a.frame_offsets == b.frame_offsets
    &&& a.total_duration == b.total_duration && a.total_duration_inv == b.total_duration_inv
    &&& a.mode == b.mode && a.looped == b.looped && a.speed == b.speed && a.group == b.group
    &&& a.start_offset == b.start_offset && a.random_start == b.random_start
    &&& a.has_events == b.has_events && a.fast_loop == b.fast_loop
    &&& a.playback_rate == b.playback_rate && a.playback_rate_dirty == b.playback_rate_dirty
    &&& a.pending_small_delta == b.pending_small_delta
    &&& a.pending_start_events == b.pending_start_events
}

/// Whether what was sent are the events of a frame, in order, by an entity.
pub open spec fn sends_frame(
    sent: Seq<GameEvent<Fixed>>,
    a: SpriteAnimation<Fixed>,
    index: int,
    entity: Entity,
) -> bool {
    let names = a.frames@[index].events@;
    &&& sent.len() == names.len()
    &&& forall|j: int|
        0 <= j < names.len() ==> #[trigger] sent[j] == (GameEvent::<Fixed>::SpriteAnimationEvent {
            entity,
            timeline: a.timeline,
            event: names[j],
        })
}

/// Whether an animation is somewhere in one of its frames, and its times are of a size that adds up.
pub open spec fn is_under_way(a: SpriteAnimation<Fixed>) -> bool {
    &&& a.seated()
    &&& a.frames@.len() <= usize::MAX
    &&& a.playing
    &&& forall|i: int|
        0 <= i < a.frame_durations@.len() ==> 0 < (#[trigger] a.frame_durations@[i]).0 <= i32::MAX
    &&& 0 <= a.elapsed_in_frame.0 <= a.frame_durations@[a.frame_index as int].0
}

/// How long is left of the frame.
pub open spec fn left_of_frame(a: SpriteAnimation<Fixed>) -> int {
    a.frame_durations@[a.frame_index as int].0 - a.elapsed_in_frame.0
}

/// A step that does not reach the end of the frame, or its start, only lengthens or shortens the
/// time spent in it: no other frame is shown and nothing is sent.
pub proof fn law_short_steps_stay_in_the_frame(
    a: SpriteAnimation<Fixed>,
    delta: Fixed,
    entity: Entity,
    emit: bool,
    respect_terminal: bool,
    recorder: AnimationRecorder<Fixed>,
)
    requires
        is_under_way(a),
        -a.elapsed_in_frame.0 < delta.0 < left_of_frame(a),
    ensures
        ({
            let run = advance_run(a, delta, entity, emit, respect_terminal, recorder);
            &&& run.animation == (SpriteAnimation {
                elapsed_in_frame: Fixed((a.elapsed_in_frame.0 + delta.0) as i64),
                ..a
            })
            &&& !run.changed
            &&& run.sent.len() == 0
        }),
{
    reveal(advance_run);
    if delta.0 != 0 {
        reveal_with_fuel(PlaybackRun::played, 3);
    }
}

/// An animation that plays once and reaches the end of a frame shows its last frame, sends the
/// events of that frame if any are asked for, and stops if it is to. One that holds has spent all
/// of the last frame's time, one that stops none of it.
pub proof fn law_playing_once_ends_on_the_last_frame(
    a: SpriteAnimation<Fixed>,
    delta: Fixed,
    entity: Entity,
    emit: bool,
    respect_terminal: bool,
    recorder: AnimationRecorder<Fixed>,
)
    requires
        is_under_way(a),
        plays_once(a.mode),
        0 < delta.0,
        left_of_frame(a) <= delta.0,
    ensures
        ({
            let run = advance_run(a, delta, entity, emit, respect_terminal, recorder);
            let last = a.frames@.len() - 1;
            &&& same_material(run.animation, a)
            &&& shows(run.animation, last)
            &&& run.animation.playing == !respect_terminal
            &&& run.animation.forward == a.forward
            &&& a.mode == SpriteAnimationLoopMode::OnceHold ==> run.animation.elapsed_in_frame
                == a.frame_durations@[last]
            &&& a.mode == SpriteAnimationLoopMode::OnceStop ==> run.animation.elapsed_in_frame.0
                == 0
            &&& run.changed
            &&& emit ==> sends_frame(run.sent, a, last, entity)
            &&& !emit ==> run.sent.len() == 0
        }),
{
    reveal(advance_run);
    reveal_with_fuel(PlaybackRun::played, 3);
}

/// An animation that plays once and is taken back beyond its start shows its first frame from the
/// beginning, and stops if it is to.
pub proof fn law_playing_once_backward_ends_on_the_first_frame(
    a: SpriteAnimation<Fixed>,
    delta: Fixed,
    entity: Entity,
    emit: bool,
    respect_terminal: bool,
    recorder: AnimationRecorder<Fixed>,
)
    requires
        is_under_way(a),
        plays_once(a.mode),
        a.frame_index == 0,
        i64::MIN < delta.0 < 0,
        a.elapsed_in_frame.0 <= -delta.0,
    ensures
        ({
            let run = advance_run(a, delta, entity, emit, respect_terminal, recorder);
            &&& same_material(run.animation, a)
            &&& shows(run.animation, 0)
            &&& run.animation.elapsed_in_frame.0 == 0
            &&& run.animation.playing == !respect_terminal
            &&& !run.changed
            &&& run.sent.len() == 0
        }),
{
    reveal(advance_run);
    reveal_with_fuel(PlaybackRun::played, 3);
}

/// One step of a pass.
#[verifier::opaque]
pub open spec fn one_step(
    run: PlaybackRun<Fixed>,
    entity: Entity,
    emit: bool,
    respect_terminal: bool,
) -> PlaybackRun<Fixed> {
    run.played(entity, emit, respect_terminal, 1)
}

/// When the first frames of an animation are over.
pub open spec fn over_at(durations: Seq<Fixed>, n: int) -> int
    decreases n,
{
    if n <= 0 {
        0
    } else {
        over_at(durations, n - 1) + durations[n - 1].0
    }
}

/// How far an animation has come since its start.
pub open spec fn come_so_far(a: SpriteAnimation<Fixed>) -> int {
    over_at(a.frame_durations@, a.frame_index as int) + a.elapsed_in_frame.0
}

/// A step of a loop that runs forward keeps time: what it has come further, up to a whole round, is
/// what it took off the time that was left. It goes to the next frame, or to the one before when
/// time runs backward, round the ends, and what it enters it shows and sends.
#[verifier::rlimit(40)]
pub proof fn law_loop_steps_keep_time(
    run: PlaybackRun<Fixed>,
    entity: Entity,
    emit: bool,
    respect_terminal: bool,
)
    requires
        is_under_way(run.animation),
        run.animation.mode == SpriteAnimationLoopMode::Loop,
        run.animation.frames@.len() >= 2,
        !run.ended,
        i32::MIN <= run.delta.0 <= i32::MAX,
        run.delta.0 != 0,
    ensures
        ({
            let a = run.animation;
            let n = a.frames@.len() as int;
            let after = one_step(run, entity, emit, respect_terminal);
            let b = after.animation;
            let total = over_at(a.frame_durations@, n);
            let used = run.delta.0 - after.delta.0;
            &&& is_under_way(b) && same_material(b, a)
            &&& !after.ended
            &&& run.delta.0 > 0 ==> used >= 0 && after.delta.0 >= 0
            &&& run.delta.0 > 0 ==> come_so_far(b) == come_so_far(a) + used || come_so_far(b) + total
                == come_so_far(a) + used
            &&& i32::MIN <= after.delta.0 <= i32::MAX
            &&& 0 < run.delta.0 < left_of_frame(a) ==> b.frame_index == a.frame_index && after.delta.0
                == 0
            &&& left_of_frame(a) <= run.delta.0 && 0 < run.delta.0 ==> {
                &&& b.frame_index as int == (a.frame_index + 1) % n
                &&& used == left_of_frame(a)
                &&& shows(b, b.frame_index as int)
                &&& b.elapsed_in_frame.0 == 0
                &&& after.changed
                &&& emit ==> exists|sent: Seq<GameEvent<Fixed>>| after.sent == run.sent + sent
                    && #[trigger] sends_frame(sent, a, b.frame_index as int, entity)
                &&& !emit ==> after.sent == run.sent
            }
            &&& run.delta.0 < 0 && a.elapsed_in_frame.0 <= -run.delta.0 ==> {
                &&& a.frame_index as int == (b.frame_index + 1) % n
                &&& shows(b, b.frame_index as int)
                &&& b.elapsed_in_frame == b.frame_durations@[b.frame_index as int]
                &&& after.delta.0 == run.delta.0 + a.elapsed_in_frame.0 + b.elapsed_in_frame.0
                &&& after.changed
                &&& emit ==> exists|sent: Seq<GameEvent<Fixed>>| after.sent == run.sent + sent
                    && #[trigger] sends_frame(sent, a, b.frame_index as int, entity)
                &&& !emit ==> after.sent == run.sent
            }
        }),
{
    let a = run.animation;
    let n = a.frames@.len() as int;
    let i = a.frame_index as int;
    reveal(one_step);
    reveal_with_fuel(PlaybackRun::played, 2);
    let after = one_step(run, entity, emit, respect_terminal);
    let b = after.animation;
    assert(0 < a.frame_durations@[i].0 <= i32::MAX);
    assert(0 < b.frame_durations@[b.frame_index as int].0 <= i32::MAX);
    lemma_next_round(i, n);
    lemma_next_round(b.frame_index as int, n);
    assert(over_at(a.frame_durations@, i + 1) == over_at(a.frame_durations@, i)
        + a.frame_durations@[i].0);
    assert(over_at(a.frame_durations@, b.frame_index + 1) == over_at(
        a.frame_durations@,
        b.frame_index as int,
    ) + a.frame_durations@[b.frame_index as int].0);
    if emit {
        let names = a.frames@[b.frame_index as int].events@;
        let sent = Seq::new(
            names.len(),
            |j: int|
                GameEvent::<Fixed>::SpriteAnimationEvent {
                    entity,
                    timeline: a.timeline,
                    event: names[j],
                },
        );
        assert(sends_frame(sent, a, b.frame_index as int, entity));
        if after.changed {
            assert(after.sent =~= run.sent + sent || after.sent == run.sent);
        }
    }
}

/// Whether a place is so much later than another one, less so many rounds.
pub open spec fn is_later(from: int, to: int, used: int, rounds: int, total: int) -> bool {
    to + rounds * total == from + used
}

proof fn lemma_one_step_first(
    run: PlaybackRun<Fixed>,
    entity: Entity,
    emit: bool,
    respect_terminal: bool,
    fuel: nat,
)
    requires
        fuel > 0,
        run.animation.playing,
        !run.ended,
        run.delta.0 > 0,
    ensures
        run.played(entity, emit, respect_terminal, fuel) == one_step(
            run,
            entity,
            emit,
            respect_terminal,
        ).played(entity, emit, respect_terminal, (fuel - 1) as nat),
{
    reveal(one_step);
    reveal_with_fuel(PlaybackRun::played, 2);
}

/// A whole pass of a loop that runs forward keeps time: it has come further by the time that it
/// used, up to whole rounds, and uses all of it unless it is given up.
#[verifier::rlimit(60)]
pub proof fn law_loops_keep_time(
    run: PlaybackRun<Fixed>,
    entity: Entity,
    emit: bool,
    respect_terminal: bool,
    fuel: nat,
)
    requires
        is_under_way(run.animation),
        run.animation.mode == SpriteAnimationLoopMode::Loop,
        run.animation.frames@.len() >= 2,
        !run.ended,
        0 <= run.delta.0 <= i32::MAX,
    ensures
        ({
            let a = run.animation;
            let after = run.played(entity, emit, respect_terminal, fuel);
            let total = over_at(a.frame_durations@, a.frames@.len() as int);
            &&& is_under_way(after.animation) && same_material(after.animation, a)
            &&& 0 <= after.delta.0 <= run.delta.0
            &&& after.delta.0 == 0 || fuel <= run.delta.0 + (if left_of_frame(a) == 0 {
                1int
            } else {
                0
            })
            &&& exists|rounds: int| #[trigger]
                is_later(
                    come_so_far(a),
                    come_so_far(after.animation),
                    run.delta.0 - after.delta.0,
                    rounds,
                    total,
                )
        }),
    decreases fuel,
{
    let a = run.animation;
    let n = a.frames@.len() as int;
    let total = over_at(a.frame_durations@, n);
    let last = run.played(entity, emit, respect_terminal, fuel);
    if fuel == 0 || run.delta.0 == 0 {
        assert(last == run);
        let to = come_so_far(last.animation);
        assert(is_later(come_so_far(a), to, run.delta.0 - last.delta.0, 0, total));
    } else {
        let after = one_step(run, entity, emit, respect_terminal);
        lemma_one_step_first(run, entity, emit, respect_terminal, fuel);
        assert(0 < a.frame_durations@[a.frame_index as int].0);
        law_loop_steps_keep_time(run, entity, emit, respect_terminal);
        assert(0 < a.frame_durations@[after.animation.frame_index as int].0);
        law_loops_keep_time(after, entity, emit, respect_terminal, (fuel - 1) as nat);
        let from = come_so_far(a);
        let to = come_so_far(last.animation);
        let rounds = choose|rounds: int| #[trigger]
            is_later(
                come_so_far(after.animation),
                to,
                after.delta.0 - last.delta.0,
                rounds,
                total,
            );
        if come_so_far(after.animation) != from + run.delta.0 - after.delta.0 {
            assert((rounds + 1) * total == rounds * total + total) by (nonlinear_arith);
            assert(is_later(from, to, run.delta.0 - last.delta.0, rounds + 1, total));
        } else {
            assert(is_later(from, to, run.delta.0 - last.delta.0, rounds, total));
        }
    }
}

proof fn lemma_next_round(i: int, n: int)
    requires
        0 <= i < n,
    ensures
        (i + 1) % n == (if i + 1 < n {
            i + 1
        } else {
            0
        }),
{
    if i + 1 < n {
        vstd::arithmetic::div_mod::lemma_small_mod((i + 1) as nat, n as nat);
    } else {
        vstd::arithmetic::div_mod::lemma_mod_self_0(n);
    }
}

/// A ping-pong that reaches the end of a frame goes to a neighbour of it: on in its direction, and
/// back from the ends. The direction it has then is the one in which it went.
#[verifier::rlimit(40)]
pub proof fn law_ping_pong_goes_to_a_neighbour(
    run: PlaybackRun<Fixed>,
    entity: Entity,
    emit: bool,
    respect_terminal: bool,
)
    requires
        is_under_way(run.animation),
        run.animation.mode == SpriteAnimationLoopMode::PingPong,
        run.animation.frames@.len() >= 2,
        !run.ended,
        0 < run.delta.0 <= i32::MAX,
        left_of_frame(run.animation) <= run.delta.0,
    ensures
        ({
            let a = run.animation;
            let n = a.frames@.len() as int;
            let i = a.frame_index as int;
            let after = one_step(run, entity, emit, respect_terminal);
            let b = after.animation;
            let j = b.frame_index as int;
            &&& is_under_way(b) && same_material(b, a)
            &&& j == i + 1 || j == i - 1
            &&& b.forward == (j == i + 1)
            &&& 0 < i < n - 1 ==> b.forward == a.forward
            &&& b.prev_forward == a.forward
            &&& shows(b, j)
            &&& b.elapsed_in_frame.0 == 0
            &&& run.delta.0 - after.delta.0 == left_of_frame(a)
            &&& after.changed && !after.ended
            &&& emit ==> exists|sent: Seq<GameEvent<Fixed>>| after.sent == run.sent + sent
                && #[trigger] sends_frame(sent, a, j, entity)
            &&& !emit ==> after.sent == run.sent
        }),
{
    let a = run.animation;
    reveal(one_step);
    reveal_with_fuel(PlaybackRun::played, 2);
    let after = one_step(run, entity, emit, respect_terminal);
    let b = after.animation;
    assert(0 < a.frame_durations@[a.frame_index as int].0 <= i32::MAX);
    assert(0 < b.frame_durations@[b.frame_index as int].0 <= i32::MAX);
    if emit {
        let names = a.frames@[b.frame_index as int].events@;
        let sent = Seq::new(
            names.len(),
            |j: int|
                GameEvent::<Fixed>::SpriteAnimationEvent {
                    entity,
                    timeline: a.timeline,
                    event: names[j],
                },
        );
        assert(sends_frame(sent, a, b.frame_index as int, entity));
        assert(after.sent =~= run.sent + sent);
    }
}

/// An animation that is taken back over the start of a frame comes to the end of the frame before
/// it: the neighbour from which it came, or the end from which it turned back.
#[verifier::rlimit(40)]
pub proof fn law_going_back_leads_where_it_came_from(
    run: PlaybackRun<Fixed>,
    entity: Entity,
    emit: bool,
    respect_terminal: bool,
)
    requires
        is_under_way(run.animation),
        run.animation.mode != SpriteAnimationLoopMode::Loop,
        run.animation.frames@.len() >= 2,
        !run.ended,
        i32::MIN <= run.delta.0 < 0,
        run.animation.elapsed_in_frame.0 <= -run.delta.0,
        plays_once(run.animation.mode) ==> run.animation.frame_index > 0,
    ensures
        ({
            let a = run.animation;
            let n = a.frames@.len() as int;
            let i = a.frame_index as int;
            let after = one_step(run, entity, emit, respect_terminal);
            let b = after.animation;
            let j = b.frame_index as int;
            &&& is_under_way(b) && same_material(b, a)
            &&& plays_once(a.mode) ==> j == i - 1 && b.forward == a.forward
            &&& !plays_once(a.mode) && a.forward == a.prev_forward ==> b.forward == a.forward && (
            if a.forward {
                j == i - 1 || i == 0 && j == 0
            } else {
                j == i + 1 || i == n - 1 && j == i
            })
            &&& !plays_once(a.mode) && a.forward != a.prev_forward ==> b.forward == a.prev_forward && (
            if a.forward {
                j == 0
            } else {
                j == n - 1
            })
            &&& shows(b, j)
            &&& b.elapsed_in_frame == a.frame_durations@[j]
            &&& after.delta.0 == run.delta.0 + a.elapsed_in_frame.0 + a.frame_durations@[j].0
            &&& after.changed
            &&& emit ==> exists|sent: Seq<GameEvent<Fixed>>| after.sent == run.sent + sent
                && #[trigger] sends_frame(sent, a, j, entity)
            &&& !emit ==> after.sent == run.sent
        }),
{
    let a = run.animation;
    reveal(one_step);
    reveal_with_fuel(PlaybackRun::played, 2);
    let after = one_step(run, entity, emit, respect_terminal);
    let b = after.animation;
    assert(0 < a.frame_durations@[a.frame_index as int].0 <= i32::MAX);
    assert(0 < b.frame_durations@[b.frame_index as int].0 <= i32::MAX);
    if emit {
        let names = a.frames@[b.frame_index as int].events@;
        let sent = Seq::new(
            names.len(),
            |j: int|
                GameEvent::<Fixed>::SpriteAnimationEvent {
                    entity,
                    timeline: a.timeline,
                    event: names[j],
                },
        );
        assert(sends_frame(sent, a, b.frame_index as int, entity));
        assert(after.sent =~= run.sent + sent);
    }
}

} // verus!
