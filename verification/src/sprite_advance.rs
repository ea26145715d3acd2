//! Moving a sprite animation through its frames.
use std::sync::Arc;
use vstd::prelude::*;
use crate::anim_stats::{
    perf_record_events, perf_record_mod_or_div, record_event_call, record_fast_loop_binary_search,
    record_fast_loop_call, record_plain_call, AnimationRecorder,
};
use crate::animation_time::AnimationTime;
use crate::entity::Entity;
use crate::events::{EventBus, GameEvent};
use crate::scalar::Scalar;
use crate::sprite::{SpriteAnimation, SpriteAnimationLoopMode};
use crate::sprite_loop::{jump, walk, LoopClock};

verus! {

/// Where an animation goes at the end of a frame.
pub struct FrameTurn {
    pub index: int,
    pub forward: bool,
    /// The shown frame counts as changed, and its events are sent.
    pub changed: bool,
    /// The animation has come to its end.
    pub ends: bool,
}

/// The turn at the end of frame `index` of `len` frames when time runs forward.
///
/// A loop goes on to the next frame and from the last to the first. One that plays once ends on
/// the last frame. A ping-pong goes to the neighbour in its direction and turns round at both
/// ends; with a single frame it stays.
pub open spec fn forward_turn(
    mode: SpriteAnimationLoopMode,
    len: int,
    index: int,
    forward: bool,
) -> FrameTurn {
    match mode {
        SpriteAnimationLoopMode::Loop => FrameTurn {
            index: if index + 1 < len {
                index + 1
            } else {
                0
            },
            forward,
            changed: true,
            ends: false,
        },
        SpriteAnimationLoopMode::OnceStop | SpriteAnimationLoopMode::OnceHold => FrameTurn {
            index: len - 1,
            forward,
            changed: true,
            ends: true,
        },
        SpriteAnimationLoopMode::PingPong => if len <= 1 {
            FrameTurn { index: 0, forward: true, changed: false, ends: false }
        } else if forward {
            if index + 1 < len {
                FrameTurn { index: index + 1, forward: true, changed: true, ends: false }
            } else {
                FrameTurn { index: len - 2, forward: false, changed: true, ends: false }
            }
        } else if index > 0 {
            FrameTurn { index: index - 1, forward: false, changed: true, ends: false }
        } else {
            FrameTurn { index: 1, forward: true, changed: true, ends: false }
        },
    }
}

/// The turn at the start of frame `index` when time runs backward: the frame shown before, with a
/// ping-pong's last change of direction undone. One that plays once ends on the first frame.
pub open spec fn backward_turn(
    mode: SpriteAnimationLoopMode,
    len: int,
    index: int,
    forward: bool,
    prev_forward: bool,
) -> FrameTurn {
    match mode {
        SpriteAnimationLoopMode::Loop => if len > 1 {
            FrameTurn {
                index: if index == 0 {
                    len - 1
                } else {
                    index - 1
                },
                forward,
                changed: true,
                ends: false,
            }
        } else {
            FrameTurn { index: 0, forward, changed: false, ends: false }
        },
        SpriteAnimationLoopMode::OnceStop | SpriteAnimationLoopMode::OnceHold => if index == 0 {
            FrameTurn { index: 0, forward, changed: false, ends: true }
        } else {
            FrameTurn { index: index - 1, forward, changed: true, ends: false }
        },
        SpriteAnimationLoopMode::PingPong => if len <= 1 {
            FrameTurn { index: 0, forward: true, changed: false, ends: false }
        } else if forward != prev_forward {
            FrameTurn {
                index: if forward {
                    0
                } else {
                    len - 1
                },
                forward: prev_forward,
                changed: true,
                ends: false,
            }
        } else if forward {
            FrameTurn {
                index: if index > 0 {
                    index - 1
                } else {
                    0
                },
                forward,
                changed: true,
                ends: false,
            }
        } else {
            FrameTurn {
                index: if index + 1 < len {
                    index + 1
                } else {
                    len - 1
                },
                forward,
                changed: true,
                ends: false,
            }
        },
    }
}

/// Wherever a turn leads, it is a frame of the animation.
pub proof fn law_turns_stay_within_frames(
    mode: SpriteAnimationLoopMode,
    len: int,
    index: int,
    forward: bool,
    prev_forward: bool,
)
    requires
        0 <= index < len,
    ensures
        0 <= forward_turn(mode, len, index, forward).index < len,
        0 <= backward_turn(mode, len, index, forward, prev_forward).index < len,
{
}

/// In a ping-pong of at least two frames, and in a loop, going back undoes going forward: the
/// frame and the direction are those from before.
pub proof fn law_backward_undoes_forward(
    mode: SpriteAnimationLoopMode,
    len: int,
    index: int,
    forward: bool,
)
    requires
        mode is Loop || mode is PingPong,
        2 <= len,
        0 <= index < len,
    ensures
        ({
            let there = forward_turn(mode, len, index, forward);
            let back = backward_turn(mode, len, there.index, there.forward, forward);
            back.index == index && back.forward == forward
        }),
{
}

/// The events of an animation's current frame, in their order.
pub open spec fn frame_events<S>(entity: Entity, animation: SpriteAnimation<S>) -> Seq<
    GameEvent<S>,
> {
    if animation.frame_index < animation.frames@.len() {
        let names = animation.frames@[animation.frame_index as int].events@;
        Seq::new(
            names.len(),
            |i: int|
                GameEvent::SpriteAnimationEvent {
                    entity,
                    timeline: animation.timeline,
                    event: names[i],
                },
        )
    } else {
        Seq::empty()
    }
}

pub open spec fn count_as_u32(n: nat) -> u32 {
    if n > u32::MAX {
        u32::MAX
    } else {
        n as u32
    }
}

/// The recorder once `emitted` events were sent at one go.
pub open spec fn events_recorded<S>(recorder: AnimationRecorder<S>, emitted: nat) -> AnimationRecorder<
    S,
> {
    if recorder.perf is Some && emitted > 0 {
        let s = recorder.perf->0;
        AnimationRecorder {
            perf: Some(
                crate::anim_stats::SpriteAnimPerfSample {
                    events_emitted: crate::counts::held_sum(
                        s.events_emitted,
                        count_as_u32(emitted),
                    ),
                    events_coalesced: crate::counts::held_sum(s.events_coalesced, 0),
                    ..s
                },
            ),
            ..recorder
        }
    } else {
        recorder
    }
}

/// Sends the events of the current frame.
pub fn emit_sprite_animation_events<S: Scalar>(
    entity: Entity,
    animation: &SpriteAnimation<S>,
    events: &mut EventBus<S>,
    recorder: &mut AnimationRecorder<S>,
)
    ensures
        final(events)@ == old(events)@ + frame_events(entity, *animation),
        *final(recorder) == events_recorded(
            *old(recorder),
            frame_events(entity, *animation).len(),
        ),
{
    if animation.frame_index < animation.frames.len() {
        let names: &Vec<Arc<String>> = &animation.frames[animation.frame_index].events;
        let ghost sent = frame_events(entity, *animation);
        let mut emitted: u32 = 0;
        let mut i: usize = 0;
        while i < names.len()
            invariant
                i <= names@.len(),
                sent == frame_events(entity, *animation),
                animation.frame_index < animation.frames@.len(),
                *names == *animation.frames@[animation.frame_index as int].events,
                sent.len() == names@.len(),
                events@ == old(events)@ + sent.take(i as int),
                emitted == count_as_u32(i as nat),
            decreases names@.len() - i,
        {
            events.push(
                GameEvent::SpriteAnimationEvent {
                    entity,
                    timeline: animation.timeline.clone(),
                    event: names[i].clone(),
                },
            );
            proof {
                assert(sent.take(i + 1) == sent.take(i as int).push(sent[i as int]));
                assert(events@ =~= old(events)@ + sent.take(i + 1));
            }
            emitted = emitted.saturating_add(1);
            i = i + 1;
        }
        assert(sent.take(i as int) == sent);
        perf_record_events(recorder, emitted, 0);
    } else {
        assert(events@ =~= old(events)@ + frame_events(entity, *animation));
    }
}

/// An animation on its way through a step.
pub struct FrameMove<S> {
    pub animation: SpriteAnimation<S>,
    pub delta: S,
    pub ended: bool,
}

/// The animation that has taken `turn`, with `elapsed` spent in the new frame.
pub open spec fn turned<S: Scalar>(
    a: SpriteAnimation<S>,
    turn: FrameTurn,
    elapsed: S,
    respect_terminal: bool,
) -> SpriteAnimation<S> {
    SpriteAnimation {
        elapsed_in_frame: elapsed,
        forward: turn.forward,
        prev_forward: if turn.changed {
            a.forward
        } else {
            a.prev_forward
        },
        playing: a.playing && !(turn.ends && respect_terminal),
        ..a.at_frame(turn.index)
    }
}

/// A step forward and whether it enters a frame.
///
/// What does not reach the end of the frame only lengthens the time spent in it. What does takes
/// the turn with the rest of the step; one that holds its last frame has then spent all of it.
pub open spec fn forward_move<S: Scalar>(a: SpriteAnimation<S>, delta: S, respect_terminal: bool) -> (
    FrameMove<S>,
    bool,
) {
    let time_left = a.frame_durations@[a.frame_index as int].minus_spec(a.elapsed_in_frame);
    if delta.lt_spec(time_left) {
        (
            FrameMove {
                animation: SpriteAnimation {
                    elapsed_in_frame: a.elapsed_in_frame.plus_spec(delta),
                    ..a
                },
                delta: S::zero_spec(),
                ended: false,
            },
            false,
        )
    } else {
        let turn = forward_turn(a.mode, a.frames@.len() as int, a.frame_index as int, a.forward);
        let elapsed = if a.mode is OnceHold {
            a.frame_durations@[turn.index]
        } else {
            S::zero_spec()
        };
        (
            FrameMove {
                animation: turned(a, turn, elapsed, respect_terminal),
                delta: delta.minus_spec(time_left),
                ended: turn.ends,
            },
            turn.changed,
        )
    }
}

/// A step backward and whether it enters a frame.
///
/// A frame is entered at its end, and the step is then shorter by its whole duration. At the very
/// start of an animation that plays once, what is left of the step is dropped.
pub open spec fn backward_move<S: Scalar>(a: SpriteAnimation<S>, delta: S, respect_terminal: bool) -> (
    FrameMove<S>,
    bool,
) {
    if delta.negated_spec().lt_spec(a.elapsed_in_frame) {
        (
            FrameMove {
                animation: SpriteAnimation {
                    elapsed_in_frame: a.elapsed_in_frame.plus_spec(delta),
                    ..a
                },
                delta: S::zero_spec(),
                ended: false,
            },
            false,
        )
    } else {
        let turn = backward_turn(
            a.mode,
            a.frames@.len() as int,
            a.frame_index as int,
            a.forward,
            a.prev_forward,
        );
        let rest = delta.plus_spec(a.elapsed_in_frame);
        let duration = a.frame_durations@[turn.index];
        (
            FrameMove {
                animation: turned(
                    a,
                    turn,
                    if turn.ends {
                        S::zero_spec()
                    } else {
                        duration
                    },
                    respect_terminal,
                ),
                delta: if turn.ends {
                    S::zero_spec()
                } else if turn.changed {
                    rest.plus_spec(duration)
                } else {
                    rest
                },
                ended: false,
            },
            turn.changed,
        )
    }
}

/// A pass over an animation: what moves, what is left of the step, and what was sent.
pub struct PlaybackRun<S> {
    pub animation: SpriteAnimation<S>,
    pub delta: S,
    pub changed: bool,
    pub ended: bool,
    pub sent: Seq<GameEvent<S>>,
    pub recorder: AnimationRecorder<S>,
}

impl<S: Scalar> PlaybackRun<S> {
    pub open spec fn announced(self, entity: Entity, emit: bool) -> Self {
        if emit {
            PlaybackRun {
                sent: self.sent + frame_events(entity, self.animation),
                recorder: events_recorded(
                    self.recorder,
                    frame_events(entity, self.animation).len(),
                ),
                ..self
            }
        } else {
            self
        }
    }

    /// One step of a pass whose time runs forward: up to the end of the frame, and over it.
    pub open spec fn forward_step(self, entity: Entity, emit: bool, respect_terminal: bool) -> Self {
        let (moved, entered) = forward_move(self.animation, self.delta, respect_terminal);
        (PlaybackRun {
            animation: moved.animation,
            delta: moved.delta,
            changed: self.changed || entered,
            ended: moved.ended,
            ..self
        }).announced(entity, emit && entered)
    }

    /// One step of a pass whose time runs backward: down to the start of the frame, and over it.
    pub open spec fn backward_step(self, entity: Entity, emit: bool, respect_terminal: bool) -> Self {
        let (moved, entered) = backward_move(self.animation, self.delta, respect_terminal);
        (PlaybackRun {
            animation: moved.animation,
            delta: moved.delta,
            changed: self.changed || entered,
            ended: moved.ended,
            ..self
        }).announced(entity, emit && entered)
    }

    pub open spec fn stepped(self, entity: Entity, emit: bool, respect_terminal: bool) -> Self {
        if S::zero_spec().lt_spec(self.delta) {
            self.forward_step(entity, emit, respect_terminal)
        } else {
            self.backward_step(entity, emit, respect_terminal)
        }
    }

    /// Steps until nothing is left of the delta or the animation stops, `fuel` steps at most.
    pub open spec fn played(self, entity: Entity, emit: bool, respect_terminal: bool, fuel: nat) -> Self
        decreases fuel,
    {
        if fuel == 0 || self.ended || !self.animation.playing || !S::zero_spec().lt_spec(
            self.delta.magnitude_spec(),
        ) {
            self
        } else {
            self.stepped(entity, emit, respect_terminal).played(
                entity,
                emit,
                respect_terminal,
                (fuel - 1) as nat,
            )
        }
    }
}

/// The steps after which a pass that still has time left is given up.
pub const MAX_FRAME_STEPS: u64 = 18446744073709551615;

/// The pass that advances an animation by `delta`.
#[verifier::opaque]
pub open spec fn advance_run<S: Scalar>(
    animation: SpriteAnimation<S>,
    delta: S,
    entity: Entity,
    emit: bool,
    respect_terminal: bool,
    recorder: AnimationRecorder<S>,
) -> PlaybackRun<S> {
    let start = PlaybackRun {
        animation,
        delta,
        changed: false,
        ended: false,
        sent: Seq::empty(),
        recorder,
    };
    if delta.same_spec(S::zero_spec()) || animation.frames@.len() == 0 {
        start
    } else {
        let counted = if emit {
            AnimationRecorder {
                sprite: crate::anim_stats::SpriteAnimationStats {
                    event_calls: crate::counts::wrapping_sum(recorder.sprite.event_calls, 1),
                    ..recorder.sprite
                },
                ..recorder
            }
        } else {
            AnimationRecorder {
                sprite: crate::anim_stats::SpriteAnimationStats {
                    plain_calls: crate::counts::wrapping_sum(recorder.sprite.plain_calls, 1),
                    ..recorder.sprite
                },
                ..recorder
            }
        };
        (PlaybackRun { recorder: counted, ..start }).played(
            entity,
            emit,
            respect_terminal,
            MAX_FRAME_STEPS as nat,
        )
    }
}

/// A turn as the running animation takes it.
struct Turn {
    index: usize,
    forward: bool,
    changed: bool,
    ends: bool,
}

impl Turn {
    spec fn is_turn(self, turn: FrameTurn) -> bool {
        &&& self.index == turn.index
        &&& self.forward == turn.forward
        &&& self.changed == turn.changed
        &&& self.ends == turn.ends
    }
}

fn take_forward_turn(mode: SpriteAnimationLoopMode, len: usize, index: usize, forward: bool) -> (r:
    Turn)
    requires
        index < len,
    ensures
        r.is_turn(forward_turn(mode, len as int, index as int, forward)),
        r.index < len,
{
    match mode {
        SpriteAnimationLoopMode::Loop => {
            let next: usize = if index + 1 < len {
                index + 1
            } else {
                0
            };
            Turn { index: next, forward, changed: true, ends: false }
        },
        SpriteAnimationLoopMode::OnceStop | SpriteAnimationLoopMode::OnceHold => {
            Turn { index: len - 1, forward, changed: true, ends: true }
        },
        SpriteAnimationLoopMode::PingPong => {
            if len <= 1 {
                Turn { index: 0, forward: true, changed: false, ends: false }
            } else if forward {
                if index + 1 < len {
                    Turn { index: index + 1, forward: true, changed: true, ends: false }
                } else {
                    Turn { index: len - 2, forward: false, changed: true, ends: false }
                }
            } else if index > 0 {
                Turn { index: index - 1, forward: false, changed: true, ends: false }
            } else {
                Turn { index: 1, forward: true, changed: true, ends: false }
            }
        },
    }
}

fn take_backward_turn(
    mode: SpriteAnimationLoopMode,
    len: usize,
    index: usize,
    forward: bool,
    prev_forward: bool,
) -> (r: Turn)
    requires
        index < len,
    ensures
        r.is_turn(backward_turn(mode, len as int, index as int, forward, prev_forward)),
        r.index < len,
{
    match mode {
        SpriteAnimationLoopMode::Loop => {
            if len > 1 {
                let prev: usize = if index == 0 {
                    len - 1
                } else {
                    index - 1
                };
                Turn { index: prev, forward, changed: true, ends: false }
            } else {
                Turn { index: 0, forward, changed: false, ends: false }
            }
        },
        SpriteAnimationLoopMode::OnceStop | SpriteAnimationLoopMode::OnceHold => {
            if index == 0 {
                Turn { index: 0, forward, changed: false, ends: true }
            } else {
                Turn { index: index - 1, forward, changed: true, ends: false }
            }
        },
        SpriteAnimationLoopMode::PingPong => {
            if len <= 1 {
                Turn { index: 0, forward: true, changed: false, ends: false }
            } else if forward != prev_forward {
                let prev: usize = if forward {
                    0
                } else {
                    len - 1
                };
                Turn { index: prev, forward: prev_forward, changed: true, ends: false }
            } else if forward {
                let prev: usize = if index > 0 {
                    index - 1
                } else {
                    0
                };
                Turn { index: prev, forward, changed: true, ends: false }
            } else {
                let prev: usize = if index + 1 < len {
                    index + 1
                } else {
                    len - 1
                };
                Turn { index: prev, forward, changed: true, ends: false }
            }
        },
    }
}

fn take_turn<S: Scalar>(
    animation: &mut SpriteAnimation<S>,
    turn: &Turn,
    elapsed: S,
    respect_terminal: bool,
    Ghost(exact): Ghost<FrameTurn>,
)
    requires
        old(animation).wf(),
        turn.index < old(animation).frames@.len(),
        turn.is_turn(exact),
    ensures
        *final(animation) == turned(*old(animation), exact, elapsed, respect_terminal),
        final(animation).seated(),
{
    animation.set_frame_metrics(turn.index);
    animation.elapsed_in_frame = elapsed;
    if turn.changed {
        animation.prev_forward = animation.forward;
    }
    animation.forward = turn.forward;
    if turn.ends && respect_terminal {
        animation.playing = false;
    }
}

fn step_forward<S: Scalar>(animation: &mut SpriteAnimation<S>, delta: &mut S, respect_terminal: bool) -> (r:
    (bool, bool))
    requires
        old(animation).seated(),
    ensures
        final(animation).seated(),
        final(animation).frames == old(animation).frames,
        forward_move(*old(animation), *old(delta), respect_terminal) == (
            FrameMove { animation: *final(animation), delta: *final(delta), ended: r.0 },
            r.1,
        ),
{
    let len: usize = animation.frames.len();
    let frame_duration = animation.frame_durations[animation.frame_index];
    let time_left = frame_duration.minus(animation.elapsed_in_frame);
    if delta.lt(time_left) {
        animation.elapsed_in_frame = animation.elapsed_in_frame.plus(*delta);
        *delta = S::zero();
        return (false, false);
    }
    *delta = delta.minus(time_left);
    let ghost exact = forward_turn(
        animation.mode,
        len as int,
        animation.frame_index as int,
        animation.forward,
    );
    let turn = take_forward_turn(animation.mode, len, animation.frame_index, animation.forward);
    let elapsed = if matches!(animation.mode, SpriteAnimationLoopMode::OnceHold) {
        animation.frame_durations[turn.index]
    } else {
        S::zero()
    };
    take_turn(animation, &turn, elapsed, respect_terminal, Ghost(exact));
    (turn.ends, turn.changed)
}

fn step_backward<S: Scalar>(
    animation: &mut SpriteAnimation<S>,
    delta: &mut S,
    respect_terminal: bool,
) -> (entered: bool)
    requires
        old(animation).seated(),
    ensures
        final(animation).seated(),
        final(animation).frames == old(animation).frames,
        backward_move(*old(animation), *old(delta), respect_terminal) == (
            FrameMove { animation: *final(animation), delta: *final(delta), ended: false },
            entered,
        ),
{
    let len: usize = animation.frames.len();
    let time_spent = animation.elapsed_in_frame;
    if delta.negated().lt(time_spent) {
        animation.elapsed_in_frame = animation.elapsed_in_frame.plus(*delta);
        *delta = S::zero();
        return false;
    }
    let rest = delta.plus(time_spent);
    let ghost exact = backward_turn(
        animation.mode,
        len as int,
        animation.frame_index as int,
        animation.forward,
        animation.prev_forward,
    );
    let turn = take_backward_turn(
        animation.mode,
        len,
        animation.frame_index,
        animation.forward,
        animation.prev_forward,
    );
    let duration = animation.frame_durations[turn.index];
    if turn.ends {
        *delta = S::zero();
        take_turn(animation, &turn, S::zero(), respect_terminal, Ghost(exact));
    } else {
        *delta = if turn.changed {
            rest.plus(duration)
        } else {
            rest
        };
        take_turn(animation, &turn, duration, respect_terminal, Ghost(exact));
    }
    turn.changed
}

/// What a step sends does not depend on what was sent before it.
proof fn lemma_step_appends<S: Scalar>(
    run: PlaybackRun<S>,
    entity: Entity,
    emit: bool,
    respect_terminal: bool,
)
    ensures
        ({
            let alone = PlaybackRun { sent: Seq::<GameEvent<S>>::empty(), ..run };
            let after = alone.stepped(entity, emit, respect_terminal);
            run.stepped(entity, emit, respect_terminal) == (PlaybackRun {
                sent: run.sent + after.sent,
                ..after
            })
        }),
{
    let alone = PlaybackRun { sent: Seq::<GameEvent<S>>::empty(), ..run };
    let after = alone.stepped(entity, emit, respect_terminal);
    let here = run.stepped(entity, emit, respect_terminal);
    assert(here.sent =~= run.sent + after.sent);
}

/// Advances an animation by `delta`, forward or backward, over as many frames as it takes.
///
/// Says whether another frame is shown than before. With `emit` the events of every frame that is
/// entered are sent. With `respect_terminal` an animation that plays once stops at its end.
pub fn advance_animation<S: Scalar>(
    animation: &mut SpriteAnimation<S>,
    delta: S,
    entity: Entity,
    emit: bool,
    events: &mut EventBus<S>,
    respect_terminal: bool,
    recorder: &mut AnimationRecorder<S>,
) -> (changed: bool)
    requires
        old(animation).frames@.len() > 0 ==> old(animation).seated(),
    ensures
        ({
            let run = advance_run(
                *old(animation),
                delta,
                entity,
                emit,
                respect_terminal,
                *old(recorder),
            );
            &&& *final(animation) == run.animation
            &&& changed == run.changed
            &&& final(events)@ == old(events)@ + run.sent
            &&& *final(recorder) == run.recorder
        }),
        old(animation).frames@.len() > 0 ==> final(animation).seated(),
        final(animation).frames == old(animation).frames,
{
    proof {
        reveal(advance_run);
    }
    if delta.same(S::zero()) || animation.frames.len() == 0 {
        assert(events@ =~= old(events)@ + Seq::<GameEvent<S>>::empty());
        return false;
    }
    if emit {
        record_event_call(recorder, 1);
    } else {
        record_plain_call(recorder, 1);
    }
    let mut left = delta;
    let mut frame_changed: bool = false;
    let mut ended: bool = false;
    let mut fuel: u64 = MAX_FRAME_STEPS;
    let ghost goal = advance_run(
        *old(animation),
        delta,
        entity,
        emit,
        respect_terminal,
        *old(recorder),
    );
    let ghost mut sent: Seq<GameEvent<S>> = Seq::empty();
    assert(events@ =~= old(events)@ + sent);
    while fuel > 0 && !ended && animation.playing && S::zero().lt(left.magnitude())
        invariant
            animation.seated(),
            animation.frames == old(animation).frames,
            events@ == old(events)@ + sent,
            goal == (PlaybackRun {
                animation: *animation,
                delta: left,
                changed: frame_changed,
                ended,
                sent,
                recorder: *recorder,
            }).played(entity, emit, respect_terminal, fuel as nat),
        decreases fuel,
    {
        let ghost run = PlaybackRun {
            animation: *animation,
            delta: left,
            changed: frame_changed,
            ended,
            sent,
            recorder: *recorder,
        };
        let ghost bus = events@;
        proof {
            lemma_step_appends(run, entity, emit, respect_terminal);
        }
        let entered: bool = if S::zero().lt(left) {
            let (at_end, entered) = step_forward(animation, &mut left, respect_terminal);
            ended = at_end;
            entered
        } else {
            step_backward(animation, &mut left, respect_terminal)
        };
        if entered {
            frame_changed = true;
        }
        if entered && emit {
            emit_sprite_animation_events(entity, animation, events, recorder);
        }
        proof {
            let after = (PlaybackRun { sent: Seq::<GameEvent<S>>::empty(), ..run }).stepped(
                entity,
                emit,
                respect_terminal,
            );
            assert(after.sent =~= (if entered && emit {
                frame_events(entity, *animation)
            } else {
                Seq::<GameEvent<S>>::empty()
            }));
            assert(events@ =~= bus + after.sent);
            assert(bus + after.sent =~= old(events)@ + (sent + after.sent));
            sent = sent + after.sent;
        }
        fuel = fuel - 1;
    }
    frame_changed
}

impl<S: Scalar> SpriteAnimation<S> {
    pub open spec fn loop_clock(self) -> LoopClock<S> {
        LoopClock {
            frame_index: self.frame_index,
            elapsed: self.elapsed_in_frame,
            duration: self.current_duration,
            offset: self.current_frame_offset,
        }
    }

    pub open spec fn at_clock(self, clock: LoopClock<S>) -> Self {
        SpriteAnimation {
            frame_index: clock.frame_index,
            elapsed_in_frame: clock.elapsed,
            current_duration: clock.duration,
            current_frame_offset: clock.offset,
            ..self
        }
    }

    fn clock(&self) -> (r: LoopClock<S>)
        ensures
            r == self.loop_clock(),
    {
        LoopClock {
            frame_index: self.frame_index,
            elapsed: self.elapsed_in_frame,
            duration: self.current_duration,
            offset: self.current_frame_offset,
        }
    }

    fn set_clock(&mut self, clock: LoopClock<S>)
        ensures
            *final(self) == old(self).at_clock(clock),
    {
        self.frame_index = clock.frame_index;
        self.elapsed_in_frame = clock.elapsed;
        self.current_duration = clock.duration;
        self.current_frame_offset = clock.offset;
    }

    /// Whether a step of `delta` moves this animation at all.
    pub open spec fn moves(self, delta: S) -> bool {
        !delta.same_spec(S::zero_spec()) && self.playing && self.frame_durations@.len() > 0
    }

    /// Whether a step covers so many rounds of the loop that walking is not worth it.
    pub open spec fn is_long_step(self, delta: S) -> bool {
        self.total_duration.larger_spec(S::machine_epsilon_spec()).times_spec(
            S::from_count_spec(4),
        ).le_spec(delta.magnitude_spec())
    }

    pub open spec fn jump_of(self, delta: S) -> crate::sprite_loop::LoopJump<S> {
        crate::sprite_loop::jumped(
            self.loop_clock(),
            self.frame_durations@,
            self.frame_offsets@,
            self.total_duration,
            delta,
        )
    }
}

/// The recorder after a call of the looping path that may have had to search.
pub open spec fn loop_recorded<S>(recorder: AnimationRecorder<S>, searched: bool) -> AnimationRecorder<
    S,
> {
    let sprite = recorder.sprite;
    AnimationRecorder {
        sprite: crate::anim_stats::SpriteAnimationStats {
            fast_loop_calls: crate::counts::wrapping_sum(sprite.fast_loop_calls, 1),
            fast_loop_binary_searches: if searched {
                crate::counts::wrapping_sum(sprite.fast_loop_binary_searches, 1)
            } else {
                sprite.fast_loop_binary_searches
            },
            ..sprite
        },
        ..recorder
    }
}

/// Moves a looping animation by a step of any length, without events.
pub fn advance_animation_loop_no_events<S: Scalar>(
    animation: &mut SpriteAnimation<S>,
    delta: S,
    recorder: &mut AnimationRecorder<S>,
) -> (changed: bool)
    ensures
        ({
            let jump = old(animation).jump_of(delta);
            if old(animation).moves(delta) {
                &&& *final(animation) == old(animation).at_clock(jump.clock)
                &&& changed == jump.changed
                &&& *final(recorder) == loop_recorded(*old(recorder), jump.wrapped)
                &&& jump.placed ==> final(animation).frame_index < final(animation).frame_durations@.len()
            } else {
                &&& *final(animation) == *old(animation)
                &&& !changed
                &&& *final(recorder) == *old(recorder)
            }
        }),
{
    if delta.same(S::zero()) || !animation.playing {
        return false;
    }
    if animation.frame_durations.len() == 0 {
        return false;
    }
    record_fast_loop_call(recorder, 1);
    let clock = animation.clock();
    let moved = jump(
        clock,
        &animation.frame_durations,
        &animation.frame_offsets,
        animation.total_duration,
        delta,
    );
    if moved.wrapped {
        record_fast_loop_binary_search(recorder, 1);
    }
    animation.set_clock(moved.clock);
    moved.changed
}

pub open spec fn mod_recorded<S>(recorder: AnimationRecorder<S>) -> AnimationRecorder<S> {
    if recorder.perf is Some {
        let s = recorder.perf->0;
        AnimationRecorder {
            perf: Some(
                crate::anim_stats::SpriteAnimPerfSample {
                    mod_or_div_calls: crate::counts::held_sum(s.mod_or_div_calls, 1),
                    ..s
                },
            ),
            ..recorder
        }
    } else {
        recorder
    }
}

/// A looping animation without events after `delta`, whether it shows another frame, and the
/// recorder. A short step goes frame by frame.
pub open spec fn fast_looped<S: Scalar>(
    before: SpriteAnimation<S>,
    delta: S,
    recorder: AnimationRecorder<S>,
) -> (SpriteAnimation<S>, bool, AnimationRecorder<S>) {
    if !before.moves(delta) {
        (before, false, recorder)
    } else if before.is_long_step(delta) {
        let jump = before.jump_of(delta);
        (
            before.at_clock(jump.clock),
            jump.changed,
            loop_recorded(mod_recorded(loop_recorded(recorder, false)), jump.wrapped),
        )
    } else {
        let (clock, entered) = crate::sprite_loop::walked(
            before.loop_clock(),
            before.frame_durations@,
            before.frame_offsets@,
            delta,
        );
        (before.at_clock(clock), entered, loop_recorded(recorder, false))
    }
}

pub fn advance_animation_fast_loop<S: Scalar>(
    animation: &mut SpriteAnimation<S>,
    delta: S,
    recorder: &mut AnimationRecorder<S>,
) -> (changed: bool)
    requires
        old(animation).frame_durations@.len() > 0 ==> old(animation).frame_index < old(animation).frame_durations@.len() && old(animation).frame_offsets@.len() == old(animation).frame_durations@.len(),
    ensures
        (*final(animation), changed, *final(recorder)) == fast_looped(
            *old(animation),
            delta,
            *old(recorder),
        ),
        old(animation).frame_durations@.len() > 0 ==> final(animation).frame_index < final(animation).frame_durations@.len(),
        final(animation).frame_durations == old(animation).frame_durations,
{
    if delta.same(S::zero()) || !animation.playing {
        return false;
    }
    if animation.frame_durations.len() == 0 {
        return false;
    }
    record_fast_loop_call(recorder, 1);
    let total = animation.total_duration.larger(S::machine_epsilon());
    if total.times(S::from_count(4)).le(delta.magnitude()) {
        perf_record_mod_or_div(recorder);
        return advance_animation_loop_no_events(animation, delta, recorder);
    }
    let clock = animation.clock();
    let (next, entered) = walk(
        clock,
        &animation.frame_durations,
        &animation.frame_offsets,
        delta,
    );
    animation.set_clock(next);
    entered
}

/// The rate an animation plays at, brought up to date; none when it stands still.
pub fn resolve_playback_rate<S: Scalar>(
    animation: &mut SpriteAnimation<S>,
    has_group_scales: bool,
    animation_time: &AnimationTime<S>,
) -> (r: Option<S>)
    requires
        animation_time.wf(),
    ensures
        ({
            let scale = if has_group_scales {
                animation_time.scale_of(old(animation).group_name())
            } else {
                S::one_spec()
            };
            let rate = old(animation).rate_ensured(scale).playback_rate;
            &&& *final(animation) == old(animation).rate_ensured(scale)
            &&& r == (if rate.same_spec(S::zero_spec()) {
                None
            } else {
                Some(rate)
            })
        }),
{
    if animation.playback_rate_dirty {
        let scale = if has_group_scales {
            animation_time.group_scale(animation.group())
        } else {
            S::one()
        };
        let _rate = animation.ensure_playback_rate(scale);
    }
    let rate = animation.playback_rate;
    if rate.same(S::zero()) {
        None
    } else {
        Some(rate)
    }
}

/// The animation at its first frame, before any start offset.
pub open spec fn phase_start<S: Scalar>(animation: SpriteAnimation<S>) -> SpriteAnimation<S> {
    (SpriteAnimation {
        frame_index: 0,
        elapsed_in_frame: S::zero_spec(),
        forward: true,
        prev_forward: true,
        ..animation
    }).duration_refreshed().start_events_refreshed()
}

/// How far into the animation it starts. A random start adds a share of the whole, a time past the
/// end of an animation that plays once is its end.
pub open spec fn phase_offset<S: Scalar>(animation: SpriteAnimation<S>, random_fraction: S) -> S {
    let zero = S::zero_spec();
    let total = animation.total_duration;
    let own = animation.start_offset.larger_spec(zero);
    let shifted = if animation.random_start && zero.lt_spec(total) {
        own.plus_spec(random_fraction.times_spec(total)).rem_euclid_by_spec(
            total.larger_spec(S::machine_epsilon_spec()),
        )
    } else {
        own
    };
    if !animation.mode.repeats() && zero.lt_spec(total) {
        shifted.smaller_spec(total)
    } else {
        shifted
    }
}

fn go_to_phase_start<S: Scalar>(animation: &mut SpriteAnimation<S>)
    requires
        old(animation).wf(),
    ensures
        *final(animation) == phase_start(*old(animation)),
        final(animation).wf(),
        final(animation).frames@.len() > 0 ==> final(animation).seated(),
        final(animation).frames == old(animation).frames,
        final(animation).playing == old(animation).playing,
{
    animation.frame_index = 0;
    animation.elapsed_in_frame = S::zero();
    animation.forward = true;
    animation.prev_forward = true;
    animation.refresh_current_duration();
    animation.refresh_pending_start_events();
}

fn starting_offset<S: Scalar>(animation: &SpriteAnimation<S>, random_fraction: S) -> (r: S)
    ensures
        r == phase_offset(*animation, random_fraction),
{
    let zero = S::zero();
    let mut offset = animation.start_offset.larger(zero);
    let total = animation.total_duration;
    if animation.random_start && zero.lt(total) {
        let shifted = offset.plus(random_fraction.times(total));
        offset = shifted.rem_euclid_by(total.larger(S::machine_epsilon()));
    }
    if !animation.mode.looped() && zero.lt(total) {
        offset = offset.smaller(total);
    }
    offset
}

/// The run from the first frame to where an animation starts.
pub open spec fn phase_run<S: Scalar>(
    animation: SpriteAnimation<S>,
    recorder: AnimationRecorder<S>,
    entity: Entity,
    random_fraction: S,
) -> PlaybackRun<S> {
    advance_run(
        SpriteAnimation { playing: true, ..phase_start(animation) },
        phase_offset(animation, random_fraction),
        entity,
        false,
        false,
        recorder,
    )
}

/// Whether putting an animation where it starts changes what it shows.
pub open spec fn phase_moves<S: Scalar>(
    animation: SpriteAnimation<S>,
    recorder: AnimationRecorder<S>,
    entity: Entity,
    random_fraction: S,
) -> bool {
    if animation.frames@.len() == 0 {
        false
    } else if phase_offset(animation, random_fraction).le_spec(S::zero_spec()) {
        true
    } else {
        phase_run(animation, recorder, entity, random_fraction).changed
    }
}

/// The animation where it starts, and what was recorded on the way.
pub open spec fn phase_after<S: Scalar>(
    animation: SpriteAnimation<S>,
    recorder: AnimationRecorder<S>,
    entity: Entity,
    random_fraction: S,
) -> (SpriteAnimation<S>, AnimationRecorder<S>) {
    let run = phase_run(animation, recorder, entity, random_fraction);
    if animation.frames@.len() == 0 {
        (animation, recorder)
    } else if phase_offset(animation, random_fraction).le_spec(S::zero_spec()) {
        (phase_start(animation), recorder)
    } else {
        (
            (SpriteAnimation {
                playing: animation.playing,
                ..run.animation
            }).start_events_refreshed(),
            run.recorder,
        )
    }
}

/// Puts an animation where it starts; `random_fraction` is its share of the whole that a random
/// start adds. Sends no events and leaves it playing or not as it was.
pub fn initialize_animation_phase<S: Scalar>(
    animation: &mut SpriteAnimation<S>,
    entity: Entity,
    random_fraction: S,
    recorder: &mut AnimationRecorder<S>,
) -> (changed: bool)
    requires
        old(animation).wf(),
    ensures
        (*final(animation), *final(recorder)) == phase_after(
            *old(animation),
            *old(recorder),
            entity,
            random_fraction,
        ),
        final(animation).wf(),
        changed == phase_moves(*old(animation), *old(recorder), entity, random_fraction),
{
    if animation.frames.len() == 0 {
        return false;
    }
    let offset = starting_offset(animation, random_fraction);
    go_to_phase_start(animation);
    if offset.le(S::zero()) {
        return true;
    }
    let was_playing = animation.playing;
    animation.playing = true;
    let mut unsent: EventBus<S> = EventBus::new();
    let changed = advance_animation(animation, offset, entity, false, &mut unsent, false, recorder);
    animation.playing = was_playing;
    animation.refresh_pending_start_events();
    changed
}

} // verus!
