//! The passes over all sprite animations of a frame, and what they hand to the sprites.
use vstd::prelude::*;
use crate::anim_stats::{
    perf_record_fast_animator, perf_record_fast_bucket_frame, perf_record_general_animator,
    perf_record_general_bucket_frame, record_fast_bucket_sample, record_general_bucket_sample,
    record_sprite_frame_applies, record_sprite_frame_queue_depth, record_sprite_state_flush,
    perf_set_step_kind, AnimationRecorder, SpriteAnimPerfTelemetry, SpriteAnimStepKind,
};
use crate::animation_time::{AnimationDelta, AnimationTime};
use crate::entity::Entity;
use crate::events::{EventBus, GameEvent};
use crate::scalar::Scalar;
use crate::sprite::{Sprite, SpriteAnimation, SpriteFrameState};
use crate::sprite_advance::{
    advance_animation, advance_animation_fast_loop, emit_sprite_animation_events,
    resolve_playback_rate,
};
use crate::sprite_soa::{all_asked, row_asked_for, AnimatorRow, GroupLaps, SpriteAnimatorSoa};

verus! {

/// The entities whose sprites have to be brought up to date, in the order in which they came.
pub struct SpriteFrameApplyQueue {
    pub entities: Vec<Entity>,
}

impl View for SpriteFrameApplyQueue {
    type V = Seq<Entity>;

    open spec fn view(&self) -> Seq<Entity> {
        self.entities@
    }
}

impl SpriteFrameApplyQueue {
    pub fn new() -> (r: Self)
        ensures
            r@ == Seq::<Entity>::empty(),
    {
        SpriteFrameApplyQueue { entities: Vec::new() }
    }

    pub fn push(&mut self, entity: Entity)
        ensures
            final(self)@ == old(self)@.push(entity),
    {
        self.entities.push(entity);
    }

    pub fn is_empty(&self) -> (r: bool)
        ensures
            r == (self@.len() == 0),
    {
        self.entities.len() == 0
    }

    pub fn len(&self) -> (r: usize)
        ensures
            r == self@.len(),
    {
        self.entities.len()
    }

    /// Hands out every entity and keeps none.
    pub fn take(&mut self) -> (r: Vec<Entity>)
        ensures
            r@ == old(self)@,
            final(self)@ == Seq::<Entity>::empty(),
    {
        let mut taken: Vec<Entity> = Vec::new();
        std::mem::swap(&mut taken, &mut self.entities);
        taken
    }

    /// Takes a list back for its room only: the queue is empty afterwards.
    pub fn restore(&mut self, entities: Vec<Entity>)
        ensures
            final(self)@ == Seq::<Entity>::empty(),
    {
        let mut emptied = entities;
        emptied.clear();
        self.entities = emptied;
    }
}

/// An entity with a sprite, its animation and what the animation wants shown.
pub struct SpriteActor<S> {
    pub entity: Entity,
    pub animation: SpriteAnimation<S>,
    pub state: SpriteFrameState<S>,
    pub sprite: Sprite<S>,
    /// The animation is driven by the packed store.
    pub fast: bool,
}

impl<S: Scalar> SpriteFrameState<S> {
    pub open spec fn queued(self) -> Self {
        SpriteFrameState { queued_for_apply: true, ..self }
    }
}

/// The state that shows an animation's current frame, and whether its entity has to join the
/// queue: it does unless it is in it already.
pub open spec fn frame_queued<S: Scalar>(
    state: SpriteFrameState<S>,
    hot: crate::sprite::SpriteFrameHotData<S>,
    region: std::sync::Arc<String>,
) -> (SpriteFrameState<S>, bool) {
    (state.showing_hot(hot, Some(region)).queued(), !state.queued_for_apply)
}

/// Asks for the current frame of an animation to be shown.
pub fn queue_sprite_frame_update<S: Scalar>(
    entity: Entity,
    animation: &SpriteAnimation<S>,
    sprite_state: &mut SpriteFrameState<S>,
    frame_updates: &mut SpriteFrameApplyQueue,
)
    requires
        animation.seated(),
    ensures
        ({
            let i = animation.frame_index as int;
            let (state, joins) = frame_queued(
                *old(sprite_state),
                animation.frame_hot_data@[i],
                animation.frames@[i].region,
            );
            &&& *final(sprite_state) == state
            &&& final(frame_updates)@ == (if joins {
                old(frame_updates)@.push(entity)
            } else {
                old(frame_updates)@
            })
        }),
{
    let hot = animation.frame_hot_data[animation.frame_index];
    let region = animation.frames[animation.frame_index].region.clone();
    sprite_state.update_from_hot_frame(&hot, Some(region));
    if !sprite_state.queued_for_apply {
        sprite_state.queued_for_apply = true;
        frame_updates.push(entity);
    }
}

/// Asks for the current frame of an animator of the packed store to be shown.
pub fn queue_sprite_frame_update_from_soa<S: Scalar>(
    entity: Entity,
    slot: usize,
    runtime: &SpriteAnimatorSoa<S>,
    sprite_state: &mut SpriteFrameState<S>,
    frame_updates: &mut SpriteFrameApplyQueue,
)
    requires
        runtime.columns_match(),
        slot < runtime.rows().len(),
        ({
            let row = runtime.rows()[slot as int];
            &&& row.hot.frame_index < row.source.frame_hot_data@.len()
            &&& row.hot.frame_index < row.source.frames@.len()
        }),
    ensures
        ({
            let row = runtime.rows()[slot as int];
            let i = row.hot.frame_index as int;
            let (state, joins) = frame_queued(
                *old(sprite_state),
                row.source.frame_hot_data@[i],
                row.source.frames@[i].region,
            );
            &&& *final(sprite_state) == state
            &&& final(frame_updates)@ == (if joins {
                old(frame_updates)@.push(entity)
            } else {
                old(frame_updates)@
            })
        }),
{
    assert(runtime.rows()[slot as int] == runtime.row(slot as int));
    let index: usize = runtime.hot[slot].frame_index as usize;
    let hot = runtime.source[slot].frame_hot_data[index];
    let region = runtime.source[slot].frames[index].region.clone();
    sprite_state.update_from_hot_frame(&hot, Some(region));
    if !sprite_state.queued_for_apply {
        sprite_state.queued_for_apply = true;
        frame_updates.push(entity);
    }
}

/// Shows the current frame of an animation at once, past the queue.
pub fn apply_sprite_frame_immediate<S: Scalar>(
    animation: &SpriteAnimation<S>,
    sprite_state: &mut SpriteFrameState<S>,
    sprite: &mut Sprite<S>,
)
    requires
        animation.seated(),
    ensures
        ({
            let i = animation.frame_index as int;
            let hot = animation.frame_hot_data@[i];
            &&& *final(sprite) == (Sprite {
                region: animation.frames@[i].region,
                region_id: hot.region_id,
                uv: hot.uv,
                ..*old(sprite)
            })
            &&& *final(sprite_state) == (SpriteFrameState {
                region_id: hot.region_id,
                uv: hot.uv,
                pending_region: None,
                region_initialized: true,
                queued_for_apply: false,
            })
        }),
{
    let hot = animation.frame_hot_data[animation.frame_index];
    let region = animation.frames[animation.frame_index].region.clone();
    sprite_state.update_from_hot_frame(&hot, Some(region));
    sprite_state.apply_to(sprite);
}

/// Asking twice for a frame of the same entity puts it into the queue once.
pub proof fn law_queue_takes_an_entity_once<S: Scalar>(
    state: SpriteFrameState<S>,
    first: crate::sprite::SpriteFrameHotData<S>,
    second: crate::sprite::SpriteFrameHotData<S>,
    first_region: std::sync::Arc<String>,
    second_region: std::sync::Arc<String>,
)
    ensures
        !frame_queued(frame_queued(state, first, first_region).0, second, second_region).1,
{
}

/// An animation moved by a step that is due: by the looping path where it may take it, else with
/// the events of its frames if it has any. The animation, whether it shows another frame, what it
/// sent, and the recorder.
pub open spec fn routed<S: Scalar>(
    animation: SpriteAnimation<S>,
    entity: Entity,
    step: S,
    recorder: AnimationRecorder<S>,
) -> (SpriteAnimation<S>, bool, Seq<GameEvent<S>>, AnimationRecorder<S>) {
    if animation.fast_loop {
        let (after, changed, recorded) = crate::sprite_advance::fast_looped(
            animation,
            step,
            recorder,
        );
        (after, changed, Seq::empty(), recorded)
    } else {
        let run = crate::sprite_advance::advance_run(
            animation,
            step,
            entity,
            animation.has_events,
            true,
            recorder,
        );
        (run.animation, run.changed, run.sent, run.recorder)
    }
}

fn advance_routed<S: Scalar>(
    animation: &mut SpriteAnimation<S>,
    entity: Entity,
    step: S,
    events: &mut EventBus<S>,
    recorder: &mut AnimationRecorder<S>,
) -> (changed: bool)
    requires
        old(animation).seated(),
    ensures
        ({
            let (after, moved, sent, recorded) = routed(
                *old(animation),
                entity,
                step,
                *old(recorder),
            );
            &&& *final(animation) == after
            &&& changed == moved
            &&& final(events)@ == old(events)@ + sent
            &&& *final(recorder) == recorded
        }),
        final(animation).seated(),
        final(animation).frames == old(animation).frames,
{
    if animation.fast_loop {
        assert(events@ =~= old(events)@ + Seq::<GameEvent<S>>::empty());
        advance_animation_fast_loop(animation, step, recorder)
    } else if animation.has_events {
        advance_animation(animation, step, entity, true, events, true, recorder)
    } else {
        advance_animation(animation, step, entity, false, events, true, recorder)
    }
}

/// One animation's part of a pass: the animation, what it wants shown, what it sent, and whether
/// it was moved and joins the queue.
pub struct ActorRun<S> {
    pub animation: SpriteAnimation<S>,
    pub state: SpriteFrameState<S>,
    pub sent: Seq<GameEvent<S>>,
    pub joins: bool,
    pub moved: bool,
    pub recorder: AnimationRecorder<S>,
}

impl<S: Scalar> ActorRun<S> {
    /// The events of the frame that the animation starts with, sent once.
    pub open spec fn started(self, entity: Entity) -> Self {
        let a = self.animation;
        let quiet = SpriteAnimation { pending_start_events: false, ..a };
        if !a.pending_start_events {
            self
        } else if a.has_events {
            ActorRun {
                animation: quiet,
                sent: self.sent + crate::sprite_advance::frame_events(entity, a),
                recorder: crate::sprite_advance::events_recorded(
                    self.recorder,
                    crate::sprite_advance::frame_events(entity, a).len(),
                ),
                ..self
            }
        } else {
            ActorRun { animation: quiet, ..self }
        }
    }

    pub open spec fn counted(self) -> Self {
        ActorRun {
            recorder: general_animator_recorded(
                self.recorder,
                self.animation.mode,
                self.animation.has_events,
            ),
            ..self
        }
    }

    /// A step that is due.
    pub open spec fn stepped(self, entity: Entity, step: S) -> (Self, bool) {
        let (animation, changed, sent, recorder) = routed(
            self.animation,
            entity,
            step,
            self.recorder,
        );
        (ActorRun { animation, sent: self.sent + sent, recorder, ..self }, changed)
    }

    /// The current frame asked for, if another frame is shown.
    pub open spec fn shown(self, changed: bool) -> Self {
        if changed {
            let i = self.animation.frame_index as int;
            let (state, joins) = frame_queued(
                self.state,
                self.animation.frame_hot_data@[i],
                self.animation.frames@[i].region,
            );
            ActorRun { state, joins, moved: true, ..self }
        } else {
            ActorRun { moved: true, ..self }
        }
    }

    /// `steps` steps of the same length, as long as the animation plays; whether any of them shows
    /// another frame.
    pub open spec fn stepped_often(self, entity: Entity, step: S, changed: bool, steps: nat) -> (
        Self,
        bool,
    )
        decreases steps,
    {
        if steps == 0 {
            (self, changed)
        } else {
            let (pending, ready) = SpriteAnimation::<S>::delta_gathered(
                self.animation.pending_small_delta,
                step,
                S::clip_epsilon_spec(),
            );
            let gathered = ActorRun {
                animation: SpriteAnimation { pending_small_delta: pending, ..self.animation },
                ..self
            };
            match ready {
                None => if gathered.animation.playing {
                    gathered.stepped_often(entity, step, changed, (steps - 1) as nat)
                } else {
                    (gathered, changed)
                },
                Some(due) => {
                    let (after, entered) = gathered.stepped(entity, due);
                    if after.animation.playing {
                        after.stepped_often(entity, step, changed || entered, (steps - 1) as nat)
                    } else {
                        (after, changed || entered)
                    }
                },
            }
        }
    }
}

pub open spec fn general_animator_recorded<S: Copy>(
    recorder: AnimationRecorder<S>,
    mode: crate::sprite::SpriteAnimationLoopMode,
    has_events: bool,
) -> AnimationRecorder<S> {
    if recorder.perf is Some {
        AnimationRecorder {
            perf: Some(
                recorder.perf->0.with_general_animator(
                    mode,
                    has_events,
                    crate::anim_stats::SpriteAnimStepKind::of_code(recorder.step_kind),
                ),
            ),
            ..recorder
        }
    } else {
        recorder
    }
}

/// The scale that an animation's group runs at.
pub open spec fn group_scale_for<S: Scalar>(
    animation: SpriteAnimation<S>,
    has_group_scales: bool,
    time: AnimationTime<S>,
) -> S {
    if has_group_scales {
        time.scale_of(animation.group_name())
    } else {
        S::one_spec()
    }
}

/// An animation made ready for a pass, its start events sent, and the scaled step; none when it
/// does not play or stands still.
pub open spec fn general_ready<S: Scalar>(
    entity: Entity,
    animation: SpriteAnimation<S>,
    state: SpriteFrameState<S>,
    delta: S,
    has_group_scales: bool,
    time: AnimationTime<S>,
    recorder: AnimationRecorder<S>,
) -> (ActorRun<S>, Option<S>) {
    let zero = S::zero_spec();
    let idle = ActorRun {
        animation: animation.prepared(),
        state,
        sent: Seq::empty(),
        joins: false,
        moved: false,
        recorder,
    };
    if animation.frames@.len() == 0 || !animation.playing {
        (idle, None)
    } else {
        let started = idle.started(entity);
        let rated = ActorRun {
            animation: started.animation.rate_ensured(
                group_scale_for(started.animation, has_group_scales, time),
            ),
            ..started
        };
        let rate = rated.animation.playback_rate;
        let scaled = delta.times_spec(rate);
        if rate.same_spec(zero) || scaled.same_spec(zero) {
            (rated, None)
        } else {
            (rated, Some(scaled))
        }
    }
}

/// One animation's part of a pass of one step.
#[verifier::opaque]
pub open spec fn general_single_run<S: Scalar>(
    entity: Entity,
    animation: SpriteAnimation<S>,
    state: SpriteFrameState<S>,
    delta: S,
    has_group_scales: bool,
    time: AnimationTime<S>,
    recorder: AnimationRecorder<S>,
) -> ActorRun<S> {
    let (ready, scaled) = general_ready(
        entity,
        animation,
        state,
        delta,
        has_group_scales,
        time,
        recorder,
    );
    match scaled {
        None => ready,
        Some(scaled) => {
            let (pending, due) = SpriteAnimation::<S>::delta_gathered(
                ready.animation.pending_small_delta,
                scaled,
                S::clip_epsilon_spec(),
            );
            let gathered = ActorRun {
                animation: SpriteAnimation { pending_small_delta: pending, ..ready.animation },
                ..ready
            };
            match due {
                None => gathered,
                Some(step) => {
                    let (after, changed) = gathered.counted().stepped(entity, step);
                    after.shown(changed)
                },
            }
        },
    }
}

/// One animation's part of a pass of several steps of the same length.
#[verifier::opaque]
pub open spec fn general_fixed_run<S: Scalar>(
    entity: Entity,
    animation: SpriteAnimation<S>,
    state: SpriteFrameState<S>,
    step: S,
    steps: u32,
    has_group_scales: bool,
    time: AnimationTime<S>,
    recorder: AnimationRecorder<S>,
) -> ActorRun<S> {
    let (ready, scaled) = general_ready(
        entity,
        animation,
        state,
        step,
        has_group_scales,
        time,
        recorder,
    );
    match scaled {
        None => ready,
        Some(scaled) => {
            let (after, changed) = ready.counted().stepped_often(
                entity,
                scaled,
                false,
                steps as nat,
            );
            after.shown(changed)
        },
    }
}

impl<S: Scalar> SpriteAnimation<S> {
    /// Being made ready never moves an animation off its frames.
    proof fn lemma_prepared_seated(self)
        requires
            self.wf(),
            self.frames@.len() > 0,
        ensures
            self.prepared().seated(),
            self.prepared().playing == self.playing,
            self.prepared().frames == self.frames,
    {
    }
}

fn make_general_ready<S: Scalar>(
    entity: Entity,
    animation: &mut SpriteAnimation<S>,
    delta: S,
    has_group_scales: bool,
    time: &AnimationTime<S>,
    events: &mut EventBus<S>,
    recorder: &mut AnimationRecorder<S>,
    Ghost(state): Ghost<SpriteFrameState<S>>,
) -> (scaled: Option<S>)
    requires
        old(animation).wf(),
        time.wf(),
    ensures
        ({
            let (ready, step) = general_ready(
                entity,
                *old(animation),
                state,
                delta,
                has_group_scales,
                *time,
                *old(recorder),
            );
            &&& *final(animation) == ready.animation
            &&& scaled == step
            &&& final(events)@ == old(events)@ + ready.sent
            &&& *final(recorder) == ready.recorder
            &&& ready.state == state
            &&& !ready.joins
            &&& !ready.moved
        }),
        final(animation).wf(),
        scaled is Some ==> final(animation).seated(),
        final(animation).frames == old(animation).frames,
{
    proof {
        if animation.frames@.len() > 0 {
            animation.lemma_prepared_seated();
        }
    }
    if !animation.prepare() {
        assert(events@ =~= old(events)@ + Seq::<GameEvent<S>>::empty());
        return None;
    }
    if animation.pending_start_events {
        if animation.has_events {
            emit_sprite_animation_events(entity, animation, events, recorder);
            assert(Seq::<GameEvent<S>>::empty() + crate::sprite_advance::frame_events(
                entity,
                *animation,
            ) =~= crate::sprite_advance::frame_events(entity, *animation));
        } else {
            assert(events@ =~= old(events)@ + Seq::<GameEvent<S>>::empty());
        }
        animation.pending_start_events = false;
    } else {
        assert(events@ =~= old(events)@ + Seq::<GameEvent<S>>::empty());
    }
    match resolve_playback_rate(animation, has_group_scales, time) {
        Some(rate) => {
            let scaled = delta.times(rate);
            if scaled.same(S::zero()) {
                None
            } else {
                Some(scaled)
            }
        },
        None => None,
    }
}

/// One animation's part of a pass of one step; says whether it was moved.
pub fn general_single_actor<S: Scalar>(
    actor: &mut SpriteActor<S>,
    delta: S,
    has_group_scales: bool,
    time: &AnimationTime<S>,
    events: &mut EventBus<S>,
    frame_updates: &mut SpriteFrameApplyQueue,
    recorder: &mut AnimationRecorder<S>,
) -> (moved: bool)
    requires
        old(actor).animation.wf(),
        time.wf(),
    ensures
        ({
            let run = general_single_run(
                old(actor).entity,
                old(actor).animation,
                old(actor).state,
                delta,
                has_group_scales,
                *time,
                *old(recorder),
            );
            &&& *final(actor) == (SpriteActor {
                animation: run.animation,
                state: run.state,
                ..*old(actor)
            })
            &&& final(events)@ == old(events)@ + run.sent
            &&& final(frame_updates)@ == (if run.joins {
                old(frame_updates)@.push(old(actor).entity)
            } else {
                old(frame_updates)@
            })
            &&& *final(recorder) == run.recorder
            &&& moved == run.moved
        }),
        final(actor).animation.wf(),
{
    proof {
        reveal(general_single_run);
    }
    let entity = actor.entity;
    let ghost bus = events@;
    let scaled = make_general_ready(
        entity,
        &mut actor.animation,
        delta,
        has_group_scales,
        time,
        events,
        recorder,
        Ghost(actor.state),
    );
    let ghost sent = events@;
    if let Some(scaled) = scaled {
        if let Some(step) = actor.animation.accumulate_delta(scaled, S::clip_epsilon()) {
            perf_record_general_animator(recorder, actor.animation.mode, actor.animation.has_events);
            let changed: bool = advance_routed(
                &mut actor.animation,
                entity,
                step,
                events,
                recorder,
            );
            if changed {
                queue_sprite_frame_update(
                    entity,
                    &actor.animation,
                    &mut actor.state,
                    frame_updates,
                );
            }
            proof {
                let ready = general_ready(
                    entity,
                    old(actor).animation,
                    old(actor).state,
                    delta,
                    has_group_scales,
                    *time,
                    *old(recorder),
                ).0;
                let more = events@.subrange(sent.len() as int, events@.len() as int);
                assert(events@ =~= bus + (ready.sent + more));
                let run = general_single_run(
                    entity,
                    old(actor).animation,
                    old(actor).state,
                    delta,
                    has_group_scales,
                    *time,
                    *old(recorder),
                );
                assert(run.sent =~= ready.sent + more);
            }
            return true;
        }
    }
    false
}

/// One animation's part of a pass of several steps; says whether it was moved.
pub fn general_fixed_actor<S: Scalar>(
    actor: &mut SpriteActor<S>,
    step: S,
    steps: u32,
    has_group_scales: bool,
    time: &AnimationTime<S>,
    events: &mut EventBus<S>,
    frame_updates: &mut SpriteFrameApplyQueue,
    recorder: &mut AnimationRecorder<S>,
) -> (moved: bool)
    requires
        old(actor).animation.wf(),
        time.wf(),
    ensures
        ({
            let run = general_fixed_run(
                old(actor).entity,
                old(actor).animation,
                old(actor).state,
                step,
                steps,
                has_group_scales,
                *time,
                *old(recorder),
            );
            &&& *final(actor) == (SpriteActor {
                animation: run.animation,
                state: run.state,
                ..*old(actor)
            })
            &&& final(events)@ == old(events)@ + run.sent
            &&& final(frame_updates)@ == (if run.joins {
                old(frame_updates)@.push(old(actor).entity)
            } else {
                old(frame_updates)@
            })
            &&& *final(recorder) == run.recorder
            &&& moved == run.moved
        }),
        final(actor).animation.wf(),
{
    proof {
        reveal(general_fixed_run);
    }
    let entity = actor.entity;
    let ghost bus = events@;
    let scaled = make_general_ready(
        entity,
        &mut actor.animation,
        step,
        has_group_scales,
        time,
        events,
        recorder,
        Ghost(actor.state),
    );
    match scaled {
        None => false,
        Some(scaled) => {
            perf_record_general_animator(recorder, actor.animation.mode, actor.animation.has_events);
            let ghost ready = general_ready(
                entity,
                old(actor).animation,
                old(actor).state,
                step,
                has_group_scales,
                *time,
                *old(recorder),
            ).0;
            let ghost mut sent: Seq<GameEvent<S>> = ready.sent;
            let ghost goal = ready.counted().stepped_often(entity, scaled, false, steps as nat);
            let mut changed: bool = false;
            let mut left: u32 = steps;
            let mut halted: bool = false;
            while left > 0 && !halted
                invariant
                    actor.animation.seated(),
                    actor.entity == entity,
                    entity == old(actor).entity,
                    actor.state == old(actor).state,
                    actor.sprite == old(actor).sprite,
                    actor.fast == old(actor).fast,
                    events@ == bus + sent,
                    halted ==> goal == (
                        ActorRun {
                            animation: actor.animation,
                            state: actor.state,
                            sent,
                            joins: false,
                            moved: false,
                            recorder: *recorder,
                        },
                        changed,
                    ),
                    !halted ==> goal == (ActorRun {
                        animation: actor.animation,
                        state: actor.state,
                        sent,
                        joins: false,
                        moved: false,
                        recorder: *recorder,
                    }).stepped_often(entity, scaled, changed, left as nat),
                decreases left,
            {
                let ghost before = events@;
                match actor.animation.accumulate_delta(scaled, S::clip_epsilon()) {
                    Some(due) => {
                        let ghost gathered = actor.animation;
                        let ghost recorded = *recorder;
                        let entered: bool = advance_routed(
                            &mut actor.animation,
                            entity,
                            due,
                            events,
                            recorder,
                        );
                        proof {
                            let more = routed(gathered, entity, due, recorded).2;
                            assert(events@ =~= bus + (sent + more));
                            sent = sent + more;
                        }
                        if entered {
                            changed = true;
                        }
                        if !actor.animation.playing {
                            halted = true;
                        }
                    },
                    None => {
                        if !actor.animation.playing {
                            halted = true;
                        }
                    },
                }
                left = left - 1;
            }
            if changed {
                queue_sprite_frame_update(
                    entity,
                    &actor.animation,
                    &mut actor.state,
                    frame_updates,
                );
            }
            true
        },
    }
}

/// A pass over a table of actors.
pub struct TablePass<S> {
    pub actors: Seq<SpriteActor<S>>,
    pub sent: Seq<GameEvent<S>>,
    pub queue: Seq<Entity>,
    pub processed: int,
    pub recorder: AnimationRecorder<S>,
}

/// What a general pass goes by: the length of a step, how many of them (none for a single pass),
/// and the scales of the groups.
pub struct GeneralRules<S> {
    pub step: S,
    pub steps: Option<u32>,
    pub has_group_scales: bool,
    pub time: AnimationTime<S>,
}

impl<S: Scalar> TablePass<S> {
    /// One actor's part of a general pass; the actors of the packed store are left out.
    pub open spec fn general_actor(self, rules: GeneralRules<S>, i: int) -> Self {
        let actor = self.actors[i];
        let run = match rules.steps {
            None => general_single_run(
                actor.entity,
                actor.animation,
                actor.state,
                rules.step,
                rules.has_group_scales,
                rules.time,
                self.recorder,
            ),
            Some(steps) => general_fixed_run(
                actor.entity,
                actor.animation,
                actor.state,
                rules.step,
                steps,
                rules.has_group_scales,
                rules.time,
                self.recorder,
            ),
        };
        if actor.fast {
            self
        } else {
            TablePass {
                actors: self.actors.update(
                    i,
                    SpriteActor { animation: run.animation, state: run.state, ..actor },
                ),
                sent: self.sent + run.sent,
                queue: if run.joins {
                    self.queue.push(actor.entity)
                } else {
                    self.queue
                },
                processed: if run.moved {
                    self.processed + 1
                } else {
                    self.processed
                },
                recorder: run.recorder,
            }
        }
    }

    pub open spec fn general_from(self, rules: GeneralRules<S>, i: int) -> Self
        decreases self.actors.len() - i,
    {
        if i < 0 || i >= self.actors.len() {
            self
        } else {
            self.general_actor(rules, i).general_from(rules, i + 1)
        }
    }
}

pub open spec fn general_frame_recorded<S>(recorder: AnimationRecorder<S>) -> AnimationRecorder<S> {
    if recorder.perf is Some {
        let s = recorder.perf->0;
        AnimationRecorder {
            perf: Some(
                crate::anim_stats::SpriteAnimPerfSample {
                    general_bucket_frames: crate::counts::held_sum(s.general_bucket_frames, 1),
                    ..s
                },
            ),
            ..recorder
        }
    } else {
        recorder
    }
}

pub open spec fn general_sampled<S>(recorder: AnimationRecorder<S>, count: u64) -> AnimationRecorder<S> {
    let sprite = recorder.sprite;
    AnimationRecorder {
        sprite: crate::anim_stats::SpriteAnimationStats {
            general_bucket_entities: crate::counts::wrapping_sum(
                sprite.general_bucket_entities,
                count,
            ),
            general_bucket_frames: crate::counts::wrapping_sum(sprite.general_bucket_frames, 1),
            ..sprite
        },
        ..recorder
    }
}

/// Every animation of the table is well formed.
pub open spec fn table_wf<S: Scalar>(actors: Seq<SpriteActor<S>>) -> bool {
    forall|i: int| 0 <= i < actors.len() ==> (#[trigger] actors[i]).animation.wf()
}

/// The general pass over the table: every actor outside the packed store, in order.
pub open spec fn general_pass<S: Scalar>(
    actors: Seq<SpriteActor<S>>,
    queue: Seq<Entity>,
    recorder: AnimationRecorder<S>,
    rules: GeneralRules<S>,
) -> TablePass<S> {
    let start = TablePass { actors, sent: Seq::empty(), queue, processed: 0, recorder };
    if rules.steps == Some(0u32) {
        TablePass { recorder: general_sampled(recorder, 0), ..start }
    } else {
        let after = (TablePass {
            recorder: general_frame_recorded(recorder),
            ..start
        }).general_from(rules, 0);
        TablePass { recorder: general_sampled(after.recorder, after.processed as u64), ..after }
    }
}

fn drive_general<S: Scalar>(
    actors: &mut Vec<SpriteActor<S>>,
    step: S,
    steps: Option<u32>,
    has_group_scales: bool,
    time: &AnimationTime<S>,
    events: &mut EventBus<S>,
    frame_updates: &mut SpriteFrameApplyQueue,
    recorder: &mut AnimationRecorder<S>,
)
    requires
        table_wf(old(actors)@),
        time.wf(),
    ensures
        table_wf(final(actors)@),
        ({
            let after = general_pass(
                old(actors)@,
                old(frame_updates)@,
                *old(recorder),
                GeneralRules { step, steps, has_group_scales, time: *time },
            );
            &&& final(actors)@ == after.actors
            &&& final(events)@ == old(events)@ + after.sent
            &&& final(frame_updates)@ == after.queue
            &&& *final(recorder) == after.recorder
        }),
        final(actors)@.len() == old(actors)@.len(),
{
    if let Some(steps) = steps {
        if steps == 0 {
            record_general_bucket_sample(recorder, 0);
            assert(events@ =~= old(events)@ + Seq::<GameEvent<S>>::empty());
            return;
        }
    }
    perf_record_general_bucket_frame(recorder);
    let ghost rules = GeneralRules { step, steps, has_group_scales, time: *time };
    let ghost goal = (TablePass {
        actors: actors@,
        sent: Seq::empty(),
        queue: frame_updates@,
        processed: 0,
        recorder: *recorder,
    }).general_from(rules, 0);
    let ghost mut sent: Seq<GameEvent<S>> = Seq::empty();
    let ghost bus = events@;
    assert(events@ =~= bus + sent);
    let n: usize = actors.len();
    let mut processed: u64 = 0;
    let mut i: usize = 0;
    while i < n
        invariant
            table_wf(actors@),
            time.wf(),
            n == actors@.len(),
            n == old(actors)@.len(),
            i <= n,
            processed <= i,
            events@ == bus + sent,
            rules == (GeneralRules { step, steps, has_group_scales, time: *time }),
            goal == (TablePass {
                actors: actors@,
                sent,
                queue: frame_updates@,
                processed: processed as int,
                recorder: *recorder,
            }).general_from(rules, i as int),
        decreases n - i,
    {
        if !actors[i].fast {
            let ghost before = actors@;
            let ghost here = TablePass {
                actors: actors@,
                sent,
                queue: frame_updates@,
                processed: processed as int,
                recorder: *recorder,
            };
            let ghost recorded = *recorder;
            let moved: bool = match steps {
                None => general_single_actor(
                    &mut actors[i],
                    step,
                    has_group_scales,
                    time,
                    events,
                    frame_updates,
                    recorder,
                ),
                Some(count) => general_fixed_actor(
                    &mut actors[i],
                    step,
                    count,
                    has_group_scales,
                    time,
                    events,
                    frame_updates,
                    recorder,
                ),
            };
            if moved {
                processed = processed + 1;
            }
            proof {
                let next = here.general_actor(rules, i as int);
                let more = next.sent.subrange(sent.len() as int, next.sent.len() as int);
                assert(next.sent =~= sent + more);
                assert(events@ =~= bus + next.sent);
                assert(actors@ =~= next.actors);
                sent = next.sent;
                assert forall|j: int| 0 <= j < actors@.len() implies (
                #[trigger] actors@[j]).animation.wf() by {
                    if j != i {
                        assert(actors@[j] == before[j]);
                    }
                }
            }
        }
        i = i + 1;
    }
    record_general_bucket_sample(recorder, processed);
}

/// One general pass of any length.
pub fn drive_general_single<S: Scalar>(
    actors: &mut Vec<SpriteActor<S>>,
    delta: S,
    has_group_scales: bool,
    time: &AnimationTime<S>,
    events: &mut EventBus<S>,
    frame_updates: &mut SpriteFrameApplyQueue,
    recorder: &mut AnimationRecorder<S>,
)
    requires
        table_wf(old(actors)@),
        time.wf(),
    ensures
        table_wf(final(actors)@),
        ({
            let after = general_pass(
                old(actors)@,
                old(frame_updates)@,
                *old(recorder),
                GeneralRules { step: delta, steps: None, has_group_scales, time: *time },
            );
            &&& final(actors)@ == after.actors
            &&& final(events)@ == old(events)@ + after.sent
            &&& final(frame_updates)@ == after.queue
            &&& *final(recorder) == after.recorder
        }),
        final(actors)@.len() == old(actors)@.len(),
{
    drive_general(
        actors,
        delta,
        None,
        has_group_scales,
        time,
        events,
        frame_updates,
        recorder,
    );
}

/// A general pass of several steps of the same length.
pub fn drive_general_fixed<S: Scalar>(
    actors: &mut Vec<SpriteActor<S>>,
    step: S,
    steps: u32,
    has_group_scales: bool,
    time: &AnimationTime<S>,
    events: &mut EventBus<S>,
    frame_updates: &mut SpriteFrameApplyQueue,
    recorder: &mut AnimationRecorder<S>,
)
    requires
        table_wf(old(actors)@),
        time.wf(),
    ensures
        table_wf(final(actors)@),
        ({
            let after = general_pass(
                old(actors)@,
                old(frame_updates)@,
                *old(recorder),
                GeneralRules { step, steps: Some(steps), has_group_scales, time: *time },
            );
            &&& final(actors)@ == after.actors
            &&& final(events)@ == old(events)@ + after.sent
            &&& final(frame_updates)@ == after.queue
            &&& *final(recorder) == after.recorder
        }),
        final(actors)@.len() == old(actors)@.len(),
{
    drive_general(
        actors,
        step,
        Some(steps),
        has_group_scales,
        time,
        events,
        frame_updates,
        recorder,
    );
}

/// The first actor from `from` on of an entity (`fast_only`: that the packed store drives), or the
/// length.
pub open spec fn actor_index<S>(
    actors: Seq<SpriteActor<S>>,
    entity: Entity,
    fast_only: bool,
    from: int,
) -> int
    decreases actors.len() - from,
{
    if from < 0 || from >= actors.len() {
        actors.len() as int
    } else if actors[from].entity == entity && (actors[from].fast || !fast_only) {
        from
    } else {
        actor_index(actors, entity, fast_only, from + 1)
    }
}

fn find_actor<S>(actors: &Vec<SpriteActor<S>>, entity: Entity, fast_only: bool) -> (r: usize)
    ensures
        r == actor_index(actors@, entity, fast_only, 0),
        r <= actors@.len(),
{
    let mut i: usize = 0;
    while i < actors.len()
        invariant
            i <= actors@.len(),
            actor_index(actors@, entity, fast_only, 0) == actor_index(
                actors@,
                entity,
                fast_only,
                i as int,
            ),
        decreases actors@.len() - i,
    {
        if actors[i].entity == entity && (actors[i].fast || !fast_only) {
            return i;
        }
        i = i + 1;
    }
    i
}

/// The queue and the actors once the store's updates from `k` on are handed to the actors that it
/// drives; `matched` counts the actors found so far, and each takes the update of that number.
pub open spec fn updates_flushed<S: Scalar>(
    actors: Seq<SpriteActor<S>>,
    queue: Seq<Entity>,
    rows: Seq<crate::sprite_soa::AnimatorRow<S>>,
    updates: Seq<(Entity, usize)>,
    k: int,
    matched: int,
) -> (Seq<SpriteActor<S>>, Seq<Entity>)
    decreases updates.len() - k,
{
    if k < 0 || k >= updates.len() {
        (actors, queue)
    } else {
        let at = actor_index(actors, updates[k].0, true, 0);
        if at >= actors.len() {
            updates_flushed(actors, queue, rows, updates, k + 1, matched)
        } else {
            let (entity, slot) = updates[matched];
            let row = rows[slot as int];
            let i = row.hot.frame_index as int;
            let (state, joins) = frame_queued(
                actors[at].state,
                row.source.frame_hot_data@[i],
                row.source.frames@[i].region,
            );
            updates_flushed(
                actors.update(at, SpriteActor { state, ..actors[at] }),
                if joins {
                    queue.push(entity)
                } else {
                    queue
                },
                rows,
                updates,
                k + 1,
                matched + 1,
            )
        }
    }
}

pub open spec fn flush_recorded<S>(recorder: AnimationRecorder<S>, count: usize) -> AnimationRecorder<S> {
    let sprite = recorder.sprite;
    AnimationRecorder {
        sprite: crate::anim_stats::SpriteAnimationStats {
            state_flush_calls: crate::counts::wrapping_sum(sprite.state_flush_calls, 1),
            state_flush_entities: crate::counts::wrapping_sum(
                sprite.state_flush_entities,
                count as u64,
            ),
            ..sprite
        },
        ..recorder
    }
}

/// Hands the updates of the packed store to the actors and empties the list of updates.
pub fn flush_sprite_state_updates<S: Scalar>(
    runtime: &SpriteAnimatorSoa<S>,
    state_updates: &mut Vec<(Entity, usize)>,
    frame_updates: &mut SpriteFrameApplyQueue,
    actors: &mut Vec<SpriteActor<S>>,
    recorder: &mut AnimationRecorder<S>,
)
    requires
        runtime.wf(),
        crate::sprite_soa::updates_ok(runtime.rows(), old(state_updates)@),
        table_wf(old(actors)@),
    ensures
        table_wf(final(actors)@),
        final(actors)@.len() == old(actors)@.len(),
        final(state_updates)@ == Seq::<(Entity, usize)>::empty(),
        (final(actors)@, final(frame_updates)@) == updates_flushed(
            old(actors)@,
            old(frame_updates)@,
            runtime.rows(),
            old(state_updates)@,
            0,
            0,
        ),
        *final(recorder) == (if old(state_updates)@.len() == 0 {
            *old(recorder)
        } else {
            flush_recorded(*old(recorder), old(state_updates)@.len() as usize)
        }),
{
    if state_updates.len() == 0 {
        assert(state_updates@ =~= Seq::<(Entity, usize)>::empty());
        return;
    }
    let mut updates: Vec<(Entity, usize)> = Vec::new();
    std::mem::swap(&mut updates, state_updates);
    record_sprite_state_flush(recorder, updates.len());
    let mut matched: usize = 0;
    let mut k: usize = 0;
    while k < updates.len()
        invariant
            runtime.wf(),
            updates@ == old(state_updates)@,
            crate::sprite_soa::updates_ok(runtime.rows(), updates@),
            table_wf(actors@),
            actors@.len() == old(actors)@.len(),
            matched <= k <= updates@.len(),
            updates_flushed(
                old(actors)@,
                old(frame_updates)@,
                runtime.rows(),
                updates@,
                0,
                0,
            ) == updates_flushed(
                actors@,
                frame_updates@,
                runtime.rows(),
                updates@,
                k as int,
                matched as int,
            ),
        decreases updates@.len() - k,
    {
        let at: usize = find_actor(actors, updates[k].0, true);
        if at < actors.len() {
            let ghost before = actors@;
            let (entity, slot) = updates[matched];
            assert(updates@[matched as int].1 == slot);
            assert(runtime.rows()[slot as int].wf());
            queue_sprite_frame_update_from_soa(
                entity,
                slot,
                runtime,
                &mut actors[at].state,
                frame_updates,
            );
            matched = matched + 1;
            proof {
                assert(actors@ =~= before.update(
                    at as int,
                    SpriteActor { state: actors@[at as int].state, ..before[at as int] },
                ));
                assert forall|j: int| 0 <= j < actors@.len() implies (
                #[trigger] actors@[j]).animation.wf() by {
                    assert(before[j].animation.wf());
                }
            }
        }
        k = k + 1;
    }
}

/// The actors once the sprites of the entities from `k` on in the queue show what is wanted, and
/// how many were found.
pub open spec fn frames_applied<S: Scalar>(
    actors: Seq<SpriteActor<S>>,
    queue: Seq<Entity>,
    k: int,
    applied: int,
) -> (Seq<SpriteActor<S>>, int)
    decreases queue.len() - k,
{
    if k < 0 || k >= queue.len() {
        (actors, applied)
    } else {
        let at = actor_index(actors, queue[k], false, 0);
        if at >= actors.len() {
            frames_applied(actors, queue, k + 1, applied)
        } else {
            let actor = actors[at];
            let shown = SpriteActor {
                sprite: Sprite {
                    region: match actor.state.pending_region {
                        Some(region) => region,
                        None => actor.sprite.region,
                    },
                    region_id: actor.state.region_id,
                    uv: actor.state.uv,
                    ..actor.sprite
                },
                state: SpriteFrameState {
                    pending_region: None,
                    region_initialized: actor.state.region_initialized
                        || actor.state.pending_region is Some,
                    queued_for_apply: false,
                    ..actor.state
                },
                ..actor
            };
            frames_applied(actors.update(at, shown), queue, k + 1, applied + 1)
        }
    }
}

/// Brings every queued sprite up to date and empties the queue.
pub fn sys_apply_sprite_frame_states<S: Scalar>(
    frame_updates: &mut SpriteFrameApplyQueue,
    actors: &mut Vec<SpriteActor<S>>,
    recorder: &mut AnimationRecorder<S>,
)
    ensures
        final(frame_updates)@ == Seq::<Entity>::empty(),
        final(actors)@.len() == old(actors)@.len(),
        ({
            let queue = old(frame_updates)@;
            let (after, applied) = frames_applied(old(actors)@, queue, 0, 0);
            let sprite = old(recorder).sprite;
            &&& final(actors)@ == after
            &&& *final(recorder) == (if queue.len() == 0 {
                *old(recorder)
            } else {
                AnimationRecorder {
                    sprite: crate::anim_stats::SpriteAnimationStats {
                        frame_apply_queue_drains: crate::counts::wrapping_sum(
                            sprite.frame_apply_queue_drains,
                            1,
                        ),
                        frame_apply_queue_len: crate::counts::wrapping_sum(
                            sprite.frame_apply_queue_len,
                            queue.len() as u64,
                        ),
                        frame_apply_count: crate::counts::wrapping_sum(
                            sprite.frame_apply_count,
                            applied as u64,
                        ),
                        ..sprite
                    },
                    ..*old(recorder)
                }
            })
        }),
{
    let pending = frame_updates.take();
    if pending.len() == 0 {
        frame_updates.restore(pending);
        return;
    }
    record_sprite_frame_queue_depth(recorder, pending.len());
    let mut applied: u64 = 0;
    let mut k: usize = 0;
    while k < pending.len()
        invariant
            k <= pending@.len(),
            applied <= k,
            actors@.len() == old(actors)@.len(),
            frames_applied(old(actors)@, pending@, 0, 0) == frames_applied(
                actors@,
                pending@,
                k as int,
                applied as int,
            ),
        decreases pending@.len() - k,
    {
        let at: usize = find_actor(actors, pending[k], false);
        if at < actors.len() {
            let ghost before = actors@;
            let actor = &mut actors[at];
            actor.state.apply_to(&mut actor.sprite);
            applied = applied + 1;
            assert(actors@ =~= before.update(at as int, actors@[at as int]));
        }
        k = k + 1;
    }
    record_sprite_frame_applies(recorder, applied);
    frame_updates.restore(pending);
}

/// An actor of the looping path moved without the packed store: the animation, whether it shows
/// another frame, whether it was moved, and the recorder.
pub struct FastRun<S> {
    pub animation: SpriteAnimation<S>,
    pub changed: bool,
    pub moved: bool,
    pub recorder: AnimationRecorder<S>,
}

impl<S: Scalar> FastRun<S> {
    /// Up to `steps` steps of the same length, as long as the animation plays.
    pub open spec fn stepped_often(self, step: S, steps: nat) -> Self
        decreases steps,
    {
        if steps == 0 {
            self
        } else {
            let (pending, ready) = SpriteAnimation::<S>::delta_gathered(
                self.animation.pending_small_delta,
                step,
                S::clip_epsilon_spec(),
            );
            let gathered = SpriteAnimation { pending_small_delta: pending, ..self.animation };
            match ready {
                None => {
                    let next = FastRun { animation: gathered, ..self };
                    if gathered.playing {
                        next.stepped_often(step, (steps - 1) as nat)
                    } else {
                        next
                    }
                },
                Some(due) => {
                    let (animation, entered, recorder) = crate::sprite_advance::fast_looped(
                        gathered,
                        due,
                        self.recorder,
                    );
                    let next = FastRun {
                        animation,
                        changed: self.changed || entered,
                        recorder,
                        ..self
                    };
                    if animation.playing {
                        next.stepped_often(step, (steps - 1) as nat)
                    } else {
                        next
                    }
                },
            }
        }
    }
}

/// An animation made ready for the looping path and its scaled step.
pub open spec fn fast_ready<S: Scalar>(
    animation: SpriteAnimation<S>,
    delta: S,
    has_group_scales: bool,
    time: AnimationTime<S>,
) -> (SpriteAnimation<S>, Option<S>) {
    let zero = S::zero_spec();
    let prepared = animation.prepared();
    if animation.frames@.len() == 0 || !animation.playing {
        (prepared, None)
    } else {
        let rated = prepared.rate_ensured(group_scale_for(prepared, has_group_scales, time));
        let scaled = delta.times_spec(rated.playback_rate);
        if rated.playback_rate.same_spec(zero) || scaled.same_spec(zero) {
            (rated, None)
        } else {
            (rated, Some(scaled))
        }
    }
}

/// One actor's part of a looping pass. A single step that is still too small to take is not
/// counted; of several steps each is tried.
#[verifier::opaque]
pub open spec fn fast_run<S: Scalar>(
    animation: SpriteAnimation<S>,
    step: S,
    steps: Option<u32>,
    has_group_scales: bool,
    time: AnimationTime<S>,
    recorder: AnimationRecorder<S>,
) -> FastRun<S> {
    let (ready, scaled) = fast_ready(animation, step, has_group_scales, time);
    let idle = FastRun { animation: ready, changed: false, moved: false, recorder };
    match scaled {
        None => idle,
        Some(scaled) => match steps {
            Some(steps) => {
                (FastRun {
                    moved: true,
                    recorder: crate::sprite_soa::animator_recorded(recorder),
                    ..idle
                }).stepped_often(scaled, steps as nat)
            },
            None => {
                let (pending, due) = SpriteAnimation::<S>::delta_gathered(
                    ready.pending_small_delta,
                    scaled,
                    S::clip_epsilon_spec(),
                );
                let gathered = SpriteAnimation { pending_small_delta: pending, ..ready };
                match due {
                    None => FastRun { animation: gathered, ..idle },
                    Some(due) => {
                        let (after, changed, recorded) = crate::sprite_advance::fast_looped(
                            gathered,
                            due,
                            crate::sprite_soa::animator_recorded(recorder),
                        );
                        FastRun { animation: after, changed, moved: true, recorder: recorded }
                    },
                }
            },
        },
    }
}

/// An actor whose sprite shows its animation's current frame.
pub open spec fn showing_now<S: Scalar>(actor: SpriteActor<S>) -> SpriteActor<S> {
    let i = actor.animation.frame_index as int;
    let hot = actor.animation.frame_hot_data@[i];
    SpriteActor {
        sprite: Sprite {
            region: actor.animation.frames@[i].region,
            region_id: hot.region_id,
            uv: hot.uv,
            ..actor.sprite
        },
        state: SpriteFrameState {
            region_id: hot.region_id,
            uv: hot.uv,
            pending_region: None,
            region_initialized: true,
            queued_for_apply: false,
        },
        ..actor
    }
}

fn make_fast_ready<S: Scalar>(
    animation: &mut SpriteAnimation<S>,
    delta: S,
    has_group_scales: bool,
    time: &AnimationTime<S>,
) -> (scaled: Option<S>)
    requires
        old(animation).wf(),
        time.wf(),
    ensures
        (*final(animation), scaled) == fast_ready(*old(animation), delta, has_group_scales, *time),
        final(animation).wf(),
        scaled is Some ==> final(animation).seated(),
{
    proof {
        if animation.frames@.len() > 0 {
            animation.lemma_prepared_seated();
        }
    }
    if !animation.prepare() {
        return None;
    }
    match resolve_playback_rate(animation, has_group_scales, time) {
        Some(rate) => {
            let scaled = delta.times(rate);
            if scaled.same(S::zero()) {
                None
            } else {
                Some(scaled)
            }
        },
        None => None,
    }
}

fn fast_steps<S: Scalar>(
    animation: &mut SpriteAnimation<S>,
    step: S,
    steps: u32,
    recorder: &mut AnimationRecorder<S>,
) -> (changed: bool)
    requires
        old(animation).seated(),
    ensures
        (FastRun {
            animation: *final(animation),
            changed,
            moved: true,
            recorder: *final(recorder),
        }) == (FastRun {
            animation: *old(animation),
            changed: false,
            moved: true,
            recorder: *old(recorder),
        }).stepped_often(step, steps as nat),
        final(animation).seated(),
{
    let ghost goal = (FastRun {
        animation: *animation,
        changed: false,
        moved: true,
        recorder: *recorder,
    }).stepped_often(step, steps as nat);
    let mut changed: bool = false;
    let mut halted: bool = false;
    let mut left: u32 = steps;
    while left > 0 && !halted
        invariant
            animation.seated(),
            halted ==> goal == (FastRun {
                animation: *animation,
                changed,
                moved: true,
                recorder: *recorder,
            }),
            !halted ==> goal == (FastRun {
                animation: *animation,
                changed,
                moved: true,
                recorder: *recorder,
            }).stepped_often(step, left as nat),
        decreases left,
    {
        if let Some(due) = animation.accumulate_delta(step, S::clip_epsilon()) {
            if advance_animation_fast_loop(animation, due, recorder) {
                changed = true;
            }
        }
        if !animation.playing {
            halted = true;
        }
        left = left - 1;
    }
    changed
}

fn run_fast<S: Scalar>(
    animation: &mut SpriteAnimation<S>,
    step: S,
    steps: Option<u32>,
    has_group_scales: bool,
    time: &AnimationTime<S>,
    recorder: &mut AnimationRecorder<S>,
) -> (r: (bool, bool))
    requires
        old(animation).wf(),
        time.wf(),
    ensures
        (FastRun {
            animation: *final(animation),
            changed: r.0,
            moved: r.1,
            recorder: *final(recorder),
        }) == fast_run(
            *old(animation),
            step,
            steps,
            has_group_scales,
            *time,
            *old(recorder),
        ),
        final(animation).wf(),
        r.0 ==> final(animation).seated(),
{
    proof {
        reveal(fast_run);
    }
    match make_fast_ready(animation, step, has_group_scales, time) {
        None => (false, false),
        Some(scaled) => match steps {
            Some(count) => {
                perf_record_fast_animator(recorder);
                let changed: bool = fast_steps(animation, scaled, count, recorder);
                (changed, true)
            },
            None => match animation.accumulate_delta(scaled, S::clip_epsilon()) {
                None => (false, false),
                Some(due) => {
                    perf_record_fast_animator(recorder);
                    let changed: bool = advance_animation_fast_loop(animation, due, recorder);
                    (changed, true)
                },
            },
        },
    }
}

/// One actor's part of a looping pass without the packed store; says whether it was moved.
pub fn fast_actor<S: Scalar>(
    actor: &mut SpriteActor<S>,
    step: S,
    steps: Option<u32>,
    has_group_scales: bool,
    time: &AnimationTime<S>,
    recorder: &mut AnimationRecorder<S>,
) -> (moved: bool)
    requires
        old(actor).animation.wf(),
        time.wf(),
    ensures
        ({
            let run = fast_run(
                old(actor).animation,
                step,
                steps,
                has_group_scales,
                *time,
                *old(recorder),
            );
            let next = SpriteActor { animation: run.animation, ..*old(actor) };
            &&& *final(actor) == (if run.changed {
                showing_now(next)
            } else {
                next
            })
            &&& *final(recorder) == run.recorder
            &&& moved == run.moved
        }),
        final(actor).animation.wf(),
{
    let (changed, moved) = run_fast(
        &mut actor.animation,
        step,
        steps,
        has_group_scales,
        time,
        recorder,
    );
    if changed {
        apply_sprite_frame_immediate(&actor.animation, &mut actor.state, &mut actor.sprite);
    }
    moved
}

/// The looping pass over the actors from `i` on that are marked for it: the actors, how many were
/// moved, and the recorder.
pub open spec fn fast_from<S: Scalar>(
    actors: Seq<SpriteActor<S>>,
    processed: int,
    recorder: AnimationRecorder<S>,
    rules: GeneralRules<S>,
    i: int,
) -> (Seq<SpriteActor<S>>, int, AnimationRecorder<S>)
    decreases actors.len() - i,
{
    if i < 0 || i >= actors.len() {
        (actors, processed, recorder)
    } else if !actors[i].fast {
        fast_from(actors, processed, recorder, rules, i + 1)
    } else {
        let run = fast_run(
            actors[i].animation,
            rules.step,
            rules.steps,
            rules.has_group_scales,
            rules.time,
            recorder,
        );
        let next = SpriteActor { animation: run.animation, ..actors[i] };
        fast_from(
            actors.update(
                i,
                if run.changed {
                    showing_now(next)
                } else {
                    next
                },
            ),
            if run.moved {
                processed + 1
            } else {
                processed
            },
            run.recorder,
            rules,
            i + 1,
        )
    }
}

/// The looping pass without the packed store.
pub open spec fn fast_pass<S: Scalar>(
    actors: Seq<SpriteActor<S>>,
    recorder: AnimationRecorder<S>,
    rules: GeneralRules<S>,
) -> (Seq<SpriteActor<S>>, AnimationRecorder<S>) {
    if rules.step.same_spec(S::zero_spec()) || rules.steps == Some(0u32) {
        (actors, crate::sprite_soa::bucket_sampled(recorder, 0))
    } else {
        let (after, processed, recorded) = fast_from(
            actors,
            0,
            crate::sprite_soa::bucket_frame_recorded(recorder),
            rules,
            0,
        );
        (after, crate::sprite_soa::bucket_sampled(recorded, processed as u64))
    }
}

/// The looping pass over the marked actors without the packed store, of one step or of several.
pub fn drive_fast<S: Scalar>(
    actors: &mut Vec<SpriteActor<S>>,
    step: S,
    steps: Option<u32>,
    has_group_scales: bool,
    time: &AnimationTime<S>,
    recorder: &mut AnimationRecorder<S>,
)
    requires
        table_wf(old(actors)@),
        time.wf(),
    ensures
        table_wf(final(actors)@),
        final(actors)@.len() == old(actors)@.len(),
        (final(actors)@, *final(recorder)) == fast_pass(
            old(actors)@,
            *old(recorder),
            (GeneralRules { step, steps, has_group_scales, time: *time }),
        ),
{
    let no_steps: bool = match steps {
        Some(count) => count == 0,
        None => false,
    };
    if step.same(S::zero()) || no_steps {
        record_fast_bucket_sample(recorder, 0);
        return;
    }
    perf_record_fast_bucket_frame(recorder);
    let ghost rules = GeneralRules { step, steps, has_group_scales, time: *time };
    let ghost goal = fast_from(actors@, 0, *recorder, rules, 0);
    let n: usize = actors.len();
    let mut processed: u64 = 0;
    let mut i: usize = 0;
    while i < n
        invariant
            table_wf(actors@),
            time.wf(),
            n == actors@.len(),
            n == old(actors)@.len(),
            i <= n,
            processed <= i,
            rules == (GeneralRules { step, steps, has_group_scales, time: *time }),
            goal == fast_from(actors@, processed as int, *recorder, rules, i as int),
        decreases n - i,
    {
        if actors[i].fast {
            let ghost before = actors@;
            let moved: bool = fast_actor(
                &mut actors[i],
                step,
                steps,
                has_group_scales,
                time,
                recorder,
            );
            if moved {
                processed = processed + 1;
            }
            proof {
                assert(actors@ =~= before.update(i as int, actors@[i as int]));
                assert forall|j: int| 0 <= j < actors@.len() implies (
                #[trigger] actors@[j]).animation.wf() by {
                    if j != i {
                        assert(actors@[j] == before[j]);
                    }
                }
            }
        }
        i = i + 1;
    }
    record_fast_bucket_sample(recorder, processed);
}

/// What flagging an actor makes of the packed store: one that may take the looping path has its
/// place there, in its present state; one that no longer may has lost it; nothing else changes.
pub open spec fn animator_flagged<S: Scalar>(
    before: SpriteAnimatorSoa<S>,
    after: SpriteAnimatorSoa<S>,
    actor: SpriteActor<S>,
) -> bool {
    let entity = actor.entity;
    &&& after.wf()
    &&& after.fixed_point == before.fixed_point
    &&& after.grouped == before.grouped
    &&& if actor.animation.fast_loop {
        match before.slot_of(entity) {
            Some(slot) => {
                &&& after.rows().len() == before.rows().len()
                &&& after.rows()[slot as int].mirrors(entity, actor.animation)
                &&& forall|i: int|
                    0 <= i < before.rows().len() && i != slot ==> #[trigger] after.rows()[i]
                        == before.rows()[i]
            },
            None => {
                &&& after.rows().len() == before.rows().len() + 1
                &&& after.rows().drop_last() == before.rows()
                &&& after.rows().last().mirrors(entity, actor.animation)
            },
        }
    } else if actor.fast && before.slot_of(entity) is Some {
        after.rows() == crate::sprite_soa::rows_without(
            before.rows(),
            before.slot_of(entity)->0 as int,
        )
    } else {
        after == before
    }
}

/// Gives an actor that may take the looping path its place in the packed store, and takes it
/// from one that no longer may.
pub fn flag_fast_sprite_animator<S: Scalar>(
    actor: &mut SpriteActor<S>,
    runtime: &mut SpriteAnimatorSoa<S>,
)
    requires
        old(runtime).wf(),
        old(runtime).rows().len() < u32::MAX,
        old(actor).animation.wf(),
        old(actor).animation.frames@.len() <= u32::MAX,
    ensures
        *final(actor) == (SpriteActor { fast: old(actor).animation.fast_loop, ..*old(actor) }),
        animator_flagged(*old(runtime), *final(runtime), *old(actor)),
{
    if actor.animation.fast_loop {
        runtime.upsert(actor.entity, &actor.animation);
        if !actor.fast {
            actor.fast = true;
        }
    } else if actor.fast {
        actor.fast = false;
        let _gone = runtime.remove(actor.entity);
    }
}

/// An actor as the first `k` of the changed ones leave it: it is flagged if it is among them.
pub open spec fn actor_flagged_by<S>(
    actors: Seq<SpriteActor<S>>,
    changed: Seq<usize>,
    k: int,
    i: int,
) -> SpriteActor<S> {
    if changed.take(k).contains(i as usize) {
        SpriteActor { fast: actors[i].animation.fast_loop, ..actors[i] }
    } else {
        actors[i]
    }
}

/// The stores that come one after the other when the changed actors are flagged in order.
pub open spec fn stores_in_turn<S: Scalar>(
    stores: Seq<SpriteAnimatorSoa<S>>,
    actors: Seq<SpriteActor<S>>,
    changed: Seq<usize>,
    n: int,
) -> bool {
    &&& stores.len() == n + 1
    &&& forall|k: int|
        0 <= k < n ==> animator_flagged(
            #[trigger] stores[k],
            stores[k + 1],
            actor_flagged_by(actors, changed, k, changed[k] as int),
        )
}

/// What flagging the changed actors in order makes of the packed store.
pub open spec fn all_flagged<S: Scalar>(
    before: SpriteAnimatorSoa<S>,
    after: SpriteAnimatorSoa<S>,
    actors: Seq<SpriteActor<S>>,
    changed: Seq<usize>,
) -> bool {
    exists|stores: Seq<SpriteAnimatorSoa<S>>| #[trigger]
        stores_in_turn(stores, actors, changed, changed.len() as int) && stores[0] == before
            && stores.last() == after
}

/// Flags every actor whose animation is new or has changed, given by their places in the table.
pub fn sys_flag_fast_sprite_animators<S: Scalar>(
    actors: &mut Vec<SpriteActor<S>>,
    changed: &Vec<usize>,
    runtime: &mut SpriteAnimatorSoa<S>,
)
    requires
        old(runtime).wf(),
        old(runtime).rows().len() + changed@.len() < u32::MAX,
        table_wf(old(actors)@),
        forall|i: int|
            0 <= i < old(actors)@.len() ==> (#[trigger] old(actors)@[i]).animation.frames@.len()
                <= u32::MAX,
        forall|k: int| 0 <= k < changed@.len() ==> #[trigger] changed@[k] < old(actors)@.len(),
    ensures
        final(runtime).wf(),
        final(runtime).fixed_point == old(runtime).fixed_point,
        final(runtime).grouped == old(runtime).grouped,
        all_flagged(*old(runtime), *final(runtime), old(actors)@, changed@),
        final(actors)@.len() == old(actors)@.len(),
        forall|i: int|
            0 <= i < old(actors)@.len() ==> #[trigger] final(actors)@[i] == (if changed@.contains(
                i as usize,
            ) {
                SpriteActor { fast: old(actors)@[i].animation.fast_loop, ..old(actors)@[i] }
            } else {
                old(actors)@[i]
            }),
{
    let mut k: usize = 0;
    let ghost mut stores: Seq<SpriteAnimatorSoa<S>> = seq![*runtime];
    while k < changed.len()
        invariant
            k <= changed@.len(),
            runtime.wf(),
            runtime.fixed_point == old(runtime).fixed_point,
            runtime.grouped == old(runtime).grouped,
            stores_in_turn(stores, old(actors)@, changed@, k as int),
            stores[0] == *old(runtime),
            stores[k as int] == *runtime,
            runtime.rows().len() <= old(runtime).rows().len() + k,
            old(runtime).rows().len() + changed@.len() < u32::MAX,
            actors@.len() == old(actors)@.len(),
            table_wf(old(actors)@),
            forall|i: int|
                0 <= i < old(actors)@.len() ==> (#[trigger] old(actors)@[i]).animation.frames@.len()
                    <= u32::MAX,
            forall|j: int| 0 <= j < changed@.len() ==> #[trigger] changed@[j] < old(actors)@.len(),
            forall|i: int|
                0 <= i < old(actors)@.len() ==> #[trigger] actors@[i] == actor_flagged_by(
                    old(actors)@,
                    changed@,
                    k as int,
                    i,
                ),
        decreases changed@.len() - k,
    {
        let at: usize = changed[k];
        let ghost before = actors@;
        let ghost known = stores;
        assert(before[at as int].animation == old(actors)@[at as int].animation);
        flag_fast_sprite_animator(&mut actors[at], runtime);
        proof {
            stores = stores.push(*runtime);
            assert forall|j: int| 0 <= j < k + 1 implies animator_flagged(
                #[trigger] stores[j],
                stores[j + 1],
                actor_flagged_by(old(actors)@, changed@, j, changed@[j] as int),
            ) by {
                assert(stores[j] == known[j]);
                if j < k {
                    assert(stores[j + 1] == known[j + 1]);
                }
            }
            let head = changed@.take(k as int);
            let now = changed@.take(k + 1);
            assert(now =~= head.push(at));
            assert forall|i: int| 0 <= i < old(actors)@.len() implies #[trigger] actors@[i]
                == actor_flagged_by(old(actors)@, changed@, k + 1, i) by {
                if i == at {
                    assert(now[k as int] == at);
                } else {
                    assert(actors@[i] == before[i]);
                    assert(actors.len() == actors@.len());
                    assert(now[k as int] == at && i as usize != at);
                    if now.contains(i as usize) {
                        let j = choose|j: int| 0 <= j < now.len() && now[j] == i as usize;
                        assert(j < k);
                        assert(head[j] == i as usize);
                    }
                    if head.contains(i as usize) {
                        let j = choose|j: int| 0 <= j < head.len() && head[j] == i as usize;
                        assert(now[j] == i as usize);
                    }
                }
            }
        }
        k = k + 1;
    }
    proof {
        assert(changed@.take(k as int) == changed@);
        assert(stores_in_turn(stores, old(actors)@, changed@, changed@.len() as int));
    }
}

/// Whether an actor is marked exactly when it has a place in the packed store.
pub open spec fn mark_agrees<S: Scalar>(store: SpriteAnimatorSoa<S>, actor: SpriteActor<S>) -> bool {
    actor.fast == (store.slot_of(actor.entity) is Some)
}

/// An entity has a slot exactly where a row of it stands.
proof fn lemma_slot_means_row<S: Scalar>(store: SpriteAnimatorSoa<S>, entity: Entity, i: int)
    requires
        store.wf(),
    ensures
        0 <= i < store.rows().len() && store.rows()[i].entity == entity ==> store.slot_of(
            entity,
        ) is Some,
        store.slot_of(entity) is Some ==> store.slot_of(entity)->0 < store.rows().len()
            && store.rows()[store.slot_of(entity)->0 as int].entity == entity,
{
    if 0 <= i < store.rows().len() && store.rows()[i].entity == entity {
        store.law_slots_are_exact(i, entity);
    }
    if store.slot_of(entity) is Some {
        let j = store.entity_to_slot@[entity.bits] as int;
        assert(store.entities@[j].bits == entity.bits);
        assert(store.rows()[j].entity == store.entities@[j]);
    }
}

/// Flagging an actor settles its own place in the packed store and leaves the places of other
/// entities alone.
pub proof fn law_flagging_places_the_actor<S: Scalar>(
    before: SpriteAnimatorSoa<S>,
    after: SpriteAnimatorSoa<S>,
    actor: SpriteActor<S>,
    other: Entity,
)
    requires
        before.wf(),
        animator_flagged(before, after, actor),
        mark_agrees(before, actor),
    ensures
        after.slot_of(actor.entity) is Some == actor.animation.fast_loop,
        other.bits != actor.entity.bits ==> after.slot_of(other) is Some == before.slot_of(
            other,
        ) is Some,
{
    let own = actor.entity;
    let n = before.rows().len() as int;
    lemma_slot_means_row(before, own, 0);
    lemma_slot_means_row(before, other, 0);
    lemma_slot_means_row(after, own, 0);
    lemma_slot_means_row(after, other, 0);
    let here = before.slot_of(own)->0 as int;
    if actor.animation.fast_loop {
        if before.slot_of(own) is Some {
            lemma_slot_means_row(after, own, here);
        } else {
            lemma_slot_means_row(after, own, n);
            assert forall|i: int| 0 <= i < n implies after.rows()[i] == before.rows()[i] by {
                assert(after.rows().drop_last()[i] == after.rows()[i]);
            }
        }
        if other.bits != own.bits {
            if before.slot_of(other) is Some {
                let j = before.slot_of(other)->0 as int;
                assert(after.rows()[j] == before.rows()[j]);
                lemma_slot_means_row(after, other, j);
            }
            if after.slot_of(other) is Some {
                let j = after.slot_of(other)->0 as int;
                assert(j < n && after.rows()[j] == before.rows()[j]);
                lemma_slot_means_row(before, other, j);
            }
        }
    } else if before.slot_of(own) is Some {
        assert(before.rows().last() == before.rows()[n - 1]);
        if after.slot_of(own) is Some {
            let j = after.slot_of(own)->0 as int;
            let from = if j == here {
                n - 1
            } else {
                j
            };
            assert(before.rows()[from].entity == own);
            before.law_slots_are_exact(from, own);
        }
        if other.bits != own.bits {
            if before.slot_of(other) is Some {
                let j = before.slot_of(other)->0 as int;
                let to = if j == n - 1 {
                    here
                } else {
                    j
                };
                assert(after.rows()[to].entity == other);
                lemma_slot_means_row(after, other, to);
            }
            if after.slot_of(other) is Some {
                let j = after.slot_of(other)->0 as int;
                let from = if j == here {
                    n - 1
                } else {
                    j
                };
                assert(before.rows()[from].entity == other);
                lemma_slot_means_row(before, other, from);
            }
        }
    }
}

/// Every actor is of another entity.
pub open spec fn entities_differ<S>(actors: Seq<SpriteActor<S>>) -> bool {
    forall|i: int, j: int|
        0 <= i < j < actors.len() ==> (#[trigger] actors[i]).entity.bits != (
        #[trigger] actors[j]).entity.bits
}

/// Where the marks agree with the packed store before, they agree with it after the changed actors
/// were flagged: whoever is marked is moved by the store, and the others are not in it.
pub proof fn law_flagging_keeps_marks_true<S: Scalar>(
    before: SpriteAnimatorSoa<S>,
    after: SpriteAnimatorSoa<S>,
    actors: Seq<SpriteActor<S>>,
    changed: Seq<usize>,
)
    requires
        before.wf(),
        all_flagged(before, after, actors, changed),
        entities_differ(actors),
        actors.len() <= usize::MAX,
        forall|k: int| 0 <= k < changed.len() ==> #[trigger] changed[k] < actors.len(),
        forall|i: int| 0 <= i < actors.len() ==> mark_agrees(before, #[trigger] actors[i]),
    ensures
        forall|i: int|
            0 <= i < actors.len() ==> mark_agrees(
                after,
                #[trigger] actor_flagged_by(actors, changed, changed.len() as int, i),
            ),
{
    let stores = choose|stores: Seq<SpriteAnimatorSoa<S>>| #[trigger]
        stores_in_turn(stores, actors, changed, changed.len() as int) && stores[0] == before
            && stores.last() == after;
    lemma_marks_in_turn(stores, actors, changed, changed.len() as int);
}

proof fn lemma_marks_in_turn<S: Scalar>(
    stores: Seq<SpriteAnimatorSoa<S>>,
    actors: Seq<SpriteActor<S>>,
    changed: Seq<usize>,
    k: int,
)
    requires
        0 <= k <= changed.len(),
        stores_in_turn(stores, actors, changed, changed.len() as int),
        stores[0].wf(),
        entities_differ(actors),
        actors.len() <= usize::MAX,
        forall|k: int| 0 <= k < changed.len() ==> #[trigger] changed[k] < actors.len(),
        forall|i: int| 0 <= i < actors.len() ==> mark_agrees(stores[0], #[trigger] actors[i]),
    ensures
        stores[k].wf(),
        forall|i: int|
            0 <= i < actors.len() ==> mark_agrees(
                stores[k],
                #[trigger] actor_flagged_by(actors, changed, k, i),
            ),
    decreases k,
{
    if k == 0 {
        assert(changed.take(0) =~= Seq::empty());
        assert forall|i: int| 0 <= i < actors.len() implies mark_agrees(
            stores[0],
            #[trigger] actor_flagged_by(actors, changed, 0, i),
        ) by {
            assert(actor_flagged_by(actors, changed, 0, i) == actors[i]);
        }
    } else {
        lemma_marks_in_turn(stores, actors, changed, k - 1);
        let at = changed[k - 1] as int;
        let actor = actor_flagged_by(actors, changed, k - 1, at);
        let head = changed.take(k - 1);
        let now = changed.take(k);
        assert(now =~= head.push(changed[k - 1]));
        assert(animator_flagged(stores[k - 1], stores[k - 1 + 1], actor));
        assert forall|i: int| 0 <= i < actors.len() implies mark_agrees(
            stores[k],
            #[trigger] actor_flagged_by(actors, changed, k, i),
        ) by {
            law_flagging_places_the_actor(stores[k - 1], stores[k], actor, actors[i].entity);
            if i == at {
                assert(now[k - 1] == i as usize);
                assert(actors[at].entity == actor.entity);
            } else {
                assert(actors[i].entity.bits != actors[at].entity.bits);
                assert(now.contains(i as usize) == head.contains(i as usize)) by {
                    if now.contains(i as usize) {
                        let j = choose|j: int| 0 <= j < now.len() && now[j] == i as usize;
                        assert(j < k - 1);
                        assert(head[j] == i as usize);
                    }
                    if head.contains(i as usize) {
                        let j = choose|j: int| 0 <= j < head.len() && head[j] == i as usize;
                        assert(now[j] == i as usize);
                    }
                }
                assert(actor_flagged_by(actors, changed, k, i) == actor_flagged_by(
                    actors,
                    changed,
                    k - 1,
                    i,
                ));
            }
        }
    }
}

/// Whether a marked actor stands for an entity.
pub open spec fn stood_for<S>(actors: Seq<SpriteActor<S>>, entity: Entity) -> bool {
    actor_index(actors, entity, true, 0) < actors.len()
}

/// Whether rows are what is left when those that no marked actor stands for are taken out in turn.
pub open spec fn rows_cleaned<S: Scalar>(
    rows: Seq<AnimatorRow<S>>,
    after: Seq<AnimatorRow<S>>,
    actors: Seq<SpriteActor<S>>,
) -> bool {
    exists|answers: Seq<bool>| #[trigger]
        all_asked(rows, answers, after) && forall|j: int|
            0 <= j < answers.len() ==> #[trigger] answers[j] == stood_for(
                actors,
                row_asked_for(rows, answers, j),
            )
}

/// Takes out of the packed store every animator that no actor stands for any more.
pub fn sys_cleanup_sprite_animator_soa<S: Scalar>(
    runtime: &mut SpriteAnimatorSoa<S>,
    actors: &Vec<SpriteActor<S>>,
)
    requires
        old(runtime).wf(),
    ensures
        final(runtime).wf(),
        final(runtime).fixed_point == old(runtime).fixed_point,
        final(runtime).grouped == old(runtime).grouped,
        rows_cleaned(old(runtime).rows(), final(runtime).rows(), actors@),
        forall|i: int|
            0 <= i < final(runtime).rows().len() ==> stood_for(
                actors@,
                (#[trigger] final(runtime).rows()[i]).entity,
            ) && crate::sprite_soa::came_from(final(runtime).rows()[i], old(runtime).rows()),
        forall|i: int|
            0 <= i < old(runtime).rows().len() ==> final(runtime).slot_of(
                (#[trigger] old(runtime).rows()[i]).entity,
            ) is Some || !stood_for(actors@, old(runtime).rows()[i].entity),
{
    let keep = |entity: Entity| -> (r: bool)
        ensures
            r == stood_for(actors@, entity),
        { find_actor(actors, entity, true) < actors.len() };
    let ghost rows = runtime.rows();
    runtime.retain_entities(keep);
    proof {
        let answers = choose|answers: Seq<bool>| #[trigger]
            all_asked(rows, answers, runtime.rows()) && forall|j: int|
                0 <= j < answers.len() ==> call_ensures(
                    keep,
                    (row_asked_for(rows, answers, j),),
                    #[trigger] answers[j],
                );
        assert(all_asked(rows, answers, runtime.rows()));
    }
}

/// What a frame's pass over the sprite animations goes by.
pub struct DriveRules<S> {
    pub plan: AnimationDelta<S>,
    pub time: AnimationTime<S>,
    /// Whether the looping actors are driven through the packed store.
    pub use_store: bool,
}

/// The world of the sprite animations.
pub struct SpriteStage<S> {
    pub actors: Seq<SpriteActor<S>>,
    pub rows: Seq<crate::sprite_soa::AnimatorRow<S>>,
    pub fixed_point: bool,
    pub grouped: bool,
    pub sent: Seq<GameEvent<S>>,
    pub queue: Seq<Entity>,
    pub recorder: AnimationRecorder<S>,
}

pub open spec fn has_scales<S: Scalar>(time: AnimationTime<S>) -> bool {
    !(time.group_scales@.dom() =~= Set::<Seq<char>>::empty())
}

impl<S: Scalar> SpriteStage<S> {
    pub open spec fn soa_pass(self, updates: Seq<(Entity, usize)>) -> crate::sprite_soa::SoaPass<S> {
        crate::sprite_soa::SoaPass {
            rows: self.rows,
            updates,
            processed: 0,
            recorder: self.recorder,
        }
    }

    pub open spec fn soa_rules(self, step: S, time: AnimationTime<S>) -> crate::sprite_soa::PassRules<S> {
        crate::sprite_soa::PassRules {
            delta: step,
            has_group_scales: has_scales(time),
            time,
            fixed_point: self.fixed_point,
        }
    }

    /// How many full groups of the packed store a frame moves, and how many animators are left
    /// over from them.
    pub open spec fn laps(
        self,
        step: S,
        steps: Option<u32>,
        time: AnimationTime<S>,
        use_store: bool,
    ) -> (nat, nat) {
        let rules = self.soa_rules(step, time);
        let start = self.soa_pass(Seq::empty());
        if !use_store || self.rows.len() == 0 || step.same_spec(S::zero_spec()) {
            (0, 0)
        } else {
            match steps {
                None => start.laps(rules, self.grouped, true),
                Some(count) => start.begun(true).laps_in_steps(rules, self.grouped, count as nat),
            }
        }
    }

    /// The looping actors moved through the packed store, and its updates handed to them. `laps`
    /// says how long its groups took.
    pub open spec fn store_driven(
        self,
        step: S,
        steps: Option<u32>,
        time: AnimationTime<S>,
        laps: GroupLaps,
    ) -> Self {
        let rules = self.soa_rules(step, time);
        let start = self.soa_pass(Seq::empty());
        let after = match steps {
            None => {
                let pass = start.driven(rules, self.grouped, true);
                crate::sprite_soa::SoaPass {
                    recorder: laps.recorded(
                        crate::sprite_soa::bucket_sampled(pass.recorder, pass.processed as u64),
                    ),
                    ..pass
                }
            },
            Some(count) => if step.same_spec(S::zero_spec()) || count == 0 || self.rows.len()
                == 0 {
                start
            } else {
                let pass = start.begun(true).driven_steps(rules, self.grouped, count as nat);
                crate::sprite_soa::SoaPass {
                    recorder: laps.recorded(
                        crate::sprite_soa::bucket_sampled(pass.recorder, pass.processed as u64),
                    ),
                    ..pass
                }
            },
        };
        let (actors, queue) = updates_flushed(
            self.actors,
            self.queue,
            after.rows,
            after.updates,
            0,
            0,
        );
        SpriteStage {
            actors,
            queue,
            rows: after.rows,
            recorder: if after.updates.len() == 0 {
                after.recorder
            } else {
                flush_recorded(after.recorder, after.updates.len() as usize)
            },
            ..self
        }
    }

    /// A frame's time played: the looping actors first, then the others.
    pub open spec fn driven(
        self,
        step: S,
        steps: Option<u32>,
        time: AnimationTime<S>,
        use_store: bool,
        laps: GroupLaps,
    ) -> Self {
        let rules = GeneralRules { step, steps, has_group_scales: has_scales(time), time };
        let looped = if use_store {
            self.store_driven(step, steps, time, laps)
        } else {
            let (actors, recorder) = fast_pass(self.actors, self.recorder, rules);
            SpriteStage { actors, recorder, ..self }
        };
        let general = general_pass(looped.actors, looped.queue, looped.recorder, rules);
        SpriteStage {
            actors: general.actors,
            sent: looped.sent + general.sent,
            queue: general.queue,
            recorder: general.recorder,
            ..looped
        }
    }

    /// The groups and the left over animators that a plan moves.
    pub open spec fn planned_laps(self, rules: DriveRules<S>) -> (nat, nat) {
        match rules.plan {
            AnimationDelta::Idle => (0, 0),
            AnimationDelta::Single(delta) => if delta.same_spec(S::zero_spec()) {
                (0, 0)
            } else {
                self.laps(delta, None, rules.time, rules.use_store)
            },
            AnimationDelta::Fixed { step, steps } => if steps == 0 || step.same_spec(
                S::zero_spec(),
            ) {
                (0, 0)
            } else {
                self.laps(step, Some(steps), rules.time, rules.use_store)
            },
        }
    }

    /// The whole pass by the plan; a plan without time leaves everything as it is.
    pub open spec fn planned(self, rules: DriveRules<S>, laps: GroupLaps) -> Self {
        match rules.plan {
            AnimationDelta::Idle => self,
            AnimationDelta::Single(delta) => if delta.same_spec(S::zero_spec()) {
                self
            } else {
                self.driven(delta, None, rules.time, rules.use_store, laps)
            },
            AnimationDelta::Fixed { step, steps } => if steps == 0 || step.same_spec(
                S::zero_spec(),
            ) {
                self
            } else {
                self.driven(step, Some(steps), rules.time, rules.use_store, laps)
            },
        }
    }
}

fn drive_stage<S: Scalar, K: Fn() -> u64 + Copy>(
    step: S,
    steps: Option<u32>,
    time: &AnimationTime<S>,
    use_store: bool,
    events: &mut EventBus<S>,
    frame_updates: &mut SpriteFrameApplyQueue,
    runtime: &mut SpriteAnimatorSoa<S>,
    actors: &mut Vec<SpriteActor<S>>,
    recorder: &mut AnimationRecorder<S>,
    clock: K,
) -> (laps: GroupLaps)
    requires
        clock.requires(()),
        time.wf(),
        old(runtime).wf(),
        table_wf(old(actors)@),
    ensures
        final(runtime).wf(),
        table_wf(final(actors)@),
        ({
            let start = SpriteStage {
                actors: old(actors)@,
                rows: old(runtime).rows(),
                fixed_point: old(runtime).fixed_point,
                grouped: old(runtime).grouped,
                sent: Seq::empty(),
                queue: old(frame_updates)@,
                recorder: *old(recorder),
            };
            let after = start.driven(step, steps, *time, use_store, laps);
            &&& laps.measured(clock, start.laps(step, steps, *time, use_store))
            &&& final(actors)@ == after.actors
            &&& final(runtime).rows() == after.rows
            &&& final(runtime).fixed_point == old(runtime).fixed_point
            &&& final(runtime).grouped == old(runtime).grouped
            &&& final(events)@ == old(events)@ + after.sent
            &&& final(frame_updates)@ == after.queue
            &&& *final(recorder) == after.recorder
        }),
{
    let has_group_scales: bool = time.has_group_scales();
    let mut laps = GroupLaps { chunk_ns: 0, scalar_ns: 0 };
    proof {
        crate::stopwatch::law_no_spans_take_no_time(clock);
    }
    if use_store {
        let mut state_updates: Vec<(Entity, usize)> = Vec::new();
        assert(state_updates@ =~= Seq::<(Entity, usize)>::empty());
        match steps {
            None => {
                laps = runtime.drive_fast_single_soa(
                    step,
                    has_group_scales,
                    time,
                    &mut state_updates,
                    recorder,
                    clock,
                );
            },
            Some(count) => {
                laps = runtime.drive_fast_fixed_soa(
                    step,
                    count,
                    has_group_scales,
                    time,
                    &mut state_updates,
                    recorder,
                    clock,
                );
            },
        }
        flush_sprite_state_updates(
            runtime,
            &mut state_updates,
            frame_updates,
            actors,
            recorder,
        );
    } else {
        drive_fast(actors, step, steps, has_group_scales, time, recorder);
    }
    proof {
        assert(forall|x: Seq<GameEvent<S>>| Seq::<GameEvent<S>>::empty() + x =~= x);
    }
    drive_general(
        actors,
        step,
        steps,
        has_group_scales,
        time,
        events,
        frame_updates,
        recorder,
    );
    laps
}

/// Plays the frame's time on every sprite animation, and takes a sample of what was done and how
/// long the groups of the packed store took by a clock that counts nanoseconds.
pub fn sys_drive_sprite_animations<S: Scalar, K: Fn() -> u64 + Copy>(
    plan: AnimationDelta<S>,
    time: &AnimationTime<S>,
    use_store: bool,
    events: &mut EventBus<S>,
    frame_updates: &mut SpriteFrameApplyQueue,
    perf: &mut SpriteAnimPerfTelemetry<S>,
    runtime: &mut SpriteAnimatorSoa<S>,
    actors: &mut Vec<SpriteActor<S>>,
    recorder: &mut AnimationRecorder<S>,
    clock: K,
) -> (laps: GroupLaps)
    requires
        clock.requires(()),
        time.wf(),
        old(runtime).wf(),
        table_wf(old(actors)@),
        old(perf).wf(),
        old(perf).frame_counter < u64::MAX,
    ensures
        final(runtime).wf(),
        table_wf(final(actors)@),
        final(perf).wf(),
        ({
            let sample = crate::anim_stats::SpriteAnimPerfSample {
                frame_index: (old(perf).frame_counter + 1) as u64,
                delta_kind: crate::anim_stats::SpriteAnimDeltaKind::of_delta(plan),
                simd_supported: old(perf).simd_enabled,
                ..crate::anim_stats::SpriteAnimPerfSample::<S>::blank()
            };
            let kind = if plan is Fixed {
                SpriteAnimStepKind::Fixed
            } else {
                SpriteAnimStepKind::Variable
            };
            let start = SpriteStage {
                actors: old(actors)@,
                rows: old(runtime).rows(),
                fixed_point: old(runtime).fixed_point,
                grouped: old(runtime).grouped,
                sent: Seq::empty(),
                queue: old(frame_updates)@,
                recorder: if plan is Idle {
                    *old(recorder)
                } else {
                    AnimationRecorder {
                        perf: Some(sample),
                        step_kind: kind.code(),
                        ..*old(recorder)
                    }
                },
            };
            let rules = DriveRules { plan, time: *time, use_store };
            let after = start.planned(rules, laps);
            let taken = match after.recorder.perf {
                Some(taken) => if plan is Idle { sample } else { taken },
                None => sample,
            };
            let closing = SpriteAnimPerfTelemetry { current: taken, ..*old(perf) };
            &&& laps.measured(clock, start.planned_laps(rules))
            &&& final(actors)@ == after.actors
            &&& final(runtime).rows() == after.rows
            &&& final(runtime).fixed_point == old(runtime).fixed_point
            &&& final(runtime).grouped == old(runtime).grouped
            &&& final(events)@ == old(events)@ + after.sent
            &&& final(frame_updates)@ == after.queue
            &&& *final(recorder) == (if plan is Idle {
                *old(recorder)
            } else {
                AnimationRecorder { perf: None, ..after.recorder }
            })
            &&& final(perf).slow_threshold_streak == closing.next_slow_streak()
            &&& final(perf).tail_threshold_streak == closing.next_tail_streak()
            &&& final(perf).frame_counter == old(perf).frame_counter + 1
            &&& final(perf).capacity == old(perf).capacity
            &&& final(perf).simd_enabled == old(perf).simd_enabled
            &&& final(perf).current == (crate::anim_stats::SpriteAnimPerfSample {
                slow_ratio_streak: closing.next_slow_streak(),
                tail_scalar_streak: closing.next_tail_streak(),
                ..taken
            })
            &&& final(perf).history@ == crate::anim_stats::ring_push(
                old(perf).history@,
                (crate::anim_stats::SpriteAnimPerfSample {
                    slow_ratio_streak: closing.next_slow_streak(),
                    tail_scalar_streak: closing.next_tail_streak(),
                    ..taken
                }),
                old(perf).capacity as int,
            )
        }),
{
    let mut laps = GroupLaps { chunk_ns: 0, scalar_ns: 0 };
    proof {
        crate::stopwatch::law_no_spans_take_no_time(clock);
    }
    perf.start_frame(plan);
    if !plan.has_steps() {
        assert(events@ =~= old(events)@ + Seq::<GameEvent<S>>::empty());
        perf.finish_frame();
        return laps;
    }
    recorder.perf = Some(perf.current);
    let kind = if matches!(plan, AnimationDelta::Fixed { .. }) {
        SpriteAnimStepKind::Fixed
    } else {
        SpriteAnimStepKind::Variable
    };
    perf_set_step_kind(recorder, kind);
    match plan {
        AnimationDelta::Idle => {},
        AnimationDelta::Single(delta) => {
            if !delta.same(S::zero()) {
                laps = drive_stage(
                    delta,
                    None,
                    time,
                    use_store,
                    events,
                    frame_updates,
                    runtime,
                    actors,
                    recorder,
                    clock,
                );
            } else {
                assert(events@ =~= old(events)@ + Seq::<GameEvent<S>>::empty());
            }
        },
        AnimationDelta::Fixed { step, steps } => {
            if steps > 0 && !step.same(S::zero()) {
                laps = drive_stage(
                    step,
                    Some(steps),
                    time,
                    use_store,
                    events,
                    frame_updates,
                    runtime,
                    actors,
                    recorder,
                    clock,
                );
            } else {
                assert(events@ =~= old(events)@ + Seq::<GameEvent<S>>::empty());
            }
        },
    }
    if let Some(sample) = recorder.perf {
        perf.current = sample;
    }
    recorder.perf = None;
    perf.finish_frame();
    laps
}

} // verus!
