//! What playing at a rate comes to: so many times the rate, so many times the time.
use vstd::prelude::*;
use crate::anim_stats::AnimationRecorder;
use crate::animation_time::{AnimationDelta, AnimationTime};
use crate::clip_drive::{plan_as_step, ClipActor, ClipPath};
use crate::entity::Entity;
use crate::scalar::{Fixed, Scalar};
use crate::skeleton::SkeletonActor;
use crate::sprite::{SpriteAnimation, SpriteFrameState};
use crate::sprite_systems::{fast_ready, general_ready};

verus! {

/// Whether a rate is a whole number of times the plain one.
pub open spec fn is_times(rate: Fixed, k: int) -> bool {
    rate.0 == 65536 * k && 1 <= k <= 1000
}

proof fn lemma_times(delta: Fixed, rate: Fixed, k: int)
    requires
        is_times(rate, k),
        -0x10_0000_0000_0000 <= delta.0 <= 0x10_0000_0000_0000,
    ensures
        delta.times_spec(rate).0 == k * delta.0,
        -0x4000_0000_0000_0000 <= k * delta.0 <= 0x4000_0000_0000_0000,
{
    let m = k * delta.0;
    assert(delta.0 * rate.0 == 65536 * m) by (nonlinear_arith)
        requires
            rate.0 == 65536 * k,
            m == k * delta.0,
    ;
    assert(-0x4000_0000_0000_0000 <= m <= 0x4000_0000_0000_0000) by (nonlinear_arith)
        requires
            m == k * delta.0,
            1 <= k <= 1000,
            -0x10_0000_0000_0000 <= delta.0 <= 0x10_0000_0000_0000,
    ;
}

/// The step that is due of an animation that plays at a whole rate is so many times the time that
/// passes; none is due of one that does not play, or stands still.
pub proof fn law_animations_step_by_their_rate(
    entity: Entity,
    a: SpriteAnimation<Fixed>,
    state: SpriteFrameState<Fixed>,
    delta: Fixed,
    clock: AnimationTime<Fixed>,
    recorder: AnimationRecorder<Fixed>,
    k: int,
)
    requires
        a.frame_index < a.frames@.len(),
        !a.playback_rate_dirty,
        0 < delta.0 <= 0x10_0000_0000_0000,
    ensures
        ({
            let (ready, due) = general_ready(entity, a, state, delta, false, clock, recorder);
            let (fast, also) = fast_ready(a, delta, false, clock);
            &&& !a.playing ==> due is None && also is None
            &&& a.playback_rate.0 == 0 ==> due is None && also is None
            &&& a.playing && is_times(a.playback_rate, k) ==> due is Some && due->Some_0.0 == k
                * delta.0 && also == due
            &&& ready.animation.frame_index == a.frame_index
            &&& ready.animation.elapsed_in_frame == a.elapsed_in_frame
            &&& fast.frame_index == a.frame_index && fast.elapsed_in_frame == a.elapsed_in_frame
            &&& ready.state == state && !ready.moved
        }),
{
    if is_times(a.playback_rate, k) {
        lemma_times(delta, a.playback_rate, k);
        assert(k * delta.0 > 0) by (nonlinear_arith)
            requires
                1 <= k,
                0 < delta.0,
        ;
    }
    assert(delta.0 * 0 == 0);
}

/// The step that is due of a skeleton that plays at a whole rate is so many times the time that passes.
pub proof fn law_skeletons_step_by_their_rate(
    actor: SkeletonActor<Fixed, Fixed, Fixed, Fixed>,
    delta: Fixed,
    clock: AnimationTime<Fixed>,
    k: int,
)
    requires
        actor.instance.active_clip is Some,
        actor.instance.playing,
        !actor.instance.playback_rate_dirty,
        is_times(actor.instance.playback_rate, k),
        0 < delta.0 <= 0x10_0000_0000_0000,
    ensures
        actor.step_due(delta, false, clock).1.0 == k * delta.0,
        actor.step_due(delta, false, clock).2 is Posed,
{
    lemma_times(delta, actor.instance.playback_rate, k);
    assert(k * delta.0 > 0) by (nonlinear_arith)
        requires
            1 <= k,
            0 < delta.0,
    ;
}

/// A clip that does not play is skipped and stays as it is; one whose rate is nothing stands still; and
/// one at a whole rate does what so many times the time would do at the plain one.
pub proof fn law_clips_step_by_their_rate(
    actor: ClipActor<Fixed, Fixed, Fixed>,
    delta: Fixed,
    clock: AnimationTime<Fixed>,
    k: int,
)
    requires
        !actor.instance.playback_rate_dirty,
        0 < delta.0 <= 0x10_0000_0000_0000,
    ensures
        !actor.instance.playing ==> actor.played(delta, false, clock) == (actor, ClipPath::Skipped),
        actor.instance.playing && actor.instance.playback_rate.0 == 0 ==> actor.played(
            delta,
            false,
            clock,
        ) == (actor, ClipPath::Still),
        actor.instance.playing && is_times(actor.instance.playback_rate, k) ==> actor.played(
            delta,
            false,
            clock,
        ) == actor.played_scaled(Fixed((k * delta.0) as i64)),
{
    if is_times(actor.instance.playback_rate, k) {
        lemma_times(delta, actor.instance.playback_rate, k);
        assert(k * delta.0 > 0) by (nonlinear_arith)
            requires
                1 <= k,
                0 < delta.0,
        ;
    }
    assert(delta.0 * 0 == 0);
}

/// A clip without anything to write to still goes on in time, and forgets what it last wrote.
pub proof fn law_clips_without_targets_go_on(actor: ClipActor<Fixed, Fixed, Fixed>, step: Fixed)
    requires
        !actor.has_targets(),
        0 < actor.instance.duration_of().0,
        -0x1000_0000_0000_0000 <= actor.instance.time.0 <= 0x1000_0000_0000_0000,
        -0x1000_0000_0000_0000 <= step.0 <= 0x1000_0000_0000_0000,
    ensures
        ({
            let after = actor.played_scaled(step).0;
            let to = Fixed((actor.instance.time.0 + step.0) as i64);
            &&& after.instance.time == actor.instance.time_set_to(to).0
            &&& after.instance.playing == actor.instance.time_set_to(to).1
            &&& after.instance.translation.last is None && after.instance.rotation.last is None
                && after.instance.scale.last is None
            &&& after.transform == actor.transform && after.tint == actor.tint
        }),
{
    reveal(ClipActor::untargeted);
    reveal(ClipActor::jumped);
}

/// A plan of steps takes as long as all its steps, one of a single time takes that, and an idle one
/// nothing.
pub proof fn law_plans_take_all_their_steps(amount: Fixed, steps: u32)
    requires
        0 < amount.0 <= 0x1_0000_0000,
        0 < steps <= 0x7fff,
    ensures
        plan_as_step(AnimationDelta::Single(amount)) == Some(amount),
        plan_as_step(AnimationDelta::<Fixed>::Idle) is None,
        plan_as_step(AnimationDelta::Fixed { step: amount, steps }) is Some,
        plan_as_step(AnimationDelta::Fixed { step: amount, steps })->Some_0.0 == amount.0 * steps,
{
    let k = steps as int;
    assert(Fixed::from_count_spec(steps as usize).0 == 65536 * k);
    let m = amount.0 * k;
    assert(amount.0 * (65536 * k) == 65536 * m) by (nonlinear_arith)
        requires
            m == amount.0 * k,
    ;
    assert(0 < m <= 0x7fff_0000_0000) by (nonlinear_arith)
        requires
            m == amount.0 * k,
            0 < amount.0 <= 0x1_0000_0000,
            0 < k <= 0x7fff,
    ;
}

} // verus!
