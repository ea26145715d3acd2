//! The clock of the animation systems: a scale for all, scales for named groups, and an optional
//! fixed step.
use vstd::prelude::*;
use crate::scalar::{Fixed, Scalar};
use crate::text_map::TextMap;

verus! {

/// The time that an animation pass has to cover.
#[derive(Clone, Copy, Debug)]
pub enum AnimationDelta<S> {
    Idle,
    Single(S),
    Fixed { step: S, steps: u32 },
}

impl<S> AnimationDelta<S> {
    pub fn has_steps(&self) -> (r: bool)
        ensures
            r == !(self is Idle),
    {
        !matches!(self, AnimationDelta::Idle)
    }
}

/// The delta that the running pass works with.
#[derive(Clone, Copy, Debug)]
pub struct AnimationPlan<S> {
    pub delta: AnimationDelta<S>,
}

impl<S> Default for AnimationPlan<S> {
    fn default() -> (r: Self)
        ensures
            r.delta is Idle,
    {
        AnimationPlan { delta: AnimationDelta::Idle }
    }
}

pub struct AnimationTime<S> {
    pub scale: S,
    pub paused: bool,
    pub fixed_step: Option<S>,
    pub remainder: S,
    pub group_scales: TextMap<S>,
}

impl<S: Scalar> AnimationTime<S> {
    pub open spec fn wf(self) -> bool {
        self.group_scales.wf()
    }

    pub fn new() -> (r: Self)
        ensures
            r.wf(),
            r.scale == S::one_spec(),
            !r.paused,
            r.fixed_step is None,
            r.remainder == S::zero_spec(),
            r.group_scales@ == Map::<Seq<char>, S>::empty(),
    {
        AnimationTime {
            scale: S::one(),
            paused: false,
            fixed_step: None,
            remainder: S::zero(),
            group_scales: TextMap::new(),
        }
    }

    /// Sets how fast time goes; it never goes back.
    pub fn set_scale(&mut self, scale: S)
        ensures
            *final(self) == (AnimationTime {
                scale: scale.larger_spec(S::zero_spec()),
                ..*old(self)
            }),
    {
        self.scale = scale.larger(S::zero());
    }

    /// Whether a scale is so close to one that a group does not need an entry for it.
    pub open spec fn is_neutral(scale: S) -> bool {
        scale.minus_spec(S::one_spec()).magnitude_spec().lt_spec(S::machine_epsilon_spec())
    }

    pub fn set_group_scale(&mut self, group: &str, scale: S)
        requires
            old(self).wf(),
        ensures
            final(self).wf(),
            final(self).group_scales@ == (if Self::is_neutral(scale) {
                old(self).group_scales@.remove(group@)
            } else {
                old(self).group_scales@.insert(group@, scale)
            }),
            *final(self) == (AnimationTime {
                group_scales: final(self).group_scales,
                ..*old(self)
            }),
    {
        if scale.minus(S::one()).magnitude().lt(S::machine_epsilon()) {
            let _removed = self.group_scales.remove(group);
        } else {
            self.group_scales.insert(group.to_owned(), scale);
        }
    }

    pub open spec fn scale_of(self, group: Option<Seq<char>>) -> S {
        if group is Some && self.group_scales@.contains_key(group->0) {
            self.group_scales@[group->0]
        } else {
            S::one_spec()
        }
    }

    /// The scale of a group; one without an entry, and no group at all, run at one.
    pub fn group_scale(&self, group: Option<&str>) -> (r: S)
        requires
            self.wf(),
        ensures
            r == self.scale_of(
                match group {
                    Some(name) => Some(name@),
                    None => None,
                },
            ),
    {
        match group {
            Some(name) => match self.group_scales.get(name) {
                Some(scale) => *scale,
                None => S::one(),
            },
            None => S::one(),
        }
    }

    pub fn has_group_scales(&self) -> (r: bool)
        requires
            self.wf(),
        ensures
            r == !(self.group_scales@.dom() =~= Set::<Seq<char>>::empty()),
    {
        proof {
            if self.group_scales.entries.len() > 0 {
                self.group_scales.lemma_entry(0);
            } else {
                assert(self.group_scales@.dom() =~= Set::<Seq<char>>::empty());
            }
        }
        self.group_scales.len() != 0
    }

    /// Without a fixed step nothing is carried over to the next pass.
    pub fn set_fixed_step(&mut self, value: Option<S>)
        ensures
            *final(self) == (AnimationTime {
                fixed_step: match value {
                    Some(step) => Some(step.larger_spec(S::machine_epsilon_spec())),
                    None => None,
                },
                remainder: if value is None {
                    S::zero_spec()
                } else {
                    old(self).remainder
                },
                ..*old(self)
            }),
    {
        match value {
            Some(step) => {
                self.fixed_step = Some(step.larger(S::machine_epsilon()));
            },
            None => {
                self.fixed_step = None;
                self.remainder = S::zero();
            },
        }
    }

    /// The number of whole steps in what has gathered, counted toward zero.
    pub open spec fn steps_in(gathered: S, step: S, scaled: S) -> i32 {
        if S::zero_spec().lt_spec(scaled) {
            gathered.over_spec(step).floor_steps_spec()
        } else {
            gathered.over_spec(step).ceil_steps_spec()
        }
    }

    /// The delta for `raw_dt` of real time and what is carried over to the next pass.
    pub open spec fn consumed(self, raw_dt: S) -> (AnimationDelta<S>, S) {
        let zero = S::zero_spec();
        let scaled = raw_dt.times_spec(self.scale);
        if raw_dt.le_spec(zero) || self.paused || scaled.same_spec(zero) {
            (AnimationDelta::Idle, self.remainder)
        } else if self.fixed_step is None {
            (AnimationDelta::Single(scaled), zero)
        } else {
            let step = self.fixed_step->0.larger_spec(S::machine_epsilon_spec());
            let gathered = self.remainder.plus_spec(scaled);
            let produced = Self::steps_in(gathered, step, scaled);
            if produced == 0 {
                (AnimationDelta::Idle, gathered)
            } else {
                let sign = if produced >= 0 {
                    S::one_spec()
                } else {
                    S::one_spec().negated_spec()
                };
                (
                    AnimationDelta::Fixed {
                        step: step.times_spec(sign),
                        steps: (if produced >= 0 {
                            produced as int
                        } else {
                            -produced
                        }) as u32,
                    },
                    gathered.minus_spec(step.times_spec(S::from_steps_spec(produced))),
                )
            }
        }
    }

    pub fn consume(&mut self, raw_dt: S) -> (r: AnimationDelta<S>)
        ensures
            r == old(self).consumed(raw_dt).0,
            *final(self) == (AnimationTime {
                remainder: old(self).consumed(raw_dt).1,
                ..*old(self)
            }),
    {
        let zero = S::zero();
        if raw_dt.le(zero) || self.paused {
            return AnimationDelta::Idle;
        }
        let scaled = raw_dt.times(self.scale);
        if scaled.same(zero) {
            return AnimationDelta::Idle;
        }
        match self.fixed_step {
            Some(step) => {
                let step = step.larger(S::machine_epsilon());
                self.remainder = self.remainder.plus(scaled);
                let produced: i32 = if zero.lt(scaled) {
                    self.remainder.over(step).floor_steps()
                } else {
                    self.remainder.over(step).ceil_steps()
                };
                if produced == 0 {
                    return AnimationDelta::Idle;
                }
                self.remainder = self.remainder.minus(step.times(S::from_steps(produced)));
                let sign = if produced >= 0 {
                    S::one()
                } else {
                    S::one().negated()
                };
                let steps: u32 = if produced >= 0 {
                    produced as u32
                } else {
                    (-(produced as i64)) as u32
                };
                AnimationDelta::Fixed { step: step.times(sign), steps }
            },
            None => {
                self.remainder = zero;
                AnimationDelta::Single(scaled)
            },
        }
    }
}

/// A paused clock gives no time and carries over what it had.
pub proof fn law_paused_clock_stands_still<S: Scalar>(clock: AnimationTime<S>, raw_dt: S)
    requires
        clock.paused,
    ensures
        clock.consumed(raw_dt) == (AnimationDelta::<S>::Idle, clock.remainder),
{
}

/// A scale set for a group is read back, unless it is so close to one that none is kept.
pub proof fn law_group_scale_reads_back<S: Scalar>(
    before: AnimationTime<S>,
    after: AnimationTime<S>,
    group: Seq<char>,
    scale: S,
)
    requires
        after.group_scales@ == (if AnimationTime::<S>::is_neutral(scale) {
            before.group_scales@.remove(group)
        } else {
            before.group_scales@.insert(group, scale)
        }),
    ensures
        after.scale_of(Some(group)) == (if AnimationTime::<S>::is_neutral(scale) {
            S::one_spec()
        } else {
            scale
        }),
        forall|other: Seq<char>|
            other != group ==> #[trigger] after.scale_of(Some(other)) == before.scale_of(
                Some(other),
            ),
{
}

/// In fixed point no time is lost or made by cutting it into steps: what had gathered is what the
/// steps last and what is carried over.
pub proof fn law_fixed_steps_keep_time(clock: AnimationTime<Fixed>, raw_dt: Fixed)
    requires
        clock.consumed(raw_dt).0 is Fixed,
        ({
            let scaled = raw_dt.times_spec(clock.scale);
            let step = clock.fixed_step->0.larger_spec(Fixed::machine_epsilon_spec());
            let gathered = clock.remainder.0 + scaled.0;
            let produced = AnimationTime::<Fixed>::steps_in(
                clock.remainder.plus_spec(scaled),
                step,
                scaled,
            );
            &&& i64::MIN <= gathered <= i64::MAX
            &&& i64::MIN <= step.0 * produced <= i64::MAX
            &&& i64::MIN <= gathered - step.0 * produced <= i64::MAX
            &&& step.0 < i64::MAX
        }),
    ensures
        ({
            let (delta, left) = clock.consumed(raw_dt);
            clock.remainder.0 + raw_dt.times_spec(clock.scale).0 == delta->step.0 * delta->steps
                + left.0
        }),
{
    let scaled = raw_dt.times_spec(clock.scale);
    let step = clock.fixed_step->0.larger_spec(Fixed::machine_epsilon_spec());
    let gathered = clock.remainder.plus_spec(scaled);
    let produced = AnimationTime::<Fixed>::steps_in(gathered, step, scaled);
    let s = step.0 as int;
    let p = produced as int;
    assert(s * (p * 65536) == (s * p) * 65536) by (nonlinear_arith);
    vstd::arithmetic::div_mod::lemma_div_multiples_vanish(s * p, 65536);
    assert((s * p) * 65536 / 65536 == s * p);
    assert(step.times_spec(Fixed::from_steps_spec(produced)).0 == s * p);
    assert(s * 65536 / 65536 == s);
    assert(s * (-65536) / 65536 == -s);
    assert((-s) * (-p) == s * p) by (nonlinear_arith);
}

} // verus!
