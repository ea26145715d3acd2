//! The packed store of the fast sprite animators, and the passes over it.
use std::collections::HashMap;
use vstd::prelude::*;
use crate::anim_stats::{
    perf_record_fast_animator, perf_record_fast_bucket_frame, perf_record_simd_chunk_time,
    perf_record_simd_mix, perf_record_simd_scalar_time, record_fast_bucket_sample,
    AnimationRecorder,
};
use crate::animation_time::AnimationTime;
use crate::counts::{held_sum_u64, held_total_u64};
use crate::entity::Entity;
use crate::scalar::Scalar;
use crate::sprite::SpriteAnimation;
use crate::sprite_slot::{
    accumulate_delta_slot, advance_animation_fast_loop_slot, advance_const_dt_slot,
    prepare_animation_slot, resolve_playback_rate_slot, AnimatorFixed, AnimatorHot, AnimatorSource,
    SpriteAnimatorFlags,
};
use crate::stopwatch::{add_span, read_clock, time_since, total_of_spans};

verus! {

broadcast use vstd::std_specs::hash::group_hash_axioms;

/// One animator of the store.
pub struct AnimatorRow<S> {
    pub entity: Entity,
    pub hot: AnimatorHot<S>,
    pub fixed: AnimatorFixed,
    pub source: AnimatorSource<S>,
    pub flags: SpriteAnimatorFlags,
}

impl<S: Scalar> AnimatorRow<S> {
    /// The tables belong together, and a prepared animator shows one of its frames.
    pub open spec fn wf(self) -> bool {
        &&& self.source.wf()
        &&& !self.flags.has(crate::sprite_slot::NEEDS_PREP) && self.source.frame_durations@.len()
            > 0 ==> self.hot.frame_index < self.source.frame_durations@.len()
    }

    /// The row that an animation gives.
    pub open spec fn mirrors(self, entity: Entity, animation: SpriteAnimation<S>) -> bool {
        &&& self.entity == entity
        &&& self.hot == AnimatorHot::of_animation(animation)
        &&& self.fixed == AnimatorFixed::of_animation(animation)
        &&& AnimatorSource::of_animation(animation, self.source)
        &&& self.flags == SpriteAnimatorFlags::of_animation(animation).with(
            crate::sprite_slot::CONST_DT,
            crate::sprite_slot::lasts_evenly(animation.frame_durations@),
        )
    }

    /// The row once it has been moved to another slot.
    pub open spec fn unprepared(self) -> Self {
        AnimatorRow { flags: self.flags.with(crate::sprite_slot::NEEDS_PREP, true), ..self }
    }
}

/// Animators in columns, one slot each, and the slot of every entity.
pub struct SpriteAnimatorSoa<S> {
    pub entities: Vec<Entity>,
    pub hot: Vec<AnimatorHot<S>>,
    pub fixed: Vec<AnimatorFixed>,
    pub source: Vec<AnimatorSource<S>>,
    pub flags: Vec<SpriteAnimatorFlags>,
    pub entity_to_slot: HashMap<u64, u32>,
    /// Whether short steps are taken in fixed point.
    pub fixed_point: bool,
    /// Whether animators with even frames are moved in groups.
    pub grouped: bool,
}

impl<S: Scalar> SpriteAnimatorSoa<S> {
    pub open spec fn row(self, i: int) -> AnimatorRow<S> {
        AnimatorRow {
            entity: self.entities@[i],
            hot: self.hot@[i],
            fixed: self.fixed@[i],
            source: self.source@[i],
            flags: self.flags@[i],
        }
    }

    pub open spec fn rows(self) -> Seq<AnimatorRow<S>> {
        Seq::new(self.entities@.len(), |i: int| self.row(i))
    }

    pub open spec fn columns_match(self) -> bool {
        &&& self.hot@.len() == self.entities@.len()
        &&& self.fixed@.len() == self.entities@.len()
        &&& self.source@.len() == self.entities@.len()
        &&& self.flags@.len() == self.entities@.len()
    }

    /// The columns are equally long, every row is well formed, and the slots of the entities are
    /// exactly those in which they stand, so that none stands in two.
    pub open spec fn wf(self) -> bool {
        &&& self.columns_match()
        &&& self.entities@.len() <= u32::MAX
        &&& forall|i: int| 0 <= i < self.entities@.len() ==> #[trigger] self.rows()[i].wf()
        &&& self.indexed()
    }

    pub open spec fn indexed(self) -> bool {
        &&& forall|i: int|
            0 <= i < self.entities@.len() ==> self.entity_to_slot@.contains_key(
                (#[trigger] self.entities@[i]).bits,
            ) && self.entity_to_slot@[self.entities@[i].bits] == i
        &&& forall|e: u64| #[trigger]
            self.entity_to_slot@.contains_key(e) ==> self.entity_to_slot@[e] < self.entities@.len()
                && self.entities@[self.entity_to_slot@[e] as int].bits == e
    }

    /// The slot of an entity, if it has one.
    pub open spec fn slot_of(self, entity: Entity) -> Option<usize> {
        if self.entity_to_slot@.contains_key(entity.bits) {
            Some(self.entity_to_slot@[entity.bits] as usize)
        } else {
            None
        }
    }

    pub fn new(fixed_point: bool, grouped: bool) -> (r: Self)
        ensures
            r.wf(),
            r.rows() == Seq::<AnimatorRow<S>>::empty(),
            r.fixed_point == fixed_point,
            r.grouped == grouped,
    {
        let r = SpriteAnimatorSoa {
            entities: Vec::new(),
            hot: Vec::new(),
            fixed: Vec::new(),
            source: Vec::new(),
            flags: Vec::new(),
            entity_to_slot: HashMap::new(),
            fixed_point,
            grouped,
        };
        assert(r.rows() =~= Seq::<AnimatorRow<S>>::empty());
        r
    }

    pub fn len(&self) -> (r: usize)
        ensures
            r == self.rows().len(),
    {
        self.entities.len()
    }

    pub fn is_empty(&self) -> (r: bool)
        ensures
            r == (self.rows().len() == 0),
    {
        self.entities.len() == 0
    }

    pub fn contains(&self, entity: Entity) -> (r: bool)
        ensures
            r == (self.slot_of(entity) is Some),
    {
        self.entity_to_slot.contains_key(&entity.bits)
    }

    pub fn slot_index(&self, entity: Entity) -> (r: Option<usize>)
        ensures
            r == self.slot_of(entity),
    {
        match self.entity_to_slot.get(&entity.bits) {
            Some(slot) => Some(*slot as usize),
            None => None,
        }
    }

    pub fn entity(&self, slot: usize) -> (r: Entity)
        requires
            slot < self.rows().len(),
        ensures
            r == self.rows()[slot as int].entity,
    {
        self.entities[slot]
    }

    /// An entity that stands in a slot has that slot, and no other slot holds it.
    pub proof fn law_slots_are_exact(self, i: int, entity: Entity)
        requires
            self.wf(),
            0 <= i < self.rows().len(),
        ensures
            (self.rows()[i].entity == entity) == (self.slot_of(entity) == Some(i as usize)),
    {
        assert(self.entities@[i] == self.rows()[i].entity);
        if self.entity_to_slot@.contains_key(entity.bits) {
            let j = self.entity_to_slot@[entity.bits];
            assert(self.entities@[j as int].bits == entity.bits);
        }
    }

    fn push_slot(&mut self, entity: Entity, animation: &SpriteAnimation<S>)
        requires
            old(self).wf(),
            animation.wf(),
            animation.frames@.len() <= u32::MAX,
            old(self).slot_of(entity) is None,
            old(self).rows().len() < u32::MAX,
        ensures
            final(self).wf(),
            final(self).rows().len() == old(self).rows().len() + 1,
            final(self).rows().drop_last() == old(self).rows(),
            final(self).rows().last().mirrors(entity, *animation),
            final(self).fixed_point == old(self).fixed_point,
            final(self).grouped == old(self).grouped,
    {
        let slot: u32 = self.entities.len() as u32;
        let _previous = self.entity_to_slot.insert(entity.bits, slot);
        self.entities.push(entity);
        self.hot.push(AnimatorHot::from_animation(animation));
        self.fixed.push(AnimatorFixed::from_animation(animation));
        self.source.push(AnimatorSource::from_animation(animation));
        let mut flags = SpriteAnimatorFlags::from_animation(animation);
        let even = crate::sprite_slot::detect_const_dt_duration(&animation.frame_durations);
        flags.set_const_dt(even.is_some());
        self.flags.push(flags);
        proof {
            let n = slot as int;
            lemma_new_flags_unprepared(*animation, even is Some);
            assert(self.rows().drop_last() =~= old(self).rows());
            assert forall|i: int| 0 <= i < self.entities@.len() implies #[trigger] self.rows()[i].wf() by {
                if i < n {
                    assert(self.rows()[i] == old(self).rows()[i]);
                }
            }
            assert forall|i: int| 0 <= i < self.entities@.len() implies
                self.entity_to_slot@.contains_key((#[trigger] self.entities@[i]).bits)
                && self.entity_to_slot@[self.entities@[i].bits] == i by {
                if i < n {
                    assert(self.entities@[i] == old(self).entities@[i]);
                }
            }
        }
    }

    fn write_slot(&mut self, slot: usize, animation: &SpriteAnimation<S>)
        requires
            old(self).wf(),
            animation.wf(),
            animation.frames@.len() <= u32::MAX,
            slot < old(self).rows().len(),
        ensures
            final(self).wf(),
            final(self).rows().len() == old(self).rows().len(),
            final(self).rows()[slot as int].mirrors(
                old(self).rows()[slot as int].entity,
                *animation,
            ),
            forall|i: int|
                0 <= i < old(self).rows().len() && i != slot ==> #[trigger] final(self).rows()[i]
                    == old(self).rows()[i],
            final(self).fixed_point == old(self).fixed_point,
            final(self).grouped == old(self).grouped,
            final(self).entity_to_slot == old(self).entity_to_slot,
    {
        self.hot[slot] = AnimatorHot::from_animation(animation);
        self.fixed[slot] = AnimatorFixed::from_animation(animation);
        self.source[slot] = AnimatorSource::from_animation(animation);
        let mut flags = SpriteAnimatorFlags::from_animation(animation);
        let even = crate::sprite_slot::detect_const_dt_duration(&animation.frame_durations);
        flags.set_const_dt(even.is_some());
        self.flags[slot] = flags;
        proof {
            lemma_new_flags_unprepared(*animation, even is Some);
            assert forall|i: int| 0 <= i < self.entities@.len() && i != slot implies #[trigger]
                self.rows()[i] == old(self).rows()[i] by {}
            assert forall|i: int| 0 <= i < self.entities@.len() implies #[trigger] self.rows()[i].wf() by {
                if i != slot {
                    assert(self.rows()[i] == old(self).rows()[i]);
                }
            }
        }
    }

    /// Takes an animation in, or takes its present state over if its entity is there already.
    pub fn upsert(&mut self, entity: Entity, animation: &SpriteAnimation<S>)
        requires
            old(self).wf(),
            animation.wf(),
            animation.frames@.len() <= u32::MAX,
            old(self).rows().len() < u32::MAX,
        ensures
            final(self).wf(),
            final(self).fixed_point == old(self).fixed_point,
            final(self).grouped == old(self).grouped,
            match old(self).slot_of(entity) {
                Some(slot) => {
                    &&& final(self).rows().len() == old(self).rows().len()
                    &&& final(self).rows()[slot as int].mirrors(entity, *animation)
                    &&& forall|i: int|
                        0 <= i < old(self).rows().len() && i != slot ==> #[trigger] final(self).rows()[i] == old(self).rows()[i]
                },
                None => {
                    &&& final(self).rows().len() == old(self).rows().len() + 1
                    &&& final(self).rows().drop_last() == old(self).rows()
                    &&& final(self).rows().last().mirrors(entity, *animation)
                },
            },
    {
        match self.slot_index(entity) {
            Some(slot) => {
                assert(self.rows()[slot as int].entity == entity);
                self.write_slot(slot, animation);
            },
            None => {
                self.push_slot(entity, animation);
            },
        }
    }
}

/// The rows once the one at `slot` is taken out: the last row takes its place and has to be
/// prepared anew there.
pub open spec fn rows_without<S: Scalar>(rows: Seq<AnimatorRow<S>>, slot: int) -> Seq<
    AnimatorRow<S>,
> {
    if slot == rows.len() - 1 {
        rows.drop_last()
    } else {
        rows.update(slot, rows.last().unprepared()).drop_last()
    }
}

/// Rows after each of them was asked for in turn, with how many of them stay for good: one that is
/// refused is taken out, and the one that takes its place is asked for next.
pub open spec fn rows_asked<S: Scalar>(rows: Seq<AnimatorRow<S>>, answers: Seq<bool>) -> (
    Seq<AnimatorRow<S>>,
    int,
)
    decreases answers.len(),
{
    if answers.len() == 0 {
        (rows, 0)
    } else {
        let (left, at) = rows_asked(rows, answers.drop_last());
        if answers.last() {
            (left, at + 1)
        } else {
            (rows_without(left, at), at)
        }
    }
}

/// Which row is asked for after the first `j` answers.
pub open spec fn row_asked_for<S: Scalar>(
    rows: Seq<AnimatorRow<S>>,
    answers: Seq<bool>,
    j: int,
) -> Entity {
    let (left, at) = rows_asked(rows, answers.take(j));
    left[at].entity
}

/// Whether answers were given until every row that is left stays for good.
pub open spec fn all_asked<S: Scalar>(
    rows: Seq<AnimatorRow<S>>,
    answers: Seq<bool>,
    after: Seq<AnimatorRow<S>>,
) -> bool {
    rows_asked(rows, answers) == (after, after.len() as int)
}

impl<S: Scalar> SpriteAnimatorSoa<S> {
    fn swap_remove_slot(&mut self, slot: usize)
        requires
            old(self).columns_match(),
            old(self).entities@.len() <= u32::MAX,
            slot < old(self).entities@.len(),
            forall|i: int|
                0 <= i < old(self).entities@.len() ==> #[trigger] old(self).rows()[i].wf(),
            // The index no longer knows the entity of `slot`, and is exact otherwise.
            !old(self).entity_to_slot@.contains_key(old(self).entities@[slot as int].bits),
            forall|i: int|
                0 <= i < old(self).entities@.len() && i != slot ==> old(self).entity_to_slot@.contains_key((#[trigger] old(self).entities@[i]).bits) && old(self).entity_to_slot@[old(self).entities@[i].bits] == i,
            forall|e: u64| #[trigger]
                old(self).entity_to_slot@.contains_key(e) ==> old(self).entity_to_slot@[e] < old(self).entities@.len() && old(self).entities@[old(self).entity_to_slot@[e] as int].bits
                    == e,
        ensures
            final(self).wf(),
            final(self).rows() == rows_without(old(self).rows(), slot as int),
            final(self).fixed_point == old(self).fixed_point,
            final(self).grouped == old(self).grouped,
            final(self).entity_to_slot@.dom() == old(self).entity_to_slot@.dom(),
    {
        let last: usize = self.entities.len() - 1;
        if slot != last {
            let moved = self.entities[last];
            self.flags[last].set_needs_prep(true);
            assert(self.entity_to_slot@.contains_key(moved.bits));
            let _previous = self.entity_to_slot.insert(moved.bits, slot as u32);
        }
        let _entity = self.entities.swap_remove(slot);
        let _hot = self.hot.swap_remove(slot);
        let _fixed = self.fixed.swap_remove(slot);
        let _source = self.source.swap_remove(slot);
        let _flags = self.flags.swap_remove(slot);
        proof {
            let before = old(self).rows();
            assert(self.rows() =~= rows_without(before, slot as int));
            assert forall|i: int| 0 <= i < self.entities@.len() implies #[trigger] self.rows()[i].wf() by {
                if i == slot {
                    let row = before.last();
                    assert(before[before.len() - 1].wf());
                    assert(self.rows()[i] == row.unprepared());
                    let f = row.flags.0;
                    assert((f | 64) & 64 != 0) by (bit_vector);
                } else {
                    assert(self.rows()[i] == before[i]);
                    assert(before[i].wf());
                }
            }
            assert(self.entity_to_slot@.dom() =~= old(self).entity_to_slot@.dom());
            assert forall|i: int| 0 <= i < self.entities@.len() implies
                self.entity_to_slot@.contains_key((#[trigger] self.entities@[i]).bits)
                && self.entity_to_slot@[self.entities@[i].bits] == i by {
                let e = self.entities@[i];
                if i == slot {
                    assert(e == old(self).entities@[last as int]);
                } else {
                    assert(e == old(self).entities@[i]);
                    assert(old(self).entity_to_slot@[e.bits] == i);
                    if slot != last {
                        let m = old(self).entities@[last as int];
                        assert(old(self).entity_to_slot@[m.bits] == last);
                    }
                }
            }
            assert forall|e: u64| #[trigger] self.entity_to_slot@.contains_key(e) implies
                self.entity_to_slot@[e] < self.entities@.len()
                && self.entities@[self.entity_to_slot@[e] as int].bits == e by {
                assert(old(self).entity_to_slot@.contains_key(e));
                let j = old(self).entity_to_slot@[e] as int;
                assert(old(self).entities@[j].bits == e);
                assert(j != slot);
            }
        }
    }

    /// Takes an entity's animator out; says whether there was one.
    pub fn remove(&mut self, entity: Entity) -> (r: bool)
        requires
            old(self).wf(),
        ensures
            final(self).wf(),
            final(self).fixed_point == old(self).fixed_point,
            final(self).grouped == old(self).grouped,
            r == (old(self).slot_of(entity) is Some),
            final(self).slot_of(entity) is None,
            match old(self).slot_of(entity) {
                Some(slot) => final(self).rows() == rows_without(old(self).rows(), slot as int),
                None => *final(self) == *old(self),
            },
    {
        match self.slot_index(entity) {
            Some(slot) => {
                let _slot = self.entity_to_slot.remove(&entity.bits);
                proof {
                    assert(self.rows() =~= old(self).rows());
                    assert(old(self).entities@[slot as int].bits == entity.bits);
                    assert forall|i: int| 0 <= i < self.entities@.len() && i != slot implies
                        self.entity_to_slot@.contains_key((#[trigger] self.entities@[i]).bits)
                        && self.entity_to_slot@[self.entities@[i].bits] == i by {
                        assert(old(self).entity_to_slot@[old(self).entities@[i].bits] == i);
                    }
                }
                self.swap_remove_slot(slot);
                true
            },
            None => false,
        }
    }

    /// Takes out every animator whose entity `keep` refuses.
    ///
    /// What stays is as it was, but for having to be prepared anew where its slot changed.
    pub fn retain_entities<F: Fn(Entity) -> bool>(&mut self, keep: F)
        requires
            old(self).wf(),
            forall|e: Entity| call_requires(keep, (e,)),
        ensures
            final(self).wf(),
            final(self).fixed_point == old(self).fixed_point,
            final(self).grouped == old(self).grouped,
            forall|i: int|
                0 <= i < final(self).rows().len() ==> call_ensures(
                    keep,
                    ((#[trigger] final(self).rows()[i]).entity,),
                    true,
                ),
            forall|i: int|
                0 <= i < final(self).rows().len() ==> came_from(
                    #[trigger] final(self).rows()[i],
                    old(self).rows(),
                ),
            forall|i: int|
                0 <= i < old(self).rows().len() ==> final(self).slot_of(
                    (#[trigger] old(self).rows()[i]).entity,
                ) is Some || call_ensures(keep, (old(self).rows()[i].entity,), false),
            rows_retained(keep, old(self).rows(), final(self).rows()),
    {
        let mut idx: usize = 0;
        let ghost mut answers: Seq<bool> = Seq::empty();
        let ghost start = self.rows();
        proof {
            assert forall|i: int| 0 <= i < start.len() implies came_from(
                #[trigger] self.rows()[i],
                start,
            ) by {
                assert(start[i] == self.rows()[i]);
            }
            assert forall|i: int| 0 <= i < start.len() implies self.slot_of(
                (#[trigger] start[i]).entity,
            ) is Some by {
                self.law_slots_are_exact(i, start[i].entity);
            }
        }
        while idx < self.entities.len()
            invariant
                self.wf(),
                self.fixed_point == old(self).fixed_point,
                self.grouped == old(self).grouped,
                start == old(self).rows(),
                rows_asked(start, answers) == (self.rows(), idx as int),
                forall|j: int|
                    0 <= j < answers.len() ==> call_ensures(
                        keep,
                        (row_asked_for(start, answers, j),),
                        #[trigger] answers[j],
                    ),
                idx <= self.entities@.len(),
                forall|e: Entity| call_requires(keep, (e,)),
                forall|i: int|
                    0 <= i < idx ==> call_ensures(
                        keep,
                        ((#[trigger] self.rows()[i]).entity,),
                        true,
                    ),
                forall|i: int|
                    0 <= i < self.rows().len() ==> came_from(#[trigger] self.rows()[i], start),
                forall|i: int|
                    0 <= i < start.len() ==> self.slot_of((#[trigger] start[i]).entity) is Some
                        || call_ensures(keep, (start[i].entity,), false),
            decreases self.entities@.len() - idx,
        {
            let entity = self.entities[idx];
            let ghost before = *self;
            let stays: bool = keep(entity);
            proof {
                let known = answers;
                answers = answers.push(stays);
                assert(answers.drop_last() =~= known);
                assert forall|j: int| 0 <= j < answers.len() implies call_ensures(
                    keep,
                    (row_asked_for(start, answers, j),),
                    #[trigger] answers[j],
                ) by {
                    assert(answers.take(j) =~= known.take(j));
                    if j == known.len() {
                        assert(known.take(j) =~= known);
                        assert(self.rows()[idx as int].entity == entity);
                    } else {
                        assert(answers[j] == known[j]);
                    }
                }
            }
            if stays {
                assert(self.rows()[idx as int].entity == entity);
                idx = idx + 1;
            } else {
                proof {
                    self.law_slots_are_exact(idx as int, entity);
                }
                let _gone = self.remove(entity);
                proof {
                    let slot = idx as int;
                    assert(self.rows() == rows_without(before.rows(), slot));
                    assert forall|i: int| 0 <= i < self.rows().len() implies came_from(
                        #[trigger] self.rows()[i],
                        start,
                    ) by {
                        if i == slot {
                            let row = before.rows()[before.rows().len() - 1];
                            assert(came_from(row, start));
                            let k = choose|k: int|
                                0 <= k < start.len() && (row == #[trigger] start[k] || row
                                    == start[k].unprepared());
                            let f = start[k].flags.0;
                            assert((f | 64) | 64 == f | 64) by (bit_vector);
                            assert(self.rows()[i] == start[k].unprepared());
                        } else {
                            assert(self.rows()[i] == before.rows()[i]);
                        }
                    }
                    assert forall|i: int| 0 <= i < start.len() implies self.slot_of(
                        (#[trigger] start[i]).entity,
                    ) is Some || call_ensures(keep, (start[i].entity,), false) by {
                        let e = start[i].entity;
                        if before.slot_of(e) is Some && e != entity {
                            let j = before.slot_of(e)->0 as int;
                            assert(before.entities@[j].bits == e.bits);
                            assert(before.rows()[j].entity == e);
                            let k = if j == before.rows().len() - 1 {
                                slot
                            } else {
                                j
                            };
                            assert(self.rows()[k].entity == e);
                            self.law_slots_are_exact(k, e);
                        }
                    }
                    assert forall|i: int| 0 <= i < idx implies call_ensures(
                        keep,
                        ((#[trigger] self.rows()[i]).entity,),
                        true,
                    ) by {
                        assert(self.rows()[i] == before.rows()[i]);
                    }
                }
            }
        }
        assert(all_asked(start, answers, self.rows()));
    }
}

/// Whether rows are what is left when `keep` was asked for them in turn.
pub open spec fn rows_retained<S: Scalar, F: Fn(Entity) -> bool>(
    keep: F,
    rows: Seq<AnimatorRow<S>>,
    after: Seq<AnimatorRow<S>>,
) -> bool {
    exists|answers: Seq<bool>| #[trigger]
        all_asked(rows, answers, after) && forall|j: int|
            0 <= j < answers.len() ==> call_ensures(
                keep,
                (row_asked_for(rows, answers, j),),
                #[trigger] answers[j],
            )
}

/// A row is one of `rows`, up to having to be prepared anew.
pub open spec fn came_from<S: Scalar>(row: AnimatorRow<S>, rows: Seq<AnimatorRow<S>>) -> bool {
    exists|k: int|
        0 <= k < rows.len() && (row == #[trigger] rows[k] || row == rows[k].unprepared())
}

proof fn lemma_new_flags_unprepared<S>(animation: SpriteAnimation<S>, even: bool)
    ensures
        SpriteAnimatorFlags::of_animation(animation).with(crate::sprite_slot::CONST_DT, even).has(
            crate::sprite_slot::NEEDS_PREP,
        ),
{
    crate::sprite_slot::law_flags_mirror_animation(animation);
    assert(128u16 & 64 == 0) by (bit_vector);
    crate::sprite_slot::law_flags_are_independent(
        SpriteAnimatorFlags::of_animation(animation),
        crate::sprite_slot::CONST_DT,
        crate::sprite_slot::NEEDS_PREP,
        even,
    );
}

impl<S: Scalar> AnimatorRow<S> {
    pub open spec fn place(self) -> crate::sprite_slot::AnimatorPlace<S> {
        crate::sprite_slot::AnimatorPlace { hot: self.hot, fixed: self.fixed }
    }

    pub open spec fn at_place(self, place: crate::sprite_slot::AnimatorPlace<S>) -> Self {
        AnimatorRow { hot: place.hot, fixed: place.fixed, ..self }
    }

    /// The row made ready for a step, and the step that is due: none for an animator that does not
    /// play, that stands still, or whose step is still too small to take.
    pub open spec fn readied(self, delta: S, has_group_scales: bool, time: AnimationTime<S>) -> (
        Self,
        Option<S>,
    ) {
        let zero = S::zero_spec();
        let (place, flags) = self.place().prepared(self.source, self.flags);
        let prepared = AnimatorRow { flags, ..self.at_place(place) };
        if self.source.frame_durations@.len() == 0 || !self.flags.has(
            crate::sprite_slot::PLAYING,
        ) {
            (prepared, None)
        } else {
            let (hot, flags) = crate::sprite_slot::rate_resolved(
                prepared.hot,
                self.source,
                prepared.flags,
                has_group_scales,
                time,
            );
            let rated = AnimatorRow { hot, flags, ..prepared };
            let scaled = delta.times_spec(hot.playback_rate);
            if hot.playback_rate.same_spec(zero) || scaled.same_spec(zero) {
                (rated, None)
            } else {
                let (pending, ready) = SpriteAnimation::<S>::delta_gathered(
                    hot.pending_delta,
                    scaled,
                    S::clip_epsilon_spec(),
                );
                (AnimatorRow { hot: AnimatorHot { pending_delta: pending, ..hot }, ..rated }, ready)
            }
        }
    }
}

pub open spec fn animator_recorded<S: Scalar>(recorder: AnimationRecorder<S>) -> AnimationRecorder<S> {
    if recorder.perf is Some {
        AnimationRecorder {
            perf: Some(
                recorder.perf->0.with_fast_animator(
                    crate::anim_stats::SpriteAnimStepKind::of_code(recorder.step_kind),
                ),
            ),
            ..recorder
        }
    } else {
        recorder
    }
}

/// A pass over the store: its rows, the slots that show another frame, how many animators were
/// moved, and the recorder.
pub struct SoaPass<S> {
    pub rows: Seq<AnimatorRow<S>>,
    pub updates: Seq<(Entity, usize)>,
    pub processed: int,
    pub recorder: AnimationRecorder<S>,
}

/// What a pass goes by.
pub struct PassRules<S> {
    pub delta: S,
    pub has_group_scales: bool,
    pub time: AnimationTime<S>,
    pub fixed_point: bool,
}

impl<S: Scalar> SoaPass<S> {
    pub open spec fn readied(self, rules: PassRules<S>, slot: int) -> (Self, Option<S>) {
        let (row, ready) = self.rows[slot].readied(rules.delta, rules.has_group_scales, rules.time);
        (SoaPass { rows: self.rows.update(slot, row), ..self }, ready)
    }

    /// The animator at `slot` moved by a step that is due.
    pub open spec fn stepped(self, rules: PassRules<S>, slot: int, step: S) -> Self {
        let row = self.rows[slot];
        let (place, entered, recorder) = row.place().advanced(
            row.source,
            row.flags,
            rules.fixed_point,
            step,
            self.recorder,
        );
        SoaPass {
            rows: self.rows.update(slot, row.at_place(place)),
            updates: if entered {
                self.updates.push((row.entity, slot as usize))
            } else {
                self.updates
            },
            recorder: animator_recorded(recorder),
            ..self
        }
    }

    /// One animator's part of a pass.
    pub open spec fn processed_slot(self, rules: PassRules<S>, slot: int) -> Self {
        let (ready, step) = self.readied(rules, slot);
        match step {
            Some(step) => SoaPass {
                processed: self.processed + 1,
                ..ready.stepped(rules, slot, step)
            },
            None => ready,
        }
    }

    /// The pass over the slots from `slot` on, one after the other.
    pub open spec fn processed_from(self, rules: PassRules<S>, slot: int) -> Self
        decreases self.rows.len() - slot,
    {
        if slot < 0 || slot >= self.rows.len() {
            self
        } else {
            self.processed_slot(rules, slot).processed_from(rules, slot + 1)
        }
    }
}

/// Every slot that shows another frame is in the store and prepared.
pub open spec fn updates_ok<S: Scalar>(
    rows: Seq<AnimatorRow<S>>,
    updates: Seq<(Entity, usize)>,
) -> bool {
    forall|k: int|
        0 <= k < updates.len() ==> (#[trigger] updates[k]).1 < rows.len() && !rows[updates[k].1 as int].flags.has(
            crate::sprite_slot::NEEDS_PREP,
        ) && rows[updates[k].1 as int].source.frame_durations@.len() > 0
}

/// Preparing and rating an animator that plays leaves it prepared.
proof fn lemma_readied_is_prepared<S: Scalar>(
    row: AnimatorRow<S>,
    delta: S,
    has_group_scales: bool,
    time: AnimationTime<S>,
)
    requires
        row.wf(),
    ensures
        ({
            let (after, step) = row.readied(delta, has_group_scales, time);
            &&& after.wf()
            &&& after.source == row.source
            &&& after.entity == row.entity
            &&& !row.flags.has(crate::sprite_slot::NEEDS_PREP) && row.source.frame_durations@.len()
                > 0 ==> !after.flags.has(crate::sprite_slot::NEEDS_PREP)
            &&& step is Some ==> {
                &&& !after.flags.has(crate::sprite_slot::NEEDS_PREP)
                &&& after.source.frame_durations@.len() > 0
                &&& after.hot.frame_index < after.source.frame_durations@.len()
            }
        }),
{
    let f = row.flags;
    assert(64u16 & 1 == 0 && 32u16 & 64 == 0) by (bit_vector);
    crate::sprite_slot::law_flags_are_independent(
        f,
        crate::sprite_slot::NEEDS_PREP,
        crate::sprite_slot::PLAYING,
        true,
    );
    crate::sprite_slot::law_flags_are_independent(
        f,
        crate::sprite_slot::NEEDS_PREP,
        crate::sprite_slot::PLAYING,
        false,
    );
    let (place, flags) = row.place().prepared(row.source, f);
    crate::sprite_slot::law_flags_are_independent(
        flags,
        crate::sprite_slot::PLAYBACK_DIRTY,
        crate::sprite_slot::NEEDS_PREP,
        false,
    );
}

impl<S: Scalar> SpriteAnimatorSoa<S> {
    /// Only the numbers and flags of one slot have changed.
    pub open spec fn only_slot_changed(self, before: Self, slot: int, row: AnimatorRow<S>) -> bool {
        &&& self.rows() == before.rows().update(slot, row)
        &&& self.entity_to_slot == before.entity_to_slot
        &&& self.fixed_point == before.fixed_point
        &&& self.grouped == before.grouped
    }

    proof fn lemma_wf_after_slot(self, before: Self, slot: int, row: AnimatorRow<S>)
        requires
            before.wf(),
            0 <= slot < before.rows().len(),
            self.columns_match(),
            self.entities@ == before.entities@,
            self.entity_to_slot == before.entity_to_slot,
            self.rows() == before.rows().update(slot, row),
            row.wf(),
        ensures
            self.wf(),
    {
        assert forall|i: int| 0 <= i < self.entities@.len() implies #[trigger] self.rows()[i].wf() by {
            if i != slot {
                assert(self.rows()[i] == before.rows()[i]);
            }
        }
    }

    fn ready_slot(
        &mut self,
        slot: usize,
        delta: S,
        has_group_scales: bool,
        time: &AnimationTime<S>,
    ) -> (step: Option<S>)
        requires
            old(self).wf(),
            time.wf(),
            slot < old(self).rows().len(),
        ensures
            final(self).wf(),
            ({
                let (row, ready) = old(self).rows()[slot as int].readied(
                    delta,
                    has_group_scales,
                    *time,
                );
                step == ready && final(self).only_slot_changed(*old(self), slot as int, row)
            }),
            step is Some ==> !final(self).rows()[slot as int].flags.has(
                crate::sprite_slot::NEEDS_PREP,
            ) && final(self).rows()[slot as int].source.frame_durations@.len() > 0,
            forall|updates: Seq<(Entity, usize)>|
                #![trigger updates_ok(old(self).rows(), updates)]
                updates_ok(old(self).rows(), updates) ==> updates_ok(final(self).rows(), updates),
    {
        let ghost before = *self;
        let ghost old_row = self.rows()[slot as int];
        assert(old_row.wf());
        proof {
            lemma_readied_is_prepared(old_row, delta, has_group_scales, *time);
        }
        let ghost goal = old_row.readied(delta, has_group_scales, *time);
        let mut step: Option<S> = None;
        if prepare_animation_slot(
            &mut self.hot[slot],
            &mut self.fixed[slot],
            &self.source[slot],
            &mut self.flags[slot],
        ) {
            let rate = resolve_playback_rate_slot(
                &mut self.hot[slot],
                &self.source[slot],
                &mut self.flags[slot],
                has_group_scales,
                time,
            );
            if let Some(rate) = rate {
                let scaled = delta.times(rate);
                if !scaled.same(S::zero()) {
                    step = accumulate_delta_slot(&mut self.hot[slot], scaled, S::clip_epsilon());
                }
            }
        }
        proof {
            assert(self.entities@ == before.entities@);
            assert(self.row(slot as int) == goal.0);
            assert(self.rows() =~= before.rows().update(slot as int, goal.0));
            self.lemma_wf_after_slot(before, slot as int, goal.0);
        }
        step
    }

    fn step_slot(
        &mut self,
        slot: usize,
        step: S,
        state_updates: &mut Vec<(Entity, usize)>,
        recorder: &mut AnimationRecorder<S>,
        Ghost(rules): Ghost<PassRules<S>>,
    )
        requires
            old(self).wf(),
            slot < old(self).rows().len(),
            !old(self).rows()[slot as int].flags.has(crate::sprite_slot::NEEDS_PREP),
            rules.fixed_point == old(self).fixed_point,
        ensures
            final(self).wf(),
            ({
                let before = SoaPass {
                    rows: old(self).rows(),
                    updates: old(state_updates)@,
                    processed: 0,
                    recorder: *old(recorder),
                };
                let after = before.stepped(rules, slot as int, step);
                &&& final(self).rows() == after.rows
                &&& final(state_updates)@ == after.updates
                &&& *final(recorder) == after.recorder
            }),
            final(self).entity_to_slot == old(self).entity_to_slot,
            final(self).fixed_point == old(self).fixed_point,
            final(self).grouped == old(self).grouped,
            final(self).rows()[slot as int].flags == old(self).rows()[slot as int].flags,
            old(self).rows()[slot as int].source.frame_durations@.len() > 0 && updates_ok(
                old(self).rows(),
                old(state_updates)@,
            ) ==> updates_ok(final(self).rows(), final(state_updates)@),
    {
        let ghost before = *self;
        let ghost row = self.rows()[slot as int];
        assert(row.wf());
        let entered: bool = advance_animation_fast_loop_slot(
            &mut self.hot[slot],
            &mut self.fixed[slot],
            &self.source[slot],
            self.flags[slot],
            self.fixed_point,
            step,
            recorder,
        );
        proof {
            let next = self.row(slot as int);
            assert(self.rows() =~= before.rows().update(slot as int, next));
            self.lemma_wf_after_slot(before, slot as int, next);
        }
        if entered {
            state_updates.push((self.entities[slot], slot));
        }
        perf_record_fast_animator(recorder);
    }

    /// One animator's part of a pass; says whether it was moved.
    pub fn process_fast_slot(
        &mut self,
        slot: usize,
        delta: S,
        has_group_scales: bool,
        time: &AnimationTime<S>,
        state_updates: &mut Vec<(Entity, usize)>,
        recorder: &mut AnimationRecorder<S>,
    ) -> (handled: bool)
        requires
            old(self).wf(),
            time.wf(),
            slot < old(self).rows().len(),
        ensures
            final(self).wf(),
            ({
                let rules = PassRules {
                    delta,
                    has_group_scales,
                    time: *time,
                    fixed_point: old(self).fixed_point,
                };
                let before = SoaPass {
                    rows: old(self).rows(),
                    updates: old(state_updates)@,
                    processed: 0,
                    recorder: *old(recorder),
                };
                let after = before.processed_slot(rules, slot as int);
                &&& final(self).rows() == after.rows
                &&& final(state_updates)@ == after.updates
                &&& handled == (after.processed == 1)
                &&& *final(recorder) == after.recorder
            }),
            final(self).entity_to_slot == old(self).entity_to_slot,
            updates_ok(old(self).rows(), old(state_updates)@) ==> updates_ok(
                final(self).rows(),
                final(state_updates)@,
            ),
            final(self).fixed_point == old(self).fixed_point,
            final(self).grouped == old(self).grouped,
    {
        let ghost rules = PassRules {
            delta,
            has_group_scales,
            time: *time,
            fixed_point: self.fixed_point,
        };
        match self.ready_slot(slot, delta, has_group_scales, time) {
            Some(step) => {
                self.step_slot(slot, step, state_updates, recorder, Ghost(rules));
                true
            },
            None => false,
        }
    }

    fn process_all_slots(
        &mut self,
        delta: S,
        has_group_scales: bool,
        time: &AnimationTime<S>,
        state_updates: &mut Vec<(Entity, usize)>,
        recorder: &mut AnimationRecorder<S>,
    ) -> (processed: u64)
        requires
            old(self).wf(),
            time.wf(),
        ensures
            final(self).wf(),
            ({
                let rules = PassRules {
                    delta,
                    has_group_scales,
                    time: *time,
                    fixed_point: old(self).fixed_point,
                };
                let after = (SoaPass {
                    rows: old(self).rows(),
                    updates: old(state_updates)@,
                    processed: 0,
                    recorder: *old(recorder),
                }).processed_from(rules, 0);
                &&& final(self).rows() == after.rows
                &&& final(state_updates)@ == after.updates
                &&& processed == after.processed
                &&& *final(recorder) == after.recorder
            }),
            final(self).rows().len() == old(self).rows().len(),
            final(self).entity_to_slot == old(self).entity_to_slot,
            updates_ok(old(self).rows(), old(state_updates)@) ==> updates_ok(
                final(self).rows(),
                final(state_updates)@,
            ),
            final(self).fixed_point == old(self).fixed_point,
            final(self).grouped == old(self).grouped,
    {
        let ghost rules = PassRules {
            delta,
            has_group_scales,
            time: *time,
            fixed_point: self.fixed_point,
        };
        let ghost goal = (SoaPass {
            rows: self.rows(),
            updates: state_updates@,
            processed: 0,
            recorder: *recorder,
        }).processed_from(rules, 0);
        let n: usize = self.entities.len();
        let mut processed: u64 = 0;
        let mut slot: usize = 0;
        while slot < n
            invariant
                self.wf(),
                time.wf(),
                n == self.rows().len(),
                n == old(self).rows().len(),
                n <= u32::MAX,
                slot <= n,
                processed <= slot,
                rules == (PassRules {
                    delta,
                    has_group_scales,
                    time: *time,
                    fixed_point: self.fixed_point,
                }),
                self.entity_to_slot == old(self).entity_to_slot,
                updates_ok(old(self).rows(), old(state_updates)@) ==> updates_ok(
                    self.rows(),
                    state_updates@,
                ),
                self.fixed_point == old(self).fixed_point,
                self.grouped == old(self).grouped,
                goal == (SoaPass {
                    rows: self.rows(),
                    updates: state_updates@,
                    processed: processed as int,
                    recorder: *recorder,
                }).processed_from(rules, slot as int),
            decreases n - slot,
        {
            let ghost here = SoaPass {
                rows: self.rows(),
                updates: state_updates@,
                processed: processed as int,
                recorder: *recorder,
            };
            let handled: bool = self.process_fast_slot(
                slot,
                delta,
                has_group_scales,
                time,
                state_updates,
                recorder,
            );
            proof {
                assert(here.processed_slot(rules, slot as int).rows.len() == here.rows.len());
            }
            if handled {
                processed = processed + 1;
            }
            slot = slot + 1;
        }
        processed
    }
}

/// How many animators with even frames are moved together.
pub const GROUP_WIDTH: usize = 8;

impl<S: Scalar> SoaPass<S> {
    /// An animator with even frames moved by a step that is due.
    pub open spec fn even_stepped(self, slot: int, step: S) -> Self {
        let row = self.rows[slot];
        SoaPass {
            rows: self.rows.update(slot, row.at_place(row.place().even_advanced(row.source, step))),
            updates: if row.place().even_steps(row.source, step) > 0 {
                self.updates.push((row.entity, slot as usize))
            } else {
                self.updates
            },
            recorder: animator_recorded(self.recorder),
            ..self
        }
    }

    /// A full group moved, in the order in which it gathered.
    pub open spec fn group_moved(self, group: Seq<(usize, S)>, from: int) -> Self
        decreases group.len() - from,
    {
        if from < 0 || from >= group.len() {
            self
        } else {
            self.even_stepped(group[from].0 as int, group[from].1).group_moved(group, from + 1)
        }
    }

    /// What is left over from full groups, moved one by one.
    pub open spec fn rest_moved(self, rules: PassRules<S>, rest: Seq<(usize, S)>, from: int) -> Self
        decreases rest.len() - from,
    {
        if from < 0 || from >= rest.len() {
            self
        } else {
            self.stepped(rules, rest[from].0 as int, rest[from].1).rest_moved(rules, rest, from + 1)
        }
    }

    /// The pass over the slots from `slot` on that gathers animators with even frames into groups:
    /// the pass, how many were moved in full groups, and how many were left over.
    pub open spec fn grouped_from(
        self,
        rules: PassRules<S>,
        slot: int,
        gathered: Seq<(usize, S)>,
        lanes: int,
    ) -> (Self, int, int)
        decreases self.rows.len() - slot,
    {
        if slot < 0 || slot >= self.rows.len() {
            (self.rest_moved(rules, gathered, 0), lanes, gathered.len() as int)
        } else {
            let (ready, step) = self.readied(rules, slot);
            match step {
                None => ready.grouped_from(rules, slot + 1, gathered, lanes),
                Some(step) => {
                    let counted = SoaPass { processed: ready.processed + 1, ..ready };
                    if ready.rows[slot].flags.has(crate::sprite_slot::CONST_DT)
                        && S::zero_spec().lt_spec(step) {
                        let group = gathered.push((slot as usize, step));
                        if group.len() == GROUP_WIDTH {
                            let moved = counted.group_moved(group, 0);
                            if moved.rows.len() == self.rows.len() {
                                moved.grouped_from(
                                    rules,
                                    slot + 1,
                                    Seq::empty(),
                                    lanes + GROUP_WIDTH,
                                )
                            } else {
                                (moved, lanes, 0)
                            }
                        } else {
                            counted.grouped_from(rules, slot + 1, group, lanes)
                        }
                    } else {
                        counted.stepped(rules, slot, step).grouped_from(
                            rules,
                            slot + 1,
                            gathered,
                            lanes,
                        )
                    }
                },
            }
        }
    }
}

proof fn lemma_group_keeps_len<S: Scalar>(pass: SoaPass<S>, group: Seq<(usize, S)>, from: int)
    requires
        forall|k: int| 0 <= k < group.len() ==> (#[trigger] group[k]).0 < pass.rows.len(),
    ensures
        pass.group_moved(group, from).rows.len() == pass.rows.len(),
        pass.group_moved(group, from).processed == pass.processed,
    decreases group.len() - from,
{
    if 0 <= from < group.len() {
        lemma_group_keeps_len(
            pass.even_stepped(group[from].0 as int, group[from].1),
            group,
            from + 1,
        );
    }
}

/// How long full groups took, and what was left over from them, in nanoseconds.
#[derive(Clone, Copy, Debug, PartialEq, Eq, Structural)]
pub struct GroupLaps {
    pub chunk_ns: u64,
    pub scalar_ns: u64,
}

impl GroupLaps {
    pub open spec fn none() -> Self {
        GroupLaps { chunk_ns: 0, scalar_ns: 0 }
    }

    /// The clock measured so many groups, and so many animators that were left over.
    pub open spec fn measured<K: Fn() -> u64>(self, clock: K, counts: (nat, nat)) -> bool {
        &&& total_of_spans(clock, self.chunk_ns, counts.0)
        &&& total_of_spans(clock, self.scalar_ns, counts.1)
    }

    /// The sample of the running frame with the times added.
    pub open spec fn recorded<S>(self, recorder: AnimationRecorder<S>) -> AnimationRecorder<S> {
        if recorder.perf is Some {
            let s = recorder.perf->0;
            AnimationRecorder {
                perf: Some(
                    crate::anim_stats::SpriteAnimPerfSample {
                        simd_chunk_time_ns: held_sum_u64(s.simd_chunk_time_ns, self.chunk_ns),
                        simd_scalar_time_ns: held_sum_u64(s.simd_scalar_time_ns, self.scalar_ns),
                        ..s
                    },
                ),
                ..recorder
            }
        } else {
            recorder
        }
    }

    fn record<S: Copy>(self, recorder: &mut AnimationRecorder<S>)
        ensures
            *final(recorder) == self.recorded(*old(recorder)),
    {
        perf_record_simd_chunk_time(recorder, self.chunk_ns);
        perf_record_simd_scalar_time(recorder, self.scalar_ns);
    }
}

/// How a grouped pass came out.
#[derive(Clone, Copy, Debug, PartialEq, Eq, Structural)]
pub struct SimdMixStats {
    pub processed: u64,
    pub lanes8: u32,
    pub tail_scalar: u32,
    pub laps: GroupLaps,
}

/// Every gathered slot is in the store, below `bound`, and prepared.
pub open spec fn gathered_ok<S: Scalar>(
    rows: Seq<AnimatorRow<S>>,
    gathered: Seq<(usize, S)>,
    bound: int,
) -> bool {
    forall|k: int|
        0 <= k < gathered.len() ==> (#[trigger] gathered[k]).0 < bound && gathered[k].0
            < rows.len() && !rows[gathered[k].0 as int].flags.has(crate::sprite_slot::NEEDS_PREP)
            && rows[gathered[k].0 as int].source.frame_durations@.len() > 0
}

impl<S: Scalar> SpriteAnimatorSoa<S> {
    /// Moves a group of animators with even frames.
    fn move_group(
        &mut self,
        group: &Vec<(usize, S)>,
        state_updates: &mut Vec<(Entity, usize)>,
        recorder: &mut AnimationRecorder<S>,
    )
        requires
            old(self).wf(),
            gathered_ok(old(self).rows(), group@, old(self).rows().len() as int),
        ensures
            final(self).wf(),
            ({
                let after = (SoaPass {
                    rows: old(self).rows(),
                    updates: old(state_updates)@,
                    processed: 0,
                    recorder: *old(recorder),
                }).group_moved(group@, 0);
                &&& final(self).rows() == after.rows
                &&& final(state_updates)@ == after.updates
                &&& *final(recorder) == after.recorder
            }),
            final(self).rows().len() == old(self).rows().len(),
            final(self).entity_to_slot == old(self).entity_to_slot,
            updates_ok(old(self).rows(), old(state_updates)@) ==> updates_ok(
                final(self).rows(),
                final(state_updates)@,
            ),
            final(self).fixed_point == old(self).fixed_point,
            final(self).grouped == old(self).grouped,
    {
        let ghost goal = (SoaPass {
            rows: self.rows(),
            updates: state_updates@,
            processed: 0,
            recorder: *recorder,
        }).group_moved(group@, 0);
        let mut k: usize = 0;
        while k < group.len()
            invariant
                self.wf(),
                k <= group@.len(),
                self.rows().len() == old(self).rows().len(),
                self.entity_to_slot == old(self).entity_to_slot,
                updates_ok(old(self).rows(), old(state_updates)@) ==> updates_ok(
                    self.rows(),
                    state_updates@,
                ),
                self.fixed_point == old(self).fixed_point,
                self.grouped == old(self).grouped,
                gathered_ok(self.rows(), group@, self.rows().len() as int),
                goal == (SoaPass {
                    rows: self.rows(),
                    updates: state_updates@,
                    processed: 0,
                    recorder: *recorder,
                }).group_moved(group@, k as int),
            decreases group@.len() - k,
        {
            let (slot, step) = group[k];
            let ghost before = *self;
            assert(group@[k as int].0 == slot);
            let ghost row = self.rows()[slot as int];
            assert(row.wf());
            let crossed: bool = advance_const_dt_slot(
                &mut self.hot[slot],
                &mut self.fixed[slot],
                &self.source[slot],
                step,
            );
            proof {
                let next = self.row(slot as int);
                assert(self.rows() =~= before.rows().update(slot as int, next));
                self.lemma_wf_after_slot(before, slot as int, next);
                assert forall|j: int| 0 <= j < group@.len() implies (#[trigger] group@[j]).0
                    < self.rows().len() && !self.rows()[group@[j].0 as int].flags.has(
                    crate::sprite_slot::NEEDS_PREP,
                ) && self.rows()[group@[j].0 as int].source.frame_durations@.len() > 0 by {
                    assert(before.rows()[group@[j].0 as int].source.frame_durations@.len() > 0);
                }
            }
            if crossed {
                state_updates.push((self.entities[slot], slot));
            }
            perf_record_fast_animator(recorder);
            k = k + 1;
        }
    }

    /// Moves what is left over from full groups, and says how long it took.
    fn move_rest<K: Fn() -> u64 + Copy>(
        &mut self,
        rest: &Vec<(usize, S)>,
        state_updates: &mut Vec<(Entity, usize)>,
        recorder: &mut AnimationRecorder<S>,
        clock: K,
        Ghost(rules): Ghost<PassRules<S>>,
    ) -> (scalar_ns: u64)
        requires
            clock.requires(()),
            old(self).wf(),
            gathered_ok(old(self).rows(), rest@, old(self).rows().len() as int),
            rules.fixed_point == old(self).fixed_point,
        ensures
            total_of_spans(clock, scalar_ns, rest@.len()),
            final(self).wf(),
            ({
                let after = (SoaPass {
                    rows: old(self).rows(),
                    updates: old(state_updates)@,
                    processed: 0,
                    recorder: *old(recorder),
                }).rest_moved(rules, rest@, 0);
                &&& final(self).rows() == after.rows
                &&& final(state_updates)@ == after.updates
                &&& *final(recorder) == after.recorder
            }),
            final(self).rows().len() == old(self).rows().len(),
            final(self).entity_to_slot == old(self).entity_to_slot,
            updates_ok(old(self).rows(), old(state_updates)@) ==> updates_ok(
                final(self).rows(),
                final(state_updates)@,
            ),
            final(self).fixed_point == old(self).fixed_point,
            final(self).grouped == old(self).grouped,
    {
        let ghost goal = (SoaPass {
            rows: self.rows(),
            updates: state_updates@,
            processed: 0,
            recorder: *recorder,
        }).rest_moved(rules, rest@, 0);
        let mut scalar_ns: u64 = 0;
        proof {
            crate::stopwatch::law_no_spans_take_no_time(clock);
        }
        let mut k: usize = 0;
        while k < rest.len()
            invariant
                clock.requires(()),
                total_of_spans(clock, scalar_ns, k as nat),
                self.wf(),
                k <= rest@.len(),
                rules.fixed_point == self.fixed_point,
                self.rows().len() == old(self).rows().len(),
                self.entity_to_slot == old(self).entity_to_slot,
                updates_ok(old(self).rows(), old(state_updates)@) ==> updates_ok(
                    self.rows(),
                    state_updates@,
                ),
                self.fixed_point == old(self).fixed_point,
                self.grouped == old(self).grouped,
                gathered_ok(self.rows(), rest@, self.rows().len() as int),
                goal == (SoaPass {
                    rows: self.rows(),
                    updates: state_updates@,
                    processed: 0,
                    recorder: *recorder,
                }).rest_moved(rules, rest@, k as int),
            decreases rest@.len() - k,
        {
            let (slot, step) = rest[k];
            let ghost before = *self;
            assert(rest@[k as int].0 == slot);
            let start: u64 = read_clock(clock);
            self.step_slot(slot, step, state_updates, recorder, Ghost(rules));
            let span: u64 = time_since(clock, start);
            scalar_ns = add_span(clock, scalar_ns, span, Ghost(k as nat));
            proof {
                assert forall|j: int| 0 <= j < rest@.len() implies (#[trigger] rest@[j]).0
                    < self.rows().len() && !self.rows()[rest@[j].0 as int].flags.has(
                    crate::sprite_slot::NEEDS_PREP,
                ) && self.rows()[rest@[j].0 as int].source.frame_durations@.len() > 0 by {
                    assert(before.rows()[rest@[j].0 as int].source.frame_durations@.len() > 0);
                }
            }
            k = k + 1;
        }
        scalar_ns
    }
}

impl<S: Scalar> SpriteAnimatorSoa<S> {
    /// The pass that moves animators with even frames in groups.
    fn drive_fast_single_simd<K: Fn() -> u64 + Copy>(
        &mut self,
        delta: S,
        has_group_scales: bool,
        time: &AnimationTime<S>,
        state_updates: &mut Vec<(Entity, usize)>,
        recorder: &mut AnimationRecorder<S>,
        clock: K,
    ) -> (stats: SimdMixStats)
        requires
            clock.requires(()),
            old(self).wf(),
            time.wf(),
        ensures
            final(self).wf(),
            ({
                let rules = PassRules {
                    delta,
                    has_group_scales,
                    time: *time,
                    fixed_point: old(self).fixed_point,
                };
                let (after, lanes, rest) = (SoaPass {
                    rows: old(self).rows(),
                    updates: old(state_updates)@,
                    processed: 0,
                    recorder: *old(recorder),
                }).grouped_from(rules, 0, Seq::empty(), 0);
                &&& final(self).rows() == after.rows
                &&& final(state_updates)@ == after.updates
                &&& *final(recorder) == after.recorder
                &&& stats.processed == after.processed
                &&& stats.lanes8 == lanes
                &&& stats.tail_scalar == rest
                &&& stats.laps.measured(clock, ((lanes / 8) as nat, rest as nat))
            }),
            final(self).rows().len() == old(self).rows().len(),
            final(self).entity_to_slot == old(self).entity_to_slot,
            updates_ok(old(self).rows(), old(state_updates)@) ==> updates_ok(
                final(self).rows(),
                final(state_updates)@,
            ),
            final(self).fixed_point == old(self).fixed_point,
            final(self).grouped == old(self).grouped,
    {
        let ghost rules = PassRules {
            delta,
            has_group_scales,
            time: *time,
            fixed_point: self.fixed_point,
        };
        let ghost goal = (SoaPass {
            rows: self.rows(),
            updates: state_updates@,
            processed: 0,
            recorder: *recorder,
        }).grouped_from(rules, 0, Seq::empty(), 0);
        let n: usize = self.entities.len();
        let mut slot: usize = 0;
        let mut processed: u64 = 0;
        let mut lanes: u32 = 0;
        let mut chunk_ns: u64 = 0;
        proof {
            crate::stopwatch::law_no_spans_take_no_time(clock);
        }
        let mut gathered: Vec<(usize, S)> = Vec::new();
        assert(gathered@ =~= Seq::empty());
        while slot < n
            invariant
                clock.requires(()),
                total_of_spans(clock, chunk_ns, (lanes / 8) as nat),
                self.wf(),
                time.wf(),
                n == self.rows().len(),
                n == old(self).rows().len(),
                n <= u32::MAX,
                slot <= n,
                processed <= slot,
                lanes + gathered@.len() <= slot,
                gathered@.len() < GROUP_WIDTH,
                gathered_ok(self.rows(), gathered@, slot as int),
                rules == (PassRules {
                    delta,
                    has_group_scales,
                    time: *time,
                    fixed_point: self.fixed_point,
                }),
                self.entity_to_slot == old(self).entity_to_slot,
                updates_ok(old(self).rows(), old(state_updates)@) ==> updates_ok(
                    self.rows(),
                    state_updates@,
                ),
                self.fixed_point == old(self).fixed_point,
                self.grouped == old(self).grouped,
                goal == (SoaPass {
                    rows: self.rows(),
                    updates: state_updates@,
                    processed: processed as int,
                    recorder: *recorder,
                }).grouped_from(rules, slot as int, gathered@, lanes as int),
            decreases n - slot,
        {
            let ghost here = SoaPass {
                rows: self.rows(),
                updates: state_updates@,
                processed: processed as int,
                recorder: *recorder,
            };
            let ghost before = *self;
            let step = self.ready_slot(slot, delta, has_group_scales, time);
            proof {
                assert forall|j: int| 0 <= j < gathered@.len() implies (#[trigger] gathered@[j]).0
                    < slot && gathered@[j].0 < self.rows().len() && !self.rows()[gathered@[j].0 as int].flags.has(
                    crate::sprite_slot::NEEDS_PREP,
                ) && self.rows()[gathered@[j].0 as int].source.frame_durations@.len() > 0 by {
                    assert(self.rows()[gathered@[j].0 as int]
                        == before.rows()[gathered@[j].0 as int]);
                }
            }
            if let Some(step) = step {
                processed = processed + 1;
                if self.flags[slot].const_dt() && S::zero().lt(step) {
                    gathered.push((slot, step));
                    assert(gathered_ok(self.rows(), gathered@, slot + 1));
                    if gathered.len() == GROUP_WIDTH {
                        proof {
                            let counted = SoaPass {
                                rows: self.rows(),
                                updates: state_updates@,
                                processed: processed as int,
                                recorder: *recorder,
                            };
                            lemma_group_keeps_len(counted, gathered@, 0);
                            lemma_group_processed(counted, gathered@, 0, processed as int);
                        }
                        let start: u64 = read_clock(clock);
                        self.move_group(&gathered, state_updates, recorder);
                        let span: u64 = time_since(clock, start);
                        chunk_ns = add_span(clock, chunk_ns, span, Ghost((lanes / 8) as nat));
                        lanes = lanes + 8;
                        gathered = Vec::new();
                        assert(gathered@ =~= Seq::empty());
                    }
                } else {
                    let ghost mid = *self;
                    self.step_slot(slot, step, state_updates, recorder, Ghost(rules));
                    proof {
                        assert forall|j: int| 0 <= j < gathered@.len() implies (
                        #[trigger] gathered@[j]).0 < slot + 1 && gathered@[j].0 < self.rows().len()
                            && !self.rows()[gathered@[j].0 as int].flags.has(
                            crate::sprite_slot::NEEDS_PREP,
                        ) && self.rows()[gathered@[j].0 as int].source.frame_durations@.len() > 0 by {
                            assert(self.rows()[gathered@[j].0 as int]
                                == mid.rows()[gathered@[j].0 as int]);
                        }
                    }
                }
            }
            slot = slot + 1;
        }
        let tail: u32 = gathered.len() as u32;
        proof {
            let here = SoaPass {
                rows: self.rows(),
                updates: state_updates@,
                processed: processed as int,
                recorder: *recorder,
            };
            lemma_rest_processed(here, rules, gathered@, 0, processed as int);
        }
        let scalar_ns: u64 = self.move_rest(
            &gathered,
            state_updates,
            recorder,
            clock,
            Ghost(rules),
        );
        SimdMixStats {
            processed,
            lanes8: lanes,
            tail_scalar: tail,
            laps: GroupLaps { chunk_ns, scalar_ns },
        }
    }
}

/// Moving a group does not touch the count of moved animators, whatever it is.
proof fn lemma_group_processed<S: Scalar>(
    pass: SoaPass<S>,
    group: Seq<(usize, S)>,
    from: int,
    processed: int,
)
    ensures
        pass.group_moved(group, from) == (SoaPass {
            processed: pass.processed,
            ..(SoaPass { processed: 0, ..pass }).group_moved(group, from)
        }),
    decreases group.len() - from,
{
    if 0 <= from < group.len() {
        let zero = SoaPass { processed: 0, ..pass };
        let (slot, step) = (group[from].0 as int, group[from].1);
        lemma_group_processed(pass.even_stepped(slot, step), group, from + 1, processed);
        lemma_group_processed(zero.even_stepped(slot, step), group, from + 1, processed);
        assert((SoaPass { processed: 0, ..pass.even_stepped(slot, step) }) == zero.even_stepped(
            slot,
            step,
        ));
    }
}

proof fn lemma_rest_processed<S: Scalar>(
    pass: SoaPass<S>,
    rules: PassRules<S>,
    rest: Seq<(usize, S)>,
    from: int,
    processed: int,
)
    ensures
        pass.rest_moved(rules, rest, from) == (SoaPass {
            processed: pass.processed,
            ..(SoaPass { processed: 0, ..pass }).rest_moved(rules, rest, from)
        }),
    decreases rest.len() - from,
{
    if 0 <= from < rest.len() {
        let zero = SoaPass { processed: 0, ..pass };
        let (slot, step) = (rest[from].0 as int, rest[from].1);
        lemma_rest_processed(pass.stepped(rules, slot, step), rules, rest, from + 1, processed);
        lemma_rest_processed(zero.stepped(rules, slot, step), rules, rest, from + 1, processed);
        assert((SoaPass { processed: 0, ..pass.stepped(rules, slot, step) }) == zero.stepped(
            rules,
            slot,
            step,
        ));
    }
}

pub open spec fn bucket_frame_recorded<S>(recorder: AnimationRecorder<S>) -> AnimationRecorder<S> {
    if recorder.perf is Some {
        let s = recorder.perf->0;
        AnimationRecorder {
            perf: Some(
                crate::anim_stats::SpriteAnimPerfSample {
                    fast_bucket_frames: crate::counts::held_sum(s.fast_bucket_frames, 1),
                    ..s
                },
            ),
            ..recorder
        }
    } else {
        recorder
    }
}

pub open spec fn mix_recorded<S>(recorder: AnimationRecorder<S>, lanes8: int, tail: int) -> AnimationRecorder<
    S,
> {
    if recorder.perf is Some && !(lanes8 == 0 && tail == 0) {
        let s = recorder.perf->0;
        AnimationRecorder {
            perf: Some(
                crate::anim_stats::SpriteAnimPerfSample {
                    simd_lanes_8: crate::counts::held_sum(s.simd_lanes_8, lanes8 as u32),
                    simd_lanes_4: crate::counts::held_sum(s.simd_lanes_4, 0),
                    simd_tail_scalar: crate::counts::held_sum(s.simd_tail_scalar, tail as u32),
                    ..s
                },
            ),
            ..recorder
        }
    } else {
        recorder
    }
}

impl<S: Scalar> SoaPass<S> {
    /// The pass before the first slot.
    pub open spec fn begun(self, record_frame: bool) -> Self {
        SoaPass {
            processed: 0,
            recorder: if record_frame {
                bucket_frame_recorded(self.recorder)
            } else {
                self.recorder
            },
            ..self
        }
    }

    pub open spec fn goes_in_groups(self, rules: PassRules<S>, grouped: bool) -> bool {
        grouped && S::zero_spec().lt_spec(rules.delta) && self.rows.len() >= GROUP_WIDTH
    }

    /// How many full groups a pass moves, and how many animators are left over from them.
    pub open spec fn laps(self, rules: PassRules<S>, grouped: bool, record_frame: bool) -> (nat, nat) {
        if self.goes_in_groups(rules, grouped) && !rules.delta.same_spec(S::zero_spec()) {
            let (_, lanes, rest) = self.begun(record_frame).grouped_from(
                rules,
                0,
                Seq::empty(),
                0,
            );
            ((lanes / 8) as nat, rest as nat)
        } else {
            (0, 0)
        }
    }

    /// The same over `steps` passes.
    pub open spec fn laps_in_steps(self, rules: PassRules<S>, grouped: bool, steps: nat) -> (nat, nat)
        decreases steps,
    {
        if steps == 0 {
            (0, 0)
        } else {
            let first = (SoaPass { processed: 0, ..self }).laps(rules, grouped, false);
            let after = (SoaPass { processed: 0, ..self }).driven(rules, grouped, false);
            let later = (SoaPass { processed: 0, ..after }).laps_in_steps(
                rules,
                grouped,
                (steps - 1) as nat,
            );
            (first.0 + later.0, first.1 + later.1)
        }
    }

    /// One pass over the whole store: in groups when it may and is worth it, else slot by slot.
    pub open spec fn driven(self, rules: PassRules<S>, grouped: bool, record_frame: bool) -> Self {
        if rules.delta.same_spec(S::zero_spec()) || self.rows.len() == 0 {
            self
        } else {
            let counted = self.begun(record_frame);
            if self.goes_in_groups(rules, grouped) {
                let (after, lanes, rest) = counted.grouped_from(rules, 0, Seq::empty(), 0);
                SoaPass { recorder: mix_recorded(after.recorder, lanes, rest), ..after }
            } else {
                counted.processed_from(rules, 0)
            }
        }
    }

    /// `steps` passes one after the other; the moved animators are counted over all of them.
    pub open spec fn driven_steps(self, rules: PassRules<S>, grouped: bool, steps: nat) -> Self
        decreases steps,
    {
        if steps == 0 {
            self
        } else {
            let once = (SoaPass { processed: 0, ..self }).driven(rules, grouped, false);
            (SoaPass {
                processed: if self.processed + once.processed > u64::MAX {
                    u64::MAX as int
                } else {
                    self.processed + once.processed
                },
                ..once
            }).driven_steps(rules, grouped, (steps - 1) as nat)
        }
    }
}

pub open spec fn bucket_sampled<S>(recorder: AnimationRecorder<S>, count: u64) -> AnimationRecorder<S> {
    let sprite = recorder.sprite;
    AnimationRecorder {
        sprite: crate::anim_stats::SpriteAnimationStats {
            fast_bucket_entities: crate::counts::wrapping_sum(sprite.fast_bucket_entities, count),
            fast_bucket_frames: crate::counts::wrapping_sum(sprite.fast_bucket_frames, 1),
            ..sprite
        },
        ..recorder
    }
}

impl<S: Scalar> SpriteAnimatorSoa<S> {
    pub fn drive_fast_single_soa_pass<K: Fn() -> u64 + Copy>(
        &mut self,
        delta: S,
        has_group_scales: bool,
        time: &AnimationTime<S>,
        state_updates: &mut Vec<(Entity, usize)>,
        record_bucket_frame: bool,
        recorder: &mut AnimationRecorder<S>,
        clock: K,
    ) -> (r: (u64, GroupLaps))
        requires
            clock.requires(()),
            old(self).wf(),
            time.wf(),
        ensures
            final(self).wf(),
            ({
                let rules = PassRules {
                    delta,
                    has_group_scales,
                    time: *time,
                    fixed_point: old(self).fixed_point,
                };
                let start = SoaPass {
                    rows: old(self).rows(),
                    updates: old(state_updates)@,
                    processed: 0,
                    recorder: *old(recorder),
                };
                let after = start.driven(rules, old(self).grouped, record_bucket_frame);
                &&& final(self).rows() == after.rows
                &&& final(state_updates)@ == after.updates
                &&& r.0 == after.processed
                &&& *final(recorder) == after.recorder
                &&& r.1.measured(
                    clock,
                    start.laps(rules, old(self).grouped, record_bucket_frame),
                )
            }),
            final(self).rows().len() == old(self).rows().len(),
            updates_ok(old(self).rows(), old(state_updates)@) ==> updates_ok(
                final(self).rows(),
                final(state_updates)@,
            ),
            final(self).fixed_point == old(self).fixed_point,
            final(self).grouped == old(self).grouped,
    {
        proof {
            crate::stopwatch::law_no_spans_take_no_time(clock);
        }
        let none = GroupLaps { chunk_ns: 0, scalar_ns: 0 };
        if delta.same(S::zero()) || self.is_empty() {
            return (0, none);
        }
        if record_bucket_frame {
            perf_record_fast_bucket_frame(recorder);
        }
        if self.grouped && S::zero().lt(delta) && self.len() >= GROUP_WIDTH {
            let stats = self.drive_fast_single_simd(
                delta,
                has_group_scales,
                time,
                state_updates,
                recorder,
                clock,
            );
            perf_record_simd_mix(recorder, stats.lanes8, 0, stats.tail_scalar);
            return (stats.processed, stats.laps);
        }
        let processed: u64 = self.process_all_slots(
            delta,
            has_group_scales,
            time,
            state_updates,
            recorder,
        );
        (processed, none)
    }

    /// One pass of any length, counted as a frame of the fast animators: how long its groups took
    /// by a clock that counts nanoseconds.
    pub fn drive_fast_single_soa<K: Fn() -> u64 + Copy>(
        &mut self,
        delta: S,
        has_group_scales: bool,
        time: &AnimationTime<S>,
        state_updates: &mut Vec<(Entity, usize)>,
        recorder: &mut AnimationRecorder<S>,
        clock: K,
    ) -> (laps: GroupLaps)
        requires
            clock.requires(()),
            old(self).wf(),
            time.wf(),
        ensures
            final(self).wf(),
            ({
                let rules = PassRules {
                    delta,
                    has_group_scales,
                    time: *time,
                    fixed_point: old(self).fixed_point,
                };
                let start = SoaPass {
                    rows: old(self).rows(),
                    updates: old(state_updates)@,
                    processed: 0,
                    recorder: *old(recorder),
                };
                let after = start.driven(rules, old(self).grouped, true);
                &&& final(self).rows() == after.rows
                &&& final(state_updates)@ == after.updates
                &&& laps.measured(clock, start.laps(rules, old(self).grouped, true))
                &&& *final(recorder) == laps.recorded(
                    bucket_sampled(after.recorder, after.processed as u64),
                )
            }),
            updates_ok(old(self).rows(), old(state_updates)@) ==> updates_ok(
                final(self).rows(),
                final(state_updates)@,
            ),
            final(self).fixed_point == old(self).fixed_point,
            final(self).grouped == old(self).grouped,
    {
        let (processed, laps) = self.drive_fast_single_soa_pass(
            delta,
            has_group_scales,
            time,
            state_updates,
            true,
            recorder,
            clock,
        );
        record_fast_bucket_sample(recorder, processed);
        laps.record(recorder);
        laps
    }

    /// Several passes of the same length, counted as one frame of the fast animators.
    pub fn drive_fast_fixed_soa<K: Fn() -> u64 + Copy>(
        &mut self,
        step: S,
        steps: u32,
        has_group_scales: bool,
        time: &AnimationTime<S>,
        state_updates: &mut Vec<(Entity, usize)>,
        recorder: &mut AnimationRecorder<S>,
        clock: K,
    ) -> (laps: GroupLaps)
        requires
            clock.requires(()),
            old(self).wf(),
            time.wf(),
        ensures
            final(self).wf(),
            ({
                let rules = PassRules {
                    delta: step,
                    has_group_scales,
                    time: *time,
                    fixed_point: old(self).fixed_point,
                };
                let start = SoaPass {
                    rows: old(self).rows(),
                    updates: old(state_updates)@,
                    processed: 0,
                    recorder: *old(recorder),
                };
                if step.same_spec(S::zero_spec()) || steps == 0 || start.rows.len() == 0 {
                    &&& final(self).rows() == start.rows
                    &&& final(state_updates)@ == start.updates
                    &&& *final(recorder) == start.recorder
                    &&& laps == GroupLaps::none()
                } else {
                    let begun = start.begun(true);
                    let after = begun.driven_steps(rules, old(self).grouped, steps as nat);
                    &&& final(self).rows() == after.rows
                    &&& final(state_updates)@ == after.updates
                    &&& laps.measured(
                        clock,
                        begun.laps_in_steps(rules, old(self).grouped, steps as nat),
                    )
                    &&& *final(recorder) == laps.recorded(
                        bucket_sampled(after.recorder, after.processed as u64),
                    )
                }
            }),
            updates_ok(old(self).rows(), old(state_updates)@) ==> updates_ok(
                final(self).rows(),
                final(state_updates)@,
            ),
            final(self).fixed_point == old(self).fixed_point,
            final(self).grouped == old(self).grouped,
    {
        let mut laps = GroupLaps { chunk_ns: 0, scalar_ns: 0 };
        if step.same(S::zero()) || steps == 0 || self.is_empty() {
            return laps;
        }
        perf_record_fast_bucket_frame(recorder);
        let ghost rules = PassRules {
            delta: step,
            has_group_scales,
            time: *time,
            fixed_point: self.fixed_point,
        };
        let ghost begun = SoaPass {
            rows: self.rows(),
            updates: state_updates@,
            processed: 0,
            recorder: *recorder,
        };
        let ghost goal = begun.driven_steps(rules, self.grouped, steps as nat);
        let ghost counts = begun.laps_in_steps(rules, self.grouped, steps as nat);
        let ghost mut run: (nat, nat) = (0, 0);
        proof {
            crate::stopwatch::law_no_spans_take_no_time(clock);
        }
        let mut total: u64 = 0;
        let mut left: u32 = steps;
        while left > 0
            invariant
                clock.requires(()),
                laps.measured(clock, run),
                ({
                    let later = (SoaPass {
                        rows: self.rows(),
                        updates: state_updates@,
                        processed: 0,
                        recorder: *recorder,
                    }).laps_in_steps(rules, self.grouped, left as nat);
                    counts == (run.0 + later.0, run.1 + later.1)
                }),
                self.wf(),
                time.wf(),
                rules == (PassRules {
                    delta: step,
                    has_group_scales,
                    time: *time,
                    fixed_point: self.fixed_point,
                }),
                updates_ok(old(self).rows(), old(state_updates)@) ==> updates_ok(
                    self.rows(),
                    state_updates@,
                ),
                self.fixed_point == old(self).fixed_point,
                self.grouped == old(self).grouped,
                goal == (SoaPass {
                    rows: self.rows(),
                    updates: state_updates@,
                    processed: total as int,
                    recorder: *recorder,
                }).driven_steps(rules, self.grouped, left as nat),
            decreases left,
        {
            let ghost here = SoaPass {
                rows: self.rows(),
                updates: state_updates@,
                processed: 0,
                recorder: *recorder,
            };
            let ghost more = here.laps(rules, self.grouped, false);
            let (processed, lap) = self.drive_fast_single_soa_pass(
                step,
                has_group_scales,
                time,
                state_updates,
                false,
                recorder,
                clock,
            );
            proof {
                crate::stopwatch::law_totals_of_spans_add_up(clock, laps.chunk_ns, run.0, lap.chunk_ns, more.0);
                crate::stopwatch::law_totals_of_spans_add_up(clock, laps.scalar_ns, run.1, lap.scalar_ns, more.1);
                run = (run.0 + more.0, run.1 + more.1);
            }
            laps = GroupLaps {
                chunk_ns: held_total_u64(laps.chunk_ns, lap.chunk_ns),
                scalar_ns: held_total_u64(laps.scalar_ns, lap.scalar_ns),
            };
            total = total.saturating_add(processed);
            left = left - 1;
        }
        record_fast_bucket_sample(recorder, total);
        laps.record(recorder);
        laps
    }
}

} // verus!
