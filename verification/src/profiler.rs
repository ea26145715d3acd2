//! How long systems take.
use vstd::prelude::*;
use crate::scalar::Scalar;
use crate::text_map::TextMap;

verus! {

pub struct SystemTimingSummary<S> {
    pub name: String,
    pub last_ms: S,
    pub average_ms: S,
    pub max_ms: S,
    pub samples: u64,
}

#[derive(Clone, Copy)]
pub struct SystemTiming<S> {
    pub last_ms: S,
    pub total_ms: S,
    pub max_ms: S,
    pub samples: u64,
}

pub struct SystemProfiler<S> {
    pub timings: TextMap<SystemTiming<S>>,
}

/// A timing with one more sample.
pub open spec fn with_sample<S: Scalar>(t: SystemTiming<S>, ms: S) -> SystemTiming<S> {
    SystemTiming {
        last_ms: ms,
        max_ms: t.max_ms.larger_spec(ms),
        total_ms: t.total_ms.plus_spec(ms),
        samples: crate::counts::held_sum_u64(t.samples, 1),
    }
}

pub open spec fn no_samples<S: Scalar>() -> SystemTiming<S> {
    SystemTiming {
        last_ms: S::zero_spec(),
        total_ms: S::zero_spec(),
        max_ms: S::zero_spec(),
        samples: 0,
    }
}

/// The place of the first summary that took less time, at `from` or later.
pub open spec fn place_below<S: Scalar>(list: Seq<SystemTimingSummary<S>>, ms: S, from: int) -> int
    decreases list.len() - from,
{
    if from < 0 || from >= list.len() {
        list.len() as int
    } else if list[from].last_ms.lt_spec(ms) {
        from
    } else {
        place_below(list, ms, from + 1)
    }
}

/// What is said of the `i`-th system.
pub open spec fn summary_is<S: Scalar>(
    r: SystemTimingSummary<S>,
    name: String,
    t: SystemTiming<S>,
) -> bool {
    &&& r.name == name
    &&& r.last_ms == t.last_ms
    &&& r.average_ms == (if t.samples == 0 {
        S::zero_spec()
    } else {
        t.total_ms.over_spec(S::from_count_spec(t.samples as usize))
    })
    &&& r.max_ms == t.max_ms
    &&& r.samples == t.samples
}

/// The first `n` summaries, those that took longest first; equal ones keep their order.
pub open spec fn longest_first<S: Scalar>(list: Seq<SystemTimingSummary<S>>, n: int) -> Seq<
    SystemTimingSummary<S>,
>
    decreases n,
{
    if n <= 0 {
        Seq::empty()
    } else {
        let before = longest_first(list, n - 1);
        before.insert(place_below(before, list[n - 1].last_ms, 0), list[n - 1])
    }
}

impl<S: Scalar> SystemProfiler<S> {
    pub open spec fn wf(self) -> bool {
        self.timings.wf()
    }

    pub fn new() -> (r: Self)
        ensures
            r.wf(),
            r.timings@ == Map::<Seq<char>, SystemTiming<S>>::empty(),
    {
        SystemProfiler { timings: TextMap::new() }
    }

    /// Notes how long a system took.
    pub fn record(&mut self, name: &str, ms: S)
        requires
            old(self).wf(),
        ensures
            final(self).wf(),
            final(self).timings@ == old(self).timings@.insert(
                name@,
                with_sample(
                    if old(self).timings@.contains_key(name@) {
                        old(self).timings@[name@]
                    } else {
                        no_samples()
                    },
                    ms,
                ),
            ),
    {
        let before = match self.timings.get(name) {
            Some(t) => *t,
            None => SystemTiming {
                last_ms: S::zero(),
                total_ms: S::zero(),
                max_ms: S::zero(),
                samples: 0,
            },
        };
        self.timings.insert(
            name.to_owned(),
            SystemTiming {
                last_ms: ms,
                max_ms: before.max_ms.larger(ms),
                total_ms: before.total_ms.plus(ms),
                samples: before.samples.saturating_add(1),
            },
        );
    }

    fn summary(&self, i: usize) -> (r: SystemTimingSummary<S>)
        requires
            i < self.timings.entries@.len(),
            self.timings.entries@[i as int].1.samples <= usize::MAX,
        ensures
            summary_is(r, self.timings.entries@[i as int].0, self.timings.entries@[i as int].1),
    {
        let t = self.timings.entries[i].1;
        let average = if t.samples == 0 {
            S::zero()
        } else {
            t.total_ms.over(S::from_count(t.samples as usize))
        };
        SystemTimingSummary {
            name: self.timings.entries[i].0.clone(),
            last_ms: t.last_ms,
            average_ms: average,
            max_ms: t.max_ms,
            samples: t.samples,
        }
    }

    /// What is known of every system, those that took longest last time first.
    pub fn summaries(&self) -> (r: Vec<SystemTimingSummary<S>>)
        requires
            self.wf(),
            forall|i: int|
                0 <= i < self.timings.entries@.len() ==> (
                #[trigger] self.timings.entries@[i]).1.samples <= usize::MAX,
        ensures
            exists|unsorted: Seq<SystemTimingSummary<S>>|
                {
                    &&& unsorted.len() == self.timings.entries@.len()
                    &&& forall|i: int|
                        0 <= i < unsorted.len() ==> summary_is(
                            #[trigger] unsorted[i],
                            self.timings.entries@[i].0,
                            self.timings.entries@[i].1,
                        )
                    &&& r@ == #[trigger] longest_first(unsorted, unsorted.len() as int)
                },
    {
        let mut sorted: Vec<SystemTimingSummary<S>> = Vec::new();
        let ghost mut unsorted: Seq<SystemTimingSummary<S>> = Seq::empty();
        let mut i: usize = 0;
        while i < self.timings.entries.len()
            invariant
                i <= self.timings.entries@.len(),
                forall|k: int|
                    0 <= k < self.timings.entries@.len() ==> (
                    #[trigger] self.timings.entries@[k]).1.samples <= usize::MAX,
                unsorted.len() == i,
                forall|k: int|
                    0 <= k < i ==> summary_is(
                        #[trigger] unsorted[k],
                        self.timings.entries@[k].0,
                        self.timings.entries@[k].1,
                    ),
                sorted@ == longest_first(unsorted, i as int),
            decreases self.timings.entries@.len() - i,
        {
            let item = self.summary(i);
            let mut at: usize = 0;
            while at < sorted.len() && !sorted[at].last_ms.lt(item.last_ms)
                invariant
                    at <= sorted@.len(),
                    place_below(sorted@, item.last_ms, 0) == place_below(
                        sorted@,
                        item.last_ms,
                        at as int,
                    ),
                decreases sorted@.len() - at,
            {
                at = at + 1;
            }
            proof {
                lemma_more_to_sort(unsorted, item, i as int);
                unsorted = unsorted.push(item);
            }
            sorted.insert(at, item);
            i = i + 1;
        }
        sorted
    }
}

proof fn lemma_more_to_sort<S: Scalar>(
    list: Seq<SystemTimingSummary<S>>,
    item: SystemTimingSummary<S>,
    n: int,
)
    requires
        0 <= n <= list.len(),
    ensures
        longest_first(list.push(item), n) == longest_first(list, n),
    decreases n,
{
    if n > 0 {
        lemma_more_to_sort(list, item, n - 1);
    }
}

} // verus!
