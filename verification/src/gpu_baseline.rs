//! Timings of GPU passes, and how they compare with earlier ones.
use vstd::prelude::*;
use crate::scalar::{Fixed, Scalar};
use crate::text_map::{same_text, TextMap};
use crate::text_order::{sort_by_label, Labelled};

verus! {

/// How long a pass took in one frame.
pub struct GpuPassTiming<S> {
    pub label: String,
    pub duration_ms: S,
}

pub struct PassSamples<S> {
    pub samples: Vec<S>,
    pub max_ms: S,
}

/// The longest of the first `n` samples; zero where none is longer.
pub open spec fn longest<S: Scalar>(samples: Seq<S>, n: int) -> S
    decreases n,
{
    if n <= 0 {
        S::zero_spec()
    } else {
        let before = longest(samples, n - 1);
        if before.lt_spec(samples[n - 1]) {
            samples[n - 1]
        } else {
            before
        }
    }
}

pub open spec fn sum_of<S: Scalar>(samples: Seq<S>, n: int) -> S
    decreases n,
{
    if n <= 0 {
        S::zero_spec()
    } else {
        sum_of(samples, n - 1).plus_spec(samples[n - 1])
    }
}

proof fn lemma_longest_of_more<S: Scalar>(samples: Seq<S>, value: S, n: int)
    requires
        0 <= n <= samples.len(),
    ensures
        longest(samples.push(value), n) == longest(samples, n),
    decreases n,
{
    if n > 0 {
        lemma_longest_of_more(samples, value, n - 1);
    }
}

impl<S: Scalar> PassSamples<S> {
    pub open spec fn wf(self) -> bool {
        self.max_ms == longest(self.samples@, self.samples@.len() as int)
    }

    pub fn new() -> (r: Self)
        ensures
            r.wf(),
            r.samples@ == Seq::<S>::empty(),
    {
        PassSamples { samples: Vec::new(), max_ms: S::zero() }
    }

    pub fn record(&mut self, value: S)
        requires
            old(self).wf(),
        ensures
            final(self).wf(),
            final(self).samples@ == old(self).samples@.push(value),
    {
        proof {
            lemma_longest_of_more(self.samples@, value, self.samples@.len() as int);
        }
        self.samples.push(value);
        if self.max_ms.lt(value) {
            self.max_ms = value;
        }
    }

    pub fn latest(&self) -> (r: Option<S>)
        ensures
            r == (if self.samples@.len() == 0 {
                None
            } else {
                Some(self.samples@.last())
            }),
    {
        if self.samples.len() == 0 {
            None
        } else {
            Some(self.samples[self.samples.len() - 1])
        }
    }

    pub open spec fn mean_of(self) -> S {
        sum_of(self.samples@, self.samples@.len() as int).over_spec(
            S::from_count_spec(self.samples@.len() as usize),
        )
    }

    pub fn mean(&self) -> (r: Option<S>)
        ensures
            r == (if self.samples@.len() == 0 {
                None
            } else {
                Some(self.mean_of())
            }),
    {
        if self.samples.len() == 0 {
            return None;
        }
        let mut sum = S::zero();
        let mut i: usize = 0;
        while i < self.samples.len()
            invariant
                i <= self.samples@.len(),
                sum == sum_of(self.samples@, i as int),
            decreases self.samples@.len() - i,
        {
            sum = sum.plus(self.samples[i]);
            i = i + 1;
        }
        Some(sum.over(S::from_count(self.samples.len())))
    }
}

pub struct GpuPassSnapshot<S> {
    pub label: String,
    pub latest_ms: S,
    pub average_ms: S,
    pub max_ms: S,
    pub sample_count: usize,
}

impl<S> Labelled for GpuPassSnapshot<S> {
    open spec fn label_text(self) -> Seq<char> {
        self.label@
    }

    fn label(&self) -> (r: &str) {
        self.label.as_str()
    }
}

pub struct GpuBaselineSnapshot<S> {
    pub label: String,
    pub timestamp: String,
    pub commit: String,
    pub frame_count: usize,
    pub passes: Vec<GpuPassSnapshot<S>>,
}

/// Gathers how long GPU passes take over many frames.
pub struct GpuTimingAccumulator<S> {
    pub frame_count: usize,
    pub passes: TextMap<PassSamples<S>>,
}

/// The samples of passes after one more timing.
pub open spec fn timed<S: Scalar>(
    before: Map<Seq<char>, Seq<S>>,
    timing: GpuPassTiming<S>,
) -> Map<Seq<char>, Seq<S>> {
    let key = timing.label@;
    before.insert(
        key,
        (if before.contains_key(key) {
            before[key]
        } else {
            Seq::empty()
        }).push(timing.duration_ms),
    )
}

pub open spec fn all_timed<S: Scalar>(
    before: Map<Seq<char>, Seq<S>>,
    timings: Seq<GpuPassTiming<S>>,
    n: int,
) -> Map<Seq<char>, Seq<S>>
    decreases n,
{
    if n <= 0 {
        before
    } else {
        timed(all_timed(before, timings, n - 1), timings[n - 1])
    }
}

impl<S: Scalar> GpuTimingAccumulator<S> {
    /// Every pass that is known has been timed.
    pub open spec fn wf(self) -> bool {
        &&& self.passes.wf()
        &&& forall|k: Seq<char>| #[trigger]
            self.passes@.contains_key(k) ==> self.passes@[k].wf()
                && self.passes@[k].samples@.len() > 0
    }

    /// The samples of every pass.
    pub open spec fn samples(self) -> Map<Seq<char>, Seq<S>> {
        self.passes@.map_values(|p: PassSamples<S>| p.samples@)
    }

    pub fn new() -> (r: Self)
        ensures
            r.wf(),
            r.frame_count == 0,
            r.samples() == Map::<Seq<char>, Seq<S>>::empty(),
    {
        let r = GpuTimingAccumulator { frame_count: 0, passes: TextMap::new() };
        assert(r.samples() =~= Map::<Seq<char>, Seq<S>>::empty());
        r
    }

    fn record_timing(&mut self, timing: &GpuPassTiming<S>)
        requires
            old(self).wf(),
        ensures
            final(self).wf(),
            final(self).frame_count == old(self).frame_count,
            final(self).samples() == timed(old(self).samples(), *timing),
    {
        let ghost key = timing.label@;
        let mut samples = match self.passes.remove(timing.label.as_str()) {
            Some(samples) => samples,
            None => PassSamples::new(),
        };
        samples.record(timing.duration_ms);
        self.passes.insert(timing.label.clone(), samples);
        proof {
            assert forall|k: Seq<char>| #[trigger] self.passes@.contains_key(k) implies
                self.passes@[k].wf() && self.passes@[k].samples@.len() > 0 by {
                if k != key {
                    assert(old(self).passes@.contains_key(k));
                }
            }
            assert(self.samples() =~= timed(old(self).samples(), *timing));
        }
    }

    /// Takes in how long the passes of a frame took; a frame without timings does not count.
    pub fn record_frame(&mut self, timings: &Vec<GpuPassTiming<S>>)
        requires
            old(self).wf(),
            old(self).frame_count < usize::MAX,
        ensures
            final(self).wf(),
            final(self).frame_count == (if timings@.len() == 0 {
                old(self).frame_count as int
            } else {
                old(self).frame_count + 1
            }),
            final(self).samples() == all_timed(
                old(self).samples(),
                timings@,
                timings@.len() as int,
            ),
    {
        if timings.len() == 0 {
            return ;
        }
        self.frame_count = self.frame_count + 1;
        let mut i: usize = 0;
        while i < timings.len()
            invariant
                i <= timings@.len(),
                self.wf(),
                self.frame_count == old(self).frame_count + 1,
                self.samples() == all_timed(old(self).samples(), timings@, i as int),
            decreases timings@.len() - i,
        {
            self.record_timing(&timings[i]);
            i = i + 1;
        }
    }

    /// What a snapshot says of a pass.
    pub open spec fn pass_is(self, r: GpuPassSnapshot<S>, i: int) -> bool {
        let (label, samples) = self.passes.entries@[i];
        &&& r.label == label
        &&& r.latest_ms == samples.samples@.last()
        &&& r.average_ms == samples.mean_of()
        &&& r.max_ms == samples.max_ms
        &&& r.sample_count == samples.samples@.len()
    }

    /// The passes as they were first timed, before they are sorted.
    fn list_passes(&self) -> (r: Vec<GpuPassSnapshot<S>>)
        requires
            self.wf(),
        ensures
            r@.len() == self.passes.entries@.len(),
            forall|i: int| 0 <= i < r@.len() ==> self.pass_is(#[trigger] r@[i], i),
    {
        let mut out: Vec<GpuPassSnapshot<S>> = Vec::new();
        let mut i: usize = 0;
        while i < self.passes.entries.len()
            invariant
                self.wf(),
                i <= self.passes.entries@.len(),
                out@.len() == i,
                forall|j: int| 0 <= j < i ==> self.pass_is(#[trigger] out@[j], j),
            decreases self.passes.entries@.len() - i,
        {
            proof {
                self.passes.lemma_entry(i as int);
                assert(self.passes@.contains_key(self.passes.entries@[i as int].0@));
            }
            let samples = &self.passes.entries[i].1;
            let latest = match samples.latest() {
                Some(v) => v,
                None => S::zero(),
            };
            let average = match samples.mean() {
                Some(v) => v,
                None => S::zero(),
            };
            out.push(
                GpuPassSnapshot {
                    label: self.passes.entries[i].0.clone(),
                    latest_ms: latest,
                    average_ms: average,
                    max_ms: samples.max_ms,
                    sample_count: samples.samples.len(),
                },
            );
            i = i + 1;
        }
        out
    }

    /// Whether a list says the right thing of every pass.
    pub open spec fn passes_are(self, r: Seq<GpuPassSnapshot<S>>) -> bool {
        exists|unsorted: Seq<GpuPassSnapshot<S>>|
            {
                &&& unsorted.len() == self.passes.entries@.len()
                &&& forall|i: int| 0 <= i < unsorted.len() ==> self.pass_is(#[trigger] unsorted[i], i)
                &&& r == #[trigger] crate::text_order::by_label(unsorted, unsorted.len() as int)
            }
    }

    /// The passes sorted by label, with what was measured of them.
    pub fn snapshot(&self, label: String, timestamp: String, commit: String) -> (r: GpuBaselineSnapshot<
        S,
    >)
        requires
            self.wf(),
        ensures
            r.label == label,
            r.timestamp == timestamp,
            r.commit == commit,
            r.frame_count == self.frame_count,
            self.passes_are(r.passes@),
    {
        let passes = self.list_passes();
        let ghost unsorted = passes@;
        let sorted = sort_by_label(passes);
        assert(sorted@ == crate::text_order::by_label(unsorted, unsorted.len() as int));
        GpuBaselineSnapshot {
            label,
            timestamp,
            commit,
            frame_count: self.frame_count,
            passes: sorted,
        }
    }
}

/// How long the passes of a label took, among the first `n` timings of a frame.
pub open spec fn durations_of<S: Scalar>(
    timings: Seq<GpuPassTiming<S>>,
    label: Seq<char>,
    n: int,
) -> Seq<S>
    decreases n,
{
    if n <= 0 {
        Seq::empty()
    } else if timings[n - 1].label@ == label {
        durations_of(timings, label, n - 1).push(timings[n - 1].duration_ms)
    } else {
        durations_of(timings, label, n - 1)
    }
}

/// The longest of `start` and the first `n` samples.
pub open spec fn longest_from<S: Scalar>(start: S, samples: Seq<S>, n: int) -> S
    decreases n,
{
    if n <= 0 {
        start
    } else {
        let before = longest_from(start, samples, n - 1);
        if before.lt_spec(samples[n - 1]) {
            samples[n - 1]
        } else {
            before
        }
    }
}

/// Whether a list of passes has one of that label at a place.
pub open spec fn names_at<S>(passes: Seq<GpuPassSnapshot<S>>, label: Seq<char>, i: int) -> bool {
    0 <= i < passes.len() && passes[i].label@ == label
}

pub open spec fn names<S>(passes: Seq<GpuPassSnapshot<S>>, label: Seq<char>) -> bool {
    exists|i: int| names_at(passes, label, i)
}

/// What a list of passes says of a label.
pub open spec fn pass_of<S>(passes: Seq<GpuPassSnapshot<S>>, label: Seq<char>) -> GpuPassSnapshot<
    S,
> {
    passes[choose|i: int| names_at(passes, label, i)]
}

proof fn lemma_durations_are_added<S: Scalar>(
    before: Map<Seq<char>, Seq<S>>,
    timings: Seq<GpuPassTiming<S>>,
    label: Seq<char>,
    n: int,
)
    requires
        0 <= n <= timings.len(),
    ensures
        ({
            let after = all_timed(before, timings, n);
            let new = durations_of(timings, label, n);
            &&& after.contains_key(label) <==> before.contains_key(label) || new.len() > 0
            &&& after.contains_key(label) ==> after[label] == (if before.contains_key(label) {
                before[label]
            } else {
                Seq::empty()
            }) + new
        }),
    decreases n,
{
    let after = all_timed(before, timings, n);
    let new = durations_of(timings, label, n);
    if n > 0 {
        lemma_durations_are_added(before, timings, label, n - 1);
    }
    if after.contains_key(label) {
        assert(after[label] =~= (if before.contains_key(label) {
            before[label]
        } else {
            Seq::empty()
        }) + new);
    }
}

proof fn lemma_longest_goes_on<S: Scalar>(a: Seq<S>, b: Seq<S>, n: int)
    requires
        0 <= n <= b.len(),
    ensures
        longest(a + b, a.len() + n) == longest_from(longest(a, a.len() as int), b, n),
    decreases n,
{
    if n > 0 {
        lemma_longest_goes_on(a, b, n - 1);
    } else {
        lemma_longest_of_start(a, b, a.len() as int);
    }
}

proof fn lemma_longest_of_start<S: Scalar>(a: Seq<S>, b: Seq<S>, n: int)
    requires
        0 <= n <= a.len(),
    ensures
        longest(a + b, n) == longest(a, n),
    decreases n,
{
    if n > 0 {
        lemma_longest_of_start(a, b, n - 1);
    }
}

/// A snapshot has one pass for each label that was timed. It says of the label how often it was
/// timed, its last duration and its longest one.
pub proof fn law_snapshot_says_what_was_timed<S: Scalar>(
    gathered: GpuTimingAccumulator<S>,
    passes: Seq<GpuPassSnapshot<S>>,
    label: Seq<char>,
)
    requires
        gathered.wf(),
        gathered.passes_are(passes),
    ensures
        names(passes, label) <==> gathered.samples().contains_key(label),
        names(passes, label) ==> {
            let pass = pass_of(passes, label);
            let samples = gathered.samples()[label];
            &&& pass.label@ == label
            &&& samples.len() > 0
            &&& pass.sample_count == samples.len()
            &&& pass.latest_ms == samples.last()
            &&& pass.max_ms == longest(samples, samples.len() as int)
            &&& pass.average_ms == sum_of(samples, samples.len() as int).over_spec(
                S::from_count_spec(samples.len() as usize),
            )
        },
        forall|i: int, j: int| names_at(passes, label, i) && names_at(passes, label, j) ==> i == j,
{
    broadcast use vstd::seq_lib::group_to_multiset_ensures;

    let unsorted = choose|unsorted: Seq<GpuPassSnapshot<S>>|
        {
            &&& unsorted.len() == gathered.passes.entries@.len()
            &&& forall|i: int|
                0 <= i < unsorted.len() ==> gathered.pass_is(#[trigger] unsorted[i], i)
            &&& passes == #[trigger] crate::text_order::by_label(unsorted, unsorted.len() as int)
        };
    let entries = gathered.passes.entries@;
    crate::text_order::law_sorting_orders_labels(unsorted, unsorted.len() as int);
    assert(unsorted.take(unsorted.len() as int) =~= unsorted);
    assert forall|i: int, j: int| 0 <= i < unsorted.len() && 0 <= j < unsorted.len() && i
        != j implies unsorted[i].label@ != unsorted[j].label@ by {
        gathered.passes.lemma_entry(i);
        gathered.passes.lemma_entry(j);
    }
    assert(unsorted.no_duplicates());
    unsorted.lemma_multiset_has_no_duplicates();
    passes.lemma_multiset_has_no_duplicates_conv();
    assert forall|i: int| 0 <= i < passes.len() implies unsorted.contains(#[trigger] passes[i]) by {
        assert(passes.to_multiset().contains(passes[i]));
    }
    if gathered.samples().contains_key(label) {
        let k = choose|k: int| gathered.passes.holds_at(label, k);
        assert(unsorted.to_multiset().contains(unsorted[k]));
        assert(passes.contains(unsorted[k]));
        let i = choose|i: int| 0 <= i < passes.len() && passes[i] == unsorted[k];
        assert(gathered.pass_is(unsorted[k], k));
        assert(names_at(passes, label, i));
    }
    if names(passes, label) {
        let i = choose|i: int| names_at(passes, label, i);
        assert(unsorted.contains(passes[i]));
        let k = choose|k: int| 0 <= k < unsorted.len() && unsorted[k] == passes[i];
        assert(gathered.pass_is(unsorted[k], k));
        gathered.passes.lemma_entry(k);
        assert(gathered.passes@.contains_key(label));
    }
    assert forall|i: int, j: int|
        names_at(passes, label, i) && names_at(passes, label, j) implies i == j by {
        assert(unsorted.contains(passes[i]));
        assert(unsorted.contains(passes[j]));
        assert(passes[i] == passes[j]);
    }
}

/// What a snapshot after a frame says, against one before it. A label that the frame timed has
/// been timed so many times more, its last duration is the frame's last, and its longest is the
/// longest of what it was and the frame's. A label that the frame did not time stands as it did.
/// A frame without timings is not counted and changes nothing.
pub proof fn law_frame_is_added_to_snapshots<S: Scalar>(
    before: GpuTimingAccumulator<S>,
    after: GpuTimingAccumulator<S>,
    timings: Seq<GpuPassTiming<S>>,
    first: Seq<GpuPassSnapshot<S>>,
    second: Seq<GpuPassSnapshot<S>>,
    label: Seq<char>,
)
    requires
        before.wf(),
        after.wf(),
        after.samples() == all_timed(before.samples(), timings, timings.len() as int),
        before.passes_are(first),
        after.passes_are(second),
    ensures
        ({
            let new = durations_of(timings, label, timings.len() as int);
            let count = new.len() as int;
            let was = pass_of(first, label);
            let is = pass_of(second, label);
            &&& names(second, label) <==> names(first, label) || count > 0
            &&& names(first, label) ==> {
                &&& is.sample_count == was.sample_count + count
                &&& is.max_ms == longest_from(was.max_ms, new, count)
            }
            &&& !names(first, label) && count > 0 ==> {
                &&& is.sample_count == count
                &&& is.max_ms == longest_from(S::zero_spec(), new, count)
            }
            &&& count > 0 ==> is.latest_ms == new.last()
            &&& names(first, label) && count == 0 ==> {
                &&& is.label@ == was.label@
                &&& is.latest_ms == was.latest_ms
                &&& is.average_ms == was.average_ms
                &&& is.max_ms == was.max_ms
                &&& is.sample_count == was.sample_count
            }
            &&& timings.len() == 0 ==> count == 0
        }),
{
    let n = timings.len() as int;
    let new = durations_of(timings, label, n);
    law_snapshot_says_what_was_timed(before, first, label);
    law_snapshot_says_what_was_timed(after, second, label);
    lemma_durations_are_added(before.samples(), timings, label, n);
    if names(first, label) {
        lemma_longest_goes_on(before.samples()[label], new, new.len() as int);
        if new.len() == 0 {
            assert(before.samples()[label] + new =~= before.samples()[label]);
        }
    } else if names(second, label) {
        lemma_longest_goes_on(Seq::empty(), new, new.len() as int);
        assert(Seq::<S>::empty() + new =~= new);
    }
}

/// The longest of a duration and more of them is one of them, and none of them is longer.
pub proof fn law_longest_is_the_largest(start: Fixed, samples: Seq<Fixed>, n: int)
    requires
        0 <= n <= samples.len(),
    ensures
        start.0 <= longest_from(start, samples, n).0,
        forall|i: int| 0 <= i < n ==> (#[trigger] samples[i]).0 <= longest_from(start, samples, n).0,
        longest_from(start, samples, n) == start || samples.take(n).contains(
            longest_from(start, samples, n),
        ),
    decreases n,
{
    if n > 0 {
        law_longest_is_the_largest(start, samples, n - 1);
        let before = longest_from(start, samples, n - 1);
        if before != start {
            let some = samples.take(n - 1);
            let i = choose|i: int| 0 <= i < some.len() && some[i] == before;
            assert(samples.take(n)[i] == before);
        }
        assert(samples.take(n)[n - 1] == samples[n - 1]);
    }
}

#[derive(Clone, Copy, Debug, PartialEq, Eq, Structural)]
pub enum BaselinePassStatus {
    Matched,
    MissingInCurrent,
    MissingInBaseline,
}

pub struct GpuBaselineDelta<S> {
    pub label: String,
    pub baseline_avg_ms: S,
    pub current_avg_ms: S,
    pub delta_ms: S,
    pub allowed_drift_ms: S,
    pub within_tolerance: bool,
    pub status: BaselinePassStatus,
}

impl<S> Labelled for GpuBaselineDelta<S> {
    open spec fn label_text(self) -> Seq<char> {
        self.label@
    }

    fn label(&self) -> (r: &str) {
        self.label.as_str()
    }
}

#[derive(Clone, Copy, Debug, PartialEq, Eq, Structural)]
pub enum BaselineError {
    EmptyBaseline,
    EmptyCurrent,
}

impl BaselineError {
    pub open spec fn text(self) -> Seq<char> {
        match self {
            BaselineError::EmptyBaseline => "Baseline snapshot contains no GPU pass samples"@,
            BaselineError::EmptyCurrent => "Current snapshot contains no GPU pass samples"@,
        }
    }

    pub fn message(self) -> (r: &'static str)
        ensures
            r@ == self.text(),
    {
        match self {
            BaselineError::EmptyBaseline => "Baseline snapshot contains no GPU pass samples",
            BaselineError::EmptyCurrent => "Current snapshot contains no GPU pass samples",
        }
    }
}

/// The place of the last pass of that label among the first `n`, or -1.
pub open spec fn pass_place<S>(passes: Seq<GpuPassSnapshot<S>>, label: Seq<char>, n: int) -> int
    decreases n,
{
    if n <= 0 {
        -1
    } else if passes[n - 1].label@ == label {
        n - 1
    } else {
        pass_place(passes, label, n - 1)
    }
}

fn find_pass<S>(passes: &Vec<GpuPassSnapshot<S>>, label: &str) -> (r: Option<usize>)
    ensures
        match r {
            Some(i) => i == pass_place(passes@, label@, passes@.len() as int) && i < passes@.len(),
            None => pass_place(passes@, label@, passes@.len() as int) == -1,
        },
{
    let mut n: usize = passes.len();
    while n > 0
        invariant
            n <= passes@.len(),
            pass_place(passes@, label@, passes@.len() as int) == pass_place(
                passes@,
                label@,
                n as int,
            ),
        decreases n,
    {
        if same_text(passes[n - 1].label.as_str(), label) {
            return Some(n - 1);
        }
        n = n - 1;
    }
    None
}

/// How a current pass compares with the baseline.
pub open spec fn delta_of<S: Scalar>(
    r: GpuBaselineDelta<S>,
    curr: GpuPassSnapshot<S>,
    baseline: Seq<GpuPassSnapshot<S>>,
    tolerances: Map<Seq<char>, S>,
    default_tolerance: S,
) -> bool {
    let i = pass_place(baseline, curr.label@, baseline.len() as int);
    &&& r.label == curr.label
    &&& r.current_avg_ms == curr.average_ms
    &&& if i >= 0 {
        let allowed = if tolerances.contains_key(curr.label@) {
            tolerances[curr.label@]
        } else {
            default_tolerance
        };
        &&& r.baseline_avg_ms == baseline[i].average_ms
        &&& r.delta_ms == curr.average_ms.minus_spec(baseline[i].average_ms)
        &&& r.allowed_drift_ms == allowed
        &&& r.within_tolerance == r.delta_ms.le_spec(allowed)
        &&& r.status is Matched
    } else {
        &&& r.baseline_avg_ms == S::zero_spec()
        &&& r.delta_ms == curr.average_ms
        &&& r.allowed_drift_ms == S::zero_spec()
        &&& !r.within_tolerance
        &&& r.status is MissingInBaseline
    }
}

/// What is said of a pass of the baseline that is gone.
pub open spec fn gone<S: Scalar>(r: GpuBaselineDelta<S>, base: GpuPassSnapshot<S>) -> bool {
    &&& r.label == base.label
    &&& r.baseline_avg_ms == base.average_ms
    &&& r.current_avg_ms == S::zero_spec()
    &&& r.delta_ms == base.average_ms
    &&& r.allowed_drift_ms == S::zero_spec()
    &&& !r.within_tolerance
    &&& r.status is MissingInCurrent
}

/// The places of those of the first `n` passes of the baseline that are gone.
pub open spec fn gone_places<S>(
    baseline: Seq<GpuPassSnapshot<S>>,
    current: Seq<GpuPassSnapshot<S>>,
    n: int,
) -> Seq<int>
    decreases n,
{
    if n <= 0 {
        Seq::empty()
    } else if pass_place(current, baseline[n - 1].label@, current.len() as int) >= 0 {
        gone_places(baseline, current, n - 1)
    } else {
        gone_places(baseline, current, n - 1).push(n - 1)
    }
}

/// What is said before it is sorted: of every current pass in order, and of every pass of the
/// baseline that is gone.
pub open spec fn deltas_are<S: Scalar>(
    unsorted: Seq<GpuBaselineDelta<S>>,
    baseline: Seq<GpuPassSnapshot<S>>,
    current: Seq<GpuPassSnapshot<S>>,
    tolerances: Map<Seq<char>, S>,
    default_tolerance: S,
) -> bool {
    let lost = gone_places(baseline, current, baseline.len() as int);
    &&& unsorted.len() == current.len() + lost.len()
    &&& forall|i: int|
        0 <= i < current.len() ==> delta_of(
            #[trigger] unsorted[i],
            current[i],
            baseline,
            tolerances,
            default_tolerance,
        )
    &&& forall|k: int|
        0 <= k < lost.len() ==> gone(
            #[trigger] unsorted[current.len() + k],
            baseline[lost[k]],
        )
}

fn compare_pass<S: Scalar>(
    curr: &GpuPassSnapshot<S>,
    baseline: &Vec<GpuPassSnapshot<S>>,
    tolerances: &TextMap<S>,
    default_tolerance: S,
) -> (r: GpuBaselineDelta<S>)
    requires
        tolerances.wf(),
    ensures
        delta_of(r, *curr, baseline@, tolerances@, default_tolerance),
{
    match find_pass(baseline, curr.label.as_str()) {
        Some(i) => {
            let allowed = match tolerances.get(curr.label.as_str()) {
                Some(t) => *t,
                None => default_tolerance,
            };
            let delta = curr.average_ms.minus(baseline[i].average_ms);
            GpuBaselineDelta {
                label: curr.label.clone(),
                baseline_avg_ms: baseline[i].average_ms,
                current_avg_ms: curr.average_ms,
                delta_ms: delta,
                allowed_drift_ms: allowed,
                within_tolerance: delta.le(allowed),
                status: BaselinePassStatus::Matched,
            }
        },
        None => GpuBaselineDelta {
            label: curr.label.clone(),
            baseline_avg_ms: S::zero(),
            current_avg_ms: curr.average_ms,
            delta_ms: curr.average_ms,
            allowed_drift_ms: S::zero(),
            within_tolerance: false,
            status: BaselinePassStatus::MissingInBaseline,
        },
    }
}

/// Compares two snapshots pass by pass, sorted by label. A snapshot without passes is an error.
pub fn compare_baselines<S: Scalar>(
    baseline: &GpuBaselineSnapshot<S>,
    current: &GpuBaselineSnapshot<S>,
    tolerances: &TextMap<S>,
    default_tolerance_ms: S,
) -> (r: Result<Vec<GpuBaselineDelta<S>>, BaselineError>)
    requires
        tolerances.wf(),
    ensures
        match r {
            Ok(deltas) => {
                &&& baseline.passes@.len() > 0 && current.passes@.len() > 0
                &&& exists|unsorted: Seq<GpuBaselineDelta<S>>|
                    {
                        &&& #[trigger] deltas_are(
                            unsorted,
                            baseline.passes@,
                            current.passes@,
                            tolerances@,
                            default_tolerance_ms,
                        )
                        &&& deltas@ == crate::text_order::by_label(
                            unsorted,
                            unsorted.len() as int,
                        )
                    }
            },
            Err(e) => if baseline.passes@.len() == 0 {
                e is EmptyBaseline
            } else {
                e is EmptyCurrent && current.passes@.len() == 0
            },
        },
{
    if baseline.passes.len() == 0 {
        return Err(BaselineError::EmptyBaseline);
    }
    if current.passes.len() == 0 {
        return Err(BaselineError::EmptyCurrent);
    }
    let ghost was = baseline.passes@;
    let ghost is = current.passes@;
    let mut deltas: Vec<GpuBaselineDelta<S>> = Vec::new();
    let mut i: usize = 0;
    while i < current.passes.len()
        invariant
            i <= current.passes@.len(),
            tolerances.wf(),
            deltas@.len() == i,
            forall|j: int|
                0 <= j < i ==> delta_of(
                    #[trigger] deltas@[j],
                    current.passes@[j],
                    baseline.passes@,
                    tolerances@,
                    default_tolerance_ms,
                ),
        decreases current.passes@.len() - i,
    {
        deltas.push(
            compare_pass(&current.passes[i], &baseline.passes, tolerances, default_tolerance_ms),
        );
        i = i + 1;
    }
    let n: usize = i;
    let mut k: usize = 0;
    while k < baseline.passes.len()
        invariant
            k <= baseline.passes@.len(),
            n == current.passes@.len(),
            deltas@.len() == n + gone_places(
                baseline.passes@,
                current.passes@,
                k as int,
            ).len(),
            forall|j: int|
                0 <= j < n ==> delta_of(
                    #[trigger] deltas@[j],
                    current.passes@[j],
                    baseline.passes@,
                    tolerances@,
                    default_tolerance_ms,
                ),
            forall|j: int|
                0 <= j < gone_places(baseline.passes@, current.passes@, k as int).len() ==> gone(
                    #[trigger] deltas@[n + j],
                    baseline.passes@[gone_places(
                        baseline.passes@,
                        current.passes@,
                        k as int,
                    )[j]],
                ),
        decreases baseline.passes@.len() - k,
    {
        let base = &baseline.passes[k];
        let ghost lost = gone_places(baseline.passes@, current.passes@, k as int);
        if find_pass(&current.passes, base.label.as_str()).is_none() {
            deltas.push(
                GpuBaselineDelta {
                    label: base.label.clone(),
                    baseline_avg_ms: base.average_ms,
                    current_avg_ms: S::zero(),
                    delta_ms: base.average_ms,
                    allowed_drift_ms: S::zero(),
                    within_tolerance: false,
                    status: BaselinePassStatus::MissingInCurrent,
                },
            );
            proof {
                let now = gone_places(baseline.passes@, current.passes@, k + 1);
                assert(now == lost.push(k as int));
                assert forall|j: int| 0 <= j < now.len() implies gone(
                    #[trigger] deltas@[n + j],
                    baseline.passes@[now[j]],
                ) by {
                    if j < lost.len() {
                        assert(now[j] == lost[j]);
                    }
                }
            }
        }
        k = k + 1;
    }
    let ghost unsorted = deltas@;
    assert(deltas_are(unsorted, was, is, tolerances@, default_tolerance_ms));
    Ok(sort_by_label(deltas))
}

/// No two passes have the same label.
pub open spec fn labels_differ<S>(passes: Seq<GpuPassSnapshot<S>>) -> bool {
    forall|i: int, j: int|
        0 <= i < passes.len() && 0 <= j < passes.len() && i != j ==> (#[trigger] passes[i]).label@
            != (#[trigger] passes[j]).label@
}

proof fn lemma_pass_found<S>(passes: Seq<GpuPassSnapshot<S>>, i: int, n: int)
    requires
        labels_differ(passes),
        0 <= i < n <= passes.len(),
    ensures
        pass_place(passes, passes[i].label@, n) == i,
    decreases n,
{
    if i != n - 1 {
        assert(passes[n - 1].label@ != passes[i].label@);
        lemma_pass_found(passes, i, n - 1);
    }
}

proof fn lemma_none_gone<S>(passes: Seq<GpuPassSnapshot<S>>, n: int)
    requires
        labels_differ(passes),
        0 <= n <= passes.len(),
    ensures
        gone_places(passes, passes, n).len() == 0,
    decreases n,
{
    if n > 0 {
        lemma_pass_found(passes, n - 1, passes.len() as int);
        lemma_none_gone(passes, n - 1);
    }
}

/// Passes compared with themselves have not drifted: none is gone, none is new, and all are within
/// any tolerance that is not negative.
pub proof fn law_same_passes_have_not_drifted(
    unsorted: Seq<GpuBaselineDelta<Fixed>>,
    passes: Seq<GpuPassSnapshot<Fixed>>,
    tolerances: Map<Seq<char>, Fixed>,
    default_tolerance: Fixed,
)
    requires
        labels_differ(passes),
        deltas_are(unsorted, passes, passes, tolerances, default_tolerance),
    ensures
        unsorted.len() == passes.len(),
        forall|i: int|
            0 <= i < passes.len() ==> {
                let r = #[trigger] unsorted[i];
                &&& r.status is Matched
                &&& r.delta_ms.0 == 0
                &&& r.within_tolerance == (0 <= r.allowed_drift_ms.0)
            },
{
    lemma_none_gone(passes, passes.len() as int);
    assert forall|i: int| 0 <= i < passes.len() implies {
        let r = #[trigger] unsorted[i];
        &&& r.status is Matched
        &&& r.delta_ms.0 == 0
        &&& r.within_tolerance == (0 <= r.allowed_drift_ms.0)
    } by {
        lemma_pass_found(passes, i, passes.len() as int);
        assert(delta_of(unsorted[i], passes[i], passes, tolerances, default_tolerance));
    }
}

} // verus!
