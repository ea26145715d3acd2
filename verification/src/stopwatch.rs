//! How long things took, by a clock that the caller brings.
use vstd::prelude::*;
use crate::counts::{held_sum_u64, held_total_u64};

verus! {

/// The time from one reading of a clock to another; none where the clock went back.
pub open spec fn time_between(from: u64, to: u64) -> u64 {
    if from <= to {
        (to - from) as u64
    } else {
        0
    }
}

/// Whether a span lies between two readings that a clock can give.
pub open spec fn measured<K: Fn() -> u64>(clock: K, span: u64) -> bool {
    exists|from: u64, to: u64| #[trigger]
        call_ensures(clock, (), from) && #[trigger] call_ensures(clock, (), to) && span
            == time_between(from, to)
}

/// Spans added up; past the largest value the sum stays there.
pub open spec fn held_all(spans: Seq<u64>) -> u64
    decreases spans.len(),
{
    if spans.len() == 0 {
        0
    } else {
        held_sum_u64(held_all(spans.drop_last()), spans.last())
    }
}

/// Whether a total is that of so many measured spans.
pub open spec fn total_of_spans<K: Fn() -> u64>(clock: K, total: u64, n: nat) -> bool {
    exists|spans: Seq<u64>|
        spans.len() == n && (forall|i: int| 0 <= i < n ==> measured(clock, #[trigger] spans[i]))
            && total == #[trigger] held_all(spans)
}

proof fn lemma_held_all_of_both(a: Seq<u64>, b: Seq<u64>)
    ensures
        held_all(a + b) == held_sum_u64(held_all(a), held_all(b)),
    decreases b.len(),
{
    if b.len() == 0 {
        assert(a + b =~= a);
    } else {
        lemma_held_all_of_both(a, b.drop_last());
        assert((a + b).drop_last() =~= a + b.drop_last());
    }
}

/// Two totals together are the total of the spans of both.
pub proof fn law_totals_of_spans_add_up<K: Fn() -> u64>(clock: K, a: u64, m: nat, b: u64, n: nat)
    requires
        total_of_spans(clock, a, m),
        total_of_spans(clock, b, n),
    ensures
        total_of_spans(clock, held_sum_u64(a, b), m + n),
{
    let first = choose|spans: Seq<u64>|
        spans.len() == m && (forall|i: int| 0 <= i < m ==> measured(clock, #[trigger] spans[i]))
            && a == #[trigger] held_all(spans);
    let second = choose|spans: Seq<u64>|
        spans.len() == n && (forall|i: int| 0 <= i < n ==> measured(clock, #[trigger] spans[i]))
            && b == #[trigger] held_all(spans);
    let both = first + second;
    lemma_held_all_of_both(first, second);
    assert forall|i: int| 0 <= i < m + n implies measured(clock, #[trigger] both[i]) by {
        if i < m {
            assert(both[i] == first[i]);
        } else {
            assert(both[i] == second[i - m]);
        }
    }
    assert(held_all(both) == held_sum_u64(a, b));
}

/// No spans add up to nothing.
pub proof fn law_no_spans_take_no_time<K: Fn() -> u64>(clock: K)
    ensures
        total_of_spans(clock, 0, 0),
{
    assert(held_all(Seq::<u64>::empty()) == 0);
}

proof fn lemma_one_span<K: Fn() -> u64>(clock: K, span: u64)
    requires
        measured(clock, span),
    ensures
        total_of_spans(clock, span, 1),
{
    let one = seq![span];
    assert(one.drop_last() =~= Seq::<u64>::empty());
    assert(held_all(one.drop_last()) == 0);
    assert(held_all(one) == span);
}

/// One reading of the clock.
pub fn read_clock<K: Fn() -> u64 + Copy>(clock: K) -> (r: u64)
    requires
        clock.requires(()),
    ensures
        call_ensures(clock, (), r),
{
    clock()
}

/// The time since an earlier reading.
pub fn time_since<K: Fn() -> u64 + Copy>(clock: K, from: u64) -> (r: u64)
    requires
        clock.requires(()),
        call_ensures(clock, (), from),
    ensures
        measured(clock, r),
{
    let to: u64 = clock();
    if from <= to {
        to - from
    } else {
        0
    }
}

/// A total with one more span.
pub fn add_span<K: Fn() -> u64 + Copy>(clock: K, total: u64, span: u64, Ghost(n): Ghost<nat>) -> (r:
    u64)
    requires
        total_of_spans(clock, total, n),
        measured(clock, span),
    ensures
        r == held_sum_u64(total, span),
        total_of_spans(clock, r, n + 1),
{
    proof {
        lemma_one_span(clock, span);
        law_totals_of_spans_add_up(clock, total, n, span, 1);
    }
    held_total_u64(total, span)
}

} // verus!
