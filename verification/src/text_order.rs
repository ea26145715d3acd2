//! The alphabetical order of texts, and lists sorted by their labels.
use vstd::prelude::*;
use vstd::string::StrSliceExecFns;

verus! {

/// Whether a text comes before another one: by the first character in which they differ, else the
/// shorter one.
pub open spec fn text_less(a: Seq<char>, b: Seq<char>) -> bool
    decreases b.len(),
{
    if b.len() == 0 {
        false
    } else if a.len() == 0 {
        true
    } else if a[0] != b[0] {
        (a[0] as int) < (b[0] as int)
    } else {
        text_less(a.skip(1), b.skip(1))
    }
}

/// No text comes before itself, and of two different texts one comes first.
pub proof fn law_texts_are_ordered(a: Seq<char>, b: Seq<char>)
    ensures
        a == b ==> !text_less(a, b),
        a != b ==> text_less(a, b) != text_less(b, a),
    decreases b.len(),
{
    if a.len() > 0 && b.len() > 0 && a[0] == b[0] {
        law_texts_are_ordered(a.skip(1), b.skip(1));
        if a.skip(1) == b.skip(1) {
            assert(a =~= seq![a[0]] + a.skip(1));
            assert(b =~= seq![b[0]] + b.skip(1));
        }
    } else if a.len() == 0 && b.len() == 0 {
        assert(a =~= b);
    }
}

/// What comes before a text comes before all that follow it.
pub proof fn law_text_order_is_transitive(a: Seq<char>, b: Seq<char>, c: Seq<char>)
    requires
        !text_less(b, a),
        !text_less(c, b),
    ensures
        !text_less(c, a),
    decreases a.len(),
{
    law_texts_are_ordered(b, a);
    law_texts_are_ordered(c, b);
    law_texts_are_ordered(c, a);
    if a.len() > 0 && b.len() > 0 && c.len() > 0 && a[0] == b[0] && b[0] == c[0] {
        law_text_order_is_transitive(a.skip(1), b.skip(1), c.skip(1));
    }
}

proof fn lemma_skip_both(a: Seq<char>, b: Seq<char>, i: int)
    requires
        0 <= i < a.len(),
        i < b.len(),
        a[i] == b[i],
    ensures
        text_less(a.skip(i), b.skip(i)) == text_less(a.skip(i + 1), b.skip(i + 1)),
{
    assert(a.skip(i).skip(1) =~= a.skip(i + 1));
    assert(b.skip(i).skip(1) =~= b.skip(i + 1));
}

pub fn comes_before(a: &str, b: &str) -> (r: bool)
    ensures
        r == text_less(a@, b@),
{
    let n: usize = a.unicode_len();
    let m: usize = b.unicode_len();
    let mut i: usize = 0;
    assert(a@.skip(0) =~= a@);
    assert(b@.skip(0) =~= b@);
    while i < n && i < m
        invariant
            n == a@.len(),
            m == b@.len(),
            i <= n,
            i <= m,
            text_less(a@, b@) == text_less(a@.skip(i as int), b@.skip(i as int)),
        decreases n - i,
    {
        let x = a.get_char(i);
        let y = b.get_char(i);
        if x != y {
            return (x as u32) < (y as u32);
        }
        proof {
            lemma_skip_both(a@, b@, i as int);
        }
        i = i + 1;
    }
    i < m
}

/// Something with a label.
pub trait Labelled: Sized {
    spec fn label_text(self) -> Seq<char>;

    fn label(&self) -> (r: &str)
        ensures
            r@ == self.label_text(),
    ;
}

/// The place of the first item that comes after a label, at `from` or later.
pub open spec fn place_after<T: Labelled>(list: Seq<T>, label: Seq<char>, from: int) -> int
    decreases list.len() - from,
{
    if from < 0 || from >= list.len() {
        list.len() as int
    } else if text_less(label, list[from].label_text()) {
        from
    } else {
        place_after(list, label, from + 1)
    }
}

/// The first `n` items in the order of their labels; items with the same label keep their order.
pub open spec fn by_label<T: Labelled>(list: Seq<T>, n: int) -> Seq<T>
    decreases n,
{
    if n <= 0 {
        Seq::empty()
    } else {
        let before = by_label(list, n - 1);
        before.insert(place_after(before, list[n - 1].label_text(), 0), list[n - 1])
    }
}

pub open spec fn in_label_order<T: Labelled>(list: Seq<T>) -> bool {
    forall|i: int, j: int|
        #![trigger list[i], list[j]]
        0 <= i < j < list.len() ==> !text_less(list[j].label_text(), list[i].label_text())
}

proof fn lemma_place_after<T: Labelled>(list: Seq<T>, label: Seq<char>, from: int)
    requires
        0 <= from <= list.len(),
    ensures
        from <= place_after(list, label, from) <= list.len(),
        forall|i: int|
            from <= i < place_after(list, label, from) ==> !text_less(
                label,
                (#[trigger] list[i]).label_text(),
            ),
        place_after(list, label, from) < list.len() ==> text_less(
            label,
            list[place_after(list, label, from)].label_text(),
        ),
    decreases list.len() - from,
{
    if from < list.len() && !text_less(label, list[from].label_text()) {
        lemma_place_after(list, label, from + 1);
    }
}

/// A list sorted by labels is in their order and holds the same items.
pub proof fn law_sorting_orders_labels<T: Labelled>(list: Seq<T>, n: int)
    requires
        0 <= n <= list.len(),
    ensures
        in_label_order(by_label(list, n)),
        by_label(list, n).len() == n,
        by_label(list, n).to_multiset() =~= list.take(n).to_multiset(),
    decreases n,
{
    broadcast use vstd::seq_lib::group_to_multiset_ensures;

    if n > 0 {
        law_sorting_orders_labels(list, n - 1);
        let before = by_label(list, n - 1);
        let x = list[n - 1];
        let at = place_after(before, x.label_text(), 0);
        lemma_place_after(before, x.label_text(), 0);
        let after = before.insert(at, x);
        assert forall|i: int, j: int|
            #![trigger after[i], after[j]]
            0 <= i < j < after.len() implies !text_less(
            after[j].label_text(),
            after[i].label_text(),
        ) by {
            let i0 = if i < at {
                i
            } else {
                i - 1
            };
            let j0 = if j < at {
                j
            } else {
                j - 1
            };
            if i != at && j != at {
                assert(after[i] == before[i0] && after[j] == before[j0]);
            } else if i == at {
                assert(after[j] == before[j0]);
                law_texts_are_ordered(x.label_text(), before[at].label_text());
                if j0 > at {
                    assert(!text_less(before[j0].label_text(), before[at].label_text()));
                    law_text_order_is_transitive(
                        x.label_text(),
                        before[at].label_text(),
                        before[j0].label_text(),
                    );
                }
            } else {
                assert(after[i] == before[i]);
            }
        }
        assert(list.take(n) =~= list.take(n - 1).push(x));
    } else {
        assert(list.take(n) =~= Seq::empty());
    }
}

/// Sorts a list by its labels; items with the same label keep their order.
pub fn sort_by_label<T: Labelled>(list: Vec<T>) -> (r: Vec<T>)
    ensures
        r@ == by_label(list@, list@.len() as int),
{
    let ghost all = list@;
    let mut rest = list;
    let mut sorted: Vec<T> = Vec::new();
    let ghost mut n: int = 0;
    while rest.len() > 0
        invariant
            0 <= n <= all.len(),
            rest@ == all.skip(n),
            sorted@ == by_label(all, n),
        decreases rest@.len(),
    {
        let item = rest.remove(0);
        assert(item == all[n]);
        let mut at: usize = 0;
        while at < sorted.len() && !comes_before(item.label(), sorted[at].label())
            invariant
                at <= sorted@.len(),
                place_after(sorted@, item.label_text(), 0) == place_after(
                    sorted@,
                    item.label_text(),
                    at as int,
                ),
            decreases sorted@.len() - at,
        {
            at = at + 1;
        }
        sorted.insert(at, item);
        proof {
            assert(rest@ =~= all.skip(n + 1));
            n = n + 1;
        }
    }
    sorted
}

} // verus!
