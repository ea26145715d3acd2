//! Short lists of numbers that live inline: `smallvec::SmallVec`.
use smallvec::SmallVec;
use vstd::prelude::*;

verus! {

/// A `smallvec::SmallVec` of numbers.
#[verifier::external_body]
pub struct SmallList {
    items: SmallVec<[u64; 16]>,
}

/// The numbers that a list holds, in order.
pub uninterp spec fn small_items(list: SmallList) -> Seq<u64>;

/// `SmallVec::new`: an empty list.
#[verifier::external_body]
pub(crate) fn small_new() -> (r: SmallList)
    ensures
        small_items(r) == Seq::<u64>::empty(),
{
    SmallList { items: SmallVec::new() }
}

/// `SmallVec::push`: appends a number at the end.
#[verifier::external_body]
pub(crate) fn small_push(list: &mut SmallList, value: u64)
    ensures
        small_items(*final(list)) == small_items(*old(list)).push(value),
{
    list.items.push(value);
}

/// `SmallVec::pop`: takes the last number, if there is one.
#[verifier::external_body]
pub(crate) fn small_pop(list: &mut SmallList) -> (r: Option<u64>)
    ensures
        match r {
            Some(value) => small_items(*old(list)).len() > 0 && value == small_items(
                *old(list),
            ).last() && small_items(*final(list)) == small_items(*old(list)).drop_last(),
            None => small_items(*old(list)).len() == 0 && small_items(*final(list)).len() == 0,
        },
{
    list.items.pop()
}

/// `SmallVec::clear`: takes everything out.
#[verifier::external_body]
pub(crate) fn small_clear(list: &mut SmallList)
    ensures
        small_items(*final(list)) == Seq::<u64>::empty(),
{
    list.items.clear();
}

/// `SmallVec::len`: how many numbers there are.
#[verifier::external_body]
pub(crate) fn small_len(list: &SmallList) -> (r: usize)
    ensures
        r == small_items(*list).len(),
{
    list.items.len()
}

/// Indexing a `SmallVec`: the number at a place.
#[verifier::external_body]
pub(crate) fn small_get(list: &SmallList, i: usize) -> (r: u64)
    requires
        i < small_items(*list).len(),
    ensures
        r == small_items(*list)[i as int],
{
    list.items[i]
}

/// Whether a number is in the list.
pub fn small_contains(list: &SmallList, value: u64) -> (r: bool)
    ensures
        r == small_items(*list).contains(value),
{
    let n: usize = small_len(list);
    let mut i: usize = 0;
    while i < n
        invariant
            n == small_items(*list).len(),
            i <= n,
            forall|j: int| 0 <= j < i ==> small_items(*list)[j] != value,
        decreases n - i,
    {
        if small_get(list, i) == value {
            assert(small_items(*list)[i as int] == value);
            return true;
        }
        i = i + 1;
    }
    false
}

impl SmallList {
    pub fn new() -> (r: Self)
        ensures
            small_items(r) == Seq::<u64>::empty(),
    {
        small_new()
    }

    pub fn to_vec(&self) -> (r: Vec<u64>)
        ensures
            r@ == small_items(*self),
    {
        let n: usize = small_len(self);
        let mut out: Vec<u64> = Vec::new();
        let mut i: usize = 0;
        while i < n
            invariant
                n == small_items(*self).len(),
                i <= n,
                out@ == small_items(*self).take(i as int),
            decreases n - i,
        {
            out.push(small_get(self, i));
            assert(out@ =~= small_items(*self).take(i + 1));
            i = i + 1;
        }
        assert(out@ =~= small_items(*self));
        out
    }
}

} // verus!
