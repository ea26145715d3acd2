//! A map from text to values that keeps the order in which keys came in.
use vstd::prelude::*;

verus! {

/// Whether two texts hold the same characters.
pub fn same_text(a: &str, b: &str) -> (r: bool)
    ensures
        r == (a@ == b@),
{
    a.to_owned() == b.to_owned()
}

pub struct TextMap<V> {
    pub entries: Vec<(String, V)>,
}

impl<V> TextMap<V> {
    /// No key occurs twice.
    pub open spec fn wf(self) -> bool {
        forall|i: int, j: int|
            0 <= i < j < self.entries.len() ==> #[trigger] self.entries[i].0@
                != #[trigger] self.entries[j].0@
    }

    pub open spec fn holds_at(self, key: Seq<char>, i: int) -> bool {
        0 <= i < self.entries.len() && self.entries[i].0@ == key
    }

    pub open spec fn place(self, key: Seq<char>) -> int {
        choose|i: int| self.holds_at(key, i)
    }

    /// The keys in the order in which they came in.
    pub open spec fn key_seq(self) -> Seq<Seq<char>> {
        Seq::new(self.entries@.len(), |i: int| self.entries[i].0@)
    }
}

impl<V> View for TextMap<V> {
    type V = Map<Seq<char>, V>;

    open spec fn view(&self) -> Map<Seq<char>, V> {
        Map::new(
            |k: Seq<char>| exists|i: int| self.holds_at(k, i),
            |k: Seq<char>| self.entries[self.place(k)].1,
        )
    }
}

impl<V> TextMap<V> {
    /// A well-formed map gives for the key of an entry that entry's value.
    pub proof fn lemma_entry(self, i: int)
        requires
            self.wf(),
            0 <= i < self.entries.len(),
        ensures
            self@.contains_key(self.entries[i].0@),
            self@[self.entries[i].0@] == self.entries[i].1,
            self.place(self.entries[i].0@) == i,
    {
        let k = self.entries[i].0@;
        assert(self.holds_at(k, i));
        let j = self.place(k);
        assert(self.holds_at(k, j));
        if i < j {
            assert(self.entries[i].0@ != self.entries[j].0@);
        }
        if j < i {
            assert(self.entries[j].0@ != self.entries[i].0@);
        }
    }

    proof fn lemma_place(self, key: Seq<char>)
        requires
            self@.contains_key(key),
        ensures
            self.holds_at(key, self.place(key)),
    {
        let i = choose|i: int| self.holds_at(key, i);
        assert(self.holds_at(key, i));
    }

    pub fn new() -> (r: Self)
        ensures
            r.wf(),
            r@ == Map::<Seq<char>, V>::empty(),
            r.entries@.len() == 0,
    {
        let r = TextMap { entries: Vec::new() };
        assert(r@ =~= Map::<Seq<char>, V>::empty());
        r
    }

    pub fn position(&self, key: &str) -> (r: Option<usize>)
        requires
            self.wf(),
        ensures
            match r {
                Some(i) => self.holds_at(key@, i as int) && self@.contains_key(key@)
                    && self@[key@] == self.entries[i as int].1,
                None => !self@.contains_key(key@),
            },
    {
        let mut i: usize = 0;
        while i < self.entries.len()
            invariant
                self.wf(),
                i <= self.entries.len(),
                forall|j: int| 0 <= j < i ==> (#[trigger] self.entries[j]).0@ != key@,
            decreases self.entries.len() - i,
        {
            if same_text(self.entries[i].0.as_str(), key) {
                proof {
                    self.lemma_entry(i as int);
                }
                return Some(i);
            }
            i = i + 1;
        }
        proof {
            if self@.contains_key(key@) {
                self.lemma_place(key@);
            }
        }
        None
    }

    pub fn contains_key(&self, key: &str) -> (r: bool)
        requires
            self.wf(),
        ensures
            r == self@.contains_key(key@),
    {
        self.position(key).is_some()
    }

    pub fn get(&self, key: &str) -> (r: Option<&V>)
        requires
            self.wf(),
        ensures
            match r {
                Some(v) => self@.contains_key(key@) && *v == self@[key@],
                None => !self@.contains_key(key@),
            },
    {
        match self.position(key) {
            Some(i) => Some(&self.entries[i].1),
            None => None,
        }
    }

    /// The keys in the order in which they came in.
    pub fn keys(&self) -> (r: Vec<String>)
        ensures
            r@.len() == self.entries@.len(),
            forall|i: int| 0 <= i < r@.len() ==> #[trigger] r@[i] == self.entries[i].0,
    {
        let mut out: Vec<String> = Vec::new();
        let mut i: usize = 0;
        while i < self.entries.len()
            invariant
                i <= self.entries.len(),
                out@.len() == i,
                forall|j: int| 0 <= j < i ==> #[trigger] out@[j] == self.entries[j].0,
            decreases self.entries.len() - i,
        {
            out.push(self.entries[i].0.clone());
            i = i + 1;
        }
        out
    }

    pub fn len(&self) -> (r: usize)
        ensures
            r == self.entries@.len(),
    {
        self.entries.len()
    }

    /// Replaces the value of a key that is there, or puts a new key last.
    pub fn insert(&mut self, key: String, value: V)
        requires
            old(self).wf(),
        ensures
            final(self).wf(),
            final(self)@ == old(self)@.insert(key@, value),
            final(self).key_seq() == (if old(self)@.contains_key(key@) {
                old(self).key_seq()
            } else {
                old(self).key_seq().push(key@)
            }),
    {
        let ghost before = *self;
        match self.position(key.as_str()) {
            Some(i) => {
                self.entries[i].1 = value;
                proof {
                    assert(self.key_seq() =~= before.key_seq());
                    assert forall|a: int, b: int| 0 <= a < b < self.entries.len() implies (
                    #[trigger] self.entries[a]).0@ != (#[trigger] self.entries[b]).0@ by {
                        assert(before.entries[a].0@ != before.entries[b].0@);
                    }
                    self.lemma_same_keys(before, i as int, value);
                }
            },
            None => {
                self.entries.push((key, value));
                proof {
                    assert(self.key_seq() =~= before.key_seq().push(key@));
                    assert forall|a: int, b: int| 0 <= a < b < self.entries.len() implies (
                    #[trigger] self.entries[a]).0@ != (#[trigger] self.entries[b]).0@ by {
                        if b < before.entries.len() {
                            assert(before.entries[a].0@ != before.entries[b].0@);
                        } else {
                            before.lemma_entry(a);
                        }
                    }
                    assert forall|k: Seq<char>| #[trigger] self@.contains_key(k) == before@.insert(
                        key@,
                        value,
                    ).contains_key(k) by {
                        if self@.contains_key(k) {
                            self.lemma_place(k);
                            let p = self.place(k);
                            if p < before.entries.len() {
                                assert(before.holds_at(k, p));
                            }
                        }
                        if before@.contains_key(k) {
                            before.lemma_place(k);
                            assert(self.holds_at(k, before.place(k)));
                        }
                        assert(self.holds_at(key@, before.entries.len() as int));
                    }
                    assert forall|k: Seq<char>| #[trigger] self@.contains_key(k) implies self@[k]
                        == before@.insert(key@, value)[k] by {
                        self.lemma_place(k);
                        let p = self.place(k);
                        self.lemma_entry(p);
                        if p < before.entries.len() {
                            before.lemma_entry(p);
                        }
                    }
                    assert(self@ =~= before@.insert(key@, value));
                }
            },
        }
    }

    proof fn lemma_same_keys(self, before: Self, i: int, value: V)
        requires
            self.wf(),
            before.wf(),
            0 <= i < before.entries.len(),
            self.entries.len() == before.entries.len(),
            forall|j: int|
                0 <= j < self.entries.len() ==> (#[trigger] self.entries[j]).0@
                    == before.entries[j].0@,
            forall|j: int|
                0 <= j < self.entries.len() && j != i ==> (#[trigger] self.entries[j]).1
                    == before.entries[j].1,
            self.entries[i].1 == value,
        ensures
            self@ == before@.insert(before.entries[i].0@, value),
    {
        let key = before.entries[i].0@;
        assert forall|k: Seq<char>| #[trigger] self@.contains_key(k) == before@.insert(
            key,
            value,
        ).contains_key(k) by {
            if self@.contains_key(k) {
                self.lemma_place(k);
                assert(before.holds_at(k, self.place(k)));
            }
            if before@.contains_key(k) {
                before.lemma_place(k);
                assert(self.entries[before.place(k)].0@ == k);
                assert(self.holds_at(k, before.place(k)));
            }
            assert(self.entries[i].0@ == key);
            assert(self.holds_at(key, i));
        }
        assert forall|k: Seq<char>| #[trigger] self@.contains_key(k) implies self@[k]
            == before@.insert(key, value)[k] by {
            self.lemma_place(k);
            let p = self.place(k);
            self.lemma_entry(p);
            before.lemma_entry(p);
        }
        assert(self@ =~= before@.insert(key, value));
    }

    /// A place in the map whose value can be changed.
    pub fn get_mut(&mut self, key: &str) -> (r: Option<&mut V>)
        requires
            old(self).wf(),
        ensures
            match r {
                Some(v) => {
                    &&& old(self)@.contains_key(key@)
                    &&& *v == old(self)@[key@]
                    &&& final(self).wf()
                    &&& final(self)@ == old(self)@.insert(key@, *final(v))
                    &&& final(self).key_seq() == old(self).key_seq()
                },
                None => !old(self)@.contains_key(key@) && *final(self) == *old(self),
            },
    {
        match self.position(key) {
            Some(i) => {
                let ghost before = *self;
                let r = &mut self.entries[i].1;
                proof {
                    let after = after_borrow(*self);
                    assert(after.key_seq() =~= before.key_seq());
                    assert forall|a: int, b: int| 0 <= a < b < after.entries.len() implies (
                    #[trigger] after.entries[a]).0@ != (#[trigger] after.entries[b]).0@ by {
                        assert(before.entries[a].0@ != before.entries[b].0@);
                    }
                    after.lemma_same_keys(before, i as int, *final(r));
                }
                Some(r)
            },
            None => None,
        }
    }

    /// Takes a key out; the others keep their order.
    pub fn remove(&mut self, key: &str) -> (r: Option<V>)
        requires
            old(self).wf(),
        ensures
            final(self).wf(),
            final(self)@ == old(self)@.remove(key@),
            match r {
                Some(v) => old(self)@.contains_key(key@) && v == old(self)@[key@],
                None => !old(self)@.contains_key(key@) && *final(self) == *old(self),
            },
    {
        let ghost before = *self;
        match self.position(key) {
            Some(i) => {
                let (_, value) = self.entries.remove(i);
                proof {
                    assert forall|a: int, b: int| 0 <= a < b < self.entries.len() implies (
                    #[trigger] self.entries[a]).0@ != (#[trigger] self.entries[b]).0@ by {
                        let x = if a < i {
                            a
                        } else {
                            a + 1
                        };
                        let y = if b < i {
                            b
                        } else {
                            b + 1
                        };
                        assert(before.entries[x].0@ != before.entries[y].0@);
                    }
                    assert forall|k: Seq<char>| #[trigger] self@.contains_key(k) == before@.remove(
                        key@,
                    ).contains_key(k) by {
                        if self@.contains_key(k) {
                            self.lemma_place(k);
                            let p = self.place(k);
                            let q = if p < i {
                                p
                            } else {
                                p + 1
                            };
                            before.lemma_entry(q);
                            if k == key@ {
                                before.lemma_entry(i as int);
                            }
                        }
                        if before@.contains_key(k) && k != key@ {
                            before.lemma_place(k);
                            let p = before.place(k);
                            let q = if p < i {
                                p
                            } else {
                                p - 1
                            };
                            assert(self.holds_at(k, q));
                        }
                    }
                    assert forall|k: Seq<char>| #[trigger] self@.contains_key(k) implies self@[k]
                        == before@.remove(key@)[k] by {
                        self.lemma_place(k);
                        let p = self.place(k);
                        self.lemma_entry(p);
                        let q = if p < i {
                            p
                        } else {
                            p + 1
                        };
                        before.lemma_entry(q);
                    }
                    assert(self@ =~= before@.remove(key@));
                }
                Some(value)
            },
            None => {
                proof {
                    assert(self@ =~= before@.remove(key@));
                }
                None
            },
        }
    }
}

} // verus!
