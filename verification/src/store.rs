use vstd::prelude::*;

verus! {

/// A map from names to values that keeps one entry per name.
pub struct StringMap<V> {
    entries: Vec<(String, V)>,
}

impl<V> StringMap<V> {
    #[verifier::type_invariant]
    spec fn names_distinct(self) -> bool {
        forall|i: int, j: int|
            0 <= i < j < self.entries@.len() ==> #[trigger] self.entries@[i].0@
                != #[trigger] self.entries@[j].0@
    }

    /// Some entry has this name.
    spec fn has_entry(entries: Seq<(String, V)>, k: Seq<char>) -> bool {
        exists|i: int| 0 <= i < entries.len() && #[trigger] entries[i].0@ == k
    }

    /// The index of an entry with this name.
    spec fn entry_of(entries: Seq<(String, V)>, k: Seq<char>) -> int {
        choose|i: int| 0 <= i < entries.len() && #[trigger] entries[i].0@ == k
    }
}

impl<V: View> View for StringMap<V> {
    type V = Map<Seq<char>, V::V>;

    closed spec fn view(&self) -> Map<Seq<char>, V::V> {
        Map::new(
            |k: Seq<char>| Self::has_entry(self.entries@, k),
            |k: Seq<char>| self.entries@[Self::entry_of(self.entries@, k)].1@,
        )
    }
}

impl<V: View> StringMap<V> {
    proof fn lemma_entry(self, i: int)
        requires
            self.names_distinct(),
            0 <= i < self.entries@.len(),
        ensures
            self@.dom().contains(self.entries@[i].0@),
            self@[self.entries@[i].0@] == self.entries@[i].1@,
    {
        let k = self.entries@[i].0@;
        assert(Self::has_entry(self.entries@, k));
        let j = Self::entry_of(self.entries@, k);
        if j < i {
            assert(self.entries@[j].0@ != self.entries@[i].0@);
        } else if i < j {
            assert(self.entries@[i].0@ != self.entries@[j].0@);
        }
    }

    /// An empty map.
    pub fn new() -> (m: Self)
        ensures
            m@ == Map::<Seq<char>, V::V>::empty(),
    {
        let m = StringMap { entries: Vec::new() };
        assert(m@ =~= Map::<Seq<char>, V::V>::empty());
        m
    }

    fn find_in(entries: &Vec<(String, V)>, name: &String) -> (index: Option<usize>)
        ensures
            index matches Some(i) ==> i < entries@.len() && entries@[i as int].0@ == name@,
            index is None ==> forall|k: int| 0 <= k < entries@.len() ==> entries@[k].0@ != name@,
    {
        let mut i: usize = 0;
        while i < entries.len()
            invariant
                i <= entries@.len(),
                forall|k: int| 0 <= k < i ==> entries@[k].0@ != name@,
            decreases entries@.len() - i,
        {
            if entries[i].0 == *name {
                return Some(i);
            }
            i += 1;
        }
        None
    }

    /// The value stored under `name`, if any.
    pub fn get(&self, name: &String) -> (value: Option<&V>)
        ensures
            value is Some <==> self@.dom().contains(name@),
            value matches Some(v) ==> v@ == self@[name@],
    {
        proof {
            use_type_invariant(self);
        }
        match Self::find_in(&self.entries, name) {
            Some(i) => {
                proof {
                    self.lemma_entry(i as int);
                }
                Some(&self.entries[i].1)
            },
            None => {
                assert(!Self::has_entry(self.entries@, name@));
                None
            },
        }
    }

    /// Stores `value` under `name`, replacing what was stored there.
    pub fn insert(&mut self, name: String, value: V)
        ensures
            final(self)@ == old(self)@.insert(name@, value@),
    {
        proof {
            use_type_invariant(&*self);
        }
        let ghost before = *self;
        let ghost k = name@;
        let ghost v = value@;
        let ghost idx: int;
        let mut entries: Vec<(String, V)> = Vec::new();
        std::mem::swap(&mut entries, &mut self.entries);
        match Self::find_in(&entries, &name) {
            Some(i) => {
                proof {
                    idx = i as int;
                }
                entries.set(i, (name, value));
            },
            None => {
                proof {
                    idx = before.entries@.len() as int;
                }
                entries.push((name, value));
            },
        }
        proof {
            assert(entries@[idx].0@ == k && entries@[idx].1@ == v);
            assert forall|a: int, b: int|
                0 <= a < b < entries@.len() implies #[trigger] entries@[a].0@
                != #[trigger] entries@[b].0@ by {
                if b < before.entries@.len() {
                    assert(before.entries@[a].0@ != before.entries@[b].0@);
                }
            }
        }
        self.entries = entries;
        proof {
            let after = *self;
            assert forall|n: Seq<char>|
                #[trigger] after@.dom().contains(n) == before@.insert(k, v).dom().contains(n) by {
                if before@.dom().contains(n) {
                    let j = Self::entry_of(before.entries@, n);
                    assert(after.entries@[j].0@ == n);
                }
                if after@.dom().contains(n) && n != k {
                    let j = Self::entry_of(after.entries@, n);
                    assert(before.entries@[j].0@ == n);
                }
                if n == k {
                    assert(after.entries@[idx].0@ == n);
                }
            }
            assert forall|n: Seq<char>| #[trigger] after@.dom().contains(n) implies after@[n]
                == before@.insert(k, v)[n] by {
                let j = Self::entry_of(after.entries@, n);
                after.lemma_entry(j);
                if n != k {
                    before.lemma_entry(j);
                }
            }
            assert(after@ =~= before@.insert(k, v));
        }
    }
}

} // verus!
