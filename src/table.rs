//! A flat table from names to entries: names are unique, and storing under
//! a name that is present replaces its entry.
use vstd::prelude::*;

verus! {

pub struct Table<V> {
    pub names: Vec<String>,
    pub entries: Vec<V>,
}

impl<V> Table<V> {
    pub open spec fn wf(&self) -> bool {
        &&& self.names@.len() == self.entries@.len()
        &&& forall|i: int, j: int|
            0 <= i < j < self.names@.len() ==> #[trigger] self.names@[i]@
                != #[trigger] self.names@[j]@
    }

    pub open spec fn has(&self, k: Seq<char>) -> bool {
        exists|j: int| 0 <= j < self.names@.len() && #[trigger] self.names@[j]@ == k
    }

    pub open spec fn slot(&self, k: Seq<char>) -> int {
        choose|j: int| 0 <= j < self.names@.len() && #[trigger] self.names@[j]@ == k
    }

    pub open spec fn view(&self) -> Map<Seq<char>, V> {
        Map::new(|k: Seq<char>| self.has(k), |k: Seq<char>| self.entries@[self.slot(k)])
    }

    proof fn lemma_slot(&self, j: int)
        requires
            self.wf(),
            0 <= j < self.names@.len(),
        ensures
            self.has(self.names@[j]@),
            self.slot(self.names@[j]@) == j,
            self.view()[self.names@[j]@] == self.entries@[j],
    {
        let k = self.names@[j]@;
        assert(self.has(k));
        let s = self.slot(k);
        if s != j {
            if s < j {
                assert(self.names@[s]@ != self.names@[j]@);
            } else {
                assert(self.names@[j]@ != self.names@[s]@);
            }
        }
    }

    pub fn new() -> (r: Table<V>)
        ensures
            r.wf(),
            r.view() == Map::<Seq<char>, V>::empty(),
    {
        let r = Table { names: Vec::new(), entries: Vec::new() };
        assert(r.view() =~= Map::<Seq<char>, V>::empty());
        r
    }

    /// The position of `k`, if it is present.
    pub fn find(&self, k: &String) -> (r: Option<usize>)
        requires
            self.wf(),
        ensures
            r is None <==> !self.view().contains_key(k@),
            r matches Some(j) ==> j < self.names@.len() && self.names@[j as int]@ == k@
                && self.view()[k@] == self.entries@[j as int],
    {
        let mut i: usize = 0;
        while i < self.names.len()
            invariant
                self.wf(),
                i <= self.names@.len(),
                forall|j: int| 0 <= j < i ==> #[trigger] self.names@[j]@ != k@,
            decreases self.names@.len() - i,
        {
            if self.names[i].eq(k) {
                proof {
                    self.lemma_slot(i as int);
                }
                return Some(i);
            }
            i = i + 1;
        }
        None
    }

    /// Binds `k` to `v`, replacing an earlier binding of `k`.
    pub fn insert(&mut self, k: String, v: V)
        requires
            old(self).wf(),
        ensures
            final(self).wf(),
            final(self).view() == old(self).view().insert(k@, v),
    {
        match self.find(&k) {
            Some(j) => {
                self.entries.set(j, v);
                proof {
                    assert forall|x: Seq<char>| #[trigger] self.has(x) == old(self).has(x) by {
                        if old(self).has(x) {
                            let i = old(self).slot(x);
                            assert(self.names@[i]@ == x);
                        }
                    }
                    assert forall|x: Seq<char>| self.has(x) implies self.view()[x] == old(
                        self,
                    ).view().insert(k@, v)[x] by {
                        let i = self.slot(x);
                        self.lemma_slot(i);
                        old(self).lemma_slot(i);
                    }
                    assert(self.view() =~= old(self).view().insert(k@, v));
                }
            },
            None => {
                let ghost kv = k@;
                self.names.push(k);
                self.entries.push(v);
                proof {
                    let n = old(self).names@.len() as int;
                    assert(self.names@[n]@ == kv);
                    assert forall|x: Seq<char>| #[trigger] self.has(x) == (old(self).has(x) || x
                        == kv) by {
                        if old(self).has(x) {
                            let i = old(self).slot(x);
                            assert(self.names@[i]@ == x);
                        }
                        if self.has(x) {
                            let i = self.slot(x);
                            if i < n {
                                assert(old(self).names@[i]@ == x);
                            }
                        }
                    }
                    assert forall|x: Seq<char>| self.has(x) implies self.view()[x] == old(
                        self,
                    ).view().insert(kv, v)[x] by {
                        let i = self.slot(x);
                        self.lemma_slot(i);
                        if i < n {
                            old(self).lemma_slot(i);
                        }
                    }
                    assert(self.view() =~= old(self).view().insert(kv, v));
                }
            },
        }
    }
}

} // verus!
