use vstd::prelude::*;

verus! {

/// A set of packet identifier values.
#[derive(Debug)]
pub struct IdSet {
    items: Vec<u32>,
}

impl View for IdSet {
    type V = Set<u32>;

    closed spec fn view(&self) -> Set<u32> {
        self.items@.to_set()
    }
}

impl IdSet {
    #[verifier::type_invariant]
    closed spec fn inv(self) -> bool {
        self.items@.no_duplicates()
    }

    /// An empty set.
    pub fn new() -> (r: IdSet)
        ensures
            r@ == Set::<u32>::empty(),
    {
        let r = IdSet { items: Vec::new() };
        assert(r@ =~= Set::<u32>::empty());
        r
    }

    fn find(&self, v: u32) -> (r: Option<usize>)
        ensures
            r matches Some(i) ==> i < self.items@.len() && self.items@[i as int] == v,
            r is None ==> !self.items@.contains(v),
    {
        let mut i: usize = 0;
        while i < self.items.len()
            invariant
                i <= self.items@.len(),
                forall|k: int| 0 <= k < i ==> self.items@[k] != v,
            decreases self.items@.len() - i,
        {
            if self.items[i] == v {
                return Some(i);
            }
            i = i + 1;
        }
        None
    }

    pub fn contains(&self, v: u32) -> (r: bool)
        ensures
            r == self@.contains(v),
    {
        self.find(v).is_some()
    }

    /// Adds `v`; whether it was absent.
    pub fn insert(&mut self, v: u32) -> (r: bool)
        ensures
            final(self)@ == old(self)@.insert(v),
            r == !old(self)@.contains(v),
    {
        proof { use_type_invariant(&*self); }
        if self.find(v).is_some() {
            assert(self@ =~= old(self)@.insert(v));
            return false;
        }
        let ghost before = self.items@;
        let mut items: Vec<u32> = Vec::new();
        std::mem::swap(&mut items, &mut self.items);
        items.push(v);
        proof {
            assert(items@ == before.push(v));
            assert forall|i: int, j: int| 0 <= i < j < items@.len() implies items@[i] != items@[j] by {
                if j == items@.len() - 1 {
                    if items@[i] == v {
                        assert(before[i] == v);
                    }
                }
            }
        }
        proof {
            assert forall|x: u32| items@.contains(x) <==> (before.contains(x) || x == v) by {
                if items@.contains(x) {
                    let k = choose|k: int| 0 <= k < items@.len() && items@[k] == x;
                    if k < before.len() {
                        assert(before[k] == x);
                    }
                }
                if before.contains(x) {
                    let k = choose|k: int| 0 <= k < before.len() && before[k] == x;
                    assert(items@[k] == x);
                }
                if x == v {
                    assert(items@[before.len() as int] == x);
                }
            }
        }
        self.items = items;
        assert(self@ =~= old(self)@.insert(v));
        true
    }

    /// Removes `v`; whether it was present.
    pub fn remove(&mut self, v: u32) -> (r: bool)
        ensures
            final(self)@ == old(self)@.remove(v),
            r == old(self)@.contains(v),
    {
        proof { use_type_invariant(&*self); }
        match self.find(v) {
            None => {
                assert(self@ =~= old(self)@.remove(v));
                false
            },
            Some(i) => {
                let ghost before = self.items@;
                let mut items: Vec<u32> = Vec::new();
                std::mem::swap(&mut items, &mut self.items);
                let _ = items.remove(i);
                proof {
                    assert(items@ == before.remove(i as int));
                    assert forall|x: u32| items@.contains(x) <==> (before.contains(x) && x != v) by {
                        if items@.contains(x) {
                            let k = choose|k: int| 0 <= k < items@.len() && items@[k] == x;
                            if k < i {
                                assert(before[k] == x);
                                assert(x != v);
                            } else {
                                assert(before[k + 1] == x);
                                assert(x != v);
                            }
                        }
                        if before.contains(x) && x != v {
                            let k = choose|k: int| 0 <= k < before.len() && before[k] == x;
                            assert(k != i);
                            if k < i {
                                assert(items@[k] == x);
                            } else {
                                assert(items@[k - 1] == x);
                            }
                        }
                    }
                    assert forall|a: int, b: int| 0 <= a < b < items@.len() implies items@[a] != items@[b] by {
                        let a0 = if a < i { a } else { a + 1 };
                        let b0 = if b < i { b } else { b + 1 };
                        assert(items@[a] == before[a0] && items@[b] == before[b0]);
                    }
                }
                self.items = items;
                assert(self@ =~= old(self)@.remove(v));
                true
            },
        }
    }

    /// Removes every value.
    pub fn clear(&mut self)
        ensures
            final(self)@ == Set::<u32>::empty(),
    {
        self.items = Vec::new();
        assert(self@ =~= Set::<u32>::empty());
    }

    pub fn is_empty(&self) -> (r: bool)
        ensures
            r == (self@ == Set::<u32>::empty()),
    {
        if self.items.len() == 0 {
            assert(self@ =~= Set::<u32>::empty());
            true
        } else {
            assert(self@.contains(self.items@[0]));
            false
        }
    }

    /// Number of values in the set.
    pub fn len(&self) -> (r: usize)
        ensures
            r == self@.len(),
            self@.finite(),
    {
        proof {
            use_type_invariant(self);
            self.items@.unique_seq_to_set();
        }
        self.items.len()
    }

    /// The values, in no particular order.
    pub fn values(&self) -> (r: Vec<u32>)
        ensures
            r@.to_set() == self@,
            r@.no_duplicates(),
    {
        proof { use_type_invariant(self); }
        let mut r: Vec<u32> = Vec::new();
        let mut i: usize = 0;
        while i < self.items.len()
            invariant
                i <= self.items@.len(),
                r@ == self.items@.take(i as int),
            decreases self.items@.len() - i,
        {
            r.push(self.items[i]);
            proof { assert(self.items@.take(i as int).push(self.items@[i as int]) =~= self.items@.take(i + 1)); }
            i = i + 1;
        }
        assert(self.items@.take(i as int) =~= self.items@);
        r
    }

    /// Removes and returns every value.
    pub fn drain(&mut self) -> (r: Vec<u32>)
        ensures
            r@.to_set() == old(self)@,
            r@.no_duplicates(),
            final(self)@ == Set::<u32>::empty(),
    {
        let r = self.values();
        self.clear();
        r
    }
}

} // verus!
