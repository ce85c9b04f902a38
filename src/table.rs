use vstd::prelude::*;

verus! {

/// A table keyed by strings, with each key present at most once.
/// Keys keep the order in which they were first inserted.
pub struct Table<T> {
    pub keys: Vec<String>,
    pub vals: Vec<T>,
}

impl<T: View> Table<T> {
    /// Keys and values pair up, and no key occurs twice.
    pub open spec fn wf(&self) -> bool {
        &&& self.keys@.len() == self.vals@.len()
        &&& forall|i: int, j: int|
            0 <= i < j < self.keys@.len() ==> #[trigger] self.keys@[i]@ != #[trigger] self.keys@[j]@
    }

    /// Whether some entry has key `k`.
    pub open spec fn has(&self, k: Seq<char>) -> bool {
        exists|i: int| 0 <= i < self.keys@.len() && #[trigger] self.keys@[i]@ == k
    }

    /// The position of key `k`, where it is present.
    pub open spec fn index_of(&self, k: Seq<char>) -> int {
        choose|i: int| 0 <= i < self.keys@.len() && #[trigger] self.keys@[i]@ == k
    }

    /// The table as a map from key to the view of its value.
    pub open spec fn map(&self) -> Map<Seq<char>, T::V> {
        Map::new(|k: Seq<char>| self.has(k), |k: Seq<char>| self.vals@[self.index_of(k)]@)
    }

    /// In a well-formed table the entry at `i` is the one its key maps to.
    pub proof fn lemma_index_of(&self, i: int)
        requires
            self.wf(),
            0 <= i < self.keys@.len(),
        ensures
            self.has(self.keys@[i]@),
            self.index_of(self.keys@[i]@) == i,
            self.map().contains_key(self.keys@[i]@),
            self.map()[self.keys@[i]@] == self.vals@[i]@,
    {
        let k = self.keys@[i]@;
        assert(self.keys@[i]@ == k);
        let j = self.index_of(k);
        if j != i {
            if j < i {
                assert(self.keys@[j]@ != self.keys@[i]@);
            } else {
                assert(self.keys@[i]@ != self.keys@[j]@);
            }
        }
    }

    /// An empty table.
    pub fn new() -> (r: Self)
        ensures
            r.wf(),
            r.map() == Map::<Seq<char>, T::V>::empty(),
            r.keys@.len() == 0,
    {
        let r = Table { keys: Vec::new(), vals: Vec::new() };
        assert(r.map() =~= Map::<Seq<char>, T::V>::empty());
        r
    }

    /// The number of entries.
    pub fn len(&self) -> (r: usize)
        ensures
            r == self.keys@.len(),
    {
        self.keys.len()
    }

    /// The position of `key`, if it is present.
    pub fn find(&self, key: &str) -> (r: Option<usize>)
        requires
            self.wf(),
        ensures
            match r {
                Some(i) => i < self.keys@.len() && self.keys@[i as int]@ == key@,
                None => !self.has(key@) && !self.map().contains_key(key@),
            },
    {
        let n = self.keys.len();
        let mut i: usize = 0;
        while i < n
            invariant
                n == self.keys@.len(),
                0 <= i <= n,
                forall|j: int| 0 <= j < i ==> #[trigger] self.keys@[j]@ != key@,
            decreases n - i,
        {
            if crate::models::same_text(self.keys[i].as_str(), key) {
                return Some(i);
            }
            i = i + 1;
        }
        None
    }

    /// Appends a key that is not yet present.
    pub fn push_new(&mut self, key: String, val: T)
        requires
            old(self).wf(),
            !old(self).has(key@),
        ensures
            final(self).wf(),
            final(self).map() == old(self).map().insert(key@, val@),
            final(self).keys@ == old(self).keys@.push(key),
            final(self).vals@ == old(self).vals@.push(val),
    {
        let ghost k = key@;
        let ghost v = val@;
        self.keys.push(key);
        self.vals.push(val);
        let ghost n = self.keys@.len() - 1;
        assert forall|i: int, j: int| 0 <= i < j < self.keys@.len() implies
            #[trigger] self.keys@[i]@ != #[trigger] self.keys@[j]@ by {
            if j == n {
                assert(old(self).keys@[i]@ == self.keys@[i]@);
            } else {
                assert(old(self).keys@[i]@ != old(self).keys@[j]@);
            }
        }
        assert forall|x: Seq<char>| self.has(x) <==> (old(self).has(x) || x == k) by {
            if self.has(x) {
                let i = choose|i: int| 0 <= i < self.keys@.len() && #[trigger] self.keys@[i]@ == x;
                if i < n {
                    assert(old(self).keys@[i]@ == x);
                }
            }
            if old(self).has(x) {
                let i = choose|i: int| 0 <= i < old(self).keys@.len() && #[trigger] old(self).keys@[i]@ == x;
                assert(self.keys@[i]@ == x);
            }
            if x == k {
                assert(self.keys@[n]@ == x);
            }
        }
        assert forall|x: Seq<char>| #[trigger] self.map().contains_key(x) implies
            self.map()[x] == old(self).map().insert(k, v)[x] by {
            let i = self.index_of(x);
            self.lemma_index_of(i);
            if i < n {
                old(self).lemma_index_of(i);
            }
        }
        assert(self.map() =~= old(self).map().insert(k, v));
    }

    /// After the value at `i` is replaced by `val`, the map changes at that key only.
    pub proof fn lemma_update(old_t: &Self, new_t: &Self, i: int, val: T)
        requires
            old_t.wf(),
            0 <= i < old_t.keys@.len(),
            new_t.keys@ == old_t.keys@,
            new_t.vals@ == old_t.vals@.update(i, val),
        ensures
            new_t.wf(),
            new_t.map() == old_t.map().insert(old_t.keys@[i]@, val@),
    {
        assert(new_t.wf());
        assert forall|x: Seq<char>| #[trigger] new_t.map().contains_key(x) implies
            new_t.map()[x] == old_t.map().insert(old_t.keys@[i]@, val@)[x] by {
            let j = new_t.index_of(x);
            new_t.lemma_index_of(j);
            old_t.lemma_index_of(j);
        }
        assert(new_t.map() =~= old_t.map().insert(old_t.keys@[i]@, val@));
    }
    /// Whether the keys are distinct and match the values one for one.
    pub fn is_wf(&self) -> (r: bool)
        ensures
            r == self.wf(),
    {
        if self.keys.len() != self.vals.len() {
            return false;
        }
        let n = self.keys.len();
        let mut j: usize = 0;
        while j < n
            invariant
                n == self.keys@.len(),
                0 <= j <= n,
                forall|a: int, b: int|
                    0 <= a < b < j ==> #[trigger] self.keys@[a]@ != #[trigger] self.keys@[b]@,
            decreases n - j,
        {
            let mut i: usize = 0;
            while i < j
                invariant
                    n == self.keys@.len(),
                    0 <= i <= j < n,
                    forall|a: int| 0 <= a < i ==> #[trigger] self.keys@[a]@ != self.keys@[j as int]@,
                decreases j - i,
            {
                if crate::models::same_text(self.keys[i].as_str(), self.keys[j].as_str()) {
                    return false;
                }
                i = i + 1;
            }
            j = j + 1;
        }
        true
    }

    /// Two tables with the same keys, in the same order, whose values
    /// correspond under `f`, have maps that correspond under `f`.
    pub proof fn lemma_pointwise<U: View>(a: &Self, b: &Table<U>, f: spec_fn(T::V) -> U::V)
        requires
            a.wf(),
            b.keys@.len() == a.keys@.len(),
            b.vals@.len() == a.vals@.len(),
            forall|i: int| 0 <= i < a.keys@.len() ==> (#[trigger] b.keys@[i])@ == a.keys@[i]@,
            forall|i: int| 0 <= i < a.vals@.len() ==> (#[trigger] b.vals@[i])@ == f(a.vals@[i]@),
        ensures
            b.wf(),
            b.map() == a.map().map_values(f),
    {
        assert forall|i: int, j: int| 0 <= i < j < b.keys@.len() implies
            #[trigger] b.keys@[i]@ != #[trigger] b.keys@[j]@ by {
            assert(a.keys@[i]@ != a.keys@[j]@);
            assert(b.keys@[i]@ == a.keys@[i]@);
            assert(b.keys@[j]@ == a.keys@[j]@);
        }
        assert forall|k: Seq<char>| b.has(k) <==> a.has(k) by {
            if b.has(k) {
                let i = choose|i: int| 0 <= i < b.keys@.len() && #[trigger] b.keys@[i]@ == k;
                assert(a.keys@[i]@ == k);
            }
            if a.has(k) {
                let i = choose|i: int| 0 <= i < a.keys@.len() && #[trigger] a.keys@[i]@ == k;
                assert(b.keys@[i]@ == k);
            }
        }
        assert forall|k: Seq<char>| #[trigger] b.map().contains_key(k) implies b.map()[k]
            == a.map().map_values(f)[k] by {
            let i = b.index_of(k);
            b.lemma_index_of(i);
            a.lemma_index_of(i);
        }
        assert(b.map() =~= a.map().map_values(f));
    }
}

} // verus!
