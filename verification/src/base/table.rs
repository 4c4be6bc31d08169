//! A table keyed by text.
use super::text::same;
use vstd::prelude::*;

verus! {

/// A map from text to values: no key stands in it twice, and the keys keep the
/// order in which they first came.
pub struct Table<V> {
    keys: Vec<String>,
    values: Vec<V>,
}

impl<V> View for Table<V> {
    type V = Map<Seq<char>, V>;

    closed spec fn view(&self) -> Map<Seq<char>, V> {
        Map::new(
            |k: Seq<char>| exists|i: int| 0 <= i < self.keys.len() && (#[trigger] self.keys[i])@ == k,
            |k: Seq<char>| self.values[self.position(k)],
        )
    }
}

impl<V> Table<V> {
    /// The keys in the order in which they first came.
    pub closed spec fn order(self) -> Seq<Seq<char>> {
        Seq::new(self.keys.len() as nat, |i: int| self.keys[i]@)
    }

    closed spec fn position(self, k: Seq<char>) -> int {
        choose|i: int| 0 <= i < self.keys.len() && (#[trigger] self.keys[i])@ == k
    }

    #[verifier::type_invariant]
    closed spec fn distinct(self) -> bool {
        &&& self.keys.len() == self.values.len()
        &&& forall|i: int, j: int|
            #![trigger self.keys[i], self.keys[j]]
            0 <= i < j < self.keys.len() ==> self.keys[i]@ != self.keys[j]@
    }

    proof fn lemma_at(self, i: int)
        requires
            self.distinct(),
            0 <= i < self.keys.len(),
        ensures
            self@.contains_key(self.keys[i]@),
            self@[self.keys[i]@] == self.values[i],
            self.order()[i] == self.keys[i]@,
    {
        let k = self.keys[i]@;
        let p = self.position(k);
        assert(0 <= p < self.keys.len() && self.keys[p]@ == k);
        if p < i {
            assert(self.keys[p]@ != self.keys[i]@);
        } else if i < p {
            assert(self.keys[i]@ != self.keys[p]@);
        }
    }

    /// The empty table.
    pub fn new() -> (r: Table<V>)
        ensures
            r@ == Map::<Seq<char>, V>::empty(),
            r.order() == Seq::<Seq<char>>::empty(),
    {
        let r = Table { keys: Vec::new(), values: Vec::new() };
        assert(r@ =~= Map::<Seq<char>, V>::empty());
        assert(r.order() =~= Seq::<Seq<char>>::empty());
        r
    }

    /// The number of keys, each of which stands in the order once.
    pub fn len(&self) -> (n: usize)
        ensures
            n == self.order().len(),
            n == self@.dom().len(),
            self@.dom().finite(),
            self.order().no_duplicates(),
            self.order().to_set() == self@.dom(),
    {
        proof {
            use_type_invariant(self);
            lemma_order_is_domain(*self);
        }
        self.keys.len()
    }

    fn find(&self, key: &str) -> (r: Option<usize>)
        ensures
            match r {
                Some(i) => i < self.keys.len() && self.keys[i as int]@ == key@,
                None => forall|i: int| 0 <= i < self.keys.len() ==> (#[trigger] self.keys[i])@ != key@,
            },
    {
        let mut i: usize = 0;
        while i < self.keys.len()
            invariant
                i <= self.keys.len(),
                forall|j: int| 0 <= j < i ==> (#[trigger] self.keys[j])@ != key@,
            decreases self.keys.len() - i,
        {
            if same(self.keys[i].as_str(), key) {
                return Some(i);
            }
            i = i + 1;
        }
        None
    }

    /// Whether the key has a value.
    pub fn contains(&self, key: &str) -> (r: bool)
        ensures
            r == self@.contains_key(key@),
    {
        proof {
            use_type_invariant(self);
        }
        match self.find(key) {
            Some(i) => {
                proof {
                    self.lemma_at(i as int);
                }
                true
            },
            None => false,
        }
    }

    /// The value of a key.
    pub fn get(&self, key: &str) -> (r: Option<&V>)
        ensures
            match r {
                Some(v) => self@.contains_key(key@) && *v == self@[key@],
                None => !self@.contains_key(key@),
            },
    {
        proof {
            use_type_invariant(self);
        }
        match self.find(key) {
            Some(i) => {
                proof {
                    self.lemma_at(i as int);
                }
                Some(&self.values[i])
            },
            None => None,
        }
    }

    /// The `i`-th key in the order in which the keys came.
    pub fn key_at(&self, i: usize) -> (r: &String)
        requires
            i < self.order().len(),
        ensures
            r@ == self.order()[i as int],
            self@.contains_key(r@),
    {
        proof {
            use_type_invariant(self);
            self.lemma_at(i as int);
        }
        &self.keys[i]
    }

    /// The value of the `i`-th key in the order in which the keys came.
    pub fn value_at(&self, i: usize) -> (r: &V)
        requires
            i < self.order().len(),
        ensures
            self@.contains_key(self.order()[i as int]),
            *r == self@[self.order()[i as int]],
    {
        proof {
            use_type_invariant(self);
            self.lemma_at(i as int);
        }
        &self.values[i]
    }

    /// Gives the key the value, in place of the one it had.
    pub fn insert(&mut self, key: String, value: V)
        ensures
            final(self)@ == old(self)@.insert(key@, value),
            final(self).order() == if old(self)@.contains_key(key@) {
                old(self).order()
            } else {
                old(self).order().push(key@)
            },
    {
        proof {
            use_type_invariant(&*self);
        }
        let ghost before = *self;
        let ghost k = key@;
        let found = self.find(key.as_str());
        let mut whole: Table<V> = Table::new();
        std::mem::swap(&mut whole, self);
        let Table { mut keys, mut values } = whole;
        match found {
            Some(i) => {
                values.set(i, value);
            },
            None => {
                keys.push(key);
                values.push(value);
            },
        }
        *self = Table { keys, values };
        proof {
            let after = *self;
            match found {
                Some(i) => {
                    before.lemma_at(i as int);
                    assert(after.order() =~= before.order());
                },
                None => {
                    assert(!before@.contains_key(k));
                    assert(after.order() =~= before.order().push(k));
                },
            }
            let at = match found {
                Some(i) => i as int,
                None => before.keys.len() as int,
            };
            after.lemma_at(at);
            assert forall|x: Seq<char>|
                before@.insert(k, value).contains_key(x) <==> after@.contains_key(x) by {
                if before@.contains_key(x) {
                    let i = choose|i: int| 0 <= i < before.keys.len() && (#[trigger] before.keys[i])@ == x;
                    after.lemma_at(i);
                }
                if after@.contains_key(x) && x != k {
                    let i = choose|i: int| 0 <= i < after.keys.len() && (#[trigger] after.keys[i])@ == x;
                    before.lemma_at(i);
                }
            }
            assert forall|x: Seq<char>|
                #[trigger] after@.contains_key(x) implies after@[x] == before@.insert(k, value)[x] by {
                if x != k {
                    let i = choose|i: int| 0 <= i < after.keys.len() && (#[trigger] after.keys[i])@ == x;
                    after.lemma_at(i);
                    before.lemma_at(i);
                }
            }
            assert(after@ =~= before@.insert(k, value));
        }
    }

    /// Gives the `i`-th key another value, and hands out the one it had.
    pub fn replace_at(&mut self, i: usize, value: V) -> (r: V)
        requires
            i < old(self).order().len(),
        ensures
            old(self)@.contains_key(old(self).order()[i as int]),
            r == old(self)@[old(self).order()[i as int]],
            final(self)@ == old(self)@.insert(old(self).order()[i as int], value),
            final(self).order() == old(self).order(),
    {
        proof {
            use_type_invariant(&*self);
        }
        let ghost before = *self;
        let ghost k = before.order()[i as int];
        let mut whole: Table<V> = Table::new();
        std::mem::swap(&mut whole, self);
        let Table { keys, mut values } = whole;
        values.push(value);
        let r = values.swap_remove(i);
        assert(values@ =~= before.values@.update(i as int, value));
        *self = Table { keys, values };
        proof {
            let after = *self;
            before.lemma_at(i as int);
            after.lemma_at(i as int);
            assert(after.order() =~= before.order());
            assert forall|x: Seq<char>|
                before@.insert(k, value).contains_key(x) <==> after@.contains_key(x) by {
                if before@.contains_key(x) {
                    let j = choose|j: int| 0 <= j < before.keys.len() && (#[trigger] before.keys[j])@ == x;
                    after.lemma_at(j);
                }
                if after@.contains_key(x) && x != k {
                    let j = choose|j: int| 0 <= j < after.keys.len() && (#[trigger] after.keys[j])@ == x;
                    before.lemma_at(j);
                }
            }
            assert forall|x: Seq<char>|
                #[trigger] after@.contains_key(x) implies after@[x] == before@.insert(k, value)[x] by {
                if x != k {
                    let j = choose|j: int| 0 <= j < after.keys.len() && (#[trigger] after.keys[j])@ == x;
                    after.lemma_at(j);
                    before.lemma_at(j);
                }
            }
            assert(after@ =~= before@.insert(k, value));
        }
        r
    }

    /// Takes the key and its value out.
    pub fn remove(&mut self, key: &str) -> (r: Option<V>)
        ensures
            final(self)@ == old(self)@.remove(key@),
            match r {
                Some(v) => old(self)@.contains_key(key@) && v == old(self)@[key@],
                None => !old(self)@.contains_key(key@) && final(self).order() == old(self).order(),
            },
    {
        proof {
            use_type_invariant(&*self);
        }
        let ghost before = *self;
        let ghost k = key@;
        match self.find(key) {
            None => {
                assert(before@.remove(k) =~= before@);
                None
            },
            Some(at) => {
                let mut whole: Table<V> = Table::new();
                std::mem::swap(&mut whole, self);
                let Table { mut keys, mut values } = whole;
                let _gone = keys.remove(at);
                let v = values.remove(at);
                proof {
                    before.lemma_at(at as int);
                    assert forall|i: int, j: int|
                        #![trigger keys[i], keys[j]]
                        0 <= i < j < keys.len() implies keys[i]@ != keys[j]@ by {
                        let i0 = if i < at { i } else { i + 1 };
                        let j0 = if j < at { j } else { j + 1 };
                        assert(before.keys[i0]@ != before.keys[j0]@);
                    }
                }
                *self = Table { keys, values };
                proof {
                    let after = *self;
                    assert forall|x: Seq<char>|
                        before@.remove(k).contains_key(x) <==> after@.contains_key(x) by {
                        if before@.contains_key(x) && x != k {
                            let i = choose|i: int|
                                0 <= i < before.keys.len() && (#[trigger] before.keys[i])@ == x;
                            assert(i != at);
                            after.lemma_at(if i < at { i } else { i - 1 });
                        }
                        if after@.contains_key(x) {
                            let i = choose|i: int|
                                0 <= i < after.keys.len() && (#[trigger] after.keys[i])@ == x;
                            let i0 = if i < at { i } else { i + 1 };
                            before.lemma_at(i0);
                            if i0 < at {
                                assert(before.keys[i0]@ != before.keys[at as int]@);
                            } else {
                                assert(before.keys[at as int]@ != before.keys[i0]@);
                            }
                        }
                    }
                    assert forall|x: Seq<char>| #[trigger]
                        after@.contains_key(x) implies after@[x] == before@.remove(k)[x] by {
                        let i = choose|i: int| 0 <= i < after.keys.len() && (#[trigger] after.keys[i])@ == x;
                        let i0 = if i < at { i } else { i + 1 };
                        after.lemma_at(i);
                        before.lemma_at(i0);
                    }
                    assert(after@ =~= before@.remove(k));
                }
                Some(v)
            },
        }
    }
}

/// The keys of a table, in order, are its domain, each once.
proof fn lemma_order_is_domain<V>(t: Table<V>)
    requires
        t.distinct(),
    ensures
        t.order().no_duplicates(),
        t.order().to_set() == t@.dom(),
        t@.dom().finite(),
        t@.dom().len() == t.order().len(),
{
    let order = t.order();
    assert(order.no_duplicates()) by {
        assert forall|i: int, j: int| 0 <= i < order.len() && 0 <= j < order.len() && i != j implies order[i]
            != order[j] by {
            if i < j {
                assert(t.keys[i]@ != t.keys[j]@);
            } else {
                assert(t.keys[j]@ != t.keys[i]@);
            }
        }
    }
    assert forall|x: Seq<char>| order.to_set().contains(x) <==> t@.dom().contains(x) by {
        if order.to_set().contains(x) {
            let i = choose|i: int| 0 <= i < order.len() && order[i] == x;
            t.lemma_at(i);
        }
        if t@.dom().contains(x) {
            let i = choose|i: int| 0 <= i < t.keys.len() && (#[trigger] t.keys[i])@ == x;
            assert(order[i] == x);
        }
    }
    assert(order.to_set() =~= t@.dom());
    order.unique_seq_to_set();
}

/// A key that is given a value has it, is found, and stands behind the others where it is
/// new; a key that is taken out is gone. No other key is touched.
pub proof fn law_table_holds_what_it_was_given<V>(
    t: &mut Table<V>,
    key: String,
    value: V,
    u: &mut Table<V>,
    k: &str,
    gone: Option<V>,
    other: Seq<char>,
)
    requires
        call_ensures(Table::<V>::insert, (t, key, value), ()),
        k@ == key@,
        *old(u) == *final(t),
        call_ensures(Table::<V>::remove, (u, k), gone),
        other != key@,
    ensures
        final(t)@.contains_key(key@) && final(t)@[key@] == value,
        final(t)@.contains_key(other) <==> old(t)@.contains_key(other),
        old(t)@.contains_key(other) ==> final(t)@[other] == old(t)@[other],
        !old(t)@.contains_key(key@) ==> final(t).order() == old(t).order().push(key@),
        old(t)@.contains_key(key@) ==> final(t).order() == old(t).order(),
        gone == Some(value),
        !final(u)@.contains_key(key@),
        final(u)@.contains_key(other) <==> old(t)@.contains_key(other),
{
}

/// A table is read as it is: its keys in order, each with its value.
pub proof fn law_table_is_read_as_it_is<V>(
    t: Table<V>,
    n: usize,
    key: &str,
    has: bool,
    got: Option<&V>,
    i: usize,
    k: &String,
    v: &V,
    empty: Table<V>,
    u: &mut Table<V>,
    value: V,
    was: V,
)
    requires
        call_ensures(Table::<V>::len, (&t,), n),
        call_ensures(Table::<V>::contains, (&t, key), has),
        call_ensures(Table::<V>::get, (&t, key), got),
        i < n,
        call_ensures(Table::<V>::key_at, (&t, i), k),
        call_ensures(Table::<V>::value_at, (&t, i), v),
        call_ensures(Table::<V>::new, (), empty),
        *old(u) == t,
        call_ensures(Table::<V>::replace_at, (u, i, value), was),
    ensures
        has <==> got is Some,
        key@ == k@ ==> got is Some && *got->0 == *v,
        t@.contains_key(k@) && t@[k@] == *v,
        empty@ == Map::<Seq<char>, V>::empty(),
        was == *v,
        final(u)@ == t@.insert(k@, value) && final(u).order() == t.order(),
{
}

} // verus!
