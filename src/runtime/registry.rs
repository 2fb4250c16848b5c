//! A key/value registry with unique keys, as the state a mutex guards.
use crate::text::same_text;
use vstd::prelude::*;

verus! {

/// Reported by every operation on a registry or cache whose lock a previous
/// holder left in an unknown state by failing while it held it.
#[derive(Clone, Copy, Debug, PartialEq, Eq, Structural)]
pub struct LockPoisoned;

/// A key/value store with unique string keys: the state that a mutex guards.
/// Each operation acts on it as one indivisible step, and once the store has
/// been poisoned every operation reports `LockPoisoned`.
pub struct SharedRegistry<V> {
    keys: Vec<String>,
    values: Vec<V>,
    poisoned: bool,
}

impl<V> View for SharedRegistry<V> {
    type V = Map<Seq<char>, V>;

    closed spec fn view(&self) -> Map<Seq<char>, V> {
        Map::new(
            |k: Seq<char>| exists|i: int| 0 <= i < self.keys.len() && self.keys[i]@ == k,
            |k: Seq<char>| self.values[self.slot(k)],
        )
    }
}

impl<V> SharedRegistry<V> {
    /// The position that holds key `k`, where there is one.
    closed spec fn slot(&self, k: Seq<char>) -> int {
        choose|i: int| 0 <= i < self.keys.len() && self.keys[i]@ == k
    }

    /// Keys and values line up, and no key occurs twice.
    pub closed spec fn wf(&self) -> bool {
        &&& self.keys.len() == self.values.len()
        &&& forall|i: int, j: int|
            0 <= i < j < self.keys.len() ==> self.keys[i]@ != self.keys[j]@
    }

    /// Whether a holder failed while it held the lock.
    pub closed spec fn poisoned(&self) -> bool {
        self.poisoned
    }

    proof fn lemma_slot(&self, i: int)
        requires
            self.wf(),
            0 <= i < self.keys.len(),
        ensures
            self.slot(self.keys[i]@) == i,
            self@.contains_key(self.keys[i]@),
            self@[self.keys[i]@] == self.values[i],
    {
        let k = self.keys[i]@;
        assert(exists|j: int| 0 <= j < self.keys.len() && self.keys[j]@ == k);
        let j = self.slot(k);
        if j < i {
            assert(self.keys[j]@ != self.keys[i]@);
        } else if i < j {
            assert(self.keys[i]@ != self.keys[j]@);
        }
    }

    /// An empty, healthy registry.
    pub fn new() -> (r: SharedRegistry<V>)
        ensures
            r.wf(),
            r@ == Map::<Seq<char>, V>::empty(),
            !r.poisoned(),
    {
        let r = SharedRegistry { keys: Vec::new(), values: Vec::new(), poisoned: false };
        assert(r@ =~= Map::<Seq<char>, V>::empty());
        r
    }

    /// The position of `key`, if it is present.
    fn find(&self, key: &str) -> (r: Option<usize>)
        requires
            self.wf(),
        ensures
            r matches Some(i) ==> i < self.keys.len() && self.keys[i as int]@ == key@,
            r is None ==> !self@.contains_key(key@),
    {
        let mut i: usize = 0;
        while i < self.keys.len()
            invariant
                self.wf(),
                i <= self.keys.len(),
                forall|j: int| 0 <= j < i ==> self.keys[j]@ != key@,
            decreases self.keys.len() - i,
        {
            if same_text(self.keys[i].as_str(), key) {
                return Some(i);
            }
            i += 1;
        }
        None
    }

    /// Records that a holder failed while it held the lock.
    pub fn poison(&mut self)
        ensures
            final(self).poisoned(),
            final(self)@ == old(self)@,
            old(self).wf() ==> final(self).wf(),
    {
        self.poisoned = true;
    }

    /// Whether the registry has been poisoned.
    pub fn is_poisoned(&self) -> (r: bool)
        ensures
            r == self.poisoned(),
    {
        self.poisoned
    }

    /// Binds `key` to `value`; a value already bound to `key` is replaced.
    pub fn insert(&mut self, key: String, value: V) -> (r: Result<(), LockPoisoned>)
        requires
            old(self).wf(),
        ensures
            final(self).wf(),
            final(self).poisoned() == old(self).poisoned(),
            r is Err <==> old(self).poisoned(),
            r is Err ==> final(self)@ == old(self)@,
            r is Ok ==> final(self)@ == old(self)@.insert(key@, value),
    {
        if self.poisoned {
            return Err(LockPoisoned);
        }
        let found = self.find(key.as_str());
        match found {
            Some(i) => {
                proof {
                    self.lemma_slot(i as int);
                }
                let ghost before = *self;
                self.values[i] = value;
                proof {
                    assert forall|k: Seq<char>| #[trigger] self@.contains_key(k) implies
                        before@.contains_key(k) || k == key@ by {
                        let j = self.slot(k);
                        assert(self.keys[j]@ == k);
                    }
                    assert forall|k: Seq<char>| #[trigger] before@.contains_key(k) implies
                        self@.contains_key(k) by {
                        let j = before.slot(k);
                        assert(self.keys[j]@ == k);
                    }
                    assert forall|k: Seq<char>| #[trigger] self@.contains_key(k) implies
                        self@[k] == before@.insert(key@, value)[k] by {
                        let j = self.slot(k);
                        self.lemma_slot(j);
                        if k != key@ {
                            before.lemma_slot(j);
                        }
                    }
                    assert(self@ =~= before@.insert(key@, value));
                }
            },
            None => {
                let ghost before = *self;
                self.keys.push(key);
                self.values.push(value);
                proof {
                    let n = before.keys.len() as int;
                    assert(self.keys[n]@ == key@);
                    assert forall|i: int, j: int|
                        0 <= i < j < self.keys.len() implies self.keys[i]@ != self.keys[j]@ by {
                        if j == n {
                            assert(before.keys[i]@ != key@) by {
                                if before.keys[i]@ == key@ {
                                    before.lemma_slot(i);
                                }
                            }
                        }
                    }
                    assert forall|k: Seq<char>| #[trigger] self@.contains_key(k) implies
                        before@.contains_key(k) || k == key@ by {
                        let j = self.slot(k);
                        if j < n {
                            assert(before.keys[j]@ == k);
                        }
                    }
                    assert forall|k: Seq<char>| #[trigger] before@.contains_key(k) implies
                        self@.contains_key(k) by {
                        let j = before.slot(k);
                        assert(self.keys[j]@ == k);
                    }
                    assert(self@.contains_key(key@));
                    assert forall|k: Seq<char>| #[trigger] self@.contains_key(k) implies
                        self@[k] == before@.insert(key@, value)[k] by {
                        let j = self.slot(k);
                        self.lemma_slot(j);
                        if j < n {
                            before.lemma_slot(j);
                        }
                    }
                    assert(self@ =~= before@.insert(key@, value));
                }
            },
        }
        Ok(())
    }

    /// The value bound to `key`, if any.
    pub fn get(&self, key: &str) -> (r: Result<Option<&V>, LockPoisoned>)
        requires
            self.wf(),
        ensures
            r is Err <==> self.poisoned(),
            r matches Ok(o) ==> (o is Some <==> self@.contains_key(key@)),
            r matches Ok(o) ==> (o matches Some(v) ==> *v == self@[key@]),
    {
        if self.poisoned {
            return Err(LockPoisoned);
        }
        match self.find(key) {
            Some(i) => {
                proof {
                    self.lemma_slot(i as int);
                }
                Ok(Some(&self.values[i]))
            },
            None => Ok(None),
        }
    }

    /// Removes the binding of `key` and hands back its value, if there was one.
    pub fn remove(&mut self, key: &str) -> (r: Result<Option<V>, LockPoisoned>)
        requires
            old(self).wf(),
        ensures
            final(self).wf(),
            final(self).poisoned() == old(self).poisoned(),
            r is Err <==> old(self).poisoned(),
            r is Err ==> final(self)@ == old(self)@,
            r matches Ok(o) ==> (o is Some <==> old(self)@.contains_key(key@)),
            r matches Ok(o) ==> (o matches Some(v) ==> v == old(self)@[key@]),
            r is Ok ==> final(self)@ == old(self)@.remove(key@),
    {
        if self.poisoned {
            return Err(LockPoisoned);
        }
        match self.find(key) {
            Some(i) => {
                proof {
                    self.lemma_slot(i as int);
                }
                let ghost before = *self;
                let _k = self.keys.remove(i);
                let v = self.values.remove(i);
                proof {
                    assert forall|a: int, b: int|
                        0 <= a < b < self.keys.len() implies self.keys[a]@ != self.keys[b]@ by {
                        let a0 = if a < i { a } else { a + 1 };
                        let b0 = if b < i { b } else { b + 1 };
                        assert(self.keys[a] == before.keys[a0]);
                        assert(self.keys[b] == before.keys[b0]);
                    }
                    assert forall|k: Seq<char>| #[trigger] self@.contains_key(k) implies
                        before@.remove(key@).contains_key(k) by {
                        let j = self.slot(k);
                        let j0 = if j < i { j } else { j + 1 };
                        assert(self.keys[j] == before.keys[j0]);
                        before.lemma_slot(j0);
                    }
                    assert forall|k: Seq<char>| #[trigger] before@.remove(key@).contains_key(k)
                        implies self@.contains_key(k) by {
                        let j0 = before.slot(k);
                        before.lemma_slot(j0);
                        assert(j0 != i);
                        let j = if j0 < i { j0 } else { j0 - 1 };
                        assert(self.keys[j] == before.keys[j0]);
                    }
                    assert forall|k: Seq<char>| #[trigger] self@.contains_key(k) implies
                        self@[k] == before@[k] by {
                        let j = self.slot(k);
                        self.lemma_slot(j);
                        let j0 = if j < i { j } else { j + 1 };
                        assert(self.keys[j] == before.keys[j0]);
                        assert(self.values[j] == before.values[j0]);
                        before.lemma_slot(j0);
                    }
                    assert(self@ =~= before@.remove(key@));
                }
                Ok(Some(v))
            },
            None => {
                assert(self@ =~= self@.remove(key@));
                Ok(None)
            },
        }
    }

    /// The number of keys.
    pub fn len(&self) -> (r: Result<usize, LockPoisoned>)
        requires
            self.wf(),
        ensures
            r is Err <==> self.poisoned(),
            r matches Ok(n) ==> n == self@.len(),
    {
        if self.poisoned {
            return Err(LockPoisoned);
        }
        proof {
            self.lemma_len();
        }
        Ok(self.keys.len())
    }

    /// A well-formed registry holds finitely many bindings.
    pub proof fn lemma_finite(&self)
        requires
            self.wf(),
        ensures
            self@.dom().finite(),
    {
        self.lemma_len();
    }

    proof fn lemma_len(&self)
        requires
            self.wf(),
        ensures
            self@.dom().finite(),
            self@.len() == self.keys.len(),
    {
        let ks = Seq::new(self.keys.len() as nat, |i: int| self.keys[i]@);
        assert forall|i: int, j: int| 0 <= i < j < ks.len() implies ks[i] != ks[j] by {}
        assert(ks.no_duplicates());
        assert forall|k: Seq<char>| #[trigger] self@.dom().contains(k) <==> ks.to_set().contains(k) by {
            if self@.dom().contains(k) {
                let j = self.slot(k);
                assert(ks[j] == k);
            }
            if ks.to_set().contains(k) {
                let j = choose|j: int| 0 <= j < ks.len() && ks[j] == k;
                assert(self.keys[j]@ == k);
            }
        }
        assert(self@.dom() =~= ks.to_set());
        ks.unique_seq_to_set();
    }
}

/// `m` with `ks[i]` bound to `vs[i]`, the bindings made in order.
pub open spec fn insert_all<V>(m: Map<Seq<char>, V>, ks: Seq<Seq<char>>, vs: Seq<V>) -> Map<
    Seq<char>,
    V,
>
    decreases ks.len(),
{
    if ks.len() == 0 || vs.len() < ks.len() {
        m
    } else {
        insert_all(m, ks.drop_last(), vs.subrange(0, ks.len() - 1)).insert(
            ks.last(),
            vs[ks.len() - 1],
        )
    }
}

/// Inserts with distinct keys all take effect: binding `n` distinct keys that
/// were absent leaves `n` more bindings, each key bound to its own value.
pub proof fn lemma_distinct_inserts<V>(m: Map<Seq<char>, V>, ks: Seq<Seq<char>>, vs: Seq<V>)
    requires
        m.dom().finite(),
        ks.len() == vs.len(),
        ks.no_duplicates(),
        forall|i: int| 0 <= i < ks.len() ==> !m.contains_key(#[trigger] ks[i]),
    ensures
        insert_all(m, ks, vs).dom().finite(),
        insert_all(m, ks, vs).len() == m.len() + ks.len(),
        forall|i: int|
            0 <= i < ks.len() ==> insert_all(m, ks, vs).contains_key(#[trigger] ks[i])
                && insert_all(m, ks, vs)[ks[i]] == vs[i],
    decreases ks.len(),
{
    if ks.len() > 0 {
        let n = ks.len() - 1;
        let ks0 = ks.drop_last();
        let vs0 = vs.subrange(0, n);
        assert forall|i: int, j: int| 0 <= i < j < ks0.len() implies ks0[i] != ks0[j] by {
            assert(ks0[i] == ks[i] && ks0[j] == ks[j]);
        }
        assert forall|i: int| 0 <= i < ks0.len() implies !m.contains_key(#[trigger] ks0[i]) by {
            assert(ks0[i] == ks[i]);
        }
        lemma_distinct_inserts(m, ks0, vs0);
        let prev = insert_all(m, ks0, vs0);
        assert(!prev.contains_key(ks.last())) by {
            if prev.contains_key(ks.last()) {
                assert(!m.contains_key(ks[n]));
                lemma_insert_all_keys(m, ks0, vs0, ks.last());
                let i = choose|i: int| 0 <= i < ks0.len() && ks0[i] == ks.last();
                assert(ks[i] == ks[n]);
            }
        }
        assert forall|i: int| 0 <= i < ks.len() implies insert_all(m, ks, vs).contains_key(
            #[trigger] ks[i],
        ) && insert_all(m, ks, vs)[ks[i]] == vs[i] by {
            if i < n {
                assert(ks0[i] == ks[i]);
                assert(vs0[i] == vs[i]);
                assert(ks[i] != ks[n]);
            }
        }
    }
}

/// A key bound by `insert_all` that `m` lacked is one of `ks`.
proof fn lemma_insert_all_keys<V>(m: Map<Seq<char>, V>, ks: Seq<Seq<char>>, vs: Seq<V>, k: Seq<char>)
    requires
        ks.len() == vs.len(),
        insert_all(m, ks, vs).contains_key(k),
        !m.contains_key(k),
    ensures
        exists|i: int| 0 <= i < ks.len() && ks[i] == k,
    decreases ks.len(),
{
    if ks.len() > 0 {
        let n = ks.len() - 1;
        if ks[n] != k {
            lemma_insert_all_keys(m, ks.drop_last(), vs.subrange(0, n), k);
            let i = choose|i: int| 0 <= i < ks.drop_last().len() && ks.drop_last()[i] == k;
            assert(ks[i] == k);
        }
    }
}

/// Last writer wins: two inserts on one key leave the later value alone,
/// never a mix of the two.
pub proof fn lemma_last_writer_wins<V>(m: Map<Seq<char>, V>, k: Seq<char>, v1: V, v2: V)
    ensures
        m.insert(k, v1).insert(k, v2) == m.insert(k, v2),
        m.insert(k, v1).insert(k, v2)[k] == v2,
{
    assert(m.insert(k, v1).insert(k, v2) =~= m.insert(k, v2));
}

} // verus!
