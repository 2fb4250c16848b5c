//! Closures, grouping and hand-written sequences.
use crate::basics::functions::fib;
use std::collections::hash_map::RandomState;
use std::collections::HashMap;
use std::hash::Hash;
use vstd::prelude::*;
use vstd::std_specs::hash::{builds_valid_hashers, obeys_key_model};

verus! {

/// Computes a value once and remembers it.
pub struct Cacher<T: Fn(u32) -> u32> {
    calculation: T,
    value: Option<u32>,
}

impl<T: Fn(u32) -> u32> Cacher<T> {
    pub closed spec fn calculation(&self) -> T {
        self.calculation
    }

    /// The remembered value, if one was computed.
    pub closed spec fn cached(&self) -> Option<u32> {
        self.value
    }

    /// A cache for `calculation` that holds nothing yet.
    pub fn new(calculation: T) -> (r: Cacher<T>)
        ensures
            r.calculation() == calculation,
            r.cached() is None,
    {
        Cacher { calculation, value: None }
    }

    /// The remembered value; on the first call, `calculation(arg)` is
    /// computed and remembered, and later calls return it whatever `arg` is.
    pub fn value(&mut self, arg: u32) -> (r: u32)
        requires
            old(self).cached() is None ==> old(self).calculation().requires((arg,)),
        ensures
            final(self).calculation() == old(self).calculation(),
            final(self).cached() == Some(r),
            old(self).cached() matches Some(v) ==> r == v,
            old(self).cached() is None ==> old(self).calculation().ensures((arg,), r),
    {
        match self.value {
            Some(v) => v,
            None => {
                let v = (self.calculation)(arg);
                self.value = Some(v);
                v
            },
        }
    }
}

/// `operation` applied to each number, in order.
pub fn apply_operation<F: Fn(i32) -> i32>(numbers: &[i32], operation: F) -> (r: Vec<i32>)
    requires
        forall|i: int| 0 <= i < numbers@.len() ==> operation.requires((numbers@[i],)),
    ensures
        r@.len() == numbers@.len(),
        forall|i: int| 0 <= i < numbers@.len() ==> operation.ensures((numbers@[i],), r@[i]),
{
    let mut r: Vec<i32> = Vec::new();
    let mut i: usize = 0;
    while i < numbers.len()
        invariant
            i <= numbers@.len(),
            r@.len() == i,
            forall|j: int| 0 <= j < numbers@.len() ==> operation.requires((numbers@[j],)),
            forall|j: int| 0 <= j < i ==> operation.ensures((numbers@[j],), r@[j]),
        decreases numbers@.len() - i,
    {
        let y = operation(numbers[i]);
        r.push(y);
        i += 1;
    }
    r
}

/// A function that adds `n` to its argument.
pub fn create_adder(n: i32) -> (r: impl Fn(i32) -> i32)
    ensures
        forall|x: i32| i32::MIN <= x + n <= i32::MAX ==> #[trigger] r.requires((x,)),
        forall|x: i32, y: i32| r.ensures((x,), y) ==> y == x + n,
{
    move |x: i32| -> (y: i32)
        requires
            i32::MIN <= x + n <= i32::MAX,
        ensures
            y == x + n,
        { x + n }
}

/// `g` after `f`.
pub fn compose<F: Fn(T) -> T, G: Fn(T) -> T, T>(f: F, g: G) -> (r: impl Fn(T) -> T)
    ensures
        forall|x: T|
            #[trigger] r.requires((x,)) <== f.requires((x,)) && forall|z: T| f.ensures((x,), z)
                ==> g.requires((z,)),
        forall|x: T, y: T| r.ensures((x,), y) ==> exists|z: T| f.ensures((x,), z) && g.ensures((z,), y),
{
    move |x: T| -> (y: T)
        requires
            f.requires((x,)),
            forall|z: T| f.ensures((x,), z) ==> g.requires((z,)),
        ensures
            exists|z: T| f.ensures((x,), z) && g.ensures((z,), y),
        {
            let z = f(x);
            g(z)
        }
}

/// The items whose key (in `keys`, position by position) is `k`, in order.
pub open spec fn group_of<T, K>(items: Seq<T>, keys: Seq<K>, k: K) -> Seq<T>
    decreases items.len(),
{
    if items.len() == 0 || keys.len() < items.len() {
        Seq::empty()
    } else {
        let rest = group_of(items.drop_last(), keys.subrange(0, items.len() - 1), k);
        if keys[items.len() - 1] == k {
            rest.push(items.last())
        } else {
            rest
        }
    }
}

/// `keys[i]` is a key that `key_fn` gives for `items[i]`.
pub open spec fn keyed_by<T, K, F: Fn(&T) -> K>(key_fn: F, items: Seq<T>, keys: Seq<K>) -> bool {
    keys.len() == items.len() && forall|i: int|
        0 <= i < items.len() ==> key_fn.ensures((&items[i],), keys[i])
}

/// `m` has one entry for each key that occurs in `keys`, holding the items
/// with that key in the order they came.
pub open spec fn grouped<T, K>(m: Map<K, Vec<T>>, items: Seq<T>, keys: Seq<K>) -> bool {
    &&& forall|k: K| #[trigger] m.contains_key(k) <==> keys.contains(k)
    &&& forall|k: K| #[trigger] m.contains_key(k) ==> m[k]@ == group_of(items, keys, k)
}

proof fn lemma_group_of_absent<T, K>(items: Seq<T>, keys: Seq<K>, k: K)
    requires
        keys.len() == items.len(),
        !keys.contains(k),
    ensures
        group_of(items, keys, k) == Seq::<T>::empty(),
    decreases items.len(),
{
    if items.len() > 0 {
        let ks = keys.subrange(0, items.len() - 1);
        assert(!ks.contains(k)) by {
            if ks.contains(k) {
                let j = choose|j: int| 0 <= j < ks.len() && ks[j] == k;
                assert(keys[j] == k);
            }
        }
        lemma_group_of_absent(items.drop_last(), ks, k);
        assert(keys[items.len() - 1] != k);
    }
}

/// Sorts the items into groups by the key `key_fn` gives each one; each
/// group keeps the items' order.
pub fn group_by<T, K: Hash + Eq, F: Fn(&T) -> K>(items: Vec<T>, key_fn: F) -> (r: HashMap<K, Vec<T>>)
    requires
        forall|t: &T| key_fn.requires((t,)),
    ensures
        obeys_key_model::<K>() && builds_valid_hashers::<RandomState>() ==> exists|keys: Seq<K>|
            #[trigger] keyed_by(key_fn, items@, keys) && grouped(r@, items@, keys),
{
    let ghost all = items@;
    let n = items.len();
    let mut rest = items;
    let mut groups: HashMap<K, Vec<T>> = HashMap::new();
    let ghost mut keys: Seq<K> = Seq::empty();
    let mut i: usize = 0;
    assert(groups@ =~= Map::<K, Vec<T>>::empty());
    while i < n
        invariant
            n == all.len(),
            i <= n,
            rest@ == all.subrange(i as int, n as int),
            keyed_by(key_fn, all.subrange(0, i as int), keys),
            forall|t: &T| key_fn.requires((t,)),
            obeys_key_model::<K>() && builds_valid_hashers::<RandomState>() ==> grouped(
                groups@,
                all.subrange(0, i as int),
                keys,
            ),
        decreases n - i,
    {
        let item = rest.remove(0);
        assert(item == all[i as int]);
        let key = key_fn(&item);
        let ghost old_keys = keys;
        let ghost old_groups = groups@;
        let ghost k = key;
        proof {
            keys = keys.push(key);
        }
        let ghost done = all.subrange(0, i + 1);
        assert(done.drop_last() =~= all.subrange(0, i as int));
        assert(keys.subrange(0, i as int) =~= old_keys);
        assert(done.last() == item);
        match groups.remove(&key) {
            Some(v) => {
                let mut v = v;
                v.push(item);
                groups.insert(key, v);
            },
            None => {
                let mut v: Vec<T> = Vec::new();
                v.push(item);
                groups.insert(key, v);
            },
        }
        proof {
            assert forall|j: int| 0 <= j < done.len() implies key_fn.ensures(
                (&done[j],),
                keys[j],
            ) by {
                if j < i {
                    assert(done[j] == all.subrange(0, i as int)[j]);
                }
            }
            if obeys_key_model::<K>() && builds_valid_hashers::<RandomState>() {
                if !old_keys.contains(k) {
                    lemma_group_of_absent(all.subrange(0, i as int), old_keys, k);
                }
                assert forall|q: K| #[trigger] groups@.contains_key(q) <==> keys.contains(q) by {
                    if keys.contains(q) && q != k {
                        let j = choose|j: int| 0 <= j < keys.len() && keys[j] == q;
                        assert(old_keys[j] == q);
                    }
                    if old_keys.contains(q) {
                        let j = choose|j: int| 0 <= j < old_keys.len() && old_keys[j] == q;
                        assert(keys[j] == q);
                    }
                    assert(keys[i as int] == k);
                }
                assert forall|q: K| #[trigger] groups@.contains_key(q) implies groups@[q]@
                    == group_of(done, keys, q) by {
                    if q != k {
                        assert(old_groups.contains_key(q));
                    }
                }
            }
        }
        i += 1;
    }
    assert(all.subrange(0, n as int) =~= all);
    groups
}

/// The Fibonacci numbers, one after another.
pub struct Fibonacci {
    current: usize,
    next: usize,
    position: Ghost<nat>,
}

impl Fibonacci {
    /// How many numbers have been produced.
    pub closed spec fn position(&self) -> nat {
        self.position@
    }

    /// The state holds the two Fibonacci numbers at the current position.
    pub closed spec fn wf(&self) -> bool {
        self.current == fib(self.position@) && self.next == fib(self.position@ + 1)
    }

    /// A sequence that starts at `fib(0)`.
    pub fn new() -> (r: Fibonacci)
        ensures
            r.wf(),
            r.position() == 0,
    {
        Fibonacci { current: 0, next: 1, position: Ghost(0) }
    }

    /// The next Fibonacci number, for as long as the one after the next
    /// two fits in a `usize`.
    pub fn next(&mut self) -> (r: Option<usize>)
        requires
            old(self).wf(),
            fib(old(self).position() + 2) <= usize::MAX,
        ensures
            final(self).wf(),
            final(self).position() == old(self).position() + 1,
            r == Some(fib(old(self).position()) as usize),
    {
        let current = self.current;
        self.current = self.next;
        self.next = current + self.next;
        let ghost p = self.position@;
        self.position = Ghost(p + 1);
        Some(current)
    }

    /// The next `n` Fibonacci numbers.
    pub fn take(self, n: usize) -> (r: Vec<usize>)
        requires
            self.wf(),
            fib((self.position() + n + 1) as nat) <= usize::MAX,
        ensures
            r@.len() == n,
            forall|i: int| 0 <= i < n ==> r@[i] == fib((self.position() + i) as nat),
    {
        let ghost start = self.position@;
        let mut seq = self;
        let mut r: Vec<usize> = Vec::new();
        let mut i: usize = 0;
        while i < n
            invariant
                seq.wf(),
                seq.position() == start + i,
                i <= n,
                r@.len() == i,
                fib((start + n + 1) as nat) <= usize::MAX,
                forall|j: int| 0 <= j < i ==> r@[j] == fib((start + j) as nat),
            decreases n - i,
        {
            proof {
                lemma_fib_monotone((start + i + 2) as nat, (start + n + 1) as nat);
            }
            let v = seq.next();
            match v {
                Some(x) => r.push(x),
                None => {},
            }
            i += 1;
        }
        r
    }
}

/// Fibonacci numbers never decrease.
pub proof fn lemma_fib_monotone(a: nat, b: nat)
    requires
        a <= b,
    ensures
        fib(a) <= fib(b),
    decreases b - a,
{
    if a < b {
        lemma_fib_monotone(a, (b - 1) as nat);
        if b >= 2 {
            assert(fib(b) == fib((b - 1) as nat) + fib((b - 2) as nat));
        }
    }
}

/// Counts from 0 up to 4.
pub struct Counter {
    current: usize,
}

impl Counter {
    pub closed spec fn current(&self) -> usize {
        self.current
    }

    /// A counter that starts at 0.
    pub fn new() -> (r: Counter)
        ensures
            r.current() == 0,
    {
        Counter { current: 0 }
    }

    /// The next number below 5, or `None` once they are used up.
    pub fn next(&mut self) -> (r: Option<usize>)
        ensures
            old(self).current() < 5 ==> r == Some(old(self).current()) && final(self).current()
                == old(self).current() + 1,
            old(self).current() >= 5 ==> r is None && final(self).current() == old(self).current(),
    {
        if self.current < 5 {
            let current = self.current;
            self.current += 1;
            Some(current)
        } else {
            None
        }
    }

    /// All the numbers that remain, in order.
    pub fn collect(self) -> (r: Vec<usize>)
        ensures
            r@.len() == if self.current() < 5 {
                5 - self.current()
            } else {
                0
            },
            forall|i: int| 0 <= i < r@.len() ==> r@[i] == self.current() + i,
    {
        let ghost start = self.current;
        let mut counter = self;
        let mut r: Vec<usize> = Vec::new();
        while counter.current < 5
            invariant
                start <= counter.current,
                start < 5 ==> counter.current <= 5,
                start >= 5 ==> counter.current == start,
                r@.len() == counter.current - start,
                forall|i: int| 0 <= i < r@.len() ==> r@[i] == start + i,
            decreases 5 - counter.current,
        {
            match counter.next() {
                Some(x) => r.push(x),
                None => {},
            }
        }
        r
    }
}

} // verus!
