//! Generic functions, structs and enums.
use std::cmp::Ordering;
use vstd::prelude::*;
use vstd::std_specs::cmp::{PartialEqSpec, PartialOrdSpec};

verus! {

/// `a > b` by `a`'s comparison.
pub open spec fn greater<T: PartialOrd>(a: T, b: T) -> bool {
    a.partial_cmp_spec(&b) == Some(Ordering::Greater)
}

/// The element a left-to-right scan of the first `k` elements keeps: the
/// first, replaced by any later element greater than the one kept.
pub open spec fn scan_max<T: PartialOrd>(s: Seq<T>, k: int) -> T
    decreases k,
{
    if k <= 1 {
        s[0]
    } else if greater(s[k - 1], scan_max(s, k - 1)) {
        s[k - 1]
    } else {
        scan_max(s, k - 1)
    }
}

/// The number of cells of a list.
pub open spec fn list_len<T>(l: List<T>) -> nat
    decreases l,
{
    match l {
        List::Cons(_, tail) => 1 + list_len(*tail),
        List::Nil => 0,
    }
}

/// A point whose coordinates share a type.
#[derive(Debug)]
pub struct Point<T> {
    pub x: T,
    pub y: T,
}

/// A point whose coordinates may differ in type.
#[derive(Debug)]
pub struct PointMixed<T, U> {
    pub x: T,
    pub y: U,
}

/// A box around one value.
pub struct Container<T> {
    pub value: T,
}

/// Two values, possibly of different types.
pub struct Pair<T, U> {
    pub first: T,
    pub second: U,
}

/// An optional value.
#[derive(Debug)]
pub enum MyOption<T> {
    Present(T),
    Absent,
}

/// A value or an error.
#[derive(Debug)]
pub enum MyResult<T, E> {
    Success(T),
    Failure(E),
}

/// A singly linked list.
#[derive(Debug)]
pub enum List<T> {
    Cons(T, Box<List<T>>),
    Nil,
}

/// Two values of one type to compare.
pub struct Comparable<T> {
    pub first: T,
    pub second: T,
}

/// The largest element of a non-empty slice: scanning from the left, the
/// element kept is replaced by any later one greater than it, so the first
/// of several equal maxima wins.
pub fn largest<T: PartialOrd>(list: &[T]) -> (r: &T)
    requires
        list@.len() > 0,
    ensures
        list@.contains(*r),
        T::obeys_partial_cmp_spec() ==> *r == scan_max(list@, list@.len() as int),
{
    let mut largest = &list[0];
    let mut i: usize = 1;
    while i < list.len()
        invariant
            1 <= i <= list@.len(),
            list@.contains(*largest),
            T::obeys_partial_cmp_spec() ==> *largest == scan_max(list@, i as int),
        decreases list@.len() - i,
    {
        let item = &list[i];
        if item > largest {
            largest = item;
        }
        i += 1;
    }
    largest
}

/// A copy of the largest element of a non-empty slice (see `largest`).
pub fn clone_largest<T: PartialOrd + Clone>(list: &[T]) -> (r: T)
    requires
        list@.len() > 0,
    ensures
        exists|i: int| 0 <= i < list@.len() && call_ensures(T::clone, (&list@[i],), r),
        T::obeys_partial_cmp_spec() ==> call_ensures(
            T::clone,
            (&scan_max(list@, list@.len() as int),),
            r,
        ),
{
    let largest = largest(list);
    largest.clone()
}

/// Exchanges two values.
pub fn swap<T>(a: &mut T, b: &mut T)
    ensures
        *final(a) == *old(b),
        *final(b) == *old(a),
{
    std::mem::swap(a, b);
}

/// Whether `item` equals one of the elements.
pub fn contains<T: PartialEq>(list: &[T], item: &T) -> (r: bool)
    ensures
        T::obeys_eq_spec() ==> (r <==> exists|i: int|
            0 <= i < list@.len() && #[trigger] list@[i].eq_spec(item)),
{
    let mut i: usize = 0;
    while i < list.len()
        invariant
            i <= list@.len(),
            T::obeys_eq_spec() ==> forall|j: int| 0 <= j < i ==> !#[trigger] list@[j].eq_spec(item),
        decreases list@.len() - i,
    {
        if list[i] == *item {
            return true;
        }
        i += 1;
    }
    false
}

/// The number of cells of a list.
pub fn list_length<T>(list: &List<T>) -> (r: usize)
    requires
        list_len(*list) <= usize::MAX,
    ensures
        r == list_len(*list),
    decreases list,
{
    match list {
        List::Cons(_, tail) => 1 + list_length(tail),
        List::Nil => 0,
    }
}

impl<T> Point<T> {
    /// The point `(x, y)`.
    pub fn new(x: T, y: T) -> (r: Point<T>)
        ensures
            r.x == x,
            r.y == y,
    {
        Point { x, y }
    }
}

impl<T, U> PointMixed<T, U> {
    /// A point with this `x` and the `y` of `other`.
    pub fn mixup<V, W>(self, other: PointMixed<V, W>) -> (r: PointMixed<T, W>)
        ensures
            r.x == self.x,
            r.y == other.y,
    {
        PointMixed { x: self.x, y: other.y }
    }
}

impl<T> Container<T> {
    /// A container holding `value`.
    pub fn new(value: T) -> (r: Container<T>)
        ensures
            r.value == value,
    {
        Container { value }
    }

    /// The value held.
    pub fn get(&self) -> (r: &T)
        ensures
            *r == self.value,
    {
        &self.value
    }

    /// A container holding `f` applied to the value.
    pub fn map<U, F: FnOnce(T) -> U>(self, f: F) -> (r: Container<U>)
        requires
            f.requires((self.value,)),
        ensures
            f.ensures((self.value,), r.value),
    {
        Container::new(f(self.value))
    }
}

impl<T, U> Pair<T, U> {
    /// The pair `(first, second)`.
    pub fn new(first: T, second: U) -> (r: Pair<T, U>)
        ensures
            r.first == first,
            r.second == second,
    {
        Pair { first, second }
    }

    /// The first value.
    pub fn first(&self) -> (r: &T)
        ensures
            *r == self.first,
    {
        &self.first
    }

    /// The second value.
    pub fn second(&self) -> (r: &U)
        ensures
            *r == self.second,
    {
        &self.second
    }

    /// Both values, taken apart.
    pub fn into_parts(self) -> (r: (T, U))
        ensures
            r.0 == self.first,
            r.1 == self.second,
    {
        (self.first, self.second)
    }
}

impl<T: PartialOrd> Pair<T, T> {
    /// The larger value; the first one when neither is larger.
    pub fn max(&self) -> (r: &T)
        ensures
            T::obeys_partial_cmp_spec() ==> *r == (if self.first.partial_cmp_spec(&self.second) matches Some(
                Ordering::Greater | Ordering::Equal,
            ) {
                self.first
            } else {
                self.second
            }),
    {
        if self.first >= self.second {
            &self.first
        } else {
            &self.second
        }
    }
}

impl<T> Comparable<T> {
    /// The two values to compare.
    pub fn new(first: T, second: T) -> (r: Comparable<T>)
        ensures
            r.first == first,
            r.second == second,
    {
        Comparable { first, second }
    }
}

impl<T: PartialOrd> Comparable<T> {
    /// How the first value compares with the second; they must be
    /// comparable.
    pub fn compare(&self) -> (r: Ordering)
        requires
            T::obeys_partial_cmp_spec(),
            self.first.partial_cmp_spec(&self.second) is Some,
        ensures
            Some(r) == self.first.partial_cmp_spec(&self.second),
    {
        self.first.partial_cmp(&self.second).unwrap()
    }
}

} // verus!
