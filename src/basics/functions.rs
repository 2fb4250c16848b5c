//! Plain functions, recursion and a first struct with methods.
use vstd::prelude::*;

verus! {

/// The `n`-th Fibonacci number, with `fib(0) == 0` and `fib(1) == 1`.
pub open spec fn fib(n: nat) -> nat
    decreases n,
{
    if n == 0 {
        0
    } else if n == 1 {
        1
    } else {
        fib((n - 1) as nat) + fib((n - 2) as nat)
    }
}

/// `a + b`.
pub fn add(a: i32, b: i32) -> (r: i32)
    requires
        i32::MIN <= a + b <= i32::MAX,
    ensures
        r == a + b,
{
    a + b
}

/// `a * b`.
pub fn multiply(a: i32, b: i32) -> (r: i32)
    requires
        i32::MIN <= a * b <= i32::MAX,
    ensures
        r == a * b,
{
    a * b
}

/// The sum and the difference of `a` and `b`.
pub fn add_and_subtract(a: i32, b: i32) -> (r: (i32, i32))
    requires
        i32::MIN <= a + b <= i32::MAX,
        i32::MIN <= a - b <= i32::MAX,
    ensures
        r.0 == a + b,
        r.1 == a - b,
{
    (a + b, a - b)
}

/// `|x|`.
pub fn absolute_value(x: i32) -> (r: i32)
    requires
        x != i32::MIN,
    ensures
        r >= 0,
        r == x || r == -x,
        x >= 0 ==> r == x,
{
    if x < 0 {
        return -x;
    }
    x
}

/// `2 * x`.
pub fn double(x: i32) -> (r: i32)
    requires
        i32::MIN <= 2 * x <= i32::MAX,
    ensures
        r == 2 * x,
{
    x * 2
}

/// `func` applied to each number, in order.
pub fn apply_to_all<F: Fn(i32) -> i32>(numbers: Vec<i32>, func: F) -> (r: Vec<i32>)
    requires
        forall|i: int| 0 <= i < numbers.len() ==> func.requires((numbers[i],)),
    ensures
        r.len() == numbers.len(),
        forall|i: int| 0 <= i < numbers.len() ==> func.ensures((numbers[i],), r[i]),
{
    let mut r: Vec<i32> = Vec::new();
    let mut i: usize = 0;
    while i < numbers.len()
        invariant
            i <= numbers.len(),
            r.len() == i,
            forall|j: int| 0 <= j < numbers.len() ==> func.requires((numbers[j],)),
            forall|j: int| 0 <= j < i ==> func.ensures((numbers[j],), r[j]),
        decreases numbers.len() - i,
    {
        let y = func(numbers[i]);
        r.push(y);
        i += 1;
    }
    r
}

/// `n!`, for the `n` whose factorial fits in 32 bits.
pub fn factorial(n: u32) -> (r: u32)
    requires
        crate::basics::control_flow::fact(n as nat) <= u32::MAX,
    ensures
        r == crate::basics::control_flow::fact(n as nat),
    decreases n,
{
    if n <= 1 {
        1
    } else {
        proof {
            crate::basics::control_flow::lemma_fact_grows(n as nat);
        }
        n * factorial(n - 1)
    }
}

/// The `n`-th Fibonacci number, for the `n` whose value fits in 32 bits.
pub fn fibonacci(n: u32) -> (r: u32)
    requires
        fib(n as nat) <= u32::MAX,
    ensures
        r == fib(n as nat),
    decreases n,
{
    if n == 0 {
        0
    } else if n == 1 {
        1
    } else {
        fibonacci(n - 1) + fibonacci(n - 2)
    }
}

/// A rectangle with integer sides.
pub struct Rectangle {
    pub width: u32,
    pub height: u32,
}

impl Rectangle {
    /// `width * height`.
    pub fn area(&self) -> (r: u32)
        requires
            self.width * self.height <= u32::MAX,
        ensures
            r == self.width * self.height,
    {
        self.width * self.height
    }

    /// `2 * (width + height)`.
    pub fn perimeter(&self) -> (r: u32)
        requires
            2 * (self.width + self.height) <= u32::MAX,
        ensures
            r == 2 * (self.width + self.height),
    {
        2 * (self.width + self.height)
    }
}

} // verus!
