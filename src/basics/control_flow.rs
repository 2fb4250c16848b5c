//! Branching and recursion on integers.
use vstd::prelude::*;

verus! {

/// `n!`.
pub open spec fn fact(n: nat) -> nat
    decreases n,
{
    if n <= 1 {
        1
    } else {
        n * fact((n - 1) as nat)
    }
}

/// Each factorial is at least the one before it.
pub proof fn lemma_fact_grows(n: nat)
    requires
        n >= 1,
    ensures
        fact((n - 1) as nat) <= fact(n),
        fact(n) >= 1,
    decreases n,
{
    if n > 1 {
        lemma_fact_grows((n - 1) as nat);
        let p = fact((n - 1) as nat);
        assert(n * p >= p) by (nonlinear_arith)
            requires
                n >= 1,
                p >= 1,
        ;
    }
}

/// Sorts an integer into one of five bands: negative, zero, small (1 to 10),
/// medium (11 to 100) and large.
pub fn classify_number(n: i32) -> (r: &'static str)
    ensures
        n < 0 ==> r@ == "负数"@,
        n == 0 ==> r@ == "零"@,
        1 <= n <= 10 ==> r@ == "小正数"@,
        11 <= n <= 100 ==> r@ == "中等正数"@,
        n > 100 ==> r@ == "大正数"@,
{
    if n < 0 {
        "负数"
    } else if n == 0 {
        "零"
    } else if n <= 10 {
        "小正数"
    } else if n <= 100 {
        "中等正数"
    } else {
        "大正数"
    }
}

/// What the FizzBuzz game says for a number.
#[derive(Debug, Clone, Copy, PartialEq, Eq, Structural)]
pub enum FizzBuzz {
    FizzBuzz,
    Fizz,
    Buzz,
    Number(i32),
}

/// `FizzBuzz` for multiples of 15, `Fizz` for other multiples of 3, `Buzz`
/// for other multiples of 5, and the number itself otherwise.
pub fn fizz_buzz_word(i: i32) -> (r: FizzBuzz)
    ensures
        i % 3 == 0 && i % 5 == 0 ==> r == FizzBuzz::FizzBuzz,
        i % 3 == 0 && i % 5 != 0 ==> r == FizzBuzz::Fizz,
        i % 3 != 0 && i % 5 == 0 ==> r == FizzBuzz::Buzz,
        i % 3 != 0 && i % 5 != 0 ==> r == FizzBuzz::Number(i),
{
    let by3 = i % 3 == 0;
    let by5 = i % 5 == 0;
    if by3 && by5 {
        FizzBuzz::FizzBuzz
    } else if by3 {
        FizzBuzz::Fizz
    } else if by5 {
        FizzBuzz::Buzz
    } else {
        FizzBuzz::Number(i)
    }
}

/// `n!`, for the `n` whose factorial fits in 32 bits.
pub fn factorial(n: u32) -> (r: u32)
    requires
        fact(n as nat) <= u32::MAX,
    ensures
        r == fact(n as nat),
    decreases n,
{
    if n <= 1 {
        1
    } else {
        proof {
            lemma_fact_grows(n as nat);
        }
        let p = factorial(n - 1);
        assert(n * p == fact(n as nat));
        n * p
    }
}

} // verus!
