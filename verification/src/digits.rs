//! Counting the decimal digits of an unsigned integer.

use vstd::prelude::*;
use vstd::arithmetic::power::*;

verus! {

/// The number of decimal digits that print `n`; zero prints as one digit.
pub open spec fn digit_count(n: nat) -> nat
    decreases n,
{
    if n < 10 {
        1
    } else {
        1 + digit_count(n / 10)
    }
}

/// A larger number never prints with fewer digits.
pub proof fn lemma_digit_count_monotone(a: nat, b: nat)
    requires
        a <= b,
    ensures
        digit_count(a) <= digit_count(b),
    decreases b,
{
    if a >= 10 {
        lemma_digit_count_monotone(a / 10, b / 10);
    }
}

/// The digit count `c` of `n` is the one exponent with
/// `10^(c-1) <= n < 10^c`; for zero only the upper bound holds.
pub proof fn lemma_digit_count_brackets(n: nat)
    ensures
        n < pow(10, digit_count(n)),
        n >= 1 ==> pow(10, (digit_count(n) - 1) as nat) <= n,
    decreases n,
{
    lemma_pow0(10);
    lemma_pow1(10);
    if n >= 10 {
        let c = digit_count(n / 10);
        lemma_digit_count_brackets(n / 10);
        lemma_pow_adds(10, 1, c);
        lemma_pow_adds(10, 1, (c - 1) as nat);
    }
}

/// A 64-bit number has at most twenty digits.
pub proof fn lemma_digit_count_u64(n: u64)
    ensures
        1 <= digit_count(n as nat) <= 20,
{
    reveal_with_fuel(digit_count, 21);
}

/// Counts the decimal digits of `n`.
pub fn decimal_length(n: u64) -> (r: usize)
    ensures
        r == digit_count(n as nat),
        1 <= r <= 20,
{
    let mut rest: u64 = n;
    let mut count: usize = 1;
    proof {
        lemma_digit_count_u64(n);
    }
    while rest >= 10
        invariant
            count >= 1,
            count - 1 + digit_count(rest as nat) == digit_count(n as nat),
            digit_count(n as nat) <= 20,
        decreases rest,
    {
        rest = rest / 10;
        count = count + 1;
    }
    count
}

/// Numbers that know how many decimal digits print them.
pub trait DigitLength {
    /// The number itself.
    spec fn magnitude(&self) -> nat;

    fn length(&self) -> (r: usize)
        ensures
            r == digit_count(self.magnitude()),
    ;
}

impl DigitLength for u64 {
    open spec fn magnitude(&self) -> nat {
        *self as nat
    }

    fn length(&self) -> (r: usize) {
        decimal_length(*self)
    }
}

impl DigitLength for usize {
    open spec fn magnitude(&self) -> nat {
        *self as nat
    }

    fn length(&self) -> (r: usize) {
        decimal_length(*self as u64)
    }
}

} // verus!
