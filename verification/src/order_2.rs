//! The second-order series and the decimal number that it yields.

use vstd::prelude::*;

verus! {

/// A decimal floating-point number: `significand` times ten to the power
/// `exponent`.
#[derive(Copy, Clone, Debug, PartialEq, Eq, Structural)]
pub struct Decimal {
    pub significand: i128,
    pub exponent: i64,
}

impl Decimal {
    /// Whether the number is zero in its canonical form.
    pub open spec fn is_zero(self) -> bool {
        self.significand == 0 && self.exponent == 0
    }
}

/// Calls `dashu::float::DBig::default` and takes the result apart with
/// `into_repr` and `into_parts`, the significand converted to `i128`. The
/// default of that type is its constant `ZERO`, whose significand is the
/// integer zero and whose exponent is 0; the contract claims exactly these
/// two parts. Nothing here is proved: the claim rests on that crate.
#[verifier::external_body]
fn default_decimal() -> (r: Decimal)
    ensures
        r.is_zero(),
{
    let (significand, exponent) = dashu::float::DBig::default().into_repr().into_parts();
    Decimal { significand: i128::try_from(significand).unwrap_or_default(), exponent: exponent as i64 }
}

/// The second-order series, selected by its parameter.
#[derive(Copy, Clone, Debug, Default)]
pub struct RamanujanL2 {
    a: usize,
}

impl RamanujanL2 {
    /// The parameter that selects the series.
    pub closed spec fn parameter(self) -> usize {
        self.a
    }

    /// The series with parameter 0.
    pub fn j58() -> (r: Self)
        ensures
            r.parameter() == 0,
    {
        RamanujanL2 { a: 0 }
    }

    /// Sums the series over `iterators` terms. No term is accumulated yet,
    /// so the sum is the decimal zero for every count.
    pub fn run(&self, iterators: usize) -> (r: Decimal)
        ensures
            r.is_zero(),
    {
        default_decimal()
    }
}

/// Sums the series of `RamanujanL2::j58` over `iterators` terms.
pub fn ramanujan(iterators: usize) -> (r: Decimal)
    ensures
        r.is_zero(),
{
    RamanujanL2::j58().run(iterators)
}

} // verus!
