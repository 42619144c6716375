//! Modular exponentiation by squaring, carried out in the narrowest
//! integer width that cannot overflow.

use vstd::prelude::*;
use vstd::arithmetic::power::*;
use vstd::arithmetic::div_mod::*;

verus! {

/// The remainder of `n` to the power `m` on division by `d`.
pub open spec fn mod_exp(n: nat, m: nat, d: nat) -> int
    recommends
        d >= 1,
{
    pow(n as int, m) % (d as int)
}

/// Whether the 64-bit width is chosen for base `n` and modulus `d`.
pub open spec fn narrow_chosen(n: u64, d: u64) -> bool {
    n < 100 && d < 400_000_000
}

/// Whether a width with largest value `limit` holds every product that the
/// computation forms for base `n` and modulus `d`: the square of a residue,
/// and a residue times the base. With base 0 every such product is 0, and
/// any width holds it.
pub open spec fn width_holds(limit: nat, n: nat, d: nat) -> bool {
    &&& d >= 1
    &&& n == 0 || {
        &&& (d - 1) * (d - 1) <= limit
        &&& (d - 1) * n <= limit
    }
}

/// An unsigned integer width in which the computation can be carried out.
pub trait Width: Copy + Sized {
    /// The number that a value stands for.
    spec fn value(self) -> nat;

    /// The largest number that the width holds.
    spec fn limit() -> nat;

    fn small(x: u64) -> (r: Self)
        ensures
            r.value() == x,
    ;

    fn same(self, other: Self) -> (b: bool)
        ensures
            b == (self.value() == other.value()),
    ;

    fn times(self, other: Self) -> (r: Self)
        requires
            self.value() * other.value() <= Self::limit(),
        ensures
            r.value() == self.value() * other.value(),
    ;

    fn quotient(self, other: Self) -> (r: Self)
        requires
            other.value() > 0,
        ensures
            r.value() == self.value() / other.value(),
    ;

    fn remainder(self, other: Self) -> (r: Self)
        requires
            other.value() > 0,
        ensures
            r.value() == self.value() % other.value(),
    ;
}

impl Width for u64 {
    open spec fn value(self) -> nat {
        self as nat
    }

    open spec fn limit() -> nat {
        u64::MAX as nat
    }

    fn small(x: u64) -> (r: Self) {
        x
    }

    fn same(self, other: Self) -> (b: bool) {
        self == other
    }

    fn times(self, other: Self) -> (r: Self) {
        self * other
    }

    fn quotient(self, other: Self) -> (r: Self) {
        self / other
    }

    fn remainder(self, other: Self) -> (r: Self) {
        self % other
    }
}

impl Width for u128 {
    open spec fn value(self) -> nat {
        self as nat
    }

    open spec fn limit() -> nat {
        u128::MAX as nat
    }

    fn small(x: u64) -> (r: Self) {
        x as u128
    }

    fn same(self, other: Self) -> (b: bool) {
        self == other
    }

    fn times(self, other: Self) -> (r: Self) {
        self * other
    }

    fn quotient(self, other: Self) -> (r: Self) {
        self / other
    }

    fn remainder(self, other: Self) -> (r: Self) {
        self % other
    }
}

/// With exponent zero the result is 0 for modulus 1 and 1 for any larger
/// modulus, whatever the base.
pub proof fn lemma_mod_exp_zero(n: nat, d: nat)
    requires
        d >= 1,
    ensures
        mod_exp(n, 0, d) == (if d == 1 { 0int } else { 1int }),
{
    lemma_pow0(n as int);
    if d > 1 {
        lemma_small_mod(1, d);
    }
}

/// With exponent one the result is the base reduced by the modulus.
pub proof fn lemma_mod_exp_one(n: nat, d: nat)
    requires
        d >= 1,
    ensures
        mod_exp(n, 1, d) == n % d,
{
    lemma_pow1(n as int);
}

/// The result lies below the modulus.
pub proof fn lemma_mod_exp_range(n: nat, m: nat, d: nat)
    requires
        d >= 1,
    ensures
        0 <= mod_exp(n, m, d) < d,
{
    lemma_mod_bound(pow(n as int, m), d as int);
}

/// Squaring step: the result for exponent `m >= 2` follows from the result
/// `k` for half the exponent, as `k * k mod d` for even `m` and as
/// `(k * k mod d) * n mod d` for odd `m`.
pub proof fn lemma_mod_exp_halving(n: nat, m: nat, d: nat)
    requires
        d >= 1,
        m >= 2,
    ensures
        m % 2 == 0 ==> mod_exp(n, m, d) == (mod_exp(n, m / 2, d) * mod_exp(n, m / 2, d)) % (
        d as int),
        m % 2 == 1 ==> mod_exp(n, m, d) == (((mod_exp(n, m / 2, d) * mod_exp(n, m / 2, d)) % (
        d as int)) * n) % (d as int),
{
    let h = m / 2;
    let b = n as int;
    let p = pow(b, h);
    let q = d as int;
    lemma_pow_adds(b, h, h);
    assert(pow(b, h + h) == p * p);
    lemma_mul_mod_noop(p, p, q);
    if m % 2 == 0 {
        assert(m == h + h);
    } else {
        assert(m - 1 == h + h);
        lemma_pow1(b);
        lemma_pow_adds(b, 1, (m - 1) as nat);
        assert(pow(b, m) == b * (p * p));
        assert(b * (p * p) == (p * p) * b) by (nonlinear_arith);
        lemma_mul_mod_noop_left(p * p, b, q);
    }
}

/// The rule that chooses the 64-bit width is sound: every product formed
/// there, even the threefold `k * k * n` with `k < d`, fits in 64 bits.
pub proof fn lemma_narrow_holds(n: u64, d: u64)
    requires
        d >= 1,
        narrow_chosen(n, d),
    ensures
        (d - 1) * (d - 1) * n <= u64::MAX,
        width_holds(u64::limit(), n as nat, d as nat),
{
    assert((d - 1) * (d - 1) * n <= 399_999_999 * 399_999_999 * 99 && (d - 1) * (d - 1)
        <= 399_999_999 * 399_999_999 && (d - 1) * n <= 399_999_999 * 99) by (nonlinear_arith)
        requires
            1 <= d < 400_000_000,
            0 <= n < 100,
    ;
}

/// The 128-bit width holds the computation for every 64-bit base and
/// modulus.
pub proof fn lemma_wide_holds(n: u64, d: u64)
    requires
        d >= 1,
    ensures
        width_holds(u128::limit(), n as nat, d as nat),
{
    assert((d - 1) * (d - 1) <= 0xffff_ffff_ffff_ffff * 0xffff_ffff_ffff_ffff && (d - 1) * n
        <= 0xffff_ffff_ffff_ffff * 0xffff_ffff_ffff_ffff) by (nonlinear_arith)
        requires
            1 <= d <= 0xffff_ffff_ffff_ffff,
            0 <= n <= 0xffff_ffff_ffff_ffff,
    ;
}

/// The choice of width never changes the result: wherever the 64-bit width
/// holds the computation, the 128-bit width holds it too, and the value
/// that the contract of `pow_mod_generic` fixes for the 64-bit arguments is
/// the value that it fixes for the same arguments widened to 128 bits.
pub proof fn lemma_widths_agree(n: u64, m: u64, d: u64)
    requires
        width_holds(u64::limit(), n.value(), d.value()),
    ensures
        width_holds(u128::limit(), (n as u128).value(), (d as u128).value()),
        mod_exp(n.value(), m.value(), d.value()) == mod_exp(
            (n as u128).value(),
            (m as u128).value(),
            (d as u128).value(),
        ),
{
    lemma_wide_holds(n, d);
}

/// Computes `n` to the power `m` modulo `d` in the width `T`, halving the
/// exponent at each step. Every product is taken of two numbers of which
/// one is a residue below `d`, so `width_holds` is all that the width must
/// offer.
pub fn pow_mod_generic<T: Width>(n: T, m: T, d: T) -> (r: T)
    requires
        width_holds(T::limit(), n.value(), d.value()),
    ensures
        r.value() == mod_exp(n.value(), m.value(), d.value()),
    decreases m.value(),
{
    if m.same(T::small(0)) {
        proof {
            lemma_mod_exp_zero(n.value(), d.value());
        }
        if d.same(T::small(1)) {
            T::small(0)
        } else {
            T::small(1)
        }
    } else if m.same(T::small(1)) {
        proof {
            lemma_mod_exp_one(n.value(), d.value());
        }
        n.remainder(d)
    } else {
        let k = pow_mod_generic(n, m.quotient(T::small(2)), d);
        proof {
            lemma_mod_exp_range(n.value(), m.value() / 2, d.value());
            lemma_mod_exp_halving(n.value(), m.value(), d.value());
            let kv = k.value() as int;
            let dv = d.value() as int;
            assert(kv * kv <= (dv - 1) * (dv - 1)) by (nonlinear_arith)
                requires
                    0 <= kv <= dv - 1,
            ;
            if n.value() == 0 {
                lemma0_pow(m.value() / 2);
                lemma_small_mod(0, d.value());
                assert(kv * kv == 0) by (nonlinear_arith)
                    requires
                        kv == 0,
                ;
            }
        }
        let square = k.times(k).remainder(d);
        if m.remainder(T::small(2)).same(T::small(0)) {
            square
        } else {
            proof {
                let sv = square.value() as int;
                let dv = d.value() as int;
                let nv = n.value() as int;
                assert(sv * nv <= (dv - 1) * nv) by (nonlinear_arith)
                    requires
                        0 <= sv <= dv - 1,
                        0 <= nv,
                ;
            }
            square.times(n).remainder(d)
        }
    }
}

/// Computes `n` to the power `m` modulo `d`: in 64 bits where
/// `narrow_chosen` holds, otherwise in 128 bits. The result does not
/// depend on which width carried it.
pub fn pow_mod(n: u64, m: u64, d: u64) -> (r: u64)
    requires
        d >= 1,
    ensures
        r == mod_exp(n as nat, m as nat, d as nat),
        r < d,
        m == 0 ==> r == (if d == 1 { 0u64 } else { 1u64 }),
        m == 1 ==> r == n % d,
{
    proof {
        lemma_mod_exp_zero(n as nat, d as nat);
        lemma_mod_exp_one(n as nat, d as nat);
        lemma_mod_exp_range(n as nat, m as nat, d as nat);
    }
    if n < 100 && d < 400_000_000 {
        proof {
            lemma_narrow_holds(n, d);
        }
        pow_mod_generic::<u64>(n, m, d)
    } else {
        proof {
            lemma_wide_holds(n, d);
        }
        let wide = pow_mod_generic::<u128>(n as u128, m as u128, d as u128);
        wide as u64
    }
}

} // verus!
