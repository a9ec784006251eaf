//! Exact rational numbers over 64-bit components.
//!
//! Map vertices have integer coordinates, but splitting a wall fragment at a
//! partition line produces rational intersection points.  Every coordinate in
//! the compiler is therefore an exact rational `num / den`.  Operations
//! compute in 128-bit intermediates, reduce by the greatest common divisor,
//! and report `None` when a reduced component no longer fits in 64 bits, so
//! no operation ever overflows silently.

use vstd::prelude::*;

verus! {

use vstd::arithmetic::div_mod::{
    lemma_fundamental_div_mod,
    lemma_add_mod_noop,
    lemma_mul_mod_noop_right,
    lemma_mod_self_0,
    lemma_small_mod,
};

/// An exact rational number.  Valid values keep `den >= 1`, and keep
/// `num` away from `i64::MIN` so that negation is always possible.
#[derive(Clone, Copy, Debug, PartialEq, Eq)]
pub struct Rat {
    pub num: i64,
    pub den: i64,
}

impl Rat {
    /// Validity: positive denominator and a negatable numerator.
    pub open spec fn wf(self) -> bool {
        self.den >= 1 && self.num > i64::MIN
    }

    /// The rational is the integer `n`.
    pub fn from_int(n: i64) -> (r: Rat)
        requires
            n > i64::MIN,
        ensures
            r == (Rat { num: n, den: 1int as i64 }),
            r.wf(),
    {
        Rat { num: n, den: 1 }
    }
}

/// `a` and `b` denote the same rational value (denominators positive).
pub open spec fn eq_q(a: Rat, b: Rat) -> bool {
    a.num * b.den == b.num * a.den
}

/// The value of `a` is strictly below the value of `b`.
pub open spec fn lt_q(a: Rat, b: Rat) -> bool {
    a.num * b.den < b.num * a.den
}

/// The value of `a` is at most the value of `b`.
pub open spec fn le_q(a: Rat, b: Rat) -> bool {
    a.num * b.den <= b.num * a.den
}

/// Euclid's greatest common divisor on natural numbers.
pub open spec fn gcd_nat(a: nat, b: nat) -> nat
    decreases b,
{
    if b == 0 {
        a
    } else {
        gcd_nat(b, a % b)
    }
}

/// The greatest common divisor divides both arguments and is positive
/// whenever one argument is.
pub proof fn lemma_gcd_divides(a: nat, b: nat)
    requires
        a > 0 || b > 0,
    ensures
        gcd_nat(a, b) > 0,
        a % gcd_nat(a, b) == 0,
        b % gcd_nat(a, b) == 0,
    decreases b,
{
    let g = gcd_nat(a, b);
    if b == 0 {
        assert(g == a);
        lemma_mod_self_0(a as int);
        lemma_small_mod(0, a);
    } else {
        lemma_gcd_divides(b, a % b);
        assert(g == gcd_nat(b, a % b));
        // a == (a / b) * b + a % b, and g divides both b and a % b.
        lemma_fundamental_div_mod(a as int, b as int);
        let q = a as int / b as int;
        lemma_mul_mod_noop_right(q, b as int, g as int);
        assert((q * (b as int)) % (g as int) == (q * ((b as int) % (g as int))) % (g as int));
        assert((q * (b as int)) % (g as int) == 0) by {
            assert((b as int) % (g as int) == 0);
            assert(q * 0 == 0) by (nonlinear_arith);
            lemma_small_mod(0, g);
        }
        lemma_add_mod_noop(q * (b as int), (a % b) as int, g as int);
        lemma_small_mod(0, g);
    }
}

/// `gcd_nat(a, 1) == 1`.
pub proof fn lemma_gcd_one(a: nat)
    ensures
        gcd_nat(a, 1) == 1,
{
    lemma_small_mod(0, 1);
    assert(a % 1 == 0) by {
        lemma_fundamental_div_mod(a as int, 1int);
    }
    assert(gcd_nat(a, 1) == gcd_nat(1, 0));
}

/// Magnitude of an integer.
pub open spec fn abs_i(n: int) -> nat {
    if n < 0 {
        (-n) as nat
    } else {
        n as nat
    }
}

/// Reduction of the fraction `n / d` (with `d >= 1`) to 64-bit components:
/// divide both by their greatest common divisor and check the result fits.
#[verifier::opaque]
pub open spec fn norm_q(n: int, d: int) -> Option<Rat> {
    let g = gcd_nat(abs_i(n), d as nat) as int;
    let a = abs_i(n) as int / g;
    let b = d / g;
    if a <= i64::MAX && b <= i64::MAX {
        Some(Rat { num: (if n < 0 { -a } else { a }) as i64, den: b as i64 })
    } else {
        None
    }
}

/// A successful reduction denotes the same rational value as `n / d`
/// and is well formed.
pub proof fn lemma_norm_props(n: int, d: int)
    requires
        d >= 1,
    ensures
        norm_q(n, d) matches Some(r) ==> r.wf() && r.num * d == n * r.den,
{
    reveal(norm_q);
    let na = abs_i(n);
    lemma_gcd_divides(na, d as nat);
    let g = gcd_nat(na, d as nat) as int;
    let a = na as int / g;
    let b = d / g;
    lemma_fundamental_div_mod(na as int, g);
    lemma_fundamental_div_mod(d, g);
    assert(na as int == g * a);
    assert(d == g * b);
    if a <= i64::MAX && b <= i64::MAX {
        let r = norm_q(n, d)->Some_0;
        assert(b >= 1) by {
            if b <= 0 {
                assert(g * b <= 0) by (nonlinear_arith)
                    requires
                        g > 0,
                        b <= 0,
                ;
            }
        }
        assert(0 <= a) by {
            if a < 0 {
                assert(g * a < 0) by (nonlinear_arith)
                    requires
                        g > 0,
                        a < 0,
                ;
            }
        }
        assert(a * (g * b) == (g * a) * b) by (nonlinear_arith);
        if n < 0 {
            assert(r.num == -a && r.den == b);
            assert(na as int == -n);
            assert((-a) * d == n * b) by {
                assert(a * d == (-n) * b);
                assert((-a) * d == -(a * d)) by (nonlinear_arith);
                assert(-((-n) * b) == n * b) by (nonlinear_arith);
            }
        } else {
            assert(r.num == a && r.den == b);
            assert(na as int == n);
        }
    }
}

/// When no reduction is needed because the denominator is already 1,
/// a numerator within range always reduces successfully, to itself.
pub proof fn lemma_norm_int(n: int)
    requires
        -i64::MAX <= n <= i64::MAX,
    ensures
        norm_q(n, 1) == Some(Rat { num: n as i64, den: 1int as i64 }),
{
    reveal(norm_q);
    lemma_gcd_one(abs_i(n));
    let a = abs_i(n) as int / 1;
    lemma_fundamental_div_mod(abs_i(n) as int, 1);
    lemma_fundamental_div_mod(1, 1);
    assert(a == abs_i(n) as int);
    assert(1int / 1 == 1) by {
        assert(1int == 1 * (1int / 1) + 1int % 1);
    }
    if n < 0 {
        assert(-(abs_i(n) as int) == n);
    }
}

/// The reduced form of `n / d`, or `None` when a component exceeds 64 bits.
fn norm(n: i128, d: i128) -> (r: Option<Rat>)
    requires
        d >= 1,
        n > i128::MIN,
    ensures
        r == norm_q(n as int, d as int),
{
    proof {
        reveal(norm_q);
    }
    let na: u128 = if n < 0 {
        (-n) as u128
    } else {
        n as u128
    };
    let da: u128 = d as u128;
    proof {
        lemma_gcd_divides(na as nat, da as nat);
    }
    let g = gcd_u128(na, da);
    let a = na / g;
    let b = da / g;
    if a <= i64::MAX as u128 && b <= i64::MAX as u128 {
        let num: i64 = if n < 0 {
            -(a as i64)
        } else {
            a as i64
        };
        Some(Rat { num, den: b as i64 })
    } else {
        None
    }
}

/// Euclid's algorithm, mirroring `gcd_nat`.
fn gcd_u128(a: u128, b: u128) -> (g: u128)
    ensures
        g as nat == gcd_nat(a as nat, b as nat),
    decreases b,
{
    if b == 0 {
        a
    } else {
        gcd_u128(b, a % b)
    }
}

/// Bound on a product from bounds on its factors.
pub proof fn lemma_mul_bound(x: int, y: int, mx: int, my: int)
    by (nonlinear_arith)
    requires
        -mx <= x <= mx,
        -my <= y <= my,
        0 <= mx,
        0 <= my,
    ensures
        -(mx * my) <= x * y <= mx * my,
{
}

/// A product of positive factors is positive.
pub proof fn lemma_mul_pos(x: int, y: int)
    by (nonlinear_arith)
    requires
        x >= 1,
        y >= 1,
    ensures
        x * y >= 1,
{
}

/// The reduced sum of two rationals, `None` past the 64-bit range.
pub open spec fn add_q(a: Rat, b: Rat) -> Option<Rat> {
    norm_q(a.num * b.den + b.num * a.den, a.den * b.den)
}

/// The reduced difference of two rationals, `None` past the 64-bit range.
pub open spec fn sub_q(a: Rat, b: Rat) -> Option<Rat> {
    norm_q(a.num * b.den - b.num * a.den, a.den * b.den)
}

/// The reduced product of two rationals, `None` past the 64-bit range.
pub open spec fn mul_q(a: Rat, b: Rat) -> Option<Rat> {
    norm_q(a.num * b.num, a.den * b.den)
}

/// The reduced quotient of two rationals; `None` for a zero divisor or
/// past the 64-bit range.
pub open spec fn div_q(a: Rat, b: Rat) -> Option<Rat> {
    if b.num == 0 {
        None
    } else if b.num < 0 {
        norm_q(-(a.num * b.den), a.den * -b.num)
    } else {
        norm_q(a.num * b.den, a.den * b.num)
    }
}

/// Exact addition.
pub fn rat_add(a: &Rat, b: &Rat) -> (r: Option<Rat>)
    requires
        a.wf(),
        b.wf(),
    ensures
        r == add_q(*a, *b),
{
    proof {
        lemma_mul_bound(a.num as int, b.den as int, i64::MAX as int, i64::MAX as int);
        lemma_mul_bound(b.num as int, a.den as int, i64::MAX as int, i64::MAX as int);
        lemma_mul_pos(a.den as int, b.den as int);
        lemma_mul_bound(a.den as int, b.den as int, i64::MAX as int, i64::MAX as int);
    }
    let n: i128 = (a.num as i128) * (b.den as i128) + (b.num as i128) * (a.den as i128);
    let d: i128 = (a.den as i128) * (b.den as i128);
    norm(n, d)
}

/// Exact subtraction.
pub fn rat_sub(a: &Rat, b: &Rat) -> (r: Option<Rat>)
    requires
        a.wf(),
        b.wf(),
    ensures
        r == sub_q(*a, *b),
{
    proof {
        lemma_mul_bound(a.num as int, b.den as int, i64::MAX as int, i64::MAX as int);
        lemma_mul_bound(b.num as int, a.den as int, i64::MAX as int, i64::MAX as int);
        lemma_mul_pos(a.den as int, b.den as int);
        lemma_mul_bound(a.den as int, b.den as int, i64::MAX as int, i64::MAX as int);
    }
    let n: i128 = (a.num as i128) * (b.den as i128) - (b.num as i128) * (a.den as i128);
    let d: i128 = (a.den as i128) * (b.den as i128);
    norm(n, d)
}

/// Exact multiplication.
pub fn rat_mul(a: &Rat, b: &Rat) -> (r: Option<Rat>)
    requires
        a.wf(),
        b.wf(),
    ensures
        r == mul_q(*a, *b),
{
    proof {
        lemma_mul_bound(a.num as int, b.num as int, i64::MAX as int, i64::MAX as int);
        lemma_mul_pos(a.den as int, b.den as int);
        lemma_mul_bound(a.den as int, b.den as int, i64::MAX as int, i64::MAX as int);
    }
    let n: i128 = (a.num as i128) * (b.num as i128);
    let d: i128 = (a.den as i128) * (b.den as i128);
    norm(n, d)
}

/// Exact division by a nonzero rational.
pub fn rat_div(a: &Rat, b: &Rat) -> (r: Option<Rat>)
    requires
        a.wf(),
        b.wf(),
        b.num != 0,
    ensures
        r == div_q(*a, *b),
{
    proof {
        lemma_mul_bound(a.num as int, b.den as int, i64::MAX as int, i64::MAX as int);
        lemma_mul_bound(a.den as int, b.num as int, i64::MAX as int, i64::MAX as int);
    }
    let n: i128 = (a.num as i128) * (b.den as i128);
    let d: i128 = (a.den as i128) * (b.num as i128);
    if b.num < 0 {
        proof {
            lemma_mul_bound(a.den as int, -(b.num as int), i64::MAX as int, i64::MAX as int);
            lemma_mul_pos(a.den as int, -(b.num as int));
            assert((a.den as int) * -(b.num as int) == -((a.den as int) * (b.num as int)))
                by (nonlinear_arith);
        }
        norm(-n, -d)
    } else {
        proof {
            lemma_mul_pos(a.den as int, b.num as int);
        }
        norm(n, d)
    }
}

/// Strict order on rational values.
pub fn rat_lt(a: &Rat, b: &Rat) -> (r: bool)
    requires
        a.wf(),
        b.wf(),
    ensures
        r == lt_q(*a, *b),
{
    proof {
        lemma_mul_bound(a.num as int, b.den as int, i64::MAX as int, i64::MAX as int);
        lemma_mul_bound(b.num as int, a.den as int, i64::MAX as int, i64::MAX as int);
    }
    (a.num as i128) * (b.den as i128) < (b.num as i128) * (a.den as i128)
}

/// Non-strict order on rational values.
pub fn rat_le(a: &Rat, b: &Rat) -> (r: bool)
    requires
        a.wf(),
        b.wf(),
    ensures
        r == le_q(*a, *b),
{
    proof {
        lemma_mul_bound(a.num as int, b.den as int, i64::MAX as int, i64::MAX as int);
        lemma_mul_bound(b.num as int, a.den as int, i64::MAX as int, i64::MAX as int);
    }
    (a.num as i128) * (b.den as i128) <= (b.num as i128) * (a.den as i128)
}

/// Equality of rational values, independent of the representation.
pub fn rat_eq(a: &Rat, b: &Rat) -> (r: bool)
    requires
        a.wf(),
        b.wf(),
    ensures
        r == eq_q(*a, *b),
{
    proof {
        lemma_mul_bound(a.num as int, b.den as int, i64::MAX as int, i64::MAX as int);
        lemma_mul_bound(b.num as int, a.den as int, i64::MAX as int, i64::MAX as int);
    }
    (a.num as i128) * (b.den as i128) == (b.num as i128) * (a.den as i128)
}

/// A successful sum is well formed and denotes the exact sum:
/// cross-multiplied, `r = (a.num b.den + b.num a.den) / (a.den b.den)`.
pub proof fn lemma_add_props(a: Rat, b: Rat)
    requires
        a.wf(),
        b.wf(),
    ensures
        add_q(a, b) matches Some(r) ==> r.wf() && r.num * (a.den * b.den) == (a.num * b.den
            + b.num * a.den) * r.den,
{
    lemma_mul_pos(a.den as int, b.den as int);
    lemma_norm_props(a.num * b.den + b.num * a.den, a.den * b.den);
}

/// A successful difference is well formed and denotes the exact difference.
pub proof fn lemma_sub_props(a: Rat, b: Rat)
    requires
        a.wf(),
        b.wf(),
    ensures
        sub_q(a, b) matches Some(r) ==> r.wf() && r.num * (a.den * b.den) == (a.num * b.den
            - b.num * a.den) * r.den,
{
    lemma_mul_pos(a.den as int, b.den as int);
    lemma_norm_props(a.num * b.den - b.num * a.den, a.den * b.den);
}

/// A successful product is well formed and denotes the exact product.
pub proof fn lemma_mul_props(a: Rat, b: Rat)
    requires
        a.wf(),
        b.wf(),
    ensures
        mul_q(a, b) matches Some(r) ==> r.wf() && r.num * (a.den * b.den) == (a.num * b.num)
            * r.den,
{
    lemma_mul_pos(a.den as int, b.den as int);
    lemma_norm_props(a.num * b.num, a.den * b.den);
}

/// A successful quotient is well formed and denotes the exact quotient:
/// `r = (a.num b.den) / (a.den b.num)`, whatever the divisor's sign.
pub proof fn lemma_div_props(a: Rat, b: Rat)
    requires
        a.wf(),
        b.wf(),
        b.num != 0,
    ensures
        div_q(a, b) matches Some(r) ==> r.wf() && r.num * (a.den * b.num) == (a.num * b.den)
            * r.den,
{
    if b.num < 0 {
        lemma_mul_pos(a.den as int, -(b.num as int));
        lemma_norm_props(-(a.num * b.den), a.den * -b.num);
        if div_q(a, b) is Some {
            let r = div_q(a, b)->Some_0;
            assert(r.num * (a.den * -b.num) == (-(a.num * b.den)) * r.den);
            assert(r.num * (a.den * b.num) == (a.num * b.den) * r.den) by (nonlinear_arith)
                requires
                    r.num * (a.den * -b.num) == (-(a.num * b.den)) * r.den,
            ;
        }
    } else {
        lemma_mul_pos(a.den as int, b.num as int);
        lemma_norm_props(a.num * b.den, a.den * b.num);
    }
}

/// The smaller of two rational values (the first on a tie).
pub open spec fn min_q(a: Rat, b: Rat) -> Rat {
    if lt_q(b, a) {
        b
    } else {
        a
    }
}

/// The larger of two rational values (the first on a tie).
pub open spec fn max_q(a: Rat, b: Rat) -> Rat {
    if lt_q(a, b) {
        b
    } else {
        a
    }
}

/// The smaller of two rational values.
pub fn rat_min(a: &Rat, b: &Rat) -> (r: Rat)
    requires
        a.wf(),
        b.wf(),
    ensures
        r == min_q(*a, *b),
        r.wf(),
{
    if rat_lt(b, a) {
        *b
    } else {
        *a
    }
}

/// The larger of two rational values.
pub fn rat_max(a: &Rat, b: &Rat) -> (r: Rat)
    requires
        a.wf(),
        b.wf(),
    ensures
        r == max_q(*a, *b),
        r.wf(),
{
    if rat_lt(a, b) {
        *b
    } else {
        *a
    }
}

} // verus!
