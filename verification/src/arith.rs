//! Exact arithmetic on amounts beyond what 128 bits hold.

use vstd::prelude::*;

verus! {

/// Two to the power 128.
pub open spec fn two_128() -> int {
    0x1_0000_0000_0000_0000_0000_0000_0000_0000int
}

/// A sum of 128-bit amounts and where it lies relative to what 128 bits hold.
#[derive(Clone, Copy, Debug, PartialEq, Eq)]
pub enum Clamped {
    /// The sum is below `i128::MIN`.
    Under,
    Exact(i128),
    /// The sum is above `i128::MAX`.
    Over,
}

impl Clamped {
    /// Whether this is what a sum of `total` settles to.
    pub open spec fn is_clamp_of(self, total: int) -> bool {
        match self {
            Clamped::Under => total < i128::MIN,
            Clamped::Exact(v) => v == total,
            Clamped::Over => total > i128::MAX,
        }
    }
}

/// A running sum of 128-bit amounts that never overflows. It holds the sum
/// as `low` plus `carry` times two to the power 128, and counts its terms:
/// the carry moves by at most one with each.
#[derive(Clone, Copy, Debug)]
pub struct WideSum {
    carry: i128,
    low: i128,
    terms: usize,
}

impl WideSum {
    /// The sum so far.
    pub closed spec fn value(self) -> int {
        self.carry * two_128() + self.low
    }

    /// How many amounts were added.
    pub closed spec fn terms(self) -> nat {
        self.terms as nat
    }

    #[verifier::type_invariant]
    spec fn carry_within_terms(self) -> bool {
        -self.terms <= self.carry <= self.terms
    }

    /// The empty sum.
    pub fn zero() -> (r: WideSum)
        ensures
            r.value() == 0,
            r.terms() == 0,
    {
        WideSum { carry: 0, low: 0, terms: 0 }
    }

    /// Adds one amount.
    pub fn plus(self, x: i128) -> (r: WideSum)
        requires
            self.terms() < usize::MAX,
        ensures
            r.value() == self.value() + x,
            r.terms() == self.terms() + 1,
    {
        proof {
            use_type_invariant(&self);
        }
        if x > 0 && self.low > i128::MAX - x {
            WideSum {
                carry: self.carry + 1,
                low: (self.low + i128::MIN) + (x + i128::MIN),
                terms: self.terms + 1,
            }
        } else if x < 0 && self.low < i128::MIN - x {
            WideSum {
                carry: self.carry - 1,
                low: (self.low - i128::MIN) + (x - i128::MIN),
                terms: self.terms + 1,
            }
        } else {
            WideSum { carry: self.carry, low: self.low + x, terms: self.terms + 1 }
        }
    }

    /// Where the sum lies relative to what 128 bits hold.
    pub fn settle(self) -> (r: Clamped)
        ensures
            r.is_clamp_of(self.value()),
    {
        if self.carry > 0 {
            assert(self.carry * two_128() >= two_128()) by (nonlinear_arith)
                requires
                    self.carry >= 1,
            ;
            Clamped::Over
        } else if self.carry < 0 {
            assert(self.carry * two_128() <= -two_128()) by (nonlinear_arith)
                requires
                    self.carry <= -1,
            ;
            Clamped::Under
        } else {
            Clamped::Exact(self.low)
        }
    }
}

/// Moving one `c` from the remainder into the quotient keeps the product,
/// and a quotient of `a * b` by `c` is at most `b` where `a` is at most `c`.
proof fn lemma_carry(a: int, b: int, c: int, q: int, r: int)
    requires
        0 <= a <= c,
        0 < c,
        0 <= b,
        c <= r,
        a * b == q * c + r,
    ensures
        a * b == (q + 1) * c + (r - c),
        q + 1 <= b,
{
    assert(a * b == (q + 1) * c + (r - c)) by (nonlinear_arith)
        requires
            a * b == q * c + r,
    ;
    assert(q + 1 <= b) by (nonlinear_arith)
        requires
            0 <= a <= c,
            0 < c,
            0 <= b,
            c <= r,
            a * b == q * c + r,
    ;
}

/// The quotient and remainder of `a * b` by `c`, without forming the product.
pub fn mul_div_rem(a: u128, b: u128, c: u128) -> (r: (u128, u128))
    requires
        0 < c <= i128::MAX,
        a <= c,
    ensures
        a * b == r.0 * c + r.1,
        r.1 < c,
        r.0 <= b,
    decreases b,
{
    if b == 0 {
        assert(a * 0 == 0 * c + 0) by (nonlinear_arith);
        return (0, 0);
    }
    let half: u128 = b / 2;
    let (qh, rh) = mul_div_rem(a, half, c);
    let mut q: u128 = 2 * qh;
    let mut rem: u128 = 2 * rh;
    assert(a * (2 * half) == q * c + rem) by (nonlinear_arith)
        requires
            a * half == qh * c + rh,
            q == 2 * qh,
            rem == 2 * rh,
    ;
    if rem >= c {
        proof {
            lemma_carry(a as int, 2 * half, c as int, q as int, rem as int);
        }
        rem = rem - c;
        q = q + 1;
    }
    if b % 2 == 1 {
        assert(a * b == q * c + (rem + a)) by (nonlinear_arith)
            requires
                a * (2 * half) == q * c + rem,
                b == 2 * half + 1,
        ;
        rem = rem + a;
        if rem >= c {
            proof {
                lemma_carry(a as int, b as int, c as int, q as int, rem as int);
            }
            rem = rem - c;
            q = q + 1;
        }
    }
    assert(q <= b) by (nonlinear_arith)
        requires
            0 <= a <= c,
            0 < c,
            0 <= b,
            0 <= rem,
            a * b == q * c + rem,
    ;
    (q, rem)
}

/// `floor(amount * part / whole)`, exact whatever the size of the product.
pub fn mul_div(amount: i128, part: i128, whole: i128) -> (r: i128)
    requires
        0 <= amount <= whole,
        0 < whole,
        0 <= part,
    ensures
        r == (amount * part) / (whole as int),
        0 <= r <= part,
{
    let (q, rem) = mul_div_rem(amount as u128, part as u128, whole as u128);
    proof {
        vstd::arithmetic::div_mod::lemma_fundamental_div_mod_converse(
            amount * part,
            whole as int,
            q as int,
            rem as int,
        );
    }
    q as i128
}

} // verus!
