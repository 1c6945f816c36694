//! Exact rational arithmetic.
//!
//! Every continuous quantity in the simulation (grams of a fluid, joules of
//! power, a reactor's scale factor, a reactivity) is an exact rational
//! number: an `i64` numerator over a positive `i64` denominator.  The
//! mathematical model of a value is [`Q`], a quotient of unbounded integers;
//! each arithmetic operation is checked and returns `None` exactly when the
//! exact result does not fit the machine representation.

use vstd::prelude::*;

verus! {

/// A mathematical rational number: an integer numerator over a positive
/// integer denominator.  This is the specification-level model of [`Rat`].
pub struct Q {
    pub num: int,
    pub den: int,
}

/// A well-formed rational has a positive denominator.
pub open spec fn q_wf(a: Q) -> bool {
    a.den >= 1
}

/// The exact numerator and denominator fit the machine representation.
pub open spec fn q_fits(a: Q) -> bool {
    &&& -(i64::MAX as int) <= a.num <= i64::MAX as int
    &&& 1 <= a.den <= i64::MAX as int
}

/// The rational `n / 1`.
pub open spec fn q_from(n: int) -> Q {
    Q { num: n, den: 1 }
}

pub open spec fn q_le(a: Q, b: Q) -> bool {
    a.num * b.den <= b.num * a.den
}

pub open spec fn q_lt(a: Q, b: Q) -> bool {
    a.num * b.den < b.num * a.den
}

/// Two fractions denote the same rational number.
pub open spec fn q_eq(a: Q, b: Q) -> bool {
    a.num * b.den == b.num * a.den
}

pub open spec fn q_add(a: Q, b: Q) -> Q {
    Q { num: a.num * b.den + b.num * a.den, den: a.den * b.den }
}

pub open spec fn q_sub(a: Q, b: Q) -> Q {
    Q { num: a.num * b.den - b.num * a.den, den: a.den * b.den }
}

pub open spec fn q_mul(a: Q, b: Q) -> Q {
    Q { num: a.num * b.num, den: a.den * b.den }
}

pub open spec fn q_neg(a: Q) -> Q {
    Q { num: -a.num, den: a.den }
}

pub open spec fn q_abs(a: Q) -> Q {
    if a.num >= 0 {
        a
    } else {
        q_neg(a)
    }
}

/// The quotient `a / b`, sign-adjusted so the denominator stays positive.
/// Meaningful only when `b.num != 0`.
pub open spec fn q_div(a: Q, b: Q) -> Q {
    if b.num >= 0 {
        Q { num: a.num * b.den, den: a.den * b.num }
    } else {
        Q { num: -(a.num * b.den), den: -(a.den * b.num) }
    }
}

/// The smaller of two rationals; on a tie the first argument is kept.
pub open spec fn q_min(a: Q, b: Q) -> Q {
    if q_le(a, b) {
        a
    } else {
        b
    }
}

/// The largest integer no greater than `a`.  For a positive denominator,
/// Euclidean division of the numerator by the denominator is the floor.
pub open spec fn q_floor(a: Q) -> int {
    a.num / a.den
}

/// `a` denotes an integer.
pub open spec fn q_is_whole(a: Q) -> bool {
    q_eq(a, q_from(q_floor(a)))
}

proof fn lemma_mul_range(x: int, y: int, bx: int, by: int)
    by (nonlinear_arith)
    requires
        -bx <= x <= bx,
        -by <= y <= by,
        0 <= bx,
        0 <= by,
    ensures
        -(bx * by) <= x * y <= bx * by,
{
}

proof fn lemma_pos_mul(x: int, y: int)
    by (nonlinear_arith)
    requires
        x >= 1,
        y >= 1,
    ensures
        x * y >= 1,
{
}

proof fn lemma_sign_mul(x: int, y: int)
    by (nonlinear_arith)
    requires
        x >= 1,
    ensures
        y > 0 ==> x * y > 0,
        y < 0 ==> x * y < 0,
        y == 0 ==> x * y == 0,
{
}

/// Any two well-formed rationals are comparable.
pub proof fn lemma_q_le_total(a: Q, b: Q)
    by (nonlinear_arith)
    requires
        q_wf(a),
        q_wf(b),
    ensures
        q_le(a, b) || q_le(b, a),
{
}

/// `q_le` is transitive over well-formed rationals.
pub proof fn lemma_q_le_trans(a: Q, b: Q, c: Q)
    by (nonlinear_arith)
    requires
        q_wf(a),
        q_wf(b),
        q_wf(c),
        q_le(a, b),
        q_le(b, c),
    ensures
        q_le(a, c),
{
}

/// Minimality of the binding constraint: the minimum of two ratios is no
/// greater than either, and is always one of them, so a fold of `q_min`
/// over resource ratios ends at or below every ratio and equal to one.
pub proof fn lemma_q_min_props(a: Q, b: Q)
    requires
        q_wf(a),
        q_wf(b),
    ensures
        q_le(q_min(a, b), a),
        q_le(q_min(a, b), b),
        q_min(a, b) == a || q_min(a, b) == b,
{
    lemma_q_le_total(a, b);
}

/// `q_eq` is transitive over well-formed rationals.
pub proof fn lemma_q_eq_trans(a: Q, b: Q, c: Q)
    by (nonlinear_arith)
    requires
        q_wf(a),
        q_wf(b),
        q_wf(c),
        q_eq(a, b),
        q_eq(b, c),
    ensures
        q_eq(a, c),
{
}

/// The exact sum of well-formed rationals is well formed.
pub proof fn lemma_q_add_wf(a: Q, b: Q)
    by (nonlinear_arith)
    requires
        q_wf(a),
        q_wf(b),
    ensures
        q_wf(q_add(a, b)),
{
}

/// Conservation of one ledger entry: a reaction moves `d` between the
/// available side and the free-space side, and `(a - d) + (s + d)` (for an
/// input) or `(a + d) + (s - d)` (for an output) equals `a + s` exactly.
pub proof fn lemma_q_sum_shift(a: Q, s: Q, d: Q)
    requires
        q_wf(a),
        q_wf(s),
        q_wf(d),
    ensures
        q_eq(q_add(q_sub(a, d), q_add(s, d)), q_add(a, s)),
        q_eq(q_add(q_add(a, d), q_sub(s, d)), q_add(a, s)),
{
    broadcast use vstd::arithmetic::mul::group_mul_properties;

}

/// Bounds of the floor: `floor(a) <= a < floor(a) + 1`, and the floor of a
/// non-negative rational lies between zero and the numerator.
pub proof fn lemma_q_floor(a: Q)
    requires
        q_wf(a),
    ensures
        q_le(q_from(q_floor(a)), a),
        q_lt(a, q_from(q_floor(a) + 1)),
        0 <= a.num ==> 0 <= q_floor(a) <= a.num,
        a.num < 0 ==> q_floor(a) < 0,
{
    let q = a.num / a.den;
    let r = a.num % a.den;
    vstd::arithmetic::div_mod::lemma_fundamental_div_mod(a.num, a.den);
    vstd::arithmetic::div_mod::lemma_mod_bound(a.num, a.den);
    assert(q * a.den <= a.num && a.num < (q + 1) * a.den) by (nonlinear_arith)
        requires
            a.num == a.den * q + r,
            0 <= r < a.den,
            a.den >= 1,
    ;
    if 0 <= a.num {
        assert(0 <= q && q <= a.num) by (nonlinear_arith)
            requires
                a.num == a.den * q + r,
                0 <= r < a.den,
                a.den >= 1,
                0 <= a.num,
        ;
    }
    if a.num < 0 {
        assert(q < 0) by (nonlinear_arith)
            requires
                a.num == a.den * q + r,
                0 <= r < a.den,
                a.den >= 1,
                a.num < 0,
        ;
    }
}

fn gcd_u64(a: u64, b: u64) -> (g: u64)
    requires
        b >= 1,
    ensures
        g >= 1,
{
    let mut x = a;
    let mut y = b;
    while y != 0
        invariant
            x >= 1 || y >= 1,
        decreases y,
    {
        let t = x % y;
        x = y;
        y = t;
    }
    x
}

/// An exact rational number with an `i64` numerator and a positive `i64`
/// denominator.  Fractions are not reduced: each operation returns the
/// exact, unreduced result or reports that it does not fit.
#[derive(Clone, Copy, Debug)]
pub struct Rat {
    num: i64,
    den: i64,
}

impl View for Rat {
    type V = Q;

    closed spec fn view(&self) -> Q {
        Q { num: self.num as int, den: self.den as int }
    }
}

impl Rat {
    #[verifier::type_invariant]
    spec fn type_inv(self) -> bool {
        self.den >= 1
    }

    /// The fraction `num / den`; `None` exactly when `den < 1`.
    pub fn new(num: i64, den: i64) -> (r: Option<Rat>)
        ensures
            r is Some <==> den >= 1,
            r matches Some(v) ==> v@ == (Q { num: num as int, den: den as int }) && q_wf(v@),
    {
        if den >= 1 {
            Some(Rat { num, den })
        } else {
            None
        }
    }

    /// The whole number `n`.
    pub fn from_i64(n: i64) -> (r: Rat)
        ensures
            r@ == q_from(n as int),
            q_wf(r@),
    {
        Rat { num: n, den: 1 }
    }

    /// Whether this value lies in the range the checked operations can
    /// return, decided at run time.
    pub fn fits(&self) -> (b: bool)
        ensures
            b == q_fits(self@),
    {
        proof {
            use_type_invariant(self);
        }
        self.num != i64::MIN
    }

    pub fn numer(&self) -> (n: i64)
        ensures
            n as int == self@.num,
    {
        self.num
    }

    pub fn denom(&self) -> (d: i64)
        ensures
            d as int == self@.den,
            d >= 1,
    {
        proof {
            use_type_invariant(self);
        }
        self.den
    }

    /// Exact sum; `None` exactly when the exact result does not fit.
    pub fn checked_add(&self, other: &Rat) -> (r: Option<Rat>)
        ensures
            r is Some <==> q_fits(q_add(self@, other@)),
            r matches Some(v) ==> v@ == q_add(self@, other@),
    {
        proof {
            use_type_invariant(self);
            use_type_invariant(other);
            lemma_mul_range(
                self.num as int,
                other.den as int,
                0x8000_0000_0000_0000,
                0x7fff_ffff_ffff_ffff,
            );
            lemma_mul_range(
                other.num as int,
                self.den as int,
                0x8000_0000_0000_0000,
                0x7fff_ffff_ffff_ffff,
            );
            lemma_mul_range(
                self.den as int,
                other.den as int,
                0x7fff_ffff_ffff_ffff,
                0x7fff_ffff_ffff_ffff,
            );
            lemma_pos_mul(self.den as int, other.den as int);
        }
        let n: i128 = (self.num as i128) * (other.den as i128) + (other.num as i128) * (self.den
            as i128);
        let d: i128 = (self.den as i128) * (other.den as i128);
        if -(i64::MAX as i128) <= n && n <= i64::MAX as i128 && d <= i64::MAX as i128 {
            Some(Rat { num: n as i64, den: d as i64 })
        } else {
            None
        }
    }

    /// Exact difference; `None` exactly when the exact result does not fit.
    pub fn checked_sub(&self, other: &Rat) -> (r: Option<Rat>)
        ensures
            r is Some <==> q_fits(q_sub(self@, other@)),
            r matches Some(v) ==> v@ == q_sub(self@, other@),
    {
        proof {
            use_type_invariant(self);
            use_type_invariant(other);
            lemma_mul_range(
                self.num as int,
                other.den as int,
                0x8000_0000_0000_0000,
                0x7fff_ffff_ffff_ffff,
            );
            lemma_mul_range(
                other.num as int,
                self.den as int,
                0x8000_0000_0000_0000,
                0x7fff_ffff_ffff_ffff,
            );
            lemma_mul_range(
                self.den as int,
                other.den as int,
                0x7fff_ffff_ffff_ffff,
                0x7fff_ffff_ffff_ffff,
            );
            lemma_pos_mul(self.den as int, other.den as int);
        }
        let n: i128 = (self.num as i128) * (other.den as i128) - (other.num as i128) * (self.den
            as i128);
        let d: i128 = (self.den as i128) * (other.den as i128);
        if -(i64::MAX as i128) <= n && n <= i64::MAX as i128 && d <= i64::MAX as i128 {
            Some(Rat { num: n as i64, den: d as i64 })
        } else {
            None
        }
    }

    /// Exact product; `None` exactly when the exact result does not fit.
    pub fn checked_mul(&self, other: &Rat) -> (r: Option<Rat>)
        ensures
            r is Some <==> q_fits(q_mul(self@, other@)),
            r matches Some(v) ==> v@ == q_mul(self@, other@),
    {
        proof {
            use_type_invariant(self);
            use_type_invariant(other);
            lemma_mul_range(
                self.num as int,
                other.num as int,
                0x8000_0000_0000_0000,
                0x8000_0000_0000_0000,
            );
            lemma_mul_range(
                self.den as int,
                other.den as int,
                0x7fff_ffff_ffff_ffff,
                0x7fff_ffff_ffff_ffff,
            );
            lemma_pos_mul(self.den as int, other.den as int);
        }
        let n: i128 = (self.num as i128) * (other.num as i128);
        let d: i128 = (self.den as i128) * (other.den as i128);
        if -(i64::MAX as i128) <= n && n <= i64::MAX as i128 && d <= i64::MAX as i128 {
            Some(Rat { num: n as i64, den: d as i64 })
        } else {
            None
        }
    }

    /// Exact quotient; `None` exactly when `other` is zero or the exact
    /// result does not fit.
    pub fn checked_div(&self, other: &Rat) -> (r: Option<Rat>)
        ensures
            r is Some <==> (other@.num != 0 && q_fits(q_div(self@, other@))),
            r matches Some(v) ==> v@ == q_div(self@, other@),
    {
        proof {
            use_type_invariant(self);
            use_type_invariant(other);
            lemma_mul_range(
                self.num as int,
                other.den as int,
                0x8000_0000_0000_0000,
                0x7fff_ffff_ffff_ffff,
            );
            lemma_mul_range(
                self.den as int,
                other.num as int,
                0x7fff_ffff_ffff_ffff,
                0x8000_0000_0000_0000,
            );
            lemma_sign_mul(self.den as int, other.num as int);
        }
        if other.num == 0 {
            return None;
        }
        let mut n: i128 = (self.num as i128) * (other.den as i128);
        let mut d: i128 = (self.den as i128) * (other.num as i128);
        if d < 0 {
            n = -n;
            d = -d;
        }
        if -(i64::MAX as i128) <= n && n <= i64::MAX as i128 && d <= i64::MAX as i128 {
            Some(Rat { num: n as i64, den: d as i64 })
        } else {
            None
        }
    }

    /// Compare two rationals exactly.
    pub fn le(&self, other: &Rat) -> (r: bool)
        ensures
            r == q_le(self@, other@),
    {
        proof {
            use_type_invariant(self);
            use_type_invariant(other);
            lemma_mul_range(
                self.num as int,
                other.den as int,
                0x8000_0000_0000_0000,
                0x7fff_ffff_ffff_ffff,
            );
            lemma_mul_range(
                other.num as int,
                self.den as int,
                0x8000_0000_0000_0000,
                0x7fff_ffff_ffff_ffff,
            );
        }
        (self.num as i128) * (other.den as i128) <= (other.num as i128) * (self.den as i128)
    }

    pub fn lt(&self, other: &Rat) -> (r: bool)
        ensures
            r == q_lt(self@, other@),
    {
        proof {
            use_type_invariant(self);
            use_type_invariant(other);
            lemma_mul_range(
                self.num as int,
                other.den as int,
                0x8000_0000_0000_0000,
                0x7fff_ffff_ffff_ffff,
            );
            lemma_mul_range(
                other.num as int,
                self.den as int,
                0x8000_0000_0000_0000,
                0x7fff_ffff_ffff_ffff,
            );
        }
        (self.num as i128) * (other.den as i128) < (other.num as i128) * (self.den as i128)
    }

    /// Value equality of two fractions (not representation equality).
    pub fn eq_value(&self, other: &Rat) -> (r: bool)
        ensures
            r == q_eq(self@, other@),
    {
        proof {
            use_type_invariant(self);
            use_type_invariant(other);
            lemma_mul_range(
                self.num as int,
                other.den as int,
                0x8000_0000_0000_0000,
                0x7fff_ffff_ffff_ffff,
            );
            lemma_mul_range(
                other.num as int,
                self.den as int,
                0x8000_0000_0000_0000,
                0x7fff_ffff_ffff_ffff,
            );
        }
        (self.num as i128) * (other.den as i128) == (other.num as i128) * (self.den as i128)
    }

    pub fn is_zero(&self) -> (r: bool)
        ensures
            r == q_eq(self@, q_from(0)),
    {
        proof {
            use_type_invariant(self);
        }
        self.num == 0
    }

    pub fn is_pos(&self) -> (r: bool)
        ensures
            r == q_lt(q_from(0), self@),
    {
        proof {
            use_type_invariant(self);
        }
        self.num > 0
    }

    pub fn is_neg(&self) -> (r: bool)
        ensures
            r == q_lt(self@, q_from(0)),
    {
        proof {
            use_type_invariant(self);
        }
        self.num < 0
    }

    /// Exact negation.
    pub fn checked_neg(&self) -> (r: Option<Rat>)
        ensures
            r is Some <==> q_fits(q_neg(self@)),
            r matches Some(v) ==> v@ == q_neg(self@),
    {
        proof {
            use_type_invariant(self);
        }
        if self.num == i64::MIN {
            None
        } else {
            Some(Rat { num: -self.num, den: self.den })
        }
    }

    /// The same value over the smallest denominator.  The checked
    /// operations return exact, unreduced fractions, so denominators grow
    /// across a long run of steps; reducing stored values between steps
    /// keeps them far from the machine range.
    pub fn reduced(&self) -> (r: Rat)
        ensures
            q_eq(r@, self@),
            q_wf(r@),
            r@.den <= self@.den,
    {
        proof {
            use_type_invariant(self);
        }
        if self.num == 0 {
            return Rat { num: 0, den: 1 };
        }
        let mag: u64 = if self.num < 0 {
            (-(self.num as i128)) as u64
        } else {
            self.num as u64
        };
        let den: u64 = self.den as u64;
        let g: u64 = gcd_u64(mag, den);
        if mag % g == 0 && den % g == 0 {
            let m2: u64 = mag / g;
            let d2: u64 = den / g;
            proof {
                vstd::arithmetic::div_mod::lemma_fundamental_div_mod(mag as int, g as int);
                vstd::arithmetic::div_mod::lemma_fundamental_div_mod(den as int, g as int);
                assert(d2 >= 1 && m2 >= 1 && m2 <= mag && d2 <= den) by (nonlinear_arith)
                    requires
                        mag as int == g as int * (m2 as int),
                        den as int == g as int * (d2 as int),
                        mag >= 1,
                        den >= 1,
                        g >= 1,
                        m2 >= 0,
                        d2 >= 0,
                ;
            }
            if m2 <= i64::MAX as u64 {
                let num2: i64 = if self.num < 0 {
                    -(m2 as i64)
                } else {
                    m2 as i64
                };
                proof {
                    assert((num2 as int) * (self@.den) == (self@.num) * (d2 as int))
                        by (nonlinear_arith)
                        requires
                            mag as int == g as int * (m2 as int),
                            self@.den == g as int * (d2 as int),
                            self@.num < 0 ==> (self@.num == -(mag as int) && num2 as int == -(
                            m2 as int)),
                            self@.num >= 0 ==> (self@.num == mag as int && num2 as int
                                == m2 as int),
                    ;
                }
                return Rat { num: num2, den: d2 as i64 };
            }
        }
        *self
    }

    /// Floor of a non-negative rational.
    pub fn floor_nonneg(&self) -> (r: u64)
        requires
            q_le(q_from(0), self@),
        ensures
            r as int == q_floor(self@),
    {
        proof {
            use_type_invariant(self);
        }
        (self.num as u64) / (self.den as u64)
    }
}

} // verus!
