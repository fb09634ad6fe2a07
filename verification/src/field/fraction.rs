//! Fractions of mathematical integers: the values that rationals stand for.
//!
//! A [`Fraction`] is any pair of integers; the field of rationals is made of
//! the simplified ones, and every operation yields a simplified fraction.
use vstd::prelude::*;
use vstd::arithmetic::div_mod::lemma_fundamental_div_mod;
use vstd::arithmetic::div_mod::lemma_mod_multiples_basic;
use vstd::arithmetic::div_mod::lemma_truncate_middle;
use vstd::math::abs;

verus! {

/// The greatest common divisor of `a` and `b`, by Euclid's recursion.
/// `gcd(0, 0)` is 0.
pub open spec fn gcd(a: nat, b: nat) -> nat
    decreases b,
{
    if b == 0 {
        a
    } else {
        gcd(b, a % b)
    }
}

/// Whether `d` divides both `a` and `b`.
pub open spec fn is_common_divisor(d: nat, a: nat, b: nat) -> bool {
    d > 0 && a % d == 0 && b % d == 0
}

/// A multiple of a positive `d` leaves no remainder, and a number that leaves
/// none is the product of `d` and its quotient.
pub proof fn lemma_multiple(n: int, d: int)
    requires
        d > 0,
    ensures
        n % d == 0 <==> n == d * (n / d),
        forall|k: int| #[trigger] (k * d) % d == 0,
{
    lemma_fundamental_div_mod(n, d);
    assert forall|k: int| #[trigger] (k * d) % d == 0 by {
        lemma_mod_multiples_basic(k, d);
    }
    if n == d * (n / d) {
        lemma_mod_multiples_basic(n / d, d);
        assert(d * (n / d) == (n / d) * d) by (nonlinear_arith);
    }
}

/// A common divisor of `a` and a positive `b` divides the remainder `a % b`.
proof fn lemma_divides_remainder(d: nat, a: nat, b: nat)
    requires
        b > 0,
        is_common_divisor(d, a, b),
    ensures
        (a % b) % d == 0,
{
    let di = d as int;
    let ai = a as int;
    let bi = b as int;
    lemma_multiple(ai, di);
    lemma_multiple(bi, di);
    lemma_fundamental_div_mod(ai, bi);
    let k = ai / di - (bi / di) * (ai / bi);
    assert(ai % bi == k * di) by (nonlinear_arith)
        requires
            ai == di * (ai / di),
            bi == di * (bi / di),
            ai == bi * (ai / bi) + ai % bi,
            k == ai / di - (bi / di) * (ai / bi),
    ;
    lemma_multiple(k * di, di);
}

/// A common divisor of `b` and `a % b` divides `a`.
proof fn lemma_divides_dividend(d: nat, a: nat, b: nat)
    requires
        b > 0,
        is_common_divisor(d, b, a % b),
    ensures
        a % d == 0,
{
    let di = d as int;
    let ai = a as int;
    let bi = b as int;
    let ri = ai % bi;
    lemma_multiple(ri, di);
    lemma_multiple(bi, di);
    lemma_fundamental_div_mod(ai, bi);
    let k = (bi / di) * (ai / bi) + ri / di;
    assert(ai == k * di) by (nonlinear_arith)
        requires
            ri == di * (ri / di),
            bi == di * (bi / di),
            ai == bi * (ai / bi) + ri,
            k == (bi / di) * (ai / bi) + ri / di,
    ;
    lemma_multiple(k * di, di);
}

/// Unless both numbers are zero, their gcd is positive and divides both.
pub proof fn lemma_gcd_divides(a: nat, b: nat)
    requires
        a > 0 || b > 0,
    ensures
        is_common_divisor(gcd(a, b), a, b),
    decreases b,
{
    if b == 0 {
        lemma_multiple(a as int, a as int);
        assert(a as int == 1 * (a as int));
        assert(0int == 0 * (a as int));
    } else {
        lemma_gcd_divides(b, a % b);
        lemma_divides_dividend(gcd(a, b), a, b);
    }
}

/// Every common divisor of `a` and `b` divides their gcd: the gcd is the
/// greatest of them.
pub proof fn lemma_gcd_greatest(a: nat, b: nat, d: nat)
    requires
        is_common_divisor(d, a, b),
    ensures
        gcd(a, b) % d == 0,
        a > 0 || b > 0 ==> d <= gcd(a, b),
    decreases b,
{
    if b == 0 {
    } else {
        lemma_divides_remainder(d, a, b);
        lemma_gcd_greatest(b, a % b, d);
    }
    if a > 0 || b > 0 {
        lemma_gcd_divides(a, b);
        let g = gcd(a, b) as int;
        lemma_multiple(g, d as int);
        assert(d <= g) by (nonlinear_arith)
            requires
                g > 0,
                d > 0,
                g == d * (g / (d as int)),
        ;
    }
}

/// The gcd does not depend on the order of its arguments.
pub proof fn lemma_gcd_symmetric(a: nat, b: nat)
    ensures
        gcd(a, b) == gcd(b, a),
{
    if a == 0 && b == 0 {
    } else {
        lemma_gcd_divides(a, b);
        lemma_gcd_divides(b, a);
        lemma_gcd_greatest(a, b, gcd(b, a));
        lemma_gcd_greatest(b, a, gcd(a, b));
    }
}

/// Scaling both numbers by `c` scales their gcd by `c`.
pub proof fn lemma_gcd_scale(a: nat, b: nat, c: nat)
    requires
        c > 0,
    ensures
        gcd(a * c, b * c) == gcd(a, b) * c,
    decreases b,
{
    if b == 0 {
        assert(b * c == 0) by (nonlinear_arith)
            requires
                b == 0,
        ;
    } else {
        lemma_truncate_middle(a as int, c as int, b as int);
        assert(a * c == c * a) by (nonlinear_arith);
        assert(b * c == c * b) by (nonlinear_arith);
        assert((a % b) * c == c * (a % b)) by (nonlinear_arith);
        assert((a * c) % (b * c) == (a % b) * c);
        assert(b * c > 0) by (nonlinear_arith)
            requires
                b > 0,
                c > 0,
        ;
        lemma_gcd_scale(b, a % b, c);
    }
}

/// Dividing two numbers by their gcd leaves coprime quotients.
pub proof fn lemma_gcd_of_quotients(a: nat, b: nat)
    requires
        a > 0 || b > 0,
    ensures
        gcd(a / gcd(a, b), b / gcd(a, b)) == 1,
{
    let g = gcd(a, b);
    lemma_gcd_divides(a, b);
    lemma_multiple(a as int, g as int);
    lemma_multiple(b as int, g as int);
    let qa = a / g;
    let qb = b / g;
    assert(a == qa * g && b == qb * g) by (nonlinear_arith)
        requires
            a as int == (g as int) * ((a as int) / (g as int)),
            b as int == (g as int) * ((b as int) / (g as int)),
            qa == a / g,
            qb == b / g,
            g > 0,
    ;
    lemma_gcd_scale(qa, qb, g);
    let h = gcd(qa, qb);
    assert(h == 1) by (nonlinear_arith)
        requires
            g == h * g,
            g > 0,
    ;
}

/// Euclid's lemma: a positive `a` that is coprime to `b` and divides `b * c`
/// divides `c`.
pub proof fn lemma_coprime_divides(a: nat, b: nat, c: nat)
    requires
        a > 0,
        gcd(a, b) == 1,
        (b * c) % a == 0,
    ensures
        c % a == 0,
{
    if c == 0 {
    } else {
        lemma_gcd_scale(a, b, c);
        lemma_multiple((a * c) as int, a as int);
        assert((a * c) % a == 0) by {
            assert(a * c == c * a) by (nonlinear_arith);
        }
        lemma_gcd_greatest(a * c, b * c, a);
        assert(gcd(a, b) * c == c) by (nonlinear_arith)
            requires
                gcd(a, b) == 1,
        ;
    }
}

/// A fraction of two integers. The denominator may be zero or negative: only
/// the simplified fractions are values of the rational field.
pub struct Fraction {
    pub num: int,
    pub denom: int,
}

impl Fraction {
    /// The fraction is in lowest terms with a positive denominator, and zero
    /// is written 0/1.
    pub open spec fn is_simplified(self) -> bool {
        &&& self.denom > 0
        &&& gcd(abs(self.num), abs(self.denom)) == 1
        &&& (self.num == 0 ==> self.denom == 1)
    }

    /// The fraction in simplest form: 0/1 where the numerator or the
    /// denominator is zero, else both divided by their greatest common divisor,
    /// with the sign carried by the numerator.
    pub open spec fn simplified(self) -> Fraction {
        if self.num == 0 || self.denom == 0 {
            Fraction { num: 0, denom: 1 }
        } else {
            let g = gcd(abs(self.num), abs(self.denom)) as int;
            if self.denom > 0 {
                Fraction { num: self.num / g, denom: self.denom / g }
            } else {
                Fraction { num: (-self.num) / g, denom: (-self.denom) / g }
            }
        }
    }

    /// Whether the two fractions agree by cross-multiplication.
    pub open spec fn same_ratio(self, other: Fraction) -> bool {
        self.num * other.denom == other.num * self.denom
    }

    /// `-a/b` as `(-a)/b`.
    pub open spec fn negated(self) -> Fraction {
        Fraction { num: -self.num, denom: self.denom }
    }

    /// `a/b + c/d` as `(ad + bc)/(bd)`, not simplified.
    pub open spec fn sum(self, rhs: Fraction) -> Fraction {
        Fraction {
            num: self.num * rhs.denom + self.denom * rhs.num,
            denom: self.denom * rhs.denom,
        }
    }

    /// `a/b - c/d` as `(ad - bc)/(bd)`, not simplified.
    pub open spec fn difference(self, rhs: Fraction) -> Fraction {
        Fraction {
            num: self.num * rhs.denom - self.denom * rhs.num,
            denom: self.denom * rhs.denom,
        }
    }

    /// `a/b * c/d` as `(ac)/(bd)`, not simplified.
    pub open spec fn product(self, rhs: Fraction) -> Fraction {
        Fraction { num: self.num * rhs.num, denom: self.denom * rhs.denom }
    }

    /// `a/b ÷ c/d` as `(ad)/(bc)`, not simplified.
    pub open spec fn quotient(self, rhs: Fraction) -> Fraction {
        Fraction { num: self.num * rhs.denom, denom: self.denom * rhs.num }
    }
}

/// The whole number `x` as the fraction `x/1`.
pub open spec fn whole(x: int) -> Fraction {
    Fraction { num: x, denom: 1 }
}

/// A whole number is a simplified fraction.
pub proof fn lemma_whole_is_simplified(x: int)
    ensures
        whole(x).is_simplified(),
{
    let a = abs(x);
    assert(gcd(a, 1) == gcd(1, a % 1));
    assert(gcd(1, 0) == 1);
}

/// Exact division by a positive `g` of a number whose absolute value `g`
/// divides.
proof fn lemma_exact_quotient(n: int, g: nat)
    requires
        g > 0,
        abs(n) % g == 0,
    ensures
        n == g * (n / (g as int)),
        abs(n / (g as int)) == abs(n) / g,
        n != 0 ==> n / (g as int) != 0,
        n > 0 ==> n / (g as int) > 0,
{
    let gi = g as int;
    let a = abs(n) as int;
    lemma_multiple(a, gi);
    let q = a / gi;
    assert(q >= 0) by (nonlinear_arith)
        requires
            a == gi * q,
            a >= 0,
            gi > 0,
    ;
    if n < 0 {
        assert(n == (-q) * gi) by (nonlinear_arith)
            requires
                -n == gi * q,
        ;
        lemma_multiple(n, gi);
        assert(n / gi == -q) by (nonlinear_arith)
            requires
                n == gi * (n / gi),
                n == (-q) * gi,
                gi > 0,
        ;
    }
    assert(n != 0 ==> n / gi != 0) by (nonlinear_arith)
        requires
            n == gi * (n / gi),
    ;
    assert(n > 0 ==> n / gi > 0) by (nonlinear_arith)
        requires
            n == gi * (n / gi),
            gi > 0,
    ;
}

/// Where a positive `g` divides `n`, dividing `-n` by `g` negates the quotient
/// of `n` by `g`.
pub proof fn lemma_exact_quotient_negated(n: int, g: nat)
    requires
        g > 0,
        abs(n) % g == 0,
    ensures
        (-n) / (g as int) == -(n / (g as int)),
{
    lemma_exact_quotient(n, g);
    assert(abs(-n) == abs(n));
    lemma_exact_quotient(-n, g);
    let gi = g as int;
    assert((-n) / gi == -(n / gi)) by (nonlinear_arith)
        requires
            n == gi * (n / gi),
            -n == gi * ((-n) / gi),
            gi > 0,
    ;
}

/// Simplifying yields a simplified fraction; unless the denominator was zero,
/// it stands for the same ratio.
pub proof fn lemma_simplified(f: Fraction)
    ensures
        f.simplified().is_simplified(),
        f.denom != 0 ==> f.simplified().same_ratio(f),
{
    let s = f.simplified();
    if f.num == 0 || f.denom == 0 {
        lemma_whole_is_simplified(0);
        assert(s == whole(0));
        if f.denom != 0 {
            assert(0 * f.denom == f.num * 1) by (nonlinear_arith)
                requires
                    f.num == 0,
            ;
        }
    } else {
        let n = if f.denom > 0 {
            f.num
        } else {
            -f.num
        };
        let d = if f.denom > 0 {
            f.denom
        } else {
            -f.denom
        };
        let g = gcd(abs(f.num), abs(f.denom));
        assert(abs(n) == abs(f.num) && abs(d) == abs(f.denom));
        lemma_gcd_divides(abs(n), abs(d));
        lemma_exact_quotient(n, g);
        lemma_exact_quotient(d, g);
        lemma_gcd_of_quotients(abs(n), abs(d));
        let gi = g as int;
        assert(s.num == n / gi && s.denom == d / gi);
        assert(s.num * f.denom == f.num * s.denom) by (nonlinear_arith)
            requires
                n == gi * s.num,
                d == gi * s.denom,
                (f.num == n && f.denom == d) || (f.num == -n && f.denom == -d),
        ;
    }
}

/// Simplifying a simplified fraction changes nothing.
pub proof fn lemma_simplified_fixed(f: Fraction)
    requires
        f.is_simplified(),
    ensures
        f.simplified() == f,
{
    if f.num == 0 {
    } else {
        assert(f.num / 1 == f.num && f.denom / 1 == f.denom);
    }
}

/// Simplifying twice is simplifying once.
pub proof fn lemma_simplified_idempotent(f: Fraction)
    ensures
        f.simplified().simplified() == f.simplified(),
{
    lemma_simplified(f);
    lemma_simplified_fixed(f.simplified());
}

/// Between fractions with nonzero denominators, having the same ratio is
/// transitive.
pub proof fn lemma_same_ratio_transitive(x: Fraction, y: Fraction, z: Fraction)
    requires
        y.denom != 0,
        x.same_ratio(y),
        y.same_ratio(z),
    ensures
        x.same_ratio(z),
{
    assert(x.num * z.denom == z.num * x.denom) by (nonlinear_arith)
        requires
            y.denom != 0,
            x.num * y.denom == y.num * x.denom,
            y.num * z.denom == z.num * y.denom,
    ;
}

/// A positive number that divides a positive number is no greater.
proof fn lemma_divisor_bound(d: nat, n: nat)
    requires
        d > 0,
        n > 0,
        n % d == 0,
    ensures
        d <= n,
{
    lemma_multiple(n as int, d as int);
    let q = (n as int) / (d as int);
    assert(d <= n) by (nonlinear_arith)
        requires
            n == d * q,
            n > 0,
            d > 0,
    ;
}

/// Two simplified fractions of the same ratio are the same fraction.
pub proof fn lemma_simplified_unique(x: Fraction, y: Fraction)
    requires
        x.is_simplified(),
        y.is_simplified(),
        x.same_ratio(y),
    ensures
        x == y,
{
    let a1 = abs(x.num);
    let a2 = abs(y.num);
    let d1 = x.denom as nat;
    let d2 = y.denom as nat;
    assert(a1 * d2 == a2 * d1) by (nonlinear_arith)
        requires
            x.num * y.denom == y.num * x.denom,
            a1 == abs(x.num),
            a2 == abs(y.num),
            d1 == x.denom,
            d2 == y.denom,
            x.denom > 0,
            y.denom > 0,
    ;
    lemma_gcd_symmetric(a1, d1);
    lemma_gcd_symmetric(a2, d2);
    lemma_multiple((a2 * d1) as int, d1 as int);
    lemma_multiple((a1 * d2) as int, d2 as int);
    lemma_coprime_divides(d1, a1, d2);
    assert(a2 * d1 == d1 * a2) by (nonlinear_arith);
    assert(a2 * d1 == a1 * d2);
    lemma_coprime_divides(d2, a2, d1);
    lemma_divisor_bound(d1, d2);
    lemma_divisor_bound(d2, d1);
    assert(x.num == y.num) by (nonlinear_arith)
        requires
            x.num * y.denom == y.num * x.denom,
            x.denom == y.denom,
            x.denom > 0,
    ;
}

/// Fractions of the same ratio have the same simplest form.
pub proof fn lemma_simplified_respects_ratio(x: Fraction, y: Fraction)
    requires
        x.denom != 0,
        y.denom != 0,
        x.same_ratio(y),
    ensures
        x.simplified() == y.simplified(),
{
    lemma_simplified(x);
    lemma_simplified(y);
    let sx = x.simplified();
    let sy = y.simplified();
    lemma_same_ratio_transitive(sx, x, y);
    assert(y.same_ratio(sy)) by {
        assert(sy.num * y.denom == y.num * sy.denom);
    }
    lemma_same_ratio_transitive(sx, y, sy);
    lemma_simplified_unique(sx, sy);
}

impl Fraction {
    /// The sum in simplest form.
    pub open spec fn plus(self, rhs: Fraction) -> Fraction {
        self.sum(rhs).simplified()
    }

    /// The difference in simplest form.
    pub open spec fn minus(self, rhs: Fraction) -> Fraction {
        self.difference(rhs).simplified()
    }

    /// The product in simplest form.
    pub open spec fn times(self, rhs: Fraction) -> Fraction {
        self.product(rhs).simplified()
    }

    /// The quotient in simplest form. Division by zero gives 0/1.
    pub open spec fn over(self, rhs: Fraction) -> Fraction {
        self.quotient(rhs).simplified()
    }
}

/// Whatever the operands, the sum, the difference, the product and the
/// quotient are simplified fractions: in lowest terms, with a positive
/// denominator, and with zero written 0/1.
pub proof fn lemma_results_are_simplified(x: Fraction, y: Fraction)
    ensures
        x.plus(y).is_simplified(),
        x.minus(y).is_simplified(),
        x.times(y).is_simplified(),
        x.over(y).is_simplified(),
{
    lemma_simplified(x.sum(y));
    lemma_simplified(x.difference(y));
    lemma_simplified(x.product(y));
    lemma_simplified(x.quotient(y));
}

/// The product of two nonzero integers is not zero.
proof fn lemma_nonzero_product(a: int, b: int)
    requires
        a != 0,
        b != 0,
    ensures
        a * b != 0,
{
    assert(a * b != 0) by (nonlinear_arith)
        requires
            a != 0,
            b != 0,
    ;
}

/// Products of four factors may be regrouped.
proof fn lemma_regroup(a: int, b: int, c: int, d: int)
    ensures
        (a * b) * (c * d) == (a * c) * (b * d),
        (a * b) * (c * d) == (a * d) * (b * c),
        (a * b) * (c * d) == (b * a) * (c * d),
        (a * b) * (c * d) == (a * b) * (d * c),
{
    assert((a * b) * (c * d) == (a * c) * (b * d)) by (nonlinear_arith);
    assert((a * b) * (c * d) == (a * d) * (b * c)) by (nonlinear_arith);
    assert(a * b == b * a) by (nonlinear_arith);
    assert(c * d == d * c) by (nonlinear_arith);
}

/// Multiplication distributes over a sum on either side.
proof fn lemma_distribute(u: int, v: int, w: int)
    ensures
        (u + v) * w == u * w + v * w,
        w * (u + v) == w * u + w * v,
{
    assert((u + v) * w == u * w + v * w) by (nonlinear_arith);
    assert(w * (u + v) == w * u + w * v) by (nonlinear_arith);
}

/// Replacing the left summand by a fraction of the same ratio keeps the ratio
/// of the sum.
proof fn lemma_sum_respects_left(x: Fraction, x2: Fraction, y: Fraction)
    requires
        x.same_ratio(x2),
    ensures
        x.sum(y).same_ratio(x2.sum(y)),
{
    let (a, b, a2, b2, c, d) = (x.num, x.denom, x2.num, x2.denom, y.num, y.denom);
    lemma_distribute(a * d, b * c, b2 * d);
    lemma_distribute(a2 * d, b2 * c, b * d);
    lemma_regroup(a, d, b2, d);
    lemma_regroup(a2, d, b, d);
    lemma_regroup(b, c, b2, d);
    lemma_regroup(b2, c, b, d);
    lemma_regroup(b, b2, c, d);
}

/// Replacing the right summand by a fraction of the same ratio keeps the
/// ratio of the sum.
proof fn lemma_sum_respects_right(x: Fraction, y: Fraction, y2: Fraction)
    requires
        y.same_ratio(y2),
    ensures
        x.sum(y).same_ratio(x.sum(y2)),
{
    let (a, b, c, d, c2, d2) = (x.num, x.denom, y.num, y.denom, y2.num, y2.denom);
    lemma_distribute(a * d, b * c, b * d2);
    lemma_distribute(a * d2, b * c2, b * d);
    lemma_regroup(a, d, b, d2);
    lemma_regroup(a, d2, b, d);
    lemma_regroup(a, b, d, d2);
    lemma_regroup(b, c, b, d2);
    lemma_regroup(b, c2, b, d);
    lemma_regroup(b, b, c2, d);
}

/// Replacing the left factor by a fraction of the same ratio keeps the ratio
/// of the product.
proof fn lemma_product_respects_left(x: Fraction, x2: Fraction, y: Fraction)
    requires
        x.same_ratio(x2),
    ensures
        x.product(y).same_ratio(x2.product(y)),
{
    assert((x.num * y.num) * (x2.denom * y.denom) == (x2.num * y.num) * (x.denom * y.denom))
        by (nonlinear_arith)
        requires
            x.num * x2.denom == x2.num * x.denom,
    ;
}

/// Replacing the right factor by a fraction of the same ratio keeps the ratio
/// of the product.
proof fn lemma_product_respects_right(x: Fraction, y: Fraction, y2: Fraction)
    requires
        y.same_ratio(y2),
    ensures
        x.product(y).same_ratio(x.product(y2)),
{
    assert((x.num * y.num) * (x.denom * y2.denom) == (x.num * y2.num) * (x.denom * y.denom))
        by (nonlinear_arith)
        requires
            y.num * y2.denom == y2.num * y.denom,
    ;
}

/// The negation of a simplified fraction is simplified.
pub proof fn lemma_negated_is_simplified(x: Fraction)
    requires
        x.is_simplified(),
    ensures
        x.negated().is_simplified(),
{
    assert(abs(-x.num) == abs(x.num));
}

/// `x + y == y + x`.
pub proof fn lemma_plus_commutative(x: Fraction, y: Fraction)
    ensures
        x.plus(y) == y.plus(x),
{
    assert(x.sum(y) == y.sum(x)) by {
        assert(x.num * y.denom + x.denom * y.num == y.num * x.denom + y.denom * x.num)
            by (nonlinear_arith);
        assert(x.denom * y.denom == y.denom * x.denom) by (nonlinear_arith);
    }
}

/// `(x + y) + z == x + (y + z)`.
pub proof fn lemma_plus_associative(x: Fraction, y: Fraction, z: Fraction)
    requires
        x.denom != 0,
        y.denom != 0,
        z.denom != 0,
    ensures
        x.plus(y).plus(z) == x.plus(y.plus(z)),
{
    let p = x.sum(y);
    let q = y.sum(z);
    lemma_nonzero_product(x.denom, y.denom);
    lemma_nonzero_product(y.denom, z.denom);
    lemma_simplified(p);
    lemma_simplified(q);
    let sp = p.simplified();
    let sq = q.simplified();
    lemma_sum_respects_left(sp, p, z);
    lemma_nonzero_product(sp.denom, z.denom);
    lemma_nonzero_product(p.denom, z.denom);
    lemma_simplified_respects_ratio(sp.sum(z), p.sum(z));
    lemma_sum_respects_right(x, sq, q);
    lemma_nonzero_product(x.denom, sq.denom);
    lemma_nonzero_product(x.denom, q.denom);
    lemma_simplified_respects_ratio(x.sum(sq), x.sum(q));
    assert(p.sum(z) == x.sum(q)) by {
        assert((x.num * y.denom + x.denom * y.num) * z.denom + (x.denom * y.denom) * z.num
            == x.num * (y.denom * z.denom) + x.denom * (y.num * z.denom + y.denom * z.num))
            by (nonlinear_arith);
        assert((x.denom * y.denom) * z.denom == x.denom * (y.denom * z.denom))
            by (nonlinear_arith);
    }
}

/// `x + 0 == x`.
pub proof fn lemma_plus_zero(x: Fraction)
    requires
        x.is_simplified(),
    ensures
        x.plus(whole(0)) == x,
{
    assert(x.sum(whole(0)) == x) by {
        assert(x.num * 1 + x.denom * 0 == x.num) by (nonlinear_arith);
        assert(x.denom * 1 == x.denom) by (nonlinear_arith);
    }
    lemma_simplified_fixed(x);
}

/// `x + (-x) == 0`.
pub proof fn lemma_plus_negated(x: Fraction)
    ensures
        x.plus(x.negated()) == whole(0),
{
    assert(x.num * x.denom + x.denom * (-x.num) == 0) by (nonlinear_arith);
}

/// `x - y == x + (-y)`.
pub proof fn lemma_minus_is_plus_negated(x: Fraction, y: Fraction)
    ensures
        x.minus(y) == x.plus(y.negated()),
{
    assert(x.difference(y) == x.sum(y.negated())) by {
        assert(x.num * y.denom - x.denom * y.num == x.num * y.denom + x.denom * (-y.num))
            by (nonlinear_arith);
    }
}

/// `x * y == y * x`.
pub proof fn lemma_times_commutative(x: Fraction, y: Fraction)
    ensures
        x.times(y) == y.times(x),
{
    assert(x.product(y) == y.product(x)) by {
        assert(x.num * y.num == y.num * x.num) by (nonlinear_arith);
        assert(x.denom * y.denom == y.denom * x.denom) by (nonlinear_arith);
    }
}

/// `(x * y) * z == x * (y * z)`.
pub proof fn lemma_times_associative(x: Fraction, y: Fraction, z: Fraction)
    requires
        x.denom != 0,
        y.denom != 0,
        z.denom != 0,
    ensures
        x.times(y).times(z) == x.times(y.times(z)),
{
    let p = x.product(y);
    let q = y.product(z);
    lemma_nonzero_product(x.denom, y.denom);
    lemma_nonzero_product(y.denom, z.denom);
    lemma_simplified(p);
    lemma_simplified(q);
    let sp = p.simplified();
    let sq = q.simplified();
    lemma_product_respects_left(sp, p, z);
    lemma_nonzero_product(sp.denom, z.denom);
    lemma_nonzero_product(p.denom, z.denom);
    lemma_simplified_respects_ratio(sp.product(z), p.product(z));
    lemma_product_respects_right(x, sq, q);
    lemma_nonzero_product(x.denom, sq.denom);
    lemma_nonzero_product(x.denom, q.denom);
    lemma_simplified_respects_ratio(x.product(sq), x.product(q));
    assert(p.product(z) == x.product(q)) by {
        assert((x.num * y.num) * z.num == x.num * (y.num * z.num)) by (nonlinear_arith);
        assert((x.denom * y.denom) * z.denom == x.denom * (y.denom * z.denom))
            by (nonlinear_arith);
    }
}

/// `x * 1 == x`.
pub proof fn lemma_times_one(x: Fraction)
    requires
        x.is_simplified(),
    ensures
        x.times(whole(1)) == x,
{
    assert(x.product(whole(1)) == x) by {
        assert(x.num * 1 == x.num) by (nonlinear_arith);
        assert(x.denom * 1 == x.denom) by (nonlinear_arith);
    }
    lemma_simplified_fixed(x);
}

/// `(x / y) * y == x` for a nonzero `y`.
pub proof fn lemma_over_times(x: Fraction, y: Fraction)
    requires
        x.is_simplified(),
        y.denom != 0,
        y.num != 0,
    ensures
        x.over(y).times(y) == x,
{
    let p = x.quotient(y);
    lemma_nonzero_product(x.denom, y.num);
    lemma_simplified(p);
    let sp = p.simplified();
    lemma_product_respects_left(sp, p, y);
    lemma_nonzero_product(sp.denom, y.denom);
    lemma_nonzero_product(p.denom, y.denom);
    lemma_simplified_respects_ratio(sp.product(y), p.product(y));
    assert(p.product(y).same_ratio(x)) by {
        assert(((x.num * y.denom) * y.num) * x.denom == x.num * ((x.denom * y.num) * y.denom))
            by (nonlinear_arith);
    }
    lemma_simplified_respects_ratio(p.product(y), x);
    lemma_simplified_fixed(x);
}

/// `x * (y + z) == x * y + x * z`.
pub proof fn lemma_times_distributive(x: Fraction, y: Fraction, z: Fraction)
    requires
        x.denom != 0,
        y.denom != 0,
        z.denom != 0,
    ensures
        x.times(y.plus(z)) == x.times(y).plus(x.times(z)),
{
    let q = y.sum(z);
    let xy = x.product(y);
    let xz = x.product(z);
    lemma_nonzero_product(y.denom, z.denom);
    lemma_nonzero_product(x.denom, y.denom);
    lemma_nonzero_product(x.denom, z.denom);
    lemma_simplified(q);
    lemma_simplified(xy);
    lemma_simplified(xz);
    let sq = q.simplified();
    let sxy = xy.simplified();
    let sxz = xz.simplified();
    // the left side is x * (y + z), unsimplified
    lemma_product_respects_right(x, sq, q);
    lemma_nonzero_product(x.denom, sq.denom);
    lemma_nonzero_product(x.denom, q.denom);
    lemma_simplified_respects_ratio(x.product(sq), x.product(q));
    // the right side is x * y + x * z, unsimplified
    lemma_sum_respects_left(sxy, xy, sxz);
    lemma_sum_respects_right(xy, sxz, xz);
    lemma_nonzero_product(sxy.denom, sxz.denom);
    lemma_nonzero_product(xy.denom, sxz.denom);
    lemma_nonzero_product(xy.denom, xz.denom);
    lemma_simplified_respects_ratio(sxy.sum(sxz), xy.sum(sxz));
    lemma_simplified_respects_ratio(xy.sum(sxz), xy.sum(xz));
    assert(x.product(q).same_ratio(xy.sum(xz))) by {
        let (a, b, c, d, e, f) = (x.num, x.denom, y.num, y.denom, z.num, z.denom);
        let u = c * f + d * e;
        let w = b * (d * f);
        assert((a * c) * (b * f) + (b * d) * (a * e) == (a * b) * (c * f + d * e)) by {
            lemma_distribute(c * f, d * e, a * b);
            lemma_regroup(a, c, b, f);
            lemma_regroup(a, b, c, f);
            lemma_regroup(b, d, a, e);
            lemma_regroup(a, b, d, e);
        }
        assert((b * d) * (b * f) == b * (b * (d * f))) by (nonlinear_arith);
        assert((a * u) * (b * w) == ((a * b) * u) * w) by (nonlinear_arith);
    }
    lemma_simplified_respects_ratio(x.product(q), xy.sum(xz));
}

/// A positive `g` divides a number exactly when it divides its absolute value.
proof fn lemma_abs_divisible(x: int, g: nat)
    requires
        g > 0,
    ensures
        abs(x) % g == 0 <==> x % (g as int) == 0,
{
    let gi = g as int;
    lemma_multiple(x, gi);
    lemma_multiple(abs(x) as int, gi);
    if abs(x) % g == 0 {
        lemma_exact_quotient(x, g);
    }
    if x % gi == 0 && x < 0 {
        let q = x / gi;
        assert(-x == (-q) * gi) by (nonlinear_arith)
            requires
                x == gi * q,
        ;
    }
}

/// Adding a whole number to a simplified fraction, as `(n + k*d)/d`, leaves
/// it simplified.
pub proof fn lemma_shifted_is_simplified(x: Fraction, k: int)
    requires
        x.is_simplified(),
    ensures
        (Fraction { num: x.num + k * x.denom, denom: x.denom }).is_simplified(),
{
    let n = x.num;
    let d = x.denom;
    let m = n + k * d;
    let dn = d as nat;
    let g = gcd(abs(m), dn);
    lemma_gcd_divides(abs(m), dn);
    lemma_abs_divisible(m, g);
    lemma_abs_divisible(n, g);
    lemma_multiple(m, g as int);
    lemma_multiple(d, g as int);
    let gi = g as int;
    let q = m / gi - k * (d / gi);
    assert(n == q * gi) by (nonlinear_arith)
        requires
            m == gi * (m / gi),
            d == gi * (d / gi),
            m == n + k * d,
            q == m / gi - k * (d / gi),
    ;
    lemma_multiple(n, gi);
    lemma_gcd_greatest(abs(n), dn, g);
    if m == 0 {
        assert(n == (-k) * d) by (nonlinear_arith)
            requires
                n + k * d == 0,
        ;
        lemma_multiple(n, d);
        lemma_abs_divisible(n, dn);
        lemma_multiple(d, d);
        assert(d == 1 * d);
        lemma_gcd_greatest(abs(n), dn, dn);
    }
}

/// For a simplified `x` and a whole `k`, `x + k` is `(n + k*d)/d` and
/// `x - k` is `(n - k*d)/d`.
pub proof fn lemma_plus_whole(x: Fraction, k: int)
    requires
        x.is_simplified(),
    ensures
        x.plus(whole(k)) == (Fraction { num: x.num + k * x.denom, denom: x.denom }),
        x.minus(whole(k)) == (Fraction { num: x.num - k * x.denom, denom: x.denom }),
{
    lemma_shifted_is_simplified(x, k);
    lemma_shifted_is_simplified(x, -k);
    assert(x.denom * k == k * x.denom) by (nonlinear_arith);
    assert((-k) * x.denom == -(k * x.denom)) by (nonlinear_arith);
    let up = Fraction { num: x.num + k * x.denom, denom: x.denom };
    let down = Fraction { num: x.num - k * x.denom, denom: x.denom };
    assert(x.sum(whole(k)) == up);
    assert(x.difference(whole(k)) == down);
    lemma_simplified_fixed(up);
    lemma_simplified_fixed(down);
}

} // verus!
