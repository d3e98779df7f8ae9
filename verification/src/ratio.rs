//! Exact probabilities: non-negative fractions of two machine integers, kept in
//! lowest terms. The arithmetic is `num_rational`'s; each operation stands behind
//! a function whose contract says what the operation returns and which operands
//! it can take without leaving the 64-bit range.

use num_rational::Rational64;
use vstd::arithmetic::div_mod::{lemma_fundamental_div_mod, lemma_mod_multiples_basic};
use vstd::prelude::*;

verus! {

/// A probability (or a sum of probabilities) as an exact fraction.
#[derive(Debug, Clone, Copy, PartialEq, Eq, Structural)]
pub struct Odds {
    pub numer: i64,
    pub denom: i64,
}

/// No integer above one divides both `n` and `d`.
pub open spec fn coprime(n: int, d: int) -> bool {
    forall|k: int| k >= 1 && #[trigger] (n % k) == 0 && d % k == 0 ==> k == 1
}

/// The fractions `n / d` and `p / q` denote the same number.
pub open spec fn same_ratio(n: int, d: int, p: int, q: int) -> bool {
    n * q == p * d
}

/// The number `n / d` is a fraction of two 64-bit integers.
pub open spec fn representable(n: int, d: int) -> bool {
    exists|p: int, q: int|
        0 <= p <= i64::MAX && 0 < q <= i64::MAX && #[trigger] same_ratio(n, d, p, q)
}

/// Over the denominator `m`, the numbers `n1 / d1` and `n2 / d2` have the
/// numerators `x` and `y`.
pub open spec fn over_common(n1: int, d1: int, n2: int, d2: int, m: int, x: int, y: int) -> bool {
    same_ratio(n1, d1, x, m) && same_ratio(n2, d2, y, m)
}

/// The numbers `n1 / d1` and `n2 / d2` have a common denominator over which both
/// of them and their sum are fractions of two 64-bit integers.
pub open spec fn addable(n1: int, d1: int, n2: int, d2: int) -> bool {
    exists|m: int, x: int, y: int|
        0 < m <= i64::MAX && 0 <= x && 0 <= y && x + y <= i64::MAX && #[trigger] over_common(
            n1,
            d1,
            n2,
            d2,
            m,
            x,
            y,
        )
}

/// The number `n2 / d2` can be taken from `n1 / d1` over a common denominator, within
/// 64 bits and without going below zero.
pub open spec fn subtractable(n1: int, d1: int, n2: int, d2: int) -> bool {
    exists|m: int, x: int, y: int|
        0 < m <= i64::MAX && 0 <= y <= x && x <= i64::MAX && #[trigger] over_common(
            n1,
            d1,
            n2,
            d2,
            m,
            x,
            y,
        )
}

impl Odds {
    /// The fraction is non-negative and in lowest terms.
    pub open spec fn wf(self) -> bool {
        &&& 0 <= self.numer
        &&& 0 < self.denom
        &&& coprime(self.numer as int, self.denom as int)
    }

    /// The fraction is the number `n / d`, in lowest terms.
    pub open spec fn denotes(self, n: int, d: int) -> bool {
        &&& self.wf()
        &&& same_ratio(self.numer as int, self.denom as int, n, d)
    }
}

/// `num_rational::Ratio::new`: the fraction `numer / denom`, in lowest terms.
#[verifier::external_body]
pub(crate) fn ratio_new(numer: i64, denom: i64) -> (r: Odds)
    requires
        0 <= numer,
        0 < denom,
    ensures
        r.denotes(numer as int, denom as int),
{
    let q = Rational64::new(numer, denom);
    Odds { numer: *q.numer(), denom: *q.denom() }
}

/// `Mul` of `num_rational::Ratio`: the product in lowest terms. Common factors are
/// cancelled before anything is multiplied, so no intermediate value leaves the
/// 64-bit range when the product itself is representable.
#[verifier::external_body]
pub(crate) fn ratio_mul(a: Odds, b: Odds) -> (r: Odds)
    requires
        a.wf(),
        b.wf(),
        representable(a.numer * b.numer, a.denom * b.denom),
    ensures
        r.denotes(a.numer * b.numer, a.denom * b.denom),
{
    let q = Rational64::new_raw(a.numer, a.denom) * Rational64::new_raw(b.numer, b.denom);
    Odds { numer: *q.numer(), denom: *q.denom() }
}

/// `Add` of `num_rational::Ratio`: the sum in lowest terms. The operands are brought
/// to the least common multiple of their denominators first; that multiple, the two
/// numerators over it and their sum have to fit in 64 bits.
#[verifier::external_body]
pub(crate) fn ratio_add(a: Odds, b: Odds) -> (r: Odds)
    requires
        a.wf(),
        b.wf(),
        addable(a.numer as int, a.denom as int, b.numer as int, b.denom as int),
    ensures
        r.denotes(a.numer * b.denom + b.numer * a.denom, a.denom * b.denom),
{
    let q = Rational64::new_raw(a.numer, a.denom) + Rational64::new_raw(b.numer, b.denom);
    Odds { numer: *q.numer(), denom: *q.denom() }
}

/// `Sub` of `num_rational::Ratio`: the difference in lowest terms, of operands whose
/// difference is not negative. As in the sum, the operands are brought to the least
/// common multiple of their denominators first.
#[verifier::external_body]
pub(crate) fn ratio_sub(a: Odds, b: Odds) -> (r: Odds)
    requires
        a.wf(),
        b.wf(),
        subtractable(a.numer as int, a.denom as int, b.numer as int, b.denom as int),
    ensures
        r.denotes(a.numer * b.denom - b.numer * a.denom, a.denom * b.denom),
{
    let q = Rational64::new_raw(a.numer, a.denom) - Rational64::new_raw(b.numer, b.denom);
    Odds { numer: *q.numer(), denom: *q.denom() }
}

/// `Div` of `num_rational::Ratio` by a positive number: the quotient in lowest terms.
/// As in the product, common factors are cancelled first.
#[verifier::external_body]
pub(crate) fn ratio_div(a: Odds, b: Odds) -> (r: Odds)
    requires
        a.wf(),
        b.wf(),
        0 < b.numer,
        representable(a.numer * b.denom, a.denom * b.numer),
    ensures
        r.denotes(a.numer * b.denom, a.denom * b.numer),
{
    let q = Rational64::new_raw(a.numer, a.denom) / Rational64::new_raw(b.numer, b.denom);
    Odds { numer: *q.numer(), denom: *q.denom() }
}

/// `Ord::min` over the order of `num_rational::Ratio`: the smaller of two numbers.
#[verifier::external_body]
pub(crate) fn ratio_min(a: Odds, b: Odds) -> (r: Odds)
    requires
        a.wf(),
        b.wf(),
    ensures
        r == (if a.numer * b.denom <= b.numer * a.denom {
            a
        } else {
            b
        }),
{
    let q = Rational64::new_raw(a.numer, a.denom).min(Rational64::new_raw(b.numer, b.denom));
    Odds { numer: *q.numer(), denom: *q.denom() }
}

/// Denoting the same number is transitive.
pub(crate) proof fn lemma_same_ratio_trans(a: int, b: int, c: int, d: int, e: int, f: int)
    requires
        0 < b,
        0 < d,
        0 < f,
        same_ratio(a, b, c, d),
        same_ratio(c, d, e, f),
    ensures
        same_ratio(a, b, e, f),
{
    assert(a * f == e * b) by (nonlinear_arith)
        requires
            0 < d,
            a * d == c * b,
            c * f == e * d,
    ;
}

/// Whether a number is representable does not depend on how it is written.
pub(crate) proof fn lemma_representable_same(n: int, d: int, p: int, q: int)
    requires
        0 < d,
        0 < q,
        same_ratio(n, d, p, q),
        representable(n, d),
    ensures
        representable(p, q),
{
    let (x, y) = choose|x: int, y: int|
        0 <= x <= i64::MAX && 0 < y <= i64::MAX && #[trigger] same_ratio(n, d, x, y);
    assert(same_ratio(p, q, n, d));
    lemma_same_ratio_trans(p, q, n, d, x, y);
}

/// Whether two numbers can be added does not depend on how they are written.
pub(crate) proof fn lemma_addable_same(
    n1: int,
    d1: int,
    n2: int,
    d2: int,
    p1: int,
    q1: int,
    p2: int,
    q2: int,
)
    requires
        0 < d1,
        0 < d2,
        0 < q1,
        0 < q2,
        same_ratio(n1, d1, p1, q1),
        same_ratio(n2, d2, p2, q2),
        addable(n1, d1, n2, d2),
    ensures
        addable(p1, q1, p2, q2),
{
    let (m, x, y) = choose|m: int, x: int, y: int|
        0 < m <= i64::MAX && 0 <= x && 0 <= y && x + y <= i64::MAX && #[trigger] over_common(
            n1,
            d1,
            n2,
            d2,
            m,
            x,
            y,
        );
    assert(same_ratio(p1, q1, n1, d1));
    assert(same_ratio(p2, q2, n2, d2));
    lemma_same_ratio_trans(p1, q1, n1, d1, x, m);
    lemma_same_ratio_trans(p2, q2, n2, d2, y, m);
    assert(over_common(p1, q1, p2, q2, m, x, y));
}

/// The product of two numbers is the product of their fractions.
pub(crate) proof fn lemma_same_ratio_mul(
    n1: int,
    d1: int,
    p1: int,
    q1: int,
    n2: int,
    d2: int,
    p2: int,
    q2: int,
)
    requires
        same_ratio(n1, d1, p1, q1),
        same_ratio(n2, d2, p2, q2),
    ensures
        same_ratio(n1 * n2, d1 * d2, p1 * p2, q1 * q2),
{
    assert((n1 * n2) * (q1 * q2) == (p1 * p2) * (d1 * d2)) by (nonlinear_arith)
        requires
            n1 * q1 == p1 * d1,
            n2 * q2 == p2 * d2,
    {
        assert((n1 * n2) * (q1 * q2) == (n1 * q1) * (n2 * q2));
        assert((p1 * p2) * (d1 * d2) == (p1 * d1) * (p2 * d2));
    }
}

/// The sum of two numbers over a common denominator is the sum of the numerators.
pub(crate) proof fn lemma_same_ratio_add(
    n1: int,
    d1: int,
    n2: int,
    d2: int,
    x: int,
    y: int,
    m: int,
)
    requires
        same_ratio(n1, d1, x, m),
        same_ratio(n2, d2, y, m),
    ensures
        same_ratio(n1 * d2 + n2 * d1, d1 * d2, x + y, m),
        same_ratio(n1 * d2 - n2 * d1, d1 * d2, x - y, m),
{
    assert((n1 * d2 + n2 * d1) * m == (x + y) * (d1 * d2)) by (nonlinear_arith)
        requires
            n1 * m == x * d1,
            n2 * m == y * d2,
    {
        assert((n1 * d2) * m == (n1 * m) * d2);
        assert((n2 * d1) * m == (n2 * m) * d1);
        assert((x + y) * (d1 * d2) == (x * d1) * d2 + (y * d2) * d1);
    }
    assert((n1 * d2 - n2 * d1) * m == (x - y) * (d1 * d2)) by (nonlinear_arith)
        requires
            n1 * m == x * d1,
            n2 * m == y * d2,
    {
        assert((n1 * d2) * m == (n1 * m) * d2);
        assert((n2 * d1) * m == (n2 * m) * d1);
        assert((x - y) * (d1 * d2) == (x * d1) * d2 - (y * d2) * d1);
    }
}

/// Coprime numbers have a linear combination that is one.
proof fn lemma_bezout(a: int, b: int) -> (c: (int, int))
    requires
        0 <= a,
        0 <= b,
        coprime(a, b),
    ensures
        a * c.0 + b * c.1 == 1,
    decreases b,
{
    if b == 0 {
        if a == 0 {
            assert(0int % 2 == 0);
            assert(false);
        }
        assert(a % a == 0) by (nonlinear_arith)
            requires
                a > 0,
        ;
        assert(0int % a == 0) by (nonlinear_arith)
            requires
                a > 0,
        ;
        assert(a == 1);
        (1, 0)
    } else {
        let q = a / b;
        let r = a % b;
        lemma_fundamental_div_mod(a, b);
        assert forall|k: int| k >= 1 && #[trigger] (b % k) == 0 && r % k == 0 implies k == 1 by {
            lemma_fundamental_div_mod(b, k);
            lemma_fundamental_div_mod(r, k);
            let s = b / k;
            let t = r / k;
            assert(a == k * (s * q + t)) by (nonlinear_arith)
                requires
                    a == b * q + r,
                    b == k * s,
                    r == k * t,
            ;
            lemma_mod_multiples_basic(s * q + t, k);
            assert((s * q + t) * k == k * (s * q + t)) by (nonlinear_arith);
            assert(a % k == 0);
        }
        let c = lemma_bezout(b, r);
        assert(a * c.1 + b * (c.0 - q * c.1) == 1) by (nonlinear_arith)
            requires
                a == b * q + r,
                b * c.0 + r * c.1 == 1,
        ;
        (c.1, c.0 - q * c.1)
    }
}

/// A divisor of `a * m` that has no factor in common with `a` divides `m`.
proof fn lemma_coprime_divides(a: int, b: int, m: int)
    requires
        0 <= a,
        0 < b,
        coprime(a, b),
        (a * m) % b == 0,
    ensures
        m % b == 0,
{
    let c = lemma_bezout(a, b);
    lemma_fundamental_div_mod(a * m, b);
    let t = (a * m) / b;
    assert(m == (t * c.0 + m * c.1) * b) by (nonlinear_arith)
        requires
            a * c.0 + b * c.1 == 1,
            a * m == b * t,
    ;
    lemma_mod_multiples_basic(t * c.0 + m * c.1, b);
}

/// A number has one fraction in lowest terms: odds that denote the same number have
/// the same numerator and the same denominator.
pub proof fn law_lowest_terms_unique(a: Odds, b: Odds)
    requires
        a.wf(),
        b.wf(),
        same_ratio(a.numer as int, a.denom as int, b.numer as int, b.denom as int),
    ensures
        a == b,
{
    let (an, ad, bn, bd) = (a.numer as int, a.denom as int, b.numer as int, b.denom as int);
    lemma_mod_multiples_basic(bn, ad);
    lemma_coprime_divides(an, ad, bd);
    lemma_mod_multiples_basic(an, bd);
    assert(bn * ad == an * bd);
    lemma_coprime_divides(bn, bd, ad);
    lemma_fundamental_div_mod(bd, ad);
    lemma_fundamental_div_mod(ad, bd);
    let s = bd / ad;
    let t = ad / bd;
    assert(ad == bd) by (nonlinear_arith)
        requires
            0 < ad,
            0 < bd,
            bd == ad * s,
            ad == bd * t,
    ;
    assert(an == bn) by (nonlinear_arith)
        requires
            0 < ad,
            an * ad == bn * ad,
    ;
}

/// Odds denote a number where they are its fraction: not negative, in lowest terms, and
/// equal to it by cross-multiplication.
pub proof fn law_odds_are_the_reduced_fraction(a: Odds, n: int, d: int)
    ensures
        a.denotes(n, d) ==> 0 <= a.numer && 0 < a.denom && a.numer * d == n * a.denom,
        a.denotes(n, d) ==> forall|k: int|
            k > 1 ==> !(#[trigger] (a.numer as int % k) == 0 && a.denom as int % k == 0),
        0 <= a.numer && 0 < a.denom && coprime(a.numer as int, a.denom as int) && a.numer * d == n
            * a.denom ==> a.denotes(n, d),
{
}

} // verus!
