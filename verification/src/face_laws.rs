//! What holds of one finish face, of the count of stats that break out, and of the
//! average over the faces.

use crate::finish::{
    average_chance, breakout_chance, breakout_face, breakout_faces, breakout_faces_to, breaks_out,
    chances, fail_ways, hold_ways, kept_lower, lemma_breakout_faces_range, lemma_fail_ways_range,
    lemma_roll_ways_positive, penalty_at, roll_ways, sum_to, unbreakable,
};
use crate::ir::Skill;
use crate::ratio::{law_lowest_terms_unique, lemma_same_ratio_trans, same_ratio, Odds};
use crate::skills::Skills;
use vstd::prelude::*;
use vstd::seq_lib::{to_multiset_len, to_multiset_remove};

verus! {

// ---------------------------------------------------------------------------
// Fractions
// ---------------------------------------------------------------------------

/// The first fraction is at most the second.
pub open spec fn at_most(a: Odds, b: Odds) -> bool {
    a.numer * b.denom <= b.numer * a.denom
}

/// Fractions compare as the numbers that they denote.
proof fn lemma_at_most(a: Odds, x: int, d: int, b: Odds, y: int, e: int)
    requires
        a.denotes(x, d),
        b.denotes(y, e),
        0 < d,
        0 < e,
        x * e <= y * d,
    ensures
        at_most(a, b),
{
    let (an, ad, bn, bd) = (a.numer as int, a.denom as int, b.numer as int, b.denom as int);
    assert(an * bd <= bn * ad) by (nonlinear_arith)
        requires
            0 < d,
            0 < e,
            0 < ad,
            0 < bd,
            an * d == x * ad,
            bn * e == y * bd,
            x * e <= y * d,
    {
        assert((an * bd) * (d * e) == (an * d) * (bd * e));
        assert((bn * ad) * (d * e) == (bn * e) * (ad * d));
        assert((x * ad) * (bd * e) == (x * e) * (ad * bd));
        assert((y * bd) * (ad * d) == (y * d) * (ad * bd));
        assert((x * e) * (ad * bd) <= (y * d) * (ad * bd)) by {
            assert(0 < ad * bd);
        }
        assert(0 < d * e);
    }
}

/// Fractions that denote the same number are the same.
pub(crate) proof fn lemma_same_number(a: Odds, b: Odds, x: int, d: int)
    requires
        a.denotes(x, d),
        b.denotes(x, d),
        0 < d,
    ensures
        a == b,
{
    assert(same_ratio(x, d, b.numer as int, b.denom as int));
    lemma_same_ratio_trans(
        a.numer as int,
        a.denom as int,
        x,
        d,
        b.numer as int,
        b.denom as int,
    );
    law_lowest_terms_unique(a, b);
}

// ---------------------------------------------------------------------------
// The count of stats that break out
// ---------------------------------------------------------------------------

/// The six stats of a block, in the order of the skills.
pub open spec fn stats(opp: Skills) -> Seq<int> {
    seq![
        opp.power as int,
        opp.agility as int,
        opp.technique as int,
        opp.submission as int,
        opp.grapple as int,
        opp.strike as int,
    ]
}

/// How many of some stats break out of a finish.
pub open spec fn breakout_count(
    values: Seq<int>,
    finish_value: int,
    penalty: int,
    crowd_meter: int,
) -> int
    decreases values.len(),
{
    if values.len() == 0 {
        0
    } else {
        breakout_count(values.drop_last(), finish_value, penalty, crowd_meter) + (if breaks_out(
            values.last(),
            finish_value,
            penalty,
            crowd_meter,
        ) {
            1int
        } else {
            0
        })
    }
}

proof fn lemma_count_faces(opp: Skills, v: int, pen: int, cm: int, k: int)
    requires
        0 <= k <= 6,
    ensures
        breakout_count(stats(opp).take(k), v, pen, cm) == breakout_faces_to(opp, v, pen, cm, k),
    decreases k,
{
    if k > 0 {
        lemma_count_faces(opp, v, pen, cm, k - 1);
        let some = stats(opp).take(k);
        assert(some.drop_last() =~= stats(opp).take(k - 1));
        assert(some.last() == stats(opp)[k - 1]);
        assert(stats(opp)[k - 1] == opp.at(Skill::ALL@[k - 1])) by {
            assert(Skill::ALL@[0] == Skill::Power);
            assert(Skill::ALL@[1] == Skill::Agility);
            assert(Skill::ALL@[2] == Skill::Technique);
            assert(Skill::ALL@[3] == Skill::Submission);
            assert(Skill::ALL@[4] == Skill::Grapple);
            assert(Skill::ALL@[5] == Skill::Strike);
        }
    }
}

proof fn lemma_count_remove(values: Seq<int>, i: int, v: int, pen: int, cm: int)
    requires
        0 <= i < values.len(),
    ensures
        breakout_count(values, v, pen, cm) == breakout_count(values.remove(i), v, pen, cm) + (
        if breaks_out(values[i], v, pen, cm) {
            1int
        } else {
            0
        }),
    decreases values.len(),
{
    if i == values.len() - 1 {
        assert(values.remove(i) =~= values.drop_last());
    } else {
        lemma_count_remove(values.drop_last(), i, v, pen, cm);
        assert(values.remove(i).drop_last() =~= values.drop_last().remove(i));
        assert(values.remove(i).last() == values.last());
        assert(values.drop_last()[i] == values[i]);
    }
}

proof fn lemma_count_multiset(a: Seq<int>, b: Seq<int>, v: int, pen: int, cm: int)
    requires
        a.to_multiset() == b.to_multiset(),
    ensures
        breakout_count(a, v, pen, cm) == breakout_count(b, v, pen, cm),
    decreases a.len(),
{
    to_multiset_len(a);
    to_multiset_len(b);
    if a.len() > 0 {
        a.to_multiset_ensures();
        b.to_multiset_ensures();
        let x = a.last();
        assert(a.contains(x)) by {
            assert(a[a.len() - 1] == x);
        }
        assert(b.to_multiset().count(x) > 0);
        assert(b.contains(x));
        let i = choose|i: int| 0 <= i < b.len() && b[i] == x;
        let last = a.len() - 1;
        to_multiset_remove(a, last);
        to_multiset_remove(b, i);
        lemma_count_remove(a, last, v, pen, cm);
        lemma_count_remove(b, i, v, pen, cm);
        lemma_count_multiset(a.remove(last), b.remove(i), v, pen, cm);
    }
}

/// Which skill has which stat does not matter to how many of the six break out.
pub proof fn law_breakout_count_ignores_order(
    opp: Skills,
    permuted: Skills,
    finish_value: int,
    penalty: int,
    crowd_meter: int,
)
    requires
        stats(permuted).to_multiset() == stats(opp).to_multiset(),
    ensures
        breakout_faces(permuted, finish_value, penalty, crowd_meter) == breakout_faces(
            opp,
            finish_value,
            penalty,
            crowd_meter,
        ),
{
    lemma_count_multiset(stats(permuted), stats(opp), finish_value, penalty, crowd_meter);
    lemma_count_faces(opp, finish_value, penalty, crowd_meter, 6);
    lemma_count_faces(permuted, finish_value, penalty, crowd_meter, 6);
    assert(stats(opp).take(6) =~= stats(opp));
    assert(stats(permuted).take(6) =~= stats(permuted));
}

/// Where no face breaks out that did not before, no more faces break out.
pub(crate) proof fn lemma_breakout_faces_le(
    opp1: Skills,
    v1: int,
    pen1: int,
    cm1: int,
    opp2: Skills,
    v2: int,
    pen2: int,
    cm2: int,
    k: int,
)
    requires
        forall|s: Skill|
            breakout_face(opp2, s, v2, pen2, cm2) <= #[trigger] breakout_face(
                opp1,
                s,
                v1,
                pen1,
                cm1,
            ),
    ensures
        breakout_faces_to(opp2, v2, pen2, cm2, k) <= breakout_faces_to(opp1, v1, pen1, cm1, k),
    decreases k,
{
    if k > 0 {
        lemma_breakout_faces_le(opp1, v1, pen1, cm1, opp2, v2, pen2, cm2, k - 1);
        assert(breakout_face(opp2, Skill::ALL@[k - 1], v2, pen2, cm2) <= breakout_face(
            opp1,
            Skill::ALL@[k - 1],
            v1,
            pen1,
            cm1,
        ));
    }
}

/// A higher finish value or a higher penalty never lets more stats break out.
pub proof fn law_breakout_count_falls(
    opp: Skills,
    value: int,
    higher_value: int,
    penalty: int,
    higher_penalty: int,
    crowd_meter: int,
)
    requires
        value <= higher_value,
        penalty <= higher_penalty,
    ensures
        breakout_faces(opp, higher_value, higher_penalty, crowd_meter) <= breakout_faces(
            opp,
            value,
            penalty,
            crowd_meter,
        ),
{
    lemma_breakout_faces_le(
        opp,
        value,
        penalty,
        crowd_meter,
        opp,
        higher_value,
        higher_penalty,
        crowd_meter,
        6,
    );
}

// ---------------------------------------------------------------------------
// One finish face
// ---------------------------------------------------------------------------

/// A finish face that is at least as hard to break out of on every attempt holds at
/// least as often.
proof fn lemma_fail_ways_le(
    opp1: Skills,
    v1: int,
    cm1: int,
    pens1: Seq<i64>,
    opp2: Skills,
    v2: int,
    cm2: int,
    pens2: Seq<i64>,
    n: int,
)
    requires
        forall|s: Skill| #[trigger] opp2.at(s) <= opp1.at(s),
        opp1 == opp2 || cm1 != 0,
        v1 <= v2,
        cm1 == cm2 || 0 <= cm1 <= cm2,
        forall|i: int| 0 <= i < n ==> #[trigger] penalty_at(pens1, i) <= penalty_at(pens2, i),
    ensures
        fail_ways(opp1, v1, cm1, pens1, n) <= fail_ways(opp2, v2, cm2, pens2, n),
    decreases n,
{
    if n > 0 {
        lemma_fail_ways_le(opp1, v1, cm1, pens1, opp2, v2, cm2, pens2, n - 1);
        let pen1 = penalty_at(pens1, n - 1);
        let pen2 = penalty_at(pens2, n - 1);
        assert(pen1 <= pen2);
        assert forall|s: Skill|
            breakout_face(opp2, s, v2, pen2, cm2) <= #[trigger] breakout_face(
                opp1,
                s,
                v1,
                pen1,
                cm1,
            ) by {
            assert(opp2.at(s) <= opp1.at(s));
        }
        lemma_breakout_faces_le(opp1, v1, pen1, cm1, opp2, v2, pen2, cm2, 6);
        lemma_breakout_faces_range(opp1, v1, pen1, cm1, 6);
        lemma_fail_ways_range(opp1, v1, cm1, pens1, n - 1);
        let (c1, c2) = (
            6 - breakout_faces(opp1, v1, pen1, cm1),
            6 - breakout_faces(opp2, v2, pen2, cm2),
        );
        let (f1, f2) = (
            fail_ways(opp1, v1, cm1, pens1, n - 1),
            fail_ways(opp2, v2, cm2, pens2, n - 1),
        );
        assert(c1 * f1 <= c2 * f2) by (nonlinear_arith)
            requires
                0 <= c1 <= c2,
                0 <= f1 <= f2,
        ;
    }
}

/// The same of the ways to hold, an unbreakable face among them.
pub(crate) proof fn lemma_hold_ways_le(
    opp1: Skills,
    v1: int,
    cm1: int,
    pens1: Seq<i64>,
    opp2: Skills,
    v2: int,
    cm2: int,
    pens2: Seq<i64>,
    n: int,
)
    requires
        forall|s: Skill| #[trigger] opp2.at(s) <= opp1.at(s),
        opp1 == opp2 || cm1 != 0,
        v1 <= v2,
        cm1 == cm2 || 0 <= cm1 <= cm2,
        forall|i: int| 0 <= i < n ==> #[trigger] penalty_at(pens1, i) <= penalty_at(pens2, i),
    ensures
        hold_ways(opp1, v1, cm1, pens1, n) <= hold_ways(opp2, v2, cm2, pens2, n),
{
    lemma_fail_ways_le(opp1, v1, cm1, pens1, opp2, v2, cm2, pens2, n);
    lemma_fail_ways_range(opp1, v1, cm1, pens1, n);
}

/// The ways to fail go by the penalties on the attempts that are made.
proof fn lemma_fail_ways_same(
    opp: Skills,
    value: int,
    cm: int,
    pens1: Seq<i64>,
    pens2: Seq<i64>,
    n: int,
)
    requires
        forall|i: int| 0 <= i < n ==> #[trigger] penalty_at(pens1, i) == penalty_at(pens2, i),
    ensures
        fail_ways(opp, value, cm, pens1, n) == fail_ways(opp, value, cm, pens2, n),
    decreases n,
{
    if n > 0 {
        lemma_fail_ways_same(opp, value, cm, pens1, pens2, n - 1);
        assert(penalty_at(pens1, n - 1) == penalty_at(pens2, n - 1));
    }
}

/// The same of the ways to hold.
pub(crate) proof fn lemma_hold_ways_same(
    opp: Skills,
    value: int,
    cm: int,
    pens1: Seq<i64>,
    pens2: Seq<i64>,
    n: int,
)
    requires
        forall|i: int| 0 <= i < n ==> #[trigger] penalty_at(pens1, i) == penalty_at(pens2, i),
    ensures
        hold_ways(opp, value, cm, pens1, n) == hold_ways(opp, value, cm, pens2, n),
{
    lemma_fail_ways_same(opp, value, cm, pens1, pens2, n);
}

/// The chance to break out of a face goes by the penalties on the attempts that are
/// made: one that is not listed is zero, and one beyond the last attempt is ignored.
pub proof fn law_face_chance_by_penalties_made(
    opp: Skills,
    value: int,
    crowd_meter: int,
    penalties: Seq<i64>,
    others: Seq<i64>,
    n: int,
    r: Odds,
    q: Odds,
)
    requires
        forall|i: int| 0 <= i < n ==> #[trigger] penalty_at(penalties, i) == penalty_at(others, i),
        breakout_chance(r, opp, value, crowd_meter, penalties, n),
        breakout_chance(q, opp, value, crowd_meter, others, n),
    ensures
        r == q,
{
    lemma_hold_ways_same(opp, value, crowd_meter, penalties, others, n);
    lemma_roll_ways_positive(n);
    lemma_same_number(
        r,
        q,
        roll_ways(n) - hold_ways(opp, value, crowd_meter, penalties, n),
        roll_ways(n),
    );
}

/// A higher finish value or higher penalties never raise the chance to break out of a
/// face.
pub proof fn law_harder_face_lowers_the_chance(
    opp: Skills,
    value: int,
    higher_value: int,
    crowd_meter: int,
    penalties: Seq<i64>,
    higher_penalties: Seq<i64>,
    n: int,
    r: Odds,
    q: Odds,
)
    requires
        value <= higher_value,
        forall|i: int|
            0 <= i < n ==> #[trigger] penalty_at(penalties, i) <= penalty_at(higher_penalties, i),
        breakout_chance(r, opp, value, crowd_meter, penalties, n),
        breakout_chance(q, opp, higher_value, crowd_meter, higher_penalties, n),
    ensures
        at_most(q, r),
{
    lemma_hold_ways_le(
        opp,
        value,
        crowd_meter,
        penalties,
        opp,
        higher_value,
        crowd_meter,
        higher_penalties,
        n,
    );
    lemma_roll_ways_positive(n);
    let w = roll_ways(n);
    let h = hold_ways(opp, value, crowd_meter, penalties, n);
    let g = hold_ways(opp, higher_value, crowd_meter, higher_penalties, n);
    assert((w - g) * w <= (w - h) * w) by (nonlinear_arith)
        requires
            h <= g,
            0 < w,
    ;
    lemma_at_most(q, w - g, w, r, w - h, w);
}

/// One more attempt leaves at most six times the ways to hold.
pub(crate) proof fn lemma_hold_ways_step(
    opp: Skills,
    value: int,
    cm: int,
    pens: Seq<i64>,
    n: int,
)
    requires
        0 <= n,
    ensures
        0 <= hold_ways(opp, value, cm, pens, n) <= roll_ways(n),
        hold_ways(opp, value, cm, pens, n + 1) <= 6 * hold_ways(opp, value, cm, pens, n),
        roll_ways(n + 1) == 6 * roll_ways(n),
{
    lemma_roll_ways_positive(n);
    lemma_fail_ways_range(opp, value, cm, pens, n);
    let pen = penalty_at(pens, n);
    lemma_breakout_faces_range(opp, value, pen, cm, 6);
    let c = 6 - breakout_faces(opp, value, pen, cm);
    let f = fail_ways(opp, value, cm, pens, n);
    assert(fail_ways(opp, value, cm, pens, n + 1) == c * f);
    assert(c * f <= 6 * f) by (nonlinear_arith)
        requires
            c <= 6,
            0 <= f,
    ;
}

proof fn lemma_hold_share_falls(
    opp: Skills,
    value: int,
    cm: int,
    pens: Seq<i64>,
    n: int,
    more: int,
)
    requires
        0 <= n <= more,
    ensures
        hold_ways(opp, value, cm, pens, more) * roll_ways(n) <= hold_ways(
            opp,
            value,
            cm,
            pens,
            n,
        ) * roll_ways(more),
    decreases more,
{
    if n < more {
        lemma_hold_share_falls(opp, value, cm, pens, n, more - 1);
        lemma_hold_ways_step(opp, value, cm, pens, more - 1);
        lemma_roll_ways_positive(n);
        let (h, g, f) = (
            hold_ways(opp, value, cm, pens, more),
            hold_ways(opp, value, cm, pens, more - 1),
            hold_ways(opp, value, cm, pens, n),
        );
        let (w, v) = (roll_ways(n), roll_ways(more - 1));
        assert(h * w <= f * (6 * v)) by (nonlinear_arith)
            requires
                h <= 6 * g,
                g * w <= f * v,
                0 < w,
        {
            assert(h * w <= (6 * g) * w);
            assert((6 * g) * w == 6 * (g * w));
            assert(f * (6 * v) == 6 * (f * v));
        }
    }
}

/// More attempts never lower the chance to break out of a face.
pub proof fn law_more_attempts_raise_the_chance(
    opp: Skills,
    value: int,
    crowd_meter: int,
    penalties: Seq<i64>,
    n: int,
    more: int,
    r: Odds,
    q: Odds,
)
    requires
        0 <= n <= more,
        breakout_chance(r, opp, value, crowd_meter, penalties, n),
        breakout_chance(q, opp, value, crowd_meter, penalties, more),
    ensures
        at_most(r, q),
{
    lemma_hold_share_falls(opp, value, crowd_meter, penalties, n, more);
    lemma_roll_ways_positive(n);
    lemma_roll_ways_positive(more);
    let (w, v) = (roll_ways(n), roll_ways(more));
    let h = hold_ways(opp, value, crowd_meter, penalties, n);
    let g = hold_ways(opp, value, crowd_meter, penalties, more);
    assert((w - h) * v <= (v - g) * w) by (nonlinear_arith)
        requires
            g * w <= h * v,
    ;
    lemma_at_most(r, w - h, w, q, v - g, v);
}

proof fn lemma_roll_ways_sum(m: int, n: int)
    requires
        0 <= m,
        0 <= n,
    ensures
        roll_ways(m + n) == roll_ways(m) * roll_ways(n),
    decreases n,
{
    let (a, b) = (roll_ways(m), roll_ways(n - 1));
    if n > 0 {
        lemma_roll_ways_sum(m, n - 1);
        assert(6 * (a * b) == a * (6 * b)) by (nonlinear_arith);
    } else {
        assert(a * 1 == a);
    }
}

proof fn lemma_fail_ways_sum(opp: Skills, value: int, cm: int, m: int, n: int)
    requires
        0 <= m,
        0 <= n,
    ensures
        fail_ways(opp, value, cm, Seq::empty(), m + n) == fail_ways(
            opp,
            value,
            cm,
            Seq::empty(),
            m,
        ) * fail_ways(opp, value, cm, Seq::empty(), n),
    decreases n,
{
    let none = Seq::<i64>::empty();
    let a = fail_ways(opp, value, cm, none, m);
    if n > 0 {
        lemma_fail_ways_sum(opp, value, cm, m, n - 1);
        let b = fail_ways(opp, value, cm, none, n - 1);
        let c = 6 - breakout_faces(opp, value, 0, cm);
        assert(penalty_at(none, n - 1) == 0 && penalty_at(none, m + n - 1) == 0);
        assert(c * (a * b) == a * (c * b)) by (nonlinear_arith);
    } else {
        assert(a * 1 == a);
    }
}

/// Without penalties the attempts are independent: the chance that `m + n` attempts all
/// fail is the chance that `m` do times the chance that `n` do.
pub proof fn law_attempts_are_independent(
    opp: Skills,
    value: int,
    crowd_meter: int,
    m: int,
    n: int,
    r: Odds,
    q: Odds,
    both: Odds,
)
    requires
        0 <= m,
        0 <= n,
        breakout_chance(r, opp, value, crowd_meter, Seq::empty(), m),
        breakout_chance(q, opp, value, crowd_meter, Seq::empty(), n),
        breakout_chance(both, opp, value, crowd_meter, Seq::empty(), m + n),
    ensures
        hold_ways(opp, value, crowd_meter, Seq::empty(), m + n) == hold_ways(
            opp,
            value,
            crowd_meter,
            Seq::empty(),
            m,
        ) * hold_ways(opp, value, crowd_meter, Seq::empty(), n),
        roll_ways(m + n) == roll_ways(m) * roll_ways(n),
        same_ratio(
            both.denom - both.numer,
            both.denom as int,
            (r.denom - r.numer) * (q.denom - q.numer),
            r.denom * q.denom,
        ),
{
    let none = Seq::<i64>::empty();
    lemma_roll_ways_sum(m, n);
    lemma_fail_ways_sum(opp, value, crowd_meter, m, n);
    lemma_roll_ways_positive(m);
    lemma_roll_ways_positive(n);
    let (h, g) = (
        hold_ways(opp, value, crowd_meter, none, m),
        hold_ways(opp, value, crowd_meter, none, n),
    );
    let (w, v) = (roll_ways(m), roll_ways(n));
    let (rn, rd, qn, qd) = (r.numer as int, r.denom as int, q.numer as int, q.denom as int);
    let (bn, bd) = (both.numer as int, both.denom as int);
    assert((rd - rn) * w == h * rd) by (nonlinear_arith)
        requires
            rn * w == (w - h) * rd,
    ;
    assert((qd - qn) * v == g * qd) by (nonlinear_arith)
        requires
            qn * v == (v - g) * qd,
    ;
    assert((bd - bn) * (w * v) == (h * g) * bd) by (nonlinear_arith)
        requires
            bn * (w * v) == (w * v - h * g) * bd,
    ;
    let (x, y) = (rd - rn, qd - qn);
    assert(0 < w * v) by (nonlinear_arith)
        requires
            0 < w,
            0 < v,
    ;
    assert(same_ratio(x * y, rd * qd, h * g, w * v)) by {
        assert((x * y) * (w * v) == (h * g) * (rd * qd)) by (nonlinear_arith)
            requires
                x * w == h * rd,
                y * v == g * qd,
        {
            assert((x * y) * (w * v) == (x * w) * (y * v));
            assert((h * rd) * (g * qd) == (h * g) * (rd * qd));
        }
    }
    assert(0 < rd * qd) by (nonlinear_arith)
        requires
            0 < rd,
            0 < qd,
    ;
    lemma_same_ratio_trans(bd - bn, bd, h * g, w * v, x * y, rd * qd);
}

// ---------------------------------------------------------------------------
// The average over the faces
// ---------------------------------------------------------------------------

proof fn lemma_sum_between(terms: Seq<int>, lo: int, hi: int, k: int)
    requires
        0 <= k <= terms.len(),
        forall|i: int| 0 <= i < terms.len() ==> lo <= #[trigger] terms[i] <= hi,
    ensures
        k * lo <= sum_to(terms, k) <= k * hi,
    decreases k,
{
    if k > 0 {
        lemma_sum_between(terms, lo, hi, k - 1);
        assert(k * lo == (k - 1) * lo + lo) by (nonlinear_arith);
        assert(k * hi == (k - 1) * hi + hi) by (nonlinear_arith);
    } else {
        assert(k * lo == 0 && k * hi == 0) by (nonlinear_arith)
            requires
                k == 0,
        ;
    }
}

/// Six rows of six: each kept face is at most the first of its pair.
proof fn lemma_pairs_under(h: Seq<int>, pairs: Seq<int>, i: int)
    requires
        0 <= i <= 6,
        h.len() == 6,
        pairs.len() == 36,
        forall|k: int| 0 <= k < 36 ==> #[trigger] pairs[k] <= h[k / 6],
    ensures
        sum_to(pairs, 6 * i) <= 6 * sum_to(h, i),
    decreases i,
{
    if i > 0 {
        lemma_pairs_under(h, pairs, i - 1);
        let b = 6 * (i - 1);
        assert(b / 6 == i - 1 && (b + 1) / 6 == i - 1 && (b + 2) / 6 == i - 1 && (b + 3) / 6 == i
            - 1 && (b + 4) / 6 == i - 1 && (b + 5) / 6 == i - 1);
        assert(pairs[b] <= h[i - 1]);
        assert(pairs[b + 1] <= h[i - 1]);
        assert(pairs[b + 2] <= h[i - 1]);
        assert(pairs[b + 3] <= h[i - 1]);
        assert(pairs[b + 4] <= h[i - 1]);
        assert(pairs[b + 5] <= h[i - 1]);
        assert(sum_to(pairs, b + 1) == sum_to(pairs, b) + pairs[b]);
        assert(sum_to(pairs, b + 2) == sum_to(pairs, b + 1) + pairs[b + 1]);
        assert(sum_to(pairs, b + 3) == sum_to(pairs, b + 2) + pairs[b + 2]);
        assert(sum_to(pairs, b + 4) == sum_to(pairs, b + 3) + pairs[b + 3]);
        assert(sum_to(pairs, b + 5) == sum_to(pairs, b + 4) + pairs[b + 4]);
        assert(sum_to(pairs, b + 6) == sum_to(pairs, b + 5) + pairs[b + 5]);
    }
}

/// The least of the six chances is at most the average with a re-roll, which is at most
/// the average without one, which is at most the greatest of the six.
pub proof fn law_averages_are_between(
    probs: Seq<Odds>,
    ways: Seq<int>,
    d: int,
    least: int,
    greatest: int,
    with_reroll: Odds,
    without: Odds,
)
    requires
        chances(probs, ways, d),
        0 <= least < 6,
        0 <= greatest < 6,
        forall|k: int| 0 <= k < 6 ==> ways[least] <= #[trigger] ways[k] <= ways[greatest],
        average_chance(with_reroll, ways, d, true),
        average_chance(without, ways, d, false),
    ensures
        at_most(probs[least], with_reroll),
        at_most(with_reroll, without),
        at_most(without, probs[greatest]),
        ways[least] == ways[greatest] ==> with_reroll == probs[least] && without == probs[least],
{
    let pairs = kept_lower(ways, true);
    let (lo, hi) = (ways[least], ways[greatest]);
    let (s, t) = (sum_to(pairs, 36), sum_to(ways, 6));
    assert(probs[least].denotes(lo, d) && probs[greatest].denotes(hi, d));
    assert forall|k: int| 0 <= k < 36 implies lo <= #[trigger] pairs[k] <= hi && pairs[k]
        <= ways[k / 6] by {
        assert(lo <= ways[k / 6] <= hi);
        assert(lo <= ways[k % 6] <= hi);
    }
    lemma_sum_between(pairs, lo, hi, 36);
    lemma_sum_between(ways, lo, hi, 6);
    lemma_pairs_under(ways, pairs, 6);
    assert(with_reroll.denotes(s, 36 * d));
    assert(without.denotes(t, 6 * d));
    assert(lo * (36 * d) <= s * d) by (nonlinear_arith)
        requires
            36 * lo <= s,
            0 < d,
    ;
    lemma_at_most(probs[least], lo, d, with_reroll, s, 36 * d);
    assert(s * (6 * d) <= t * (36 * d)) by (nonlinear_arith)
        requires
            s <= 6 * t,
            0 < d,
    ;
    lemma_at_most(with_reroll, s, 36 * d, without, t, 6 * d);
    assert(t * d <= hi * (6 * d)) by (nonlinear_arith)
        requires
            t <= 6 * hi,
            0 < d,
    ;
    lemma_at_most(without, t, 6 * d, probs[greatest], hi, d);
    if lo == hi {
        let (wn, wd) = (with_reroll.numer as int, with_reroll.denom as int);
        let (un, ud) = (without.numer as int, without.denom as int);
        assert(same_ratio(wn, wd, lo, d)) by {
            assert(wn * d == lo * wd) by (nonlinear_arith)
                requires
                    wn * (36 * d) == s * wd,
                    s == 36 * lo,
            ;
        }
        assert(same_ratio(un, ud, lo, d)) by {
            assert(un * d == lo * ud) by (nonlinear_arith)
                requires
                    un * (6 * d) == t * ud,
                    t == 6 * lo,
            ;
        }
        lemma_same_number(with_reroll, probs[least], lo, d);
        lemma_same_number(without, probs[least], lo, d);
    }
}

} // verus!
