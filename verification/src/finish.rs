//! Finish and breakout odds.

use crate::ir::Skill;
use crate::ratio::{
    addable, lemma_addable_same, lemma_representable_same, lemma_same_ratio_add,
    lemma_same_ratio_mul, lemma_same_ratio_trans, over_common, ratio_add, ratio_div, ratio_min,
    ratio_mul, ratio_new, ratio_sub, representable, same_ratio, Odds,
};
use crate::skills::Skills;
use vstd::prelude::*;

verus! {

/// A finish of this value is beyond any breakout.
pub open spec fn unbreakable(finish_value: int, crowd_meter: int) -> bool {
    finish_value >= 11 && crowd_meter > 0
}

/// A defender's stat breaks out of a finish.
pub open spec fn breaks_out(stat: int, finish_value: int, penalty: int, crowd_meter: int) -> bool {
    ||| crowd_meter == 0 && stat == 10
    ||| stat - penalty >= finish_value
}

/// The penalised stat, where it is looked at, is a 64-bit integer.
pub open spec fn penalty_fits(stat: int, penalty: int, crowd_meter: int) -> bool {
    ||| crowd_meter == 0 && stat == 10
    ||| i64::MIN <= stat - penalty <= i64::MAX
}

/// A finish value of at least 11, with the Crowd Meter above zero, cannot be broken
/// out of.
pub fn is_auto_success(finish_value: i64, crowd_meter: i64) -> (r: bool)
    ensures
        r == unbreakable(finish_value as int, crowd_meter as int),
        r <==> finish_value >= 11 && crowd_meter > 0,
{
    finish_value >= 11 && crowd_meter > 0
}

/// Whether one defender stat breaks out of a finish: at Crowd Meter 0 a raw 10 always
/// does, whatever the penalty; otherwise the stat, less the penalty, has to reach the
/// finish value.
pub fn stat_breaks_out(
    stat_value: i64,
    finish_value: i64,
    penalty: i64,
    crowd_meter: i64,
) -> (r: bool)
    requires
        penalty_fits(stat_value as int, penalty as int, crowd_meter as int),
    ensures
        r == breaks_out(
            stat_value as int,
            finish_value as int,
            penalty as int,
            crowd_meter as int,
        ),
        r <==> (crowd_meter == 0 && stat_value == 10) || stat_value - penalty >= finish_value,
{
    if crowd_meter == 0 && stat_value == 10 {
        return true;
    }
    stat_value - penalty >= finish_value
}

/// 1 for a die face that breaks out, else 0.
pub open spec fn breakout_face(
    opp: Skills,
    skill: Skill,
    finish_value: int,
    penalty: int,
    crowd_meter: int,
) -> int {
    if breaks_out(opp.at(skill) as int, finish_value, penalty, crowd_meter) {
        1
    } else {
        0
    }
}

/// How many of the first `k` faces of the defender's die break out.
pub open spec fn breakout_faces_to(
    opp: Skills,
    finish_value: int,
    penalty: int,
    crowd_meter: int,
    k: int,
) -> int
    decreases k,
{
    if k <= 0 {
        0
    } else {
        breakout_faces_to(opp, finish_value, penalty, crowd_meter, k - 1) + breakout_face(
            opp,
            Skill::ALL@[k - 1],
            finish_value,
            penalty,
            crowd_meter,
        )
    }
}

/// How many of the six faces of the defender's die break out.
pub open spec fn breakout_faces(
    opp: Skills,
    finish_value: int,
    penalty: int,
    crowd_meter: int,
) -> int {
    breakout_faces_to(opp, finish_value, penalty, crowd_meter, 6)
}

/// How many of the defender's six stats break out of a finish.
pub fn count_breakout_stats(
    opp: &Skills,
    finish_value: i64,
    penalty: i64,
    crowd_meter: i64,
) -> (n: i64)
    requires
        forall|s: Skill|
            penalty_fits(#[trigger] opp.at(s) as int, penalty as int, crowd_meter as int),
    ensures
        n == breakout_faces(*opp, finish_value as int, penalty as int, crowd_meter as int),
        0 <= n <= 6,
        n == (if (crowd_meter == 0 && opp.power == 10) || opp.power - penalty >= finish_value {
            1int
        } else {
            0
        }) + (if (crowd_meter == 0 && opp.agility == 10) || opp.agility - penalty
            >= finish_value {
            1int
        } else {
            0
        }) + (if (crowd_meter == 0 && opp.technique == 10) || opp.technique - penalty
            >= finish_value {
            1int
        } else {
            0
        }) + (if (crowd_meter == 0 && opp.submission == 10) || opp.submission - penalty
            >= finish_value {
            1int
        } else {
            0
        }) + (if (crowd_meter == 0 && opp.grapple == 10) || opp.grapple - penalty
            >= finish_value {
            1int
        } else {
            0
        }) + (if (crowd_meter == 0 && opp.strike == 10) || opp.strike - penalty
            >= finish_value {
            1int
        } else {
            0
        }),
{
    let mut n: i64 = 0;
    let mut k: usize = 0;
    while k < 6
        invariant
            k <= 6,
            0 <= n <= k,
            n == breakout_faces_to(
                *opp,
                finish_value as int,
                penalty as int,
                crowd_meter as int,
                k as int,
            ),
            forall|s: Skill|
                penalty_fits(#[trigger] opp.at(s) as int, penalty as int, crowd_meter as int),
        decreases 6 - k,
    {
        let s = Skill::ALL[k];
        if stat_breaks_out(opp.get(s), finish_value, penalty, crowd_meter) {
            n = n + 1;
        }
        k = k + 1;
    }
    proof {
        reveal_with_fuel(breakout_faces_to, 7);
        assert(Skill::ALL@[0] == Skill::Power && Skill::ALL@[1] == Skill::Agility);
        assert(Skill::ALL@[2] == Skill::Technique && Skill::ALL@[3] == Skill::Submission);
        assert(Skill::ALL@[4] == Skill::Grapple && Skill::ALL@[5] == Skill::Strike);
    }
    n
}

/// Six to the power of `n`: how many ways `n` rolls of a die can fall.
pub open spec fn roll_ways(n: int) -> int
    decreases n,
{
    if n <= 0 {
        1
    } else {
        6 * roll_ways(n - 1)
    }
}

/// The penalty on the breakout attempt with index `i`: none beyond the listed ones.
pub open spec fn penalty_at(penalties: Seq<i64>, i: int) -> int {
    if 0 <= i < penalties.len() {
        penalties[i] as int
    } else {
        0
    }
}

/// How many ways `n` breakout rolls can fall with none of them breaking out.
pub open spec fn fail_ways(
    opp: Skills,
    finish_value: int,
    crowd_meter: int,
    penalties: Seq<i64>,
    n: int,
) -> int
    decreases n,
{
    if n <= 0 {
        1
    } else {
        (6 - breakout_faces(opp, finish_value, penalty_at(penalties, n - 1), crowd_meter))
            * fail_ways(opp, finish_value, crowd_meter, penalties, n - 1)
    }
}

/// How many ways `n` breakout rolls against one finish face can fall with the
/// defender staying down.
pub open spec fn hold_ways(
    opp: Skills,
    finish_value: int,
    crowd_meter: int,
    penalties: Seq<i64>,
    n: int,
) -> int {
    if unbreakable(finish_value, crowd_meter) {
        roll_ways(n)
    } else {
        fail_ways(opp, finish_value, crowd_meter, penalties, n)
    }
}

/// The computation for one finish face stays within 64 bits: no penalised stat leaves
/// the range, and the chance that the first `k` rolls all fail is a fraction of two
/// 64-bit integers for every `k`.
pub open spec fn face_fits(
    opp: Skills,
    finish_value: int,
    crowd_meter: int,
    penalties: Seq<i64>,
    n: int,
) -> bool {
    ||| unbreakable(finish_value, crowd_meter)
    ||| {
        &&& forall|i: int, s: Skill|
            0 <= i < n ==> penalty_fits(
                #[trigger] opp.at(s) as int,
                #[trigger] penalty_at(penalties, i),
                crowd_meter,
            )
        &&& forall|k: int|
            0 <= k <= n ==> #[trigger] representable(
                fail_ways(opp, finish_value, crowd_meter, penalties, k),
                roll_ways(k),
            )
    }
}

/// Rolls fall in at least one way.
pub(crate) proof fn lemma_roll_ways_positive(n: int)
    ensures
        roll_ways(n) > 0,
    decreases n,
{
    if n > 0 {
        lemma_roll_ways_positive(n - 1);
    }
}

/// The faces that break out are between none and all of them.
pub(crate) proof fn lemma_breakout_faces_range(
    opp: Skills,
    finish_value: int,
    penalty: int,
    crowd_meter: int,
    k: int,
)
    ensures
        0 <= breakout_faces_to(opp, finish_value, penalty, crowd_meter, k),
        0 <= k ==> breakout_faces_to(opp, finish_value, penalty, crowd_meter, k) <= k,
    decreases k,
{
    if k > 0 {
        lemma_breakout_faces_range(opp, finish_value, penalty, crowd_meter, k - 1);
    }
}

/// The ways to fail are between none and all of them.
pub(crate) proof fn lemma_fail_ways_range(
    opp: Skills,
    finish_value: int,
    crowd_meter: int,
    penalties: Seq<i64>,
    n: int,
)
    ensures
        0 <= fail_ways(opp, finish_value, crowd_meter, penalties, n) <= roll_ways(n),
    decreases n,
{
    if n > 0 {
        lemma_fail_ways_range(opp, finish_value, crowd_meter, penalties, n - 1);
        lemma_breakout_faces_range(
            opp,
            finish_value,
            penalty_at(penalties, n - 1),
            crowd_meter,
            6,
        );
        let c = 6 - breakout_faces(opp, finish_value, penalty_at(penalties, n - 1), crowd_meter);
        let f = fail_ways(opp, finish_value, crowd_meter, penalties, n - 1);
        let w = roll_ways(n - 1);
        assert(0 <= c * f <= 6 * w) by (nonlinear_arith)
            requires
                0 <= c <= 6,
                0 <= f <= w,
        ;
    }
}

/// The number one.
fn certain() -> (r: Odds)
    ensures
        r == (Odds { numer: 1, denom: 1 }),
        r.denotes(1, 1),
{
    proof {
        assert forall|k: int| k >= 1 && #[trigger] (1int % k) == 0 && 1int % k == 0 implies k
            == 1 by {
            if k > 1 {
                vstd::arithmetic::div_mod::lemma_small_mod(1, k as nat);
            }
        }
    }
    Odds { numer: 1, denom: 1 }
}

/// The chance that something of the given chance does not happen.
fn complement(chance: Odds, Ghost(n): Ghost<int>, Ghost(d): Ghost<int>) -> (r: Odds)
    requires
        chance.denotes(n, d),
        0 < d,
        n <= d,
    ensures
        r.denotes(d - n, d),
{
    let one = certain();
    proof {
        let (cn, cd) = (chance.numer as int, chance.denom as int);
        assert(cn <= cd) by (nonlinear_arith)
            requires
                cn * d == n * cd,
                n <= d,
                0 < d,
                0 < cd,
        ;
        assert(over_common(1, 1, cn, cd, cd, cd, cn));
    }
    let r = ratio_sub(one, chance);
    proof {
        let (cn, cd) = (chance.numer as int, chance.denom as int);
        lemma_same_ratio_add(1, 1, cn, cd, d, n, d);
        assert(1 * cd - cn * 1 == cd - cn);
        lemma_same_ratio_trans(
            r.numer as int,
            r.denom as int,
            1 * cd - cn * 1,
            1 * cd,
            d - n,
            d,
        );
    }
    r
}

/// The chance that one breakout roll fails.
fn fail_odds(opp: &Skills, finish_value: i64, penalty: i64, crowd_meter: i64) -> (r: Odds)
    requires
        forall|s: Skill|
            penalty_fits(#[trigger] opp.at(s) as int, penalty as int, crowd_meter as int),
    ensures
        r.denotes(
            6 - breakout_faces(*opp, finish_value as int, penalty as int, crowd_meter as int),
            6,
        ),
{
    let can = count_breakout_stats(opp, finish_value, penalty, crowd_meter);
    let chance = ratio_new(can, 6);
    complement(chance, Ghost(can as int), Ghost(6))
}

/// The chance that the first `i` rolls and one more all fail.
fn fail_step(
    all_fail: Odds,
    fails: Odds,
    Ghost(ways): Ghost<int>,
    Ghost(total): Ghost<int>,
    Ghost(faces): Ghost<int>,
) -> (r: Odds)
    requires
        0 < total,
        all_fail.denotes(ways, total),
        fails.denotes(faces, 6),
        representable(faces * ways, 6 * total),
    ensures
        r.denotes(faces * ways, 6 * total),
{
    proof {
        lemma_same_ratio_mul(
            all_fail.numer as int,
            all_fail.denom as int,
            ways,
            total,
            fails.numer as int,
            fails.denom as int,
            faces,
            6,
        );
        assert(ways * faces == faces * ways) by (nonlinear_arith);
        assert(total * 6 == 6 * total);
        assert(all_fail.denom * fails.denom > 0) by (nonlinear_arith)
            requires
                all_fail.denom > 0,
                fails.denom > 0,
        ;
        lemma_representable_same(
            faces * ways,
            6 * total,
            all_fail.numer * fails.numer,
            all_fail.denom * fails.denom,
        );
    }
    let r = ratio_mul(all_fail, fails);
    proof {
        lemma_same_ratio_trans(
            r.numer as int,
            r.denom as int,
            all_fail.numer * fails.numer,
            all_fail.denom * fails.denom,
            faces * ways,
            6 * total,
        );
    }
    r
}

/// The number is the chance that `n` breakout rolls against one finish face break out:
/// the share of the ways in which they can fall with the defender not staying down.
pub open spec fn breakout_chance(
    r: Odds,
    opp: Skills,
    finish_value: int,
    crowd_meter: int,
    penalties: Seq<i64>,
    n: int,
) -> bool {
    r.denotes(
        roll_ways(n) - hold_ways(opp, finish_value, crowd_meter, penalties, n),
        roll_ways(n),
    )
}

/// The chance that the defender breaks out of one finish face.
pub fn breakout_prob_for_finish(
    finish_value: i64,
    opp: &Skills,
    attempts: u32,
    crowd_meter: i64,
    penalties: &Vec<i64>,
) -> (r: Odds)
    requires
        face_fits(
            *opp,
            finish_value as int,
            crowd_meter as int,
            penalties@,
            attempts as int,
        ),
    ensures
        breakout_chance(
            r,
            *opp,
            finish_value as int,
            crowd_meter as int,
            penalties@,
            attempts as int,
        ),
{
    let one = certain();
    proof {
        lemma_roll_ways_positive(attempts as int);
    }
    if is_auto_success(finish_value, crowd_meter) {
        return complement(
            one,
            Ghost(roll_ways(attempts as int)),
            Ghost(roll_ways(attempts as int)),
        );
    }
    let ghost value = finish_value as int;
    let ghost cm = crowd_meter as int;
    let ghost pens = penalties@;
    let mut all_fail = one;
    if penalties.len() != 0 {
        let mut i: u32 = 0;
        while i < attempts
            invariant
                i <= attempts,
                value == finish_value,
                cm == crowd_meter,
                pens == penalties@,
                !unbreakable(value, cm),
                face_fits(*opp, value, cm, pens, attempts as int),
                all_fail.denotes(fail_ways(*opp, value, cm, pens, i as int), roll_ways(i as int)),
            decreases attempts - i,
        {
            let pen: i64 = if (i as usize) < penalties.len() {
                penalties[i as usize]
            } else {
                0
            };
            assert(pen == penalty_at(pens, i as int));
            let fails = fail_odds(opp, finish_value, pen, crowd_meter);
            proof {
                lemma_roll_ways_positive(i as int);
                assert(representable(
                    fail_ways(*opp, value, cm, pens, i + 1),
                    roll_ways(i + 1),
                ));
            }
            all_fail = fail_step(
                all_fail,
                fails,
                Ghost(fail_ways(*opp, value, cm, pens, i as int)),
                Ghost(roll_ways(i as int)),
                Ghost(6 - breakout_faces(*opp, value, pen as int, cm)),
            );
            i = i + 1;
        }
    } else {
        let base = fail_odds(opp, finish_value, 0, crowd_meter);
        let mut i: u32 = 0;
        while i < attempts
            invariant
                i <= attempts,
                value == finish_value,
                cm == crowd_meter,
                pens == penalties@,
                pens.len() == 0,
                !unbreakable(value, cm),
                face_fits(*opp, value, cm, pens, attempts as int),
                base.denotes(6 - breakout_faces(*opp, value, 0, cm), 6),
                all_fail.denotes(fail_ways(*opp, value, cm, pens, i as int), roll_ways(i as int)),
            decreases attempts - i,
        {
            proof {
                lemma_roll_ways_positive(i as int);
                assert(penalty_at(pens, i as int) == 0);
                assert(representable(
                    fail_ways(*opp, value, cm, pens, i + 1),
                    roll_ways(i + 1),
                ));
            }
            all_fail = fail_step(
                all_fail,
                base,
                Ghost(fail_ways(*opp, value, cm, pens, i as int)),
                Ghost(roll_ways(i as int)),
                Ghost(6 - breakout_faces(*opp, value, 0, cm)),
            );
            i = i + 1;
        }
    }
    proof {
        lemma_fail_ways_range(*opp, value, cm, pens, attempts as int);
    }
    complement(
        all_fail,
        Ghost(fail_ways(*opp, value, cm, pens, attempts as int)),
        Ghost(roll_ways(attempts as int)),
    )
}

/// The sum of the first `k` terms.
pub open spec fn sum_to(terms: Seq<int>, k: int) -> int
    decreases k,
{
    if k <= 0 {
        0
    } else {
        sum_to(terms, k - 1) + terms[k - 1]
    }
}

/// The average of the fractions `terms[k] / d` can be computed within 64 bits: every
/// partial sum can be extended by the next term, and the average is a fraction of two
/// 64-bit integers.
pub open spec fn average_fits(terms: Seq<int>, d: int) -> bool {
    &&& forall|k: int|
        0 <= k < terms.len() ==> #[trigger] addable(sum_to(terms, k), d, terms[k], d)
    &&& representable(sum_to(terms, terms.len() as int), terms.len() * d)
}

/// What each way to roll the finisher's die once, or twice keeping the lower number,
/// comes to.
pub open spec fn kept_lower(ways: Seq<int>, allow_reroll: bool) -> Seq<int> {
    if allow_reroll {
        Seq::new(
            36,
            |k: int|
                if ways[k / 6] <= ways[k % 6] {
                    ways[k / 6]
                } else {
                    ways[k % 6]
                },
        )
    } else {
        ways
    }
}

/// Zero.
fn impossible() -> (r: Odds)
    ensures
        r.denotes(0, 1),
        forall|d: int| #[trigger] r.denotes(0, d),
{
    proof {
        assert forall|k: int| k >= 1 && #[trigger] (0int % k) == 0 && 1int % k == 0 implies k
            == 1 by {
            if k > 1 {
                vstd::arithmetic::div_mod::lemma_small_mod(1, k as nat);
            }
        }
    }
    Odds { numer: 0, denom: 1 }
}

/// One more term of a sum.
fn sum_step(
    sum: Odds,
    term: Odds,
    Ghost(terms): Ghost<Seq<int>>,
    Ghost(d): Ghost<int>,
    Ghost(k): Ghost<int>,
) -> (r: Odds)
    requires
        0 < d,
        0 <= k < terms.len(),
        average_fits(terms, d),
        sum.denotes(sum_to(terms, k), d),
        term.denotes(terms[k], d),
    ensures
        r.denotes(sum_to(terms, k + 1), d),
{
    proof {
        assert(addable(sum_to(terms, k), d, terms[k], d));
        lemma_addable_same(
            sum_to(terms, k),
            d,
            terms[k],
            d,
            sum.numer as int,
            sum.denom as int,
            term.numer as int,
            term.denom as int,
        );
    }
    let r = ratio_add(sum, term);
    proof {
        lemma_same_ratio_add(
            sum.numer as int,
            sum.denom as int,
            term.numer as int,
            term.denom as int,
            sum_to(terms, k),
            terms[k],
            d,
        );
        assert(sum.denom * term.denom > 0) by (nonlinear_arith)
            requires
                sum.denom > 0,
                term.denom > 0,
        ;
        lemma_same_ratio_trans(
            r.numer as int,
            r.denom as int,
            sum.numer * term.denom + term.numer * sum.denom,
            sum.denom * term.denom,
            sum_to(terms, k + 1),
            d,
        );
    }
    r
}

/// The sum divided by the number of terms.
fn mean(
    sum: Odds,
    count: i64,
    Ghost(terms): Ghost<Seq<int>>,
    Ghost(d): Ghost<int>,
) -> (r: Odds)
    requires
        0 < d,
        0 < count,
        count == terms.len(),
        average_fits(terms, d),
        sum.denotes(sum_to(terms, terms.len() as int), d),
    ensures
        r.denotes(sum_to(terms, terms.len() as int), terms.len() * d),
{
    let divisor = ratio_new(count, 1);
    let ghost s = sum_to(terms, terms.len() as int);
    proof {
        let (dn, dd) = (divisor.numer as int, divisor.denom as int);
        assert(dn == count * dd);
        assert(dn > 0) by (nonlinear_arith)
            requires
                dn == count * dd,
                count > 0,
                dd > 0,
        ;
        assert(same_ratio(dd, dn, 1, count as int)) by {
            assert(dd * count == 1 * dn) by (nonlinear_arith)
                requires
                    dn == count * dd,
            ;
        }
        lemma_same_ratio_mul(
            sum.numer as int,
            sum.denom as int,
            s,
            d,
            dd,
            dn,
            1,
            count as int,
        );
        assert(s * 1 == s);
        assert(d * count == terms.len() * d) by (nonlinear_arith)
            requires
                count == terms.len(),
        ;
        assert(sum.denom * divisor.numer > 0) by (nonlinear_arith)
            requires
                sum.denom > 0,
                divisor.numer > 0,
        ;
        assert(terms.len() * d > 0) by (nonlinear_arith)
            requires
                terms.len() > 0,
                d > 0,
        ;
        assert(same_ratio(
            s,
            terms.len() * d,
            sum.numer * divisor.denom,
            sum.denom * divisor.numer,
        ));
        lemma_representable_same(
            s,
            terms.len() * d,
            sum.numer * divisor.denom,
            sum.denom * divisor.numer,
        );
    }
    let r = ratio_div(sum, divisor);
    proof {
        lemma_same_ratio_trans(
            r.numer as int,
            r.denom as int,
            sum.numer * divisor.denom,
            sum.denom * divisor.numer,
            s,
            terms.len() * d,
        );
    }
    r
}

/// The smaller of two fractions over one denominator.
fn lower(
    p: Odds,
    q: Odds,
    Ghost(x): Ghost<int>,
    Ghost(y): Ghost<int>,
    Ghost(d): Ghost<int>,
) -> (r: Odds)
    requires
        0 < d,
        p.denotes(x, d),
        q.denotes(y, d),
    ensures
        r.denotes(
            if x <= y {
                x
            } else {
                y
            },
            d,
        ),
{
    let r = ratio_min(p, q);
    proof {
        let (pn, pd, qn, qd) = (p.numer as int, p.denom as int, q.numer as int, q.denom as int);
        assert(pn * qd <= qn * pd <==> x <= y) by (nonlinear_arith)
            requires
                0 < d,
                0 < pd,
                0 < qd,
                pn * d == x * pd,
                qn * d == y * qd,
        {
            assert((pn * qd) * d == (x * pd) * qd);
            assert((qn * pd) * d == (y * qd) * pd);
            assert((pn * qd) * d == x * (pd * qd));
            assert((qn * pd) * d == y * (pd * qd));
            assert(pd * qd > 0);
        }
    }
    r
}

/// The number is the average of the chances `ways[k] / d` of the six faces: over the
/// faces, or, with a re-roll, over the pairs of faces with the lower chance of each pair.
pub open spec fn average_chance(r: Odds, ways: Seq<int>, d: int, allow_reroll: bool) -> bool {
    let terms = kept_lower(ways, allow_reroll);
    r.denotes(sum_to(terms, terms.len() as int), terms.len() * d)
}

/// The six chances are `ways[k] / d`.
pub open spec fn chances(probs: Seq<Odds>, ways: Seq<int>, d: int) -> bool {
    &&& 0 < d
    &&& probs.len() == 6
    &&& ways.len() == 6
    &&& forall|k: int| 0 <= k < 6 ==> (#[trigger] probs[k]).denotes(ways[k], d)
}

/// Over a common denominator, the average of the six chances can be computed within 64
/// bits.
pub open spec fn chances_fit(probs: Seq<Odds>, allow_reroll: bool, ways: Seq<int>, d: int) -> bool {
    chances(probs, ways, d) && average_fits(kept_lower(ways, allow_reroll), d)
}

/// Terms over one denominator are in proportion to the same terms over another, and so
/// are their sums.
pub(crate) proof fn lemma_sum_scale(a: Seq<int>, d: int, b: Seq<int>, e: int, k: int)
    requires
        0 <= k <= a.len(),
        a.len() == b.len(),
        forall|i: int| 0 <= i < a.len() ==> same_ratio(#[trigger] a[i], d, b[i], e),
    ensures
        same_ratio(sum_to(a, k), d, sum_to(b, k), e),
    decreases k,
{
    let (s, t) = (sum_to(a, k - 1), sum_to(b, k - 1));
    if k > 0 {
        lemma_sum_scale(a, d, b, e, k - 1);
        let (x, y) = (a[k - 1], b[k - 1]);
        assert(same_ratio(x, d, y, e));
        assert((s + x) * e == (t + y) * d) by (nonlinear_arith)
            requires
                s * e == t * d,
                x * e == y * d,
        ;
    } else {
        assert(0 * e == 0 && 0 * d == 0);
    }
}

/// The average does not depend on the denominator over which the chances are written.
proof fn lemma_average_any(
    r: Odds,
    probs: Seq<Odds>,
    allow_reroll: bool,
    ways: Seq<int>,
    d: int,
    others: Seq<int>,
    e: int,
)
    requires
        chances(probs, ways, d),
        chances(probs, others, e),
        average_chance(r, ways, d, allow_reroll),
    ensures
        average_chance(r, others, e, allow_reroll),
{
    assert forall|k: int| 0 <= k < 6 implies same_ratio(#[trigger] ways[k], d, others[k], e) by {
        let p = probs[k];
        assert(p.denotes(ways[k], d) && p.denotes(others[k], e));
        assert(same_ratio(ways[k], d, p.numer as int, p.denom as int));
        lemma_same_ratio_trans(ways[k], d, p.numer as int, p.denom as int, others[k], e);
    }
    let (a, b) = (kept_lower(ways, allow_reroll), kept_lower(others, allow_reroll));
    let n = a.len() as int;
    if allow_reroll {
        assert forall|k: int| 0 <= k < 36 implies same_ratio(#[trigger] a[k], d, b[k], e) by {
            let (x, y, u, v) = (ways[k / 6], ways[k % 6], others[k / 6], others[k % 6]);
            assert(same_ratio(x, d, u, e) && same_ratio(y, d, v, e));
            assert(x <= y <==> u <= v) by (nonlinear_arith)
                requires
                    0 < d,
                    0 < e,
                    x * e == u * d,
                    y * e == v * d,
            ;
        }
    }
    lemma_sum_scale(a, d, b, e, n);
    let (s, t) = (sum_to(a, n), sum_to(b, n));
    assert(same_ratio(s, n * d, t, n * e)) by {
        assert(s * (n * e) == t * (n * d)) by (nonlinear_arith)
            requires
                s * e == t * d,
        ;
    }
    assert(0 < n * d && 0 < n * e) by (nonlinear_arith)
        requires
            0 < n,
            0 < d,
            0 < e,
    ;
    lemma_same_ratio_trans(r.numer as int, r.denom as int, s, n * d, t, n * e);
}

/// The average of the six breakout chances: over the six faces of the finisher's die,
/// or, with a re-roll, over the pairs of faces with the lower chance of each pair.
pub fn average_breakout(probs: &Vec<Odds>, allow_reroll: bool) -> (r: Odds)
    requires
        exists|ways: Seq<int>, d: int| chances_fit(probs@, allow_reroll, ways, d),
    ensures
        forall|ways: Seq<int>, d: int| #[trigger]
            chances(probs@, ways, d) ==> average_chance(r, ways, d, allow_reroll),
{
    let ghost (ways, d) = choose|ways: Seq<int>, d: int|
        chances_fit(probs@, allow_reroll, ways, d);
    let ghost terms = kept_lower(ways, allow_reroll);
    let mut total = impossible();
    if !allow_reroll {
        let mut k: usize = 0;
        while k < 6
            invariant
                k <= 6,
                0 < d,
                probs.len() == 6,
                terms == ways,
                ways.len() == 6,
                forall|k: int| 0 <= k < 6 ==> (#[trigger] probs@[k]).denotes(ways[k], d),
                average_fits(terms, d),
                total.denotes(sum_to(terms, k as int), d),
            decreases 6 - k,
        {
            total = sum_step(total, probs[k], Ghost(terms), Ghost(d), Ghost(k as int));
            k = k + 1;
        }
        let r = mean(total, 6, Ghost(terms), Ghost(d));
        proof {
            assert forall|others: Seq<int>, e: int| #[trigger]
                chances(probs@, others, e) implies average_chance(r, others, e, allow_reroll) by {
                lemma_average_any(r, probs@, allow_reroll, ways, d, others, e);
            }
        }
        return r;
    }
    let mut i: usize = 0;
    while i < 6
        invariant
            i <= 6,
            0 < d,
            probs.len() == 6,
            allow_reroll,
            terms == kept_lower(ways, allow_reroll),
            ways.len() == 6,
            forall|k: int| 0 <= k < 6 ==> (#[trigger] probs@[k]).denotes(ways[k], d),
            average_fits(terms, d),
            total.denotes(sum_to(terms, 6 * i), d),
        decreases 6 - i,
    {
        let mut j: usize = 0;
        while j < 6
            invariant
                i < 6,
                j <= 6,
                0 < d,
                probs.len() == 6,
                allow_reroll,
                terms == kept_lower(ways, allow_reroll),
                ways.len() == 6,
                forall|k: int| 0 <= k < 6 ==> (#[trigger] probs@[k]).denotes(ways[k], d),
                average_fits(terms, d),
                total.denotes(sum_to(terms, 6 * i + j), d),
            decreases 6 - j,
        {
            let kept = lower(
                probs[i],
                probs[j],
                Ghost(ways[i as int]),
                Ghost(ways[j as int]),
                Ghost(d),
            );
            assert((6 * i + j) / 6 == i && (6 * i + j) % 6 == j);
            total = sum_step(total, kept, Ghost(terms), Ghost(d), Ghost(6 * i + j));
            j = j + 1;
        }
        i = i + 1;
    }
    let r = mean(total, 36, Ghost(terms), Ghost(d));
    proof {
        assert forall|others: Seq<int>, e: int| #[trigger]
            chances(probs@, others, e) implies average_chance(r, others, e, allow_reroll) by {
            lemma_average_any(r, probs@, allow_reroll, ways, d, others, e);
        }
    }
    r
}

/// What [`finish_odds`] is asked about.
///
/// `finish_bonus` and `opponent_modifiers` are blocks of changes, all zero by default.
/// `breakout_penalties` lists, per attempt, what is taken off the opponent's stats: a
/// positive number hurts the opponent, so `[0, 1, 1]` is "-1 to their 2nd and 3rd
/// breakout rolls".
#[derive(Debug, Clone)]
pub struct FinishParams {
    pub finisher: Skills,
    pub defender: Skills,
    pub finish_bonus: Skills,
    pub crowd_meter: i64,
    pub breakout_attempts: u32,
    pub breakout_penalties: Vec<i64>,
    pub opponent_modifiers: Skills,
    pub allow_reroll: bool,
}

impl Default for FinishParams {
    /// Two all-zero competitors at Crowd Meter 0, three breakout attempts, and no bonus,
    /// penalty or re-roll.
    fn default() -> (p: FinishParams)
        ensures
            p.finisher.is_zero(),
            p.defender.is_zero(),
            p.plain(),
            p.finisher == (Skills {
                power: 0,
                agility: 0,
                technique: 0,
                submission: 0,
                grapple: 0,
                strike: 0,
            }),
            p.defender == p.finisher,
            p.finish_bonus == p.finisher,
            p.opponent_modifiers == p.finisher,
            p.crowd_meter == 0,
            p.breakout_attempts == 3,
            p.breakout_penalties@.len() == 0,
            !p.allow_reroll,
    {
        FinishParams {
            finisher: Skills::default(),
            defender: Skills::default(),
            finish_bonus: Skills::default(),
            crowd_meter: 0,
            breakout_attempts: 3,
            breakout_penalties: Vec::new(),
            opponent_modifiers: Skills::default(),
            allow_reroll: false,
        }
    }
}

impl FinishParams {
    /// Everything but the two competitors is at its default.
    pub open spec fn plain(self) -> bool {
        &&& self.finish_bonus.is_zero()
        &&& self.crowd_meter == 0
        &&& self.breakout_attempts == 3
        &&& self.breakout_penalties@ == Seq::<i64>::empty()
        &&& self.opponent_modifiers.is_zero()
        &&& !self.allow_reroll
    }

    /// A finish of `finisher` against `defender` with everything else at its default.
    pub fn new(finisher: Skills, defender: Skills) -> (p: FinishParams)
        ensures
            p.finisher == finisher,
            p.defender == defender,
            p.plain(),
            p.finish_bonus == (Skills {
                power: 0,
                agility: 0,
                technique: 0,
                submission: 0,
                grapple: 0,
                strike: 0,
            }),
            p.opponent_modifiers == (Skills {
                power: 0,
                agility: 0,
                technique: 0,
                submission: 0,
                grapple: 0,
                strike: 0,
            }),
            p.crowd_meter == 0,
            p.breakout_attempts == 3,
            p.breakout_penalties@.len() == 0,
            !p.allow_reroll,
    {
        let mut p = FinishParams::default();
        p.finisher = finisher;
        p.defender = defender;
        p
    }

    /// The finish value on one face of the finisher's die.
    pub open spec fn face_value(self, s: Skill) -> int {
        self.finisher.at(s) + self.finish_bonus.at(s) + self.crowd_meter
    }

    /// The defender's stats with the modifiers on them.
    pub open spec fn opposition(self) -> Skills {
        Skills {
            power: (self.defender.power + self.opponent_modifiers.power) as i64,
            agility: (self.defender.agility + self.opponent_modifiers.agility) as i64,
            technique: (self.defender.technique + self.opponent_modifiers.technique) as i64,
            submission: (self.defender.submission + self.opponent_modifiers.submission) as i64,
            grapple: (self.defender.grapple + self.opponent_modifiers.grapple) as i64,
            strike: (self.defender.strike + self.opponent_modifiers.strike) as i64,
        }
    }

    /// How many ways the breakout rolls against one face of the finisher's die can fall
    /// with the defender staying down.
    pub open spec fn face_holds(self, s: Skill) -> int {
        hold_ways(
            self.opposition(),
            self.face_value(s),
            self.crowd_meter as int,
            self.breakout_penalties@,
            self.breakout_attempts as int,
        )
    }

    /// How many ways the breakout rolls can fall.
    pub open spec fn rolls(self) -> int {
        roll_ways(self.breakout_attempts as int)
    }

    /// For each way to roll the finisher's die, how many ways the breakout rolls can
    /// fall with the defender staying down. With a re-roll the die is rolled twice, and
    /// the finisher keeps the better face of the two.
    pub open spec fn holds(self) -> Seq<int> {
        if self.allow_reroll {
            Seq::new(
                36,
                |k: int|
                    if self.face_holds(Skill::ALL@[k / 6]) >= self.face_holds(Skill::ALL@[k % 6]) {
                        self.face_holds(Skill::ALL@[k / 6])
                    } else {
                        self.face_holds(Skill::ALL@[k % 6])
                    },
            )
        } else {
            Seq::new(6, |k: int| self.face_holds(Skill::ALL@[k]))
        }
    }

    /// The number of ways all dice can fall with the finish succeeding.
    pub open spec fn favourable(self) -> int {
        sum_to(self.holds(), self.holds().len() as int)
    }

    /// The number of ways all dice can fall.
    pub open spec fn outcomes(self) -> int {
        self.holds().len() * self.rolls()
    }

    /// The finish values and the modified stats are 64-bit integers.
    pub open spec fn stats_fit(self) -> bool {
        forall|s: Skill| #![trigger self.finisher.at(s)] #![trigger self.defender.at(s)]
            {
                &&& i64::MIN <= self.finisher.at(s) + self.finish_bonus.at(s) <= i64::MAX
                &&& i64::MIN <= self.face_value(s) <= i64::MAX
                &&& i64::MIN <= self.defender.at(s) + self.opponent_modifiers.at(s) <= i64::MAX
            }
    }

    /// The whole computation stays within 64 bits.
    pub open spec fn fits(self) -> bool {
        &&& self.stats_fit()
        &&& forall|s: Skill|
            face_fits(
                self.opposition(),
                #[trigger] self.face_value(s),
                self.crowd_meter as int,
                self.breakout_penalties@,
                self.breakout_attempts as int,
            )
        &&& average_fits(
            Seq::new(self.holds().len(), |k: int| self.rolls() - self.holds()[k]),
            self.rolls(),
        )
    }
}

/// The exact probability that the finisher succeeds, that is, that the opponent fails
/// to break out: of all the ways in which the finisher's die and the breakout rolls can
/// fall, the share in which the defender stays down.
///
/// The finish value on a face is the finisher's stat plus the bonus for that skill plus
/// the Crowd Meter, without a cap.
pub fn finish_odds(p: &FinishParams) -> (odds: Odds)
    requires
        p.fits(),
    ensures
        odds.denotes(p.favourable(), p.outcomes()),
        0 <= odds.numer <= odds.denom,
{
    let mut opp = Skills::default();
    let mut k: usize = 0;
    while k < 6
        invariant
            k <= 6,
            p.fits(),
            forall|j: int|
                0 <= j < k ==> opp.at(#[trigger] Skill::ALL@[j]) == p.defender.at(Skill::ALL@[j])
                    + p.opponent_modifiers.at(Skill::ALL@[j]),
        decreases 6 - k,
    {
        let s = Skill::ALL[k];
        assert(s == Skill::ALL@[k as int]);
        opp = opp.with(s, p.defender.get(s) + p.opponent_modifiers.get(s));
        k = k + 1;
    }
    proof {
        assert(opp == p.opposition()) by {
            assert(Skill::ALL@[0] == Skill::Power);
            assert(Skill::ALL@[1] == Skill::Agility);
            assert(Skill::ALL@[2] == Skill::Technique);
            assert(Skill::ALL@[3] == Skill::Submission);
            assert(Skill::ALL@[4] == Skill::Grapple);
            assert(Skill::ALL@[5] == Skill::Strike);
        }
    }
    let ghost ways = Seq::new(6, |k: int| p.rolls() - p.face_holds(Skill::ALL@[k]));
    let mut probs: Vec<Odds> = Vec::new();
    let mut k: usize = 0;
    while k < 6
        invariant
            k <= 6,
            p.fits(),
            opp == p.opposition(),
            probs.len() == k,
            ways == Seq::new(6, |k: int| p.rolls() - p.face_holds(Skill::ALL@[k])),
            forall|j: int| 0 <= j < k ==> (#[trigger] probs@[j]).denotes(ways[j], p.rolls()),
        decreases 6 - k,
    {
        let s = Skill::ALL[k];
        let finish_value = p.finisher.get(s) + p.finish_bonus.get(s) + p.crowd_meter;
        assert(finish_value == p.face_value(s));
        let prob = breakout_prob_for_finish(
            finish_value,
            &opp,
            p.breakout_attempts,
            p.crowd_meter,
            &p.breakout_penalties,
        );
        probs.push(prob);
        k = k + 1;
    }
    let ghost terms = kept_lower(ways, p.allow_reroll);
    let ghost d = p.rolls();
    proof {
        lemma_roll_ways_positive(p.breakout_attempts as int);
        assert(terms =~= Seq::new(p.holds().len(), |k: int| p.rolls() - p.holds()[k]));
        assert(chances_fit(probs@, p.allow_reroll, ways, d));
    }
    let breakout = average_breakout(&probs, p.allow_reroll);
    proof {
        assert(average_chance(breakout, ways, d, p.allow_reroll));
        lemma_sum_complement(p.holds(), terms, d, terms.len() as int);
        lemma_favourable_range(*p);
        assert(terms.len() * d > 0) by (nonlinear_arith)
            requires
                terms.len() > 0,
                d > 0,
        ;
    }
    let odds = complement(
        breakout,
        Ghost(sum_to(terms, terms.len() as int)),
        Ghost(terms.len() * d),
    );
    proof {
        let (n, q, f, o) = (odds.numer as int, odds.denom as int, p.favourable(), p.outcomes());
        assert(n <= q) by (nonlinear_arith)
            requires
                n * o == f * q,
                f <= o,
                0 < o,
                0 < q,
        ;
    }
    odds
}

/// Sums of complements are complements of sums.
pub(crate) proof fn lemma_sum_complement(a: Seq<int>, b: Seq<int>, d: int, k: int)
    requires
        0 <= k <= a.len(),
        a.len() == b.len(),
        forall|i: int| 0 <= i < a.len() ==> #[trigger] b[i] == d - a[i],
    ensures
        sum_to(b, k) == k * d - sum_to(a, k),
    decreases k,
{
    if k > 0 {
        lemma_sum_complement(a, b, d, k - 1);
        assert(k * d == (k - 1) * d + d) by (nonlinear_arith);
    } else {
        assert(k * d == 0) by (nonlinear_arith)
            requires
                k == 0,
        ;
    }
}

/// Sums of numbers between zero and `d`.
pub(crate) proof fn lemma_sum_range(terms: Seq<int>, d: int, k: int)
    requires
        0 <= k <= terms.len(),
        forall|i: int| 0 <= i < terms.len() ==> 0 <= #[trigger] terms[i] <= d,
    ensures
        0 <= sum_to(terms, k) <= k * d,
    decreases k,
{
    if k > 0 {
        lemma_sum_range(terms, d, k - 1);
        assert(k * d == (k - 1) * d + d) by (nonlinear_arith);
    } else {
        assert(k * d == 0) by (nonlinear_arith)
            requires
                k == 0,
        ;
    }
}

/// The favourable outcomes are some of the outcomes.
pub(crate) proof fn lemma_favourable_range(p: FinishParams)
    ensures
        0 <= p.favourable() <= p.outcomes(),
        forall|k: int| 0 <= k < p.holds().len() ==> 0 <= #[trigger] p.holds()[k] <= p.rolls(),
{
    assert forall|s: Skill| 0 <= #[trigger] p.face_holds(s) <= p.rolls() by {
        lemma_roll_ways_positive(p.breakout_attempts as int);
        lemma_fail_ways_range(
            p.opposition(),
            p.face_value(s),
            p.crowd_meter as int,
            p.breakout_penalties@,
            p.breakout_attempts as int,
        );
    }
    lemma_sum_range(p.holds(), p.rolls(), p.holds().len() as int);
}

} // verus!
