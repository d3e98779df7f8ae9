//! What holds of finish odds as a whole.
//!
//! The odds of a finish are `favourable() / outcomes()`; a law that compares two
//! finishes is stated over those two counts.

use crate::face_laws::{
    at_most, lemma_hold_ways_le, lemma_hold_ways_same, lemma_hold_ways_step,
};
use crate::finish::{
    average_fits, breakout_face, breakout_faces, breakout_faces_to, face_fits, fail_ways,
    lemma_fail_ways_range, lemma_favourable_range, lemma_roll_ways_positive, lemma_sum_range,
    penalty_at, penalty_fits, roll_ways, sum_to, unbreakable, FinishParams,
};
use crate::ir::Skill;
use crate::ratio::{addable, over_common, representable, same_ratio, Odds};
use crate::skills::Skills;
use vstd::prelude::*;

verus! {

/// The odds of `p` are at most the odds of `q`.
pub open spec fn odds_at_most(p: FinishParams, q: FinishParams) -> bool {
    p.favourable() * q.outcomes() <= q.favourable() * p.outcomes()
}

/// Where the odds of one finish are at most those of another, so are the fractions that
/// are computed for them.
pub proof fn law_computed_odds_compare(p: FinishParams, q: FinishParams, a: Odds, b: Odds)
    requires
        a.denotes(p.favourable(), p.outcomes()),
        b.denotes(q.favourable(), q.outcomes()),
        odds_at_most(p, q),
    ensures
        at_most(a, b),
{
    lemma_outcomes_positive(p);
    lemma_outcomes_positive(q);
    let (an, ad, bn, bd) = (a.numer as int, a.denom as int, b.numer as int, b.denom as int);
    let (pf, po, qf, qo) = (p.favourable(), p.outcomes(), q.favourable(), q.outcomes());
    assert(an * bd <= bn * ad) by (nonlinear_arith)
        requires
            0 < po,
            0 < qo,
            0 < ad,
            0 < bd,
            an * po == pf * ad,
            bn * qo == qf * bd,
            pf * qo <= qf * po,
    {
        assert((an * bd) * (po * qo) == (an * po) * (bd * qo));
        assert((bn * ad) * (po * qo) == (bn * qo) * (ad * po));
        assert((pf * ad) * (bd * qo) == (pf * qo) * (ad * bd));
        assert((qf * bd) * (ad * po) == (qf * po) * (ad * bd));
        assert((pf * qo) * (ad * bd) <= (qf * po) * (ad * bd)) by {
            assert(0 < ad * bd);
        }
        assert(0 < po * qo);
    }
}

/// All dice fall in at least one way.
pub(crate) proof fn lemma_outcomes_positive(p: FinishParams)
    ensures
        0 < p.outcomes(),
{
    lemma_roll_ways_positive(p.breakout_attempts as int);
    assert(0 < p.holds().len() * p.rolls()) by (nonlinear_arith)
        requires
            0 < p.holds().len(),
            0 < p.rolls(),
    ;
}

/// Six to the power of 24 is a 64-bit integer, and six to the power of 25 is not.
pub(crate) proof fn lemma_roll_ways_bound(n: int)
    requires
        n <= 24,
    ensures
        0 < roll_ways(n) <= 4738381338321616896,
    decreases 24 - n,
{
    lemma_roll_ways_positive(n);
    if n == 24 {
        reveal_with_fuel(roll_ways, 25);
    } else {
        lemma_roll_ways_bound(n + 1);
    }
}

/// The modified stats of the defender.
pub(crate) proof fn lemma_opposition(p: FinishParams)
    requires
        p.stats_fit(),
    ensures
        forall|s: Skill| #[trigger]
            p.opposition().at(s) == p.defender.at(s) + p.opponent_modifiers.at(s),
{
    assert forall|s: Skill| #[trigger] p.opposition().at(s) == p.defender.at(s)
        + p.opponent_modifiers.at(s) by {
        assert(i64::MIN <= p.defender.at(s) + p.opponent_modifiers.at(s) <= i64::MAX);
    }
}

/// Up to 22 breakout attempts, a finish whose values and penalised stats are 64-bit
/// integers can be computed.
pub proof fn law_small_finishes_fit(p: FinishParams)
    requires
        p.stats_fit(),
        p.breakout_attempts <= 22,
        forall|i: int, s: Skill|
            0 <= i < p.breakout_attempts ==> penalty_fits(
                #[trigger] p.defender.at(s) + p.opponent_modifiers.at(s),
                #[trigger] penalty_at(p.breakout_penalties@, i),
                p.crowd_meter as int,
            ),
    ensures
        p.fits(),
{
    let n = p.breakout_attempts as int;
    lemma_opposition(p);
    let w = p.rolls();
    lemma_roll_ways_bound(n + 2);
    assert(roll_ways(n + 2) == 6 * roll_ways(n + 1));
    assert(roll_ways(n + 1) == 6 * roll_ways(n));
    lemma_roll_ways_positive(n);
    assert forall|s: Skill|
        face_fits(
            p.opposition(),
            #[trigger] p.face_value(s),
            p.crowd_meter as int,
            p.breakout_penalties@,
            n,
        ) by {
        let (opp, value, cm, pens) = (
            p.opposition(),
            p.face_value(s),
            p.crowd_meter as int,
            p.breakout_penalties@,
        );
        assert forall|k: int| 0 <= k <= n implies #[trigger] representable(
            fail_ways(opp, value, cm, pens, k),
            roll_ways(k),
        ) by {
            lemma_fail_ways_range(opp, value, cm, pens, k);
            lemma_roll_ways_bound(k);
            assert(same_ratio(
                fail_ways(opp, value, cm, pens, k),
                roll_ways(k),
                fail_ways(opp, value, cm, pens, k),
                roll_ways(k),
            ));
        }
    }
    let terms = Seq::new(p.holds().len(), |k: int| p.rolls() - p.holds()[k]);
    lemma_favourable_range(p);
    assert forall|k: int| 0 <= k < terms.len() implies 0 <= #[trigger] terms[k] <= w by {
        assert(0 <= p.holds()[k] <= w);
    }
    assert forall|k: int| 0 <= k < terms.len() implies #[trigger] addable(
        sum_to(terms, k),
        w,
        terms[k],
        w,
    ) by {
        lemma_sum_range(terms, w, k);
        assert(k * w + w <= 36 * w) by (nonlinear_arith)
            requires
                k < 36,
                0 < w,
        ;
        assert(over_common(sum_to(terms, k), w, terms[k], w, w, sum_to(terms, k), terms[k]));
    }
    let len = terms.len() as int;
    lemma_sum_range(terms, w, len);
    assert(0 < len * w <= 36 * w) by (nonlinear_arith)
        requires
            0 < len <= 36,
            0 < w,
    ;
    assert(same_ratio(sum_to(terms, len), len * w, sum_to(terms, len), len * w));
    assert(average_fits(terms, w));
}

/// Sums of greater terms are greater.
proof fn lemma_sum_le(a: Seq<int>, b: Seq<int>, k: int)
    requires
        0 <= k <= a.len(),
        a.len() == b.len(),
        forall|i: int| 0 <= i < a.len() ==> #[trigger] a[i] <= b[i],
    ensures
        sum_to(a, k) <= sum_to(b, k),
    decreases k,
{
    if k > 0 {
        lemma_sum_le(a, b, k - 1);
    }
}

/// Two finishes with the same dice: where each face of one holds at least as often, so
/// does the whole of it.
proof fn lemma_holds_le(p: FinishParams, q: FinishParams)
    requires
        p.breakout_attempts == q.breakout_attempts,
        p.allow_reroll == q.allow_reroll,
        forall|s: Skill| #[trigger] p.face_holds(s) <= q.face_holds(s),
    ensures
        p.favourable() <= q.favourable(),
        p.outcomes() == q.outcomes(),
        odds_at_most(p, q),
{
    lemma_sum_le(p.holds(), q.holds(), p.holds().len() as int);
    lemma_roll_ways_positive(p.breakout_attempts as int);
    let (f, g, o) = (p.favourable(), q.favourable(), p.outcomes());
    assert(0 <= o) by (nonlinear_arith)
        requires
            o == p.holds().len() * p.rolls(),
            p.rolls() > 0,
    ;
    assert(f * o <= g * o) by (nonlinear_arith)
        requires
            f <= g,
            0 <= o,
    ;
}

/// Two finishes with the same dice, of which the second is nowhere the easier one to
/// break out of.
proof fn lemma_harder_finish(p: FinishParams, q: FinishParams)
    requires
        p.breakout_attempts == q.breakout_attempts,
        p.allow_reroll == q.allow_reroll,
        forall|s: Skill| #[trigger] q.opposition().at(s) <= p.opposition().at(s),
        p.opposition() == q.opposition() || p.crowd_meter != 0,
        forall|s: Skill| #[trigger] p.face_value(s) <= q.face_value(s),
        p.crowd_meter == q.crowd_meter || 0 <= p.crowd_meter <= q.crowd_meter,
        forall|i: int| #[trigger]
            penalty_at(p.breakout_penalties@, i) <= penalty_at(q.breakout_penalties@, i),
    ensures
        odds_at_most(p, q),
{
    assert forall|s: Skill| #[trigger] p.face_holds(s) <= q.face_holds(s) by {
        assert(p.face_value(s) <= q.face_value(s));
        lemma_hold_ways_le(
            p.opposition(),
            p.face_value(s),
            p.crowd_meter as int,
            p.breakout_penalties@,
            q.opposition(),
            q.face_value(s),
            q.crowd_meter as int,
            q.breakout_penalties@,
            p.breakout_attempts as int,
        );
    }
    lemma_holds_le(p, q);
}

/// Higher penalties on the breakout rolls never lower the odds.
pub proof fn law_penalties_help_the_finisher(p: FinishParams, penalties: Vec<i64>)
    requires
        forall|i: int| #[trigger]
            penalty_at(p.breakout_penalties@, i) <= penalty_at(penalties@, i),
    ensures
        odds_at_most(p, FinishParams { breakout_penalties: penalties, ..p }),
{
    lemma_harder_finish(p, FinishParams { breakout_penalties: penalties, ..p });
}

/// Only the penalties on the attempts that are made count, and one that is not listed
/// is no penalty.
pub proof fn law_unlisted_penalties_are_zero(p: FinishParams, penalties: Vec<i64>)
    requires
        forall|i: int|
            0 <= i < p.breakout_attempts ==> #[trigger] penalty_at(p.breakout_penalties@, i)
                == penalty_at(penalties@, i),
    ensures
        p.favourable() == (FinishParams { breakout_penalties: penalties, ..p }).favourable(),
        p.outcomes() == (FinishParams { breakout_penalties: penalties, ..p }).outcomes(),
{
    let q = FinishParams { breakout_penalties: penalties, ..p };
    assert forall|s: Skill| #[trigger] p.face_holds(s) == q.face_holds(s) by {
        assert(q.face_value(s) == p.face_value(s));
        assert(q.opposition() == p.opposition());
        lemma_hold_ways_same(
            p.opposition(),
            p.face_value(s),
            p.crowd_meter as int,
            p.breakout_penalties@,
            penalties@,
            p.breakout_attempts as int,
        );
    }
    assert(p.holds() =~= q.holds());
}

/// Higher finish bonuses never lower the odds.
pub proof fn law_bonuses_help_the_finisher(p: FinishParams, finish_bonus: Skills)
    requires
        forall|s: Skill| #[trigger] p.finish_bonus.at(s) <= finish_bonus.at(s),
    ensures
        odds_at_most(p, FinishParams { finish_bonus, ..p }),
{
    let q = FinishParams { finish_bonus, ..p };
    assert forall|s: Skill| #[trigger] p.face_value(s) <= q.face_value(s) by {
        assert(p.finish_bonus.at(s) <= finish_bonus.at(s));
    }
    lemma_harder_finish(p, q);
}

/// Higher stats of the finisher never lower the odds.
pub proof fn law_finisher_stats_help_the_finisher(p: FinishParams, finisher: Skills)
    requires
        forall|s: Skill| #[trigger] p.finisher.at(s) <= finisher.at(s),
    ensures
        odds_at_most(p, FinishParams { finisher, ..p }),
{
    let q = FinishParams { finisher, ..p };
    assert forall|s: Skill| #[trigger] p.face_value(s) <= q.face_value(s) by {
        assert(p.finisher.at(s) <= finisher.at(s));
    }
    lemma_harder_finish(p, q);
}

/// Away from Crowd Meter 0, where a raw 10 counts for more than a higher stat, higher
/// stats of the defender never raise the odds.
pub proof fn law_defender_stats_help_the_defender(p: FinishParams, defender: Skills)
    requires
        p.crowd_meter != 0,
        p.stats_fit(),
        (FinishParams { defender, ..p }).stats_fit(),
        forall|s: Skill| #[trigger] p.defender.at(s) <= defender.at(s),
    ensures
        odds_at_most(FinishParams { defender, ..p }, p),
{
    let q = FinishParams { defender, ..p };
    lemma_opposition(p);
    lemma_opposition(q);
    assert forall|s: Skill| #[trigger] p.opposition().at(s) <= q.opposition().at(s) by {
        assert(p.defender.at(s) <= defender.at(s));
    }
    assert forall|s: Skill| #[trigger] q.face_value(s) <= p.face_value(s) by {}
    lemma_harder_finish(q, p);
}

/// From zero up, a higher Crowd Meter never lowers the odds.
pub proof fn law_crowd_helps_the_finisher(p: FinishParams, crowd_meter: i64)
    requires
        0 <= p.crowd_meter <= crowd_meter,
    ensures
        odds_at_most(p, FinishParams { crowd_meter, ..p }),
{
    lemma_harder_finish(p, FinishParams { crowd_meter, ..p });
}

/// Sums of terms that are at most six times others.
proof fn lemma_sum_le_six(a: Seq<int>, b: Seq<int>, k: int)
    requires
        0 <= k <= a.len(),
        a.len() == b.len(),
        forall|i: int| 0 <= i < a.len() ==> #[trigger] a[i] <= 6 * b[i],
    ensures
        sum_to(a, k) <= 6 * sum_to(b, k),
    decreases k,
{
    if k > 0 {
        lemma_sum_le_six(a, b, k - 1);
    }
}

/// One more breakout attempt never raises the odds.
pub proof fn law_attempts_help_the_defender(p: FinishParams)
    requires
        p.breakout_attempts < u32::MAX,
    ensures
        odds_at_most(
            FinishParams { breakout_attempts: (p.breakout_attempts + 1) as u32, ..p },
            p,
        ),
{
    let q = FinishParams { breakout_attempts: (p.breakout_attempts + 1) as u32, ..p };
    let n = p.breakout_attempts as int;
    assert forall|s: Skill| #[trigger] q.face_holds(s) <= 6 * p.face_holds(s) by {
        let (opp, v, cm, pens) = (
            p.opposition(),
            p.face_value(s),
            p.crowd_meter as int,
            p.breakout_penalties@,
        );
        assert(q.face_value(s) == v);
        assert(q.opposition() == opp);
        lemma_hold_ways_step(opp, v, cm, pens, n);
    }
    lemma_sum_le_six(q.holds(), p.holds(), p.holds().len() as int);
    lemma_roll_ways_positive(n);
    assert(q.rolls() == 6 * p.rolls());
    let (f, g, len, w) = (q.favourable(), p.favourable(), p.holds().len() as int, p.rolls());
    assert(f * (len * w) <= g * (len * (6 * w))) by (nonlinear_arith)
        requires
            f <= 6 * g,
            0 <= len,
            0 < w,
    {
        assert(0 <= len * w);
        assert(g * (len * (6 * w)) == (6 * g) * (len * w));
    }
}

/// Six rows of six: each kept face is at least the first of its pair.
proof fn lemma_pairs_cover(h: Seq<int>, pairs: Seq<int>, i: int)
    requires
        0 <= i <= 6,
        h.len() == 6,
        pairs.len() == 36,
        forall|k: int| 0 <= k < 36 ==> h[k / 6] <= #[trigger] pairs[k],
    ensures
        6 * sum_to(h, i) <= sum_to(pairs, 6 * i),
    decreases i,
{
    if i > 0 {
        lemma_pairs_cover(h, pairs, i - 1);
        let b = 6 * (i - 1);
        assert(b / 6 == i - 1 && (b + 1) / 6 == i - 1 && (b + 2) / 6 == i - 1 && (b + 3) / 6 == i
            - 1 && (b + 4) / 6 == i - 1 && (b + 5) / 6 == i - 1);
        assert(h[i - 1] <= pairs[b]);
        assert(h[i - 1] <= pairs[b + 1]);
        assert(h[i - 1] <= pairs[b + 2]);
        assert(h[i - 1] <= pairs[b + 3]);
        assert(h[i - 1] <= pairs[b + 4]);
        assert(h[i - 1] <= pairs[b + 5]);
        assert(sum_to(pairs, b + 1) == sum_to(pairs, b) + pairs[b]);
        assert(sum_to(pairs, b + 2) == sum_to(pairs, b + 1) + pairs[b + 1]);
        assert(sum_to(pairs, b + 3) == sum_to(pairs, b + 2) + pairs[b + 2]);
        assert(sum_to(pairs, b + 4) == sum_to(pairs, b + 3) + pairs[b + 3]);
        assert(sum_to(pairs, b + 5) == sum_to(pairs, b + 4) + pairs[b + 4]);
        assert(sum_to(pairs, b + 6) == sum_to(pairs, b + 5) + pairs[b + 5]);
    }
}

/// A re-roll never lowers the odds.
pub proof fn law_reroll_helps_the_finisher(p: FinishParams)
    ensures
        odds_at_most(
            FinishParams { allow_reroll: false, ..p },
            FinishParams { allow_reroll: true, ..p },
        ),
{
    let a = FinishParams { allow_reroll: false, ..p };
    let b = FinishParams { allow_reroll: true, ..p };
    assert forall|s: Skill| #[trigger] a.face_holds(s) == b.face_holds(s) by {
        assert(a.opposition() == b.opposition());
        assert(a.face_value(s) == b.face_value(s));
    }
    assert forall|k: int| 0 <= k < 36 implies a.holds()[k / 6] <= #[trigger] b.holds()[k] by {
        assert(a.holds()[k / 6] == a.face_holds(Skill::ALL@[k / 6]));
        assert(a.face_holds(Skill::ALL@[k / 6]) == b.face_holds(Skill::ALL@[k / 6]));
    }
    lemma_pairs_cover(a.holds(), b.holds(), 6);
    lemma_roll_ways_positive(p.breakout_attempts as int);
    let (f, g, w) = (a.favourable(), b.favourable(), p.rolls());
    assert(f * (36 * w) <= g * (6 * w)) by (nonlinear_arith)
        requires
            6 * f <= g,
            0 < w,
    {
        assert(f * (36 * w) == (6 * f) * (6 * w));
    }
}

/// All terms alike.
proof fn lemma_sum_all(terms: Seq<int>, d: int, k: int)
    requires
        0 <= k <= terms.len(),
        forall|i: int| 0 <= i < terms.len() ==> #[trigger] terms[i] == d,
    ensures
        sum_to(terms, k) == k * d,
    decreases k,
{
    if k > 0 {
        lemma_sum_all(terms, d, k - 1);
        assert(k * d == (k - 1) * d + d) by (nonlinear_arith);
    } else {
        assert(k * d == 0) by (nonlinear_arith)
            requires
                k == 0,
        ;
    }
}

/// A finish with the Crowd Meter above zero and every face at 11 or more succeeds for
/// certain.
pub proof fn law_unbreakable_is_certain(p: FinishParams)
    requires
        forall|s: Skill| unbreakable(#[trigger] p.face_value(s), p.crowd_meter as int),
    ensures
        p.favourable() == p.outcomes(),
{
    assert forall|k: int| 0 <= k < p.holds().len() implies #[trigger] p.holds()[k] == p.rolls() by {
        assert(forall|s: Skill| #[trigger] p.face_holds(s) == p.rolls()) by {
            assert(forall|s: Skill| unbreakable(#[trigger] p.face_value(s), p.crowd_meter as int));
        }
    }
    lemma_sum_all(p.holds(), p.rolls(), p.holds().len() as int);
}

/// Without breakout attempts the finish succeeds for certain.
pub proof fn law_no_attempts_is_certain(p: FinishParams)
    requires
        p.breakout_attempts == 0,
    ensures
        p.favourable() == p.outcomes(),
{
    assert(forall|s: Skill| #[trigger] p.face_holds(s) == 1);
    lemma_sum_all(p.holds(), 1, p.holds().len() as int);
}

/// At Crowd Meter 0 a defender with a raw 10 has a face that breaks out of any finish,
/// whatever the penalty.
pub proof fn law_raw_ten_breaks_out(opp: Skills, skill: Skill, finish_value: int, penalty: int)
    requires
        opp.at(skill) == 10,
    ensures
        breakout_faces(opp, finish_value, penalty, 0) >= 1,
{
    reveal_with_fuel(breakout_faces_to, 7);
    assert(breakout_face(opp, skill, finish_value, penalty, 0) == 1);
    match skill {
        Skill::Power => assert(skill == Skill::ALL@[0]),
        Skill::Agility => assert(skill == Skill::ALL@[1]),
        Skill::Technique => assert(skill == Skill::ALL@[2]),
        Skill::Submission => assert(skill == Skill::ALL@[3]),
        Skill::Grapple => assert(skill == Skill::ALL@[4]),
        Skill::Strike => assert(skill == Skill::ALL@[5]),
    }
}

} // verus!
