//! The rules of a finish, from the dice up: what the odds come to in terms of the numbers
//! that go in.

use crate::finish::{
    average_chance, average_fits, breakout_chance, breakout_faces, breakout_faces_to,
    breaks_out, chances, chances_fit, face_fits, fail_ways, hold_ways, kept_lower,
    lemma_fail_ways_range, lemma_roll_ways_positive, lemma_sum_complement, lemma_sum_range,
    lemma_sum_scale, penalty_at, penalty_fits, roll_ways, sum_to, unbreakable, FinishParams,
};
use crate::face_laws::lemma_same_number;
use crate::finish_laws::{
    law_small_finishes_fit, lemma_outcomes_positive, lemma_roll_ways_bound,
};
use crate::ir::Skill;
use crate::ratio::{
    addable, lemma_same_ratio_trans, over_common, representable, same_ratio, Odds,
};
use crate::skills::Skills;
use vstd::math::min;
use vstd::prelude::*;

verus! {

// ---------------------------------------------------------------------------
// One stat
// ---------------------------------------------------------------------------

/// A finish is unbreakable from a value of 11 on, with any Crowd Meter above zero, and
/// never otherwise.
pub proof fn law_auto_success_from_eleven(value: int, crowd_meter: int)
    ensures
        value <= 10 ==> !unbreakable(value, crowd_meter),
        crowd_meter <= 0 ==> !unbreakable(value, crowd_meter),
        value >= 11 && crowd_meter >= 1 ==> unbreakable(value, crowd_meter),
{
}

/// Which Crowd Meter above zero it is makes no difference to an auto-success.
pub proof fn law_auto_success_ignores_the_size_of_the_crowd(value: int, c1: int, c2: int)
    requires
        c1 > 0,
        c2 > 0,
    ensures
        unbreakable(value, c1) == unbreakable(value, c2),
{
}

/// Away from Crowd Meter 0 a stat breaks out exactly where, less the penalty, it reaches
/// the finish value; at Crowd Meter 0 a 10 breaks out besides.
pub proof fn law_stat_has_to_reach_the_finish(stat: int, value: int, penalty: int, crowd_meter: int)
    ensures
        stat >= value + penalty ==> breaks_out(stat, value, penalty, crowd_meter),
        stat < value + penalty && crowd_meter != 0 ==> !breaks_out(
            stat,
            value,
            penalty,
            crowd_meter,
        ),
        stat < value + penalty && stat != 10 ==> !breaks_out(stat, value, penalty, crowd_meter),
        stat == 10 ==> breaks_out(stat, value, penalty, 0),
{
}

/// Points on the stat, on the finish value and on the penalty weigh the same.
pub proof fn law_points_weigh_the_same(
    stat: int,
    value: int,
    penalty: int,
    crowd_meter: int,
    n: int,
)
    requires
        crowd_meter != 0,
    ensures
        breaks_out(stat + n, value + n, penalty, crowd_meter) == breaks_out(
            stat,
            value,
            penalty,
            crowd_meter,
        ),
        breaks_out(stat, value + n, penalty - n, crowd_meter) == breaks_out(
            stat,
            value,
            penalty,
            crowd_meter,
        ),
{
}

/// 1 where a stat reaches a finish, else 0.
spec fn reaches(stat: int, value: int, penalty: int, crowd_meter: int) -> int {
    if (crowd_meter == 0 && stat == 10) || stat - penalty >= value {
        1
    } else {
        0
    }
}

/// The faces that break out are counted over all six stats.
proof fn lemma_count(opp: Skills, value: int, penalty: int, crowd_meter: int)
    ensures
        breakout_faces(opp, value, penalty, crowd_meter) == reaches(
            opp.power as int,
            value,
            penalty,
            crowd_meter,
        ) + reaches(opp.agility as int, value, penalty, crowd_meter) + reaches(
            opp.technique as int,
            value,
            penalty,
            crowd_meter,
        ) + reaches(opp.submission as int, value, penalty, crowd_meter) + reaches(
            opp.grapple as int,
            value,
            penalty,
            crowd_meter,
        ) + reaches(opp.strike as int, value, penalty, crowd_meter),
{
    reveal_with_fuel(breakout_faces_to, 7);
    assert(Skill::ALL@[0] == Skill::Power && Skill::ALL@[1] == Skill::Agility);
    assert(Skill::ALL@[2] == Skill::Technique && Skill::ALL@[3] == Skill::Submission);
    assert(Skill::ALL@[4] == Skill::Grapple && Skill::ALL@[5] == Skill::Strike);
}

/// Every one of the six stats counts for one face: the count is that of the stats that,
/// less the penalty, reach the finish value, or are a raw 10 at Crowd Meter 0.
pub proof fn law_every_stat_counts_once(opp: Skills, value: int, penalty: int, crowd_meter: int)
    ensures
        ({
            let out = |stat: i64|
                if stat >= value + penalty || (stat == 10 && crowd_meter == 0) {
                    1int
                } else {
                    0
                };
            breakout_faces(opp, value, penalty, crowd_meter) == out(opp.power) + out(opp.agility)
                + out(opp.technique) + out(opp.submission) + out(opp.grapple) + out(opp.strike)
        }),
{
    lemma_count(opp, value, penalty, crowd_meter);
}

// ---------------------------------------------------------------------------
// One finish face
// ---------------------------------------------------------------------------

/// Without an attempt nobody breaks out.
pub proof fn law_no_attempt_no_breakout(
    opp: Skills,
    value: int,
    crowd_meter: int,
    penalties: Seq<i64>,
    r: Odds,
)
    requires
        breakout_chance(r, opp, value, crowd_meter, penalties, 0),
    ensures
        r.numer == 0,
{
    let h = hold_ways(opp, value, crowd_meter, penalties, 0);
    assert(h == 1 && roll_ways(0) == 1);
    assert(r.numer * 1 == 0 * r.denom);
}

/// Nobody breaks out of a finish of 11 or more with the Crowd Meter above zero, however
/// many attempts there are.
pub proof fn law_nobody_breaks_out_of_an_auto_success(
    opp: Skills,
    value: int,
    crowd_meter: int,
    penalties: Seq<i64>,
    n: int,
    r: Odds,
)
    requires
        value >= 11,
        crowd_meter > 0,
        breakout_chance(r, opp, value, crowd_meter, penalties, n),
    ensures
        r.numer == 0,
{
    lemma_roll_ways_positive(n);
    let w = roll_ways(n);
    assert(r.numer as int * w == 0 * r.denom);
    assert(r.numer == 0) by (nonlinear_arith)
        requires
            r.numer as int * w == 0,
            0 < w,
    ;
}

/// The next attempt fails with its own chance, independently of those before it: where
/// the finish can be broken out of, the chance that all attempts fail is multiplied by
/// the share of the six stats that do not, less the penalty on that attempt, reach the
/// finish value.
pub proof fn law_next_attempt_multiplies(
    opp: Skills,
    value: int,
    crowd_meter: int,
    penalties: Seq<i64>,
    n: int,
    r: Odds,
    next: Odds,
)
    requires
        0 <= n,
        value <= 10 || crowd_meter <= 0,
        breakout_chance(r, opp, value, crowd_meter, penalties, n),
        breakout_chance(next, opp, value, crowd_meter, penalties, n + 1),
    ensures
        ({
            let penalty = if n < penalties.len() {
                penalties[n] as int
            } else {
                0
            };
            let out = |stat: i64|
                if stat >= value + penalty || (stat == 10 && crowd_meter == 0) {
                    1int
                } else {
                    0
                };
            let down = 6 - (out(opp.power) + out(opp.agility) + out(opp.technique) + out(
                opp.submission,
            ) + out(opp.grapple) + out(opp.strike));
            same_ratio(
                next.denom - next.numer,
                next.denom as int,
                (r.denom - r.numer) * down,
                r.denom * 6,
            )
        }),
{
    let penalty = penalty_at(penalties, n);
    lemma_count(opp, value, penalty, crowd_meter);
    let c = 6 - breakout_faces(opp, value, penalty, crowd_meter);
    let f = fail_ways(opp, value, crowd_meter, penalties, n);
    let w = roll_ways(n);
    lemma_roll_ways_positive(n);
    assert(fail_ways(opp, value, crowd_meter, penalties, n + 1) == c * f);
    assert(roll_ways(n + 1) == 6 * w);
    let (rn, rd, qn, qd) = (r.numer as int, r.denom as int, next.numer as int, next.denom as int);
    assert((rd - rn) * w == f * rd) by (nonlinear_arith)
        requires
            rn * w == (w - f) * rd,
    ;
    assert((qd - qn) * (6 * w) == (c * f) * qd) by (nonlinear_arith)
        requires
            qn * (6 * w) == (6 * w - c * f) * qd,
    ;
    let (x, y) = (rd - rn, qd - qn);
    assert(y * (rd * 6) == (x * c) * qd) by (nonlinear_arith)
        requires
            x * w == f * rd,
            y * (6 * w) == (c * f) * qd,
            0 < w,
    {
        assert((y * (rd * 6)) * w == (y * (6 * w)) * rd);
        assert(((c * f) * qd) * rd == (c * qd) * (f * rd));
        assert((c * qd) * (x * w) == ((x * c) * qd) * w);
    }
}

// ---------------------------------------------------------------------------
// The average
// ---------------------------------------------------------------------------

proof fn lemma_six(ways: Seq<int>)
    requires
        ways.len() == 6,
    ensures
        sum_to(kept_lower(ways, false), 6) == ways[0] + ways[1] + ways[2] + ways[3] + ways[4]
            + ways[5],
{
    reveal_with_fuel(sum_to, 7);
}

proof fn lemma_six_rows(ways: Seq<int>)
    requires
        ways.len() == 6,
    ensures
        ({
            let row = |i: int|
                min(ways[i], ways[0]) + min(ways[i], ways[1]) + min(ways[i], ways[2]) + min(
                    ways[i],
                    ways[3],
                ) + min(ways[i], ways[4]) + min(ways[i], ways[5]);
            sum_to(kept_lower(ways, true), 36) == row(0) + row(1) + row(2) + row(3) + row(4) + row(
                5,
            )
        }),
{
    let t = kept_lower(ways, true);
    assert forall|i: int, j: int|
        0 <= i < 6 && 0 <= j < 6 implies #[trigger] t[6 * i + j] == min(ways[i], ways[j]) by {
        assert((6 * i + j) / 6 == i && (6 * i + j) % 6 == j);
    }
    lemma_row(t, 0);
    lemma_row(t, 1);
    lemma_row(t, 2);
    lemma_row(t, 3);
    lemma_row(t, 4);
    lemma_row(t, 5);
    lemma_row_is_minima(t, ways, 0);
    lemma_row_is_minima(t, ways, 1);
    lemma_row_is_minima(t, ways, 2);
    lemma_row_is_minima(t, ways, 3);
    lemma_row_is_minima(t, ways, 4);
    lemma_row_is_minima(t, ways, 5);
}

proof fn lemma_row(t: Seq<int>, i: int)
    requires
        0 <= i,
    ensures
        sum_to(t, 6 * i + 6) == sum_to(t, 6 * i) + t[6 * i] + t[6 * i + 1] + t[6 * i + 2] + t[6 * i
            + 3] + t[6 * i + 4] + t[6 * i + 5],
{
    reveal_with_fuel(sum_to, 7);
}

proof fn lemma_row_is_minima(t: Seq<int>, ways: Seq<int>, i: int)
    requires
        ways.len() == 6,
        t == kept_lower(ways, true),
        0 <= i < 6,
    ensures
        t[6 * i] + t[6 * i + 1] + t[6 * i + 2] + t[6 * i + 3] + t[6 * i + 4] + t[6 * i + 5] == min(
            ways[i],
            ways[0],
        ) + min(ways[i], ways[1]) + min(ways[i], ways[2]) + min(ways[i], ways[3]) + min(
            ways[i],
            ways[4],
        ) + min(ways[i], ways[5]),
{
    assert((6 * i) / 6 == i && (6 * i) % 6 == 0);
    assert((6 * i + 1) / 6 == i && (6 * i + 1) % 6 == 1);
    assert((6 * i + 2) / 6 == i && (6 * i + 2) % 6 == 2);
    assert((6 * i + 3) / 6 == i && (6 * i + 3) % 6 == 3);
    assert((6 * i + 4) / 6 == i && (6 * i + 4) % 6 == 4);
    assert((6 * i + 5) / 6 == i && (6 * i + 5) % 6 == 5);
}

/// Without a re-roll the average is a sixth of the sum of the six chances.
pub proof fn law_average_is_a_sixth_of_the_sum(r: Odds, ways: Seq<int>, d: int)
    requires
        ways.len() == 6,
        average_chance(r, ways, d, false),
    ensures
        r.numer * (6 * d) == (ways[0] + ways[1] + ways[2] + ways[3] + ways[4] + ways[5]) * r.denom,
{
    lemma_six(ways);
}

/// With a re-roll the average is a thirty-sixth of the sum, over all pairs of faces, of
/// the lower chance of the two.
pub proof fn law_reroll_average_is_over_all_pairs(r: Odds, ways: Seq<int>, d: int)
    requires
        ways.len() == 6,
        average_chance(r, ways, d, true),
    ensures
        ({
            let row = |i: int|
                min(ways[i], ways[0]) + min(ways[i], ways[1]) + min(ways[i], ways[2]) + min(
                    ways[i],
                    ways[3],
                ) + min(ways[i], ways[4]) + min(ways[i], ways[5]);
            r.numer * (36 * d) == (row(0) + row(1) + row(2) + row(3) + row(4) + row(5)) * r.denom
        }),
{
    lemma_six_rows(ways);
}

/// The six chances over a denominator are exactly that.
pub proof fn law_chances_are_over_the_denominator(probs: Seq<Odds>, ways: Seq<int>, d: int)
    ensures
        chances(probs, ways, d) <==> 0 < d && probs.len() == 6 && ways.len() == 6 && forall|k: int|
            0 <= k < 6 ==> (#[trigger] probs[k]).denotes(ways[k], d),
{
}

// ---------------------------------------------------------------------------
// The whole finish
// ---------------------------------------------------------------------------

/// The chances to break out of the six faces of a finish: against the defender's stats
/// with the modifiers added, and with each finish value the finisher's stat plus the
/// bonus for that skill plus the Crowd Meter, uncapped.
spec fn face_chances(p: FinishParams, opp: Skills, faces: Seq<Odds>) -> bool {
    let (cm, pens, n) = (
        p.crowd_meter as int,
        p.breakout_penalties@,
        p.breakout_attempts as int,
    );
    &&& opp.power == p.defender.power + p.opponent_modifiers.power
    &&& opp.agility == p.defender.agility + p.opponent_modifiers.agility
    &&& opp.technique == p.defender.technique + p.opponent_modifiers.technique
    &&& opp.submission == p.defender.submission + p.opponent_modifiers.submission
    &&& opp.grapple == p.defender.grapple + p.opponent_modifiers.grapple
    &&& opp.strike == p.defender.strike + p.opponent_modifiers.strike
    &&& faces.len() == 6
    &&& breakout_chance(
        faces[0],
        opp,
        p.finisher.power + p.finish_bonus.power + p.crowd_meter,
        cm,
        pens,
        n,
    )
    &&& breakout_chance(
        faces[1],
        opp,
        p.finisher.agility + p.finish_bonus.agility + p.crowd_meter,
        cm,
        pens,
        n,
    )
    &&& breakout_chance(
        faces[2],
        opp,
        p.finisher.technique + p.finish_bonus.technique + p.crowd_meter,
        cm,
        pens,
        n,
    )
    &&& breakout_chance(
        faces[3],
        opp,
        p.finisher.submission + p.finish_bonus.submission + p.crowd_meter,
        cm,
        pens,
        n,
    )
    &&& breakout_chance(
        faces[4],
        opp,
        p.finisher.grapple + p.finish_bonus.grapple + p.crowd_meter,
        cm,
        pens,
        n,
    )
    &&& breakout_chance(
        faces[5],
        opp,
        p.finisher.strike + p.finish_bonus.strike + p.crowd_meter,
        cm,
        pens,
        n,
    )
}

proof fn lemma_faces(p: FinishParams, opp: Skills, faces: Seq<Odds>) -> (u: Seq<int>)
    requires
        face_chances(p, opp, faces),
    ensures
        opp == p.opposition(),
        u.len() == 6,
        forall|k: int| 0 <= k < 6 ==> #[trigger] u[k] == p.rolls() - p.face_holds(Skill::ALL@[k]),
        chances(faces, u, p.rolls()),
{
    let u = Seq::new(6, |k: int| p.rolls() - p.face_holds(Skill::ALL@[k]));
    lemma_roll_ways_positive(p.breakout_attempts as int);
    assert(Skill::ALL@[0] == Skill::Power && Skill::ALL@[1] == Skill::Agility);
    assert(Skill::ALL@[2] == Skill::Technique && Skill::ALL@[3] == Skill::Submission);
    assert(Skill::ALL@[4] == Skill::Grapple && Skill::ALL@[5] == Skill::Strike);
    assert(opp == p.opposition());
    assert forall|k: int| 0 <= k < 6 implies (#[trigger] faces[k]).denotes(u[k], p.rolls()) by {
        if k == 0 {
        } else if k == 1 {
        } else if k == 2 {
        } else if k == 3 {
        } else if k == 4 {
        } else {
            assert(k == 5);
        }
    }
    u
}

proof fn lemma_finish_is_average(
    p: FinishParams,
    opp: Skills,
    faces: Seq<Odds>,
    ways: Seq<int>,
    d: int,
    odds: Odds,
)
    requires
        face_chances(p, opp, faces),
        chances(faces, ways, d),
        odds.denotes(p.favourable(), p.outcomes()),
    ensures
        ({
            let terms = kept_lower(ways, p.allow_reroll);
            (odds.denom - odds.numer) * (terms.len() * d) == sum_to(terms, terms.len() as int)
                * odds.denom
        }),
{
    let u = lemma_faces(p, opp, faces);
    let w = p.rolls();
    lemma_roll_ways_positive(p.breakout_attempts as int);
    assert forall|k: int| 0 <= k < 6 implies same_ratio(#[trigger] u[k], w, ways[k], d) by {
        let c = faces[k];
        assert(c.denotes(u[k], w) && c.denotes(ways[k], d));
        assert(same_ratio(u[k], w, c.numer as int, c.denom as int));
        lemma_same_ratio_trans(u[k], w, c.numer as int, c.denom as int, ways[k], d);
    }
    let (a, b) = (kept_lower(u, p.allow_reroll), kept_lower(ways, p.allow_reroll));
    let n = a.len() as int;
    assert(n == b.len() && n == p.holds().len());
    if p.allow_reroll {
        assert forall|k: int| 0 <= k < 36 implies same_ratio(#[trigger] a[k], w, b[k], d) by {
            let (x, y, s, t) = (u[k / 6], u[k % 6], ways[k / 6], ways[k % 6]);
            assert(same_ratio(x, w, s, d) && same_ratio(y, w, t, d));
            assert(x <= y <==> s <= t) by (nonlinear_arith)
                requires
                    0 < w,
                    0 < d,
                    x * d == s * w,
                    y * d == t * w,
            ;
        }
    }
    lemma_sum_scale(a, w, b, d, n);
    assert forall|i: int| 0 <= i < n implies #[trigger] a[i] == w - p.holds()[i] by {
        if p.allow_reroll {
            assert(u[i / 6] == w - p.face_holds(Skill::ALL@[i / 6]));
            assert(u[i % 6] == w - p.face_holds(Skill::ALL@[i % 6]));
        } else {
            assert(u[i] == w - p.face_holds(Skill::ALL@[i]));
        }
    }
    lemma_sum_complement(p.holds(), a, w, n);
    let (s, t, f) = (sum_to(a, n), sum_to(b, n), p.favourable());
    assert(s == n * w - f);
    let (on, od) = (odds.numer as int, odds.denom as int);
    assert((od - on) * (n * d) == t * od) by (nonlinear_arith)
        requires
            0 < w,
            on * (n * w) == f * od,
            s == n * w - f,
            s * d == t * w,
    {
        assert((od - on) * (n * w) == s * od);
        assert(((od - on) * (n * d)) * w == ((od - on) * (n * w)) * d);
        assert((s * od) * d == (s * d) * od);
        assert((t * w) * od == (t * od) * w);
    }
}

/// A finish fails, without a re-roll, with the average of the chances to break out of
/// its six faces. The finish value of a face is the finisher's stat plus the bonus for
/// the skill plus the whole Crowd Meter, and the stats are the defender's with the
/// modifiers added.
pub proof fn law_finish_averages_its_faces(
    p: FinishParams,
    opp: Skills,
    faces: Seq<Odds>,
    ways: Seq<int>,
    d: int,
    odds: Odds,
)
    requires
        !p.allow_reroll,
        opp.power == p.defender.power + p.opponent_modifiers.power,
        opp.agility == p.defender.agility + p.opponent_modifiers.agility,
        opp.technique == p.defender.technique + p.opponent_modifiers.technique,
        opp.submission == p.defender.submission + p.opponent_modifiers.submission,
        opp.grapple == p.defender.grapple + p.opponent_modifiers.grapple,
        opp.strike == p.defender.strike + p.opponent_modifiers.strike,
        faces.len() == 6,
        breakout_chance(
            faces[0],
            opp,
            p.finisher.power + p.finish_bonus.power + p.crowd_meter,
            p.crowd_meter as int,
            p.breakout_penalties@,
            p.breakout_attempts as int,
        ),
        breakout_chance(
            faces[1],
            opp,
            p.finisher.agility + p.finish_bonus.agility + p.crowd_meter,
            p.crowd_meter as int,
            p.breakout_penalties@,
            p.breakout_attempts as int,
        ),
        breakout_chance(
            faces[2],
            opp,
            p.finisher.technique + p.finish_bonus.technique + p.crowd_meter,
            p.crowd_meter as int,
            p.breakout_penalties@,
            p.breakout_attempts as int,
        ),
        breakout_chance(
            faces[3],
            opp,
            p.finisher.submission + p.finish_bonus.submission + p.crowd_meter,
            p.crowd_meter as int,
            p.breakout_penalties@,
            p.breakout_attempts as int,
        ),
        breakout_chance(
            faces[4],
            opp,
            p.finisher.grapple + p.finish_bonus.grapple + p.crowd_meter,
            p.crowd_meter as int,
            p.breakout_penalties@,
            p.breakout_attempts as int,
        ),
        breakout_chance(
            faces[5],
            opp,
            p.finisher.strike + p.finish_bonus.strike + p.crowd_meter,
            p.crowd_meter as int,
            p.breakout_penalties@,
            p.breakout_attempts as int,
        ),
        chances(faces, ways, d),
        odds.denotes(p.favourable(), p.outcomes()),
    ensures
        (odds.denom - odds.numer) * (6 * d) == (ways[0] + ways[1] + ways[2] + ways[3] + ways[4]
            + ways[5]) * odds.denom,
{
    lemma_finish_is_average(p, opp, faces, ways, d, odds);
    lemma_six(ways);
}

/// With a re-roll a finish fails with the average, over all pairs of faces, of the lower
/// of the two chances to break out.
pub proof fn law_finish_with_reroll_keeps_the_better_face(
    p: FinishParams,
    opp: Skills,
    faces: Seq<Odds>,
    ways: Seq<int>,
    d: int,
    odds: Odds,
)
    requires
        p.allow_reroll,
        opp.power == p.defender.power + p.opponent_modifiers.power,
        opp.agility == p.defender.agility + p.opponent_modifiers.agility,
        opp.technique == p.defender.technique + p.opponent_modifiers.technique,
        opp.submission == p.defender.submission + p.opponent_modifiers.submission,
        opp.grapple == p.defender.grapple + p.opponent_modifiers.grapple,
        opp.strike == p.defender.strike + p.opponent_modifiers.strike,
        faces.len() == 6,
        breakout_chance(
            faces[0],
            opp,
            p.finisher.power + p.finish_bonus.power + p.crowd_meter,
            p.crowd_meter as int,
            p.breakout_penalties@,
            p.breakout_attempts as int,
        ),
        breakout_chance(
            faces[1],
            opp,
            p.finisher.agility + p.finish_bonus.agility + p.crowd_meter,
            p.crowd_meter as int,
            p.breakout_penalties@,
            p.breakout_attempts as int,
        ),
        breakout_chance(
            faces[2],
            opp,
            p.finisher.technique + p.finish_bonus.technique + p.crowd_meter,
            p.crowd_meter as int,
            p.breakout_penalties@,
            p.breakout_attempts as int,
        ),
        breakout_chance(
            faces[3],
            opp,
            p.finisher.submission + p.finish_bonus.submission + p.crowd_meter,
            p.crowd_meter as int,
            p.breakout_penalties@,
            p.breakout_attempts as int,
        ),
        breakout_chance(
            faces[4],
            opp,
            p.finisher.grapple + p.finish_bonus.grapple + p.crowd_meter,
            p.crowd_meter as int,
            p.breakout_penalties@,
            p.breakout_attempts as int,
        ),
        breakout_chance(
            faces[5],
            opp,
            p.finisher.strike + p.finish_bonus.strike + p.crowd_meter,
            p.crowd_meter as int,
            p.breakout_penalties@,
            p.breakout_attempts as int,
        ),
        chances(faces, ways, d),
        odds.denotes(p.favourable(), p.outcomes()),
    ensures
        ({
            let row = |i: int|
                min(ways[i], ways[0]) + min(ways[i], ways[1]) + min(ways[i], ways[2]) + min(
                    ways[i],
                    ways[3],
                ) + min(ways[i], ways[4]) + min(ways[i], ways[5]);
            (odds.denom - odds.numer) * (36 * d) == (row(0) + row(1) + row(2) + row(3) + row(4)
                + row(5)) * odds.denom
        }),
{
    lemma_finish_is_average(p, opp, faces, ways, d, odds);
    lemma_six_rows(ways);
}

/// The finish values are what the odds go by: two finishes that differ in nothing but
/// stats, bonuses and Crowd Meters above zero, and in which these come to the same sum
/// on every face, have the same odds.
pub proof fn law_only_the_sum_counts(p: FinishParams, q: FinishParams, a: Odds, b: Odds)
    requires
        p.crowd_meter == q.crowd_meter || (p.crowd_meter > 0 && q.crowd_meter > 0),
        p.finisher.power + p.finish_bonus.power + p.crowd_meter == q.finisher.power
            + q.finish_bonus.power + q.crowd_meter,
        p.finisher.agility + p.finish_bonus.agility + p.crowd_meter == q.finisher.agility
            + q.finish_bonus.agility + q.crowd_meter,
        p.finisher.technique + p.finish_bonus.technique + p.crowd_meter == q.finisher.technique
            + q.finish_bonus.technique + q.crowd_meter,
        p.finisher.submission + p.finish_bonus.submission + p.crowd_meter == q.finisher.submission
            + q.finish_bonus.submission + q.crowd_meter,
        p.finisher.grapple + p.finish_bonus.grapple + p.crowd_meter == q.finisher.grapple
            + q.finish_bonus.grapple + q.crowd_meter,
        p.finisher.strike + p.finish_bonus.strike + p.crowd_meter == q.finisher.strike
            + q.finish_bonus.strike + q.crowd_meter,
        p.defender == q.defender,
        p.opponent_modifiers == q.opponent_modifiers,
        p.breakout_attempts == q.breakout_attempts,
        p.breakout_penalties@ == q.breakout_penalties@,
        p.allow_reroll == q.allow_reroll,
        a.denotes(p.favourable(), p.outcomes()),
        b.denotes(q.favourable(), q.outcomes()),
    ensures
        a == b,
{
    assert(p.opposition() == q.opposition());
    assert forall|s: Skill| #[trigger] p.face_holds(s) == q.face_holds(s) by {
        assert(p.face_value(s) == q.face_value(s));
        lemma_fail_ways_crowd(
            p.opposition(),
            p.face_value(s),
            p.crowd_meter as int,
            q.crowd_meter as int,
            p.breakout_penalties@,
            p.breakout_attempts as int,
        );
    }
    assert(p.holds() =~= q.holds());
    lemma_outcomes_positive(p);
    lemma_same_number(a, b, p.favourable(), p.outcomes());
}

/// Away from Crowd Meter 0 the Crowd Meter counts only through the finish value.
proof fn lemma_fail_ways_crowd(
    opp: Skills,
    value: int,
    c1: int,
    c2: int,
    pens: Seq<i64>,
    n: int,
)
    requires
        c1 == c2 || (c1 > 0 && c2 > 0),
    ensures
        fail_ways(opp, value, c1, pens, n) == fail_ways(opp, value, c2, pens, n),
    decreases n,
{
    if n > 0 {
        lemma_fail_ways_crowd(opp, value, c1, c2, pens, n - 1);
        lemma_count(opp, value, penalty_at(pens, n - 1), c1);
        lemma_count(opp, value, penalty_at(pens, n - 1), c2);
    }
}

/// The Crowd Meter is not capped: above zero, one more point of it is worth exactly one
/// more point of bonus on every skill.
pub proof fn law_crowd_is_worth_its_points_of_bonus(
    p: FinishParams,
    points: i64,
    q: FinishParams,
    a: Odds,
    b: Odds,
)
    requires
        p.crowd_meter > 0,
        q.crowd_meter == p.crowd_meter + points,
        q.crowd_meter > 0,
        p.finish_bonus.power == q.finish_bonus.power + points,
        p.finish_bonus.agility == q.finish_bonus.agility + points,
        p.finish_bonus.technique == q.finish_bonus.technique + points,
        p.finish_bonus.submission == q.finish_bonus.submission + points,
        p.finish_bonus.grapple == q.finish_bonus.grapple + points,
        p.finish_bonus.strike == q.finish_bonus.strike + points,
        p.finisher == q.finisher,
        p.defender == q.defender,
        p.opponent_modifiers == q.opponent_modifiers,
        p.breakout_attempts == q.breakout_attempts,
        p.breakout_penalties@ == q.breakout_penalties@,
        p.allow_reroll == q.allow_reroll,
        a.denotes(p.favourable(), p.outcomes()),
        b.denotes(q.favourable(), q.outcomes()),
    ensures
        a == b,
{
    law_only_the_sum_counts(p, q, a, b);
}

/// One more point of Crowd Meter raises the finish value of every face by one.
pub proof fn law_crowd_raises_every_face_by_its_points(p: FinishParams, q: FinishParams, s: Skill)
    requires
        p.finisher == q.finisher,
        p.finish_bonus == q.finish_bonus,
    ensures
        q.face_value(s) - p.face_value(s) == q.crowd_meter - p.crowd_meter,
        s is Power ==> p.face_value(s) == p.finisher.power + p.finish_bonus.power + p.crowd_meter,
        s is Agility ==> p.face_value(s) == p.finisher.agility + p.finish_bonus.agility
            + p.crowd_meter,
        s is Technique ==> p.face_value(s) == p.finisher.technique + p.finish_bonus.technique
            + p.crowd_meter,
        s is Submission ==> p.face_value(s) == p.finisher.submission + p.finish_bonus.submission
            + p.crowd_meter,
        s is Grapple ==> p.face_value(s) == p.finisher.grapple + p.finish_bonus.grapple
            + p.crowd_meter,
        s is Strike ==> p.face_value(s) == p.finisher.strike + p.finish_bonus.strike
            + p.crowd_meter,
{
}

/// A modifier on a stat of the defender is the same as that much more or less of the
/// stat.
pub proof fn law_modifiers_are_added_to_the_defender(
    p: FinishParams,
    q: FinishParams,
    a: Odds,
    b: Odds,
)
    requires
        p.stats_fit(),
        q.stats_fit(),
        p.defender.power + p.opponent_modifiers.power == q.defender.power
            + q.opponent_modifiers.power,
        p.defender.agility + p.opponent_modifiers.agility == q.defender.agility
            + q.opponent_modifiers.agility,
        p.defender.technique + p.opponent_modifiers.technique == q.defender.technique
            + q.opponent_modifiers.technique,
        p.defender.submission + p.opponent_modifiers.submission == q.defender.submission
            + q.opponent_modifiers.submission,
        p.defender.grapple + p.opponent_modifiers.grapple == q.defender.grapple
            + q.opponent_modifiers.grapple,
        p.defender.strike + p.opponent_modifiers.strike == q.defender.strike
            + q.opponent_modifiers.strike,
        p.finisher == q.finisher,
        p.finish_bonus == q.finish_bonus,
        p.crowd_meter == q.crowd_meter,
        p.breakout_attempts == q.breakout_attempts,
        p.breakout_penalties@ == q.breakout_penalties@,
        p.allow_reroll == q.allow_reroll,
        a.denotes(p.favourable(), p.outcomes()),
        b.denotes(q.favourable(), q.outcomes()),
    ensures
        a == b,
{
    assert(p.opposition() == q.opposition());
    assert forall|s: Skill| #[trigger] p.face_holds(s) == q.face_holds(s) by {
        assert(p.face_value(s) == q.face_value(s));
    }
    assert(p.holds() =~= q.holds());
    lemma_outcomes_positive(p);
    lemma_same_number(a, b, p.favourable(), p.outcomes());
}

// ---------------------------------------------------------------------------
// What can be computed
// ---------------------------------------------------------------------------

/// A number of ordinary size.
spec fn ordinary(n: i64) -> bool {
    -1_000_000_000_000 <= n <= 1_000_000_000_000
}

/// With stats, bonuses, modifiers, Crowd Meter and penalties of up to a million million
/// either way, and up to 22 attempts, the odds can be computed.
pub proof fn law_ordinary_finishes_can_be_computed(p: FinishParams)
    requires
        forall|s: Skill|
            -1_000_000_000_000 <= #[trigger] p.finisher.at(s) <= 1_000_000_000_000,
        forall|s: Skill|
            -1_000_000_000_000 <= #[trigger] p.defender.at(s) <= 1_000_000_000_000,
        forall|s: Skill|
            -1_000_000_000_000 <= #[trigger] p.finish_bonus.at(s) <= 1_000_000_000_000,
        forall|s: Skill|
            -1_000_000_000_000 <= #[trigger] p.opponent_modifiers.at(s) <= 1_000_000_000_000,
        -1_000_000_000_000 <= p.crowd_meter <= 1_000_000_000_000,
        forall|i: int|
            0 <= i < p.breakout_penalties@.len() ==> -1_000_000_000_000
                <= #[trigger] p.breakout_penalties@[i] <= 1_000_000_000_000,
        p.breakout_attempts <= 22,
    ensures
        p.fits(),
{
    assert forall|s: Skill|
        ordinary(#[trigger] p.finisher.at(s)) && ordinary(p.finish_bonus.at(s)) && ordinary(
            p.defender.at(s),
        ) && ordinary(p.opponent_modifiers.at(s)) by {}
    assert(p.stats_fit()) by {
        assert forall|s: Skill|
            #![trigger p.finisher.at(s)]
            #![trigger p.defender.at(s)]
            {
                &&& i64::MIN <= p.finisher.at(s) + p.finish_bonus.at(s) <= i64::MAX
                &&& i64::MIN <= p.face_value(s) <= i64::MAX
                &&& i64::MIN <= p.defender.at(s) + p.opponent_modifiers.at(s) <= i64::MAX
            } by {
            assert(ordinary(p.finisher.at(s)));
        }
    }
    assert forall|i: int, s: Skill| 0 <= i < p.breakout_attempts implies penalty_fits(
        #[trigger] p.defender.at(s) + p.opponent_modifiers.at(s),
        #[trigger] penalty_at(p.breakout_penalties@, i),
        p.crowd_meter as int,
    ) by {
        assert(ordinary(p.finisher.at(s)));
        if i < p.breakout_penalties@.len() {
            assert(-1_000_000_000_000 <= p.breakout_penalties@[i] <= 1_000_000_000_000);
        }
    }
    law_small_finishes_fit(p);
}

/// The same of one face.
pub proof fn law_ordinary_faces_can_be_computed(
    opp: Skills,
    value: int,
    crowd_meter: int,
    penalties: Seq<i64>,
    n: int,
)
    requires
        forall|s: Skill| -1_000_000_000_000 <= #[trigger] opp.at(s) <= 1_000_000_000_000,
        forall|i: int|
            0 <= i < penalties.len() ==> -1_000_000_000_000 <= #[trigger] penalties[i]
                <= 1_000_000_000_000,
        n <= 24,
    ensures
        face_fits(opp, value, crowd_meter, penalties, n),
{
    assert forall|i: int, s: Skill| 0 <= i < n implies penalty_fits(
        #[trigger] opp.at(s) as int,
        #[trigger] penalty_at(penalties, i),
        crowd_meter,
    ) by {
        assert(-1_000_000_000_000 <= opp.at(s) <= 1_000_000_000_000);
        if i < penalties.len() {
            assert(-1_000_000_000_000 <= penalties[i] <= 1_000_000_000_000);
        }
    }
    assert forall|k: int| 0 <= k <= n implies #[trigger] representable(
        fail_ways(opp, value, crowd_meter, penalties, k),
        roll_ways(k),
    ) by {
        lemma_fail_ways_range(opp, value, crowd_meter, penalties, k);
        lemma_roll_ways_bound(k);
        assert(same_ratio(
            fail_ways(opp, value, crowd_meter, penalties, k),
            roll_ways(k),
            fail_ways(opp, value, crowd_meter, penalties, k),
            roll_ways(k),
        ));
    }
}

/// The average of six chances over a denominator of up to two hundred thousand million
/// million can be computed.
pub proof fn law_ordinary_averages_can_be_computed(
    probs: Seq<Odds>,
    ways: Seq<int>,
    d: int,
    allow_reroll: bool,
)
    requires
        0 < d <= 200_000_000_000_000_000,
        probs.len() == 6,
        ways.len() == 6,
        forall|k: int| 0 <= k < 6 ==> (#[trigger] probs[k]).denotes(ways[k], d),
        forall|k: int| 0 <= k < 6 ==> 0 <= #[trigger] ways[k] <= d,
    ensures
        chances_fit(probs, allow_reroll, ways, d),
{
    let terms = kept_lower(ways, allow_reroll);
    assert forall|k: int| 0 <= k < terms.len() implies 0 <= #[trigger] terms[k] <= d by {
        if allow_reroll {
            assert(0 <= ways[k / 6] <= d && 0 <= ways[k % 6] <= d);
        } else {
            assert(0 <= ways[k] <= d);
        }
    }
    assert forall|k: int| 0 <= k < terms.len() implies #[trigger] addable(
        sum_to(terms, k),
        d,
        terms[k],
        d,
    ) by {
        lemma_sum_range(terms, d, k);
        assert(k * d + d <= 36 * d) by (nonlinear_arith)
            requires
                k < 36,
                0 < d,
        ;
        assert(over_common(sum_to(terms, k), d, terms[k], d, d, sum_to(terms, k), terms[k]));
    }
    let len = terms.len() as int;
    lemma_sum_range(terms, d, len);
    assert(0 < len * d <= 36 * d) by (nonlinear_arith)
        requires
            0 < len <= 36,
            0 < d,
    ;
    assert(same_ratio(sum_to(terms, len), len * d, sum_to(terms, len), len * d));
    assert(average_fits(terms, d));
}

} // verus!
