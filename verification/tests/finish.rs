use srg_core::finish::{
    average_breakout, breakout_prob_for_finish, count_breakout_stats, finish_odds, is_auto_success,
    stat_breaks_out, FinishParams,
};
use srg_core::ir::Skill;
use srg_core::ratio::Odds;
use srg_core::Skills;

fn block(values: [i64; 6]) -> Skills {
    let mut s = Skills::default();
    for (skill, value) in Skill::ALL.into_iter().zip(values) {
        s = s.with(skill, value);
    }
    s
}

fn strong() -> Skills {
    block([10, 9, 8, 7, 6, 5])
}

fn rising() -> Skills {
    block([5, 6, 7, 8, 9, 10])
}

fn odds(numer: i64, denom: i64) -> Odds {
    Odds { numer, denom }
}

fn at_most(a: Odds, b: Odds) -> bool {
    (a.numer as i128) * (b.denom as i128) <= (b.numer as i128) * (a.denom as i128)
}

#[test]
fn skills_are_read_and_replaced() {
    let s = Skills::default();
    assert!(Skill::ALL.into_iter().all(|k| s.get(k) == 0));
    let t = s.with(Skill::Grapple, 8);
    for k in Skill::ALL {
        assert_eq!(t.get(k), if k == Skill::Grapple { 8 } else { 0 });
    }
    assert_eq!(strong().get(Skill::Power), 10);
    assert_eq!(strong().get(Skill::Strike), 5);
}

#[test]
fn auto_success_needs_eleven_and_a_crowd() {
    assert!(is_auto_success(11, 1));
    assert!(is_auto_success(30, 4));
    assert!(!is_auto_success(10, 1));
    assert!(!is_auto_success(11, 0));
    assert!(!is_auto_success(11, -1));
}

#[test]
fn a_stat_breaks_out_at_the_finish_value() {
    assert!(stat_breaks_out(8, 8, 0, 2));
    assert!(!stat_breaks_out(7, 8, 0, 2));
    assert!(!stat_breaks_out(8, 8, 1, 2));
    assert!(stat_breaks_out(7, 8, -1, 2));
}

#[test]
fn a_raw_ten_breaks_out_at_crowd_meter_zero_only() {
    assert!(stat_breaks_out(10, 99, 50, 0));
    assert!(!stat_breaks_out(10, 99, 50, 1));
    assert!(!stat_breaks_out(11, 99, 0, 0));
    assert!(stat_breaks_out(10, i64::MAX, i64::MIN, 0));
}

#[test]
fn default_params() {
    let p = FinishParams::default();
    assert_eq!(p.finisher, Skills::default());
    assert_eq!(p.defender, Skills::default());
    assert_eq!(p.finish_bonus, Skills::default());
    assert_eq!(p.opponent_modifiers, Skills::default());
    assert_eq!(p.crowd_meter, 0);
    assert_eq!(p.breakout_attempts, 3);
    assert!(p.breakout_penalties.is_empty());
    assert!(!p.allow_reroll);
}

#[test]
fn new_params_keep_the_competitors() {
    let p = FinishParams::new(strong(), rising());
    assert_eq!(p.finisher, strong());
    assert_eq!(p.defender, rising());
    assert_eq!(p.breakout_attempts, 3);
    assert_eq!(p.crowd_meter, 0);
}

#[test]
fn odds_of_plain_finishes() {
    assert_eq!(
        finish_odds(&FinishParams::new(strong(), rising())),
        odds(25, 144)
    );
    let a = block([4, 8, 7, 10, 6, 9]);
    let b = block([5, 5, 10, 7, 6, 9]);
    assert_eq!(finish_odds(&FinishParams::new(a, b)), odds(2, 9));
    assert_eq!(finish_odds(&FinishParams::new(b, a)), odds(25, 162));
}

#[test]
fn odds_with_everything_on() {
    let mut p = FinishParams::new(block([4, 8, 7, 10, 6, 9]), block([5, 5, 10, 7, 6, 9]));
    p.finish_bonus = Skills::default().with(Skill::Technique, 3);
    p.crowd_meter = 1;
    p.breakout_penalties = vec![0, 1, 1];
    assert_eq!(finish_odds(&p), odds(95, 162));
    p.allow_reroll = true;
    assert_eq!(finish_odds(&p), odds(389, 486));
}

#[test]
fn odds_with_a_reroll() {
    let mut p = FinishParams::new(strong(), rising());
    p.allow_reroll = true;
    assert_eq!(finish_odds(&p), odds(2183, 7776));
    p.crowd_meter = 1;
    p.breakout_penalties = vec![1, 0, 2];
    assert_eq!(finish_odds(&p), odds(869, 1296));
}

#[test]
fn odds_with_penalties() {
    let mut p = FinishParams::new(strong(), rising());
    p.breakout_penalties = vec![0, 1, 1];
    assert_eq!(finish_odds(&p), odds(295, 1296));
    p.breakout_penalties = vec![2];
    assert_eq!(finish_odds(&p), odds(269, 1296), "no penalty beyond the listed ones");
}

#[test]
fn odds_with_modifiers_and_bonuses() {
    let mut p = FinishParams::new(strong(), rising());
    p.opponent_modifiers = block([-1; 6]);
    assert_eq!(finish_odds(&p), odds(49, 144));
    let mut q = FinishParams::new(strong(), rising());
    q.finish_bonus = block([1, 0, 0, 0, 0, 2]);
    assert_eq!(finish_odds(&q), odds(233, 1296));
}

#[test]
fn odds_with_other_numbers_of_attempts() {
    let mut p = FinishParams::new(strong(), rising());
    p.breakout_attempts = 1;
    assert_eq!(finish_odds(&p), odds(5, 12));
    p.breakout_attempts = 22;
    assert_eq!(
        finish_odds(&p),
        odds(2401809362313955, 789730223053602816)
    );
}

#[test]
fn no_attempts_make_it_certain() {
    let mut p = FinishParams::new(strong(), rising());
    p.breakout_attempts = 0;
    assert_eq!(finish_odds(&p), odds(1, 1));
}

#[test]
fn an_unbreakable_finish_is_certain() {
    let mut p = FinishParams::new(block([10; 6]), block([10; 6]));
    p.crowd_meter = 1;
    assert_eq!(finish_odds(&p), odds(1, 1));
}

#[test]
fn a_defender_of_tens_never_stays_down_at_crowd_meter_zero() {
    let mut p = FinishParams::new(block([10; 6]), block([10; 6]));
    p.finish_bonus = block([5; 6]);
    p.breakout_penalties = vec![9, 9, 9];
    assert_eq!(finish_odds(&p), odds(0, 1));
    p.defender = block([11; 6]);
    p.breakout_penalties = Vec::new();
    assert_eq!(finish_odds(&p), odds(1, 1), "an eleven is no raw ten");
}

#[test]
fn all_zero_competitors_break_out() {
    assert_eq!(finish_odds(&FinishParams::default()), odds(0, 1));
}

#[test]
fn odds_move_as_they_should() {
    let p = FinishParams::new(strong(), rising());
    let base = finish_odds(&p);

    let mut penalised = p.clone();
    penalised.breakout_penalties = vec![0, 0, 3];
    assert!(at_most(base, finish_odds(&penalised)));

    let mut boosted = p.clone();
    boosted.finish_bonus = Skills::default().with(Skill::Agility, 1);
    assert!(at_most(base, finish_odds(&boosted)));

    let mut stronger = p.clone();
    stronger.finisher = strong().with(Skill::Strike, 9);
    assert!(at_most(base, finish_odds(&stronger)));

    let mut louder = p.clone();
    louder.crowd_meter = 2;
    assert_eq!(finish_odds(&louder), odds(41, 81));
    assert!(at_most(base, finish_odds(&louder)));

    let mut tougher = louder.clone();
    tougher.defender = rising().with(Skill::Power, 9);
    assert!(at_most(finish_odds(&tougher), finish_odds(&louder)));

    let mut longer = p.clone();
    longer.breakout_attempts = 4;
    assert!(at_most(finish_odds(&longer), base));

    let mut again = p.clone();
    again.allow_reroll = true;
    assert!(at_most(base, finish_odds(&again)));
}

#[test]
fn attempts_without_penalties_are_independent() {
    let with = |attempts: u32| {
        let mut p = FinishParams::new(block([7; 6]), rising());
        p.breakout_attempts = attempts;
        finish_odds(&p)
    };
    let (two, three, five) = (with(2), with(3), with(5));
    assert_eq!(two, odds(1, 9));
    assert_eq!(
        (five.numer as i128) * (two.denom as i128) * (three.denom as i128),
        (two.numer as i128) * (three.numer as i128) * (five.denom as i128)
    );
}

#[test]
fn the_order_of_the_defenders_stats_does_not_matter() {
    let mut p = FinishParams::new(strong(), rising());
    p.breakout_penalties = vec![0, 2];
    let base = finish_odds(&p);
    p.defender = block([8, 10, 5, 9, 7, 6]);
    assert_eq!(finish_odds(&p), base);
}

#[test]
fn penalties_that_are_not_used_do_not_count() {
    let mut p = FinishParams::new(strong(), rising());
    let base = finish_odds(&p);
    p.breakout_penalties = vec![0];
    assert_eq!(finish_odds(&p), base);
    p.breakout_penalties = vec![0, 0, 0, 9, 9];
    assert_eq!(finish_odds(&p), base);
}

#[test]
fn averages_lie_between_the_faces() {
    let mut p = FinishParams::new(strong(), rising());
    let plain = finish_odds(&p);
    p.allow_reroll = true;
    let again = finish_odds(&p);
    let only = |value: i64| finish_odds(&FinishParams::new(block([value; 6]), rising()));
    assert!(at_most(only(5), plain));
    assert!(at_most(plain, again));
    assert!(at_most(again, only(10)));

    let mut flat = FinishParams::new(block([8; 6]), rising());
    let one = finish_odds(&flat);
    flat.allow_reroll = true;
    assert_eq!(finish_odds(&flat), one);
}

#[test]
fn stats_that_break_out_are_counted() {
    assert_eq!(count_breakout_stats(&rising(), 8, 0, 0), 3);
    assert_eq!(count_breakout_stats(&rising(), 8, 1, 0), 2);
    assert_eq!(count_breakout_stats(&rising(), 99, 5, 0), 1, "the raw ten");
    assert_eq!(count_breakout_stats(&rising(), 99, 5, 1), 0);
    assert_eq!(count_breakout_stats(&rising(), 5, 0, 1), 6);
}

#[test]
fn breakout_chances_of_one_face() {
    let chance = |value: i64, attempts: u32, crowd: i64, penalties: Vec<i64>| {
        breakout_prob_for_finish(value, &rising(), attempts, crowd, &penalties)
    };
    assert_eq!(chance(8, 3, 0, vec![]), odds(7, 8));
    assert_eq!(chance(8, 3, 0, vec![0, 1]), odds(5, 6));
    assert_eq!(chance(8, 3, 0, vec![0, 0, 0, 9]), odds(7, 8));
    assert_eq!(chance(8, 0, 0, vec![]), odds(0, 1));
    assert_eq!(chance(11, 3, 1, vec![]), odds(0, 1));
    assert_eq!(chance(11, 1, 0, vec![]), odds(1, 6));
}

#[test]
fn breakout_chances_are_averaged() {
    let probs = vec![odds(1, 2), odds(1, 3), odds(0, 1), odds(1, 1), odds(1, 6), odds(1, 2)];
    assert_eq!(average_breakout(&probs, false), odds(5, 12));
    assert_eq!(average_breakout(&probs, true), odds(53, 216));
    let same = vec![odds(2, 7); 6];
    assert_eq!(average_breakout(&same, false), odds(2, 7));
    assert_eq!(average_breakout(&same, true), odds(2, 7));
}
