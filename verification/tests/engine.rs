use srg_core::engine::Engine;
use srg_core::ir::{Duration, Who};

#[test]
fn the_higher_roll_resolves_first() {
    assert_eq!(Engine::roll_order(3, 9), ["B", "A"]);
    assert_eq!(Engine::roll_order(9, 3), ["A", "B"]);
}

#[test]
fn a_tie_keeps_a_stable_order() {
    assert_eq!(Engine::roll_order(7, 7), ["A", "B"]);
    assert_eq!(Engine::roll_order(0, 0), ["A", "B"]);
}

#[test]
fn ordering_is_by_value_not_player_identity() {
    for (va, vb) in [(1, 2), (5, 6), (0, 10)] {
        assert_eq!(
            Engine::roll_order(va, vb),
            ["B", "A"],
            "B rolled higher ({vb} > {va}) so B resolves first"
        );
    }
}

fn blanked_on_turn_3() -> Engine {
    let mut engine = Engine::new();
    engine.state.turn_no = 3;
    engine.act_blank_gimmick(Who::Opp, Duration::UntilStartOfYourNextTurn, "A");
    engine
}

#[test]
fn the_blank_lands_on_the_opponent() {
    let engine = blanked_on_turn_3();
    assert!(engine.state.is_gimmick_blanked("B"), "B is blanked");
    assert!(!engine.state.is_gimmick_blanked("A"), "the caster is not");
}

#[test]
fn it_survives_the_casters_turns_in_between() {
    let mut engine = blanked_on_turn_3();
    for turn in 4..=8 {
        engine.state.turn_no = turn;
        engine.sweep_next_turn_buffs("A");
        assert!(
            engine.state.is_gimmick_blanked("B"),
            "still blanked on turn {turn}"
        );
    }
    engine.state.turn_no = 9;
    engine.sweep_next_turn_buffs("B");
    assert!(!engine.state.is_gimmick_blanked("B"), "cleared on B's turn");
}

#[test]
fn the_granting_turns_own_roll_does_not_clear_it() {
    let mut engine = blanked_on_turn_3();
    engine.sweep_next_turn_buffs("B");
    assert!(engine.state.is_gimmick_blanked("B"));
}

#[test]
fn an_untimed_blank_is_left_alone_by_the_sweep() {
    let mut engine = Engine::new();
    engine.act_blank_gimmick(Who::Opp, Duration::Instant, "A");
    assert!(engine.state.player("B").blank_until_next_turn.is_none());
    engine.state.turn_no = 7;
    engine.sweep_next_turn_buffs("B");
    assert!(
        engine.state.is_gimmick_blanked("B"),
        "permanent blank persists"
    );
    engine.sweep_end_of_turn();
    engine.record_landed_hit("B");
    assert!(engine.state.is_gimmick_blanked("B"));
}

#[test]
fn blank_until_hit_survives_turns_then_lifts_on_a_hit() {
    let mut engine = Engine::new();
    engine.act_blank_gimmick(Who::Opp, Duration::UntilTargetHitsCard, "A");
    assert!(
        engine.state.player("B").blank_until_hit,
        "poison latched on B"
    );
    assert!(engine.state.is_gimmick_blanked("B"), "B is blanked");
    engine.state.turn_no = 5;
    engine.sweep_next_turn_buffs("B");
    assert!(
        engine.state.is_gimmick_blanked("B"),
        "still blanked — only a hit lifts it"
    );
    engine.record_landed_hit("B");
    assert!(!engine.state.player("B").blank_until_hit, "poison cleared");
    assert!(
        !engine.state.is_gimmick_blanked("B"),
        "gimmick restored once B hits"
    );
}

#[test]
fn a_blank_until_the_end_of_the_turn_ends_with_it() {
    let mut engine = Engine::new();
    engine.state.turn_no = 2;
    engine.act_blank_gimmick(Who::SelfSide, Duration::UntilEndOfTurn, "B");
    assert!(engine.state.is_gimmick_blanked("B"));
    assert!(!engine.state.is_gimmick_blanked("A"));
    engine.state.turn_no = 9;
    engine.sweep_next_turn_buffs("B");
    engine.record_landed_hit("B");
    assert!(engine.state.is_gimmick_blanked("B"));
    engine.sweep_end_of_turn();
    assert!(!engine.state.is_gimmick_blanked("B"));
}

#[test]
fn another_sides_hit_does_not_lift_the_blank() {
    let mut engine = Engine::new();
    engine.act_blank_gimmick(Who::Opp, Duration::UntilTargetHitsCard, "B");
    engine.record_landed_hit("B");
    assert!(engine.state.is_gimmick_blanked("A"));
    engine.record_landed_hit("A");
    assert!(!engine.state.is_gimmick_blanked("A"));
}

#[test]
fn sweeps_blank_nothing() {
    let mut engine = Engine::new();
    engine.state.turn_no = 4;
    engine.sweep_next_turn_buffs("A");
    engine.sweep_next_turn_buffs("B");
    engine.sweep_end_of_turn();
    engine.record_landed_hit("A");
    assert!(!engine.state.is_gimmick_blanked("A"));
    assert!(!engine.state.is_gimmick_blanked("B"));
}

#[test]
fn a_duration_that_holds_only_in_a_zone_grants_nothing() {
    for duration in [
        Duration::WhileInPlay,
        Duration::WhileGimmickActive,
        Duration::WhileInDiscard,
    ] {
        let mut engine = Engine::new();
        engine.act_blank_gimmick(Who::Opp, duration, "A");
        assert_eq!(engine, Engine::new());
    }
}
