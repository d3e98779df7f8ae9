use srg_core::session::{cards_or_default, run_session, SessionAction, SessionCall};

fn open(cards: Option<String>) -> SessionAction {
    SessionAction::Open {
        deck_a: "a.yaml".to_owned(),
        deck_b: "b.yaml".to_owned(),
        seed: 7,
        seat_a: "remote".to_owned(),
        seat_b: "heuristic".to_owned(),
        created: "now".to_owned(),
        cards,
    }
}

#[test]
fn the_card_file_that_was_named_wins() {
    assert_eq!(
        cards_or_default(Some("mine.yaml".to_owned()), "cards.yaml".to_owned()),
        "mine.yaml"
    );
    assert_eq!(
        cards_or_default(None, "cards.yaml".to_owned()),
        "cards.yaml"
    );
}

#[test]
fn an_open_step_is_settled() {
    let call = run_session(open(None), "cards.yaml".to_owned());
    assert_eq!(
        call,
        SessionCall::Open {
            cards: "cards.yaml".to_owned(),
            decks: ("a.yaml".to_owned(), "b.yaml".to_owned()),
            seed: 7,
            seats: ("remote".to_owned(), "heuristic".to_owned()),
            created: "now".to_owned(),
        }
    );
    let SessionCall::Open { cards, .. } =
        run_session(open(Some("mine.yaml".to_owned())), "cards.yaml".to_owned())
    else {
        panic!("an open step stays one");
    };
    assert_eq!(cards, "mine.yaml");
}

#[test]
fn the_other_steps_pass_through() {
    assert_eq!(
        run_session(SessionAction::Submit { choice_index: 3 }, String::new()),
        SessionCall::Submit { choice_index: 3 }
    );
    assert_eq!(
        run_session(SessionAction::Observe, String::new()),
        SessionCall::Observe
    );
}
