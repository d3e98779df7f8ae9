//! Steps of a resumable match, as they are asked for on the command line.

use vstd::prelude::*;
use vstd::string::*;

verus! {

/// A step as it is asked for.
#[derive(Debug, Clone, PartialEq, Eq)]
pub enum SessionAction {
    /// Open a match.
    Open {
        deck_a: String,
        deck_b: String,
        seed: u64,
        /// `remote`, or the name of a policy that decides for the seat.
        seat_a: String,
        seat_b: String,
        created: String,
        cards: Option<String>,
    },
    /// Answer the outstanding decision with one of its legal choices.
    Submit { choice_index: usize },
    /// Look at the match without advancing it.
    Observe,
}

/// A step as it is to be carried out: the card file is settled, and what belongs to the
/// two sides stands in pairs.
#[derive(Debug, PartialEq, Eq)]
pub enum SessionCall {
    Open {
        cards: String,
        decks: (String, String),
        seed: u64,
        seats: (String, String),
        created: String,
    },
    Submit { choice_index: usize },
    Observe,
}

/// The card file that was named, or the default one.
pub fn cards_or_default(cards: Option<String>, default_path: String) -> (r: String)
    ensures
        r == match cards {
            Some(path) => path,
            None => default_path,
        },
{
    match cards {
        Some(path) => path,
        None => default_path,
    }
}

/// The step to carry out for a step that was asked for.
pub open spec fn session_call(action: SessionAction, default_path: String) -> SessionCall {
    match action {
        SessionAction::Open { deck_a, deck_b, seed, seat_a, seat_b, created, cards } => {
            SessionCall::Open {
                cards: match cards {
                    Some(path) => path,
                    None => default_path,
                },
                decks: (deck_a, deck_b),
                seed,
                seats: (seat_a, seat_b),
                created,
            }
        },
        SessionAction::Submit { choice_index } => SessionCall::Submit { choice_index },
        SessionAction::Observe => SessionCall::Observe,
    }
}

/// The step to carry out for a step that was asked for.
pub fn run_session(action: SessionAction, default_path: String) -> (call: SessionCall)
    ensures
        call == session_call(action, default_path),
{
    match action {
        SessionAction::Open { deck_a, deck_b, seed, seat_a, seat_b, created, cards } => {
            SessionCall::Open {
                cards: cards_or_default(cards, default_path),
                decks: (deck_a, deck_b),
                seed,
                seats: (seat_a, seat_b),
                created,
            }
        },
        SessionAction::Submit { choice_index } => SessionCall::Submit { choice_index },
        SessionAction::Observe => SessionCall::Observe,
    }
}

/// A step is carried out as it was asked for: a named card file wins over the default
/// one, each side keeps its deck and its seat, and nothing else changes.
pub proof fn law_step_is_carried_out_as_asked(
    deck_a: String,
    deck_b: String,
    seed: u64,
    seat_a: String,
    seat_b: String,
    created: String,
    cards: Option<String>,
    default_path: String,
    choice_index: usize,
)
    ensures
        ({
            let call = session_call(
                SessionAction::Open { deck_a, deck_b, seed, seat_a, seat_b, created, cards },
                default_path,
            );
            call matches SessionCall::Open {
                cards: file,
                decks,
                seed: s,
                seats,
                created: when,
            } && decks.0 == deck_a && decks.1 == deck_b && s == seed && seats.0 == seat_a && seats.1
                == seat_b && when == created && (cards matches Some(path) ==> file == path) && (
            cards is None ==> file == default_path)
        }),
        session_call(SessionAction::Submit { choice_index }, default_path) == (SessionCall::Submit {
            choice_index,
        }),
        session_call(SessionAction::Observe, default_path) == SessionCall::Observe,
{
}

} // verus!
