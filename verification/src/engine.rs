//! The order in which the two sides resolve a turn roll, and how long a gimmick stays
//! blank.

use crate::ir::{Duration, Who};
use vstd::prelude::*;
use vstd::string::*;

verus! {

/// One of the two seats, `A` and `B`.
pub open spec fn seat(name: Seq<char>) -> bool {
    name == "A"@ || name == "B"@
}

/// The other seat.
pub open spec fn other_seat(name: Seq<char>) -> Seq<char> {
    if name == "A"@ {
        "B"@
    } else {
        "A"@
    }
}

/// The seat that an effect of an actor is aimed at.
pub open spec fn target_seat(who: Who, actor: Seq<char>) -> Seq<char> {
    match who {
        Who::SelfSide => actor,
        Who::Opp => other_seat(actor),
    }
}

/// What blanks the gimmick of one side. The gimmick is blank as long as one of these
/// holds; each ends on its own terms.
#[derive(Debug, Clone, Copy, PartialEq, Eq)]
pub struct PlayerState {
    /// Blank for the rest of the match.
    pub gimmick_blanked: bool,
    /// Blank until the end of the turn.
    pub blank_until_end_of_turn: bool,
    /// Blank until the side is next active, with the turn in which that was granted.
    pub blank_until_next_turn: Option<i64>,
    /// Blank until the side lands a hit.
    pub blank_until_hit: bool,
}

impl PlayerState {
    /// The gimmick is blank.
    pub open spec fn blanked(self) -> bool {
        ||| self.gimmick_blanked
        ||| self.blank_until_end_of_turn
        ||| self.blank_until_next_turn is Some
        ||| self.blank_until_hit
    }

    /// After a blank of the given duration that is granted in a turn. A blank that is
    /// granted once and for all lasts for the match. A duration that holds only while a
    /// card is in a zone is not granted, and leaves nothing here.
    pub open spec fn after_blank(self, duration: Duration, turn: i64) -> PlayerState {
        match duration {
            Duration::UntilEndOfTurn => PlayerState { blank_until_end_of_turn: true, ..self },
            Duration::UntilStartOfYourNextTurn => PlayerState {
                blank_until_next_turn: Some(turn),
                ..self
            },
            Duration::UntilTargetHitsCard => PlayerState { blank_until_hit: true, ..self },
            Duration::Instant => PlayerState { gimmick_blanked: true, ..self },
            _ => self,
        }
    }

    /// After the roll that makes a turn the side's own. What was granted in that very
    /// turn stays.
    pub open spec fn after_own_roll(self, turn: i64) -> PlayerState {
        match self.blank_until_next_turn {
            Some(granted) if granted < turn => PlayerState { blank_until_next_turn: None, ..self },
            _ => self,
        }
    }

    /// After a hit of the side.
    pub open spec fn after_hit(self) -> PlayerState {
        PlayerState { blank_until_hit: false, ..self }
    }

    /// After the end of a turn.
    pub open spec fn after_turn(self) -> PlayerState {
        PlayerState { blank_until_end_of_turn: false, ..self }
    }

    /// A side whose gimmick is not blank.
    pub fn new() -> (p: PlayerState)
        ensures
            !p.blanked(),
    {
        PlayerState {
            gimmick_blanked: false,
            blank_until_end_of_turn: false,
            blank_until_next_turn: None,
            blank_until_hit: false,
        }
    }
}

/// The two sides and the number of the turn.
#[derive(Debug, Clone, Copy, PartialEq, Eq)]
pub struct GameState {
    pub turn_no: i64,
    pub a: PlayerState,
    pub b: PlayerState,
}

impl GameState {
    /// The side in a seat.
    pub open spec fn at(self, name: Seq<char>) -> PlayerState {
        if name == "A"@ {
            self.a
        } else {
            self.b
        }
    }

    /// The state with another side in a seat.
    pub open spec fn with(self, name: Seq<char>, player: PlayerState) -> GameState {
        if name == "A"@ {
            GameState { a: player, ..self }
        } else {
            GameState { b: player, ..self }
        }
    }

    /// The side in a seat.
    pub fn player(&self, name: &str) -> (p: &PlayerState)
        requires
            seat(name@),
        ensures
            *p == self.at(name@),
    {
        if is_seat_a(name) {
            &self.a
        } else {
            &self.b
        }
    }

    fn put(&mut self, name: &str, player: PlayerState)
        requires
            seat(name@),
        ensures
            *final(self) == old(self).with(name@, player),
    {
        if is_seat_a(name) {
            self.a = player;
        } else {
            self.b = player;
        }
    }

    /// Whether the gimmick of a side is blank.
    pub fn is_gimmick_blanked(&self, name: &str) -> (r: bool)
        requires
            seat(name@),
        ensures
            r == self.at(name@).blanked(),
    {
        let p = self.player(name);
        p.gimmick_blanked || p.blank_until_end_of_turn || p.blank_until_next_turn.is_some()
            || p.blank_until_hit
    }
}

fn is_seat_a(name: &str) -> (r: bool)
    ensures
        r == (name@ == "A"@),
{
    name.to_owned() == "A".to_owned()
}

/// A match in progress.
#[derive(Debug, Clone, Copy, PartialEq, Eq)]
pub struct Engine {
    pub state: GameState,
}

impl Engine {
    /// A match before its first turn.
    pub fn new() -> (e: Engine)
        ensures
            e.state.turn_no == 0,
            !e.state.at("A"@).blanked(),
            !e.state.at("B"@).blanked(),
    {
        proof {
            reveal_strlit("A");
            reveal_strlit("B");
            assert("A"@[0] != "B"@[0]);
        }
        Engine { state: GameState { turn_no: 0, a: PlayerState::new(), b: PlayerState::new() } }
    }

    /// The seats in the order in which they resolve a turn roll: the higher roll first,
    /// and `A` first on a tie.
    pub fn roll_order(a: i64, b: i64) -> (order: [&'static str; 2])
        ensures
            order@[0]@ == if b > a { "B"@ } else { "A"@ },
            order@[1]@ == if b > a { "A"@ } else { "B"@ },
    {
        if b > a {
            ["B", "A"]
        } else {
            ["A", "B"]
        }
    }

    /// Blanks the gimmick of the side that an effect of an actor is aimed at. Nothing is
    /// granted for a duration that holds only while a card is in a zone.
    pub fn act_blank_gimmick(&mut self, who: Who, duration: Duration, actor: &str)
        requires
            seat(actor@),
        ensures
            final(self).state == old(self).state.with(
                target_seat(who, actor@),
                old(self).state.at(target_seat(who, actor@)).after_blank(
                    duration,
                    old(self).state.turn_no,
                ),
            ),
    {
        let other = if is_seat_a(actor) {
            "B"
        } else {
            "A"
        };
        let target = match who {
            Who::SelfSide => actor,
            Who::Opp => other,
        };
        let mut p = *self.state.player(target);
        match duration {
            Duration::UntilEndOfTurn => {
                p.blank_until_end_of_turn = true;
            },
            Duration::UntilStartOfYourNextTurn => {
                p.blank_until_next_turn = Some(self.state.turn_no);
            },
            Duration::UntilTargetHitsCard => {
                p.blank_until_hit = true;
            },
            Duration::Instant => {
                p.gimmick_blanked = true;
            },
            _ => {},
        }
        self.state.put(target, p);
    }

    /// Ends what lasts until the active side's next turn, once the roll has made the
    /// turn that side's own.
    pub fn sweep_next_turn_buffs(&mut self, active: &str)
        requires
            seat(active@),
        ensures
            final(self).state == old(self).state.with(
                active@,
                old(self).state.at(active@).after_own_roll(old(self).state.turn_no),
            ),
    {
        let mut p = *self.state.player(active);
        if let Some(granted) = p.blank_until_next_turn {
            if granted < self.state.turn_no {
                p.blank_until_next_turn = None;
            }
        }
        self.state.put(active, p);
    }

    /// Ends what lasts until a side lands a hit.
    pub fn record_landed_hit(&mut self, name: &str)
        requires
            seat(name@),
        ensures
            final(self).state == old(self).state.with(
                name@,
                old(self).state.at(name@).after_hit(),
            ),
    {
        let mut p = *self.state.player(name);
        p.blank_until_hit = false;
        self.state.put(name, p);
    }

    /// Ends what lasts until the end of the turn.
    pub fn sweep_end_of_turn(&mut self)
        ensures
            final(self).state == (GameState {
                turn_no: old(self).state.turn_no,
                a: old(self).state.a.after_turn(),
                b: old(self).state.b.after_turn(),
            }),
    {
        self.state.a.blank_until_end_of_turn = false;
        self.state.b.blank_until_end_of_turn = false;
    }
}

// ---------------------------------------------------------------------------
// Laws
// ---------------------------------------------------------------------------

/// What happens to one side leaves the other side as it is.
pub proof fn law_sides_are_apart(state: GameState, name: Seq<char>, player: PlayerState)
    requires
        seat(name),
    ensures
        state.with(name, player).at(other_seat(name)) == state.at(other_seat(name)),
        state.with(name, player).at(name) == player,
        state.with(name, player).turn_no == state.turn_no,
{
    reveal_strlit("A");
    reveal_strlit("B");
    assert("A"@[0] != "B"@[0]);
}

/// A blank until the start of the side's next turn holds through the roll of the turn
/// in which it was granted, and ends with the first later roll that makes a turn the
/// side's own.
pub proof fn law_blank_ends_with_own_next_turn(p: PlayerState, granted: i64, turn: i64)
    requires
        !p.blanked(),
    ensures
        ({
            let q = p.after_blank(Duration::UntilStartOfYourNextTurn, granted);
            &&& q.blanked()
            &&& q.after_own_roll(turn).blanked() <==> turn <= granted
            &&& q.after_turn() == q
            &&& q.after_hit() == q
        }),
{
}

/// A blank until the side hits a card ends with a hit of the side and with nothing
/// else.
pub proof fn law_blank_until_hit_ends_with_a_hit(p: PlayerState, turn: i64)
    requires
        !p.blanked(),
    ensures
        ({
            let q = p.after_blank(Duration::UntilTargetHitsCard, turn);
            &&& q.blanked()
            &&& q.after_own_roll(turn) == q
            &&& q.after_turn() == q
            &&& !q.after_hit().blanked()
        }),
{
}

/// A blank until the end of the turn ends with the turn and with nothing else.
pub proof fn law_blank_until_end_of_turn_ends_with_it(p: PlayerState, turn: i64)
    requires
        !p.blanked(),
    ensures
        ({
            let q = p.after_blank(Duration::UntilEndOfTurn, turn);
            &&& q.blanked()
            &&& q.after_own_roll(turn) == q
            &&& q.after_hit() == q
            &&& !q.after_turn().blanked()
        }),
{
}

/// A blank that is granted once and for all outlasts every sweep and every hit.
pub proof fn law_untimed_blank_persists(p: PlayerState, turn: i64)
    requires
        p.gimmick_blanked,
    ensures
        p.after_blank(Duration::Instant, turn) == p,
        p.after_own_roll(turn).gimmick_blanked,
        p.after_turn().gimmick_blanked,
        p.after_hit().gimmick_blanked,
        p.after_hit().blanked(),
{
}

/// No sweep and no hit blanks a gimmick.
pub proof fn law_only_a_blank_blanks(p: PlayerState, turn: i64)
    requires
        !p.blanked(),
    ensures
        p.after_own_roll(turn) == p,
        p.after_turn() == p,
        p.after_hit() == p,
{
}

/// The two seats are `A` and `B`; an effect on oneself stays in its seat, and one on the
/// opponent goes to the other.
pub proof fn law_opponents_sit_opposite(name: Seq<char>)
    ensures
        seat(name) <==> name == "A"@ || name == "B"@,
        target_seat(Who::SelfSide, name) == name,
        target_seat(Who::Opp, "A"@) == "B"@,
        target_seat(Who::Opp, "B"@) == "A"@,
        other_seat("A"@) == "B"@,
        other_seat("B"@) == "A"@,
{
    reveal_strlit("A");
    reveal_strlit("B");
    assert("A"@[0] != "B"@[0]);
}

/// The side in seat `A` is the first, the side in seat `B` the second.
pub proof fn law_each_side_has_its_seat(state: GameState, player: PlayerState)
    ensures
        state.at("A"@) == state.a,
        state.at("B"@) == state.b,
        state.with("A"@, player) == (GameState { turn_no: state.turn_no, a: player, b: state.b }),
        state.with("B"@, player) == (GameState { turn_no: state.turn_no, a: state.a, b: player }),
{
    reveal_strlit("A");
    reveal_strlit("B");
    assert("A"@[0] != "B"@[0]);
}

/// Any one of the four reasons blanks a gimmick, and without one it is not blank.
pub proof fn law_any_reason_blanks(p: PlayerState)
    ensures
        p.gimmick_blanked ==> p.blanked(),
        p.blank_until_end_of_turn ==> p.blanked(),
        p.blank_until_next_turn is Some ==> p.blanked(),
        p.blank_until_hit ==> p.blanked(),
        !p.gimmick_blanked && !p.blank_until_end_of_turn && p.blank_until_next_turn is None
            && !p.blank_until_hit ==> !p.blanked(),
{
}

/// A blank of any duration that is granted takes hold in every turn and from every
/// state, and leaves the other reasons as they are.
pub proof fn law_granted_blank_takes_hold(p: PlayerState, turn: i64)
    ensures
        p.after_blank(Duration::Instant, turn) == (PlayerState { gimmick_blanked: true, ..p }),
        p.after_blank(Duration::UntilEndOfTurn, turn) == (PlayerState {
            blank_until_end_of_turn: true,
            ..p
        }),
        p.after_blank(Duration::UntilStartOfYourNextTurn, turn) == (PlayerState {
            blank_until_next_turn: Some(turn),
            ..p
        }),
        p.after_blank(Duration::UntilTargetHitsCard, turn) == (PlayerState {
            blank_until_hit: true,
            ..p
        }),
        p.after_blank(Duration::Instant, turn).blanked(),
        p.after_blank(Duration::UntilEndOfTurn, turn).blanked(),
        p.after_blank(Duration::UntilStartOfYourNextTurn, turn).blanked(),
        p.after_blank(Duration::UntilTargetHitsCard, turn).blanked(),
        p.after_blank(Duration::WhileInPlay, turn) == p,
        p.after_blank(Duration::WhileGimmickActive, turn) == p,
        p.after_blank(Duration::WhileInDiscard, turn) == p,
{
}

/// An untimed blank, granted in any turn and from any state, is still there after every
/// later sweep, hit and further blank.
pub proof fn law_untimed_blank_is_for_the_match(
    p: PlayerState,
    turn: i64,
    later: i64,
    duration: Duration,
)
    ensures
        ({
            let q = p.after_blank(Duration::Instant, turn);
            &&& q.gimmick_blanked
            &&& q.blanked()
            &&& q.after_own_roll(later).gimmick_blanked
            &&& q.after_own_roll(later).blanked()
            &&& q.after_turn().gimmick_blanked
            &&& q.after_turn().blanked()
            &&& q.after_hit().gimmick_blanked
            &&& q.after_hit().blanked()
            &&& q.after_blank(duration, later).gimmick_blanked
        }),
{
}

/// Each sweep and each hit ends its own reason and leaves the others as they are; the
/// roll that makes a turn the side's own ends only what was granted in an earlier turn.
pub proof fn law_each_sweep_ends_its_own(p: PlayerState, granted: i64, turn: i64)
    ensures
        p.after_hit() == (PlayerState { blank_until_hit: false, ..p }),
        p.after_turn() == (PlayerState { blank_until_end_of_turn: false, ..p }),
        p.blank_until_next_turn is None ==> p.after_own_roll(turn) == p,
        p.blank_until_next_turn == Some(granted) && granted < turn ==> p.after_own_roll(turn) == (
        PlayerState { blank_until_next_turn: None, ..p }),
        p.blank_until_next_turn == Some(granted) && granted >= turn ==> p.after_own_roll(turn) == p,
{
}

} // verus!
