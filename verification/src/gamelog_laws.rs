//! What holds of every game log.

use crate::error::SrgError;
use crate::gamelog::{
    bonuses_alike, bonuses_tree, count_problem, event_problem, event_problems, event_sorted,
    event_values, first_failure, log_sorted, mods_alike, mods_tree, optional_text,
    optional_tree, parsed, players_tree, problems, rolls_alike, rolls_tree, same_values,
    texts_tree, BreakoutRoll, CardMovement, Event, GameLog, Header, PlayerInfo, RollMod,
};
use crate::json::{
    json_text, same_tree, sorted_tree, trees, Json, JsonTree,
};
use crate::json_laws::{
    law_same_is_equal, law_same_reflexive, law_same_symmetric, law_same_transitive,
    law_text_injective, law_text_is_one_line, lemma_decimal_chars, lemma_decimal_injective,
    lemma_fields_ok_each, lemma_fields_sorted_each, lemma_fields_unsigned_each,
    lemma_items_ok_each, lemma_items_sorted_each, lemma_items_unsigned_each,
    lemma_same_fields_each, lemma_same_items_each, tree_ok, unsigned_zeros,
};
use crate::lines::{
    blank, blanks_put_in, framed, law_blank_lines_are_ignored, law_rows_keep_the_rest,
    law_split_undoes_frame, line_list, one_line, rows, white_space,
};
use crate::text::{decimal, text_before, text_before_from, texts};
use crate::textmap::TextMap;
use vstd::prelude::*;

verus! {

// ---------------------------------------------------------------------------
// Alike is the same canonical form
// ---------------------------------------------------------------------------

proof fn lemma_same_texts(a: Seq<String>, b: Seq<String>)
    ensures
        same_tree(texts_tree(a), texts_tree(b)) <==> texts(a) == texts(b),
{
    let (x, y) = (texts_tree(a)->Array_0, texts_tree(b)->Array_0);
    lemma_same_items_each(x, y, x.len() as int);
    if texts(a) == texts(b) {
        assert(x.len() == texts(a).len() && y.len() == texts(b).len());
        assert forall|i: int| 0 <= i < x.len() implies same_tree(#[trigger] x[i], y[i]) by {
            assert(texts(a)[i] == texts(b)[i]);
        }
    }
    if same_tree(texts_tree(a), texts_tree(b)) {
        assert forall|i: int| 0 <= i < a.len() implies texts(a)[i] == #[trigger] texts(b)[i] by {
            assert(same_tree(x[i], y[i]));
        }
        assert(texts(a) =~= texts(b));
    }
}

proof fn lemma_same_optional(a: Option<String>, b: Option<String>)
    ensures
        same_tree(optional_tree(a), optional_tree(b)) <==> optional_text(a) == optional_text(b),
{
}

proof fn lemma_same_mods(a: Seq<RollMod>, b: Seq<RollMod>)
    ensures
        same_tree(mods_tree(a), mods_tree(b)) <==> mods_alike(a, b),
{
    let (x, y) = (mods_tree(a)->Array_0, mods_tree(b)->Array_0);
    lemma_same_items_each(x, y, x.len() as int);
    assert forall|i: int| 0 <= i < a.len() && i < b.len() implies #[trigger] a[i].alike(b[i])
        == same_tree(x[i], y[i]) by {
        reveal_with_fuel(same_tree, 5);
    }
}

proof fn lemma_same_rolls(a: Seq<BreakoutRoll>, b: Seq<BreakoutRoll>)
    ensures
        same_tree(rolls_tree(a), rolls_tree(b)) <==> rolls_alike(a, b),
{
    let (x, y) = (rolls_tree(a)->Array_0, rolls_tree(b)->Array_0);
    lemma_same_items_each(x, y, x.len() as int);
    assert forall|i: int| 0 <= i < a.len() && i < b.len() implies #[trigger] a[i].alike(b[i])
        == same_tree(x[i], y[i]) by {
        reveal_with_fuel(same_tree, 7);
    }
}

proof fn lemma_same_bonuses(a: Seq<(String, i64)>, b: Seq<(String, i64)>)
    ensures
        same_tree(bonuses_tree(a), bonuses_tree(b)) <==> bonuses_alike(a, b),
{
    let (x, y) = (bonuses_tree(a)->Object_0, bonuses_tree(b)->Object_0);
    lemma_same_fields_each(x, y, x.len() as int);
    assert forall|i: int|
        #![trigger x[i]]
        #![trigger a[i]]
        0 <= i < a.len() && i < b.len() implies (x[i].0 == y[i].0 && same_tree(x[i].1, y[i].1))
        == (a[i].0@ == b[i].0@ && a[i].1 == b[i].1) by {
    }
}

proof fn lemma_same_values(a: Seq<Json>, b: Seq<Json>)
    ensures
        same_tree(JsonTree::Array(trees(a)), JsonTree::Array(trees(b))) <==> same_values(a, b),
{
    let (x, y) = (trees(a), trees(b));
    lemma_same_items_each(x, y, x.len() as int);
    assert forall|i: int|
        #![trigger x[i]]
        #![trigger a[i]]
        0 <= i < a.len() && i < b.len() implies same_tree(x[i], y[i]) == same_tree(
        a[i].tree(),
        b[i].tree(),
    ) by {
    }
}

proof fn lemma_same_player(a: PlayerInfo, b: PlayerInfo)
    ensures
        same_tree(a.tree(), b.tree()) <==> a.alike(b),
{
    lemma_same_texts(a.deck@, b.deck@);
    reveal_with_fuel(same_tree, 7);
}

proof fn lemma_same_players(a: Seq<(String, PlayerInfo)>, b: Seq<(String, PlayerInfo)>)
    ensures
        same_tree(players_tree(a), players_tree(b)) <==> a.len() == b.len() && forall|i: int|
            0 <= i < a.len() ==> (#[trigger] a[i]).0@ == b[i].0@ && a[i].1.alike(b[i].1),
{
    let (x, y) = (players_tree(a)->Object_0, players_tree(b)->Object_0);
    lemma_same_fields_each(x, y, x.len() as int);
    assert forall|i: int|
        #![trigger x[i]]
        #![trigger a[i]]
        0 <= i < a.len() && i < b.len() implies (x[i].0 == y[i].0 && same_tree(x[i].1, y[i].1))
        == (a[i].0@ == b[i].0@ && a[i].1.alike(b[i].1)) by {
        lemma_same_player(a[i].1, b[i].1);
    }
}

/// Headers are alike exactly where their canonical forms are equal as JSON.
pub proof fn law_header_by_canonical_form(a: Header, b: Header)
    ensures
        a.alike(b) <==> same_tree(a.tree(), b.tree()),
{
    lemma_same_players(a.players.entries@, b.players.entries@);
    reveal_with_fuel(same_tree, 8);
}


/// The events are of the same kind.
pub open spec fn same_kind(a: Event, b: Event) -> bool {
    match (a, b) {
        (Event::Roll { .. }, Event::Roll { .. }) => true,
        (Event::TurnResult { .. }, Event::TurnResult { .. }) => true,
        (Event::Decision { .. }, Event::Decision { .. }) => true,
        (Event::Play { .. }, Event::Play { .. }) => true,
        (Event::Stop { .. }, Event::Stop { .. }) => true,
        (Event::Draw(_), Event::Draw(_)) => true,
        (Event::Bury(_), Event::Bury(_)) => true,
        (Event::Discard(_), Event::Discard(_)) => true,
        (Event::Search(_), Event::Search(_)) => true,
        (Event::FinishAttempt { .. }, Event::FinishAttempt { .. }) => true,
        (Event::Breakout { .. }, Event::Breakout { .. }) => true,
        (Event::CrowdMeter { .. }, Event::CrowdMeter { .. }) => true,
        (Event::Unsupported { .. }, Event::Unsupported { .. }) => true,
        (Event::EffectApplied { .. }, Event::EffectApplied { .. }) => true,
        (Event::Result { .. }, Event::Result { .. }) => true,
        _ => false,
    }
}

/// The tag says of which kind an event is.
pub proof fn law_tag_tells_kind(a: Event, b: Event)
    ensures
        a.tag() == b.tag() <==> same_kind(a, b),
{
    reveal_strlit("roll");
    reveal_strlit("turn_result");
    reveal_strlit("decision");
    reveal_strlit("play");
    reveal_strlit("stop");
    reveal_strlit("draw");
    reveal_strlit("bury");
    reveal_strlit("discard");
    reveal_strlit("search");
    reveal_strlit("finish_attempt");
    reveal_strlit("breakout");
    reveal_strlit("crowd_meter");
    reveal_strlit("unsupported");
    reveal_strlit("effect");
    reveal_strlit("result");
    let (s, t) = (a.tag(), b.tag());
    if s == t {
        assert(s.len() == t.len() && s[0] == t[0]);
    }
}

/// The fields of the canonical form of an event.
pub open spec fn event_fields(e: Event) -> Seq<(Seq<char>, JsonTree)> {
    e.tree()->Object_0
}

/// Where the `type` field stands in the canonical form of an event.
pub open spec fn type_index(e: Event) -> int {
    match e {
        Event::Roll { .. } => 5,
        Event::TurnResult { .. } => 2,
        Event::Decision { .. } => 6,
        Event::Play { .. } => 5,
        Event::Stop { .. } => 5,
        Event::Draw(_) => 5,
        Event::Bury(_) => 5,
        Event::Discard(_) => 5,
        Event::Search(_) => 5,
        Event::FinishAttempt { .. } => 6,
        Event::Breakout { .. } => 4,
        Event::CrowdMeter { .. } => 2,
        Event::Unsupported { .. } => 6,
        Event::EffectApplied { .. } => 5,
        Event::Result { .. } => 3,
    }
}

/// The canonical form of an event is an object with one `type` field, which holds the
/// tag.
pub proof fn law_type_field(e: Event)
    ensures
        e.tree() is Object,
        0 <= type_index(e) < event_fields(e).len(),
        event_fields(e)[type_index(e)] == ("type"@, JsonTree::Text(e.tag())),
        forall|i: int|
            0 <= i < event_fields(e).len() && i != type_index(e) ==> (#[trigger] event_fields(
                e,
            )[i]).0 != "type"@,
{
    reveal_strlit("type");
    reveal_strlit("action");
    reveal_strlit("atk_type");
    reveal_strlit("auto_success");
    reveal_strlit("base");
    reveal_strlit("bonus");
    reveal_strlit("broke_out");
    reveal_strlit("card");
    reveal_strlit("cards");
    reveal_strlit("chosen");
    reveal_strlit("crowd_meter");
    reveal_strlit("defender");
    reveal_strlit("delta");
    reveal_strlit("detail");
    reveal_strlit("finish");
    reveal_strlit("from");
    reveal_strlit("gimmick");
    reveal_strlit("hidden");
    reveal_strlit("legal");
    reveal_strlit("mods");
    reveal_strlit("order");
    reveal_strlit("owner");
    reveal_strlit("player");
    reveal_strlit("point");
    reveal_strlit("policy");
    reveal_strlit("raw");
    reveal_strlit("reason");
    reveal_strlit("rolls");
    reveal_strlit("skill");
    reveal_strlit("src");
    reveal_strlit("stopped");
    reveal_strlit("t");
    reveal_strlit("target");
    reveal_strlit("tie_bumps");
    reveal_strlit("turns");
    reveal_strlit("value");
    reveal_strlit("winner");
    let fields = event_fields(e);
    assert forall|i: int| 0 <= i < fields.len() && i != type_index(e) implies (
    #[trigger] fields[i]).0 != "type"@ by {
        let name = fields[i].0;
        if name == "type"@ {
            assert(name.len() == 4 && name[0] == 't');
        }
    }
}

/// Events of different kinds have different canonical forms.
proof fn lemma_other_kind(a: Event, b: Event)
    requires
        !same_kind(a, b),
    ensures
        !same_tree(a.tree(), b.tree()),
{
    law_tag_tells_kind(a, b);
    law_type_field(a);
    law_type_field(b);
    let (x, y) = (event_fields(a), event_fields(b));
    if same_tree(a.tree(), b.tree()) {
        lemma_same_fields_each(x, y, x.len() as int);
        let i = type_index(a);
        assert(x[i].0 == y[i].0 && same_tree(x[i].1, y[i].1));
        assert(i == type_index(b));
    }
}

proof fn lemma_same_movement(a: CardMovement, b: CardMovement, tag: Seq<char>)
    ensures
        same_tree(a.tree(tag), b.tree(tag)) <==> a.alike(b),
{
    lemma_same_texts(a.cards@, b.cards@);
    lemma_same_optional(a.source, b.source);
    reveal_with_fuel(same_tree, 8);
}

proof fn lemma_same_roll(a: Event, b: Event)
    requires
        a is Roll,
        b is Roll,
    ensures
        a.alike(b) <==> same_tree(a.tree(), b.tree()),
{
    lemma_same_mods(a->mods@, b->mods@);
    reveal_with_fuel(same_tree, 9);
}

proof fn lemma_same_turn_result(a: Event, b: Event)
    requires
        a is TurnResult,
        b is TurnResult,
    ensures
        a.alike(b) <==> same_tree(a.tree(), b.tree()),
{
    reveal_with_fuel(same_tree, 6);
}

proof fn lemma_same_decision(a: Event, b: Event)
    requires
        a is Decision,
        b is Decision,
    ensures
        a.alike(b) <==> same_tree(a.tree(), b.tree()),
{
    lemma_same_values(a->legal@, b->legal@);
    reveal_with_fuel(same_tree, 9);
}

proof fn lemma_same_play(a: Event, b: Event)
    requires
        a is Play,
        b is Play,
    ensures
        a.alike(b) <==> same_tree(a.tree(), b.tree()),
{
    reveal_with_fuel(same_tree, 8);
}

proof fn lemma_same_stop(a: Event, b: Event)
    requires
        a is Stop,
        b is Stop,
    ensures
        a.alike(b) <==> same_tree(a.tree(), b.tree()),
{
    reveal_with_fuel(same_tree, 8);
}

proof fn lemma_same_finish_attempt(a: Event, b: Event)
    requires
        a is FinishAttempt,
        b is FinishAttempt,
    ensures
        a.alike(b) <==> same_tree(a.tree(), b.tree()),
{
    lemma_same_bonuses(a->bonus.entries@, b->bonus.entries@);
    reveal_with_fuel(same_tree, 10);
}

proof fn lemma_same_breakout(a: Event, b: Event)
    requires
        a is Breakout,
        b is Breakout,
    ensures
        a.alike(b) <==> same_tree(a.tree(), b.tree()),
{
    lemma_same_rolls(a->rolls@, b->rolls@);
    reveal_with_fuel(same_tree, 7);
}

proof fn lemma_same_crowd_meter(a: Event, b: Event)
    requires
        a is CrowdMeter,
        b is CrowdMeter,
    ensures
        a.alike(b) <==> same_tree(a.tree(), b.tree()),
{
    reveal_with_fuel(same_tree, 6);
}

proof fn lemma_same_unsupported(a: Event, b: Event)
    requires
        a is Unsupported,
        b is Unsupported,
    ensures
        a.alike(b) <==> same_tree(a.tree(), b.tree()),
{
    lemma_same_optional(a->Unsupported_card, b->Unsupported_card);
    lemma_same_optional(a->gimmick, b->gimmick);
    reveal_with_fuel(same_tree, 9);
}

proof fn lemma_same_effect(a: Event, b: Event)
    requires
        a is EffectApplied,
        b is EffectApplied,
    ensures
        a.alike(b) <==> same_tree(a.tree(), b.tree()),
{
    lemma_same_optional(a->target, b->target);
    reveal_with_fuel(same_tree, 8);
}

proof fn lemma_same_result(a: Event, b: Event)
    requires
        a is Result,
        b is Result,
    ensures
        a.alike(b) <==> same_tree(a.tree(), b.tree()),
{
    reveal_with_fuel(same_tree, 7);
}

/// Events are alike exactly where their canonical forms are equal as JSON.
pub proof fn law_event_by_canonical_form(a: Event, b: Event)
    ensures
        a.alike(b) <==> same_tree(a.tree(), b.tree()),
{
    if !same_kind(a, b) {
        lemma_other_kind(a, b);
    } else {
        match a {
            Event::Roll { .. } => lemma_same_roll(a, b),
            Event::TurnResult { .. } => lemma_same_turn_result(a, b),
            Event::Decision { .. } => lemma_same_decision(a, b),
            Event::Play { .. } => lemma_same_play(a, b),
            Event::Stop { .. } => lemma_same_stop(a, b),
            Event::FinishAttempt { .. } => lemma_same_finish_attempt(a, b),
            Event::Breakout { .. } => lemma_same_breakout(a, b),
            Event::CrowdMeter { .. } => lemma_same_crowd_meter(a, b),
            Event::Unsupported { .. } => lemma_same_unsupported(a, b),
            Event::EffectApplied { .. } => lemma_same_effect(a, b),
            Event::Result { .. } => lemma_same_result(a, b),
            Event::Draw(m) => lemma_same_movement(m, b->Draw_0, "draw"@),
            Event::Bury(m) => lemma_same_movement(m, b->Bury_0, "bury"@),
            Event::Discard(m) => lemma_same_movement(m, b->Discard_0, "discard"@),
            Event::Search(m) => lemma_same_movement(m, b->Search_0, "search"@),
        }
    }
}

/// Logs are alike exactly where the lists of the canonical forms of their records are
/// equal as JSON.
pub proof fn law_log_by_canonical_form(a: GameLog, b: GameLog)
    ensures
        a.alike(b) <==> same_tree(
            JsonTree::Array(a.record_trees()),
            JsonTree::Array(b.record_trees()),
        ),
{
    let (x, y) = (a.record_trees(), b.record_trees());
    lemma_same_items_each(x, y, x.len() as int);
    law_header_by_canonical_form(a.header, b.header);
    assert(x[0] == a.header.tree() && y[0] == b.header.tree());
    assert(x.len() == a.events@.len() + 1 && y.len() == b.events@.len() + 1);
    assert forall|i: int|
        #![trigger a.events@[i]]
        0 <= i < a.events@.len() && i < b.events@.len() implies a.events@[i].alike(b.events@[i])
        == same_tree(x[i + 1], y[i + 1]) by {
        law_event_by_canonical_form(a.events@[i], b.events@[i]);
    }
    if a.alike(b) {
        assert forall|i: int| 0 <= i < x.len() implies same_tree(#[trigger] x[i], y[i]) by {
            if i > 0 {
                assert(a.events@[i - 1].alike(b.events@[i - 1]));
            }
        }
    }
    if same_tree(JsonTree::Array(x), JsonTree::Array(y)) {
        assert(same_tree(x[0], y[0]));
        assert forall|i: int| 0 <= i < a.events@.len() implies (#[trigger] a.events@[i]).alike(
            b.events@[i],
        ) by {
            assert(same_tree(x[i + 1], y[i + 1]));
        }
    }
}

/// Every log matches itself.
pub proof fn law_log_matches_itself(a: GameLog)
    ensures
        a.alike(a),
{
    law_log_by_canonical_form(a, a);
    law_same_reflexive(JsonTree::Array(a.record_trees()));
}

/// Which of two logs is the expected one does not matter.
pub proof fn law_match_is_symmetric(a: GameLog, b: GameLog)
    requires
        a.alike(b),
    ensures
        b.alike(a),
{
    law_log_by_canonical_form(a, b);
    law_log_by_canonical_form(b, a);
    law_same_symmetric(JsonTree::Array(a.record_trees()), JsonTree::Array(b.record_trees()));
}

/// Logs that match the same log match each other.
pub proof fn law_match_is_transitive(a: GameLog, b: GameLog, c: GameLog)
    requires
        a.alike(b),
        b.alike(c),
    ensures
        a.alike(c),
{
    law_log_by_canonical_form(a, b);
    law_log_by_canonical_form(b, c);
    law_log_by_canonical_form(a, c);
    law_same_transitive(
        JsonTree::Array(a.record_trees()),
        JsonTree::Array(b.record_trees()),
        JsonTree::Array(c.record_trees()),
    );
}

// ---------------------------------------------------------------------------
// Every difference is named
// ---------------------------------------------------------------------------

/// The text for one event is that for no other.
proof fn lemma_event_problem_injective(i: int, j: int)
    requires
        0 <= i,
        0 <= j,
        event_problem(i) == event_problem(j),
    ensures
        i == j,
{
    reveal_strlit("event ");
    reveal_strlit(" differs");
    let (x, y) = (decimal(i as nat), decimal(j as nat));
    let (s, t) = (event_problem(i), event_problem(j));
    assert(s.len() == x.len() + 14 && t.len() == y.len() + 14);
    assert(x =~= s.subrange(6, 6 + x.len() as int));
    assert(y =~= t.subrange(6, 6 + y.len() as int));
    lemma_decimal_injective(i as nat, j as nat);
}

/// The text for an event is none of the other texts.
proof fn lemma_event_problem_apart(i: int, m: int, n: int)
    requires
        0 <= i,
    ensures
        event_problem(i) != "header mismatch"@,
        event_problem(i) != count_problem(m, n),
{
    reveal_strlit("event ");
    reveal_strlit("header mismatch");
    reveal_strlit("event count: expected ");
    lemma_decimal_chars(i as nat);
    let s = event_problem(i);
    assert(s[0] == 'e');
    assert(s[6] == decimal(i as nat)[0]);
    assert("header mismatch"@[0] == 'h');
    assert(count_problem(m, n)[6] == 'c');
}

/// Among the first `k` events, those are named that differ.
proof fn lemma_event_named(a: Seq<Event>, b: Seq<Event>, k: int, i: int)
    requires
        0 <= i,
    ensures
        event_problems(a, b, k).contains(event_problem(i)) <==> i < k && !a[i].alike(b[i]),
    decreases k,
{
    let now = event_problems(a, b, k);
    if k > 0 {
        lemma_event_named(a, b, k - 1, i);
        let before = event_problems(a, b, k - 1);
        if !a[k - 1].alike(b[k - 1]) {
            let last = event_problem(k - 1);
            assert(now == before.push(last));
            if now.contains(event_problem(i)) {
                let w = choose|w: int| 0 <= w < now.len() && now[w] == event_problem(i);
                if w < before.len() {
                    assert(before[w] == event_problem(i));
                } else {
                    lemma_event_problem_injective(i, k - 1);
                }
            }
            if before.contains(event_problem(i)) {
                let w = choose|w: int| 0 <= w < before.len() && before[w] == event_problem(i);
                assert(now[w] == event_problem(i));
            }
            if i == k - 1 {
                assert(now[before.len() as int] == event_problem(i));
            }
        }
    }
}

/// The differences name exactly the events that both logs have and that differ.
pub proof fn law_differences_name_events(expected: GameLog, actual: GameLog, i: int)
    requires
        0 <= i < expected.events@.len(),
        i < actual.events@.len(),
    ensures
        problems(expected, actual).contains(event_problem(i)) <==> !expected.events@[i].alike(
            actual.events@[i],
        ),
{
    let (a, b) = (expected.events@, actual.events@);
    let (m, n) = (a.len() as int, b.len() as int);
    let k = vstd::math::min(m, n);
    let all = problems(expected, actual);
    let tail = event_problems(a, b, k);
    let head = (if expected.header.alike(actual.header) {
        Seq::empty()
    } else {
        seq!["header mismatch"@]
    }) + (if m == n {
        Seq::empty()
    } else {
        seq![count_problem(m, n)]
    });
    assert(all == head + tail);
    lemma_event_named(a, b, k, i);
    lemma_event_problem_apart(i, m, n);
    if all.contains(event_problem(i)) {
        let w = choose|w: int| 0 <= w < all.len() && all[w] == event_problem(i);
        if w < head.len() {
            assert(all[w] == head[w]);
            assert(head[w] == "header mismatch"@ || head[w] == count_problem(m, n));
        } else {
            assert(tail[w - head.len()] == event_problem(i));
        }
    }
    if tail.contains(event_problem(i)) {
        let w = choose|w: int| 0 <= w < tail.len() && tail[w] == event_problem(i);
        assert(all[w + head.len()] == event_problem(i));
    }
}

// ---------------------------------------------------------------------------
// The text of a log says which log it is
// ---------------------------------------------------------------------------

/// Every number with a fraction in the log has the text of one.
pub open spec fn numbers_ok(log: GameLog) -> bool {
    forall|i: int, j: int|
        0 <= i < log.events@.len() && 0 <= j < event_values(log.events@[i]).len() ==> tree_ok(
            #[trigger] event_values(log.events@[i])[j],
        )
}

/// No zero with a fraction in the log is written with a minus sign.
pub open spec fn zeros_unsigned(log: GameLog) -> bool {
    forall|i: int, j: int|
        0 <= i < log.events@.len() && 0 <= j < event_values(log.events@[i]).len()
            ==> unsigned_zeros(#[trigger] event_values(log.events@[i])[j])
}

proof fn lemma_texts_plain(a: Seq<String>)
    ensures
        tree_ok(texts_tree(a)),
        unsigned_zeros(texts_tree(a)),
{
    let x = texts_tree(a)->Array_0;
    lemma_items_ok_each(x, x.len() as int);
    lemma_items_unsigned_each(x, x.len() as int);
}

proof fn lemma_mods_plain(a: Seq<RollMod>)
    ensures
        tree_ok(mods_tree(a)),
        unsigned_zeros(mods_tree(a)),
{
    let x = mods_tree(a)->Array_0;
    assert forall|i: int| 0 <= i < x.len() implies tree_ok(#[trigger] x[i]) && unsigned_zeros(
        x[i],
    ) by {
        reveal_with_fuel(tree_ok, 4);
        reveal_with_fuel(unsigned_zeros, 4);
    }
    lemma_items_ok_each(x, x.len() as int);
    lemma_items_unsigned_each(x, x.len() as int);
}

proof fn lemma_rolls_plain(a: Seq<BreakoutRoll>)
    ensures
        tree_ok(rolls_tree(a)),
        unsigned_zeros(rolls_tree(a)),
{
    let x = rolls_tree(a)->Array_0;
    assert forall|i: int| 0 <= i < x.len() implies tree_ok(#[trigger] x[i]) && unsigned_zeros(
        x[i],
    ) by {
        reveal_with_fuel(tree_ok, 6);
        reveal_with_fuel(unsigned_zeros, 6);
    }
    lemma_items_ok_each(x, x.len() as int);
    lemma_items_unsigned_each(x, x.len() as int);
}

proof fn lemma_bonuses_plain(a: Seq<(String, i64)>)
    ensures
        tree_ok(bonuses_tree(a)),
        unsigned_zeros(bonuses_tree(a)),
{
    let x = bonuses_tree(a)->Object_0;
    lemma_fields_ok_each(x, x.len() as int);
    lemma_fields_unsigned_each(x, x.len() as int);
}

proof fn lemma_header_plain(h: Header)
    ensures
        tree_ok(h.tree()),
        unsigned_zeros(h.tree()),
{
    let x = players_tree(h.players.entries@)->Object_0;
    assert forall|i: int| 0 <= i < x.len() implies tree_ok((#[trigger] x[i]).1) && unsigned_zeros(
        x[i].1,
    ) by {
        lemma_texts_plain(h.players.entries@[i].1.deck@);
        reveal_with_fuel(tree_ok, 6);
        reveal_with_fuel(unsigned_zeros, 6);
    }
    lemma_fields_ok_each(x, x.len() as int);
    lemma_fields_unsigned_each(x, x.len() as int);
    let f = h.tree()->Object_0;
    assert forall|i: int| 0 <= i < f.len() implies tree_ok((#[trigger] f[i]).1) && unsigned_zeros(
        f[i].1,
    ) by {
        assert(tree_ok(players_tree(h.players.entries@)));
    }
    lemma_fields_ok_each(f, f.len() as int);
    lemma_fields_unsigned_each(f, f.len() as int);
}

pub(crate) proof fn lemma_event_ok(e: Event)
    requires
        forall|j: int| 0 <= j < event_values(e).len() ==> tree_ok(#[trigger] event_values(e)[j]),
    ensures
        tree_ok(e.tree()),
{
    let f = event_fields(e);
    match e {
        Event::Roll { mods, .. } => lemma_mods_plain(mods@),
        Event::Decision { legal, chosen, .. } => {
            let v = event_values(e);
            assert(v[v.len() - 1] == chosen.tree());
            assert forall|j: int| 0 <= j < legal@.len() implies tree_ok(
                #[trigger] trees(legal@)[j],
            ) by {
                assert(v[j] == trees(legal@)[j]);
            }
            lemma_items_ok_each(trees(legal@), trees(legal@).len() as int);
        },
        Event::Draw(m) => lemma_texts_plain(m.cards@),
        Event::Bury(m) => lemma_texts_plain(m.cards@),
        Event::Discard(m) => lemma_texts_plain(m.cards@),
        Event::Search(m) => lemma_texts_plain(m.cards@),
        Event::FinishAttempt { bonus, .. } => lemma_bonuses_plain(bonus.entries@),
        Event::Breakout { rolls, .. } => lemma_rolls_plain(rolls@),
        Event::EffectApplied { detail, .. } => {
            assert(event_values(e)[0] == detail.tree());
        },
        _ => {},
    }
    lemma_fields_ok_each(f, f.len() as int);
}

proof fn lemma_event_unsigned(e: Event)
    requires
        forall|j: int|
            0 <= j < event_values(e).len() ==> unsigned_zeros(#[trigger] event_values(e)[j]),
    ensures
        unsigned_zeros(e.tree()),
{
    let f = event_fields(e);
    match e {
        Event::Roll { mods, .. } => lemma_mods_plain(mods@),
        Event::Decision { legal, chosen, .. } => {
            let v = event_values(e);
            assert(v[v.len() - 1] == chosen.tree());
            assert forall|j: int| 0 <= j < legal@.len() implies unsigned_zeros(
                #[trigger] trees(legal@)[j],
            ) by {
                assert(v[j] == trees(legal@)[j]);
            }
            lemma_items_unsigned_each(trees(legal@), trees(legal@).len() as int);
        },
        Event::Draw(m) => lemma_texts_plain(m.cards@),
        Event::Bury(m) => lemma_texts_plain(m.cards@),
        Event::Discard(m) => lemma_texts_plain(m.cards@),
        Event::Search(m) => lemma_texts_plain(m.cards@),
        Event::FinishAttempt { bonus, .. } => lemma_bonuses_plain(bonus.entries@),
        Event::Breakout { rolls, .. } => lemma_rolls_plain(rolls@),
        Event::EffectApplied { detail, .. } => {
            assert(event_values(e)[0] == detail.tree());
        },
        _ => {},
    }
    lemma_fields_unsigned_each(f, f.len() as int);
}

proof fn lemma_records_ok(log: GameLog)
    requires
        numbers_ok(log),
    ensures
        forall|i: int|
            0 <= i < log.record_trees().len() ==> tree_ok(#[trigger] log.record_trees()[i]),
{
    let x = log.record_trees();
    lemma_header_plain(log.header);
    assert forall|i: int| 0 <= i < x.len() implies tree_ok(#[trigger] x[i]) by {
        if i > 0 {
            let e = log.events@[i - 1];
            lemma_event_ok(e);
            assert(x[i] == e.tree());
        }
    }
}

proof fn lemma_records_unsigned(log: GameLog)
    requires
        zeros_unsigned(log),
    ensures
        forall|i: int|
            0 <= i < log.record_trees().len() ==> unsigned_zeros(#[trigger] log.record_trees()[i]),
{
    let x = log.record_trees();
    lemma_header_plain(log.header);
    assert forall|i: int| 0 <= i < x.len() implies unsigned_zeros(#[trigger] x[i]) by {
        if i > 0 {
            let e = log.events@[i - 1];
            lemma_event_unsigned(e);
            assert(x[i] == e.tree());
        }
    }
}

/// A log has one line for each record, the header first, and no line of it is blank or
/// breaks in two.
pub proof fn law_one_line_per_record(log: GameLog, i: int)
    requires
        numbers_ok(log),
        0 <= i < log.lines().len(),
    ensures
        log.lines().len() == log.events@.len() + 1,
        log.lines()[0] == json_text(log.header.tree()),
        i > 0 ==> log.lines()[i] == json_text(log.events@[i - 1].tree()),
        one_line(log.lines()[i]),
        !blank(log.lines()[i]),
{
    lemma_records_ok(log);
    let t = log.record_trees()[i];
    let line = log.lines()[i];
    assert(tree_ok(t));
    law_text_is_one_line(t);
    assert(line == json_text(t));
    assert forall|j: int| 0 <= j < line.len() implies #[trigger] line[j] != '\n' by {
        assert(line[j] as int >= 32);
    }
    assert(line[line.len() - 1] as int >= 32);
    assert(!white_space(line[0]));
}

/// The rows of the file of a log are the lines of the log.
pub proof fn law_file_gives_back_lines(log: GameLog)
    requires
        numbers_ok(log),
    ensures
        rows(line_list(framed(log.lines()), 0)) == log.lines(),
{
    let lines = log.lines();
    assert forall|i: int| 0 <= i < lines.len() implies one_line(#[trigger] lines[i]) && !blank(
        lines[i],
    ) by {
        law_one_line_per_record(log, i);
    }
    law_split_undoes_frame(lines);
    law_rows_keep_the_rest(lines);
}

proof fn lemma_lines_tell(a: GameLog, b: GameLog)
    requires
        numbers_ok(a),
        numbers_ok(b),
        a.lines() == b.lines(),
    ensures
        a.record_trees() == b.record_trees(),
        a.alike(b),
{
    let (x, y) = (a.record_trees(), b.record_trees());
    lemma_records_ok(a);
    lemma_records_ok(b);
    assert(x.len() == a.lines().len() && y.len() == b.lines().len());
    assert forall|i: int| 0 <= i < x.len() implies #[trigger] x[i] == y[i] by {
        assert(a.lines()[i] == json_text(x[i]) && b.lines()[i] == json_text(y[i]));
        assert(tree_ok(x[i]) && tree_ok(y[i]));
        law_text_injective(x[i], y[i]);
    }
    assert(x =~= y);
    law_log_by_canonical_form(a, b);
    law_same_reflexive(JsonTree::Array(x));
}

/// Logs whose files are the same, character for character, match.
pub proof fn law_same_file_matches(a: GameLog, b: GameLog)
    requires
        numbers_ok(a),
        numbers_ok(b),
        framed(a.lines()) == framed(b.lines()),
    ensures
        a.alike(b),
{
    law_file_gives_back_lines(a);
    law_file_gives_back_lines(b);
    lemma_lines_tell(a, b);
}

/// Logs that match have the same file, character for character, unless a zero with a
/// fraction in one of them is written with a minus sign.
pub proof fn law_match_has_same_file(a: GameLog, b: GameLog)
    requires
        zeros_unsigned(a),
        zeros_unsigned(b),
        a.alike(b),
    ensures
        a.lines() == b.lines(),
        framed(a.lines()) == framed(b.lines()),
{
    let (x, y) = (a.record_trees(), b.record_trees());
    law_log_by_canonical_form(a, b);
    lemma_records_unsigned(a);
    lemma_records_unsigned(b);
    lemma_items_unsigned_each(x, x.len() as int);
    lemma_items_unsigned_each(y, y.len() as int);
    law_same_is_equal(JsonTree::Array(x), JsonTree::Array(y));
}

/// Reading gives back what was written: where every row of the file of a log is read as
/// a record with that row as its line, the log of these records matches the log that
/// was written.
pub proof fn law_read_gives_back_what_was_written(written: GameLog, read: GameLog)
    requires
        numbers_ok(written),
        numbers_ok(read),
        read.lines() == rows(line_list(framed(written.lines()), 0)),
    ensures
        read.record_trees() == written.record_trees(),
        read.alike(written),
{
    law_file_gives_back_lines(written);
    lemma_lines_tell(read, written);
}

/// What comes of reading the first row as a header.
pub open spec fn header_read(
    rows: Seq<Seq<char>>,
    read_header: spec_fn(Seq<char>) -> core::result::Result<Header, String>,
) -> Option<core::result::Result<Header, String>> {
    if rows.len() > 0 {
        Some(read_header(rows[0]))
    } else {
        None
    }
}

/// What comes of reading the other rows as events.
pub open spec fn events_read(
    rows: Seq<Seq<char>>,
    read_event: spec_fn(Seq<char>) -> core::result::Result<Event, String>,
) -> Seq<core::result::Result<Event, String>> {
    rows.skip(1).map_values(read_event)
}

/// Two outcomes of parsing are the same: the same log, or the same error.
pub open spec fn same_outcome(
    r: core::result::Result<GameLog, SrgError>,
    q: core::result::Result<GameLog, SrgError>,
) -> bool {
    match (r, q) {
        (Ok(a), Ok(b)) => a.header == b.header && a.events@ == b.events@,
        (Err(d), Err(e)) => d.text() == e.text(),
        _ => false,
    }
}

/// Blank lines that are put in, anywhere, also before the header, change neither the log
/// nor the error, however a row is read.
pub proof fn law_blank_lines_change_no_log(
    lines: Seq<Seq<char>>,
    more: Seq<Seq<char>>,
    read_header: spec_fn(Seq<char>) -> core::result::Result<Header, String>,
    read_event: spec_fn(Seq<char>) -> core::result::Result<Event, String>,
    r: core::result::Result<GameLog, SrgError>,
    q: core::result::Result<GameLog, SrgError>,
)
    requires
        blanks_put_in(lines, more),
        parsed(header_read(rows(lines), read_header), events_read(rows(lines), read_event), r),
        parsed(header_read(rows(more), read_header), events_read(rows(more), read_event), q),
    ensures
        same_outcome(r, q),
{
    law_blank_lines_are_ignored(lines, more);
}

/// The rows of a log are read as records that have these rows as their lines.
pub open spec fn rows_read_back(
    log: GameLog,
    read_header: spec_fn(Seq<char>) -> core::result::Result<Header, String>,
    read_event: spec_fn(Seq<char>) -> core::result::Result<Event, String>,
) -> bool {
    &&& read_header(log.lines()[0]) matches Ok(h) && json_text(h.tree()) == log.lines()[0]
    &&& forall|i: int|
        0 < i < log.lines().len() ==> (read_event(#[trigger] log.lines()[i]) matches Ok(e)
            && tree_ok(e.tree()) && json_text(e.tree()) == log.lines()[i])
}

proof fn lemma_no_failure<T>(items: Seq<core::result::Result<T, String>>, i: int)
    requires
        0 <= i <= items.len(),
        forall|j: int| i <= j < items.len() ==> (#[trigger] items[j]) is Ok,
    ensures
        first_failure(items, i) is None,
    decreases items.len() - i,
{
    if i < items.len() {
        assert(items[i] is Ok);
        lemma_no_failure(items, i + 1);
    }
}

/// Parsing the file of a log succeeds and gives back a log that matches it, wherever
/// its rows are read as records that have these rows as their lines.
pub proof fn law_parse_gives_back_the_log(
    log: GameLog,
    read_header: spec_fn(Seq<char>) -> core::result::Result<Header, String>,
    read_event: spec_fn(Seq<char>) -> core::result::Result<Event, String>,
    r: core::result::Result<GameLog, SrgError>,
)
    requires
        numbers_ok(log),
        rows_read_back(log, read_header, read_event),
        ({
            let kept = rows(line_list(framed(log.lines()), 0));
            parsed(header_read(kept, read_header), events_read(kept, read_event), r)
        }),
    ensures
        r matches Ok(back) && back.alike(log),
{
    law_file_gives_back_lines(log);
    let lines = log.lines();
    let events = events_read(lines, read_event);
    assert forall|j: int| 0 <= j < events.len() implies (#[trigger] events[j]) is Ok by {
        assert(events[j] == read_event(lines[j + 1]));
    }
    lemma_no_failure(events, 0);
    let back = r->Ok_0;
    let (x, y) = (back.record_trees(), log.record_trees());
    lemma_records_ok(log);
    lemma_header_plain(back.header);
    assert(x.len() == y.len());
    assert forall|i: int| 0 <= i < x.len() implies #[trigger] x[i] == y[i] by {
        assert(lines[i] == json_text(y[i]));
        assert(tree_ok(y[i]));
        if i > 0 {
            assert(events[i - 1] == read_event(lines[i]));
            assert(x[i] == back.events@[i - 1].tree());
        }
        law_text_injective(x[i], y[i]);
    }
    assert(x =~= y);
    law_log_by_canonical_form(back, log);
    law_same_reflexive(JsonTree::Array(x));
}

/// An event that is appended adds its line at the end of the file and changes nothing
/// before it.
pub proof fn law_append_adds_a_line(before: GameLog, event: Event, after: GameLog)
    requires
        after.header == before.header,
        after.events@ == before.events@.push(event),
    ensures
        after.lines() == before.lines().push(json_text(event.tree())),
        framed(after.lines()) == framed(before.lines()) + json_text(event.tree()) + seq!['\n'],
{
    assert(after.record_trees() =~= before.record_trees().push(event.tree()));
    assert(after.lines() =~= before.lines().push(json_text(event.tree())));
    assert(after.lines().drop_last() =~= before.lines());
}

// ---------------------------------------------------------------------------
// The names in an object ascend
// ---------------------------------------------------------------------------

/// The names that stand next to each other in a record ascend.
proof fn lemma_names_ascend()
    ensures
        text_before("action"@, "detail"@),
        text_before("atk_type"@, "card"@),
        text_before("auto_success"@, "bonus"@),
        text_before("base"@, "mods"@),
        text_before("bonus"@, "crowd_meter"@),
        text_before("broke_out"@, "defender"@),
        text_before("card"@, "gimmick"@),
        text_before("card"@, "order"@),
        text_before("card"@, "player"@),
        text_before("cards"@, "from"@),
        text_before("chosen"@, "legal"@),
        text_before("competitor"@, "deck"@),
        text_before("created"@, "kind"@),
        text_before("crowd_meter"@, "finish"@),
        text_before("deck"@, "entrance"@),
        text_before("defender"@, "rolls"@),
        text_before("delta"@, "src"@),
        text_before("delta"@, "t"@),
        text_before("detail"@, "src"@),
        text_before("entrance"@, "policy"@),
        text_before("finish"@, "player"@),
        text_before("from"@, "hidden"@),
        text_before("gimmick"@, "owner"@),
        text_before("hidden"@, "player"@),
        text_before("kind"@, "players"@),
        text_before("legal"@, "player"@),
        text_before("mods"@, "player"@),
        text_before("order"@, "player"@),
        text_before("owner"@, "raw"@),
        text_before("penalty"@, "skill"@),
        text_before("player"@, "point"@),
        text_before("player"@, "reason"@),
        text_before("player"@, "skill"@),
        text_before("player"@, "t"@),
        text_before("players"@, "schema"@),
        text_before("point"@, "policy"@),
        text_before("policy"@, "t"@),
        text_before("raw"@, "reason"@),
        text_before("reason"@, "stopped"@),
        text_before("reason"@, "t"@),
        text_before("rolls"@, "t"@),
        text_before("schema"@, "seed"@),
        text_before("skill"@, "success"@),
        text_before("skill"@, "t"@),
        text_before("src"@, "t"@),
        text_before("stopped"@, "t"@),
        text_before("success"@, "value"@),
        text_before("t"@, "target"@),
        text_before("t"@, "tie_bumps"@),
        text_before("t"@, "turns"@),
        text_before("t"@, "type"@),
        text_before("target"@, "type"@),
        text_before("tie_bumps"@, "type"@),
        text_before("turns"@, "type"@),
        text_before("type"@, "value"@),
        text_before("type"@, "winner"@),
{
    reveal_strlit("action");
    reveal_strlit("atk_type");
    reveal_strlit("auto_success");
    reveal_strlit("base");
    reveal_strlit("bonus");
    reveal_strlit("broke_out");
    reveal_strlit("card");
    reveal_strlit("cards");
    reveal_strlit("chosen");
    reveal_strlit("competitor");
    reveal_strlit("created");
    reveal_strlit("crowd_meter");
    reveal_strlit("deck");
    reveal_strlit("defender");
    reveal_strlit("delta");
    reveal_strlit("detail");
    reveal_strlit("entrance");
    reveal_strlit("finish");
    reveal_strlit("from");
    reveal_strlit("gimmick");
    reveal_strlit("hidden");
    reveal_strlit("kind");
    reveal_strlit("legal");
    reveal_strlit("mods");
    reveal_strlit("order");
    reveal_strlit("owner");
    reveal_strlit("penalty");
    reveal_strlit("player");
    reveal_strlit("players");
    reveal_strlit("point");
    reveal_strlit("policy");
    reveal_strlit("raw");
    reveal_strlit("reason");
    reveal_strlit("rolls");
    reveal_strlit("schema");
    reveal_strlit("seed");
    reveal_strlit("skill");
    reveal_strlit("src");
    reveal_strlit("stopped");
    reveal_strlit("success");
    reveal_strlit("t");
    reveal_strlit("target");
    reveal_strlit("tie_bumps");
    reveal_strlit("turns");
    reveal_strlit("type");
    reveal_strlit("value");
    reveal_strlit("winner");
    reveal_with_fuel(text_before_from, 4);
}

proof fn lemma_texts_sorted(a: Seq<String>)
    ensures
        sorted_tree(texts_tree(a)),
{
    let x = texts_tree(a)->Array_0;
    lemma_items_sorted_each(x, x.len() as int);
}

proof fn lemma_header_sorted(h: Header)
    requires
        h.players.wf(),
    ensures
        sorted_tree(h.tree()),
{
    lemma_names_ascend();
    let entries = h.players.entries@;
    let x = players_tree(entries)->Object_0;
    assert forall|i: int| 0 <= i < x.len() implies sorted_tree((#[trigger] x[i]).1) by {
        lemma_texts_sorted(entries[i].1.deck@);
        reveal_with_fuel(sorted_tree, 6);
    }
    assert forall|i: int, j: int| 0 <= i < x.len() && j == i + 1 && j < x.len() implies text_before(
        (#[trigger] x[i]).0,
        (#[trigger] x[j]).0,
    ) by {
        assert(text_before(entries[i].0@, entries[j].0@));
    }
    lemma_fields_sorted_each(x, x.len() as int);
    reveal_with_fuel(sorted_tree, 7);
}

proof fn lemma_movement_sorted(m: CardMovement, tag: Seq<char>)
    ensures
        sorted_tree(m.tree(tag)),
{
    lemma_names_ascend();
    lemma_texts_sorted(m.cards@);
    reveal_with_fuel(sorted_tree, 8);
}

proof fn lemma_mods_sorted(a: Seq<RollMod>)
    ensures
        sorted_tree(mods_tree(a)),
{
    lemma_names_ascend();
    let x = mods_tree(a)->Array_0;
    assert forall|i: int| 0 <= i < x.len() implies sorted_tree(#[trigger] x[i]) by {
        reveal_with_fuel(sorted_tree, 4);
    }
    lemma_items_sorted_each(x, x.len() as int);
}

proof fn lemma_rolls_sorted(a: Seq<BreakoutRoll>)
    ensures
        sorted_tree(rolls_tree(a)),
{
    lemma_names_ascend();
    let x = rolls_tree(a)->Array_0;
    assert forall|i: int| 0 <= i < x.len() implies sorted_tree(#[trigger] x[i]) by {
        reveal_with_fuel(sorted_tree, 6);
    }
    lemma_items_sorted_each(x, x.len() as int);
}

proof fn lemma_bonuses_sorted(bonus: TextMap<i64>)
    requires
        bonus.wf(),
    ensures
        sorted_tree(bonuses_tree(bonus.entries@)),
{
    let entries = bonus.entries@;
    let x = bonuses_tree(entries)->Object_0;
    assert forall|i: int, j: int| 0 <= i < x.len() && j == i + 1 && j < x.len() implies text_before(
        (#[trigger] x[i]).0,
        (#[trigger] x[j]).0,
    ) by {
        assert(text_before(entries[i].0@, entries[j].0@));
    }
    lemma_fields_sorted_each(x, x.len() as int);
}

proof fn lemma_event_sorted(e: Event)
    requires
        event_sorted(e),
    ensures
        sorted_tree(e.tree()),
{
    lemma_names_ascend();
    match e {
        Event::Roll { mods, .. } => {
            lemma_mods_sorted(mods@);
            reveal_with_fuel(sorted_tree, 9);
        },
        Event::Decision { legal, chosen, .. } => {
            let v = event_values(e);
            assert(v[v.len() - 1] == chosen.tree());
            assert forall|j: int| 0 <= j < legal@.len() implies sorted_tree(
                #[trigger] trees(legal@)[j],
            ) by {
                assert(v[j] == trees(legal@)[j]);
            }
            lemma_items_sorted_each(trees(legal@), trees(legal@).len() as int);
            reveal_with_fuel(sorted_tree, 9);
        },
        Event::Draw(m) => lemma_movement_sorted(m, e.tag()),
        Event::Bury(m) => lemma_movement_sorted(m, e.tag()),
        Event::Discard(m) => lemma_movement_sorted(m, e.tag()),
        Event::Search(m) => lemma_movement_sorted(m, e.tag()),
        Event::FinishAttempt { bonus, .. } => {
            lemma_bonuses_sorted(bonus);
            reveal_with_fuel(sorted_tree, 10);
        },
        Event::Breakout { rolls, .. } => {
            lemma_rolls_sorted(rolls@);
            reveal_with_fuel(sorted_tree, 7);
        },
        Event::EffectApplied { detail, .. } => {
            assert(event_values(e)[0] == detail.tree());
            reveal_with_fuel(sorted_tree, 8);
        },
        _ => {
            reveal_with_fuel(sorted_tree, 9);
        },
    }
}

/// The names in every object of the canonical form ascend.
pub proof fn law_canonical_names_ascend(log: GameLog, i: int)
    requires
        log_sorted(log),
        0 <= i < log.record_trees().len(),
    ensures
        sorted_tree(log.record_trees()[i]),
{
    if i == 0 {
        lemma_header_sorted(log.header);
    } else {
        let e = log.events@[i - 1];
        assert(log.record_trees()[i] == e.tree());
        lemma_event_sorted(e);
    }
}

} // verus!
