//! What the line of each record holds, when records and logs match, what parsing gives,
//! and what the differences say, field by field and row by row.

use crate::error::SrgError;
use crate::gamelog::{
    event_problem, event_problems, first_failure, mods_alike, parsed, problems, rolls_alike,
    BreakoutRoll, CardMovement, Event, GameLog, Header, PlayerInfo, RollMod,
};
use crate::gamelog_laws::{
    law_differences_name_events, law_event_by_canonical_form, lemma_event_ok,
};
use crate::json::{json_text, same_tree, JsonTree};
use crate::json_laws::{law_same_reflexive, law_text_injective, tree_ok};
use crate::text::{decimal, texts};
use vstd::prelude::*;

verus! {

// ---------------------------------------------------------------------------
// The lines
// ---------------------------------------------------------------------------

/// The line of a roll names every field, and gives each its value.
pub proof fn law_roll_is_written_whole(e: Event)
    ensures
        e matches Event::Roll { t, player, skill, base, value, mods } ==> {
            let f = e.tree()->Object_0;
            &&& e.tree() is Object
            &&& f.len() == 7
            &&& f[0] == ("base"@, JsonTree::Number(base as int))
            &&& f[1].0 == "mods"@
            &&& f[1].1 is Array
            &&& f[1].1->Array_0.len() == mods@.len()
            &&& forall|i: int|
                0 <= i < mods@.len() ==> #[trigger] f[1].1->Array_0[i] == mods@[i].tree()
            &&& f[2] == ("player"@, JsonTree::Text(player@))
            &&& f[3] == ("skill"@, JsonTree::Text(skill@))
            &&& f[4] == ("t"@, JsonTree::Number(t as int))
            &&& f[5] == ("type"@, JsonTree::Text("roll"@))
            &&& f[6] == ("value"@, JsonTree::Number(value as int))
        },
{
}

/// The line of a turn result names every field, and gives each its value.
pub proof fn law_turn_result_is_written_whole(e: Event)
    ensures
        e matches Event::TurnResult { t, winner, tie_bumps } ==> {
            let f = e.tree()->Object_0;
            &&& e.tree() is Object
            &&& f.len() == 4
            &&& f[0] == ("t"@, JsonTree::Number(t as int))
            &&& f[1] == ("tie_bumps"@, JsonTree::Number(tie_bumps as int))
            &&& f[2] == ("type"@, JsonTree::Text("turn_result"@))
            &&& f[3] == ("winner"@, JsonTree::Text(winner@))
        },
{
}

/// The line of a decision names every field, and gives each its value.
pub proof fn law_decision_is_written_whole(e: Event)
    ensures
        e matches Event::Decision { t, player, point, legal, chosen, policy } ==> {
            let f = e.tree()->Object_0;
            &&& e.tree() is Object
            &&& f.len() == 7
            &&& f[0] == ("chosen"@, chosen.tree())
            &&& f[1].0 == "legal"@
            &&& f[1].1 is Array
            &&& f[1].1->Array_0.len() == legal@.len()
            &&& forall|i: int|
                0 <= i < legal@.len() ==> #[trigger] f[1].1->Array_0[i] == legal@[i].tree()
            &&& f[2] == ("player"@, JsonTree::Text(player@))
            &&& f[3] == ("point"@, JsonTree::Text(point@))
            &&& f[4] == ("policy"@, JsonTree::Text(policy@))
            &&& f[5] == ("t"@, JsonTree::Number(t as int))
            &&& f[6] == ("type"@, JsonTree::Text("decision"@))
        },
{
}

/// The line of a play names every field, and gives each its value.
pub proof fn law_play_is_written_whole(e: Event)
    ensures
        e matches Event::Play { t, player, card, order, atk_type } ==> {
            let f = e.tree()->Object_0;
            &&& e.tree() is Object
            &&& f.len() == 6
            &&& f[0] == ("atk_type"@, JsonTree::Text(atk_type@))
            &&& f[1] == ("card"@, JsonTree::Text(card@))
            &&& f[2] == ("order"@, JsonTree::Text(order@))
            &&& f[3] == ("player"@, JsonTree::Text(player@))
            &&& f[4] == ("t"@, JsonTree::Number(t as int))
            &&& f[5] == ("type"@, JsonTree::Text("play"@))
        },
{
}

/// The line of a stop names every field, and gives each its value.
pub proof fn law_stop_is_written_whole(e: Event)
    ensures
        e matches Event::Stop { t, player, card, stopped, reason } ==> {
            let f = e.tree()->Object_0;
            &&& e.tree() is Object
            &&& f.len() == 6
            &&& f[0] == ("card"@, JsonTree::Text(card@))
            &&& f[1] == ("player"@, JsonTree::Text(player@))
            &&& f[2] == ("reason"@, JsonTree::Text(reason@))
            &&& f[3] == ("stopped"@, JsonTree::Text(stopped@))
            &&& f[4] == ("t"@, JsonTree::Number(t as int))
            &&& f[5] == ("type"@, JsonTree::Text("stop"@))
        },
{
}

/// The line of a finish attempt names every field, and gives each its value.
pub proof fn law_finish_attempt_is_written_whole(e: Event)
    ensures
        e matches Event::FinishAttempt {
            t,
            player,
            finish,
            value,
            crowd_meter,
            auto_success,
            bonus,
        } ==> {
            let f = e.tree()->Object_0;
            &&& e.tree() is Object
            &&& f.len() == 8
            &&& f[0] == ("auto_success"@, JsonTree::Bool(auto_success))
            &&& f[1].0 == "bonus"@
            &&& f[1].1 is Object
            &&& f[1].1->Object_0.len() == bonus.entries@.len()
            &&& forall|i: int|
                0 <= i < bonus.entries@.len() ==> #[trigger] f[1].1->Object_0[i]
                    == (bonus.entries@[i].0@, JsonTree::Number(bonus.entries@[i].1 as int))
            &&& f[2] == ("crowd_meter"@, JsonTree::Number(crowd_meter as int))
            &&& f[3] == ("finish"@, JsonTree::Text(finish@))
            &&& f[4] == ("player"@, JsonTree::Text(player@))
            &&& f[5] == ("t"@, JsonTree::Number(t as int))
            &&& f[6] == ("type"@, JsonTree::Text("finish_attempt"@))
            &&& f[7] == ("value"@, JsonTree::Number(value as int))
        },
{
}

/// The line of a breakout names every field, and gives each its value.
pub proof fn law_breakout_is_written_whole(e: Event)
    ensures
        e matches Event::Breakout { t, defender, broke_out, rolls } ==> {
            let f = e.tree()->Object_0;
            &&& e.tree() is Object
            &&& f.len() == 5
            &&& f[0] == ("broke_out"@, JsonTree::Bool(broke_out))
            &&& f[1] == ("defender"@, JsonTree::Text(defender@))
            &&& f[2].0 == "rolls"@
            &&& f[2].1 is Array
            &&& f[2].1->Array_0.len() == rolls@.len()
            &&& forall|i: int|
                0 <= i < rolls@.len() ==> #[trigger] f[2].1->Array_0[i] == rolls@[i].tree()
            &&& f[3] == ("t"@, JsonTree::Number(t as int))
            &&& f[4] == ("type"@, JsonTree::Text("breakout"@))
        },
{
}

/// The line of a change of the Crowd Meter names every field, and gives each its value.
pub proof fn law_crowd_meter_is_written_whole(e: Event)
    ensures
        e matches Event::CrowdMeter { t, delta, value } ==> {
            let f = e.tree()->Object_0;
            &&& e.tree() is Object
            &&& f.len() == 4
            &&& f[0] == ("delta"@, JsonTree::Number(delta as int))
            &&& f[1] == ("t"@, JsonTree::Number(t as int))
            &&& f[2] == ("type"@, JsonTree::Text("crowd_meter"@))
            &&& f[3] == ("value"@, JsonTree::Number(value as int))
        },
{
}

/// The line of a rule that is not supported names every field, and gives each its value.
pub proof fn law_unsupported_is_written_whole(e: Event)
    ensures
        e matches Event::Unsupported { t, owner, raw, reason, card, gimmick } ==> {
            let f = e.tree()->Object_0;
            &&& e.tree() is Object
            &&& f.len() == 7
            &&& f[0].0 == "card"@
            &&& card is None ==> f[0].1 is Null
            &&& card matches Some(s) ==> f[0].1 == JsonTree::Text(s@)
            &&& f[1].0 == "gimmick"@
            &&& gimmick is None ==> f[1].1 is Null
            &&& gimmick matches Some(s) ==> f[1].1 == JsonTree::Text(s@)
            &&& f[2] == ("owner"@, JsonTree::Text(owner@))
            &&& f[3] == ("raw"@, JsonTree::Text(raw@))
            &&& f[4] == ("reason"@, JsonTree::Text(reason@))
            &&& f[5] == ("t"@, JsonTree::Number(t as int))
            &&& f[6] == ("type"@, JsonTree::Text("unsupported"@))
        },
{
}

/// The line of a effect names every field, and gives each its value.
pub proof fn law_effect_is_written_whole(e: Event)
    ensures
        e matches Event::EffectApplied { t, src, action, target, detail } ==> {
            let f = e.tree()->Object_0;
            &&& e.tree() is Object
            &&& f.len() == 6
            &&& f[0] == ("action"@, JsonTree::Text(action@))
            &&& f[1] == ("detail"@, detail.tree())
            &&& f[2] == ("src"@, JsonTree::Text(src@))
            &&& f[3] == ("t"@, JsonTree::Number(t as int))
            &&& f[4].0 == "target"@
            &&& target is None ==> f[4].1 is Null
            &&& target matches Some(s) ==> f[4].1 == JsonTree::Text(s@)
            &&& f[5] == ("type"@, JsonTree::Text("effect"@))
        },
{
}

/// The line of a result names every field, and gives each its value.
pub proof fn law_result_is_written_whole(e: Event)
    ensures
        e matches Event::Result { t, winner, reason, turns } ==> {
            let f = e.tree()->Object_0;
            &&& e.tree() is Object
            &&& f.len() == 5
            &&& f[0] == ("reason"@, JsonTree::Text(reason@))
            &&& f[1] == ("t"@, JsonTree::Number(t as int))
            &&& f[2] == ("turns"@, JsonTree::Number(turns as int))
            &&& f[3] == ("type"@, JsonTree::Text("result"@))
            &&& f[4] == ("winner"@, JsonTree::Text(winner@))
        },
{
}

/// The line of a card movement names every field, and gives each its value; the place
/// that the cards come from is named `from`.
pub proof fn law_movement_is_written_whole(m: CardMovement, tag: Seq<char>)
    ensures
        ({
            let f = m.tree(tag)->Object_0;
            &&& m.tree(tag) is Object
            &&& f.len() == 6
            &&& f[0].0 == "cards"@
            &&& f[0].1 is Array
            &&& f[0].1->Array_0.len() == m.cards@.len()
            &&& forall|i: int|
                0 <= i < m.cards@.len() ==> #[trigger] f[0].1->Array_0[i]
                    == JsonTree::Text(m.cards@[i]@)
            &&& f[1].0 == "from"@
            &&& m.source is None ==> f[1].1 is Null
            &&& m.source matches Some(s) ==> f[1].1 == JsonTree::Text(s@)
            &&& f[2] == ("hidden"@, JsonTree::Bool(m.hidden))
            &&& f[3] == ("player"@, JsonTree::Text(m.player@))
            &&& f[4] == ("t"@, JsonTree::Number(m.t as int))
            &&& f[5] == ("type"@, JsonTree::Text(tag))
        }),
{
}

/// The four card movements are told apart by their tags alone.
pub proof fn law_movements_have_their_tags(m: CardMovement)
    ensures
        Event::Draw(m).tree() == m.tree("draw"@),
        Event::Bury(m).tree() == m.tree("bury"@),
        Event::Discard(m).tree() == m.tree("discard"@),
        Event::Search(m).tree() == m.tree("search"@),
{
}

/// The form of a player names every field, and gives each its value.
pub proof fn law_player_is_written_whole(p: PlayerInfo)
    ensures
        ({
            let f = p.tree()->Object_0;
            &&& p.tree() is Object
            &&& f.len() == 4
            &&& f[0] == ("competitor"@, JsonTree::Text(p.competitor@))
            &&& f[1].0 == "deck"@
            &&& f[1].1 is Array
            &&& f[1].1->Array_0.len() == p.deck@.len()
            &&& forall|i: int|
                0 <= i < p.deck@.len() ==> #[trigger] f[1].1->Array_0[i]
                    == JsonTree::Text(p.deck@[i]@)
            &&& f[2] == ("entrance"@, JsonTree::Text(p.entrance@))
            &&& f[3] == ("policy"@, JsonTree::Text(p.policy@))
        }),
{
}

/// The form of a header names every field, and gives each its value.
pub proof fn law_header_is_written_whole(h: Header)
    ensures
        ({
            let f = h.tree()->Object_0;
            &&& h.tree() is Object
            &&& f.len() == 5
            &&& f[0] == ("created"@, JsonTree::Text(h.created@))
            &&& f[1] == ("kind"@, JsonTree::Text(h.kind@))
            &&& f[2].0 == "players"@
            &&& f[2].1 is Object
            &&& f[2].1->Object_0.len() == h.players.entries@.len()
            &&& forall|i: int|
                0 <= i < h.players.entries@.len() ==> #[trigger] f[2].1->Object_0[i]
                    == (h.players.entries@[i].0@, h.players.entries@[i].1.tree())
            &&& f[3] == ("schema"@, JsonTree::Number(h.schema as int))
            &&& f[4] == ("seed"@, JsonTree::Number(h.seed as int))
        }),
{
}

/// The form of a change of a roll names every field, and gives each its value.
pub proof fn law_roll_change_is_written_whole(m: RollMod)
    ensures
        ({
            let f = m.tree()->Object_0;
            &&& m.tree() is Object
            &&& f.len() == 2
            &&& f[0] == ("delta"@, JsonTree::Number(m.delta as int))
            &&& f[1] == ("src"@, JsonTree::Text(m.src@))
        }),
{
}

/// The form of a breakout die names every field, and gives each its value.
pub proof fn law_breakout_die_is_written_whole(r: BreakoutRoll)
    ensures
        ({
            let f = r.tree()->Object_0;
            &&& r.tree() is Object
            &&& f.len() == 4
            &&& f[0] == ("penalty"@, JsonTree::Number(r.penalty as int))
            &&& f[1] == ("skill"@, JsonTree::Text(r.skill@))
            &&& f[2] == ("success"@, JsonTree::Bool(r.success))
            &&& f[3] == ("value"@, JsonTree::Number(r.value as int))
        }),
{
}

// ---------------------------------------------------------------------------
// Matching
// ---------------------------------------------------------------------------

proof fn lemma_mods_alike(a: Seq<RollMod>, b: Seq<RollMod>)
    ensures
        mods_alike(a, b) <==> a.len() == b.len() && forall|i: int|
            0 <= i < a.len() ==> (#[trigger] a[i]).src@ == b[i].src@ && a[i].delta == b[i].delta,
{
    if mods_alike(a, b) {
        assert forall|i: int| 0 <= i < a.len() implies (#[trigger] a[i]).src@ == b[i].src@
            && a[i].delta == b[i].delta by {
            assert(a[i].alike(b[i]));
        }
    }
}

proof fn lemma_rolls_alike(a: Seq<BreakoutRoll>, b: Seq<BreakoutRoll>)
    ensures
        rolls_alike(a, b) <==> a.len() == b.len() && forall|i: int|
            0 <= i < a.len() ==> (#[trigger] a[i]).skill@ == b[i].skill@ && a[i].value == b[i].value
                && a[i].penalty == b[i].penalty && a[i].success == b[i].success,
{
    if rolls_alike(a, b) {
        assert forall|i: int| 0 <= i < a.len() implies (#[trigger] a[i]).skill@ == b[i].skill@
            && a[i].value == b[i].value && a[i].penalty == b[i].penalty && a[i].success
            == b[i].success by {
            assert(a[i].alike(b[i]));
        }
    }
}

/// Two events match where they agree in every field, and only there; this kind:
/// roll.
pub proof fn law_roll_matches_in_every_field(a: Event, b: Event)
    ensures
        a matches Event::Roll { t, player, skill, base, value, mods } ==> (
        b matches Event::Roll {
            t: t2,
            player: player2,
            skill: skill2,
            base: base2,
            value: value2,
            mods: mods2,
        } ==> (a.alike(b) <==> {
            &&& t == t2
            &&& player@ == player2@
            &&& skill@ == skill2@
            &&& base == base2
            &&& value == value2
            &&& mods@.len() == mods2@.len()
            &&& (forall|i: int|
                0 <= i < mods@.len() ==> (#[trigger] mods@[i]).src@ == mods2@[i].src@
                    && mods@[i].delta == mods2@[i].delta)
        })),
        a is Roll && !(b is Roll) ==> !a.alike(b),
{
    if let (Event::Roll { mods, .. }, Event::Roll { mods: mods2, .. }) = (a, b) {
        lemma_mods_alike(mods@, mods2@);
    }
}

/// Two events match where they agree in every field, and only there; this kind:
/// turn result.
pub proof fn law_turn_result_matches_in_every_field(a: Event, b: Event)
    ensures
        a matches Event::TurnResult { t, winner, tie_bumps } ==> (
        b matches Event::TurnResult { t: t2, winner: winner2, tie_bumps: tie_bumps2 } ==> (a.alike(
            b,
        ) <==> {
            &&& t == t2
            &&& winner@ == winner2@
            &&& tie_bumps == tie_bumps2
        })),
        a is TurnResult && !(b is TurnResult) ==> !a.alike(b),
{
}

/// Two events match where they agree in every field, and only there; this kind:
/// decision.
pub proof fn law_decision_matches_in_every_field(a: Event, b: Event)
    ensures
        a matches Event::Decision { t, player, point, legal, chosen, policy } ==> (
        b matches Event::Decision {
            t: t2,
            player: player2,
            point: point2,
            legal: legal2,
            chosen: chosen2,
            policy: policy2,
        } ==> (a.alike(b) <==> {
            &&& t == t2
            &&& player@ == player2@
            &&& point@ == point2@
            &&& legal@.len() == legal2@.len()
            &&& (forall|i: int|
                0 <= i < legal@.len() ==> same_tree(
                    (#[trigger] legal@[i]).tree(),
                    legal2@[i].tree(),
                ))
            &&& same_tree(chosen.tree(), chosen2.tree())
            &&& policy@ == policy2@
        })),
        a is Decision && !(b is Decision) ==> !a.alike(b),
{
}

/// Two events match where they agree in every field, and only there; this kind:
/// play.
pub proof fn law_play_matches_in_every_field(a: Event, b: Event)
    ensures
        a matches Event::Play { t, player, card, order, atk_type } ==> (
        b matches Event::Play {
            t: t2,
            player: player2,
            card: card2,
            order: order2,
            atk_type: atk_type2,
        } ==> (a.alike(b) <==> {
            &&& t == t2
            &&& player@ == player2@
            &&& card@ == card2@
            &&& order@ == order2@
            &&& atk_type@ == atk_type2@
        })),
        a is Play && !(b is Play) ==> !a.alike(b),
{
}

/// Two events match where they agree in every field, and only there; this kind:
/// stop.
pub proof fn law_stop_matches_in_every_field(a: Event, b: Event)
    ensures
        a matches Event::Stop { t, player, card, stopped, reason } ==> (
        b matches Event::Stop {
            t: t2,
            player: player2,
            card: card2,
            stopped: stopped2,
            reason: reason2,
        } ==> (a.alike(b) <==> {
            &&& t == t2
            &&& player@ == player2@
            &&& card@ == card2@
            &&& stopped@ == stopped2@
            &&& reason@ == reason2@
        })),
        a is Stop && !(b is Stop) ==> !a.alike(b),
{
}

/// Two events match where they agree in every field, and only there; this kind:
/// finish attempt.
pub proof fn law_finish_attempt_matches_in_every_field(a: Event, b: Event)
    ensures
        a matches Event::FinishAttempt {
            t,
            player,
            finish,
            value,
            crowd_meter,
            auto_success,
            bonus,
        } ==> (
        b matches Event::FinishAttempt {
            t: t2,
            player: player2,
            finish: finish2,
            value: value2,
            crowd_meter: crowd_meter2,
            auto_success: auto_success2,
            bonus: bonus2,
        } ==> (a.alike(b) <==> {
            &&& t == t2
            &&& player@ == player2@
            &&& finish@ == finish2@
            &&& value == value2
            &&& crowd_meter == crowd_meter2
            &&& auto_success == auto_success2
            &&& bonus.entries@.len() == bonus2.entries@.len()
            &&& (forall|i: int|
                0 <= i < bonus.entries@.len() ==> (#[trigger] bonus.entries@[i]).0@
                    == bonus2.entries@[i].0@
                    && bonus.entries@[i].1 == bonus2.entries@[i].1)
        })),
        a is FinishAttempt && !(b is FinishAttempt) ==> !a.alike(b),
{
}

/// Two events match where they agree in every field, and only there; this kind:
/// breakout.
pub proof fn law_breakout_matches_in_every_field(a: Event, b: Event)
    ensures
        a matches Event::Breakout { t, defender, broke_out, rolls } ==> (
        b matches Event::Breakout {
            t: t2,
            defender: defender2,
            broke_out: broke_out2,
            rolls: rolls2,
        } ==> (a.alike(b) <==> {
            &&& t == t2
            &&& defender@ == defender2@
            &&& broke_out == broke_out2
            &&& rolls@.len() == rolls2@.len()
            &&& (forall|i: int|
                0 <= i < rolls@.len() ==> (#[trigger] rolls@[i]).skill@ == rolls2@[i].skill@
                    && rolls@[i].value == rolls2@[i].value
                    && rolls@[i].penalty == rolls2@[i].penalty
                    && rolls@[i].success == rolls2@[i].success)
        })),
        a is Breakout && !(b is Breakout) ==> !a.alike(b),
{
    if let (Event::Breakout { rolls, .. }, Event::Breakout { rolls: rolls2, .. }) = (a, b) {
        lemma_rolls_alike(rolls@, rolls2@);
    }
}

/// Two events match where they agree in every field, and only there; this kind:
/// change of the Crowd Meter.
pub proof fn law_crowd_meter_matches_in_every_field(a: Event, b: Event)
    ensures
        a matches Event::CrowdMeter { t, delta, value } ==> (
        b matches Event::CrowdMeter { t: t2, delta: delta2, value: value2 } ==> (a.alike(b) <==> {
            &&& t == t2
            &&& delta == delta2
            &&& value == value2
        })),
        a is CrowdMeter && !(b is CrowdMeter) ==> !a.alike(b),
{
}

/// Two events match where they agree in every field, and only there; this kind:
/// rule that is not supported.
pub proof fn law_unsupported_matches_in_every_field(a: Event, b: Event)
    ensures
        a matches Event::Unsupported { t, owner, raw, reason, card, gimmick } ==> (
        b matches Event::Unsupported {
            t: t2,
            owner: owner2,
            raw: raw2,
            reason: reason2,
            card: card2,
            gimmick: gimmick2,
        } ==> (a.alike(b) <==> {
            &&& t == t2
            &&& owner@ == owner2@
            &&& raw@ == raw2@
            &&& reason@ == reason2@
            &&& (card matches Some(s) ==> card2 is Some && card2->0@ == s@)
            &&& (card is None ==> card2 is None)
            &&& (gimmick matches Some(s) ==> gimmick2 is Some && gimmick2->0@ == s@)
            &&& (gimmick is None ==> gimmick2 is None)
        })),
        a is Unsupported && !(b is Unsupported) ==> !a.alike(b),
{
}

/// Two events match where they agree in every field, and only there; this kind:
/// effect.
pub proof fn law_effect_matches_in_every_field(a: Event, b: Event)
    ensures
        a matches Event::EffectApplied { t, src, action, target, detail } ==> (
        b matches Event::EffectApplied {
            t: t2,
            src: src2,
            action: action2,
            target: target2,
            detail: detail2,
        } ==> (a.alike(b) <==> {
            &&& t == t2
            &&& src@ == src2@
            &&& action@ == action2@
            &&& (target matches Some(s) ==> target2 is Some && target2->0@ == s@)
            &&& (target is None ==> target2 is None)
            &&& same_tree(detail.tree(), detail2.tree())
        })),
        a is EffectApplied && !(b is EffectApplied) ==> !a.alike(b),
{
}

/// Two events match where they agree in every field, and only there; this kind:
/// result.
pub proof fn law_result_matches_in_every_field(a: Event, b: Event)
    ensures
        a matches Event::Result { t, winner, reason, turns } ==> (
        b matches Event::Result { t: t2, winner: winner2, reason: reason2, turns: turns2 } ==> (
        a.alike(b) <==> {
            &&& t == t2
            &&& winner@ == winner2@
            &&& reason@ == reason2@
            &&& turns == turns2
        })),
        a is Result && !(b is Result) ==> !a.alike(b),
{
}

/// Players match where they agree in every field, card by card, and only there.
pub proof fn law_player_matches_in_every_field(a: PlayerInfo, b: PlayerInfo)
    ensures
        a.alike(b) <==> {
            &&& a.competitor@ == b.competitor@
            &&& a.entrance@ == b.entrance@
            &&& a.policy@ == b.policy@
            &&& a.deck@.len() == b.deck@.len()
            &&& forall|i: int| 0 <= i < a.deck@.len() ==> (#[trigger] a.deck@[i])@ == b.deck@[i]@
        },
{
    lemma_texts_equal(a.deck@, b.deck@);
}

proof fn lemma_texts_equal(a: Seq<String>, b: Seq<String>)
    ensures
        texts(a) == texts(b) <==> a.len() == b.len() && forall|i: int|
            0 <= i < a.len() ==> (#[trigger] a[i])@ == b[i]@,
{
    if texts(a) == texts(b) {
        assert(texts(a).len() == a.len() && texts(b).len() == b.len());
        assert forall|i: int| 0 <= i < a.len() implies (#[trigger] a[i])@ == b[i]@ by {
            assert(texts(a)[i] == texts(b)[i]);
        }
    }
    if a.len() == b.len() && forall|i: int| 0 <= i < a.len() ==> (#[trigger] a[i])@ == b[i]@ {
        assert(texts(a) =~= texts(b));
    }
}

/// Headers match where they agree in every field, player by player, and only there.
pub proof fn law_header_matches_in_every_field(a: Header, b: Header)
    ensures
        a.alike(b) <==> {
            &&& a.seed == b.seed
            &&& a.kind@ == b.kind@
            &&& a.created@ == b.created@
            &&& a.schema == b.schema
            &&& a.players.entries@.len() == b.players.entries@.len()
            &&& forall|i: int|
                0 <= i < a.players.entries@.len() ==> (#[trigger] a.players.entries@[i]).0@
                    == b.players.entries@[i].0@ && a.players.entries@[i].1.alike(
                    b.players.entries@[i].1,
                )
        },
{
    if a.alike(b) {
        assert forall|i: int| 0 <= i < a.players.entries@.len() implies (
        #[trigger] a.players.entries@[i]).0@ == b.players.entries@[i].0@
            && a.players.entries@[i].1.alike(b.players.entries@[i].1) by {}
    }
}

/// Card movements match where they agree in every field, card by card, and only there.
pub proof fn law_movement_matches_in_every_field(a: CardMovement, b: CardMovement)
    ensures
        a.alike(b) <==> {
            &&& a.t == b.t
            &&& a.player@ == b.player@
            &&& a.hidden == b.hidden
            &&& a.cards@.len() == b.cards@.len()
            &&& forall|i: int| 0 <= i < a.cards@.len() ==> (#[trigger] a.cards@[i])@ == b.cards@[i]@
            &&& a.source is None <==> b.source is None
            &&& a.source matches Some(s) ==> b.source is Some && b.source->0@ == s@
        },
        Event::Draw(a).alike(Event::Draw(b)) <==> a.alike(b),
        Event::Bury(a).alike(Event::Bury(b)) <==> a.alike(b),
        Event::Discard(a).alike(Event::Discard(b)) <==> a.alike(b),
        Event::Search(a).alike(Event::Search(b)) <==> a.alike(b),
        !Event::Draw(a).alike(Event::Bury(b)),
        !Event::Draw(a).alike(Event::Discard(b)),
        !Event::Draw(a).alike(Event::Search(b)),
        !Event::Bury(a).alike(Event::Discard(b)),
        !Event::Bury(a).alike(Event::Search(b)),
        !Event::Discard(a).alike(Event::Search(b)),
{
    lemma_texts_equal(a.cards@, b.cards@);
}

/// Breakouts whose dice differ, in their number or anywhere in one of them, neither
/// match nor have the same line.
pub proof fn law_different_dice_differ(a: Event, b: Event, i: int)
    requires
        a is Breakout,
        b is Breakout,
        a->rolls@.len() != b->rolls@.len() || (0 <= i < a->rolls@.len() && (a->rolls@[i].skill@
            != b->rolls@[i].skill@ || a->rolls@[i].value != b->rolls@[i].value
            || a->rolls@[i].penalty != b->rolls@[i].penalty || a->rolls@[i].success
            != b->rolls@[i].success)),
    ensures
        !a.alike(b),
        a.tree() != b.tree(),
        json_text(a.tree()) != json_text(b.tree()),
{
    law_breakout_matches_in_every_field(a, b);
    law_event_by_canonical_form(a, b);
    law_same_reflexive(a.tree());
    lemma_event_ok(a);
    lemma_event_ok(b);
    if json_text(a.tree()) == json_text(b.tree()) {
        law_text_injective(a.tree(), b.tree());
    }
}

/// Events that do not match have different lines, where their numbers have the text of
/// numbers.
pub proof fn law_events_that_differ_have_different_lines(a: Event, b: Event)
    requires
        tree_ok(a.tree()),
        tree_ok(b.tree()),
        !a.alike(b),
    ensures
        json_text(a.tree()) != json_text(b.tree()),
{
    law_event_by_canonical_form(a, b);
    law_same_reflexive(a.tree());
    if json_text(a.tree()) == json_text(b.tree()) {
        law_text_injective(a.tree(), b.tree());
    }
}

// ---------------------------------------------------------------------------
// The log
// ---------------------------------------------------------------------------

/// A log has one record and one line for its header and one for each event, in order.
pub proof fn law_every_event_has_its_record(log: GameLog)
    ensures
        log.record_trees().len() == log.events@.len() + 1,
        log.record_trees()[0] == log.header.tree(),
        forall|i: int|
            0 <= i < log.events@.len() ==> log.record_trees()[i + 1] == (
            #[trigger] log.events@[i]).tree(),
        log.lines().len() == log.events@.len() + 1,
        log.lines()[0] == json_text(log.header.tree()),
        forall|i: int|
            0 <= i < log.events@.len() ==> log.lines()[i + 1] == json_text(
                (#[trigger] log.events@[i]).tree(),
            ),
{
}

/// Logs match where their headers do, they have as many events, and these match one by
/// one.
pub proof fn law_logs_match_event_by_event(a: GameLog, b: GameLog)
    ensures
        a.alike(b) <==> {
            &&& a.header.alike(b.header)
            &&& a.events@.len() == b.events@.len()
            &&& forall|i: int|
                0 <= i < a.events@.len() ==> (#[trigger] a.events@[i]).alike(b.events@[i])
        },
{
}

/// Parsing succeeds where there is a header row and every row could be read, whatever
/// their number, and then the log has exactly the records that were read. One row that
/// could not be read, whichever it is, makes it fail.
pub proof fn law_parse_needs_every_row(
    header: Option<core::result::Result<Header, String>>,
    events: Seq<core::result::Result<Event, String>>,
    r: core::result::Result<GameLog, SrgError>,
)
    requires
        parsed(header, events, r),
    ensures
        r is Ok <==> (header matches Some(Ok(_))) && forall|i: int|
            0 <= i < events.len() ==> (#[trigger] events[i]) is Ok,
        r matches Ok(log) ==> header == Some(Ok::<Header, String>(log.header)) && log.events@.len()
            == events.len() && forall|i: int|
            0 <= i < events.len() ==> (#[trigger] events[i]) == Ok::<Event, String>(log.events@[i]),
{
    lemma_first_failure(events, 0);
    if header matches Some(Ok(_)) && r is Ok {
        let log = r->Ok_0;
        assert forall|i: int| 0 <= i < events.len() implies (#[trigger] events[i]) == Ok::<
            Event,
            String,
        >(log.events@[i]) by {
            assert(events[i] is Ok);
        }
    }
}

/// What parsing fails with: no row at all is a mismatch, and of the rows that could not be
/// read the first gives the error, the header before all events.
pub proof fn law_parse_fails_with_the_first_error(
    header: Option<core::result::Result<Header, String>>,
    events: Seq<core::result::Result<Event, String>>,
    r: core::result::Result<GameLog, SrgError>,
    i: int,
)
    requires
        parsed(header, events, r),
    ensures
        header is None ==> (r matches Err(SrgError::Conformance(m)) && m@
            == "empty log: no header line"@),
        header matches Some(Err(e)) ==> r == Err::<GameLog, SrgError>(SrgError::Json(e)),
        (header matches Some(Ok(_))) && 0 <= i < events.len() && events[i] is Err && (forall|j: int|
            0 <= j < i ==> (#[trigger] events[j]) is Ok) ==> r == Err::<GameLog, SrgError>(
            SrgError::Json(events[i]->Err_0),
        ),
{
    lemma_first_failure(events, 0);
}

proof fn lemma_first_failure<T>(items: Seq<core::result::Result<T, String>>, i: int)
    requires
        0 <= i <= items.len(),
    ensures
        match first_failure(items, i) {
            Some(k) => i <= k < items.len() && items[k] is Err && forall|j: int|
                i <= j < k ==> (#[trigger] items[j]) is Ok,
            None => forall|j: int| i <= j < items.len() ==> (#[trigger] items[j]) is Ok,
        },
    decreases items.len() - i,
{
    if i < items.len() && items[i] is Ok {
        lemma_first_failure(items, i + 1);
    }
}

// ---------------------------------------------------------------------------
// The differences
// ---------------------------------------------------------------------------

/// What the differences are: first the header, then the number of events with both
/// numbers, then the events that both logs have, in their order, by their index from
/// zero.
pub proof fn law_differences_are_listed(expected: GameLog, actual: GameLog)
    ensures
        ({
            let all = problems(expected, actual);
            let (m, n) = (expected.events@.len(), actual.events@.len());
            let h: int = if expected.header.alike(actual.header) {
                0
            } else {
                1
            };
            let c: int = if m == n {
                0
            } else {
                1
            };
            &&& h == 1 ==> all.len() > 0 && all[0] == "header mismatch"@
            &&& c == 1 ==> all.len() > h && all[h] == "event count: expected "@ + decimal(m)
                + ", got "@ + decimal(n)
            &&& all.len() <= h + c + m
            &&& all.len() <= h + c + n
            &&& forall|k: int|
                #![trigger all[k]]
                h + c <= k < all.len() ==> exists|i: int|
                    k - h - c <= i < m && i < n && !(#[trigger] expected.events@[i]).alike(
                        actual.events@[i],
                    ) && all[k] == "event "@ + decimal(i as nat) + " differs"@
        }),
        forall|i: int|
            0 <= i < expected.events@.len() && i < actual.events@.len() ==> (
            !(#[trigger] expected.events@[i]).alike(actual.events@[i]) <==> problems(
                expected,
                actual,
            ).contains("event "@ + decimal(i as nat) + " differs"@)),
{
    let (a, b) = (expected.events@, actual.events@);
    let (m, n) = (a.len() as int, b.len() as int);
    let all = problems(expected, actual);
    let top = vstd::math::min(m, n);
    let tail = event_problems(a, b, top);
    lemma_event_list(a, b, top);
    let h: int = if expected.header.alike(actual.header) {
        0
    } else {
        1
    };
    let c: int = if m == n {
        0
    } else {
        1
    };
    assert(all.len() == h + c + tail.len());
    assert forall|k: int|
        #![trigger all[k]]
        h + c <= k < all.len() implies exists|i: int|
        k - h - c <= i < m && i < n && !(#[trigger] a[i]).alike(b[i]) && all[k] == "event "@
            + decimal(i as nat) + " differs"@ by {
        assert(all[k] == tail[k - h - c]);
        let i = choose|i: int|
            k - h - c <= i < top && !(#[trigger] a[i]).alike(b[i]) && tail[k - h - c] == "event "@
                + decimal(i as nat) + " differs"@;
        assert(!a[i].alike(b[i]));
    }
    assert forall|i: int| 0 <= i < m && i < n implies (!(#[trigger] a[i]).alike(b[i])
        <==> all.contains("event "@ + decimal(i as nat) + " differs"@)) by {
        law_differences_name_events(expected, actual, i);
    }
}

proof fn lemma_event_list(a: Seq<Event>, b: Seq<Event>, k: int)
    requires
        0 <= k,
    ensures
        event_problems(a, b, k).len() <= k,
        forall|j: int|
            #![trigger event_problems(a, b, k)[j]]
            0 <= j < event_problems(a, b, k).len() ==> exists|i: int|
                j <= i < k && !(#[trigger] a[i]).alike(b[i]) && event_problems(a, b, k)[j]
                    == "event "@ + decimal(i as nat) + " differs"@,
    decreases k,
{
    if k > 0 {
        lemma_event_list(a, b, k - 1);
        let (before, now) = (event_problems(a, b, k - 1), event_problems(a, b, k));
        assert forall|j: int|
            #![trigger now[j]]
            0 <= j < now.len() implies exists|i: int|
            j <= i < k && !(#[trigger] a[i]).alike(b[i]) && now[j] == "event "@ + decimal(i as nat)
                + " differs"@ by {
            if j < before.len() {
                assert(now[j] == before[j]);
                let i = choose|i: int|
                    j <= i < k - 1 && !(#[trigger] a[i]).alike(b[i]) && before[j] == "event "@
                        + decimal(i as nat) + " differs"@;
                assert(!a[i].alike(b[i]));
            } else {
                assert(!a[k - 1].alike(b[k - 1]));
                assert(now[j] == event_problem(k - 1));
            }
        }
    }
}

/// The differences between the events ascend: where both logs get one more event, what
/// was said before is still said, and the new events are named if they differ.
pub proof fn law_one_more_event_on_both_sides(
    expected: GameLog,
    actual: GameLog,
    e: Event,
    f: Event,
    longer_expected: GameLog,
    longer_actual: GameLog,
)
    requires
        expected.events@.len() == actual.events@.len(),
        longer_expected.header == expected.header,
        longer_actual.header == actual.header,
        longer_expected.events@ == expected.events@.push(e),
        longer_actual.events@ == actual.events@.push(f),
    ensures
        e.alike(f) ==> problems(longer_expected, longer_actual) == problems(expected, actual),
        !e.alike(f) ==> problems(longer_expected, longer_actual) == problems(
            expected,
            actual,
        ).push("event "@ + decimal(expected.events@.len()) + " differs"@),
{
    let (a, b) = (expected.events@, actual.events@);
    let n = a.len() as int;
    lemma_event_problems_same(a, b, longer_expected.events@, longer_actual.events@, n);
    assert(longer_expected.events@[n] == e && longer_actual.events@[n] == f);
    if e.alike(f) {
        assert(problems(longer_expected, longer_actual) =~= problems(expected, actual));
    } else {
        assert(problems(longer_expected, longer_actual) =~= problems(expected, actual).push(
            event_problem(n),
        ));
    }
}

proof fn lemma_event_problems_same(
    a: Seq<Event>,
    b: Seq<Event>,
    c: Seq<Event>,
    d: Seq<Event>,
    k: int,
)
    requires
        forall|i: int| 0 <= i < k ==> #[trigger] a[i] == c[i],
        forall|i: int| 0 <= i < k ==> #[trigger] b[i] == d[i],
    ensures
        event_problems(a, b, k) == event_problems(c, d, k),
    decreases k,
{
    if k > 0 {
        lemma_event_problems_same(a, b, c, d, k - 1);
        assert(a[k - 1] == c[k - 1] && b[k - 1] == d[k - 1]);
    }
}

} // verus!
