//! The game log: a header and an ordered stream of events.
//!
//! One record is one JSON object on one line, the header first. The canonical form of
//! a record names every field, sorts the names, writes a missing text as `null`, tags
//! an event by its `type` and the place a card moves from by `from`.

use crate::error::SrgError;
use crate::gamelog_laws::law_canonical_names_ascend;
use crate::json::{json_text, same_tree, sorted_tree, trees, Json, JsonTree};
use crate::lines::{frame, framed, keep_rows, line_list, rows, split_lines};
use crate::text::{decimal, decimal_text, texts};
use crate::textmap::TextMap;
use vstd::prelude::*;
use vstd::string::*;

verus! {

/// The version of the log format.
pub const SCHEMA_VERSION: i64 = 1;

/// One side of a match: competitor, entrance, the cards of the deck, and the policy
/// that decides for the side.
#[derive(Debug, Clone, PartialEq, Eq)]
pub struct PlayerInfo {
    pub competitor: String,
    pub entrance: String,
    pub deck: Vec<String>,
    pub policy: String,
}

/// The log header: seed, kind, timestamp, the players by their keys, format version.
#[derive(Debug, Clone, PartialEq, Eq)]
pub struct Header {
    pub seed: u64,
    pub kind: String,
    pub created: String,
    pub players: TextMap<PlayerInfo>,
    pub schema: i64,
}

/// The format version of a header that names none.
pub fn default_schema() -> (n: i64)
    ensures
        n == SCHEMA_VERSION,
        n == 1,
{
    SCHEMA_VERSION
}

/// One change to a roll and where it comes from.
#[derive(Debug, Clone, PartialEq, Eq)]
pub struct RollMod {
    pub src: String,
    pub delta: i64,
}

/// One breakout die of the defender.
#[derive(Debug, Clone, PartialEq, Eq)]
pub struct BreakoutRoll {
    pub skill: String,
    pub value: i64,
    pub penalty: i64,
    pub success: bool,
}

/// Cards that move: the common shape of a draw, a bury, a discard and a search.
///
/// `hidden` marks a move that the opponent cannot follow card for card; the cards are
/// in the log all the same.
#[derive(Debug, Clone, PartialEq, Eq)]
pub struct CardMovement {
    pub t: i64,
    pub player: String,
    pub cards: Vec<String>,
    pub source: Option<String>,
    pub hidden: bool,
}

/// A log event. Every event carries the turn number `t`.
#[allow(inconsistent_fields)]
#[derive(Debug, Clone, PartialEq)]
pub enum Event {
    Roll {
        t: i64,
        player: String,
        skill: String,
        base: i64,
        value: i64,
        mods: Vec<RollMod>,
    },
    TurnResult { t: i64, winner: String, tie_bumps: i64 },
    Decision {
        t: i64,
        player: String,
        point: String,
        legal: Vec<Json>,
        chosen: Json,
        policy: String,
    },
    Play { t: i64, player: String, card: String, order: String, atk_type: String },
    Stop { t: i64, player: String, card: String, stopped: String, reason: String },
    Draw(CardMovement),
    Bury(CardMovement),
    Discard(CardMovement),
    Search(CardMovement),
    FinishAttempt {
        t: i64,
        player: String,
        finish: String,
        value: i64,
        crowd_meter: i64,
        auto_success: bool,
        bonus: TextMap<i64>,
    },
    Breakout { t: i64, defender: String, broke_out: bool, rolls: Vec<BreakoutRoll> },
    CrowdMeter { t: i64, delta: i64, value: i64 },
    Unsupported {
        t: i64,
        owner: String,
        raw: String,
        reason: String,
        card: Option<String>,
        gimmick: Option<String>,
    },
    EffectApplied { t: i64, src: String, action: String, target: Option<String>, detail: Json },
    Result { t: i64, winner: String, reason: String, turns: i64 },
}

/// A header and an ordered list of events, to which a match in progress appends.
#[derive(Debug, Clone, PartialEq)]
pub struct GameLog {
    pub header: Header,
    pub events: Vec<Event>,
}

// ---------------------------------------------------------------------------
// Equality
// ---------------------------------------------------------------------------

/// The text that may be there.
pub open spec fn optional_text(o: Option<String>) -> Option<Seq<char>> {
    match o {
        Some(s) => Some(s@),
        None => None,
    }
}

/// Lists of JSON values that are equal item by item.
pub open spec fn same_values(a: Seq<Json>, b: Seq<Json>) -> bool {
    &&& a.len() == b.len()
    &&& forall|i: int| 0 <= i < a.len() ==> same_tree((#[trigger] a[i]).tree(), b[i].tree())
}

impl PlayerInfo {
    /// Alike in every field.
    pub open spec fn alike(self, other: PlayerInfo) -> bool {
        &&& self.competitor@ == other.competitor@
        &&& self.entrance@ == other.entrance@
        &&& texts(self.deck@) == texts(other.deck@)
        &&& self.policy@ == other.policy@
    }
}

impl Header {
    /// Alike in every field.
    pub open spec fn alike(self, other: Header) -> bool {
        &&& self.seed == other.seed
        &&& self.kind@ == other.kind@
        &&& self.created@ == other.created@
        &&& self.schema == other.schema
        &&& self.players.entries@.len() == other.players.entries@.len()
        &&& forall|i: int|
            0 <= i < self.players.entries@.len() ==> {
                &&& (#[trigger] self.players.entries@[i]).0@ == other.players.entries@[i].0@
                &&& self.players.entries@[i].1.alike(other.players.entries@[i].1)
            }
    }
}

impl RollMod {
    /// Alike in every field.
    pub open spec fn alike(self, other: RollMod) -> bool {
        self.src@ == other.src@ && self.delta == other.delta
    }
}

impl BreakoutRoll {
    /// Alike in every field.
    pub open spec fn alike(self, other: BreakoutRoll) -> bool {
        &&& self.skill@ == other.skill@
        &&& self.value == other.value
        &&& self.penalty == other.penalty
        &&& self.success == other.success
    }
}

impl CardMovement {
    /// Alike in every field.
    pub open spec fn alike(self, other: CardMovement) -> bool {
        &&& self.t == other.t
        &&& self.player@ == other.player@
        &&& texts(self.cards@) == texts(other.cards@)
        &&& optional_text(self.source) == optional_text(other.source)
        &&& self.hidden == other.hidden
    }
}

/// Lists of roll changes that are alike item by item.
pub open spec fn mods_alike(a: Seq<RollMod>, b: Seq<RollMod>) -> bool {
    &&& a.len() == b.len()
    &&& forall|i: int| 0 <= i < a.len() ==> (#[trigger] a[i]).alike(b[i])
}

/// Lists of breakout dice that are alike item by item.
pub open spec fn rolls_alike(a: Seq<BreakoutRoll>, b: Seq<BreakoutRoll>) -> bool {
    &&& a.len() == b.len()
    &&& forall|i: int| 0 <= i < a.len() ==> (#[trigger] a[i]).alike(b[i])
}

/// Lists of bonuses that are alike item by item.
pub open spec fn bonuses_alike(a: Seq<(String, i64)>, b: Seq<(String, i64)>) -> bool {
    &&& a.len() == b.len()
    &&& forall|i: int|
        0 <= i < a.len() ==> (#[trigger] a[i]).0@ == b[i].0@ && a[i].1 == b[i].1
}

impl Event {
    /// Of the same kind, and alike in every field.
    pub open spec fn alike(self, other: Event) -> bool {
        match (self, other) {
            (
                Event::Roll { t, player, skill, base, value, mods },
                Event::Roll {
                    t: t2,
                    player: player2,
                    skill: skill2,
                    base: base2,
                    value: value2,
                    mods: mods2,
                },
            ) => {
                &&& t == t2
                &&& player@ == player2@
                &&& skill@ == skill2@
                &&& base == base2
                &&& value == value2
                &&& mods_alike(mods@, mods2@)
            },
            (
                Event::TurnResult { t, winner, tie_bumps },
                Event::TurnResult { t: t2, winner: winner2, tie_bumps: tie_bumps2 },
            ) => t == t2 && winner@ == winner2@ && tie_bumps == tie_bumps2,
            (
                Event::Decision { t, player, point, legal, chosen, policy },
                Event::Decision {
                    t: t2,
                    player: player2,
                    point: point2,
                    legal: legal2,
                    chosen: chosen2,
                    policy: policy2,
                },
            ) => {
                &&& t == t2
                &&& player@ == player2@
                &&& point@ == point2@
                &&& same_values(legal@, legal2@)
                &&& same_tree(chosen.tree(), chosen2.tree())
                &&& policy@ == policy2@
            },
            (
                Event::Play { t, player, card, order, atk_type },
                Event::Play {
                    t: t2,
                    player: player2,
                    card: card2,
                    order: order2,
                    atk_type: atk_type2,
                },
            ) => {
                &&& t == t2
                &&& player@ == player2@
                &&& card@ == card2@
                &&& order@ == order2@
                &&& atk_type@ == atk_type2@
            },
            (
                Event::Stop { t, player, card, stopped, reason },
                Event::Stop {
                    t: t2,
                    player: player2,
                    card: card2,
                    stopped: stopped2,
                    reason: reason2,
                },
            ) => {
                &&& t == t2
                &&& player@ == player2@
                &&& card@ == card2@
                &&& stopped@ == stopped2@
                &&& reason@ == reason2@
            },
            (Event::Draw(m), Event::Draw(m2)) => m.alike(m2),
            (Event::Bury(m), Event::Bury(m2)) => m.alike(m2),
            (Event::Discard(m), Event::Discard(m2)) => m.alike(m2),
            (Event::Search(m), Event::Search(m2)) => m.alike(m2),
            (
                Event::FinishAttempt { t, player, finish, value, crowd_meter, auto_success, bonus },
                Event::FinishAttempt {
                    t: t2,
                    player: player2,
                    finish: finish2,
                    value: value2,
                    crowd_meter: crowd_meter2,
                    auto_success: auto_success2,
                    bonus: bonus2,
                },
            ) => {
                &&& t == t2
                &&& player@ == player2@
                &&& finish@ == finish2@
                &&& value == value2
                &&& crowd_meter == crowd_meter2
                &&& auto_success == auto_success2
                &&& bonuses_alike(bonus.entries@, bonus2.entries@)
            },
            (
                Event::Breakout { t, defender, broke_out, rolls },
                Event::Breakout {
                    t: t2,
                    defender: defender2,
                    broke_out: broke_out2,
                    rolls: rolls2,
                },
            ) => {
                &&& t == t2
                &&& defender@ == defender2@
                &&& broke_out == broke_out2
                &&& rolls_alike(rolls@, rolls2@)
            },
            (
                Event::CrowdMeter { t, delta, value },
                Event::CrowdMeter { t: t2, delta: delta2, value: value2 },
            ) => t == t2 && delta == delta2 && value == value2,
            (
                Event::Unsupported { t, owner, raw, reason, card, gimmick },
                Event::Unsupported {
                    t: t2,
                    owner: owner2,
                    raw: raw2,
                    reason: reason2,
                    card: card2,
                    gimmick: gimmick2,
                },
            ) => {
                &&& t == t2
                &&& owner@ == owner2@
                &&& raw@ == raw2@
                &&& reason@ == reason2@
                &&& optional_text(card) == optional_text(card2)
                &&& optional_text(gimmick) == optional_text(gimmick2)
            },
            (
                Event::EffectApplied { t, src, action, target, detail },
                Event::EffectApplied {
                    t: t2,
                    src: src2,
                    action: action2,
                    target: target2,
                    detail: detail2,
                },
            ) => {
                &&& t == t2
                &&& src@ == src2@
                &&& action@ == action2@
                &&& optional_text(target) == optional_text(target2)
                &&& same_tree(detail.tree(), detail2.tree())
            },
            (
                Event::Result { t, winner, reason, turns },
                Event::Result { t: t2, winner: winner2, reason: reason2, turns: turns2 },
            ) => {
                &&& t == t2
                &&& winner@ == winner2@
                &&& reason@ == reason2@
                &&& turns == turns2
            },
            _ => false,
        }
    }
}

impl GameLog {
    /// The headers are alike, and so are the events one by one.
    pub open spec fn alike(self, other: GameLog) -> bool {
        &&& self.header.alike(other.header)
        &&& self.events@.len() == other.events@.len()
        &&& forall|i: int|
            0 <= i < self.events@.len() ==> (#[trigger] self.events@[i]).alike(other.events@[i])
    }
}

fn same_texts(a: &Vec<String>, b: &Vec<String>) -> (r: bool)
    ensures
        r == (texts(a@) == texts(b@)),
{
    if a.len() != b.len() {
        assert(texts(a@).len() != texts(b@).len());
        return false;
    }
    let mut i: usize = 0;
    while i < a.len()
        invariant
            i <= a.len(),
            a.len() == b.len(),
            forall|j: int| 0 <= j < i ==> (#[trigger] a@[j])@ == b@[j]@,
        decreases a.len() - i,
    {
        if a[i] != b[i] {
            assert(texts(a@)[i as int] != texts(b@)[i as int]);
            return false;
        }
        i = i + 1;
    }
    assert(texts(a@) =~= texts(b@));
    true
}

fn same_optional(a: &Option<String>, b: &Option<String>) -> (r: bool)
    ensures
        r == (optional_text(*a) == optional_text(*b)),
{
    match (a, b) {
        (Some(x), Some(y)) => *x == *y,
        (None, None) => true,
        _ => false,
    }
}

fn same_json_values(a: &Vec<Json>, b: &Vec<Json>) -> (r: bool)
    ensures
        r == same_values(a@, b@),
{
    if a.len() != b.len() {
        return false;
    }
    let mut i: usize = 0;
    while i < a.len()
        invariant
            i <= a.len(),
            a.len() == b.len(),
            forall|j: int| 0 <= j < i ==> same_tree((#[trigger] a@[j]).tree(), b@[j].tree()),
        decreases a.len() - i,
    {
        if !a[i].same(&b[i]) {
            assert(!same_tree(a@[i as int].tree(), b@[i as int].tree()));
            return false;
        }
        i = i + 1;
    }
    true
}

fn same_mods(a: &Vec<RollMod>, b: &Vec<RollMod>) -> (r: bool)
    ensures
        r == mods_alike(a@, b@),
{
    if a.len() != b.len() {
        return false;
    }
    let mut i: usize = 0;
    while i < a.len()
        invariant
            i <= a.len(),
            a.len() == b.len(),
            forall|j: int| 0 <= j < i ==> (#[trigger] a@[j]).alike(b@[j]),
        decreases a.len() - i,
    {
        if a[i].src != b[i].src || a[i].delta != b[i].delta {
            assert(!a@[i as int].alike(b@[i as int]));
            return false;
        }
        i = i + 1;
    }
    true
}

fn same_rolls(a: &Vec<BreakoutRoll>, b: &Vec<BreakoutRoll>) -> (r: bool)
    ensures
        r == rolls_alike(a@, b@),
{
    if a.len() != b.len() {
        return false;
    }
    let mut i: usize = 0;
    while i < a.len()
        invariant
            i <= a.len(),
            a.len() == b.len(),
            forall|j: int| 0 <= j < i ==> (#[trigger] a@[j]).alike(b@[j]),
        decreases a.len() - i,
    {
        if a[i].skill != b[i].skill || a[i].value != b[i].value || a[i].penalty != b[i].penalty
            || a[i].success != b[i].success {
            assert(!a@[i as int].alike(b@[i as int]));
            return false;
        }
        i = i + 1;
    }
    true
}

fn same_bonuses(a: &Vec<(String, i64)>, b: &Vec<(String, i64)>) -> (r: bool)
    ensures
        r == bonuses_alike(a@, b@),
{
    if a.len() != b.len() {
        return false;
    }
    let mut i: usize = 0;
    while i < a.len()
        invariant
            i <= a.len(),
            a.len() == b.len(),
            forall|j: int| 0 <= j < i ==> (#[trigger] a@[j]).0@ == b@[j].0@ && a@[j].1 == b@[j].1,
        decreases a.len() - i,
    {
        if a[i].0 != b[i].0 || a[i].1 != b[i].1 {
            assert(a@[i as int].0@ != b@[i as int].0@ || a@[i as int].1 != b@[i as int].1);
            return false;
        }
        i = i + 1;
    }
    true
}

impl PlayerInfo {
    /// Whether two players are alike.
    pub fn same(&self, other: &PlayerInfo) -> (r: bool)
        ensures
            r == self.alike(*other),
    {
        self.competitor == other.competitor && self.entrance == other.entrance && same_texts(
            &self.deck,
            &other.deck,
        ) && self.policy == other.policy
    }
}

impl Header {
    /// Whether two headers are alike.
    pub fn same(&self, other: &Header) -> (r: bool)
        ensures
            r == self.alike(*other),
    {
        if self.seed != other.seed || self.kind != other.kind || self.created != other.created
            || self.schema != other.schema || self.players.entries.len()
            != other.players.entries.len() {
            return false;
        }
        let a = &self.players.entries;
        let b = &other.players.entries;
        let mut i: usize = 0;
        while i < a.len()
            invariant
                i <= a.len(),
                a.len() == b.len(),
                a@ == self.players.entries@,
                b@ == other.players.entries@,
                forall|j: int|
                    0 <= j < i ==> (#[trigger] a@[j]).0@ == b@[j].0@ && a@[j].1.alike(b@[j].1),
            decreases a.len() - i,
        {
            if a[i].0 != b[i].0 || !a[i].1.same(&b[i].1) {
                assert(!({
                    &&& self.players.entries@[i as int].0@ == other.players.entries@[i as int].0@
                    &&& self.players.entries@[i as int].1.alike(
                        other.players.entries@[i as int].1,
                    )
                }));
                return false;
            }
            i = i + 1;
        }
        true
    }
}

impl CardMovement {
    /// Whether two movements are alike.
    pub fn same(&self, other: &CardMovement) -> (r: bool)
        ensures
            r == self.alike(*other),
    {
        self.t == other.t && self.player == other.player && same_texts(&self.cards, &other.cards)
            && same_optional(&self.source, &other.source) && self.hidden == other.hidden
    }
}

impl Event {
    /// Whether two events are alike.
    pub fn same(&self, other: &Event) -> (r: bool)
        ensures
            r == self.alike(*other),
    {
        match (self, other) {
            (
                Event::Roll { t, player, skill, base, value, mods },
                Event::Roll {
                    t: t2,
                    player: player2,
                    skill: skill2,
                    base: base2,
                    value: value2,
                    mods: mods2,
                },
            ) => {
                *t == *t2 && *player == *player2 && *skill == *skill2 && *base == *base2 && *value
                    == *value2 && same_mods(mods, mods2)
            },
            (
                Event::TurnResult { t, winner, tie_bumps },
                Event::TurnResult { t: t2, winner: winner2, tie_bumps: tie_bumps2 },
            ) => *t == *t2 && *winner == *winner2 && *tie_bumps == *tie_bumps2,
            (
                Event::Decision { t, player, point, legal, chosen, policy },
                Event::Decision {
                    t: t2,
                    player: player2,
                    point: point2,
                    legal: legal2,
                    chosen: chosen2,
                    policy: policy2,
                },
            ) => {
                *t == *t2 && *player == *player2 && *point == *point2 && same_json_values(
                    legal,
                    legal2,
                ) && chosen.same(chosen2) && *policy == *policy2
            },
            (
                Event::Play { t, player, card, order, atk_type },
                Event::Play {
                    t: t2,
                    player: player2,
                    card: card2,
                    order: order2,
                    atk_type: atk_type2,
                },
            ) => {
                *t == *t2 && *player == *player2 && *card == *card2 && *order == *order2
                    && *atk_type == *atk_type2
            },
            (
                Event::Stop { t, player, card, stopped, reason },
                Event::Stop {
                    t: t2,
                    player: player2,
                    card: card2,
                    stopped: stopped2,
                    reason: reason2,
                },
            ) => {
                *t == *t2 && *player == *player2 && *card == *card2 && *stopped == *stopped2
                    && *reason == *reason2
            },
            (Event::Draw(m), Event::Draw(m2)) => m.same(m2),
            (Event::Bury(m), Event::Bury(m2)) => m.same(m2),
            (Event::Discard(m), Event::Discard(m2)) => m.same(m2),
            (Event::Search(m), Event::Search(m2)) => m.same(m2),
            (
                Event::FinishAttempt { t, player, finish, value, crowd_meter, auto_success, bonus },
                Event::FinishAttempt {
                    t: t2,
                    player: player2,
                    finish: finish2,
                    value: value2,
                    crowd_meter: crowd_meter2,
                    auto_success: auto_success2,
                    bonus: bonus2,
                },
            ) => {
                *t == *t2 && *player == *player2 && *finish == *finish2 && *value == *value2
                    && *crowd_meter == *crowd_meter2 && *auto_success == *auto_success2
                    && same_bonuses(&bonus.entries, &bonus2.entries)
            },
            (
                Event::Breakout { t, defender, broke_out, rolls },
                Event::Breakout {
                    t: t2,
                    defender: defender2,
                    broke_out: broke_out2,
                    rolls: rolls2,
                },
            ) => {
                *t == *t2 && *defender == *defender2 && *broke_out == *broke_out2 && same_rolls(
                    rolls,
                    rolls2,
                )
            },
            (
                Event::CrowdMeter { t, delta, value },
                Event::CrowdMeter { t: t2, delta: delta2, value: value2 },
            ) => *t == *t2 && *delta == *delta2 && *value == *value2,
            (
                Event::Unsupported { t, owner, raw, reason, card, gimmick },
                Event::Unsupported {
                    t: t2,
                    owner: owner2,
                    raw: raw2,
                    reason: reason2,
                    card: card2,
                    gimmick: gimmick2,
                },
            ) => {
                *t == *t2 && *owner == *owner2 && *raw == *raw2 && *reason == *reason2
                    && same_optional(card, card2) && same_optional(gimmick, gimmick2)
            },
            (
                Event::EffectApplied { t, src, action, target, detail },
                Event::EffectApplied {
                    t: t2,
                    src: src2,
                    action: action2,
                    target: target2,
                    detail: detail2,
                },
            ) => {
                *t == *t2 && *src == *src2 && *action == *action2 && same_optional(target, target2)
                    && detail.same(detail2)
            },
            (
                Event::Result { t, winner, reason, turns },
                Event::Result { t: t2, winner: winner2, reason: reason2, turns: turns2 },
            ) => {
                *t == *t2 && *winner == *winner2 && *reason == *reason2 && *turns == *turns2
            },
            _ => false,
        }
    }
}

// ---------------------------------------------------------------------------
// Canonical form
// ---------------------------------------------------------------------------

/// What a list of named JSON values stands for.
pub open spec fn fields_tree(fields: Seq<(String, Json)>) -> Seq<(Seq<char>, JsonTree)> {
    fields.map_values(|field: (String, Json)| (field.0@, field.1.tree()))
}

/// A list of texts as a JSON array.
pub open spec fn texts_tree(strings: Seq<String>) -> JsonTree {
    JsonTree::Array(strings.map_values(|s: String| JsonTree::Text(s@)))
}

/// A text that may be there as JSON: `null` where it is not.
pub open spec fn optional_tree(o: Option<String>) -> JsonTree {
    match o {
        Some(s) => JsonTree::Text(s@),
        None => JsonTree::Null,
    }
}

impl PlayerInfo {
    /// The canonical form.
    pub open spec fn tree(self) -> JsonTree {
        JsonTree::Object(
            seq![
                ("competitor"@, JsonTree::Text(self.competitor@)),
                ("deck"@, texts_tree(self.deck@)),
                ("entrance"@, JsonTree::Text(self.entrance@)),
                ("policy"@, JsonTree::Text(self.policy@)),
            ],
        )
    }
}

/// The players by their keys as a JSON object.
pub open spec fn players_tree(players: Seq<(String, PlayerInfo)>) -> JsonTree {
    JsonTree::Object(players.map_values(|p: (String, PlayerInfo)| (p.0@, p.1.tree())))
}

impl Header {
    /// The canonical form.
    pub open spec fn tree(self) -> JsonTree {
        JsonTree::Object(
            seq![
                ("created"@, JsonTree::Text(self.created@)),
                ("kind"@, JsonTree::Text(self.kind@)),
                ("players"@, players_tree(self.players.entries@)),
                ("schema"@, JsonTree::Number(self.schema as int)),
                ("seed"@, JsonTree::Number(self.seed as int)),
            ],
        )
    }
}

impl RollMod {
    /// The canonical form.
    pub open spec fn tree(self) -> JsonTree {
        JsonTree::Object(
            seq![
                ("delta"@, JsonTree::Number(self.delta as int)),
                ("src"@, JsonTree::Text(self.src@)),
            ],
        )
    }
}

impl BreakoutRoll {
    /// The canonical form.
    pub open spec fn tree(self) -> JsonTree {
        JsonTree::Object(
            seq![
                ("penalty"@, JsonTree::Number(self.penalty as int)),
                ("skill"@, JsonTree::Text(self.skill@)),
                ("success"@, JsonTree::Bool(self.success)),
                ("value"@, JsonTree::Number(self.value as int)),
            ],
        )
    }
}

impl CardMovement {
    /// The canonical form of an event of this shape with the given tag.
    pub open spec fn tree(self, tag: Seq<char>) -> JsonTree {
        JsonTree::Object(
            seq![
                ("cards"@, texts_tree(self.cards@)),
                ("from"@, optional_tree(self.source)),
                ("hidden"@, JsonTree::Bool(self.hidden)),
                ("player"@, JsonTree::Text(self.player@)),
                ("t"@, JsonTree::Number(self.t as int)),
                ("type"@, JsonTree::Text(tag)),
            ],
        )
    }
}

/// Roll changes as a JSON array.
pub open spec fn mods_tree(mods: Seq<RollMod>) -> JsonTree {
    JsonTree::Array(mods.map_values(|m: RollMod| m.tree()))
}

/// Breakout dice as a JSON array.
pub open spec fn rolls_tree(rolls: Seq<BreakoutRoll>) -> JsonTree {
    JsonTree::Array(rolls.map_values(|r: BreakoutRoll| r.tree()))
}

/// Bonuses by their keys as a JSON object.
pub open spec fn bonuses_tree(bonuses: Seq<(String, i64)>) -> JsonTree {
    JsonTree::Object(
        bonuses.map_values(|b: (String, i64)| (b.0@, JsonTree::Number(b.1 as int))),
    )
}

impl Event {
    /// The tag that the `type` field holds.
    pub open spec fn tag(self) -> Seq<char> {
        match self {
            Event::Roll { .. } => "roll"@,
            Event::TurnResult { .. } => "turn_result"@,
            Event::Decision { .. } => "decision"@,
            Event::Play { .. } => "play"@,
            Event::Stop { .. } => "stop"@,
            Event::Draw(_) => "draw"@,
            Event::Bury(_) => "bury"@,
            Event::Discard(_) => "discard"@,
            Event::Search(_) => "search"@,
            Event::FinishAttempt { .. } => "finish_attempt"@,
            Event::Breakout { .. } => "breakout"@,
            Event::CrowdMeter { .. } => "crowd_meter"@,
            Event::Unsupported { .. } => "unsupported"@,
            Event::EffectApplied { .. } => "effect"@,
            Event::Result { .. } => "result"@,
        }
    }

    /// The canonical form.
    pub open spec fn tree(self) -> JsonTree {
        match self {
            Event::Roll { t, player, skill, base, value, mods } => JsonTree::Object(
                seq![
                    ("base"@, JsonTree::Number(base as int)),
                    ("mods"@, mods_tree(mods@)),
                    ("player"@, JsonTree::Text(player@)),
                    ("skill"@, JsonTree::Text(skill@)),
                    ("t"@, JsonTree::Number(t as int)),
                    ("type"@, JsonTree::Text(self.tag())),
                    ("value"@, JsonTree::Number(value as int)),
                ],
            ),
            Event::TurnResult { t, winner, tie_bumps } => JsonTree::Object(
                seq![
                    ("t"@, JsonTree::Number(t as int)),
                    ("tie_bumps"@, JsonTree::Number(tie_bumps as int)),
                    ("type"@, JsonTree::Text(self.tag())),
                    ("winner"@, JsonTree::Text(winner@)),
                ],
            ),
            Event::Decision { t, player, point, legal, chosen, policy } => JsonTree::Object(
                seq![
                    ("chosen"@, chosen.tree()),
                    ("legal"@, JsonTree::Array(trees(legal@))),
                    ("player"@, JsonTree::Text(player@)),
                    ("point"@, JsonTree::Text(point@)),
                    ("policy"@, JsonTree::Text(policy@)),
                    ("t"@, JsonTree::Number(t as int)),
                    ("type"@, JsonTree::Text(self.tag())),
                ],
            ),
            Event::Play { t, player, card, order, atk_type } => JsonTree::Object(
                seq![
                    ("atk_type"@, JsonTree::Text(atk_type@)),
                    ("card"@, JsonTree::Text(card@)),
                    ("order"@, JsonTree::Text(order@)),
                    ("player"@, JsonTree::Text(player@)),
                    ("t"@, JsonTree::Number(t as int)),
                    ("type"@, JsonTree::Text(self.tag())),
                ],
            ),
            Event::Stop { t, player, card, stopped, reason } => JsonTree::Object(
                seq![
                    ("card"@, JsonTree::Text(card@)),
                    ("player"@, JsonTree::Text(player@)),
                    ("reason"@, JsonTree::Text(reason@)),
                    ("stopped"@, JsonTree::Text(stopped@)),
                    ("t"@, JsonTree::Number(t as int)),
                    ("type"@, JsonTree::Text(self.tag())),
                ],
            ),
            Event::Draw(m) => m.tree(self.tag()),
            Event::Bury(m) => m.tree(self.tag()),
            Event::Discard(m) => m.tree(self.tag()),
            Event::Search(m) => m.tree(self.tag()),
            Event::FinishAttempt { t, player, finish, value, crowd_meter, auto_success, bonus } => {
                JsonTree::Object(
                    seq![
                        ("auto_success"@, JsonTree::Bool(auto_success)),
                        ("bonus"@, bonuses_tree(bonus.entries@)),
                        ("crowd_meter"@, JsonTree::Number(crowd_meter as int)),
                        ("finish"@, JsonTree::Text(finish@)),
                        ("player"@, JsonTree::Text(player@)),
                        ("t"@, JsonTree::Number(t as int)),
                        ("type"@, JsonTree::Text(self.tag())),
                        ("value"@, JsonTree::Number(value as int)),
                    ],
                )
            },
            Event::Breakout { t, defender, broke_out, rolls } => JsonTree::Object(
                seq![
                    ("broke_out"@, JsonTree::Bool(broke_out)),
                    ("defender"@, JsonTree::Text(defender@)),
                    ("rolls"@, rolls_tree(rolls@)),
                    ("t"@, JsonTree::Number(t as int)),
                    ("type"@, JsonTree::Text(self.tag())),
                ],
            ),
            Event::CrowdMeter { t, delta, value } => JsonTree::Object(
                seq![
                    ("delta"@, JsonTree::Number(delta as int)),
                    ("t"@, JsonTree::Number(t as int)),
                    ("type"@, JsonTree::Text(self.tag())),
                    ("value"@, JsonTree::Number(value as int)),
                ],
            ),
            Event::Unsupported { t, owner, raw, reason, card, gimmick } => JsonTree::Object(
                seq![
                    ("card"@, optional_tree(card)),
                    ("gimmick"@, optional_tree(gimmick)),
                    ("owner"@, JsonTree::Text(owner@)),
                    ("raw"@, JsonTree::Text(raw@)),
                    ("reason"@, JsonTree::Text(reason@)),
                    ("t"@, JsonTree::Number(t as int)),
                    ("type"@, JsonTree::Text(self.tag())),
                ],
            ),
            Event::EffectApplied { t, src, action, target, detail } => JsonTree::Object(
                seq![
                    ("action"@, JsonTree::Text(action@)),
                    ("detail"@, detail.tree()),
                    ("src"@, JsonTree::Text(src@)),
                    ("t"@, JsonTree::Number(t as int)),
                    ("target"@, optional_tree(target)),
                    ("type"@, JsonTree::Text(self.tag())),
                ],
            ),
            Event::Result { t, winner, reason, turns } => JsonTree::Object(
                seq![
                    ("reason"@, JsonTree::Text(reason@)),
                    ("t"@, JsonTree::Number(t as int)),
                    ("turns"@, JsonTree::Number(turns as int)),
                    ("type"@, JsonTree::Text(self.tag())),
                    ("winner"@, JsonTree::Text(winner@)),
                ],
            ),
        }
    }
}

/// Adds a field to a list of fields.
fn put(fields: &mut Vec<(String, Json)>, name: &str, value: Json)
    ensures
        fields_tree(final(fields)@) == fields_tree(old(fields)@).push((name@, value.tree())),
{
    let ghost before = fields@;
    fields.push((name.to_owned(), value));
    assert(fields_tree(fields@) =~= fields_tree(before).push((name@, value.tree())));
}

/// An object of the given fields.
fn object(fields: Vec<(String, Json)>) -> (r: Json)
    ensures
        r.tree() == JsonTree::Object(fields_tree(fields@)),
{
    let r = Json::Object(fields);
    assert(r.tree()->Object_0 =~= fields_tree(fields@));
    r
}

fn texts_json(strings: &Vec<String>) -> (r: Json)
    ensures
        r.tree() == texts_tree(strings@),
{
    let mut items: Vec<Json> = Vec::new();
    let mut i: usize = 0;
    while i < strings.len()
        invariant
            i <= strings.len(),
            items.len() == i,
            forall|j: int|
                0 <= j < i ==> (#[trigger] items@[j]).tree() == JsonTree::Text(strings@[j]@),
        decreases strings.len() - i,
    {
        items.push(Json::Text(strings[i].clone()));
        i = i + 1;
    }
    let r = Json::array(items);
    assert(r.tree()->Array_0 =~= texts_tree(strings@)->Array_0);
    r
}

fn optional_json(o: &Option<String>) -> (r: Json)
    ensures
        r.tree() == optional_tree(*o),
{
    match o {
        Some(s) => Json::Text(s.clone()),
        None => Json::Null,
    }
}

fn number_json(n: i64) -> (r: Json)
    ensures
        r.tree() == JsonTree::Number(n as int),
{
    Json::Number(n as i128)
}

fn text_json(s: &String) -> (r: Json)
    ensures
        r.tree() == JsonTree::Text(s@),
{
    Json::Text(s.clone())
}

impl PlayerInfo {
    /// The canonical form.
    pub fn to_json(&self) -> (r: Json)
        ensures
            r.tree() == self.tree(),
    {
        let mut fields: Vec<(String, Json)> = Vec::new();
        put(&mut fields, "competitor", text_json(&self.competitor));
        put(&mut fields, "deck", texts_json(&self.deck));
        put(&mut fields, "entrance", text_json(&self.entrance));
        put(&mut fields, "policy", text_json(&self.policy));
        assert(fields_tree(fields@) =~= self.tree()->Object_0);
        object(fields)
    }
}

impl Header {
    /// The canonical form.
    pub fn to_json(&self) -> (r: Json)
        ensures
            r.tree() == self.tree(),
    {
        let entries = &self.players.entries;
        let mut players: Vec<(String, Json)> = Vec::new();
        let mut i: usize = 0;
        while i < entries.len()
            invariant
                i <= entries.len(),
                players.len() == i,
                forall|j: int|
                    0 <= j < i ==> (#[trigger] players@[j]).0@ == entries@[j].0@
                        && players@[j].1.tree() == entries@[j].1.tree(),
            decreases entries.len() - i,
        {
            players.push((entries[i].0.clone(), entries[i].1.to_json()));
            i = i + 1;
        }
        assert(fields_tree(players@) =~= players_tree(entries@)->Object_0);
        let mut fields: Vec<(String, Json)> = Vec::new();
        put(&mut fields, "created", text_json(&self.created));
        put(&mut fields, "kind", text_json(&self.kind));
        put(&mut fields, "players", object(players));
        put(&mut fields, "schema", number_json(self.schema));
        put(&mut fields, "seed", Json::Number(self.seed as i128));
        assert(fields_tree(fields@) =~= self.tree()->Object_0);
        object(fields)
    }
}

impl RollMod {
    /// The canonical form.
    pub fn to_json(&self) -> (r: Json)
        ensures
            r.tree() == self.tree(),
    {
        let mut fields: Vec<(String, Json)> = Vec::new();
        put(&mut fields, "delta", number_json(self.delta));
        put(&mut fields, "src", text_json(&self.src));
        assert(fields_tree(fields@) =~= self.tree()->Object_0);
        object(fields)
    }
}

impl BreakoutRoll {
    /// The canonical form.
    pub fn to_json(&self) -> (r: Json)
        ensures
            r.tree() == self.tree(),
    {
        let mut fields: Vec<(String, Json)> = Vec::new();
        put(&mut fields, "penalty", number_json(self.penalty));
        put(&mut fields, "skill", text_json(&self.skill));
        put(&mut fields, "success", Json::Bool(self.success));
        put(&mut fields, "value", number_json(self.value));
        assert(fields_tree(fields@) =~= self.tree()->Object_0);
        object(fields)
    }
}

impl CardMovement {
    /// The canonical form of an event of this shape with the given tag.
    pub fn to_json(&self, tag: &str) -> (r: Json)
        ensures
            r.tree() == self.tree(tag@),
    {
        let mut fields: Vec<(String, Json)> = Vec::new();
        put(&mut fields, "cards", texts_json(&self.cards));
        put(&mut fields, "from", optional_json(&self.source));
        put(&mut fields, "hidden", Json::Bool(self.hidden));
        put(&mut fields, "player", text_json(&self.player));
        put(&mut fields, "t", number_json(self.t));
        put(&mut fields, "type", Json::Text(tag.to_owned()));
        assert(fields_tree(fields@) =~= self.tree(tag@)->Object_0);
        object(fields)
    }
}

fn mods_json(mods: &Vec<RollMod>) -> (r: Json)
    ensures
        r.tree() == mods_tree(mods@),
{
    let mut items: Vec<Json> = Vec::new();
    let mut i: usize = 0;
    while i < mods.len()
        invariant
            i <= mods.len(),
            items.len() == i,
            forall|j: int| 0 <= j < i ==> (#[trigger] items@[j]).tree() == mods@[j].tree(),
        decreases mods.len() - i,
    {
        items.push(mods[i].to_json());
        i = i + 1;
    }
    let r = Json::array(items);
    assert(r.tree()->Array_0 =~= mods_tree(mods@)->Array_0);
    r
}

fn rolls_json(rolls: &Vec<BreakoutRoll>) -> (r: Json)
    ensures
        r.tree() == rolls_tree(rolls@),
{
    let mut items: Vec<Json> = Vec::new();
    let mut i: usize = 0;
    while i < rolls.len()
        invariant
            i <= rolls.len(),
            items.len() == i,
            forall|j: int| 0 <= j < i ==> (#[trigger] items@[j]).tree() == rolls@[j].tree(),
        decreases rolls.len() - i,
    {
        items.push(rolls[i].to_json());
        i = i + 1;
    }
    let r = Json::array(items);
    assert(r.tree()->Array_0 =~= rolls_tree(rolls@)->Array_0);
    r
}

fn bonuses_json(bonuses: &Vec<(String, i64)>) -> (r: Json)
    ensures
        r.tree() == bonuses_tree(bonuses@),
{
    let mut fields: Vec<(String, Json)> = Vec::new();
    let mut i: usize = 0;
    while i < bonuses.len()
        invariant
            i <= bonuses.len(),
            fields.len() == i,
            forall|j: int|
                0 <= j < i ==> (#[trigger] fields@[j]).0@ == bonuses@[j].0@
                    && fields@[j].1.tree() == JsonTree::Number(bonuses@[j].1 as int),
        decreases bonuses.len() - i,
    {
        fields.push((bonuses[i].0.clone(), number_json(bonuses[i].1)));
        i = i + 1;
    }
    assert(fields_tree(fields@) =~= bonuses_tree(bonuses@)->Object_0);
    object(fields)
}

fn values_json(values: &Vec<Json>) -> (r: Json)
    ensures
        r.tree() == JsonTree::Array(trees(values@)),
{
    let mut items: Vec<Json> = Vec::new();
    let mut i: usize = 0;
    while i < values.len()
        invariant
            i <= values.len(),
            items.len() == i,
            forall|j: int| 0 <= j < i ==> (#[trigger] items@[j]).tree() == values@[j].tree(),
        decreases values.len() - i,
    {
        items.push(values[i].clone());
        i = i + 1;
    }
    assert(trees(items@) =~= trees(values@));
    Json::array(items)
}

impl Event {
    /// The tag that the `type` field holds.
    pub fn tag_text(&self) -> (r: &'static str)
        ensures
            r@ == self.tag(),
    {
        match self {
            Event::Roll { .. } => "roll",
            Event::TurnResult { .. } => "turn_result",
            Event::Decision { .. } => "decision",
            Event::Play { .. } => "play",
            Event::Stop { .. } => "stop",
            Event::Draw(_) => "draw",
            Event::Bury(_) => "bury",
            Event::Discard(_) => "discard",
            Event::Search(_) => "search",
            Event::FinishAttempt { .. } => "finish_attempt",
            Event::Breakout { .. } => "breakout",
            Event::CrowdMeter { .. } => "crowd_meter",
            Event::Unsupported { .. } => "unsupported",
            Event::EffectApplied { .. } => "effect",
            Event::Result { .. } => "result",
        }
    }

    /// The canonical form.
    pub fn to_json(&self) -> (r: Json)
        ensures
            r.tree() == self.tree(),
    {
        let tag = self.tag_text();
        let kind = Json::Text(tag.to_owned());
        let mut fields: Vec<(String, Json)> = Vec::new();
        match self {
            Event::Roll { t, player, skill, base, value, mods } => {
                put(&mut fields, "base", number_json(*base));
                put(&mut fields, "mods", mods_json(mods));
                put(&mut fields, "player", text_json(player));
                put(&mut fields, "skill", text_json(skill));
                put(&mut fields, "t", number_json(*t));
                put(&mut fields, "type", kind);
                put(&mut fields, "value", number_json(*value));
            },
            Event::TurnResult { t, winner, tie_bumps } => {
                put(&mut fields, "t", number_json(*t));
                put(&mut fields, "tie_bumps", number_json(*tie_bumps));
                put(&mut fields, "type", kind);
                put(&mut fields, "winner", text_json(winner));
            },
            Event::Decision { t, player, point, legal, chosen, policy } => {
                put(&mut fields, "chosen", chosen.clone());
                put(&mut fields, "legal", values_json(legal));
                put(&mut fields, "player", text_json(player));
                put(&mut fields, "point", text_json(point));
                put(&mut fields, "policy", text_json(policy));
                put(&mut fields, "t", number_json(*t));
                put(&mut fields, "type", kind);
            },
            Event::Play { t, player, card, order, atk_type } => {
                put(&mut fields, "atk_type", text_json(atk_type));
                put(&mut fields, "card", text_json(card));
                put(&mut fields, "order", text_json(order));
                put(&mut fields, "player", text_json(player));
                put(&mut fields, "t", number_json(*t));
                put(&mut fields, "type", kind);
            },
            Event::Stop { t, player, card, stopped, reason } => {
                put(&mut fields, "card", text_json(card));
                put(&mut fields, "player", text_json(player));
                put(&mut fields, "reason", text_json(reason));
                put(&mut fields, "stopped", text_json(stopped));
                put(&mut fields, "t", number_json(*t));
                put(&mut fields, "type", kind);
            },
            Event::Draw(m) => {
                return m.to_json(tag);
            },
            Event::Bury(m) => {
                return m.to_json(tag);
            },
            Event::Discard(m) => {
                return m.to_json(tag);
            },
            Event::Search(m) => {
                return m.to_json(tag);
            },
            Event::FinishAttempt { t, player, finish, value, crowd_meter, auto_success, bonus } => {
                put(&mut fields, "auto_success", Json::Bool(*auto_success));
                put(&mut fields, "bonus", bonuses_json(&bonus.entries));
                put(&mut fields, "crowd_meter", number_json(*crowd_meter));
                put(&mut fields, "finish", text_json(finish));
                put(&mut fields, "player", text_json(player));
                put(&mut fields, "t", number_json(*t));
                put(&mut fields, "type", kind);
                put(&mut fields, "value", number_json(*value));
            },
            Event::Breakout { t, defender, broke_out, rolls } => {
                put(&mut fields, "broke_out", Json::Bool(*broke_out));
                put(&mut fields, "defender", text_json(defender));
                put(&mut fields, "rolls", rolls_json(rolls));
                put(&mut fields, "t", number_json(*t));
                put(&mut fields, "type", kind);
            },
            Event::CrowdMeter { t, delta, value } => {
                put(&mut fields, "delta", number_json(*delta));
                put(&mut fields, "t", number_json(*t));
                put(&mut fields, "type", kind);
                put(&mut fields, "value", number_json(*value));
            },
            Event::Unsupported { t, owner, raw, reason, card, gimmick } => {
                put(&mut fields, "card", optional_json(card));
                put(&mut fields, "gimmick", optional_json(gimmick));
                put(&mut fields, "owner", text_json(owner));
                put(&mut fields, "raw", text_json(raw));
                put(&mut fields, "reason", text_json(reason));
                put(&mut fields, "t", number_json(*t));
                put(&mut fields, "type", kind);
            },
            Event::EffectApplied { t, src, action, target, detail } => {
                put(&mut fields, "action", text_json(action));
                put(&mut fields, "detail", detail.clone());
                put(&mut fields, "src", text_json(src));
                put(&mut fields, "t", number_json(*t));
                put(&mut fields, "target", optional_json(target));
                put(&mut fields, "type", kind);
            },
            Event::Result { t, winner, reason, turns } => {
                put(&mut fields, "reason", text_json(reason));
                put(&mut fields, "t", number_json(*t));
                put(&mut fields, "turns", number_json(*turns));
                put(&mut fields, "type", kind);
                put(&mut fields, "winner", text_json(winner));
            },
        }
        assert(fields_tree(fields@) =~= self.tree()->Object_0);
        object(fields)
    }
}

// ---------------------------------------------------------------------------
// The log
// ---------------------------------------------------------------------------

/// The index of the first item from index `i` on that is an error, if there is one.
pub open spec fn first_failure<T>(
    items: Seq<core::result::Result<T, String>>,
    i: int,
) -> Option<int>
    decreases items.len() - i,
{
    if 0 <= i < items.len() {
        if items[i] is Err {
            Some(i)
        } else {
            first_failure(items, i + 1)
        }
    } else {
        None
    }
}

/// What comes of the rows of a file: the error for a file without rows, the error of the
/// first row that could not be read, or the log of the records.
pub open spec fn parsed(
    header: Option<core::result::Result<Header, String>>,
    events: Seq<core::result::Result<Event, String>>,
    r: core::result::Result<GameLog, SrgError>,
) -> bool {
    match header {
        None => r matches Err(SrgError::Conformance(m)) && m@ == "empty log: no header line"@,
        Some(Err(e)) => r == Err::<GameLog, SrgError>(SrgError::Json(e)),
        Some(Ok(h)) => match first_failure(events, 0) {
            Some(i) => r == Err::<GameLog, SrgError>(SrgError::Json(events[i]->Err_0)),
            None => r matches Ok(log) && log.header == h && log.events@ == events.map_values(
                |e: core::result::Result<Event, String>| e->Ok_0,
            ),
        },
    }
}

/// The values of any shape that an event holds.
pub open spec fn event_values(e: Event) -> Seq<JsonTree> {
    match e {
        Event::Decision { legal, chosen, .. } => trees(legal@).push(chosen.tree()),
        Event::EffectApplied { detail, .. } => seq![detail.tree()],
        _ => Seq::empty(),
    }
}

/// The map of the event is well formed, and the names in every object in a value that
/// the event holds ascend.
pub open spec fn event_sorted(e: Event) -> bool {
    &&& e matches Event::FinishAttempt { bonus, .. } ==> bonus.wf()
    &&& forall|j: int|
        0 <= j < event_values(e).len() ==> sorted_tree(#[trigger] event_values(e)[j])
}

/// The map of the header is well formed, and so is every event in this respect.
pub open spec fn log_sorted(log: GameLog) -> bool {
    &&& log.header.players.wf()
    &&& forall|i: int| 0 <= i < log.events@.len() ==> event_sorted(#[trigger] log.events@[i])
}

impl GameLog {
    /// The canonical forms of the records, the header first.
    pub open spec fn record_trees(self) -> Seq<JsonTree> {
        seq![self.header.tree()] + self.events@.map_values(|e: Event| e.tree())
    }

    /// The lines of the log: the canonical text of each record.
    pub open spec fn lines(self) -> Seq<Seq<char>> {
        self.record_trees().map_values(|t: JsonTree| json_text(t))
    }

    /// A log with the given header and no events.
    pub fn new(header: Header) -> (log: GameLog)
        ensures
            log.header == header,
            log.events@ == Seq::<Event>::empty(),
            header.players.wf() ==> log_sorted(log),
    {
        GameLog { header, events: Vec::new() }
    }

    /// Appends an event.
    pub fn append(&mut self, event: Event)
        ensures
            final(self).header == old(self).header,
            final(self).events@ == old(self).events@.push(event),
            log_sorted(*old(self)) && event_sorted(event) ==> log_sorted(*final(self)),
    {
        self.events.push(event);
    }

    /// The canonical forms of the records, the header first.
    pub fn canonical(&self) -> (out: Vec<Json>)
        ensures
            trees(out@) == self.record_trees(),
            log_sorted(*self) ==> forall|i: int|
                0 <= i < out@.len() ==> sorted_tree(#[trigger] trees(out@)[i]),
    {
        let mut out: Vec<Json> = Vec::new();
        out.push(self.header.to_json());
        let mut i: usize = 0;
        while i < self.events.len()
            invariant
                i <= self.events.len(),
                out.len() == i + 1,
                out@[0].tree() == self.header.tree(),
                forall|j: int|
                    0 < j <= i ==> (#[trigger] out@[j]).tree() == self.events@[j - 1].tree(),
            decreases self.events.len() - i,
        {
            out.push(self.events[i].to_json());
            i = i + 1;
        }
        proof {
            assert(trees(out@) =~= self.record_trees());
            if log_sorted(*self) {
                assert forall|j: int| 0 <= j < out@.len() implies sorted_tree(
                    #[trigger] trees(out@)[j],
                ) by {
                    law_canonical_names_ascend(*self, j);
                }
            }
        }
        out
    }

    /// The lines of the log: the canonical text of each record, the header first.
    pub fn to_lines(&self) -> (lines: Vec<String>)
        ensures
            texts(lines@) == self.lines(),
    {
        let records = self.canonical();
        let mut lines: Vec<String> = Vec::new();
        let mut i: usize = 0;
        while i < records.len()
            invariant
                i <= records.len(),
                lines.len() == i,
                forall|j: int|
                    0 <= j < i ==> (#[trigger] lines@[j])@ == json_text(records@[j].tree()),
            decreases records.len() - i,
        {
            lines.push(records[i].to_text());
            i = i + 1;
        }
        assert(texts(lines@) =~= self.lines()) by {
            assert(trees(records@).len() == records@.len());
            assert forall|j: int| 0 <= j < lines@.len() implies texts(lines@)[j]
                == #[trigger] self.lines()[j] by {
                assert(trees(records@)[j] == records@[j].tree());
            }
        }
        lines
    }

    /// The log as the text of a file: every line ends in a line feed, the last one too.
    pub fn to_text(&self) -> (body: String)
        ensures
            body@ == framed(self.lines()),
    {
        let lines = self.to_lines();
        frame(&lines)
    }

    /// The rows of the text of a file: its lines without the blank ones.
    pub fn rows_of(text: &str) -> (kept: Vec<String>)
        ensures
            texts(kept@) == rows(line_list(text@, 0)),
    {
        let lines = split_lines(text);
        keep_rows(&lines)
    }

    /// The row that is to be read as the header and those that are to be read as events;
    /// nothing where there are no rows.
    pub fn split_rows(rows: Vec<String>) -> (r: Option<(String, Vec<String>)>)
        ensures
            rows@.len() == 0 ==> r is None,
            rows@.len() > 0 ==> (r matches Some((first, rest)) && first == rows@[0] && rest@
                == rows@.skip(1)),
    {
        let mut rest = rows;
        if rest.len() == 0 {
            return None;
        }
        let first = rest.remove(0);
        assert(rest@ =~= rows@.skip(1));
        Some((first, rest))
    }

    /// The log that the rows of a file make up: what came of reading the first row as a
    /// header, if there is a row, and of reading the other rows as events.
    ///
    /// A file without rows is an error, and so is a row that could not be read; of
    /// several such rows the first counts.
    pub fn parse(
        header: Option<core::result::Result<Header, String>>,
        events: Vec<core::result::Result<Event, String>>,
    ) -> (r: core::result::Result<GameLog, SrgError>)
        ensures
            parsed(header, events@, r),
            r is Ok <==> (header matches Some(Ok(_))) && forall|i: int|
                0 <= i < events@.len() ==> (#[trigger] events@[i]) is Ok,
            r matches Ok(log) ==> Some(Ok::<Header, String>(log.header)) == header
                && log.events@.len() == events@.len() && forall|i: int|
                0 <= i < events@.len() ==> (#[trigger] events@[i]) == Ok::<Event, String>(
                    log.events@[i],
                ),
    {
        let h = match header {
            None => {
                return Err(SrgError::Conformance("empty log: no header line".to_owned()));
            },
            Some(Err(e)) => {
                return Err(SrgError::Json(e));
            },
            Some(Ok(h)) => h,
        };
        let ghost all = events@;
        let mut read: Vec<Event> = Vec::new();
        for item in it: events
            invariant
                header == Some(Ok::<Header, String>(h)),
                all == events@,
                it.seq() == all,
                read@.len() == it.index(),
                first_failure(all, 0) == first_failure(all, it.index() as int),
                forall|j: int|
                    0 <= j < it.index() ==> (#[trigger] all[j]) == Ok::<Event, String>(read@[j]),
        {
            match item {
                Ok(e) => {
                    read.push(e);
                },
                Err(e) => {
                    assert(all[it.index() as int] is Err);
                    return Err(SrgError::Json(e));
                },
            }
        }
        assert(read@ =~= all.map_values(|e: core::result::Result<Event, String>| e->Ok_0));
        Ok(GameLog { header: h, events: read })
    }
}

// ---------------------------------------------------------------------------
// Verification
// ---------------------------------------------------------------------------

/// What is said of an event that differs.
pub open spec fn event_problem(i: int) -> Seq<char> {
    "event "@ + decimal(i as nat) + " differs"@
}

/// What is said of numbers of events that differ.
pub open spec fn count_problem(expected: int, actual: int) -> Seq<char> {
    "event count: expected "@ + decimal(expected as nat) + ", got "@ + decimal(actual as nat)
}

/// What is said of those of the first `k` events that differ.
pub open spec fn event_problems(a: Seq<Event>, b: Seq<Event>, k: int) -> Seq<Seq<char>>
    decreases k,
{
    if k <= 0 {
        Seq::empty()
    } else if a[k - 1].alike(b[k - 1]) {
        event_problems(a, b, k - 1)
    } else {
        event_problems(a, b, k - 1).push(event_problem(k - 1))
    }
}

/// The differences between two logs: in the header, in the number of events, and in
/// the events that both logs have.
pub open spec fn problems(expected: GameLog, actual: GameLog) -> Seq<Seq<char>> {
    let (m, n) = (expected.events@.len() as int, actual.events@.len() as int);
    (if expected.header.alike(actual.header) {
        Seq::empty()
    } else {
        seq!["header mismatch"@]
    }) + (if m == n {
        Seq::empty()
    } else {
        seq![count_problem(m, n)]
    }) + event_problems(expected.events@, actual.events@, vstd::math::min(m, n))
}

/// Nothing is said of events that do not differ.
proof fn lemma_event_problems_empty(a: Seq<Event>, b: Seq<Event>, k: int)
    requires
        0 <= k <= a.len(),
        k <= b.len(),
    ensures
        event_problems(a, b, k).len() == 0 <==> forall|i: int|
            0 <= i < k ==> (#[trigger] a[i]).alike(b[i]),
    decreases k,
{
    if k > 0 {
        lemma_event_problems_empty(a, b, k - 1);
    }
}

/// The differences between two logs; none where they match.
pub fn diff(expected: &GameLog, actual: &GameLog) -> (found: Vec<String>)
    ensures
        texts(found@) == problems(*expected, *actual),
        found@.len() == 0 <==> expected.alike(*actual),
{
    let mut found: Vec<String> = Vec::new();
    let ghost (a, b) = (expected.events@, actual.events@);
    if !expected.header.same(&actual.header) {
        found.push("header mismatch".to_owned());
    }
    if expected.events.len() != actual.events.len() {
        let mut text = "event count: expected ".to_owned();
        text.append(decimal_text(expected.events.len() as u128).as_str());
        text.append(", got ");
        text.append(decimal_text(actual.events.len() as u128).as_str());
        found.push(text);
    }
    let ghost head = texts(found@);
    let mut i: usize = 0;
    while i < expected.events.len() && i < actual.events.len()
        invariant
            a == expected.events@,
            b == actual.events@,
            i <= a.len(),
            i <= b.len(),
            texts(found@) == head + event_problems(a, b, i as int),
        decreases expected.events.len() - i,
    {
        let ghost before = found@;
        if !expected.events[i].same(&actual.events[i]) {
            let mut text = "event ".to_owned();
            text.append(decimal_text(i as u128).as_str());
            text.append(" differs");
            found.push(text);
            assert(texts(found@) =~= texts(before).push(event_problem(i as int)));
        }
        assert(texts(found@) =~= head + event_problems(a, b, i + 1));
        i = i + 1;
    }
    proof {
        assert(texts(found@) =~= problems(*expected, *actual));
        lemma_event_problems_empty(a, b, i as int);
        assert(found@.len() == texts(found@).len());
    }
    found
}

/// Whether two logs match.
pub fn matches(expected: &GameLog, actual: &GameLog) -> (r: bool)
    ensures
        r == expected.alike(*actual),
        r <==> problems(*expected, *actual).len() == 0,
{
    let found = diff(expected, actual);
    assert(texts(found@).len() == found@.len());
    found.len() == 0
}

} // verus!
