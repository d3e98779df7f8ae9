//! The effect language: what the text of a card compiles to.
//!
//! An [`Effect`] says when it fires ([`Trigger`]), under which guard ([`Condition`])
//! and what it then does ([`Action`]). [`IrNode`] is the union of all nodes, for a node
//! whose kind is not known ahead of time. Fields that can be left out of a written node
//! have a default; the predicates of this module say when a field is at it.

use vstd::prelude::*;

verus! {

/// The version of the effect language.
pub const SCHEMA_VERSION: i64 = 156;

/// A flag is at its default and can be left out.
pub fn is_false(b: &bool) -> (r: bool)
    ensures
        r == !*b,
{
    !*b
}

/// The count that stands for "at least one".
pub fn one_i64() -> (n: i64)
    ensures
        n == 1,
{
    1
}

/// A count is at its default and can be left out.
pub fn is_one_i64(n: &i64) -> (r: bool)
    ensures
        r == (*n == 1),
{
    *n == 1
}

/// A search reads the deck alone, and its source can be left out.
pub fn is_default_search_source(s: &SearchSource) -> (r: bool)
    ensures
        r == (*s is Deck),
{
    *s == SearchSource::Deck
}

/// A node is about its owner's side, and the side can be left out.
pub fn is_self_who(w: &Who) -> (r: bool)
    ensures
        r == (*w is SelfSide),
{
    matches!(w, Who::SelfSide)
}

/// A count ranges over the cards in play, and the zone can be left out.
pub fn is_in_play_zone(z: &CountZone) -> (r: bool)
    ensures
        r == (*z is InPlay),
{
    matches!(z, CountZone::InPlay)
}

// ---------------------------------------------------------------------------
// Node tags
// ---------------------------------------------------------------------------

/// A text between double quotes, with escapes, as `{:?}` writes it.
pub uninterp spec fn debug_text(s: Seq<char>) -> Seq<char>;

/// `Debug` of `str`, through `format!`: a text between double quotes, with escapes. Which
/// characters are escaped is not stated.
#[verifier::external_body]
fn debug_of(s: &str) -> (r: String)
    ensures
        r@ == debug_text(s@),
{
    format!("{:?}", s)
}

/// What is said of a node tag that is not the expected one.
pub open spec fn tag_problem(expected: Seq<char>, got: Seq<char>) -> Seq<char> {
    "expected @type "@ + debug_text(expected) + ", got "@ + debug_text(got)
}

/// Whether a node tag is the expected one.
pub fn check_tag(expected: &str, got: &str) -> (r: core::result::Result<(), String>)
    ensures
        r is Ok <==> got@ == expected@,
        r matches Err(m) ==> m@ == tag_problem(expected@, got@),
{
    if expected.to_owned() == got.to_owned() {
        return Ok(());
    }
    let mut m = "expected @type ".to_owned();
    m.append(debug_of(expected).as_str());
    m.append(", got ");
    m.append(debug_of(got).as_str());
    Err(m)
}

/// The node tag of [`Effect`].
#[derive(Debug, Clone, Copy, PartialEq, Eq, Default, Structural)]
pub struct EffectTag;

impl EffectTag {
    /// The tag as it is written.
    pub fn name(self) -> (name: &'static str)
        ensures
            name@ == "Effect"@,
    {
        "Effect"
    }

    /// The tag that a text is, if it is this one.
    pub fn read(text: &str) -> (r: core::result::Result<EffectTag, String>)
        ensures
            r is Ok <==> text@ == "Effect"@,
            r matches Err(m) ==> m@ == tag_problem("Effect"@, text@),
    {
        match check_tag("Effect", text) {
            Ok(_) => Ok(EffectTag),
            Err(m) => Err(m),
        }
    }
}

/// The node tag of [`CardFilter`].
#[derive(Debug, Clone, Copy, PartialEq, Eq, Default, Structural)]
pub struct CardFilterTag;

impl CardFilterTag {
    /// The tag as it is written.
    pub fn name(self) -> (name: &'static str)
        ensures
            name@ == "CardFilter"@,
    {
        "CardFilter"
    }

    /// The tag that a text is, if it is this one.
    pub fn read(text: &str) -> (r: core::result::Result<CardFilterTag, String>)
        ensures
            r is Ok <==> text@ == "CardFilter"@,
            r matches Err(m) ==> m@ == tag_problem("CardFilter"@, text@),
    {
        match check_tag("CardFilter", text) {
            Ok(_) => Ok(CardFilterTag),
            Err(m) => Err(m),
        }
    }
}

/// The node tag of [`FrequencyGuard`].
#[derive(Debug, Clone, Copy, PartialEq, Eq, Default, Structural)]
pub struct FrequencyGuardTag;

impl FrequencyGuardTag {
    /// The tag as it is written.
    pub fn name(self) -> (name: &'static str)
        ensures
            name@ == "FrequencyGuard"@,
    {
        "FrequencyGuard"
    }

    /// The tag that a text is, if it is this one.
    pub fn read(text: &str) -> (r: core::result::Result<FrequencyGuardTag, String>)
        ensures
            r is Ok <==> text@ == "FrequencyGuard"@,
            r matches Err(m) ==> m@ == tag_problem("FrequencyGuard"@, text@),
    {
        match check_tag("FrequencyGuard", text) {
            Ok(_) => Ok(FrequencyGuardTag),
            Err(m) => Err(m),
        }
    }
}

/// The node tag of [`ChoiceOption`].
#[derive(Debug, Clone, Copy, PartialEq, Eq, Default, Structural)]
pub struct ChoiceOptionTag;

impl ChoiceOptionTag {
    /// The tag as it is written.
    pub fn name(self) -> (name: &'static str)
        ensures
            name@ == "ChoiceOption"@,
    {
        "ChoiceOption"
    }

    /// The tag that a text is, if it is this one.
    pub fn read(text: &str) -> (r: core::result::Result<ChoiceOptionTag, String>)
        ensures
            r is Ok <==> text@ == "ChoiceOption"@,
            r matches Err(m) ==> m@ == tag_problem("ChoiceOption"@, text@),
    {
        match check_tag("ChoiceOption", text) {
            Ok(_) => Ok(ChoiceOptionTag),
            Err(m) => Err(m),
        }
    }
}

/// The node tag of [`RerollCost`].
#[derive(Debug, Clone, Copy, PartialEq, Eq, Default, Structural)]
pub struct RerollCostTag;

impl RerollCostTag {
    /// The tag as it is written.
    pub fn name(self) -> (name: &'static str)
        ensures
            name@ == "RerollCost"@,
    {
        "RerollCost"
    }

    /// The tag that a text is, if it is this one.
    pub fn read(text: &str) -> (r: core::result::Result<RerollCostTag, String>)
        ensures
            r is Ok <==> text@ == "RerollCost"@,
            r matches Err(m) ==> m@ == tag_problem("RerollCost"@, text@),
    {
        match check_tag("RerollCost", text) {
            Ok(_) => Ok(RerollCostTag),
            Err(m) => Err(m),
        }
    }
}

/// The six skills (three attributes + three attack types).
#[derive(Debug, Clone, Copy, PartialEq, Eq, PartialOrd, Ord, Structural)]
pub enum Skill {
    Power,
    Agility,
    Technique,
    Submission,
    Grapple,
    Strike,
}

impl Skill {
    /// All six skills, in the canonical order.
    pub const ALL: [Skill; 6] = [
        Skill::Power,
        Skill::Agility,
        Skill::Technique,
        Skill::Submission,
        Skill::Grapple,
        Skill::Strike,
    ];

    /// The skill's canonical name.
    pub open spec fn text(self) -> Seq<char> {
        match self {
            Skill::Power => "Power"@,
            Skill::Agility => "Agility"@,
            Skill::Technique => "Technique"@,
            Skill::Submission => "Submission"@,
            Skill::Grapple => "Grapple"@,
            Skill::Strike => "Strike"@,
        }
    }

    /// The skill's canonical name.
    pub fn name(self) -> (name: &'static str)
        ensures
            name@ == self.text(),
    {
        match self {
            Skill::Power => "Power",
            Skill::Agility => "Agility",
            Skill::Technique => "Technique",
            Skill::Submission => "Submission",
            Skill::Grapple => "Grapple",
            Skill::Strike => "Strike",
        }
    }
}

/// Attack type of a card (or `None` for non-attack cards).
#[derive(Debug, Clone, Copy, PartialEq, Eq, Structural)]
pub enum AtkType {
    Strike,
    Grapple,
    Submission,
    /// Not an attack; its name is "None".
    NoAttack,
}

impl AtkType {
    /// The attack type's canonical name.
    pub open spec fn text(self) -> Seq<char> {
        match self {
            AtkType::Strike => "Strike"@,
            AtkType::Grapple => "Grapple"@,
            AtkType::Submission => "Submission"@,
            AtkType::NoAttack => "None"@,
        }
    }

    /// The attack type's canonical name.
    pub fn name(self) -> (name: &'static str)
        ensures
            name@ == self.text(),
    {
        match self {
            AtkType::Strike => "Strike",
            AtkType::Grapple => "Grapple",
            AtkType::Submission => "Submission",
            AtkType::NoAttack => "None",
        }
    }
}

/// Where a card sits in a play sequence.
#[derive(Debug, Clone, Copy, PartialEq, Eq, Default, Structural)]
pub enum PlayOrder {
    #[default]
    Lead,
    Followup,
    Finish,
    /// Outside the sequence; its name is "None".
    NoOrder,
}

impl PlayOrder {
    /// The play order's canonical name.
    pub open spec fn text(self) -> Seq<char> {
        match self {
            PlayOrder::Lead => "Lead"@,
            PlayOrder::Followup => "Followup"@,
            PlayOrder::Finish => "Finish"@,
            PlayOrder::NoOrder => "None"@,
        }
    }

    /// The play order's canonical name.
    pub fn name(self) -> (name: &'static str)
        ensures
            name@ == self.text(),
    {
        match self {
            PlayOrder::Lead => "Lead",
            PlayOrder::Followup => "Followup",
            PlayOrder::Finish => "Finish",
            PlayOrder::NoOrder => "None",
        }
    }
}

/// Numeric comparison operator.
#[derive(Debug, Clone, Copy, PartialEq, Eq, Structural)]
pub enum Comparator {
    Gt,
    Ge,
    Eq,
    Lt,
    Le,
}

/// Which end of a deck a draw/recur touches.
#[derive(Debug, Clone, Copy, PartialEq, Eq, Structural)]
pub enum DeckEnd {
    Top,
    Bottom,
}

/// Destination zone for a search.
#[derive(Debug, Clone, Copy, PartialEq, Eq, Structural)]
pub enum Dest {
    Hand,
    Discard,
    /// Put the searched card on TOP of the (shuffled) deck — "search your deck for a Strike and put
    /// it on top of your shuffled deck" (Heartache Kid).
    DeckTop,
}

/// Source zone a `Action::Bury` draws from.
#[derive(Debug, Clone, Copy, PartialEq, Eq, Default, Structural)]
pub enum BuryFrom {
    #[default]
    Discard,
    Hand,
}

/// Source zone a `Action::ShuffleIntoDeck` draws from.
#[derive(Debug, Clone, Copy, PartialEq, Eq, Default, Structural)]
pub enum ShuffleSource {
    #[default]
    Discard,
    InPlay,
    /// From the actor's HAND — "shuffle any number of cards from your hand into your deck" (The
    /// Dudebuster).
    Hand,
}

/// What a play/land requirement counts on the actor's own board — the generic play-restriction
/// vocabulary.
#[derive(Debug, Clone, Copy, PartialEq, Eq, Structural)]
pub enum RequireKind {
    Cards,
    Leads,
    FollowUps,
}

/// Which zone(s) a `Action::Search` tutors from — `Deck` (the default) or `DeckOrDiscard` ("search
/// your deck or discard pile for X"): the pool is the union of both zones and the found card leaves
/// whichever zone holds it.
#[derive(Debug, Clone, Copy, PartialEq, Eq, Default, Structural)]
pub enum SearchSource {
    #[default]
    Deck,
    DeckOrDiscard,
}

/// A match stipulation ("this is a Steel Cage Match").
#[derive(Debug, Clone, Copy, PartialEq, Eq, Default, Structural)]
pub enum MatchType {
    #[default]
    Standard,
    SteelCage,
    LigersDen,
    RingOfFire,
    Triad,
    TagTeam,
    SteelChain,
    Lumberjack,
}

/// Which zone a `Action::BuffSkill` `per`-count ranges over — "for each card you have **in play**"
/// vs "in your **discard** pile".
#[derive(Debug, Clone, Copy, PartialEq, Eq, Default, Structural)]
pub enum CountZone {
    #[default]
    InPlay,
    Discard,
    /// Cards the target FLIPPED this turn (drained deck → discard by `Flip`), read while they are
    /// still the current turn's flips — "your Finish roll is +1 for each Strike card flipped" (Five
    /// Star Frog Splash); "for each Strike flipped: +1 to Strike and Power" (Five Star Heart
    /// Punch).
    FlippedThisTurn,
    /// Cards in the target's **hand** — "+1 for every 4 cards in your hand" (GOAT's Dive Bomb
    /// Superkick, Party Package).
    Hand,
}

/// Reach of a `Action::DisqualificationRule` toggle.
#[derive(Debug, Clone, Copy, PartialEq, Eq, Default, Structural)]
pub enum DqScope {
    #[default]
    SelfSide,
    Match,
}

/// Which comparison `Action::ConsideredCompare` overrides "for card effects": `Skill` forces every
/// `SkillCompare` of the declaring player vs the opponent, `Hand` forces every `HandSizeCompare`.
#[derive(Debug, Clone, Copy, PartialEq, Eq, Structural)]
pub enum CompareDomain {
    Skill,
    Hand,
}

/// How `Action::ConsideredCompare` resolves the declaring player vs the opponent: `Greater` = the
/// subject is always considered higher/more ("your skills are considered higher" — RaRa Perre);
/// `Less` = always considered lower/fewer ("you are considered to have fewer cards in hand" — Theo
/// the Greek Neo V2).
#[derive(Debug, Clone, Copy, PartialEq, Eq, Structural)]
pub enum CompareOrder {
    Greater,
    Less,
}

/// Which revealed cards count toward the draw in `Action::RevealForDraw`.
#[derive(Debug, Clone, Copy, PartialEq, Eq, Structural)]
pub enum RevealMatch {
    Stop,
    RolledSkill,
}

/// What a `Action::Scry` does with revealed cards that are neither taken to hand nor buried by the
/// fixed `bury` count.
#[derive(Debug, Clone, Copy, PartialEq, Eq, Default, Structural)]
pub enum ScryRest {
    #[default]
    Return,
    Choose,
    Flip,
    MayFlip,
}

/// Where a `Action::RevealRoute` sends the revealed card.
#[derive(Debug, Clone, Copy, PartialEq, Eq, Default, Structural)]
pub enum RevealDest {
    #[default]
    Leave,
    Hand,
    Flip,
    Bury,
}

/// Which end of the deck a `Action::RevealRoute` reveals from.
#[derive(Debug, Clone, Copy, PartialEq, Eq, Default, Structural)]
pub enum RevealFrom {
    #[default]
    Top,
    Bottom,
    Choose,
}

/// Where a `Action::RevealThen` reveals its card from.
#[derive(Debug, Clone, Copy, PartialEq, Eq, Default, Structural)]
pub enum RevealSource {
    #[default]
    DeckTop,
    DeckBottom,
    HandRandom,
}

/// Direction of a stop relative to the acting player.
#[derive(Debug, Clone, Copy, PartialEq, Eq, Structural)]
pub enum Direction {
    Yours,
    Theirs,
}

/// How long a modifier persists.
#[derive(Debug, Clone, Copy, PartialEq, Eq, Structural)]
pub enum Duration {
    WhileInPlay,
    WhileGimmickActive,
    Instant,
    /// Active only while the source card sits in its owner's **discard pile** — "when this card is
    /// in your discard pile, …" (the in-discard Spotlight blanks).
    WhileInDiscard,
    /// TIMED: granted imperatively when the effect fires and swept at the END of the turn it was
    /// granted in — "until the end of the turn".
    UntilEndOfTurn,
    /// TIMED: granted imperatively and swept at the start of the owner's next ACTIVE turn — "until
    /// the start of your next turn" (Snake Pitt Super Lucha, Arcade Addict Aaron, Caveman V1).
    UntilStartOfYourNextTurn,
    /// TIMED, event-swept: active until the TARGET player next LANDS A HIT — "your opponent's
    /// Gimmick is blank until they hit a card" (Sleep Paralysis).
    UntilTargetHitsCard,
}

/// Where an effect originates.
#[derive(Debug, Clone, Copy, PartialEq, Eq, Structural)]
pub enum EffectSource {
    Card,
    Gimmick,
    Entrance,
}

/// How often an effect may fire.
#[derive(Debug, Clone, Copy, PartialEq, Eq, Structural)]
pub enum Frequency {
    Unlimited,
    OncePerTurn,
    OncePerMatch,
    NPerMatch,
}

/// A forced-loss condition.
#[derive(Debug, Clone, Copy, PartialEq, Eq, Structural)]
pub enum LoseKind {
    Disqualification,
    Pinfall,
}

/// Whether a roll modifier applies to this roll or the next.
#[derive(Debug, Clone, Copy, PartialEq, Eq, Default, Structural)]
pub enum RollWhen {
    #[default]
    This,
    Next,
}

/// Comparison operand for skill/hand-size compares.
#[derive(Debug, Clone, Copy, PartialEq, Eq, Structural)]
pub enum Vs {
    Opp,
    OppSame,
    Value,
    SelfOther,
}

/// Which player a node targets.
#[derive(Debug, Clone, Copy, PartialEq, Eq, Default, Structural)]
pub enum Who {
    #[default]
    SelfSide,
    Opp,
}


/// A predicate over cards (name/number/tag/attack-type/play-order/raw).
#[derive(Debug, Default, PartialEq, Eq)]
pub struct CardFilter {
    pub node_type: CardFilterTag,
    pub number: Option<i64>,
    pub atk_type: Option<AtkType>,
    pub play_order: Option<PlayOrder>,
    /// OR-list form of `Self::play_order` — "1 **Lead or Follow Up** with 'Roll' in the name"
    /// (Cherie Von Danish).
    pub play_orders: Vec<PlayOrder>,
    pub tag: Option<String>,
    pub name: Option<String>,
    pub raw: Option<String>,
    /// Case-insensitive substring match on the card's **title** — "a card with 'X' (or 'Y') in the
    /// name".
    pub name_contains: Vec<String>,
    /// Case-insensitive substring match on the card's **rules text** — "a card with 'X' in the
    /// text".
    pub text_contains: Vec<String>,
    /// "a stop" / "N stops" / "for each stop …" — constrain to STOP cards (a card whose effects
    /// declare a `Action::Stop`).
    pub is_stop: Option<bool>,
    /// Cross-field OR: the card must match AT LEAST ONE of these sub-filters, in addition to any
    /// base-field constraints on THIS filter.
    pub any_of: Vec<CardFilter>,
}

/// How a costed `Action::Reroll` is paid.
#[derive(Debug, Clone, Copy, PartialEq, Eq, Structural)]
pub enum RerollCostKind {
    ShuffleInPlay,
    BuryFromHand,
    DiscardFromHand,
    RevealFromHand,
}

/// The cost of a `Action::Reroll` (the payment offered alongside the re-roll).
#[derive(Debug, PartialEq, Eq)]
pub struct RerollCost {
    pub node_type: RerollCostTag,
    pub kind: RerollCostKind,
    pub count: Option<i64>,
    pub filter: Option<CardFilter>,
}

/// The frequency guard attached to every `Effect`.
#[derive(Debug, Clone, PartialEq, Eq)]
pub struct FrequencyGuard {
    pub node_type: FrequencyGuardTag,
    pub kind: Frequency,
    pub n: Option<i64>,
}


/// When an `Effect` fires.
#[allow(inconsistent_fields)]
#[derive(Debug, Clone, PartialEq, Eq)]
pub enum Trigger {
    OnPlay,
    OnRoll {
        skill: Option<Skill>,
        who: Who,
    },
    /// Fires on a FINISH roll (not the turn roll-off) — "when you roll `skill` for your Finish
    /// roll" (The Man from I.T.).
    OnFinishRoll {
        skill: Option<Skill>,
        who: Who,
    },
    /// Fires each time `who` has rolled EVERY skill in `skills` as a turn roll since the last
    /// firing (General Lee Wong V2: "each time you roll Power, Agility, and Technique for your turn
    /// rolls").
    OnRolledAll {
        skills: Vec<Skill>,
        who: Who,
    },
    InRoll {
        skill: Option<Skill>,
        who: Who,
        either: bool,
    },
    OnRollBoost {
        skill: Option<Skill>,
        delta: i64,
        on_bump: bool,
    },
    OnWinTurn,
    OnLoseTurn {
        by: Option<i64>,
    },
    OnStop {
        dir: Direction,
        /// When set, fires only if the **stopped** card's play order matches — "when your opponent
        /// stops your *Finish*" (La Fenix Super Lucha).
        order: Option<PlayOrder>,
    },
    OnHit {
        atk_type: Option<AtkType>,
        /// Case-insensitive OR-substring match on the **hit** card's title — "when you hit a card
        /// with 'X' (or 'Y') in the name".
        name_contains: Vec<String>,
        /// Same, against the hit card's rules text — "…with 'X' in the text".
        text_contains: Vec<String>,
        /// "When you hit a card" (any card, no gate) as a standing gimmick — fires on every hit
        /// (Bartholomew Hooke).
        on_any: bool,
        /// Play-order gate on the HIT card — "when you hit a **Lead**" (Sticky Sailboat, Asia, Chip
        /// Day).
        order: Option<PlayOrder>,
        /// WHOSE hit fires this, from the owner's POV. `SelfSide` (the default) = "when YOU hit a
        /// card"; `Opp` = "after your OPPONENT hits a Follow Up" (El Super Hombre V2).
        who: Who,
        /// Dispatch this OnHit from the owner's HAND, not the board — a "reveal this card from your
        /// hand when your opponent hits <X>" reactive (The Mailman Always Delivers).
        from_hand: bool,
    },
    OnBump,
    /// "When a card or Gimmick causes you to bury any number of cards" (The Cyclone V1) / "when you
    /// bury OR discard cards from your hand from a card effect or Gimmick" (Tommy Stillwell).
    OnBury {
        who: Who,
        from_hand_only: bool,
        also_discard: bool,
    },
    StartOfTurn,
    /// Fires for the NON-active player during the active player's turn — "once during your
    /// opponent's turn, you may …" (Memes Dealer V1).
    DuringOpponentTurn,
    StartOfMatch,
    OnBreakout {
        /// Whose breakout fires this: `None` = any breakout ("after a breakout" — Copy Kat V2);
        /// `Some(SelfSide)` = you broke out; `Some(Opp)` = your opponent broke out ("if your
        /// opponent breaks out" — the Spotlight recur).
        who: Option<Who>,
    },
    /// Fires for each of `who`'s breakout ROLLS (up to `BREAKOUT_ATTEMPTS` per finish), as each is
    /// made — distinct from `Trigger::OnBreakout`, which fires once on a SUCCESSFUL breakout.
    OnBreakoutRoll {
        who: Who,
        /// Ordinal gate on WHICH of the defender's breakout rolls fire this — the 1-based attempt
        /// numbers ("your opponent's 1st or 2nd breakout roll" -> `[1, 2]`; "their 3rd breakout
        /// roll" -> `[3]`).
        attempts: Vec<i64>,
    },
    /// Fires when the `who`-side re-rolls their TURN roll (at the roll-off, after the re-rolled die
    /// lands).
    OnReroll {
        who: Who,
    },
    /// Fires when the `who`-side's deck is shuffled by a card/gimmick EFFECT (any effect-caused
    /// shuffle: explicit "shuffle your deck", or the incidental shuffle after a
    /// search/tutor/shuffle-into-deck/hand-into-deck).
    OnShuffle {
        who: Who,
    },
    /// Fires right after the `who`-side DRAWS one or more cards (`run_on_draw` at the `draw`
    /// chokepoint).
    OnDraw {
        who: Who,
    },
    /// Fires when the `who`-side flips one or more cards (`Flip` mills deck→discard).
    OnFlip {
        who: Who,
        count: Option<i64>,
        at_least: bool,
        on_self: bool,
    },
    /// Fires when one or more cards LEAVE the `who`-side's discard pile because of a card/gimmick
    /// EFFECT — "when your opponent moves any number of cards from their discard pile with their
    /// card effect or Gimmick" (Brumeister V2).
    OnDiscardMove {
        who: Who,
    },
    /// Fires whenever the (shared) Crowd Meter goes UP — "when the Crowd Meter increases, <body>"
    /// (Khloe Mai's gimmick).
    OnCrowdMeterIncrease,
    /// Fires once at the START of every turn, AFTER the per-turn state rotation but BEFORE the
    /// roll-off — so a `MultiTurnRollBonus` armed here still lands on this turn's roll, and last-
    /// turn gates (`EndedTurnNoPlay`, `BuriedSpotlightLastTurn`) read the just-ended turn.
    OnTurnStart,
    Static,
}


/// A boolean guard on an effect or choice option.
#[allow(inconsistent_fields)]
#[derive(Debug, PartialEq, Eq)]
pub enum Condition {
    Always,
    And {
        items: Vec<Condition>,
    },
    Or {
        items: Vec<Condition>,
    },
    Not {
        item: Box<Condition>,
    },
    SkillCompare {
        skill: Skill,
        cmp: Comparator,
        who: Who,
        vs: Vs,
        value: Option<i64>,
        vs_skill: Option<Skill>,
    },
    HandSizeCompare {
        cmp: Comparator,
        vs: Vs,
        value: Option<i64>,
        who: Who,
    },
    CrowdMeterCompare {
        cmp: Comparator,
        value: i64,
    },
    /// `who`'s remaining deck size compared to `value` — "if you have 0 cards in your deck"
    /// (Foxworthy V3's finish double).
    DeckSizeCompare {
        cmp: Comparator,
        value: i64,
        who: Who,
    },
    /// The match currently has no disqualifications — neither player can be DQ'd
    /// (`GameState.match_has_no_dq`).
    MatchHasNoDisqualifications,
    /// The current match is one of the listed stipulations ("if this is a Steel Cage or Liger's Den
    /// Match, …").
    IsMatchType {
        types: Vec<MatchType>,
    },
    HasInPlay {
        who: Who,
        filter: CardFilter,
        count: i64,
        cmp: Comparator,
    },
    HasInHand {
        who: Who,
        filter: CardFilter,
        count: i64,
    },
    HasInDiscard {
        who: Who,
        filter: CardFilter,
        /// How many matching cards the discard pile must hold — "if you have `count` Finishes in
        /// your discard pile" (Fortress's Tower of Strength: count 2).
        count: i64,
    },
    /// Cross-board in-play count compare: `who`'s count of cards in play matching `filter` compared
    /// (`cmp`) against `vs_who`'s count of the same filter.
    InPlayCompare {
        filter: CardFilter,
        cmp: Comparator,
        who: Who,
        vs_who: Who,
    },
    /// True while `who`'s `Action::ChooseName` binding equals `name` — the condition that turns "when
    /// you hit a card with THAT in the name" into one concrete effect per option (Raven).
    ChosenNameIs {
        name: String,
        who: Who,
    },
    RollWasSkill {
        skill: Skill,
        /// Whose turn-roll skill this checks.
        who: Who,
    },
    RollGapExactly {
        k: i64,
    },
    RollGapAtLeast {
        k: i64,
    },
    /// The owner rolled at least `k` *higher* than the opponent — mirror of `RollGapAtLeast` (owner
    /// `k` lower).
    RollLeadAtLeast {
        k: i64,
    },
    RollValue {
        cmp: Comparator,
        value: i64,
        /// Whose turn-roll VALUE (die + stat + mods) to compare.
        who: Who,
    },
    /// The rolled skill's **printed** (base, unbuffed) stat on the `who`-side's competitor equals
    /// `value` — "when your opponent rolls their printed 8 skill" (Collin the Chrononaut).
    PrintedRollValue {
        who: Who,
        value: i64,
    },
    /// The owner and their target rolled the **same skill** for this turn-roll (Hex, Nic Nemeth).
    SameRolledSkill,
    /// This is the first turn of the game (`GameState.turn_no <= 1` — 0 at setup, 1 once the first
    /// turn begins).
    FirstTurn,
    /// The card the owner most recently stopped had NEITHER a competitor logo NOR a skill
    /// requirement — i.e.
    StoppedCardNoLogoNoReq,
    /// The owner's opponent won the *previous* turn's roll-off (`GameState.last_roll_winner`);
    /// false before turn 1.
    OppWonLastRoll,
    /// The PREVIOUS turn's roll-off bumped (`GameState.last_turn_bumped`); false before turn 1.
    BumpedLastTurnRoll,
    /// `who` ended the **previous** turn without playing a card — they were the roll-off winner on
    /// turn `turn_no - 1` and passed (chose not to play, or had nothing playable).
    EndedTurnNoPlay {
        who: Who,
    },
    /// `who` buried a Spotlight card on the **previous** turn.
    BuriedSpotlightLastTurn {
        who: Who,
    },
    /// `who` broke out on the PREVIOUS turn — they were the defender of a Finish on turn `turn_no -
    /// 1` and survived every Breakout roll.
    BrokeOutLastTurn {
        who: Who,
    },
    /// `who` performed a stop (played a stop card that stopped an attack) on the PREVIOUS turn
    /// (`last_turn = true`) or THIS turn (`last_turn = false`).
    StoppedCard {
        who: Who,
        last_turn: bool,
    },
    /// The owner re-rolled their turn roll **this** turn — any of their turn dice was re-rolled at
    /// the roll-off (a granted "re-roll your next turn roll", a standing `Reroll{This}`, or a bump
    /// re-roll).
    RerolledTurnRoll,
    /// "flipped for your Gimmick" — the flip currently resolving was caused by a Gimmick-source
    /// effect.
    FlippedForGimmick,
    /// "flipped by \"<X>\"" — the flip currently resolving was caused by a card whose name contains
    /// one of `names` (case-insensitive OR-substring; the Set-Up-the-Ladder ladder-match cards).
    FlippedByName {
        names: Vec<String>,
    },
    GimmickFlipped {
        who: Who,
    },
    /// It is currently `who`'s turn — the active player (roll-off winner) is the `who`-side.
    DuringTurn {
        who: Who,
    },
    /// The owner's competitor's name contains any of `name_contains` (case-insensitive substring) —
    /// "you are Paul Walter Hauser".
    CompetitorIs {
        name_contains: Vec<String>,
    },
    /// `who` has hit (landed) at least one card this turn — "if you hit another card this turn" .
    /// Reads `PlayerState.hits_this_turn`, reset at each turn start; the current (stopped) card is
    /// not yet counted.
    HitThisTurn {
        who: Who,
    },
    /// `who` has DRAWN at least `at_least` cards this turn — "if you drew 1 or more cards this
    /// turn, …" (The Gobstopper recur; Brotherly Love's "drew 3 or more → also a Lead").
    DrewThisTurn {
        who: Who,
        at_least: i64,
    },
    /// `who` has LOST at least `at_least` turn rolls IN A ROW — "if you lose 2 Turn Rolls in a row,
    /// …" (Me Against the World's discard recur).
    LostTurnRollsInARow {
        who: Who,
        at_least: i64,
    },
    /// `who` hit (landed) a card matching `filter` this turn (`last_turn = false`) or the PREVIOUS
    /// turn (`last_turn = true`) — "if you hit a Grapple last turn, …" / "if you hit a card with
    /// 'Dragon' in the name this turn, …".
    HitCard {
        filter: CardFilter,
        who: Who,
        last_turn: bool,
    },
}


/// One primitive game action performed by an `Effect`.
#[allow(inconsistent_fields)]
#[derive(Debug, PartialEq, Eq)]
pub enum Action {
    Draw {
        n: i64,
        source: DeckEnd,
        who: Who,
        per: Option<CardFilter>,
        per_who: Who,
        /// Clamps the per-count product — "draw 1 card for each … (Max 3)".
        cap: Option<i64>,
        /// Drop the card that TRIGGERED this effect from the `per` count — "for each **other** Lead
        /// you have in play".
        per_excludes_trigger: bool,
        /// Count is the Crowd Meter (plus `n` as a signed offset), clamped to `cap` — "draw cards
        /// equal to the Crowd Meter", "… equal to the Crowd Meter +1 (Max +5)".
        from_crowd: bool,
    },
    Bury {
        selector: CardFilter,
        count: i64,
        who: Who,
        random: bool,
        source: BuryFrom,
        /// `BuryFrom::Discard` only: the actor picks WHICH card, from EITHER player's discard pile
        /// — "bury 1 card in any player's discard pile" (Cherry Glamazon).
        choose: bool,
        /// Per-count scaling like `Action::Draw::per`: when set, `count` is multiplied by the
        /// number of `per_who`'s in-play cards matching this filter — "bury 1 card in your
        /// opponent's discard pile for each Strike you have in play" / "…for each Lead you have in
        /// play" (Cardona).
        per: Option<CardFilter>,
        per_who: Who,
        /// Which zone the `per` filter counts (like `Action::FinishRollBonus::per_zone`).
        per_zone: CountZone,
        /// Bury EVERY card matching `selector` in the target's hand, ignoring `count` (and `per`) —
        /// "Look at your opponent's hand, they bury all Strike cards".
        all: bool,
    },
    /// Bury the TRIGGERING card — "bury this card" on an `OnStop` clause ("If stopped, discard 1
    /// card from your hand and bury this card or lose ...").
    BuryThisCard,
    /// Add the TRIGGERING (flipped) card to its owner's hand — "If this card is flipped, [you may]
    /// add it to your hand." The referent is the card itself, set per-card while an `OnFlip` clause
    /// carried by a just-flipped card is dispatched; the card moves from the discard pile (where a
    /// flip lands it) to its owner's hand.
    AddSelfToHand,
    /// Shuffle the TRIGGERING (flipped) card back into its owner's deck — "If this card is flipped,
    /// [you may] shuffle it [back] into your deck." Sibling of `Action::AddSelfToHand`: the
    /// referent is the card itself; the card moves from the discard pile to the deck, which is then
    /// shuffled (firing `OnShuffle`).
    ShuffleSelfIntoDeck,
    /// Put the TRIGGERING/self card on TOP of its owner's deck (drawn next) — "[you may] put this
    /// card on top of your deck." Referent is the card itself (a discard-resident card firing its
    /// WHILE_IN_DISCARD trigger) falling back to the stopped card (the "If stopped, put this card
    /// on top of your deck" family); the card moves from wherever it sits (discard/hand) to the
    /// deck front, unshuffled.
    PutSelfOnDeckTop,
    /// Put `count` cards from the owner's HAND on TOP of their deck (drawn next), unshuffled — "put
    /// N card(s) from your hand on top of your deck." The owner chooses which (their hidden hand);
    /// the loop stops early when the hand runs dry.
    PutFromHandOnDeckTop {
        count: i64,
    },
    /// Play the TRIGGERING (flipped) card immediately — "If this card is flipped, [you may] play
    /// it[ as an additional card this turn]." The referent is the card itself; the card leaves the
    /// discard pile and resolves as a normal play by its owner (stop window, OnPlay/OnHit), a bonus
    /// action outside the turn's one-card play.
    PlaySelf,
    /// Add cards from the just-flipped pool to hand — "add N of the flipped cards to your hand" /
    /// "add all flipped Strikes to your hand" / "randomly add 1 of the flipped cards…".
    AddFlippedToHand {
        count: Option<i64>,
        filter: CardFilter,
        random: bool,
    },
    /// "You may switch 1 card in your hand with 1 card in your discard pile" (Collin, Mr.
    SwapHandDiscard,
    /// Grant `who` a deferred, one-shot optional hand↔discard swap on their next turn (Mr.
    GrantSwapNextTurn {
        who: Who,
    },
    Flip {
        n: i64,
        who: Who,
        /// Per-count: flip `n` times the number of `per_who`'s cards matching this filter ("Flip N
        /// cards for each Follow Up you have in play").
        per: Option<CardFilter>,
        per_who: Who,
        /// Flip-until (variable count): when set, ignore `n` and mill the target's deck one card at
        /// a time until a flipped card matches this filter (or the deck empties).
        until: Option<CardFilter>,
        until_to_hand: bool,
    },
    /// Move `count` card(s) from the `from` end of `who`'s DECK to their discard pile — "Each
    /// player discards the bottom card of their deck." Unlike `Self::Flip` (which mills the TOP and
    /// fires flip triggers / records `flipped_this_turn`), this is a plain deck-to-discard mill
    /// with no flip semantics.
    MillDeck {
        who: Who,
        count: i64,
        from: DeckEnd,
    },
    /// One-shot roll-conditional draw — "if your [opponent's] next turn roll is `<S>`, draw N".
    RollDraw {
        who: Who,
        skill: Skill,
        count: i64,
    },
    /// One-turn skill-gated turn-roll bonus — "+N to `<S>`, `<S>` during your next turn roll" / "if
    /// your [opponent's] next turn roll is `<S>`, it is +N".
    NextRollSkillBonus {
        who: Who,
        skills: Vec<Skill>,
        delta: i64,
    },
    /// Multi-turn turn-roll bonus — "your [opponent's] next N turn rolls are +/-N".
    MultiTurnRollBonus {
        who: Who,
        rolls: i64,
        delta: i64,
    },
    /// "Bury up to `max` cards in your hand to draw the same number of cards +`bonus`" (Stolen
    /// Valor, Back Cracker Potion, Win When You Can…).
    BuryToDraw {
        max: i64,
        bonus: i64,
        who: Who,
    },
    Discard {
        selector: CardFilter,
        count: i64,
        who: Who,
        random: bool,
        per: Option<CardFilter>,
        per_who: Who,
        /// Like `Action::Bury`'s `choose`: the EFFECT OWNER looks at the target's hand and picks
        /// which card(s) to discard ("Look at your opponent's hand, choose 1 card and discard it"),
        /// rather than the hand owner shedding their own.
        choose: bool,
        /// Discard EVERY card matching `selector` from the target's hand, ignoring `count` (and
        /// `per`) — "Look at your opponent's hand, they discard all Strikes".
        all: bool,
    },
    Search {
        filter: CardFilter,
        dest: Dest,
        count: i64,
        /// Which zone(s) to tutor from.
        source: SearchSource,
    },
    ShuffleDeck {
        who: Who,
    },
    ShuffleIntoDeck {
        selector: CardFilter,
        /// Which zone the shuffled card comes from — `Discard` (default) or `InPlay` ("shuffle 1
        /// Follow Up you have in play into your deck").
        source: ShuffleSource,
        /// Whose zone the shuffle acts on — `SelfSide` (default) or `Opp`/each-player ("each player
        /// shuffles 1 Grapple from their discard pile into their deck" emits one per side).
        who: Who,
        /// Shuffle EVERY matching card in the source zone (not just one chosen card).
        all: bool,
        /// After shuffling, draw as many cards as were shuffled ("… then draw the same number of
        /// cards").
        then_draw: bool,
        /// After shuffling, bury as many cards from HAND as were shuffled ("… then bury the same
        /// number of cards from your hand" — Double Leg Death Lock).
        then_bury: bool,
    },
    AddFromDiscard {
        filter: CardFilter,
    },
    RecurToDeckTop {
        selector: CardFilter,
        count: i64,
    },
    CountsAsInPlay {
        selector: CardFilter,
        count: i64,
    },
    RemoveFromPlay {
        selector: CardFilter,
        who: Who,
        count: i64,
        /// Like `Action::ReturnToHand`'s: the actor picks from EITHER board — "choose 1 card in
        /// play and discard it" (Cherry Glamazon), where the card does not restrict whose board.
        choose: bool,
        /// Send the removed card to its owner's DECK BOTTOM instead of their discard — "choose 1
        /// card your opponent has in play and BURY it" (JT Dunn's gimmick).
        to_deck: bool,
        /// Remove EVERY matching in-play card of the target at once, with no per-card pick
        /// ("Discard all cards in play", Apocalypse) — there is no real choice, so this suppresses
        /// the phantom decisions a `count`-many loop would emit.
        all: bool,
    },
    /// The per-player halves of an "each player …" board effect (Apocalypse's board clear,
    /// Rejected!'s discard-bury, Derailed's hand cycle), wrapped so a competitor with a matching
    /// `Action::RedirectAuthority` (Emo Mam) may choose which players they affect.
    RedirectBoardEffect {
        actions: Vec<Action>,
    },
    /// A passive gimmick marker (Emo Mam): "when you or your opponent hit one of `groups`, you may
    /// choose who it affects." Read by `Action::RedirectBoardEffect` via the resolving card's name
    /// (trailing-`!`/case-insensitive, so "Rejected" matches the card "Rejected!").
    RedirectAuthority {
        groups: Vec<String>,
    },
    /// Discard 1 of the owner's own in-play cards, then discard 1 of the OPPONENT's in-play cards
    /// of the SAME play order (Candyman Dan).
    DiscardInPlayMatch,
    /// "Discard any number of cards from your hand, your opponent discards the same number of cards
    /// from their hand `offset`" (Defector's Dismantler: offset -1).
    CoupledDiscard {
        offset: i64,
    },
    /// "Add `count` card(s) in play to their hand" (Fox Assassin V2): return matching in-play cards
    /// to their OWNER's hand (bounce).
    ReturnToHand {
        selector: CardFilter,
        who: Who,
        count: i64,
        choose: bool,
    },
    RevealAndDiscard {
        count: i64,
        who: Who,
    },
    /// "Your opponent randomly reveals `count` card(s) in their hand: if it is a stop, draw `draw`
    /// cards" (Bartholomew Hooke).
    RevealForDraw {
        who: Who,
        count: i64,
        draw: i64,
        match_on: RevealMatch,
    },
    Peek {
        who: Who,
    },
    /// `who` reveals `count` card(s) from their OWN hand to the opponent — a fog-of-war effect
    /// ("Each player reveals 1 card in their hand").
    Reveal {
        who: Who,
        count: i64,
        /// "Reveal your (whole) hand to your opponent" (Bermuda Triangle): expose EVERY card in
        /// `who`'s hand, ignoring `count` and the per-card choice.
        whole_hand: bool,
    },
    /// Arm a deferred, mandatory "forced reveal-and-play" on `who` for their next turn (Father
    /// Light: "during your opponent's next turn, they randomly reveal a card in their hand until
    /// they reveal a playable card; they must play that card").
    ForceRevealPlay {
        who: Who,
    },
    /// Copy `who`'s Entrance onto the actor's (El Ganso Ruso: "Copy your target's Entrance"):
    /// append the target entrance's effects to the actor's own entrance, so the actor gains that
    /// entrance's ability (in addition to their own).
    CopyEntrance {
        who: Who,
    },
    /// Look at / reveal cards from the top (and/or bottom) of `deck`'s deck, then route them: the
    /// effect owner (the "actor") takes `to_hand` of them to the deck owner's hand, buries `bury`
    /// to the deck bottom, and disposes of the leftovers per `rest`.
    Scry {
        deck: Who,
        top: i64,
        bottom: i64,
        reveal: bool,
        to_hand: i64,
        bury: i64,
        rest: ScryRest,
        /// Restrict which revealed cards `to_hand` may take — "add 1 STOP to your hand and bury the
        /// others" (Fortress): only a matching card goes to hand (best-first among matches), the
        /// rest fall through to `bury`/`rest`.
        to_hand_filter: Option<CardFilter>,
    },
    /// Reveal the top card of `deck`'s deck and route it by a runtime predicate: if the card's
    /// `atk_type` equals `match_atk` it goes to `on_match`, otherwise to `on_fail` (taken only when
    /// worthwhile if `fail_optional` — "you may flip/bury it").
    RevealRoute {
        deck: Who,
        match_atk: AtkType,
        on_match: RevealDest,
        on_fail: RevealDest,
        fail_optional: bool,
        reveal: bool,
        reveal_from: RevealFrom,
        /// When set, the predicate is a number-parity match instead of `atk_type`: `Some(true)` =
        /// the revealed card matches iff its number is even, `Some(false)` iff odd (the actor's
        /// blind odd/even guess — Smart Mark Sterling).
        match_parity: Option<bool>,
    },
    /// Reveal card(s) and conditionally fire a nested consequence.
    RevealThen {
        reveal_from: RevealSource,
        count: i64,
        filter: CardFilter,
        take_matched: bool,
        then: Vec<Action>,
        then_optional: bool,
    },
    /// Shuffle a player's hand back into their deck, shuffle it, then draw `count` fresh cards — a
    /// mid-match hand refresh (Cyclone V2, on a bump).
    ShuffleHandDraw {
        who: Who,
        count: i64,
        choose: bool,
        /// How many hand cards to shuffle in: `None` = the WHOLE hand (Cyclone V2); `Some(n)` = the
        /// owner reveals and shuffles `n` chosen cards (Memes Dealer V1: "reveal 1 card in your
        /// hand, shuffle it into your deck, and draw 1").
        hand_count: Option<i64>,
    },
    ModifyRoll {
        who: Who,
        delta: i64,
        when: RollWhen,
        per: Option<CardFilter>,
        per_who: Who,
        /// Which zone the `per` count reads — `InPlay` (the default, "for each Lead you have in
        /// play") or `Discard` ("+2 for each Finish in your discard pile").
        per_zone: CountZone,
        /// When set (with `when = Next`), a SKILL-KEYED pending mod: it waits, across however many
        /// turns, until `who` next rolls this skill for their turn roll, applies `delta` to THAT
        /// roll, and is consumed — "the next time you roll Technique for your turn roll, it is +2".
        on_skill: Option<Skill>,
    },
    /// Add `delta` to the owner's CURRENT roll value, mid-roll-off.
    RollBoost {
        delta: i64,
    },
    BuffSkill {
        skill: Skill,
        delta: i64,
        who: Who,
        duration: Duration,
        target_highest: bool,
        /// Retarget the buff to the target's LOWEST base skill (ties -> earlier in canonical
        /// order), mirroring `target_highest`.
        target_lowest: bool,
        /// Retarget the buff to the skill the OWNER bound via `Action::ChooseSkill` ("Choose a
        /// skill: Your opponent's skill of that type is -1" — Catch These Hands): the delta lands
        /// on the owner's `chosen_skill`, read live in derived stats.
        target_chosen: bool,
        per_crowd: bool,
        /// Clamps the bonus.
        cap: Option<i64>,
        /// When set, the bonus is `delta * (count of the target's cards in `per_zone` matching this
        /// filter)`, clamped to `cap` — "your Technique is +1 for each card you have in play with
        /// 'Chin' in the name (Max +3)".
        per: Option<CardFilter>,
        per_zone: CountZone,
        /// Exclude the SOURCE card (the one carrying this buff) from the `per` count — "for each
        /// OTHER card you have in play with 'X' in the name".
        per_excludes_self: bool,
    },
    MaxHandSize {
        delta: i64,
        who: Who,
        duration: Duration,
        /// Absolute maximum ("your opponent's maximum handsize is N") — overrides the base cap
        /// rather than shifting it; the LOWEST active set wins, then `delta` mods apply on top.
        set: Option<i64>,
    },
    /// Minimum-handsize modifier (Quadruple H).
    MinHandSize {
        delta: i64,
        who: Who,
        duration: Duration,
    },
    /// Static declaration that the declarer mirrors the opponent's skill increases (Mimic: "when
    /// your opponent increases their skills, your skills are also increased the same amount").
    MirrorOpponentIncrease,
    AddText {
        name_contains: Vec<String>,
        effects: Vec<Effect>,
    },
    /// Add a chosen competitor's Gimmick to the actor's own (The SRG Boss — "add their Gimmick to
    /// yours"): append `effects` to the actor's competitor effects, so they become standing effects
    /// (and are suppressed together if the actor's gimmick is blanked).
    AbsorbGimmick {
        effects: Vec<Effect>,
    },
    /// A one-shot addition of text: "Your opponent's **next** Grapple has the added text: 'If
    /// stopped, you lose the match via disqualification'" (the Madness trio).
    AddTextToNext {
        who: Who,
        selector: CardFilter,
        effects: Vec<Effect>,
    },
    Reroll {
        /// Whose die is re-rolled: `SelfSide` (your own — Dunn/Jay White) or `Opp` ("force your
        /// opponent to re-roll" — Reverend/Macho Manny).
        who: Who,
        once: bool,
        /// "Choose any player to re-roll": the owner picks which side re-rolls (overrides `who`).
        choose: bool,
        /// `This` re-rolls the current roll (structural, read in the roll-off); `Next` grants a
        /// one-shot re-roll for the owner's NEXT turn roll ("you may re-roll your next turn roll" —
        /// King Brian Cage / El Gato Shinobi).
        when: RollWhen,
        /// The payment required to re-roll (`None` = free).
        cost: Option<RerollCost>,
        /// Scope: `false` (default) = the turn-roll off, offered in `offer_reroll`; `true` = the
        /// FINISH roll, offered in `offer_finish_reroll` inside the finish sequence ("you may re-
        /// roll your Finish roll"
        finish: bool,
        /// Scope: `true` = a BREAKOUT roll, offered in `offer_breakout_reroll` inside the breakout
        /// loop ("re-roll your Breakout roll" / "force your opponent to re-roll their Breakout
        /// roll").
        breakout: bool,
    },
    /// "When you roll `from` for your turn roll or Finish roll, you may switch it to `to`" (Scott
    /// Prime V1/V2).
    SwitchRolledSkill {
        from_skill: Skill,
        to: Skill,
    },
    WinTie {
        who: Who,
    },
    Bump {
        who: Who,
    },
    ElectBumpOnSameSkill {
        uses: i64,
    },
    /// A persistent, FORCED same-skill bump when the owner would LOSE the turn roll (Brock Smith
    /// V1's start-of-match gimmick: "when you and that opponent roll the same skill and they would
    /// win the turn roll, bump instead").
    BumpInsteadOnSameSkillLoss,
    Stop {
        order: Option<PlayOrder>,
        atk_type: Option<AtkType>,
        source_is_skillreq: bool,
        /// "Stop any Finish Strike that cannot be stopped" / "… even if it cannot be stopped" —
        /// this Stop bypasses the attack's own `Unstoppable` declaration, answering an otherwise-
        /// unstoppable finisher.
        even_unstoppable: bool,
        /// Extra constraint on the stopped attack beyond `order`/`atk_type` — "Stop any Submission
        /// with \"Over the Top\" in the name" / "… with \"X\" in the text".
        target: Option<CardFilter>,
        /// "Stop any Finish Strike that is also a Lead [or a Follow Up]" — the stopped attack must
        /// ALSO count as one of these play orders via an `AlsoLead` declaration whose condition
        /// currently holds (a multi-order card, e.g.
        also_order: Vec<PlayOrder>,
    },
    StopRequiresTag {
        tag: String,
        /// The requirement is ALSO satisfied when the stopped attack is itself unstoppable — "Stop any
        /// Finish Submission that has a Spotlight OR that cannot be stopped": the tag requirement
        /// is OR-ed with unstoppability rather than being a hard AND. Pair with
        /// `Stop.even_unstoppable` so the stop can actually catch the unstoppable case.
        or_unstoppable: bool,
    },
    BlankGimmick {
        who: Who,
        duration: Duration,
    },
    FlipGimmick {
        who: Who,
    },
    BlankText {
        selector: CardFilter,
        who: Who,
        /// Restrict the blank to cards SITTING IN the target's discard pile — "cards in your
        /// opponent's discard pile have blank text" (neutralises their WhileInDiscard abilities).
        discard_only: bool,
    },
    /// REST-OF-MATCH ("poison") text blank — "Blank all Spotlights for the rest of the match"
    /// (ee0defe5).
    BlankTextPermanent {
        selector: CardFilter,
        who: Who,
    },
    /// "Un-blank your Finishes." — the inverse of `Action::BlankText`: a one-shot that RESTORES the
    /// text of `who`'s cards matching `selector`, overriding any blank on them for the rest of the
    /// match (the 6 Splash / "your opponent buries … un-blank your Finishes" Followups; `who` is
    /// always `SelfSide`, `selector` the Finish order).
    Unblank {
        selector: CardFilter,
        who: Who,
    },
    /// "This card copies the text of …" — the Spotlight text-copy family (#2 "A Trip to the Upside
    /// Down", #9 "The D-Roll", #16 "Your Worst Nightmare!").
    CopyText {
        selector: CardFilter,
        who: Who,
        zone: CountZone,
        copy_tags: bool,
    },
    /// "The stopped card has blank text until the end of the turn" — blank the text of the specific
    /// card instance that was JUST stopped, for the rest of the turn (the Jurassic / "If Stopped"
    /// stop-card family).
    BlankStoppedText,
    /// "… that card has blank text" — blank the card that JUST triggered this `OnHit` (the hit
    /// referent `GameState.hit_card`), by identity, for as long as it stays IN PLAY (the card was
    /// just hit, so it is now on the board; the blank self-expires when it leaves play).
    BlankHitCard,
    /// "If played as a Stop, this card is also a Finish" — the FINISH-OFF-STOP marker.
    FinishIfStop,
    /// "… and end the current turn" — end the ACTIVE player's turn immediately (Boot Off the Apron
    /// / Capture Headlock / Take You for a Ride, on stopping a "Double Team" card).
    EndTurn,
    /// "Choose 1: "Kendo Stick", "Steel Chair", or "Trash Can"" (Raven) — bind ONE of `options` for
    /// the rest of the match, stored as `PlayerState.chosen_name`.
    ChooseName {
        options: Vec<String>,
    },
    /// "Choose a skill: …" (Catch These Hands) — the owner binds ONE of the six skills for the rest
    /// of the match, stored as `PlayerState.chosen_skill`.
    ChooseSkill,
    /// "The next time you roll that skill draw 1 card" (Catch These Hands) — arms a PERSISTENT one-
    /// shot draw keyed to the owner's `chosen_skill`: the next time `who` (SelfSide) rolls that
    /// skill for a turn roll, the owner draws `count`, and it is then consumed.
    RollDrawChosen {
        who: Who,
        count: i64,
    },
    LoseBy {
        kind: LoseKind,
        who: Who,
    },
    /// A Static match-rule toggle: `enabled=false` = "no disqualifications", `enabled=true` re-
    /// enables them.
    DisqualificationRule {
        enabled: bool,
        scope: DqScope,
    },
    /// A Static match-rule toggle for count-out losses: `enabled=false` = "no count outs" (a player
    /// emptying deck+hand no longer loses/wins by count-out), a standing rule several Crowd Meter
    /// match types impose (No DQ / Submission / Psycho Circus / Liger's Den).
    CountOutRule {
        enabled: bool,
        scope: DqScope,
    },
    /// A Static poison: while the declaring card sits in play/discard, the `who`-side (Bleeding
    /// Out: `Opp` = "an opponent") must resolve every card-/Gimmick-driven move of a card OUT of
    /// their OWN discard pile RANDOMLY, losing the normal free choice of which card to recur.
    ForceRandomDiscardMove {
        who: Who,
    },
    /// A Static poison: while the declaring card sits in play/discard, an OPPONENT cannot move ANY
    /// card out of the `who`-side's discard pile (Split Personality: "your opponent cannot move
    /// other cards from your discard pile", `who = SelfSide` = the owner's own pile).
    LockDiscard {
        who: Who,
    },
    /// Install a Crowd Meter match-type's standing rules (GM Calace V1: "replace all Crowd Meter
    /// cards with … Steel Cage / Psycho Circus / Lumberjack / No DQ / Submission").
    SwapCrowdMeter {
        name: String,
        effects: Vec<Effect>,
    },
    /// A Static meta-comparison override "for card effects": the declaring player's `domain`
    /// comparison vs the opponent always resolves as `order` regardless of the real values (RaRa
    /// Perre "skills considered higher"; Theo V2 "considered fewer cards in hand").
    ConsideredCompare {
        domain: CompareDomain,
        order: CompareOrder,
    },
    /// A Static declaration: "your opponent does not draw for your card effects" (Sami "The Draw"
    /// Callihan).
    SuppressOpponentDraw,
    /// The mirror declaration: "you do not bury or discard cards from your hand for your OWN card
    /// effects" (Sami "Death Machine" V2; one branch of Sami WR's start-of-match choice).
    SuppressSelfHandLoss,
    /// Static declaration that on a BUMP the declarer's opponent discards 1 card instead of drawing
    /// (Mack-a-Tack: "when you bump, your opponent discards 1 card instead of drawing").
    BumpDrawReplace,
    /// Static declaration that, `uses` times per match, the declarer MAY replace a bump they would
    /// take with drawing `draw` cards and re-rolling both turn rolls (Pretty Paul Says "Let It
    /// Rip!": "Once per match: When you would bump, draw 2 cards instead and each player re-rolls
    /// their turn roll").
    BumpReplacement {
        uses: i64,
        draw: i64,
    },
    /// Static declaration that multiplies every number in the owner's Entrance card's effects by
    /// `factor`, when the entrance name matches `name_contains` (Pedro Valiant: "triple the numbers
    /// in the text of your Entrance cards with 'Training with' in the name").
    ScaleEntranceNumbers {
        name_contains: Vec<String>,
        factor: i64,
    },
    CrowdMeter {
        delta: i64,
    },
    PlayExtraCard {
        order: Option<PlayOrder>,
    },
    SetFinishRoll {
        value: i64,
        condition: Condition,
    },
    FinishBonus {
        skill: Skill,
        delta: i64,
    },
    FinishRollBonus {
        delta: i64,
        when_skill: Option<Skill>,
        either: bool,
        /// Base-roll gate: the bonus applies only when the BASE Finish roll (the rolled skill's
        /// stat, BEFORE combo/gimmick/Crowd-Meter bonuses) is `<= when_base_le` and/or `>=
        /// when_base_ge` — "If your Finish roll is 6 or less, it is +2".
        when_base_le: Option<i64>,
        when_base_ge: Option<i64>,
        /// When set, the bonus is `delta * (count of `per_who`'s cards in `per_zone` matching this
        /// filter)` — "your Finish roll is +1 for each Spotlight you have in play / in your
        /// opponent's discard pile".
        per: Option<CardFilter>,
        per_who: Who,
        per_zone: CountZone,
        /// Integer divisor on the per-count before scaling by `delta` — the count is `floor(matches
        /// / per_divisor)`.
        per_divisor: Option<i64>,
        /// Clamps the per-count product ("… (Max +2)") — the `per`-scaled bonus never exceeds
        /// `cap`.
        cap: Option<i64>,
        /// Exclude the SOURCE card from the `per` count — "for each OTHER `<X>` you have in play",
        /// the FinishRollBonus analogue of `BuffSkill.per_excludes_self`.
        per_excludes_self: bool,
        /// Dynamic delta = the Crowd Meter (clamped to `cap`), added ON TOP of the Crowd Meter the
        /// finish math already folds into every roll — "Your Finish roll is + the Crowd Meter (Max
        /// +N)", a SECOND crowd-meter addend.
        per_crowd: bool,
    },
    /// A standing bonus to the owner's TURN roll, applied only when the randomly rolled skill
    /// equals `skill`: "Your Power is +N during turn rolls." Read by `turn_roll_bonus` in the roll-
    /// off — the parallel of `Action::FinishRollBonus` / `Action::BreakoutModifier` for the turn
    /// roll — and never executed as a mutation.
    TurnRollBonus {
        skill: Skill,
        delta: i64,
        /// Whose turn roll this modifies, from the OWNER's point of view.
        who: Who,
        /// Symmetric modifier: when set, the bonus applies to WHOEVER rolls `skill` for their turn
        /// roll, not just the owner — "if either player rolls Power for their turn roll, their roll
        /// is +1".
        either: bool,
        /// Dynamic delta = the Crowd Meter (clamped to `cap`), instead of the flat `delta` — "your
        /// Technique is + the Crowd Meter (Max +3) during your turn roll" (the roll-off parallel of
        /// a `per_crowd` `Action::BuffSkill`).
        per_crowd: bool,
        /// Clamps the `per_crowd` delta ("Max +N").
        cap: Option<i64>,
    },
    BreakoutModifier {
        delta: i64,
        attempts: Option<i64>,
        /// Skill gate on the breakout roll — the bonus applies only when the defender's rolled
        /// breakout skill equals `when_skill` ("+1 to Strike during your breakout rolls",
        /// Pineapple; "Power is +1 during your breakout rolls", The SRG Boss V3).
        when_skill: Option<Skill>,
        /// Whose breakout rolls this modifies, from the OWNER's point of view.
        who: Who,
        /// Symmetric modifier: when set, the bonus applies to WHOEVER is rolling the breakout (the
        /// defender), regardless of `who` or which board it sits on — "if either player rolls
        /// Agility for their breakout roll, their roll is -1".
        either: bool,
        /// When set, `delta` is scaled by `count of `per_who`'s cards in `per_zone` matching this
        /// filter` — "your opponent's breakout rolls are +1 for each Stop they have in play", the
        /// `BreakoutModifier` analogue of `Action::FinishRollBonus::per`.
        per: Option<CardFilter>,
        per_who: Who,
        per_zone: CountZone,
        /// Integer divisor on the per-count before scaling by `delta` (the count is `floor(matches
        /// / per_divisor)`); `None`/`Some(1)` = one bonus per match.
        per_divisor: Option<i64>,
        /// Clamps the per-count product ("… (Max +M)") — the `per`-scaled bonus never exceeds
        /// `cap`.
        cap: Option<i64>,
        /// Exclude the SOURCE card from the `per` count — "for each OTHER `<X>` you have in play".
        per_excludes_self: bool,
    },
    /// Grant the actor a TIMED, imperative breakout-roll bonus of `delta`, swept at the end of the
    /// turn — "add +1 to your breakout rolls until the end of the turn" (The Mailman Always
    /// Delivers).
    GrantBreakoutBonus {
        delta: i64,
        who: Who,
    },
    /// Modifies the NUMBER of breakout attempts (rolls) the affected player gets this turn — the
    /// "reduced / extra breakout rolls" family, distinct from `Action::BreakoutModifier` (which
    /// shifts a roll's VALUE, not the count).
    BreakoutAttempts {
        /// Additive shift: +N "additional/more", -N "fewer".
        delta: i64,
        /// Absolute override of the base attempt count ("gets N Breakout rolls"); `None` = shift
        /// the base by `delta` only.
        set: Option<i64>,
        /// Affected side from the owner's POV: `SelfSide` = the owner's own breakout attempts,
        /// `Opp` = the owner's opponent's.
        who: Who,
        /// Per-count scaling of `delta` — "1 additional Breakout roll for each Skill Requirement
        /// card they have in play".
        per: Option<CardFilter>,
        per_who: Who,
        per_zone: CountZone,
        per_divisor: Option<i64>,
        cap: Option<i64>,
        per_excludes_self: bool,
    },
    LowestRollWins,
    FlipGimmickSigns {
        who: Who,
    },
    Unstoppable {
        by_order: Option<PlayOrder>,
        /// "Cannot be stopped by \"X\"" — unstoppable specifically against a stopper whose NAME
        /// equals this (AND-ed with `by_order`).
        by_name: Option<String>,
        /// "Cannot be stopped by Skill Requirement cards" — unstoppable against a stopper that
        /// carries a skill requirement (AND-ed with the other gates).
        by_skillreq: bool,
        /// "Your cards with \"X\" in the name cannot be stopped" — a player-scope declaration
        /// (gimmick/competitor/entrance) that only shields the owner's attacks whose NAME contains
        /// this substring; `None` = every card.
        applies_name: Option<String>,
        /// "Your cards cannot be stopped by …" (vs "This card …"): the shield covers EVERY one of
        /// the owner's cards, so the engine reads it even from an in-play main-deck source
        /// (Cat/Dog/Sheep Uprising's printed-Finish shield).
        player_scope: bool,
    },
    AlsoLead {
        condition: Condition,
        /// Which play-order slot this card may ALSO be played in while `condition` holds.
        order: PlayOrder,
    },
    /// Static stop-reframe (Jokerfish V2: "your opponent's Finishes are also Follow Ups for your
    /// Stop cards").
    StopCountsOrderAs {
        attack_order: PlayOrder,
        as_order: PlayOrder,
    },
    /// Static declaration that the declarer's OWN cards whose deck number is in `[number_min,
    /// number_max]` cannot act as Stops (Jokerfish V2: "your cards #19-21 cannot stop cards").
    SuppressStop {
        number_min: i64,
        number_max: i64,
    },
    /// A player-scope standing declaration that the DECLARER's Stops may stop an attack even when
    /// it "cannot be stopped" ("You can stop cards that cannot be stopped" — Pixel Palace Plancha /
    /// Throw Into the Turnbuckle / That's Cheesy Chinlock; JT Dunn).
    CanStopUnstoppable {
        only_order: Option<PlayOrder>,
    },
    DoubleFinishIfBumped,
    /// Double this card's own printed Finish-roll bonuses when `condition` holds — the conditional
    /// generalization of `Self::DoubleFinishIfBumped` ("double these bonuses if you have another
    /// Submission in play / rolled Power / …"; kenzie, king-cage, foxworthy, srg-boss).
    DoubleFinishIf {
        condition: Condition,
    },
    /// This card can only be stopped by `count` Stops at once — the defender must commit `count`
    /// legal stop cards to stop it, or it lands (King Brian Cage's "This card will only be stopped
    /// by 2 Stops").
    RequireStops {
        count: i64,
    },
    /// This card ALSO counts as attack type `atk_type` in addition to its printed type — "This card
    /// is also a Finish Grapple" (King Brian Cage).
    AlsoAtkType {
        atk_type: AtkType,
    },
    /// A DEFENDER declaration that the OPPONENT must have at least `count` cards of `kind` in their
    /// OWN play to LAND a Finish against you — D3 (V1)'s "your opponent needs 3 cards in play to
    /// hit you with a Finish" (`Cards`, 3).
    FinishRequires {
        kind: RequireKind,
        count: i64,
    },
    /// Look at `who`'s hand and move one chosen `selector`-matching card to the TOP of `who`'s deck
    /// — D3 (V1)'s Claw: "Look at your opponent's hand, choose 1 card and put it on top of their
    /// deck" (`who: Opp`).
    HandToDeckTop {
        who: Who,
        selector: CardFilter,
    },
    Choice {
        options: Vec<ChoiceOption>,
    },
    Unsupported {
        raw_text: String,
        reason: String,
    },
}

/// One labelled branch of a `Action::Choice`.
#[derive(Debug, PartialEq, Eq)]
pub struct ChoiceOption {
    pub node_type: ChoiceOptionTag,
    pub label: String,
    pub actions: Vec<Action>,
}


/// A single compiled clause: a trigger, a guard, and the actions it performs.
#[derive(Debug, PartialEq, Eq)]
pub struct Effect {
    pub node_type: EffectTag,
    pub trigger: Trigger,
    pub condition: Condition,
    pub actions: Vec<Action>,
    pub duration: Duration,
    pub frequency: FrequencyGuard,
    pub raw_clause: String,
    pub source: EffectSource,
    pub optional: bool,
}


/// Any IR node, tag-dispatched by `@type`.
#[allow(inconsistent_fields)]
#[derive(Debug, PartialEq, Eq)]
pub enum IrNode {
    Effect(Effect),
    CardFilter(CardFilter),
    ChoiceOption(ChoiceOption),
    FrequencyGuard(FrequencyGuard),
    RerollCost(RerollCost),

    OnPlay,
    OnRoll {
        skill: Option<Skill>,
        who: Who,
    },
    OnFinishRoll {
        skill: Option<Skill>,
        who: Who,
    },
    OnRolledAll {
        skills: Vec<Skill>,
        who: Who,
    },
    InRoll {
        skill: Option<Skill>,
        who: Who,
        either: bool,
    },
    OnRollBoost {
        skill: Option<Skill>,
        delta: i64,
        on_bump: bool,
    },
    OnWinTurn,
    OnLoseTurn {
        by: Option<i64>,
    },
    OnStop {
        dir: Direction,
        order: Option<PlayOrder>,
    },
    OnHit {
        atk_type: Option<AtkType>,
        name_contains: Vec<String>,
        text_contains: Vec<String>,
        on_any: bool,
        order: Option<PlayOrder>,
        who: Who,
        from_hand: bool,
    },
    OnBump,
    OnBury {
        who: Who,
        from_hand_only: bool,
        also_discard: bool,
    },
    StartOfTurn,
    DuringOpponentTurn,
    StartOfMatch,
    OnBreakout {
        who: Option<Who>,
    },
    OnBreakoutRoll {
        who: Who,
        attempts: Vec<i64>,
    },
    OnReroll {
        who: Who,
    },
    OnShuffle {
        who: Who,
    },
    OnDraw {
        who: Who,
    },
    OnFlip {
        who: Who,
        count: Option<i64>,
        at_least: bool,
        on_self: bool,
    },
    OnDiscardMove {
        who: Who,
    },
    OnCrowdMeterIncrease,
    OnTurnStart,
    Static,

    Always,
    And {
        items: Vec<Condition>,
    },
    Or {
        items: Vec<Condition>,
    },
    Not {
        item: Box<Condition>,
    },
    SkillCompare {
        skill: Skill,
        cmp: Comparator,
        who: Who,
        vs: Vs,
        value: Option<i64>,
        vs_skill: Option<Skill>,
    },
    HandSizeCompare {
        cmp: Comparator,
        vs: Vs,
        value: Option<i64>,
        who: Who,
    },
    CrowdMeterCompare {
        cmp: Comparator,
        value: i64,
    },
    DeckSizeCompare {
        cmp: Comparator,
        value: i64,
        who: Who,
    },
    MatchHasNoDisqualifications,
    IsMatchType {
        types: Vec<MatchType>,
    },
    HasInPlay {
        who: Who,
        filter: CardFilter,
        count: i64,
        cmp: Comparator,
    },
    HasInHand {
        who: Who,
        filter: CardFilter,
        count: i64,
    },
    HasInDiscard {
        who: Who,
        filter: CardFilter,
        count: i64,
    },
    InPlayCompare {
        filter: CardFilter,
        cmp: Comparator,
        who: Who,
        vs_who: Who,
    },
    ChosenNameIs {
        name: String,
        who: Who,
    },
    RollWasSkill {
        skill: Skill,
        who: Who,
    },
    RollGapExactly {
        k: i64,
    },
    RollGapAtLeast {
        k: i64,
    },
    RollLeadAtLeast {
        k: i64,
    },
    RollValue {
        cmp: Comparator,
        value: i64,
        who: Who,
    },
    PrintedRollValue {
        who: Who,
        value: i64,
    },
    SameRolledSkill,
    FirstTurn,
    StoppedCardNoLogoNoReq,
    OppWonLastRoll,
    BumpedLastTurnRoll,
    EndedTurnNoPlay {
        who: Who,
    },
    BuriedSpotlightLastTurn {
        who: Who,
    },
    BrokeOutLastTurn {
        who: Who,
    },
    StoppedCard {
        who: Who,
        last_turn: bool,
    },
    RerolledTurnRoll,
    FlippedForGimmick,
    FlippedByName {
        names: Vec<String>,
    },
    GimmickFlipped {
        who: Who,
    },
    DuringTurn {
        who: Who,
    },
    CompetitorIs {
        name_contains: Vec<String>,
    },
    HitThisTurn {
        who: Who,
    },
    DrewThisTurn {
        who: Who,
        at_least: i64,
    },
    LostTurnRollsInARow {
        who: Who,
        at_least: i64,
    },
    HitCard {
        filter: CardFilter,
        who: Who,
        last_turn: bool,
    },

    Draw {
        n: i64,
        source: DeckEnd,
        who: Who,
        per: Option<CardFilter>,
        per_who: Who,
        cap: Option<i64>,
        per_excludes_trigger: bool,
        from_crowd: bool,
    },
    Bury {
        selector: CardFilter,
        count: i64,
        who: Who,
        random: bool,
        source: BuryFrom,
        choose: bool,
        per: Option<CardFilter>,
        per_who: Who,
        per_zone: CountZone,
        all: bool,
    },
    BuryThisCard,
    AddSelfToHand,
    ShuffleSelfIntoDeck,
    PutSelfOnDeckTop,
    PutFromHandOnDeckTop {
        count: i64,
    },
    PlaySelf,
    AddFlippedToHand {
        count: Option<i64>,
        filter: CardFilter,
        random: bool,
    },
    SwapHandDiscard,
    GrantSwapNextTurn {
        who: Who,
    },
    Flip {
        n: i64,
        who: Who,
        per: Option<CardFilter>,
        per_who: Who,
        until: Option<CardFilter>,
        until_to_hand: bool,
    },
    MillDeck {
        who: Who,
        count: i64,
        from: DeckEnd,
    },
    RollDraw {
        who: Who,
        skill: Skill,
        count: i64,
    },
    NextRollSkillBonus {
        who: Who,
        skills: Vec<Skill>,
        delta: i64,
    },
    MultiTurnRollBonus {
        who: Who,
        rolls: i64,
        delta: i64,
    },
    BuryToDraw {
        max: i64,
        bonus: i64,
        who: Who,
    },
    Discard {
        selector: CardFilter,
        count: i64,
        who: Who,
        random: bool,
        per: Option<CardFilter>,
        per_who: Who,
        choose: bool,
        all: bool,
    },
    Search {
        filter: CardFilter,
        dest: Dest,
        count: i64,
        source: SearchSource,
    },
    ShuffleDeck {
        who: Who,
    },
    ShuffleIntoDeck {
        selector: CardFilter,
        source: ShuffleSource,
        who: Who,
        all: bool,
        then_draw: bool,
        then_bury: bool,
    },
    AddFromDiscard {
        filter: CardFilter,
    },
    RecurToDeckTop {
        selector: CardFilter,
        count: i64,
    },
    CountsAsInPlay {
        selector: CardFilter,
        count: i64,
    },
    RemoveFromPlay {
        selector: CardFilter,
        who: Who,
        count: i64,
        choose: bool,
        to_deck: bool,
        all: bool,
    },
    RedirectBoardEffect {
        actions: Vec<Action>,
    },
    RedirectAuthority {
        groups: Vec<String>,
    },
    DiscardInPlayMatch,
    CoupledDiscard {
        offset: i64,
    },
    ReturnToHand {
        selector: CardFilter,
        who: Who,
        count: i64,
        choose: bool,
    },
    RevealAndDiscard {
        count: i64,
        who: Who,
    },
    RevealForDraw {
        who: Who,
        count: i64,
        draw: i64,
        match_on: RevealMatch,
    },
    Peek {
        who: Who,
    },
    Reveal {
        who: Who,
        count: i64,
        whole_hand: bool,
    },
    ForceRevealPlay {
        who: Who,
    },
    CopyEntrance {
        who: Who,
    },
    Scry {
        deck: Who,
        top: i64,
        bottom: i64,
        reveal: bool,
        to_hand: i64,
        bury: i64,
        rest: ScryRest,
        to_hand_filter: Option<CardFilter>,
    },
    RevealRoute {
        deck: Who,
        match_atk: AtkType,
        on_match: RevealDest,
        on_fail: RevealDest,
        fail_optional: bool,
        reveal: bool,
        reveal_from: RevealFrom,
        match_parity: Option<bool>,
    },
    RevealThen {
        reveal_from: RevealSource,
        count: i64,
        filter: CardFilter,
        take_matched: bool,
        then: Vec<Action>,
        then_optional: bool,
    },
    ShuffleHandDraw {
        who: Who,
        count: i64,
        choose: bool,
        hand_count: Option<i64>,
    },
    ModifyRoll {
        who: Who,
        delta: i64,
        when: RollWhen,
        per: Option<CardFilter>,
        per_who: Who,
        per_zone: CountZone,
        on_skill: Option<Skill>,
    },
    RollBoost {
        delta: i64,
    },
    BuffSkill {
        skill: Skill,
        delta: i64,
        who: Who,
        duration: Duration,
        target_highest: bool,
        target_lowest: bool,
        target_chosen: bool,
        per_crowd: bool,
        cap: Option<i64>,
        per: Option<CardFilter>,
        per_zone: CountZone,
        per_excludes_self: bool,
    },
    MaxHandSize {
        delta: i64,
        who: Who,
        duration: Duration,
        set: Option<i64>,
    },
    MinHandSize {
        delta: i64,
        who: Who,
        duration: Duration,
    },
    MirrorOpponentIncrease,
    AddText {
        name_contains: Vec<String>,
        effects: Vec<Effect>,
    },
    AbsorbGimmick {
        effects: Vec<Effect>,
    },
    AddTextToNext {
        who: Who,
        selector: CardFilter,
        effects: Vec<Effect>,
    },
    Reroll {
        who: Who,
        once: bool,
        choose: bool,
        when: RollWhen,
        cost: Option<RerollCost>,
        finish: bool,
        breakout: bool,
    },
    SwitchRolledSkill {
        from_skill: Skill,
        to: Skill,
    },
    WinTie {
        who: Who,
    },
    Bump {
        who: Who,
    },
    ElectBumpOnSameSkill {
        uses: i64,
    },
    BumpInsteadOnSameSkillLoss,
    Stop {
        order: Option<PlayOrder>,
        atk_type: Option<AtkType>,
        source_is_skillreq: bool,
        even_unstoppable: bool,
        target: Option<CardFilter>,
        also_order: Vec<PlayOrder>,
    },
    StopRequiresTag {
        tag: String,
        or_unstoppable: bool,
    },
    BlankGimmick {
        who: Who,
        duration: Duration,
    },
    FlipGimmick {
        who: Who,
    },
    BlankText {
        selector: CardFilter,
        who: Who,
        discard_only: bool,
    },
    BlankTextPermanent {
        selector: CardFilter,
        who: Who,
    },
    Unblank {
        selector: CardFilter,
        who: Who,
    },
    CopyText {
        selector: CardFilter,
        who: Who,
        zone: CountZone,
        copy_tags: bool,
    },
    BlankStoppedText,
    BlankHitCard,
    FinishIfStop,
    EndTurn,
    ChooseName {
        options: Vec<String>,
    },
    ChooseSkill,
    RollDrawChosen {
        who: Who,
        count: i64,
    },
    LoseBy {
        kind: LoseKind,
        who: Who,
    },
    DisqualificationRule {
        enabled: bool,
        scope: DqScope,
    },
    CountOutRule {
        enabled: bool,
        scope: DqScope,
    },
    ForceRandomDiscardMove {
        who: Who,
    },
    LockDiscard {
        who: Who,
    },
    SwapCrowdMeter {
        name: String,
        effects: Vec<Effect>,
    },
    ConsideredCompare {
        domain: CompareDomain,
        order: CompareOrder,
    },
    SuppressOpponentDraw,
    SuppressSelfHandLoss,
    BumpDrawReplace,
    BumpReplacement {
        uses: i64,
        draw: i64,
    },
    ScaleEntranceNumbers {
        name_contains: Vec<String>,
        factor: i64,
    },
    CrowdMeter {
        delta: i64,
    },
    PlayExtraCard {
        order: Option<PlayOrder>,
    },
    SetFinishRoll {
        value: i64,
        condition: Condition,
    },
    FinishBonus {
        skill: Skill,
        delta: i64,
    },
    FinishRollBonus {
        delta: i64,
        when_skill: Option<Skill>,
        either: bool,
        when_base_le: Option<i64>,
        when_base_ge: Option<i64>,
        per: Option<CardFilter>,
        per_who: Who,
        per_zone: CountZone,
        per_divisor: Option<i64>,
        cap: Option<i64>,
        per_excludes_self: bool,
        per_crowd: bool,
    },
    TurnRollBonus {
        skill: Skill,
        delta: i64,
        who: Who,
        either: bool,
        per_crowd: bool,
        cap: Option<i64>,
    },
    BreakoutModifier {
        delta: i64,
        attempts: Option<i64>,
        when_skill: Option<Skill>,
        who: Who,
        either: bool,
        per: Option<CardFilter>,
        per_who: Who,
        per_zone: CountZone,
        per_divisor: Option<i64>,
        cap: Option<i64>,
        per_excludes_self: bool,
    },
    GrantBreakoutBonus {
        delta: i64,
        who: Who,
    },
    BreakoutAttempts {
        delta: i64,
        set: Option<i64>,
        who: Who,
        per: Option<CardFilter>,
        per_who: Who,
        per_zone: CountZone,
        per_divisor: Option<i64>,
        cap: Option<i64>,
        per_excludes_self: bool,
    },
    LowestRollWins,
    FlipGimmickSigns {
        who: Who,
    },
    Unstoppable {
        by_order: Option<PlayOrder>,
        by_name: Option<String>,
        by_skillreq: bool,
        applies_name: Option<String>,
        player_scope: bool,
    },
    AlsoLead {
        condition: Condition,
        order: PlayOrder,
    },
    StopCountsOrderAs {
        attack_order: PlayOrder,
        as_order: PlayOrder,
    },
    SuppressStop {
        number_min: i64,
        number_max: i64,
    },
    CanStopUnstoppable {
        only_order: Option<PlayOrder>,
    },
    DoubleFinishIfBumped,
    DoubleFinishIf {
        condition: Condition,
    },
    RequireStops {
        count: i64,
    },
    AlsoAtkType {
        atk_type: AtkType,
    },
    FinishRequires {
        kind: RequireKind,
        count: i64,
    },
    HandToDeckTop {
        who: Who,
        selector: CardFilter,
    },
    Choice {
        options: Vec<ChoiceOption>,
    },
    Unsupported {
        raw_text: String,
        reason: String,
    },
}

/// No two skills share a name.
pub proof fn law_skill_names_distinct(a: Skill, b: Skill)
    ensures
        a.text() == b.text() ==> a == b,
{
    reveal_strlit("Power");
    reveal_strlit("Agility");
    reveal_strlit("Technique");
    reveal_strlit("Submission");
    reveal_strlit("Grapple");
    reveal_strlit("Strike");
    if a.text() == b.text() {
        assert(a.text().len() == b.text().len());
        assert(a.text()[0] == b.text()[0]);
    }
}

/// No two attack types share a name.
pub proof fn law_attack_names_distinct(a: AtkType, b: AtkType)
    ensures
        a.text() == b.text() ==> a == b,
{
    reveal_strlit("Strike");
    reveal_strlit("Grapple");
    reveal_strlit("Submission");
    reveal_strlit("None");
    if a.text() == b.text() {
        assert(a.text().len() == b.text().len());
    }
}

/// No two play orders share a name.
pub proof fn law_order_names_distinct(a: PlayOrder, b: PlayOrder)
    ensures
        a.text() == b.text() ==> a == b,
{
    reveal_strlit("Lead");
    reveal_strlit("Followup");
    reveal_strlit("Finish");
    reveal_strlit("None");
    if a.text() == b.text() {
        assert(a.text().len() == b.text().len());
        assert(a.text()[0] == b.text()[0]);
    }
}

/// The names are these.
pub proof fn law_names_are_written_so()
    ensures
        Skill::Power.text() == "Power"@,
        Skill::Agility.text() == "Agility"@,
        Skill::Technique.text() == "Technique"@,
        Skill::Submission.text() == "Submission"@,
        Skill::Grapple.text() == "Grapple"@,
        Skill::Strike.text() == "Strike"@,
        AtkType::Strike.text() == "Strike"@,
        AtkType::Grapple.text() == "Grapple"@,
        AtkType::Submission.text() == "Submission"@,
        AtkType::NoAttack.text() == "None"@,
        PlayOrder::Lead.text() == "Lead"@,
        PlayOrder::Followup.text() == "Followup"@,
        PlayOrder::Finish.text() == "Finish"@,
        PlayOrder::NoOrder.text() == "None"@,
        Skill::ALL@ == seq![
            Skill::Power,
            Skill::Agility,
            Skill::Technique,
            Skill::Submission,
            Skill::Grapple,
            Skill::Strike,
        ],
{
}

/// What is said of another tag gives both tags, the expected one first.
pub proof fn law_tag_problem_gives_both_tags(expected: Seq<char>, got: Seq<char>)
    ensures
        tag_problem(expected, got) == "expected @type "@ + debug_text(expected) + ", got "@
            + debug_text(got),
{
}

} // verus!
