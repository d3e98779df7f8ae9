use srg_core::gamelog::{
    default_schema, diff, BreakoutRoll, CardMovement, Event, GameLog, Header, PlayerInfo,
    RollMod,
};
use srg_core::json::Json;
use srg_core::textmap::TextMap;
use srg_core::SrgError;

fn s(text: &str) -> String {
    text.to_owned()
}

fn player(name: &str) -> PlayerInfo {
    PlayerInfo {
        competitor: s(name),
        entrance: s("ent"),
        deck: vec![s("c1"), s("c2")],
        policy: s("heuristic"),
    }
}

fn header() -> Header {
    let mut players = TextMap::new();
    players.insert(s("B"), player("Fae"));
    players.insert(s("A"), player("Bull"));
    Header {
        seed: 7,
        kind: s("sim"),
        created: s(""),
        players,
        schema: default_schema(),
    }
}

fn movement(hidden: bool, source: Option<String>) -> CardMovement {
    CardMovement { t: 2, player: s("A"), cards: vec![s("c1")], source, hidden }
}

fn every_event() -> Vec<Event> {
    let mut bonus = TextMap::new();
    bonus.insert(s("Strike"), 2);
    bonus.insert(s("Power"), -1);
    vec![
        Event::Roll {
            t: 1,
            player: s("A"),
            skill: s("Power"),
            base: 9,
            value: 10,
            mods: vec![RollMod { src: s("gimmick"), delta: 1 }],
        },
        Event::TurnResult { t: 1, winner: s("A"), tie_bumps: 0 },
        Event::Decision {
            t: 1,
            player: s("A"),
            point: s("play"),
            legal: vec![text("c1"), Json::Null],
            chosen: text("c1"),
            policy: s("heuristic"),
        },
        Event::Play {
            t: 1,
            player: s("A"),
            card: s("c1"),
            order: s("Lead"),
            atk_type: s("Strike"),
        },
        Event::Stop {
            t: 1,
            player: s("B"),
            card: s("c9"),
            stopped: s("c1"),
            reason: s("skill"),
        },
        Event::Draw(movement(true, Some(s("TOP")))),
        Event::Bury(movement(false, None)),
        Event::Discard(movement(false, Some(s("hand")))),
        Event::Search(movement(true, None)),
        Event::FinishAttempt {
            t: 3,
            player: s("A"),
            finish: s("c7"),
            value: 12,
            crowd_meter: 1,
            auto_success: true,
            bonus,
        },
        Event::Breakout {
            t: 3,
            defender: s("B"),
            broke_out: false,
            rolls: vec![BreakoutRoll { skill: s("Grapple"), value: 4, penalty: 1, success: false }],
        },
        Event::CrowdMeter { t: 3, delta: 1, value: 2 },
        Event::Unsupported {
            t: 3,
            owner: s("A"),
            raw: s("do \"it\""),
            reason: s("unmapped"),
            card: Some(s("c3")),
            gimmick: None,
        },
        Event::EffectApplied {
            t: 3,
            src: s("c3"),
            action: s("Draw"),
            target: None,
            detail: Json::Object(vec![(s("count"), Json::Number(2))]),
        },
        Event::Result { t: 4, winner: s("A"), reason: s("finish"), turns: 4 },
    ]
}

fn text(t: &str) -> Json {
    Json::Text(t.to_owned())
}

fn full_log() -> GameLog {
    let mut log = GameLog::new(header());
    for e in every_event() {
        log.append(e);
    }
    log
}

const LINES: [&str; 16] = [
    r#"{"created":"","kind":"sim","players":{"A":{"competitor":"Bull","deck":["c1","c2"],"entrance":"ent","policy":"heuristic"},"B":{"competitor":"Fae","deck":["c1","c2"],"entrance":"ent","policy":"heuristic"}},"schema":1,"seed":7}"#,
    r#"{"base":9,"mods":[{"delta":1,"src":"gimmick"}],"player":"A","skill":"Power","t":1,"type":"roll","value":10}"#,
    r#"{"t":1,"tie_bumps":0,"type":"turn_result","winner":"A"}"#,
    r#"{"chosen":"c1","legal":["c1",null],"player":"A","point":"play","policy":"heuristic","t":1,"type":"decision"}"#,
    r#"{"atk_type":"Strike","card":"c1","order":"Lead","player":"A","t":1,"type":"play"}"#,
    r#"{"card":"c9","player":"B","reason":"skill","stopped":"c1","t":1,"type":"stop"}"#,
    r#"{"cards":["c1"],"from":"TOP","hidden":true,"player":"A","t":2,"type":"draw"}"#,
    r#"{"cards":["c1"],"from":null,"hidden":false,"player":"A","t":2,"type":"bury"}"#,
    r#"{"cards":["c1"],"from":"hand","hidden":false,"player":"A","t":2,"type":"discard"}"#,
    r#"{"cards":["c1"],"from":null,"hidden":true,"player":"A","t":2,"type":"search"}"#,
    r#"{"auto_success":true,"bonus":{"Power":-1,"Strike":2},"crowd_meter":1,"finish":"c7","player":"A","t":3,"type":"finish_attempt","value":12}"#,
    r#"{"broke_out":false,"defender":"B","rolls":[{"penalty":1,"skill":"Grapple","success":false,"value":4}],"t":3,"type":"breakout"}"#,
    r#"{"delta":1,"t":3,"type":"crowd_meter","value":2}"#,
    r#"{"card":"c3","gimmick":null,"owner":"A","raw":"do \"it\"","reason":"unmapped","t":3,"type":"unsupported"}"#,
    r#"{"action":"Draw","detail":{"count":2},"src":"c3","t":3,"target":null,"type":"effect"}"#,
    r#"{"reason":"finish","t":4,"turns":4,"type":"result","winner":"A"}"#,
];

#[test]
fn a_new_log_has_no_events() {
    let log = GameLog::new(header());
    assert_eq!(log.header, header());
    assert!(log.events.is_empty());
    assert_eq!(log.to_lines().len(), 1);
}

#[test]
fn every_record_has_its_line() {
    assert_eq!(full_log().to_lines(), LINES);
}

#[test]
fn canonical_forms_and_lines_agree() {
    let log = full_log();
    let texts: Vec<String> = log.canonical().iter().map(Json::to_text).collect();
    assert_eq!(texts, log.to_lines());
}

#[test]
fn lines_are_in_the_form_that_sorted_compact_json_has() {
    for line in full_log().to_lines() {
        let value: serde_json::Value = serde_json::from_str(&line).unwrap();
        assert_eq!(serde_json::to_string(&value).unwrap(), line);
    }
}

#[test]
fn the_file_ends_in_a_line_feed() {
    let log = full_log();
    assert_eq!(log.to_text(), LINES.join("\n") + "\n");
    assert_eq!(GameLog::new(header()).to_text(), s(LINES[0]) + "\n");
}

#[test]
fn appending_adds_a_line_at_the_end() {
    let mut log = GameLog::new(header());
    let mut body = log.to_text();
    for e in every_event() {
        log.append(e.clone());
        body = body + &e.to_json().to_text() + "\n";
        assert_eq!(log.to_text(), body);
    }
}

#[test]
fn the_rows_of_a_file_are_the_lines_of_the_log() {
    let log = full_log();
    assert_eq!(GameLog::rows_of(&log.to_text()), log.to_lines());
    let spaced = s("\n  \r\n") + &log.to_lines().join("\r\n\n\t\n") + "\n\n";
    assert_eq!(GameLog::rows_of(&spaced), log.to_lines());
}

#[test]
fn a_log_is_parsed_from_its_records() {
    let log = GameLog::parse(Some(Ok(header())), every_event().into_iter().map(Ok).collect());
    assert_eq!(log, Ok(full_log()));
}

#[test]
fn a_log_without_a_header_is_an_error() {
    assert_eq!(
        GameLog::parse(None, Vec::new()),
        Err(SrgError::Conformance(s("empty log: no header line")))
    );
    assert!(GameLog::rows_of(" \n\t\r\n").is_empty());
}

#[test]
fn the_first_row_that_cannot_be_read_is_the_error() {
    assert_eq!(
        GameLog::parse(Some(Err(s("no header"))), vec![Err(s("no event"))]),
        Err(SrgError::Json(s("no header")))
    );
    let mut events: Vec<Result<Event, String>> = every_event().into_iter().map(Ok).collect();
    events[3] = Err(s("third"));
    events[9] = Err(s("ninth"));
    assert_eq!(
        GameLog::parse(Some(Ok(header())), events),
        Err(SrgError::Json(s("third")))
    );
}

#[test]
fn a_log_matches_itself() {
    assert!(srg_core::gamelog::matches(&full_log(), &full_log()));
    assert!(diff(&full_log(), &full_log()).is_empty());
}

#[test]
fn differences_are_named() {
    let expected = full_log();
    let mut actual = full_log();
    actual.header.seed = 8;
    actual.events[0] = Event::CrowdMeter { t: 0, delta: 0, value: 0 };
    actual.events[11] = Event::CrowdMeter { t: 3, delta: 1, value: 3 };
    actual.events.pop();
    assert_eq!(
        diff(&expected, &actual),
        [
            "header mismatch",
            "event count: expected 15, got 14",
            "event 0 differs",
            "event 11 differs",
        ]
    );
    assert!(!srg_core::gamelog::matches(&expected, &actual));
    assert!(!srg_core::gamelog::matches(&actual, &expected));
}

#[test]
fn a_log_that_goes_on_does_not_match() {
    let expected = GameLog::new(header());
    let mut actual = GameLog::new(header());
    actual.append(Event::TurnResult { t: 1, winner: s("A"), tie_bumps: 0 });
    assert_eq!(diff(&expected, &actual), ["event count: expected 0, got 1"]);
}

#[test]
fn events_of_different_kinds_differ() {
    let events = every_event();
    for (i, a) in events.iter().enumerate() {
        for (j, b) in events.iter().enumerate() {
            assert_eq!(a.same(b), i == j, "{a:?} {b:?}");
            assert_eq!(a == b, i == j);
            assert_eq!(a.tag_text() == b.tag_text(), i == j);
            assert_eq!(a.to_json().same(&b.to_json()), i == j);
        }
    }
    assert!(!Event::Draw(movement(true, None)).same(&Event::Bury(movement(true, None))));
}

#[test]
fn headers_differ_in_any_field() {
    let h = header();
    let mut others = vec![header(), header(), header(), header(), header(), header()];
    others[0].seed = 1;
    others[1].kind = s("live");
    others[2].created = s("now");
    others[3].schema = 2;
    others[4].players.entries[1].1.deck.push(s("c3"));
    others[5].players.insert(s("C"), player("Third"));
    for other in &others {
        assert!(!h.same(other));
        assert!(!h.to_json().same(&other.to_json()));
    }
    assert!(h.same(&header()));
}

#[test]
fn logs_that_match_have_one_file_but_for_a_negative_zero() {
    let zero = |text: &str| {
        let mut log = GameLog::new(header());
        log.append(Event::EffectApplied {
            t: 1,
            src: s("c"),
            action: s("a"),
            target: None,
            detail: Json::Fraction(s(text)),
        });
        log
    };
    assert!(srg_core::gamelog::matches(&zero("0.0"), &zero("-0.0")));
    assert_ne!(zero("0.0").to_text(), zero("-0.0").to_text());
    assert!(srg_core::gamelog::matches(&zero("1.5"), &zero("1.5")));
    assert_eq!(zero("1.5").to_text(), zero("1.5").to_text());
}

#[test]
fn the_first_row_is_the_header() {
    assert_eq!(GameLog::split_rows(Vec::new()), None);
    assert_eq!(
        GameLog::split_rows(vec![s("h")]),
        Some((s("h"), Vec::new()))
    );
    assert_eq!(
        GameLog::split_rows(vec![s("h"), s("a"), s("b")]),
        Some((s("h"), vec![s("a"), s("b")]))
    );
}

#[test]
fn blank_lines_change_nothing() {
    let log = full_log();
    let rows = GameLog::rows_of(&log.to_text());
    let mut lines = log.to_lines();
    for at in [16, 9, 9, 1, 0, 0] {
        lines.insert(at, s(" \t"));
    }
    assert_eq!(GameLog::rows_of(&lines.join("\n")), rows);
    assert_eq!(
        GameLog::split_rows(GameLog::rows_of(&lines.join("\n"))),
        GameLog::split_rows(rows)
    );
}
