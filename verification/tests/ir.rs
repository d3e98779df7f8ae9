use srg_core::ir::{
    check_tag, is_default_search_source, is_false, is_in_play_zone, is_one_i64, is_self_who,
    one_i64, AtkType, CardFilterTag, ChoiceOptionTag, CountZone, EffectTag, FrequencyGuardTag,
    PlayOrder, RerollCostTag, SearchSource, Skill, Who, SCHEMA_VERSION,
};

#[test]
fn skills_have_their_names() {
    let names: Vec<&str> = Skill::ALL.iter().map(|s| s.name()).collect();
    assert_eq!(
        names,
        ["Power", "Agility", "Technique", "Submission", "Grapple", "Strike"]
    );
}

#[test]
fn attacks_and_orders_have_their_names() {
    assert_eq!(AtkType::Strike.name(), "Strike");
    assert_eq!(AtkType::Grapple.name(), "Grapple");
    assert_eq!(AtkType::Submission.name(), "Submission");
    assert_eq!(AtkType::NoAttack.name(), "None");
    assert_eq!(PlayOrder::Lead.name(), "Lead");
    assert_eq!(PlayOrder::Followup.name(), "Followup");
    assert_eq!(PlayOrder::Finish.name(), "Finish");
    assert_eq!(PlayOrder::NoOrder.name(), "None");
}

#[test]
fn defaults_are_recognised() {
    assert!(is_false(&false));
    assert!(!is_false(&true));
    assert_eq!(one_i64(), 1);
    assert!(is_one_i64(&1));
    assert!(!is_one_i64(&0));
    assert!(is_default_search_source(&SearchSource::Deck));
    assert!(!is_default_search_source(&SearchSource::DeckOrDiscard));
    assert!(is_self_who(&Who::SelfSide));
    assert!(!is_self_who(&Who::Opp));
    assert!(is_in_play_zone(&CountZone::InPlay));
    assert!(!is_in_play_zone(&CountZone::Discard));
}

#[test]
fn the_schema_has_a_version() {
    assert_eq!(SCHEMA_VERSION, 156);
    assert_eq!(srg_core::gamelog::SCHEMA_VERSION, 1);
}

#[test]
fn node_tags_are_read_back() {
    assert_eq!(EffectTag.name(), "Effect");
    assert_eq!(EffectTag::read(EffectTag.name()), Ok(EffectTag));
    assert_eq!(CardFilterTag::read(CardFilterTag.name()), Ok(CardFilterTag));
    assert_eq!(FrequencyGuardTag::read(FrequencyGuardTag.name()), Ok(FrequencyGuardTag));
    assert_eq!(ChoiceOptionTag::read(ChoiceOptionTag.name()), Ok(ChoiceOptionTag));
    assert_eq!(RerollCostTag::read(RerollCostTag.name()), Ok(RerollCostTag));
}

#[test]
fn another_node_tag_is_an_error() {
    assert_eq!(
        EffectTag::read("effect"),
        Err("expected @type \"Effect\", got \"effect\"".to_owned())
    );
    assert_eq!(
        RerollCostTag::read("a\"b\n"),
        Err("expected @type \"RerollCost\", got \"a\\\"b\\n\"".to_owned())
    );
    assert_eq!(check_tag("x", "x"), Ok(()));
}
