use story_catalog::catalog::{build_catalog, parse_primary, Catalog};
use story_catalog::error::DecodeError;
use story_catalog::line::ScriptLine;
use story_catalog::review::EntryType;
use story_catalog::story::parse_story_detail_text;

const STORY_ONE: &str = r#"{
    "storyCode": "MN-1",
    "avgTag": "Mainline",
    "storyName": "First Step",
    "storyInfo": "The beginning.",
    "storyList": [
        {"id": 1, "prop": "name", "attributes": {"content": "Move out.", "name": "Amiya"}},
        {"id": 2, "prop": "Decision", "attributes": {"options": "Go;Stay"},
         "targetLine": {"0": "3", "1": "4"}}
    ]
}"#;

const STORY_TWO: &str = r#"{
    "avgTag": "Mainline",
    "storyName": "Second Step",
    "storyInfo": "The middle.",
    "storyList": [
        {"id": 1, "prop": "name", "attributes": {"content": "Onward."}},
        {"id": 2, "prop": "Decision", "attributes": {"options": "Fight;Flee"},
         "targetLine": {"a": "5", "b": "6"}}
    ]
}"#;

const PRIMARY: &str = r#"{
    "main_1": {
        "id": "main_1",
        "name": "Chapter One",
        "entryType": "MAINLINE",
        "infoUnlockDatas": [
            {"storyId": "st1", "storyCode": "MN-1", "storyTxt": "obt/main/level_st1"},
            {"storyId": "st2", "storyTxt": "obt/main/level_st2"}
        ]
    }
}"#;

fn table() -> Vec<(String, String)> {
    vec![
        ("obt/main/level_st1".to_string(), STORY_ONE.to_string()),
        ("obt/main/level_st2".to_string(), STORY_TWO.to_string()),
    ]
}

#[test]
fn story_detail_text_round_trip() {
    let detail = parse_story_detail_text(STORY_ONE).unwrap();
    assert_eq!(detail.story_code, Some("MN-1".to_string()));
    assert_eq!(detail.avg_tag, "Mainline");
    assert_eq!(detail.story_name, "First Step");
    assert_eq!(detail.story_info, "The beginning.");
    assert_eq!(detail.lines.len(), 2);
    assert_eq!(
        detail.lines[0],
        ScriptLine::Dialogue {
            id: 1,
            speaker: Some("Amiya".to_string()),
            content: "Move out.".to_string()
        }
    );
    assert_eq!(
        detail.lines[1],
        ScriptLine::Decision {
            id: 2,
            options: vec![
                ("Go".to_string(), "3".to_string()),
                ("Stay".to_string(), "4".to_string()),
            ]
        }
    );
}

#[test]
fn line_order_matches_input_order() {
    let text = r#"{
        "avgTag": "t", "storyName": "n", "storyInfo": "i",
        "storyList": [
            {"id": 10, "prop": "Mystery", "attributes": {}},
            {"id": 11, "prop": "name", "attributes": {"content": "c"}},
            {"id": 12, "prop": "Sticker", "attributes": {}},
            {"id": 13, "prop": "AnotherMystery", "attributes": {}}
        ]
    }"#;
    let detail = parse_story_detail_text(text).unwrap();
    let ids: Vec<i64> = detail.lines.iter().map(|l| l.id()).collect();
    assert_eq!(ids, vec![10, 11, 12, 13]);
    assert_eq!(detail.lines[0], ScriptLine::Other { id: 10 });
    assert_eq!(detail.lines[3], ScriptLine::Other { id: 13 });
}

#[test]
fn invalid_json_is_rejected() {
    assert_eq!(parse_story_detail_text("not json").unwrap_err(), DecodeError::Json);
    assert_eq!(parse_primary("{{").unwrap_err(), DecodeError::Json);
}

#[test]
fn missing_scalar_field_names_the_field() {
    let text = r#"{"avgTag": "t", "storyInfo": "i", "storyList": []}"#;
    assert_eq!(
        parse_story_detail_text(text).unwrap_err(),
        DecodeError::Schema { field: "storyName".to_string() }
    );
}

#[test]
fn end_to_end_build_groups_and_navigates() {
    let catalog = build_catalog(PRIMARY, &table()).unwrap();
    assert_eq!(catalog.category_keys(), vec!["mainline".to_string()]);
    assert_eq!(catalog.groups.len(), 1);
    let group = &catalog.groups[0];
    assert_eq!(group.key, EntryType::Mainline);
    assert_eq!(group.activities.len(), 1);
    let activity = &group.activities[0];
    assert_eq!(activity.id, "main_1");
    assert_eq!(activity.name, "Chapter One");
    assert_eq!(activity.stories.len(), 2);
    assert_eq!(activity.stories[0].story_id, "st1");
    assert_eq!(activity.stories[1].story_id, "st2");

    let next = activity.next_story(0).unwrap();
    assert_eq!(next.story_id, "st2");
    let prev = activity.prev_story(1).unwrap();
    assert_eq!(prev.story_id, "st1");
    assert!(activity.prev_story(0).is_none());
    assert!(activity.next_story(1).is_none());

    for story in &activity.stories {
        let detail = story.detail.as_ref().unwrap();
        assert_eq!(detail.lines.len(), 2);
        match &detail.lines[1] {
            ScriptLine::Decision { options, .. } => assert_eq!(options.len(), 2),
            other => panic!("expected a decision line, got {:?}", other),
        }
    }
}

#[test]
fn build_is_idempotent() {
    let first = build_catalog(PRIMARY, &table()).unwrap();
    let second = build_catalog(PRIMARY, &table()).unwrap();
    assert_eq!(first, second);
}

#[test]
fn missing_entry_type_aborts_whole_build() {
    let primary = r#"{
        "act_1": {
            "id": "act_1",
            "name": "No Category",
            "infoUnlockDatas": []
        }
    }"#;
    let err = build_catalog(primary, &table()).unwrap_err();
    assert_eq!(err.story, None);
    assert!(err.error.is_schema());
    assert_eq!(err.error, DecodeError::Schema { field: "entryType".to_string() });
}

#[test]
fn missing_resource_aborts_with_story_key() {
    let err = build_catalog(PRIMARY, &vec![(
        "obt/main/level_st1".to_string(),
        STORY_ONE.to_string(),
    )])
    .unwrap_err();
    assert_eq!(err.story, Some("obt/main/level_st2".to_string()));
    assert!(!err.error.is_schema());
    assert_eq!(err.error, DecodeError::Resource { key: "obt/main/level_st2".to_string() });
}

#[test]
fn bad_story_resource_aborts_with_story_key() {
    let bad = vec![
        ("obt/main/level_st1".to_string(), STORY_ONE.to_string()),
        ("obt/main/level_st2".to_string(), r#"{"avgTag": "t"}"#.to_string()),
    ];
    let err = build_catalog(PRIMARY, &bad).unwrap_err();
    assert_eq!(err.story, Some("obt/main/level_st2".to_string()));
    assert_eq!(err.error, DecodeError::Schema { field: "storyName".to_string() });
}

#[test]
fn categories_keep_first_occurrence_order() {
    let primary = r#"{
        "a": {"id": "a", "name": "A", "entryType": "ACTIVITY", "infoUnlockDatas": []},
        "b": {"id": "b", "name": "B", "entryType": "MAINLINE", "infoUnlockDatas": []},
        "c": {"id": "c", "name": "C", "entryType": "ACTIVITY", "infoUnlockDatas": []},
        "d": {"id": "d", "name": "D", "entryType": "SOMETHING_NEW", "infoUnlockDatas": []}
    }"#;
    let activities = parse_primary(primary).unwrap();
    assert_eq!(activities.len(), 4);
    let catalog = Catalog::from_activities(activities);
    assert_eq!(
        catalog.category_keys(),
        vec!["activity".to_string(), "mainline".to_string(), "none".to_string()]
    );
    assert_eq!(catalog.groups[0].activities.len(), 2);
    assert_eq!(catalog.groups[0].activities[0].id, "a");
    assert_eq!(catalog.groups[0].activities[1].id, "c");
    assert_eq!(catalog.groups[2].activities[0].entry_type, EntryType::Unclassified);
}

#[test]
fn entry_type_labels() {
    assert_eq!(EntryType::parse("ACTIVITY").label(), "activity");
    assert_eq!(EntryType::parse("MINI_ACTIVITY").label(), "mini_activity");
    assert_eq!(EntryType::parse("MAINLINE").label(), "mainline");
    assert_eq!(EntryType::parse("whatever").label(), "none");
}
