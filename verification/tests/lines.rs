use story_catalog::json::JsonValue;
use story_catalog::line::{parse_script_line, ScriptLine};
use story_catalog::error::DecodeError;
use story_catalog::strutil::{split_char, str_eq};

fn obj(pairs: Vec<(&str, JsonValue)>) -> JsonValue {
    JsonValue::Obj(pairs.into_iter().map(|(k, v)| (k.to_string(), v)).collect())
}

fn s(x: &str) -> JsonValue {
    JsonValue::Str(x.to_string())
}

fn record(id: i64, prop: &str, attrs: JsonValue) -> JsonValue {
    obj(vec![("id", JsonValue::Int(id)), ("prop", s(prop)), ("attributes", attrs)])
}

#[test]
fn dialogue_line_fields_populated() {
    let raw = record(3, "name", obj(vec![("content", s("hello")), ("name", s("Amiya"))]));
    let line = parse_script_line(&raw).unwrap();
    assert_eq!(
        line,
        ScriptLine::Dialogue {
            id: 3,
            speaker: Some("Amiya".to_string()),
            content: "hello".to_string()
        }
    );
}

#[test]
fn dialogue_without_speaker() {
    let raw = record(4, "name", obj(vec![("content", s("...?"))]));
    let line = parse_script_line(&raw).unwrap();
    assert_eq!(line, ScriptLine::Dialogue { id: 4, speaker: None, content: "...?".to_string() });
}

#[test]
fn image_and_background_lines() {
    let img = record(1, "Image", obj(vec![("image", s("bg1"))]));
    assert_eq!(
        parse_script_line(&img).unwrap(),
        ScriptLine::Image { id: 1, image: Some("bg1".to_string()) }
    );
    let bg = record(2, "Background", obj(vec![]));
    assert_eq!(parse_script_line(&bg).unwrap(), ScriptLine::Background { id: 2, image: None });
}

#[test]
fn sticker_and_subtitle_share_caption_shape() {
    let st = record(5, "Sticker", obj(vec![("text", s("Three days later"))]));
    assert_eq!(
        parse_script_line(&st).unwrap(),
        ScriptLine::Caption { id: 5, text: Some("Three days later".to_string()) }
    );
    let su = record(6, "Subtitle", obj(vec![("text", JsonValue::Null)]));
    assert_eq!(parse_script_line(&su).unwrap(), ScriptLine::Caption { id: 6, text: None });
}

#[test]
fn unknown_prop_yields_other_with_id() {
    let raw = record(42, "Blocker", obj(vec![("fadetime", JsonValue::Int(2))]));
    assert_eq!(parse_script_line(&raw).unwrap(), ScriptLine::Other { id: 42 });
}

#[test]
fn decision_zip_pairs_in_mapping_order() {
    let mut raw_pairs = record(7, "Decision", obj(vec![("options", s("A;B;C"))]));
    if let JsonValue::Obj(entries) = &mut raw_pairs {
        entries.push((
            "targetLine".to_string(),
            obj(vec![("9", s("10")), ("2", s("20")), ("5", s("30"))]),
        ));
    }
    let line = parse_script_line(&raw_pairs).unwrap();
    assert_eq!(
        line,
        ScriptLine::Decision {
            id: 7,
            options: vec![
                ("A".to_string(), "10".to_string()),
                ("B".to_string(), "20".to_string()),
                ("C".to_string(), "30".to_string()),
            ]
        }
    );
}

#[test]
fn decision_zip_truncates_to_shorter() {
    let mut raw = record(8, "Decision", obj(vec![("options", s("A;B"))]));
    if let JsonValue::Obj(entries) = &mut raw {
        entries.push((
            "targetLine".to_string(),
            obj(vec![("1", s("10")), ("2", s("20")), ("3", s("30"))]),
        ));
    }
    let line = parse_script_line(&raw).unwrap();
    assert_eq!(
        line,
        ScriptLine::Decision {
            id: 8,
            options: vec![
                ("A".to_string(), "10".to_string()),
                ("B".to_string(), "20".to_string()),
            ]
        }
    );
}

#[test]
fn decision_without_target_line_fails() {
    let raw = record(9, "Decision", obj(vec![("options", s("A;B"))]));
    let err = parse_script_line(&raw).unwrap_err();
    assert_eq!(err, DecodeError::LineTargets { id: 9 });
    assert!(err.is_schema());
}

#[test]
fn decision_with_non_string_target_fails() {
    let mut raw = record(10, "Decision", obj(vec![("options", s("A"))]));
    if let JsonValue::Obj(entries) = &mut raw {
        entries.push(("targetLine".to_string(), obj(vec![("1", JsonValue::Int(10))])));
    }
    assert_eq!(parse_script_line(&raw).unwrap_err(), DecodeError::LineTargets { id: 10 });
}

#[test]
fn decision_without_options_fails() {
    let mut raw = record(11, "Decision", obj(vec![]));
    if let JsonValue::Obj(entries) = &mut raw {
        entries.push(("targetLine".to_string(), obj(vec![("1", s("10"))])));
    }
    assert_eq!(parse_script_line(&raw).unwrap_err(), DecodeError::LineAttributes { id: 11 });
}

#[test]
fn predicate_end_of_opt_defaults_false() {
    let raw = record(12, "Predicate", obj(vec![("references", s("13;15"))]));
    assert_eq!(
        parse_script_line(&raw).unwrap(),
        ScriptLine::Predicate { id: 12, references: "13;15".to_string(), end_of_opt: false }
    );
}

#[test]
fn predicate_end_of_opt_true_is_kept() {
    let mut raw = record(13, "Predicate", obj(vec![("references", s("14"))]));
    if let JsonValue::Obj(entries) = &mut raw {
        entries.push(("endOfOpt".to_string(), JsonValue::Bool(true)));
    }
    assert_eq!(
        parse_script_line(&raw).unwrap(),
        ScriptLine::Predicate { id: 13, references: "14".to_string(), end_of_opt: true }
    );
}

#[test]
fn predicate_end_of_opt_null_defaults_false() {
    let mut raw = record(14, "Predicate", obj(vec![("references", s("15"))]));
    if let JsonValue::Obj(entries) = &mut raw {
        entries.push(("endOfOpt".to_string(), JsonValue::Null));
    }
    assert_eq!(
        parse_script_line(&raw).unwrap(),
        ScriptLine::Predicate { id: 14, references: "15".to_string(), end_of_opt: false }
    );
}

#[test]
fn end_of_opt_of_wrong_shape_fails_envelope() {
    let mut raw = record(15, "Predicate", obj(vec![("references", s("16"))]));
    if let JsonValue::Obj(entries) = &mut raw {
        entries.push(("endOfOpt".to_string(), s("yes")));
    }
    assert_eq!(
        parse_script_line(&raw).unwrap_err(),
        DecodeError::Schema { field: "endOfOpt".to_string() }
    );
}

#[test]
fn missing_envelope_fields_fail_with_field_name() {
    let no_id = obj(vec![("prop", s("name")), ("attributes", obj(vec![]))]);
    assert_eq!(
        parse_script_line(&no_id).unwrap_err(),
        DecodeError::Schema { field: "id".to_string() }
    );
    let no_prop = obj(vec![("id", JsonValue::Int(1)), ("attributes", obj(vec![]))]);
    assert_eq!(
        parse_script_line(&no_prop).unwrap_err(),
        DecodeError::Schema { field: "prop".to_string() }
    );
    let no_attrs = obj(vec![("id", JsonValue::Int(1)), ("prop", s("name"))]);
    assert_eq!(
        parse_script_line(&no_attrs).unwrap_err(),
        DecodeError::Schema { field: "attributes".to_string() }
    );
}

#[test]
fn dialogue_without_content_fails_in_attribute_phase() {
    let raw = record(21, "name", obj(vec![("name", s("Doctor"))]));
    assert_eq!(parse_script_line(&raw).unwrap_err(), DecodeError::LineAttributes { id: 21 });
}

#[test]
fn split_keeps_empty_chunks() {
    let views = |v: Vec<String>| v;
    assert_eq!(views(split_char("A;;B", ';')), vec!["A", "", "B"]);
    assert_eq!(views(split_char("", ';')), vec![""]);
    assert_eq!(views(split_char("A;", ';')), vec!["A", ""]);
}

#[test]
fn split_handles_multibyte_labels() {
    assert_eq!(split_char("第一;第二", ';'), vec!["第一", "第二"]);
}

#[test]
fn str_eq_compares_characters() {
    assert!(str_eq("MAINLINE", "MAINLINE"));
    assert!(!str_eq("MAINLINE", "MAIN"));
    assert!(!str_eq("a", "b"));
}
