use sabitori::hot_reload::{call, init, parse_json, patch_for, patch_for_text, Json, JsonNumber};

const PID: u32 = 4242;

fn obj(members: Vec<(&str, Json)>) -> Json {
    Json::Object(members.into_iter().map(|(k, v)| (k.to_string(), v)).collect())
}

fn table() -> Json {
    obj(vec![("map", obj(vec![]))])
}

fn msg(for_pid: Json, jump_table: Json) -> Json {
    obj(vec![(
        "HotReload",
        obj(vec![
            ("templates", Json::Array(vec![])),
            ("assets", Json::Array(vec![])),
            ("ms_elapsed", Json::Number(JsonNumber::PosInt(12))),
            ("jump_table", jump_table),
            ("for_build_id", Json::Number(JsonNumber::PosInt(0))),
            ("for_pid", for_pid),
        ]),
    )])
}

#[test]
fn parsed_a_patch_addressed_to_us_is_taken() {
    assert!(patch_for(&msg(Json::Number(JsonNumber::PosInt(4242)), table()), PID).is_some());
}

#[test]
fn parsed_a_patch_for_another_pid_is_dropped() {
    assert!(patch_for(&msg(Json::Number(JsonNumber::PosInt(9999)), table()), PID).is_none());
}

#[test]
fn parsed_a_patch_with_no_pid_is_dropped() {
    assert!(patch_for(&msg(Json::Null, table()), PID).is_none());
}

#[test]
fn parsed_a_message_without_a_jump_table_is_dropped() {
    assert!(patch_for(&msg(Json::Number(JsonNumber::PosInt(4242)), Json::Null), PID).is_none());
}

#[test]
fn parsed_other_devserver_variants_are_ignored() {
    for m in [
        Json::Str("Shutdown".to_string()),
        Json::Str("FullReloadCommand".to_string()),
        obj(vec![("HotPatchStart", Json::Null)]),
    ] {
        assert!(patch_for(&m, PID).is_none(), "{m:?} was taken");
    }
}

#[test]
fn parsed_unknown_fields_do_not_break_parsing() {
    let m = obj(vec![(
        "HotReload",
        obj(vec![
            ("jump_table", table()),
            ("for_pid", Json::Number(JsonNumber::PosInt(4242))),
            ("some_future_field", obj(vec![("nested", Json::Bool(true))])),
        ]),
    )]);
    assert!(patch_for(&m, PID).is_some());
}

#[test]
fn parsed_garbage_is_not_a_panic() {
    for m in [
        Json::Null,
        Json::Array(vec![]),
        Json::Number(JsonNumber::NegInt(-1)),
        Json::Number(JsonNumber::Float),
    ] {
        assert!(patch_for(&m, PID).is_none());
    }
}

#[test]
fn the_returned_table_is_the_messages_table() {
    let m = msg(Json::Number(JsonNumber::PosInt(4242)), table());
    match patch_for(&m, PID) {
        Some(Json::Object(members)) => assert_eq!(members[0].0, "map"),
        other => panic!("unexpected {other:?}"),
    }
    let negative = msg(Json::Number(JsonNumber::NegInt(-4242)), table());
    assert!(patch_for(&negative, PID).is_none());
}

#[test]
fn without_hot_reload_the_boundary_is_a_plain_call() {
    let mut n = 0;
    let out = call(|| {
        n += 1;
        n * 10
    });
    assert_eq!(out, 10);
    init(|| {});
}

fn text_msg(for_pid: &str, jump_table: &str) -> String {
    format!(
        r#"{{"HotReload":{{"templates":[],"assets":[],"ms_elapsed":12,
           "jump_table":{jump_table},"for_build_id":0,"for_pid":{for_pid}}}}}"#
    )
}

#[test]
fn a_patch_addressed_to_us_is_taken() {
    assert!(patch_for_text(&text_msg("4242", r#"{"map":{}}"#), PID).is_some());
}

#[test]
fn a_patch_for_another_pid_is_dropped() {
    assert!(patch_for_text(&text_msg("9999", r#"{"map":{}}"#), PID).is_none());
}

#[test]
fn a_patch_with_no_pid_is_dropped() {
    assert!(patch_for_text(&text_msg("null", r#"{"map":{}}"#), PID).is_none());
}

#[test]
fn a_message_without_a_jump_table_is_dropped() {
    assert!(patch_for_text(&text_msg("4242", "null"), PID).is_none());
}

#[test]
fn other_devserver_variants_are_ignored() {
    for m in [r#""Shutdown""#, r#""FullReloadCommand""#, r#"{"HotPatchStart":null}"#] {
        assert!(patch_for_text(m, PID).is_none(), "{m} was taken");
    }
}

#[test]
fn unknown_fields_do_not_break_parsing() {
    let m = r#"{"HotReload":{"jump_table":{"map":{}},"for_pid":4242,
                "some_future_field":{"nested":true}}}"#;
    assert!(patch_for_text(m, PID).is_some());
}

#[test]
fn garbage_is_not_a_panic() {
    for m in ["", "not json", "{", "[]", "null"] {
        assert!(patch_for_text(m, PID).is_none());
    }
}

#[test]
fn the_table_taken_from_text_is_the_one_in_the_message() {
    match patch_for_text(&text_msg("4242", r#"{"map":{"a":1}}"#), PID) {
        Some(Json::Object(members)) => {
            assert_eq!(members[0].0, "map");
            assert!(matches!(&members[0].1, Json::Object(inner) if inner[0].0 == "a"));
        }
        other => panic!("unexpected {other:?}"),
    }
    assert!(patch_for_text(&text_msg("-4242", r#"{"map":{}}"#), PID).is_none());
    assert!(patch_for_text(&text_msg("4242.0", r#"{"map":{}}"#), PID).is_none());
}

#[test]
fn text_is_read_into_json_values() {
    assert!(parse_json("not json").is_none());
    assert!(matches!(parse_json("null"), Some(Json::Null)));
    assert!(matches!(parse_json("-3"), Some(Json::Number(JsonNumber::NegInt(-3)))));
    assert!(matches!(parse_json("7"), Some(Json::Number(JsonNumber::PosInt(7)))));
    assert!(matches!(parse_json("1.5"), Some(Json::Number(JsonNumber::Float))));
    match parse_json(r#"{"k":[true,"s"]}"#) {
        Some(Json::Object(m)) => {
            assert_eq!(m[0].0, "k");
            assert!(matches!(&m[0].1, Json::Array(a) if a.len() == 2));
        }
        other => panic!("unexpected {other:?}"),
    }
}
