use mini_rpc::json::{Json, Number};
use mini_rpc::parse::parse_json;
use mini_rpc::rpc::{handle_text, parse_error_reply, Handling, Stage, Step};

fn obj(entries: Vec<(&str, Json)>) -> Json {
    Json::Object(entries.into_iter().map(|(k, v)| (k.to_string(), v)).collect())
}

#[test]
fn parse_json_reads_values() {
    assert_eq!(parse_json("null"), Some(Json::Null));
    assert_eq!(parse_json(" [1, -2, true, \"x\"] "), Some(Json::Array(vec![
        Json::Number(Number::PosInt(1)),
        Json::Number(Number::NegInt(-2)),
        Json::Bool(true),
        Json::text("x"),
    ])));
    assert_eq!(parse_json("1.5"), Some(Json::Number(Number::Float(1.5f64.to_bits()))));
    assert_eq!(parse_json("18446744073709551615"), Some(Json::from_u64(u64::MAX)));
}

#[test]
fn parse_json_objects_keep_last_binding_sorted() {
    assert_eq!(
        parse_json("{\"b\": 1, \"a\": 2, \"b\": 3}"),
        Some(obj(vec![("a", Json::from_i64(2)), ("b", Json::from_i64(3))]))
    );
}

#[test]
fn parse_json_refuses_non_json() {
    assert_eq!(parse_json("{not json"), None);
    assert_eq!(parse_json(""), None);
    assert_eq!(parse_json("[1,]"), None);
}

#[test]
fn handle_text_answers_non_json_with_parse_error() {
    assert_eq!(
        handle_text(Stage::Errors, "{\"jsonrpc\": \"2.0\", oops"),
        Some(Handling::Single(Step::Reply(parse_error_reply())))
    );
}

#[test]
fn handle_text_dispatches_json() {
    let h = handle_text(Stage::Timeouts, "{\"jsonrpc\":\"2.0\",\"id\":1,\"method\":\"whoami\"}");
    assert_eq!(
        h,
        Some(Handling::Single(Step::Reply(obj(vec![
            ("id", Json::from_u64(1)),
            ("jsonrpc", Json::text("2.0")),
            ("result", Json::text("server v5")),
        ]))))
    );
}

#[test]
fn handle_text_batch_with_one_request_is_a_batch() {
    let h = handle_text(Stage::Errors, "[{\"id\":2,\"method\":\"nope\"}]");
    match h {
        Some(Handling::Batch(steps)) => assert_eq!(steps.len(), 1),
        other => panic!("expected a batch, got {:?}", other),
    }
}

#[test]
fn handle_text_refuses_what_would_fail() {
    assert_eq!(handle_text(Stage::Errors, "{\"id\":1,\"method\":\"add\",\"params\":[1]}"), None);
}
