use mini_rpc::json::{Json, Number};
use mini_rpc::rpc::{
    accepts, batch_reply, body_accepts, handle, handle_body, parse_error_reply, process,
    slept_message, Handling, Stage, Step,
};

fn s(t: &str) -> Json {
    Json::Str(t.to_string())
}

fn num(n: i64) -> Json {
    Json::from_i64(n)
}

fn obj(entries: Vec<(&str, Json)>) -> Json {
    Json::Object(entries.into_iter().map(|(k, v)| (k.to_string(), v)).collect())
}

fn req(id: Json, method: &str, params: Vec<Json>) -> Json {
    obj(vec![
        ("jsonrpc", s("2.0")),
        ("id", id),
        ("method", s(method)),
        ("params", Json::Array(params)),
    ])
}

fn ok(id: Json, result: Json) -> Json {
    obj(vec![("id", id), ("jsonrpc", s("2.0")), ("result", result)])
}

fn err(id: Json, code: i64, message: &str) -> Json {
    obj(vec![
        ("error", obj(vec![("code", num(code)), ("message", s(message))])),
        ("id", id),
        ("jsonrpc", s("2.0")),
    ])
}

#[test]
fn add_sums_its_parameters() {
    let r = process(Stage::Errors, &req(num(1), "add", vec![num(1), num(2)]));
    assert_eq!(r, Step::Reply(ok(num(1), num(3))));
}

#[test]
fn add_negative_sum_is_a_negative_number() {
    let r = process(Stage::Batching, &req(num(4), "add", vec![num(-10), num(3)]));
    assert_eq!(r, Step::Reply(ok(num(4), Json::Number(Number::NegInt(-7)))));
}

#[test]
fn echo_returns_first_parameter() {
    let p = obj(vec![("a", Json::Array(vec![Json::Bool(true), Json::Null]))]);
    let r = process(Stage::Timeouts, &req(s("x"), "echo", vec![p.deep_copy(), num(9)]));
    assert_eq!(r, Step::Reply(ok(s("x"), p)));
}

#[test]
fn echo_without_parameters_is_null() {
    let r = process(Stage::Errors, &obj(vec![("id", num(2)), ("method", s("echo"))]));
    assert_eq!(r, Step::Reply(ok(num(2), Json::Null)));
}

#[test]
fn whoami_names_the_server() {
    let q = req(num(3), "whoami", vec![]);
    assert_eq!(process(Stage::Batching, &q), Step::Reply(ok(num(3), s("server v3"))));
    assert_eq!(process(Stage::Errors, &q), Step::Reply(ok(num(3), s("server v3"))));
    assert_eq!(process(Stage::Timeouts, &q), Step::Reply(ok(num(3), s("server v5"))));
}

#[test]
fn slow_sleeps_then_reports() {
    let r = process(Stage::Batching, &req(num(1), "slow", vec![Json::from_u64(500)]));
    assert_eq!(r, Step::Sleep { ms: 500, reply: ok(num(1), s("slept 500ms")) });
}

#[test]
fn slept_message_renders_decimal() {
    assert_eq!(slept_message(0), "slept 0ms");
    assert_eq!(slept_message(7), "slept 7ms");
    assert_eq!(slept_message(18446744073709551615), "slept 18446744073709551615ms");
}

#[test]
fn unknown_method_first_stage_gives_null_result() {
    let r = process(Stage::Batching, &req(num(5), "nope", vec![]));
    assert_eq!(r, Step::Reply(ok(num(5), Json::Null)));
    let r = process(Stage::Batching, &req(num(6), "bad", vec![]));
    assert_eq!(r, Step::Reply(ok(num(6), Json::Null)));
}

#[test]
fn unknown_method_is_method_not_found() {
    let r = process(Stage::Errors, &req(num(2), "nope", vec![]));
    assert_eq!(r, Step::Reply(err(num(2), -32601, "Method not found: nope")));
}

#[test]
fn missing_method_is_method_not_found_with_empty_name() {
    let r = process(Stage::Timeouts, &num(42));
    assert_eq!(r, Step::Reply(err(Json::Null, -32601, "Method not found: ")));
}

#[test]
fn bad_is_an_internal_error() {
    let r = process(Stage::Errors, &req(num(3), "bad", vec![]));
    assert_eq!(r, Step::Reply(err(num(3), -32603, "intentional failure")));
}

#[test]
fn hang_never_answers_only_in_last_stage() {
    assert_eq!(process(Stage::Timeouts, &req(num(1), "hang", vec![])), Step::Hang);
    assert_eq!(
        process(Stage::Errors, &req(num(1), "hang", vec![])),
        Step::Reply(err(num(1), -32601, "Method not found: hang"))
    );
}

#[test]
fn parse_error_reply_has_null_id() {
    assert_eq!(parse_error_reply(), err(Json::Null, -32700, "Parse error"));
    assert_eq!(
        handle_body(Stage::Errors, None),
        Handling::Single(Step::Reply(err(Json::Null, -32700, "Parse error")))
    );
}

#[test]
fn single_body_is_one_step() {
    let h = handle(Stage::Errors, &req(num(9), "whoami", vec![]));
    assert_eq!(h, Handling::Single(Step::Reply(ok(num(9), s("server v3")))));
}

#[test]
fn batch_is_one_step_per_request() {
    let body = Json::Array(vec![
        req(num(1), "slow", vec![Json::from_u64(500)]),
        req(num(2), "add", vec![num(1), num(2)]),
    ]);
    let h = handle_body(Stage::Errors, Some(body));
    assert_eq!(
        h,
        Handling::Batch(vec![
            Step::Sleep { ms: 500, reply: ok(num(1), s("slept 500ms")) },
            Step::Reply(ok(num(2), num(3))),
        ])
    );
}

#[test]
fn batch_reply_follows_completion_order() {
    let steps = vec![
        Step::Sleep { ms: 500, reply: ok(num(1), s("slept 500ms")) },
        Step::Reply(ok(num(2), num(3))),
    ];
    let r = batch_reply(&steps, &vec![1, 0]);
    assert_eq!(r, Json::Array(vec![ok(num(2), num(3)), ok(num(1), s("slept 500ms"))]));
}

#[test]
fn empty_batch_is_empty_array() {
    let h = handle(Stage::Timeouts, &Json::Array(vec![]));
    assert_eq!(h, Handling::Batch(vec![]));
    assert_eq!(batch_reply(&vec![], &vec![]), Json::Array(vec![]));
}

#[test]
fn accepts_rejects_what_would_fail() {
    assert!(accepts(Stage::Errors, &req(num(1), "add", vec![num(1), num(2)])));
    assert!(!accepts(Stage::Errors, &req(num(1), "add", vec![num(1)])));
    assert!(!accepts(Stage::Errors, &req(num(1), "add", vec![num(i64::MAX), num(1)])));
    assert!(!accepts(Stage::Errors, &req(num(1), "add", vec![s("1"), num(1)])));
    assert!(!accepts(Stage::Errors, &req(num(1), "slow", vec![num(-1)])));
    assert!(accepts(Stage::Errors, &num(3)));
    assert!(!accepts(Stage::Batching, &num(3)));
    assert!(body_accepts(Stage::Batching, &Json::Array(vec![req(num(1), "echo", vec![])])));
    assert!(!body_accepts(Stage::Batching, &Json::Array(vec![req(num(1), "echo", vec![]), num(2)])));
}

#[test]
fn reply_carries_request_id_of_any_shape() {
    let id = obj(vec![("k", Json::Array(vec![num(1)]))]);
    let r = process(Stage::Errors, &req(id.deep_copy(), "whoami", vec![]));
    assert_eq!(r, Step::Reply(ok(id, s("server v3"))));
}
