use mini_rpc::client::{read_reply, request, result_of, IdCounter};
use mini_rpc::json::Json;
use mini_rpc::rpc::{process, Stage, Step};

fn obj(entries: Vec<(&str, Json)>) -> Json {
    Json::Object(entries.into_iter().map(|(k, v)| (k.to_string(), v)).collect())
}

#[test]
fn counter_starts_at_one_and_counts_up() {
    let mut ids = IdCounter::new();
    assert_eq!(ids.next_id(), 1);
    assert_eq!(ids.next_id(), 2);
    assert_eq!(ids.next_id(), 3);
}

#[test]
fn request_envelope_holds_the_call() {
    let r = request(7, "add", Json::Array(vec![Json::from_i64(2), Json::from_i64(3)]));
    assert_eq!(
        r,
        obj(vec![
            ("id", Json::from_u64(7)),
            ("jsonrpc", Json::text("2.0")),
            ("method", Json::text("add")),
            ("params", Json::Array(vec![Json::from_i64(2), Json::from_i64(3)])),
        ])
    );
}

#[test]
fn result_of_reads_result_or_null() {
    let reply = obj(vec![("id", Json::from_u64(1)), ("result", Json::from_i64(5))]);
    assert_eq!(result_of(&reply), Json::from_i64(5));
    assert_eq!(result_of(&obj(vec![])), Json::Null);
}

#[test]
fn read_reply_turns_error_into_message() {
    let e = obj(vec![("error", obj(vec![("code", Json::from_i64(-32601)), ("message", Json::text("Method not found: nope"))]))]);
    assert_eq!(read_reply(&e), Err("Method not found: nope".to_string()));
    let e = obj(vec![("error", Json::Null)]);
    assert_eq!(read_reply(&e), Err("unknown error".to_string()));
    let okr = obj(vec![("result", Json::text("server v3"))]);
    assert_eq!(read_reply(&okr), Ok(Json::text("server v3")));
}

#[test]
fn call_round_trip_against_server() {
    let mut ids = IdCounter::new();
    let q = request(ids.next_id(), "add", Json::Array(vec![Json::from_i64(1), Json::from_i64(2)]));
    let reply = match process(Stage::Errors, &q) {
        Step::Reply(r) => r,
        other => panic!("unexpected step {:?}", other),
    };
    assert_eq!(reply.get("id"), Some(&Json::from_u64(1)));
    assert_eq!(read_reply(&reply), Ok(Json::from_i64(3)));
    let q = request(ids.next_id(), "bad", Json::Array(vec![]));
    let reply = match process(Stage::Errors, &q) {
        Step::Reply(r) => r,
        other => panic!("unexpected step {:?}", other),
    };
    assert_eq!(reply.get("id"), Some(&Json::from_u64(2)));
    assert_eq!(read_reply(&reply), Err("intentional failure".to_string()));
}
