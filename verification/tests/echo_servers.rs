use mini_rpc::echo::{collect_body, echo_json, echo_reply};
use mini_rpc::json::Json;

#[test]
fn echo_prefixes_body() {
    assert_eq!(echo_reply("hello world"), "echo: hello world");
    assert_eq!(echo_reply(""), "echo: ");
}

#[test]
fn body_joins_chunks() {
    let chunks = vec![b"hello ".to_vec(), b"wor".to_vec(), b"ld".to_vec()];
    assert_eq!(collect_body(&chunks), "hello world");
    assert_eq!(collect_body(&vec![]), "");
}

#[test]
fn invalid_bytes_become_replacement_characters() {
    assert_eq!(collect_body(&vec![vec![0x61, 0xff, 0x62]]), "a\u{FFFD}b");
}

#[test]
fn multibyte_split_across_chunks_is_decoded_per_chunk() {
    // "é" is 0xC3 0xA9; split across two chunks each half is invalid on its own.
    assert_eq!(collect_body(&vec![vec![0xC3], vec![0xA9]]), "\u{FFFD}\u{FFFD}");
    assert_eq!(collect_body(&vec![vec![0xC3, 0xA9]]), "é");
}

#[test]
fn json_echo_wraps_request() {
    let req = Json::Object(vec![("greeting".to_string(), Json::text("hello"))]);
    let reply = echo_json(req.deep_copy());
    assert_eq!(
        reply,
        Json::Object(vec![
            ("server".to_string(), Json::text("v2")),
            ("you_said".to_string(), req),
        ])
    );
}
