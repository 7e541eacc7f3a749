//! The JSON-RPC client side: request ids, request envelopes, and reading a
//! reply back into a result or an error message.
use vstd::prelude::*;
use crate::json::{Json, Number, SpecJson};
use crate::rpc::{Outcome, Stage, error_envelope, result_envelope, lemma_error_envelope_fields, lemma_result_envelope_fields, method_of, outcome, param, reply_of, step_for};

verus! {

/// The id that follows `id`; after the largest id the count starts again at 0.
pub open spec fn following(id: u64) -> u64 {
    if id == u64::MAX {
        0
    } else {
        (id + 1) as u64
    }
}

/// The id handed out by the `k`-th call on a counter whose next id is `start`.
pub open spec fn issued(start: u64, k: nat) -> u64
    decreases k,
{
    if k == 0 {
        start
    } else {
        following(issued(start, (k - 1) as nat))
    }
}

/// A source of request ids: each call hands out the next one.
pub struct IdCounter {
    next: u64,
}

impl IdCounter {
    /// The id the next call hands out.
    pub closed spec fn upcoming(self) -> u64 {
        self.next
    }

    /// A counter whose first id is 1.
    pub fn new() -> (c: IdCounter)
        ensures
            c.upcoming() == 1,
    {
        IdCounter { next: 1 }
    }

    /// Hands out the next id.
    pub fn next_id(&mut self) -> (id: u64)
        ensures
            id == old(self).upcoming(),
            final(self).upcoming() == following(id),
    {
        let id = self.next;
        self.next = self.next.wrapping_add(1);
        id
    }
}

/// Ids handed out by one counter differ, as long as fewer than 2^64 of them
/// have been handed out.
pub proof fn lemma_issued_ids_differ(start: u64, i: nat, j: nat)
    requires
        i < j,
        j - i < 0x1_0000_0000_0000_0000,
    ensures
        issued(start, i) != issued(start, j),
{
    lemma_issued_value(start, i);
    lemma_issued_value(start, j);
}

/// The `k`-th id is `start + k`, counted modulo 2^64; so a fresh counter
/// hands out 1, 2, 3, ... until the count wraps.
pub proof fn lemma_issued_value(start: u64, k: nat)
    ensures
        issued(start, k) == (start + k) % 0x1_0000_0000_0000_0000,
        start + k < 0x1_0000_0000_0000_0000 ==> issued(start, k) == start + k,
    decreases k,
{
    if k > 0 {
        lemma_issued_value(start, (k - 1) as nat);
    }
}

/// A later call gets a larger id, as long as the count has not wrapped.
pub proof fn lemma_later_ids_larger(start: u64, i: nat, j: nat)
    requires
        i < j,
        start + j < 0x1_0000_0000_0000_0000,
    ensures
        issued(start, i) < issued(start, j),
{
    lemma_issued_value(start, i);
    lemma_issued_value(start, j);
}

/// The request envelope of a call:
/// `{"id": id, "jsonrpc": "2.0", "method": method, "params": params}`.
pub open spec fn request_model(id: u64, method: Seq<char>, params: SpecJson) -> SpecJson {
    SpecJson::Object(
        seq![
            ("id"@, SpecJson::Number(Number::PosInt(id))),
            ("jsonrpc"@, SpecJson::Str("2.0"@)),
            ("method"@, SpecJson::Str(method)),
            ("params"@, params),
        ],
    )
}

/// Builds the request envelope of a call.
pub fn request(id: u64, method: &str, params: Json) -> (r: Json)
    ensures
        r@ == request_model(id, method@, params@),
{
    let mut entries: Vec<(String, Json)> = Vec::new();
    entries.push((String::from_str("id"), Json::from_u64(id)));
    entries.push((String::from_str("jsonrpc"), Json::text("2.0")));
    entries.push((String::from_str("method"), Json::text(method)));
    entries.push((String::from_str("params"), params));
    let r = Json::Object(entries);
    assert(r@->Object_0 =~= request_model(id, method@, params@)->Object_0);
    r
}

/// The result of a reply, read without looking for an error (null where there is none).
pub fn result_of(reply: &Json) -> (r: Json)
    ensures
        r@ == reply@.field("result"@),
{
    match reply.get("result") {
        Some(v) => v.deep_copy(),
        None => Json::Null,
    }
}

/// What a reply says: its result, or the message of its error (a fixed text
/// where the error has no string message).
pub open spec fn reading(reply: SpecJson) -> Result<SpecJson, Seq<char>> {
    match reply.get("error"@) {
        Some(e) => Err(
            match e.field("message"@).as_str() {
                Some(m) => m,
                None => "unknown error"@,
            },
        ),
        None => Ok(reply.field("result"@)),
    }
}

/// Reads a reply: an error becomes its message, anything else its result.
pub fn read_reply(reply: &Json) -> (r: Result<Json, String>)
    ensures
        match r {
            Ok(v) => reading(reply@) == Ok::<SpecJson, Seq<char>>(v@),
            Err(m) => reading(reply@) == Err::<SpecJson, Seq<char>>(m@),
        },
{
    match reply.get("error") {
        Some(e) => {
            let message = match e.get("message") {
                Some(m) => match m.as_str() {
                    Some(text) => String::from_str(text),
                    None => String::from_str("unknown error"),
                },
                None => String::from_str("unknown error"),
            };
            Err(message)
        },
        None => Ok(result_of(reply)),
    }
}

/// The keys of a request envelope are distinct texts.
proof fn lemma_request_keys()
    ensures
        "id"@ != "jsonrpc"@,
        "id"@ != "method"@,
        "id"@ != "params"@,
        "jsonrpc"@ != "method"@,
        "jsonrpc"@ != "params"@,
        "method"@ != "params"@,
{
    reveal_strlit("id");
    reveal_strlit("jsonrpc");
    reveal_strlit("method");
    reveal_strlit("params");
    assert("id"@.len() != "jsonrpc"@.len());
    assert("id"@.len() != "method"@.len());
    assert("id"@.len() != "params"@.len());
    assert("jsonrpc"@.len() != "method"@.len());
    assert("jsonrpc"@.len() != "params"@.len());
    assert("method"@[0] != "params"@[0]);
}

/// What the server reads out of a request envelope: its id, method and parameters.
pub proof fn lemma_request_fields(id: u64, method: Seq<char>, params: SpecJson)
    ensures
        request_model(id, method, params).field("id"@) == SpecJson::Number(Number::PosInt(id)),
        request_model(id, method, params).field("jsonrpc"@) == SpecJson::Str("2.0"@),
        method_of(request_model(id, method, params)) == method,
        request_model(id, method, params).field("params"@) == params,
        forall|i: int| #[trigger] param(request_model(id, method, params), i) == params.item(i),
{
    lemma_request_keys();
    reveal_with_fuel(crate::json::lookup, 5);
}

/// A call is answered for itself: the reply to a request built by `request`
/// carries the request's id, and reading it gives the result the server meant
/// for that method and those parameters, or the message of the error it raised.
pub proof fn lemma_call_round_trip(stage: Stage, id: u64, method: Seq<char>, params: SpecJson)
    ensures
        ({
            let req = request_model(id, method, params);
            reply_of(step_for(stage, req)) matches Some(r) ==> {
                &&& r.field("id"@) == SpecJson::Number(Number::PosInt(id))
                &&& reading(r) == match outcome(stage, req) {
                    Outcome::Value(x) => Ok::<SpecJson, Seq<char>>(x),
                    Outcome::After(_, x) => Ok(x),
                    Outcome::Failure(_, m) => Err(m),
                    Outcome::Never => Err(Seq::empty()),
                }
            }
        }),
{
    let req = request_model(id, method, params);
    lemma_request_fields(id, method, params);
    let rid = req.field("id"@);
    match outcome(stage, req) {
        Outcome::Value(x) => lemma_result_envelope_fields(rid, x),
        Outcome::After(_, x) => lemma_result_envelope_fields(rid, x),
        Outcome::Failure(code, m) => lemma_error_envelope_fields(rid, code, m),
        Outcome::Never => {},
    }
}

/// Reading a reply: a result envelope reads as its result, an error
/// envelope as its message, and an error without a string message as
/// "unknown error"; a reply with no error reads as its result, null where there is none.
pub proof fn lemma_reading_replies(id: SpecJson, result: SpecJson, code: i64, message: Seq<char>, reply: SpecJson)
    ensures
        reading(result_envelope(id, result)) == Ok::<SpecJson, Seq<char>>(result),
        reading(error_envelope(id, code, message)) == Err::<SpecJson, Seq<char>>(message),
        reply.get("error"@) matches Some(e) && e.field("message"@).as_str() is None ==> reading(reply)
            == Err::<SpecJson, Seq<char>>("unknown error"@),
        reply.get("error"@) is None ==> reading(reply) == Ok::<SpecJson, Seq<char>>(reply.field("result"@)),
{
    lemma_result_envelope_fields(id, result);
    lemma_error_envelope_fields(id, code, message);
}

} // verus!
