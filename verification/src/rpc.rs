//! The JSON-RPC 2.0 server: request dispatch, response envelopes, batches
//! and parse failures, for the three stages of the server.
//!
//! Work that takes time (a `slow` request's sleep, a `hang` request that
//! never finishes) is not done here: dispatch says what is to be done, and
//! the caller does the waiting and sends the reply it was handed.
use vstd::prelude::*;
use crate::json::{Json, Number, SpecJson, lookup, model, number_of_i64, same_text};
use crate::text::{decimal, push_decimal};
use crate::parse::{json_of_text, parse_json};

verus! {

/// The stage of the server.
#[derive(Clone, Copy, Debug, PartialEq, Eq, Structural)]
pub enum Stage {
    /// Method dispatch and batches; an unknown method yields a null result.
    Batching,
    /// Adds error envelopes: unknown method, failing handler, unparsable body.
    Errors,
    /// Adds a method that never answers.
    Timeouts,
}

impl Stage {
    /// What `whoami` answers.
    pub open spec fn whoami(self) -> Seq<char> {
        match self {
            Stage::Timeouts => "server v5"@,
            _ => "server v3"@,
        }
    }

    /// Whether failures are answered with error envelopes.
    pub open spec fn reports_errors(self) -> bool {
        !(self is Batching)
    }
}

/// What a request comes to, before it is put in an envelope.
pub enum Outcome {
    /// A result, at once.
    Value(SpecJson),
    /// An error with its code and message.
    Failure(i64, Seq<char>),
    /// A result after waiting the given number of milliseconds.
    After(u64, SpecJson),
    /// No answer, ever.
    Never,
}

/// The method a request names; a request without a string method names the empty one.
pub open spec fn method_of(req: SpecJson) -> Seq<char> {
    match req.field("method"@).as_str() {
        Some(m) => m,
        None => Seq::empty(),
    }
}

/// The positional parameter `i` of a request (null where there is none).
pub open spec fn param(req: SpecJson, i: int) -> SpecJson {
    req.field("params"@).item(i)
}

/// The text a `slow` request answers after `ms` milliseconds.
pub open spec fn slept_text(ms: u64) -> Seq<char> {
    "slept "@ + decimal(ms as nat) + "ms"@
}

/// The requests a stage serves without failing: a request of the first stage
/// names its method by a string; `add` takes two integers whose sum fits in an
/// `i64`; `slow` takes a non-negative integer.
pub open spec fn acceptable(stage: Stage, req: SpecJson) -> bool {
    &&& stage is Batching ==> req.field("method"@).as_str() is Some
    &&& method_of(req) == "add"@ ==> {
        &&& param(req, 0).as_i64() is Some
        &&& param(req, 1).as_i64() is Some
        &&& i64::MIN <= param(req, 0).as_i64().unwrap() + param(req, 1).as_i64().unwrap()
            <= i64::MAX
    }
    &&& method_of(req) == "slow"@ ==> param(req, 0).as_u64() is Some
}

/// What a request comes to at a stage.
pub open spec fn outcome(stage: Stage, req: SpecJson) -> Outcome {
    let m = method_of(req);
    if m == "add"@ {
        Outcome::Value(
            SpecJson::Number(
                number_of_i64(
                    (param(req, 0).as_i64().unwrap() + param(req, 1).as_i64().unwrap()) as i64,
                ),
            ),
        )
    } else if m == "echo"@ {
        Outcome::Value(param(req, 0))
    } else if m == "whoami"@ {
        Outcome::Value(SpecJson::Str(stage.whoami()))
    } else if m == "slow"@ {
        Outcome::After(
            param(req, 0).as_u64().unwrap(),
            SpecJson::Str(slept_text(param(req, 0).as_u64().unwrap())),
        )
    } else if stage is Timeouts && m == "hang"@ {
        Outcome::Never
    } else if stage.reports_errors() && m == "bad"@ {
        Outcome::Failure(-32603i64, "intentional failure"@)
    } else if stage.reports_errors() {
        Outcome::Failure(-32601i64, "Method not found: "@ + m)
    } else {
        Outcome::Value(SpecJson::Null)
    }
}

/// The envelope of a result: `{"id": id, "jsonrpc": "2.0", "result": result}`,
/// keys in the order a JSON map keeps them.
pub open spec fn result_envelope(id: SpecJson, result: SpecJson) -> SpecJson {
    SpecJson::Object(
        seq![("id"@, id), ("jsonrpc"@, SpecJson::Str("2.0"@)), ("result"@, result)],
    )
}

/// The envelope of an error:
/// `{"error": {"code": code, "message": message}, "id": id, "jsonrpc": "2.0"}`.
pub open spec fn error_envelope(id: SpecJson, code: i64, message: Seq<char>) -> SpecJson {
    SpecJson::Object(
        seq![
            ("error"@, SpecJson::Object(
                seq![
                    ("code"@, SpecJson::Number(number_of_i64(code))),
                    ("message"@, SpecJson::Str(message)),
                ],
            )),
            ("id"@, id),
            ("jsonrpc"@, SpecJson::Str("2.0"@)),
        ],
    )
}

/// The reply to a body that is not JSON: error -32700 with a null id.
pub open spec fn parse_error_envelope() -> SpecJson {
    error_envelope(SpecJson::Null, -32700i64, "Parse error"@)
}

/// What is to be done for one request.
pub enum SpecStep {
    /// Send this reply.
    Reply(SpecJson),
    /// Wait this many milliseconds, then send this reply.
    Sleep(u64, SpecJson),
    /// Never answer.
    Hang,
}

/// What is to be done for a request at a stage.
pub open spec fn step_for(stage: Stage, req: SpecJson) -> SpecStep {
    let id = req.field("id"@);
    match outcome(stage, req) {
        Outcome::Value(r) => SpecStep::Reply(result_envelope(id, r)),
        Outcome::Failure(code, message) => SpecStep::Reply(error_envelope(id, code, message)),
        Outcome::After(ms, r) => SpecStep::Sleep(ms, result_envelope(id, r)),
        Outcome::Never => SpecStep::Hang,
    }
}

/// The reply that a step ends in, where it ends.
pub open spec fn reply_of(step: SpecStep) -> Option<SpecJson> {
    match step {
        SpecStep::Reply(r) => Some(r),
        SpecStep::Sleep(_, r) => Some(r),
        SpecStep::Hang => None,
    }
}

/// What is to be done for a whole body.
pub enum SpecHandling {
    /// One request, one step.
    Single(SpecStep),
    /// A batch: one step per request, in request order.
    Batch(Seq<SpecStep>),
}

/// What is to be done for a parsed body: an array is a batch, anything else one request.
pub open spec fn handling_for(stage: Stage, body: SpecJson) -> SpecHandling {
    match body {
        SpecJson::Array(reqs) => SpecHandling::Batch(
            Seq::new(reqs.len(), |i: int| step_for(stage, reqs[i])),
        ),
        _ => SpecHandling::Single(step_for(stage, body)),
    }
}

/// The bodies a stage serves without failing: each request of a batch, or the one request.
pub open spec fn body_acceptable(stage: Stage, body: SpecJson) -> bool {
    match body {
        SpecJson::Array(reqs) => forall|i: int| 0 <= i < reqs.len() ==> acceptable(stage, #[trigger] reqs[i]),
        _ => acceptable(stage, body),
    }
}

/// What is to be done for one request.
#[derive(Debug, PartialEq)]
pub enum Step {
    Reply(Json),
    Sleep { ms: u64, reply: Json },
    Hang,
}

impl View for Step {
    type V = SpecStep;

    open spec fn view(&self) -> SpecStep {
        match self {
            Step::Reply(r) => SpecStep::Reply(r@),
            Step::Sleep { ms, reply } => SpecStep::Sleep(*ms, reply@),
            Step::Hang => SpecStep::Hang,
        }
    }
}

/// What is to be done for a whole body.
#[derive(Debug, PartialEq)]
pub enum Handling {
    Single(Step),
    Batch(Vec<Step>),
}

impl View for Handling {
    type V = SpecHandling;

    open spec fn view(&self) -> SpecHandling {
        match self {
            Handling::Single(s) => SpecHandling::Single(s@),
            Handling::Batch(steps) => SpecHandling::Batch(steps@.map_values(|s: Step| s@)),
        }
    }
}

/// Builds `{"id": id, "jsonrpc": "2.0", "result": result}`.
pub fn result_reply(id: Json, result: Json) -> (r: Json)
    ensures
        r@ == result_envelope(id@, result@),
{
    let mut entries: Vec<(String, Json)> = Vec::new();
    entries.push((String::from_str("id"), id));
    entries.push((String::from_str("jsonrpc"), Json::text("2.0")));
    entries.push((String::from_str("result"), result));
    let r = Json::Object(entries);
    assert(r@->Object_0 =~= result_envelope(id@, result@)->Object_0);
    r
}

/// Builds `{"error": {"code": code, "message": message}, "id": id, "jsonrpc": "2.0"}`.
pub fn error_reply(id: Json, code: i64, message: String) -> (r: Json)
    ensures
        r@ == error_envelope(id@, code, message@),
{
    let code_value = Json::from_i64(code);
    let message_value = Json::Str(message);
    let mut inner: Vec<(String, Json)> = Vec::new();
    inner.push((String::from_str("code"), code_value));
    inner.push((String::from_str("message"), message_value));
    assert(inner@[0].1@ == SpecJson::Number(number_of_i64(code)));
    assert(inner@[1].1@ == SpecJson::Str(message@));
    let error = Json::Object(inner);
    assert(error@->Object_0.len() == 2);
    assert(error@->Object_0[0] == ("code"@, SpecJson::Number(number_of_i64(code))));
    let ghost expected = error_envelope(id@, code, message@);
    let ghost fields = seq![
        ("code"@, SpecJson::Number(number_of_i64(code))),
        ("message"@, SpecJson::Str(message@)),
    ];
    assert(error@->Object_0 =~= fields);
    assert(expected->Object_0[0].1 == SpecJson::Object(fields));
    let mut entries: Vec<(String, Json)> = Vec::new();
    entries.push((String::from_str("error"), error));
    entries.push((String::from_str("id"), id));
    entries.push((String::from_str("jsonrpc"), Json::text("2.0")));
    let r = Json::Object(entries);
    assert(r@->Object_0 =~= expected->Object_0);
    r
}

/// The reply to a body that does not parse as JSON.
pub fn parse_error_reply() -> (r: Json)
    ensures
        r@ == parse_error_envelope(),
{
    error_reply(Json::Null, -32700, String::from_str("Parse error"))
}

/// The text a `slow` request answers after `ms` milliseconds.
pub fn slept_message(ms: u64) -> (s: String)
    ensures
        s@ == slept_text(ms),
{
    let mut s = String::from_str("slept ");
    push_decimal(&mut s, ms);
    s.append("ms");
    s
}

/// The parameter at position `i` of a request, where it has one.
fn param_at(req: &Json, i: usize) -> (r: Option<&Json>)
    ensures
        match r {
            Some(v) => v@ == param(req@, i as int),
            None => param(req@, i as int) == SpecJson::Null,
        },
{
    match req.get("params") {
        Some(p) => p.item(i),
        None => None,
    }
}

/// Dispatches one request: what is to be done and the reply it ends in.
pub fn process(stage: Stage, req: &Json) -> (s: Step)
    requires
        acceptable(stage, req@),
    ensures
        s@ == step_for(stage, req@),
{
    let id = match req.get("id") {
        Some(v) => v.deep_copy(),
        None => Json::Null,
    };
    let method: &str = match req.get("method") {
        Some(v) => match v.as_str() {
            Some(m) => m,
            None => "",
        },
        None => "",
    };
    proof {
        reveal_strlit("");
    }
    assert(method@ == method_of(req@));
    let first = param_at(req, 0);
    let second = param_at(req, 1);
    if same_text(method, "add") {
        let a = first.unwrap().as_i64().unwrap();
        let b = second.unwrap().as_i64().unwrap();
        Step::Reply(result_reply(id, Json::from_i64(a + b)))
    } else if same_text(method, "echo") {
        let value = match first {
            Some(v) => v.deep_copy(),
            None => Json::Null,
        };
        Step::Reply(result_reply(id, value))
    } else if same_text(method, "whoami") {
        let name = match stage {
            Stage::Timeouts => Json::text("server v5"),
            _ => Json::text("server v3"),
        };
        Step::Reply(result_reply(id, name))
    } else if same_text(method, "slow") {
        let ms = first.unwrap().as_u64().unwrap();
        Step::Sleep { ms, reply: result_reply(id, Json::Str(slept_message(ms))) }
    } else if stage == Stage::Timeouts && same_text(method, "hang") {
        Step::Hang
    } else if stage != Stage::Batching && same_text(method, "bad") {
        Step::Reply(error_reply(id, -32603, String::from_str("intentional failure")))
    } else if stage != Stage::Batching {
        let mut message = String::from_str("Method not found: ");
        message.append(method);
        Step::Reply(error_reply(id, -32601, message))
    } else {
        Step::Reply(result_reply(id, Json::Null))
    }
}

/// Whether a stage serves a request without failing.
pub fn accepts(stage: Stage, req: &Json) -> (ok: bool)
    ensures
        ok == acceptable(stage, req@),
{
    let text: Option<&str> = match req.get("method") {
        Some(v) => v.as_str(),
        None => None,
    };
    let method: &str = match text {
        Some(m) => m,
        None => "",
    };
    proof {
        reveal_strlit("");
    }
    assert(method@ == method_of(req@));
    if stage == Stage::Batching && text.is_none() {
        return false;
    }
    if same_text(method, "add") {
        proof {
            reveal_strlit("add");
            reveal_strlit("slow");
            assert("add"@.len() != "slow"@.len());
        }
        let a = match param_at(req, 0) {
            Some(v) => v.as_i64(),
            None => None,
        };
        let b = match param_at(req, 1) {
            Some(v) => v.as_i64(),
            None => None,
        };
        match (a, b) {
            (Some(x), Some(y)) => x.checked_add(y).is_some(),
            _ => false,
        }
    } else if same_text(method, "slow") {
        match param_at(req, 0) {
            Some(v) => v.as_u64().is_some(),
            None => false,
        }
    } else {
        true
    }
}

/// Whether a stage serves a parsed body without failing.
pub fn body_accepts(stage: Stage, body: &Json) -> (ok: bool)
    ensures
        ok == body_acceptable(stage, body@),
{
    match body {
        Json::Array(reqs) => {
            let mut i: usize = 0;
            while i < reqs.len()
                invariant
                    i <= reqs.len(),
                    body@ == model(body),
                    *body == Json::Array(*reqs),
                    forall|k: int| 0 <= k < i ==> acceptable(stage, #[trigger] body@->Array_0[k]),
                decreases reqs.len() - i,
            {
                assert(body@->Array_0[i as int] == reqs@[i as int]@);
                if !accepts(stage, &reqs[i]) {
                    return false;
                }
                i = i + 1;
            }
            true
        },
        _ => accepts(stage, body),
    }
}

/// Dispatches a parsed body: an array is a batch whose requests are
/// dispatched one by one, in order; anything else is one request.
#[verifier::loop_isolation(false)]
pub fn handle(stage: Stage, body: &Json) -> (h: Handling)
    requires
        body_acceptable(stage, body@),
    ensures
        h@ == handling_for(stage, body@),
{
    match body {
        Json::Array(reqs) => {
            let mut steps: Vec<Step> = Vec::new();
            let mut i: usize = 0;
            while i < reqs.len()
                invariant
                    i <= reqs.len(),
                    steps.len() == i,
                    forall|k: int| 0 <= k < i ==> #[trigger] steps@[k]@ == step_for(stage, reqs@[k]@),
                decreases reqs.len() - i,
            {
                assert(body@->Array_0[i as int] == reqs@[i as int]@);
                let step = process(stage, &reqs[i]);
                steps.push(step);
                i = i + 1;
            }
            let h = Handling::Batch(steps);
            assert(h@->Batch_0 =~= handling_for(stage, body@)->Batch_0);
            h
        },
        _ => Handling::Single(process(stage, body)),
    }
}

/// Dispatches a request body at a stage that answers unparsable bodies:
/// `None` stands for a body that is not JSON.
pub fn handle_body(stage: Stage, parsed: Option<Json>) -> (h: Handling)
    requires
        stage.reports_errors(),
        parsed matches Some(body) ==> body_acceptable(stage, body@),
    ensures
        match parsed {
            Some(body) => h@ == handling_for(stage, body@),
            None => h@ == SpecHandling::Single(SpecStep::Reply(parse_error_envelope())),
        },
{
    match parsed {
        Some(body) => handle(stage, &body),
        None => Handling::Single(Step::Reply(parse_error_reply())),
    }
}

/// Dispatches a raw request body at a stage that answers unparsable bodies:
/// a text that is not JSON is answered with the parse error; a JSON body is
/// dispatched as `handle` does. `None` where the stage cannot serve the body
/// (the requests on which dispatch would fail).
pub fn handle_text(stage: Stage, text: &str) -> (h: Option<Handling>)
    requires
        stage.reports_errors(),
    ensures
        match json_of_text(text@) {
            None => h matches Some(x) && x@ == SpecHandling::Single(SpecStep::Reply(parse_error_envelope())),
            Some(body) => {
                &&& (h is Some <==> body_acceptable(stage, body))
                &&& (h matches Some(x) ==> x@ == handling_for(stage, body))
                &&& (h matches Some(x) ==> x@ != SpecHandling::Single(SpecStep::Reply(parse_error_envelope())))
            },
        },
{
    proof {
        if let Some(body) = json_of_text(text@) {
            if !(body is Array) {
                lemma_request_never_answered_as_unparsable(stage, body);
            }
        }
    }
    let parsed = parse_json(text);
    match parsed {
        Some(body) => {
            if body_accepts(stage, &body) {
                Some(handle_body(stage, Some(body)))
            } else {
                None
            }
        },
        None => Some(handle_body(stage, None)),
    }
}

/// The replies of a batch, taken in the given order of request positions.
pub open spec fn batch_replies(steps: Seq<SpecStep>, order: Seq<usize>) -> Seq<SpecJson> {
    Seq::new(order.len(), |k: int| reply_of(steps[order[k] as int]).unwrap())
}

/// Whether position `i` is listed in `order`.
pub open spec fn listed_in(order: Seq<usize>, i: int) -> bool {
    exists|k: int| 0 <= k < order.len() && #[trigger] order[k] == i
}

/// Whether `order` lists each of the positions `0..n` exactly once.
pub open spec fn is_permutation(order: Seq<usize>, n: nat) -> bool {
    &&& order.len() == n
    &&& forall|k: int| 0 <= k < order.len() ==> #[trigger] order[k] < n
    &&& order.no_duplicates()
}

impl Step {
    /// The reply a step ends in.
    pub fn reply(&self) -> (r: &Json)
        requires
            !(self@ is Hang),
        ensures
            reply_of(self@) == Some(r@),
    {
        match self {
            Step::Reply(r) => r,
            Step::Sleep { reply, .. } => reply,
            Step::Hang => vstd::pervasive::unreached(),
        }
    }

    /// How long to wait before replying.
    pub fn delay_ms(&self) -> (ms: u64)
        ensures
            ms == match self@ {
                SpecStep::Sleep(ms, _) => ms,
                _ => 0,
            },
    {
        match self {
            Step::Sleep { ms, .. } => *ms,
            _ => 0,
        }
    }
}

/// The body of a batch response: the replies of the steps at the positions in
/// `order` (the order in which the requests finished), in that order.
pub fn batch_reply(steps: &Vec<Step>, order: &Vec<usize>) -> (r: Json)
    requires
        is_permutation(order@, steps.len() as nat),
        forall|i: int| 0 <= i < steps.len() ==> !(#[trigger] steps@[i]@ is Hang),
    ensures
        r@ == SpecJson::Array(batch_replies(steps@.map_values(|s: Step| s@), order@)),
{
    let mut out: Vec<Json> = Vec::new();
    let mut k: usize = 0;
    while k < order.len()
        invariant
            k <= order.len(),
            out.len() == k,
            is_permutation(order@, steps.len() as nat),
            forall|i: int| 0 <= i < steps.len() ==> !(#[trigger] steps@[i]@ is Hang),
            forall|j: int|
                0 <= j < k ==> Some(#[trigger] out@[j]@) == reply_of(steps@[order@[j] as int]@),
        decreases order.len() - k,
    {
        let reply = steps[order[k]].reply().deep_copy();
        out.push(reply);
        k = k + 1;
    }
    let r = Json::Array(out);
    let ghost expected = batch_replies(steps@.map_values(|s: Step| s@), order@);
    assert forall|j: int| 0 <= j < order.len() implies r@->Array_0[j] == expected[j] by {
        assert(Some(out@[j]@) == reply_of(steps@[order@[j] as int]@));
    }
    assert(r@->Array_0 =~= expected);
    r
}

/// The keys of the envelopes are distinct texts.
proof fn lemma_envelope_keys()
    ensures
        "id"@ != "jsonrpc"@,
        "id"@ != "result"@,
        "id"@ != "error"@,
        "jsonrpc"@ != "result"@,
        "jsonrpc"@ != "error"@,
        "result"@ != "error"@,
        "code"@ != "message"@,
{
    reveal_strlit("id");
    reveal_strlit("jsonrpc");
    reveal_strlit("result");
    reveal_strlit("error");
    reveal_strlit("code");
    reveal_strlit("message");
    assert("id"@.len() != "jsonrpc"@.len());
    assert("id"@.len() != "result"@.len());
    assert("id"@.len() != "error"@.len());
    assert("jsonrpc"@.len() != "result"@.len());
    assert("jsonrpc"@.len() != "error"@.len());
    assert("result"@[0] != "error"@[0]);
    assert("code"@.len() != "message"@.len());
}

/// The method names are distinct texts.
proof fn lemma_method_names()
    ensures
        "hang"@ != "add"@,
        "hang"@ != "echo"@,
        "hang"@ != "whoami"@,
        "hang"@ != "slow"@,
        "bad"@ != "add"@,
        "bad"@ != "echo"@,
        "bad"@ != "whoami"@,
        "bad"@ != "slow"@,
        "bad"@ != "hang"@,
        "add"@ != "echo"@,
        "add"@ != "whoami"@,
        "add"@ != "slow"@,
        "echo"@ != "whoami"@,
        "echo"@ != "slow"@,
        "whoami"@ != "slow"@,
{
    reveal_strlit("hang");
    reveal_strlit("add");
    reveal_strlit("echo");
    reveal_strlit("whoami");
    reveal_strlit("slow");
    reveal_strlit("bad");
    assert("hang"@.len() != "add"@.len());
    assert("hang"@[0] != "echo"@[0]);
    assert("hang"@.len() != "whoami"@.len());
    assert("hang"@[0] != "slow"@[0]);
    assert("bad"@[0] != "add"@[0]);
    assert("bad"@.len() != "echo"@.len());
    assert("bad"@.len() != "whoami"@.len());
    assert("bad"@.len() != "slow"@.len());
    assert("bad"@.len() != "hang"@.len());
    assert("add"@.len() != "echo"@.len());
    assert("add"@.len() != "whoami"@.len());
    assert("add"@.len() != "slow"@.len());
    assert("echo"@.len() != "whoami"@.len());
    assert("echo"@[0] != "slow"@[0]);
    assert("whoami"@.len() != "slow"@.len());
}

/// What can be read back out of a result envelope.
pub proof fn lemma_result_envelope_fields(id: SpecJson, result: SpecJson)
    ensures
        result_envelope(id, result).field("id"@) == id,
        result_envelope(id, result).field("jsonrpc"@) == SpecJson::Str("2.0"@),
        result_envelope(id, result).get("result"@) == Some(result),
        result_envelope(id, result).get("error"@) is None,
{
    lemma_envelope_keys();
    reveal_with_fuel(lookup, 4);
}

/// What can be read back out of an error envelope.
pub proof fn lemma_error_envelope_fields(id: SpecJson, code: i64, message: Seq<char>)
    ensures
        error_envelope(id, code, message).field("id"@) == id,
        error_envelope(id, code, message).field("jsonrpc"@) == SpecJson::Str("2.0"@),
        error_envelope(id, code, message).get("result"@) is None,
        error_envelope(id, code, message).get("error"@) is Some,
        error_envelope(id, code, message).field("error"@).field("code"@) == SpecJson::Number(
            number_of_i64(code),
        ),
        error_envelope(id, code, message).field("error"@).field("message"@) == SpecJson::Str(
            message,
        ),
{
    lemma_envelope_keys();
    reveal_with_fuel(lookup, 4);
}

/// Every reply answers in JSON-RPC 2.0 with the id of its request, and holds
/// either a result or an error, never both; an error is there exactly when the
/// stage reports the request as failed. Only a `hang` request of the last
/// stage goes unanswered.
pub proof fn lemma_reply_matches_request(stage: Stage, req: SpecJson)
    ensures
        reply_of(step_for(stage, req)) matches Some(r) ==> {
            &&& r.field("id"@) == req.field("id"@)
            &&& r.field("jsonrpc"@) == SpecJson::Str("2.0"@)
            &&& (r.get("result"@) is Some) != (r.get("error"@) is Some)
            &&& (r.get("error"@) is Some) == (outcome(stage, req) is Failure)
        },
        (step_for(stage, req) is Hang) == (stage is Timeouts && method_of(req) == "hang"@),
{
    let id = req.field("id"@);
    lemma_method_names();
    match outcome(stage, req) {
        Outcome::Value(r) => lemma_result_envelope_fields(id, r),
        Outcome::After(_, r) => lemma_result_envelope_fields(id, r),
        Outcome::Failure(code, message) => {
            lemma_error_envelope_fields(id, code, message);
            lemma_envelope_keys();
            reveal_with_fuel(lookup, 4);
        },
        Outcome::Never => {},
    }
}

/// A batch whose requests all finish is answered once per request: whatever
/// order they finish in, each request's reply stands exactly once in the
/// response, and the reply at each place carries the id of the request it answers.
pub proof fn lemma_batch_answers_each_request_once(
    stage: Stage,
    reqs: Seq<SpecJson>,
    order: Seq<usize>,
)
    requires
        is_permutation(order, reqs.len()),
        forall|i: int| 0 <= i < reqs.len() ==> !(step_for(stage, #[trigger] reqs[i]) is Hang),
    ensures
        ({
            let steps = handling_for(stage, SpecJson::Array(reqs))->Batch_0;
            let replies = batch_replies(steps, order);
            &&& replies.len() == reqs.len()
            &&& forall|k: int|
                0 <= k < replies.len() ==> (#[trigger] replies[k]).field("id"@) == reqs[order[k] as int].field("id"@)
            &&& forall|i: int| 0 <= i < reqs.len() ==> #[trigger] listed_in(order, i)
            &&& forall|k1: int, k2: int|
                0 <= k1 < order.len() && 0 <= k2 < order.len() && #[trigger] order[k1] == #[trigger] order[k2] ==> k1 == k2
        }),
{
    let n = reqs.len();
    let steps = handling_for(stage, SpecJson::Array(reqs))->Batch_0;
    let replies = batch_replies(steps, order);
    assert forall|k: int| 0 <= k < replies.len() implies (#[trigger] replies[k]).field("id"@) == reqs[order[k] as int].field("id"@) by {
        let i = order[k] as int;
        assert(steps[i] == step_for(stage, reqs[i]));
        lemma_reply_matches_request(stage, reqs[i]);
    }
    // Each position 0..n is listed: the listed positions are n distinct values below n.
    let listed = order.map_values(|x: usize| x as int);
    assert(listed.no_duplicates()) by {
        assert forall|a: int, b: int| 0 <= a < listed.len() && 0 <= b < listed.len() && a != b implies listed[a] != listed[b] by {
            assert(order[a] != order[b]);
        }
    }
    listed.unique_seq_to_set();
    let all = vstd::set_lib::set_int_range(0, n as int);
    vstd::set_lib::lemma_int_range(0, n as int);
    assert(listed.to_set().subset_of(all)) by {
        assert forall|x: int| listed.to_set().contains(x) implies all.contains(x) by {
            let k = choose|k: int| 0 <= k < listed.len() && listed[k] == x;
            assert(order[k] < n);
        }
    }
    vstd::seq_lib::seq_to_set_is_finite(listed);
    vstd::set_lib::lemma_subset_equality(listed.to_set(), all);
    assert forall|i: int| 0 <= i < n implies #[trigger] listed_in(order, i) by {
        assert(all.contains(i));
        assert(listed.to_set().contains(i));
        let k = choose|k: int| 0 <= k < listed.len() && listed[k] == i;
        assert(order[k] == i);
    }
}

/// A request that is JSON is never answered with the reply to a body that is not JSON.
pub proof fn lemma_request_never_answered_as_unparsable(stage: Stage, req: SpecJson)
    ensures
        reply_of(step_for(stage, req)) != Some(parse_error_envelope()),
{
    lemma_envelope_keys();
    let id = req.field("id"@);
    let p = parse_error_envelope();
    match outcome(stage, req) {
        Outcome::Value(r) => {
            assert(result_envelope(id, r)->Object_0[0].0 != p->Object_0[0].0);
        },
        Outcome::After(_, r) => {
            assert(result_envelope(id, r)->Object_0[0].0 != p->Object_0[0].0);
        },
        Outcome::Failure(code, message) => {
            let e = error_envelope(id, code, message);
            assert(code != -32700i64);
            assert(e->Object_0[0].1->Object_0[0].1 != p->Object_0[0].1->Object_0[0].1);
        },
        Outcome::Never => {},
    }
}

/// Whether a method name is one that some stage serves.
pub open spec fn is_known_method(m: Seq<char>) -> bool {
    m == "add"@ || m == "echo"@ || m == "whoami"@ || m == "slow"@ || m == "hang"@ || m == "bad"@
}

/// What each method is answered with, request by request, in the envelope
/// that carries the request's id:
/// - `add` answers the sum of its two integer parameters;
/// - `echo` answers its first parameter (null where there is none);
/// - `whoami` answers "server v5" at the last stage and "server v3" before it;
/// - `slow` waits its parameter in milliseconds, then answers "slept " followed
///   by the decimal digits of that number and "ms";
/// - `hang` never answers at the last stage;
/// - `bad` fails with -32603 "intentional failure" at every stage that reports errors;
/// - any other method (and `hang` before the last stage) fails with -32601
///   "Method not found: " followed by its name at every stage that reports
///   errors; the first stage answers it with a null result.
pub proof fn lemma_dispatch_table(stage: Stage, req: SpecJson)
    requires
        acceptable(stage, req),
    ensures
        ({
            let id = req.field("id"@);
            let m = method_of(req);
            &&& m == "add"@ ==> step_for(stage, req) == SpecStep::Reply(
                result_envelope(
                    id,
                    SpecJson::Number(
                        number_of_i64(
                            (param(req, 0).as_i64().unwrap() + param(req, 1).as_i64().unwrap()) as i64,
                        ),
                    ),
                ),
            )
            &&& m == "echo"@ ==> step_for(stage, req) == SpecStep::Reply(result_envelope(id, param(req, 0)))
            &&& m == "whoami"@ && stage is Timeouts ==> step_for(stage, req) == SpecStep::Reply(
                result_envelope(id, SpecJson::Str("server v5"@)),
            )
            &&& m == "whoami"@ && !(stage is Timeouts) ==> step_for(stage, req) == SpecStep::Reply(
                result_envelope(id, SpecJson::Str("server v3"@)),
            )
            &&& m == "slow"@ ==> step_for(stage, req) == SpecStep::Sleep(
                param(req, 0).as_u64().unwrap(),
                result_envelope(
                    id,
                    SpecJson::Str("slept "@ + decimal(param(req, 0).as_u64().unwrap() as nat) + "ms"@),
                ),
            )
            &&& m == "hang"@ && stage is Timeouts ==> step_for(stage, req) == SpecStep::Hang
            &&& m == "bad"@ && stage.reports_errors() ==> step_for(stage, req) == SpecStep::Reply(
                error_envelope(id, -32603i64, "intentional failure"@),
            )
            &&& (!is_known_method(m) || (m == "hang"@ && stage is Errors)) && stage.reports_errors()
                ==> step_for(stage, req) == SpecStep::Reply(
                error_envelope(id, -32601i64, "Method not found: "@ + m),
            )
            &&& (!is_known_method(m) || m == "hang"@ || m == "bad"@) && stage is Batching
                ==> step_for(stage, req) == SpecStep::Reply(result_envelope(id, SpecJson::Null))
        }),
{
    lemma_method_names();
}

/// A stage serves exactly the requests on which dispatch does not fail: at the
/// first stage the method must be a string; `add` needs two integer
/// parameters whose sum fits in an `i64` (any such pair, negative sums
/// included); `slow` needs a non-negative integer; every other request is served.
pub proof fn lemma_acceptable_exactly(stage: Stage, req: SpecJson)
    ensures
        acceptable(stage, req) <==> {
            &&& stage is Batching ==> req.field("method"@).as_str() is Some
            &&& method_of(req) == "add"@ ==> match (param(req, 0).as_i64(), param(req, 1).as_i64()) {
                (Some(a), Some(b)) => i64::MIN <= a + b <= i64::MAX,
                _ => false,
            }
            &&& method_of(req) == "slow"@ ==> param(req, 0).as_u64() is Some
        },
{
}

/// The reply to a body that is not JSON has a null id and error -32700
/// "Parse error", and no result.
pub proof fn lemma_parse_error_reply()
    ensures
        parse_error_envelope().field("id"@) == SpecJson::Null,
        parse_error_envelope().field("jsonrpc"@) == SpecJson::Str("2.0"@),
        parse_error_envelope().field("error"@).field("code"@) == SpecJson::Number(Number::NegInt(-32700i64)),
        parse_error_envelope().field("error"@).field("message"@) == SpecJson::Str("Parse error"@),
        parse_error_envelope().get("result"@) is None,
{
    lemma_error_envelope_fields(SpecJson::Null, -32700i64, "Parse error"@);
}

/// A body that is an array is a batch with one step per request, each the
/// step that request gets alone, in request order, served when every request
/// is; any other body is one request.
pub proof fn lemma_handling_shape(stage: Stage, body: SpecJson)
    ensures
        body matches SpecJson::Array(reqs) ==> {
            &&& handling_for(stage, body) is Batch
            &&& handling_for(stage, body)->Batch_0.len() == reqs.len()
            &&& forall|i: int| 0 <= i < reqs.len() ==> #[trigger] handling_for(stage, body)->Batch_0[i]
                == step_for(stage, reqs[i])
        },
        !(body is Array) ==> handling_for(stage, body) == SpecHandling::Single(step_for(stage, body)),
        body matches SpecJson::Array(reqs) ==> (body_acceptable(stage, body) <==> forall|i: int|
            0 <= i < reqs.len() ==> acceptable(stage, #[trigger] reqs[i])),
        !(body is Array) ==> (body_acceptable(stage, body) <==> acceptable(stage, body)),
{
}

} // verus!
