//! The echo servers: the plain-text echo of a request body read in chunks,
//! and the JSON echo that wraps a request in a reply object.
use vstd::prelude::*;
use crate::json::{Json, SpecJson};

verus! {

/// The text that `String::from_utf8_lossy` makes of `bytes`.
pub uninterp spec fn utf8_lossy(bytes: Seq<u8>) -> Seq<char>;

/// Whether every byte is an ASCII byte.
pub open spec fn all_ascii(bytes: Seq<u8>) -> bool {
    forall|i: int| 0 <= i < bytes.len() ==> #[trigger] bytes[i] < 128
}

/// The characters whose codes are the given ASCII bytes.
pub open spec fn ascii_text(bytes: Seq<u8>) -> Seq<char> {
    bytes.map_values(|b: u8| b as char)
}

/// Decodes bytes as UTF-8 by std's `String::from_utf8_lossy`, each invalid
/// sequence becoming U+FFFD. Claimed of it: the text is `utf8_lossy` of the
/// bytes, and bytes that are all ASCII (valid UTF-8, which comes back as it
/// is) give the characters with those codes.
#[verifier::external_body]
fn decode_lossy(bytes: &[u8]) -> (s: String)
    ensures
        s@ == utf8_lossy(bytes@),
        all_ascii(bytes@) ==> s@ == ascii_text(bytes@),
{
    String::from_utf8_lossy(bytes).into_owned()
}

/// The chunks of a body, one after the other.
pub open spec fn joined(chunks: Seq<Seq<u8>>) -> Seq<u8>
    decreases chunks.len(),
{
    if chunks.len() == 0 {
        Seq::empty()
    } else {
        joined(chunks.drop_last()) + chunks.last()
    }
}

/// The text of a body read in chunks, each chunk decoded on its own.
pub open spec fn body_text(chunks: Seq<Seq<u8>>) -> Seq<char>
    decreases chunks.len(),
{
    if chunks.len() == 0 {
        Seq::empty()
    } else {
        body_text(chunks.drop_last()) + utf8_lossy(chunks.last())
    }
}

/// The byte contents of the chunks.
pub open spec fn chunk_bytes(chunks: Seq<Vec<u8>>) -> Seq<Seq<u8>> {
    chunks.map_values(|c: Vec<u8>| c@)
}

/// The text of a request body that arrived in `chunks`: each chunk decoded
/// lossily on its own, the texts joined in order. A body of ASCII bytes comes
/// out as those characters, however it was split.
pub fn collect_body(chunks: &Vec<Vec<u8>>) -> (body: String)
    ensures
        body@ == body_text(chunk_bytes(chunks@)),
        (forall|i: int| 0 <= i < chunks.len() ==> all_ascii(#[trigger] chunks@[i]@)) ==> body@
            == ascii_text(joined(chunk_bytes(chunks@))),
{
    let ghost cs = chunk_bytes(chunks@);
    let mut body = String::new();
    let mut i: usize = 0;
    while i < chunks.len()
        invariant
            i <= chunks.len(),
            cs == chunk_bytes(chunks@),
            body@ == body_text(cs.take(i as int)),
            (forall|j: int| 0 <= j < chunks.len() ==> all_ascii(#[trigger] chunks@[j]@)) ==> body@
                == ascii_text(joined(cs.take(i as int))),
        decreases chunks.len() - i,
    {
        let text = decode_lossy(chunks[i].as_slice());
        body.append(text.as_str());
        proof {
            let prefix = cs.take(i + 1);
            assert(prefix.drop_last() =~= cs.take(i as int));
            assert(prefix.last() == chunks@[i as int]@);
            if forall|j: int| 0 <= j < chunks.len() ==> all_ascii(#[trigger] chunks@[j]@) {
                assert(all_ascii(chunks@[i as int]@));
                assert(ascii_text(joined(prefix)) =~= ascii_text(joined(cs.take(i as int)))
                    + ascii_text(chunks@[i as int]@));
            }
        }
        i = i + 1;
    }
    assert(cs.take(chunks.len() as int) =~= cs);
    body
}

/// The plain-text echo of a body.
pub fn echo_reply(body: &str) -> (reply: String)
    ensures
        reply@ == "echo: "@ + body@,
{
    let mut reply = String::from_str("echo: ");
    reply.append(body);
    reply
}

/// The JSON echo of a request: `{"server": "v2", "you_said": request}`.
pub open spec fn json_echo(request: SpecJson) -> SpecJson {
    SpecJson::Object(seq![("server"@, SpecJson::Str("v2"@)), ("you_said"@, request)])
}

/// Wraps a request in the JSON echo reply.
pub fn echo_json(request: Json) -> (reply: Json)
    ensures
        reply@ == json_echo(request@),
{
    let mut entries: Vec<(String, Json)> = Vec::new();
    entries.push((String::from_str("server"), Json::text("v2")));
    entries.push((String::from_str("you_said"), request));
    let reply = Json::Object(entries);
    assert(reply@->Object_0 =~= json_echo(request@)->Object_0);
    reply
}

/// The JSON echo gives back the request it was sent, under `you_said`.
pub proof fn lemma_json_echo_returns_request(request: SpecJson)
    ensures
        json_echo(request).field("you_said"@) == request,
        json_echo(request).field("server"@) == SpecJson::Str("v2"@),
{
    reveal_strlit("server");
    reveal_strlit("you_said");
    assert("server"@[0] != "you_said"@[0]);
    reveal_with_fuel(crate::json::lookup, 3);
}

/// A body's text is its chunks' decodings, each in the place its chunk
/// arrived: a chunk that arrives last adds its decoding at the end.
pub proof fn lemma_body_text_appends(chunks: Seq<Seq<u8>>, chunk: Seq<u8>)
    ensures
        body_text(chunks.push(chunk)) == body_text(chunks) + utf8_lossy(chunk),
{
    assert(chunks.push(chunk).drop_last() =~= chunks);
}

/// The text of a body is the text of its first chunks followed by the text of
/// the rest: splitting the chunk list anywhere splits the text there; no
/// chunks give no text, and one chunk gives its own decoding.
pub proof fn lemma_body_text_splits(front: Seq<Seq<u8>>, back: Seq<Seq<u8>>)
    ensures
        body_text(front + back) == body_text(front) + body_text(back),
        body_text(Seq::<Seq<u8>>::empty()) == Seq::<char>::empty(),
    decreases back.len(),
{
    if back.len() > 0 {
        lemma_body_text_splits(front, back.drop_last());
        assert((front + back).drop_last() =~= front + back.drop_last());
        assert(body_text(front) + (body_text(back.drop_last()) + utf8_lossy(back.last()))
            =~= (body_text(front) + body_text(back.drop_last())) + utf8_lossy(back.last()));
    } else {
        assert(front + back =~= front);
    }
}

/// One chunk's body is that chunk's decoding.
pub proof fn lemma_body_text_one_chunk(chunk: Seq<u8>)
    ensures
        body_text(seq![chunk]) == utf8_lossy(chunk),
{
    lemma_body_text_appends(Seq::empty(), chunk);
    assert(Seq::<Seq<u8>>::empty().push(chunk) =~= seq![chunk]);
}

} // verus!
