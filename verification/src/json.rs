//! Decoding the JSON payloads the remote API sends: one `StreamChunk`
//! per streaming event line, and one `ChatResponse` for a blocking-mode
//! body.
//!
//! Parsing itself is done by the `serde_json` crate, through one
//! trusted decode from bytes to the library's own document model
//! `JsonValue`; the document a given byte sequence decodes to is named
//! by `spec_json_doc`. Everything after the parse — the schema checks
//! and the construction of the typed values — is verified against spec
//! functions over that model, so each decode result is pinned to the
//! bytes it came from.
use vstd::prelude::*;

use crate::errors::GatewayError;
use crate::model::ChatResponse;
use crate::model::ChatResponseView;
use crate::model::Choice;
use crate::model::ChoiceView;
use crate::model::ResponseMessage;
use crate::model::ResponseMessageView;
use crate::model::StreamChoice;
use crate::model::StreamChoiceView;
use crate::model::StreamChunk;
use crate::model::StreamChunkView;
use crate::model::StreamDelta;
use crate::model::StreamDeltaView;

verus! {

/// The library's model of a decoded JSON document. Numbers the schema
/// can use are unsigned integers; every other number (fractional,
/// negative, too large) is kept only as `OtherNum`, which no schema
/// field accepts — exactly as the typed decode rejects it.
pub enum JsonValue {
    Null,
    Bool(bool),
    UInt(u64),
    OtherNum,
    Str(String),
    Arr(Vec<JsonValue>),
    Obj(Vec<(String, JsonValue)>),
}

#[verifier::external_type_specification]
#[verifier::external_body]
pub struct ExValue(serde_json::Value);

/// The document that a byte sequence decodes to, or nothing when the
/// bytes are not one JSON document. JSON parsing is a function of the
/// bytes alone, so the result carries a name; `json_decode` is the one
/// trusted item that applies it.
pub uninterp spec fn spec_json_doc(bytes: Seq<u8>) -> Option<JsonValue>;

/// Relies on serde_json::Value: one arm per variant of the parsed
/// document, moving its fields into the library's model. A number is
/// kept when `serde_json::Number::as_u64` represents it as `u64`.
#[verifier::external_body]
fn value_to_model(v: serde_json::Value) -> JsonValue {
    match v {
        serde_json::Value::Null => JsonValue::Null,
        serde_json::Value::Bool(b) => JsonValue::Bool(b),
        serde_json::Value::Number(n) => match n.as_u64() {
            Some(u) => JsonValue::UInt(u),
            None => JsonValue::OtherNum,
        },
        serde_json::Value::String(s) => JsonValue::Str(s),
        serde_json::Value::Array(a) => JsonValue::Arr(a.into_iter().map(value_to_model).collect()),
        serde_json::Value::Object(m) => JsonValue::Obj(
            m.into_iter().map(|(k, x)| (k, value_to_model(x))).collect(),
        ),
    }
}

/// Relies on serde_json::from_slice: parses the bytes as one JSON
/// document, deterministically (object entries come out key-sorted),
/// and returns nothing for bytes that are not one. The conversion to
/// the library's model is `value_to_model` above.
#[verifier::external_body]
fn json_decode(bytes: &[u8]) -> (r: Option<JsonValue>)
    ensures
        r == spec_json_doc(bytes@),
{
    match serde_json::from_slice::<serde_json::Value>(bytes) {
        Ok(v) => Some(value_to_model(v)),
        Err(_) => None,
    }
}

/// The value under `key` in an object's field list: the first binding
/// of the key (the decode produces each key once).
pub open spec fn spec_lookup(fields: Seq<(String, JsonValue)>, key: Seq<char>) -> Option<
    JsonValue,
>
    decreases fields.len(),
{
    if fields.len() == 0 {
        None
    } else if fields.first().0@ == key {
        Some(fields.first().1)
    } else {
        spec_lookup(fields.drop_first(), key)
    }
}

/// The value under `key` in a document: nothing unless the document is
/// an object holding the key.
pub open spec fn spec_get(doc: JsonValue, key: Seq<char>) -> Option<JsonValue> {
    match doc {
        JsonValue::Obj(fields) => spec_lookup(fields@, key),
        _ => None,
    }
}

/// A field the schema requires to be a string: its text, or nothing.
pub open spec fn spec_req_string(doc: JsonValue, key: Seq<char>) -> Option<Seq<char>> {
    match spec_get(doc, key) {
        Some(JsonValue::Str(s)) => Some(s@),
        _ => None,
    }
}

/// A field the schema requires to be an unsigned integer.
pub open spec fn spec_req_u64(doc: JsonValue, key: Seq<char>) -> Option<u64> {
    match spec_get(doc, key) {
        Some(JsonValue::UInt(u)) => Some(u),
        _ => None,
    }
}

/// A field the schema allows to be absent or null: `None` is a schema
/// mismatch (present, neither null nor a string), `Some(None)` an
/// absent or null field, `Some(Some(..))` its text.
pub open spec fn spec_opt_string(doc: JsonValue, key: Seq<char>) -> Option<Option<Seq<char>>> {
    match spec_get(doc, key) {
        None => Some(None),
        Some(JsonValue::Null) => Some(None),
        Some(JsonValue::Str(s)) => Some(Some(s@)),
        Some(_) => None,
    }
}

/// A choice index: required, integral, and small enough for `u32`.
pub open spec fn spec_req_index(doc: JsonValue, key: Seq<char>) -> Option<u32> {
    match spec_req_u64(doc, key) {
        Some(x) => if x <= 0xffff_ffffu64 {
            Some(x as u32)
        } else {
            None
        },
        None => None,
    }
}

/// One streaming choice: a required index, a required `delta` object
/// with optional string fields, and an optional finish reason.
pub open spec fn spec_stream_choice_of(doc: JsonValue) -> Option<StreamChoiceView> {
    match spec_req_index(doc, "index"@) {
        None => None,
        Some(index) => match spec_get(doc, "delta"@) {
            None => None,
            Some(delta_doc) => if !(delta_doc is Obj) {
                None
            } else {
                match spec_opt_string(delta_doc, "role"@) {
                    None => None,
                    Some(role) => match spec_opt_string(delta_doc, "content"@) {
                        None => None,
                        Some(content) => match spec_opt_string(delta_doc, "reasoning_content"@) {
                            None => None,
                            Some(reasoning_content) => match spec_opt_string(
                                doc,
                                "finish_reason"@,
                            ) {
                                None => None,
                                Some(finish_reason) => Some(
                                    StreamChoiceView {
                                        index,
                                        delta: StreamDeltaView {
                                            role,
                                            content,
                                            reasoning_content,
                                        },
                                        finish_reason,
                                    },
                                ),
                            },
                        },
                    },
                }
            },
        },
    }
}

/// All streaming choices of an array, in order; nothing if any element
/// mismatches the schema.
pub open spec fn spec_stream_choices_of(arr: Seq<JsonValue>) -> Option<Seq<StreamChoiceView>>
    decreases arr.len(),
{
    if arr.len() == 0 {
        Some(Seq::<StreamChoiceView>::empty())
    } else {
        match spec_stream_choice_of(arr.first()) {
            None => None,
            Some(cv) => match spec_stream_choices_of(arr.drop_first()) {
                None => None,
                Some(rest) => Some(seq![cv] + rest),
            },
        }
    }
}

/// The streaming-event schema over a decoded document.
pub open spec fn spec_stream_chunk_of(doc: JsonValue) -> Option<StreamChunkView> {
    match spec_req_string(doc, "id"@) {
        None => None,
        Some(id) => match spec_req_string(doc, "object"@) {
            None => None,
            Some(object) => match spec_req_u64(doc, "created"@) {
                None => None,
                Some(created) => match spec_req_string(doc, "model"@) {
                    None => None,
                    Some(model) => match spec_get(doc, "choices"@) {
                        Some(JsonValue::Arr(arr)) => match spec_stream_choices_of(arr@) {
                            None => None,
                            Some(choices) => Some(
                                StreamChunkView { id, object, created, model, choices },
                            ),
                        },
                        _ => None,
                    },
                },
            },
        },
    }
}

/// What a streaming event payload decodes to: the chunk its bytes
/// describe, or nothing when they are not JSON or mismatch the schema.
pub open spec fn spec_stream_chunk(payload: Seq<u8>) -> Option<StreamChunkView> {
    match spec_json_doc(payload) {
        None => None,
        Some(doc) => spec_stream_chunk_of(doc),
    }
}

/// One blocking-mode choice: a required index, a required `message`
/// object, and an optional finish reason.
pub open spec fn spec_choice_of(doc: JsonValue) -> Option<ChoiceView> {
    match spec_req_index(doc, "index"@) {
        None => None,
        Some(index) => match spec_get(doc, "message"@) {
            None => None,
            Some(message_doc) => match spec_req_string(message_doc, "role"@) {
                None => None,
                Some(role) => match spec_req_string(message_doc, "content"@) {
                    None => None,
                    Some(content) => match spec_opt_string(message_doc, "reasoning_content"@) {
                        None => None,
                        Some(reasoning_content) => match spec_opt_string(
                            doc,
                            "finish_reason"@,
                        ) {
                            None => None,
                            Some(finish_reason) => Some(
                                ChoiceView {
                                    index,
                                    message: ResponseMessageView {
                                        role,
                                        content,
                                        reasoning_content,
                                    },
                                    finish_reason,
                                },
                            ),
                        },
                    },
                },
            },
        },
    }
}

/// All blocking-mode choices of an array, in order; nothing if any
/// element mismatches the schema.
pub open spec fn spec_choices_of(arr: Seq<JsonValue>) -> Option<Seq<ChoiceView>>
    decreases arr.len(),
{
    if arr.len() == 0 {
        Some(Seq::<ChoiceView>::empty())
    } else {
        match spec_choice_of(arr.first()) {
            None => None,
            Some(cv) => match spec_choices_of(arr.drop_first()) {
                None => None,
                Some(rest) => Some(seq![cv] + rest),
            },
        }
    }
}

/// The blocking-response schema over a decoded document.
pub open spec fn spec_chat_response_of(doc: JsonValue) -> Option<ChatResponseView> {
    match spec_req_string(doc, "id"@) {
        None => None,
        Some(id) => match spec_req_string(doc, "object"@) {
            None => None,
            Some(object) => match spec_req_u64(doc, "created"@) {
                None => None,
                Some(created) => match spec_req_string(doc, "model"@) {
                    None => None,
                    Some(model) => match spec_get(doc, "choices"@) {
                        Some(JsonValue::Arr(arr)) => match spec_choices_of(arr@) {
                            None => None,
                            Some(choices) => Some(
                                ChatResponseView { id, object, created, model, choices },
                            ),
                        },
                        _ => None,
                    },
                },
            },
        },
    }
}

/// What a blocking-mode body decodes to: the response its bytes
/// describe, or nothing when they are not JSON or mismatch the schema.
pub open spec fn spec_chat_response(body: Seq<u8>) -> Option<ChatResponseView> {
    match spec_json_doc(body) {
        None => None,
        Some(doc) => spec_chat_response_of(doc),
    }
}

/// Looks a key up in a document, as `spec_get` says.
#[verifier::loop_isolation(false)]
fn doc_get<'a>(doc: &'a JsonValue, key: &str) -> (r: Option<&'a JsonValue>)
    ensures
        r is Some <==> spec_get(*doc, key@) is Some,
        r matches Some(v) ==> spec_get(*doc, key@) == Some(*v),
{
    match doc {
        JsonValue::Obj(fields) => {
            let needle = String::from_str(key);
            let mut i: usize = 0;
            proof {
                assert(fields@.skip(0) =~= fields@);
            }
            while i < fields.len()
                invariant
                    i <= fields@.len(),
                    needle@ == key@,
                    spec_lookup(fields@, key@) == spec_lookup(fields@.skip(i as int), key@),
                decreases fields@.len() - i,
            {
                proof {
                    assert(fields@.skip(i as int).first() == fields@[i as int]);
                    assert(fields@.skip(i as int).drop_first() =~= fields@.skip(i + 1));
                }
                let entry = vstd::std_specs::vec::vec_index(fields, i);
                if entry.0 == needle {
                    proof {
                        assert(spec_lookup(fields@.skip(i as int), key@) == Some(
                            fields@[i as int].1,
                        ));
                    }
                    return Some(&entry.1);
                }
                i += 1;
            }
            proof {
                assert(fields@.skip(i as int).len() == 0);
            }
            None
        },
        _ => None,
    }
}

/// A required string field, as `spec_req_string` says.
fn doc_req_string(doc: &JsonValue, key: &str) -> (r: Option<String>)
    ensures
        r is Some <==> spec_req_string(*doc, key@) is Some,
        r matches Some(s) ==> spec_req_string(*doc, key@) == Some(s@),
{
    match doc_get(doc, key) {
        Some(JsonValue::Str(s)) => Some(s.clone()),
        _ => None,
    }
}

/// A required unsigned-integer field, as `spec_req_u64` says.
fn doc_req_u64(doc: &JsonValue, key: &str) -> (r: Option<u64>)
    ensures
        r == spec_req_u64(*doc, key@),
{
    match doc_get(doc, key) {
        Some(JsonValue::UInt(u)) => Some(*u),
        _ => None,
    }
}

/// An optional string field, as `spec_opt_string` says.
fn doc_opt_string(doc: &JsonValue, key: &str) -> (r: Option<Option<String>>)
    ensures
        r is Some <==> spec_opt_string(*doc, key@) is Some,
        r matches Some(o) ==> spec_opt_string(*doc, key@) == Some(
            crate::model::view_opt_string(o),
        ),
{
    match doc_get(doc, key) {
        None => Some(None),
        Some(JsonValue::Null) => Some(None),
        Some(JsonValue::Str(s)) => Some(Some(s.clone())),
        Some(_) => None,
    }
}

/// A required choice index, as `spec_req_index` says.
fn doc_req_index(doc: &JsonValue, key: &str) -> (r: Option<u32>)
    ensures
        r == spec_req_index(*doc, key@),
{
    match doc_req_u64(doc, key) {
        Some(x) => {
            if x <= 0xffff_ffffu64 {
                Some(x as u32)
            } else {
                None
            }
        },
        None => None,
    }
}

/// Decodes one streaming choice, as `spec_stream_choice_of` says.
fn parse_stream_choice(c: &JsonValue) -> (r: Option<StreamChoice>)
    ensures
        r is Some <==> spec_stream_choice_of(*c) is Some,
        r matches Some(ch) ==> spec_stream_choice_of(*c) == Some(ch@),
{
    let index = match doc_req_index(c, "index") {
        Some(x) => x,
        None => { return None },
    };
    let delta_doc = match doc_get(c, "delta") {
        Some(d) => d,
        None => { return None },
    };
    let is_obj = match delta_doc {
        JsonValue::Obj(_) => true,
        _ => false,
    };
    if !is_obj {
        return None;
    }
    let role = match doc_opt_string(delta_doc, "role") {
        Some(x) => x,
        None => { return None },
    };
    let content = match doc_opt_string(delta_doc, "content") {
        Some(x) => x,
        None => { return None },
    };
    let reasoning_content = match doc_opt_string(delta_doc, "reasoning_content") {
        Some(x) => x,
        None => { return None },
    };
    let finish_reason = match doc_opt_string(c, "finish_reason") {
        Some(x) => x,
        None => { return None },
    };
    Some(
        StreamChoice {
            index,
            delta: StreamDelta { role, content, reasoning_content },
            finish_reason,
        },
    )
}

/// Decodes the JSON payload of one streaming event line into a
/// `StreamChunk`: exactly the chunk `spec_stream_chunk` gives for the
/// payload bytes, or nothing when they are not JSON or mismatch the
/// event schema — which discards the payload without failing the
/// stream.
#[verifier::loop_isolation(false)]
pub fn parse_stream_chunk(payload: &Vec<u8>) -> (r: Option<StreamChunk>)
    ensures
        r is Some <==> spec_stream_chunk(payload@) is Some,
        r matches Some(c) ==> spec_stream_chunk(payload@) == Some(c@),
{
    let doc = match json_decode(payload.as_slice()) {
        Some(doc) => doc,
        None => { return None },
    };
    let id = match doc_req_string(&doc, "id") {
        Some(x) => x,
        None => { return None },
    };
    let object = match doc_req_string(&doc, "object") {
        Some(x) => x,
        None => { return None },
    };
    let created = match doc_req_u64(&doc, "created") {
        Some(x) => x,
        None => { return None },
    };
    let model = match doc_req_string(&doc, "model") {
        Some(x) => x,
        None => { return None },
    };
    let arr = match doc_get(&doc, "choices") {
        Some(JsonValue::Arr(arr)) => arr,
        _ => { return None },
    };
    let mut choices: Vec<StreamChoice> = Vec::new();
    let mut i: usize = 0;
    proof {
        assert(arr@.skip(0) =~= arr@);
        if spec_stream_choices_of(arr@) is Some {
            let rest = spec_stream_choices_of(arr@).unwrap();
            assert(choices@.map_values(|c: StreamChoice| c@) + rest =~= rest);
        }
    }
    while i < arr.len()
        invariant
            i <= arr@.len(),
            spec_stream_choices_of(arr@) is Some <==> spec_stream_choices_of(
                arr@.skip(i as int),
            ) is Some,
            spec_stream_choices_of(arr@.skip(i as int)) matches Some(rest)
                ==> spec_stream_choices_of(arr@) == Some(
                choices@.map_values(|c: StreamChoice| c@) + rest,
            ),
        decreases arr@.len() - i,
    {
        proof {
            assert(arr@.skip(i as int).first() == arr@[i as int]);
            assert(arr@.skip(i as int).drop_first() =~= arr@.skip(i + 1));
        }
        match parse_stream_choice(vstd::std_specs::vec::vec_index(arr, i)) {
            Some(c) => {
                proof {
                    assert(choices@.push(c).map_values(|x: StreamChoice| x@)
                        =~= choices@.map_values(|x: StreamChoice| x@).push(c@));
                    if spec_stream_choices_of(arr@.skip(i + 1)) is Some {
                        let rest = spec_stream_choices_of(arr@.skip(i + 1)).unwrap();
                        assert(choices@.map_values(|x: StreamChoice| x@).push(c@) + rest
                            =~= choices@.map_values(|x: StreamChoice| x@) + (seq![c@] + rest));
                    }
                }
                choices.push(c);
            },
            None => { return None },
        }
        i += 1;
    }
    proof {
        assert(arr@.skip(i as int).len() == 0);
        assert(choices@.map_values(|c: StreamChoice| c@) + Seq::<StreamChoiceView>::empty()
            =~= choices@.map_values(|c: StreamChoice| c@));
    }
    Some(StreamChunk { id, object, created, model, choices })
}

/// Decodes one blocking-mode choice, as `spec_choice_of` says.
fn parse_choice(c: &JsonValue) -> (r: Option<Choice>)
    ensures
        r is Some <==> spec_choice_of(*c) is Some,
        r matches Some(ch) ==> spec_choice_of(*c) == Some(ch@),
{
    let index = match doc_req_index(c, "index") {
        Some(x) => x,
        None => { return None },
    };
    let message_doc = match doc_get(c, "message") {
        Some(m) => m,
        None => { return None },
    };
    let role = match doc_req_string(message_doc, "role") {
        Some(x) => x,
        None => { return None },
    };
    let content = match doc_req_string(message_doc, "content") {
        Some(x) => x,
        None => { return None },
    };
    let reasoning_content = match doc_opt_string(message_doc, "reasoning_content") {
        Some(x) => x,
        None => { return None },
    };
    let finish_reason = match doc_opt_string(c, "finish_reason") {
        Some(x) => x,
        None => { return None },
    };
    Some(
        Choice {
            index,
            message: ResponseMessage { role, content, reasoning_content },
            finish_reason,
        },
    )
}

/// The failure reported when a blocking-mode body is valid JSON but
/// does not match the response schema.
fn decode_schema_error() -> (e: GatewayError)
    ensures
        e is Decode,
{
    GatewayError::Decode(String::from_str("response body does not match the expected schema"))
}

/// Decodes a blocking-mode response body: the response succeeds exactly
/// when the bytes decode under the response schema, and then carries
/// exactly the decoded fields, in order. Any other body — not JSON, or
/// a schema mismatch — is a `Decode` failure, never a defaulted
/// response and never another failure kind.
#[verifier::loop_isolation(false)]
pub fn parse_chat_response(body: &Vec<u8>) -> (r: Result<ChatResponse, GatewayError>)
    ensures
        r is Ok <==> spec_chat_response(body@) is Some,
        r matches Ok(c) ==> spec_chat_response(body@) == Some(c@),
        r matches Err(e) ==> e is Decode,
{
    let doc = match json_decode(body.as_slice()) {
        Some(doc) => doc,
        None => {
            return Err(
                GatewayError::Decode(String::from_str("response body is not a JSON document")),
            )
        },
    };
    let id = match doc_req_string(&doc, "id") {
        Some(x) => x,
        None => { return Err(decode_schema_error()) },
    };
    let object = match doc_req_string(&doc, "object") {
        Some(x) => x,
        None => { return Err(decode_schema_error()) },
    };
    let created = match doc_req_u64(&doc, "created") {
        Some(x) => x,
        None => { return Err(decode_schema_error()) },
    };
    let model = match doc_req_string(&doc, "model") {
        Some(x) => x,
        None => { return Err(decode_schema_error()) },
    };
    let arr = match doc_get(&doc, "choices") {
        Some(JsonValue::Arr(arr)) => arr,
        _ => { return Err(decode_schema_error()) },
    };
    let mut choices: Vec<Choice> = Vec::new();
    let mut i: usize = 0;
    proof {
        assert(arr@.skip(0) =~= arr@);
        if spec_choices_of(arr@) is Some {
            let rest = spec_choices_of(arr@).unwrap();
            assert(choices@.map_values(|c: Choice| c@) + rest =~= rest);
        }
    }
    while i < arr.len()
        invariant
            i <= arr@.len(),
            spec_choices_of(arr@) is Some <==> spec_choices_of(arr@.skip(i as int)) is Some,
            spec_choices_of(arr@.skip(i as int)) matches Some(rest) ==> spec_choices_of(arr@)
                == Some(choices@.map_values(|c: Choice| c@) + rest),
        decreases arr@.len() - i,
    {
        proof {
            assert(arr@.skip(i as int).first() == arr@[i as int]);
            assert(arr@.skip(i as int).drop_first() =~= arr@.skip(i + 1));
        }
        match parse_choice(vstd::std_specs::vec::vec_index(arr, i)) {
            Some(c) => {
                proof {
                    assert(choices@.push(c).map_values(|x: Choice| x@) =~= choices@.map_values(
                        |x: Choice| x@,
                    ).push(c@));
                    if spec_choices_of(arr@.skip(i + 1)) is Some {
                        let rest = spec_choices_of(arr@.skip(i + 1)).unwrap();
                        assert(choices@.map_values(|x: Choice| x@).push(c@) + rest
                            =~= choices@.map_values(|x: Choice| x@) + (seq![c@] + rest));
                    }
                }
                choices.push(c);
            },
            None => { return Err(decode_schema_error()) },
        }
        i += 1;
    }
    proof {
        assert(arr@.skip(i as int).len() == 0);
        assert(choices@.map_values(|c: Choice| c@) + Seq::<ChoiceView>::empty()
            =~= choices@.map_values(|c: Choice| c@));
    }
    Ok(ChatResponse { id, object, created, model, choices })
}

} // verus!
