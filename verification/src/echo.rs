//! The request-echo fixtures: what a request body is read as, and the parts of
//! the echo that are not copied verbatim.

use vstd::prelude::*;
use crate::headers::{form_values, urlencoded_pairs};
use crate::multimap::{Groups, distinct_keys, group_view, grouped};
use crate::multipart::{boundary_of, field_entries, lossy_utf8, marker_of, multipart_boundary, multipart_values, parts_from, utf8_lossy};
use crate::text::{has_prefix, str_starts_with};

verus! {

/// How a request body is read, by its content type.
#[derive(Clone, Debug)]
pub enum BodyFormat {
    Json,
    Form,
    /// `multipart/form-data` with its boundary.
    Multipart(String),
    Other,
}

pub enum BodyFormatSpec {
    Json,
    Form,
    Multipart(Seq<char>),
    Other,
}

impl View for BodyFormat {
    type V = BodyFormatSpec;

    open spec fn view(&self) -> BodyFormatSpec {
        match self {
            BodyFormat::Json => BodyFormatSpec::Json,
            BodyFormat::Form => BodyFormatSpec::Form,
            BodyFormat::Multipart(b) => BodyFormatSpec::Multipart(b@),
            BodyFormat::Other => BodyFormatSpec::Other,
        }
    }
}

/// The format a content type names; multipart only with a usable boundary.
pub open spec fn body_format_spec(content_type: Seq<char>) -> BodyFormatSpec {
    if has_prefix(content_type, "application/json"@) {
        BodyFormatSpec::Json
    } else if has_prefix(content_type, "application/x-www-form-urlencoded"@) {
        BodyFormatSpec::Form
    } else if has_prefix(content_type, "multipart/form-data"@) && boundary_of(content_type) is Some {
        BodyFormatSpec::Multipart(boundary_of(content_type)->0)
    } else {
        BodyFormatSpec::Other
    }
}

pub fn body_format(content_type: &str) -> (f: BodyFormat)
    ensures
        f@ == body_format_spec(content_type@),
{
    if str_starts_with(content_type, "application/json") {
        BodyFormat::Json
    } else if str_starts_with(content_type, "application/x-www-form-urlencoded") {
        BodyFormat::Form
    } else if str_starts_with(content_type, "multipart/form-data") {
        match multipart_boundary(content_type) {
            Some(b) => BodyFormat::Multipart(b),
            None => BodyFormat::Other,
        }
    } else {
        BodyFormat::Other
    }
}

/// A JSON document, as `serde_json::Value` holds it: a number is kept as the
/// text `serde_json` writes for it, and an object's members in the order its
/// map iterates them (by key).
#[derive(Debug, PartialEq)]
pub enum JsonValue {
    Null,
    Bool(bool),
    Number(String),
    Str(String),
    Array(Vec<JsonValue>),
    Object(Vec<(String, JsonValue)>),
}

/// The document `serde_json::from_slice` reads from these bytes, if it
/// accepts them.
pub uninterp spec fn json_parsed(bytes: Seq<u8>) -> Option<JsonValue>;

/// Turns a `serde_json::Value` into the library's JSON type, node for node.
#[verifier::external_body]
fn json_of(value: serde_json::Value) -> JsonValue {
    match value {
        serde_json::Value::Null => JsonValue::Null,
        serde_json::Value::Bool(b) => JsonValue::Bool(b),
        serde_json::Value::Number(n) => JsonValue::Number(n.to_string()),
        serde_json::Value::String(s) => JsonValue::Str(s),
        serde_json::Value::Array(items) => JsonValue::Array(items.into_iter().map(json_of).collect()),
        serde_json::Value::Object(members) => JsonValue::Object(members.into_iter().map(|(k, v)| (k, json_of(v))).collect()),
    }
}

/// Parses a JSON document with `serde_json::from_slice`. The contract claims
/// that the result is the one `json_parsed` names, a function of the bytes
/// alone: the parse is deterministic and its map keeps keys in order.
#[verifier::external_body]
fn json_from_slice(body: &[u8]) -> (r: Option<JsonValue>)
    ensures
        r == json_parsed(body@),
{
    match serde_json::from_slice::<serde_json::Value>(body) {
        Ok(value) => Some(json_of(value)),
        Err(_) => None,
    }
}

/// A request body read by its content type: a JSON document, form fields and
/// uploaded files.
#[derive(Debug)]
pub struct StructuredBody {
    /// The JSON document, when the body is JSON and parses.
    pub json: Option<JsonValue>,
    pub form: Groups,
    pub files: Groups,
}

/// Reads a request body by its content type (none is read as no content type).
pub fn parse_structured_body(content_type: Option<&str>, body: &[u8]) -> (r: StructuredBody)
    ensures
        distinct_keys(r.form@),
        distinct_keys(r.files@),
        ({
            let ct = match content_type {
                Some(c) => c@,
                None => Seq::empty(),
            };
            match body_format_spec(ct) {
                BodyFormatSpec::Json => r.json == json_parsed(body@) && r.form@.len() == 0 && r.files@.len() == 0,
                BodyFormatSpec::Form => {
                    &&& r.json is None
                    &&& group_view(r.form@) == grouped(urlencoded_pairs(body@))
                    &&& r.files@.len() == 0
                },
                BodyFormatSpec::Multipart(b) => {
                    let parts = parts_from(body@, marker_of(vstd::utf8::encode_utf8(b)), 0);
                    &&& r.json is None
                    &&& group_view(r.form@) == grouped(field_entries(parts, false))
                    &&& group_view(r.files@) == grouped(field_entries(parts, true))
                },
                BodyFormatSpec::Other => r.json is None && r.form@.len() == 0 && r.files@.len() == 0,
            }
        }),
{
    let ct = match content_type {
        Some(c) => c,
        None => "",
    };
    proof {
        reveal_strlit("");
        assert(ct@ =~= match content_type {
            Some(c) => c@,
            None => Seq::<char>::empty(),
        });
    }
    let empty: Groups = Vec::new();
    let none: Groups = Vec::new();
    match body_format(ct) {
        BodyFormat::Json => StructuredBody { json: json_from_slice(body), form: empty, files: none },
        BodyFormat::Form => StructuredBody { json: None, form: form_values(body), files: none },
        BodyFormat::Multipart(b) => {
            let (form, files) = multipart_values(body, b.as_str());
            StructuredBody { json: None, form, files }
        },
        BodyFormat::Other => StructuredBody { json: None, form: empty, files: none },
    }
}

/// The most body bytes an echo shows.
pub const MAX_BODY_PREVIEW: usize = 4096;

/// The text an echo shows of a body: its first 4096 bytes, decoded lossily.
pub fn body_preview(body: &[u8]) -> (r: String)
    ensures
        r@ == lossy_utf8(body@.take(if body@.len() < MAX_BODY_PREVIEW { body@.len() as int } else { MAX_BODY_PREVIEW as int })),
{
    let n = if body.len() < MAX_BODY_PREVIEW { body.len() } else { MAX_BODY_PREVIEW };
    let mut head: Vec<u8> = Vec::new();
    let mut i: usize = 0;
    while i < n
        invariant
            n <= body@.len(),
            i <= n,
            head@ == body@.take(i as int),
        decreases n - i,
    {
        head.push(body[i]);
        assert(body@.take(i + 1) =~= body@.take(i as int).push(body@[i as int]));
        i = i + 1;
    }
    utf8_lossy(head.as_slice())
}

/// The summary of the event an echo records: the method and the path.
pub fn request_summary(method: &str, path: &str) -> (s: String)
    ensures
        s@ == method@ + " "@ + path@,
{
    let mut v = crate::text::chars_of(method);
    v.push(' ');
    let p = crate::text::chars_of(path);
    crate::text::push_all(&mut v, p.as_slice());
    proof {
        reveal_strlit(" ");
    }
    let s = crate::text::string_of(v.as_slice());
    assert(s@ =~= method@ + " "@ + path@);
    s
}

} // verus!
