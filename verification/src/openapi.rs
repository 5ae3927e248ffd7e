//! The table of documented HTTP fixtures and the OpenAPI description built
//! from it.

use vstd::prelude::*;
use crate::events::opt_view;
use crate::multimap::strings_view;
use crate::text::{
    lemma_split_nonempty, push_all, split, split_chars, views,
    chars_of, has_prefix, lower, lower_chars, lower_seq, split_once, split_once_chars, str_eq,
    str_starts_with, string_of, strip_char, strip_char_chars, trim, trim_chars,
};

verus! {

/// The HTTP methods an endpoint answers.
#[derive(Clone, Copy, PartialEq, Eq, Structural, Debug)]
pub enum Methods {
    /// Every method.
    Any,
    /// `GET` and `HEAD`.
    Get,
    Post,
    Put,
    Patch,
    Delete,
}

/// A documented query parameter.
#[derive(Clone, Debug)]
pub struct QueryParameter {
    pub name: String,
    pub description: String,
}

pub open spec fn query_view(q: Seq<QueryParameter>) -> Seq<(Seq<char>, Seq<char>)> {
    q.map_values(|p: QueryParameter| (p.name@, p.description@))
}

/// One documented fixture endpoint.
#[derive(Clone, Debug)]
pub struct HttpEndpoint {
    /// The path as listed by the capability document.
    pub capability_path: String,
    /// The path template used in the OpenAPI document.
    pub openapi_path: String,
    pub methods: Methods,
    pub summary: String,
    pub response_content_type: String,
    pub query_parameters: Vec<QueryParameter>,
}

/// What an endpoint holds, as plain sequences.
pub struct EndpointSpec {
    pub capability_path: Seq<char>,
    pub openapi_path: Seq<char>,
    pub methods: Methods,
    pub summary: Seq<char>,
    pub content_type: Seq<char>,
    pub query: Seq<(Seq<char>, Seq<char>)>,
}

impl View for HttpEndpoint {
    type V = EndpointSpec;

    open spec fn view(&self) -> EndpointSpec {
        EndpointSpec {
            capability_path: self.capability_path@,
            openapi_path: self.openapi_path@,
            methods: self.methods,
            summary: self.summary@,
            content_type: self.response_content_type@,
            query: query_view(self.query_parameters@),
        }
    }
}

pub open spec fn endpoint_entry(
    capability_path: Seq<char>,
    openapi_path: Seq<char>,
    methods: Methods,
    summary: Seq<char>,
    content_type: Seq<char>,
    query: Seq<(Seq<char>, Seq<char>)>,
) -> EndpointSpec {
    EndpointSpec { capability_path, openapi_path, methods, summary, content_type, query }
}

fn endpoint(
    capability_path: &str,
    openapi_path: &str,
    methods: Methods,
    summary: &str,
    content_type: &str,
    query: Vec<QueryParameter>,
) -> (e: HttpEndpoint)
    ensures
        e@ == endpoint_entry(capability_path@, openapi_path@, methods, summary@, content_type@, query_view(query@)),
{
    HttpEndpoint {
        capability_path: capability_path.to_owned(),
        openapi_path: openapi_path.to_owned(),
        methods,
        summary: summary.to_owned(),
        response_content_type: content_type.to_owned(),
        query_parameters: query,
    }
}

fn no_query() -> (q: Vec<QueryParameter>)
    ensures
        query_view(q@) == Seq::<(Seq<char>, Seq<char>)>::empty(),
{
    let q: Vec<QueryParameter> = Vec::new();
    assert(query_view(q@) =~= Seq::<(Seq<char>, Seq<char>)>::empty());
    q
}

fn query_push(q: Vec<QueryParameter>, name: &str, description: &str) -> (r: Vec<QueryParameter>)
    ensures
        query_view(r@) == query_view(q@).push((name@, description@)),
{
    let mut r = q;
    let ghost before = r@;
    r.push(QueryParameter { name: name.to_owned(), description: description.to_owned() });
    assert(query_view(r@) =~= query_view(before).push((name@, description@)));
    r
}

/// How many endpoints the table lists.
pub const ENDPOINT_COUNT: usize = 46;

/// The documented HTTP fixture endpoints, in the order they are listed.
pub open spec fn endpoint_spec(i: int) -> EndpointSpec {
    if i == 0 {
        endpoint_entry("/get"@, "/get"@, Methods::Get, "Echo a GET request"@, "application/json"@, Seq::empty())
    } else if i == 1 {
        endpoint_entry("/post"@, "/post"@, Methods::Post, "Echo a POST request"@, "application/json"@, Seq::empty())
    } else if i == 2 {
        endpoint_entry("/put"@, "/put"@, Methods::Put, "Echo a PUT request"@, "application/json"@, Seq::empty())
    } else if i == 3 {
        endpoint_entry("/patch"@, "/patch"@, Methods::Patch, "Echo a PATCH request"@, "application/json"@, Seq::empty())
    } else if i == 4 {
        endpoint_entry("/delete"@, "/delete"@, Methods::Delete, "Echo a DELETE request"@, "application/json"@, Seq::empty())
    } else if i == 5 {
        endpoint_entry("/anything"@, "/anything"@, Methods::Any, "Echo any HTTP request"@, "application/json"@, Seq::empty())
    } else if i == 6 {
        endpoint_entry("/anything/"@, "/anything/"@, Methods::Any, "Echo any HTTP request at the root trailing-slash path"@, "application/json"@, Seq::empty())
    } else if i == 7 {
        endpoint_entry("/anything/*"@, "/anything/{path}"@, Methods::Any, "Echo any HTTP request at a nested path"@, "application/json"@, Seq::empty())
    } else if i == 8 {
        endpoint_entry("/status/{code}"@, "/status/{code}"@, Methods::Any, "Return the requested HTTP status code"@, "application/json"@, Seq::empty())
    } else if i == 9 {
        endpoint_entry("/delay/{seconds}"@, "/delay/{seconds}"@, Methods::Any, "Delay the response"@, "application/json"@, Seq::empty())
    } else if i == 10 {
        endpoint_entry("/redirect/{count}"@, "/redirect/{count}"@, Methods::Any, "Return a fixed number of relative redirects"@, "application/json"@, Seq::empty())
    } else if i == 11 {
        endpoint_entry("/bytes/{count}"@, "/bytes/{count}"@, Methods::Get, "Return deterministic binary bytes"@, "application/octet-stream"@, Seq::empty())
    } else if i == 12 {
        endpoint_entry("/stream-bytes/{count}"@, "/stream-bytes/{count}"@, Methods::Get, "Stream deterministic binary bytes"@, "application/octet-stream"@, Seq::empty())
    } else if i == 13 {
        endpoint_entry("/gzip"@, "/gzip"@, Methods::Any, "Return a gzip-encoded response"@, "application/json"@, Seq::empty())
    } else if i == 14 {
        endpoint_entry("/deflate"@, "/deflate"@, Methods::Any, "Return a deflate-encoded response"@, "application/json"@, Seq::empty())
    } else if i == 15 {
        endpoint_entry("/basic-auth/{user}/{password}"@, "/basic-auth/{user}/{password}"@, Methods::Any, "Challenge and validate HTTP Basic Auth"@, "application/json"@, Seq::empty())
    } else if i == 16 {
        endpoint_entry("/headers"@, "/headers"@, Methods::Any, "Return request headers"@, "application/json"@, Seq::empty())
    } else if i == 17 {
        endpoint_entry("/ip"@, "/ip"@, Methods::Any, "Return the connected client IP"@, "application/json"@, Seq::empty())
    } else if i == 18 {
        endpoint_entry("/user-agent"@, "/user-agent"@, Methods::Any, "Return the User-Agent header"@, "application/json"@, Seq::empty())
    } else if i == 19 {
        endpoint_entry("/image"@, "/image"@, Methods::Get, "Return the default PNG fixture"@, "image/png"@, Seq::empty())
    } else if i == 20 {
        endpoint_entry("/image/png"@, "/image/png"@, Methods::Get, "Return a PNG fixture"@, "image/png"@, Seq::empty())
    } else if i == 21 {
        endpoint_entry("/image/jpeg"@, "/image/jpeg"@, Methods::Get, "Return a JPEG fixture"@, "image/jpeg"@, Seq::empty())
    } else if i == 22 {
        endpoint_entry("/image/svg"@, "/image/svg"@, Methods::Get, "Return an SVG fixture"@, "image/svg+xml"@, Seq::empty())
    } else if i == 23 {
        endpoint_entry("/image/webp"@, "/image/webp"@, Methods::Get, "Return a WebP fixture"@, "image/webp"@, Seq::empty())
    } else if i == 24 {
        endpoint_entry("/video"@, "/video"@, Methods::Get, "Return the default MP4 fixture"@, "video/mp4"@, Seq::empty())
    } else if i == 25 {
        endpoint_entry("/video/mp4"@, "/video/mp4"@, Methods::Get, "Return an MP4 fixture"@, "video/mp4"@, Seq::empty())
    } else if i == 26 {
        endpoint_entry("/video/webm"@, "/video/webm"@, Methods::Get, "Return a WebM fixture"@, "video/webm"@, Seq::empty())
    } else if i == 27 {
        endpoint_entry("/audio"@, "/audio"@, Methods::Get, "Return the default WAV fixture"@, "audio/wav"@, Seq::empty())
    } else if i == 28 {
        endpoint_entry("/audio/wav"@, "/audio/wav"@, Methods::Get, "Return a WAV audio fixture"@, "audio/wav"@, Seq::empty())
    } else if i == 29 {
        endpoint_entry("/audio/mp3"@, "/audio/mp3"@, Methods::Get, "Return an MP3 audio fixture"@, "audio/mpeg"@, Seq::empty())
    } else if i == 30 {
        endpoint_entry("/response-headers"@, "/response-headers"@, Methods::Get, "Set safe response headers from query parameters"@, "application/json"@, Seq::empty().push(("X-Test"@, "Any additional query key becomes a response header"@)))
    } else if i == 31 {
        endpoint_entry("/cookies"@, "/cookies"@, Methods::Get, "Return cookies sent by the client"@, "application/json"@, Seq::empty())
    } else if i == 32 {
        endpoint_entry("/cookies/set/{name}/{value}"@, "/cookies/set/{name}/{value}"@, Methods::Get, "Set a cookie and redirect to /cookies"@, "application/json"@, Seq::empty())
    } else if i == 33 {
        endpoint_entry("/cookies/delete/{name}"@, "/cookies/delete/{name}"@, Methods::Get, "Delete a cookie and redirect to /cookies"@, "application/json"@, Seq::empty())
    } else if i == 34 {
        endpoint_entry("/cache"@, "/cache"@, Methods::Get, "Return a cacheable response"@, "application/json"@, Seq::empty())
    } else if i == 35 {
        endpoint_entry("/cache/{seconds}"@, "/cache/{seconds}"@, Methods::Get, "Return a response with Cache-Control max-age"@, "application/json"@, Seq::empty())
    } else if i == 36 {
        endpoint_entry("/etag/{value}"@, "/etag/{value}"@, Methods::Get, "Return an ETag-aware response"@, "application/json"@, Seq::empty())
    } else if i == 37 {
        endpoint_entry("/redirect-to"@, "/redirect-to"@, Methods::Get, "Redirect to a requested URL"@, "application/json"@, Seq::empty().push(("url"@, "Relative target URL; absolute HTTP(S) targets require BIUBIN_HTTP_ALLOW_EXTERNAL_REDIRECTS=true"@)).push(("status_code"@, "One of 301, 302, 303, 307 or 308"@)))
    } else if i == 38 {
        endpoint_entry("/json"@, "/json"@, Methods::Get, "Return a JSON fixture"@, "application/json"@, Seq::empty())
    } else if i == 39 {
        endpoint_entry("/html"@, "/html"@, Methods::Get, "Return an HTML fixture"@, "text/html"@, Seq::empty())
    } else if i == 40 {
        endpoint_entry("/xml"@, "/xml"@, Methods::Get, "Return an XML fixture"@, "application/xml"@, Seq::empty())
    } else if i == 41 {
        endpoint_entry("/encoding/utf8"@, "/encoding/utf8"@, Methods::Get, "Return UTF-8 text"@, "text/plain; charset=utf-8"@, Seq::empty())
    } else if i == 42 {
        endpoint_entry("/range/{count}"@, "/range/{count}"@, Methods::Get, "Return a Range-aware deterministic byte resource"@, "application/octet-stream"@, Seq::empty())
    } else if i == 43 {
        endpoint_entry("/drip"@, "/drip"@, Methods::Get, "Stream bytes over a configurable duration"@, "application/octet-stream"@, Seq::empty().push(("numbytes"@, "Number of bytes"@)).push(("duration"@, "Streaming duration in seconds"@)).push(("delay"@, "Initial delay in seconds"@)).push(("chunk_size"@, "Bytes per emitted chunk when duration is positive; zero-duration responses are coalesced"@)).push(("code"@, "Final HTTP status code"@)))
    } else if i == 44 {
        endpoint_entry("/unstable"@, "/unstable"@, Methods::Get, "Return a deterministic success or failure"@, "application/json"@, Seq::empty().push(("failure_rate"@, "Failure probability from 0 to 1"@)).push(("seed"@, "Deterministic decision seed"@)))
    } else {
        endpoint_entry("/bearer"@, "/bearer"@, Methods::Get, "Validate a Bearer token"@, "application/json"@, Seq::empty().push(("token"@, "Expected token; defaults to biubin"@)))
    }
}

/// The endpoint at `index` of the fixture table.
pub fn http_endpoint(index: usize) -> (e: HttpEndpoint)
    requires
        index < ENDPOINT_COUNT,
    ensures
        e@ == endpoint_spec(index as int),
{
    match index {
        0 => endpoint("/get", "/get", Methods::Get, "Echo a GET request", "application/json", no_query()),
        1 => endpoint("/post", "/post", Methods::Post, "Echo a POST request", "application/json", no_query()),
        2 => endpoint("/put", "/put", Methods::Put, "Echo a PUT request", "application/json", no_query()),
        3 => endpoint("/patch", "/patch", Methods::Patch, "Echo a PATCH request", "application/json", no_query()),
        4 => endpoint("/delete", "/delete", Methods::Delete, "Echo a DELETE request", "application/json", no_query()),
        5 => endpoint("/anything", "/anything", Methods::Any, "Echo any HTTP request", "application/json", no_query()),
        6 => endpoint("/anything/", "/anything/", Methods::Any, "Echo any HTTP request at the root trailing-slash path", "application/json", no_query()),
        7 => endpoint("/anything/*", "/anything/{path}", Methods::Any, "Echo any HTTP request at a nested path", "application/json", no_query()),
        8 => endpoint("/status/{code}", "/status/{code}", Methods::Any, "Return the requested HTTP status code", "application/json", no_query()),
        9 => endpoint("/delay/{seconds}", "/delay/{seconds}", Methods::Any, "Delay the response", "application/json", no_query()),
        10 => endpoint("/redirect/{count}", "/redirect/{count}", Methods::Any, "Return a fixed number of relative redirects", "application/json", no_query()),
        11 => endpoint("/bytes/{count}", "/bytes/{count}", Methods::Get, "Return deterministic binary bytes", "application/octet-stream", no_query()),
        12 => endpoint("/stream-bytes/{count}", "/stream-bytes/{count}", Methods::Get, "Stream deterministic binary bytes", "application/octet-stream", no_query()),
        13 => endpoint("/gzip", "/gzip", Methods::Any, "Return a gzip-encoded response", "application/json", no_query()),
        14 => endpoint("/deflate", "/deflate", Methods::Any, "Return a deflate-encoded response", "application/json", no_query()),
        15 => endpoint("/basic-auth/{user}/{password}", "/basic-auth/{user}/{password}", Methods::Any, "Challenge and validate HTTP Basic Auth", "application/json", no_query()),
        16 => endpoint("/headers", "/headers", Methods::Any, "Return request headers", "application/json", no_query()),
        17 => endpoint("/ip", "/ip", Methods::Any, "Return the connected client IP", "application/json", no_query()),
        18 => endpoint("/user-agent", "/user-agent", Methods::Any, "Return the User-Agent header", "application/json", no_query()),
        19 => endpoint("/image", "/image", Methods::Get, "Return the default PNG fixture", "image/png", no_query()),
        20 => endpoint("/image/png", "/image/png", Methods::Get, "Return a PNG fixture", "image/png", no_query()),
        21 => endpoint("/image/jpeg", "/image/jpeg", Methods::Get, "Return a JPEG fixture", "image/jpeg", no_query()),
        22 => endpoint("/image/svg", "/image/svg", Methods::Get, "Return an SVG fixture", "image/svg+xml", no_query()),
        23 => endpoint("/image/webp", "/image/webp", Methods::Get, "Return a WebP fixture", "image/webp", no_query()),
        24 => endpoint("/video", "/video", Methods::Get, "Return the default MP4 fixture", "video/mp4", no_query()),
        25 => endpoint("/video/mp4", "/video/mp4", Methods::Get, "Return an MP4 fixture", "video/mp4", no_query()),
        26 => endpoint("/video/webm", "/video/webm", Methods::Get, "Return a WebM fixture", "video/webm", no_query()),
        27 => endpoint("/audio", "/audio", Methods::Get, "Return the default WAV fixture", "audio/wav", no_query()),
        28 => endpoint("/audio/wav", "/audio/wav", Methods::Get, "Return a WAV audio fixture", "audio/wav", no_query()),
        29 => endpoint("/audio/mp3", "/audio/mp3", Methods::Get, "Return an MP3 audio fixture", "audio/mpeg", no_query()),
        30 => endpoint("/response-headers", "/response-headers", Methods::Get, "Set safe response headers from query parameters", "application/json", query_push(no_query(), "X-Test", "Any additional query key becomes a response header")),
        31 => endpoint("/cookies", "/cookies", Methods::Get, "Return cookies sent by the client", "application/json", no_query()),
        32 => endpoint("/cookies/set/{name}/{value}", "/cookies/set/{name}/{value}", Methods::Get, "Set a cookie and redirect to /cookies", "application/json", no_query()),
        33 => endpoint("/cookies/delete/{name}", "/cookies/delete/{name}", Methods::Get, "Delete a cookie and redirect to /cookies", "application/json", no_query()),
        34 => endpoint("/cache", "/cache", Methods::Get, "Return a cacheable response", "application/json", no_query()),
        35 => endpoint("/cache/{seconds}", "/cache/{seconds}", Methods::Get, "Return a response with Cache-Control max-age", "application/json", no_query()),
        36 => endpoint("/etag/{value}", "/etag/{value}", Methods::Get, "Return an ETag-aware response", "application/json", no_query()),
        37 => endpoint("/redirect-to", "/redirect-to", Methods::Get, "Redirect to a requested URL", "application/json", query_push(query_push(no_query(), "url", "Relative target URL; absolute HTTP(S) targets require BIUBIN_HTTP_ALLOW_EXTERNAL_REDIRECTS=true"), "status_code", "One of 301, 302, 303, 307 or 308")),
        38 => endpoint("/json", "/json", Methods::Get, "Return a JSON fixture", "application/json", no_query()),
        39 => endpoint("/html", "/html", Methods::Get, "Return an HTML fixture", "text/html", no_query()),
        40 => endpoint("/xml", "/xml", Methods::Get, "Return an XML fixture", "application/xml", no_query()),
        41 => endpoint("/encoding/utf8", "/encoding/utf8", Methods::Get, "Return UTF-8 text", "text/plain; charset=utf-8", no_query()),
        42 => endpoint("/range/{count}", "/range/{count}", Methods::Get, "Return a Range-aware deterministic byte resource", "application/octet-stream", no_query()),
        43 => endpoint("/drip", "/drip", Methods::Get, "Stream bytes over a configurable duration", "application/octet-stream", query_push(query_push(query_push(query_push(query_push(no_query(), "numbytes", "Number of bytes"), "duration", "Streaming duration in seconds"), "delay", "Initial delay in seconds"), "chunk_size", "Bytes per emitted chunk when duration is positive; zero-duration responses are coalesced"), "code", "Final HTTP status code")),
        44 => endpoint("/unstable", "/unstable", Methods::Get, "Return a deterministic success or failure", "application/json", query_push(query_push(no_query(), "failure_rate", "Failure probability from 0 to 1"), "seed", "Deterministic decision seed")),
        _ => endpoint("/bearer", "/bearer", Methods::Get, "Validate a Bearer token", "application/json", query_push(no_query(), "token", "Expected token; defaults to biubin")),
    }
}

/// The whole table.
pub open spec fn endpoint_table() -> Seq<EndpointSpec> {
    Seq::new(ENDPOINT_COUNT as nat, |i: int| endpoint_spec(i))
}

pub open spec fn endpoints_view(v: Seq<HttpEndpoint>) -> Seq<EndpointSpec> {
    v.map_values(|e: HttpEndpoint| e@)
}

/// Every documented endpoint, in table order.
pub fn http_endpoints() -> (v: Vec<HttpEndpoint>)
    ensures
        endpoints_view(v@) == endpoint_table(),
{
    let mut v: Vec<HttpEndpoint> = Vec::new();
    let mut i: usize = 0;
    while i < ENDPOINT_COUNT
        invariant
            i <= ENDPOINT_COUNT,
            v@.len() == i,
            forall|j: int| 0 <= j < i ==> (#[trigger] v@[j])@ == endpoint_spec(j),
        decreases ENDPOINT_COUNT - i,
    {
        v.push(http_endpoint(i));
        i = i + 1;
    }
    assert(endpoints_view(v@) =~= endpoint_table());
    v
}


/// The method names an endpoint lists.
pub open spec fn method_names(m: Methods) -> Seq<Seq<char>> {
    match m {
        Methods::Any => seq!["*"@],
        Methods::Get => seq!["GET"@, "HEAD"@],
        Methods::Post => seq!["POST"@],
        Methods::Put => seq!["PUT"@],
        Methods::Patch => seq!["PATCH"@],
        Methods::Delete => seq!["DELETE"@],
    }
}

fn strings_push(v: Vec<String>, s: &str) -> (r: Vec<String>)
    ensures
        strings_view(r@) == strings_view(v@).push(s@),
{
    let mut r = v;
    let ghost before = r@;
    r.push(s.to_owned());
    assert(strings_view(r@) =~= strings_view(before).push(s@));
    r
}

fn no_strings() -> (r: Vec<String>)
    ensures
        strings_view(r@) == Seq::<Seq<char>>::empty(),
{
    let r: Vec<String> = Vec::new();
    assert(strings_view(r@) =~= Seq::<Seq<char>>::empty());
    r
}

/// The method names of `m`, as the capability document lists them.
pub fn method_list(m: Methods) -> (v: Vec<String>)
    ensures
        strings_view(v@) == method_names(m),
{
    let v = no_strings();
    let v = match m {
        Methods::Any => strings_push(v, "*"),
        Methods::Get => strings_push(strings_push(v, "GET"), "HEAD"),
        Methods::Post => strings_push(v, "POST"),
        Methods::Put => strings_push(v, "PUT"),
        Methods::Patch => strings_push(v, "PATCH"),
        Methods::Delete => strings_push(v, "DELETE"),
    };
    assert(strings_view(v@) =~= method_names(m));
    v
}

/// The methods an endpoint is documented under: every standard method for
/// an endpoint that answers any method.
pub open spec fn openapi_method_names(m: Methods) -> Seq<Seq<char>> {
    if m == Methods::Any {
        seq!["GET"@, "HEAD"@, "POST"@, "PUT"@, "PATCH"@, "DELETE"@, "OPTIONS"@]
    } else {
        method_names(m)
    }
}

pub fn openapi_methods(m: Methods) -> (v: Vec<String>)
    ensures
        strings_view(v@) == openapi_method_names(m),
{
    if m == Methods::Any {
        let v = no_strings();
        let v = strings_push(v, "GET");
        let v = strings_push(v, "HEAD");
        let v = strings_push(v, "POST");
        let v = strings_push(v, "PUT");
        let v = strings_push(v, "PATCH");
        let v = strings_push(v, "DELETE");
        let v = strings_push(v, "OPTIONS");
        assert(strings_view(v@) =~= openapi_method_names(m));
        v
    } else {
        method_list(m)
    }
}

/// The tags of the OpenAPI document with their descriptions, in order.
pub open spec fn http_tags_spec() -> Seq<(Seq<char>, Seq<char>)> {
    seq![
        ("Request fixtures"@, "Request echo and basic HTTP request fixtures."@),
        ("Media"@, "Image, video, and audio response fixtures."@),
        ("State and caching"@, "Cookies, cache validators, and ETag behavior."@),
        ("Authentication"@, "Basic and bearer authentication fixtures."@),
        ("HTTP behavior"@, "Redirects and response header manipulation."@),
        ("Representations"@, "Common JSON, HTML, XML, and UTF-8 representations."@),
        ("Streaming and bytes"@, "Byte ranges, streaming responses, and throttled output."@),
        ("Failure simulation"@, "Deterministic failure and instability simulation."@),
    ]
}

pub open spec fn pairs_of(v: Seq<(String, String)>) -> Seq<(Seq<char>, Seq<char>)> {
    v.map_values(|p: (String, String)| (p.0@, p.1@))
}

fn pair_push(v: Vec<(String, String)>, a: &str, b: &str) -> (r: Vec<(String, String)>)
    ensures
        pairs_of(r@) == pairs_of(v@).push((a@, b@)),
{
    let mut r = v;
    let ghost before = r@;
    r.push((a.to_owned(), b.to_owned()));
    assert(pairs_of(r@) =~= pairs_of(before).push((a@, b@)));
    r
}

pub fn http_tags() -> (v: Vec<(String, String)>)
    ensures
        pairs_of(v@) == http_tags_spec(),
{
    let v: Vec<(String, String)> = Vec::new();
    assert(pairs_of(v@) =~= Seq::<(Seq<char>, Seq<char>)>::empty());
    let v = pair_push(v, "Request fixtures", "Request echo and basic HTTP request fixtures.");
    let v = pair_push(v, "Media", "Image, video, and audio response fixtures.");
    let v = pair_push(v, "State and caching", "Cookies, cache validators, and ETag behavior.");
    let v = pair_push(v, "Authentication", "Basic and bearer authentication fixtures.");
    let v = pair_push(v, "HTTP behavior", "Redirects and response header manipulation.");
    let v = pair_push(v, "Representations", "Common JSON, HTML, XML, and UTF-8 representations.");
    let v = pair_push(v, "Streaming and bytes", "Byte ranges, streaming responses, and throttled output.");
    let v = pair_push(v, "Failure simulation", "Deterministic failure and instability simulation.");
    assert(pairs_of(v@) =~= http_tags_spec());
    v
}

/// The tag an OpenAPI path is filed under.
pub open spec fn tag_spec(path: Seq<char>) -> Seq<char> {
    if has_prefix(path, "/image"@) || has_prefix(path, "/video"@) || has_prefix(path, "/audio"@) {
        "Media"@
    } else if has_prefix(path, "/cookies"@) || has_prefix(path, "/cache"@) || has_prefix(path, "/etag"@) {
        "State and caching"@
    } else if has_prefix(path, "/basic-auth"@) || path == "/bearer"@ {
        "Authentication"@
    } else if path == "/response-headers"@ || path == "/redirect-to"@ {
        "HTTP behavior"@
    } else if path == "/json"@ || path == "/html"@ || path == "/xml"@ || path == "/encoding/utf8"@ {
        "Representations"@
    } else if path == "/drip"@ || path == "/range/{count}"@ || path == "/stream-bytes/{count}"@ {
        "Streaming and bytes"@
    } else if path == "/unstable"@ {
        "Failure simulation"@
    } else {
        "Request fixtures"@
    }
}

pub fn tag_for_path(path: &str) -> (t: String)
    ensures
        t@ == tag_spec(path@),
{
    if str_starts_with(path, "/image") || str_starts_with(path, "/video") || str_starts_with(path, "/audio") {
        "Media".to_owned()
    } else if str_starts_with(path, "/cookies") || str_starts_with(path, "/cache") || str_starts_with(path, "/etag") {
        "State and caching".to_owned()
    } else if str_starts_with(path, "/basic-auth") || str_eq(path, "/bearer") {
        "Authentication".to_owned()
    } else if str_eq(path, "/response-headers") || str_eq(path, "/redirect-to") {
        "HTTP behavior".to_owned()
    } else if str_eq(path, "/json") || str_eq(path, "/html") || str_eq(path, "/xml") || str_eq(path, "/encoding/utf8") {
        "Representations".to_owned()
    } else if str_eq(path, "/drip") || str_eq(path, "/range/{count}") || str_eq(path, "/stream-bytes/{count}") {
        "Streaming and bytes".to_owned()
    } else if str_eq(path, "/unstable") {
        "Failure simulation".to_owned()
    } else {
        "Request fixtures".to_owned()
    }
}

/// The extra description some endpoints carry.
pub open spec fn description_spec(path: Seq<char>) -> Option<Seq<char>> {
    if path == "/bytes/{count}"@ || path == "/range/{count}"@ || path == "/stream-bytes/{count}"@ {
        Some("The byte count is limited by the BIUBIN_MAX_BYTES_RESPONSE configuration value."@)
    } else if path == "/drip"@ {
        Some("numbytes is limited by BIUBIN_MAX_BYTES_RESPONSE; duration and delay are clamped to 30 seconds."@)
    } else if path == "/redirect-to"@ {
        Some("Relative targets are accepted by default. Absolute HTTP(S) targets require BIUBIN_HTTP_ALLOW_EXTERNAL_REDIRECTS=true and are subject to local-address and length checks."@)
    } else {
        None
    }
}

pub fn endpoint_description(path: &str) -> (d: Option<String>)
    ensures
        opt_view(d) == description_spec(path@),
{
    if str_eq(path, "/bytes/{count}") || str_eq(path, "/range/{count}") || str_eq(path, "/stream-bytes/{count}") {
        Some("The byte count is limited by the BIUBIN_MAX_BYTES_RESPONSE configuration value.".to_owned())
    } else if str_eq(path, "/drip") {
        Some("numbytes is limited by BIUBIN_MAX_BYTES_RESPONSE; duration and delay are clamped to 30 seconds.".to_owned())
    } else if str_eq(path, "/redirect-to") {
        Some("Relative targets are accepted by default. Absolute HTTP(S) targets require BIUBIN_HTTP_ALLOW_EXTERNAL_REDIRECTS=true and are subject to local-address and length checks.".to_owned())
    } else {
        None
    }
}

/// Paths whose write methods document a structured request body.
pub open spec fn structured_body_spec(path: Seq<char>) -> bool {
    ||| path == "/post"@
    ||| path == "/put"@
    ||| path == "/patch"@
    ||| path == "/anything"@
    ||| path == "/anything/"@
    ||| path == "/anything/{path}"@
}

pub fn supports_structured_body(path: &str) -> (r: bool)
    ensures
        r == structured_body_spec(path@),
{
    str_eq(path, "/post") || str_eq(path, "/put") || str_eq(path, "/patch") || str_eq(path, "/anything")
        || str_eq(path, "/anything/") || str_eq(path, "/anything/{path}")
}

/// The schema type of a path parameter.
pub open spec fn parameter_type_spec(name: Seq<char>) -> Seq<char> {
    if name == "code"@ || name == "count"@ || name == "seconds"@ {
        "integer"@
    } else {
        "string"@
    }
}

pub fn parameter_type(name: &str) -> (t: String)
    ensures
        t@ == parameter_type_spec(name@),
{
    if str_eq(name, "code") || str_eq(name, "count") || str_eq(name, "seconds") {
        "integer".to_owned()
    } else {
        "string".to_owned()
    }
}

/// A parameter schema: a type name and optional inclusive bounds.
#[derive(Clone, Debug)]
pub struct ParameterSchema {
    pub kind: String,
    pub minimum: Option<u64>,
    pub maximum: Option<u64>,
}

pub struct SchemaSpec {
    pub kind: Seq<char>,
    pub minimum: Option<u64>,
    pub maximum: Option<u64>,
}

impl View for ParameterSchema {
    type V = SchemaSpec;

    open spec fn view(&self) -> SchemaSpec {
        SchemaSpec { kind: self.kind@, minimum: self.minimum, maximum: self.maximum }
    }
}

pub open spec fn schema_of(kind: Seq<char>, minimum: Option<u64>, maximum: Option<u64>) -> SchemaSpec {
    SchemaSpec { kind, minimum, maximum }
}

fn schema(kind: &str, minimum: Option<u64>, maximum: Option<u64>) -> (s: ParameterSchema)
    ensures
        s@ == schema_of(kind@, minimum, maximum),
{
    ParameterSchema { kind: kind.to_owned(), minimum, maximum }
}

/// The schema of a documented query parameter.
pub open spec fn query_schema_spec(name: Seq<char>) -> SchemaSpec {
    if name == "status_code"@ || name == "code"@ {
        schema_of("integer"@, Some(100), Some(999))
    } else if name == "numbytes"@ {
        schema_of("integer"@, Some(0), None)
    } else if name == "duration"@ || name == "delay"@ {
        schema_of("number"@, Some(0), None)
    } else if name == "chunk_size"@ {
        schema_of("integer"@, Some(1), None)
    } else if name == "failure_rate"@ {
        schema_of("number"@, Some(0), Some(1))
    } else {
        schema_of("string"@, None, None)
    }
}

pub fn query_parameter_schema(name: &str) -> (s: ParameterSchema)
    ensures
        s@ == query_schema_spec(name@),
{
    if str_eq(name, "status_code") || str_eq(name, "code") {
        schema("integer", Some(100), Some(999))
    } else if str_eq(name, "numbytes") {
        schema("integer", Some(0), None)
    } else if str_eq(name, "duration") || str_eq(name, "delay") {
        schema("number", Some(0), None)
    } else if str_eq(name, "chunk_size") {
        schema("integer", Some(1), None)
    } else if str_eq(name, "failure_rate") {
        schema("number", Some(0), Some(1))
    } else {
        schema("string", None, None)
    }
}

/// The text before the first `c`, or all of `s`: the first piece that
/// `str::split(c)` yields.
pub open spec fn before_char(s: Seq<char>, c: char) -> Seq<char> {
    match split_once(s, c) {
        Some((a, _)) => a,
        None => s,
    }
}

pub fn before_chars(s: &[char], c: char) -> (r: Vec<char>)
    ensures
        r@ == before_char(s@, c),
{
    match split_once_chars(s, c) {
        Some((a, _)) => a,
        None => {
            let mut r: Vec<char> = Vec::new();
            crate::text::push_all(&mut r, s);
            assert(r@ =~= s@);
            r
        },
    }
}

/// The media type of a content type: the part before any parameters, trimmed.
pub open spec fn media_type_spec(content_type: Seq<char>) -> Seq<char> {
    trim(before_char(content_type, ';'))
}

pub fn media_type(content_type: &str) -> (m: String)
    ensures
        m@ == media_type_spec(content_type@),
{
    let c = chars_of(content_type);
    let b = before_chars(c.as_slice(), ';');
    let t = trim_chars(b.as_slice());
    string_of(t.as_slice())
}


/// The names of the `{..}` parameters of a path template, in order.
pub open spec fn path_params_spec(path: Seq<char>) -> Seq<Seq<char>> {
    split(path, '{').drop_first().map_values(|part: Seq<char>| before_char(part, '}'))
}

pub fn path_parameters(path: &str) -> (names: Vec<String>)
    ensures
        strings_view(names@) == path_params_spec(path@),
{
    let c = chars_of(path);
    let parts = split_chars(c.as_slice(), '{');
    proof {
        lemma_split_nonempty(path@, '{');
    }
    let ghost all = split(path@, '{');
    let mut names: Vec<String> = Vec::new();
    let mut i: usize = 1;
    while i < parts.len()
        invariant
            all == split(path@, '{'),
            views(parts@) == all,
            1 <= i <= parts@.len(),
            strings_view(names@) == all.drop_first().take(i - 1).map_values(
                |part: Seq<char>| before_char(part, '}'),
            ),
        decreases parts@.len() - i,
    {
        let b = before_chars(parts[i].as_slice(), '}');
        let ghost before = names@;
        names.push(string_of(b.as_slice()));
        proof {
            assert(parts@[i as int]@ == all[i as int]);
            assert(all.drop_first().take(i as int) =~= all.drop_first().take(i - 1).push(all[i as int]));
            assert(strings_view(names@) =~= strings_view(before).push(b@));
        }
        i = i + 1;
    }
    proof {
        assert(all.drop_first().take(i - 1) =~= all.drop_first());
    }
    names
}

/// The characters of an operation id taken from a path: braces dropped,
/// `/` and `-` turned into `_`.
pub open spec fn id_chars(s: Seq<char>) -> Seq<char>
    decreases s.len(),
{
    if s.len() == 0 {
        s
    } else {
        let rest = id_chars(s.drop_last());
        let c = s.last();
        if c == '{' || c == '}' {
            rest
        } else if c == '/' || c == '-' {
            rest.push('_')
        } else {
            rest.push(c)
        }
    }
}

/// The operation id of a method on a path template.
pub open spec fn operation_id_spec(path: Seq<char>, method: Seq<char>) -> Seq<char> {
    let trailing = path.len() > 1 && path.last() == '/';
    let body = id_chars(strip_char(path, '/'));
    let name = if body.len() == 0 { "root"@ } else { body };
    let id = lower_seq(method) + seq!['_'] + name;
    if trailing {
        id + "_trailing_slash"@
    } else {
        id
    }
}

fn id_chars_of(s: &[char]) -> (r: Vec<char>)
    ensures
        r@ == id_chars(s@),
{
    let mut r: Vec<char> = Vec::new();
    let mut i: usize = 0;
    while i < s.len()
        invariant
            i <= s@.len(),
            r@ == id_chars(s@.take(i as int)),
        decreases s@.len() - i,
    {
        assert(s@.take(i + 1).drop_last() =~= s@.take(i as int));
        let c = s[i];
        if c == '{' || c == '}' {
        } else if c == '/' || c == '-' {
            r.push('_');
        } else {
            r.push(c);
        }
        i = i + 1;
    }
    assert(s@.take(s@.len() as int) =~= s@);
    r
}

pub fn operation_id(path: &str, method: &str) -> (id: String)
    ensures
        id@ == operation_id_spec(path@, method@),
{
    let p = chars_of(path);
    let trailing = p.len() > 1 && p[p.len() - 1] == '/';
    let stripped = strip_char_chars(p.as_slice(), '/');
    let body = id_chars_of(stripped.as_slice());
    let m = chars_of(method);
    let mut id = lower_chars(m.as_slice());
    id.push('_');
    if body.len() == 0 {
        let root = chars_of("root");
        push_all(&mut id, root.as_slice());
    } else {
        push_all(&mut id, body.as_slice());
    }
    if trailing {
        let tail = chars_of("_trailing_slash");
        push_all(&mut id, tail.as_slice());
    }
    string_of(id.as_slice())
}


/// A documented response: its description and, where it has a body, the
/// media type of that body.
#[derive(Clone, Debug)]
pub struct DocumentedResponse {
    pub description: String,
    pub content_type: Option<String>,
}

impl View for DocumentedResponse {
    type V = (Seq<char>, Option<Seq<char>>);

    open spec fn view(&self) -> (Seq<char>, Option<Seq<char>>) {
        (self.description@, opt_view(self.content_type))
    }
}

/// The responses of an operation, keyed by status, in the order they are listed.
pub open spec fn responses_view(v: Seq<(String, DocumentedResponse)>) -> Seq<(Seq<char>, (Seq<char>, Option<Seq<char>>))> {
    v.map_values(|r: (String, DocumentedResponse)| (r.0@, r.1@))
}

pub open spec fn ref_view(o: Option<&str>) -> Option<Seq<char>> {
    match o {
        Some(s) => Some(s@),
        None => None,
    }
}

pub fn documented_response(description: &str, content_type: Option<&str>) -> (r: DocumentedResponse)
    ensures
        r@ == (description@, ref_view(content_type)),
{
    let content_type = match content_type {
        Some(c) => Some(c.to_owned()),
        None => None,
    };
    DocumentedResponse { description: description.to_owned(), content_type }
}

/// Lists one more documented response.
pub fn insert_response(
    responses: &mut Vec<(String, DocumentedResponse)>,
    status: &str,
    description: &str,
    content_type: Option<&str>,
)
    ensures
        responses_view(final(responses)@) == responses_view(old(responses)@).push(
            (status@, (description@, ref_view(content_type))),
        ),
{
    let ghost before = responses@;
    responses.push((status.to_owned(), documented_response(description, content_type)));
    assert(responses_view(responses@) =~= responses_view(before).push(
        (status@, (description@, ref_view(content_type))),
    ));
}

pub open spec fn entry(status: Seq<char>, description: Seq<char>, content: Option<Seq<char>>) -> (Seq<char>, (Seq<char>, Option<Seq<char>>)) {
    (status, (description, content))
}

/// Is this one of the media fixture paths?
pub open spec fn media_path(path: Seq<char>) -> bool {
    ||| has_prefix(path, "/image/"@)
    ||| has_prefix(path, "/video/"@)
    ||| has_prefix(path, "/audio/"@)
    ||| path == "/image"@
    ||| path == "/video"@
    ||| path == "/audio"@
}

/// The responses particular to a path, listed after `base`.
pub open spec fn path_responses(path: Seq<char>, ct: Seq<char>, base: Seq<(Seq<char>, (Seq<char>, Option<Seq<char>>))>) -> Seq<(Seq<char>, (Seq<char>, Option<Seq<char>>))> {
    if path == "/status/{code}"@ {
        base.push(entry("400"@, "The status code is missing or invalid."@, None))
    } else if path == "/delay/{seconds}"@ {
        base.push(entry("400"@, "The delay is invalid."@, None))
    } else if path == "/redirect/{count}"@ {
        base.push(entry("302"@, "A relative redirect to the next count."@, None))
            .push(entry("400"@, "The redirect count is invalid."@, None))
    } else if path == "/redirect-to"@ {
        base.push(entry("301"@, "Redirect to the validated target URL."@, None))
            .push(entry("302"@, "Redirect to the validated target URL."@, None))
            .push(entry("303"@, "Redirect to the validated target URL."@, None))
            .push(entry("307"@, "Redirect to the validated target URL."@, None))
            .push(entry("308"@, "Redirect to the validated target URL."@, None))
            .push(entry("400"@, "The target URL or status code is invalid."@, None))
    } else if path == "/bytes/{count}"@ || path == "/range/{count}"@ {
        base.push(entry("206"@, "A partial byte range response."@, Some(ct)))
            .push(entry("400"@, "The byte count is invalid."@, None))
            .push(entry("413"@, "The byte count exceeds the configured response limit."@, None))
            .push(entry("416"@, "The requested byte range is not satisfiable."@, None))
    } else if path == "/stream-bytes/{count}"@ {
        base.push(entry("400"@, "The byte count is invalid."@, None))
            .push(entry("413"@, "The byte count exceeds the configured response limit."@, None))
    } else if media_path(path) {
        base.push(entry("206"@, "A partial media byte range response."@, Some(ct)))
            .push(entry("404"@, "The requested media format is not supported."@, None))
            .push(entry("416"@, "The requested byte range is not satisfiable."@, None))
    } else if path == "/basic-auth/{user}/{password}"@ {
        base.push(entry("401"@, "The credentials are missing or invalid."@, None))
    } else if path == "/response-headers"@ {
        base.push(entry("400"@, "A requested response header is not allowed."@, None))
    } else if path == "/cookies/set/{name}/{value}"@ || path == "/cookies/delete/{name}"@ {
        base.push(entry("302"@, "Redirect to the cookie inspection endpoint."@, None))
            .push(entry("400"@, "The cookie name or value is invalid."@, None))
    } else if path == "/cache"@ {
        base.push(entry("304"@, "The cached representation is still fresh."@, None))
    } else if path == "/cache/{seconds}"@ {
        base.push(entry("304"@, "The cached representation is still fresh."@, None))
            .push(entry("400"@, "The cache max-age is invalid."@, None))
    } else if path == "/etag/{value}"@ {
        base.push(entry("304"@, "The representation matches If-None-Match."@, None))
            .push(entry("412"@, "The representation does not satisfy If-Match."@, None))
    } else if path == "/drip"@ {
        base.push(entry("400"@, "One or more drip parameters are invalid."@, None))
    } else if path == "/unstable"@ {
        base.push(entry("400"@, "The failure rate is invalid."@, None))
            .push(entry("503"@, "The deterministic failure decision failed the request."@, None))
    } else if path == "/bearer"@ {
        base.push(entry("401"@, "The Bearer token is missing or invalid."@, None))
    } else {
        base
    }
}

/// Every documented response of an operation on `path` whose success body has
/// media type `ct`: success first, the path's own responses, then the default.
pub open spec fn responses_spec(path: Seq<char>, ct: Seq<char>) -> Seq<(Seq<char>, (Seq<char>, Option<Seq<char>>))> {
    path_responses(
        path,
        ct,
        Seq::empty().push(entry("200"@, "Successful fixture response"@, Some(ct))),
    ).push(entry("default"@, "Other fixture error response"@, None))
}

fn is_media_path(path: &str) -> (r: bool)
    ensures
        r == media_path(path@),
{
    str_starts_with(path, "/image/") || str_starts_with(path, "/video/") || str_starts_with(path, "/audio/")
        || str_eq(path, "/image") || str_eq(path, "/video") || str_eq(path, "/audio")
}

pub fn response_definitions(path: &str, content_type: &str) -> (responses: Vec<(String, DocumentedResponse)>)
    ensures
        responses_view(responses@) == responses_spec(path@, content_type@),
{
    let mut responses: Vec<(String, DocumentedResponse)> = Vec::new();
    assert(responses_view(responses@) =~= Seq::<(Seq<char>, (Seq<char>, Option<Seq<char>>))>::empty());
    insert_response(&mut responses, "200", "Successful fixture response", Some(content_type));
    let ghost base = responses_view(responses@);
    if str_eq(path, "/status/{code}") {
        insert_response(&mut responses, "400", "The status code is missing or invalid.", None);
    } else if str_eq(path, "/delay/{seconds}") {
        insert_response(&mut responses, "400", "The delay is invalid.", None);
    } else if str_eq(path, "/redirect/{count}") {
        insert_response(&mut responses, "302", "A relative redirect to the next count.", None);
        insert_response(&mut responses, "400", "The redirect count is invalid.", None);
    } else if str_eq(path, "/redirect-to") {
        insert_response(&mut responses, "301", "Redirect to the validated target URL.", None);
        insert_response(&mut responses, "302", "Redirect to the validated target URL.", None);
        insert_response(&mut responses, "303", "Redirect to the validated target URL.", None);
        insert_response(&mut responses, "307", "Redirect to the validated target URL.", None);
        insert_response(&mut responses, "308", "Redirect to the validated target URL.", None);
        insert_response(&mut responses, "400", "The target URL or status code is invalid.", None);
    } else if str_eq(path, "/bytes/{count}") || str_eq(path, "/range/{count}") {
        insert_response(&mut responses, "206", "A partial byte range response.", Some(content_type));
        insert_response(&mut responses, "400", "The byte count is invalid.", None);
        insert_response(&mut responses, "413", "The byte count exceeds the configured response limit.", None);
        insert_response(&mut responses, "416", "The requested byte range is not satisfiable.", None);
    } else if str_eq(path, "/stream-bytes/{count}") {
        insert_response(&mut responses, "400", "The byte count is invalid.", None);
        insert_response(&mut responses, "413", "The byte count exceeds the configured response limit.", None);
    } else if is_media_path(path) {
        insert_response(&mut responses, "206", "A partial media byte range response.", Some(content_type));
        insert_response(&mut responses, "404", "The requested media format is not supported.", None);
        insert_response(&mut responses, "416", "The requested byte range is not satisfiable.", None);
    } else if str_eq(path, "/basic-auth/{user}/{password}") {
        insert_response(&mut responses, "401", "The credentials are missing or invalid.", None);
    } else if str_eq(path, "/response-headers") {
        insert_response(&mut responses, "400", "A requested response header is not allowed.", None);
    } else if str_eq(path, "/cookies/set/{name}/{value}") || str_eq(path, "/cookies/delete/{name}") {
        insert_response(&mut responses, "302", "Redirect to the cookie inspection endpoint.", None);
        insert_response(&mut responses, "400", "The cookie name or value is invalid.", None);
    } else if str_eq(path, "/cache") {
        insert_response(&mut responses, "304", "The cached representation is still fresh.", None);
    } else if str_eq(path, "/cache/{seconds}") {
        insert_response(&mut responses, "304", "The cached representation is still fresh.", None);
        insert_response(&mut responses, "400", "The cache max-age is invalid.", None);
    } else if str_eq(path, "/etag/{value}") {
        insert_response(&mut responses, "304", "The representation matches If-None-Match.", None);
        insert_response(&mut responses, "412", "The representation does not satisfy If-Match.", None);
    } else if str_eq(path, "/drip") {
        insert_response(&mut responses, "400", "One or more drip parameters are invalid.", None);
    } else if str_eq(path, "/unstable") {
        insert_response(&mut responses, "400", "The failure rate is invalid.", None);
        insert_response(&mut responses, "503", "The deterministic failure decision failed the request.", None);
    } else if str_eq(path, "/bearer") {
        insert_response(&mut responses, "401", "The Bearer token is missing or invalid.", None);
    }
    assert(responses_view(responses@) == path_responses(path@, content_type@, base));
    insert_response(&mut responses, "default", "Other fixture error response", None);
    responses
}


/// Where a parameter is carried.
#[derive(Clone, Copy, PartialEq, Eq, Structural, Debug)]
pub enum ParameterLocation {
    Path,
    Query,
}

/// A documented parameter of an operation.
#[derive(Clone, Debug)]
pub struct Parameter {
    pub name: String,
    pub location: ParameterLocation,
    pub required: bool,
    pub description: Option<String>,
    pub schema: ParameterSchema,
}

pub struct ParameterSpec {
    pub name: Seq<char>,
    pub location: ParameterLocation,
    pub required: bool,
    pub description: Option<Seq<char>>,
    pub schema: SchemaSpec,
}

impl View for Parameter {
    type V = ParameterSpec;

    open spec fn view(&self) -> ParameterSpec {
        ParameterSpec {
            name: self.name@,
            location: self.location,
            required: self.required,
            description: opt_view(self.description),
            schema: self.schema@,
        }
    }
}

pub open spec fn params_view(v: Seq<Parameter>) -> Seq<ParameterSpec> {
    v.map_values(|p: Parameter| p@)
}

/// A path parameter: required, typed by its name.
pub open spec fn path_param_spec(name: Seq<char>) -> ParameterSpec {
    ParameterSpec {
        name,
        location: ParameterLocation::Path,
        required: true,
        description: None,
        schema: schema_of(parameter_type_spec(name), None, None),
    }
}

/// A documented query parameter: optional, with its own schema.
pub open spec fn query_param_spec(q: (Seq<char>, Seq<char>)) -> ParameterSpec {
    ParameterSpec {
        name: q.0,
        location: ParameterLocation::Query,
        required: false,
        description: Some(q.1),
        schema: query_schema_spec(q.0),
    }
}

/// The parameters of an operation: path parameters in template order, then
/// the documented query parameters.
pub open spec fn parameters_spec(e: EndpointSpec) -> Seq<ParameterSpec> {
    path_params_spec(e.openapi_path).map_values(|n: Seq<char>| path_param_spec(n))
        + e.query.map_values(|q: (Seq<char>, Seq<char>)| query_param_spec(q))
}

/// The security scheme an operation names.
#[derive(Clone, Copy, PartialEq, Eq, Structural, Debug)]
pub enum Security {
    /// `basicAuth`: HTTP Basic.
    Basic,
    /// `bearerAuth`: HTTP Bearer.
    Bearer,
}

/// One operation of the OpenAPI document.
#[derive(Clone, Debug)]
pub struct Operation {
    pub tag: String,
    pub summary: String,
    pub operation_id: String,
    pub responses: Vec<(String, DocumentedResponse)>,
    pub parameters: Vec<Parameter>,
    pub description: Option<String>,
    /// Whether a JSON, form or multipart request body is documented.
    pub request_body: bool,
    pub security: Option<Security>,
}

pub struct OperationSpec {
    pub tag: Seq<char>,
    pub summary: Seq<char>,
    pub operation_id: Seq<char>,
    pub responses: Seq<(Seq<char>, (Seq<char>, Option<Seq<char>>))>,
    pub parameters: Seq<ParameterSpec>,
    pub description: Option<Seq<char>>,
    pub request_body: bool,
    pub security: Option<Security>,
}

impl View for Operation {
    type V = OperationSpec;

    open spec fn view(&self) -> OperationSpec {
        OperationSpec {
            tag: self.tag@,
            summary: self.summary@,
            operation_id: self.operation_id@,
            responses: responses_view(self.responses@),
            parameters: params_view(self.parameters@),
            description: opt_view(self.description),
            request_body: self.request_body,
            security: self.security,
        }
    }
}

/// Methods whose operations may carry a request body.
pub open spec fn body_method(method: Seq<char>) -> bool {
    method == "POST"@ || method == "PUT"@ || method == "PATCH"@
}

pub open spec fn security_spec(path: Seq<char>) -> Option<Security> {
    if has_prefix(path, "/basic-auth/"@) {
        Some(Security::Basic)
    } else if path == "/bearer"@ {
        Some(Security::Bearer)
    } else {
        None
    }
}

/// The operation documenting `method` on endpoint `e`.
pub open spec fn operation_spec(e: EndpointSpec, method: Seq<char>) -> OperationSpec {
    OperationSpec {
        tag: tag_spec(e.openapi_path),
        summary: e.summary,
        operation_id: operation_id_spec(e.openapi_path, method),
        responses: responses_spec(e.openapi_path, media_type_spec(e.content_type)),
        parameters: parameters_spec(e),
        description: description_spec(e.openapi_path),
        request_body: body_method(method) && structured_body_spec(e.openapi_path),
        security: security_spec(e.openapi_path),
    }
}

fn parameters_of(e: &HttpEndpoint) -> (v: Vec<Parameter>)
    ensures
        params_view(v@) == parameters_spec(e@),
{
    let names = path_parameters(e.openapi_path.as_str());
    let ghost path_part = path_params_spec(e@.openapi_path).map_values(|n: Seq<char>| path_param_spec(n));
    let mut v: Vec<Parameter> = Vec::new();
    let mut i: usize = 0;
    while i < names.len()
        invariant
            strings_view(names@) == path_params_spec(e@.openapi_path),
            path_part == path_params_spec(e@.openapi_path).map_values(|n: Seq<char>| path_param_spec(n)),
            i <= names@.len(),
            params_view(v@) == path_part.take(i as int),
        decreases names@.len() - i,
    {
        let name = names[i].as_str();
        let kind = parameter_type(name);
        let ghost before = v@;
        v.push(Parameter {
            name: name.to_owned(),
            location: ParameterLocation::Path,
            required: true,
            description: None,
            schema: ParameterSchema { kind, minimum: None, maximum: None },
        });
        proof {
            assert(names@[i as int]@ == path_params_spec(e@.openapi_path)[i as int]);
            assert(path_part.take(i + 1) =~= path_part.take(i as int).push(path_part[i as int]));
            assert(params_view(v@) =~= params_view(before).push(path_part[i as int]));
        }
        i = i + 1;
    }
    assert(path_part.take(i as int) =~= path_part);
    let ghost query_part = e@.query.map_values(|q: (Seq<char>, Seq<char>)| query_param_spec(q));
    let mut j: usize = 0;
    while j < e.query_parameters.len()
        invariant
            query_part == e@.query.map_values(|q: (Seq<char>, Seq<char>)| query_param_spec(q)),
            e@.query == query_view(e.query_parameters@),
            j <= e.query_parameters@.len(),
            params_view(v@) == path_part + query_part.take(j as int),
        decreases e.query_parameters@.len() - j,
    {
        let q = &e.query_parameters[j];
        let ghost before = v@;
        v.push(Parameter {
            name: q.name.clone(),
            location: ParameterLocation::Query,
            required: false,
            description: Some(q.description.clone()),
            schema: query_parameter_schema(q.name.as_str()),
        });
        proof {
            assert(query_part[j as int] == query_param_spec((q.name@, q.description@)));
            assert(query_part.take(j + 1) =~= query_part.take(j as int).push(query_part[j as int]));
            assert(params_view(v@) =~= params_view(before).push(query_part[j as int]));
            assert(path_part + query_part.take(j + 1) =~= (path_part + query_part.take(j as int)).push(query_part[j as int]));
        }
        j = j + 1;
    }
    assert(query_part.take(j as int) =~= query_part);
    v
}

fn is_body_method(method: &str) -> (r: bool)
    ensures
        r == body_method(method@),
{
    str_eq(method, "POST") || str_eq(method, "PUT") || str_eq(method, "PATCH")
}

/// The operation documenting `method` on `endpoint`.
pub fn operation(endpoint: &HttpEndpoint, method: &str) -> (op: Operation)
    ensures
        op@ == operation_spec(endpoint@, method@),
{
    let path = endpoint.openapi_path.as_str();
    let parameters = parameters_of(endpoint);
    let content_type = media_type(endpoint.response_content_type.as_str());
    let responses = response_definitions(path, content_type.as_str());
    let security = if str_starts_with(path, "/basic-auth/") {
        Some(Security::Basic)
    } else if str_eq(path, "/bearer") {
        Some(Security::Bearer)
    } else {
        None
    };
    let request_body = is_body_method(method) && supports_structured_body(path);
    Operation {
        tag: tag_for_path(path),
        summary: endpoint.summary.clone(),
        operation_id: operation_id(path, method),
        responses,
        parameters,
        description: endpoint_description(path),
        request_body,
        security,
    }
}


/// How the capability document lists one endpoint.
#[derive(Clone, Debug)]
pub struct Capability {
    pub protocol: String,
    pub methods: Vec<String>,
    pub path: String,
    /// Whether the endpoint answers every method.
    pub any_method: bool,
}

pub struct CapabilitySpec {
    pub protocol: Seq<char>,
    pub methods: Seq<Seq<char>>,
    pub path: Seq<char>,
    pub any_method: bool,
}

impl View for Capability {
    type V = CapabilitySpec;

    open spec fn view(&self) -> CapabilitySpec {
        CapabilitySpec {
            protocol: self.protocol@,
            methods: strings_view(self.methods@),
            path: self.path@,
            any_method: self.any_method,
        }
    }
}

pub open spec fn capability_spec(e: EndpointSpec) -> CapabilitySpec {
    CapabilitySpec {
        protocol: "http"@,
        methods: method_names(e.methods),
        path: e.capability_path,
        any_method: e.methods == Methods::Any,
    }
}

/// The HTTP entries of the capability document, one per endpoint, in table order.
pub fn http_capabilities() -> (v: Vec<Capability>)
    ensures
        v@.len() == ENDPOINT_COUNT,
        forall|i: int| 0 <= i < ENDPOINT_COUNT ==> (#[trigger] v@[i])@ == capability_spec(endpoint_spec(i)),
{
    let endpoints = http_endpoints();
    assert(endpoints_view(endpoints@).len() == endpoints@.len());
    let mut v: Vec<Capability> = Vec::new();
    let mut i: usize = 0;
    while i < endpoints.len()
        invariant
            endpoints_view(endpoints@) == endpoint_table(),
            endpoints@.len() == ENDPOINT_COUNT,
            i <= endpoints@.len(),
            v@.len() == i,
            forall|j: int| 0 <= j < i ==> (#[trigger] v@[j])@ == capability_spec(endpoint_spec(j)),
        decreases endpoints@.len() - i,
    {
        let e = &endpoints[i];
        assert(e@ == endpoint_table()[i as int]);
        let c = Capability {
            protocol: "http".to_owned(),
            methods: method_list(e.methods),
            path: e.capability_path.clone(),
            any_method: e.methods == Methods::Any,
        };
        assert(c@ == capability_spec(endpoint_spec(i as int)));
        v.push(c);
        i = i + 1;
    }
    v
}

/// The operations of a path, keyed by lower-case method name.
pub open spec fn ops_view(v: Seq<(String, Operation)>) -> Seq<(Seq<char>, OperationSpec)> {
    v.map_values(|p: (String, Operation)| (p.0@, p.1@))
}

/// `i` is the first index whose key is `key`.
pub open spec fn first_key(s: Seq<(Seq<char>, OperationSpec)>, key: Seq<char>, i: int) -> bool {
    &&& 0 <= i < s.len()
    &&& s[i].0 == key
    &&& forall|j: int| 0 <= j < i ==> s[j].0 != key
}

/// Sets the operation under `key`, replacing one already there.
pub open spec fn put_op(s: Seq<(Seq<char>, OperationSpec)>, key: Seq<char>, op: OperationSpec) -> Seq<(Seq<char>, OperationSpec)> {
    if exists|i: int| first_key(s, key, i) {
        s.update(choose|i: int| first_key(s, key, i), (key, op))
    } else {
        s.push((key, op))
    }
}

/// The operations of endpoint `e` for each of `methods`, set in order.
pub open spec fn put_ops(
    s: Seq<(Seq<char>, OperationSpec)>,
    e: EndpointSpec,
    methods: Seq<Seq<char>>,
) -> Seq<(Seq<char>, OperationSpec)>
    decreases methods.len(),
{
    if methods.len() == 0 {
        s
    } else {
        put_op(put_ops(s, e, methods.drop_last()), lower_seq(methods.last()), operation_spec(e, methods.last()))
    }
}

/// One path of the OpenAPI document.
#[derive(Clone, Debug)]
pub struct PathItem {
    pub path: String,
    /// Whether an endpoint on this path answers every method.
    pub any_method: bool,
    pub operations: Vec<(String, Operation)>,
}

pub struct PathItemSpec {
    pub path: Seq<char>,
    pub any_method: bool,
    pub operations: Seq<(Seq<char>, OperationSpec)>,
}

impl View for PathItem {
    type V = PathItemSpec;

    open spec fn view(&self) -> PathItemSpec {
        PathItemSpec { path: self.path@, any_method: self.any_method, operations: ops_view(self.operations@) }
    }
}

pub open spec fn items_view(v: Seq<PathItem>) -> Seq<PathItemSpec> {
    v.map_values(|p: PathItem| p@)
}

/// `i` is the first item on `path`.
pub open spec fn first_item(s: Seq<PathItemSpec>, path: Seq<char>, i: int) -> bool {
    &&& 0 <= i < s.len()
    &&& s[i].path == path
    &&& forall|j: int| 0 <= j < i ==> s[j].path != path
}

/// Adds the operations of one endpoint to the item on its path.
pub open spec fn add_to_item(item: PathItemSpec, e: EndpointSpec) -> PathItemSpec {
    PathItemSpec {
        path: item.path,
        any_method: item.any_method || e.methods == Methods::Any,
        operations: put_ops(item.operations, e, openapi_method_names(e.methods)),
    }
}

/// Files endpoint `e` under its path, opening the path when it is new.
pub open spec fn add_endpoint(s: Seq<PathItemSpec>, e: EndpointSpec) -> Seq<PathItemSpec> {
    if exists|i: int| first_item(s, e.openapi_path, i) {
        let i = choose|i: int| first_item(s, e.openapi_path, i);
        s.update(i, add_to_item(s[i], e))
    } else {
        s.push(add_to_item(PathItemSpec { path: e.openapi_path, any_method: false, operations: Seq::empty() }, e))
    }
}

/// The paths of the document built from `es`, endpoint by endpoint.
pub open spec fn document_paths(es: Seq<EndpointSpec>) -> Seq<PathItemSpec>
    decreases es.len(),
{
    if es.len() == 0 {
        Seq::empty()
    } else {
        add_endpoint(document_paths(es.drop_last()), es.last())
    }
}

proof fn lemma_first_key_unique(s: Seq<(Seq<char>, OperationSpec)>, key: Seq<char>, i: int, k: int)
    requires
        first_key(s, key, i),
        first_key(s, key, k),
    ensures
        i == k,
{
    if i < k {
        assert(s[i].0 != key);
    } else if k < i {
        assert(s[k].0 != key);
    }
}

proof fn lemma_first_item_unique(s: Seq<PathItemSpec>, path: Seq<char>, i: int, k: int)
    requires
        first_item(s, path, i),
        first_item(s, path, k),
    ensures
        i == k,
{
    if i < k {
        assert(s[i].path != path);
    } else if k < i {
        assert(s[k].path != path);
    }
}

/// Sets `op` under `key` in `ops`.
fn set_operation(ops: &mut Vec<(String, Operation)>, key: String, op: Operation)
    ensures
        ops_view(final(ops)@) == put_op(ops_view(old(ops)@), key@, op@),
{
    let ghost s = ops_view(ops@);
    let mut i: usize = 0;
    while i < ops.len()
        invariant
            s == ops_view(ops@),
            ops@ == old(ops)@,
            i <= ops@.len(),
            forall|j: int| 0 <= j < i ==> s[j].0 != key@,
        decreases ops@.len() - i,
    {
        if str_eq(ops[i].0.as_str(), key.as_str()) {
            proof {
                assert(first_key(s, key@, i as int));
                let k = choose|k: int| first_key(s, key@, k);
                lemma_first_key_unique(s, key@, i as int, k);
            }
            let ghost kv = key@;
            let ghost ov = op@;
            ops.set(i, (key, op));
            assert(ops_view(ops@) =~= s.update(i as int, (kv, ov)));
            return;
        }
        i = i + 1;
    }
    proof {
        if exists|k: int| first_key(s, key@, k) {
            let k = choose|k: int| first_key(s, key@, k);
            assert(s[k].0 != key@);
        }
    }
    let ghost kv = key@;
    let ghost ov = op@;
    ops.push((key, op));
    assert(ops_view(ops@) =~= s.push((kv, ov)));
}

/// Adds the operations of `e` to `item`.
fn add_operations(item: &mut PathItem, e: &HttpEndpoint)
    requires
        old(item)@.path == e@.openapi_path,
    ensures
        final(item)@ == add_to_item(old(item)@, e@),
{
    if e.methods == Methods::Any {
        item.any_method = true;
    }
    let methods = openapi_methods(e.methods);
    let ghost names = openapi_method_names(e.methods);
    let ghost start = ops_view(item.operations@);
    let ghost path = item.path@;
    let ghost any = item.any_method;
    let mut i: usize = 0;
    while i < methods.len()
        invariant
            item.path@ == path,
            item.any_method == any,
            strings_view(methods@) == names,
            names == openapi_method_names(e@.methods),
            i <= methods@.len(),
            ops_view(item.operations@) == put_ops(start, e@, names.take(i as int)),
        decreases methods@.len() - i,
    {
        let m = methods[i].as_str();
        let op = operation(e, m);
        let mc = chars_of(m);
        let lc = lower_chars(mc.as_slice());
        let key = string_of(lc.as_slice());
        proof {
            assert(names.take(i + 1).drop_last() =~= names.take(i as int));
            assert(names.take(i + 1).last() == m@);
        }
        set_operation(&mut item.operations, key, op);
        i = i + 1;
    }
    assert(names.take(i as int) =~= names);
}

/// Files endpoint `e` under its path.
fn add_endpoint_to(paths: &mut Vec<PathItem>, e: &HttpEndpoint)
    ensures
        items_view(final(paths)@) == add_endpoint(items_view(old(paths)@), e@),
{
    let ghost s = items_view(paths@);
    let mut i: usize = 0;
    while i < paths.len()
        invariant
            s == items_view(paths@),
            paths@ == old(paths)@,
            i <= paths@.len(),
            forall|j: int| 0 <= j < i ==> s[j].path != e@.openapi_path,
        decreases paths@.len() - i,
    {
        if str_eq(paths[i].path.as_str(), e.openapi_path.as_str()) {
            proof {
                assert(first_item(s, e@.openapi_path, i as int));
                let k = choose|k: int| first_item(s, e@.openapi_path, k);
                lemma_first_item_unique(s, e@.openapi_path, i as int, k);
            }
            let mut item = paths.remove(i);
            assert(item@ == s[i as int]);
            add_operations(&mut item, e);
            let ghost iv = item@;
            paths.insert(i, item);
            assert(items_view(paths@) =~= s.update(i as int, iv));
            return;
        }
        i = i + 1;
    }
    proof {
        if exists|k: int| first_item(s, e@.openapi_path, k) {
            let k = choose|k: int| first_item(s, e@.openapi_path, k);
            assert(s[k].path != e@.openapi_path);
        }
    }
    let mut item = PathItem { path: e.openapi_path.clone(), any_method: false, operations: Vec::new() };
    assert(ops_view(item.operations@) =~= Seq::<(Seq<char>, OperationSpec)>::empty());
    add_operations(&mut item, e);
    let ghost iv = item@;
    paths.push(item);
    assert(items_view(paths@) =~= s.push(iv));
}

/// The OpenAPI document of the HTTP fixtures.
#[derive(Clone, Debug)]
pub struct OpenApiDocument {
    pub openapi: String,
    pub title: String,
    pub version: String,
    pub description: String,
    pub tags: Vec<(String, String)>,
    pub paths: Vec<PathItem>,
}

/// Builds the OpenAPI document of the fixture table, for the given package version.
pub fn openapi_document(version: &str) -> (doc: OpenApiDocument)
    ensures
        doc.openapi@ == "3.0.3"@,
        doc.title@ == "BiuBin HTTP fixtures"@,
        doc.version@ == version@,
        doc.description@ == "Deterministic HTTP request and response fixtures for local development and integration tests."@,
        pairs_of(doc.tags@) == http_tags_spec(),
        items_view(doc.paths@) == document_paths(endpoint_table()),
{
    let endpoints = http_endpoints();
    let mut paths: Vec<PathItem> = Vec::new();
    let mut i: usize = 0;
    while i < endpoints.len()
        invariant
            endpoints_view(endpoints@) == endpoint_table(),
            i <= endpoints@.len(),
            items_view(paths@) == document_paths(endpoint_table().take(i as int)),
        decreases endpoints@.len() - i,
    {
        proof {
            assert(endpoint_table().take(i + 1).drop_last() =~= endpoint_table().take(i as int));
            assert(endpoints@[i as int]@ == endpoint_table()[i as int]);
        }
        add_endpoint_to(&mut paths, &endpoints[i]);
        i = i + 1;
    }
    assert(endpoint_table().take(i as int) =~= endpoint_table());
    OpenApiDocument {
        openapi: "3.0.3".to_owned(),
        title: "BiuBin HTTP fixtures".to_owned(),
        version: version.to_owned(),
        description: "Deterministic HTTP request and response fixtures for local development and integration tests.".to_owned(),
        tags: http_tags(),
        paths,
    }
}

/// An operation is listed under `key`.
pub open spec fn has_key(ops: Seq<(Seq<char>, OperationSpec)>, key: Seq<char>) -> bool {
    exists|i: int| 0 <= i < ops.len() && #[trigger] ops[i].0 == key
}

/// The document has a path `path` with an operation for each of `methods`,
/// keyed by the lower-case method name.
pub open spec fn documents(items: Seq<PathItemSpec>, path: Seq<char>, methods: Seq<Seq<char>>) -> bool {
    exists|j: int| 0 <= j < items.len() && #[trigger] items[j].path == path
        && forall|t: int| 0 <= t < methods.len() ==> has_key(items[j].operations, lower_seq(#[trigger] methods[t]))
}

proof fn lemma_put_op_keys(s: Seq<(Seq<char>, OperationSpec)>, key: Seq<char>, op: OperationSpec)
    ensures
        has_key(put_op(s, key, op), key),
        forall|k: Seq<char>| has_key(s, k) ==> has_key(put_op(s, key, op), k),
{
    let r = put_op(s, key, op);
    if exists|i: int| first_key(s, key, i) {
        let f = choose|i: int| first_key(s, key, i);
        assert(r[f].0 == key);
        assert forall|k: Seq<char>| has_key(s, k) implies has_key(r, k) by {
            let i = choose|i: int| 0 <= i < s.len() && #[trigger] s[i].0 == k;
            assert(r[i].0 == k);
        }
    } else {
        assert(r[s.len() as int].0 == key);
        assert forall|k: Seq<char>| has_key(s, k) implies has_key(r, k) by {
            let i = choose|i: int| 0 <= i < s.len() && #[trigger] s[i].0 == k;
            assert(r[i].0 == k);
        }
    }
}

proof fn lemma_put_ops_keys(s: Seq<(Seq<char>, OperationSpec)>, e: EndpointSpec, methods: Seq<Seq<char>>)
    ensures
        forall|k: Seq<char>| has_key(s, k) ==> has_key(put_ops(s, e, methods), k),
        forall|t: int| 0 <= t < methods.len() ==> has_key(put_ops(s, e, methods), lower_seq(#[trigger] methods[t])),
    decreases methods.len(),
{
    if methods.len() > 0 {
        let prev = methods.drop_last();
        lemma_put_ops_keys(s, e, prev);
        let before = put_ops(s, e, prev);
        lemma_put_op_keys(before, lower_seq(methods.last()), operation_spec(e, methods.last()));
        assert forall|t: int| 0 <= t < methods.len() implies has_key(put_ops(s, e, methods), lower_seq(#[trigger] methods[t])) by {
            if t < methods.len() - 1 {
                assert(methods[t] == prev[t]);
            }
        }
    }
}

proof fn lemma_add_endpoint(items: Seq<PathItemSpec>, e: EndpointSpec)
    ensures
        add_endpoint(items, e).len() >= items.len(),
        forall|j: int| 0 <= j < items.len() ==> {
            &&& (#[trigger] add_endpoint(items, e)[j]).path == items[j].path
            &&& forall|k: Seq<char>| has_key(items[j].operations, k) ==> has_key(add_endpoint(items, e)[j].operations, k)
        },
        documents(add_endpoint(items, e), e.openapi_path, openapi_method_names(e.methods)),
{
    let r = add_endpoint(items, e);
    let names = openapi_method_names(e.methods);
    if exists|i: int| first_item(items, e.openapi_path, i) {
        let f = choose|i: int| first_item(items, e.openapi_path, i);
        lemma_put_ops_keys(items[f].operations, e, names);
        assert(r[f] == add_to_item(items[f], e));
        assert(r[f].path == e.openapi_path);
    } else {
        let fresh = PathItemSpec { path: e.openapi_path, any_method: false, operations: Seq::empty() };
        lemma_put_ops_keys(fresh.operations, e, names);
        let last = items.len() as int;
        assert(r[last] == add_to_item(fresh, e));
        assert(r[last].path == e.openapi_path);
    }
}

/// The OpenAPI document describes every endpoint of the table it is built
/// from: each has its path, with an operation for each method it answers.
pub proof fn law_document_describes_every_endpoint(es: Seq<EndpointSpec>, i: int)
    requires
        0 <= i < es.len(),
    ensures
        documents(document_paths(es), es[i].openapi_path, openapi_method_names(es[i].methods)),
    decreases es.len(),
{
    let prev = es.drop_last();
    let before = document_paths(prev);
    lemma_add_endpoint(before, es.last());
    if i < es.len() - 1 {
        law_document_describes_every_endpoint(prev, i);
        assert(prev[i] == es[i]);
        let names = openapi_method_names(es[i].methods);
        let j = choose|j: int| 0 <= j < before.len() && #[trigger] before[j].path == es[i].openapi_path
            && forall|t: int| 0 <= t < names.len() ==> has_key(before[j].operations, lower_seq(#[trigger] names[t]));
        let after = document_paths(es);
        assert(after == add_endpoint(before, es.last()));
        assert(after[j].path == es[i].openapi_path);
        assert forall|t: int| 0 <= t < names.len() implies has_key(after[j].operations, lower_seq(#[trigger] names[t])) by {
            assert(has_key(before[j].operations, lower_seq(names[t])));
        }
    }
}

/// The fixture table's document describes each of its endpoints.
pub proof fn law_openapi_document_covers_table(i: int)
    requires
        0 <= i < ENDPOINT_COUNT,
    ensures
        documents(document_paths(endpoint_table()), endpoint_spec(i).openapi_path, openapi_method_names(endpoint_spec(i).methods)),
{
    law_document_describes_every_endpoint(endpoint_table(), i);
}

} // verus!
