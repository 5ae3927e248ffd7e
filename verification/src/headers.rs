//! Header-value rules of the HTTP fixtures: redaction, previews, cookies,
//! ETags, byte ranges and request identifiers.

use vstd::prelude::*;
use vstd::string::StringSliceAdditionalSpecFns;
use crate::multimap::{
    Assoc, Groups, assoc_insert, assoc_view, distinct_keys, distinct_names, group_pairs, group_push,
    group_view, grouped, last_wins, pairs_view,
};
use crate::number::{IntErrorKind, decimal, decimal_chars, parse_unsigned, parse_unsigned_chars};
use crate::text::{
    chars_eq, chars_of, contains_char, has_prefix, lower_chars, lower_seq, slice_chars, split,
    split_chars, split_once, split_once_chars, starts_with, string_of, trim, trim_chars, views,
};

verus! {

/// Names whose values are redacted, given in lower case.
pub open spec fn sensitive_name(lower_name: Seq<char>) -> bool {
    lower_name == "authorization"@ || lower_name == "cookie"@ || lower_name == "set-cookie"@
}

/// Headers whose values are never echoed back.
pub fn is_sensitive_header(name: &str) -> (r: bool)
    ensures
        r == sensitive_name(lower_seq(name@)),
{
    let n = chars_of(name);
    let l = lower_chars(n.as_slice());
    let a = chars_of("authorization");
    let c = chars_of("cookie");
    let s = chars_of("set-cookie");
    chars_eq(l.as_slice(), a.as_slice()) || chars_eq(l.as_slice(), c.as_slice()) || chars_eq(l.as_slice(), s.as_slice())
}

pub open spec fn forbidden_name(lower_name: Seq<char>) -> bool {
    ||| lower_name == "connection"@
    ||| lower_name == "content-length"@
    ||| lower_name == "content-type"@
    ||| lower_name == "host"@
    ||| lower_name == "set-cookie"@
    ||| lower_name == "transfer-encoding"@
    ||| lower_name == "x-request-id"@
}

/// Response headers a client may not set through `/response-headers`.
pub fn forbidden_response_header(name: &str) -> (r: bool)
    ensures
        r == forbidden_name(lower_seq(name@)),
{
    let n = chars_of(name);
    let l = lower_chars(n.as_slice());
    let c0 = chars_of("connection");
    let c1 = chars_of("content-length");
    let c2 = chars_of("content-type");
    let c3 = chars_of("host");
    let c4 = chars_of("set-cookie");
    let c5 = chars_of("transfer-encoding");
    let c6 = chars_of("x-request-id");
    chars_eq(l.as_slice(), c0.as_slice()) || chars_eq(l.as_slice(), c1.as_slice())
        || chars_eq(l.as_slice(), c2.as_slice()) || chars_eq(l.as_slice(), c3.as_slice())
        || chars_eq(l.as_slice(), c4.as_slice()) || chars_eq(l.as_slice(), c5.as_slice())
        || chars_eq(l.as_slice(), c6.as_slice())
}

/// A cookie name or value that can stand in `Set-Cookie` unquoted: not empty,
/// and no control character, space, `;` or `=` among its bytes.
pub open spec fn cookie_piece_ok(b: Seq<u8>) -> bool {
    b.len() > 0 && forall|i: int| 0 <= i < b.len() ==> b[i] > 0x20 && b[i] != 59u8 && b[i] != 61u8
}

pub fn valid_cookie_piece(value: &str) -> (r: bool)
    ensures
        r == cookie_piece_ok(value.spec_bytes()),
{
    let b = value.as_bytes();
    if b.len() == 0 {
        return false;
    }
    let mut i: usize = 0;
    while i < b.len()
        invariant
            i <= b@.len(),
            b@ == value.spec_bytes(),
            forall|j: int| 0 <= j < i ==> b@[j] > 0x20 && b@[j] != 59u8 && b@[j] != 61u8,
        decreases b@.len() - i,
    {
        if b[i] <= 0x20 || b[i] == 59u8 || b[i] == 61u8 {
            return false;
        }
        i = i + 1;
    }
    true
}

/// The deterministic fixture byte at `index`.
pub open spec fn fixture_byte(index: int) -> u8 {
    (index % 251) as u8
}

/// `count` fixture bytes starting at `offset`.
pub fn deterministic_bytes_from(offset: usize, count: usize) -> (r: Vec<u8>)
    requires
        offset + count <= usize::MAX,
    ensures
        r@.len() == count,
        forall|i: int| 0 <= i < count ==> #[trigger] r@[i] == fixture_byte(offset + i),
{
    let mut r: Vec<u8> = Vec::new();
    let mut i: usize = 0;
    while i < count
        invariant
            i <= count,
            offset + count <= usize::MAX,
            r@.len() == i,
            forall|j: int| 0 <= j < i ==> #[trigger] r@[j] == fixture_byte(offset + j),
        decreases count - i,
    {
        r.push(((offset + i) % 251) as u8);
        i = i + 1;
    }
    r
}

/// The first `count` fixture bytes: byte `i` is `i % 251`.
pub fn deterministic_bytes(count: usize) -> (r: Vec<u8>)
    ensures
        r@.len() == count,
        forall|i: int| 0 <= i < count ==> #[trigger] r@[i] == fixture_byte(i),
{
    deterministic_bytes_from(0, count)
}

/// The `,`-separated candidates of a conditional header, trimmed.
pub open spec fn candidates(header: Seq<char>) -> Seq<Seq<char>> {
    split(header, ',').map_values(|c: Seq<char>| trim(c))
}

/// `If-Match`: `*` or the exact entity tag.
pub open spec fn strong_match(header: Seq<char>, etag: Seq<char>) -> bool {
    exists|i: int| 0 <= i < candidates(header).len() && (candidates(header)[i] == "*"@ || candidates(header)[i] == etag)
}

/// `If-None-Match`: `*`, the entity tag, or its weak form `W/` + tag.
pub open spec fn weak_match(header: Seq<char>, etag: Seq<char>) -> bool {
    exists|i: int| 0 <= i < candidates(header).len() && (candidates(header)[i] == "*"@ || candidates(header)[i] == etag
        || candidates(header)[i] == "W/"@ + etag)
}

fn etag_matches(header: &str, etag: &str, weak: bool) -> (r: bool)
    ensures
        r == if weak { weak_match(header@, etag@) } else { strong_match(header@, etag@) },
{
    let h = chars_of(header);
    let e = chars_of(etag);
    let star = chars_of("*");
    let w = chars_of("W/");
    let mut weak_form = w.clone();
    crate::text::push_all(&mut weak_form, e.as_slice());
    assert(w@ == "W/"@);
    let pieces = split_chars(h.as_slice(), ',');
    let ghost c = candidates(header@);
    let mut i: usize = 0;
    while i < pieces.len()
        invariant
            i <= pieces@.len(),
            views(pieces@) == split(h@, ','),
            h@ == header@,
            e@ == etag@,
            star@ == "*"@,
            weak_form@ == "W/"@ + etag@,
            c == candidates(header@),
            c.len() == pieces@.len(),
            forall|j: int| 0 <= j < i ==> !(c[j] == "*"@ || c[j] == etag@ || (weak && c[j] == "W/"@ + etag@)),
        decreases pieces@.len() - i,
    {
        let t = trim_chars(pieces[i].as_slice());
        assert(t@ == c[i as int]);
        if chars_eq(t.as_slice(), star.as_slice()) || chars_eq(t.as_slice(), e.as_slice())
            || (weak && chars_eq(t.as_slice(), weak_form.as_slice())) {
            return true;
        }
        i = i + 1;
    }
    false
}

/// Does an `If-Match` value match the entity tag?
pub fn strong_etag_matches(header_value: &str, etag: &str) -> (r: bool)
    ensures
        r == strong_match(header_value@, etag@),
{
    etag_matches(header_value, etag, false)
}

/// Does an `If-None-Match` value match the entity tag, weakly?
pub fn weak_etag_matches(header_value: &str, etag: &str) -> (r: bool)
    ensures
        r == weak_match(header_value@, etag@),
{
    etag_matches(header_value, etag, true)
}

/// The single byte range a `Range` value selects in a body of `length` bytes,
/// as first and last index; `None` when it is unsatisfiable or malformed.
pub open spec fn range_spec(value: Seq<char>, length: nat) -> Option<(nat, nat)> {
    if !has_prefix(value, "bytes="@) {
        None
    } else {
        let v = value.skip("bytes="@.len() as int);
        if v.contains(',') || length == 0 {
            None
        } else {
            match split_once(v, '-') {
                None => None,
                Some((s, e)) => if s.len() == 0 {
                    match parse_unsigned(e, usize::MAX as nat) {
                        Err(_) => None,
                        Ok(suffix) => if suffix == 0 {
                            None
                        } else {
                            Some((if suffix >= length { 0 } else { (length - suffix) as nat }, (length - 1) as nat))
                        },
                    }
                } else {
                    match parse_unsigned(s, usize::MAX as nat) {
                        Err(_) => None,
                        Ok(start) => if start >= length {
                            None
                        } else {
                            let end_ok: Option<nat> = if e.len() == 0 {
                                Some((length - 1) as nat)
                            } else {
                                match parse_unsigned(e, usize::MAX as nat) {
                                    Err(_) => None,
                                    Ok(x) => Some(if x < length - 1 { x } else { (length - 1) as nat }),
                                }
                            };
                            match end_ok {
                                None => None,
                                Some(end) => if end < start {
                                    None
                                } else {
                                    Some((start, end))
                                },
                            }
                        },
                    }
                },
            }
        }
    }
}

/// Parse a `Range` header value against a body of `length` bytes. A valid
/// value yields `Ok(Some((first, last)))`; this parser never yields `Ok(None)`.
pub fn parse_range(value: &str, length: usize) -> (r: Result<Option<(usize, usize)>, ()>)
    ensures
        match r {
            Ok(Some((s, e))) => range_spec(value@, length as nat) == Some((s as nat, e as nat)),
            Ok(None) => false,
            Err(()) => range_spec(value@, length as nat) is None,
        },
{
    let v0 = chars_of(value);
    let prefix = chars_of("bytes=");
    if !starts_with(v0.as_slice(), prefix.as_slice()) {
        return Err(());
    }
    let v = slice_chars(v0.as_slice(), prefix.len(), v0.len());
    assert(v@ =~= value@.skip("bytes="@.len() as int));
    if contains_char(v.as_slice(), ',') || length == 0 {
        return Err(());
    }
    let (s, e) = match split_once_chars(v.as_slice(), '-') {
        Some(p) => p,
        None => {
            return Err(());
        },
    };
    if s.len() == 0 {
        let suffix = match parse_unsigned_chars(e.as_slice(), usize::MAX as u64) {
            Ok(n) => n,
            Err(_) => {
                return Err(());
            },
        };
        proof {
            crate::number::lemma_parse_bound(e@, usize::MAX as nat);
        }
        if suffix == 0 {
            return Err(());
        }
        let suffix = suffix as usize;
        let start = if suffix >= length { 0 } else { length - suffix };
        return Ok(Some((start, length - 1)));
    }
    let start = match parse_unsigned_chars(s.as_slice(), usize::MAX as u64) {
        Ok(n) => n,
        Err(_) => {
            return Err(());
        },
    };
    proof {
        crate::number::lemma_parse_bound(s@, usize::MAX as nat);
    }
    let start = start as usize;
    if start >= length {
        return Err(());
    }
    let end = if e.len() == 0 {
        length - 1
    } else {
        match parse_unsigned_chars(e.as_slice(), usize::MAX as u64) {
            Ok(x) => {
                proof {
                    crate::number::lemma_parse_bound(e@, usize::MAX as nat);
                }
                let x = x as usize;
                if x < length - 1 { x } else { length - 1 }
            },
            Err(_) => {
                return Err(());
            },
        }
    };
    if end < start {
        return Err(());
    }
    Ok(Some((start, end)))
}


pub open spec fn first_chars(s: Seq<char>, n: nat) -> Seq<char> {
    if s.len() <= n {
        s
    } else {
        s.take(n as int)
    }
}

/// The longest header value echoed whole, in bytes; longer values are cut to
/// this many characters.
pub const MAX_HEADER_VALUE_LEN: usize = 4096;

/// How a header value is echoed: `[INVALID_UTF8]` when it is not text, whole
/// when it is short, else its first characters followed by an ellipsis.
pub open spec fn preview_spec(value: Option<Seq<char>>) -> Seq<char> {
    match value {
        None => "[INVALID_UTF8]"@,
        Some(v) => if (vstd::utf8::encode_utf8(v).len() as usize) <= MAX_HEADER_VALUE_LEN {
            v
        } else {
            first_chars(v, MAX_HEADER_VALUE_LEN as nat) + "\u{2026}"@
        },
    }
}

pub open spec fn opt_text(value: Option<&str>) -> Option<Seq<char>> {
    match value {
        Some(v) => Some(v@),
        None => None,
    }
}

pub fn header_preview(value: Option<&str>) -> (r: String)
    ensures
        r@ == preview_spec(opt_text(value)),
{
    match value {
        None => "[INVALID_UTF8]".to_owned(),
        Some(v) => if v.len() <= MAX_HEADER_VALUE_LEN {
            v.to_owned()
        } else {
            let c = chars_of(v);
            let n = if c.len() <= MAX_HEADER_VALUE_LEN { c.len() } else { MAX_HEADER_VALUE_LEN };
            let head = slice_chars(c.as_slice(), 0, n);
            assert(head@ =~= first_chars(v@, MAX_HEADER_VALUE_LEN as nat));
            let mut s = string_of(head.as_slice());
            s.append("\u{2026}");
            s
        },
    }
}

/// The echoed value of one request header.
pub open spec fn echoed_value(name: Seq<char>, value: Option<Seq<char>>) -> Seq<char> {
    if sensitive_name(lower_seq(name)) {
        "[REDACTED]"@
    } else {
        preview_spec(value)
    }
}

/// The echoed request headers: `headers` holds each header name with its value
/// when that value is text.
pub open spec fn echoed_entries(headers: Seq<(String, Option<String>)>) -> Seq<(Seq<char>, Seq<char>)> {
    headers.map_values(|h: (String, Option<String>)| (h.0@, echoed_value(h.0@, match h.1 {
        Some(v) => Some(v@),
        None => None,
    })))
}

/// Request headers grouped by name, sensitive values redacted and long values
/// cut.
pub fn redacted_headers(headers: &Vec<(String, Option<String>)>) -> (r: Groups)
    ensures
        distinct_keys(r@),
        group_view(r@) == grouped(echoed_entries(headers@)),
{
    let ghost all = echoed_entries(headers@);
    let mut g: Groups = Vec::new();
    let mut i: usize = 0;
    while i < headers.len()
        invariant
            i <= headers@.len(),
            all == echoed_entries(headers@),
            distinct_keys(g@),
            group_view(g@) == grouped(all.take(i as int)),
        decreases headers@.len() - i,
    {
        let name = headers[i].0.clone();
        let value = match &headers[i].1 {
            Some(v) => Some(v.as_str()),
            None => None,
        };
        let shown = if is_sensitive_header(name.as_str()) {
            "[REDACTED]".to_owned()
        } else {
            header_preview(value)
        };
        proof {
            assert(all.take(i + 1).drop_last() =~= all.take(i as int));
            assert(all.take(i + 1).last() == (name@, shown@));
        }
        group_push(&mut g, name, shown);
        i = i + 1;
    }
    assert(all.take(headers@.len() as int) =~= all);
    g
}

/// The `name=value` pairs of `Cookie` header values, names and values trimmed.
pub open spec fn cookie_pair(piece: Seq<char>) -> Option<(Seq<char>, Seq<char>)> {
    match split_once(trim(piece), '=') {
        Some((n, v)) => Some((trim(n), trim(v))),
        None => None,
    }
}

pub open spec fn cookie_pairs_of(pieces: Seq<Seq<char>>) -> Seq<(Seq<char>, Seq<char>)>
    decreases pieces.len(),
{
    if pieces.len() == 0 {
        Seq::empty()
    } else {
        let rest = cookie_pairs_of(pieces.drop_last());
        match cookie_pair(pieces.last()) {
            Some(p) => rest.push(p),
            None => rest,
        }
    }
}

pub open spec fn cookie_entries(headers: Seq<Seq<char>>) -> Seq<(Seq<char>, Seq<char>)>
    decreases headers.len(),
{
    if headers.len() == 0 {
        Seq::empty()
    } else {
        cookie_entries(headers.drop_last()) + cookie_pairs_of(split(headers.last(), ';'))
    }
}

pub open spec fn texts(v: Seq<String>) -> Seq<Seq<char>> {
    v.map_values(|s: String| s@)
}

proof fn lemma_last_wins_append(a: Seq<(Seq<char>, Seq<char>)>, x: (Seq<char>, Seq<char>))
    ensures
        last_wins(a.push(x)) == last_wins(a).insert(x.0, x.1),
{
    assert(a.push(x).drop_last() =~= a);
}

proof fn lemma_cookie_pairs_prefix(pieces: Seq<Seq<char>>, k: int)
    requires
        0 <= k < pieces.len(),
    ensures
        cookie_pairs_of(pieces.take(k + 1)) == match cookie_pair(pieces[k]) {
            Some(p) => cookie_pairs_of(pieces.take(k)).push(p),
            None => cookie_pairs_of(pieces.take(k)),
        },
{
    assert(pieces.take(k + 1).drop_last() =~= pieces.take(k));
}

/// The cookies the client sent: every `name=value` pair of every `Cookie`
/// header value, a later pair replacing an earlier one of the same name.
pub fn cookie_values(cookie_headers: &Vec<String>) -> (r: Assoc)
    ensures
        distinct_names(r@),
        assoc_view(r@) == last_wins(cookie_entries(texts(cookie_headers@))),
{
    let ghost hs = texts(cookie_headers@);
    let mut r: Assoc = Vec::new();
    let mut i: usize = 0;
    while i < cookie_headers.len()
        invariant
            i <= cookie_headers@.len(),
            hs == texts(cookie_headers@),
            distinct_names(r@),
            assoc_view(r@) == last_wins(cookie_entries(hs.take(i as int))),
        decreases cookie_headers@.len() - i,
    {
        let h = chars_of(cookie_headers[i].as_str());
        let pieces = split_chars(h.as_slice(), ';');
        let ghost ps = split(h@, ';');
        let ghost base = cookie_entries(hs.take(i as int));
        let mut k: usize = 0;
        assert(ps.take(0) =~= Seq::<Seq<char>>::empty());
        assert(base + cookie_pairs_of(ps.take(0)) =~= base);
        while k < pieces.len()
            invariant
                k <= pieces@.len(),
                views(pieces@) == ps,
                distinct_names(r@),
                assoc_view(r@) == last_wins(base + cookie_pairs_of(ps.take(k as int))),
            decreases pieces@.len() - k,
        {
            let t = trim_chars(pieces[k].as_slice());
            proof {
                lemma_cookie_pairs_prefix(ps, k as int);
            }
            match split_once_chars(t.as_slice(), '=') {
                Some((n, v)) => {
                    let tn = trim_chars(n.as_slice());
                    let tv = trim_chars(v.as_slice());
                    let ghost pair = (tn@, tv@);
                    proof {
                        let prev = base + cookie_pairs_of(ps.take(k as int));
                        assert(base + cookie_pairs_of(ps.take(k + 1)) =~= prev.push(pair));
                        lemma_last_wins_append(prev, pair);
                    }
                    assoc_insert(&mut r, string_of(tn.as_slice()), string_of(tv.as_slice()));
                },
                None => {
                    assert(base + cookie_pairs_of(ps.take(k + 1)) =~= base + cookie_pairs_of(ps.take(k as int)));
                },
            }
            k = k + 1;
        }
        proof {
            assert(ps.take(pieces@.len() as int) =~= ps);
            assert(hs.take(i + 1).drop_last() =~= hs.take(i as int));
            assert(hs.take(i + 1).last() == h@);
        }
        i = i + 1;
    }
    assert(hs.take(cookie_headers@.len() as int) =~= hs);
    r
}

/// The pairs of an `application/x-www-form-urlencoded` byte string, decoded.
pub uninterp spec fn urlencoded_pairs(input: Seq<u8>) -> Seq<(Seq<char>, Seq<char>)>;

/// `url::form_urlencoded::parse`: `&`-separated `name=value` pairs, with `+` and
/// percent escapes decoded. Its result is named `urlencoded_pairs`.
#[verifier::external_body]
fn parse_urlencoded(input: &[u8]) -> (r: Vec<(String, String)>)
    ensures
        pairs_view(r@) == urlencoded_pairs(input@),
{
    url::form_urlencoded::parse(input).map(|(n, v)| (n.into_owned(), v.into_owned())).collect()
}

/// The name/value pairs of a query string, in order; none without a query.
pub fn query_pairs(query: Option<&str>) -> (r: Vec<(String, String)>)
    ensures
        pairs_view(r@) == match query {
            Some(q) => urlencoded_pairs(q.spec_bytes()),
            None => Seq::empty(),
        },
{
    match query {
        Some(q) => parse_urlencoded(q.as_bytes()),
        None => {
            let r: Vec<(String, String)> = Vec::new();
            assert(pairs_view(r@) =~= Seq::empty());
            r
        },
    }
}

/// The query arguments grouped by name.
pub fn query_values(query: Option<&str>) -> (r: Groups)
    ensures
        distinct_keys(r@),
        group_view(r@) == grouped(match query {
            Some(q) => urlencoded_pairs(q.spec_bytes()),
            None => Seq::empty(),
        }),
{
    group_pairs(query_pairs(query))
}

/// The fields of a form body grouped by name.
pub fn form_values(body: &[u8]) -> (r: Groups)
    ensures
        distinct_keys(r@),
        group_view(r@) == grouped(urlencoded_pairs(body@)),
{
    group_pairs(parse_urlencoded(body))
}

/// The longest request identifier a client may supply.
pub const MAX_REQUEST_ID_LEN: usize = 128;

/// A client-supplied `x-request-id` is kept when it is text, not empty and at
/// most 128 bytes long (`str::len`).
pub open spec fn supplied_id_ok(value: &str) -> bool {
    value@.len() > 0 && value.len() <= MAX_REQUEST_ID_LEN
}

pub fn supplied_request_id(header: Option<&str>) -> (r: Option<String>)
    ensures
        match header {
            Some(v) => if supplied_id_ok(v) {
                r matches Some(s) && s@ == v@
            } else {
                r is None
            },
            None => r is None,
        },
{
    match header {
        Some(v) => if !v.is_empty() && v.len() <= MAX_REQUEST_ID_LEN {
            Some(v.to_owned())
        } else {
            None
        },
        None => None,
    }
}

/// A generated request identifier: `req_` and a sequence number.
pub fn generated_request_id(seq: u64) -> (r: String)
    ensures
        r@ == "req_"@ + decimal(seq as nat),
{
    let mut s = "req_".to_owned();
    let d = decimal_chars(seq);
    let t = string_of(d.as_slice());
    s.append(t.as_str());
    s
}

/// What a `Range` request header asks of a body of `length` bytes.
#[derive(Debug, Clone, Copy, PartialEq, Eq, Structural)]
pub enum RangePlan {
    /// No range was asked: the whole body, status 200.
    Full,
    /// One satisfiable range, first and last byte: status 206.
    Partial(usize, usize),
    /// A malformed or unsatisfiable range: status 416, empty body.
    Unsatisfiable,
}

pub open spec fn plan_spec(range: Option<&str>, length: nat) -> RangePlan {
    match range {
        None => RangePlan::Full,
        Some(v) => match range_spec(v@, length) {
            Some((s, e)) => RangePlan::Partial(s as usize, e as usize),
            None => RangePlan::Unsatisfiable,
        },
    }
}

pub fn range_plan(range: Option<&str>, length: usize) -> (r: RangePlan)
    ensures
        r == plan_spec(range, length as nat),
        r matches RangePlan::Partial(s, e) ==> s <= e < length,
{
    match range {
        None => RangePlan::Full,
        Some(v) => match parse_range(v, length) {
            Ok(Some((s, e))) => RangePlan::Partial(s, e),
            _ => RangePlan::Unsatisfiable,
        },
    }
}

/// The bytes a range selects: `body[first..=last]`.
pub fn select_range(body: &[u8], first: usize, last: usize) -> (r: Vec<u8>)
    requires
        first <= last < body@.len(),
    ensures
        r@ == body@.subrange(first as int, last + 1),
{
    let mut r: Vec<u8> = Vec::new();
    let mut i: usize = first;
    while i <= last
        invariant
            first <= i <= last + 1,
            last < body@.len(),
            r@ == body@.subrange(first as int, i as int),
        decreases last + 1 - i,
    {
        r.push(body[i]);
        assert(body@.subrange(first as int, i + 1) =~= body@.subrange(first as int, i as int).push(body@[i as int]));
        i = i + 1;
    }
    r
}

/// `Content-Range` of a partial response: `bytes first-last/length`.
pub fn content_range(first: usize, last: usize, length: usize) -> (r: String)
    ensures
        r@ == "bytes "@ + decimal(first as nat) + "-"@ + decimal(last as nat) + "/"@ + decimal(length as nat),
{
    let mut s = "bytes ".to_owned();
    let a = string_of(decimal_chars(first as u64).as_slice());
    s.append(a.as_str());
    s.append("-");
    let b = string_of(decimal_chars(last as u64).as_slice());
    s.append(b.as_str());
    s.append("/");
    let c = string_of(decimal_chars(length as u64).as_slice());
    s.append(c.as_str());
    s
}

/// `Content-Range` of a refused range: `bytes */length`.
pub fn unsatisfied_content_range(length: usize) -> (r: String)
    ensures
        r@ == "bytes */"@ + decimal(length as nat),
{
    let mut s = "bytes */".to_owned();
    let c = string_of(decimal_chars(length as u64).as_slice());
    s.append(c.as_str());
    s
}

/// The status, body and `Content-Range` of a byte-range-aware response.
#[derive(Clone, Debug)]
pub struct RangedBody {
    pub status: u16,
    pub body: Vec<u8>,
    pub content_range: Option<String>,
}

/// What a range-aware fixture sends for `body` when asked for `range`.
pub fn ranged_body(range: Option<&str>, body: &[u8]) -> (r: RangedBody)
    ensures
        match plan_spec(range, body@.len()) {
            RangePlan::Full => r.status == 200 && r.body@ == body@ && r.content_range is None,
            RangePlan::Partial(s, e) => {
                &&& r.status == 206
                &&& r.body@ == body@.subrange(s as int, e + 1)
                &&& r.content_range matches Some(c) && c@ == "bytes "@ + decimal(s as nat) + "-"@
                    + decimal(e as nat) + "/"@ + decimal(body@.len())
            },
            RangePlan::Unsatisfiable => {
                &&& r.status == 416
                &&& r.body@.len() == 0
                &&& r.content_range matches Some(c) && c@ == "bytes */"@ + decimal(body@.len())
            },
        },
{
    match range_plan(range, body.len()) {
        RangePlan::Full => {
            let mut all: Vec<u8> = Vec::new();
            let mut i: usize = 0;
            while i < body.len()
                invariant
                    i <= body@.len(),
                    all@ == body@.take(i as int),
                decreases body@.len() - i,
            {
                all.push(body[i]);
                assert(body@.take(i + 1) =~= body@.take(i as int).push(body@[i as int]));
                i = i + 1;
            }
            assert(body@.take(i as int) =~= body@);
            RangedBody { status: 200, body: all, content_range: None }
        },
        RangePlan::Partial(s, e) => RangedBody {
            status: 206,
            body: select_range(body, s, e),
            content_range: Some(content_range(s, e, body.len())),
        },
        RangePlan::Unsatisfiable => RangedBody {
            status: 416,
            body: Vec::new(),
            content_range: Some(unsatisfied_content_range(body.len())),
        },
    }
}

/// A range that is served lies inside the body: its first byte is no later
/// than its last, and its last byte is before the end.
pub proof fn law_range_inside_body(value: Seq<char>, length: nat)
    ensures
        range_spec(value, length) matches Some((first, last)) ==> first <= last && last < length,
{
}

/// A suffix range `bytes=-N` selects the last N bytes of the body, or the
/// whole body when it is shorter: the range ends at the last byte and holds
/// min(N, length) bytes.
pub proof fn law_suffix_range_is_last_bytes(n: nat, length: nat)
    requires
        0 < n <= usize::MAX,
        0 < length,
    ensures
        range_spec("bytes=-"@ + decimal(n), length) matches Some((first, last))
            && last == length - 1
            && last - first + 1 == (if n < length { n } else { length }),
{
    reveal_strlit("bytes=-");
    reveal_strlit("bytes=");
    let value = "bytes=-"@ + decimal(n);
    crate::number::lemma_decimal_digits(n);
    crate::number::lemma_decimal_parses(n, usize::MAX as nat);
    assert(value.take(6) =~= "bytes="@);
    let v = value.skip(6);
    assert(v =~= seq!['-'] + decimal(n));
    assert(!v.contains(',')) by {
        if v.contains(',') {
            let i = choose|i: int| 0 <= i < v.len() && v[i] == ',';
            if i > 0 {
                assert(v[i] == decimal(n)[i - 1]);
                assert(crate::number::is_digit(decimal(n)[i - 1]));
            }
        }
    }
    assert(crate::text::first_index(v, '-', 0));
    crate::text::lemma_split_once(v, '-', 0);
    assert(v.skip(1) =~= decimal(n));
    assert(v.take(0).len() == 0);
}

proof fn lemma_range_text(a: nat, tail: Seq<char>)
    requires
        a <= usize::MAX,
        forall|i: int| 0 <= i < tail.len() ==> crate::number::is_digit(#[trigger] tail[i]),
    ensures
        has_prefix("bytes="@ + decimal(a) + seq!['-'] + tail, "bytes="@),
        ("bytes="@ + decimal(a) + seq!['-'] + tail).skip(6) == decimal(a) + seq!['-'] + tail,
        !(decimal(a) + seq!['-'] + tail).contains(','),
        split_once(decimal(a) + seq!['-'] + tail, '-') == Some((decimal(a), tail)),
        parse_unsigned(decimal(a), usize::MAX as nat) == Ok::<nat, IntErrorKind>(a),
{
    reveal_strlit("bytes=");
    crate::number::lemma_decimal_digits(a);
    crate::number::lemma_decimal_parses(a, usize::MAX as nat);
    let d = decimal(a);
    let value = "bytes="@ + d + seq!['-'] + tail;
    assert(value.take(6) =~= "bytes="@);
    let v = d + seq!['-'] + tail;
    assert(value.skip(6) =~= v);
    assert(!v.contains(',')) by {
        if v.contains(',') {
            let i = choose|i: int| 0 <= i < v.len() && v[i] == ',';
            if i < d.len() {
                assert(v[i] == d[i]);
            } else if i > d.len() {
                assert(v[i] == tail[i - d.len() - 1]);
            }
        }
    }
    assert(crate::text::first_index(v, '-', d.len() as int)) by {
        assert forall|j: int| 0 <= j < d.len() implies v[j] != '-' by {
            assert(v[j] == d[j]);
        }
    }
    crate::text::lemma_split_once(v, '-', d.len() as int);
    assert(v.take(d.len() as int) =~= d);
    assert(v.skip(d.len() as int + 1) =~= tail);
}

/// An explicit range `bytes=A-B` with A <= B selects bytes A through B, the
/// end clamped to the last byte; one that starts past the body is refused. An
/// open range `bytes=A-` runs from A to the last byte.
pub proof fn law_explicit_range(a: nat, b: nat, length: nat)
    requires
        a <= b <= usize::MAX,
    ensures
        range_spec("bytes="@ + decimal(a) + seq!['-'] + decimal(b), length) == if a < length {
            Some((a, if b < length { b } else { (length - 1) as nat }))
        } else {
            None
        },
        range_spec("bytes="@ + decimal(a) + seq!['-'], length) == if a < length {
            Some((a, (length - 1) as nat))
        } else {
            None
        },
{
    reveal_strlit("bytes=");
    crate::number::lemma_decimal_digits(b);
    crate::number::lemma_decimal_parses(b, usize::MAX as nat);
    lemma_range_text(a, decimal(b));
    lemma_range_text(a, Seq::<char>::empty());
    assert("bytes="@ + decimal(a) + seq!['-'] + Seq::<char>::empty() =~= "bytes="@ + decimal(a) + seq!['-']);
    assert(decimal(a) + seq!['-'] + Seq::<char>::empty() =~= decimal(a) + seq!['-']);
    crate::number::lemma_decimal_digits(a);
}

} // verus!
