//! Decisions of the HTTP behaviour fixtures: status codes, delays, redirect
//! chains, cookies, caching, entity tags, redirect targets and response headers.

use vstd::prelude::*;
use crate::config::{debug_quote, debug_str};
use crate::headers::{forbidden_name, forbidden_response_header, cookie_piece_ok, strong_match, strong_etag_matches, valid_cookie_piece, weak_etag_matches, weak_match};
use crate::number::{decimal, decimal_chars, parse_number, parsed};
use crate::text::{
    chars_eq_ignore_case, chars_of, contains_char, ends_with, eq_ignore_case, has_suffix, lower_chars,
    lower_seq, push_all, string_of,
};
use crate::headers::{cookie_entries, cookie_pair, cookie_pairs_of};
use crate::multimap::last_wins;
use crate::text::{first_index, is_ws, lemma_split_once, lemma_split_without, lemma_trim_hi_char, lemma_trim_lo_char, split, split_once, trim};
use vstd::string::StringSliceAdditionalSpecFns;

verus! {

/// Text followed by the decimal rendering of `n`.
fn with_number(prefix: &str, n: u64, suffix: &str) -> (r: String)
    ensures
        r@ == prefix@ + decimal(n as nat) + suffix@,
{
    let mut v = chars_of(prefix);
    let d = decimal_chars(n);
    push_all(&mut v, d.as_slice());
    let t = chars_of(suffix);
    push_all(&mut v, t.as_slice());
    string_of(v.as_slice())
}

/// The status `/status/{code}` answers with: a code from 100 to 999.
pub open spec fn status_spec(code: Seq<char>) -> Option<u16> {
    match parsed(code, 65535) {
        Some(n) => if 100 <= n <= 999 { Some(n as u16) } else { None },
        None => None,
    }
}

pub fn status_fixture(code: &str) -> (r: Result<u16, String>)
    ensures
        match r {
            Ok(n) => status_spec(code@) == Some(n),
            Err(e) => status_spec(code@) is None && e@ == "invalid status code"@,
        },
{
    match parse_number(code, 65535) {
        Some(n) => {
            if 100 <= n && n <= 999 {
                Ok(n as u16)
            } else {
                Err("invalid status code".to_owned())
            }
        },
        None => Err("invalid status code".to_owned()),
    }
}

/// The summary of the event a status fixture records.
pub fn status_summary(code: u16) -> (s: String)
    ensures
        s@ == "status "@ + decimal(code as nat),
{
    let s = with_number("status ", code as u64, "");
    proof {
        reveal_strlit("");
        assert(s@ =~= "status "@ + decimal(code as nat));
    }
    s
}

/// The most a delay fixture waits, in seconds.
pub const MAX_DELAY_SECONDS: u64 = 30;

/// The seconds `/delay/{seconds}` waits: the requested count, at most 30.
pub open spec fn delay_spec(seconds: Seq<char>) -> Option<u64> {
    match parsed(seconds, u64::MAX as nat) {
        Some(n) => Some(if n < MAX_DELAY_SECONDS { n as u64 } else { MAX_DELAY_SECONDS }),
        None => None,
    }
}

pub fn delay_fixture(seconds: &str) -> (r: Result<u64, String>)
    ensures
        match r {
            Ok(n) => delay_spec(seconds@) == Some(n),
            Err(e) => delay_spec(seconds@) is None && e@ == "invalid delay"@,
        },
{
    match parse_number(seconds, u64::MAX) {
        Some(n) => Ok(if n < MAX_DELAY_SECONDS { n } else { MAX_DELAY_SECONDS }),
        None => Err("invalid delay".to_owned()),
    }
}

/// The summary of the event a delay fixture records.
pub fn delay_summary(seconds: u64) -> (s: String)
    ensures
        s@ == "delay "@ + decimal(seconds as nat) + "s"@,
{
    with_number("delay ", seconds, "s")
}

/// The longest redirect chain `/redirect/{count}` starts.
pub const MAX_REDIRECTS: u64 = 20;

/// What `/redirect/{count}` answers: `None` once the chain is done, else the
/// location of the next hop.
pub open spec fn redirect_spec(count: Seq<char>) -> Option<Option<Seq<char>>> {
    match parsed(count, 65535) {
        Some(n) => {
            let c = if n < MAX_REDIRECTS { n } else { MAX_REDIRECTS as nat };
            if c == 0 {
                Some(None)
            } else {
                Some(Some("/redirect/"@ + decimal((c - 1) as nat)))
            }
        },
        None => None,
    }
}

pub fn redirect_fixture(count: &str) -> (r: Result<Option<String>, String>)
    ensures
        match r {
            Ok(None) => redirect_spec(count@) == Some(None::<Seq<char>>),
            Ok(Some(location)) => redirect_spec(count@) == Some(Some(location@)),
            Err(e) => redirect_spec(count@) is None && e@ == "invalid redirect count"@,
        },
{
    match parse_number(count, 65535) {
        Some(n) => {
            let c = if n < MAX_REDIRECTS { n } else { MAX_REDIRECTS };
            if c == 0 {
                assert(n == 0);
                Ok(None)
            } else {
                let location = with_number("/redirect/", c - 1, "");
                proof {
                    reveal_strlit("");
                    assert(location@ =~= "/redirect/"@ + decimal((c - 1) as nat));
                }
                Ok(Some(location))
            }
        },
        None => Err("invalid redirect count".to_owned()),
    }
}

/// The longest `max-age` a cache fixture advertises, in seconds.
pub const MAX_CACHE_AGE: u64 = 86_400;

/// The `max-age` `/cache/{seconds}` advertises: the request, at most a day.
pub open spec fn max_age_spec(seconds: Seq<char>) -> Option<u64> {
    match parsed(seconds, u64::MAX as nat) {
        Some(n) => Some(if n < MAX_CACHE_AGE { n as u64 } else { MAX_CACHE_AGE }),
        None => None,
    }
}

pub fn cache_max_age(seconds: &str) -> (r: Result<u64, String>)
    ensures
        match r {
            Ok(n) => max_age_spec(seconds@) == Some(n),
            Err(e) => max_age_spec(seconds@) is None && e@ == "invalid cache max-age"@,
        },
{
    match parse_number(seconds, u64::MAX) {
        Some(n) => Ok(if n < MAX_CACHE_AGE { n } else { MAX_CACHE_AGE }),
        None => Err("invalid cache max-age".to_owned()),
    }
}

/// The `Cache-Control` value advertising `max_age`.
pub fn cache_control(max_age: u64) -> (s: String)
    ensures
        s@ == "public, max-age="@ + decimal(max_age as nat),
{
    let s = with_number("public, max-age=", max_age, "");
    proof {
        reveal_strlit("");
        assert(s@ =~= "public, max-age="@ + decimal(max_age as nat));
    }
    s
}

/// The `Set-Cookie` value `/cookies/set/{name}/{value}` sends.
pub open spec fn set_cookie_spec(name: &str, value: &str) -> Result<Seq<char>, Seq<char>> {
    if cookie_piece_ok(name.spec_bytes()) && cookie_piece_ok(value.spec_bytes()) {
        Ok(name@ + "="@ + value@ + "; Path=/"@)
    } else {
        Err("invalid cookie name or value"@)
    }
}

pub fn set_cookie_header(name: &str, value: &str) -> (r: Result<String, String>)
    ensures
        match r {
            Ok(h) => set_cookie_spec(name, value) == Ok::<Seq<char>, Seq<char>>(h@),
            Err(e) => set_cookie_spec(name, value) == Err::<Seq<char>, Seq<char>>(e@),
        },
{
    if !valid_cookie_piece(name) || !valid_cookie_piece(value) {
        return Err("invalid cookie name or value".to_owned());
    }
    let mut v = chars_of(name);
    v.push('=');
    let val = chars_of(value);
    push_all(&mut v, val.as_slice());
    let tail = chars_of("; Path=/");
    push_all(&mut v, tail.as_slice());
    assert(v@ =~= name@ + "="@ + value@ + "; Path=/"@) by {
        reveal_strlit("=");
    }
    Ok(string_of(v.as_slice()))
}

/// The `Set-Cookie` value `/cookies/delete/{name}` sends: the cookie expired.
pub open spec fn delete_cookie_spec(name: &str) -> Result<Seq<char>, Seq<char>> {
    if cookie_piece_ok(name.spec_bytes()) {
        Ok(name@ + "=; Max-Age=0; Path=/"@)
    } else {
        Err("invalid cookie name"@)
    }
}

pub fn delete_cookie_header(name: &str) -> (r: Result<String, String>)
    ensures
        match r {
            Ok(h) => delete_cookie_spec(name) == Ok::<Seq<char>, Seq<char>>(h@),
            Err(e) => delete_cookie_spec(name) == Err::<Seq<char>, Seq<char>>(e@),
        },
{
    if !valid_cookie_piece(name) {
        return Err("invalid cookie name".to_owned());
    }
    let mut v = chars_of(name);
    let tail = chars_of("=; Max-Age=0; Path=/");
    push_all(&mut v, tail.as_slice());
    Ok(string_of(v.as_slice()))
}

/// The entity tag `/etag/{value}` uses: the value without quotes, quoted.
pub open spec fn etag_spec(value: Seq<char>) -> Seq<char> {
    seq!['"'] + value.filter(|c: char| c != '"') + seq!['"']
}

pub fn etag_for(value: &str) -> (e: String)
    ensures
        e@ == etag_spec(value@),
{
    let c = chars_of(value);
    let mut v: Vec<char> = Vec::new();
    v.push('"');
    let mut i: usize = 0;
    while i < c.len()
        invariant
            i <= c@.len(),
            c@ == value@,
            v@ == seq!['"'] + c@.take(i as int).filter(|ch: char| ch != '"'),
        decreases c@.len() - i,
    {
        proof {
            assert(c@.take(i + 1) =~= c@.take(i as int).push(c@[i as int]));
            c@.take(i as int).lemma_filter_push(c@[i as int], |ch: char| ch != '"');
        }
        if c[i] != '"' {
            v.push(c[i]);
        }
        i = i + 1;
    }
    v.push('"');
    assert(c@.take(i as int) =~= c@);
    string_of(v.as_slice())
}

/// How `/etag/{value}` answers.
#[derive(Clone, Copy, PartialEq, Eq, Structural, Debug)]
pub enum EtagOutcome {
    /// 412: `If-Match` names no current tag.
    PreconditionFailed,
    /// 304: `If-None-Match` names the current tag.
    NotModified,
    /// 200 with the representation.
    Current,
}

pub open spec fn etag_outcome_spec(if_match: Option<Seq<char>>, if_none_match: Option<Seq<char>>, etag: Seq<char>) -> EtagOutcome {
    if if_match matches Some(m) && !strong_match(m, etag) {
        EtagOutcome::PreconditionFailed
    } else if if_none_match matches Some(n) && weak_match(n, etag) {
        EtagOutcome::NotModified
    } else {
        EtagOutcome::Current
    }
}

pub open spec fn text_of(o: Option<&str>) -> Option<Seq<char>> {
    match o {
        Some(s) => Some(s@),
        None => None,
    }
}

/// The answer to a request carrying the given conditional headers.
pub fn etag_outcome(if_match: Option<&str>, if_none_match: Option<&str>, etag: &str) -> (r: EtagOutcome)
    ensures
        r == etag_outcome_spec(text_of(if_match), text_of(if_none_match), etag@),
{
    if let Some(m) = if_match {
        if !strong_etag_matches(m, etag) {
            return EtagOutcome::PreconditionFailed;
        }
    }
    if let Some(n) = if_none_match {
        if weak_etag_matches(n, etag) {
            return EtagOutcome::NotModified;
        }
    }
    EtagOutcome::Current
}

/// The `ETag` of the cache fixture.
pub open spec fn cache_etag() -> Seq<char> {
    "\"biubin-cache-v1\""@
}

/// The `Last-Modified` date of the cache fixture.
pub open spec fn cache_last_modified() -> Seq<char> {
    "Wed, 21 Oct 2015 07:28:00 GMT"@
}

/// The seconds since the Unix epoch of an HTTP date, if `httpdate` parses it.
pub uninterp spec fn http_date(text: Seq<char>) -> Option<u64>;

/// Calls `httpdate::parse_http_date`, reading the time it gives as whole
/// seconds since the Unix epoch. Its result is named `http_date`; the contract
/// says nothing more of it.
#[verifier::external_body]
fn parse_http_date(text: &str) -> (r: Option<u64>)
    ensures
        r == http_date(text@),
{
    match httpdate::parse_http_date(text) {
        Ok(time) => match time.duration_since(std::time::UNIX_EPOCH) {
            Ok(elapsed) => Some(elapsed.as_secs()),
            Err(_) => None,
        },
        Err(_) => None,
    }
}

/// Whether the cache fixture answers 304: `If-None-Match` decides when it is
/// present, else `If-Modified-Since` not earlier than the fixture's date.
pub open spec fn not_modified_spec(if_none_match: Option<Seq<char>>, if_modified_since: Option<Seq<char>>) -> bool {
    match if_none_match {
        Some(n) => weak_match(n, cache_etag()),
        None => match if_modified_since {
            Some(d) => match (http_date(d), http_date(cache_last_modified())) {
                (Some(since), Some(modified)) => modified <= since,
                _ => false,
            },
            None => false,
        },
    }
}

pub fn cache_not_modified(if_none_match: Option<&str>, if_modified_since: Option<&str>) -> (r: bool)
    ensures
        r == not_modified_spec(text_of(if_none_match), text_of(if_modified_since)),
{
    match if_none_match {
        Some(n) => weak_etag_matches(n, "\"biubin-cache-v1\""),
        None => match if_modified_since {
            Some(d) => match (parse_http_date(d), parse_http_date("Wed, 21 Oct 2015 07:28:00 GMT")) {
                (Some(since), Some(modified)) => modified <= since,
                _ => false,
            },
            None => false,
        },
    }
}

/// The status `/redirect-to` answers with: 302 unless another redirect
/// status is asked for.
pub open spec fn redirect_status_spec(requested: Option<u16>) -> Option<u16> {
    let code = match requested {
        Some(c) => c,
        None => 302,
    };
    if code == 301 || code == 302 || code == 303 || code == 307 || code == 308 {
        Some(code)
    } else {
        None
    }
}

pub fn redirect_status(requested: Option<u16>) -> (r: Result<u16, String>)
    ensures
        match r {
            Ok(code) => redirect_status_spec(requested) == Some(code),
            Err(e) => redirect_status_spec(requested) is None
                && e@ == "status_code must be 301, 302, 303, 307 or 308"@,
        },
{
    let code = match requested {
        Some(c) => c,
        None => 302,
    };
    if code == 301 || code == 302 || code == 303 || code == 307 || code == 308 {
        Ok(code)
    } else {
        Err("status_code must be 301, 302, 303, 307 or 308".to_owned())
    }
}

/// An IP address, as its 32 or 128 bits in network order.
#[derive(Clone, Copy, PartialEq, Eq, Structural, Debug)]
pub enum IpAddress {
    V4(u32),
    V6(u128),
}

/// Loopback, private, link-local, unspecified or multicast IPv4 addresses.
pub open spec fn restricted_v4(a: u32) -> bool {
    let first = a >> 24u32;
    let second = (a >> 16u32) & 0xffu32;
    ||| first == 127
    ||| first == 10
    ||| (first == 172 && 16 <= second && second <= 31)
    ||| (first == 192 && second == 168)
    ||| (first == 169 && second == 254)
    ||| a == 0
    ||| (224 <= first && first <= 239)
}

/// The IPv4 address an IPv6 address maps or embeds (`::ffff:a.b.c.d` or
/// `::a.b.c.d`), if any.
pub open spec fn embedded_v4(a: u128) -> Option<u32> {
    let high = a >> 32u32;
    if high == 0xffffu128 || high == 0 {
        Some(a as u32)
    } else {
        None
    }
}

/// Loopback, unique-local, link-local, unspecified or multicast IPv6
/// addresses, and IPv6 forms of restricted IPv4 addresses.
pub open spec fn restricted_v6(a: u128) -> bool {
    let first = (a >> 112u32) as u16;
    ||| a == 1
    ||| (first & 0xfe00u16) == 0xfc00u16
    ||| (first & 0xffc0u16) == 0xfe80u16
    ||| a == 0
    ||| (first & 0xff00u16) == 0xff00u16
    ||| (embedded_v4(a) matches Some(v4) && restricted_v4(v4))
}

pub open spec fn restricted_spec(address: IpAddress) -> bool {
    match address {
        IpAddress::V4(a) => restricted_v4(a),
        IpAddress::V6(a) => restricted_v6(a),
    }
}

fn restricted_ipv4(a: u32) -> (r: bool)
    ensures
        r == restricted_v4(a),
{
    let first = a >> 24u32;
    let second = (a >> 16u32) & 0xffu32;
    first == 127 || first == 10 || (first == 172 && 16 <= second && second <= 31)
        || (first == 192 && second == 168) || (first == 169 && second == 254) || a == 0
        || (224 <= first && first <= 239)
}

/// Addresses a redirect may not point at.
pub fn is_restricted_ip(address: IpAddress) -> (r: bool)
    ensures
        r == restricted_spec(address),
{
    match address {
        IpAddress::V4(a) => restricted_ipv4(a),
        IpAddress::V6(a) => {
            let first = (a >> 112u32) as u16;
            if a == 1 || (first & 0xfe00u16) == 0xfc00u16 || (first & 0xffc0u16) == 0xfe80u16 || a == 0
                || (first & 0xff00u16) == 0xff00u16 {
                return true;
            }
            let high = a >> 32u32;
            if high == 0xffffu128 || high == 0 {
                restricted_ipv4(a as u32)
            } else {
                false
            }
        },
    }
}

/// A URL as redirect validation reads it.
#[derive(Clone, Debug)]
pub struct UrlParts {
    pub scheme: String,
    /// The host as `Url::host_str` gives it.
    pub host: Option<String>,
    /// The address, when the host is an IPv4 or IPv6 address.
    pub address: Option<IpAddress>,
}

impl View for UrlParts {
    type V = (Seq<char>, Option<Seq<char>>, Option<IpAddress>);

    open spec fn view(&self) -> (Seq<char>, Option<Seq<char>>, Option<IpAddress>) {
        (self.scheme@, crate::events::opt_view(self.host), self.address)
    }
}

/// What `url::Url::parse` makes of a text: its scheme, host and, for an IP
/// host, the address.
pub uninterp spec fn parsed_url(input: Seq<char>) -> Option<(Seq<char>, Option<Seq<char>>, Option<IpAddress>)>;

/// Calls `url::Url::parse` and reads the scheme, `host_str` and, for an IPv4
/// or bracketed IPv6 host, the address. For `http` and `https` URLs the crate
/// turns every host that reads as an IP address into one, so the address is
/// there exactly when the host is a literal address. The result is named
/// `parsed_url`; nothing more is stated of it.
#[verifier::external_body]
fn parse_url(input: &str) -> (r: Option<UrlParts>)
    ensures
        match r {
            Some(p) => parsed_url(input@) == Some(p@),
            None => parsed_url(input@) is None,
        },
{
    match url::Url::parse(input) {
        Ok(u) => {
            let address = match u.host() {
                Some(url::Host::Ipv4(a)) => Some(IpAddress::V4(u32::from(a))),
                Some(url::Host::Ipv6(a)) => Some(IpAddress::V6(u128::from(a))),
                _ => None,
            };
            Some(UrlParts { scheme: u.scheme().to_owned(), host: u.host_str().map(str::to_owned), address })
        },
        Err(_) => None,
    }
}

/// The host of `input` resolved against `base` by `url::Url::join`, when both parse.
pub uninterp spec fn joined_host(base: Seq<char>, input: Seq<char>) -> Option<Option<Seq<char>>>;

/// Parses `base` with `url::Url::parse` and resolves `input` against it with
/// `url::Url::join`, giving the `host_str` of the result. The result is named
/// `joined_host`; nothing more is stated of it.
#[verifier::external_body]
fn join_url_host(base: &str, input: &str) -> (r: Option<Option<String>>)
    ensures
        match r {
            Some(h) => joined_host(base@, input@) == Some(crate::events::opt_view(h)),
            None => joined_host(base@, input@) is None,
        },
{
    match url::Url::parse(base) {
        Ok(b) => match b.join(input) {
            Ok(resolved) => Some(resolved.host_str().map(str::to_owned)),
            Err(_) => None,
        },
        Err(_) => None,
    }
}

/// The longest redirect target accepted, in bytes.
pub const MAX_REDIRECT_URL_LEN: usize = 2048;

/// The base that relative redirect targets are resolved against.
pub open spec fn redirect_base() -> Seq<char> {
    "http://biubin.invalid"@
}

pub open spec fn allowlisted(allowed: Seq<Seq<char>>, host: Seq<char>) -> bool {
    exists|i: int| 0 <= i < allowed.len() && eq_ignore_case(#[trigger] allowed[i], host)
}

/// Why a redirect target is refused, if it is.
pub open spec fn redirect_error_spec(url: &str, allow_external: bool, allowed: Seq<Seq<char>>) -> Option<Seq<char>> {
    if url.len() > MAX_REDIRECT_URL_LEN {
        Some("redirect URL is too long"@)
    } else if url@.contains('\r') || url@.contains('\n') || url@.contains('\\') {
        Some("url contains invalid characters"@)
    } else {
        match parsed_url(url@) {
            Some((scheme, host, address)) => {
                if !allow_external {
                    Some("absolute external redirects are disabled"@)
                } else if !(scheme == "http"@ || scheme == "https"@) {
                    Some("redirect URL scheme must be http or https"@)
                } else {
                    match host {
                        None => Some("redirect URL must include a host"@),
                        Some(h) => {
                            if eq_ignore_case(h, "localhost"@) || has_suffix(lower_seq(h), ".localhost"@)
                                || (address matches Some(a) && restricted_spec(a)) {
                                Some("redirect URL points to a local address"@)
                            } else if !allowlisted(allowed, h) {
                                Some("redirect URL host is not allowlisted"@)
                            } else {
                                None
                            }
                        },
                    }
                }
            },
            None => match joined_host(redirect_base(), url@) {
                None => Some("invalid redirect URL"@),
                Some(resolved) => {
                    let base_host = match parsed_url(redirect_base()) {
                        Some((_, h, _)) => h,
                        None => None,
                    };
                    if resolved != base_host {
                        Some("external redirects require an absolute http(s) URL"@)
                    } else {
                        None
                    }
                },
            },
        }
    }
}

fn is_allowlisted(allowed: &Vec<String>, host: &[char]) -> (r: bool)
    ensures
        r == allowlisted(crate::multimap::strings_view(allowed@), host@),
{
    let ghost names = crate::multimap::strings_view(allowed@);
    let mut i: usize = 0;
    while i < allowed.len()
        invariant
            names == crate::multimap::strings_view(allowed@),
            i <= allowed@.len(),
            forall|j: int| 0 <= j < i ==> !eq_ignore_case(#[trigger] names[j], host@),
        decreases allowed@.len() - i,
    {
        let a = chars_of(allowed[i].as_str());
        if chars_eq_ignore_case(a.as_slice(), host) {
            assert(names[i as int] == a@);
            return true;
        }
        i = i + 1;
    }
    false
}

fn opt_eq(a: &Option<String>, b: &Option<String>) -> (r: bool)
    ensures
        r == (crate::events::opt_view(*a) == crate::events::opt_view(*b)),
{
    match (a, b) {
        (Some(x), Some(y)) => crate::text::str_eq(x.as_str(), y.as_str()),
        (None, None) => true,
        _ => false,
    }
}

/// Checks a `/redirect-to` target: `None` when it may be followed, else why not.
pub fn validate_redirect_target(url: &str, allow_external: bool, allowed_hosts: &Vec<String>) -> (r: Option<String>)
    ensures
        crate::events::opt_view(r) == redirect_error_spec(url, allow_external, crate::multimap::strings_view(allowed_hosts@)),
{
    if url.len() > MAX_REDIRECT_URL_LEN {
        return Some("redirect URL is too long".to_owned());
    }
    let c = chars_of(url);
    if contains_char(c.as_slice(), '\r') || contains_char(c.as_slice(), '\n') || contains_char(c.as_slice(), '\\') {
        return Some("url contains invalid characters".to_owned());
    }
    match parse_url(url) {
        Some(parsed) => {
            if !allow_external {
                return Some("absolute external redirects are disabled".to_owned());
            }
            if !(crate::text::str_eq(parsed.scheme.as_str(), "http") || crate::text::str_eq(parsed.scheme.as_str(), "https")) {
                return Some("redirect URL scheme must be http or https".to_owned());
            }
            match &parsed.host {
                None => Some("redirect URL must include a host".to_owned()),
                Some(h) => {
                    let hc = chars_of(h.as_str());
                    let lh = lower_chars(hc.as_slice());
                    let localhost = chars_of("localhost");
                    let suffix = chars_of(".localhost");
                    let restricted = match parsed.address {
                        Some(a) => is_restricted_ip(a),
                        None => false,
                    };
                    if chars_eq_ignore_case(hc.as_slice(), localhost.as_slice()) || ends_with(lh.as_slice(), suffix.as_slice())
                        || restricted {
                        Some("redirect URL points to a local address".to_owned())
                    } else if !is_allowlisted(allowed_hosts, hc.as_slice()) {
                        Some("redirect URL host is not allowlisted".to_owned())
                    } else {
                        None
                    }
                },
            }
        },
        None => match join_url_host("http://biubin.invalid", url) {
            None => Some("invalid redirect URL".to_owned()),
            Some(resolved) => {
                let base_host = match parse_url("http://biubin.invalid") {
                    Some(p) => p.host,
                    None => None,
                };
                if !opt_eq(&resolved, &base_host) {
                    Some("external redirects require an absolute http(s) URL".to_owned())
                } else {
                    None
                }
            },
        },
    }
}

/// The longest header name `http` accepts, in bytes.
pub const MAX_HEADER_NAME_LEN: usize = 65535;

/// A token character of RFC 9110: a letter, a digit or one of
/// `` !#$%&'*+-.^_`|~ ``.
pub open spec fn header_name_char(c: char) -> bool {
    ||| ('a' <= c && c <= 'z')
    ||| ('A' <= c && c <= 'Z')
    ||| ('0' <= c && c <= '9')
    ||| c == '!' || c == '#' || c == '$' || c == '%' || c == '&' || c == '\''
    ||| c == '*' || c == '+' || c == '-' || c == '.' || c == '^' || c == '_'
    ||| c == '`' || c == '|' || c == '~'
}

/// Whether `http::HeaderName::from_bytes` accepts a name: it is not empty, at
/// most `MAX_HEADER_NAME_LEN` long, and made of token characters only. Those
/// are ASCII, so a name of them has as many bytes as characters.
pub open spec fn header_name_accepted(name: Seq<char>) -> bool {
    &&& 0 < name.len() <= MAX_HEADER_NAME_LEN
    &&& forall|i: int| 0 <= i < name.len() ==> header_name_char(#[trigger] name[i])
}

/// Calls `HeaderName::from_bytes` of the `http` crate on the bytes of `name`
/// and tells whether it succeeded. The contract claims what that function's
/// source shows: a name is accepted exactly when it is non-empty, at most
/// 65535 bytes long, and every byte maps to a non-zero entry of its
/// `HEADER_CHARS` table, which are the token characters (bytes from 0x80 up
/// all map to zero).
#[verifier::external_body]
fn header_name_valid(name: &str) -> (r: bool)
    ensures
        r == header_name_accepted(name@),
{
    axum::http::HeaderName::from_bytes(name.as_bytes()).is_ok()
}

/// The bytes `HeaderValue::from_str` accepts: visible ASCII, space, tab and
/// bytes from 0x80 up.
pub open spec fn header_value_ok(b: Seq<u8>) -> bool {
    forall|i: int| 0 <= i < b.len() ==> ((#[trigger] b[i] >= 32 && b[i] != 127) || b[i] == 9)
}

pub fn header_value_valid(value: &str) -> (r: bool)
    ensures
        r == header_value_ok(value.spec_bytes()),
{
    let b = value.as_bytes();
    let mut i: usize = 0;
    while i < b.len()
        invariant
            b@ == value.spec_bytes(),
            i <= b@.len(),
            forall|j: int| 0 <= j < i ==> ((#[trigger] b@[j] >= 32 && b@[j] != 127) || b@[j] == 9),
        decreases b@.len() - i,
    {
        let x = b[i];
        if !((x >= 32 && x != 127) || x == 9) {
            return false;
        }
        i = i + 1;
    }
    true
}

/// Why `/response-headers` refuses the headers it was asked to set, if it
/// does: the first pair that is forbidden, or whose name or value `http`
/// does not accept.
pub open spec fn header_request_error(pairs: Seq<(String, String)>) -> Option<Seq<char>>
    decreases pairs.len(),
{
    if pairs.len() == 0 {
        None
    } else {
        match header_request_error(pairs.drop_last()) {
            Some(e) => Some(e),
            None => {
                let (name, value) = pairs.last();
                if forbidden_name(lower_seq(name@)) {
                    Some("header "@ + debug_str(name@) + " cannot be set"@)
                } else if !header_name_accepted(name@) {
                    Some("invalid response header name"@)
                } else if !header_value_ok(vstd::utf8::encode_utf8(value@)) {
                    Some("invalid response header value"@)
                } else {
                    None
                }
            },
        }
    }
}

pub fn response_headers_error(pairs: &Vec<(String, String)>) -> (r: Option<String>)
    ensures
        crate::events::opt_view(r) == header_request_error(pairs@),
{
    let mut i: usize = 0;
    while i < pairs.len()
        invariant
            i <= pairs@.len(),
            header_request_error(pairs@.take(i as int)) is None,
        decreases pairs@.len() - i,
    {
        proof {
            assert(pairs@.take(i + 1).drop_last() =~= pairs@.take(i as int));
        }
        let name = pairs[i].0.as_str();
        let value = pairs[i].1.as_str();
        if forbidden_response_header(name) {
            let mut m = chars_of("header ");
            let q = debug_quote(name);
            let qc = chars_of(q.as_str());
            push_all(&mut m, qc.as_slice());
            let tail = chars_of(" cannot be set");
            push_all(&mut m, tail.as_slice());
            let msg = string_of(m.as_slice());
            proof {
                lemma_error_stays(pairs@, i as int + 1);
            }
            return Some(msg);
        }
        if !header_name_valid(name) {
            proof {
                lemma_error_stays(pairs@, i as int + 1);
            }
            return Some("invalid response header name".to_owned());
        }
        if !header_value_valid(value) {
            proof {
                lemma_error_stays(pairs@, i as int + 1);
            }
            return Some("invalid response header value".to_owned());
        }
        i = i + 1;
    }
    assert(pairs@.take(i as int) =~= pairs@);
    None
}

/// Once a prefix is refused, so is every longer prefix, for the same reason.
proof fn lemma_error_stays(pairs: Seq<(String, String)>, k: int)
    requires
        0 <= k <= pairs.len(),
    ensures
        header_request_error(pairs.take(k)) is Some ==> header_request_error(pairs) == header_request_error(pairs.take(k)),
    decreases pairs.len() - k,
{
    if k < pairs.len() {
        lemma_error_stays(pairs, k + 1);
        assert(pairs.take(k + 1).drop_last() =~= pairs.take(k));
    } else {
        assert(pairs.take(k) =~= pairs);
    }
}

/// A redirect to a local literal address, IPv4 or IPv6, is always refused,
/// whatever the external-redirect switch and the allowlist say.
pub proof fn law_local_targets_refused(url: &str, allow_external: bool, allowed: Seq<Seq<char>>, address: IpAddress)
    requires
        parsed_url(url@) matches Some((_, Some(_), Some(a))) && a == address,
        restricted_spec(address),
    ensures
        redirect_error_spec(url, allow_external, allowed) is Some,
{
}

/// An absolute target is followed only when external redirects are on, its
/// scheme is `http` or `https`, its host is on the allowlist, and it is no
/// local literal address.
pub proof fn law_absolute_targets_need_allowlist(url: &str, allow_external: bool, allowed: Seq<Seq<char>>)
    requires
        parsed_url(url@) is Some,
        redirect_error_spec(url, allow_external, allowed) is None,
    ensures
        allow_external,
        parsed_url(url@) matches Some((scheme, Some(h), address)) && (scheme == "http"@ || scheme == "https"@)
            && allowlisted(allowed, h) && !(address matches Some(a) && restricted_spec(a)),
{
}

/// A relative target that stays on the service's own host is accepted.
pub proof fn law_same_host_relative_targets_accepted(url: &str, allow_external: bool, allowed: Seq<Seq<char>>)
    requires
        url.len() <= MAX_REDIRECT_URL_LEN,
        !url@.contains('\r') && !url@.contains('\n') && !url@.contains('\\'),
        parsed_url(url@) is None,
        joined_host(redirect_base(), url@) matches Some(h) && h == match parsed_url(redirect_base()) {
            Some((_, host, _)) => host,
            None => None,
        },
    ensures
        redirect_error_spec(url, allow_external, allowed) is None,
{
}

/// An ASCII character of a text appears as that byte in its UTF-8 encoding.
proof fn lemma_ascii_in_utf8(s: Seq<char>, i: int)
    requires
        0 <= i < s.len(),
        (s[i] as u32) <= 0x7f,
    ensures
        vstd::utf8::encode_utf8(s).contains((s[i] as u32) as u8),
    decreases s.len(),
{
    let head = vstd::utf8::encode_scalar(s[0] as u32);
    let tail = vstd::utf8::encode_utf8(s.drop_first());
    assert(vstd::utf8::encode_utf8(s) == head + tail);
    if i == 0 {
        let v = s[0] as u32;
        assert((v & 0x7f) as u8 == v as u8) by (bit_vector)
            requires
                v <= 0x7f,
        ;
        assert((head + tail)[0] == head[0]);
    } else {
        assert(s.drop_first()[i - 1] == s[i]);
        lemma_ascii_in_utf8(s.drop_first(), i - 1);
        let k = choose|k: int| 0 <= k < tail.len() && tail[k] == (s[i] as u32) as u8;
        assert((head + tail)[head.len() + k] == tail[k]);
    }
}

/// A cookie piece that can stand unquoted holds no `;` and no `=`.
proof fn lemma_cookie_piece_chars(s: &str)
    requires
        cookie_piece_ok(s.spec_bytes()),
    ensures
        s@.len() > 0,
        !s@.contains(';'),
        !s@.contains('='),
{
    if s@.len() == 0 {
        assert(s.spec_bytes() =~= Seq::<u8>::empty());
    }
    if s@.contains(';') {
        let i = choose|i: int| 0 <= i < s@.len() && s@[i] == ';';
        lemma_ascii_in_utf8(s@, i);
    }
    if s@.contains('=') {
        let i = choose|i: int| 0 <= i < s@.len() && s@[i] == '=';
        lemma_ascii_in_utf8(s@, i);
    }
}

proof fn lemma_trim_unchanged(t: Seq<char>)
    requires
        t.len() > 0,
        !is_ws(t[0]),
        !is_ws(t.last()),
    ensures
        trim(t) == t,
{
    lemma_trim_lo_char(t, 0);
    lemma_trim_hi_char(t, t.len() as int);
    assert(t.subrange(0, t.len() as int) =~= t);
}

/// A cookie set by `/cookies/set/{name}/{value}` reads back unchanged: the
/// `Set-Cookie` value starts with `name=value` before its first `;`, and that
/// text sent back as a `Cookie` header gives `value` for `name`. Names and
/// values that begin or end with a non-ASCII whitespace character are left
/// out: the reading trims them.
pub proof fn law_cookie_reads_back(name: &str, value: &str)
    requires
        set_cookie_spec(name, value) is Ok,
        name@.len() > 0 ==> !is_ws(name@[0]) && !is_ws(name@.last()),
        value@.len() > 0 ==> !is_ws(value@[0]) && !is_ws(value@.last()),
    ensures
        set_cookie_spec(name, value) matches Ok(h)
            && split_once(h, ';') == Some((name@ + "="@ + value@, " Path=/"@)),
        last_wins(cookie_entries(seq![name@ + "="@ + value@])) == map![name@ => value@],
{
    reveal_strlit("=");
    reveal_strlit("; Path=/");
    reveal_strlit(" Path=/");
    lemma_cookie_piece_chars(name);
    lemma_cookie_piece_chars(value);
    let t = name@ + "="@ + value@;
    let h = t + "; Path=/"@;
    let nl = name@.len() as int;
    assert(!t.contains(';')) by {
        if t.contains(';') {
            let i = choose|i: int| 0 <= i < t.len() && t[i] == ';';
            if i < nl {
                assert(name@[i] == ';');
            } else if i > nl {
                assert(value@[i - nl - 1] == ';');
            }
        }
    }
    assert(first_index(h, ';', t.len() as int)) by {
        assert forall|j: int| 0 <= j < t.len() implies h[j] != ';' by {
            assert(h[j] == t[j]);
        }
    }
    lemma_split_once(h, ';', t.len() as int);
    assert(h.take(t.len() as int) =~= t);
    assert(h.skip(t.len() as int + 1) =~= " Path=/"@);
    assert(first_index(t, '=', nl)) by {
        assert forall|j: int| 0 <= j < nl implies t[j] != '=' by {
            assert(t[j] == name@[j]);
        }
    }
    lemma_trim_unchanged(t);
    lemma_split_once(t, '=', nl);
    assert(t.take(nl) =~= name@);
    assert(t.skip(nl + 1) =~= value@);
    lemma_trim_unchanged(name@);
    lemma_trim_unchanged(value@);
    assert(cookie_pair(t) == Some((name@, value@)));
    lemma_split_without(t, ';');
    let one = seq![t];
    assert(one.drop_last() =~= Seq::<Seq<char>>::empty());
    assert(one.last() == t);
    assert(cookie_pairs_of(Seq::<Seq<char>>::empty()) == Seq::<(Seq<char>, Seq<char>)>::empty());
    assert(cookie_pairs_of(one) =~= seq![(name@, value@)]);
    assert(cookie_entries(Seq::<Seq<char>>::empty()) == Seq::<(Seq<char>, Seq<char>)>::empty());
    assert(cookie_entries(one) == cookie_entries(one.drop_last()) + cookie_pairs_of(split(one.last(), ';')));
    assert(cookie_entries(one) =~= seq![(name@, value@)]);
    let pairs = seq![(name@, value@)];
    assert(pairs.drop_last() =~= Seq::<(Seq<char>, Seq<char>)>::empty());
    assert(pairs.last() == (name@, value@));
    assert(last_wins(Seq::<(Seq<char>, Seq<char>)>::empty()) == Map::<Seq<char>, Seq<char>>::empty());
    assert(last_wins(pairs) == Map::<Seq<char>, Seq<char>>::empty().insert(name@, value@));
    assert(Map::<Seq<char>, Seq<char>>::empty().insert(name@, value@) =~= map![name@ => value@]);
}

} // verus!
