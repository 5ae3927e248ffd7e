use biubin::auth::{basic_auth_ok, bearer_expected, bearer_ok};
use biubin::behavior::{
    cache_control, cache_max_age, cache_not_modified, delay_fixture, delete_cookie_header, etag_for, etag_outcome,
    is_restricted_ip, redirect_fixture, redirect_status, response_headers_error, set_cookie_header, status_fixture,
    status_summary, validate_redirect_target, EtagOutcome, IpAddress,
};
use biubin::headers::{cookie_values, deterministic_bytes, ranged_body};
use biubin::media::{audio_asset, image_asset, video_asset, MediaAsset};
use biubin::representations::{compressed_body, encoding_name, text_fixture, ContentEncoding, TextFixture};
use biubin::streaming::{
    byte_count, chunk_plan, deterministic_unit_bits, drip_plan, CountError, STREAM_BYTES_CHUNK_SIZE,
};
use std::io::Read;

#[test]
fn status_codes_are_parsed_and_bounded() {
    assert_eq!(status_fixture("418"), Ok(418));
    assert_eq!(status_fixture("+200"), Ok(200));
    assert_eq!(status_fixture("99").unwrap_err(), "invalid status code");
    assert_eq!(status_fixture("1000").unwrap_err(), "invalid status code");
    assert_eq!(status_fixture("abc").unwrap_err(), "invalid status code");
    assert_eq!(status_summary(418), "status 418");
}

#[test]
fn delays_redirects_and_cache_ages_are_clamped() {
    assert_eq!(delay_fixture("5"), Ok(5));
    assert_eq!(delay_fixture("120"), Ok(30));
    assert_eq!(delay_fixture("-1").unwrap_err(), "invalid delay");
    assert_eq!(redirect_fixture("0"), Ok(None));
    assert_eq!(redirect_fixture("3"), Ok(Some("/redirect/2".to_owned())));
    assert_eq!(redirect_fixture("500"), Ok(Some("/redirect/19".to_owned())));
    assert_eq!(redirect_fixture("x").unwrap_err(), "invalid redirect count");
    assert_eq!(cache_max_age("60"), Ok(60));
    assert_eq!(cache_max_age("100000"), Ok(86400));
    assert!(cache_max_age("").is_err());
    assert_eq!(cache_control(60), "public, max-age=60");
}

#[test]
fn cookies_are_validated_and_rendered() {
    assert_eq!(set_cookie_header("demo", "value").unwrap(), "demo=value; Path=/");
    assert_eq!(set_cookie_header("bad name", "value").unwrap_err(), "invalid cookie name or value");
    assert_eq!(delete_cookie_header("demo").unwrap(), "demo=; Max-Age=0; Path=/");
    assert_eq!(delete_cookie_header("a;b").unwrap_err(), "invalid cookie name");
}

#[test]
fn etags_answer_conditional_requests() {
    let etag = etag_for("de\"mo");
    assert_eq!(etag, "\"demo\"");
    assert_eq!(etag_outcome(None, None, &etag), EtagOutcome::Current);
    assert_eq!(etag_outcome(Some("\"other\""), None, &etag), EtagOutcome::PreconditionFailed);
    assert_eq!(etag_outcome(Some("\"demo\""), Some("W/\"demo\""), &etag), EtagOutcome::NotModified);
    assert_eq!(etag_outcome(Some("*"), None, &etag), EtagOutcome::Current);
    assert_eq!(etag_outcome(None, Some("\"x\", \"demo\""), &etag), EtagOutcome::NotModified);
}

#[test]
fn cache_validation_prefers_if_none_match() {
    assert!(cache_not_modified(Some("\"biubin-cache-v1\""), None));
    assert!(!cache_not_modified(Some("\"other\""), Some("Thu, 22 Oct 2015 07:28:00 GMT")));
    assert!(cache_not_modified(None, Some("Thu, 22 Oct 2015 07:28:00 GMT")));
    assert!(cache_not_modified(None, Some("Wed, 21 Oct 2015 07:28:00 GMT")));
    assert!(!cache_not_modified(None, Some("Tue, 20 Oct 2015 07:28:00 GMT")));
    assert!(!cache_not_modified(None, Some("not a date")));
    assert!(!cache_not_modified(None, None));
}

#[test]
fn redirect_targets_are_checked() {
    let none: Vec<String> = Vec::new();
    let hosts = vec!["Example.com".to_owned()];
    assert_eq!(validate_redirect_target("/target", false, &none), None);
    assert_eq!(
        validate_redirect_target("https://example.com/target", false, &none).unwrap(),
        "absolute external redirects are disabled"
    );
    assert_eq!(validate_redirect_target("https://example.com/target", true, &hosts), None);
    assert_eq!(
        validate_redirect_target("https://other.example/target", true, &hosts).unwrap(),
        "redirect URL host is not allowlisted"
    );
    assert_eq!(
        validate_redirect_target("http://127.0.0.1/x", true, &hosts).unwrap(),
        "redirect URL points to a local address"
    );
    assert_eq!(
        validate_redirect_target("http://app.localhost/x", true, &hosts).unwrap(),
        "redirect URL points to a local address"
    );
    assert_eq!(
        validate_redirect_target("ftp://example.com/x", true, &hosts).unwrap(),
        "redirect URL scheme must be http or https"
    );
    assert_eq!(
        validate_redirect_target("//evil.example/target", false, &none).unwrap(),
        "external redirects require an absolute http(s) URL"
    );
    assert_eq!(
        validate_redirect_target("/target\r\nX-Test: injected", false, &none).unwrap(),
        "url contains invalid characters"
    );
    let long = format!("/{}", "a".repeat(2048));
    assert_eq!(validate_redirect_target(&long, false, &none).unwrap(), "redirect URL is too long");
    assert_eq!(redirect_status(None), Ok(302));
    assert_eq!(redirect_status(Some(307)), Ok(307));
    assert!(redirect_status(Some(400)).is_err());
}

#[test]
fn restricted_addresses() {
    assert!(is_restricted_ip(IpAddress::V4(0x7f00_0001)));
    assert!(is_restricted_ip(IpAddress::V4(0x0a01_0203)));
    assert!(is_restricted_ip(IpAddress::V4(0xac10_0001)));
    assert!(!is_restricted_ip(IpAddress::V4(0xac20_0001)));
    assert!(is_restricted_ip(IpAddress::V4(0xc0a8_0101)));
    assert!(is_restricted_ip(IpAddress::V4(0xa9fe_0001)));
    assert!(is_restricted_ip(IpAddress::V4(0)));
    assert!(is_restricted_ip(IpAddress::V4(0xe000_0001)));
    assert!(!is_restricted_ip(IpAddress::V4(0x5db8_d822)));
    assert!(is_restricted_ip(IpAddress::V6(1)));
    assert!(is_restricted_ip(IpAddress::V6(0xfd00u128 << 112)));
    assert!(is_restricted_ip(IpAddress::V6(0xfe80u128 << 112)));
    assert!(is_restricted_ip(IpAddress::V6(0xff02u128 << 112)));
    assert!(is_restricted_ip(IpAddress::V6(0xffff_7f00_0001)));
    assert!(!is_restricted_ip(IpAddress::V6(0x2001_0db8u128 << 96)));
}

#[test]
fn response_header_requests_are_screened() {
    let ok = vec![("X-Test".to_owned(), "one".to_owned()), ("Cache-Control".to_owned(), "no-cache".to_owned())];
    assert_eq!(response_headers_error(&ok), None);
    let forbidden = vec![("X-Test".to_owned(), "one".to_owned()), ("Content-Type".to_owned(), "x".to_owned())];
    assert_eq!(response_headers_error(&forbidden).unwrap(), "header \"Content-Type\" cannot be set");
    let bad_name = vec![("bad name".to_owned(), "x".to_owned())];
    assert_eq!(response_headers_error(&bad_name).unwrap(), "invalid response header name");
    let bad_value = vec![("X-Test".to_owned(), "a\u{1}b".to_owned())];
    assert_eq!(response_headers_error(&bad_value).unwrap(), "invalid response header value");
}

#[test]
fn local_literal_redirect_targets_stay_rejected() {
    let hosts = vec![
        "127.0.0.1".to_owned(),
        "[::1]".to_owned(),
        "[::ffff:7f00:1]".to_owned(),
        "[::ffff:a9fe:a9fe]".to_owned(),
        "example.com".to_owned(),
    ];
    for url in [
        "http://127.0.0.1/admin",
        "http://[::1]/admin",
        "http://[::ffff:127.0.0.1]:6379",
        "http://[::ffff:169.254.169.254]/latest",
        "http://[fe80::1]/x",
        "http://[fd00::1]/x",
    ] {
        assert_eq!(
            validate_redirect_target(url, true, &hosts).as_deref(),
            Some("redirect URL points to a local address"),
            "{url}"
        );
    }
    assert_eq!(
        validate_redirect_target("gopher://example.com/1", true, &hosts).unwrap(),
        "redirect URL scheme must be http or https"
    );
}

#[test]
fn absolute_redirect_targets_need_an_allowlisted_host() {
    let none: Vec<String> = Vec::new();
    assert_eq!(
        validate_redirect_target("http://93.184.216.34/x", true, &none).unwrap(),
        "redirect URL host is not allowlisted"
    );
    assert_eq!(
        validate_redirect_target("http://[2001:db8::1]/x", true, &none).unwrap(),
        "redirect URL host is not allowlisted"
    );
    let hosts = vec!["93.184.216.34".to_owned(), "[2001:db8::1]".to_owned()];
    assert_eq!(validate_redirect_target("http://93.184.216.34/x", true, &hosts), None);
    assert_eq!(validate_redirect_target("http://[2001:db8::1]/x", true, &hosts), None);
}

#[test]
fn header_names_must_be_tokens() {
    for name in ["X-Test", "x_y", "A1!#$%&'*+-.^_`|~"] {
        let pairs = vec![(name.to_owned(), "v".to_owned())];
        assert_eq!(response_headers_error(&pairs), None, "{name}");
    }
    for name in ["", "a:b", "a b", "caf\u{e9}", "a\"b"] {
        let pairs = vec![(name.to_owned(), "v".to_owned())];
        assert_eq!(response_headers_error(&pairs).unwrap(), "invalid response header name", "{name}");
    }
    let long = vec![("a".repeat(65536), "v".to_owned())];
    assert_eq!(response_headers_error(&long).unwrap(), "invalid response header name");
    let longest = vec![("a".repeat(65535), "v".to_owned())];
    assert_eq!(response_headers_error(&longest), None);
}

#[test]
fn authentication_fixtures() {
    assert!(basic_auth_ok(Some("Basic dXNlcjpwYXNz"), "user", "pass"));
    assert!(!basic_auth_ok(Some("Basic dXNlcjpwYXNz"), "user", "other"));
    assert!(!basic_auth_ok(Some("Bearer dXNlcjpwYXNz"), "user", "pass"));
    assert!(!basic_auth_ok(None, "user", "pass"));
    assert_eq!(bearer_expected(None), "biubin");
    assert!(bearer_ok(Some("Bearer biubin"), "biubin"));
    assert!(!bearer_ok(Some("Bearer other"), "biubin"));
    assert!(!bearer_ok(Some("biubin"), "biubin"));
}

#[test]
fn compressed_bodies_decode_to_the_fixture() {
    let gz = compressed_body(ContentEncoding::Gzip).unwrap();
    let mut text = String::new();
    flate2::read::GzDecoder::new(gz.as_slice()).read_to_string(&mut text).unwrap();
    assert_eq!(text, "{\"message\":\"biubin compressed response\"}");
    let z = compressed_body(ContentEncoding::Deflate).unwrap();
    let mut text = String::new();
    flate2::read::ZlibDecoder::new(z.as_slice()).read_to_string(&mut text).unwrap();
    assert_eq!(text, "{\"message\":\"biubin compressed response\"}");
    assert_eq!(encoding_name(ContentEncoding::Gzip), "gzip");
    assert_eq!(text_fixture(TextFixture::Xml).1, "application/xml; charset=utf-8");
}

#[test]
fn media_formats_are_case_insensitive() {
    assert_eq!(image_asset("PNG"), Some(MediaAsset::Png));
    assert_eq!(image_asset("jpg"), Some(MediaAsset::Jpeg));
    assert_eq!(image_asset("gif"), None);
    assert_eq!(video_asset("WebM"), Some(MediaAsset::Webm));
    assert_eq!(audio_asset("mp3"), Some(MediaAsset::Mp3));
    assert_eq!(MediaAsset::Mp3.content_type(), "audio/mpeg");
    assert_eq!(MediaAsset::Svg.etag(), "\"biubin-svg-v2\"");
}

#[test]
fn byte_fixtures_and_ranges() {
    assert_eq!(byte_count("10", 100), Ok(10));
    assert_eq!(byte_count("101", 100), Err(CountError::TooLarge));
    assert_eq!(byte_count("x", 100), Err(CountError::Invalid));
    assert_eq!(CountError::TooLarge.status(), 413);
    let body = deterministic_bytes(300);
    assert_eq!(body[250], 250);
    assert_eq!(body[251], 0);
    let ranged = ranged_body(Some("bytes=0-9"), &body);
    assert_eq!(ranged.status, 206);
    assert_eq!(ranged.body, body[0..10].to_vec());
    assert_eq!(ranged.content_range.as_deref(), Some("bytes 0-9/300"));
    let whole = ranged_body(None, &body);
    assert_eq!(whole.status, 200);
    assert_eq!(whole.body.len(), 300);
    let refused = ranged_body(Some("bytes=400-"), &body);
    assert_eq!(refused.status, 416);
    assert_eq!(refused.content_range.as_deref(), Some("bytes */300"));
}

#[test]
fn streamed_pieces_carry_the_same_bytes() {
    let pieces = chunk_plan(40000, STREAM_BYTES_CHUNK_SIZE);
    assert_eq!(pieces, vec![(0, 16384), (16384, 16384), (32768, 7232)]);
    let mut joined = Vec::new();
    for (offset, len) in &pieces {
        joined.extend(biubin::headers::deterministic_bytes_from(*offset, *len));
    }
    assert_eq!(joined, deterministic_bytes(40000));
    assert!(chunk_plan(0, 3).is_empty());
}

#[test]
fn drip_plans() {
    let plan = drip_plan(None, None, None, true, true, 1000).unwrap();
    assert_eq!((plan.count, plan.chunk_size, plan.chunks, plan.status), (10, 10, 1, 200));
    let plan = drip_plan(Some(10), Some(3), Some(201), true, false, 1000).unwrap();
    assert_eq!((plan.chunk_size, plan.chunks, plan.status), (3, 4, 201));
    let plan = drip_plan(Some(0), Some(0), None, true, false, 1000).unwrap();
    assert_eq!((plan.chunk_size, plan.chunks), (1, 1));
    assert_eq!(drip_plan(Some(2000), None, None, true, true, 1000).unwrap_err(), "invalid drip parameters");
    assert_eq!(drip_plan(None, None, None, false, true, 1000).unwrap_err(), "invalid drip parameters");
    assert_eq!(drip_plan(None, None, Some(42), true, true, 1000).unwrap_err(), "invalid drip status code");
}

#[test]
fn unstable_draw_is_deterministic() {
    let a = deterministic_unit_bits(1);
    assert_eq!(a, deterministic_unit_bits(1));
    assert!(a < (1u64 << 53));
    let mut v = 1u64.wrapping_add(0x9e37_79b9_7f4a_7c15);
    v ^= v >> 30;
    v = v.wrapping_mul(0xbf58_476d_1ce4_e5b9);
    v ^= v >> 27;
    v = v.wrapping_mul(0x94d0_49bb_1331_11eb);
    v ^= v >> 31;
    assert_eq!(a, v >> 11);
}

#[test]
fn a_set_cookie_reads_back_unchanged() {
    let header = set_cookie_header("session", "a1b2").unwrap();
    assert_eq!(header, "session=a1b2; Path=/");
    let sent_back = header.split(';').next().unwrap().to_owned();
    assert_eq!(cookie_values(&vec![sent_back]), vec![("session".to_owned(), "a1b2".to_owned())]);
}
