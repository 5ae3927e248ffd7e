//! The fixed representations: JSON, HTML, XML, UTF-8 text and compressed bodies.

use vstd::prelude::*;
use vstd::string::StringSliceAdditionalSpecFns;

verus! {

/// The content encodings of the compression fixtures.
#[derive(Clone, Copy, PartialEq, Eq, Structural, Debug)]
pub enum ContentEncoding {
    Gzip,
    Deflate,
}

/// The `Content-Encoding` value of each encoding.
pub open spec fn encoding_name_spec(e: ContentEncoding) -> Seq<char> {
    match e {
        ContentEncoding::Gzip => "gzip"@,
        ContentEncoding::Deflate => "deflate"@,
    }
}

pub fn encoding_name(e: ContentEncoding) -> (s: String)
    ensures
        s@ == encoding_name_spec(e),
{
    match e {
        ContentEncoding::Gzip => "gzip".to_owned(),
        ContentEncoding::Deflate => "deflate".to_owned(),
    }
}

/// What `flate2`'s `GzEncoder` at the fast level writes for `data`, if it succeeds.
pub uninterp spec fn gzip_fast(data: Seq<u8>) -> Option<Seq<u8>>;

/// Writes `data` through `flate2::write::GzEncoder` with `Compression::fast()`
/// into a vector and finishes the stream. The result is named `gzip_fast`;
/// nothing more is stated of it.
#[verifier::external_body]
fn gzip_compress(data: &[u8]) -> (r: Option<Vec<u8>>)
    ensures
        match r {
            Some(v) => gzip_fast(data@) == Some(v@),
            None => gzip_fast(data@) is None,
        },
{
    let mut encoder = flate2::write::GzEncoder::new(Vec::new(), flate2::Compression::fast());
    match std::io::Write::write_all(&mut encoder, data) {
        Ok(()) => encoder.finish().ok(),
        Err(_) => None,
    }
}

/// What `flate2`'s `ZlibEncoder` at the fast level writes for `data`, if it succeeds.
pub uninterp spec fn zlib_fast(data: Seq<u8>) -> Option<Seq<u8>>;

/// Writes `data` through `flate2::write::ZlibEncoder` with `Compression::fast()`
/// into a vector and finishes the stream. The result is named `zlib_fast`;
/// nothing more is stated of it.
#[verifier::external_body]
fn zlib_compress(data: &[u8]) -> (r: Option<Vec<u8>>)
    ensures
        match r {
            Some(v) => zlib_fast(data@) == Some(v@),
            None => zlib_fast(data@) is None,
        },
{
    let mut encoder = flate2::write::ZlibEncoder::new(Vec::new(), flate2::Compression::fast());
    match std::io::Write::write_all(&mut encoder, data) {
        Ok(()) => encoder.finish().ok(),
        Err(_) => None,
    }
}

/// The JSON document the compression fixtures compress.
pub open spec fn compressed_source() -> Seq<u8> {
    "{\"message\":\"biubin compressed response\"}".spec_bytes()
}

/// The body of a compression fixture, or why it could not be made.
pub open spec fn compressed_spec(e: ContentEncoding) -> Result<Seq<u8>, Seq<char>> {
    let compressed = match e {
        ContentEncoding::Gzip => gzip_fast(compressed_source()),
        ContentEncoding::Deflate => zlib_fast(compressed_source()),
    };
    match compressed {
        Some(b) => Ok(b),
        None => Err("compression failed"@),
    }
}

pub fn compressed_body(e: ContentEncoding) -> (r: Result<Vec<u8>, String>)
    ensures
        match r {
            Ok(b) => compressed_spec(e) == Ok::<Seq<u8>, Seq<char>>(b@),
            Err(m) => compressed_spec(e) == Err::<Seq<u8>, Seq<char>>(m@),
        },
{
    let source = "{\"message\":\"biubin compressed response\"}".as_bytes();
    let compressed = match e {
        ContentEncoding::Gzip => gzip_compress(source),
        ContentEncoding::Deflate => zlib_compress(source),
    };
    match compressed {
        Some(b) => Ok(b),
        None => Err("compression failed".to_owned()),
    }
}

/// The fixed text representations.
#[derive(Clone, Copy, PartialEq, Eq, Structural, Debug)]
pub enum TextFixture {
    Html,
    Xml,
    Utf8,
}

/// The body and content type of each text representation.
pub open spec fn text_fixture_spec(f: TextFixture) -> (Seq<char>, Seq<char>) {
    match f {
        TextFixture::Html => (
            "<!doctype html><html><body><h1>biubin html fixture</h1></body></html>"@,
            "text/html; charset=utf-8"@,
        ),
        TextFixture::Xml => (
            "<?xml version=\"1.0\" encoding=\"UTF-8\"?><biubin><ok>true</ok></biubin>"@,
            "application/xml; charset=utf-8"@,
        ),
        TextFixture::Utf8 => ("BiuBin UTF-8 fixture · 你好，世界 · café"@, "text/plain; charset=utf-8"@),
    }
}

pub fn text_fixture(f: TextFixture) -> (r: (String, String))
    ensures
        (r.0@, r.1@) == text_fixture_spec(f),
{
    match f {
        TextFixture::Html => (
            "<!doctype html><html><body><h1>biubin html fixture</h1></body></html>".to_owned(),
            "text/html; charset=utf-8".to_owned(),
        ),
        TextFixture::Xml => (
            "<?xml version=\"1.0\" encoding=\"UTF-8\"?><biubin><ok>true</ok></biubin>".to_owned(),
            "application/xml; charset=utf-8".to_owned(),
        ),
        TextFixture::Utf8 => (
            "BiuBin UTF-8 fixture · 你好，世界 · café".to_owned(),
            "text/plain; charset=utf-8".to_owned(),
        ),
    }
}

} // verus!
