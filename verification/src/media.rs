//! Which media fixture a requested format names, with its content type and
//! entity tag.

use vstd::prelude::*;
use crate::text::{chars_eq, chars_of, lower_chars, lower_seq};

verus! {

/// The media fixtures the server can send.
#[derive(Clone, Copy, PartialEq, Eq, Structural, Debug)]
pub enum MediaAsset {
    Png,
    Jpeg,
    Svg,
    Webp,
    Mp4,
    Webm,
    Wav,
    Mp3,
}

/// The content type each fixture is served with.
pub open spec fn content_type_spec(a: MediaAsset) -> Seq<char> {
    match a {
        MediaAsset::Png => "image/png"@,
        MediaAsset::Jpeg => "image/jpeg"@,
        MediaAsset::Svg => "image/svg+xml"@,
        MediaAsset::Webp => "image/webp"@,
        MediaAsset::Mp4 => "video/mp4"@,
        MediaAsset::Webm => "video/webm"@,
        MediaAsset::Wav => "audio/wav"@,
        MediaAsset::Mp3 => "audio/mpeg"@,
    }
}

/// The strong entity tag of each fixture.
pub open spec fn etag_spec(a: MediaAsset) -> Seq<char> {
    match a {
        MediaAsset::Png => "\"biubin-png-v2\""@,
        MediaAsset::Jpeg => "\"biubin-jpeg-v2\""@,
        MediaAsset::Svg => "\"biubin-svg-v2\""@,
        MediaAsset::Webp => "\"biubin-webp-v2\""@,
        MediaAsset::Mp4 => "\"biubin-mp4-v2\""@,
        MediaAsset::Webm => "\"biubin-webm-v2\""@,
        MediaAsset::Wav => "\"biubin-wav-v1\""@,
        MediaAsset::Mp3 => "\"biubin-mp3-v1\""@,
    }
}

impl MediaAsset {
    pub fn content_type(self) -> (t: String)
        ensures
            t@ == content_type_spec(self),
    {
        match self {
            MediaAsset::Png => "image/png".to_owned(),
            MediaAsset::Jpeg => "image/jpeg".to_owned(),
            MediaAsset::Svg => "image/svg+xml".to_owned(),
            MediaAsset::Webp => "image/webp".to_owned(),
            MediaAsset::Mp4 => "video/mp4".to_owned(),
            MediaAsset::Webm => "video/webm".to_owned(),
            MediaAsset::Wav => "audio/wav".to_owned(),
            MediaAsset::Mp3 => "audio/mpeg".to_owned(),
        }
    }

    pub fn etag(self) -> (t: String)
        ensures
            t@ == etag_spec(self),
    {
        match self {
            MediaAsset::Png => "\"biubin-png-v2\"".to_owned(),
            MediaAsset::Jpeg => "\"biubin-jpeg-v2\"".to_owned(),
            MediaAsset::Svg => "\"biubin-svg-v2\"".to_owned(),
            MediaAsset::Webp => "\"biubin-webp-v2\"".to_owned(),
            MediaAsset::Mp4 => "\"biubin-mp4-v2\"".to_owned(),
            MediaAsset::Webm => "\"biubin-webm-v2\"".to_owned(),
            MediaAsset::Wav => "\"biubin-wav-v1\"".to_owned(),
            MediaAsset::Mp3 => "\"biubin-mp3-v1\"".to_owned(),
        }
    }
}

/// Is `s` exactly `name`?
fn names(s: &[char], name: &str) -> (r: bool)
    ensures
        r == (s@ == name@),
{
    let n = chars_of(name);
    chars_eq(s, n.as_slice())
}

/// The image fixture a format names, case-insensitively.
pub open spec fn image_spec(format: Seq<char>) -> Option<MediaAsset> {
    let f = lower_seq(format);
    if f == "png"@ {
        Some(MediaAsset::Png)
    } else if f == "jpeg"@ || f == "jpg"@ {
        Some(MediaAsset::Jpeg)
    } else if f == "svg"@ {
        Some(MediaAsset::Svg)
    } else if f == "webp"@ {
        Some(MediaAsset::Webp)
    } else {
        None
    }
}

/// The video fixture a format names, case-insensitively.
pub open spec fn video_spec(format: Seq<char>) -> Option<MediaAsset> {
    let f = lower_seq(format);
    if f == "mp4"@ {
        Some(MediaAsset::Mp4)
    } else if f == "webm"@ {
        Some(MediaAsset::Webm)
    } else {
        None
    }
}

/// The audio fixture a format names, case-insensitively.
pub open spec fn audio_spec(format: Seq<char>) -> Option<MediaAsset> {
    let f = lower_seq(format);
    if f == "wav"@ {
        Some(MediaAsset::Wav)
    } else if f == "mp3"@ {
        Some(MediaAsset::Mp3)
    } else {
        None
    }
}

pub fn image_asset(format: &str) -> (a: Option<MediaAsset>)
    ensures
        a == image_spec(format@),
{
    let c = chars_of(format);
    let f = lower_chars(c.as_slice());
    let f = f.as_slice();
    if names(f, "png") {
        Some(MediaAsset::Png)
    } else if names(f, "jpeg") || names(f, "jpg") {
        Some(MediaAsset::Jpeg)
    } else if names(f, "svg") {
        Some(MediaAsset::Svg)
    } else if names(f, "webp") {
        Some(MediaAsset::Webp)
    } else {
        None
    }
}

pub fn video_asset(format: &str) -> (a: Option<MediaAsset>)
    ensures
        a == video_spec(format@),
{
    let c = chars_of(format);
    let f = lower_chars(c.as_slice());
    let f = f.as_slice();
    if names(f, "mp4") {
        Some(MediaAsset::Mp4)
    } else if names(f, "webm") {
        Some(MediaAsset::Webm)
    } else {
        None
    }
}

pub fn audio_asset(format: &str) -> (a: Option<MediaAsset>)
    ensures
        a == audio_spec(format@),
{
    let c = chars_of(format);
    let f = lower_chars(c.as_slice());
    let f = f.as_slice();
    if names(f, "wav") {
        Some(MediaAsset::Wav)
    } else if names(f, "mp3") {
        Some(MediaAsset::Mp3)
    } else {
        None
    }
}

} // verus!
