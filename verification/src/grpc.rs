//! The rules of the gRPC fixture service: status codes, stream limits and
//! the index it reports.

use vstd::prelude::*;
use crate::number::{decimal, decimal_chars};
use crate::text::{chars_of, push_all, string_of};

verus! {

/// The gRPC status codes, numbered 0 to 16 in this order.
#[derive(Clone, Copy, PartialEq, Eq, Structural, Debug)]
pub enum GrpcCode {
    Success,
    Cancelled,
    Unknown,
    InvalidArgument,
    DeadlineExceeded,
    NotFound,
    AlreadyExists,
    PermissionDenied,
    ResourceExhausted,
    FailedPrecondition,
    Aborted,
    OutOfRange,
    Unimplemented,
    Internal,
    Unavailable,
    DataLoss,
    Unauthenticated,
}

/// The number of each code.
pub open spec fn code_number(c: GrpcCode) -> u32 {
    match c {
        GrpcCode::Success => 0,
        GrpcCode::Cancelled => 1,
        GrpcCode::Unknown => 2,
        GrpcCode::InvalidArgument => 3,
        GrpcCode::DeadlineExceeded => 4,
        GrpcCode::NotFound => 5,
        GrpcCode::AlreadyExists => 6,
        GrpcCode::PermissionDenied => 7,
        GrpcCode::ResourceExhausted => 8,
        GrpcCode::FailedPrecondition => 9,
        GrpcCode::Aborted => 10,
        GrpcCode::OutOfRange => 11,
        GrpcCode::Unimplemented => 12,
        GrpcCode::Internal => 13,
        GrpcCode::Unavailable => 14,
        GrpcCode::DataLoss => 15,
        GrpcCode::Unauthenticated => 16,
    }
}

/// The code a requested number names; an unknown number is `InvalidArgument`.
pub fn grpc_code(code: u32) -> (c: GrpcCode)
    ensures
        code <= 16 ==> code_number(c) == code,
        code > 16 ==> c == GrpcCode::InvalidArgument,
{
    match code {
        0 => GrpcCode::Success,
        1 => GrpcCode::Cancelled,
        2 => GrpcCode::Unknown,
        3 => GrpcCode::InvalidArgument,
        4 => GrpcCode::DeadlineExceeded,
        5 => GrpcCode::NotFound,
        6 => GrpcCode::AlreadyExists,
        7 => GrpcCode::PermissionDenied,
        8 => GrpcCode::ResourceExhausted,
        9 => GrpcCode::FailedPrecondition,
        10 => GrpcCode::Aborted,
        11 => GrpcCode::OutOfRange,
        12 => GrpcCode::Unimplemented,
        13 => GrpcCode::Internal,
        14 => GrpcCode::Unavailable,
        15 => GrpcCode::DataLoss,
        16 => GrpcCode::Unauthenticated,
        _ => GrpcCode::InvalidArgument,
    }
}

/// The status the `Error` method fails with.
#[derive(Clone, Debug)]
pub struct RequestedError {
    pub code: GrpcCode,
    pub message: String,
    /// Whether the `biubin-trailer: present` trailer is attached.
    pub trailer: bool,
}

/// What the `Error` method answers: success for code 0, else the requested
/// status, with a default message when none was given.
pub fn requested_error(code: u32, message: &str, include_trailer: bool) -> (r: Option<RequestedError>)
    ensures
        (code == 0) == r is None,
        r matches Some(e) ==> {
            &&& code > 16 ==> e.code == GrpcCode::InvalidArgument
            &&& code <= 16 ==> code_number(e.code) == code
            &&& e.message@ == (if message@.len() == 0 { "biubin requested error"@ } else { message@ })
            &&& e.trailer == include_trailer
        },
{
    let c = grpc_code(code);
    if c == GrpcCode::Success {
        return None;
    }
    let chars = chars_of(message);
    let text = if chars.len() == 0 {
        "biubin requested error".to_owned()
    } else {
        message.to_owned()
    };
    Some(RequestedError { code: c, message: text, trailer: include_trailer })
}

/// The most messages a stream may carry.
pub const MAX_STREAM_MESSAGES: u64 = 1000;

/// The longest pause between streamed messages, in milliseconds.
pub const MAX_STREAM_INTERVAL_MS: u64 = 60000;

/// The number of messages `EchoServerStream` sends: the request, from 1 to 1000.
pub fn server_stream_count(requested: u32) -> (n: u64)
    ensures
        n == (if requested < 1 { 1 } else if requested > 1000 { 1000 } else { requested as u64 }),
{
    if requested < 1 {
        1
    } else if requested > 1000 {
        1000
    } else {
        requested as u64
    }
}

/// The pause between streamed messages: the request, at most a minute.
pub fn stream_interval(requested_ms: u64) -> (ms: u64)
    ensures
        ms == (if requested_ms < MAX_STREAM_INTERVAL_MS { requested_ms } else { MAX_STREAM_INTERVAL_MS }),
{
    if requested_ms < MAX_STREAM_INTERVAL_MS {
        requested_ms
    } else {
        MAX_STREAM_INTERVAL_MS
    }
}

/// The running summary of a client stream.
pub struct StreamSummary {
    pub count: u64,
    pub last_message: String,
    pub last_payload: Vec<u8>,
}

impl StreamSummary {
    pub fn new() -> (s: StreamSummary)
        ensures
            s.count == 0,
            s.last_message@ == Seq::<char>::empty(),
            s.last_payload@ == Seq::<u8>::empty(),
    {
        StreamSummary { count: 0, last_message: String::new(), last_payload: Vec::new() }
    }

    /// Takes one more message; a message past the thousandth fails the call
    /// with `ResourceExhausted`.
    pub fn accept(&mut self, message: String, payload: Vec<u8>) -> (r: Result<(), String>)
        requires
            old(self).count <= MAX_STREAM_MESSAGES,
        ensures
            final(self).count == old(self).count + 1,
            old(self).count + 1 > MAX_STREAM_MESSAGES ==> (r matches Err(e) && e@ == "stream message limit exceeded"@),
            old(self).count + 1 <= MAX_STREAM_MESSAGES ==> r is Ok && final(self).last_message@ == message@
                && final(self).last_payload@ == payload@,
    {
        self.count = self.count + 1;
        if self.count > MAX_STREAM_MESSAGES {
            return Err("stream message limit exceeded".to_owned());
        }
        self.last_message = message;
        self.last_payload = payload;
        Ok(())
    }
}

/// Numbers the messages of a bidirectional stream; the thousand-and-first
/// fails the stream with `ResourceExhausted`.
pub fn bidi_sequence(previous: u64) -> (r: Result<u64, String>)
    requires
        previous <= MAX_STREAM_MESSAGES,
    ensures
        previous + 1 > MAX_STREAM_MESSAGES ==> (r matches Err(e) && e@ == "stream message limit exceeded"@),
        previous + 1 <= MAX_STREAM_MESSAGES ==> r == Ok::<u64, String>((previous + 1) as u64),
{
    let n = previous + 1;
    if n > MAX_STREAM_MESSAGES {
        Err("stream message limit exceeded".to_owned())
    } else {
        Ok(n)
    }
}

fn labelled(label: &str, n: u64) -> (s: String)
    ensures
        s@ == label@ + decimal(n as nat),
{
    let mut v = chars_of(label);
    let d = decimal_chars(n);
    push_all(&mut v, d.as_slice());
    string_of(v.as_slice())
}

/// Summaries of the events the streaming methods record.
pub fn server_stream_summary(sequence: u64) -> (s: String)
    ensures
        s@ == "EchoServerStream sequence="@ + decimal(sequence as nat),
{
    labelled("EchoServerStream sequence=", sequence)
}

pub fn client_stream_summary(count: u64) -> (s: String)
    ensures
        s@ == "EchoClientStream count="@ + decimal(count as nat),
{
    labelled("EchoClientStream count=", count)
}

pub fn bidi_stream_summary(sequence: u64) -> (s: String)
    ensures
        s@ == "EchoBidiStream sequence="@ + decimal(sequence as nat),
{
    labelled("EchoBidiStream sequence=", sequence)
}

/// What the `Index` method reports.
pub struct ServiceIndex {
    pub service: String,
    pub methods: Vec<String>,
    pub modes: Vec<String>,
}

pub open spec fn index_methods() -> Seq<Seq<char>> {
    seq!["Index"@, "EchoUnary"@, "EchoServerStream"@, "EchoClientStream"@, "EchoBidiStream"@, "Error"@]
}

pub open spec fn index_modes() -> Seq<Seq<char>> {
    seq!["h2c"@, "tls"@, "mtls"@]
}

pub fn service_index() -> (r: ServiceIndex)
    ensures
        r.service@ == "biubin"@,
        crate::multimap::strings_view(r.methods@) == index_methods(),
        crate::multimap::strings_view(r.modes@) == index_modes(),
{
    let mut methods: Vec<String> = Vec::new();
    methods.push("Index".to_owned());
    methods.push("EchoUnary".to_owned());
    methods.push("EchoServerStream".to_owned());
    methods.push("EchoClientStream".to_owned());
    methods.push("EchoBidiStream".to_owned());
    methods.push("Error".to_owned());
    let mut modes: Vec<String> = Vec::new();
    modes.push("h2c".to_owned());
    modes.push("tls".to_owned());
    modes.push("mtls".to_owned());
    assert(crate::multimap::strings_view(methods@) =~= index_methods());
    assert(crate::multimap::strings_view(modes@) =~= index_modes());
    ServiceIndex { service: "biubin".to_owned(), methods, modes }
}

} // verus!
