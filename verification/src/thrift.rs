//! The rules of the embedded Thrift service: which method a message calls,
//! which argument fields are read, the input limits, and the framed reader
//! that refuses oversized frames.

use vstd::prelude::*;
use crate::number::{decimal, decimal_chars};
use crate::text::{chars_of, push_all, str_eq, string_of};

verus! {

/// The most list items a `sum` call may send.
pub const MAX_THRIFT_LIST_ITEMS: i32 = 1000;

/// The longest string or binary argument accepted, in bytes.
pub const MAX_THRIFT_STRING_BYTES: usize = 1048576;

/// The largest frame accepted, in bytes.
pub const MAX_THRIFT_FRAME_BYTES: usize = 4194304;

/// The methods the service implements.
#[derive(Clone, Copy, PartialEq, Eq, Structural, Debug)]
pub enum ThriftMethod {
    Echo,
    Sum,
    RaiseError,
    Notify,
}

/// Which method a message calls, or why it is refused: only calls and one-way
/// messages are served, and only the four methods.
pub open spec fn dispatch_spec(callable: bool, name: Seq<char>) -> Result<ThriftMethod, Seq<char>> {
    if !callable {
        Err("unexpected Thrift message type for "@ + name)
    } else if name == "echo"@ {
        Ok(ThriftMethod::Echo)
    } else if name == "sum"@ {
        Ok(ThriftMethod::Sum)
    } else if name == "raiseError"@ {
        Ok(ThriftMethod::RaiseError)
    } else if name == "notify"@ {
        Ok(ThriftMethod::Notify)
    } else {
        Err("unknown Thrift method: "@ + name)
    }
}

fn prefixed(prefix: &str, name: &str) -> (s: String)
    ensures
        s@ == prefix@ + name@,
{
    let mut v = chars_of(prefix);
    let n = chars_of(name);
    push_all(&mut v, n.as_slice());
    string_of(v.as_slice())
}

/// `callable` says whether the message is a call or a one-way message.
pub fn dispatch(callable: bool, name: &str) -> (r: Result<ThriftMethod, String>)
    ensures
        match r {
            Ok(m) => dispatch_spec(callable, name@) == Ok::<ThriftMethod, Seq<char>>(m),
            Err(e) => dispatch_spec(callable, name@) == Err::<ThriftMethod, Seq<char>>(e@),
        },
{
    if !callable {
        Err(prefixed("unexpected Thrift message type for ", name))
    } else if str_eq(name, "echo") {
        Ok(ThriftMethod::Echo)
    } else if str_eq(name, "sum") {
        Ok(ThriftMethod::Sum)
    } else if str_eq(name, "raiseError") {
        Ok(ThriftMethod::RaiseError)
    } else if str_eq(name, "notify") {
        Ok(ThriftMethod::Notify)
    } else {
        Err(prefixed("unknown Thrift method: ", name))
    }
}

/// The wire types of Thrift fields.
#[derive(Clone, Copy, PartialEq, Eq, Structural, Debug)]
pub enum FieldType {
    Stop,
    Void,
    Bool,
    I08,
    Double,
    I16,
    I32,
    I64,
    Str,
    Utf7,
    Struct,
    MapOf,
    SetOf,
    List,
    Utf8,
    Utf16,
}

/// The structures whose fields the service reads.
#[derive(Clone, Copy, PartialEq, Eq, Structural, Debug)]
pub enum ArgumentStruct {
    /// The arguments of `echo`: field 1 is the request.
    EchoArgs,
    /// The echo request: field 1 the message, field 2 the payload.
    EchoRequest,
    /// The arguments of `sum`: field 1 the list of values.
    SumArgs,
    /// The arguments of `raiseError`: field 1 the kind.
    ErrorArgs,
    /// The arguments of `notify`: field 1 the message.
    NotifyArgs,
}

/// What to do with one field of a structure being read.
#[derive(Clone, Copy, PartialEq, Eq, Structural, Debug)]
pub enum FieldAction {
    /// The end of the structure.
    End,
    /// Read the field as the argument numbered here.
    Read(u8),
    /// Skip the field.
    Skip,
}

pub open spec fn field_action_spec(s: ArgumentStruct, id: Option<i16>, t: FieldType) -> FieldAction {
    if t == FieldType::Stop {
        FieldAction::End
    } else {
        match s {
            ArgumentStruct::EchoArgs => if id == Some(1i16) && t == FieldType::Struct { FieldAction::Read(1) } else { FieldAction::Skip },
            ArgumentStruct::EchoRequest => if id == Some(1i16) && t == FieldType::Str {
                FieldAction::Read(1)
            } else if id == Some(2i16) && t == FieldType::Str {
                FieldAction::Read(2)
            } else {
                FieldAction::Skip
            },
            ArgumentStruct::SumArgs => if id == Some(1i16) && t == FieldType::List { FieldAction::Read(1) } else { FieldAction::Skip },
            ArgumentStruct::ErrorArgs => if id == Some(1i16) && t == FieldType::I32 { FieldAction::Read(1) } else { FieldAction::Skip },
            ArgumentStruct::NotifyArgs => if id == Some(1i16) && t == FieldType::Str { FieldAction::Read(1) } else { FieldAction::Skip },
        }
    }
}

pub fn field_action(s: ArgumentStruct, id: Option<i16>, t: FieldType) -> (a: FieldAction)
    ensures
        a == field_action_spec(s, id, t),
{
    if t == FieldType::Stop {
        return FieldAction::End;
    }
    let one = match id {
        Some(n) => n == 1,
        None => false,
    };
    let two = match id {
        Some(n) => n == 2,
        None => false,
    };
    match s {
        ArgumentStruct::EchoArgs => if one && t == FieldType::Struct { FieldAction::Read(1) } else { FieldAction::Skip },
        ArgumentStruct::EchoRequest => if one && t == FieldType::Str {
            FieldAction::Read(1)
        } else if two && t == FieldType::Str {
            FieldAction::Read(2)
        } else {
            FieldAction::Skip
        },
        ArgumentStruct::SumArgs => if one && t == FieldType::List { FieldAction::Read(1) } else { FieldAction::Skip },
        ArgumentStruct::ErrorArgs => if one && t == FieldType::I32 { FieldAction::Read(1) } else { FieldAction::Skip },
        ArgumentStruct::NotifyArgs => if one && t == FieldType::Str { FieldAction::Read(1) } else { FieldAction::Skip },
    }
}

/// Checks the header of the list `sum` reads: at most 1000 items, all `i64`.
pub fn sum_list_check(size: i32, element: FieldType) -> (r: Result<(), String>)
    ensures
        (size < 0 || size > MAX_THRIFT_LIST_ITEMS) ==> (r matches Err(e) && e@ == "sum list exceeds the Thrift input limit"@),
        !(size < 0 || size > MAX_THRIFT_LIST_ITEMS) && element != FieldType::I64 ==> (r matches Err(e) && e@ == "sum values must be i64"@),
        !(size < 0 || size > MAX_THRIFT_LIST_ITEMS) && element == FieldType::I64 ==> r is Ok,
{
    if size < 0 || size > MAX_THRIFT_LIST_ITEMS {
        return Err("sum list exceeds the Thrift input limit".to_owned());
    }
    if element != FieldType::I64 {
        return Err("sum values must be i64".to_owned());
    }
    Ok(())
}

/// The sum of some values, as a mathematical integer.
pub open spec fn total(values: Seq<i64>) -> int
    decreases values.len(),
{
    if values.len() == 0 {
        0
    } else {
        total(values.drop_last()) + values.last()
    }
}

/// The sum `sum` answers with; `None` where it does not fit in an `i64`.
pub fn sum_values(values: &Vec<i64>) -> (r: Option<i64>)
    ensures
        match r {
            Some(s) => s == total(values@),
            None => total(values@) < i64::MIN || total(values@) > i64::MAX,
        },
{
    let mut acc: i128 = 0;
    let mut i: usize = 0;
    while i < values.len()
        invariant
            i <= values@.len(),
            acc == total(values@.take(i as int)),
            -(i as int) * 0x8000_0000_0000_0000 <= acc <= (i as int) * 0x7fff_ffff_ffff_ffff,
        decreases values@.len() - i,
    {
        assert(values@.take(i + 1).drop_last() =~= values@.take(i as int));
        proof {
            assert((i as int) < 0x1_0000_0000_0000_0000);
            assert(-(i as int + 1) * 0x8000_0000_0000_0000 >= -0x1_0000_0000_0000_0000 * 0x8000_0000_0000_0000) by (nonlinear_arith)
                requires
                    (i as int) < 0x1_0000_0000_0000_0000,
                    i >= 0,
            ;
            assert((i as int + 1) * 0x7fff_ffff_ffff_ffff <= 0x1_0000_0000_0000_0000 * 0x7fff_ffff_ffff_ffff) by (nonlinear_arith)
                requires
                    (i as int) < 0x1_0000_0000_0000_0000,
                    i >= 0,
            ;
        }
        acc = acc + values[i] as i128;
        i = i + 1;
    }
    assert(values@.take(i as int) =~= values@);
    if acc < i64::MIN as i128 || acc > i64::MAX as i128 {
        None
    } else {
        Some(acc as i64)
    }
}

/// The decimal rendering of a signed integer.
pub open spec fn signed_decimal(n: int) -> Seq<char> {
    if n < 0 {
        seq!['-'] + decimal((-n) as nat)
    } else {
        decimal(n as nat)
    }
}

fn signed_chars(n: i32) -> (r: Vec<char>)
    ensures
        r@ == signed_decimal(n as int),
{
    if n < 0 {
        let m: u64 = (-(n as i64)) as u64;
        let mut v: Vec<char> = Vec::new();
        v.push('-');
        let d = decimal_chars(m);
        push_all(&mut v, d.as_slice());
        v
    } else {
        decimal_chars(n as u64)
    }
}

fn with_signed(prefix: &str, n: i32) -> (s: String)
    ensures
        s@ == prefix@ + signed_decimal(n as int),
{
    let mut v = chars_of(prefix);
    let d = signed_chars(n);
    push_all(&mut v, d.as_slice());
    string_of(v.as_slice())
}

/// The error `raiseError` answers with.
pub fn raised_error(kind: i32) -> (s: String)
    ensures
        s@ == "biubin requested Thrift error kind="@ + signed_decimal(kind as int),
{
    with_signed("biubin requested Thrift error kind=", kind)
}

/// The summary of the event a `raiseError` call records.
pub fn raise_error_summary(kind: i32) -> (s: String)
    ensures
        s@ == "raiseError kind="@ + signed_decimal(kind as int),
{
    with_signed("raiseError kind=", kind)
}

/// The summary of the event a `sum` call records.
pub fn sum_summary(count: usize) -> (s: String)
    ensures
        s@ == "sum count="@ + decimal(count as nat),
{
    let mut v = chars_of("sum count=");
    let d = decimal_chars(count as u64);
    push_all(&mut v, d.as_slice());
    string_of(v.as_slice())
}

/// Whether an echo request is within the string limits.
pub fn echo_within_limits(message_len: usize, payload_len: usize) -> (r: bool)
    ensures
        r == (message_len <= MAX_THRIFT_STRING_BYTES && payload_len <= MAX_THRIFT_STRING_BYTES),
{
    message_len <= MAX_THRIFT_STRING_BYTES && payload_len <= MAX_THRIFT_STRING_BYTES
}

/// What the framed reader does next for a read of `output_len` bytes.
#[derive(Clone, Debug)]
pub enum ReadStep {
    /// Nothing to read into: answer 0.
    Empty,
    /// Read up to this many more bytes of the four-byte frame header.
    ReadHeader(usize),
    /// The header announces a frame over the limit: fail with invalid data.
    TooLarge,
    /// Hand these header bytes to the caller.
    SendHeader(Vec<u8>),
    /// Read up to this many bytes of the frame body.
    ReadBody(usize),
}

/// A reader of length-prefixed frames that passes the frames through
/// unchanged and refuses a frame larger than 4 MiB before reading it.
pub struct FrameReader {
    remaining: Option<usize>,
    header: Vec<u8>,
    header_sent: usize,
}

impl FrameReader {
    pub closed spec fn header(&self) -> Seq<u8> {
        self.header@
    }

    pub closed spec fn remaining(&self) -> Option<usize> {
        self.remaining
    }

    pub closed spec fn header_sent(&self) -> nat {
        self.header_sent as nat
    }

    /// The header holds at most four bytes and is complete once a frame has
    /// been sized; no more header bytes are sent than were read.
    pub closed spec fn inv(&self) -> bool {
        &&& self.header@.len() <= 4
        &&& self.remaining is Some ==> self.header@.len() == 4
        &&& self.header_sent <= self.header@.len()
    }

    pub fn new() -> (r: FrameReader)
        ensures
            r.inv(),
            r.header() == Seq::<u8>::empty(),
            r.remaining() is None,
            r.header_sent() == 0,
    {
        FrameReader { remaining: None, header: Vec::new(), header_sent: 0 }
    }

    /// The size a frame header announces.
    pub open spec fn announced(header: Seq<u8>) -> nat {
        (header[0] as nat) * 16777216 + (header[1] as nat) * 65536 + (header[2] as nat) * 256 + (header[3] as nat)
    }

    /// Decides the next step of a read into a buffer of `output_len` bytes.
    /// A finished frame starts the next one.
    pub fn step(&mut self, output_len: usize) -> (s: ReadStep)
        requires
            old(self).inv(),
        ensures
            final(self).inv(),
            output_len == 0 ==> s is Empty && *final(self) == *old(self),
            output_len > 0 ==> {
                let fresh = old(self).remaining() == Some(0usize);
                let header = if fresh { Seq::<u8>::empty() } else { old(self).header() };
                let sent = if fresh { 0 } else { old(self).header_sent() };
                let remaining = if fresh { None } else { old(self).remaining() };
                &&& header.len() < 4 ==> s == ReadStep::ReadHeader((4 - header.len()) as usize)
                    && final(self).header() == header && final(self).remaining() is None
                    && final(self).header_sent() == sent
                &&& header.len() == 4 && remaining is None && FrameReader::announced(header) > MAX_THRIFT_FRAME_BYTES
                    ==> s is TooLarge && final(self).header() == header && final(self).remaining() is None
                &&& header.len() == 4 && (remaining is Some || FrameReader::announced(header) <= MAX_THRIFT_FRAME_BYTES) ==> {
                    let size = match remaining {
                        Some(r) => r,
                        None => FrameReader::announced(header) as usize,
                    };
                    let n = if output_len < 4 - sent { output_len as nat } else { (4 - sent) as nat };
                    &&& final(self).header() == header
                    &&& final(self).remaining() == Some(size)
                    &&& sent < 4 ==> (s matches ReadStep::SendHeader(b) && b@ == header.subrange(sent as int, (sent + n) as int)
                        && final(self).header_sent() == sent + n)
                    &&& sent == 4 ==> s == ReadStep::ReadBody(if output_len < size { output_len } else { size })
                        && final(self).header_sent() == 4
                }
            },
    {
        if output_len == 0 {
            return ReadStep::Empty;
        }
        if self.remaining == Some(0usize) {
            self.remaining = None;
            self.header = Vec::new();
            self.header_sent = 0;
        }
        if self.header.len() < 4 {
            return ReadStep::ReadHeader(4 - self.header.len());
        }
        if self.remaining.is_none() {
            let size: u64 = (self.header[0] as u64) * 16777216 + (self.header[1] as u64) * 65536
                + (self.header[2] as u64) * 256 + (self.header[3] as u64);
            if size > MAX_THRIFT_FRAME_BYTES as u64 {
                return ReadStep::TooLarge;
            }
            self.remaining = Some(size as usize);
        }
        if self.header_sent < 4 {
            let left = 4 - self.header_sent;
            let n = if output_len < left { output_len } else { left };
            let mut b: Vec<u8> = Vec::new();
            let mut i: usize = 0;
            while i < n
                invariant
                    self.header@.len() == 4,
                    self.header_sent + n <= 4,
                    i <= n,
                    b@ == self.header@.subrange(self.header_sent as int, self.header_sent + i),
                decreases n - i,
            {
                b.push(self.header[self.header_sent + i]);
                assert(self.header@.subrange(self.header_sent as int, self.header_sent + i + 1)
                    =~= self.header@.subrange(self.header_sent as int, self.header_sent + i).push(self.header@[self.header_sent + i]));
                i = i + 1;
            }
            self.header_sent = self.header_sent + n;
            return ReadStep::SendHeader(b);
        }
        let remaining = match self.remaining {
            Some(r) => r,
            None => 0,
        };
        ReadStep::ReadBody(if output_len < remaining { output_len } else { remaining })
    }

    /// Takes header bytes read from the connection.
    pub fn header_read(&mut self, bytes: &[u8])
        requires
            old(self).inv(),
            old(self).header().len() + bytes@.len() <= 4,
        ensures
            final(self).inv(),
            final(self).header() == old(self).header() + bytes@,
            final(self).remaining() == old(self).remaining(),
            final(self).header_sent() == old(self).header_sent(),
    {
        let ghost before = self.header@;
        let ghost rem = self.remaining;
        let ghost sent = self.header_sent;
        let mut i: usize = 0;
        while i < bytes.len()
            invariant
                i <= bytes@.len(),
                before.len() + bytes@.len() <= 4,
                self.header@ == before + bytes@.take(i as int),
                self.remaining == rem,
                self.header_sent == sent,
            decreases bytes@.len() - i,
        {
            self.header.push(bytes[i]);
            assert(before + bytes@.take(i + 1) =~= (before + bytes@.take(i as int)).push(bytes@[i as int]));
            i = i + 1;
        }
        assert(bytes@.take(i as int) =~= bytes@);
        proof {
            if rem is Some {
                assert(bytes@.len() == 0);
            }
        }
    }

    /// Counts body bytes read from the connection.
    pub fn body_read(&mut self, count: usize)
        requires
            old(self).inv(),
            (old(self).remaining() matches Some(r) && count <= r),
        ensures
            final(self).inv(),
            final(self).header() == old(self).header(),
            final(self).header_sent() == old(self).header_sent(),
            count > 0 ==> final(self).remaining() == Some((old(self).remaining()->0 - count) as usize),
            count == 0 ==> final(self).remaining() == old(self).remaining(),
    {
        if count > 0 {
            let r = match self.remaining {
                Some(r) => r,
                None => 0,
            };
            self.remaining = Some(r - count);
        }
    }
}

/// The name a method is called by.
pub open spec fn method_name(m: ThriftMethod) -> Seq<char> {
    match m {
        ThriftMethod::Echo => "echo"@,
        ThriftMethod::Sum => "sum"@,
        ThriftMethod::RaiseError => "raiseError"@,
        ThriftMethod::Notify => "notify"@,
    }
}

/// A call or one-way message is dispatched to a method exactly when it names
/// that method; every other name is refused as unknown, and any other message
/// type is refused.
pub proof fn law_dispatch_by_name(callable: bool, name: Seq<char>, m: ThriftMethod)
    ensures
        (dispatch_spec(callable, name) == Ok::<ThriftMethod, Seq<char>>(m)) <==> (callable && name == method_name(m)),
        callable && name != "echo"@ && name != "sum"@ && name != "raiseError"@ && name != "notify"@
            ==> dispatch_spec(callable, name) == Err::<ThriftMethod, Seq<char>>("unknown Thrift method: "@ + name),
        !callable ==> dispatch_spec(callable, name) is Err,
{
    reveal_strlit("echo");
    reveal_strlit("sum");
    reveal_strlit("raiseError");
    reveal_strlit("notify");
    assert("echo"@.len() == 4 && "sum"@.len() == 3 && "raiseError"@.len() == 10 && "notify"@.len() == 6);
}

} // verus!
