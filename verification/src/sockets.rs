//! The raw-socket echo rules: TCP framing with its limits, and the UDP drop
//! pattern.

use vstd::prelude::*;

verus! {

/// The largest TCP frame echoed, in bytes.
pub const MAX_SOCKET_FRAME_SIZE: usize = 1048576;

/// The most a TCP connection may send in all, in bytes, whatever the configuration says.
pub const MAX_SOCKET_READ_SIZE: usize = 4194304;

/// How a TCP frame was delimited.
#[derive(Clone, Copy, PartialEq, Eq, Structural, Debug)]
pub enum Framing {
    /// Up to and including a newline.
    Line,
    /// A four-byte big-endian length, then that many bytes.
    LengthPrefixed,
}

impl Framing {
    /// The name events give the framing.
    pub fn name(self) -> (s: String)
        ensures
            s@ == (match self {
                Framing::Line => "line"@,
                Framing::LengthPrefixed => "length_prefixed"@,
            }),
    {
        match self {
            Framing::Line => "line".to_owned(),
            Framing::LengthPrefixed => "length_prefixed".to_owned(),
        }
    }
}

/// What the buffered bytes call for.
pub enum FrameDecision {
    /// Wait for more bytes.
    Wait,
    /// Echo the first `size` bytes as one frame.
    Take(nat, Framing),
    /// Close the connection without echoing.
    Abort,
}

/// `i` is the index of the first newline.
pub open spec fn first_newline(b: Seq<u8>, i: int) -> bool {
    &&& 0 <= i < b.len()
    &&& b[i] == 10
    &&& forall|j: int| 0 <= j < i ==> b[j] != 10
}

/// The size of a frame that ends at the first newline, if there is one.
pub open spec fn line_frame(b: Seq<u8>) -> Option<nat> {
    if exists|i: int| first_newline(b, i) {
        Some((choose|i: int| first_newline(b, i)) as nat + 1)
    } else {
        None
    }
}

/// The big-endian number in the first four bytes.
pub open spec fn be_length(b: Seq<u8>) -> nat {
    (b[0] as nat) * 16777216 + (b[1] as nat) * 65536 + (b[2] as nat) * 256 + (b[3] as nat)
}

/// The framing rule: with four bytes or more, a length prefix no larger than
/// the frame limit decides; a larger one falls back to a line, and without a
/// newline the connection is closed; with fewer bytes, only a line can end a
/// frame. A frame over the limit closes the connection.
pub open spec fn frame_spec(b: Seq<u8>) -> FrameDecision {
    let candidate = if b.len() >= 4 {
        let n = be_length(b);
        if n > MAX_SOCKET_FRAME_SIZE {
            match line_frame(b) {
                Some(k) => FrameDecision::Take(k, Framing::Line),
                None => FrameDecision::Abort,
            }
        } else if b.len() >= 4 + n {
            FrameDecision::Take(4 + n, Framing::LengthPrefixed)
        } else {
            FrameDecision::Wait
        }
    } else {
        match line_frame(b) {
            Some(k) => FrameDecision::Take(k, Framing::Line),
            None => FrameDecision::Wait,
        }
    };
    match candidate {
        FrameDecision::Take(k, f) => if k > MAX_SOCKET_FRAME_SIZE { FrameDecision::Abort } else { FrameDecision::Take(k, f) },
        other => other,
    }
}

/// What the next framing step does.
#[derive(Clone, Debug)]
pub enum FrameStep {
    Wait,
    /// Echo these bytes back.
    Frame(Vec<u8>, Framing),
    Abort,
}

/// The state of one TCP echo connection.
pub struct TcpSession {
    buffer: Vec<u8>,
    total_read: usize,
    frame_count: usize,
    read_limit: usize,
    close_after: usize,
    received: Ghost<Seq<u8>>,
    echoed: Ghost<Seq<u8>>,
}

impl TcpSession {
    /// The bytes received and not yet echoed.
    pub closed spec fn buffered(&self) -> Seq<u8> {
        self.buffer@
    }

    /// Every byte accepted so far.
    pub closed spec fn received(&self) -> Seq<u8> {
        self.received@
    }

    /// Every byte handed out as a frame so far.
    pub closed spec fn echoed(&self) -> Seq<u8> {
        self.echoed@
    }

    pub closed spec fn total_read(&self) -> nat {
        self.total_read as nat
    }

    pub closed spec fn frame_count(&self) -> nat {
        self.frame_count as nat
    }

    /// The effective read limit: the configured one, at most 4 MiB.
    pub closed spec fn read_limit(&self) -> nat {
        if self.read_limit < MAX_SOCKET_READ_SIZE { self.read_limit as nat } else { MAX_SOCKET_READ_SIZE as nat }
    }

    pub closed spec fn close_after(&self) -> nat {
        self.close_after as nat
    }

    /// What was echoed, followed by what is buffered, is what was received.
    pub closed spec fn inv(&self) -> bool {
        self.echoed@ + self.buffer@ == self.received@
    }

    pub fn new(read_limit: usize, close_after: usize) -> (s: TcpSession)
        ensures
            s.inv(),
            s.buffered() == Seq::<u8>::empty(),
            s.received() == Seq::<u8>::empty(),
            s.echoed() == Seq::<u8>::empty(),
            s.total_read() == 0,
            s.frame_count() == 0,
            s.read_limit() == (if read_limit < MAX_SOCKET_READ_SIZE { read_limit as nat } else { MAX_SOCKET_READ_SIZE as nat }),
            s.close_after() == close_after,
    {
        let s = TcpSession {
            buffer: Vec::new(),
            total_read: 0,
            frame_count: 0,
            read_limit,
            close_after,
            received: Ghost(Seq::empty()),
            echoed: Ghost(Seq::empty()),
        };
        assert(s.echoed@ + s.buffer@ =~= s.received@);
        s
    }

    /// Takes bytes read from the peer. `false` means the connection has sent
    /// more than the read limit and is to be closed; the bytes are then not kept.
    pub fn receive(&mut self, data: &[u8]) -> (accepted: bool)
        requires
            old(self).inv(),
        ensures
            final(self).inv(),
            final(self).read_limit() == old(self).read_limit(),
            final(self).close_after() == old(self).close_after(),
            final(self).frame_count() == old(self).frame_count(),
            final(self).echoed() == old(self).echoed(),
            final(self).total_read() == (if old(self).total_read() + data@.len() > usize::MAX {
                usize::MAX as nat
            } else {
                old(self).total_read() + data@.len()
            }),
            accepted == (final(self).total_read() <= old(self).read_limit()),
            accepted ==> final(self).buffered() == old(self).buffered() + data@
                && final(self).received() == old(self).received() + data@,
            !accepted ==> final(self).buffered() == old(self).buffered()
                && final(self).received() == old(self).received(),
    {
        self.total_read = self.total_read.saturating_add(data.len());
        let limit = if self.read_limit < MAX_SOCKET_READ_SIZE { self.read_limit } else { MAX_SOCKET_READ_SIZE };
        if self.total_read > limit {
            return false;
        }
        let ghost before = self.buffer@;
        let ghost fixed = (self.total_read, self.frame_count, self.read_limit, self.close_after, self.received@, self.echoed@);
        let mut i: usize = 0;
        while i < data.len()
            invariant
                i <= data@.len(),
                self.buffer@ == before + data@.take(i as int),
                fixed == (self.total_read, self.frame_count, self.read_limit, self.close_after, self.received@, self.echoed@),
            decreases data@.len() - i,
        {
            self.buffer.push(data[i]);
            assert(before + data@.take(i + 1) =~= (before + data@.take(i as int)).push(data@[i as int]));
            i = i + 1;
        }
        assert(data@.take(i as int) =~= data@);
        self.received = Ghost(self.received@ + data@);
        assert(self.echoed@ + self.buffer@ =~= self.received@);
        true
    }

    /// Applies the framing rule to the buffered bytes; a frame taken is
    /// removed from the buffer.
    pub fn next_frame(&mut self) -> (step: FrameStep)
        requires
            old(self).inv(),
        ensures
            final(self).inv(),
            final(self).received() == old(self).received(),
            final(self).read_limit() == old(self).read_limit(),
            final(self).close_after() == old(self).close_after(),
            final(self).frame_count() == old(self).frame_count(),
            final(self).total_read() == old(self).total_read(),
            match frame_spec(old(self).buffered()) {
                FrameDecision::Wait => step is Wait && final(self).buffered() == old(self).buffered()
                    && final(self).echoed() == old(self).echoed(),
                FrameDecision::Abort => step is Abort && final(self).buffered() == old(self).buffered()
                    && final(self).echoed() == old(self).echoed(),
                FrameDecision::Take(k, f) => step matches FrameStep::Frame(frame, g) && {
                    &&& g == f
                    &&& frame@ == old(self).buffered().take(k as int)
                    &&& final(self).buffered() == old(self).buffered().skip(k as int)
                    &&& final(self).echoed() == old(self).echoed() + frame@
                },
            },
    {
        let len = self.buffer.len();
        let mut nl: usize = 0;
        while nl < len && self.buffer[nl] != 10u8
            invariant
                len == self.buffer@.len(),
                nl <= len,
                forall|j: int| 0 <= j < nl ==> self.buffer@[j] != 10,
            decreases len - nl,
        {
            nl = nl + 1;
        }
        let ghost b = self.buffer@;
        proof {
            if nl < len {
                assert(first_newline(b, nl as int));
                let k = choose|k: int| first_newline(b, k);
                if k < nl {
                    assert(b[k] != 10);
                } else if nl < k {
                    assert(b[nl as int] != 10);
                }
            } else if exists|k: int| first_newline(b, k) {
                let k = choose|k: int| first_newline(b, k);
                assert(b[k] != 10);
            }
        }
        let line: Option<usize> = if nl < len { Some(nl + 1) } else { None };
        let mut take: Option<(usize, Framing)> = None;
        if len >= 4 {
            let n: u64 = (self.buffer[0] as u64) * 16777216 + (self.buffer[1] as u64) * 65536
                + (self.buffer[2] as u64) * 256 + (self.buffer[3] as u64);
            if n > MAX_SOCKET_FRAME_SIZE as u64 {
                match line {
                    Some(k) => { take = Some((k, Framing::Line)); },
                    None => { return FrameStep::Abort; },
                }
            } else if (len as u64) >= 4 + n {
                take = Some(((4 + n) as usize, Framing::LengthPrefixed));
            } else {
                return FrameStep::Wait;
            }
        } else {
            match line {
                Some(k) => { take = Some((k, Framing::Line)); },
                None => { return FrameStep::Wait; },
            }
        }
        match take {
            None => FrameStep::Wait,
            Some((k, f)) => {
                if k > MAX_SOCKET_FRAME_SIZE {
                    return FrameStep::Abort;
                }
                let mut frame: Vec<u8> = Vec::new();
                let mut rest: Vec<u8> = Vec::new();
                let mut i: usize = 0;
                while i < len
                    invariant
                        len == b.len(),
                        b == self.buffer@,
                        k <= len,
                        i <= len,
                        frame@ == b.take(if i < k { i as int } else { k as int }),
                        rest@ == (if i < k { Seq::<u8>::empty() } else { b.subrange(k as int, i as int) }),
                    decreases len - i,
                {
                    if i < k {
                        frame.push(self.buffer[i]);
                        assert(b.take(i + 1) =~= b.take(i as int).push(b[i as int]));
                    } else {
                        rest.push(self.buffer[i]);
                        assert(b.subrange(k as int, i + 1) =~= b.subrange(k as int, i as int).push(b[i as int]));
                    }
                    if i + 1 == k {
                        assert(b.subrange(k as int, k as int) =~= Seq::<u8>::empty());
                    }
                    i = i + 1;
                }
                if k == len {
                    assert(rest@ =~= b.skip(k as int));
                }
                assert(rest@ =~= b.skip(k as int));
                self.buffer = rest;
                self.echoed = Ghost(self.echoed@ + frame@);
                assert(b =~= frame@ + b.skip(k as int));
                assert(self.echoed@ + self.buffer@ =~= self.received@);
                FrameStep::Frame(frame, f)
            },
        }
    }

    /// Counts an echoed frame; `true` when the configured number of frames
    /// has been echoed and the connection is to be closed.
    pub fn frame_echoed(&mut self) -> (close: bool)
        requires
            old(self).inv(),
        ensures
            final(self).inv(),
            final(self).buffered() == old(self).buffered(),
            final(self).received() == old(self).received(),
            final(self).echoed() == old(self).echoed(),
            final(self).total_read() == old(self).total_read(),
            final(self).read_limit() == old(self).read_limit(),
            final(self).close_after() == old(self).close_after(),
            final(self).frame_count() == (if old(self).frame_count() + 1 > usize::MAX { usize::MAX as nat } else { old(self).frame_count() + 1 }),
            close == (old(self).close_after() > 0 && final(self).frame_count() >= old(self).close_after()),
    {
        self.frame_count = self.frame_count.saturating_add(1);
        self.close_after > 0 && self.frame_count >= self.close_after
    }
}

/// Whether datagram number `sequence` (counted from 1) is dropped: the first
/// `drop_percent` of every hundred are.
pub open spec fn drop_spec(sequence: u64, drop_percent: u8) -> bool {
    drop_percent > 0 && ((if sequence == 0 { 0 } else { sequence - 1 }) % 100) < drop_percent
}

pub fn drop_datagram(sequence: u64, drop_percent: u8) -> (r: bool)
    ensures
        r == drop_spec(sequence, drop_percent),
{
    drop_percent > 0 && (sequence.saturating_sub(1) % 100) < drop_percent as u64
}

/// How many of the first `k` datagrams of hundred number `block` (counted
/// from 0) are dropped.
pub open spec fn dropped_in_block(block: nat, drop_percent: u8, k: nat) -> nat
    decreases k,
{
    if k == 0 {
        0
    } else {
        dropped_in_block(block, drop_percent, (k - 1) as nat) + if drop_spec((100 * block + k) as u64, drop_percent) {
            1nat
        } else {
            0nat
        }
    }
}

proof fn lemma_dropped_prefix(block: nat, drop_percent: u8, k: nat)
    requires
        k <= 100,
        100 * block + 100 <= u64::MAX,
    ensures
        dropped_in_block(block, drop_percent, k) == if drop_percent < k { drop_percent as nat } else { k },
    decreases k,
{
    if k > 0 {
        lemma_dropped_prefix(block, drop_percent, (k - 1) as nat);
        let j = (k - 1) as int;
        vstd::arithmetic::div_mod::lemma_mod_multiples_vanish(block as int, j, 100);
        vstd::arithmetic::div_mod::lemma_small_mod(j as nat, 100);
        assert((100 * block + k) as u64 - 1 == 100 * block + j);
    }
}

/// Of every hundred consecutive datagrams, numbered from 1, exactly
/// `drop_percent` are dropped (all of them from 100 on).
pub proof fn law_drop_rate(block: nat, drop_percent: u8)
    requires
        100 * block + 100 <= u64::MAX,
    ensures
        dropped_in_block(block, drop_percent, 100) == if drop_percent < 100 { drop_percent as nat } else { 100 },
{
    lemma_dropped_prefix(block, drop_percent, 100);
}

/// A TCP echo connection hands back exactly the bytes it accepted, in order:
/// the frames echoed so far, followed by the bytes still buffered, are every
/// byte received.
pub proof fn law_echo_preserves_bytes(session: &TcpSession)
    requires
        session.inv(),
    ensures
        session.echoed() + session.buffered() == session.received(),
{
}

} // verus!
