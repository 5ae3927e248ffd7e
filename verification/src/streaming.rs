//! The byte-producing fixtures: counts, chunking, the drip plan and the
//! deterministic failure draw.

use vstd::prelude::*;
use vstd::wrapping::u64_specs;
use crate::headers::fixture_byte;
use crate::number::{parse_number, parsed};

verus! {

/// The largest chunk a streamed body is cut into.
pub const STREAM_BYTES_CHUNK_SIZE: usize = 16384;

/// Why a requested byte count is refused.
#[derive(Clone, Copy, PartialEq, Eq, Structural, Debug)]
pub enum CountError {
    /// 400: not a decimal count.
    Invalid,
    /// 413: larger than the configured limit.
    TooLarge,
}

impl CountError {
    pub fn message(self) -> (m: String)
        ensures
            m@ == count_message(self),
    {
        match self {
            CountError::Invalid => "invalid byte count".to_owned(),
            CountError::TooLarge => "byte count too large".to_owned(),
        }
    }

    pub fn status(self) -> (s: u16)
        ensures
            s == (match self {
                CountError::Invalid => 400u16,
                CountError::TooLarge => 413u16,
            }),
    {
        match self {
            CountError::Invalid => 400,
            CountError::TooLarge => 413,
        }
    }
}

pub open spec fn count_message(e: CountError) -> Seq<char> {
    match e {
        CountError::Invalid => "invalid byte count"@,
        CountError::TooLarge => "byte count too large"@,
    }
}

/// The byte count of `/bytes`, `/stream-bytes` and `/range`.
pub open spec fn byte_count_spec(count: Seq<char>, max: usize) -> Result<usize, CountError> {
    match parsed(count, usize::MAX as nat) {
        None => Err(CountError::Invalid),
        Some(n) => if n > max { Err(CountError::TooLarge) } else { Ok(n as usize) },
    }
}

pub fn byte_count(count: &str, max: usize) -> (r: Result<usize, CountError>)
    ensures
        r == byte_count_spec(count@, max),
{
    match parse_number(count, usize::MAX as u64) {
        None => Err(CountError::Invalid),
        Some(n) => {
            if n > max as u64 {
                Err(CountError::TooLarge)
            } else {
                Ok(n as usize)
            }
        },
    }
}

/// The fixture bytes from `offset`, `len` of them.
pub open spec fn fixture_range(offset: nat, len: nat) -> Seq<u8> {
    Seq::new(len, |i: int| fixture_byte(offset + i))
}

/// The `(offset, length)` pieces a body of `count` bytes is sent in, from
/// `offset` on, each `chunk` long but the last.
pub open spec fn chunks_from(offset: nat, count: nat, chunk: nat) -> Seq<(nat, nat)>
    decreases count - offset,
{
    if chunk == 0 || offset >= count {
        Seq::empty()
    } else {
        let end = if offset + chunk < count { offset + chunk } else { count };
        seq![(offset, (end - offset) as nat)] + chunks_from(end, count, chunk)
    }
}

/// The bytes the pieces carry, one after the other.
pub open spec fn chunk_bytes(pieces: Seq<(nat, nat)>) -> Seq<u8>
    decreases pieces.len(),
{
    if pieces.len() == 0 {
        Seq::empty()
    } else {
        fixture_range(pieces[0].0, pieces[0].1) + chunk_bytes(pieces.drop_first())
    }
}

pub open spec fn pieces_view(v: Seq<(usize, usize)>) -> Seq<(nat, nat)> {
    v.map_values(|p: (usize, usize)| (p.0 as nat, p.1 as nat))
}

proof fn lemma_chunks_step(offset: nat, count: nat, chunk: nat)
    requires
        chunk > 0,
        offset < count,
    ensures
        chunks_from(offset, count, chunk) == seq![(offset, ((if offset + chunk < count { offset + chunk } else { count }) - offset) as nat)]
            + chunks_from(if offset + chunk < count { offset + chunk } else { count }, count, chunk),
{
}

/// The pieces a body of `count` bytes is streamed in, `chunk` bytes at a time.
pub fn chunk_plan(count: usize, chunk: usize) -> (v: Vec<(usize, usize)>)
    requires
        chunk > 0,
    ensures
        pieces_view(v@) == chunks_from(0, count as nat, chunk as nat),
{
    let mut v: Vec<(usize, usize)> = Vec::new();
    let mut offset: usize = 0;
    while offset < count
        invariant
            chunk > 0,
            offset <= count,
            pieces_view(v@) + chunks_from(offset as nat, count as nat, chunk as nat) == chunks_from(0, count as nat, chunk as nat),
        decreases count - offset,
    {
        let end = if chunk < count - offset { offset + chunk } else { count };
        proof {
            lemma_chunks_step(offset as nat, count as nat, chunk as nat);
        }
        let ghost before = v@;
        v.push((offset, end - offset));
        assert(pieces_view(v@) =~= pieces_view(before).push((offset as nat, (end - offset) as nat)));
        assert(pieces_view(v@) + chunks_from(end as nat, count as nat, chunk as nat)
            =~= pieces_view(before) + chunks_from(offset as nat, count as nat, chunk as nat));
        offset = end;
    }
    assert(chunks_from(offset as nat, count as nat, chunk as nat) =~= Seq::<(nat, nat)>::empty());
    assert(pieces_view(v@) + Seq::<(nat, nat)>::empty() =~= pieces_view(v@));
    v
}

/// Streaming a body in pieces sends exactly the fixture bytes of `/bytes`:
/// the pieces of a `count`-byte body, from any offset, carry the fixture
/// bytes from that offset to the end.
pub proof fn law_chunks_carry_fixture_bytes(offset: nat, count: nat, chunk: nat)
    requires
        chunk > 0,
        offset <= count,
    ensures
        chunk_bytes(chunks_from(offset, count, chunk)) == fixture_range(offset, (count - offset) as nat),
    decreases count - offset,
{
    if offset == count {
        assert(fixture_range(offset, 0) =~= Seq::<u8>::empty());
    } else {
        let end = if offset + chunk < count { offset + chunk } else { count };
        law_chunks_carry_fixture_bytes(end, count, chunk);
        let rest = chunks_from(end, count, chunk);
        let pieces = chunks_from(offset, count, chunk);
        assert(pieces == seq![(offset, (end - offset) as nat)] + rest);
        assert(pieces[0] == (offset, (end - offset) as nat));
        assert(pieces.drop_first() =~= rest);
        assert(fixture_range(offset, (end - offset) as nat) + fixture_range(end, (count - end) as nat)
            =~= fixture_range(offset, (count - offset) as nat));
    }
}

/// The number of pieces is the count divided by the chunk size, rounded up.
pub proof fn law_chunk_count(offset: nat, count: nat, chunk: nat)
    requires
        chunk > 0,
        offset <= count,
    ensures
        chunks_from(offset, count, chunk).len() == ((count - offset) + chunk - 1) / chunk as int,
    decreases count - offset,
{
    if offset == count {
        let c = chunk as int;
        assert((c - 1) / c == 0) by (nonlinear_arith)
            requires
                c > 0,
        ;
    } else {
        let end = if offset + chunk < count { offset + chunk } else { count };
        law_chunk_count(end, count, chunk);
        let n = (count - offset) as int;
        let c = chunk as int;
        if offset + chunk < count {
            assert((n + c - 1) / c == (n - c + c - 1) / c + 1) by (nonlinear_arith)
                requires
                    c > 0,
                    n > c,
            {
                assert(n + c - 1 == (n - c + c - 1) + c * 1);
            }
        } else {
            assert((n + c - 1) / c == 1) by (nonlinear_arith)
                requires
                    c > 0,
                    0 < n <= c,
            ;
        }
    }
}

/// How `/drip` sends its body.
#[derive(Clone, Copy, PartialEq, Eq, Structural, Debug)]
pub struct DripPlan {
    /// The bytes sent in all.
    pub count: usize,
    /// The bytes per piece.
    pub chunk_size: usize,
    /// How many pieces the duration is spread over.
    pub chunks: usize,
    /// The final status.
    pub status: u16,
}

pub open spec fn div_ceil(n: nat, d: nat) -> nat
    recommends
        d > 0,
{
    ((n + d - 1) / d as int) as nat
}

/// The plan for a drip of the given query. `times_valid` says whether the
/// duration and delay were finite and not negative; `instant` whether the
/// duration was zero.
pub open spec fn drip_spec(
    numbytes: Option<usize>,
    chunk_size: Option<usize>,
    code: Option<u16>,
    times_valid: bool,
    instant: bool,
    max_bytes: usize,
) -> Result<DripPlan, Seq<char>> {
    let count = match numbytes {
        Some(n) => n,
        None => 10,
    };
    let asked = match chunk_size {
        Some(c) => c,
        None => 1,
    };
    let requested = if asked < 1 {
        1
    } else if asked > STREAM_BYTES_CHUNK_SIZE {
        STREAM_BYTES_CHUNK_SIZE
    } else {
        asked
    };
    let status = match code {
        Some(c) => c,
        None => 200,
    };
    if count > max_bytes || !times_valid {
        Err("invalid drip parameters"@)
    } else if !(100 <= status && status <= 999) {
        Err("invalid drip status code"@)
    } else {
        let chunk = if instant {
            if count < 1 { 1 } else { count }
        } else {
            requested
        };
        let pieces = div_ceil(count as nat, chunk as nat);
        Ok(DripPlan { count, chunk_size: chunk, chunks: if pieces < 1 { 1 } else { pieces as usize }, status })
    }
}

pub fn drip_plan(
    numbytes: Option<usize>,
    chunk_size: Option<usize>,
    code: Option<u16>,
    times_valid: bool,
    instant: bool,
    max_bytes: usize,
) -> (r: Result<DripPlan, String>)
    ensures
        match r {
            Ok(p) => drip_spec(numbytes, chunk_size, code, times_valid, instant, max_bytes) == Ok::<DripPlan, Seq<char>>(p),
            Err(e) => drip_spec(numbytes, chunk_size, code, times_valid, instant, max_bytes) == Err::<DripPlan, Seq<char>>(e@),
        },
{
    let count = match numbytes {
        Some(n) => n,
        None => 10,
    };
    let asked = match chunk_size {
        Some(c) => c,
        None => 1,
    };
    let requested = if asked < 1 {
        1
    } else if asked > STREAM_BYTES_CHUNK_SIZE {
        STREAM_BYTES_CHUNK_SIZE
    } else {
        asked
    };
    let status = match code {
        Some(c) => c,
        None => 200,
    };
    if count > max_bytes || !times_valid {
        return Err("invalid drip parameters".to_owned());
    }
    if !(100 <= status && status <= 999) {
        return Err("invalid drip status code".to_owned());
    }
    let chunk = if instant {
        if count < 1 { 1 } else { count }
    } else {
        requested
    };
    let q = count / chunk;
    if count % chunk != 0 {
        assert(q < usize::MAX) by (nonlinear_arith)
            requires
                chunk > 0,
                count % chunk != 0,
                q == count / chunk,
        {
            assert(chunk != 1);
            assert(q * chunk <= count);
            assert(q * 2 <= q * chunk);
        }
    }
    let pieces = if count % chunk == 0 { q } else { q + 1 };
    proof {
        let n = count as int;
        let c = chunk as int;
        let p = pieces as int;
        let qi = q as int;
        assert(p == (n + c - 1) / c) by (nonlinear_arith)
            requires
                c > 0,
                n >= 0,
                qi == n / c,
                n % c == 0 ==> p == qi,
                n % c != 0 ==> p == qi + 1,
        {
        }
    }
    Ok(DripPlan { count, chunk_size: chunk, chunks: if pieces < 1 { 1 } else { pieces }, status })
}

/// The 53 bits `/unstable` draws its failure decision from: a SplitMix64
/// step of the seed, shifted down.
pub open spec fn unit_bits_spec(seed: u64) -> u64 {
    let v1 = u64_specs::wrapping_add(seed, 0x9e37_79b9_7f4a_7c15u64);
    let v2 = v1 ^ (v1 >> 30u64);
    let v3 = u64_specs::wrapping_mul(v2, 0xbf58_476d_1ce4_e5b9u64);
    let v4 = v3 ^ (v3 >> 27u64);
    let v5 = u64_specs::wrapping_mul(v4, 0x94d0_49bb_1331_11ebu64);
    let v6 = v5 ^ (v5 >> 31u64);
    v6 >> 11u64
}

pub fn deterministic_unit_bits(seed: u64) -> (r: u64)
    ensures
        r == unit_bits_spec(seed),
        r < 0x20_0000_0000_0000u64,
{
    let v1 = seed.wrapping_add(0x9e37_79b9_7f4a_7c15u64);
    let v2 = v1 ^ (v1 >> 30u64);
    let v3 = v2.wrapping_mul(0xbf58_476d_1ce4_e5b9u64);
    let v4 = v3 ^ (v3 >> 27u64);
    let v5 = v4.wrapping_mul(0x94d0_49bb_1331_11ebu64);
    let v6 = v5 ^ (v5 >> 31u64);
    let r = v6 >> 11u64;
    assert(v6 >> 11u64 < 0x20_0000_0000_0000u64) by (bit_vector);
    r
}

/// A drip of zero duration is sent at once: one piece holding the whole body.
pub proof fn law_instant_drip_is_one_piece(
    numbytes: Option<usize>,
    chunk_size: Option<usize>,
    code: Option<u16>,
    times_valid: bool,
    max_bytes: usize,
)
    ensures
        drip_spec(numbytes, chunk_size, code, times_valid, true, max_bytes) matches Ok(p) ==> p.chunks == 1
            && p.chunk_size >= p.count,
{
    let count = match numbytes {
        Some(n) => n,
        None => 10,
    };
    if count >= 1 {
        let n = count as int;
        assert((n + n - 1) / n == 1) by (nonlinear_arith)
            requires
                n >= 1,
        ;
    }
}

} // verus!
