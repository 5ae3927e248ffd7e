//! Decimal integers: parsing with the rules of `FromStr` for unsigned integers,
//! and rendering.

use vstd::prelude::*;

verus! {

/// Why a decimal string was refused, in the order the parser detects it.
#[derive(Debug, Clone, Copy, PartialEq, Eq, Structural)]
pub enum IntErrorKind {
    Empty,
    InvalidDigit,
    PosOverflow,
}

pub open spec fn is_digit(c: char) -> bool {
    '0' <= c && c <= '9'
}

pub open spec fn digit_value(c: char) -> nat {
    ((c as u32) - ('0' as u32)) as nat
}

/// Left-to-right accumulation of decimal digits with an upper bound: the first
/// non-digit, or the first prefix whose value exceeds `max`, ends the scan.
pub open spec fn scan_digits(d: Seq<char>, max: nat) -> Result<nat, IntErrorKind>
    decreases d.len(),
{
    if d.len() == 0 {
        Ok(0)
    } else {
        match scan_digits(d.drop_last(), max) {
            Err(k) => Err(k),
            Ok(v) => if !is_digit(d.last()) {
                Err(IntErrorKind::InvalidDigit)
            } else if v * 10 + digit_value(d.last()) > max {
                Err(IntErrorKind::PosOverflow)
            } else {
                Ok(v * 10 + digit_value(d.last()))
            },
        }
    }
}

/// The outcome of parsing `s` as an unsigned integer no larger than `max`: an
/// optional leading `+` followed by at least one decimal digit.
pub open spec fn parse_unsigned(s: Seq<char>, max: nat) -> Result<nat, IntErrorKind> {
    if s.len() == 0 {
        Err(IntErrorKind::Empty)
    } else if s.len() == 1 && (s[0] == '+' || s[0] == '-') {
        Err(IntErrorKind::InvalidDigit)
    } else if s[0] == '+' {
        scan_digits(s.drop_first(), max)
    } else {
        scan_digits(s, max)
    }
}

pub proof fn lemma_scan_bound(d: Seq<char>, max: nat)
    ensures
        scan_digits(d, max) matches Ok(v) ==> v <= max,
    decreases d.len(),
{
    if d.len() > 0 {
        lemma_scan_bound(d.drop_last(), max);
    }
}

pub proof fn lemma_parse_bound(s: Seq<char>, max: nat)
    ensures
        parse_unsigned(s, max) matches Ok(v) ==> v <= max,
{
    if s.len() > 0 {
        lemma_scan_bound(s, max);
        lemma_scan_bound(s.drop_first(), max);
    }
}

fn scan_exec(d: &[char], start: usize, max: u64) -> (r: Result<u64, IntErrorKind>)
    requires
        start <= d@.len(),
    ensures
        match r {
            Ok(v) => scan_digits(d@.skip(start as int), max as nat) == Ok::<nat, IntErrorKind>(
                v as nat,
            ),
            Err(k) => scan_digits(d@.skip(start as int), max as nat) == Err::<nat, IntErrorKind>(
                k,
            ),
        },
{
    let ghost ds = d@.skip(start as int);
    let mut v: u64 = 0;
    let mut i: usize = start;
    while i < d.len()
        invariant
            start <= i <= d@.len(),
            ds == d@.skip(start as int),
            scan_digits(ds.take(i - start), max as nat) == Ok::<nat, IntErrorKind>(v as nat),
            v <= max,
        decreases d@.len() - i,
    {
        let c = d[i];
        proof {
            assert(ds.take(i + 1 - start).drop_last() =~= ds.take(i - start));
            assert(ds.take(i + 1 - start).last() == c);
        }
        if !('0' <= c && c <= '9') {
            proof {
                lemma_scan_prefix_err(ds, (i + 1 - start) as int, max as nat);
            }
            return Err(IntErrorKind::InvalidDigit);
        }
        let dv = (c as u32 - '0' as u32) as u64;
        if (v as u128) * 10 + (dv as u128) > max as u128 {
            proof {
                lemma_scan_prefix_err(ds, (i + 1 - start) as int, max as nat);
            }
            return Err(IntErrorKind::PosOverflow);
        }
        v = v * 10 + dv;
        i = i + 1;
    }
    assert(ds.take(d@.len() - start) =~= ds);
    Ok(v)
}

/// Once a prefix fails, every longer input fails the same way.
proof fn lemma_scan_prefix_err(d: Seq<char>, k: int, max: nat)
    requires
        0 <= k <= d.len(),
        scan_digits(d.take(k), max) is Err,
    ensures
        scan_digits(d, max) == scan_digits(d.take(k), max),
    decreases d.len() - k,
{
    if k < d.len() {
        assert(d.take(k + 1).drop_last() =~= d.take(k));
        lemma_scan_prefix_err(d, k + 1, max);
    } else {
        assert(d.take(k) =~= d);
    }
}

/// Parse `s` as an unsigned integer no larger than `max`.
pub fn parse_unsigned_chars(s: &[char], max: u64) -> (r: Result<u64, IntErrorKind>)
    ensures
        match r {
            Ok(v) => parse_unsigned(s@, max as nat) == Ok::<nat, IntErrorKind>(v as nat),
            Err(k) => parse_unsigned(s@, max as nat) == Err::<nat, IntErrorKind>(k),
        },
{
    if s.len() == 0 {
        return Err(IntErrorKind::Empty);
    }
    if s.len() == 1 && (s[0] == '+' || s[0] == '-') {
        return Err(IntErrorKind::InvalidDigit);
    }
    if s[0] == '+' {
        assert(s@.skip(1) =~= s@.drop_first());
        scan_exec(s, 1, max)
    } else {
        assert(s@.skip(0) =~= s@);
        scan_exec(s, 0, max)
    }
}

pub open spec fn digit_char(d: nat) -> char {
    ((d + 48) as u32) as char
}

/// The decimal rendering of `n`, without leading zeros.
pub open spec fn decimal(n: nat) -> Seq<char>
    decreases n,
{
    if n < 10 {
        seq![digit_char(n)]
    } else {
        decimal(n / 10).push(digit_char(n % 10))
    }
}

pub fn decimal_chars(n: u64) -> (r: Vec<char>)
    ensures
        r@ == decimal(n as nat),
    decreases n,
{
    let d = (n % 10) as u8;
    let c = (d + 48) as char;
    assert(c == digit_char((n % 10) as nat));
    if n < 10 {
        vec![c]
    } else {
        let mut v = decimal_chars(n / 10);
        v.push(c);
        v
    }
}

/// The value of `s` as an unsigned integer no larger than `max`, if it is one.
pub open spec fn parsed(s: Seq<char>, max: nat) -> Option<nat> {
    match parse_unsigned(s, max) {
        Ok(v) => Some(v),
        Err(_) => None,
    }
}

pub fn parse_number(s: &str, max: u64) -> (r: Option<u64>)
    ensures
        match r {
            Some(v) => parsed(s@, max as nat) == Some(v as nat),
            None => parsed(s@, max as nat) is None,
        },
{
    let c = crate::text::chars_of(s);
    match parse_unsigned_chars(c.as_slice(), max) {
        Ok(v) => Some(v),
        Err(_) => None,
    }
}

/// The decimal rendering of a number is made of digits only.
pub proof fn lemma_decimal_digits(n: nat)
    ensures
        decimal(n).len() >= 1,
        forall|i: int| 0 <= i < decimal(n).len() ==> is_digit(#[trigger] decimal(n)[i]),
    decreases n,
{
    if n >= 10 {
        lemma_decimal_digits(n / 10);
        let d = decimal(n / 10);
        assert forall|i: int| 0 <= i < decimal(n).len() implies is_digit(#[trigger] decimal(n)[i]) by {
            if i < d.len() {
                assert(decimal(n)[i] == d[i]);
            }
        }
    }
}

proof fn lemma_scan_decimal(n: nat, max: nat)
    requires
        n <= max,
    ensures
        scan_digits(decimal(n), max) == Ok::<nat, IntErrorKind>(n),
    decreases n,
{
    let d = (n % 10) as nat;
    assert(digit_value(digit_char(d)) == d && is_digit(digit_char(d)));
    assert(n == (n / 10) * 10 + n % 10) by (nonlinear_arith);
    if n < 10 {
        assert(n % 10 == n);
        assert(decimal(n).drop_last() =~= Seq::<char>::empty());
        assert(decimal(n).last() == digit_char(d));
        assert(scan_digits(Seq::<char>::empty(), max) == Ok::<nat, IntErrorKind>(0));
    } else {
        assert(n / 10 <= max);
        lemma_scan_decimal(n / 10, max);
        assert(decimal(n).drop_last() =~= decimal(n / 10));
        assert(decimal(n).last() == digit_char(d));
    }
}

/// A number's decimal rendering parses back to the number.
pub proof fn lemma_decimal_parses(n: nat, max: nat)
    requires
        n <= max,
    ensures
        parse_unsigned(decimal(n), max) == Ok::<nat, IntErrorKind>(n),
{
    lemma_decimal_digits(n);
    lemma_scan_decimal(n, max);
    assert(is_digit(decimal(n)[0]));
}

} // verus!
