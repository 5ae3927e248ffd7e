//! Character-level helpers shared by the fixture logic.

use vstd::prelude::*;

verus! {

/// `String::push` appends one character.
pub assume_specification[ String::push ](s: &mut String, ch: char)
    ensures
        final(s)@ == old(s)@.push(ch),
;

/// The characters of a string slice, in order.
pub fn chars_of(s: &str) -> (v: Vec<char>)
    ensures
        v@ == s@,
{
    let mut v: Vec<char> = Vec::new();
    for c in it: s.chars()
        invariant
            v@ == it.seq().take(it.index() as int),
    {
        v.push(c);
    }
    v
}

/// A string holding exactly the given characters.
pub fn string_of(v: &[char]) -> (s: String)
    ensures
        s@ == v@,
{
    let mut s = String::new();
    let mut i: usize = 0;
    while i < v.len()
        invariant
            i <= v@.len(),
            s@ == v@.take(i as int),
        decreases v@.len() - i,
    {
        s.push(v[i]);
        assert(v@.take(i as int).push(v@[i as int]) =~= v@.take(i + 1));
        i = i + 1;
    }
    assert(v@.take(v@.len() as int) =~= v@);
    s
}

/// ASCII lower-casing of one character.
pub open spec fn lower(c: char) -> char {
    if 'A' <= c && c <= 'Z' {
        ((c as u32) + 32) as char
    } else {
        c
    }
}

pub fn lower_char(c: char) -> (r: char)
    ensures
        r == lower(c),
{
    if 'A' <= c && c <= 'Z' {
        ((c as u8) + 32) as char
    } else {
        c
    }
}


/// ASCII lower-casing of a whole sequence.
pub open spec fn lower_seq(s: Seq<char>) -> Seq<char> {
    s.map_values(|c: char| lower(c))
}

pub fn lower_chars(s: &[char]) -> (r: Vec<char>)
    ensures
        r@ == lower_seq(s@),
{
    let mut r: Vec<char> = Vec::new();
    let mut i: usize = 0;
    while i < s.len()
        invariant
            i <= s@.len(),
            r@ == lower_seq(s@.take(i as int)),
        decreases s@.len() - i,
    {
        r.push(lower_char(s[i]));
        assert(lower_seq(s@.take(i + 1)) =~= lower_seq(s@.take(i as int)).push(lower(s@[i as int])));
        i = i + 1;
    }
    assert(s@.take(s@.len() as int) =~= s@);
    r
}

/// Equality of two character sequences, ignoring ASCII case.
pub open spec fn eq_ignore_case(a: Seq<char>, b: Seq<char>) -> bool {
    lower_seq(a) == lower_seq(b)
}

/// Exact equality of two character slices.
pub fn chars_eq(a: &[char], b: &[char]) -> (r: bool)
    ensures
        r == (a@ == b@),
{
    if a.len() != b.len() {
        return false;
    }
    let mut i: usize = 0;
    while i < a.len()
        invariant
            a@.len() == b@.len(),
            i <= a@.len(),
            forall|j: int| 0 <= j < i ==> a@[j] == b@[j],
        decreases a@.len() - i,
    {
        if a[i] != b[i] {
            return false;
        }
        i = i + 1;
    }
    assert(a@ =~= b@);
    true
}

/// Equality ignoring ASCII case.
pub fn chars_eq_ignore_case(a: &[char], b: &[char]) -> (r: bool)
    ensures
        r == eq_ignore_case(a@, b@),
{
    let la = lower_chars(a);
    let lb = lower_chars(b);
    chars_eq(la.as_slice(), lb.as_slice())
}

/// Does `s` start with `p`?
pub open spec fn has_prefix(s: Seq<char>, p: Seq<char>) -> bool {
    p.len() <= s.len() && s.take(p.len() as int) == p
}

/// The length `str::len` reports for a text: the bytes of its UTF-8 encoding.
pub open spec fn byte_len(s: Seq<char>) -> usize {
    vstd::utf8::encode_utf8(s).len() as usize
}

/// Exact equality of two string slices, compared character by character.
pub fn str_eq(a: &str, b: &str) -> (r: bool)
    ensures
        r == (a@ == b@),
{
    let x = chars_of(a);
    let y = chars_of(b);
    chars_eq(x.as_slice(), y.as_slice())
}

/// Does the string `s` start with `p`?
pub fn str_starts_with(s: &str, p: &str) -> (r: bool)
    ensures
        r == has_prefix(s@, p@),
{
    let x = chars_of(s);
    let y = chars_of(p);
    starts_with(x.as_slice(), y.as_slice())
}

/// Does `s` end with `p`?
pub open spec fn has_suffix(s: Seq<char>, p: Seq<char>) -> bool {
    p.len() <= s.len() && s.skip(s.len() - p.len()) == p
}

pub fn starts_with(s: &[char], p: &[char]) -> (r: bool)
    ensures
        r == has_prefix(s@, p@),
{
    if p.len() > s.len() {
        return false;
    }
    let mut i: usize = 0;
    while i < p.len()
        invariant
            p@.len() <= s@.len(),
            i <= p@.len(),
            forall|j: int| 0 <= j < i ==> s@[j] == p@[j],
        decreases p@.len() - i,
    {
        if s[i] != p[i] {
            assert(s@.take(p@.len() as int)[i as int] != p@[i as int]);
            return false;
        }
        i = i + 1;
    }
    assert(s@.take(p@.len() as int) =~= p@);
    true
}

pub fn ends_with(s: &[char], p: &[char]) -> (r: bool)
    ensures
        r == has_suffix(s@, p@),
{
    if p.len() > s.len() {
        return false;
    }
    let off = s.len() - p.len();
    let mut i: usize = 0;
    while i < p.len()
        invariant
            p@.len() <= s@.len(),
            off == s@.len() - p@.len(),
            s@.len() == s.len(),
            i <= p@.len(),
            forall|j: int| 0 <= j < i ==> s@[off + j] == p@[j],
        decreases p@.len() - i,
    {
        if s[off + i] != p[i] {
            assert(s@.skip(off as int)[i as int] != p@[i as int]);
            return false;
        }
        i = i + 1;
    }
    assert(s@.skip(off as int) =~= p@);
    true
}

/// Does `s` contain the character `c`?
pub fn contains_char(s: &[char], c: char) -> (r: bool)
    ensures
        r == s@.contains(c),
{
    let mut i: usize = 0;
    while i < s.len()
        invariant
            i <= s@.len(),
            forall|j: int| 0 <= j < i ==> s@[j] != c,
        decreases s@.len() - i,
    {
        if s[i] == c {
            assert(s@[i as int] == c);
            return true;
        }
        i = i + 1;
    }
    false
}

/// The characters of a subrange of a slice.
pub fn slice_chars(s: &[char], lo: usize, hi: usize) -> (r: Vec<char>)
    requires
        lo <= hi <= s@.len(),
    ensures
        r@ == s@.subrange(lo as int, hi as int),
{
    let mut r: Vec<char> = Vec::new();
    let mut i: usize = lo;
    while i < hi
        invariant
            lo <= i <= hi <= s@.len(),
            r@ == s@.subrange(lo as int, i as int),
        decreases hi - i,
    {
        r.push(s[i]);
        assert(s@.subrange(lo as int, i + 1) =~= s@.subrange(lo as int, i as int).push(s@[i as int]));
        i = i + 1;
    }
    r
}

/// Append the characters of `src` to `dst`.
pub fn push_all(dst: &mut Vec<char>, src: &[char])
    ensures
        final(dst)@ == old(dst)@ + src@,
{
    let ghost start = dst@;
    let mut i: usize = 0;
    while i < src.len()
        invariant
            i <= src@.len(),
            dst@ == start + src@.take(i as int),
        decreases src@.len() - i,
    {
        dst.push(src[i]);
        assert(start + src@.take(i + 1) =~= (start + src@.take(i as int)).push(src@[i as int]));
        i = i + 1;
    }
    assert(src@.take(src@.len() as int) =~= src@);
}

/// Unicode `White_Space` characters, as `char::is_whitespace` classifies them.
pub open spec fn is_ws(c: char) -> bool {
    ||| ('\t' <= c && c <= '\r')
    ||| c == ' '
    ||| c == '\u{85}'
    ||| c == '\u{a0}'
    ||| c == '\u{1680}'
    ||| ('\u{2000}' <= c && c <= '\u{200a}')
    ||| c == '\u{2028}'
    ||| c == '\u{2029}'
    ||| c == '\u{202f}'
    ||| c == '\u{205f}'
    ||| c == '\u{3000}'
}

pub fn is_whitespace(c: char) -> (r: bool)
    ensures
        r == is_ws(c),
{
    ('\t' <= c && c <= '\r') || c == ' ' || c == '\u{85}' || c == '\u{a0}' || c == '\u{1680}'
        || ('\u{2000}' <= c && c <= '\u{200a}') || c == '\u{2028}' || c == '\u{2029}'
        || c == '\u{202f}' || c == '\u{205f}' || c == '\u{3000}'
}

/// `s` with leading and trailing whitespace removed, as `str::trim` does: the
/// longest infix whose first and last characters are not whitespace.
pub open spec fn trim_lo(s: Seq<char>) -> int
    decreases s.len(),
{
    if s.len() > 0 && is_ws(s[0]) {
        1 + trim_lo(s.drop_first())
    } else {
        0
    }
}

pub open spec fn trim_hi(s: Seq<char>) -> int
    decreases s.len(),
{
    if s.len() > 0 && is_ws(s.last()) {
        trim_hi(s.drop_last())
    } else {
        s.len() as int
    }
}

pub open spec fn trim(s: Seq<char>) -> Seq<char> {
    let lo = trim_lo(s);
    let hi = trim_hi(s);
    if lo < hi {
        s.subrange(lo, hi)
    } else {
        Seq::empty()
    }
}

/// `trim_lo` is the number of leading whitespace characters.
pub proof fn lemma_trim_lo_char(s: Seq<char>, k: int)
    requires
        0 <= k <= s.len(),
        forall|j: int| 0 <= j < k ==> is_ws(s[j]),
        k == s.len() || !is_ws(s[k]),
    ensures
        trim_lo(s) == k,
    decreases s.len(),
{
    if s.len() > 0 && is_ws(s[0]) {
        assert(k > 0);
        lemma_trim_lo_char(s.drop_first(), k - 1);
    }
}

pub proof fn lemma_trim_hi_char(s: Seq<char>, k: int)
    requires
        0 <= k <= s.len(),
        forall|j: int| k <= j < s.len() ==> is_ws(s[j]),
        k == 0 || !is_ws(s[k - 1]),
    ensures
        trim_hi(s) == k,
    decreases s.len(),
{
    if s.len() > 0 && is_ws(s.last()) {
        assert(k < s.len());
        lemma_trim_hi_char(s.drop_last(), k);
    }
}

pub fn trim_chars(s: &[char]) -> (r: Vec<char>)
    ensures
        r@ == trim(s@),
{
    let mut lo: usize = 0;
    while lo < s.len() && is_whitespace(s[lo])
        invariant
            lo <= s@.len(),
            forall|j: int| 0 <= j < lo ==> is_ws(s@[j]),
        decreases s@.len() - lo,
    {
        lo = lo + 1;
    }
    proof {
        lemma_trim_lo_char(s@, lo as int);
    }
    let mut hi: usize = s.len();
    while hi > 0 && is_whitespace(s[hi - 1])
        invariant
            hi <= s@.len(),
            forall|j: int| hi <= j < s@.len() ==> is_ws(s@[j]),
        decreases hi,
    {
        hi = hi - 1;
    }
    proof {
        lemma_trim_hi_char(s@, hi as int);
    }
    if lo < hi {
        slice_chars(s, lo, hi)
    } else {
        Vec::new()
    }
}

/// The pieces of `s` between occurrences of `c`, as `str::split(c)` yields them.
pub open spec fn split(s: Seq<char>, c: char) -> Seq<Seq<char>>
    decreases s.len(),
{
    if s.len() == 0 {
        seq![Seq::empty()]
    } else {
        let rest = split(s.drop_last(), c);
        if s.last() == c {
            rest.push(Seq::empty())
        } else {
            rest.update(rest.len() - 1, rest.last().push(s.last()))
        }
    }
}

/// A text without `c` splits into itself alone.
pub proof fn lemma_split_without(s: Seq<char>, c: char)
    requires
        !s.contains(c),
    ensures
        split(s, c) == seq![s],
    decreases s.len(),
{
    if s.len() == 0 {
        assert(s =~= Seq::<char>::empty());
    } else {
        assert(!s.drop_last().contains(c)) by {
            if s.drop_last().contains(c) {
                let i = choose|i: int| 0 <= i < s.drop_last().len() && s.drop_last()[i] == c;
                assert(s[i] == c);
            }
        }
        lemma_split_without(s.drop_last(), c);
        assert(s[s.len() - 1] != c);
        assert(s.drop_last().push(s.last()) =~= s);
        assert(seq![s.drop_last()].update(0, s.drop_last().push(s.last())) =~= seq![s]);
    }
}

pub proof fn lemma_split_nonempty(s: Seq<char>, c: char)
    ensures
        split(s, c).len() >= 1,
    decreases s.len(),
{
    if s.len() > 0 {
        lemma_split_nonempty(s.drop_last(), c);
    }
}

/// The views of a vector of character vectors.
pub open spec fn views(v: Seq<Vec<char>>) -> Seq<Seq<char>> {
    v.map_values(|x: Vec<char>| x@)
}

pub fn split_chars(s: &[char], c: char) -> (r: Vec<Vec<char>>)
    ensures
        views(r@) == split(s@, c),
{
    let mut done: Vec<Vec<char>> = Vec::new();
    let mut cur: Vec<char> = Vec::new();
    let mut i: usize = 0;
    while i < s.len()
        invariant
            i <= s@.len(),
            views(done@).push(cur@) == split(s@.take(i as int), c),
        decreases s@.len() - i,
    {
        proof {
            lemma_split_nonempty(s@.take(i as int), c);
            assert(s@.take(i + 1).drop_last() =~= s@.take(i as int));
        }
        if s[i] == c {
            let piece = cur;
            done.push(piece);
            cur = Vec::new();
            assert(views(done@) =~= views(done@.drop_last()).push(piece@));
            assert(views(done@).push(cur@) =~= split(s@.take(i as int), c).push(Seq::empty()));
        } else {
            let ghost before = cur@;
            cur.push(s[i]);
            let ghost prev = split(s@.take(i as int), c);
            assert(views(done@).push(cur@) =~= prev.update(prev.len() - 1, prev.last().push(s@[i as int])));
        }
        i = i + 1;
    }
    done.push(cur);
    assert(s@.take(s@.len() as int) =~= s@);
    assert(views(done@) =~= views(done@.drop_last()).push(done@.last()@));
    done
}

/// The first index of `c` in `s`, if any.
pub open spec fn first_index(s: Seq<char>, c: char, i: int) -> bool {
    &&& 0 <= i < s.len()
    &&& s[i] == c
    &&& forall|j: int| 0 <= j < i ==> s[j] != c
}

pub fn find_char(s: &[char], c: char) -> (r: Option<usize>)
    ensures
        match r {
            Some(i) => first_index(s@, c, i as int),
            None => !s@.contains(c),
        },
{
    let mut i: usize = 0;
    while i < s.len()
        invariant
            i <= s@.len(),
            forall|j: int| 0 <= j < i ==> s@[j] != c,
        decreases s@.len() - i,
    {
        if s[i] == c {
            return Some(i);
        }
        i = i + 1;
    }
    proof {
        if s@.contains(c) {
            let k = choose|k: int| 0 <= k < s@.len() && s@[k] == c;
            assert(s@[k] != c);
        }
    }
    None
}

/// `str::split_once(c)`: the text before and after the first `c`.
pub open spec fn split_once(s: Seq<char>, c: char) -> Option<(Seq<char>, Seq<char>)> {
    if s.contains(c) {
        let i = choose|i: int| first_index(s, c, i);
        Some((s.take(i), s.skip(i + 1)))
    } else {
        None
    }
}

pub proof fn lemma_first_index_unique(s: Seq<char>, c: char, i: int, k: int)
    requires
        first_index(s, c, i),
        first_index(s, c, k),
    ensures
        i == k,
{
    if i < k {
        assert(s[i] != c);
    }
    if k < i {
        assert(s[k] != c);
    }
}

pub proof fn lemma_split_once(s: Seq<char>, c: char, i: int)
    requires
        first_index(s, c, i),
    ensures
        split_once(s, c) == Some((s.take(i), s.skip(i + 1))),
{
    assert(s.contains(c)) by {
        assert(s[i] == c);
    }
    let k = choose|k: int| first_index(s, c, k);
    lemma_first_index_unique(s, c, i, k);
}

pub fn split_once_chars(s: &[char], c: char) -> (r: Option<(Vec<char>, Vec<char>)>)
    ensures
        match r {
            Some((a, b)) => split_once(s@, c) == Some((a@, b@)),
            None => split_once(s@, c) is None,
        },
{
    match find_char(s, c) {
        Some(i) => {
            proof {
                lemma_split_once(s@, c, i as int);
            }
            assert(i < s.len());
            Some((slice_chars(s, 0, i), slice_chars(s, i + 1, s.len())))
        },
        None => None,
    }
}


/// `s` with every leading and trailing `c` removed, as `str::trim_matches(c)`.
pub open spec fn strip_lo(s: Seq<char>, c: char) -> int
    decreases s.len(),
{
    if s.len() > 0 && s[0] == c {
        1 + strip_lo(s.drop_first(), c)
    } else {
        0
    }
}

pub open spec fn strip_hi(s: Seq<char>, c: char) -> int
    decreases s.len(),
{
    if s.len() > 0 && s.last() == c {
        strip_hi(s.drop_last(), c)
    } else {
        s.len() as int
    }
}

pub open spec fn strip_char(s: Seq<char>, c: char) -> Seq<char> {
    let lo = strip_lo(s, c);
    let hi = strip_hi(s, c);
    if lo < hi {
        s.subrange(lo, hi)
    } else {
        Seq::empty()
    }
}

proof fn lemma_strip_lo_char(s: Seq<char>, c: char, k: int)
    requires
        0 <= k <= s.len(),
        forall|j: int| 0 <= j < k ==> s[j] == c,
        k == s.len() || s[k] != c,
    ensures
        strip_lo(s, c) == k,
    decreases s.len(),
{
    if s.len() > 0 && s[0] == c {
        assert(k > 0);
        lemma_strip_lo_char(s.drop_first(), c, k - 1);
    }
}

proof fn lemma_strip_hi_char(s: Seq<char>, c: char, k: int)
    requires
        0 <= k <= s.len(),
        forall|j: int| k <= j < s.len() ==> s[j] == c,
        k == 0 || s[k - 1] != c,
    ensures
        strip_hi(s, c) == k,
    decreases s.len(),
{
    if s.len() > 0 && s.last() == c {
        assert(k < s.len());
        lemma_strip_hi_char(s.drop_last(), c, k);
    }
}

pub fn strip_char_chars(s: &[char], c: char) -> (r: Vec<char>)
    ensures
        r@ == strip_char(s@, c),
{
    let mut lo: usize = 0;
    while lo < s.len() && s[lo] == c
        invariant
            lo <= s@.len(),
            forall|j: int| 0 <= j < lo ==> s@[j] == c,
        decreases s@.len() - lo,
    {
        lo = lo + 1;
    }
    proof {
        lemma_strip_lo_char(s@, c, lo as int);
    }
    let mut hi: usize = s.len();
    while hi > 0 && s[hi - 1] == c
        invariant
            hi <= s@.len(),
            forall|j: int| hi <= j < s@.len() ==> s@[j] == c,
        decreases hi,
    {
        hi = hi - 1;
    }
    proof {
        lemma_strip_hi_char(s@, c, hi as int);
    }
    if lo < hi {
        slice_chars(s, lo, hi)
    } else {
        Vec::new()
    }
}

/// A line without its trailing carriage return.
pub open spec fn strip_cr(s: Seq<char>) -> Seq<char> {
    if s.len() > 0 && s.last() == '\r' {
        s.drop_last()
    } else {
        s
    }
}

/// The lines of `s`, as `str::lines` yields them: split at `\n`, a `\r` before
/// the `\n` removed, and no empty line after a final `\n`.
pub open spec fn lines(s: Seq<char>) -> Seq<Seq<char>> {
    if s.len() == 0 {
        Seq::empty()
    } else {
        let p = split(s, '\n');
        if s.last() == '\n' {
            p.drop_last().map_values(|l: Seq<char>| strip_cr(l))
        } else {
            p.drop_last().map_values(|l: Seq<char>| strip_cr(l)).push(p.last())
        }
    }
}

pub fn strip_cr_chars(s: Vec<char>) -> (r: Vec<char>)
    ensures
        r@ == strip_cr(s@),
{
    let mut s = s;
    if s.len() > 0 && s[s.len() - 1] == '\r' {
        s.pop();
    }
    s
}

pub fn lines_chars(s: &[char]) -> (r: Vec<Vec<char>>)
    ensures
        views(r@) == lines(s@),
{
    if s.len() == 0 {
        return Vec::new();
    }
    let pieces = split_chars(s, '\n');
    proof {
        lemma_split_nonempty(s@, '\n');
    }
    let ghost p = split(s@, '\n');
    let n = pieces.len();
    let mut r: Vec<Vec<char>> = Vec::new();
    let mut i: usize = 0;
    while i + 1 < n
        invariant
            n == pieces@.len(),
            n >= 1,
            views(pieces@) == p,
            i + 1 <= n,
            views(r@) == p.take(i as int).map_values(|l: Seq<char>| strip_cr(l)),
        decreases n - i,
    {
        let line = strip_cr_chars(pieces[i].clone());
        let ghost before = r@;
        r.push(line);
        proof {
            assert(pieces@[i as int]@ == p[i as int]);
            assert(views(r@) =~= views(before).push(line@));
            assert(p.take(i + 1).map_values(|l: Seq<char>| strip_cr(l)) =~= p.take(i as int).map_values(
                |l: Seq<char>| strip_cr(l),
            ).push(strip_cr(p[i as int])));
        }
        i = i + 1;
    }
    assert(p.take(i as int) =~= p.drop_last());
    if s[s.len() - 1] != '\n' {
        let last = pieces[n - 1].clone();
        let ghost before = r@;
        r.push(last);
        assert(pieces@[n - 1]@ == p.last());
        assert(views(r@) =~= views(before).push(p.last()));
    }
    r
}

/// Whether `a` comes before `b` in the order of their characters' code points
/// (the order `String` compares in, since UTF-8 keeps code-point order).
pub open spec fn text_lt(a: Seq<char>, b: Seq<char>) -> bool
    decreases a.len(),
{
    if a.len() == 0 {
        b.len() > 0
    } else if b.len() == 0 {
        false
    } else if a[0] != b[0] {
        a[0] < b[0]
    } else {
        text_lt(a.drop_first(), b.drop_first())
    }
}

pub proof fn lemma_text_lt_irreflexive(a: Seq<char>)
    ensures
        !text_lt(a, a),
    decreases a.len(),
{
    if a.len() > 0 {
        lemma_text_lt_irreflexive(a.drop_first());
    }
}

pub proof fn lemma_text_lt_transitive(a: Seq<char>, b: Seq<char>, c: Seq<char>)
    requires
        text_lt(a, b),
        text_lt(b, c),
    ensures
        text_lt(a, c),
    decreases a.len(),
{
    if a.len() > 0 && b.len() > 0 && c.len() > 0 && a[0] == b[0] && b[0] == c[0] {
        lemma_text_lt_transitive(a.drop_first(), b.drop_first(), c.drop_first());
    }
}

pub proof fn lemma_text_lt_total(a: Seq<char>, b: Seq<char>)
    ensures
        a == b || text_lt(a, b) || text_lt(b, a),
    decreases a.len(),
{
    if a.len() > 0 && b.len() > 0 && a[0] == b[0] {
        lemma_text_lt_total(a.drop_first(), b.drop_first());
        if a.drop_first() == b.drop_first() {
            assert(a =~= seq![a[0]] + a.drop_first());
            assert(b =~= seq![b[0]] + b.drop_first());
        }
    } else if a.len() == 0 && b.len() == 0 {
        assert(a =~= b);
    }
}

pub fn chars_lt(a: &[char], b: &[char]) -> (r: bool)
    ensures
        r == text_lt(a@, b@),
{
    let mut i: usize = 0;
    assert(a@.skip(0) =~= a@ && b@.skip(0) =~= b@);
    while i < a.len() && i < b.len() && a[i] == b[i]
        invariant
            i <= a@.len(),
            i <= b@.len(),
            text_lt(a@, b@) == text_lt(a@.skip(i as int), b@.skip(i as int)),
        decreases a@.len() - i,
    {
        proof {
            assert(a@.skip(i as int).drop_first() =~= a@.skip(i + 1));
            assert(b@.skip(i as int).drop_first() =~= b@.skip(i + 1));
            assert(a@.skip(i as int)[0] == a@[i as int]);
            assert(b@.skip(i as int)[0] == b@[i as int]);
        }
        i = i + 1;
    }
    if i == a.len() {
        i < b.len()
    } else if i == b.len() {
        false
    } else {
        proof {
            assert(a@.skip(i as int)[0] == a@[i as int]);
            assert(b@.skip(i as int)[0] == b@[i as int]);
        }
        a[i] < b[i]
    }
}

proof fn lemma_strip_lo_bounds(s: Seq<char>, c: char)
    ensures
        0 <= strip_lo(s, c) <= s.len(),
        strip_lo(s, c) < s.len() ==> s[strip_lo(s, c)] != c,
    decreases s.len(),
{
    if s.len() > 0 && s[0] == c {
        lemma_strip_lo_bounds(s.drop_first(), c);
        let k = strip_lo(s.drop_first(), c);
        if k < s.drop_first().len() {
            assert(s[k + 1] == s.drop_first()[k]);
        }
    }
}

proof fn lemma_strip_hi_bounds(s: Seq<char>, c: char)
    ensures
        0 <= strip_hi(s, c) <= s.len(),
        strip_hi(s, c) > 0 ==> s[strip_hi(s, c) - 1] != c,
    decreases s.len(),
{
    if s.len() > 0 && s.last() == c {
        lemma_strip_hi_bounds(s.drop_last(), c);
        let k = strip_hi(s.drop_last(), c);
        if k > 0 {
            assert(s[k - 1] == s.drop_last()[k - 1]);
        }
    }
}

/// What `strip_char` leaves neither begins nor ends with `c`.
pub proof fn lemma_strip_char_ends(s: Seq<char>, c: char)
    ensures
        strip_char(s, c).len() > 0 ==> strip_char(s, c)[0] != c && strip_char(s, c).last() != c,
{
    lemma_strip_lo_bounds(s, c);
    lemma_strip_hi_bounds(s, c);
}

/// Stripping `c` from `c b c`, or from `b` alone, gives `b` when `b` neither
/// begins nor ends with `c`.
pub proof fn lemma_strip_char_wrapped(b: Seq<char>, c: char)
    requires
        b.len() > 0,
        b[0] != c,
        b.last() != c,
    ensures
        strip_char(seq![c] + b + seq![c], c) == b,
        strip_char(b, c) == b,
{
    let s = seq![c] + b + seq![c];
    lemma_strip_lo_char(s, c, 1);
    lemma_strip_hi_char(s, c, s.len() - 1);
    assert(s.subrange(1, s.len() - 1) =~= b);
    lemma_strip_lo_char(b, c, 0);
    lemma_strip_hi_char(b, c, b.len() as int);
    assert(b.subrange(0, b.len() as int) =~= b);
}

/// Splitting at a separator splits each side on its own.
pub proof fn lemma_split_concat(a: Seq<char>, b: Seq<char>, c: char)
    ensures
        split(a + seq![c] + b, c) == split(a, c) + split(b, c),
    decreases b.len(),
{
    let s = a + seq![c] + b;
    if b.len() == 0 {
        assert(s.drop_last() =~= a);
        assert(s.last() == c);
        assert(split(b, c) =~= seq![Seq::<char>::empty()]);
        assert(split(a, c).push(Seq::<char>::empty()) =~= split(a, c) + seq![Seq::<char>::empty()]);
    } else {
        assert(s.drop_last() =~= a + seq![c] + b.drop_last());
        assert(s.last() == b.last());
        lemma_split_concat(a, b.drop_last(), c);
        lemma_split_nonempty(b.drop_last(), c);
        lemma_split_nonempty(a, c);
        let l = split(a, c);
        let r = split(b.drop_last(), c);
        if b.last() == c {
            assert((l + r).push(Seq::<char>::empty()) =~= l + r.push(Seq::<char>::empty()));
        } else {
            assert((l + r).last() == r.last());
            assert((l + r).update((l + r).len() - 1, r.last().push(b.last())) =~= l + r.update(r.len() - 1, r.last().push(b.last())));
        }
    }
}

} // verus!
