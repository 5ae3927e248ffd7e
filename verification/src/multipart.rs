//! Byte search and `multipart/form-data` bodies.

use vstd::prelude::*;
use vstd::string::StringSliceAdditionalSpecFns;
use crate::multimap::{Groups, distinct_keys, group_push, group_view, grouped};
use crate::text::{
    chars_eq, chars_of, has_prefix, lines, lines_chars, slice_chars, split, split_chars,
    split_once, split_once_chars, starts_with, strip_char, strip_char_chars, trim, trim_chars, views,
};

verus! {

/// Does `n` occur in `h` at position `i`?
pub open spec fn occurs_at(h: Seq<u8>, n: Seq<u8>, i: int) -> bool {
    0 <= i && i + n.len() <= h.len() && h.subrange(i, i + n.len()) == n
}

pub open spec fn is_first_occurrence(h: Seq<u8>, n: Seq<u8>, i: int) -> bool {
    occurs_at(h, n, i) && forall|j: int| 0 <= j < i ==> !occurs_at(h, n, j)
}

/// The position of the first occurrence of `n` in `h`; an empty `n` occurs at 0.
pub open spec fn find_spec(h: Seq<u8>, n: Seq<u8>) -> Option<int> {
    if exists|i: int| occurs_at(h, n, i) {
        Some(choose|i: int| is_first_occurrence(h, n, i))
    } else {
        None
    }
}

proof fn lemma_find_spec_some(h: Seq<u8>, n: Seq<u8>, i: int)
    requires
        is_first_occurrence(h, n, i),
    ensures
        find_spec(h, n) == Some(i),
{
    assert(exists|k: int| occurs_at(h, n, k));
    let k = choose|k: int| is_first_occurrence(h, n, k);
    assert(is_first_occurrence(h, n, k)) by {
        assert(is_first_occurrence(h, n, i));
    }
    if k < i {
        assert(!occurs_at(h, n, k));
    }
    if i < k {
        assert(!occurs_at(h, n, i));
    }
}

pub proof fn lemma_find_spec_range(h: Seq<u8>, n: Seq<u8>)
    ensures
        find_spec(h, n) matches Some(i) ==> occurs_at(h, n, i),
{
    if exists|i: int| occurs_at(h, n, i) {
        let w = choose|i: int| occurs_at(h, n, i);
        lemma_exists_first(h, n, w);
        let k = choose|i: int| is_first_occurrence(h, n, i);
    }
}

proof fn lemma_exists_first(h: Seq<u8>, n: Seq<u8>, w: int)
    requires
        occurs_at(h, n, w),
    ensures
        exists|i: int| is_first_occurrence(h, n, i),
    decreases w,
{
    if forall|j: int| 0 <= j < w ==> !occurs_at(h, n, j) {
        assert(is_first_occurrence(h, n, w));
    } else {
        let j = choose|j: int| 0 <= j < w && occurs_at(h, n, j);
        lemma_exists_first(h, n, j);
    }
}

fn matches_at(h: &[u8], n: &[u8], i: usize) -> (r: bool)
    requires
        i + n@.len() <= h@.len(),
    ensures
        r == occurs_at(h@, n@, i as int),
{
    let hl = h.len();
    let mut k: usize = 0;
    while k < n.len()
        invariant
            hl == h@.len(),
            i + n@.len() <= h@.len(),
            k <= n@.len(),
            forall|j: int| 0 <= j < k ==> h@[i + j] == n@[j],
        decreases n@.len() - k,
    {
        if h[i + k] != n[k] {
            assert(h@.subrange(i as int, i + n@.len())[k as int] != n@[k as int]);
            return false;
        }
        k = k + 1;
    }
    assert(h@.subrange(i as int, i + n@.len()) =~= n@);
    true
}

/// The first occurrence of `n` in `h` at or after `start`, relative to `start`.
fn find_from(h: &[u8], start: usize, n: &[u8]) -> (r: Option<usize>)
    requires
        start <= h@.len(),
    ensures
        r == match find_spec(h@.skip(start as int), n@) {
            Some(i) => Some(i as usize),
            None => None::<usize>,
        },
        r matches Some(i) ==> start + i + n@.len() <= h@.len(),
{
    let ghost t = h@.skip(start as int);
    let hl = h.len();
    if n.len() > h.len() - start {
        proof {
            assert forall|i: int| !occurs_at(t, n@, i) by {}
        }
        return None;
    }
    let last = h.len() - start - n.len();
    let mut i: usize = 0;
    while i < last
        invariant
            t == h@.skip(start as int),
            hl == h@.len(),
            last == h@.len() - start - n@.len(),
            start + last + n@.len() == h@.len(),
            i <= last,
            forall|j: int| 0 <= j < i ==> !occurs_at(t, n@, j),
        decreases last - i,
    {
        let hit = matches_at(h, n, start + i);
        assert(hit == occurs_at(t, n@, i as int)) by {
            assert(h@.subrange(start + i, start + i + n@.len()) =~= t.subrange(i as int, i + n@.len()));
        }
        if hit {
            proof {
                lemma_find_spec_some(t, n@, i as int);
            }
            return Some(i);
        }
        i = i + 1;
    }
    let hit = matches_at(h, n, start + last);
    assert(hit == occurs_at(t, n@, last as int)) by {
        assert(h@.subrange(start + last, start + last + n@.len()) =~= t.subrange(last as int, last + n@.len()));
    }
    if hit {
        proof {
            lemma_find_spec_some(t, n@, last as int);
        }
        return Some(last);
    }
    proof {
        assert forall|j: int| !occurs_at(t, n@, j) by {
            if 0 <= j && j + n@.len() <= t.len() {
                assert(j <= last);
            }
        }
    }
    None
}

/// The position of the first occurrence of `needle` in `haystack`.
pub fn find_bytes(haystack: &[u8], needle: &[u8]) -> (r: Option<usize>)
    ensures
        match r {
            Some(i) => is_first_occurrence(haystack@, needle@, i as int),
            None => forall|i: int| !occurs_at(haystack@, needle@, i),
        },
{
    proof {
        assert(haystack@.skip(0) =~= haystack@);
    }
    let hl = haystack.len();
    let r = find_from(haystack, 0, needle);
    proof {
        lemma_find_spec_range(haystack@, needle@);
        assert(haystack@.skip(0) == haystack@);
        if exists|k: int| occurs_at(haystack@, needle@, k) {
            let k = choose|k: int| occurs_at(haystack@, needle@, k);
            lemma_exists_first(haystack@, needle@, k);
            let f = choose|i: int| is_first_occurrence(haystack@, needle@, i);
            assert(is_first_occurrence(haystack@, needle@, f));
            assert(find_spec(haystack@, needle@) == Some(f));
            assert(f <= hl);
            assert(r == Some(f as usize));
        } else {
            assert(find_spec(haystack@, needle@) is None);
        }
    }
    r
}

/// The value of the first `;`-separated parameter of a header value after the
/// first piece, when it has the form `name=value`.
pub open spec fn param_match(piece: Seq<char>, parameter: Seq<char>) -> Option<Seq<char>> {
    match split_once(trim(piece), '=') {
        Some((n, v)) => if trim(n) == parameter {
            Some(strip_char(trim(v), '"'))
        } else {
            None
        },
        None => None,
    }
}

pub open spec fn first_param(pieces: Seq<Seq<char>>, parameter: Seq<char>) -> Option<Seq<char>>
    decreases pieces.len(),
{
    if pieces.len() == 0 {
        None
    } else {
        match param_match(pieces[0], parameter) {
            Some(v) => Some(v),
            None => first_param(pieces.drop_first(), parameter),
        }
    }
}

/// The value of `parameter` in a `Content-Disposition` value, unquoted.
pub open spec fn disposition_param(disposition: Seq<char>, parameter: Seq<char>) -> Option<Seq<char>> {
    first_param(split(disposition, ';').drop_first(), parameter)
}

fn param_match_exec(piece: &Vec<char>, parameter: &Vec<char>) -> (r: Option<Vec<char>>)
    ensures
        match r {
            Some(v) => param_match(piece@, parameter@) == Some(v@),
            None => param_match(piece@, parameter@) is None,
        },
{
    let t = trim_chars(piece.as_slice());
    match split_once_chars(t.as_slice(), '=') {
        Some((n, v)) => {
            let tn = trim_chars(n.as_slice());
            if chars_eq(tn.as_slice(), parameter.as_slice()) {
                let tv = trim_chars(v.as_slice());
                Some(strip_char_chars(tv.as_slice(), '"'))
            } else {
                None
            }
        },
        None => None,
    }
}

fn disposition_param_chars(disposition: &[char], parameter: &Vec<char>) -> (r: Option<Vec<char>>)
    ensures
        match r {
            Some(v) => disposition_param(disposition@, parameter@) == Some(v@),
            None => disposition_param(disposition@, parameter@) is None,
        },
{
    let pieces = split_chars(disposition, ';');
    proof {
        crate::text::lemma_split_nonempty(disposition@, ';');
    }
    let ghost all = split(disposition@, ';');
    let mut i: usize = 1;
    while i < pieces.len()
        invariant
            1 <= i <= pieces@.len(),
            views(pieces@) == all,
            all == split(disposition@, ';'),
            first_param(all.drop_first(), parameter@) == first_param(all.skip(i as int), parameter@),
        decreases pieces@.len() - i,
    {
        proof {
            assert(all.skip(i as int).drop_first() =~= all.skip(i + 1));
            assert(all.skip(i as int).len() > 0);
            assert(all.skip(i as int)[0] == pieces@[i as int]@);
        }
        match param_match_exec(&pieces[i], parameter) {
            Some(v) => {
                assert(param_match(all.skip(i as int)[0], parameter@) == Some(v@));
                assert(first_param(all.skip(i as int), parameter@) == Some(v@));
                return Some(v);
            },
            None => {},
        }
        i = i + 1;
    }
    None
}

/// The value of `parameter` in a `Content-Disposition` header value.
pub fn disposition_parameter(disposition: &str, parameter: &str) -> (r: Option<String>)
    ensures
        match r {
            Some(v) => disposition_param(disposition@, parameter@) == Some(v@),
            None => disposition_param(disposition@, parameter@) is None,
        },
{
    let d = chars_of(disposition);
    let p = chars_of(parameter);
    match disposition_param_chars(d.as_slice(), &p) {
        Some(v) => Some(crate::text::string_of(v.as_slice())),
        None => None,
    }
}

/// The first `;`-separated piece after the first that starts with `boundary=`,
/// with that prefix removed.
pub open spec fn first_boundary(pieces: Seq<Seq<char>>) -> Option<Seq<char>>
    decreases pieces.len(),
{
    if pieces.len() == 0 {
        None
    } else if has_prefix(trim(pieces[0]), "boundary="@) {
        Some(trim(pieces[0]).skip("boundary="@.len() as int))
    } else {
        first_boundary(pieces.drop_first())
    }
}

/// The unquoted, non-empty `boundary` parameter of a content type.
pub open spec fn boundary_of(content_type: Seq<char>) -> Option<Seq<char>> {
    match first_boundary(split(content_type, ';').drop_first()) {
        Some(b) => if strip_char(b, '"').len() > 0 {
            Some(strip_char(b, '"'))
        } else {
            None
        },
        None => None,
    }
}

/// The boundary of a `multipart/form-data` content type.
pub fn multipart_boundary(content_type: &str) -> (r: Option<String>)
    ensures
        match r {
            Some(b) => boundary_of(content_type@) == Some(b@),
            None => boundary_of(content_type@) is None,
        },
{
    let ct = chars_of(content_type);
    let pieces = split_chars(ct.as_slice(), ';');
    proof {
        crate::text::lemma_split_nonempty(ct@, ';');
    }
    let ghost all = split(ct@, ';');
    let prefix = chars_of("boundary=");
    let mut i: usize = 1;
    while i < pieces.len()
        invariant
            1 <= i <= pieces@.len(),
            views(pieces@) == all,
            all == split(ct@, ';'),
            ct@ == content_type@,
            prefix@ == "boundary="@,
            first_boundary(all.drop_first()) == first_boundary(all.skip(i as int)),
        decreases pieces@.len() - i,
    {
        proof {
            assert(all.skip(i as int).drop_first() =~= all.skip(i + 1));
            assert(all.skip(i as int).len() > 0);
            assert(all.skip(i as int)[0] == pieces@[i as int]@);
        }
        let t = trim_chars(pieces[i].as_slice());
        if starts_with(t.as_slice(), prefix.as_slice()) {
            let b = slice_chars(t.as_slice(), prefix.len(), t.len());
            assert(b@ =~= t@.skip(prefix@.len() as int));
            let q = strip_char_chars(b.as_slice(), '"');
            if q.len() > 0 {
                return Some(crate::text::string_of(q.as_slice()));
            } else {
                return None;
            }
        }
        i = i + 1;
    }
    None
}


pub open spec fn crlf() -> Seq<u8> {
    seq![13u8, 10u8]
}

pub open spec fn dashes() -> Seq<u8> {
    seq![45u8, 45u8]
}

pub open spec fn blank_line() -> Seq<u8> {
    seq![13u8, 10u8, 13u8, 10u8]
}

/// Does `pat` stand in `b` at `lo`?
pub open spec fn bytes_at(b: Seq<u8>, lo: int, pat: Seq<u8>) -> bool {
    0 <= lo && lo + pat.len() <= b.len() && b.subrange(lo, lo + pat.len()) == pat
}

/// A part without its final CRLF.
pub open spec fn strip_crlf(p: Seq<u8>) -> Seq<u8> {
    if p.len() >= 2 && p.subrange(p.len() - 2, p.len() as int) == crlf() {
        p.subrange(0, p.len() - 2)
    } else {
        p
    }
}

/// The delimiter line of a multipart body: two dashes and the boundary.
pub open spec fn marker_of(boundary: Seq<u8>) -> Seq<u8> {
    dashes() + boundary
}

/// The parts of a multipart body from `cursor` on: the bytes between one
/// delimiter (and the CRLF after it) and the next, without a final CRLF. A
/// delimiter followed by `--` closes the body.
pub open spec fn parts_from(body: Seq<u8>, marker: Seq<u8>, cursor: int) -> Seq<Seq<u8>>
    decreases body.len() - cursor,
{
    if cursor < 0 || cursor > body.len() || marker.len() == 0 {
        Seq::empty()
    } else {
        match find_spec(body.skip(cursor), marker) {
            None => Seq::empty(),
            Some(rs) => {
                let ps = cursor + rs + marker.len();
                if bytes_at(body, ps, dashes()) {
                    Seq::empty()
                } else {
                    let ps2 = if bytes_at(body, ps, crlf()) {
                        ps + 2
                    } else {
                        ps
                    };
                    if rs < 0 || ps2 > body.len() {
                        Seq::empty()
                    } else {
                        match find_spec(body.skip(ps2), marker) {
                            None => Seq::empty(),
                            Some(re) => if re < 0 || ps2 + re > body.len() {
                                Seq::empty()
                            } else {
                                seq![strip_crlf(body.subrange(ps2, ps2 + re))] + parts_from(
                                    body,
                                    marker,
                                    ps2 + re,
                                )
                            },
                        }
                    }
                }
            },
        }
    }
}

/// The text `String::from_utf8_lossy` makes of some bytes.
pub uninterp spec fn lossy_utf8(b: Seq<u8>) -> Seq<char>;

/// `String::from_utf8_lossy`: valid UTF-8 decodes as is; invalid sequences
/// become U+FFFD. The result is named `lossy_utf8`; only the valid case is
/// stated beyond that name.
#[verifier::external_body]
pub(crate) fn utf8_lossy(b: &[u8]) -> (r: String)
    ensures
        r@ == lossy_utf8(b@),
        vstd::utf8::valid_utf8(b@) ==> r@ == vstd::utf8::decode_utf8(b@),
{
    String::from_utf8_lossy(b).into_owned()
}

/// The rest of the first line that starts with `prefix`.
pub open spec fn first_prefixed(ls: Seq<Seq<char>>, prefix: Seq<char>) -> Option<Seq<char>>
    decreases ls.len(),
{
    if ls.len() == 0 {
        None
    } else if has_prefix(ls[0], prefix) {
        Some(ls[0].skip(prefix.len() as int))
    } else {
        first_prefixed(ls.drop_first(), prefix)
    }
}

/// The field a part describes: whether it is a file, its name and its value.
pub open spec fn part_field(part: Seq<u8>) -> Option<(bool, Seq<char>, Seq<char>)> {
    match find_spec(part, blank_line()) {
        None => None,
        Some(sep) => match first_prefixed(lines(lossy_utf8(part.take(sep))), "Content-Disposition:"@) {
            None => None,
            Some(d) => match disposition_param(d, "name"@) {
                None => None,
                Some(name) => Some(
                    (disposition_param(d, "filename"@) is Some, name, lossy_utf8(part.skip(sep + 4))),
                ),
            },
        },
    }
}

/// The name/value pairs of the file fields (`files`) or the other fields.
pub open spec fn field_entries(parts: Seq<Seq<u8>>, files: bool) -> Seq<(Seq<char>, Seq<char>)>
    decreases parts.len(),
{
    if parts.len() == 0 {
        Seq::empty()
    } else {
        let rest = field_entries(parts.drop_last(), files);
        match part_field(parts.last()) {
            Some((f, n, v)) => if f == files {
                rest.push((n, v))
            } else {
                rest
            },
            None => rest,
        }
    }
}

fn bytes_at_exec(b: &[u8], lo: usize, pat: &[u8]) -> (r: bool)
    ensures
        r == bytes_at(b@, lo as int, pat@),
{
    let bl = b.len();
    if lo > bl || pat.len() > bl - lo {
        return false;
    }
    matches_at(b, pat, lo)
}

fn slice_bytes(b: &[u8], lo: usize, hi: usize) -> (r: Vec<u8>)
    requires
        lo <= hi <= b@.len(),
    ensures
        r@ == b@.subrange(lo as int, hi as int),
{
    let mut r: Vec<u8> = Vec::new();
    let mut i: usize = lo;
    while i < hi
        invariant
            lo <= i <= hi <= b@.len(),
            r@ == b@.subrange(lo as int, i as int),
        decreases hi - i,
    {
        r.push(b[i]);
        assert(b@.subrange(lo as int, i + 1) =~= b@.subrange(lo as int, i as int).push(b@[i as int]));
        i = i + 1;
    }
    r
}

fn first_prefixed_exec(ls: &Vec<Vec<char>>, prefix: &Vec<char>) -> (r: Option<Vec<char>>)
    ensures
        match r {
            Some(v) => first_prefixed(views(ls@), prefix@) == Some(v@),
            None => first_prefixed(views(ls@), prefix@) is None,
        },
{
    let ghost all = views(ls@);
    let mut i: usize = 0;
    assert(all.skip(0) =~= all);
    while i < ls.len()
        invariant
            i <= ls@.len(),
            all == views(ls@),
            first_prefixed(all, prefix@) == first_prefixed(all.skip(i as int), prefix@),
        decreases ls@.len() - i,
    {
        proof {
            assert(all.skip(i as int).drop_first() =~= all.skip(i + 1));
            assert(all.skip(i as int).len() > 0);
            assert(all.skip(i as int)[0] == ls@[i as int]@);
        }
        if starts_with(ls[i].as_slice(), prefix.as_slice()) {
            let rest = slice_chars(ls[i].as_slice(), prefix.len(), ls[i].len());
            assert(rest@ =~= ls@[i as int]@.skip(prefix@.len() as int));
            return Some(rest);
        }
        i = i + 1;
    }
    None
}

fn part_field_exec(part: &Vec<u8>) -> (r: Option<(bool, String, String)>)
    ensures
        match r {
            Some((f, n, v)) => part_field(part@) == Some((f, n@, v@)),
            None => part_field(part@) is None,
        },
{
    let blank: Vec<u8> = vec![13u8, 10u8, 13u8, 10u8];
    assert(blank@ =~= blank_line());
    let pl = part.len();
    proof {
        assert(part@.skip(0) =~= part@);
    }
    let sep = match find_from(part.as_slice(), 0, blank.as_slice()) {
        Some(sep) => sep,
        None => {
            return None;
        },
    };
    proof {
        lemma_find_spec_range(part@, blank_line());
    }
    assert(find_spec(part@, blank_line()) == Some(sep as int));
    let head = slice_bytes(part.as_slice(), 0, sep);
    assert(head@ =~= part@.take(sep as int));
    let value_bytes = slice_bytes(part.as_slice(), sep + 4, pl);
    assert(value_bytes@ =~= part@.skip(sep + 4));
    let head_text = utf8_lossy(head.as_slice());
    let head_chars = chars_of(head_text.as_str());
    let ls = lines_chars(head_chars.as_slice());
    let prefix = chars_of("Content-Disposition:");
    let d = match first_prefixed_exec(&ls, &prefix) {
        Some(d) => d,
        None => {
            return None;
        },
    };
    let name_key = chars_of("name");
    let file_key = chars_of("filename");
    let name = match disposition_param_chars(d.as_slice(), &name_key) {
        Some(n) => n,
        None => {
            return None;
        },
    };
    let is_file = disposition_param_chars(d.as_slice(), &file_key).is_some();
    let value = utf8_lossy(value_bytes.as_slice());
    Some((is_file, crate::text::string_of(name.as_slice()), value))
}

/// The fields and the files of a `multipart/form-data` body, each grouped by
/// field name in the order the parts appear.
pub fn multipart_values(body: &[u8], boundary: &str) -> (r: (Groups, Groups))
    ensures
        distinct_keys(r.0@),
        distinct_keys(r.1@),
        group_view(r.0@) == grouped(field_entries(parts_from(body@, marker_of(boundary.spec_bytes()), 0), false)),
        group_view(r.1@) == grouped(field_entries(parts_from(body@, marker_of(boundary.spec_bytes()), 0), true)),
{
    let bb = boundary.as_bytes();
    let mut marker: Vec<u8> = vec![45u8, 45u8];
    let mut k: usize = 0;
    while k < bb.len()
        invariant
            k <= bb@.len(),
            marker@ == dashes() + bb@.take(k as int),
        decreases bb@.len() - k,
    {
        marker.push(bb[k]);
        assert(dashes() + bb@.take(k + 1) =~= (dashes() + bb@.take(k as int)).push(bb@[k as int]));
        k = k + 1;
    }
    assert(bb@.take(bb@.len() as int) =~= bb@);
    let ghost m = marker@;
    assert(m == marker_of(boundary.spec_bytes()));
    let dash: Vec<u8> = vec![45u8, 45u8];
    let newline: Vec<u8> = vec![13u8, 10u8];
    assert(dash@ =~= dashes());
    assert(newline@ =~= crlf());
    let bl = body.len();
    let mut form: Groups = Vec::new();
    let mut files: Groups = Vec::new();
    let ghost mut done: Seq<Seq<u8>> = Seq::empty();
    let mut cursor: usize = 0;
    assert(done + parts_from(body@, m, 0) =~= parts_from(body@, m, 0));
    loop
        invariant
            bl == body@.len(),
            cursor <= body@.len(),
            m == marker@,
            m.len() >= 2,
            dash@ == dashes(),
            newline@ == crlf(),
            parts_from(body@, m, 0) == done + parts_from(body@, m, cursor as int),
            distinct_keys(form@),
            distinct_keys(files@),
            group_view(form@) == grouped(field_entries(done, false)),
            group_view(files@) == grouped(field_entries(done, true)),
        ensures
            parts_from(body@, m, cursor as int) == Seq::<Seq<u8>>::empty(),
        decreases body@.len() - cursor,
    {
        let rs = match find_from(body, cursor, marker.as_slice()) {
            Some(rs) => rs,
            None => {
                break;
            },
        };
        proof {
            crate::multipart::lemma_find_spec_range(body@.skip(cursor as int), m);
        }
        let ps = cursor + rs + marker.len();
        if bytes_at_exec(body, ps, dash.as_slice()) {
            break;
        }
        let ps2 = if bytes_at_exec(body, ps, newline.as_slice()) {
            ps + 2
        } else {
            ps
        };
        let re = match find_from(body, ps2, marker.as_slice()) {
            Some(re) => re,
            None => {
                break;
            },
        };
        proof {
            crate::multipart::lemma_find_spec_range(body@.skip(ps2 as int), m);
        }
        let end = ps2 + re;
        let mut part = slice_bytes(body, ps2, end);
        let pl = part.len();
        if pl >= 2 && part[pl - 2] == 13u8 && part[pl - 1] == 10u8 {
            let ghost full = part@;
            part.truncate(pl - 2);
            assert(full.subrange(full.len() - 2, full.len() as int) =~= crlf());
            assert(part@ =~= strip_crlf(full));
        } else {
            let ghost full = part@;
            assert(full.len() >= 2 ==> full.subrange(full.len() - 2, full.len() as int) != crlf()) by {
                if full.len() >= 2 && full.subrange(full.len() - 2, full.len() as int) == crlf() {
                    assert(full.subrange(full.len() - 2, full.len() as int)[0] == full[full.len() - 2]);
                    assert(full.subrange(full.len() - 2, full.len() as int)[1] == full[full.len() - 1]);
                }
            }
            assert(part@ == strip_crlf(full));
        }
        let ghost old_done = done;
        proof {
            done = done.push(part@);
            assert(done.drop_last() =~= old_done);
            assert(done.last() == part@);
            assert(parts_from(body@, m, cursor as int) == seq![part@] + parts_from(body@, m, end as int));
            assert(old_done + (seq![part@] + parts_from(body@, m, end as int)) =~= done + parts_from(body@, m, end as int));
        }
        match part_field_exec(&part) {
            Some((is_file, name, value)) => {
                let ghost entry = (name@, value@);
                proof {
                    let ef = field_entries(old_done, is_file);
                    assert(field_entries(done, is_file) == ef.push(entry));
                    assert(ef.push(entry).drop_last() =~= ef);
                    assert(ef.push(entry).last() == entry);
                    assert(field_entries(done, !is_file) == field_entries(old_done, !is_file));
                }
                if is_file {
                    group_push(&mut files, name, value);
                } else {
                    group_push(&mut form, name, value);
                }
            },
            None => {
                assert(field_entries(done, true) == field_entries(old_done, true));
                assert(field_entries(done, false) == field_entries(old_done, false));
            },
        }
        cursor = end;
    }
    assert(done + Seq::<Seq<u8>>::empty() =~= done);
    (form, files)
}

/// The boundary read from a content type is never quoted: it is not empty and
/// neither begins nor ends with `"`.
pub proof fn law_boundary_is_unquoted(content_type: Seq<char>)
    ensures
        boundary_of(content_type) matches Some(b) ==> b.len() > 0 && b[0] != '"' && b.last() != '"',
{
    match first_boundary(split(content_type, ';').drop_first()) {
        Some(b) => crate::text::lemma_strip_char_ends(b, '"'),
        None => {},
    }
}

proof fn lemma_boundary_piece(t: Seq<char>, value: Seq<char>)
    requires
        !t.contains(';'),
        !value.contains(';'),
        value.len() > 0,
        !crate::text::is_ws(value.last()),
    ensures
        first_boundary(split(t + "; boundary="@ + value, ';').drop_first()) == Some(value),
{
    reveal_strlit("; boundary=");
    reveal_strlit(" boundary=");
    reveal_strlit("boundary=");
    let p = " boundary="@ + value;
    let ct = t + "; boundary="@ + value;
    assert(ct =~= t + seq![';'] + p);
    crate::text::lemma_split_concat(t, p, ';');
    crate::text::lemma_split_without(t, ';');
    assert(!p.contains(';')) by {
        if p.contains(';') {
            let i = choose|i: int| 0 <= i < p.len() && p[i] == ';';
            if i >= 10 {
                assert(p[i] == value[i - 10]);
            }
        }
    }
    crate::text::lemma_split_without(p, ';');
    assert((seq![t] + seq![p]).drop_first() =~= seq![p]);
    crate::text::lemma_trim_lo_char(p, 1);
    assert(p.last() == value.last());
    crate::text::lemma_trim_hi_char(p, p.len() as int);
    let tp = p.subrange(1, p.len() as int);
    assert(trim(p) == tp);
    assert(tp.take(9) =~= "boundary="@);
    assert(tp.skip(9) =~= value);
    assert(seq![p].drop_first() =~= Seq::<Seq<char>>::empty());
}

/// A quoted `boundary="B"` parameter gives the same boundary `B` as the
/// unquoted `boundary=B`, for a boundary without quotes, semicolons or
/// trailing whitespace after a media type without semicolons.
pub proof fn law_quoted_boundary_same_as_unquoted(t: Seq<char>, b: Seq<char>)
    requires
        !t.contains(';'),
        b.len() > 0,
        !b.contains(';'),
        !b.contains('"'),
        !crate::text::is_ws(b.last()),
    ensures
        boundary_of(t + "; boundary=\""@ + b + "\""@) == Some(b),
        boundary_of(t + "; boundary="@ + b) == Some(b),
{
    reveal_strlit("; boundary=\"");
    reveal_strlit("; boundary=");
    reveal_strlit("\"");
    assert(b[0] != '"' && b.last() != '"') by {
        assert(b[b.len() - 1] == b.last());
    }
    let quoted = seq!['"'] + b + seq!['"'];
    assert(!quoted.contains(';')) by {
        if quoted.contains(';') {
            let i = choose|i: int| 0 <= i < quoted.len() && quoted[i] == ';';
            if 0 < i < quoted.len() - 1 {
                assert(quoted[i] == b[i - 1]);
            }
        }
    }
    assert(t + "; boundary=\""@ + b + "\""@ =~= t + "; boundary="@ + quoted);
    lemma_boundary_piece(t, quoted);
    lemma_boundary_piece(t, b);
    crate::text::lemma_strip_char_wrapped(b, '"');
}

} // verus!
