//! Character-level text operations used by the symbol filters.
//!
//! Names, paths and source lines are modelled by their character sequences
//! (`Seq<char>`, the view of `str` and `String`).
use vstd::prelude::*;
use vstd::utf8::*;
use vstd::string::StringSliceAdditionalSpecFns;

verus! {

broadcast use vstd::seq_lib::group_seq_properties;

// ---------------------------------------------------------------------------
// Specifications
// ---------------------------------------------------------------------------

/// `p` occurs in `s` starting at index `i`.
pub open spec fn occurs_at(s: Seq<char>, p: Seq<char>, i: int) -> bool {
    0 <= i && i + p.len() <= s.len() && s.subrange(i, i + p.len()) == p
}

/// `s` starts with `p`.
pub open spec fn has_prefix(s: Seq<char>, p: Seq<char>) -> bool {
    occurs_at(s, p, 0)
}

/// `s` ends with `p`.
pub open spec fn has_suffix(s: Seq<char>, p: Seq<char>) -> bool {
    occurs_at(s, p, s.len() - p.len())
}

/// `p` occurs somewhere in `s`.
pub open spec fn has_infix(s: Seq<char>, p: Seq<char>) -> bool {
    exists|i: int| occurs_at(s, p, i)
}

/// The first index at or after `from` where `p` occurs in `s`, or -1.
pub open spec fn first_occurrence_from(s: Seq<char>, p: Seq<char>, from: int) -> int
    decreases s.len() + 1 - from,
{
    if from < 0 || from + p.len() > s.len() {
        -1
    } else if occurs_at(s, p, from) {
        from
    } else {
        first_occurrence_from(s, p, from + 1)
    }
}

/// The first index where `p` occurs in `s`, or -1.
pub open spec fn first_occurrence(s: Seq<char>, p: Seq<char>) -> int {
    first_occurrence_from(s, p, 0)
}

/// The last index strictly below `before` where `p` occurs in `s`, or -1.
pub open spec fn last_occurrence_before(s: Seq<char>, p: Seq<char>, before: int) -> int
    decreases before,
{
    if before <= 0 {
        -1
    } else if occurs_at(s, p, before - 1) {
        before - 1
    } else {
        last_occurrence_before(s, p, before - 1)
    }
}

/// The last index where `p` occurs in `s`, or -1.
pub open spec fn last_occurrence(s: Seq<char>, p: Seq<char>) -> int {
    last_occurrence_before(s, p, s.len() + 1int)
}

/// The part of `s` after the last occurrence of `sep`, or all of `s` when `sep`
/// does not occur (the first item of `s.rsplit(sep)`).
pub open spec fn after_last(s: Seq<char>, sep: Seq<char>) -> Seq<char> {
    let i = last_occurrence(s, sep);
    if i < 0 {
        s
    } else {
        s.subrange(i + sep.len(), s.len() as int)
    }
}

/// `s` without its leading run of `c`.
pub open spec fn strip_leading(s: Seq<char>, c: char) -> Seq<char>
    decreases s.len(),
{
    if s.len() > 0 && s[0] == c {
        strip_leading(s.drop_first(), c)
    } else {
        s
    }
}

/// `s` without its trailing run of `c`.
pub open spec fn strip_trailing(s: Seq<char>, c: char) -> Seq<char>
    decreases s.len(),
{
    if s.len() > 0 && s.last() == c {
        strip_trailing(s.drop_last(), c)
    } else {
        s
    }
}

/// `s` without its leading and trailing runs of `c` (`str::trim_matches`).
pub open spec fn trim_char(s: Seq<char>, c: char) -> Seq<char> {
    strip_trailing(strip_leading(s, c), c)
}

/// The line with index `row` of `s`, as `str::lines` yields it (without the
/// line break; a `'\r'` right before the `'\n'` is dropped too), or the empty
/// sequence when `s` has fewer lines.
pub open spec fn nth_line(s: Seq<char>, row: nat) -> Seq<char>
    decreases s.len(),
{
    let k = first_occurrence(s, seq!['\n']);
    if k < 0 {
        if row == 0 {
            s
        } else {
            Seq::empty()
        }
    } else if row == 0 {
        let line = s.subrange(0, k);
        if line.len() > 0 && line.last() == '\r' {
            line.drop_last()
        } else {
            line
        }
    } else if k < s.len() {
        nth_line(s.subrange(k + 1, s.len() as int), (row - 1) as nat)
    } else {
        Seq::empty()
    }
}

/// The text of the byte range `[start, end)` of `bytes`: its decoding when both
/// ends fall on character boundaries, else the empty sequence.
pub open spec fn byte_range_text(bytes: Seq<u8>, start: int, end: int) -> Seq<char> {
    if start <= end && is_char_boundary(bytes, start) && is_char_boundary(bytes, end) {
        decode_utf8(bytes.subrange(start, end))
    } else {
        Seq::empty()
    }
}

/// Lexicographic order of character sequences by scalar value; this is the
/// order of `str` comparison.
pub open spec fn seq_less(a: Seq<char>, b: Seq<char>) -> bool
    decreases a.len(),
{
    if a.len() == 0 {
        b.len() > 0
    } else if b.len() == 0 {
        false
    } else if a[0] != b[0] {
        (a[0] as u32) < (b[0] as u32)
    } else {
        seq_less(a.drop_first(), b.drop_first())
    }
}

// ---------------------------------------------------------------------------
// Character classes (Unicode properties, from the standard library)
// ---------------------------------------------------------------------------

/// Whether `char::is_alphabetic` holds of `c` (the Unicode `Alphabetic` property).
pub uninterp spec fn unicode_alphabetic(c: char) -> bool;

/// Whether `char::is_alphanumeric` holds of `c`.
pub uninterp spec fn unicode_alphanumeric(c: char) -> bool;

/// Whether `char::is_uppercase` holds of `c` (the Unicode `Uppercase` property).
pub uninterp spec fn unicode_uppercase(c: char) -> bool;

/// Calls `char::is_alphabetic`; the result is named `unicode_alphabetic`, a
/// function of the character alone. On ASCII it holds of the letters only.
#[verifier::external_body]
pub(crate) fn is_alphabetic(c: char) -> (r: bool)
    ensures
        r == unicode_alphabetic(c),
        (c as u32) < 128 ==> (r == (('a' <= c && c <= 'z') || ('A' <= c && c <= 'Z'))),
{
    c.is_alphabetic()
}

/// Calls `char::is_alphanumeric`; the result is named `unicode_alphanumeric`,
/// a function of the character alone. On ASCII it holds of the letters and
/// digits only.
#[verifier::external_body]
pub(crate) fn is_alphanumeric(c: char) -> (r: bool)
    ensures
        r == unicode_alphanumeric(c),
        (c as u32) < 128 ==> (r == (('a' <= c && c <= 'z') || ('A' <= c && c <= 'Z') || ('0' <= c
            && c <= '9'))),
{
    c.is_alphanumeric()
}

/// Calls `char::is_uppercase`; the result is named `unicode_uppercase`, a
/// function of the character alone. On ASCII it holds of `A` to `Z` only.
#[verifier::external_body]
pub(crate) fn is_uppercase(c: char) -> (r: bool)
    ensures
        r == unicode_uppercase(c),
        (c as u32) < 128 ==> (r == ('A' <= c && c <= 'Z')),
{
    c.is_uppercase()
}

/// Collects characters into a `String` (`FromIterator<&char>` for `String`,
/// which appends the characters in order).
#[verifier::external_body]
pub(crate) fn string_from_chars(chars: &[char]) -> (s: String)
    ensures
        s@ == chars@,
{
    chars.iter().collect()
}

// ---------------------------------------------------------------------------
// Lemmas
// ---------------------------------------------------------------------------

pub proof fn lemma_first_occurrence_from(s: Seq<char>, p: Seq<char>, from: int)
    requires
        0 <= from,
    ensures
        ({
            let r = first_occurrence_from(s, p, from);
            &&& r == -1 || (from <= r && occurs_at(s, p, r))
            &&& forall|j: int| from <= j && (r == -1 || j < r) ==> !occurs_at(s, p, j)
        }),
    decreases s.len() + 1 - from,
{
    if from + p.len() > s.len() {
    } else if occurs_at(s, p, from) {
    } else {
        lemma_first_occurrence_from(s, p, from + 1);
    }
}

pub proof fn lemma_first_occurrence(s: Seq<char>, p: Seq<char>)
    ensures
        ({
            let r = first_occurrence(s, p);
            &&& r == -1 || (0 <= r && occurs_at(s, p, r))
            &&& forall|j: int| 0 <= j && (r == -1 || j < r) ==> !occurs_at(s, p, j)
            &&& has_infix(s, p) <==> r >= 0
        }),
{
    lemma_first_occurrence_from(s, p, 0);
}

pub proof fn lemma_last_occurrence_before(s: Seq<char>, p: Seq<char>, before: int)
    ensures
        ({
            let r = last_occurrence_before(s, p, before);
            &&& r == -1 || (0 <= r < before && occurs_at(s, p, r))
            &&& forall|j: int| 0 <= j < before && r < j ==> !occurs_at(s, p, j)
        }),
    decreases before,
{
    if before <= 0 {
    } else if occurs_at(s, p, before - 1) {
    } else {
        lemma_last_occurrence_before(s, p, before - 1);
    }
}

/// A character boundary at or after another one stays a boundary of the suffix
/// that starts at the first.
pub proof fn lemma_boundary_in_suffix(bytes: Seq<u8>, start: int, end: int)
    requires
        valid_utf8(bytes),
        start <= end,
        is_char_boundary(bytes, start),
        is_char_boundary(bytes, end),
    ensures
        is_char_boundary(bytes.subrange(start, bytes.len() as int), end - start),
{
    broadcast use valid_utf8_split, is_char_boundary_start_end_of_seq,
        is_char_boundary_iff_not_is_continuation_byte;

    let tail = bytes.subrange(start, bytes.len() as int);
    valid_utf8_split(bytes, start);
    assert(valid_utf8(tail));
    assert(0 <= start <= bytes.len()) by {
        reveal_with_fuel(is_char_boundary, 1);
    }
    assert(end <= bytes.len()) by {
        reveal_with_fuel(is_char_boundary, 1);
    }
    let m = end - start;
    if m == 0 {
    } else if m == tail.len() {
        is_char_boundary_start_end_of_seq(tail);
    } else {
        assert(tail[m] == bytes[end]);
        is_char_boundary_iff_not_is_continuation_byte(bytes, end);
        is_char_boundary_iff_not_is_continuation_byte(tail, m);
    }
}

// ---------------------------------------------------------------------------
// Executable operations
// ---------------------------------------------------------------------------

/// The characters of `s`, in order.
pub fn chars_of(s: &str) -> (v: Vec<char>)
    ensures
        v@ == s@,
{
    let mut v: Vec<char> = Vec::new();
    for c in it: s.chars()
        invariant
            v@ == it.history@,
    {
        v.push(c);
    }
    v
}

/// Whether `p` occurs in `s` at index `i`.
pub fn occurs_at_exec(s: &[char], p: &[char], i: usize) -> (r: bool)
    ensures
        r == occurs_at(s@, p@, i as int),
{
    if i > s.len() || p.len() > s.len() - i {
        return false;
    }
    let mut j: usize = 0;
    while j < p.len()
        invariant
            j <= p.len(),
            i + p.len() <= s.len(),
            forall|k: int| 0 <= k < j ==> s@[i + k] == p@[k],
        decreases p.len() - j,
    {
        if s[i + j] != p[j] {
            assert(s@.subrange(i as int, i + p.len())[j as int] != p@[j as int]);
            return false;
        }
        j = j + 1;
    }
    assert(s@.subrange(i as int, i + p.len()) =~= p@);
    true
}

/// The first index at or after `from` where `p` occurs in `s`.
pub fn find_from(s: &[char], p: &[char], from: usize) -> (r: Option<usize>)
    ensures
        match r {
            Some(i) => i as int == first_occurrence_from(s@, p@, from as int),
            None => first_occurrence_from(s@, p@, from as int) == -1,
        },
{
    if p.len() == 0 {
        if from <= s.len() {
            assert(s@.subrange(from as int, from as int) =~= p@);
            return Some(from);
        } else {
            return None;
        }
    }
    let mut i = from;
    while i < s.len() && p.len() <= s.len() - i
        invariant
            from <= i,
            p.len() > 0,
            first_occurrence_from(s@, p@, from as int) == first_occurrence_from(s@, p@, i as int),
        decreases s.len() - i,
    {
        if occurs_at_exec(s, p, i) {
            return Some(i);
        }
        i = i + 1;
    }
    None
}

/// The last index where `p` occurs in `s`.
pub fn find_last(s: &[char], p: &[char]) -> (r: Option<usize>)
    ensures
        match r {
            Some(i) => i as int == last_occurrence(s@, p@),
            None => last_occurrence(s@, p@) == -1,
        },
{
    if p.len() == 0 {
        assert(s@.subrange(s@.len() as int, s@.len() as int) =~= p@);
        return Some(s.len());
    }
    let mut i: usize = s.len();
    assert(last_occurrence_before(s@, p@, i as int) == last_occurrence(s@, p@));
    while i > 0
        invariant
            i <= s.len() + 1,
            last_occurrence_before(s@, p@, i as int) == last_occurrence(s@, p@),
        decreases i,
    {
        if occurs_at_exec(s, p, i - 1) {
            return Some(i - 1);
        }
        i = i - 1;
    }
    None
}

/// Whether `s` starts with `p`.
pub fn str_starts_with(s: &str, p: &str) -> (r: bool)
    ensures
        r == has_prefix(s@, p@),
{
    let sv = chars_of(s);
    let pv = chars_of(p);
    occurs_at_exec(sv.as_slice(), pv.as_slice(), 0)
}

/// Whether `s` ends with `p`.
pub fn str_ends_with(s: &str, p: &str) -> (r: bool)
    ensures
        r == has_suffix(s@, p@),
{
    let sv = chars_of(s);
    let pv = chars_of(p);
    if pv.len() > sv.len() {
        return false;
    }
    occurs_at_exec(sv.as_slice(), pv.as_slice(), sv.len() - pv.len())
}

/// Whether `p` occurs in `s`.
pub fn str_contains(s: &str, p: &str) -> (r: bool)
    ensures
        r == has_infix(s@, p@),
{
    let sv = chars_of(s);
    let pv = chars_of(p);
    proof {
        lemma_first_occurrence(s@, p@);
    }
    find_from(sv.as_slice(), pv.as_slice(), 0).is_some()
}

/// Whether `a` and `b` hold the same characters.
pub fn str_equals(a: &str, b: &str) -> (r: bool)
    ensures
        r == (a@ == b@),
{
    let av = chars_of(a);
    let bv = chars_of(b);
    if av.len() != bv.len() {
        return false;
    }
    assert(av@.subrange(0, bv@.len() as int) =~= av@);
    occurs_at_exec(av.as_slice(), bv.as_slice(), 0)
}

/// The part of `s` after the last occurrence of `sep` (all of `s` when `sep`
/// does not occur).
pub fn str_after_last(s: &str, sep: &str) -> (r: String)
    ensures
        r@ == after_last(s@, sep@),
{
    let sv = chars_of(s);
    let pv = chars_of(sep);
    match find_last(sv.as_slice(), pv.as_slice()) {
        None => string_from_chars(sv.as_slice()),
        Some(i) => {
            proof {
                lemma_last_occurrence_before(s@, sep@, s@.len() + 1int);
                assert(last_occurrence(s@, sep@) == i as int);
                assert(occurs_at(s@, sep@, i as int));
            }
            let total = sv.len();
            let mut rest: Vec<char> = Vec::new();
            let mut j = i + pv.len();
            while j < sv.len()
                invariant
                    i + pv.len() <= j <= sv.len(),
                    sv@ == s@,
                    rest@ == s@.subrange(i + pv.len(), j as int),
                decreases sv.len() - j,
            {
                rest.push(sv[j]);
                j = j + 1;
                assert(rest@ =~= s@.subrange(i + pv.len(), j as int));
            }
            string_from_chars(rest.as_slice())
        },
    }
}

/// `s` without its leading run of `c` (`str::trim_start_matches`).
pub fn chars_strip_leading(s: &[char], c: char) -> (r: Vec<char>)
    ensures
        r@ == strip_leading(s@, c),
{
    let mut i: usize = 0;
    assert(s@.subrange(0, s@.len() as int) =~= s@);
    while i < s.len() && s[i] == c
        invariant
            i <= s.len(),
            strip_leading(s@.subrange(i as int, s@.len() as int), c) == strip_leading(s@, c),
        decreases s.len() - i,
    {
        assert(s@.subrange(i as int, s@.len() as int).drop_first() =~= s@.subrange(
            i + 1,
            s@.len() as int,
        ));
        i = i + 1;
    }
    let mut r: Vec<char> = Vec::new();
    let mut j = i;
    while j < s.len()
        invariant
            i <= j <= s.len(),
            r@ == s@.subrange(i as int, j as int),
        decreases s.len() - j,
    {
        r.push(s[j]);
        j = j + 1;
        assert(r@ =~= s@.subrange(i as int, j as int));
    }
    r
}

/// `s` without its trailing run of `c`.
pub fn chars_strip_trailing(s: &[char], c: char) -> (r: Vec<char>)
    ensures
        r@ == strip_trailing(s@, c),
{
    let mut n: usize = s.len();
    assert(s@.subrange(0, n as int) =~= s@);
    while n > 0 && s[n - 1] == c
        invariant
            n <= s.len(),
            strip_trailing(s@.subrange(0, n as int), c) == strip_trailing(s@, c),
        decreases n,
    {
        assert(s@.subrange(0, n as int).drop_last() =~= s@.subrange(0, n - 1));
        n = n - 1;
    }
    let mut r: Vec<char> = Vec::new();
    let mut j: usize = 0;
    while j < n
        invariant
            j <= n <= s.len(),
            r@ == s@.subrange(0, j as int),
        decreases n - j,
    {
        r.push(s[j]);
        j = j + 1;
        assert(r@ =~= s@.subrange(0, j as int));
    }
    r
}

/// The line with index `row` of `s`, as `str::lines` yields it (empty when `s`
/// has fewer lines).
pub fn line_at(s: &[char], row: usize) -> (r: Vec<char>)
    ensures
        r@ == nth_line(s@, row as nat),
{
    let newline: [char; 1] = ['\n'];
    let nl = newline.as_slice();
    assert(nl@ == seq!['\n']);
    let mut start: usize = 0;
    let mut remaining: usize = row;
    assert(s@.subrange(0, s@.len() as int) =~= s@);
    loop
        invariant
            start <= s.len(),
            remaining <= row,
            nl@ == seq!['\n'],
            nth_line(s@.subrange(start as int, s@.len() as int), remaining as nat) == nth_line(
                s@,
                row as nat,
            ),
        decreases s.len() - start,
    {
        let ghost rest = s@.subrange(start as int, s@.len() as int);
        match find_from(s, nl, start) {
            None => {
                proof {
                    lemma_first_occurrence_from(s@, nl@, start as int);
                    lemma_first_occurrence(rest, nl@);
                    assert forall|j: int| 0 <= j implies !occurs_at(rest, nl@, j) by {
                        if occurs_at(rest, nl@, j) {
                            assert(rest.subrange(j, j + 1) =~= s@.subrange(start + j, start + j + 1));
                            assert(occurs_at(s@, nl@, start + j));
                        }
                    }
                }
                if remaining == 0 {
                    let mut r: Vec<char> = Vec::new();
                    let mut j = start;
                    while j < s.len()
                        invariant
                            start <= j <= s.len(),
                            r@ == s@.subrange(start as int, j as int),
                        decreases s.len() - j,
                    {
                        r.push(s[j]);
                        j = j + 1;
                        assert(r@ =~= s@.subrange(start as int, j as int));
                    }
                    return r;
                } else {
                    return Vec::new();
                }
            },
            Some(k) => {
                proof {
                    lemma_first_occurrence_from(s@, nl@, start as int);
                    lemma_first_occurrence(rest, nl@);
                    let kk = k - start;
                    assert(rest.subrange(kk, kk + 1) =~= s@.subrange(k as int, k + 1));
                    assert forall|j: int| 0 <= j < kk implies !occurs_at(rest, nl@, j) by {
                        if occurs_at(rest, nl@, j) {
                            assert(rest.subrange(j, j + 1) =~= s@.subrange(start + j, start + j + 1));
                            assert(occurs_at(s@, nl@, start + j));
                        }
                    }
                    assert(occurs_at(rest, nl@, kk));
                    assert(first_occurrence(rest, nl@) == kk);
                    assert(rest.subrange(kk + 1, rest.len() as int) =~= s@.subrange(
                        k + 1,
                        s@.len() as int,
                    ));
                }
                if remaining == 0 {
                    let mut end = k;
                    if end > start && s[end - 1] == '\r' {
                        end = end - 1;
                    }
                    let mut r: Vec<char> = Vec::new();
                    let mut j = start;
                    while j < end
                        invariant
                            start <= j <= end <= s.len(),
                            r@ == s@.subrange(start as int, j as int),
                        decreases end - j,
                    {
                        r.push(s[j]);
                        j = j + 1;
                        assert(r@ =~= s@.subrange(start as int, j as int));
                    }
                    proof {
                        let line = rest.subrange(0, k - start);
                        if line.len() > 0 && line.last() == '\r' {
                            assert(r@ =~= line.drop_last());
                        } else {
                            assert(r@ =~= line);
                        }
                    }
                    return r;
                }
                start = k + 1;
                remaining = remaining - 1;
            },
        }
    }
}

/// Whether `a` precedes `b` in lexicographic order (the order of `str`).
pub fn chars_less(a: &[char], b: &[char]) -> (r: bool)
    ensures
        r == seq_less(a@, b@),
{
    let mut i: usize = 0;
    assert(a@.subrange(0, a@.len() as int) =~= a@);
    assert(b@.subrange(0, b@.len() as int) =~= b@);
    while i < a.len() && i < b.len() && a[i] == b[i]
        invariant
            i <= a.len(),
            i <= b.len(),
            seq_less(a@.subrange(i as int, a@.len() as int), b@.subrange(i as int, b@.len() as int))
                == seq_less(a@, b@),
        decreases a.len() - i,
    {
        assert(a@.subrange(i as int, a@.len() as int).drop_first() =~= a@.subrange(
            i + 1,
            a@.len() as int,
        ));
        assert(b@.subrange(i as int, b@.len() as int).drop_first() =~= b@.subrange(
            i + 1,
            b@.len() as int,
        ));
        i = i + 1;
    }
    if i == a.len() {
        i < b.len()
    } else if i == b.len() {
        false
    } else {
        (a[i] as u32) < (b[i] as u32)
    }
}

/// The text of the byte range `[start, end)` of `source`, or the empty string
/// when the range does not fall on character boundaries.
pub fn byte_range_string(source: &str, start: usize, end: usize) -> (r: String)
    ensures
        r@ == byte_range_text(source.spec_bytes(), start as int, end as int),
{
    proof {
        broadcast use encode_utf8_valid_utf8;
    }
    if start <= end && source.is_char_boundary(start) && source.is_char_boundary(end) {
        let (_, tail) = source.split_at(start);
        proof {
            lemma_boundary_in_suffix(source.spec_bytes(), start as int, end as int);
        }
        let (mid, _) = tail.split_at(end - start);
        let r = mid.to_owned();
        proof {
            broadcast use encode_utf8_decode_utf8;

            assert(mid.spec_bytes() =~= source.spec_bytes().subrange(start as int, end as int));
        }
        r
    } else {
        String::new()
    }
}

} // verus!
