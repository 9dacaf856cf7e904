//! Character-level text model and the verified string operations the parsers use.
//!
//! Every parser in this crate works on the characters of its input (`&str` viewed as
//! `Seq<char>`). The spec functions here state what the corresponding `str` methods of
//! the standard library compute, and the executable functions compute exactly that.

use vstd::prelude::*;
use vstd::std_specs::iter::IteratorSpec;

verus! {

// ---------------------------------------------------------------------------
// Conversions
// ---------------------------------------------------------------------------

/// The characters of `s`, in order.
pub fn chars_of(s: &str) -> (res: Vec<char>)
    ensures
        res@ == s@,
{
    let mut res: Vec<char> = Vec::new();
    let it = s.chars();
    for c in iter: it
        invariant
            res@ == iter.seq().take(iter.index() as int),
            iter.seq() == s@,
    {
        res.push(c);
    }
    res
}

/// `FromIterator<&char> for String`: the string made of the given characters.
#[verifier::external_body]
pub(crate) fn string_from_chars(cs: &[char]) -> (res: String)
    ensures
        res@ == cs@,
{
    String::from_iter(cs.iter())
}

/// The characters `s[from..to]`, as a new vector.
pub fn copy_range(s: &[char], from: usize, to: usize) -> (res: Vec<char>)
    requires
        from <= to <= s@.len(),
    ensures
        res@ == s@.subrange(from as int, to as int),
{
    let mut res: Vec<char> = Vec::new();
    let mut i = from;
    while i < to
        invariant
            from <= i <= to <= s@.len(),
            res@ == s@.subrange(from as int, i as int),
        decreases to - i,
    {
        res.push(s[i]);
        i += 1;
    }
    res
}

/// The string `s[from..to]`.
pub fn string_of_range(s: &[char], from: usize, to: usize) -> (res: String)
    requires
        from <= to <= s@.len(),
    ensures
        res@ == s@.subrange(from as int, to as int),
{
    let v = copy_range(s, from, to);
    string_from_chars(v.as_slice())
}

// ---------------------------------------------------------------------------
// Characters
// ---------------------------------------------------------------------------

/// `char::is_whitespace`: the Unicode `White_Space` property.
pub open spec fn is_ws(c: char) -> bool {
    ||| ('\u{9}' <= c <= '\u{d}')
    ||| c == ' '
    ||| c == '\u{85}'
    ||| c == '\u{a0}'
    ||| c == '\u{1680}'
    ||| ('\u{2000}' <= c <= '\u{200a}')
    ||| c == '\u{2028}'
    ||| c == '\u{2029}'
    ||| c == '\u{202f}'
    ||| c == '\u{205f}'
    ||| c == '\u{3000}'
}

pub fn is_whitespace(c: char) -> (b: bool)
    ensures
        b == is_ws(c),
{
    ('\u{9}' <= c && c <= '\u{d}') || c == ' ' || c == '\u{85}' || c == '\u{a0}' || c
        == '\u{1680}' || ('\u{2000}' <= c && c <= '\u{200a}') || c == '\u{2028}' || c
        == '\u{2029}' || c == '\u{202f}' || c == '\u{205f}' || c == '\u{3000}'
}

pub open spec fn is_digit(c: char) -> bool {
    '0' <= c <= '9'
}

pub open spec fn all_digits(s: Seq<char>) -> bool {
    forall|i: int| 0 <= i < s.len() ==> is_digit(#[trigger] s[i])
}

// ---------------------------------------------------------------------------
// Trimming
// ---------------------------------------------------------------------------

/// `str::trim_start`.
pub open spec fn trim_start(s: Seq<char>) -> Seq<char>
    decreases s.len(),
{
    if s.len() > 0 && is_ws(s[0]) {
        trim_start(s.drop_first())
    } else {
        s
    }
}

/// `str::trim_end`.
pub open spec fn trim_end(s: Seq<char>) -> Seq<char>
    decreases s.len(),
{
    if s.len() > 0 && is_ws(s.last()) {
        trim_end(s.drop_last())
    } else {
        s
    }
}

/// `str::trim`.
pub open spec fn trim(s: Seq<char>) -> Seq<char> {
    trim_end(trim_start(s))
}

/// Index of the first character of `s[from..]` that is not whitespace (or `s.len()`).
pub open spec fn skip_ws_from(s: Seq<char>, from: int) -> int
    decreases s.len() - from,
{
    if 0 <= from < s.len() && is_ws(s[from]) {
        skip_ws_from(s, from + 1)
    } else {
        from
    }
}

pub proof fn lemma_skip_ws_from(s: Seq<char>, from: int)
    requires
        0 <= from <= s.len(),
    ensures
        from <= skip_ws_from(s, from) <= s.len(),
        trim_start(s.subrange(from, s.len() as int)) == s.subrange(
            skip_ws_from(s, from),
            s.len() as int,
        ),
        forall|k: int| from <= k < skip_ws_from(s, from) ==> is_ws(#[trigger] s[k]),
        skip_ws_from(s, from) < s.len() ==> !is_ws(s[skip_ws_from(s, from)]),
    decreases s.len() - from,
{
    let t = s.subrange(from, s.len() as int);
    if from < s.len() && is_ws(s[from]) {
        lemma_skip_ws_from(s, from + 1);
        assert(t.drop_first() =~= s.subrange(from + 1, s.len() as int));
    }
}

/// Start index of `trim_start(s[from..to])`.
pub fn skip_ws(s: &[char], from: usize, to: usize) -> (res: usize)
    requires
        from <= to <= s@.len(),
    ensures
        from <= res <= to,
        trim_start(s@.subrange(from as int, to as int)) == s@.subrange(res as int, to as int),
{
    let mut i = from;
    while i < to && is_whitespace(s[i])
        invariant
            from <= i <= to <= s@.len(),
            trim_start(s@.subrange(from as int, to as int)) == trim_start(
                s@.subrange(i as int, to as int),
            ),
        decreases to - i,
    {
        assert(s@.subrange(i as int, to as int).drop_first() =~= s@.subrange(
            i + 1,
            to as int,
        ));
        i += 1;
    }
    i
}

/// End index of `trim_end(s[from..to])`.
pub fn skip_ws_back(s: &[char], from: usize, to: usize) -> (res: usize)
    requires
        from <= to <= s@.len(),
    ensures
        from <= res <= to,
        trim_end(s@.subrange(from as int, to as int)) == s@.subrange(from as int, res as int),
{
    let mut j = to;
    while j > from && is_whitespace(s[j - 1])
        invariant
            from <= j <= to <= s@.len(),
            trim_end(s@.subrange(from as int, to as int)) == trim_end(
                s@.subrange(from as int, j as int),
            ),
        decreases j - from,
    {
        assert(s@.subrange(from as int, j as int).drop_last() =~= s@.subrange(
            from as int,
            j - 1,
        ));
        j -= 1;
    }
    j
}

/// Bounds of `trim(s[from..to])`.
pub fn trim_range(s: &[char], from: usize, to: usize) -> (res: (usize, usize))
    requires
        from <= to <= s@.len(),
    ensures
        from <= res.0 <= res.1 <= to,
        trim(s@.subrange(from as int, to as int)) == s@.subrange(res.0 as int, res.1 as int),
{
    let a = skip_ws(s, from, to);
    let b = skip_ws_back(s, a, to);
    (a, b)
}

// ---------------------------------------------------------------------------
// Searching
// ---------------------------------------------------------------------------

/// `needle` occurs in `s` starting at index `i`.
pub open spec fn occurs_at(s: Seq<char>, needle: Seq<char>, i: int) -> bool {
    0 <= i && i + needle.len() <= s.len() && s.subrange(i, i + needle.len()) == needle
}

/// The first occurrence of `needle` in `s` at or after `i`.
pub open spec fn find_from(s: Seq<char>, needle: Seq<char>, i: int) -> Option<int>
    decreases s.len() + 1 - i,
{
    if i < 0 || i + needle.len() > s.len() {
        None
    } else if occurs_at(s, needle, i) {
        Some(i)
    } else {
        find_from(s, needle, i + 1)
    }
}

/// `str::find` (in characters rather than bytes).
pub open spec fn find(s: Seq<char>, needle: Seq<char>) -> Option<int> {
    find_from(s, needle, 0)
}

/// `str::contains`.
pub open spec fn contains(s: Seq<char>, needle: Seq<char>) -> bool {
    find(s, needle) is Some
}

/// The last occurrence of `needle` in `s` starting at or before `i`.
pub open spec fn rfind_upto(s: Seq<char>, needle: Seq<char>, i: int) -> Option<int>
    decreases i + 1,
{
    if i < 0 {
        None
    } else if occurs_at(s, needle, i) {
        Some(i)
    } else {
        rfind_upto(s, needle, i - 1)
    }
}

/// `str::rfind` (in characters rather than bytes).
pub open spec fn rfind(s: Seq<char>, needle: Seq<char>) -> Option<int> {
    rfind_upto(s, needle, s.len() - needle.len())
}

pub proof fn lemma_find_from(s: Seq<char>, needle: Seq<char>, i: int)
    requires
        0 <= i,
    ensures
        find_from(s, needle, i) matches Some(k) ==> i <= k && occurs_at(s, needle, k) && forall|
            j: int,
        |
            i <= j < k ==> !occurs_at(s, needle, j),
        find_from(s, needle, i) is None ==> forall|j: int| i <= j ==> !occurs_at(s, needle, j),
    decreases s.len() + 1 - i,
{
    if i + needle.len() > s.len() {
    } else if occurs_at(s, needle, i) {
    } else {
        lemma_find_from(s, needle, i + 1);
    }
}

pub proof fn lemma_rfind_upto(s: Seq<char>, needle: Seq<char>, i: int)
    ensures
        rfind_upto(s, needle, i) matches Some(k) ==> 0 <= k <= i && occurs_at(s, needle, k)
            && forall|j: int| k < j <= i ==> !occurs_at(s, needle, j),
        rfind_upto(s, needle, i) is None ==> forall|j: int| 0 <= j <= i ==> !occurs_at(s, needle, j),
    decreases i + 1,
{
    if i >= 0 && !occurs_at(s, needle, i) {
        lemma_rfind_upto(s, needle, i - 1);
    }
}

/// An occurrence inside the window `s[st..e]` is an occurrence in `s` that fits in the
/// window.
pub proof fn lemma_occurs_in_window(s: Seq<char>, needle: Seq<char>, st: int, e: int, j: int)
    requires
        0 <= st <= e <= s.len(),
        0 <= j,
    ensures
        occurs_at(s.subrange(st, e), needle, j) == (j + needle.len() <= e - st && occurs_at(
            s,
            needle,
            st + j,
        )),
{
    if j + needle.len() <= e - st {
        assert(s.subrange(st, e).subrange(j, j + needle.len()) =~= s.subrange(
            st + j,
            st + j + needle.len(),
        ));
    }
}

/// The last occurrence in the window `s[st..e]` is the last occurrence in `s[..e]`,
/// when that one starts inside the window.
pub proof fn lemma_rfind_window(s: Seq<char>, needle: Seq<char>, st: int, e: int)
    requires
        0 <= st <= e <= s.len(),
    ensures
        rfind(s.subrange(st, e), needle) == (match rfind(s.subrange(0, e), needle) {
            Some(k) => if k >= st {
                Some(k - st)
            } else {
                None
            },
            None => None,
        }),
{
    let a = s.subrange(0, e);
    let b = s.subrange(st, e);
    lemma_rfind_upto(a, needle, a.len() - needle.len());
    lemma_rfind_upto(b, needle, b.len() - needle.len());
    assert forall|j: int| 0 <= j implies #[trigger] occurs_at(b, needle, j) == occurs_at(
        a,
        needle,
        st + j,
    ) by {
        lemma_occurs_in_window(s, needle, st, e, j);
        lemma_occurs_in_window(s, needle, 0, e, st + j);
    }
    match rfind(a, needle) {
        Some(k) => {
            if k >= st {
                assert(occurs_at(b, needle, k - st));
                match rfind(b, needle) {
                    Some(k2) => {
                        assert(occurs_at(a, needle, st + k2));
                    },
                    None => {},
                }
            } else {
                match rfind(b, needle) {
                    Some(k2) => {
                        assert(occurs_at(a, needle, st + k2));
                    },
                    None => {},
                }
            }
        },
        None => {
            match rfind(b, needle) {
                Some(k2) => {
                    assert(occurs_at(a, needle, st + k2));
                },
                None => {},
            }
        },
    }
}

/// Whether `needle` occurs in `s` at `i` (bounds checked).
pub fn matches_at(s: &[char], needle: &[char], i: usize) -> (b: bool)
    ensures
        b == occurs_at(s@, needle@, i as int),
{
    if i > s.len() || needle.len() > s.len() - i {
        return false;
    }
    let mut k: usize = 0;
    while k < needle.len()
        invariant
            i + needle@.len() <= s@.len(),
            s@.len() <= usize::MAX,
            k <= needle@.len(),
            forall|j: int| 0 <= j < k ==> s@[i + j] == needle@[j],
        decreases needle@.len() - k,
    {
        if s[i + k] != needle[k] {
            assert(s@.subrange(i as int, i + needle@.len())[k as int] != needle@[k as int]);
            return false;
        }
        k += 1;
    }
    assert(s@.subrange(i as int, i + needle@.len()) =~= needle@);
    true
}

/// First occurrence of `needle` in `s[from..]`.
pub fn find_chars_from(s: &[char], needle: &[char], from: usize) -> (res: Option<usize>)
    ensures
        res matches Some(k) ==> find_from(s@, needle@, from as int) == Some(k as int),
        res is None ==> find_from(s@, needle@, from as int) is None,
{
    let mut i = from;
    if needle.len() > s.len() {
        return None;
    }
    let last = s.len() - needle.len();
    loop
        invariant
            from <= i,
            last == s@.len() - needle@.len(),
            find_from(s@, needle@, from as int) == find_from(s@, needle@, i as int),
        decreases last + 1 - i,
    {
        if i > last {
            return None;
        }
        if matches_at(s, needle, i) {
            return Some(i);
        }
        if i == last {
            assert(find_from(s@, needle@, i + 1) is None);
            return None;
        }
        i += 1;
    }
}

/// `str::find` on characters.
pub fn find_chars(s: &[char], needle: &[char]) -> (res: Option<usize>)
    ensures
        res matches Some(k) ==> find(s@, needle@) == Some(k as int),
        res is None ==> find(s@, needle@) is None,
{
    find_chars_from(s, needle, 0)
}

/// `str::contains` on characters.
pub fn contains_chars(s: &[char], needle: &[char]) -> (b: bool)
    ensures
        b == contains(s@, needle@),
{
    find_chars(s, needle).is_some()
}

/// `str::rfind` on characters.
pub fn rfind_chars(s: &[char], needle: &[char]) -> (res: Option<usize>)
    ensures
        res matches Some(k) ==> rfind(s@, needle@) == Some(k as int),
        res is None ==> rfind(s@, needle@) is None,
{
    if needle.len() > s.len() {
        return None;
    }
    let mut i = s.len() - needle.len();
    loop
        invariant
            i <= s@.len() - needle@.len(),
            rfind(s@, needle@) == rfind_upto(s@, needle@, i as int),
        decreases i,
    {
        if matches_at(s, needle, i) {
            return Some(i);
        }
        if i == 0 {
            assert(rfind_upto(s@, needle@, -1) is None);
            return None;
        }
        i -= 1;
    }
}

/// `str::starts_with`.
pub open spec fn starts_with(s: Seq<char>, prefix: Seq<char>) -> bool {
    occurs_at(s, prefix, 0)
}

/// `str::ends_with`.
pub open spec fn ends_with(s: Seq<char>, suffix: Seq<char>) -> bool {
    occurs_at(s, suffix, s.len() - suffix.len())
}

pub fn starts_with_chars(s: &[char], prefix: &[char]) -> (b: bool)
    ensures
        b == starts_with(s@, prefix@),
{
    matches_at(s, prefix, 0)
}

pub fn ends_with_chars(s: &[char], suffix: &[char]) -> (b: bool)
    ensures
        b == ends_with(s@, suffix@),
{
    if suffix.len() > s.len() {
        return false;
    }
    matches_at(s, suffix, s.len() - suffix.len())
}


// ---------------------------------------------------------------------------
// Lines
// ---------------------------------------------------------------------------

/// Index of the first `'\n'` at or after `from`, or `s.len()`.
pub open spec fn line_end(s: Seq<char>, from: int) -> int
    decreases s.len() - from,
{
    if 0 <= from < s.len() && s[from] != '\n' {
        line_end(s, from + 1)
    } else {
        from
    }
}

pub proof fn lemma_line_end(s: Seq<char>, from: int)
    requires
        0 <= from <= s.len(),
    ensures
        from <= line_end(s, from) <= s.len(),
        line_end(s, from) < s.len() ==> s[line_end(s, from)] == '\n',
        forall|k: int| from <= k < line_end(s, from) ==> s[k] != '\n',
    decreases s.len() - from,
{
    if from < s.len() && s[from] != '\n' {
        lemma_line_end(s, from + 1);
    }
}

/// A line without the `'\r'` of a `"\r\n"` ending.
pub open spec fn strip_cr(l: Seq<char>) -> Seq<char> {
    if l.len() > 0 && l.last() == '\r' {
        l.drop_last()
    } else {
        l
    }
}

/// The lines of `s[from..]`, as `str::lines` yields them.
pub open spec fn lines_from(s: Seq<char>, from: int) -> Seq<Seq<char>>
    decreases s.len() - from,
{
    if from < 0 || from >= s.len() {
        seq![]
    } else {
        let e = line_end(s, from);
        proof {
            lemma_line_end(s, from);
        }
        if e < s.len() {
            seq![strip_cr(s.subrange(from, e))] + lines_from(s, e + 1)
        } else {
            seq![s.subrange(from, e)]
        }
    }
}

/// `str::lines`: split at `'\n'`, dropping a `'\r'` before it; a final line ending does
/// not start an empty line.
pub open spec fn lines_of(s: Seq<char>) -> Seq<Seq<char>> {
    lines_from(s, 0)
}

proof fn lemma_line_end_shift(a: Seq<char>, b: Seq<char>, k: int)
    requires
        0 <= k <= b.len(),
    ensures
        line_end(a + b, a.len() + k) == a.len() + line_end(b, k),
    decreases b.len() - k,
{
    if k < b.len() && b[k] != '\n' {
        assert((a + b)[a.len() + k] == b[k]);
        lemma_line_end_shift(a, b, k + 1);
    } else if k < b.len() {
        assert((a + b)[a.len() + k] == b[k]);
    }
}

proof fn lemma_lines_from_shift(a: Seq<char>, b: Seq<char>, k: int)
    requires
        0 <= k <= b.len(),
    ensures
        lines_from(a + b, a.len() + k) == lines_from(b, k),
    decreases b.len() - k,
{
    if k < b.len() {
        let s = a + b;
        lemma_line_end_shift(a, b, k);
        lemma_line_end(b, k);
        let e = line_end(b, k);
        assert(s.subrange(a.len() + k, a.len() + e) =~= b.subrange(k, e));
        if e < b.len() {
            lemma_lines_from_shift(a, b, e + 1);
        }
    }
}

proof fn lemma_line_end_in_prefix(a: Seq<char>, b: Seq<char>, from: int)
    requires
        a.len() > 0,
        a.last() == '\n',
        0 <= from < a.len(),
    ensures
        line_end(a + b, from) == line_end(a, from),
        line_end(a, from) < a.len(),
    decreases a.len() - from,
{
    assert((a + b)[from] == a[from]);
    if a[from] != '\n' {
        lemma_line_end_in_prefix(a, b, from + 1);
    }
}

proof fn lemma_lines_from_prefix(a: Seq<char>, b: Seq<char>, from: int)
    requires
        a.len() > 0,
        a.last() == '\n',
        0 <= from <= a.len(),
    ensures
        lines_from(a + b, from) == lines_from(a, from) + lines_of(b),
    decreases a.len() - from,
{
    if from == a.len() {
        lemma_lines_from_shift(a, b, 0);
        assert(lines_from(a, from) =~= Seq::<Seq<char>>::empty());
        assert(lines_from(a + b, from) =~= lines_from(a, from) + lines_of(b));
    } else {
        lemma_line_end_in_prefix(a, b, from);
        lemma_line_end(a, from);
        let e = line_end(a, from);
        assert((a + b).subrange(from, e) =~= a.subrange(from, e));
        lemma_lines_from_prefix(a, b, e + 1);
        assert(lines_from(a + b, from) =~= lines_from(a, from) + lines_of(b));
    }
}

/// The lines of a text that ends a line, followed by more text, are the lines of each.
pub proof fn lemma_lines_of_concat(a: Seq<char>, b: Seq<char>)
    requires
        a.len() > 0,
        a.last() == '\n',
    ensures
        lines_of(a + b) == lines_of(a) + lines_of(b),
{
    lemma_lines_from_prefix(a, b, 0);
}

/// Start and end indices of every line of `s`, in order.
pub fn line_spans(s: &[char]) -> (res: Vec<(usize, usize)>)
    ensures
        res@.len() == lines_of(s@).len(),
        forall|i: int|
            0 <= i < res@.len() ==> {
                &&& (#[trigger] res@[i]).0 <= res@[i].1 <= s@.len()
                &&& s@.subrange(res@[i].0 as int, res@[i].1 as int) == lines_of(s@)[i]
            },
{
    let mut res: Vec<(usize, usize)> = Vec::new();
    let mut pos: usize = 0;
    let ghost mut done: Seq<Seq<char>> = seq![];
    while pos < s.len()
        invariant
            pos <= s@.len(),
            res@.len() == done.len(),
            lines_of(s@) == done + lines_from(s@, pos as int),
            forall|i: int|
                0 <= i < res@.len() ==> {
                    &&& (#[trigger] res@[i]).0 <= res@[i].1 <= s@.len()
                    &&& s@.subrange(res@[i].0 as int, res@[i].1 as int) == done[i]
                },
        decreases s@.len() - pos,
    {
        let mut e = pos;
        while e < s.len() && s[e] != '\n'
            invariant
                pos <= e <= s@.len(),
                line_end(s@, pos as int) == line_end(s@, e as int),
            decreases s@.len() - e,
        {
            e += 1;
        }
        proof {
            lemma_line_end(s@, pos as int);
        }
        let ghost line = lines_from(s@, pos as int)[0];
        if e < s.len() {
            let mut end = e;
            if end > pos && s[end - 1] == '\r' {
                end -= 1;
            }
            assert(s@.subrange(pos as int, end as int) == strip_cr(s@.subrange(pos as int, e as int)));
            proof {
                assert(lines_from(s@, pos as int) == seq![line] + lines_from(s@, e + 1));
                done = done.push(line);
                assert(lines_of(s@) == done + lines_from(s@, e + 1));
            }
            res.push((pos, end));
            pos = e + 1;
        } else {
            proof {
                assert(lines_from(s@, pos as int) == seq![line]);
                done = done.push(line);
                assert(lines_from(s@, e as int) == Seq::<Seq<char>>::empty());
                assert(lines_of(s@) == done + lines_from(s@, e as int));
            }
            res.push((pos, e));
            pos = e;
        }
    }
    proof {
        assert(lines_from(s@, pos as int) == Seq::<Seq<char>>::empty());
        assert(lines_of(s@) =~= done);
    }
    res
}

// ---------------------------------------------------------------------------
// Whitespace-separated words
// ---------------------------------------------------------------------------

/// Index of the first whitespace character at or after `from`, or `s.len()`.
pub open spec fn word_end(s: Seq<char>, from: int) -> int
    decreases s.len() - from,
{
    if 0 <= from < s.len() && !is_ws(s[from]) {
        word_end(s, from + 1)
    } else {
        from
    }
}

pub proof fn lemma_word_end(s: Seq<char>, from: int)
    requires
        0 <= from <= s.len(),
    ensures
        from <= word_end(s, from) <= s.len(),
        word_end(s, from) < s.len() ==> is_ws(s[word_end(s, from)]),
        forall|k: int| from <= k < word_end(s, from) ==> !is_ws(#[trigger] s[k]),
    decreases s.len() - from,
{
    if from < s.len() && !is_ws(s[from]) {
        lemma_word_end(s, from + 1);
    }
}

/// The words of `s[from..]`, as `str::split_whitespace` yields them.
pub open spec fn words_from(s: Seq<char>, from: int) -> Seq<Seq<char>>
    decreases s.len() - from,
{
    if from < 0 || from > s.len() {
        seq![]
    } else {
        let a = skip_ws_from(s, from);
        proof {
            lemma_skip_ws_from(s, from);
        }
        if a >= s.len() {
            seq![]
        } else {
            let b = word_end(s, a);
            proof {
                lemma_word_end(s, a);
            }
            seq![s.subrange(a, b)] + words_from(s, b)
        }
    }
}

/// `str::split_whitespace`.
pub open spec fn words(s: Seq<char>) -> Seq<Seq<char>> {
    words_from(s, 0)
}

/// The `k`-th word of `s`, if there is one (`split_whitespace().nth(k)`).
pub open spec fn nth_word(s: Seq<char>, k: int) -> Option<Seq<char>> {
    if 0 <= k < words(s).len() {
        Some(words(s)[k])
    } else {
        None
    }
}

/// The last word of `s`, if there is one (`split_whitespace().last()`).
proof fn lemma_skip_ws_to(s: Seq<char>, from: int, j: int)
    requires
        0 <= from <= j <= s.len(),
        forall|k: int| from <= k < j ==> is_ws(#[trigger] s[k]),
        j == s.len() || !is_ws(s[j]),
    ensures
        skip_ws_from(s, from) == j,
    decreases j - from,
{
    if from < j {
        lemma_skip_ws_to(s, from + 1, j);
    }
}

proof fn lemma_word_end_to(s: Seq<char>, from: int, j: int)
    requires
        0 <= from <= j <= s.len(),
        forall|k: int| from <= k < j ==> !is_ws(#[trigger] s[k]),
        j == s.len() || is_ws(s[j]),
    ensures
        word_end(s, from) == j,
    decreases j - from,
{
    if from < j {
        lemma_word_end_to(s, from + 1, j);
    }
}

/// The first word of blanks, a run of non-blank characters and then a blank or nothing
/// is that run.
pub proof fn lemma_first_word_of(gap: Seq<char>, w: Seq<char>, rest: Seq<char>)
    requires
        forall|k: int| 0 <= k < gap.len() ==> is_ws(#[trigger] gap[k]),
        w.len() > 0,
        forall|k: int| 0 <= k < w.len() ==> !is_ws(#[trigger] w[k]),
        rest.len() == 0 || is_ws(rest[0]),
    ensures
        nth_word(gap + w + rest, 0) == Some(w),
{
    let s = gap + w + rest;
    let a = gap.len() as int;
    let b = a + w.len();
    assert forall|k: int| 0 <= k < a implies is_ws(#[trigger] s[k]) by {
        assert(s[k] == gap[k]);
    }
    assert(s[a] == w[0]);
    lemma_skip_ws_to(s, 0, a);
    assert forall|k: int| a <= k < b implies !is_ws(#[trigger] s[k]) by {
        assert(s[k] == w[k - a]);
    }
    if b < s.len() {
        assert(s[b] == rest[0]);
    }
    lemma_word_end_to(s, a, b);
    assert(s.subrange(a, b) =~= w);
    assert(words(s)[0] == w);
}

pub open spec fn last_word(s: Seq<char>) -> Option<Seq<char>> {
    if words(s).len() > 0 {
        Some(words(s).last())
    } else {
        None
    }
}

/// Start and end indices of every word of `s`, in order.
pub fn word_spans(s: &[char]) -> (res: Vec<(usize, usize)>)
    ensures
        res@.len() == words(s@).len(),
        forall|i: int|
            0 <= i < res@.len() ==> {
                &&& (#[trigger] res@[i]).0 <= res@[i].1 <= s@.len()
                &&& s@.subrange(res@[i].0 as int, res@[i].1 as int) == words(s@)[i]
            },
{
    let mut res: Vec<(usize, usize)> = Vec::new();
    let mut pos: usize = 0;
    let ghost mut done: Seq<Seq<char>> = seq![];
    loop
        invariant
            pos <= s@.len(),
            res@.len() == done.len(),
            words(s@) == done + words_from(s@, pos as int),
            forall|i: int|
                0 <= i < res@.len() ==> {
                    &&& (#[trigger] res@[i]).0 <= res@[i].1 <= s@.len()
                    &&& s@.subrange(res@[i].0 as int, res@[i].1 as int) == done[i]
                },
        decreases s@.len() - pos,
    {
        let a = skip_ws(s, pos, s.len());
        proof {
            lemma_skip_ws_from(s@, pos as int);
            let t = s@.subrange(pos as int, s@.len() as int);
            assert(s@.subrange(a as int, s@.len() as int).len() == s@.len() - a);
            assert(s@.subrange(skip_ws_from(s@, pos as int), s@.len() as int).len() == s@.len()
                - skip_ws_from(s@, pos as int));
        }
        assert(a == skip_ws_from(s@, pos as int));
        if a >= s.len() {
            assert(words(s@) =~= done);
            return res;
        }
        let mut b = a;
        while b < s.len() && !is_whitespace(s[b])
            invariant
                a <= b <= s@.len(),
                word_end(s@, a as int) == word_end(s@, b as int),
            decreases s@.len() - b,
        {
            b += 1;
        }
        proof {
            lemma_word_end(s@, a as int);
            let w = s@.subrange(a as int, b as int);
            assert(words_from(s@, pos as int) == seq![w] + words_from(s@, b as int));
            done = done.push(w);
            assert(words(s@) == done + words_from(s@, b as int));
        }
        res.push((a, b));
        pos = b;
    }
}


// ---------------------------------------------------------------------------
// Numbers
// ---------------------------------------------------------------------------

/// Value of a string of decimal digits.
pub open spec fn digits_value(s: Seq<char>) -> nat
    decreases s.len(),
{
    if s.len() == 0 {
        0
    } else {
        digits_value(s.drop_last()) * 10 + ((s.last() as nat) - ('0' as nat)) as nat
    }
}

/// `u32::from_str`: an optional `+`, then one or more ASCII digits whose value fits.
pub open spec fn parse_u32_spec(s: Seq<char>) -> Option<u32> {
    let d = if s.len() > 0 && s[0] == '+' {
        s.drop_first()
    } else {
        s
    };
    if d.len() > 0 && all_digits(d) && digits_value(d) <= u32::MAX {
        Some(digits_value(d) as u32)
    } else {
        None
    }
}

proof fn lemma_digits_value_mono(s: Seq<char>, i: int)
    requires
        0 <= i <= s.len(),
        all_digits(s),
    ensures
        digits_value(s.subrange(0, i)) <= digits_value(s),
    decreases s.len() - i,
{
    if i < s.len() {
        lemma_digits_value_mono(s, i + 1);
        let t = s.subrange(0, i + 1);
        assert(t.drop_last() =~= s.subrange(0, i));
        assert(is_digit(s[i]));
    } else {
        assert(s.subrange(0, i) =~= s);
    }
}

/// `s.parse::<u32>().ok()`.
pub fn parse_u32(s: &[char]) -> (res: Option<u32>)
    ensures
        res == parse_u32_spec(s@),
{
    let start: usize = if s.len() > 0 && s[0] == '+' {
        1
    } else {
        0
    };
    let ghost d = if s@.len() > 0 && s@[0] == '+' {
        s@.drop_first()
    } else {
        s@
    };
    assert(d =~= s@.subrange(start as int, s@.len() as int));
    if start >= s.len() {
        return None;
    }
    let mut i = start;
    while i < s.len()
        invariant
            start <= i <= s@.len(),
            d == s@.subrange(start as int, s@.len() as int),
            d == (if s@.len() > 0 && s@[0] == '+' {
                s@.drop_first()
            } else {
                s@
            }),
            forall|k: int| start <= k < i ==> is_digit(#[trigger] s@[k]),
        decreases s@.len() - i,
    {
        if !('0' <= s[i] && s[i] <= '9') {
            assert(!is_digit(d[i - start]));
            assert(!all_digits(d));
            assert(parse_u32_spec(s@) is None);
            return None;
        }
        i += 1;
    }
    assert(all_digits(d)) by {
        assert forall|k: int| 0 <= k < d.len() implies is_digit(#[trigger] d[k]) by {
            assert(d[k] == s@[start + k]);
        }
    }
    let mut v: u64 = 0;
    assert(d.subrange(0, 0) =~= Seq::<char>::empty());
    let mut j = start;
    while j < s.len()
        invariant
            start <= j <= s@.len(),
            d == s@.subrange(start as int, s@.len() as int),
            d == (if s@.len() > 0 && s@[0] == '+' {
                s@.drop_first()
            } else {
                s@
            }),
            all_digits(d),
            v == digits_value(d.subrange(0, j - start)),
            v <= u32::MAX,
        decreases s@.len() - j,
    {
        assert(d[j - start] == s@[j as int]);
        assert(is_digit(d[j - start]));
        let dig = (s[j] as u32 - '0' as u32) as u64;
        let nv = v * 10 + dig;
        proof {
            let t = d.subrange(0, j + 1 - start);
            assert(t.drop_last() =~= d.subrange(0, j - start));
            assert(t.last() == s@[j as int]);
            assert(nv == digits_value(t));
        }
        if nv > 0xffff_ffff {
            proof {
                lemma_digits_value_mono(d, j + 1 - start);
                assert(parse_u32_spec(s@) is None);
            }
            return None;
        }
        v = nv;
        j += 1;
    }
    assert(d.subrange(0, d.len() as int) =~= d);
    Some(v as u32)
}

/// `c.to_ascii_lowercase()`.
pub open spec fn lower(c: char) -> char {
    if 'A' <= c <= 'Z' {
        ((c as u32) + 32) as char
    } else {
        c
    }
}

/// `s` equals the lower-case word `w`, ignoring ASCII case.
pub open spec fn eq_ignore_case(s: Seq<char>, w: Seq<char>) -> bool {
    s.len() == w.len() && forall|i: int| 0 <= i < s.len() ==> lower(#[trigger] s[i]) == w[i]
}

/// Index of the first character in `s` that satisfies `e` or `E`, or `s.len()`.
pub open spec fn first_exp_marker(s: Seq<char>, from: int) -> int
    decreases s.len() - from,
{
    if 0 <= from < s.len() && s[from] != 'e' && s[from] != 'E' {
        first_exp_marker(s, from + 1)
    } else {
        from
    }
}

/// Index of the first `'.'` in `s` at or after `from`, or `s.len()`.
pub open spec fn first_dot(s: Seq<char>, from: int) -> int
    decreases s.len() - from,
{
    if 0 <= from < s.len() && s[from] != '.' {
        first_dot(s, from + 1)
    } else {
        from
    }
}

/// `Digit+ | Digit+ '.' Digit* | Digit* '.' Digit+`.
pub open spec fn is_mantissa(m: Seq<char>) -> bool {
    let p = first_dot(m, 0);
    if p >= m.len() {
        m.len() > 0 && all_digits(m)
    } else {
        &&& all_digits(m.subrange(0, p))
        &&& all_digits(m.subrange(p + 1, m.len() as int))
        &&& m.len() > 1
    }
}

/// `Sign? Digit+`.
pub open spec fn is_exponent_digits(x: Seq<char>) -> bool {
    let y = if x.len() > 0 && (x[0] == '+' || x[0] == '-') {
        x.drop_first()
    } else {
        x
    };
    y.len() > 0 && all_digits(y)
}

/// The grammar that `f64::from_str` accepts (case-insensitively), as its documentation
/// gives it:
/// `Sign? ( 'inf' | 'infinity' | 'nan' | Number )`, with
/// `Number ::= ( Digit+ | Digit+ '.' Digit* | Digit* '.' Digit+ ) Exp?` and
/// `Exp ::= 'e' Sign? Digit+`.
pub open spec fn is_float_literal(s: Seq<char>) -> bool {
    let b = if s.len() > 0 && (s[0] == '+' || s[0] == '-') {
        s.drop_first()
    } else {
        s
    };
    let k = first_exp_marker(b, 0);
    ||| eq_ignore_case(b, "inf"@)
    ||| eq_ignore_case(b, "infinity"@)
    ||| eq_ignore_case(b, "nan"@)
    ||| (is_mantissa(b.subrange(0, k)) && (k >= b.len() || is_exponent_digits(
        b.subrange(k + 1, b.len() as int),
    )))
}

/// Whether every character of `s[from..to]` is an ASCII digit.
fn digits_only(s: &[char], from: usize, to: usize) -> (b: bool)
    requires
        from <= to <= s@.len(),
    ensures
        b == all_digits(s@.subrange(from as int, to as int)),
{
    let mut i = from;
    while i < to
        invariant
            from <= i <= to <= s@.len(),
            forall|k: int| from <= k < i ==> is_digit(#[trigger] s@[k]),
        decreases to - i,
    {
        if !('0' <= s[i] && s[i] <= '9') {
            assert(!is_digit(s@.subrange(from as int, to as int)[i - from]));
            return false;
        }
        i += 1;
    }
    assert forall|k: int| 0 <= k < to - from implies is_digit(
        #[trigger] s@.subrange(from as int, to as int)[k],
    ) by {
        assert(s@.subrange(from as int, to as int)[k] == s@[from + k]);
    }
    true
}

fn lower_char(c: char) -> (r: char)
    ensures
        r == lower(c),
{
    if 'A' <= c && c <= 'Z' {
        ((c as u8) + 32) as char
    } else {
        c
    }
}

/// Whether `s[from..to]` equals the lower-case ASCII word `w`, ignoring ASCII case.
fn eq_ignore_case_range(s: &[char], from: usize, to: usize, w: &[char]) -> (b: bool)
    requires
        from <= to <= s@.len(),
    ensures
        b == eq_ignore_case(s@.subrange(from as int, to as int), w@),
{
    if to - from != w.len() {
        return false;
    }
    let mut i: usize = 0;
    while i < w.len()
        invariant
            to - from == w@.len(),
            from <= to <= s@.len(),
            i <= w@.len(),
            forall|k: int| 0 <= k < i ==> lower(s@[from + k]) == w@[k],
        decreases w@.len() - i,
    {
        if lower_char(s[from + i]) != w[i] {
            assert(lower(s@.subrange(from as int, to as int)[i as int]) != w@[i as int]);
            return false;
        }
        i += 1;
    }
    assert forall|k: int| 0 <= k < to - from implies lower(
        #[trigger] s@.subrange(from as int, to as int)[k],
    ) == w@[k] by {
        assert(s@.subrange(from as int, to as int)[k] == s@[from + k]);
    }
    true
}

/// Whether `s.parse::<f64>()` succeeds.
pub fn is_float_literal_chars(s: &[char]) -> (b: bool)
    ensures
        b == is_float_literal(s@),
{
    let n = s.len();
    let start: usize = if n > 0 && (s[0] == '+' || s[0] == '-') {
        1
    } else {
        0
    };
    let ghost bs = if s@.len() > 0 && (s@[0] == '+' || s@[0] == '-') {
        s@.drop_first()
    } else {
        s@
    };
    assert(bs =~= s@.subrange(start as int, n as int));
    let inf = chars_of("inf");
    let infinity = chars_of("infinity");
    let nan = chars_of("nan");
    if eq_ignore_case_range(s, start, n, inf.as_slice()) || eq_ignore_case_range(
        s,
        start,
        n,
        infinity.as_slice(),
    ) || eq_ignore_case_range(s, start, n, nan.as_slice()) {
        return true;
    }
    // locate the exponent marker
    let mut k = start;
    while k < n && s[k] != 'e' && s[k] != 'E'
        invariant
            start <= k <= n == s@.len(),
            bs == s@.subrange(start as int, n as int),
            first_exp_marker(bs, 0) == first_exp_marker(bs, k - start),
        decreases n - k,
    {
        k += 1;
    }
    assert(first_exp_marker(bs, k - start) == k - start);
    let ghost m = bs.subrange(0, k - start);
    assert(m =~= s@.subrange(start as int, k as int));
    // locate the decimal point in the mantissa
    let mut p = start;
    while p < k && s[p] != '.'
        invariant
            start <= p <= k <= n == s@.len(),
            m == s@.subrange(start as int, k as int),
            first_dot(m, 0) == first_dot(m, p - start),
        decreases k - p,
    {
        p += 1;
    }
    assert(first_dot(m, p - start) == p - start);
    let mant_ok = if p >= k {
        k > start && digits_only(s, start, k)
    } else {
        assert(m.subrange(0, p - start) =~= s@.subrange(start as int, p as int));
        assert(m.subrange(p - start + 1, m.len() as int) =~= s@.subrange(p + 1, k as int));
        digits_only(s, start, p) && digits_only(s, p + 1, k) && k - start > 1
    };
    if !mant_ok {
        return false;
    }
    if k >= n {
        return true;
    }
    // exponent: Sign? Digit+
    let e0 = k + 1;
    let ghost x = bs.subrange(k - start + 1, bs.len() as int);
    assert(x =~= s@.subrange(e0 as int, n as int));
    let e1 = if e0 < n && (s[e0] == '+' || s[e0] == '-') {
        e0 + 1
    } else {
        e0
    };
    assert(s@.subrange(e1 as int, n as int) =~= (if x.len() > 0 && (x[0] == '+' || x[0] == '-') {
        x.drop_first()
    } else {
        x
    }));
    e1 < n && digits_only(s, e1, n)
}

// ---------------------------------------------------------------------------
// Rewriting
// ---------------------------------------------------------------------------

/// `str::replace`: every non-overlapping occurrence of `pat`, left to right, replaced
/// by `rep`.
/// `rep` before every character of `s` and after the last: what `str::replace` does
/// with an empty pattern, which matches at every character boundary.
pub open spec fn interleave(s: Seq<char>, rep: Seq<char>) -> Seq<char>
    decreases s.len(),
{
    if s.len() == 0 {
        rep
    } else {
        rep + seq![s[0]] + interleave(s.subrange(1, s.len() as int), rep)
    }
}

pub open spec fn replace(s: Seq<char>, pat: Seq<char>, rep: Seq<char>) -> Seq<char>
    decreases s.len(),
{
    if pat.len() == 0 {
        interleave(s, rep)
    } else {
        match find(s, pat) {
            Some(i) => {
                proof {
                    lemma_find_from(s, pat, 0);
                }
                s.subrange(0, i) + rep + replace(s.subrange(i + pat.len(), s.len() as int), pat, rep)
            },
            None => s,
        }
    }
}

proof fn lemma_find_from_shift(s: Seq<char>, pat: Seq<char>, pos: int, i: int)
    requires
        0 <= pos <= s.len(),
        0 <= i,
    ensures
        find_from(s.subrange(pos, s.len() as int), pat, i) == (match find_from(s, pat, i + pos) {
            Some(k) => Some(k - pos),
            None => None,
        }),
    decreases s.len() + 1 - (i + pos),
{
    let rest = s.subrange(pos, s.len() as int);
    if i + pat.len() > rest.len() {
    } else {
        assert(occurs_at(rest, pat, i) == occurs_at(s, pat, i + pos)) by {
            assert(rest.subrange(i, i + pat.len()) =~= s.subrange(i + pos, i + pos + pat.len()));
        }
        if !occurs_at(rest, pat, i) {
            lemma_find_from_shift(s, pat, pos, i + 1);
        }
    }
}

/// Appends `s[from..to]` to `res`.
pub fn push_range(res: &mut Vec<char>, s: &[char], from: usize, to: usize)
    requires
        from <= to <= s@.len(),
    ensures
        final(res)@ == old(res)@ + s@.subrange(from as int, to as int),
{
    let mut k = from;
    while k < to
        invariant
            from <= k <= to <= s@.len(),
            res@ == old(res)@ + s@.subrange(from as int, k as int),
        decreases to - k,
    {
        res.push(s[k]);
        k += 1;
        assert(s@.subrange(from as int, k as int) =~= s@.subrange(from as int, k - 1).push(s@[k - 1]));
    }
}

/// `rep` before every character of `s` and after the last.
pub fn interleave_chars(s: &[char], rep: &[char]) -> (res: Vec<char>)
    ensures
        res@ == interleave(s@, rep@),
{
    let mut res: Vec<char> = Vec::new();
    let mut i: usize = 0;
    assert(s@.subrange(0, s@.len() as int) =~= s@);
    while i < s.len()
        invariant
            i <= s@.len(),
            res@ + interleave(s@.subrange(i as int, s@.len() as int), rep@) == interleave(s@, rep@),
        decreases s@.len() - i,
    {
        let ghost rest = s@.subrange(i as int, s@.len() as int);
        assert(rest.subrange(1, rest.len() as int) =~= s@.subrange(i + 1, s@.len() as int));
        assert(rest[0] == s@[i as int]);
        let ghost before = res@;
        push_range(&mut res, rep, 0, rep.len());
        assert(rep@.subrange(0, rep@.len() as int) =~= rep@);
        res.push(s[i]);
        assert(res@ =~= before + rep@ + seq![s@[i as int]]);
        assert(before + interleave(rest, rep@) =~= res@ + interleave(
            s@.subrange(i + 1, s@.len() as int),
            rep@,
        ));
        i += 1;
    }
    assert(s@.subrange(i as int, s@.len() as int) =~= Seq::<char>::empty());
    let ghost before = res@;
    push_range(&mut res, rep, 0, rep.len());
    assert(rep@.subrange(0, rep@.len() as int) =~= rep@);
    res
}

/// `str::replace` on characters (`pat` must not be empty, as in every use here).
pub fn replace_chars(s: &[char], pat: &[char], rep: &[char]) -> (res: Vec<char>)
    ensures
        res@ == replace(s@, pat@, rep@),
{
    if pat.len() == 0 {
        return interleave_chars(s, rep);
    }
    let mut res: Vec<char> = Vec::new();
    let mut pos: usize = 0;
    assert(s@.subrange(0, s@.len() as int) =~= s@);
    loop
        invariant
            pos <= s@.len(),
            pat@.len() > 0,
            res@ + replace(s@.subrange(pos as int, s@.len() as int), pat@, rep@) == replace(
                s@,
                pat@,
                rep@,
            ),
        decreases s@.len() - pos,
    {
        let ghost rest = s@.subrange(pos as int, s@.len() as int);
        proof {
            lemma_find_from_shift(s@, pat@, pos as int, 0);
            lemma_find_from(s@, pat@, pos as int);
        }
        match find_chars_from(s, pat, pos) {
            Some(i) => {
                assert(occurs_at(s@, pat@, i as int));
                let plen = pat.len();
                assert(i + plen <= s@.len());
                assert(s@.len() == s.len());
                assert(find(rest, pat@) == Some(i - pos));
                assert(rest.subrange(0, i - pos) =~= s@.subrange(pos as int, i as int));
                assert(rest.subrange(i - pos + pat@.len(), rest.len() as int) =~= s@.subrange(
                    i + pat@.len(),
                    s@.len() as int,
                ));
                push_range(&mut res, s, pos, i);
                let ghost before = res@;
                push_range(&mut res, rep, 0, rep.len());
                assert(rep@.subrange(0, rep@.len() as int) =~= rep@);
                assert(res@ == before + rep@);
                pos = i + plen;
            },
            None => {
                assert(find(rest, pat@) is None);
                push_range(&mut res, s, pos, s.len());
                return res;
            },
        }
    }
}


/// Bounds of the first word of `s` (`split_whitespace().next()`).
pub fn first_word(s: &[char]) -> (res: Option<(usize, usize)>)
    ensures
        match res {
            Some((a, b)) => a <= b <= s@.len() && nth_word(s@, 0) == Some(s@.subrange(a as int, b as int)),
            None => nth_word(s@, 0) is None,
        },
{
    let n = s.len();
    let mut a: usize = 0;
    while a < n && is_whitespace(s[a])
        invariant
            a <= n == s@.len(),
            skip_ws_from(s@, 0) == skip_ws_from(s@, a as int),
        decreases n - a,
    {
        a += 1;
    }
    proof {
        lemma_skip_ws_from(s@, 0);
    }
    if a >= n {
        return None;
    }
    let mut b = a;
    while b < n && !is_whitespace(s[b])
        invariant
            a <= b <= n == s@.len(),
            word_end(s@, a as int) == word_end(s@, b as int),
        decreases n - b,
    {
        b += 1;
    }
    proof {
        lemma_word_end(s@, a as int);
        assert(words(s@) == seq![s@.subrange(a as int, b as int)] + words_from(s@, b as int));
    }
    Some((a, b))
}

/// The first word of `s`, as a string.
pub fn first_word_string(s: &[char]) -> (res: Option<String>)
    ensures
        opt_seq(res) == nth_word(s@, 0),
{
    match first_word(s) {
        Some((a, b)) => Some(string_of_range(s, a, b)),
        None => None,
    }
}

/// The text of an optional string.
pub open spec fn opt_seq(o: Option<String>) -> Option<Seq<char>> {
    match o {
        Some(s) => Some(s@),
        None => None,
    }
}

/// `trim_start(s)`, as a slice of `s`.
pub fn trim_start_slice(s: &[char]) -> (res: &[char])
    ensures
        res@ == trim_start(s@),
{
    let a = skip_ws(s, 0, s.len());
    assert(s@.subrange(0, s@.len() as int) =~= s@);
    vstd::slice::slice_subrange(s, a, s.len())
}

/// `trim(s)`, as a slice of `s`.
pub fn trim_slice(s: &[char]) -> (res: &[char])
    ensures
        res@ == trim(s@),
{
    let (a, b) = trim_range(s, 0, s.len());
    assert(s@.subrange(0, s@.len() as int) =~= s@);
    vstd::slice::slice_subrange(s, a, b)
}

/// `s[from..]`.
pub fn tail(s: &[char], from: usize) -> (res: &[char])
    requires
        from <= s@.len(),
    ensures
        res@ == s@.subrange(from as int, s@.len() as int),
{
    vstd::slice::slice_subrange(s, from, s.len())
}


/// The first word of `s` when `f64::from_str` accepts it.
pub open spec fn float_word(s: Seq<char>) -> Option<Seq<char>> {
    match nth_word(s, 0) {
        Some(w) => if is_float_literal(w) {
            Some(w)
        } else {
            None
        },
        None => None,
    }
}

/// `s.split_whitespace().next().and_then(|w| w.parse::<f64>().ok())`, the number kept
/// as its text.
pub fn first_float_word(s: &[char]) -> (res: Option<String>)
    ensures
        opt_seq(res) == float_word(s@),
{
    match first_word(s) {
        Some((a, b)) => {
            let w = vstd::slice::slice_subrange(s, a, b);
            if is_float_literal_chars(w) {
                Some(string_of_range(s, a, b))
            } else {
                None
            }
        },
        None => None,
    }
}

/// The text after the first occurrence of `needle` in `s`.
pub open spec fn after_first(s: Seq<char>, needle: Seq<char>) -> Option<Seq<char>> {
    match find(s, needle) {
        Some(p) => Some(s.subrange(p + needle.len(), s.len() as int)),
        None => None,
    }
}

/// The text after the first occurrence of `needle` in `s`, as a slice of `s`.
pub fn after_first_chars<'a>(s: &'a [char], needle: &[char]) -> (res: Option<&'a [char]>)
    ensures
        match res {
            Some(r) => after_first(s@, needle@) == Some(r@),
            None => after_first(s@, needle@) is None,
        },
{
    match find_chars(s, needle) {
        Some(p) => {
            proof {
                lemma_find_from(s@, needle@, 0);
            }
            let n = needle.len();
            assert(p + n <= s@.len());
            assert(s@.len() == s.len());
            Some(tail(s, p + n))
        },
        None => None,
    }
}


/// `str::trim_end_matches(c)` for a character: every trailing `c` removed.
pub open spec fn trim_end_char(s: Seq<char>, c: char) -> Seq<char>
    decreases s.len(),
{
    if s.len() > 0 && s.last() == c {
        trim_end_char(s.drop_last(), c)
    } else {
        s
    }
}

/// `str::trim_start_matches(c)` for a character: every leading `c` removed.
pub open spec fn trim_start_char(s: Seq<char>, c: char) -> Seq<char>
    decreases s.len(),
{
    if s.len() > 0 && s[0] == c {
        trim_start_char(s.drop_first(), c)
    } else {
        s
    }
}

/// `str::trim_matches(c)` for a character: every leading and trailing `c` removed.
pub open spec fn trim_char(s: Seq<char>, c: char) -> Seq<char> {
    trim_end_char(trim_start_char(s, c), c)
}

/// `str::trim_start_matches(pat)` for a non-empty string: the prefix `pat` removed as
/// often as it occurs.
pub open spec fn trim_start_str(s: Seq<char>, pat: Seq<char>) -> Seq<char>
    decreases s.len(),
{
    if pat.len() > 0 && starts_with(s, pat) {
        trim_start_str(s.subrange(pat.len() as int, s.len() as int), pat)
    } else {
        s
    }
}

pub fn trim_end_char_slice(s: &[char], c: char) -> (res: &[char])
    ensures
        res@ == trim_end_char(s@, c),
{
    let mut j = s.len();
    assert(s@.subrange(0, s@.len() as int) =~= s@);
    while j > 0 && s[j - 1] == c
        invariant
            j <= s@.len(),
            trim_end_char(s@, c) == trim_end_char(s@.subrange(0, j as int), c),
        decreases j,
    {
        assert(s@.subrange(0, j as int).drop_last() =~= s@.subrange(0, j - 1));
        j -= 1;
    }
    assert(s@.subrange(0, s@.len() as int) =~= s@);
    vstd::slice::slice_subrange(s, 0, j)
}

pub fn trim_start_char_slice(s: &[char], c: char) -> (res: &[char])
    ensures
        res@ == trim_start_char(s@, c),
{
    let mut i: usize = 0;
    assert(s@.subrange(0, s@.len() as int) =~= s@);
    while i < s.len() && s[i] == c
        invariant
            i <= s@.len(),
            trim_start_char(s@, c) == trim_start_char(s@.subrange(i as int, s@.len() as int), c),
        decreases s@.len() - i,
    {
        assert(s@.subrange(i as int, s@.len() as int).drop_first() =~= s@.subrange(
            i + 1,
            s@.len() as int,
        ));
        i += 1;
    }
    vstd::slice::slice_subrange(s, i, s.len())
}

pub fn trim_char_slice(s: &[char], c: char) -> (res: &[char])
    ensures
        res@ == trim_char(s@, c),
{
    let t = trim_start_char_slice(s, c);
    trim_end_char_slice(t, c)
}

pub fn trim_start_str_slice<'a>(s: &'a [char], pat: &[char]) -> (res: &'a [char])
    ensures
        res@ == trim_start_str(s@, pat@),
{
    if pat.len() == 0 {
        return s;
    }
    let mut i: usize = 0;
    assert(s@.subrange(0, s@.len() as int) =~= s@);
    loop
        invariant
            i <= s@.len(),
            pat@.len() > 0,
            trim_start_str(s@, pat@) == trim_start_str(s@.subrange(i as int, s@.len() as int), pat@),
        decreases s@.len() - i,
    {
        let rest = tail(s, i);
        if !starts_with_chars(rest, pat) {
            return rest;
        }
        let n = pat.len();
        assert(n <= rest@.len());
        assert(s@.len() == s.len());
        assert(rest@.subrange(n as int, rest@.len() as int) =~= s@.subrange(i + n, s@.len() as int));
        i = i + n;
    }
}

/// The `k`-th word of `s`, as a slice.
pub fn nth_word_slice(s: &[char], k: usize) -> (res: Option<&[char]>)
    ensures
        match res {
            Some(w) => nth_word(s@, k as int) == Some(w@),
            None => nth_word(s@, k as int) is None,
        },
{
    let ws = word_spans(s);
    if k < ws.len() {
        let (a, b) = ws[k];
        Some(vstd::slice::slice_subrange(s, a, b))
    } else {
        None
    }
}

/// The last word of `s`, as a slice.
pub fn last_word_slice(s: &[char]) -> (res: Option<&[char]>)
    ensures
        match res {
            Some(w) => last_word(s@) == Some(w@),
            None => last_word(s@) is None,
        },
{
    let ws = word_spans(s);
    if ws.len() > 0 {
        let (a, b) = ws[ws.len() - 1];
        Some(vstd::slice::slice_subrange(s, a, b))
    } else {
        None
    }
}

/// The decimal digits of `5^1075`: `2^-1075 = 0.K × 10^-323`, where `K` is this digit
/// string. `2^-1075` is half the smallest positive `f64`: a decimal of at most that
/// size rounds to zero (a tie rounds to the even zero), a larger one does not.
pub const HALF_MIN_SUBNORMAL_DIGITS: &'static str = "24703282292062327208828439643411068618252990130716238221279284125033775363510437593264991818081799618989828234772285886546332835517796989819938739800539093906315035659515570226392290858392449105184435931802849936536152500319370457678249219365623669863658480757001585769269903706311928279558551332927834338409351978015531246597263579574622766465272827220056374006485499977096599470454020828166226237857393450736339007967761930577506740176324673600968951340535537458516661134223766678604162159680461914467291840300530057530849048765391711386591646239524912623653881879636239373280423891018672348497668235089863388587925628302755995657524455507255189313690836254779186948667994968324049705821028513185451396213837722826145437693412532098591327667236328125";

/// `0.s > 0.k`, for strings of decimal digits.
pub open spec fn fraction_greater(s: Seq<char>, k: Seq<char>) -> bool
    decreases s.len(),
{
    if s.len() == 0 {
        false
    } else if k.len() == 0 {
        exists|i: int| 0 <= i < s.len() && '1' <= #[trigger] s[i] <= '9'
    } else if s[0] > k[0] {
        true
    } else if s[0] < k[0] {
        false
    } else {
        fraction_greater(s.drop_first(), k.drop_first())
    }
}

/// Index of the first digit of `d` at or after `from` that is not `0`, or `d.len()`.
pub open spec fn first_nonzero(d: Seq<char>, from: int) -> int
    decreases d.len() - from,
{
    if 0 <= from < d.len() && d[from] == '0' {
        first_nonzero(d, from + 1)
    } else {
        from
    }
}

/// The value of an exponent `Sign? Digit+`.
pub open spec fn exponent_value(x: Seq<char>) -> int {
    if x.len() > 0 && x[0] == '-' {
        -digits_value(x.drop_first())
    } else if x.len() > 0 && x[0] == '+' {
        digits_value(x.drop_first()) as int
    } else {
        digits_value(x) as int
    }
}

/// The digits of a mantissa without its decimal point.
pub open spec fn mantissa_digits(m: Seq<char>) -> Seq<char> {
    let p = first_dot(m, 0);
    if p < m.len() {
        m.subrange(0, p) + m.subrange(p + 1, m.len() as int)
    } else {
        m
    }
}

/// `t.parse::<f64>()` gives a value below zero: `t` is a number with a minus sign that
/// is negative infinity, or a nonzero decimal that does not round to zero, i.e. one
/// above `2^-1075` in magnitude. The first nonzero digit of the decimal sits at the
/// power of ten `lead`; `2^-1075` has its first digit at `10^-324`, so the decimal is
/// larger when `lead` is higher, smaller when `lead` is lower, and otherwise the digits
/// from the first nonzero one on decide against those of `2^-1075`.
pub open spec fn is_negative_number(t: Seq<char>) -> bool {
    &&& is_float_literal(t)
    &&& t.len() > 0
    &&& t[0] == '-'
    &&& {
        let b = t.drop_first();
        ||| eq_ignore_case(b, "inf"@)
        ||| eq_ignore_case(b, "infinity"@)
        ||| (!eq_ignore_case(b, "nan"@) && {
            let k = first_exp_marker(b, 0);
            let m = b.subrange(0, k);
            let d = mantissa_digits(m);
            let z = first_nonzero(d, 0);
            let e = if k < b.len() {
                exponent_value(b.subrange(k + 1, b.len() as int))
            } else {
                0
            };
            let lead = first_dot(m, 0) - 1 - z + e;
            &&& z < d.len()
            &&& (lead > -324 || (lead == -324 && fraction_greater(
                d.subrange(z, d.len() as int),
                HALF_MIN_SUBNORMAL_DIGITS@,
            )))
        })
    }
}

proof fn lemma_first_nonzero(d: Seq<char>, from: int)
    requires
        0 <= from <= d.len(),
    ensures
        from <= first_nonzero(d, from) <= d.len(),
        forall|i: int| from <= i < first_nonzero(d, from) ==> d[i] == '0',
        first_nonzero(d, from) < d.len() ==> d[first_nonzero(d, from)] != '0',
    decreases d.len() - from,
{
    if from < d.len() && d[from] == '0' {
        lemma_first_nonzero(d, from + 1);
    }
}

proof fn lemma_first_dot(m: Seq<char>, from: int)
    requires
        0 <= from <= m.len(),
    ensures
        from <= first_dot(m, from) <= m.len(),
    decreases m.len() - from,
{
    if from < m.len() && m[from] != '.' {
        lemma_first_dot(m, from + 1);
    }
}

/// Whether `0.s > 0.k`, for strings of decimal digits.
pub fn fraction_greater_chars(s: &[char], k: &[char]) -> (r: bool)
    ensures
        r == fraction_greater(s@, k@),
{
    let mut i: usize = 0;
    assert(s@.subrange(0, s@.len() as int) =~= s@);
    assert(k@.subrange(0, k@.len() as int) =~= k@);
    loop
        invariant
            i <= s@.len(),
            i <= k@.len(),
            fraction_greater(s@, k@) == fraction_greater(
                s@.subrange(i as int, s@.len() as int),
                k@.subrange(i as int, k@.len() as int),
            ),
        decreases s@.len() - i,
    {
        let ghost rs = s@.subrange(i as int, s@.len() as int);
        let ghost rk = k@.subrange(i as int, k@.len() as int);
        if i == s.len() {
            return false;
        }
        if i == k.len() {
            let mut j = i;
            while j < s.len()
                invariant
                    i <= j <= s@.len(),
                    i < s@.len(),
                    i == k@.len(),
                    rs == s@.subrange(i as int, s@.len() as int),
                    rk == k@.subrange(i as int, k@.len() as int),
                    fraction_greater(s@, k@) == fraction_greater(rs, rk),
                    forall|q: int| i <= q < j ==> !('1' <= #[trigger] s@[q] <= '9'),
                decreases s@.len() - j,
            {
                if '1' <= s[j] && s[j] <= '9' {
                    assert(rs[j - i] == s@[j as int]);
                    assert(rk.len() == 0);
                    assert(rs.len() > 0);
                    assert('1' <= rs[j - i] <= '9');
                    return true;
                }
                j += 1;
            }
            assert forall|q: int| 0 <= q < rs.len() implies !('1' <= #[trigger] rs[q] <= '9') by {
                assert(rs[q] == s@[q + i]);
            }
            return false;
        }
        assert(rs[0] == s@[i as int]);
        assert(rk[0] == k@[i as int]);
        if s[i] > k[i] {
            return true;
        }
        if s[i] < k[i] {
            return false;
        }
        assert(rs.drop_first() =~= s@.subrange(i + 1, s@.len() as int));
        assert(rk.drop_first() =~= k@.subrange(i + 1, k@.len() as int));
        i += 1;
    }
}

/// Past this magnitude an exponent decides the sign of `lead + 324` on its own.
const EXPONENT_CAP: i128 = 1267650600228229401496703205376;

/// The value of an exponent `Sign? Digit+`, capped at `EXPONENT_CAP` in magnitude.
fn capped_exponent(x: &[char]) -> (e: i128)
    requires
        is_exponent_digits(x@),
    ensures
        exponent_value(x@) >= EXPONENT_CAP ==> e == EXPONENT_CAP,
        exponent_value(x@) <= -EXPONENT_CAP ==> e == -EXPONENT_CAP,
        -EXPONENT_CAP < exponent_value(x@) < EXPONENT_CAP ==> e == exponent_value(x@),
{
    let neg = x.len() > 0 && x[0] == '-';
    let start: usize = if x.len() > 0 && (x[0] == '-' || x[0] == '+') {
        1
    } else {
        0
    };
    let ghost y = x@.subrange(start as int, x@.len() as int);
    assert(start == 1 ==> y =~= x@.drop_first());
    assert(start == 0 ==> y =~= x@);
    let mut v: i128 = 0;
    let mut i = start;
    while i < x.len()
        invariant
            start <= i <= x@.len(),
            y == x@.subrange(start as int, x@.len() as int),
            all_digits(y),
            0 <= v <= EXPONENT_CAP,
            digits_value(y.subrange(0, i - start)) >= EXPONENT_CAP ==> v == EXPONENT_CAP,
            digits_value(y.subrange(0, i - start)) < EXPONENT_CAP ==> v == digits_value(
                y.subrange(0, i - start),
            ),
        decreases x@.len() - i,
    {
        let ghost pre = y.subrange(0, i - start);
        let ghost next = y.subrange(0, i - start + 1);
        assert(next.drop_last() =~= pre);
        assert(next.last() == x@[i as int]);
        assert(is_digit(y[i - start]));
        let dgt = (x[i] as u32 - '0' as u32) as i128;
        assert(digits_value(next) == digits_value(pre) * 10 + dgt);
        let w = v * 10 + dgt;
        v = if w >= EXPONENT_CAP {
            EXPONENT_CAP
        } else {
            w
        };
        i += 1;
    }
    assert(y.subrange(0, i - start) =~= y);
    if neg {
        -v
    } else {
        v
    }
}

/// Whether `t.parse::<f64>()` gives a value below zero.
pub fn is_negative_number_chars(t: &[char]) -> (r: bool)
    ensures
        r == is_negative_number(t@),
{
    if !is_float_literal_chars(t) || t.len() == 0 || t[0] != '-' {
        return false;
    }
    let n = t.len();
    let b = vstd::slice::slice_subrange(t, 1, n);
    assert(b@ =~= t@.drop_first());
    let inf = chars_of("inf");
    let infinity = chars_of("infinity");
    let nan = chars_of("nan");
    assert(b@.subrange(0, b@.len() as int) =~= b@);
    if eq_ignore_case_range(b, 0, b.len(), inf.as_slice()) || eq_ignore_case_range(
        b,
        0,
        b.len(),
        infinity.as_slice(),
    ) {
        return true;
    }
    if eq_ignore_case_range(b, 0, b.len(), nan.as_slice()) {
        return false;
    }
    // the exponent marker
    let mut k: usize = 0;
    while k < b.len() && b[k] != 'e' && b[k] != 'E'
        invariant
            k <= b@.len(),
            first_exp_marker(b@, 0) == first_exp_marker(b@, k as int),
        decreases b@.len() - k,
    {
        k += 1;
    }
    let ghost bs = b@;
    assert(first_exp_marker(bs, k as int) == k);
    // the mantissa is a well-formed number here
    assert(!eq_ignore_case(bs, "inf"@) && !eq_ignore_case(bs, "infinity"@) && !eq_ignore_case(
        bs,
        "nan"@,
    ));
    let m = vstd::slice::slice_subrange(b, 0, k);
    // the decimal point
    let mut p: usize = 0;
    while p < m.len() && m[p] != '.'
        invariant
            p <= m@.len(),
            first_dot(m@, 0) == first_dot(m@, p as int),
        decreases m@.len() - p,
    {
        p += 1;
    }
    assert(first_dot(m@, p as int) == p);
    let d: Vec<char> = if p < m.len() {
        let mut v = copy_range(m, 0, p);
        push_range(&mut v, m, p + 1, m.len());
        v
    } else {
        assert(m@.subrange(0, m@.len() as int) =~= m@);
        copy_range(m, 0, m.len())
    };
    assert(d@ == mantissa_digits(m@));
    // the first nonzero digit
    let mut z: usize = 0;
    while z < d.len() && d[z] == '0'
        invariant
            z <= d@.len(),
            first_nonzero(d@, 0) == first_nonzero(d@, z as int),
        decreases d@.len() - z,
    {
        z += 1;
    }
    assert(first_nonzero(d@, z as int) == z);
    if z == d.len() {
        return false;
    }
    let e: i128 = if k < b.len() {
        let x = vstd::slice::slice_subrange(b, k + 1, b.len());
        assert(is_exponent_digits(x@));
        capped_exponent(x)
    } else {
        0
    };
    let ghost ev: int = if k < b@.len() {
        exponent_value(b@.subrange(k + 1, b@.len() as int))
    } else {
        0
    };
    let lead: i128 = p as i128 - 1 - z as i128 + e;
    let ghost true_lead: int = p - 1 - z + ev;
    assert(lead > -324 <==> true_lead > -324);
    assert(lead == -324 <==> true_lead == -324);
    if lead > -324 {
        return true;
    }
    if lead < -324 {
        return false;
    }
    let rest = vstd::slice::slice_subrange(d.as_slice(), z, d.len());
    let kd = chars_of(HALF_MIN_SUBNORMAL_DIGITS);
    fraction_greater_chars(rest, kd.as_slice())
}

} // verus!
