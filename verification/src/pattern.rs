//! Line patterns, matched with the `regex` crate, and the verified extraction of the
//! numbers they capture.

use regex::Regex;
use vstd::prelude::*;

use crate::text::{
    chars_of, is_float_literal, is_float_literal_chars, parse_u32, parse_u32_spec, string_from_chars,
    trim, trim_range,
};

verus! {

/// `regex::Regex`, a compiled regular expression; opaque here.
#[verifier::external_type_specification]
#[verifier::external_body]
pub struct ExRegex(Regex);

/// `regex::Error`, why a pattern did not compile; opaque here.
#[verifier::external_type_specification]
#[verifier::external_body]
pub struct ExRegexError(regex::Error);

/// Whether `regex::Regex::new(pattern)` succeeds.
pub uninterp spec fn regex_compiles(pattern: Seq<char>) -> bool;

/// What `regex::Regex::captures` reports for the regex `pattern` (which compiles) on
/// `haystack`: `None` when the regex matches nowhere; otherwise, for the first match
/// (leftmost-first), the text of every capture group in order of its opening `(`,
/// group 0 being the whole match and `None` standing for a group that took no part.
pub uninterp spec fn regex_captures(pattern: Seq<char>, haystack: Seq<char>) -> Option<
    Seq<Option<Seq<char>>>,
>;

/// `regex::Regex::new`: compiles `source`; `Ok` exactly when the pattern compiles.
#[verifier::external_body]
fn regex_new(source: &str) -> (res: Result<Regex, regex::Error>)
    ensures
        res is Ok <==> regex_compiles(source@),
{
    Regex::new(source)
}

/// A regex together with the pattern it was compiled from. Values of this type are
/// only made by [`Pattern::new`], from the result of `Regex::new(source)`.
struct Compiled {
    source: &'static str,
    re: Regex,
}

/// `regex::Regex::captures` followed by `regex::Captures::get(i)`: the text of capture
/// group `i` of the first match of `c.re` in `line`.
#[verifier::external_body]
fn captures_group(c: &Compiled, line: &[char], i: usize) -> (res: Option<Vec<char>>)
    ensures
        match res {
            Some(g) => group_of(regex_captures(c.source@, line@), i as int) == Some(g@),
            None => group_of(regex_captures(c.source@, line@), i as int) is None,
        },
{
    let haystack: String = line.iter().collect();
    match c.re.captures(&haystack) {
        Some(caps) => match caps.get(i) {
            Some(m) => Some(m.as_str().chars().collect()),
            None => None,
        },
        None => None,
    }
}

/// Group `i` of a capture result.
pub open spec fn group_of(caps: Option<Seq<Option<Seq<char>>>>, i: int) -> Option<Seq<char>> {
    match caps {
        Some(gs) => if 0 <= i < gs.len() {
            gs[i]
        } else {
            None
        },
        None => None,
    }
}

/// Group `i` of the first match of `pattern` in `line`; `None` also when the pattern
/// does not compile.
pub open spec fn group(pattern: Seq<char>, line: Seq<char>, i: int) -> Option<Seq<char>> {
    if regex_compiles(pattern) {
        group_of(regex_captures(pattern, line), i)
    } else {
        None
    }
}

/// A line pattern: its source text and, when it compiles, the compiled regex.
pub struct Pattern {
    source: &'static str,
    compiled: Option<Compiled>,
}

impl Pattern {
    #[verifier::type_invariant]
    spec fn inv(self) -> bool {
        &&& (self.compiled matches Some(c) ==> c.source@ == self.source@)
        &&& (self.compiled is Some <==> regex_compiles(self.source@))
    }

    /// The regex source this pattern was made from.
    pub closed spec fn source_text(&self) -> Seq<char> {
        self.source@
    }

    /// Compiles `source` (once; reuse the pattern for every line).
    pub fn new(source: &'static str) -> (res: Pattern)
        ensures
            res.source_text() == source@,
    {
        match regex_new(source) {
            Ok(re) => Pattern { source, compiled: Some(Compiled { source, re }) },
            Err(_) => Pattern { source, compiled: None },
        }
    }

    /// Capture group `i` of the first match in `line`.
    pub fn group(&self, line: &[char], i: usize) -> (res: Option<Vec<char>>)
        ensures
            match res {
                Some(g) => group(self.source_text(), line@, i as int) == Some(g@),
                None => group(self.source_text(), line@, i as int) is None,
            },
    {
        proof {
            use_type_invariant(self);
        }
        match &self.compiled {
            Some(c) => captures_group(c, line, i),
            None => None,
        }
    }
}

/// Fortran writes exponents with `D`; every `D` or `d` becomes `E`.
pub open spec fn fortran_exponent_to_e(s: Seq<char>) -> Seq<char> {
    s.map_values(|c: char| if c == 'D' || c == 'd' { 'E' } else { c })
}

/// A captured number as the text `f64::from_str` accepts, after `D`/`d` exponents are
/// turned into `E`; `None` when it is no such number.
pub open spec fn float_text_spec(g: Seq<char>) -> Option<Seq<char>> {
    let t = fortran_exponent_to_e(g);
    if is_float_literal(t) {
        Some(t)
    } else {
        None
    }
}

/// The number that capture group `i` holds, as the text `f64::from_str` accepts, after
/// `D`/`d` exponents are turned into `E`.
pub open spec fn cap_f64_spec(pattern: Seq<char>, line: Seq<char>, i: int) -> Option<Seq<char>> {
    match group(pattern, line, i) {
        Some(g) => float_text_spec(g),
        None => None,
    }
}

/// The `u32` that capture group `i` holds, once trimmed.
pub open spec fn cap_u32_spec(pattern: Seq<char>, line: Seq<char>, i: int) -> Option<u32> {
    match group(pattern, line, i) {
        Some(g) => parse_u32_spec(trim(g)),
        None => None,
    }
}

/// The `u32` that capture group `i` holds, untrimmed.
pub open spec fn cap_u32_raw_spec(pattern: Seq<char>, line: Seq<char>, i: int) -> Option<u32> {
    match group(pattern, line, i) {
        Some(g) => parse_u32_spec(g),
        None => None,
    }
}

/// A captured number read as a floating-point number: the text of the number, `D`/`d`
/// exponents written as `E`, when `f64::from_str` accepts it.
pub fn float_text(g: &[char]) -> (res: Option<String>)
    ensures
        match res {
            Some(t) => float_text_spec(g@) == Some(t@),
            None => float_text_spec(g@) is None,
        },
{
    let mut t: Vec<char> = Vec::new();
    let mut k: usize = 0;
    while k < g.len()
        invariant
            k <= g@.len(),
            t@ == fortran_exponent_to_e(g@.subrange(0, k as int)),
        decreases g@.len() - k,
    {
        let c = g[k];
        t.push(
            if c == 'D' || c == 'd' {
                'E'
            } else {
                c
            },
        );
        k += 1;
        assert(fortran_exponent_to_e(g@.subrange(0, k as int)) =~= fortran_exponent_to_e(
            g@.subrange(0, k - 1),
        ).push(t@.last()));
    }
    assert(g@.subrange(0, g@.len() as int) =~= g@);
    if is_float_literal_chars(t.as_slice()) {
        Some(string_from_chars(t.as_slice()))
    } else {
        None
    }
}

/// Capture group `idx` of `re` in `line`, read as a floating-point number (the text of
/// the number is returned, `D`/`d` exponents written as `E`).
pub fn cap_f64(re: &Pattern, line: &[char], idx: usize) -> (res: Option<String>)
    ensures
        match res {
            Some(t) => cap_f64_spec(re.source_text(), line@, idx as int) == Some(t@),
            None => cap_f64_spec(re.source_text(), line@, idx as int) is None,
        },
{
    match re.group(line, idx) {
        Some(g) => float_text(g.as_slice()),
        None => None,
    }
}

/// Capture group `idx` of `re` in `line`, trimmed and read as a `u32`.
pub fn cap_u32(re: &Pattern, line: &[char], idx: usize) -> (res: Option<u32>)
    ensures
        res == cap_u32_spec(re.source_text(), line@, idx as int),
{
    match re.group(line, idx) {
        Some(g) => {
            let (a, b) = trim_range(g.as_slice(), 0, g.len());
            assert(g@.subrange(0, g@.len() as int) =~= g@);
            let t = crate::text::copy_range(g.as_slice(), a, b);
            parse_u32(t.as_slice())
        },
        None => None,
    }
}

/// Capture group `idx` of `re` in `line`, read as a `u32` as it stands.
pub fn cap_u32_raw(re: &Pattern, line: &[char], idx: usize) -> (res: Option<u32>)
    ensures
        res == cap_u32_raw_spec(re.source_text(), line@, idx as int),
{
    match re.group(line, idx) {
        Some(g) => parse_u32(g.as_slice()),
        None => None,
    }
}

} // verus!
