//! Parsing of wannier90 output.

use vstd::prelude::*;

use crate::app::{RunInfo, RunInfoView};
use crate::wannier90::metrics::{
    DisentanglementBlock, DisentanglementBlockView, SpreadBlockView, WannierMetrics,
    WannierMetricsView,
};
use crate::pw::parser::first_lines;
use crate::pw::metrics::{group_metrics_views, texts};
use crate::text::{
    is_ws, occurs_at, find,
    ends_with_chars, is_float_literal_chars, is_negative_number_chars, last_word_slice,
    nth_word_slice, parse_u32, starts_with_chars, tail, trim_end_char_slice,
    after_first, after_first_chars, chars_of, contains, contains_chars, ends_with, first_word_string,
    is_float_literal, is_negative_number, last_word, line_spans, lines_of, nth_word, parse_u32_spec,
    starts_with, trim_end_char, opt_seq, replace, replace_chars, rfind, rfind_chars, string_from_chars,
    trim, trim_char, trim_char_slice, trim_slice, trim_start, trim_start_slice, trim_start_str,
    trim_start_str_slice,
};
use crate::{WANN_MARKER, WANN_RESUME_MARKER};

verus! {

broadcast use group_metrics_views;

/// The title line of the wannier90 banner.
pub const WANN_BANNER_TITLE: &'static str = "WANNIER90";

/// How far above the welcome line (in bytes) the banner title may sit for the run to
/// start at the title.
pub const BANNER_LOOKBEHIND: usize = 512;

/// Bytes of the UTF-8 encoding of `c`.
pub open spec fn utf8_width(c: char) -> nat {
    if (c as u32) < 0x80 {
        1
    } else if (c as u32) < 0x800 {
        2
    } else if (c as u32) < 0x10000 {
        3
    } else {
        4
    }
}

/// Bytes of the UTF-8 encoding of `s`.
pub open spec fn utf8_len(s: Seq<char>) -> nat
    decreases s.len(),
{
    if s.len() == 0 {
        0
    } else {
        utf8_len(s.drop_last()) + utf8_width(s.last())
    }
}

/// Index of the start of the line that holds position `pos` (just after the last
/// `'\n'` before `pos`).
pub open spec fn line_start_spec(s: Seq<char>, pos: int) -> int
    decreases pos,
{
    if pos <= 0 {
        0
    } else if s[pos - 1] == '\n' {
        pos
    } else {
        line_start_spec(s, pos - 1)
    }
}

/// Where the most recent wannier90 run starts in `output`: at the banner title above
/// the last welcome line when it sits close enough, else at the last welcome line; with
/// no welcome line, at the last resume line; with neither, at the start.
pub open spec fn last_run_start(s: Seq<char>) -> int {
    match rfind(s, WANN_MARKER@) {
        Some(w) => {
            let wl = line_start_spec(s, w);
            match rfind(s.subrange(0, wl), WANN_BANNER_TITLE@) {
                Some(t) => if utf8_len(s.subrange(t, wl)) <= BANNER_LOOKBEHIND {
                    line_start_spec(s, t)
                } else {
                    wl
                },
                None => wl,
            }
        },
        None => match rfind(s, WANN_RESUME_MARKER@) {
            Some(r) => line_start_spec(s, r),
            None => 0,
        },
    }
}

/// `output` restricted to its most recent wannier90 run. EPW drives wannier90 in
/// library mode and appends to an existing `.wout`, so one file can hold several runs
/// back to back.
pub open spec fn last_run_spec(s: Seq<char>) -> Seq<char> {
    s.subrange(last_run_start(s), s.len() as int)
}

pub proof fn lemma_line_start(s: Seq<char>, pos: int)
    requires
        0 <= pos <= s.len(),
    ensures
        0 <= line_start_spec(s, pos) <= pos,
        line_start_spec(s, pos) > 0 ==> s[line_start_spec(s, pos) - 1] == '\n',
        forall|k: int| line_start_spec(s, pos) <= k < pos ==> s[k] != '\n',
    decreases pos,
{
    if pos > 0 && s[pos - 1] != '\n' {
        lemma_line_start(s, pos - 1);
    }
}

/// Index of the start of the line that holds position `pos`.
pub fn line_start(s: &[char], pos: usize) -> (res: usize)
    requires
        pos <= s@.len(),
    ensures
        res == line_start_spec(s@, pos as int),
{
    let mut p = pos;
    while p > 0 && s[p - 1] != '\n'
        invariant
            p <= pos <= s@.len(),
            line_start_spec(s@, pos as int) == line_start_spec(s@, p as int),
        decreases p,
    {
        p -= 1;
    }
    p
}

pub fn utf8_width_of(c: char) -> (w: usize)
    ensures
        w == utf8_width(c),
{
    let u = c as u32;
    if u < 0x80 {
        1
    } else if u < 0x800 {
        2
    } else if u < 0x10000 {
        3
    } else {
        4
    }
}

/// Whether `s[from..to]` takes at most `limit` bytes in UTF-8.
pub fn utf8_len_at_most(s: &[char], from: usize, to: usize, limit: usize) -> (b: bool)
    requires
        from <= to <= s@.len(),
        limit <= BANNER_LOOKBEHIND,
    ensures
        b == (utf8_len(s@.subrange(from as int, to as int)) <= limit),
{
    let mut total: usize = 0;
    let mut i = from;
    while i < to
        invariant
            from <= i <= to <= s@.len(),
            limit <= BANNER_LOOKBEHIND,
            total == utf8_len(s@.subrange(from as int, i as int)),
            total <= limit,
        decreases to - i,
    {
        assert(s@.subrange(from as int, i + 1).drop_last() =~= s@.subrange(from as int, i as int));
        total = total + utf8_width_of(s[i]);
        i += 1;
        if total > limit {
            proof {
                lemma_utf8_len_mono(s@, from as int, i as int, to as int);
            }
            return false;
        }
    }
    true
}

proof fn lemma_utf8_len_mono(s: Seq<char>, from: int, i: int, to: int)
    requires
        0 <= from <= i <= to <= s.len(),
    ensures
        utf8_len(s.subrange(from, i)) <= utf8_len(s.subrange(from, to)),
    decreases to - i,
{
    if i < to {
        lemma_utf8_len_mono(s, from, i, to - 1);
        assert(s.subrange(from, to).drop_last() =~= s.subrange(from, to - 1));
    }
}

/// Where the most recent wannier90 run starts.
pub fn last_run_start_of(s: &[char]) -> (res: usize)
    ensures
        res == last_run_start(s@),
        res <= s@.len(),
{
    let welcome = chars_of(WANN_MARKER);
    match rfind_chars(s, welcome.as_slice()) {
        Some(w) => {
            proof {
                crate::text::lemma_rfind_upto(s@, WANN_MARKER@, s@.len() - WANN_MARKER@.len());
            }
            let wl = line_start(s, w);
            proof {
                lemma_line_start(s@, w as int);
            }
            let title = chars_of(WANN_BANNER_TITLE);
            let before = vstd::slice::slice_subrange(s, 0, wl);
            match rfind_chars(before, title.as_slice()) {
                Some(t) => {
                    proof {
                        crate::text::lemma_rfind_upto(
                            before@,
                            WANN_BANNER_TITLE@,
                            before@.len() - WANN_BANNER_TITLE@.len(),
                        );
                    }
                    if utf8_len_at_most(s, t, wl, BANNER_LOOKBEHIND) {
                        proof {
                            lemma_line_start(s@, t as int);
                        }
                        line_start(s, t)
                    } else {
                        wl
                    }
                },
                None => wl,
            }
        },
        None => {
            let resume = chars_of(WANN_RESUME_MARKER);
            match rfind_chars(s, resume.as_slice()) {
                Some(r) => {
                    proof {
                        crate::text::lemma_rfind_upto(
                            s@,
                            WANN_RESUME_MARKER@,
                            s@.len() - WANN_RESUME_MARKER@.len(),
                        );
                    }
                    proof {
                        lemma_line_start(s@, r as int);
                    }
                    line_start(s, r)
                },
                None => 0,
            }
        },
    }
}

/// `output` restricted to its most recent wannier90 run.
pub fn last_run(s: &[char]) -> (res: &[char])
    ensures
        res@ == last_run_spec(s@),
{
    let start = last_run_start_of(s);
    vstd::slice::slice_subrange(s, start, s.len())
}

/// Line starts keep their place when the text before `st` is cut off; a line that began
/// before the cut now begins at the start.
proof fn lemma_line_start_after_cut(s: Seq<char>, st: int, p: int)
    requires
        0 <= st <= p <= s.len(),
    ensures
        line_start_spec(s.subrange(st, s.len() as int), p - st) == if line_start_spec(s, p)
            >= st {
            line_start_spec(s, p) - st
        } else {
            0
        },
    decreases p,
{
    lemma_line_start(s, p);
    if p > st {
        assert(s.subrange(st, s.len() as int)[p - st - 1] == s[p - 1]);
        if s[p - 1] != '\n' {
            lemma_line_start_after_cut(s, st, p - 1);
        }
    }
}

proof fn lemma_last_run_start_bounds(s: Seq<char>)
    ensures
        0 <= last_run_start(s) <= s.len(),
        rfind(s, WANN_MARKER@) matches Some(w) ==> last_run_start(s) <= line_start_spec(s, w),
{
    crate::text::lemma_rfind_upto(s, WANN_MARKER@, s.len() - WANN_MARKER@.len());
    crate::text::lemma_rfind_upto(s, WANN_RESUME_MARKER@, s.len() - WANN_RESUME_MARKER@.len());
    match rfind(s, WANN_MARKER@) {
        Some(w) => {
            lemma_line_start(s, w);
            let wl = line_start_spec(s, w);
            let before = s.subrange(0, wl);
            crate::text::lemma_rfind_upto(before, WANN_BANNER_TITLE@, before.len() - WANN_BANNER_TITLE@.len());
            match rfind(before, WANN_BANNER_TITLE@) {
                Some(t) => {
                    lemma_line_start(s, t);
                },
                None => {},
            }
        },
        None => match rfind(s, WANN_RESUME_MARKER@) {
            Some(r) => {
                lemma_line_start(s, r);
            },
            None => {},
        },
    }
}

/// Cutting off text before the start of the most recent run moves that start back by
/// the length of the cut.
proof fn lemma_last_run_start_after_cut(s: Seq<char>, st: int)
    requires
        0 <= st <= last_run_start(s),
    ensures
        last_run_start(s.subrange(st, s.len() as int)) == last_run_start(s) - st,
{
    let n = s.len() as int;
    let c = s.subrange(st, n);
    lemma_last_run_start_bounds(s);
    assert(s.subrange(0, n) =~= s);
    crate::text::lemma_rfind_window(s, WANN_MARKER@, st, n);
    crate::text::lemma_rfind_window(s, WANN_RESUME_MARKER@, st, n);
    crate::text::lemma_rfind_upto(s, WANN_MARKER@, s.len() - WANN_MARKER@.len());
    crate::text::lemma_rfind_upto(s, WANN_RESUME_MARKER@, s.len() - WANN_RESUME_MARKER@.len());
    match rfind(s, WANN_MARKER@) {
        Some(w) => {
            lemma_line_start(s, w);
            let wl = line_start_spec(s, w);
            lemma_line_start_after_cut(s, st, w);
            assert(line_start_spec(c, w - st) == wl - st);
            let before = s.subrange(0, wl);
            assert(c.subrange(0, wl - st) =~= s.subrange(st, wl));
            crate::text::lemma_rfind_window(s, WANN_BANNER_TITLE@, st, wl);
            crate::text::lemma_rfind_upto(before, WANN_BANNER_TITLE@, before.len() - WANN_BANNER_TITLE@.len());
            match rfind(before, WANN_BANNER_TITLE@) {
                Some(t) => {
                    lemma_line_start(s, t);
                    if t >= st {
                        assert(c.subrange(t - st, wl - st) =~= s.subrange(t, wl));
                        lemma_line_start_after_cut(s, st, t);
                    }
                },
                None => {},
            }
        },
        None => match rfind(s, WANN_RESUME_MARKER@) {
            Some(r) => {
                lemma_line_start(s, r);
                lemma_line_start_after_cut(s, st, r);
            },
            None => {
                assert(c =~= s);
            },
        },
    }
}

/// Earlier runs do not leak into what is read: cutting off any part of the output that
/// lies before the most recent run leaves that run, its header and its metrics as they
/// were.
pub proof fn law_earlier_output_does_not_leak(s: Seq<char>, cut: int)
    requires
        0 <= cut <= last_run_start(s),
    ensures
        last_run_spec(s.subrange(cut, s.len() as int)) == last_run_spec(s),
        parse_metrics_spec(s.subrange(cut, s.len() as int)) == parse_metrics_spec(s),
        parse_run_info_spec(s.subrange(cut, s.len() as int)) == parse_run_info_spec(s),
{
    lemma_last_run_start_bounds(s);
    lemma_last_run_start_after_cut(s, cut);
    assert(last_run_spec(s.subrange(cut, s.len() as int)) =~= last_run_spec(s));
}

/// Only the most recent run is parsed: the run alone reads exactly as the whole output,
/// and it is its own most recent run.
pub proof fn law_only_the_last_run_is_parsed(s: Seq<char>)
    ensures
        last_run_spec(last_run_spec(s)) == last_run_spec(s),
        parse_metrics_spec(last_run_spec(s)) == parse_metrics_spec(s),
        parse_run_info_spec(last_run_spec(s)) == parse_run_info_spec(s),
{
    lemma_last_run_start_bounds(s);
    law_earlier_output_does_not_leak(s, last_run_start(s));
}


// ==================================================
// Run info
// ==================================================

/// What one header line tells about the run; a field, once known, is kept.
pub open spec fn run_info_step(ri: RunInfoView, raw: Seq<char>) -> RunInfoView {
    let line = trim_start(raw);
    let ri = if ri.executable is None && (contains(line, WANN_BANNER_TITLE@) || contains(
        line,
        WANN_RESUME_MARKER@,
    )) {
        RunInfoView { executable: Some("Wannier90.x"@), ..ri }
    } else {
        ri
    };
    let ri = if ri.version is None {
        match after_first(line, "Release:"@) {
            Some(a) => RunInfoView { version: nth_word(a, 0), ..ri },
            None => ri,
        }
    } else {
        ri
    };
    let ri = if ri.start_time is None {
        match after_first(line, "Execution started on"@) {
            Some(a) => RunInfoView {
                start_time: Some(replace(trim(trim_char(trim(a), '|')), " at "@, " "@)),
                ..ri
            },
            None => ri,
        }
    } else {
        ri
    };
    // A banner-less run has no "Execution started on" line; its resume line carries
    // the only timestamp. Checked second so the banner still wins.
    let ri = if ri.start_time is None {
        match after_first(line, WANN_RESUME_MARKER@) {
            Some(a) => {
                let t = trim(trim_start_str(trim(a), "at"@));
                if t.len() > 0 {
                    RunInfoView { start_time: Some(t), ..ri }
                } else {
                    ri
                }
            },
            None => ri,
        }
    } else {
        ri
    };
    if ri.mpi_ranks is None {
        if contains(line, "Running in serial"@) {
            RunInfoView { mpi_ranks: Some("1"@), ..ri }
        } else {
            match after_first(line, "Running in parallel on"@) {
                Some(a) => RunInfoView { mpi_ranks: nth_word(a, 0), ..ri },
                None => ri,
            }
        }
    } else {
        ri
    }
}

/// A header line telling the MPI ranks, with no earlier rank count: the ranks are the
/// first word after "Running in parallel on" (the count, as in "Running in parallel on
/// 4 CPUs"), unless the line says it runs in serial, which is one rank.
pub proof fn law_mpi_ranks_are_the_count_after_the_phrase(
    ri: RunInfoView,
    raw: Seq<char>,
    before: Seq<char>,
    gap: Seq<char>,
    count: Seq<char>,
    rest: Seq<char>,
)
    requires
        ri.mpi_ranks is None,
        trim_start(raw) == before + "Running in parallel on"@ + gap + count + rest,
        !contains(before, "Running in parallel on"@),
        !contains(trim_start(raw), "Running in serial"@),
        forall|k: int| 0 <= k < gap.len() ==> is_ws(#[trigger] gap[k]),
        count.len() > 0,
        forall|k: int| 0 <= k < count.len() ==> !is_ws(#[trigger] count[k]),
        rest.len() == 0 || is_ws(rest[0]),
    ensures
        run_info_step(ri, raw).mpi_ranks == Some(count),
{
    let line = trim_start(raw);
    let phrase = "Running in parallel on"@;
    let tail = gap + count + rest;
    assert(line =~= before + phrase + tail);
    lemma_phrase_first_after(before, tail);
    let a = line.subrange((before.len() + phrase.len()) as int, line.len() as int);
    assert(a =~= tail);
    crate::text::lemma_first_word_of(gap, count, rest);
    lemma_ranks_step(ri, raw, a);
}

/// "Running in parallel on" first occurs right after a text that does not hold it.
#[verifier::rlimit(30)]
proof fn lemma_phrase_first_after(before: Seq<char>, tail: Seq<char>)
    requires
        !contains(before, "Running in parallel on"@),
    ensures
        find(before + "Running in parallel on"@ + tail, "Running in parallel on"@) == Some(
            before.len() as int,
        ),
{
    let phrase = "Running in parallel on"@;
    let line = before + phrase + tail;
    let p = before.len() as int;
    crate::text::lemma_find_from(line, phrase, 0);
    crate::text::lemma_find_from(before, phrase, 0);
    assert(line.subrange(p, p + phrase.len()) =~= phrase);
    assert(occurs_at(line, phrase, p));
    assert forall|j: int| 0 <= j < p implies !occurs_at(line, phrase, j) by {
        if occurs_at(line, phrase, j) {
            if j + phrase.len() <= p {
                assert(before.subrange(j, j + phrase.len()) =~= line.subrange(j, j + phrase.len()));
                assert(occurs_at(before, phrase, j));
            } else {
                // the phrase starts with its only capital letter, so no occurrence can
                // start before `p` and overlap the one at `p`
                reveal_strlit("Running in parallel on");
                assert(line.subrange(j, j + phrase.len()) == phrase);
                assert(line[p] == 'R');
                assert(line[p] == phrase[p - j]);
            }
        }
    }
}

/// A header line that says the run is serial gives one MPI rank; a rank count once read
/// is kept by every later line.
pub proof fn law_serial_run_has_one_rank(ri: RunInfoView, raw: Seq<char>)
    ensures
        ri.mpi_ranks is None && contains(trim_start(raw), "Running in serial"@) ==> run_info_step(
            ri,
            raw,
        ).mpi_ranks == Some("1"@),
        ri.mpi_ranks is Some ==> run_info_step(ri, raw).mpi_ranks == ri.mpi_ranks,
{
}

proof fn lemma_ranks_step(ri: RunInfoView, raw: Seq<char>, a: Seq<char>)
    requires
        ri.mpi_ranks is None,
        !contains(trim_start(raw), "Running in serial"@),
        after_first(trim_start(raw), "Running in parallel on"@) == Some(a),
    ensures
        run_info_step(ri, raw).mpi_ranks == nth_word(a, 0),
{
}

pub open spec fn run_info_fold(lines: Seq<Seq<char>>) -> RunInfoView
    decreases lines.len(),
{
    if lines.len() == 0 {
        RunInfoView::empty()
    } else {
        run_info_step(run_info_fold(lines.drop_last()), lines.last())
    }
}

/// Every header field the scan fills is known.
pub open spec fn header_complete(ri: RunInfoView) -> bool {
    ri.executable is Some && ri.version is Some && ri.start_time is Some && ri.mpi_ranks is Some
}

/// The run header of the most recent run, from its first 100 lines. wannier90 only uses
/// OpenMP implicitly (in BLAS and the like), so the thread count is reported as `-`.
pub open spec fn parse_run_info_spec(s: Seq<char>) -> RunInfoView {
    RunInfoView { omp_threads: Some("-"@), ..run_info_fold(first_lines(last_run_spec(s), 100)) }
}

proof fn lemma_complete_header_is_final(lines: Seq<Seq<char>>, i: int, j: int)
    requires
        0 <= i <= j <= lines.len(),
        header_complete(run_info_fold(lines.take(i))),
    ensures
        run_info_fold(lines.take(j)) == run_info_fold(lines.take(i)),
    decreases j - i,
{
    if j > i {
        lemma_complete_header_is_final(lines, i, j - 1);
        assert(lines.take(j).drop_last() =~= lines.take(j - 1));
    }
}

fn run_info_line(ri: &mut RunInfo, raw: &[char])
    ensures
        final(ri)@ == run_info_step(old(ri)@, raw@),
{
    let line = trim_start_slice(raw);
    if ri.executable.is_none() {
        let title = chars_of(WANN_BANNER_TITLE);
        let resume = chars_of(WANN_RESUME_MARKER);
        if contains_chars(line, title.as_slice()) || contains_chars(line, resume.as_slice()) {
            ri.executable = Some("Wannier90.x".to_owned());
        }
    }
    if ri.version.is_none() {
        let release = chars_of("Release:");
        match after_first_chars(line, release.as_slice()) {
            Some(a) => {
                ri.version = first_word_string(a);
            },
            None => {},
        }
    }
    if ri.start_time.is_none() {
        let started = chars_of("Execution started on");
        match after_first_chars(line, started.as_slice()) {
            Some(a) => {
                let t = trim_slice(trim_char_slice(trim_slice(a), '|'));
                let at = chars_of(" at ");
                let space = chars_of(" ");
                let r = replace_chars(t, at.as_slice(), space.as_slice());
                ri.start_time = Some(string_from_chars(r.as_slice()));
            },
            None => {},
        }
    }
    if ri.start_time.is_none() {
        let resume = chars_of(WANN_RESUME_MARKER);
        match after_first_chars(line, resume.as_slice()) {
            Some(a) => {
                let at = chars_of("at");
                let t = trim_slice(trim_start_str_slice(trim_slice(a), at.as_slice()));
                if t.len() > 0 {
                    ri.start_time = Some(string_from_chars(t));
                }
            },
            None => {},
        }
    }
    if ri.mpi_ranks.is_none() {
        let serial = chars_of("Running in serial");
        if contains_chars(line, serial.as_slice()) {
            ri.mpi_ranks = Some("1".to_owned());
        } else {
            let parallel = chars_of("Running in parallel on");
            match after_first_chars(line, parallel.as_slice()) {
                Some(a) => {
                    ri.mpi_ranks = first_word_string(a);
                },
                None => {},
            }
        }
    }
}

/// The run header of the most recent wannier90 run: program, release, start time and
/// MPI ranks, read from its first 100 lines.
pub fn parse_run_info(wannier90_output: &str) -> (res: RunInfo)
    ensures
        res@ == parse_run_info_spec(wannier90_output@),
{
    let all = chars_of(wannier90_output);
    let text = last_run(all.as_slice());
    let spans = line_spans(text);
    let n = if spans.len() <= 100 {
        spans.len()
    } else {
        100
    };
    let ghost lines = lines_of(text@);
    let ghost firsts = first_lines(text@, 100);
    assert(firsts =~= lines.take(n as int));
    let mut ri = RunInfo::default();
    let mut i: usize = 0;
    while i < n
        invariant
            n <= spans@.len() == lines.len(),
            lines == lines_of(text@),
            i <= n,
            ri@ == run_info_fold(lines.take(i as int)),
            forall|k: int|
                0 <= k < spans@.len() ==> {
                    &&& (#[trigger] spans@[k]).0 <= spans@[k].1 <= text@.len()
                    &&& text@.subrange(spans@[k].0 as int, spans@[k].1 as int) == lines[k]
                },
        decreases n - i,
    {
        let (a, b) = spans[i];
        let raw = vstd::slice::slice_subrange(text, a, b);
        run_info_line(&mut ri, raw);
        assert(lines.take(i + 1).drop_last() =~= lines.take(i as int));
        i += 1;
        // All header fields filled - no need to scan further.
        if ri.executable.is_some() && ri.version.is_some() && ri.start_time.is_some()
            && ri.mpi_ranks.is_some() {
            proof {
                lemma_complete_header_is_final(lines, i as int, n as int);
            }
            i = n;
        }
    }
    ri.omp_threads = Some("-".to_owned());
    ri
}


// ==================================================
// Metrics
// ==================================================

/// Parsing state between two lines of wannier90 output.
pub ghost struct WannierScan {
    pub wm: WannierMetricsView,
    pub in_disentanglement_block: bool,
    pub in_wannierization_block: bool,
    pub in_wannierise_section: bool,
    pub in_disentangle_section: bool,
    pub conv_buffer_value: Seq<char>,
    pub wf_accum: Seq<Seq<char>>,
}

pub open spec fn wannier_start() -> WannierScan {
    WannierScan {
        wm: WannierMetricsView::empty(),
        in_disentanglement_block: false,
        in_wannierization_block: false,
        in_wannierise_section: false,
        in_disentangle_section: false,
        conv_buffer_value: "0.0"@,
        wf_accum: seq![],
    }
}

/// The header of the wannierisation iteration table.
pub open spec fn conv_header() -> Seq<char> {
    "| Iter  Delta Spread     RMS Gradient      Spread (Ang^2)      Time  |<-- CONV"@
}

/// The tolerance key of the WANNIERISE and DISENTANGLE sections.
pub open spec fn tolerance_key() -> Seq<char> {
    "|  Convergence tolerence                     :"@
}

/// Per-Wannier-function spreads: "WF centre and spread   <N>   ( x, y, z )   <spread>".
/// Spreads accumulate until the block of a "Sum of centres and spreads" line, whose
/// block becomes the last complete one; spread 1 starts a new block.
pub open spec fn wf_step(st: WannierScan, line: Seq<char>) -> WannierScan {
    if contains(line, "WF centre and spread"@) {
        let index = match nth_word(line, 4) {
            Some(w) => parse_u32_spec(w),
            None => None,
        };
        match float_of(last_word(line)) {
            Some(sp) => WannierScan {
                wf_accum: if index == Some(1u32) {
                    seq![sp]
                } else {
                    st.wf_accum.push(sp)
                },
                ..st
            },
            None => st,
        }
    } else if contains(line, "Sum of centres and spreads"@) && st.wf_accum.len() > 0 {
        WannierScan {
            wm: WannierMetricsView {
                spread_block: SpreadBlockView { wf_spreads_last: st.wf_accum, ..st.wm.spread_block },
                ..st.wm
            },
            ..st
        }
    } else {
        st
    }
}

/// A word that reads as a number.
pub open spec fn float_of(w: Option<Seq<char>>) -> Option<Seq<char>> {
    match w {
        Some(w) => if is_float_literal(w) {
            Some(w)
        } else {
            None
        },
        None => None,
    }
}

/// WANNIERISE / DISENTANGLE header sections, which give the iteration limits.
pub open spec fn section_step(st: WannierScan, line: Seq<char>) -> WannierScan {
    let st = if starts_with(line, "*"@) && ends_with(line, "*"@) {
        if contains(line, "WANNIERISE"@) {
            WannierScan { in_wannierise_section: true, in_disentangle_section: false, ..st }
        } else if contains(line, "DISENTANGLE"@) {
            WannierScan { in_disentangle_section: true, in_wannierise_section: false, ..st }
        } else if st.in_wannierise_section || st.in_disentangle_section {
            WannierScan { in_wannierise_section: false, in_disentangle_section: false, ..st }
        } else {
            st
        }
    } else {
        st
    };
    if (st.in_wannierise_section || st.in_disentangle_section) && contains(
        line,
        "Total number of iterations"@,
    ) && rfind(line, ":"@) is Some {
        let pos = rfind(line, ":"@)->0;
        match parse_u32_spec(trim(trim_end_char(trim(line.subrange(pos + 1, line.len() as int)), '|'))) {
            Some(n) => if st.in_wannierise_section {
                WannierScan { wm: WannierMetricsView { wannierize_max_iterations: Some(n), ..st.wm }, ..st }
            } else {
                WannierScan { wm: WannierMetricsView { dis_max_iterations: Some(n), ..st.wm }, ..st }
            },
            None => st,
        }
    } else {
        st
    }
}

/// Entering and leaving the disentanglement and wannierisation iteration tables.
pub open spec fn block_flags_step(st: WannierScan, line: Seq<char>) -> WannierScan {
    let st = if contains(line, "Extraction of optimally-connected subspace"@) {
        WannierScan { in_disentanglement_block: true, ..st }
    } else {
        st
    };
    let st = if contains(line, "Time to disentangle bands"@) {
        WannierScan { in_disentanglement_block: false, ..st }
    } else {
        st
    };
    let st = if contains(line, conv_header()) {
        WannierScan { in_wannierization_block: true, ..st }
    } else {
        st
    };
    if contains(line, "Time for wannierise"@) {
        WannierScan { in_wannierization_block: false, ..st }
    } else {
        st
    }
}

/// Outside the iteration tables: whether disentanglement is used, and the tolerances.
/// The first tolerance read is the wannierisation one (while it is still below zero);
/// later ones are the disentanglement tolerance when disentanglement is used.
pub open spec fn settings_step(st: WannierScan, line: Seq<char>) -> WannierScan {
    if !st.in_disentanglement_block && !st.in_wannierization_block {
        let st = if contains(line, "Using band disentanglement"@) {
            if contains(line, "T"@) && contains(line, ":"@) {
                WannierScan { wm: WannierMetricsView { has_disentanglement: true, ..st.wm }, ..st }
            } else if contains(line, "F"@) && contains(line, ":"@) {
                WannierScan { wm: WannierMetricsView { has_disentanglement: false, ..st.wm }, ..st }
            } else {
                st
            }
        } else {
            st
        };
        match after_first(line, tolerance_key()) {
            Some(a) => {
                let v = trim(trim_end_char(trim(a), '|'));
                let buffer = if is_float_literal(v) {
                    v
                } else {
                    st.conv_buffer_value
                };
                let wm = if is_negative_number(st.wm.wannierize_conv_threshold) {
                    WannierMetricsView { wannierize_conv_threshold: buffer, ..st.wm }
                } else if st.wm.has_disentanglement {
                    WannierMetricsView { disentanglement_conv_threshold: Some(buffer), ..st.wm }
                } else {
                    st.wm
                };
                WannierScan { wm, conv_buffer_value: buffer, ..st }
            },
            None => st,
        }
    } else {
        st
    }
}

/// The words of a disentanglement row "Iter  Omega_I(i-1)  Omega_I(i)  Delta(frac.)  Time
/// <-- DIS" that carry Omega_I(i), its change and the time.
pub open spec fn dis_row(line: Seq<char>) -> Option<(Seq<char>, Seq<char>, Seq<char>)> {
    match (float_of(nth_word(line, 2)), float_of(nth_word(line, 3)), float_of(nth_word(line, 4))) {
        (Some(o), Some(d), Some(t)) => Some((o, d, t)),
        _ => None,
    }
}

/// The words of a wannierisation row "Iter  Delta Spread  RMS Gradient  Spread  Time
/// <-- CONV" that carry the change of spread, the spread and the time.
pub open spec fn conv_row(line: Seq<char>) -> Option<(Seq<char>, Seq<char>, Seq<char>)> {
    match (float_of(nth_word(line, 1)), float_of(nth_word(line, 3)), float_of(nth_word(line, 4))) {
        (Some(d), Some(s), Some(t)) => Some((d, s, t)),
        _ => None,
    }
}

/// Inside the iteration tables: the rows, and how disentanglement ended.
pub open spec fn rows_step(st: WannierScan, line: Seq<char>) -> WannierScan {
    let st = if st.in_disentanglement_block {
        if contains(line, "<-- DIS"@) && !contains(line, "Iter"@) && !contains(line, "+---"@) {
            match dis_row(line) {
                Some((o, d, t)) => {
                    let b = match st.wm.disentanglement_block {
                        Some(b) => b,
                        None => DisentanglementBlockView::empty(),
                    };
                    WannierScan {
                        wm: WannierMetricsView {
                            disentanglement_block: Some(
                                DisentanglementBlockView {
                                    omega_i: b.omega_i.push(o),
                                    delta_omega_i: b.delta_omega_i.push(d),
                                    cpu_time: b.cpu_time.push(t),
                                },
                            ),
                            ..st.wm
                        },
                        ..st
                    }
                },
                None => st,
            }
        } else if contains(line, "<<< Disentanglement convergence criteria satisfied >>>"@) {
            WannierScan { wm: WannierMetricsView { disentanglement_converged: Some(true), ..st.wm }, ..st }
        } else if contains(line, "<<< Disentanglement convergence criteria not satisfied >>>"@) {
            WannierScan { wm: WannierMetricsView { disentanglement_converged: Some(false), ..st.wm }, ..st }
        } else {
            st
        }
    } else {
        st
    };
    if st.in_wannierization_block && contains(line, "<-- CONV"@) && !contains(line, "Iter"@)
        && !contains(line, "+---"@) && !contains(line, "+----"@) {
        match conv_row(line) {
            Some((d, sp, t)) => WannierScan {
                wm: WannierMetricsView {
                    spread_block: SpreadBlockView {
                        delta_spread: st.wm.spread_block.delta_spread.push(d),
                        spread: st.wm.spread_block.spread.push(sp),
                        cpu_time: st.wm.spread_block.cpu_time.push(t),
                        ..st.wm.spread_block
                    },
                    ..st.wm
                },
                ..st
            },
            None => st,
        }
    } else {
        st
    }
}

/// What one line of wannier90 output does to the parsing state.
pub open spec fn wannier_step(st: WannierScan, raw: Seq<char>) -> WannierScan {
    let line = trim_start(raw);
    rows_step(settings_step(block_flags_step(section_step(wf_step(st, line), line), line), line), line)
}

pub open spec fn wannier_fold(lines: Seq<Seq<char>>) -> WannierScan
    decreases lines.len(),
{
    if lines.len() == 0 {
        wannier_start()
    } else {
        wannier_step(wannier_fold(lines.drop_last()), lines.last())
    }
}

/// Everything measured so far in the most recent wannier90 run.
pub open spec fn parse_metrics_spec(s: Seq<char>) -> WannierMetricsView {
    wannier_fold(lines_of(last_run_spec(s))).wm
}

/// A line "WF centre and spread  <n>  ( x, y, z )  <spread>" with number `n` and the
/// spread `sp`.
pub open spec fn is_wf_spread_line(raw: Seq<char>, n: u32, sp: Seq<char>) -> bool {
    let line = trim_start(raw);
    &&& contains(line, "WF centre and spread"@)
    &&& nth_word(line, 4) matches Some(w) && parse_u32_spec(w) == Some(n)
    &&& last_word(line) == Some(sp)
    &&& is_float_literal(sp)
}

/// A line "Sum of centres and spreads ...", which closes a block of Wannier functions.
pub open spec fn is_wf_sum_line(raw: Seq<char>) -> bool {
    &&& contains(trim_start(raw), "Sum of centres and spreads"@)
    &&& !contains(trim_start(raw), "WF centre and spread"@)
}

proof fn lemma_wf_line_step(st: WannierScan, raw: Seq<char>, n: u32, sp: Seq<char>)
    requires
        is_wf_spread_line(raw, n, sp),
    ensures
        wannier_step(st, raw).wf_accum == if n == 1 {
            seq![sp]
        } else {
            st.wf_accum.push(sp)
        },
{
    let line = trim_start(raw);
    let s1 = wf_step(st, line);
    assert(s1.wf_accum == if n == 1 {
        seq![sp]
    } else {
        st.wf_accum.push(sp)
    });
    let s2 = section_step(s1, line);
    assert(s2.wf_accum == s1.wf_accum);
    let s3 = block_flags_step(s2, line);
    assert(s3.wf_accum == s1.wf_accum);
    let s4 = settings_step(s3, line);
    assert(s4.wf_accum == s1.wf_accum);
    assert(rows_step(s4, line).wf_accum == s1.wf_accum);
}

proof fn lemma_wf_sum_step(st: WannierScan, raw: Seq<char>)
    requires
        is_wf_sum_line(raw),
        st.wf_accum.len() > 0,
    ensures
        wannier_step(st, raw).wm.spread_block.wf_spreads_last == st.wf_accum,
{
    let line = trim_start(raw);
    let s1 = wf_step(st, line);
    assert(s1.wm.spread_block.wf_spreads_last == st.wf_accum);
    let s2 = section_step(s1, line);
    assert(s2.wm.spread_block.wf_spreads_last == st.wf_accum);
    let s3 = block_flags_step(s2, line);
    assert(s3.wm.spread_block.wf_spreads_last == st.wf_accum);
    let s4 = settings_step(s3, line);
    assert(s4.wm.spread_block.wf_spreads_last == st.wf_accum);
    assert(rows_step(s4, line).wm.spread_block.wf_spreads_last == st.wf_accum);
}

proof fn lemma_fold_push(ls: Seq<Seq<char>>, x: Seq<char>)
    ensures
        wannier_fold(ls.push(x)) == wannier_step(wannier_fold(ls), x),
{
    assert(ls.push(x).drop_last() =~= ls);
}

proof fn lemma_wf_block_accumulates(ls: Seq<Seq<char>>, block: Seq<Seq<char>>, spreads: Seq<Seq<char>>, j: int)
    requires
        block.len() == spreads.len(),
        1 <= j <= block.len(),
        block.len() <= u32::MAX,
        forall|i: int| 0 <= i < block.len() ==> is_wf_spread_line(#[trigger] block[i], (i + 1) as u32, spreads[i]),
    ensures
        wannier_fold(ls + block.take(j)).wf_accum == spreads.take(j),
    decreases j,
{
    assert(ls + block.take(j) =~= (ls + block.take(j - 1)).push(block[j - 1]));
    lemma_fold_push(ls + block.take(j - 1), block[j - 1]);
    assert(is_wf_spread_line(block[j - 1], j as u32, spreads[j - 1]));
    lemma_wf_line_step(wannier_fold(ls + block.take(j - 1)), block[j - 1], j as u32, spreads[j - 1]);
    if j > 1 {
        lemma_wf_block_accumulates(ls, block, spreads, j - 1);
        assert(spreads.take(j) =~= spreads.take(j - 1).push(spreads[j - 1]));
    } else {
        assert(spreads.take(1) =~= seq![spreads[0]]);
    }
}

/// The spreads of the Wannier functions are those of the last complete block: after a
/// block of lines for Wannier functions 1, 2, ..., n and the line that sums them, the
/// spreads reported are exactly those n, whatever came before.
pub proof fn law_wf_spreads_are_the_last_complete_block(
    ls: Seq<Seq<char>>,
    block: Seq<Seq<char>>,
    spreads: Seq<Seq<char>>,
    sum: Seq<char>,
)
    requires
        block.len() == spreads.len(),
        0 < block.len() <= u32::MAX,
        forall|i: int| 0 <= i < block.len() ==> is_wf_spread_line(#[trigger] block[i], (i + 1) as u32, spreads[i]),
        is_wf_sum_line(sum),
    ensures
        wannier_fold(ls + block + seq![sum]).wm.spread_block.wf_spreads_last == spreads,
{
    lemma_wf_block_accumulates(ls, block, spreads, block.len() as int);
    assert(block.take(block.len() as int) =~= block);
    assert(spreads.take(spreads.len() as int) =~= spreads);
    assert(ls + block + seq![sum] =~= (ls + block).push(sum));
    lemma_fold_push(ls + block, sum);
    lemma_wf_sum_step(wannier_fold(ls + block), sum);
}

/// The iteration series of a run line up: every wannierisation row gives a spread, its
/// change and a time; a disentanglement block exists once it has a row, and every row
/// gives Ω_I, its change and a time.
pub open spec fn series_aligned(wm: WannierMetricsView) -> bool {
    &&& wm.spread_block.spread.len() == wm.spread_block.delta_spread.len()
    &&& wm.spread_block.spread.len() == wm.spread_block.cpu_time.len()
    &&& wm.disentanglement_block matches Some(b) ==> {
        &&& b.omega_i.len() == b.delta_omega_i.len()
        &&& b.omega_i.len() == b.cpu_time.len()
        &&& b.cpu_time.len() > 0
    }
}

proof fn lemma_wannier_fold_aligned(lines: Seq<Seq<char>>)
    ensures
        series_aligned(wannier_fold(lines).wm),
    decreases lines.len(),
{
    if lines.len() > 0 {
        lemma_wannier_fold_aligned(lines.drop_last());
        let st = wannier_fold(lines.drop_last());
        let line = trim_start(lines.last());
        let s1 = wf_step(st, line);
        assert(series_aligned(s1.wm));
        let s2 = section_step(s1, line);
        assert(series_aligned(s2.wm));
        let s3 = block_flags_step(s2, line);
        assert(series_aligned(s3.wm));
        let s4 = settings_step(s3, line);
        assert(series_aligned(s4.wm));
    }
}

/// The iteration series of the most recent run line up (see [`series_aligned`]), so the
/// plots pair each value with its iteration and time.
pub proof fn law_iteration_series_are_aligned(s: Seq<char>)
    ensures
        series_aligned(parse_metrics_spec(s)),
{
    lemma_wannier_fold_aligned(lines_of(last_run_spec(s)));
}


struct WannierState {
    wm: WannierMetrics,
    in_disentanglement_block: bool,
    in_wannierization_block: bool,
    in_wannierise_section: bool,
    in_disentangle_section: bool,
    conv_buffer_value: String,
    wf_accum: Vec<String>,
}

impl View for WannierState {
    type V = WannierScan;

    closed spec fn view(&self) -> WannierScan {
        WannierScan {
            wm: self.wm@,
            in_disentanglement_block: self.in_disentanglement_block,
            in_wannierization_block: self.in_wannierization_block,
            in_wannierise_section: self.in_wannierise_section,
            in_disentangle_section: self.in_disentangle_section,
            conv_buffer_value: self.conv_buffer_value@,
            wf_accum: texts(self.wf_accum@),
        }
    }
}

/// The word `w` when it reads as a number.
fn float_of_slice(w: Option<&[char]>) -> (res: Option<String>)
    ensures
        opt_seq(res) == float_of(
            match w {
                Some(w) => Some(w@),
                None => None,
            },
        ),
{
    match w {
        Some(w) => if is_float_literal_chars(w) {
            Some(string_from_chars(w))
        } else {
            None
        },
        None => None,
    }
}

fn wf_line(st: &mut WannierState, line: &[char])
    ensures
        final(st)@ == wf_step(old(st)@, line@),
{
    let centre = chars_of("WF centre and spread");
    if contains_chars(line, centre.as_slice()) {
        let index = match nth_word_slice(line, 4) {
            Some(w) => parse_u32(w),
            None => None,
        };
        match float_of_slice(last_word_slice(line)) {
            Some(sp) => {
                if index == Some(1u32) {
                    st.wf_accum = Vec::new();
                    st.wf_accum.push(sp);
                    assert(texts(st.wf_accum@) =~= seq![sp@]);
                } else {
                    st.wf_accum.push(sp);
                }
            },
            None => {},
        }
        return;
    }
    let sum = chars_of("Sum of centres and spreads");
    if contains_chars(line, sum.as_slice()) && st.wf_accum.len() > 0 {
        st.wm.spread_block.wf_spreads_last = clone_strings(&st.wf_accum);
    }
}

fn clone_strings(v: &Vec<String>) -> (res: Vec<String>)
    ensures
        texts(res@) == texts(v@),
{
    let mut res: Vec<String> = Vec::new();
    let mut i: usize = 0;
    while i < v.len()
        invariant
            i <= v@.len(),
            texts(res@) == texts(v@.take(i as int)),
        decreases v@.len() - i,
    {
        res.push(v[i].clone());
        assert(v@.take(i + 1) =~= v@.take(i as int).push(v@[i as int]));
        i += 1;
    }
    assert(v@.take(v@.len() as int) =~= v@);
    res
}

fn section_line(st: &mut WannierState, line: &[char])
    ensures
        final(st)@ == section_step(old(st)@, line@),
{
    let star = chars_of("*");
    if starts_with_chars(line, star.as_slice()) && ends_with_chars(line, star.as_slice()) {
        let wannierise = chars_of("WANNIERISE");
        let disentangle = chars_of("DISENTANGLE");
        if contains_chars(line, wannierise.as_slice()) {
            st.in_wannierise_section = true;
            st.in_disentangle_section = false;
        } else if contains_chars(line, disentangle.as_slice()) {
            st.in_disentangle_section = true;
            st.in_wannierise_section = false;
        } else if st.in_wannierise_section || st.in_disentangle_section {
            st.in_wannierise_section = false;
            st.in_disentangle_section = false;
        }
    }
    let total = chars_of("Total number of iterations");
    let colon = chars_of(":");
    if (st.in_wannierise_section || st.in_disentangle_section) && contains_chars(
        line,
        total.as_slice(),
    ) {
        match rfind_chars(line, colon.as_slice()) {
            Some(pos) => {
                proof {
                    reveal_strlit(":");
                    crate::text::lemma_rfind_upto(line@, ":"@, line@.len() - 1);
                }
                assert(line@.len() == line.len());
                let after = tail(line, pos + 1);
                let v = trim_slice(trim_end_char_slice(trim_slice(after), '|'));
                match parse_u32(v) {
                    Some(n) => {
                        if st.in_wannierise_section {
                            st.wm.wannierize_max_iterations = Some(n);
                        } else {
                            st.wm.dis_max_iterations = Some(n);
                        }
                    },
                    None => {},
                }
            },
            None => {},
        }
    }
}

fn block_flags_line(st: &mut WannierState, line: &[char])
    ensures
        final(st)@ == block_flags_step(old(st)@, line@),
{
    let extraction = chars_of("Extraction of optimally-connected subspace");
    if contains_chars(line, extraction.as_slice()) {
        st.in_disentanglement_block = true;
    }
    let dis_time = chars_of("Time to disentangle bands");
    if contains_chars(line, dis_time.as_slice()) {
        st.in_disentanglement_block = false;
    }
    let header = chars_of(
        "| Iter  Delta Spread     RMS Gradient      Spread (Ang^2)      Time  |<-- CONV",
    );
    if contains_chars(line, header.as_slice()) {
        st.in_wannierization_block = true;
    }
    let wann_time = chars_of("Time for wannierise");
    if contains_chars(line, wann_time.as_slice()) {
        st.in_wannierization_block = false;
    }
}

fn settings_line(st: &mut WannierState, line: &[char])
    ensures
        final(st)@ == settings_step(old(st)@, line@),
{
    if st.in_disentanglement_block || st.in_wannierization_block {
        return;
    }
    let using = chars_of("Using band disentanglement");
    if contains_chars(line, using.as_slice()) {
        let t = chars_of("T");
        let f = chars_of("F");
        let colon = chars_of(":");
        if contains_chars(line, t.as_slice()) && contains_chars(line, colon.as_slice()) {
            st.wm.has_disentanglement = true;
        } else if contains_chars(line, f.as_slice()) && contains_chars(line, colon.as_slice()) {
            st.wm.has_disentanglement = false;
        }
    }
    let key = chars_of("|  Convergence tolerence                     :");
    match after_first_chars(line, key.as_slice()) {
        Some(a) => {
            let v = trim_slice(trim_end_char_slice(trim_slice(a), '|'));
            if is_float_literal_chars(v) {
                st.conv_buffer_value = string_from_chars(v);
            }
            if is_negative_number_chars(chars_of(st.wm.wannierize_conv_threshold.as_str()).as_slice()) {
                st.wm.wannierize_conv_threshold = st.conv_buffer_value.clone();
            } else if st.wm.has_disentanglement {
                st.wm.disentanglement_conv_threshold = Some(st.conv_buffer_value.clone());
            }
        },
        None => {},
    }
}


fn rows_line(st: &mut WannierState, line: &[char])
    ensures
        final(st)@ == rows_step(old(st)@, line@),
{
    let iter_key = chars_of("Iter");
    let rule = chars_of("+---");
    if st.in_disentanglement_block {
        let dis = chars_of("<-- DIS");
        let satisfied = chars_of("<<< Disentanglement convergence criteria satisfied >>>");
        let not_satisfied = chars_of("<<< Disentanglement convergence criteria not satisfied >>>");
        if contains_chars(line, dis.as_slice()) && !contains_chars(line, iter_key.as_slice())
            && !contains_chars(line, rule.as_slice()) {
            let o = float_of_slice(nth_word_slice(line, 2));
            let d = float_of_slice(nth_word_slice(line, 3));
            let t = float_of_slice(nth_word_slice(line, 4));
            match (o, d, t) {
                (Some(o), Some(d), Some(t)) => {
                    let mut b = match st.wm.disentanglement_block.take() {
                        Some(b) => b,
                        None => DisentanglementBlock::new(),
                    };
                    b.omega_i.push(o);
                    b.delta_omega_i.push(d);
                    b.cpu_time.push(t);
                    st.wm.disentanglement_block = Some(b);
                },
                _ => {},
            }
        } else if contains_chars(line, satisfied.as_slice()) {
            st.wm.disentanglement_converged = Some(true);
        } else if contains_chars(line, not_satisfied.as_slice()) {
            st.wm.disentanglement_converged = Some(false);
        }
    }
    let conv = chars_of("<-- CONV");
    let rule4 = chars_of("+----");
    if st.in_wannierization_block && contains_chars(line, conv.as_slice()) && !contains_chars(
        line,
        iter_key.as_slice(),
    ) && !contains_chars(line, rule.as_slice()) && !contains_chars(line, rule4.as_slice()) {
        let d = float_of_slice(nth_word_slice(line, 1));
        let sp = float_of_slice(nth_word_slice(line, 3));
        let t = float_of_slice(nth_word_slice(line, 4));
        match (d, sp, t) {
            (Some(d), Some(sp), Some(t)) => {
                st.wm.spread_block.delta_spread.push(d);
                st.wm.spread_block.spread.push(sp);
                st.wm.spread_block.cpu_time.push(t);
            },
            _ => {},
        }
    }
}

fn wannier_line(st: &mut WannierState, raw: &[char])
    ensures
        final(st)@ == wannier_step(old(st)@, raw@),
{
    let line = trim_start_slice(raw);
    wf_line(st, line);
    section_line(st, line);
    block_flags_line(st, line);
    settings_line(st, line);
    rows_line(st, line);
}

/// Everything measured so far in the most recent wannier90 run: whether and how
/// disentanglement ran, the iteration limits and tolerances, the disentanglement and
/// wannierisation iteration series, and the per-Wannier-function spreads of the last
/// complete block.
pub fn parse_metrics(wannier90_output: &str) -> (res: WannierMetrics)
    ensures
        res@ == parse_metrics_spec(wannier90_output@),
{
    let all = chars_of(wannier90_output);
    let text = last_run(all.as_slice());
    let spans = line_spans(text);
    let ghost lines = lines_of(text@);
    let mut st = WannierState {
        wm: WannierMetrics::new(),
        in_disentanglement_block: false,
        in_wannierization_block: false,
        in_wannierise_section: false,
        in_disentangle_section: false,
        conv_buffer_value: "0.0".to_owned(),
        wf_accum: Vec::new(),
    };
    assert(texts(st.wf_accum@) =~= seq![]);
    let mut i: usize = 0;
    while i < spans.len()
        invariant
            spans@.len() == lines.len(),
            lines == lines_of(text@),
            i <= spans@.len(),
            st@ == wannier_fold(lines.take(i as int)),
            forall|k: int|
                0 <= k < spans@.len() ==> {
                    &&& (#[trigger] spans@[k]).0 <= spans@[k].1 <= text@.len()
                    &&& text@.subrange(spans@[k].0 as int, spans@[k].1 as int) == lines[k]
                },
        decreases spans@.len() - i,
    {
        let (a, b) = spans[i];
        let raw = vstd::slice::slice_subrange(text, a, b);
        wannier_line(&mut st, raw);
        assert(lines.take(i + 1).drop_last() =~= lines.take(i as int));
        i += 1;
    }
    assert(lines.take(i as int) =~= lines);
    st.wm
}

} // verus!
