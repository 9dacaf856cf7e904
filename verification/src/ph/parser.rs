//! Parsing of ph.x output.

use vstd::prelude::*;

use crate::pattern::{cap_f64, cap_f64_spec, cap_u32, cap_u32_spec, Pattern};
use crate::ph::metrics::{
    lemma_row_views_push, lemma_started_views_push, IrrepsRow, IrrepsRowView, PhMetrics, PhMetricsView,
    Qpoint, QpointView, StartedQpoint, StartedQpointView,
};
use crate::pw::metrics::{group_metrics_views, seq_max, ScfBlock, ScfBlockView};
use crate::pw::parser::{accuracy_iteration, cycle_well_formed, inc, keep_block, wrapping_inc};
use crate::text::{
    after_first, after_first_chars, chars_of, contains, contains_chars, first_float_word, float_word,
    is_float_literal, is_float_literal_chars, line_spans, lines_of, parse_u32, parse_u32_spec,
    starts_with, starts_with_chars, string_of_range, tail, trim, trim_slice, trim_start,
    trim_start_slice, word_spans, words,
};

/// ph.x prints the same run header as pw.x.
pub use crate::pw::parse_run_info;

verus! {

broadcast use {group_metrics_views, lemma_row_views_push, lemma_started_views_push};

// ==================================================
// Line patterns
// ==================================================

pub const RE_ITER_AND_CPU: &'static str =
    r"iter\s*#\s*(\d+)\s+total\s+cpu\s+time\s*:\s*([0-9]+(?:\.[0-9]+)?)\s*secs";

pub const RE_DDV_SCF2: &'static str =
    r"\|ddv_scf\|\^2\s*=\s*([+-]?(?:\d+\.?\d*|\.\d+)(?:[EeDd][+-]?\d+)?)";

pub const RE_QPOINT_RUN_TOTAL: &'static str =
    r"(?i)(\d+)\s*/\s*(\d+)\s+q-points\s+for\s+this\s+run,\s+from\s+(\d+)\s+to\s+(\d+)";

pub const RE_IRREPS_COUNT: &'static str = r"(?i)There\s+are\s+(\d+)\s+irreducible\s+representations";

pub const RE_PHONON_CPU: &'static str = r"PHONON\s+:\s+([0-9]+(?:\.[0-9]+)?)s\s+CPU";

/// The line patterns of ph.x output, compiled once per parse.
pub struct PhPatterns {
    pub iter_and_cpu: Pattern,
    pub ddv_scf2: Pattern,
    pub qpoint_run_total: Pattern,
    pub irreps_count: Pattern,
    pub phonon_cpu: Pattern,
}

impl PhPatterns {
    pub open spec fn wf(&self) -> bool {
        &&& self.iter_and_cpu.source_text() == RE_ITER_AND_CPU@
        &&& self.ddv_scf2.source_text() == RE_DDV_SCF2@
        &&& self.qpoint_run_total.source_text() == RE_QPOINT_RUN_TOTAL@
        &&& self.irreps_count.source_text() == RE_IRREPS_COUNT@
        &&& self.phonon_cpu.source_text() == RE_PHONON_CPU@
    }

    pub fn new() -> (p: PhPatterns)
        ensures
            p.wf(),
    {
        PhPatterns {
            iter_and_cpu: Pattern::new(RE_ITER_AND_CPU),
            ddv_scf2: Pattern::new(RE_DDV_SCF2),
            qpoint_run_total: Pattern::new(RE_QPOINT_RUN_TOTAL),
            irreps_count: Pattern::new(RE_IRREPS_COUNT),
            phonon_cpu: Pattern::new(RE_PHONON_CPU),
        }
    }
}

/// `(iteration, cumulative CPU time)` of an "iter # N total cpu time : T secs" line.
pub open spec fn iteration_and_cpu_spec(line: Seq<char>) -> Option<(u32, Seq<char>)> {
    match (cap_u32_spec(RE_ITER_AND_CPU@, line, 1), cap_f64_spec(RE_ITER_AND_CPU@, line, 2)) {
        (Some(i), Some(t)) => Some((i, t)),
        _ => None,
    }
}

pub open spec fn ddv_scf2_spec(line: Seq<char>) -> Option<Seq<char>> {
    cap_f64_spec(RE_DDV_SCF2@, line, 1)
}

/// `u32::saturating_sub`.
pub open spec fn sat_sub(a: u32, b: u32) -> u32 {
    if a >= b {
        (a - b) as u32
    } else {
        0
    }
}

/// `u32::saturating_add`.
pub open spec fn sat_add(a: u32, b: u32) -> u32 {
    if a + b <= u32::MAX {
        (a + b) as u32
    } else {
        u32::MAX
    }
}

/// The size of the `[from, to]` range of a split run ("1 / 12 q-points for this run,
/// from 2 to 2:").
pub open spec fn qpoint_run_total_spec(line: Seq<char>) -> Option<u32> {
    match (cap_u32_spec(RE_QPOINT_RUN_TOTAL@, line, 3), cap_u32_spec(RE_QPOINT_RUN_TOTAL@, line, 4)) {
        (Some(from), Some(to)) => Some(sat_add(sat_sub(to, from), 1)),
        _ => None,
    }
}

pub open spec fn irreps_count_spec(line: Seq<char>) -> Option<u32> {
    cap_u32_spec(RE_IRREPS_COUNT@, line, 1)
}

pub open spec fn phonon_cpu_time_spec(line: Seq<char>) -> Option<Seq<char>> {
    cap_f64_spec(RE_PHONON_CPU@, line, 1)
}

/// Three words that all read as numbers.
pub open spec fn three_numbers(ws: Seq<Seq<char>>, from: int) -> Option<QpointView> {
    if 0 <= from && from + 3 <= ws.len() && is_float_literal(ws[from]) && is_float_literal(
        ws[from + 1],
    ) && is_float_literal(ws[from + 2]) {
        Some(QpointView { x: ws[from], y: ws[from + 1], z: ws[from + 2] })
    } else {
        None
    }
}

/// The q of a "Calculation of q =    0.2213199  -0.3854415   0.1245717" line.
pub open spec fn calculation_of_q_spec(line: Seq<char>) -> Option<QpointView> {
    if starts_with(line, "Calculation of q ="@) {
        three_numbers(words(line.subrange("Calculation of q ="@.len() as int, line.len() as int)), 0)
    } else {
        None
    }
}

/// A word that reads as a number written with a decimal point.
pub open spec fn is_decimal_coordinate(w: Seq<char>) -> bool {
    contains(w, "."@) && is_float_literal(w)
}

/// A row of the "Number and degeneracy of irreps per q-point" table:
/// `3   0.000000000   0.128300060   0.000000000      12` gives the q coordinates and the
/// trailing irrep count. Degeneracy sub-lines (all integers) and "No degeneracy" text
/// lines are not rows.
pub open spec fn degeneracy_row_spec(line: Seq<char>) -> Option<IrrepsRowView> {
    let ws = words(line);
    if ws.len() >= 5 && parse_u32_spec(ws[0]) is Some && is_decimal_coordinate(ws[1])
        && is_decimal_coordinate(ws[2]) && is_decimal_coordinate(ws[3]) && parse_u32_spec(ws[4]) is Some {
        Some(IrrepsRowView { q: QpointView { x: ws[1], y: ws[2], z: ws[3] }, n_irreps: parse_u32_spec(ws[4])->0 })
    } else {
        None
    }
}

// ==================================================
// Parsing state
// ==================================================

/// Parsing state between two lines of ph.x output.
pub ghost struct PhScan {
    pub pm: PhMetricsView,
    pub in_degeneracy_table: bool,
    pub num_qpoints_started: u32,
    pub range_total: Option<u32>,
    pub open: Option<ScfBlockView>,
    pub cur_iter: Option<u32>,
    pub pending_cpu_time: Option<Seq<char>>,
}

pub open spec fn ph_start() -> PhScan {
    PhScan {
        pm: PhMetricsView::empty(),
        in_degeneracy_table: false,
        num_qpoints_started: 0,
        range_total: None,
        open: None,
        cur_iter: None,
        pending_cpu_time: None,
    }
}

/// The header of the irreps table (the only q-point table header with an "N irreps"
/// column).
pub open spec fn is_degeneracy_header(line: Seq<char>) -> bool {
    starts_with(line, "Number and degeneracy of irreps per q-point"@) || (starts_with(line, "N "@)
        && contains(line, "xq(1)"@) && contains(line, "N irreps"@))
}

/// What one line of ph.x output does to the parsing state.
pub open spec fn ph_step(st: PhScan, raw: Seq<char>) -> PhScan {
    let line = trim_start(raw);
    let st = match after_first(line, "convergence threshold     ="@) {
        Some(a) => PhScan { pm: PhMetricsView { conv_threshold: float_word(trim(a)), ..st.pm }, ..st },
        None => st,
    };
    if phonon_cpu_time_spec(line) is Some {
        PhScan { pending_cpu_time: phonon_cpu_time_spec(line), ..st }
    } else if qpoint_run_total_spec(line) is Some {
        PhScan { range_total: qpoint_run_total_spec(line), in_degeneracy_table: false, ..st }
    } else if is_degeneracy_header(line) {
        PhScan { in_degeneracy_table: true, ..st }
    } else if starts_with(line, "Calculation of q ="@) {
        PhScan {
            in_degeneracy_table: false,
            num_qpoints_started: wrapping_inc(st.num_qpoints_started),
            pm: PhMetricsView {
                qpoints_started: st.pm.qpoints_started.push(
                    StartedQpointView {
                        q: calculation_of_q_spec(line),
                        table_len: st.pm.irreps_table.len(),
                    },
                ),
                ..st.pm
            },
            ..st
        }
    } else if starts_with(line, "Number of q in the star"@) {
        // An electron-phonon run writes this line twice per q-point; a q-point is
        // counted once, and only once it has started.
        if st.pm.num_qpoints_completed < st.num_qpoints_started {
            PhScan {
                pm: PhMetricsView {
                    num_qpoints_completed: (st.pm.num_qpoints_completed + 1) as u32,
                    ..st.pm
                },
                ..st
            }
        } else {
            st
        }
    } else if st.in_degeneracy_table {
        match degeneracy_row_spec(line) {
            Some(r) => PhScan {
                pm: PhMetricsView { irreps_table: st.pm.irreps_table.push(r), ..st.pm },
                ..st
            },
            None => st,
        }
    } else if contains(line, "Self-consistent Calculation"@) {
        PhScan {
            pm: match st.open {
                Some(b) => PhMetricsView {
                    representation_blocks: keep_block(st.pm.representation_blocks, b),
                    ..st.pm
                },
                None => st.pm,
            },
            open: Some(ScfBlockView::empty()),
            cur_iter: None,
            ..st
        }
    } else if contains(line, "iter #"@) && contains(line, "av.it."@) {
        match iteration_and_cpu_spec(line) {
            Some((it, t)) => PhScan {
                cur_iter: Some(it),
                pending_cpu_time: Some(t),
                open: match st.open {
                    Some(b) => Some(
                        ScfBlockView {
                            cpu_time_first: if b.cpu_time_first is None {
                                Some(t)
                            } else {
                                b.cpu_time_first
                            },
                            cpu_time_last: Some(t),
                            cpu_time: b.cpu_time.push(t),
                            ..b
                        },
                    ),
                    None => None,
                },
                ..st
            },
            None => st,
        }
    } else if contains(line, "thresh"@) && contains(line, "|ddv_scf|^2"@) {
        if st.open is Some && ddv_scf2_spec(line) is Some {
            let b = st.open->0;
            PhScan {
                open: Some(
                    ScfBlockView {
                        iteration: b.iteration.push(accuracy_iteration(b, st.cur_iter)),
                        accuracy: b.accuracy.push(ddv_scf2_spec(line)->0),
                        ..b
                    },
                ),
                ..st
            }
        } else {
            st
        }
    } else if contains(line, "End of self-consistent calculation"@) {
        let pm = PhMetricsView {
            num_representations_completed: wrapping_inc(st.pm.num_representations_completed),
            ..st.pm
        };
        PhScan {
            pm: match st.open {
                Some(b) => PhMetricsView {
                    representation_blocks: keep_block(pm.representation_blocks, close_conv(b, st.cur_iter)),
                    ..pm
                },
                None => pm,
            },
            open: None,
            cur_iter: None,
            ..st
        }
    } else if irreps_count_spec(line) is Some {
        PhScan {
            pm: PhMetricsView {
                irreps_announced: st.pm.irreps_announced.push(irreps_count_spec(line)->0),
                ..st.pm
            },
            ..st
        }
    } else {
        st
    }
}

/// A closing representation block takes its iteration count from the current iteration,
/// else from the highest iteration it recorded.
pub open spec fn close_conv(b: ScfBlockView, cur_iter: Option<u32>) -> ScfBlockView {
    if b.conv_iters is None {
        ScfBlockView {
            conv_iters: match cur_iter {
                Some(i) => Some(i),
                None => seq_max(b.iteration),
            },
            ..b
        }
    } else {
        b
    }
}

pub open spec fn ph_fold(lines: Seq<Seq<char>>) -> PhScan
    decreases lines.len(),
{
    if lines.len() == 0 {
        ph_start()
    } else {
        ph_step(ph_fold(lines.drop_last()), lines.last())
    }
}

/// End of input: an open representation block takes the last known CPU time for its
/// missing timings, and the number of q-points is the run range when QE states it,
/// else the q-points started (whichever is larger).
pub open spec fn ph_finish(st: PhScan) -> PhMetricsView {
    let pm = match st.open {
        Some(b) => {
            let b = ScfBlockView {
                cpu_time_first: if b.cpu_time_first is None {
                    st.pending_cpu_time
                } else {
                    b.cpu_time_first
                },
                cpu_time_last: if b.cpu_time_last is None {
                    st.pending_cpu_time
                } else {
                    b.cpu_time_last
                },
                ..b
            };
            PhMetricsView {
                representation_blocks: keep_block(st.pm.representation_blocks, close_conv(b, st.cur_iter)),
                ..st.pm
            }
        },
        None => st.pm,
    };
    let range = match st.range_total {
        Some(r) => r,
        None => 0,
    };
    PhMetricsView {
        num_qpoints: if range >= st.num_qpoints_started {
            range
        } else {
            st.num_qpoints_started
        },
        ..pm
    }
}

/// Everything measured so far in ph.x output.
pub open spec fn parse_metrics_spec(s: Seq<char>) -> PhMetricsView {
    ph_finish(ph_fold(lines_of(s)))
}

/// A PHONON timer line is the latest CPU time seen, and leaves the running
/// representation as it was.
pub proof fn law_timer_line_is_the_latest_cpu_time(ls: Seq<Seq<char>>, l: Seq<char>, t: Seq<char>)
    requires
        phonon_cpu_time_spec(trim_start(l)) == Some(t),
    ensures
        ph_fold(ls.push(l)).pending_cpu_time == Some(t),
        ph_fold(ls.push(l)).open == ph_fold(ls).open,
        ph_fold(ls.push(l)).pm.representation_blocks == ph_fold(ls).pm.representation_blocks,
{
    assert(ls.push(l).drop_last() =~= ls);
}

/// An iteration line "iter # N total cpu time : T secs ... av.it." (outside the irreps
/// table) is the latest CPU time seen and the current iteration; the running
/// representation records T as its CPU time of that iteration, as its last timing, and
/// as its first when it had none.
pub proof fn law_iteration_line_times_the_representation(
    ls: Seq<Seq<char>>,
    l: Seq<char>,
    it: u32,
    t: Seq<char>,
)
    requires
        ({
            let line = trim_start(l);
            &&& contains(line, "iter #"@)
            &&& contains(line, "av.it."@)
            &&& iteration_and_cpu_spec(line) == Some((it, t))
            &&& phonon_cpu_time_spec(line) is None
            &&& qpoint_run_total_spec(line) is None
            &&& !is_degeneracy_header(line)
            &&& !starts_with(line, "Calculation of q ="@)
            &&& !starts_with(line, "Number of q in the star"@)
            &&& !contains(line, "Self-consistent Calculation"@)
        }),
        !ph_fold(ls).in_degeneracy_table,
    ensures
        ({
            let before = ph_fold(ls);
            let after = ph_fold(ls.push(l));
            &&& after.pending_cpu_time == Some(t)
            &&& after.cur_iter == Some(it)
            &&& after.pm.representation_blocks == before.pm.representation_blocks
            &&& (after.open is Some <==> before.open is Some)
            &&& before.open is Some ==> {
                let b = before.open->0;
                let a = after.open->0;
                &&& a.cpu_time == b.cpu_time.push(t)
                &&& a.cpu_time_last == Some(t)
                &&& a.cpu_time_first == if b.cpu_time_first is Some {
                    b.cpu_time_first
                } else {
                    Some(t)
                }
                &&& a.iteration == b.iteration
                &&& a.accuracy == b.accuracy
            }
        }),
{
    assert(ls.push(l).drop_last() =~= ls);
}

/// At the end of the output the representation still running is reported after the
/// finished ones, with what it has measured; a timing it has not seen yet is the latest
/// CPU time seen before it (a PHONON timer or an iteration line), so once any timing
/// has been seen a running representation is always reported. With none running, the
/// finished ones are reported as they are.
pub proof fn law_running_representation_is_reported(s: Seq<char>)
    ensures
        ({
            let st = ph_fold(lines_of(s));
            let done = st.pm.representation_blocks;
            let blocks = parse_metrics_spec(s).representation_blocks;
            &&& st.open is None ==> blocks == done
            &&& (st.open is Some && st.pending_cpu_time is Some) ==> {
                let b = st.open->0;
                &&& blocks.len() == done.len() + 1
                &&& blocks.take(done.len() as int) == done
                &&& blocks.last().iteration == b.iteration
                &&& blocks.last().accuracy == b.accuracy
                &&& blocks.last().cpu_time == b.cpu_time
                &&& blocks.last().cpu_time_first == if b.cpu_time_first is Some {
                    b.cpu_time_first
                } else {
                    st.pending_cpu_time
                }
                &&& blocks.last().cpu_time_last == if b.cpu_time_last is Some {
                    b.cpu_time_last
                } else {
                    st.pending_cpu_time
                }
                &&& blocks.last().cpu_time_first is Some
                &&& blocks.last().cpu_time_last is Some
            }
        }),
{
    let st = ph_fold(lines_of(s));
    let done = st.pm.representation_blocks;
    let blocks = parse_metrics_spec(s).representation_blocks;
    match st.open {
        Some(b) => {
            if st.pending_cpu_time is Some {
                assert(blocks.take(done.len() as int) =~= done);
            }
        },
        None => {},
    }
}

spec fn ph_scan_inv(st: PhScan, n_lines: int) -> bool {
    &&& st.pm.num_qpoints_completed <= st.num_qpoints_started <= n_lines
    &&& forall|i: int|
        0 <= i < st.pm.representation_blocks.len() ==> cycle_well_formed(
            #[trigger] st.pm.representation_blocks[i],
        )
    &&& st.open matches Some(b) ==> b.iteration.len() == b.accuracy.len()
    &&& forall|i: int|
        0 <= i < st.pm.qpoints_started.len() ==> (#[trigger] st.pm.qpoints_started[i]).table_len
            <= st.pm.irreps_table.len()
}

proof fn lemma_ph_fold_inv(lines: Seq<Seq<char>>)
    requires
        lines.len() <= u32::MAX,
    ensures
        ph_scan_inv(ph_fold(lines), lines.len() as int),
    decreases lines.len(),
{
    if lines.len() > 0 {
        let prev = lines.drop_last();
        lemma_ph_fold_inv(prev);
        let st = ph_fold(prev);
        let line = trim_start(lines.last());
        let st1 = match after_first(line, "convergence threshold     ="@) {
            Some(a) => PhScan {
                pm: PhMetricsView { conv_threshold: float_word(trim(a)), ..st.pm },
                ..st
            },
            None => st,
        };
        assert(ph_scan_inv(st1, prev.len() as int));
        let next = ph_step(st, lines.last());
        if next.pm.representation_blocks != st1.pm.representation_blocks {
            assert forall|i: int| 0 <= i < next.pm.representation_blocks.len() implies cycle_well_formed(
                #[trigger] next.pm.representation_blocks[i],
            ) by {
                if i < st1.pm.representation_blocks.len() {
                    assert(next.pm.representation_blocks[i] == st1.pm.representation_blocks[i]);
                }
            }
        }
    }
}

/// Progress through the q-points never runs ahead of the run: ph.x q-points counted as
/// done never outnumber the q-points of the run, though an electron-phonon run reports
/// each finished q-point twice. Every representation cycle reported has data and pairs
/// each accuracy with its iteration number, and every started q-point refers to a part
/// of the irreps table that was read. (Outputs of 2^32 lines or more are left out:
/// there the q-point counter wraps.)
pub proof fn law_qpoint_progress_is_bounded(s: Seq<char>)
    requires
        lines_of(s).len() <= u32::MAX,
    ensures
        parse_metrics_spec(s).num_qpoints_completed <= parse_metrics_spec(s).num_qpoints,
        forall|i: int|
            0 <= i < parse_metrics_spec(s).representation_blocks.len() ==> cycle_well_formed(
                #[trigger] parse_metrics_spec(s).representation_blocks[i],
            ),
        forall|i: int|
            0 <= i < parse_metrics_spec(s).qpoints_started.len() ==> (
            #[trigger] parse_metrics_spec(s).qpoints_started[i]).table_len
                <= parse_metrics_spec(s).irreps_table.len(),
{
    let lines = lines_of(s);
    lemma_ph_fold_inv(lines);
    let st = ph_fold(lines);
    let fin = parse_metrics_spec(s);
    assert forall|i: int| 0 <= i < fin.representation_blocks.len() implies cycle_well_formed(
        #[trigger] fin.representation_blocks[i],
    ) by {
        if i < st.pm.representation_blocks.len() {
            assert(fin.representation_blocks[i] == st.pm.representation_blocks[i]);
        }
    }
}


// ==================================================
// Executable parsing
// ==================================================

fn parse_iteration_and_cpu(p: &PhPatterns, line: &[char]) -> (res: Option<(u32, String)>)
    requires
        p.wf(),
    ensures
        match res {
            Some((i, t)) => iteration_and_cpu_spec(line@) == Some((i, t@)),
            None => iteration_and_cpu_spec(line@) is None,
        },
{
    let it = cap_u32(&p.iter_and_cpu, line, 1);
    let t = cap_f64(&p.iter_and_cpu, line, 2);
    match (it, t) {
        (Some(i), Some(t)) => Some((i, t)),
        _ => None,
    }
}

fn parse_qpoint_run_total(p: &PhPatterns, line: &[char]) -> (res: Option<u32>)
    requires
        p.wf(),
    ensures
        res == qpoint_run_total_spec(line@),
{
    let from = cap_u32(&p.qpoint_run_total, line, 3);
    let to = cap_u32(&p.qpoint_run_total, line, 4);
    match (from, to) {
        (Some(from), Some(to)) => {
            let d = if to >= from {
                to - from
            } else {
                0
            };
            Some(
                if d == u32::MAX {
                    u32::MAX
                } else {
                    d + 1
                },
            )
        },
        _ => None,
    }
}

/// The number whose text is `s[from..to]`, when `f64::from_str` accepts it.
fn number_word(s: &[char], span: (usize, usize)) -> (res: Option<String>)
    requires
        span.0 <= span.1 <= s@.len(),
    ensures
        match res {
            Some(t) => is_float_literal(s@.subrange(span.0 as int, span.1 as int)) && t@ == s@.subrange(
                span.0 as int,
                span.1 as int,
            ),
            None => !is_float_literal(s@.subrange(span.0 as int, span.1 as int)),
        },
{
    let w = vstd::slice::slice_subrange(s, span.0, span.1);
    if is_float_literal_chars(w) {
        Some(string_of_range(s, span.0, span.1))
    } else {
        None
    }
}

fn parse_calculation_of_q(line: &[char]) -> (res: Option<Qpoint>)
    ensures
        match res {
            Some(q) => calculation_of_q_spec(line@) == Some(q@),
            None => calculation_of_q_spec(line@) is None,
        },
{
    let prefix = chars_of("Calculation of q =");
    if !starts_with_chars(line, prefix.as_slice()) {
        return None;
    }
    let rest = tail(line, prefix.len());
    let ws = word_spans(rest);
    if ws.len() < 3 {
        return None;
    }
    let x = number_word(rest, ws[0]);
    let y = number_word(rest, ws[1]);
    let z = number_word(rest, ws[2]);
    match (x, y, z) {
        (Some(x), Some(y), Some(z)) => Some(Qpoint { x, y, z }),
        _ => None,
    }
}

fn is_decimal_word(s: &[char], span: (usize, usize)) -> (b: bool)
    requires
        span.0 <= span.1 <= s@.len(),
    ensures
        b == is_decimal_coordinate(s@.subrange(span.0 as int, span.1 as int)),
{
    let w = vstd::slice::slice_subrange(s, span.0, span.1);
    let dot = chars_of(".");
    contains_chars(w, dot.as_slice()) && is_float_literal_chars(w)
}

fn parse_degeneracy_row(line: &[char]) -> (res: Option<IrrepsRow>)
    ensures
        match res {
            Some(r) => degeneracy_row_spec(line@) == Some(r@),
            None => degeneracy_row_spec(line@) is None,
        },
{
    let ws = word_spans(line);
    if ws.len() < 5 {
        return None;
    }
    let n0 = parse_u32(vstd::slice::slice_subrange(line, ws[0].0, ws[0].1));
    if n0.is_none() || !is_decimal_word(line, ws[1]) || !is_decimal_word(line, ws[2])
        || !is_decimal_word(line, ws[3]) {
        return None;
    }
    match parse_u32(vstd::slice::slice_subrange(line, ws[4].0, ws[4].1)) {
        Some(n) => Some(
            IrrepsRow {
                q: Qpoint {
                    x: string_of_range(line, ws[1].0, ws[1].1),
                    y: string_of_range(line, ws[2].0, ws[2].1),
                    z: string_of_range(line, ws[3].0, ws[3].1),
                },
                n_irreps: n,
            },
        ),
        None => None,
    }
}

fn is_degeneracy_header_chars(line: &[char]) -> (b: bool)
    ensures
        b == is_degeneracy_header(line@),
{
    let title = chars_of("Number and degeneracy of irreps per q-point");
    let n = chars_of("N ");
    let xq = chars_of("xq(1)");
    let irreps = chars_of("N irreps");
    starts_with_chars(line, title.as_slice()) || (starts_with_chars(line, n.as_slice())
        && contains_chars(line, xq.as_slice()) && contains_chars(line, irreps.as_slice()))
}

struct PhState {
    pm: PhMetrics,
    in_degeneracy_table: bool,
    num_qpoints_started: u32,
    range_total: Option<u32>,
    open: Option<ScfBlock>,
    cur_iter: Option<u32>,
    pending_cpu_time: Option<String>,
}

impl View for PhState {
    type V = PhScan;

    closed spec fn view(&self) -> PhScan {
        PhScan {
            pm: self.pm@,
            in_degeneracy_table: self.in_degeneracy_table,
            num_qpoints_started: self.num_qpoints_started,
            range_total: self.range_total,
            open: match self.open {
                Some(b) => Some(b@),
                None => None,
            },
            cur_iter: self.cur_iter,
            pending_cpu_time: match self.pending_cpu_time {
                Some(t) => Some(t@),
                None => None,
            },
        }
    }
}

fn has_data(b: &ScfBlock) -> (r: bool)
    ensures
        r == b@.has_data(),
{
    b.accuracy.len() > 0 || b.conv_iters.is_some() || b.cpu_time_first.is_some()
        || b.cpu_time_last.is_some()
}

fn close_conv_exec(b: &mut ScfBlock, cur_iter: Option<u32>)
    ensures
        final(b)@ == close_conv(old(b)@, cur_iter),
{
    if b.conv_iters.is_none() {
        b.conv_iters = match cur_iter {
            Some(i) => Some(i),
            None => crate::pw::metrics::max_of(&b.iteration),
        };
    }
}

fn ph_line(st: &mut PhState, p: &PhPatterns, raw: &[char])
    requires
        p.wf(),
    ensures
        final(st)@ == ph_step(old(st)@, raw@),
{
    let line = trim_start_slice(raw);
    let key = chars_of("convergence threshold     =");
    match after_first_chars(line, key.as_slice()) {
        Some(a) => {
            let t = trim_slice(a);
            st.pm.conv_threshold = first_float_word(t);
        },
        None => {},
    }
    match cap_f64(&p.phonon_cpu, line, 1) {
        Some(t) => {
            st.pending_cpu_time = Some(t);
            return;
        },
        None => {},
    }
    match parse_qpoint_run_total(p, line) {
        Some(n) => {
            st.range_total = Some(n);
            st.in_degeneracy_table = false;
            return;
        },
        None => {},
    }
    if is_degeneracy_header_chars(line) {
        st.in_degeneracy_table = true;
        return;
    }
    let calc_q = chars_of("Calculation of q =");
    if starts_with_chars(line, calc_q.as_slice()) {
        st.in_degeneracy_table = false;
        st.num_qpoints_started = inc(st.num_qpoints_started);
        let q = parse_calculation_of_q(line);
        let table_len = st.pm.irreps_table.len();
        st.pm.qpoints_started.push(StartedQpoint { q, table_len });
        return;
    }
    let star = chars_of("Number of q in the star");
    if starts_with_chars(line, star.as_slice()) {
        if st.pm.num_qpoints_completed < st.num_qpoints_started {
            st.pm.num_qpoints_completed = st.pm.num_qpoints_completed + 1;
        }
        return;
    }
    if st.in_degeneracy_table {
        match parse_degeneracy_row(line) {
            Some(r) => {
                st.pm.irreps_table.push(r);
            },
            None => {},
        }
        return;
    }
    let scf = chars_of("Self-consistent Calculation");
    if contains_chars(line, scf.as_slice()) {
        match st.open.take() {
            Some(b) => {
                if has_data(&b) {
                    st.pm.representation_blocks.push(b);
                }
            },
            None => {},
        }
        st.open = Some(ScfBlock::new());
        st.cur_iter = None;
        return;
    }
    let iter_key = chars_of("iter #");
    let avit = chars_of("av.it.");
    if contains_chars(line, iter_key.as_slice()) && contains_chars(line, avit.as_slice()) {
        match parse_iteration_and_cpu(p, line) {
            Some((it, t)) => {
                st.cur_iter = Some(it);
                st.pending_cpu_time = Some(t.clone());
                match st.open.take() {
                    Some(b) => {
                        let mut b = b;
                        if b.cpu_time_first.is_none() {
                            b.cpu_time_first = Some(t.clone());
                        }
                        b.cpu_time_last = Some(t.clone());
                        b.cpu_time.push(t);
                        st.open = Some(b);
                    },
                    None => {},
                }
            },
            None => {},
        }
        return;
    }
    let thresh = chars_of("thresh");
    let ddv = chars_of("|ddv_scf|^2");
    if contains_chars(line, thresh.as_slice()) && contains_chars(line, ddv.as_slice()) {
        if st.open.is_some() {
            match cap_f64(&p.ddv_scf2, line, 1) {
                Some(d) => {
                    let mut b = st.open.take().unwrap();
                    let iter = match st.cur_iter {
                        Some(i) => i,
                        None => inc(#[verifier::truncate] (b.accuracy.len() as u32)),
                    };
                    b.iteration.push(iter);
                    b.accuracy.push(d);
                    st.open = Some(b);
                },
                None => {},
            }
        }
        return;
    }
    let end = chars_of("End of self-consistent calculation");
    if contains_chars(line, end.as_slice()) {
        st.pm.num_representations_completed = inc(st.pm.num_representations_completed);
        match st.open.take() {
            Some(b) => {
                let mut b = b;
                close_conv_exec(&mut b, st.cur_iter);
                if has_data(&b) {
                    st.pm.representation_blocks.push(b);
                }
            },
            None => {},
        }
        st.cur_iter = None;
        return;
    }
    match cap_u32(&p.irreps_count, line, 1) {
        Some(n) => {
            st.pm.irreps_announced.push(n);
        },
        None => {},
    }
}

/// Everything measured so far in ph.x output: q-points and representations started and
/// completed, the scf cycle of every representation, the convergence threshold, and
/// what is needed to count the irreducible representations of the q-points reached
/// (see [`PhMetrics::num_representations`]).
pub fn parse_metrics(qe_output: &str) -> (res: PhMetrics)
    ensures
        res@ == parse_metrics_spec(qe_output@),
{
    let text = chars_of(qe_output);
    let p = PhPatterns::new();
    let spans = line_spans(text.as_slice());
    let ghost lines = lines_of(text@);
    let mut st = PhState {
        pm: PhMetrics::new(),
        in_degeneracy_table: false,
        num_qpoints_started: 0,
        range_total: None,
        open: None,
        cur_iter: None,
        pending_cpu_time: None,
    };
    let mut i: usize = 0;
    while i < spans.len()
        invariant
            p.wf(),
            spans@.len() == lines.len(),
            lines == lines_of(text@),
            i <= spans@.len(),
            st@ == ph_fold(lines.take(i as int)),
            forall|k: int|
                0 <= k < spans@.len() ==> {
                    &&& (#[trigger] spans@[k]).0 <= spans@[k].1 <= text@.len()
                    &&& text@.subrange(spans@[k].0 as int, spans@[k].1 as int) == lines[k]
                },
        decreases spans@.len() - i,
    {
        let (a, b) = spans[i];
        let raw = vstd::slice::slice_subrange(text.as_slice(), a, b);
        ph_line(&mut st, &p, raw);
        assert(lines.take(i + 1).drop_last() =~= lines.take(i as int));
        i += 1;
    }
    assert(lines.take(i as int) =~= lines);
    let mut pm = st.pm;
    match st.open {
        Some(b) => {
            let mut b = b;
            if b.cpu_time_first.is_none() {
                b.cpu_time_first = match &st.pending_cpu_time {
                    Some(t) => Some(t.clone()),
                    None => None,
                };
            }
            if b.cpu_time_last.is_none() {
                b.cpu_time_last = match &st.pending_cpu_time {
                    Some(t) => Some(t.clone()),
                    None => None,
                };
            }
            close_conv_exec(&mut b, st.cur_iter);
            if has_data(&b) {
                pm.representation_blocks.push(b);
            }
        },
        None => {},
    }
    let range = match st.range_total {
        Some(r) => r,
        None => 0,
    };
    pm.num_qpoints = if range >= st.num_qpoints_started {
        range
    } else {
        st.num_qpoints_started
    };
    pm
}

} // verus!
