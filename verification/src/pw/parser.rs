//! Parsing of pw.x output (ph.x shares the run header).

use vstd::prelude::*;

use crate::app::{RunInfo, RunInfoView};
use crate::pattern::{cap_f64_spec, cap_u32_raw_spec, cap_u32_spec, Pattern};
use crate::pw::metrics::{
    group_metrics_views, scf_views, BandBlock, BandBlockView, PwCalcType, PwMetrics, PwMetricsView, ScfBlock,
    ScfBlockView,
};
use crate::text::{
    after_first, after_first_chars, chars_of, first_float_word, float_word, contains, contains_chars, first_word, first_word_string,
    line_spans, lines_of, nth_word, opt_seq, replace, replace_chars, starts_with, starts_with_chars,
    string_from_chars, tail, trim, trim_slice, trim_start, trim_start_slice,
};

pub use crate::pattern::{cap_f64, cap_u32};

verus! {

broadcast use group_metrics_views;

// ==================================================
// Run info (common to pw.x and ph.x)
// ==================================================

/// What one header line tells about the run.
pub open spec fn run_info_step(ri: RunInfoView, raw: Seq<char>) -> RunInfoView {
    let line = trim_start(raw);
    let ri = if starts_with(line, "Program "@) && contains(line, " starts on "@) {
        RunInfoView {
            executable: match nth_word(line.subrange("Program "@.len() as int, line.len() as int), 0) {
                Some(w) => if contains(w, "PWSCF"@) {
                    Some("pw.x"@)
                } else if contains(w, "PHONON"@) {
                    Some("ph.x"@)
                } else {
                    ri.executable
                },
                None => ri.executable,
            },
            version: match after_first(line, "v."@) {
                Some(a) => nth_word(a, 0),
                None => ri.version,
            },
            start_time: match after_first(line, " starts on "@) {
                Some(a) => Some(replace(replace(trim(a), ": "@, ":0"@), " at "@, " "@)),
                None => ri.start_time,
            },
            ..ri
        }
    } else {
        ri
    };
    let ri = if contains(line, "running on"@) && contains(line, "processors"@) {
        match after_first(line, "running on"@) {
            Some(a) => RunInfoView { mpi_ranks: nth_word(trim(a), 0), omp_threads: Some("1"@), ..ri },
            None => ri,
        }
    } else {
        ri
    };
    let ri = match after_first(line, "Number of MPI processes:"@) {
        Some(a) => RunInfoView { mpi_ranks: nth_word(trim(a), 0), ..ri },
        None => ri,
    };
    match after_first(line, "Threads/MPI process:"@) {
        Some(a) => RunInfoView { omp_threads: nth_word(trim(a), 0), ..ri },
        None => ri,
    }
}

pub open spec fn run_info_fold(lines: Seq<Seq<char>>) -> RunInfoView
    decreases lines.len(),
{
    if lines.len() == 0 {
        RunInfoView::empty()
    } else {
        run_info_step(run_info_fold(lines.drop_last()), lines.last())
    }
}

/// The first `n` lines of `s` (all of them when there are fewer).
pub open spec fn first_lines(s: Seq<char>, n: int) -> Seq<Seq<char>> {
    let ls = lines_of(s);
    if ls.len() <= n {
        ls
    } else {
        ls.take(n)
    }
}

/// The run header, read from the first 50 lines.
pub open spec fn parse_run_info_spec(s: Seq<char>) -> RunInfoView {
    run_info_fold(first_lines(s, 50))
}

/// Only the first 50 lines are read for the run header: text that follows 50 complete
/// lines changes nothing.
pub proof fn law_header_is_read_from_the_first_fifty_lines(a: Seq<char>, b: Seq<char>)
    requires
        a.len() > 0,
        a.last() == '\n',
        lines_of(a).len() >= 50,
    ensures
        parse_run_info_spec(a + b) == parse_run_info_spec(a),
{
    crate::text::lemma_lines_of_concat(a, b);
    assert(first_lines(a + b, 50) =~= first_lines(a, 50));
}

fn first_word_of_trimmed(a: &[char]) -> (res: Option<String>)
    ensures
        opt_seq(res) == nth_word(trim(a@), 0),
{
    let t = trim_slice(a);
    first_word_string(t)
}

fn run_info_line(ri: &mut RunInfo, raw: &[char])
    ensures
        final(ri)@ == run_info_step(old(ri)@, raw@),
{
    let line = trim_start_slice(raw);
    let program = chars_of("Program ");
    let starts_on = chars_of(" starts on ");
    let ghost ri0 = ri@;
    if starts_with_chars(line, program.as_slice()) && contains_chars(line, starts_on.as_slice()) {
        let rest = tail(line, program.len());
        match first_word(rest) {
            Some((a, b)) => {
                let w = vstd::slice::slice_subrange(rest, a, b);
                let pwscf = chars_of("PWSCF");
                let phonon = chars_of("PHONON");
                if contains_chars(w, pwscf.as_slice()) {
                    ri.executable = Some("pw.x".to_owned());
                } else if contains_chars(w, phonon.as_slice()) {
                    ri.executable = Some("ph.x".to_owned());
                }
            },
            None => {},
        }
        let v = chars_of("v.");
        match after_first_chars(line, v.as_slice()) {
            Some(a) => {
                ri.version = first_word_string(a);
            },
            None => {},
        }
        match after_first_chars(line, starts_on.as_slice()) {
            Some(a) => {
                let t = trim_slice(a);
                let colon = chars_of(": ");
                let colon0 = chars_of(":0");
                let at = chars_of(" at ");
                let space = chars_of(" ");
                let r1 = replace_chars(t, colon.as_slice(), colon0.as_slice());
                let r2 = replace_chars(r1.as_slice(), at.as_slice(), space.as_slice());
                ri.start_time = Some(string_from_chars(r2.as_slice()));
            },
            None => {},
        }
    }
    let ghost ri1 = ri@;
    let running_on = chars_of("running on");
    let processors = chars_of("processors");
    if contains_chars(line, running_on.as_slice()) && contains_chars(line, processors.as_slice()) {
        match after_first_chars(line, running_on.as_slice()) {
            Some(a) => {
                ri.mpi_ranks = first_word_of_trimmed(a);
                ri.omp_threads = Some("1".to_owned());
            },
            None => {},
        }
    }
    let nmpi = chars_of("Number of MPI processes:");
    match after_first_chars(line, nmpi.as_slice()) {
        Some(a) => {
            ri.mpi_ranks = first_word_of_trimmed(a);
        },
        None => {},
    }
    let threads = chars_of("Threads/MPI process:");
    match after_first_chars(line, threads.as_slice()) {
        Some(a) => {
            ri.omp_threads = first_word_of_trimmed(a);
        },
        None => {},
    }
}

/// The run header of pw.x or ph.x output: program, version, start time and the MPI
/// and OpenMP parallelisation, read from the first 50 lines.
pub fn parse_run_info(qe_output: &str) -> (res: RunInfo)
    ensures
        res@ == parse_run_info_spec(qe_output@),
{
    let text = chars_of(qe_output);
    let spans = line_spans(text.as_slice());
    let n = if spans.len() <= 50 {
        spans.len()
    } else {
        50
    };
    let ghost lines = lines_of(text@);
    let ghost firsts = first_lines(text@, 50);
    assert(firsts =~= lines.take(n as int));
    let mut ri = RunInfo::default();
    let mut i: usize = 0;
    while i < n
        invariant
            n <= spans@.len() == lines.len(),
            lines == lines_of(text@),
            firsts == lines.take(n as int),
            i <= n,
            ri@ == run_info_fold(lines.take(i as int)),
            forall|k: int|
                0 <= k < spans@.len() ==> {
                    &&& (#[trigger] spans@[k]).0 <= spans@[k].1 <= text@.len()
                    &&& text@.subrange(spans@[k].0 as int, spans@[k].1 as int) == lines[k]
                },
        decreases n - i,
    {
        let (a, b) = spans[i];
        let raw = vstd::slice::slice_subrange(text.as_slice(), a, b);
        run_info_line(&mut ri, raw);
        assert(lines.take(i + 1).drop_last() =~= lines.take(i as int));
        i += 1;
    }
    ri
}


// ==================================================
// Line patterns
// ==================================================

pub const RE_TOTAL_FORCE: &'static str =
    r"Total force\s*=\s*([+-]?(?:\d+\.?\d*|\.\d+)(?:[EeDd][+-]?\d+)?)";

pub const RE_TOTAL_ENERGY: &'static str =
    r"!\s+total energy\s*=\s*([+-]?(?:\d+\.?\d*|\.\d+)(?:[EeDd][+-]?\d+)?)";

pub const RE_PRESSURE_KBAR: &'static str =
    r"\(kbar\).*\bP=\s*([+-]?(?:\d+\.?\d*|\.\d+)(?:[EeDd][+-]?\d+)?)";

pub const RE_SCF_ACCURACY: &'static str =
    r"estimated scf accuracy\s*<\s*([+-]?(?:\d+\.?\d*|\.\d+)(?:[EeDd][+-]?\d+)?)";

pub const RE_SCF_ITERATION: &'static str = r"iteration\s*#\s*(\d+)";

pub const RE_SCF_CONVERGED: &'static str = r"convergence has been achieved in\s+(\d+)\s+iterations";

pub const RE_TOTAL_CPU: &'static str = r"total cpu time spent up to now is\s*([0-9]+(?:\.[0-9]+)?)\s*secs";

pub const RE_BAND_KPT: &'static str = r"Computing kpt #:\s*(\d+)\s*of\s*(\d+)";

/// The closing line of a converged relaxation, which states its energy, force and (with
/// a variable cell) pressure targets.
pub const RE_RELAX_CRITERIA: &'static str =
    r"criteria:\s*energy\s*<\s*([+-]?(?:\d+\.?\d*|\.\d+)(?:[EeDd][+-]?\d+)?)\s*Ry,\s*force\s*<\s*([+-]?(?:\d+\.?\d*|\.\d+)(?:[EeDd][+-]?\d+)?)\s*Ry/Bohr(?:,\s*cell\s*<\s*([+-]?(?:\d+\.?\d*|\.\d+)(?:[EeDd][+-]?\d+)?)\s*kbar)?";

/// The line patterns of pw.x output, compiled once per parse.
pub struct PwPatterns {
    pub total_force: Pattern,
    pub total_energy: Pattern,
    pub pressure: Pattern,
    pub scf_accuracy: Pattern,
    pub scf_iteration: Pattern,
    pub scf_converged: Pattern,
    pub total_cpu: Pattern,
    pub band_kpt: Pattern,
    pub relax_criteria: Pattern,
}

impl PwPatterns {
    pub open spec fn wf(&self) -> bool {
        &&& self.total_force.source_text() == RE_TOTAL_FORCE@
        &&& self.total_energy.source_text() == RE_TOTAL_ENERGY@
        &&& self.pressure.source_text() == RE_PRESSURE_KBAR@
        &&& self.scf_accuracy.source_text() == RE_SCF_ACCURACY@
        &&& self.scf_iteration.source_text() == RE_SCF_ITERATION@
        &&& self.scf_converged.source_text() == RE_SCF_CONVERGED@
        &&& self.total_cpu.source_text() == RE_TOTAL_CPU@
        &&& self.band_kpt.source_text() == RE_BAND_KPT@
        &&& self.relax_criteria.source_text() == RE_RELAX_CRITERIA@
    }

    pub fn new() -> (p: PwPatterns)
        ensures
            p.wf(),
    {
        PwPatterns {
            total_force: Pattern::new(RE_TOTAL_FORCE),
            total_energy: Pattern::new(RE_TOTAL_ENERGY),
            pressure: Pattern::new(RE_PRESSURE_KBAR),
            scf_accuracy: Pattern::new(RE_SCF_ACCURACY),
            scf_iteration: Pattern::new(RE_SCF_ITERATION),
            scf_converged: Pattern::new(RE_SCF_CONVERGED),
            total_cpu: Pattern::new(RE_TOTAL_CPU),
            band_kpt: Pattern::new(RE_BAND_KPT),
            relax_criteria: Pattern::new(RE_RELAX_CRITERIA),
        }
    }
}

pub open spec fn total_force_spec(line: Seq<char>) -> Option<Seq<char>> {
    cap_f64_spec(RE_TOTAL_FORCE@, line, 1)
}

pub open spec fn total_energy_spec(line: Seq<char>) -> Option<Seq<char>> {
    cap_f64_spec(RE_TOTAL_ENERGY@, line, 1)
}

pub open spec fn pressure_kbar_spec(line: Seq<char>) -> Option<Seq<char>> {
    cap_f64_spec(RE_PRESSURE_KBAR@, line, 1)
}

pub open spec fn scf_accuracy_spec(line: Seq<char>) -> Option<Seq<char>> {
    cap_f64_spec(RE_SCF_ACCURACY@, line, 1)
}

pub open spec fn scf_iteration_index_spec(line: Seq<char>) -> Option<u32> {
    cap_u32_raw_spec(RE_SCF_ITERATION@, line, 1)
}

pub open spec fn scf_convergence_iterations_spec(line: Seq<char>) -> Option<u32> {
    cap_u32_spec(RE_SCF_CONVERGED@, line, 1)
}

pub open spec fn total_cpu_secs_spec(line: Seq<char>) -> Option<Seq<char>> {
    cap_f64_spec(RE_TOTAL_CPU@, line, 1)
}

/// `(current k-point, total k-points)` of a "Computing kpt #: X of Y" line.
pub open spec fn band_kpt_progress_spec(line: Seq<char>) -> Option<(u32, u32)> {
    match (cap_u32_raw_spec(RE_BAND_KPT@, line, 1), cap_u32_raw_spec(RE_BAND_KPT@, line, 2)) {
        (Some(c), Some(t)) => Some((c, t)),
        _ => None,
    }
}

fn parse_band_kpt_progress(p: &PwPatterns, line: &[char]) -> (res: Option<(u32, u32)>)
    requires
        p.wf(),
    ensures
        res == band_kpt_progress_spec(line@),
{
    let current = crate::pattern::cap_u32_raw(&p.band_kpt, line, 1);
    let total = crate::pattern::cap_u32_raw(&p.band_kpt, line, 2);
    match (current, total) {
        (Some(c), Some(t)) => Some((c, t)),
        _ => None,
    }
}

// =======================
// SCF calculation parsing
// =======================

/// Parsing state between two lines of scf output.
pub ghost struct ScfScan {
    pub pm: PwMetricsView,
    pub open: Option<ScfBlockView>,
    pub cur_iter: Option<u32>,
}

/// `Some(x)` replaces the old value, `None` keeps it.
pub open spec fn or_keep(new: Option<Seq<char>>, old: Option<Seq<char>>) -> Option<Seq<char>> {
    if new is Some {
        new
    } else {
        old
    }
}

/// Convergence thresholds stated on a line.
pub open spec fn with_thresholds(pm: PwMetricsView, line: Seq<char>) -> PwMetricsView {
    let pm = match after_first(line, "scf convergence threshold ="@) {
        Some(a) => PwMetricsView { scf_conv_thr: float_word(trim(a)), ..pm },
        None => pm,
    };
    PwMetricsView {
        etot_conv_thr: or_keep(cap_f64_spec(RE_RELAX_CRITERIA@, line, 1), pm.etot_conv_thr),
        forc_conv_thr: or_keep(cap_f64_spec(RE_RELAX_CRITERIA@, line, 2), pm.forc_conv_thr),
        press_conv_thr: or_keep(cap_f64_spec(RE_RELAX_CRITERIA@, line, 3), pm.press_conv_thr),
        ..pm
    }
}

/// A timing line stamps the cycle: its first timing once, its last timing every time,
/// and it adds to the cumulative CPU time of each iteration.
pub open spec fn timed(b: ScfBlockView, t: Seq<char>) -> ScfBlockView {
    ScfBlockView {
        cpu_time: b.cpu_time.push(t),
        cpu_time_first: if b.cpu_time_first is None {
            Some(t)
        } else {
            b.cpu_time_first
        },
        cpu_time_last: Some(t),
        ..b
    }
}

/// A finished cycle is kept when it has data.
pub open spec fn keep_block(blocks: Seq<ScfBlockView>, b: ScfBlockView) -> Seq<ScfBlockView> {
    if b.has_data() {
        blocks.push(b)
    } else {
        blocks
    }
}

/// The iteration number an accuracy line is recorded under.
pub open spec fn accuracy_iteration(b: ScfBlockView, cur_iter: Option<u32>) -> u32 {
    match cur_iter {
        Some(i) => i,
        None => wrapping_inc(b.accuracy.len() as u32),
    }
}

/// `x + 1` in `u32`, wrapping.
pub open spec fn wrapping_inc(x: u32) -> u32 {
    if x == u32::MAX {
        0
    } else {
        (x + 1) as u32
    }
}

pub fn inc(x: u32) -> (r: u32)
    ensures
        r == wrapping_inc(x),
{
    if x == u32::MAX {
        0
    } else {
        x + 1
    }
}

/// The number after `=` on a line that starts with `key`, as in the errors a
/// relaxation step reports: "Energy error            =      4.2E-05 Ry".
pub open spec fn labelled_value(line: Seq<char>, key: Seq<char>) -> Option<Seq<char>> {
    if starts_with(line, key) {
        match after_first(line, "="@) {
            Some(a) => float_word(a),
            None => None,
        }
    } else {
        None
    }
}

/// The errors of a relaxation step: energy, gradient and (variable cell) cell gradient.
pub open spec fn ion_dyn_errors(pm: PwMetricsView, line: Seq<char>) -> PwMetricsView {
    match labelled_value(line, "Energy error"@) {
        Some(v) => PwMetricsView { ion_dyn_etot_err: pm.ion_dyn_etot_err.push(v), ..pm },
        None => match labelled_value(line, "Gradient error"@) {
            Some(v) => PwMetricsView { ion_dyn_forc_err: pm.ion_dyn_forc_err.push(v), ..pm },
            None => match labelled_value(line, "Cell gradient error"@) {
                Some(v) => PwMetricsView { ion_dyn_press_err: pm.ion_dyn_press_err.push(v), ..pm },
                None => pm,
            },
        },
    }
}

/// Energies, forces, pressures and relaxation errors reported on a line.
pub open spec fn other_metrics(pm: PwMetricsView, line: Seq<char>) -> PwMetricsView {
    match total_force_spec(line) {
        Some(v) => PwMetricsView { total_force: pm.total_force.push(v), ..pm },
        None => match total_energy_spec(line) {
            Some(v) => PwMetricsView { total_energy: pm.total_energy.push(v), ..pm },
            None => match pressure_kbar_spec(line) {
                Some(v) => PwMetricsView { pressure: pm.pressure.push(v), ..pm },
                None => ion_dyn_errors(pm, line),
            },
        },
    }
}

/// What one line of scf output does to the parsing state.
pub open spec fn scf_step(st: ScfScan, raw: Seq<char>) -> ScfScan {
    let line = trim_start(raw);
    let pm = with_thresholds(st.pm, line);
    if total_cpu_secs_spec(line) is Some {
        let t = total_cpu_secs_spec(line)->0;
        ScfScan {
            pm,
            open: match st.open {
                Some(b) => Some(timed(b, t)),
                None => None,
            },
            cur_iter: st.cur_iter,
        }
    } else if contains(line, "Self-consistent Calculation"@) {
        ScfScan {
            pm: match st.open {
                Some(b) => PwMetricsView { scf_blocks: keep_block(pm.scf_blocks, b), ..pm },
                None => pm,
            },
            open: Some(ScfBlockView::empty()),
            cur_iter: None,
        }
    } else if contains(line, "End of self-consistent calculation"@) {
        ScfScan {
            pm: match st.open {
                Some(b) => {
                    let b = if b.conv_iters is None {
                        ScfBlockView { conv_iters: st.cur_iter, ..b }
                    } else {
                        b
                    };
                    PwMetricsView { scf_blocks: keep_block(pm.scf_blocks, b), ..pm }
                },
                None => pm,
            },
            open: None,
            cur_iter: None,
        }
    } else if scf_convergence_iterations_spec(line) is Some {
        let n = scf_convergence_iterations_spec(line)->0;
        match st.open {
            Some(b) => ScfScan {
                pm,
                open: Some(ScfBlockView { conv_iters: Some(n), ..b }),
                cur_iter: st.cur_iter,
            },
            None => if pm.scf_blocks.len() > 0 {
                let last = pm.scf_blocks.last();
                ScfScan {
                    pm: PwMetricsView {
                        scf_blocks: pm.scf_blocks.drop_last().push(
                            ScfBlockView { conv_iters: Some(n), ..last },
                        ),
                        ..pm
                    },
                    open: None,
                    cur_iter: st.cur_iter,
                }
            } else {
                ScfScan { pm, open: None, cur_iter: st.cur_iter }
            },
        }
    } else if st.open is Some && scf_iteration_index_spec(line) is Some {
        ScfScan { pm, open: st.open, cur_iter: scf_iteration_index_spec(line) }
    } else if st.open is Some && scf_accuracy_spec(line) is Some {
        let b = st.open->0;
        let acc = scf_accuracy_spec(line)->0;
        ScfScan {
            pm,
            open: Some(
                ScfBlockView {
                    iteration: b.iteration.push(accuracy_iteration(b, st.cur_iter)),
                    accuracy: b.accuracy.push(acc),
                    ..b
                },
            ),
            cur_iter: st.cur_iter,
        }
    } else {
        ScfScan { pm: other_metrics(pm, line), open: st.open, cur_iter: st.cur_iter }
    }
}

pub open spec fn scf_fold(lines: Seq<Seq<char>>) -> ScfScan
    decreases lines.len(),
{
    if lines.len() == 0 {
        ScfScan { pm: PwMetricsView::empty(PwCalcType::Scf), open: None, cur_iter: None }
    } else {
        scf_step(scf_fold(lines.drop_last()), lines.last())
    }
}

/// End of input closes an open cycle.
pub open spec fn scf_finish(st: ScfScan) -> PwMetricsView {
    match st.open {
        Some(b) => PwMetricsView { scf_blocks: keep_block(st.pm.scf_blocks, b), ..st.pm },
        None => st.pm,
    }
}

pub open spec fn parse_metrics_scf_spec(s: Seq<char>) -> PwMetricsView {
    scf_finish(scf_fold(lines_of(s)))
}


/// Parsing state of scf output.
struct ScfState {
    pm: PwMetrics,
    open: Option<ScfBlock>,
    cur_iter: Option<u32>,
}

impl View for ScfState {
    type V = ScfScan;

    closed spec fn view(&self) -> ScfScan {
        ScfScan {
            pm: self.pm@,
            open: match self.open {
                Some(b) => Some(b@),
                None => None,
            },
            cur_iter: self.cur_iter,
        }
    }
}

fn has_data(b: &ScfBlock) -> (r: bool)
    ensures
        r == b@.has_data(),
{
    b.accuracy.len() > 0 || b.conv_iters.is_some() || b.cpu_time_first.is_some()
        || b.cpu_time_last.is_some()
}

fn apply_thresholds(pm: &mut PwMetrics, p: &PwPatterns, line: &[char])
    requires
        p.wf(),
    ensures
        final(pm)@ == with_thresholds(old(pm)@, line@),
{
    let key = chars_of("scf convergence threshold =");
    match after_first_chars(line, key.as_slice()) {
        Some(a) => {
            let t = trim_slice(a);
            pm.scf_conv_thr = first_float_word(t);
        },
        None => {},
    }
    match cap_f64(&p.relax_criteria, line, 1) {
        Some(v) => {
            pm.etot_conv_thr = Some(v);
        },
        None => {},
    }
    match cap_f64(&p.relax_criteria, line, 2) {
        Some(v) => {
            pm.forc_conv_thr = Some(v);
        },
        None => {},
    }
    match cap_f64(&p.relax_criteria, line, 3) {
        Some(v) => {
            pm.press_conv_thr = Some(v);
        },
        None => {},
    }
}

fn apply_other_metrics(pm: &mut PwMetrics, p: &PwPatterns, line: &[char])
    requires
        p.wf(),
    ensures
        final(pm)@ == other_metrics(old(pm)@, line@),
{
    match cap_f64(&p.total_force, line, 1) {
        Some(v) => {
            pm.total_force.push(v);
            return;
        },
        None => {},
    }
    match cap_f64(&p.total_energy, line, 1) {
        Some(v) => {
            pm.total_energy.push(v);
            return;
        },
        None => {},
    }
    match cap_f64(&p.pressure, line, 1) {
        Some(v) => {
            pm.pressure.push(v);
        },
        None => {
            apply_ion_dyn_errors(pm, line);
        },
    }
}

/// The number after `=` on a line that starts with `key`.
fn labelled_value_of(line: &[char], key: &str) -> (res: Option<String>)
    ensures
        opt_seq(res) == labelled_value(line@, key@),
{
    let k = chars_of(key);
    if !starts_with_chars(line, k.as_slice()) {
        return None;
    }
    let eq = chars_of("=");
    match after_first_chars(line, eq.as_slice()) {
        Some(a) => first_float_word(a),
        None => None,
    }
}

fn apply_ion_dyn_errors(pm: &mut PwMetrics, line: &[char])
    ensures
        final(pm)@ == ion_dyn_errors(old(pm)@, line@),
{
    match labelled_value_of(line, "Energy error") {
        Some(v) => {
            pm.ion_dyn_etot_err.push(v);
            return;
        },
        None => {},
    }
    match labelled_value_of(line, "Gradient error") {
        Some(v) => {
            pm.ion_dyn_forc_err.push(v);
            return;
        },
        None => {},
    }
    match labelled_value_of(line, "Cell gradient error") {
        Some(v) => {
            pm.ion_dyn_press_err.push(v);
        },
        None => {},
    }
}

fn scf_line(st: &mut ScfState, p: &PwPatterns, raw: &[char])
    requires
        p.wf(),
    ensures
        final(st)@ == scf_step(old(st)@, raw@),
{
    let line = trim_start_slice(raw);
    apply_thresholds(&mut st.pm, p, line);
    match cap_f64(&p.total_cpu, line, 1) {
        Some(t) => {
            match st.open.take() {
                Some(b) => {
                    let mut b = b;
                    if b.cpu_time_first.is_none() {
                        b.cpu_time_first = Some(t.clone());
                    }
                    b.cpu_time_last = Some(t.clone());
                    b.cpu_time.push(t);
                    st.open = Some(b);
                },
                None => {},
            }
            return;
        },
        None => {},
    }
    let start = chars_of("Self-consistent Calculation");
    if contains_chars(line, start.as_slice()) {
        match st.open.take() {
            Some(b) => {
                if has_data(&b) {
                    st.pm.scf_blocks.push(b);
                }
            },
            None => {},
        }
        st.open = Some(ScfBlock::new());
        st.cur_iter = None;
        return;
    }
    let end = chars_of("End of self-consistent calculation");
    if contains_chars(line, end.as_slice()) {
        match st.open.take() {
            Some(b) => {
                let mut b = b;
                if b.conv_iters.is_none() {
                    b.conv_iters = st.cur_iter;
                }
                if has_data(&b) {
                    st.pm.scf_blocks.push(b);
                }
            },
            None => {},
        }
        st.cur_iter = None;
        return;
    }
    match cap_u32(&p.scf_converged, line, 1) {
        Some(n) => {
            match st.open.take() {
                Some(b) => {
                    let mut b = b;
                    b.conv_iters = Some(n);
                    st.open = Some(b);
                },
                None => {
                    if st.pm.scf_blocks.len() > 0 {
                        let ghost old_blocks = st.pm.scf_blocks@;
                        let mut last = st.pm.scf_blocks.pop().unwrap();
                        assert(scf_views(old_blocks).last() == old_blocks.last()@);
                        assert(scf_views(old_blocks).drop_last() == scf_views(old_blocks.drop_last()));
                        last.conv_iters = Some(n);
                        st.pm.scf_blocks.push(last);
                    }
                },
            }
            return;
        },
        None => {},
    }
    if st.open.is_some() {
        match crate::pattern::cap_u32_raw(&p.scf_iteration, line, 1) {
            Some(i) => {
                st.cur_iter = Some(i);
                return;
            },
            None => {},
        }
        match cap_f64(&p.scf_accuracy, line, 1) {
            Some(acc) => {
                let mut b = st.open.take().unwrap();
                let iter = match st.cur_iter {
                    Some(i) => i,
                    None => inc(#[verifier::truncate] (b.accuracy.len() as u32)),
                };
                b.iteration.push(iter);
                b.accuracy.push(acc);
                st.open = Some(b);
                return;
            },
            None => {},
        }
    }
    apply_other_metrics(&mut st.pm, p, line);
}

fn parse_metrics_scf(text: &[char]) -> (res: PwMetrics)
    ensures
        res@ == parse_metrics_scf_spec(text@),
{
    let p = PwPatterns::new();
    let spans = line_spans(text);
    let ghost lines = lines_of(text@);
    let mut st = ScfState { pm: PwMetrics::new(PwCalcType::Scf), open: None, cur_iter: None };
    let mut i: usize = 0;
    while i < spans.len()
        invariant
            p.wf(),
            spans@.len() == lines.len(),
            lines == lines_of(text@),
            i <= spans@.len(),
            st@ == scf_fold(lines.take(i as int)),
            forall|k: int|
                0 <= k < spans@.len() ==> {
                    &&& (#[trigger] spans@[k]).0 <= spans@[k].1 <= text@.len()
                    &&& text@.subrange(spans@[k].0 as int, spans@[k].1 as int) == lines[k]
                },
        decreases spans@.len() - i,
    {
        let (a, b) = spans[i];
        let raw = vstd::slice::slice_subrange(text, a, b);
        scf_line(&mut st, &p, raw);
        assert(lines.take(i + 1).drop_last() =~= lines.take(i as int));
        i += 1;
    }
    assert(lines.take(i as int) =~= lines);
    let mut pm = st.pm;
    match st.open {
        Some(b) => {
            if has_data(&b) {
                pm.scf_blocks.push(b);
            }
        },
        None => {},
    }
    pm
}


// ========================
// NSCF calculation parsing
// ========================

/// Parsing state between two lines of band-structure output.
pub ghost struct NscfScan {
    pub pm: PwMetricsView,
    pub band: Option<BandBlockView>,
}

/// What one line of band-structure output does to the parsing state.
pub open spec fn nscf_step(st: NscfScan, raw: Seq<char>) -> NscfScan {
    let line = trim_start(raw);
    if contains(line, "Band Structure Calculation"@) {
        NscfScan { pm: st.pm, band: Some(BandBlockView::empty()) }
    } else if st.band is Some && band_kpt_progress_spec(line) is Some {
        let b = st.band->0;
        let (current, total) = band_kpt_progress_spec(line)->0;
        NscfScan {
            pm: st.pm,
            band: Some(
                BandBlockView { kpt_number: b.kpt_number.push(current), num_kpts: Some(total), ..b },
            ),
        }
    } else if total_cpu_secs_spec(line) is Some {
        let t = total_cpu_secs_spec(line)->0;
        NscfScan {
            pm: st.pm,
            band: match st.band {
                Some(b) => Some(
                    BandBlockView {
                        cpu_time_first: if b.cpu_time_first is None {
                            Some(t)
                        } else {
                            b.cpu_time_first
                        },
                        cpu_time_last: Some(t),
                        cpu_time: b.cpu_time.push(t),
                        ..b
                    },
                ),
                None => None,
            },
        }
    } else {
        st
    }
}

pub open spec fn nscf_fold(lines: Seq<Seq<char>>) -> NscfScan
    decreases lines.len(),
{
    if lines.len() == 0 {
        NscfScan { pm: PwMetricsView::empty(PwCalcType::Nscf), band: None }
    } else {
        nscf_step(nscf_fold(lines.drop_last()), lines.last())
    }
}

/// End of input closes the band block when it has reached a k-point.
pub open spec fn nscf_finish(st: NscfScan) -> PwMetricsView {
    match st.band {
        Some(b) => if b.kpt_number.len() > 0 {
            PwMetricsView { band_blocks: st.pm.band_blocks.push(b), ..st.pm }
        } else {
            st.pm
        },
        None => st.pm,
    }
}

pub open spec fn parse_metrics_nscf_spec(s: Seq<char>) -> PwMetricsView {
    nscf_finish(nscf_fold(lines_of(s)))
}

/// nscf and bands runs announce themselves with this marker; everything else is
/// parsed as a sequence of scf cycles (scf, relax, vc-relax, md, vc-md).
pub open spec fn detect_calc_type_spec(s: Seq<char>) -> PwCalcType {
    if contains(s, "Band Structure Calculation"@) {
        PwCalcType::Nscf
    } else {
        PwCalcType::Scf
    }
}

/// Everything measured in a pw.x run.
pub open spec fn parse_metrics_spec(s: Seq<char>) -> PwMetricsView {
    match detect_calc_type_spec(s) {
        PwCalcType::Scf => parse_metrics_scf_spec(s),
        PwCalcType::Nscf => parse_metrics_nscf_spec(s),
    }
}

/// A timing line "total cpu time spent up to now is T secs" adds T to the running scf
/// cycle's CPU time of each iteration, makes it the cycle's last timing and, when it
/// had none, its first; it touches nothing else of the cycles.
pub proof fn law_timing_line_times_the_cycle(ls: Seq<Seq<char>>, l: Seq<char>, t: Seq<char>)
    requires
        total_cpu_secs_spec(trim_start(l)) == Some(t),
    ensures
        ({
            let before = scf_fold(ls);
            let after = scf_fold(ls.push(l));
            &&& after.pm.scf_blocks == before.pm.scf_blocks
            &&& after.cur_iter == before.cur_iter
            &&& (after.open is Some <==> before.open is Some)
            &&& before.open is Some ==> {
                let b = before.open->0;
                let a = after.open->0;
                &&& a.cpu_time == b.cpu_time.push(t)
                &&& a.cpu_time_last == Some(t)
                &&& a.cpu_time_first == if b.cpu_time_first is Some {
                    b.cpu_time_first
                } else {
                    Some(t)
                }
                &&& a.iteration == b.iteration
                &&& a.accuracy == b.accuracy
                &&& a.conv_iters == b.conv_iters
            }
        }),
{
    assert(ls.push(l).drop_last() =~= ls);
}

/// A reported scf cycle has data, and pairs each accuracy with its iteration number.
pub open spec fn cycle_well_formed(b: ScfBlockView) -> bool {
    b.has_data() && b.iteration.len() == b.accuracy.len()
}

spec fn scf_scan_inv(st: ScfScan) -> bool {
    &&& forall|i: int|
        0 <= i < st.pm.scf_blocks.len() ==> cycle_well_formed(#[trigger] st.pm.scf_blocks[i])
    &&& st.open matches Some(b) ==> b.iteration.len() == b.accuracy.len()
    &&& st.pm.band_blocks.len() == 0
    &&& st.pm.calc_type == PwCalcType::Scf
}

proof fn lemma_scf_step_inv(st: ScfScan, raw: Seq<char>)
    requires
        scf_scan_inv(st),
    ensures
        scf_scan_inv(scf_step(st, raw)),
{
    let line = trim_start(raw);
    let pm = with_thresholds(st.pm, line);
    assert(pm.scf_blocks == st.pm.scf_blocks);
    let next = scf_step(st, raw);
    if total_cpu_secs_spec(line) is None && !contains(line, "Self-consistent Calculation"@)
        && !contains(line, "End of self-consistent calculation"@)
        && scf_convergence_iterations_spec(line) is Some && st.open is None
        && pm.scf_blocks.len() > 0 {
        let blocks = pm.scf_blocks;
        let n = scf_convergence_iterations_spec(line)->0;
        let last = blocks.last();
        assert(cycle_well_formed(blocks[blocks.len() - 1]));
        assert forall|i: int| 0 <= i < next.pm.scf_blocks.len() implies cycle_well_formed(
            #[trigger] next.pm.scf_blocks[i],
        ) by {
            if i < blocks.len() - 1 {
                assert(next.pm.scf_blocks[i] == blocks[i]);
            }
        }
    }
    if total_cpu_secs_spec(line) is None && !contains(line, "Self-consistent Calculation"@)
        && !contains(line, "End of self-consistent calculation"@)
        && scf_convergence_iterations_spec(line) is None && !(st.open is Some
        && scf_iteration_index_spec(line) is Some) && !(st.open is Some && scf_accuracy_spec(
        line,
    ) is Some) {
        let om = other_metrics(pm, line);
        assert(om.scf_blocks == pm.scf_blocks);
    }
}

proof fn lemma_scf_fold_inv(lines: Seq<Seq<char>>)
    ensures
        scf_scan_inv(scf_fold(lines)),
    decreases lines.len(),
{
    if lines.len() > 0 {
        lemma_scf_fold_inv(lines.drop_last());
        lemma_scf_step_inv(scf_fold(lines.drop_last()), lines.last());
    }
}

spec fn nscf_scan_inv(st: NscfScan) -> bool {
    &&& st.pm.scf_blocks.len() == 0
    &&& st.pm.band_blocks.len() == 0
    &&& st.pm.calc_type == PwCalcType::Nscf
}

proof fn lemma_nscf_fold_inv(lines: Seq<Seq<char>>)
    ensures
        nscf_scan_inv(nscf_fold(lines)),
    decreases lines.len(),
{
    if lines.len() > 0 {
        lemma_nscf_fold_inv(lines.drop_last());
    }
}

/// What a pw.x run reports is well formed: the calculation type is the one detected;
/// every scf cycle reported has data and pairs each accuracy with its iteration number;
/// a band-structure run reports no scf cycle and at most one band block, and that one
/// only once it reached a k-point; an scf run reports no band block.
pub proof fn law_reported_cycles_are_complete(s: Seq<char>)
    ensures
        parse_metrics_spec(s).calc_type == detect_calc_type_spec(s),
        forall|i: int|
            0 <= i < parse_metrics_spec(s).scf_blocks.len() ==> cycle_well_formed(
                #[trigger] parse_metrics_spec(s).scf_blocks[i],
            ),
        parse_metrics_spec(s).band_blocks.len() <= 1,
        forall|i: int|
            0 <= i < parse_metrics_spec(s).band_blocks.len() ==> (
            #[trigger] parse_metrics_spec(s).band_blocks[i]).kpt_number.len() > 0,
        detect_calc_type_spec(s) == PwCalcType::Scf ==> parse_metrics_spec(s).band_blocks.len()
            == 0,
        detect_calc_type_spec(s) == PwCalcType::Nscf ==> parse_metrics_spec(s).scf_blocks.len()
            == 0,
{
    let lines = lines_of(s);
    lemma_scf_fold_inv(lines);
    lemma_nscf_fold_inv(lines);
    let st = scf_fold(lines);
    match st.open {
        Some(b) => {
            let fin = scf_finish(st);
            assert forall|i: int| 0 <= i < fin.scf_blocks.len() implies cycle_well_formed(
                #[trigger] fin.scf_blocks[i],
            ) by {
                if i < st.pm.scf_blocks.len() {
                    assert(fin.scf_blocks[i] == st.pm.scf_blocks[i]);
                }
            }
        },
        None => {},
    }
}

struct NscfState {
    pm: PwMetrics,
    band: Option<BandBlock>,
}

impl View for NscfState {
    type V = NscfScan;

    closed spec fn view(&self) -> NscfScan {
        NscfScan {
            pm: self.pm@,
            band: match self.band {
                Some(b) => Some(b@),
                None => None,
            },
        }
    }
}

fn nscf_line(st: &mut NscfState, p: &PwPatterns, raw: &[char])
    requires
        p.wf(),
    ensures
        final(st)@ == nscf_step(old(st)@, raw@),
{
    let line = trim_start_slice(raw);
    let marker = chars_of("Band Structure Calculation");
    if contains_chars(line, marker.as_slice()) {
        st.band = Some(BandBlock::new());
        return;
    }
    if st.band.is_some() {
        match parse_band_kpt_progress(p, line) {
            Some((current, total)) => {
                let mut b = st.band.take().unwrap();
                b.kpt_number.push(current);
                b.num_kpts = Some(total);
                st.band = Some(b);
                return;
            },
            None => {},
        }
    }
    match cap_f64(&p.total_cpu, line, 1) {
        Some(t) => {
            match st.band.take() {
                Some(b) => {
                    let mut b = b;
                    if b.cpu_time_first.is_none() {
                        b.cpu_time_first = Some(t.clone());
                    }
                    b.cpu_time_last = Some(t.clone());
                    b.cpu_time.push(t);
                    st.band = Some(b);
                },
                None => {},
            }
        },
        None => {},
    }
}

fn parse_metrics_nscf(text: &[char]) -> (res: PwMetrics)
    ensures
        res@ == parse_metrics_nscf_spec(text@),
{
    let p = PwPatterns::new();
    let spans = line_spans(text);
    let ghost lines = lines_of(text@);
    let mut st = NscfState { pm: PwMetrics::new(PwCalcType::Nscf), band: None };
    let mut i: usize = 0;
    while i < spans.len()
        invariant
            p.wf(),
            spans@.len() == lines.len(),
            lines == lines_of(text@),
            i <= spans@.len(),
            st@ == nscf_fold(lines.take(i as int)),
            forall|k: int|
                0 <= k < spans@.len() ==> {
                    &&& (#[trigger] spans@[k]).0 <= spans@[k].1 <= text@.len()
                    &&& text@.subrange(spans@[k].0 as int, spans@[k].1 as int) == lines[k]
                },
        decreases spans@.len() - i,
    {
        let (a, b) = spans[i];
        let raw = vstd::slice::slice_subrange(text, a, b);
        nscf_line(&mut st, &p, raw);
        assert(lines.take(i + 1).drop_last() =~= lines.take(i as int));
        i += 1;
    }
    assert(lines.take(i as int) =~= lines);
    let mut pm = st.pm;
    match st.band {
        Some(b) => {
            if b.kpt_number.len() > 0 {
                pm.band_blocks.push(b);
            }
        },
        None => {},
    }
    pm
}

/// Which kind of pw.x run `qe_output` comes from.
fn detect_calc_type_chars(text: &[char]) -> (res: PwCalcType)
    ensures
        res == detect_calc_type_spec(text@),
{
    let marker = chars_of("Band Structure Calculation");
    if contains_chars(text, marker.as_slice()) {
        PwCalcType::Nscf
    } else {
        PwCalcType::Scf
    }
}

/// The kind of pw.x run: band structure (nscf, bands) when the output carries the
/// "Band Structure Calculation" marker, else a sequence of scf cycles.
pub fn detect_calc_type(qe_output: &str) -> (res: PwCalcType)
    ensures
        res == detect_calc_type_spec(qe_output@),
{
    let text = chars_of(qe_output);
    detect_calc_type_chars(text.as_slice())
}

/// Everything measured so far in pw.x output: energies, forces, pressures, the scf
/// cycles with their accuracies and timings, or the band-structure k-point progress.
pub fn parse_metrics(qe_output: &str) -> (res: PwMetrics)
    ensures
        res@ == parse_metrics_spec(qe_output@),
{
    let text = chars_of(qe_output);
    match detect_calc_type_chars(text.as_slice()) {
        PwCalcType::Scf => parse_metrics_scf(text.as_slice()),
        PwCalcType::Nscf => parse_metrics_nscf(text.as_slice()),
    }
}

} // verus!
