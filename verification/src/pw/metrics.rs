//! What is measured in a pw.x run.

use vstd::prelude::*;

verus! {

/// The text of every string of a sequence.
pub open spec fn texts(v: Seq<String>) -> Seq<Seq<char>> {
    v.map_values(|s: String| s@)
}

/// The text of an optional string.
pub open spec fn opt_text(o: Option<String>) -> Option<Seq<char>> {
    match o {
        Some(s) => Some(s@),
        None => None,
    }
}

/// Which kind of pw.x run an output file comes from.
#[derive(Debug, Clone, Copy, PartialEq, Eq, Structural)]
pub enum PwCalcType {
    /// scf, relax, vc-relax, md, vc-md
    Scf,
    /// nscf, bands
    Nscf,
}

/// One self-consistent cycle. Times and accuracies are the text of the numbers.
#[derive(Debug)]
pub struct ScfBlock {
    pub iteration: Vec<u32>,
    pub accuracy: Vec<String>,
    /// cumulative CPU time at each iteration
    pub cpu_time: Vec<String>,
    /// number of iterations until convergence
    pub conv_iters: Option<u32>,
    /// CPU time at the first timing of the cycle
    pub cpu_time_first: Option<String>,
    /// CPU time at the last timing of the cycle
    pub cpu_time_last: Option<String>,
}

pub ghost struct ScfBlockView {
    pub iteration: Seq<u32>,
    pub accuracy: Seq<Seq<char>>,
    pub cpu_time: Seq<Seq<char>>,
    pub conv_iters: Option<u32>,
    pub cpu_time_first: Option<Seq<char>>,
    pub cpu_time_last: Option<Seq<char>>,
}

impl ScfBlockView {
    pub open spec fn empty() -> ScfBlockView {
        ScfBlockView {
            iteration: seq![],
            accuracy: seq![],
            cpu_time: seq![],
            conv_iters: None,
            cpu_time_first: None,
            cpu_time_last: None,
        }
    }

    /// A cycle is worth reporting once it has an accuracy, an iteration count or a
    /// timing.
    pub open spec fn has_data(self) -> bool {
        self.accuracy.len() > 0 || self.conv_iters is Some || self.cpu_time_first is Some
            || self.cpu_time_last is Some
    }
}

impl View for ScfBlock {
    type V = ScfBlockView;

    open spec fn view(&self) -> ScfBlockView {
        ScfBlockView {
            iteration: self.iteration@,
            accuracy: texts(self.accuracy@),
            cpu_time: texts(self.cpu_time@),
            conv_iters: self.conv_iters,
            cpu_time_first: opt_text(self.cpu_time_first),
            cpu_time_last: opt_text(self.cpu_time_last),
        }
    }
}

/// The largest element of `s`, if any.
pub open spec fn seq_max(s: Seq<u32>) -> Option<u32>
    decreases s.len(),
{
    if s.len() == 0 {
        None
    } else {
        match seq_max(s.drop_last()) {
            Some(m) => if s.last() > m {
                Some(s.last())
            } else {
                Some(m)
            },
            None => Some(s.last()),
        }
    }
}

pub fn max_of(v: &Vec<u32>) -> (res: Option<u32>)
    ensures
        res == seq_max(v@),
{
    let mut m: Option<u32> = None;
    let mut i: usize = 0;
    while i < v.len()
        invariant
            i <= v@.len(),
            m == seq_max(v@.take(i as int)),
        decreases v@.len() - i,
    {
        assert(v@.take(i + 1).drop_last() =~= v@.take(i as int));
        m = match m {
            Some(x) => if v[i] > x {
                Some(v[i])
            } else {
                Some(x)
            },
            None => Some(v[i]),
        };
        i += 1;
    }
    assert(v@.take(v@.len() as int) =~= v@);
    m
}

impl ScfBlockView {
    pub open spec fn iterations_to_converge(self) -> Option<u32> {
        match self.conv_iters {
            Some(n) => Some(n),
            None => seq_max(self.iteration),
        }
    }
}

impl ScfBlock {
    pub fn new() -> (b: ScfBlock)
        ensures
            b@ == ScfBlockView::empty(),
    {
        let b = ScfBlock {
            iteration: Vec::new(),
            accuracy: Vec::new(),
            cpu_time: Vec::new(),
            conv_iters: None,
            cpu_time_first: None,
            cpu_time_last: None,
        };
        assert(b@.accuracy =~= seq![]);
        assert(b@.cpu_time =~= seq![]);
        b
    }

    /// Iterations the cycle took: the reported count, else the highest iteration seen.
    pub fn iterations_to_converge(&self) -> (res: Option<u32>)
        ensures
            res == self@.iterations_to_converge(),
    {
        match self.conv_iters {
            Some(n) => Some(n),
            None => max_of(&self.iteration),
        }
    }
}

/// Band structure calculation block.
#[derive(Debug)]
pub struct BandBlock {
    /// k-point indices
    pub kpt_number: Vec<u32>,
    /// CPU time at each k-point
    pub cpu_time: Vec<String>,
    /// total k-points
    pub num_kpts: Option<u32>,
    /// first timing
    pub cpu_time_first: Option<String>,
    /// last timing
    pub cpu_time_last: Option<String>,
}

pub ghost struct BandBlockView {
    pub kpt_number: Seq<u32>,
    pub cpu_time: Seq<Seq<char>>,
    pub num_kpts: Option<u32>,
    pub cpu_time_first: Option<Seq<char>>,
    pub cpu_time_last: Option<Seq<char>>,
}

impl BandBlockView {
    pub open spec fn empty() -> BandBlockView {
        BandBlockView {
            kpt_number: seq![],
            cpu_time: seq![],
            num_kpts: None,
            cpu_time_first: None,
            cpu_time_last: None,
        }
    }
}

impl View for BandBlock {
    type V = BandBlockView;

    open spec fn view(&self) -> BandBlockView {
        BandBlockView {
            kpt_number: self.kpt_number@,
            cpu_time: texts(self.cpu_time@),
            num_kpts: self.num_kpts,
            cpu_time_first: opt_text(self.cpu_time_first),
            cpu_time_last: opt_text(self.cpu_time_last),
        }
    }
}

impl BandBlock {
    pub fn new() -> (b: BandBlock)
        ensures
            b@ == BandBlockView::empty(),
    {
        let b = BandBlock {
            kpt_number: Vec::new(),
            cpu_time: Vec::new(),
            num_kpts: None,
            cpu_time_first: None,
            cpu_time_last: None,
        };
        assert(b@.cpu_time =~= seq![]);
        b
    }
}

/// Everything measured in a pw.x run. Energies, forces, pressures, thresholds and errors
/// are the text of the numbers.
#[derive(Debug)]
pub struct PwMetrics {
    pub calc_type: PwCalcType,
    pub total_force: Vec<String>,
    pub total_energy: Vec<String>,
    pub pressure: Vec<String>,
    pub scf_blocks: Vec<ScfBlock>,
    pub band_blocks: Vec<BandBlock>,
    /// Number of k-point pools (`pw.x -nk`). `None` or 1 means no pooling.
    pub npool: Option<u32>,
    pub num_kpts_total: Option<u32>,
    pub scf_conv_thr: Option<String>,
    pub etot_conv_thr: Option<String>,
    pub forc_conv_thr: Option<String>,
    pub press_conv_thr: Option<String>,
    /// "Energy error" [Ry]
    pub ion_dyn_etot_err: Vec<String>,
    /// "Gradient error" [Ry/Bohr] - max force component
    pub ion_dyn_forc_err: Vec<String>,
    /// "Cell gradient error" [kbar]
    pub ion_dyn_press_err: Vec<String>,
}

pub ghost struct PwMetricsView {
    pub calc_type: PwCalcType,
    pub total_force: Seq<Seq<char>>,
    pub total_energy: Seq<Seq<char>>,
    pub pressure: Seq<Seq<char>>,
    pub scf_blocks: Seq<ScfBlockView>,
    pub band_blocks: Seq<BandBlockView>,
    pub npool: Option<u32>,
    pub num_kpts_total: Option<u32>,
    pub scf_conv_thr: Option<Seq<char>>,
    pub etot_conv_thr: Option<Seq<char>>,
    pub forc_conv_thr: Option<Seq<char>>,
    pub press_conv_thr: Option<Seq<char>>,
    pub ion_dyn_etot_err: Seq<Seq<char>>,
    pub ion_dyn_forc_err: Seq<Seq<char>>,
    pub ion_dyn_press_err: Seq<Seq<char>>,
}

impl PwMetricsView {
    pub open spec fn empty(calc_type: PwCalcType) -> PwMetricsView {
        PwMetricsView {
            calc_type,
            total_force: seq![],
            total_energy: seq![],
            pressure: seq![],
            scf_blocks: seq![],
            band_blocks: seq![],
            npool: None,
            num_kpts_total: None,
            scf_conv_thr: None,
            etot_conv_thr: None,
            forc_conv_thr: None,
            press_conv_thr: None,
            ion_dyn_etot_err: seq![],
            ion_dyn_forc_err: seq![],
            ion_dyn_press_err: seq![],
        }
    }
}

pub open spec fn scf_views(v: Seq<ScfBlock>) -> Seq<ScfBlockView> {
    v.map_values(|b: ScfBlock| b@)
}

pub open spec fn band_views(v: Seq<BandBlock>) -> Seq<BandBlockView> {
    v.map_values(|b: BandBlock| b@)
}

impl View for PwMetrics {
    type V = PwMetricsView;

    open spec fn view(&self) -> PwMetricsView {
        PwMetricsView {
            calc_type: self.calc_type,
            total_force: texts(self.total_force@),
            total_energy: texts(self.total_energy@),
            pressure: texts(self.pressure@),
            scf_blocks: scf_views(self.scf_blocks@),
            band_blocks: band_views(self.band_blocks@),
            npool: self.npool,
            num_kpts_total: self.num_kpts_total,
            scf_conv_thr: opt_text(self.scf_conv_thr),
            etot_conv_thr: opt_text(self.etot_conv_thr),
            forc_conv_thr: opt_text(self.forc_conv_thr),
            press_conv_thr: opt_text(self.press_conv_thr),
            ion_dyn_etot_err: texts(self.ion_dyn_etot_err@),
            ion_dyn_forc_err: texts(self.ion_dyn_forc_err@),
            ion_dyn_press_err: texts(self.ion_dyn_press_err@),
        }
    }
}

impl PwMetrics {
    pub fn new(calc_type: PwCalcType) -> (m: PwMetrics)
        ensures
            m@ == PwMetricsView::empty(calc_type),
    {
        let m = PwMetrics {
            calc_type,
            total_force: Vec::new(),
            total_energy: Vec::new(),
            pressure: Vec::new(),
            scf_blocks: Vec::new(),
            band_blocks: Vec::new(),
            npool: None,
            num_kpts_total: None,
            scf_conv_thr: None,
            etot_conv_thr: None,
            forc_conv_thr: None,
            press_conv_thr: None,
            ion_dyn_etot_err: Vec::new(),
            ion_dyn_forc_err: Vec::new(),
            ion_dyn_press_err: Vec::new(),
        };
        assert(m@.total_force =~= seq![]);
        assert(m@.total_energy =~= seq![]);
        assert(m@.pressure =~= seq![]);
        assert(m@.scf_blocks =~= seq![]);
        assert(m@.band_blocks =~= seq![]);
        assert(m@.ion_dyn_etot_err =~= seq![]);
        assert(m@.ion_dyn_forc_err =~= seq![]);
        assert(m@.ion_dyn_press_err =~= seq![]);
        m
    }
}


/// How many leading cycles the run statistics average over: all but the last, which
/// may still be running, when there are at least two; else all of them.
pub open spec fn summary_cycle_count(n: nat) -> nat {
    if n >= 2 {
        (n - 1) as nat
    } else {
        n
    }
}

impl PwMetrics {
    /// How many leading scf cycles the run statistics average over.
    pub fn summary_cycles(&self) -> (res: usize)
        ensures
            res == summary_cycle_count(self@.scf_blocks.len()),
    {
        let n = self.scf_blocks.len();
        if n >= 2 {
            n - 1
        } else {
            n
        }
    }
}

/// The iteration counts of `blocks` that are known and positive, in order.
pub open spec fn positive_iterations_spec(blocks: Seq<ScfBlockView>) -> Seq<u32>
    decreases blocks.len(),
{
    if blocks.len() == 0 {
        seq![]
    } else {
        let rest = positive_iterations_spec(blocks.drop_last());
        match blocks.last().iterations_to_converge() {
            Some(n) => if n > 0 {
                rest.push(n)
            } else {
                rest
            },
            None => rest,
        }
    }
}

/// The iteration counts of the first `n` cycles that are known and positive, in order.
pub fn positive_iterations(blocks: &Vec<ScfBlock>, n: usize) -> (res: Vec<u32>)
    requires
        n <= blocks@.len(),
    ensures
        res@ == positive_iterations_spec(scf_views(blocks@).take(n as int)),
{
    let mut out: Vec<u32> = Vec::new();
    let mut i: usize = 0;
    while i < n
        invariant
            i <= n <= blocks@.len(),
            out@ == positive_iterations_spec(scf_views(blocks@).take(i as int)),
        decreases n - i,
    {
        let ghost views = scf_views(blocks@);
        assert(views.take(i + 1).drop_last() =~= views.take(i as int));
        assert(views.take(i + 1).last() == blocks@[i as int]@);
        match blocks[i].iterations_to_converge() {
            Some(k) => {
                if k > 0 {
                    out.push(k);
                }
            },
            None => {},
        }
        i += 1;
    }
    out
}


pub broadcast proof fn lemma_texts_push(v: Seq<String>, x: String)
    ensures
        #[trigger] texts(v.push(x)) == texts(v).push(x@),
{
    assert(texts(v.push(x)) =~= texts(v).push(x@));
}

pub broadcast proof fn lemma_scf_views_push(v: Seq<ScfBlock>, x: ScfBlock)
    ensures
        #[trigger] scf_views(v.push(x)) == scf_views(v).push(x@),
{
    assert(scf_views(v.push(x)) =~= scf_views(v).push(x@));
}

pub broadcast proof fn lemma_scf_views_drop_last(v: Seq<ScfBlock>)
    requires
        v.len() > 0,
    ensures
        #[trigger] scf_views(v.drop_last()) == scf_views(v).drop_last(),
{
    assert(scf_views(v.drop_last()) =~= scf_views(v).drop_last());
}

pub broadcast proof fn lemma_band_views_push(v: Seq<BandBlock>, x: BandBlock)
    ensures
        #[trigger] band_views(v.push(x)) == band_views(v).push(x@),
{
    assert(band_views(v.push(x)) =~= band_views(v).push(x@));
}

pub broadcast group group_metrics_views {
    lemma_texts_push,
    lemma_scf_views_push,
    lemma_scf_views_drop_last,
    lemma_band_views_push,
}

} // verus!
