//! What is measured in a wannier90 run.

use vstd::prelude::*;

use crate::pw::metrics::{opt_text, texts};

verus! {

/// The disentanglement iterations. Values are the text of the numbers.
#[derive(Debug)]
pub struct DisentanglementBlock {
    /// CPU time at each iteration
    pub cpu_time: Vec<String>,
    /// absolute Omega_I(i) at each iteration
    pub omega_i: Vec<String>,
    /// fractional change in Omega_I at each iteration
    pub delta_omega_i: Vec<String>,
}

pub ghost struct DisentanglementBlockView {
    pub cpu_time: Seq<Seq<char>>,
    pub omega_i: Seq<Seq<char>>,
    pub delta_omega_i: Seq<Seq<char>>,
}

impl View for DisentanglementBlock {
    type V = DisentanglementBlockView;

    open spec fn view(&self) -> DisentanglementBlockView {
        DisentanglementBlockView {
            cpu_time: texts(self.cpu_time@),
            omega_i: texts(self.omega_i@),
            delta_omega_i: texts(self.delta_omega_i@),
        }
    }
}

impl DisentanglementBlockView {
    pub open spec fn empty() -> DisentanglementBlockView {
        DisentanglementBlockView { cpu_time: seq![], omega_i: seq![], delta_omega_i: seq![] }
    }
}

impl DisentanglementBlock {
    pub fn new() -> (b: DisentanglementBlock)
        ensures
            b@ == DisentanglementBlockView::empty(),
    {
        let b = DisentanglementBlock { cpu_time: Vec::new(), omega_i: Vec::new(), delta_omega_i: Vec::new() };
        assert(b@.cpu_time =~= seq![]);
        assert(b@.omega_i =~= seq![]);
        assert(b@.delta_omega_i =~= seq![]);
        b
    }
}

/// The wannierisation iterations. Values are the text of the numbers.
#[derive(Debug)]
pub struct SpreadBlock {
    /// CPU time at each iteration
    pub cpu_time: Vec<String>,
    /// spread at each iteration
    pub spread: Vec<String>,
    /// change in spread at each iteration
    pub delta_spread: Vec<String>,
    /// per-Wannier-function spread of the last complete block
    pub wf_spreads_last: Vec<String>,
}

pub ghost struct SpreadBlockView {
    pub cpu_time: Seq<Seq<char>>,
    pub spread: Seq<Seq<char>>,
    pub delta_spread: Seq<Seq<char>>,
    pub wf_spreads_last: Seq<Seq<char>>,
}

impl View for SpreadBlock {
    type V = SpreadBlockView;

    open spec fn view(&self) -> SpreadBlockView {
        SpreadBlockView {
            cpu_time: texts(self.cpu_time@),
            spread: texts(self.spread@),
            delta_spread: texts(self.delta_spread@),
            wf_spreads_last: texts(self.wf_spreads_last@),
        }
    }
}

/// Everything measured in a wannier90 run. Thresholds are the text of the numbers;
/// `wannierize_conv_threshold` stays `"-1.0"` until a tolerance is read.
#[derive(Debug)]
pub struct WannierMetrics {
    pub has_disentanglement: bool,
    pub disentanglement_converged: Option<bool>,
    pub disentanglement_conv_threshold: Option<String>,
    pub wannierize_conv_threshold: String,
    pub wannierize_max_iterations: Option<u32>,
    pub dis_max_iterations: Option<u32>,
    pub disentanglement_block: Option<DisentanglementBlock>,
    pub spread_block: SpreadBlock,
}

pub ghost struct WannierMetricsView {
    pub has_disentanglement: bool,
    pub disentanglement_converged: Option<bool>,
    pub disentanglement_conv_threshold: Option<Seq<char>>,
    pub wannierize_conv_threshold: Seq<char>,
    pub wannierize_max_iterations: Option<u32>,
    pub dis_max_iterations: Option<u32>,
    pub disentanglement_block: Option<DisentanglementBlockView>,
    pub spread_block: SpreadBlockView,
}

impl View for WannierMetrics {
    type V = WannierMetricsView;

    open spec fn view(&self) -> WannierMetricsView {
        WannierMetricsView {
            has_disentanglement: self.has_disentanglement,
            disentanglement_converged: self.disentanglement_converged,
            disentanglement_conv_threshold: opt_text(self.disentanglement_conv_threshold),
            wannierize_conv_threshold: self.wannierize_conv_threshold@,
            wannierize_max_iterations: self.wannierize_max_iterations,
            dis_max_iterations: self.dis_max_iterations,
            disentanglement_block: match self.disentanglement_block {
                Some(b) => Some(b@),
                None => None,
            },
            spread_block: self.spread_block@,
        }
    }
}

impl WannierMetricsView {
    /// Nothing read yet; the wannierisation threshold holds its unset value `-1.0`.
    pub open spec fn empty() -> WannierMetricsView {
        WannierMetricsView {
            has_disentanglement: false,
            disentanglement_converged: None,
            disentanglement_conv_threshold: None,
            wannierize_conv_threshold: "-1.0"@,
            wannierize_max_iterations: None,
            dis_max_iterations: None,
            disentanglement_block: None,
            spread_block: SpreadBlockView {
                cpu_time: seq![],
                spread: seq![],
                delta_spread: seq![],
                wf_spreads_last: seq![],
            },
        }
    }
}

impl WannierMetrics {
    pub fn new() -> (m: WannierMetrics)
        ensures
            m@ == WannierMetricsView::empty(),
    {
        let m = WannierMetrics {
            has_disentanglement: false,
            disentanglement_converged: None,
            disentanglement_conv_threshold: None,
            wannierize_conv_threshold: "-1.0".to_owned(),
            wannierize_max_iterations: None,
            dis_max_iterations: None,
            disentanglement_block: None,
            spread_block: SpreadBlock {
                cpu_time: Vec::new(),
                spread: Vec::new(),
                delta_spread: Vec::new(),
                wf_spreads_last: Vec::new(),
            },
        };
        assert(m@.spread_block.cpu_time =~= seq![]);
        assert(m@.spread_block.spread =~= seq![]);
        assert(m@.spread_block.delta_spread =~= seq![]);
        assert(m@.spread_block.wf_spreads_last =~= seq![]);
        m
    }

    /// Wannierisation iterations done: the rows of the spread table but the first,
    /// which is the initial state rather than an iteration.
    pub fn wannierise_iterations_done(&self) -> (res: usize)
        ensures
            res == if self@.spread_block.spread.len() > 0 {
                self@.spread_block.spread.len() - 1
            } else {
                0
            },
    {
        let n = self.spread_block.spread.len();
        if n > 0 {
            n - 1
        } else {
            0
        }
    }

    /// Disentanglement iterations done: the rows of the disentanglement table.
    pub fn disentangle_iterations_done(&self) -> (res: usize)
        ensures
            res == match self@.disentanglement_block {
                Some(b) => b.cpu_time.len(),
                None => 0,
            },
    {
        match &self.disentanglement_block {
            Some(b) => b.cpu_time.len(),
            None => 0,
        }
    }
}

} // verus!
