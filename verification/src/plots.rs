//! The plots the main panels offer for a run. Both panels offer the same set, so any
//! plot can be shown on the left (function keys) and any on the right (number keys).

use vstd::prelude::*;

use crate::app::{Metrics, MetricsView};
use crate::pw::metrics::{PwCalcType, PwMetrics, PwMetricsView};
use crate::wannier90::metrics::WannierMetricsView;

verus! {

/// A plot of a main panel.
#[derive(Clone, Copy, Debug, PartialEq, Eq, Structural)]
pub enum Plot {
    /// Energy change between relaxation steps.
    EnergyDelta,
    /// Total force of each relaxation step.
    Force,
    /// Pressure of each relaxation step.
    Pressure,
    /// Time spent on each k-point of a band-structure run.
    KptTime,
    /// Accuracy of the last scf cycles.
    ScfAccuracy,
    /// Iterations each ph.x representation took.
    ReprIterations,
    /// Disentanglement Ω_I of each iteration.
    DisentanglementAbs,
    /// Disentanglement ΔΩ of each iteration.
    DisentanglementDelta,
    /// Wannierisation spread of each iteration.
    SpreadAbs,
    /// Wannierisation spread change of each iteration.
    SpreadDelta,
    /// Spreads of the Wannier functions.
    WfSpreads,
}

/// The tab label of a plot.
pub open spec fn plot_label(p: Plot) -> Seq<char> {
    match p {
        Plot::EnergyDelta => "|ΔE|"@,
        Plot::Force => "Force"@,
        Plot::Pressure => "Pressure"@,
        Plot::KptTime => "K-pt time"@,
        Plot::ScfAccuracy => "SCF acc."@,
        Plot::ReprIterations => "Repr. Iters"@,
        Plot::DisentanglementAbs => "Disent. abs"@,
        Plot::DisentanglementDelta => "Disent. Δ"@,
        Plot::SpreadAbs => "Spread abs"@,
        Plot::SpreadDelta => "Spread Δ"@,
        Plot::WfSpreads => "WF spreads"@,
    }
}

impl Plot {
    /// The tab label of the plot.
    pub fn label(self) -> (res: &'static str)
        ensures
            res@ == plot_label(self),
    {
        match self {
            Plot::EnergyDelta => "|ΔE|",
            Plot::Force => "Force",
            Plot::Pressure => "Pressure",
            Plot::KptTime => "K-pt time",
            Plot::ScfAccuracy => "SCF acc.",
            Plot::ReprIterations => "Repr. Iters",
            Plot::DisentanglementAbs => "Disent. abs",
            Plot::DisentanglementDelta => "Disent. Δ",
            Plot::SpreadAbs => "Spread abs",
            Plot::SpreadDelta => "Spread Δ",
            Plot::WfSpreads => "WF spreads",
        }
    }
}

/// A relaxation states its convergence criteria.
pub open spec fn is_relax_spec(pm: PwMetricsView) -> bool {
    pm.etot_conv_thr is Some || pm.forc_conv_thr is Some || pm.press_conv_thr is Some
}

/// Whether the run is a relaxation (it states convergence criteria).
pub fn is_relax(pm: &PwMetrics) -> (res: bool)
    ensures
        res == is_relax_spec(pm@),
{
    pm.etot_conv_thr.is_some() || pm.forc_conv_thr.is_some() || pm.press_conv_thr.is_some()
}

/// The plots of a pw.x run: the k-point times of a band-structure run; the energy
/// changes of an scf run, with forces and pressures when it is a relaxation; the scf
/// accuracy last, so the right panel (which defaults to the last plot) shows it.
pub open spec fn pw_plots(pm: PwMetricsView) -> Seq<Plot> {
    match pm.calc_type {
        PwCalcType::Nscf => seq![Plot::KptTime, Plot::ScfAccuracy],
        PwCalcType::Scf => if is_relax_spec(pm) {
            seq![Plot::EnergyDelta, Plot::Force, Plot::Pressure, Plot::ScfAccuracy]
        } else {
            seq![Plot::EnergyDelta, Plot::ScfAccuracy]
        },
    }
}

/// The plots of a ph.x run, the scf accuracy last.
pub open spec fn ph_plots() -> Seq<Plot> {
    seq![Plot::ReprIterations, Plot::ScfAccuracy]
}

/// The plots of a wannier90 run: the two disentanglement plots when it disentangled,
/// then the spread, its change and the Wannier-function spreads.
pub open spec fn wannier90_plots(wm: WannierMetricsView) -> Seq<Plot> {
    let dis = if wm.disentanglement_block is Some {
        seq![Plot::DisentanglementAbs, Plot::DisentanglementDelta]
    } else {
        seq![]
    };
    dis + seq![Plot::SpreadAbs, Plot::SpreadDelta, Plot::WfSpreads]
}

/// The plots the panels offer for what was measured.
pub open spec fn plots_spec(m: MetricsView) -> Seq<Plot> {
    match m {
        MetricsView::Pw(pm) => pw_plots(pm),
        MetricsView::Ph(_) => ph_plots(),
        MetricsView::Wannier90(wm) => wannier90_plots(wm),
    }
}

/// The plots the panels offer for what was measured.
pub fn plots(m: &Metrics) -> (res: Vec<Plot>)
    ensures
        res@ == plots_spec(m@),
{
    match m {
        Metrics::Pw(pm) => match pm.calc_type {
            PwCalcType::Nscf => vec![Plot::KptTime, Plot::ScfAccuracy],
            PwCalcType::Scf => if is_relax(pm) {
                vec![Plot::EnergyDelta, Plot::Force, Plot::Pressure, Plot::ScfAccuracy]
            } else {
                vec![Plot::EnergyDelta, Plot::ScfAccuracy]
            },
        },
        Metrics::Ph(_) => vec![Plot::ReprIterations, Plot::ScfAccuracy],
        Metrics::Wannier90(wm) => {
            let mut v: Vec<Plot> = Vec::new();
            if wm.disentanglement_block.is_some() {
                v.push(Plot::DisentanglementAbs);
                v.push(Plot::DisentanglementDelta);
            }
            v.push(Plot::SpreadAbs);
            v.push(Plot::SpreadDelta);
            v.push(Plot::WfSpreads);
            assert(v@ =~= plots_spec(m@));
            v
        },
    }
}

/// Every run offers a choice of plots, and the scf accuracy (for pw.x and ph.x) or the
/// Wannier-function spreads (for wannier90) come last.
pub proof fn lemma_every_run_offers_a_choice(m: MetricsView)
    ensures
        plots_spec(m).len() >= 2,
        m is Pw ==> plots_spec(m).last() == Plot::ScfAccuracy,
        m is Ph ==> plots_spec(m).last() == Plot::ScfAccuracy,
        m is Wannier90 ==> plots_spec(m).last() == Plot::WfSpreads,
{
}

} // verus!
