//! What is measured in a ph.x run.

use vstd::prelude::*;

use crate::pw::metrics::{opt_text, scf_views, ScfBlock, ScfBlockView};

verus! {

/// The coordinates of a q-point, as the text of the three numbers.
#[derive(Debug)]
pub struct Qpoint {
    pub x: String,
    pub y: String,
    pub z: String,
}

pub ghost struct QpointView {
    pub x: Seq<char>,
    pub y: Seq<char>,
    pub z: Seq<char>,
}

impl View for Qpoint {
    type V = QpointView;

    open spec fn view(&self) -> QpointView {
        QpointView { x: self.x@, y: self.y@, z: self.z@ }
    }
}

/// A row of the "Number and degeneracy of irreps per q-point" table.
#[derive(Debug)]
pub struct IrrepsRow {
    pub q: Qpoint,
    pub n_irreps: u32,
}

pub ghost struct IrrepsRowView {
    pub q: QpointView,
    pub n_irreps: u32,
}

impl View for IrrepsRow {
    type V = IrrepsRowView;

    open spec fn view(&self) -> IrrepsRowView {
        IrrepsRowView { q: self.q@, n_irreps: self.n_irreps }
    }
}

/// A q-point the run started ("Calculation of q = ..."): its coordinates when they
/// read as numbers, and how many rows the irreps table had at that point (the rows it
/// may be looked up in).
#[derive(Debug)]
pub struct StartedQpoint {
    pub q: Option<Qpoint>,
    pub table_len: usize,
}

pub ghost struct StartedQpointView {
    pub q: Option<QpointView>,
    pub table_len: nat,
}

impl View for StartedQpoint {
    type V = StartedQpointView;

    open spec fn view(&self) -> StartedQpointView {
        StartedQpointView {
            q: match self.q {
                Some(q) => Some(q@),
                None => None,
            },
            table_len: self.table_len as nat,
        }
    }
}

/// Phonon-specific metrics. Representation blocks are scf cycles like those of pw.x.
#[derive(Debug)]
pub struct PhMetrics {
    pub num_qpoints: u32,
    pub num_qpoints_completed: u32,
    pub num_representations_completed: u32,
    pub representation_blocks: Vec<ScfBlock>,
    pub conv_threshold: Option<String>,
    /// The irreps table (every q-point of the grid), in order.
    pub irreps_table: Vec<IrrepsRow>,
    /// The q-points this run started, in order.
    pub qpoints_started: Vec<StartedQpoint>,
    /// Irreps of each q-point from its "There are N irreducible representations" line.
    pub irreps_announced: Vec<u32>,
}

pub ghost struct PhMetricsView {
    pub num_qpoints: u32,
    pub num_qpoints_completed: u32,
    pub num_representations_completed: u32,
    pub representation_blocks: Seq<ScfBlockView>,
    pub conv_threshold: Option<Seq<char>>,
    pub irreps_table: Seq<IrrepsRowView>,
    pub qpoints_started: Seq<StartedQpointView>,
    pub irreps_announced: Seq<u32>,
}

pub open spec fn row_views(v: Seq<IrrepsRow>) -> Seq<IrrepsRowView> {
    v.map_values(|r: IrrepsRow| r@)
}

pub open spec fn started_views(v: Seq<StartedQpoint>) -> Seq<StartedQpointView> {
    v.map_values(|q: StartedQpoint| q@)
}

impl View for PhMetrics {
    type V = PhMetricsView;

    open spec fn view(&self) -> PhMetricsView {
        PhMetricsView {
            num_qpoints: self.num_qpoints,
            num_qpoints_completed: self.num_qpoints_completed,
            num_representations_completed: self.num_representations_completed,
            representation_blocks: scf_views(self.representation_blocks@),
            conv_threshold: opt_text(self.conv_threshold),
            irreps_table: row_views(self.irreps_table@),
            qpoints_started: started_views(self.qpoints_started@),
            irreps_announced: self.irreps_announced@,
        }
    }
}

impl PhMetricsView {
    pub open spec fn empty() -> PhMetricsView {
        PhMetricsView {
            num_qpoints: 0,
            num_qpoints_completed: 0,
            num_representations_completed: 0,
            representation_blocks: seq![],
            conv_threshold: None,
            irreps_table: seq![],
            qpoints_started: seq![],
            irreps_announced: seq![],
        }
    }
}

/// The irreps found in the table for the started q-points, in order, skipping those
/// that were not found.
pub open spec fn found_irreps(found: Seq<Option<u32>>) -> Seq<u32>
    decreases found.len(),
{
    if found.len() == 0 {
        seq![]
    } else {
        match found.last() {
            Some(n) => found_irreps(found.drop_last()).push(n),
            None => found_irreps(found.drop_last()),
        }
    }
}

/// The irreps of the q-points this run touches: looked up in the table when any were
/// found there, else as each q-point announced them.
pub open spec fn num_representations_spec(announced: Seq<u32>, found: Seq<Option<u32>>) -> Seq<u32> {
    if found_irreps(found).len() > 0 {
        found_irreps(found)
    } else {
        announced
    }
}

pub broadcast proof fn lemma_row_views_push(v: Seq<IrrepsRow>, x: IrrepsRow)
    ensures
        #[trigger] row_views(v.push(x)) == row_views(v).push(x@),
{
    assert(row_views(v.push(x)) =~= row_views(v).push(x@));
}

pub broadcast proof fn lemma_started_views_push(v: Seq<StartedQpoint>, x: StartedQpoint)
    ensures
        #[trigger] started_views(v.push(x)) == started_views(v).push(x@),
{
    assert(started_views(v.push(x)) =~= started_views(v).push(x@));
}

impl PhMetrics {
    pub fn new() -> (m: PhMetrics)
        ensures
            m@ == PhMetricsView::empty(),
    {
        let m = PhMetrics {
            num_qpoints: 0,
            num_qpoints_completed: 0,
            num_representations_completed: 0,
            representation_blocks: Vec::new(),
            conv_threshold: None,
            irreps_table: Vec::new(),
            qpoints_started: Vec::new(),
            irreps_announced: Vec::new(),
        };
        assert(m@.representation_blocks =~= seq![]);
        assert(m@.irreps_table =~= seq![]);
        assert(m@.qpoints_started =~= seq![]);
        m
    }

    /// How many leading representation blocks are finished: as many as representations
    /// completed, as far as there are blocks (the one after them may still be running).
    pub fn completed_blocks(&self) -> (res: usize)
        ensures
            res == if self@.num_representations_completed <= self@.representation_blocks.len() {
                self@.num_representations_completed as nat
            } else {
                self@.representation_blocks.len()
            },
    {
        let done = self.num_representations_completed as usize;
        if done <= self.representation_blocks.len() {
            done
        } else {
            self.representation_blocks.len()
        }
    }

    /// The irreps of the q-points this run touches. `found[i]` is the irreps count the
    /// table gives for the `i`-th started q-point (`None` when it has no coordinates or
    /// no table row matches them).
    pub fn num_representations(&self, found: &Vec<Option<u32>>) -> (res: Vec<u32>)
        ensures
            res@ == num_representations_spec(self@.irreps_announced, found@),
    {
        let mut computed: Vec<u32> = Vec::new();
        let mut i: usize = 0;
        while i < found.len()
            invariant
                i <= found@.len(),
                computed@ == found_irreps(found@.take(i as int)),
            decreases found@.len() - i,
        {
            assert(found@.take(i + 1).drop_last() =~= found@.take(i as int));
            match found[i] {
                Some(n) => computed.push(n),
                None => {},
            }
            i += 1;
        }
        assert(found@.take(found@.len() as int) =~= found@);
        if computed.len() > 0 {
            computed
        } else {
            let mut all: Vec<u32> = Vec::new();
            let mut k: usize = 0;
            while k < self.irreps_announced.len()
                invariant
                    k <= self.irreps_announced@.len(),
                    all@ == self.irreps_announced@.take(k as int),
                decreases self.irreps_announced@.len() - k,
            {
                all.push(self.irreps_announced[k]);
                k += 1;
                assert(all@ =~= self.irreps_announced@.take(k as int));
            }
            assert(all@ =~= self.irreps_announced@);
            all
        }
    }
}

} // verus!
