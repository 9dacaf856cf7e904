//! The state a monitor keeps about one output file: who produced it, what has been
//! parsed from it, and the view settings the keyboard changes.

use vstd::prelude::*;

use crate::ph::metrics::{PhMetrics, PhMetricsView};
use crate::pw::metrics::{PwCalcType, PwMetrics, PwMetricsView};
use crate::ui::{rebuild_spec, KeyInput, TabGroup, TabGroupView, TabKeys};
use crate::wannier90::metrics::{WannierMetrics, WannierMetricsView};
use crate::plots::{lemma_every_run_offers_a_choice, plots, plots_spec, Plot};
use crate::CalcType;

verus! {

/// The header information of a run.
#[derive(Debug)]
pub struct RunInfo {
    pub version: Option<String>,
    pub executable: Option<String>,
    pub start_time: Option<String>,
    pub mpi_ranks: Option<String>,
    pub omp_threads: Option<String>,
}

/// The text of an optional string.
pub open spec fn opt_view(o: Option<String>) -> Option<Seq<char>> {
    match o {
        Some(s) => Some(s@),
        None => None,
    }
}

/// The header information of a run, as text.
pub ghost struct RunInfoView {
    pub version: Option<Seq<char>>,
    pub executable: Option<Seq<char>>,
    pub start_time: Option<Seq<char>>,
    pub mpi_ranks: Option<Seq<char>>,
    pub omp_threads: Option<Seq<char>>,
}

impl RunInfoView {
    pub open spec fn empty() -> RunInfoView {
        RunInfoView {
            version: None,
            executable: None,
            start_time: None,
            mpi_ranks: None,
            omp_threads: None,
        }
    }
}

impl View for RunInfo {
    type V = RunInfoView;

    open spec fn view(&self) -> RunInfoView {
        RunInfoView {
            version: opt_view(self.version),
            executable: opt_view(self.executable),
            start_time: opt_view(self.start_time),
            mpi_ranks: opt_view(self.mpi_ranks),
            omp_threads: opt_view(self.omp_threads),
        }
    }
}

impl Default for RunInfo {
    fn default() -> (r: RunInfo)
        ensures
            r@ == RunInfoView::empty(),
    {
        RunInfo { version: None, executable: None, start_time: None, mpi_ranks: None, omp_threads: None }
    }
}


/// What has been measured in a run, by program.
#[derive(Debug)]
pub enum Metrics {
    Pw(PwMetrics),
    Ph(PhMetrics),
    Wannier90(WannierMetrics),
}

pub ghost enum MetricsView {
    Pw(PwMetricsView),
    Ph(PhMetricsView),
    Wannier90(WannierMetricsView),
}

impl View for Metrics {
    type V = MetricsView;

    open spec fn view(&self) -> MetricsView {
        match self {
            Metrics::Pw(m) => MetricsView::Pw(m@),
            Metrics::Ph(m) => MetricsView::Ph(m@),
            Metrics::Wannier90(m) => MetricsView::Wannier90(m@),
        }
    }
}

impl Default for Metrics {
    fn default() -> (m: Metrics)
        ensures
            m@ == MetricsView::Pw(PwMetricsView::empty(PwCalcType::Scf)),
    {
        Metrics::Pw(PwMetrics::new(PwCalcType::Scf))
    }
}

/// How the two main panels are laid out.
#[derive(Debug, Clone, Copy, PartialEq, Eq, Structural)]
pub enum Orientation {
    Horizontal,
    Vertical,
}

/// How to bring the output text up to date with the file, given its size and whether
/// its modification time changed.
#[derive(Debug, Clone, Copy, PartialEq, Eq, Structural)]
pub enum RefreshPlan {
    /// Nothing changed.
    Unchanged,
    /// Read only the bytes appended since the last check, from this offset on.
    Append(u64),
    /// Read the whole file again (it shrank, was replaced, or was empty).
    Reread,
}

/// The refresh to perform: none when neither the size nor the modification time
/// changed; only the appended bytes when the file grew from a non-empty size; otherwise
/// the whole file.
pub open spec fn refresh_plan_spec(last_size: u64, size: u64, same_modified: bool) -> RefreshPlan {
    if same_modified && size == last_size {
        RefreshPlan::Unchanged
    } else if size >= last_size && last_size > 0 {
        RefreshPlan::Append(last_size)
    } else {
        RefreshPlan::Reread
    }
}

/// The layout split after a key press: `a`/Left and `d`/Right (horizontal layout) or
/// `w`/Up and `s`/Down (vertical layout) move it by 15 points, between 20 and 80.
pub open spec fn split_after_key(split: u16, orientation: Orientation, key: KeyInput) -> u16 {
    let shrink = match orientation {
        Orientation::Horizontal => key == KeyInput::Char('a') || key == KeyInput::Left,
        Orientation::Vertical => key == KeyInput::Char('w') || key == KeyInput::Up,
    };
    let grow = match orientation {
        Orientation::Horizontal => key == KeyInput::Char('d') || key == KeyInput::Right,
        Orientation::Vertical => key == KeyInput::Char('s') || key == KeyInput::Down,
    };
    if shrink {
        let s = if split >= 15 {
            (split - 15) as u16
        } else {
            0u16
        };
        if s >= 20 {
            s
        } else {
            20
        }
    } else if grow {
        if split + 15 <= 80 {
            (split + 15) as u16
        } else {
            80
        }
    } else {
        split
    }
}

pub open spec fn toggled(o: Orientation) -> Orientation {
    match o {
        Orientation::Horizontal => Orientation::Vertical,
        Orientation::Vertical => Orientation::Horizontal,
    }
}

/// The state of the monitor for one output file.
#[derive(Debug)]
pub struct App {
    pub exit: bool,
    /// percentage for the main widget split
    pub main_widget_split: u16,
    pub main_widget_orientation: Orientation,
    pub calc_type: CalcType,
    pub run_info: RunInfo,
    pub metrics: Metrics,
    /// plots picked with the function keys
    pub left_charts: TabGroup,
    /// plots picked with the number keys; defaults to the last plot
    pub right_charts: TabGroup,
    pub output_file: String,
    pub last_size: u64,
}

/// What is parsed from `content` for a run of `calc_type`.
pub open spec fn parsed(calc_type: CalcType, content: Seq<char>) -> (RunInfoView, MetricsView) {
    match calc_type {
        CalcType::Pw => (
            crate::pw::parser::parse_run_info_spec(content),
            MetricsView::Pw(crate::pw::parser::parse_metrics_spec(content)),
        ),
        CalcType::Ph => (
            crate::pw::parser::parse_run_info_spec(content),
            MetricsView::Ph(crate::ph::parser::parse_metrics_spec(content)),
        ),
        CalcType::Wannier90 => (
            crate::wannier90::parser::parse_run_info_spec(content),
            MetricsView::Wannier90(crate::wannier90::parser::parse_metrics_spec(content)),
        ),
    }
}

impl App {
    /// The run info and metrics reflect the output text.
    pub open spec fn is_parsed(&self) -> bool {
        (self.run_info@, self.metrics@) == parsed(self.calc_type, self.output_file@)
    }

    /// A monitor of `output` (the text of a file of size `size`), parsed.
    pub fn new(calc_type: CalcType, output: String, size: u64) -> (app: App)
        ensures
            app.is_parsed(),
            app.output_file@ == output@,
            app.last_size == size,
            !app.exit,
            app.main_widget_split == 50,
            app.main_widget_orientation == Orientation::Horizontal,
            app.calc_type == calc_type,
            app.left_charts@.keys == TabKeys::Function,
            !app.left_charts@.prefer_last,
            app.right_charts@.keys == TabKeys::Digit,
            app.right_charts@.prefer_last,
            !app.left_charts@.user_selected && !app.right_charts@.user_selected,
            app.left_charts@.n_tabs == plots_spec(app.metrics@).len(),
            app.right_charts@.n_tabs == plots_spec(app.metrics@).len(),
            app.left_charts@.active == 0,
            app.right_charts@.active == plots_spec(app.metrics@).len() - 1,
            app.left_charts@.active != app.right_charts@.active,
    {
        let mut app = App {
            exit: false,
            main_widget_split: 50,
            main_widget_orientation: Orientation::Horizontal,
            calc_type,
            run_info: RunInfo::default(),
            metrics: Metrics::default(),
            left_charts: TabGroup::default().with_keys(TabKeys::Function),
            right_charts: TabGroup::default().with_keys(TabKeys::Digit).with_default_last(),
            output_file: output,
            last_size: size,
        };
        app.parse_content();
        proof {
            lemma_every_run_offers_a_choice(app.metrics@);
        }
        app
    }

    /// Parse the output text again; both panels then offer the plots of what was
    /// measured.
    pub fn parse_content(&mut self)
        ensures
            final(self).is_parsed(),
            final(self).output_file@ == old(self).output_file@,
            final(self).calc_type == old(self).calc_type,
            final(self).exit == old(self).exit,
            final(self).main_widget_split == old(self).main_widget_split,
            final(self).main_widget_orientation == old(self).main_widget_orientation,
            final(self).left_charts@ == rebuild_spec(
                old(self).left_charts@,
                plots_spec(final(self).metrics@).len(),
            ),
            final(self).right_charts@ == rebuild_spec(
                old(self).right_charts@,
                plots_spec(final(self).metrics@).len(),
            ),
            final(self).last_size == old(self).last_size,
    {
        match self.calc_type {
            CalcType::Pw => {
                self.run_info = crate::pw::parse_run_info(self.output_file.as_str());
                self.metrics = Metrics::Pw(crate::pw::parse_metrics(self.output_file.as_str()));
            },
            CalcType::Ph => {
                self.run_info = crate::ph::parse_run_info(self.output_file.as_str());
                self.metrics = Metrics::Ph(crate::ph::parse_metrics(self.output_file.as_str()));
            },
            CalcType::Wannier90 => {
                self.run_info = crate::wannier90::parse_run_info(self.output_file.as_str());
                self.metrics = Metrics::Wannier90(
                    crate::wannier90::parse_metrics(self.output_file.as_str()),
                );
            },
        }
        let n = plots(&self.metrics).len();
        self.left_charts.rebuild(n);
        self.right_charts.rebuild(n);
    }

    /// The plots both panels offer.
    pub fn plots(&self) -> (res: Vec<Plot>)
        ensures
            res@ == plots_spec(self.metrics@),
    {
        plots(&self.metrics)
    }

    /// How to bring the output text up to date with the file.
    pub fn refresh_plan(&self, size: u64, same_modified: bool) -> (plan: RefreshPlan)
        ensures
            plan == refresh_plan_spec(self.last_size, size, same_modified),
    {
        if same_modified && size == self.last_size {
            RefreshPlan::Unchanged
        } else if size >= self.last_size && self.last_size > 0 {
            RefreshPlan::Append(self.last_size)
        } else {
            RefreshPlan::Reread
        }
    }

    /// The bytes appended to the file since the last check arrived; the file now has
    /// `size` bytes.
    pub fn append_output(&mut self, new_content: &str, size: u64)
        ensures
            final(self).output_file@ == old(self).output_file@ + new_content@,
            final(self).last_size == size,
            final(self).is_parsed(),
            final(self).calc_type == old(self).calc_type,
            final(self).left_charts@ == rebuild_spec(
                old(self).left_charts@,
                plots_spec(final(self).metrics@).len(),
            ),
            final(self).right_charts@ == rebuild_spec(
                old(self).right_charts@,
                plots_spec(final(self).metrics@).len(),
            ),
            final(self).exit == old(self).exit,
            final(self).main_widget_split == old(self).main_widget_split,
            final(self).main_widget_orientation == old(self).main_widget_orientation,
    {
        self.output_file.append(new_content);
        self.last_size = size;
        self.parse_content();
    }

    /// The whole file was read again; it has `size` bytes.
    pub fn replace_output(&mut self, content: String, size: u64)
        ensures
            final(self).output_file@ == content@,
            final(self).last_size == size,
            final(self).is_parsed(),
            final(self).calc_type == old(self).calc_type,
            final(self).left_charts@ == rebuild_spec(
                old(self).left_charts@,
                plots_spec(final(self).metrics@).len(),
            ),
            final(self).right_charts@ == rebuild_spec(
                old(self).right_charts@,
                plots_spec(final(self).metrics@).len(),
            ),
            final(self).exit == old(self).exit,
            final(self).main_widget_split == old(self).main_widget_split,
            final(self).main_widget_orientation == old(self).main_widget_orientation,
    {
        self.output_file = content;
        self.last_size = size;
        self.parse_content();
    }

    /// A key press: `q` quits; keys of the panels pick plots; space toggles the layout
    /// orientation; the arrow keys (or `a`/`d`, `w`/`s`) move the split between the
    /// panels.
    pub fn handle_key_event(&mut self, key: KeyInput)
        requires
            old(self).main_widget_split + 15 <= u16::MAX,
        ensures
            final(self).exit == (old(self).exit || key == KeyInput::Char('q')),
            ({
                let (left, left_took) = crate::ui::handle_key_spec(old(self).left_charts@, key);
                let (right, right_took) = crate::ui::handle_key_spec(old(self).right_charts@, key);
                if left_took {
                    &&& final(self).left_charts@ == left
                    &&& final(self).right_charts@ == old(self).right_charts@
                    &&& final(self).main_widget_split == old(self).main_widget_split
                    &&& final(self).main_widget_orientation == old(self).main_widget_orientation
                } else if right_took {
                    &&& final(self).left_charts@ == old(self).left_charts@
                    &&& final(self).right_charts@ == right
                    &&& final(self).main_widget_split == old(self).main_widget_split
                    &&& final(self).main_widget_orientation == old(self).main_widget_orientation
                } else {
                    let orientation = if key == KeyInput::Char(' ') {
                        toggled(old(self).main_widget_orientation)
                    } else {
                        old(self).main_widget_orientation
                    };
                    &&& final(self).left_charts@ == old(self).left_charts@
                    &&& final(self).right_charts@ == old(self).right_charts@
                    &&& final(self).main_widget_orientation == orientation
                    &&& final(self).main_widget_split == split_after_key(
                        old(self).main_widget_split,
                        orientation,
                        key,
                    )
                }
            }),
            final(self).output_file@ == old(self).output_file@,
            final(self).run_info@ == old(self).run_info@,
            final(self).metrics@ == old(self).metrics@,
            final(self).calc_type == old(self).calc_type,
            final(self).last_size == old(self).last_size,
    {
        if key == KeyInput::Char('q') {
            self.exit = true;
        }
        // The panels take their own keys first.
        if self.left_charts.handle_key(key) {
            return;
        }
        if self.right_charts.handle_key(key) {
            return;
        }
        if key == KeyInput::Char(' ') {
            self.main_widget_orientation = match self.main_widget_orientation {
                Orientation::Horizontal => Orientation::Vertical,
                Orientation::Vertical => Orientation::Horizontal,
            };
        }
        let shrink = match self.main_widget_orientation {
            Orientation::Horizontal => key == KeyInput::Char('a') || key == KeyInput::Left,
            Orientation::Vertical => key == KeyInput::Char('w') || key == KeyInput::Up,
        };
        let grow = match self.main_widget_orientation {
            Orientation::Horizontal => key == KeyInput::Char('d') || key == KeyInput::Right,
            Orientation::Vertical => key == KeyInput::Char('s') || key == KeyInput::Down,
        };
        if shrink {
            let s = self.main_widget_split.saturating_sub(15);
            self.main_widget_split = if s >= 20 {
                s
            } else {
                20
            };
        } else if grow {
            let s = self.main_widget_split + 15;
            self.main_widget_split = if s <= 80 {
                s
            } else {
                80
            };
        }
    }
}

/// Keys keep the layout split between 20 and 80 percent.
pub proof fn lemma_split_stays_in_range(split: u16, orientation: Orientation, key: KeyInput)
    requires
        20 <= split <= 80,
    ensures
        20 <= split_after_key(split, orientation, key) <= 80,
{
}

/// Pressing space twice restores the layout orientation.
pub proof fn lemma_toggle_twice(o: Orientation)
    ensures
        toggled(toggled(o)) == o,
{
}

/// What the layout keys do to the split between the panels. In a horizontal layout `d`
/// and Right widen the first panel by 15 points (at most to 80), `a` and Left narrow it
/// by 15 (at least to 20); in a vertical layout `s` and Down, `w` and Up do the same.
/// The keys of the other orientation, and every other key, leave the split alone.
pub proof fn law_layout_keys(split: u16, key: KeyInput)
    ensures
        ({
            let widened: int = if split + 15 <= 80 { split + 15 } else { 80 };
            let narrowed: int = if split - 15 >= 20 { split - 15 } else { 20 };
            let h = split_after_key(split, Orientation::Horizontal, key) as int;
            let v = split_after_key(split, Orientation::Vertical, key) as int;
            &&& (key == KeyInput::Char('d') || key == KeyInput::Right) ==> h == widened && v
                == split
            &&& (key == KeyInput::Char('a') || key == KeyInput::Left) ==> h == narrowed && v
                == split
            &&& (key == KeyInput::Char('s') || key == KeyInput::Down) ==> v == widened && h
                == split
            &&& (key == KeyInput::Char('w') || key == KeyInput::Up) ==> v == narrowed && h
                == split
            &&& !(key == KeyInput::Char('d') || key == KeyInput::Right || key == KeyInput::Char(
                'a',
            ) || key == KeyInput::Left || key == KeyInput::Char('s') || key == KeyInput::Down
                || key == KeyInput::Char('w') || key == KeyInput::Up) ==> h == split && v == split
        }),
{
}

/// A refresh reads whatever changed: nothing only when both the size and the
/// modification time are as before; a file that grew from a non-empty size has only its
/// new bytes read, from the old size on; a file that shrank, or was empty, is read again
/// whole. A change of size is never missed, whatever the modification time says.
pub proof fn law_refresh_reads_what_changed(last_size: u64, size: u64, same_modified: bool)
    ensures
        (refresh_plan_spec(last_size, size, same_modified) == RefreshPlan::Unchanged) <==> (
        same_modified && size == last_size),
        size != last_size ==> refresh_plan_spec(last_size, size, same_modified)
            != RefreshPlan::Unchanged,
        size > last_size && last_size > 0 ==> refresh_plan_spec(last_size, size, same_modified)
            == RefreshPlan::Append(last_size),
        size < last_size ==> refresh_plan_spec(last_size, size, same_modified)
            == RefreshPlan::Reread,
        !same_modified && last_size == 0 ==> refresh_plan_spec(last_size, size, same_modified)
            == RefreshPlan::Reread,
{
}

} // verus!
