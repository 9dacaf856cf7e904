//! ph.x (PHONON) output.

pub mod metrics;
pub mod parser;

pub use metrics::PhMetrics;
pub use parser::{parse_metrics, parse_run_info};
