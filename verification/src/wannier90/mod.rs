//! Wannier90 output (standalone, or written by EPW in library mode).

pub mod metrics;
pub mod parser;

pub use metrics::{DisentanglementBlock, SpreadBlock, WannierMetrics};
pub use parser::{parse_metrics, parse_run_info};

