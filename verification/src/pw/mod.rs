//! pw.x (PWSCF) output.

pub mod metrics;
pub mod parser;

pub use metrics::{BandBlock, PwCalcType, PwMetrics, ScfBlock};

pub use parser::{cap_f64, cap_u32, parse_metrics, parse_run_info};
