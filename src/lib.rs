//! Rate-paced HTTP load generation: per-target pacing decisions and a
//! streaming aggregator that folds request outcomes into a summary.

pub mod histogram;
pub mod keyval;
pub mod pacing;
pub mod pacing_laws;
pub mod response;
pub mod stats;
pub mod summary;
pub mod summary_laws;

pub use histogram::StatusHistogram;
pub use keyval::{parse_key_val, KeyValError, Method};
pub use pacing::{plan_run, Action, FailurePolicy, RunError, TargetWorker, WorkerStatus};
pub use stats::{status_is_error, RequestStat};
pub use summary::{RequestStatSummary, StatAccumulator};
