//! Decides whether an output file is stale with respect to its inputs, and
//! so whether a build command has to run.

pub mod args;
pub mod check;
pub mod decide;
pub mod error;
pub mod inputs;

pub use args::{log_line, parse_args, Args};
pub use decide::{should_run, Decision, Timestamp};
pub use error::AppError;
