//! The errors of the three stages and the sink that collects them.

pub mod error_reporter;
pub mod parse_error;
pub mod runtime_error;
pub mod scan_error;
