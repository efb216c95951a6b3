//! Discovery of a locally running language server's API port and CSRF token,
//! with a time-bounded credential cache in front of it.
//!
//! The library holds the rules: which process names are candidates, how a
//! command line, a log or a block of process memory is read for ports and
//! tokens, when a cached value is still fresh, which port is probed next and
//! when a failed request is retried. Reading processes, files, memory and the
//! network is left to the caller, who hands the library what was read.

pub mod text;
pub mod pattern;
pub mod types;
pub mod cmdline_detector;
pub mod log_ports;
pub mod memory_scan;
pub mod cache;
pub mod discovery;
pub mod initialize;
pub mod commands;
pub mod process_cmdline;
