//! Timestamped single-line log records tagged `INFO` or `ERROR`.

use std::io::Write;
use vstd::prelude::*;

verus! {

/// The process-wide logger.
pub struct Log;

impl Log {
    /// A logger handle.
    pub fn new() -> Log {
        Log
    }

    /// Emits one line at the given level.
    fn emit(&self, level: &str, msg: &str) {
        let timestamp = now_string();
        emit_line(level, timestamp.as_str(), msg);
    }

    /// Logs an informational line.
    pub fn info(&self, msg: &str) {
        self.emit("INFO", msg);
    }

    /// Logs an error line.
    pub fn error(&self, msg: &str) {
        self.emit("ERROR", msg);
    }
}

/// Relies on `chrono::Local::now` for the wall-clock timestamp text; the
/// value depends on the clock, so nothing is assumed about it.
#[verifier::external_body]
fn now_string() -> String {
    chrono::Local::now().to_string()
}

/// Relies on `std::io::Stdout::write_fmt` (via `writeln!`) to print one
/// padded, timestamped line; output only, nothing is assumed of the result.
#[verifier::external_body]
fn emit_line(level: &str, timestamp: &str, msg: &str) {
    let _ = writeln!(std::io::stdout(), "{:5} [{}] {}", level, timestamp, msg);
}

} // verus!
