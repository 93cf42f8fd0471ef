//! A shell-script-centric task scheduler core.
//!
//! The library answers one question: "has at least duration D elapsed since
//! the last successful run of task T?"  Its two algorithmic pieces are a
//! grammar-based parser that turns free-form duration text ("2 weeks, 5hrs",
//! "60secs", "5wk 5d") into an exact millisecond count, and a decision engine
//! that combines that count with a persisted last-run timestamp to classify a
//! run request as first-run, elapsed, or not-yet.  Everything here is pure
//! computation over strings and unsigned 128-bit millisecond counters; the
//! caller owns the clock, the tag files on disk, and the process exit codes.

pub mod file;
pub mod lexicon;
pub mod parser;
pub mod printer;
pub mod schedule;
pub mod text;
pub mod utils;
