//! `hrm`: human readable modification age.
//!
//! The library turns an elapsed-seconds count into a broken-down duration
//! (years, days, hours, minutes, seconds), builds the fixed-width report
//! tables and messages, and decides what a command-line invocation prints
//! and with which exit code. All filesystem and clock reads stay outside:
//! callers hand in plain values.

pub mod duration;
pub mod entries;
pub mod render;
pub mod report;
