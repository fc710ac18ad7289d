//! Line, word, byte and character counts of a text buffer, and the table
//! that reports them.
pub mod metrics;
pub mod config;
pub mod report;
