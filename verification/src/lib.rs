//! Extraction and classification of a router's status pages.
//!
//! The library turns the label/value rows and the device rows of the
//! administration pages into typed records, normalises unit strings and
//! durations, and projects the records into a nested document and a flat
//! list of metrics. Its functions are verified against their contracts; the
//! search with the regex crate and `String::push` are taken on trust.

pub mod decimal;
pub mod devices;
pub mod duration;
pub mod error;
pub mod fields;
pub mod metrics;
pub mod number;
pub mod reader;
pub mod text;
pub mod units;

