//! Structured-log record encoder producing one JSON map document per record.
//!
//! The library converts one logging event (severity level, message, and
//! ordered key/value groups) into a single-line JSON object written to a
//! byte sink, preserving the order in which entries are presented:
//! configured default/custom fields first, then ancestor groups outermost
//! first, then the record's own fields.

pub mod emit;
pub mod encode;
pub mod error;
pub mod json;
pub mod level;
pub mod render;
pub mod sink;
pub mod value;
