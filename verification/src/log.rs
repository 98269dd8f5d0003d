//! Structured log entries.

use vstd::prelude::*;

verus! {

#[derive(Debug, Clone, Copy, PartialEq, Eq, Structural)]
pub enum LogLevel {
    Info,
    Warn,
}

/// A log entry: named texts.
#[derive(Debug, Clone, PartialEq, Eq)]
pub struct LogEntry {
    pub level: LogLevel,
    pub fields: Vec<(&'static str, String)>,
}

pub open spec fn field_views(fields: Seq<(&'static str, String)>) -> Seq<(Seq<char>, Seq<char>)> {
    fields.map_values(|f: (&'static str, String)| (f.0@, f.1@))
}

} // verus!
