//! The request-span configuration for structured logging: the level a
//! request span is created at and whether request headers are
//! recorded. Creating the spans themselves is the embedding program's
//! job.

use vstd::prelude::*;

verus! {

/// The severity a request span is created at.
#[derive(Debug, Clone, Copy, PartialEq, Eq, Structural)]
pub enum LogLevel {
    Error,
    Warn,
    Info,
    Debug,
    Trace,
}

/// How request spans are made: at which level, and whether the request
/// headers are recorded on the span.
#[derive(Debug, Clone, Copy, PartialEq, Eq, Structural)]
pub struct CustomMakeSpan {
    pub level: LogLevel,
    pub include_headers: bool,
}

impl CustomMakeSpan {
    /// The default configuration: debug level, no headers.
    pub fn new() -> (r: CustomMakeSpan)
        ensures
            r.level == LogLevel::Debug,
            !r.include_headers,
    {
        CustomMakeSpan { level: LogLevel::Debug, include_headers: false }
    }

    /// Sets the level request spans are created at.
    pub fn level(self, level: LogLevel) -> (r: CustomMakeSpan)
        ensures
            r.level == level,
            r.include_headers == self.include_headers,
    {
        CustomMakeSpan { level, ..self }
    }

    /// Sets whether request headers are recorded on the span.
    pub fn include_headers(self, include_headers: bool) -> (r: CustomMakeSpan)
        ensures
            r.include_headers == include_headers,
            r.level == self.level,
    {
        CustomMakeSpan { include_headers, ..self }
    }
}

impl Default for CustomMakeSpan {
    fn default() -> (r: CustomMakeSpan)
        ensures
            r.level == LogLevel::Debug,
            !r.include_headers,
    {
        CustomMakeSpan::new()
    }
}

} // verus!
