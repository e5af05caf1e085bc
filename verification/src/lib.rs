//! Structured decomposition of plain-text log lines.
//!
//! The library recognises two line shapes: a *primary* line
//! (`[ts] L [file:line] domain: message`, with an optional `[MSGID: id]`
//! group) and a *repeat-summary* line
//! (`The message "..." repeated N times between [ts] and [ts]`).
//! A recognised line is decomposed into named captures; the message body is
//! further split into a message string and tab-delimited `key=value` fields,
//! and the repetition count is coerced to an integer.  A line matching
//! neither shape, or one whose body fails strict field validation, yields a
//! fallback record that carries the original line and a diagnostic.

pub mod classify;
pub mod grammar;
pub mod materialize;
pub mod record;
pub mod scan;

pub use classify::{classify, MatchResult, PrimaryCaptures, RepeatCaptures};
pub use grammar::make_ts_pattern;
pub use materialize::{materialize, split_body, parse_repetitions, FieldError, RepErr,
    PartialRecord, insert_field};
pub use record::{build, parse, StructuredRecord};
