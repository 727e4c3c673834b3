//! How a line of the decode log is shown: its first character says what kind
//! of line it is.

use vstd::prelude::*;

verus! {

broadcast use {vstd::string::axiom_spec_iter, vstd::string::next_postcondition};

/// Marks a file written.
pub const MARK_OK: char = '\u{2713}';

/// Marks a failure.
pub const MARK_ERR: char = '\u{2717}';

/// Marks a warning.
pub const MARK_WARN: char = '\u{26a0}';

/// Marks the start of a decode run.
pub const MARK_PROGRESS: char = '\u{2192}';

/// The kinds of log line, each shown in its own colour.
#[derive(Debug, Clone, Copy, PartialEq, Eq)]
pub enum LogKind {
    Success,
    Failure,
    Warning,
    Progress,
    Plain,
}

/// The kind of a line whose first character is `c`.
pub open spec fn kind_of_mark(c: char) -> LogKind {
    if c == MARK_OK {
        LogKind::Success
    } else if c == MARK_ERR {
        LogKind::Failure
    } else if c == MARK_WARN {
        LogKind::Warning
    } else if c == MARK_PROGRESS {
        LogKind::Progress
    } else {
        LogKind::Plain
    }
}

/// The kind of the log line `line`: by its first character, plain when it
/// is empty or starts with anything else.
pub open spec fn spec_log_kind(line: Seq<char>) -> LogKind {
    if line.len() == 0 {
        LogKind::Plain
    } else {
        kind_of_mark(line[0])
    }
}

/// The kind of the log line `line`.
pub fn log_kind(line: &str) -> (k: LogKind)
    ensures
        k == spec_log_kind(line@),
{
    let mut chars = line.chars();
    match chars.next() {
        Some(c) => {
            if c == MARK_OK {
                LogKind::Success
            } else if c == MARK_ERR {
                LogKind::Failure
            } else if c == MARK_WARN {
                LogKind::Warning
            } else if c == MARK_PROGRESS {
                LogKind::Progress
            } else {
                LogKind::Plain
            }
        },
        None => LogKind::Plain,
    }
}

} // verus!
