//! Diagnostic severities and the gating rule that decides whether a parse
//! result is accepted: any diagnostic at error severity or above fails the
//! whole translation unit; lesser severities are tolerated silently.

use vstd::prelude::*;

verus! {

/// A diagnostic severity level, in the engine's increasing order of gravity.
#[derive(Clone, Copy, Debug, PartialEq, Eq)]
pub enum Severity {
    Ignored,
    Note,
    Warning,
    Error,
    Fatal,
}

/// The engine encodes severities as small integers, in increasing gravity.
pub open spec fn severity_of_raw(raw: u32) -> Option<Severity> {
    if raw == 0 {
        Some(Severity::Ignored)
    } else if raw == 1 {
        Some(Severity::Note)
    } else if raw == 2 {
        Some(Severity::Warning)
    } else if raw == 3 {
        Some(Severity::Error)
    } else if raw == 4 {
        Some(Severity::Fatal)
    } else {
        None
    }
}

/// True of the severities that block translation-unit construction:
/// error severity or above.
pub open spec fn is_blocking(s: Severity) -> bool {
    s is Error || s is Fatal
}

impl Severity {
    /// Decodes the engine's raw severity value; `None` for a value outside
    /// the engine's defined severity space.
    pub fn from_raw(raw: u32) -> (r: Option<Severity>)
        ensures
            r == severity_of_raw(raw),
    {
        if raw == 0 {
            Some(Severity::Ignored)
        } else if raw == 1 {
            Some(Severity::Note)
        } else if raw == 2 {
            Some(Severity::Warning)
        } else if raw == 3 {
            Some(Severity::Error)
        } else if raw == 4 {
            Some(Severity::Fatal)
        } else {
            None
        }
    }

    /// Whether this severity blocks translation-unit construction.
    pub fn is_error(&self) -> (r: bool)
        ensures
            r == is_blocking(*self),
    {
        match self {
            Severity::Error => true,
            Severity::Fatal => true,
            _ => false,
        }
    }
}

/// True when some diagnostic in the list reaches error severity or above.
pub open spec fn some_diag_blocks(diags: Seq<Severity>) -> bool {
    exists|i: int| 0 <= i < diags.len() && is_blocking(#[trigger] diags[i])
}

/// Scans a parse's diagnostics and reports whether any reaches error
/// severity or above — the condition under which construction must fail.
pub fn has_error_diagnostic(diags: &Vec<Severity>) -> (r: bool)
    ensures
        r == some_diag_blocks(diags@),
{
    let mut i: usize = 0;
    while i < diags.len()
        invariant
            0 <= i <= diags.len(),
            forall|j: int| 0 <= j < i ==> !is_blocking(#[trigger] diags@[j]),
        decreases diags.len() - i,
    {
        if diags[i].is_error() {
            return true;
        }
        i = i + 1;
    }
    false
}

} // verus!
