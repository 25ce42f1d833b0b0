//! What checks report: warnings, errors that do not stop them, and the failure that
//! does.
use vstd::prelude::*;

use crate::text::{texts, Text};

verus! {

/// What a check reports.
#[verifier::ext_equal]
pub struct Report {
    /// The message of the failure that stopped the check.
    pub failure: Option<Text>,
    /// Warnings.
    pub warnings: Seq<Text>,
    /// Errors that did not stop the check.
    pub errors: Seq<Text>,
}

impl Report {
    /// Nothing to report.
    pub open spec fn clean() -> Report {
        Report { failure: None, warnings: Seq::empty(), errors: Seq::empty() }
    }

    /// A failure.
    pub open spec fn failed(message: Text) -> Report {
        Report { failure: Some(message), warnings: Seq::empty(), errors: Seq::empty() }
    }

    /// A warning.
    pub open spec fn warned(message: Text) -> Report {
        Report { failure: None, warnings: seq![message], errors: Seq::empty() }
    }

    /// An error that does not stop the check.
    pub open spec fn erred(message: Text) -> Report {
        Report { failure: None, warnings: Seq::empty(), errors: seq![message] }
    }

    /// What is reported where one check follows another: a failure stops the one
    /// behind it.
    pub open spec fn and(self, next: Report) -> Report {
        if self.failure is Some {
            self
        } else {
            Report {
                failure: next.failure,
                warnings: self.warnings + next.warnings,
                errors: self.errors + next.errors,
            }
        }
    }
}

/// The message of a result.
pub open spec fn failure_of(r: Result<(), String>) -> Option<Text> {
    match r {
        Ok(_) => None,
        Err(e) => Some(e@),
    }
}

/// A check reported to lists of warnings and errors: what it reports stands behind
/// what the lists held before.
pub open spec fn reported(
    r: Result<(), String>,
    old_warnings: Seq<String>,
    warnings: Seq<String>,
    old_errors: Seq<String>,
    errors: Seq<String>,
    report: Report,
) -> bool {
    &&& failure_of(r) == report.failure
    &&& texts(warnings) == texts(old_warnings) + report.warnings
    &&& texts(errors) == texts(old_errors) + report.errors
}

/// A check reported to a list of warnings, and it has no other errors than the
/// failure.
pub open spec fn reported_warnings(
    r: Result<(), String>,
    old_warnings: Seq<String>,
    warnings: Seq<String>,
    report: Report,
) -> bool {
    &&& failure_of(r) == report.failure
    &&& texts(warnings) == texts(old_warnings) + report.warnings
    &&& report.errors.len() == 0
}

/// What two checks report stands behind what a list held before.
pub proof fn lemma_and_behind(start: Seq<Text>, a: Report, b: Report)
    requires
        a.failure is None,
    ensures
        (start + a.warnings) + b.warnings == start + a.and(b).warnings,
        (start + a.errors) + b.errors == start + a.and(b).errors,
        start + Seq::<Text>::empty() == start,
{
    assert((start + a.warnings) + b.warnings =~= start + a.and(b).warnings);
    assert((start + a.errors) + b.errors =~= start + a.and(b).errors);
    assert(start + Seq::<Text>::empty() =~= start);
}

} // verus!
