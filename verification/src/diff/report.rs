//! The document that a comparison is written out as.

use crate::model::views;
use crate::diff::{DiffResult, DiffResultView, FunctionDelta};
use vstd::prelude::*;
use vstd::std_specs::convert::FromSpec;

verus! {

/// A comparison in the shape of its written report: four arrays named
/// `added`, `removed`, `modified` and `unchanged`.
#[derive(Debug, Clone)]
pub struct JsonReport {
    pub added: Vec<FunctionDelta>,
    pub removed: Vec<FunctionDelta>,
    pub modified: Vec<FunctionDelta>,
    pub unchanged: Vec<FunctionDelta>,
}

impl View for JsonReport {
    type V = DiffResultView;

    open spec fn view(&self) -> DiffResultView {
        DiffResultView {
            added: views(self.added@),
            removed: views(self.removed@),
            modified: views(self.modified@),
            unchanged: views(self.unchanged@),
        }
    }
}

impl From<DiffResult> for JsonReport {
    /// The report of a comparison holds its four lists as they are.
    fn from(d: DiffResult) -> (r: Self) {
        JsonReport { added: d.added, removed: d.removed, modified: d.modified, unchanged: d.unchanged }
    }
}

impl vstd::std_specs::convert::FromSpecImpl<DiffResult> for JsonReport {
    open spec fn obeys_from_spec() -> bool {
        true
    }

    open spec fn from_spec(d: DiffResult) -> JsonReport {
        JsonReport { added: d.added, removed: d.removed, modified: d.modified, unchanged: d.unchanged }
    }
}

/// The report of a comparison shows what the comparison holds: the two have
/// the same model.
pub proof fn lemma_report_keeps_all(d: DiffResult)
    ensures
        JsonReport::from_spec(d)@ == d@,
{
}

} // verus!
