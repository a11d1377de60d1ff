//! The cross-side records that a comparison of two binaries produces.

use crate::model::{text_of, views};
use vstd::prelude::*;

pub mod laws;
pub mod lines;
pub mod matching;
pub mod report;

verus! {

/// How a function of one side was paired with a function of the other.
#[derive(Debug, Clone)]
pub enum MatchKind {
    /// Same name, same strong hash.
    Exact,
    /// Same name, different strong hash; `hamming` is the distance of the
    /// similarity hashes.
    Fuzzy { hamming: u32 },
    /// No partner on the other side.
    NoMatch,
}

/// The fate of one function across the two binaries.
///
/// An added function has only its `_b` fields, a removed one only its `_a`
/// fields, a paired one both.
#[derive(Debug, Clone)]
pub struct FunctionDelta {
    pub name_a: Option<String>,
    pub name_b: Option<String>,
    pub start_a: Option<u64>,
    pub start_b: Option<u64>,
    pub kind: MatchKind,
    pub changed: bool,
    pub insn_count_a: Option<usize>,
    pub insn_count_b: Option<usize>,
    pub unified_diff: Option<String>,
}

/// Mathematical model of a [`FunctionDelta`].
pub struct FunctionDeltaView {
    pub name_a: Option<Seq<char>>,
    pub name_b: Option<Seq<char>>,
    pub start_a: Option<u64>,
    pub start_b: Option<u64>,
    pub kind: MatchKind,
    pub changed: bool,
    pub insn_count_a: Option<usize>,
    pub insn_count_b: Option<usize>,
    pub unified_diff: Option<Seq<char>>,
}

impl View for FunctionDelta {
    type V = FunctionDeltaView;

    open spec fn view(&self) -> FunctionDeltaView {
        FunctionDeltaView {
            name_a: text_of(self.name_a),
            name_b: text_of(self.name_b),
            start_a: self.start_a,
            start_b: self.start_b,
            kind: self.kind,
            changed: self.changed,
            insn_count_a: self.insn_count_a,
            insn_count_b: self.insn_count_b,
            unified_diff: text_of(self.unified_diff),
        }
    }
}

/// The four classes of a comparison. Every function of either side stands
/// in exactly one of them.
#[derive(Debug, Clone)]
pub struct DiffResult {
    pub added: Vec<FunctionDelta>,
    pub removed: Vec<FunctionDelta>,
    pub modified: Vec<FunctionDelta>,
    pub unchanged: Vec<FunctionDelta>,
}

/// Mathematical model of a [`DiffResult`].
pub struct DiffResultView {
    pub added: Seq<FunctionDeltaView>,
    pub removed: Seq<FunctionDeltaView>,
    pub modified: Seq<FunctionDeltaView>,
    pub unchanged: Seq<FunctionDeltaView>,
}

impl View for DiffResult {
    type V = DiffResultView;

    open spec fn view(&self) -> DiffResultView {
        DiffResultView {
            added: views(self.added@),
            removed: views(self.removed@),
            modified: views(self.modified@),
            unchanged: views(self.unchanged@),
        }
    }
}

} // verus!
