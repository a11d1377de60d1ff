//! The normalized instruction form shared by every later stage.

use crate::model::views;
use vstd::prelude::*;

pub mod x86_64;

verus! {

/// The shape of one operand, with every concrete value erased.
#[derive(Debug, Clone, PartialEq, Eq, Hash)]
pub enum OperandKind {
    /// A register, by the decoder's textual name for it.
    Reg(String),
    /// Any memory reference.
    Mem,
    /// Any immediate.
    Imm,
    /// Anything else.
    Other,
}

/// Mathematical model of an [`OperandKind`].
pub enum OperandKindView {
    Reg(Seq<char>),
    Mem,
    Imm,
    Other,
}

impl View for OperandKind {
    type V = OperandKindView;

    open spec fn view(&self) -> OperandKindView {
        match self {
            OperandKind::Reg(name) => OperandKindView::Reg(name@),
            OperandKind::Mem => OperandKindView::Mem,
            OperandKind::Imm => OperandKindView::Imm,
            OperandKind::Other => OperandKindView::Other,
        }
    }
}

/// One decoded instruction: where it stood, its mnemonic and the shapes of
/// its operands.
#[derive(Debug, Clone)]
pub struct Insn {
    pub addr: u64,
    pub mnemonic: String,
    pub op_kinds: Vec<OperandKind>,
}

/// Mathematical model of an [`Insn`].
pub struct InsnView {
    pub addr: u64,
    pub mnemonic: Seq<char>,
    pub op_kinds: Seq<OperandKindView>,
}

impl View for Insn {
    type V = InsnView;

    open spec fn view(&self) -> InsnView {
        InsnView { addr: self.addr, mnemonic: self.mnemonic@, op_kinds: views(self.op_kinds@) }
    }
}

/// The normalized instructions of one function.
#[derive(Debug, Clone)]
pub struct FunctionIR {
    pub name: String,
    pub start: u64,
    pub size: u64,
    pub insns: Vec<Insn>,
}

/// Mathematical model of a [`FunctionIR`].
pub struct FunctionIRView {
    pub name: Seq<char>,
    pub start: u64,
    pub size: u64,
    pub insns: Seq<InsnView>,
}

impl View for FunctionIR {
    type V = FunctionIRView;

    open spec fn view(&self) -> FunctionIRView {
        FunctionIRView {
            name: self.name@,
            start: self.start,
            size: self.size,
            insns: views(self.insns@),
        }
    }
}

} // verus!
