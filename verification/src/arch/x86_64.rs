//! Linear disassembly of x86_64 function bodies.

use crate::arch::{FunctionIR, FunctionIRView, Insn, InsnView, OperandKind, OperandKindView};
use crate::failure::ErrorKind;
use crate::loader::{BinaryImage, BinaryImageView, FunctionSymbolView};
use crate::model::views;
use vstd::prelude::*;
use vstd::string::StringExecFns;
use yaxpeax_x86::long_mode::{InstDecoder, Operand};

verus! {

// ---------------------------------------------------------------------------
// The decoder
// ---------------------------------------------------------------------------
/// An operand as the decoder of `yaxpeax_x86` hands it out.
#[verifier::external_type_specification]
#[verifier::external_body]
pub struct ExOperand(yaxpeax_x86::long_mode::Operand);

/// What the decoder tells of one instruction.
pub struct DecodedInsn {
    /// The number of bytes that the instruction takes.
    pub len: usize,
    /// The name of the opcode.
    pub mnemonic: String,
    /// The operands, in order.
    pub operands: Vec<Operand>,
}

/// Mathematical model of a [`DecodedInsn`].
pub struct DecodedInsnView {
    pub len: nat,
    pub mnemonic: Seq<char>,
    pub operands: Seq<Operand>,
}

impl View for DecodedInsn {
    type V = DecodedInsnView;

    open spec fn view(&self) -> DecodedInsnView {
        DecodedInsnView { len: self.len as nat, mnemonic: self.mnemonic@, operands: self.operands@ }
    }
}

/// The instruction that the default decoder for long mode reads from the
/// beginning of `bytes`: its length in bytes, the name of its opcode as the
/// decoder prints it for debugging, and its operands. `None` where the
/// decoder reports an error.
pub uninterp spec fn decoding(bytes: Seq<u8>) -> Option<DecodedInsnView>;

/// Calls `InstDecoder::default().decode_slice` on the bytes of `data` from
/// `off` on and hands out the length (`len`), the opcode formatted for
/// debugging and the operands (`operand` for each index below
/// `operand_count`) of the instruction. A decoding error becomes `None`.
///
/// The outcome is a function of those bytes alone, named [`decoding`]. The
/// length is the number of bytes that the decoder took from the slice, so
/// it never exceeds what the slice holds.
#[verifier::external_body]
fn decode_at(data: &[u8], off: usize) -> (r: Option<DecodedInsn>)
    requires
        off <= data.len(),
    ensures
        match r {
            Some(insn) => decoding(data@.subrange(off as int, data.len() as int)) == Some(insn@)
                && insn.len <= data.len() - off,
            None => decoding(data@.subrange(off as int, data.len() as int)) is None,
        },
{
    InstDecoder::default().decode_slice(&data[off..]).ok().map(
        |insn| DecodedInsn {
            len: yaxpeax_arch::LengthedInstruction::len(&insn).to_const() as usize,
            mnemonic: format!("{:?}", insn.opcode()),
            operands: (0..insn.operand_count()).map(|i| insn.operand(i)).collect(),
        },
    )
}

/// The form of an operand, as the decoder tells the forms apart. A register
/// form holds the register as the decoder prints it for debugging; the
/// values of immediates, addresses, offsets and scales are not kept.
#[derive(Debug, Clone, PartialEq, Eq)]
pub enum OperandForm {
    /// A bare register.
    Register(String),
    /// A register with a mask register and a merge mode.
    RegisterMaskMerge(String),
    /// A register with mask, merge mode and a rounding mode.
    RegisterMaskMergeSae(String),
    /// A register with mask and merge mode, exceptions suppressed.
    RegisterMaskMergeSaeNoround(String),
    /// A sign-extended immediate of 8 bits.
    ImmediateI8,
    /// A zero-extended immediate of 8 bits.
    ImmediateU8,
    /// A sign-extended immediate of 16 bits.
    ImmediateI16,
    /// A zero-extended immediate of 16 bits.
    ImmediateU16,
    /// A sign-extended immediate of 32 bits.
    ImmediateI32,
    /// A zero-extended immediate of 32 bits.
    ImmediateU32,
    /// A sign-extended immediate of 64 bits.
    ImmediateI64,
    /// A zero-extended immediate of 64 bits.
    ImmediateU64,
    /// A memory access at a literal 32-bit address.
    AbsoluteU32,
    /// A memory access at a literal 64-bit address.
    AbsoluteU64,
    /// The address held in a register.
    MemDeref,
    /// The address held in a register, with an offset.
    Disp,
    /// A scaled register.
    MemIndexScale,
    /// A scaled register with an offset.
    MemIndexScaleDisp,
    /// A register and a scaled register.
    MemBaseIndexScale,
    /// A register and a scaled register, with an offset.
    MemBaseIndexScaleDisp,
    /// As `MemDeref`, with a mask register.
    MemDerefMasked,
    /// As `Disp`, with a mask register.
    DispMasked,
    /// As `MemIndexScale`, with a mask register.
    MemIndexScaleMasked,
    /// As `MemIndexScaleDisp`, with a mask register.
    MemIndexScaleDispMasked,
    /// As `MemBaseIndexScale`, with a mask register.
    MemBaseIndexScaleMasked,
    /// As `MemBaseIndexScaleDisp`, with a mask register.
    MemBaseIndexScaleDispMasked,
    /// No operand.
    Nothing,
    /// A form that the decoder learned of later.
    Unlisted,
}

/// Mathematical model of an [`OperandForm`].
pub enum OperandFormView {
    Register(Seq<char>),
    RegisterMaskMerge(Seq<char>),
    RegisterMaskMergeSae(Seq<char>),
    RegisterMaskMergeSaeNoround(Seq<char>),
    ImmediateI8,
    ImmediateU8,
    ImmediateI16,
    ImmediateU16,
    ImmediateI32,
    ImmediateU32,
    ImmediateI64,
    ImmediateU64,
    AbsoluteU32,
    AbsoluteU64,
    MemDeref,
    Disp,
    MemIndexScale,
    MemIndexScaleDisp,
    MemBaseIndexScale,
    MemBaseIndexScaleDisp,
    MemDerefMasked,
    DispMasked,
    MemIndexScaleMasked,
    MemIndexScaleDispMasked,
    MemBaseIndexScaleMasked,
    MemBaseIndexScaleDispMasked,
    Nothing,
    Unlisted,
}

impl View for OperandForm {
    type V = OperandFormView;

    open spec fn view(&self) -> OperandFormView {
        match self {
            OperandForm::Register(reg) => OperandFormView::Register(reg@),
            OperandForm::RegisterMaskMerge(reg) => OperandFormView::RegisterMaskMerge(reg@),
            OperandForm::RegisterMaskMergeSae(reg) => OperandFormView::RegisterMaskMergeSae(reg@),
            OperandForm::RegisterMaskMergeSaeNoround(reg) => OperandFormView::RegisterMaskMergeSaeNoround(reg@),
            OperandForm::ImmediateI8 => OperandFormView::ImmediateI8,
            OperandForm::ImmediateU8 => OperandFormView::ImmediateU8,
            OperandForm::ImmediateI16 => OperandFormView::ImmediateI16,
            OperandForm::ImmediateU16 => OperandFormView::ImmediateU16,
            OperandForm::ImmediateI32 => OperandFormView::ImmediateI32,
            OperandForm::ImmediateU32 => OperandFormView::ImmediateU32,
            OperandForm::ImmediateI64 => OperandFormView::ImmediateI64,
            OperandForm::ImmediateU64 => OperandFormView::ImmediateU64,
            OperandForm::AbsoluteU32 => OperandFormView::AbsoluteU32,
            OperandForm::AbsoluteU64 => OperandFormView::AbsoluteU64,
            OperandForm::MemDeref => OperandFormView::MemDeref,
            OperandForm::Disp => OperandFormView::Disp,
            OperandForm::MemIndexScale => OperandFormView::MemIndexScale,
            OperandForm::MemIndexScaleDisp => OperandFormView::MemIndexScaleDisp,
            OperandForm::MemBaseIndexScale => OperandFormView::MemBaseIndexScale,
            OperandForm::MemBaseIndexScaleDisp => OperandFormView::MemBaseIndexScaleDisp,
            OperandForm::MemDerefMasked => OperandFormView::MemDerefMasked,
            OperandForm::DispMasked => OperandFormView::DispMasked,
            OperandForm::MemIndexScaleMasked => OperandFormView::MemIndexScaleMasked,
            OperandForm::MemIndexScaleDispMasked => OperandFormView::MemIndexScaleDispMasked,
            OperandForm::MemBaseIndexScaleMasked => OperandFormView::MemBaseIndexScaleMasked,
            OperandForm::MemBaseIndexScaleDispMasked => OperandFormView::MemBaseIndexScaleDispMasked,
            OperandForm::Nothing => OperandFormView::Nothing,
            OperandForm::Unlisted => OperandFormView::Unlisted,
        }
    }
}

/// The model of a form that may be missing.
pub open spec fn form_view(form: Option<OperandForm>) -> Option<OperandFormView> {
    match form {
        Some(f) => Some(f@),
        None => None,
    }
}

/// The form of an operand of the decoder, where it is one of the four
/// register forms; `None` for every other operand.
pub uninterp spec fn register_form_of(op: Operand) -> Option<OperandFormView>;

/// Tells the four register forms of `Operand` apart and keeps of each the
/// register, formatted for debugging.
#[verifier::external_body]
fn register_form(op: &Operand) -> (r: Option<OperandForm>)
    ensures
        form_view(r) == register_form_of(*op),
{
    match op {
        Operand::Register { reg } => Some(OperandForm::Register(format!("{:?}", reg))),
        Operand::RegisterMaskMerge { reg, .. } => Some(OperandForm::RegisterMaskMerge(format!("{:?}", reg))),
        Operand::RegisterMaskMergeSae { reg, .. } => Some(OperandForm::RegisterMaskMergeSae(format!("{:?}", reg))),
        Operand::RegisterMaskMergeSaeNoround { reg, .. } => Some(OperandForm::RegisterMaskMergeSaeNoround(format!("{:?}", reg))),
        _ => None,
    }
}

/// The form of an operand of the decoder, where it is one of the eight
/// immediate forms; `None` for every other operand.
pub uninterp spec fn immediate_form_of(op: Operand) -> Option<OperandFormView>;

/// Tells the eight immediate forms of `Operand` apart; the value is not
/// kept.
#[verifier::external_body]
fn immediate_form(op: &Operand) -> (r: Option<OperandForm>)
    ensures
        form_view(r) == immediate_form_of(*op),
{
    match op {
        Operand::ImmediateI8 { .. } => Some(OperandForm::ImmediateI8),
        Operand::ImmediateU8 { .. } => Some(OperandForm::ImmediateU8),
        Operand::ImmediateI16 { .. } => Some(OperandForm::ImmediateI16),
        Operand::ImmediateU16 { .. } => Some(OperandForm::ImmediateU16),
        Operand::ImmediateI32 { .. } => Some(OperandForm::ImmediateI32),
        Operand::ImmediateU32 { .. } => Some(OperandForm::ImmediateU32),
        Operand::ImmediateI64 { .. } => Some(OperandForm::ImmediateI64),
        Operand::ImmediateU64 { .. } => Some(OperandForm::ImmediateU64),
        _ => None,
    }
}

/// The form of an operand of the decoder, where it is one of the eight
/// memory forms without a mask; `None` for every other operand.
pub uninterp spec fn memory_form_of(op: Operand) -> Option<OperandFormView>;

/// Tells the eight memory forms of `Operand` without a mask apart; no
/// address, register, offset or scale is kept.
#[verifier::external_body]
fn memory_form(op: &Operand) -> (r: Option<OperandForm>)
    ensures
        form_view(r) == memory_form_of(*op),
{
    match op {
        Operand::AbsoluteU32 { .. } => Some(OperandForm::AbsoluteU32),
        Operand::AbsoluteU64 { .. } => Some(OperandForm::AbsoluteU64),
        Operand::MemDeref { .. } => Some(OperandForm::MemDeref),
        Operand::Disp { .. } => Some(OperandForm::Disp),
        Operand::MemIndexScale { .. } => Some(OperandForm::MemIndexScale),
        Operand::MemIndexScaleDisp { .. } => Some(OperandForm::MemIndexScaleDisp),
        Operand::MemBaseIndexScale { .. } => Some(OperandForm::MemBaseIndexScale),
        Operand::MemBaseIndexScaleDisp { .. } => Some(OperandForm::MemBaseIndexScaleDisp),
        _ => None,
    }
}

/// The form of an operand of the decoder, where it is one of the six
/// memory forms with a mask, or no operand; `None` for every other operand.
pub uninterp spec fn masked_form_of(op: Operand) -> Option<OperandFormView>;

/// Tells the six memory forms of `Operand` with a mask, and the form that
/// stands for no operand, apart; no field is kept.
#[verifier::external_body]
fn masked_form(op: &Operand) -> (r: Option<OperandForm>)
    ensures
        form_view(r) == masked_form_of(*op),
{
    match op {
        Operand::MemDerefMasked { .. } => Some(OperandForm::MemDerefMasked),
        Operand::DispMasked { .. } => Some(OperandForm::DispMasked),
        Operand::MemIndexScaleMasked { .. } => Some(OperandForm::MemIndexScaleMasked),
        Operand::MemIndexScaleDispMasked { .. } => Some(OperandForm::MemIndexScaleDispMasked),
        Operand::MemBaseIndexScaleMasked { .. } => Some(OperandForm::MemBaseIndexScaleMasked),
        Operand::MemBaseIndexScaleDispMasked { .. } => Some(OperandForm::MemBaseIndexScaleDispMasked),
        Operand::Nothing => Some(OperandForm::Nothing),
        _ => None,
    }
}

/// The form of an operand of the decoder: the first of the four groups of
/// forms that knows it, and `Unlisted` where none does. The groups only
/// split the forms among them; what an operand is taken for is decided from
/// its form alone, by [`kind_of_form`].
pub open spec fn form_of(op: Operand) -> OperandFormView {
    if register_form_of(op) is Some {
        register_form_of(op)->0
    } else if immediate_form_of(op) is Some {
        immediate_form_of(op)->0
    } else if memory_form_of(op) is Some {
        memory_form_of(op)->0
    } else if masked_form_of(op) is Some {
        masked_form_of(op)->0
    } else {
        OperandFormView::Unlisted
    }
}

fn operand_form(op: &Operand) -> (form: OperandForm)
    ensures
        form@ == form_of(*op),
{
    if let Some(form) = register_form(op) {
        form
    } else if let Some(form) = immediate_form(op) {
        form
    } else if let Some(form) = memory_form(op) {
        form
    } else if let Some(form) = masked_form(op) {
        form
    } else {
        OperandForm::Unlisted
    }
}

// ---------------------------------------------------------------------------
// Normalization
// ---------------------------------------------------------------------------
/// The shape of an operand of a given form: any register form is a
/// register by its name, any immediate of whatever width is an immediate,
/// any form that refers to memory is a memory reference, and everything
/// else is other.
pub open spec fn kind_of_form(form: OperandFormView) -> OperandKindView {
    match form {
        OperandFormView::Register(name) => OperandKindView::Reg(name),
        OperandFormView::RegisterMaskMerge(name) => OperandKindView::Reg(name),
        OperandFormView::RegisterMaskMergeSae(name) => OperandKindView::Reg(name),
        OperandFormView::RegisterMaskMergeSaeNoround(name) => OperandKindView::Reg(name),
        OperandFormView::ImmediateI8 => OperandKindView::Imm,
        OperandFormView::ImmediateU8 => OperandKindView::Imm,
        OperandFormView::ImmediateI16 => OperandKindView::Imm,
        OperandFormView::ImmediateU16 => OperandKindView::Imm,
        OperandFormView::ImmediateI32 => OperandKindView::Imm,
        OperandFormView::ImmediateU32 => OperandKindView::Imm,
        OperandFormView::ImmediateI64 => OperandKindView::Imm,
        OperandFormView::ImmediateU64 => OperandKindView::Imm,
        OperandFormView::AbsoluteU32 => OperandKindView::Mem,
        OperandFormView::AbsoluteU64 => OperandKindView::Mem,
        OperandFormView::MemDeref => OperandKindView::Mem,
        OperandFormView::Disp => OperandKindView::Mem,
        OperandFormView::MemIndexScale => OperandKindView::Mem,
        OperandFormView::MemIndexScaleDisp => OperandKindView::Mem,
        OperandFormView::MemBaseIndexScale => OperandKindView::Mem,
        OperandFormView::MemBaseIndexScaleDisp => OperandKindView::Mem,
        OperandFormView::MemDerefMasked => OperandKindView::Mem,
        OperandFormView::DispMasked => OperandKindView::Mem,
        OperandFormView::MemIndexScaleMasked => OperandKindView::Mem,
        OperandFormView::MemIndexScaleDispMasked => OperandKindView::Mem,
        OperandFormView::MemBaseIndexScaleMasked => OperandKindView::Mem,
        OperandFormView::MemBaseIndexScaleDispMasked => OperandKindView::Mem,
        OperandFormView::Nothing => OperandKindView::Other,
        OperandFormView::Unlisted => OperandKindView::Other,
    }
}

/// Erases an operand to its shape: a register keeps its name, every
/// immediate becomes `Imm`, every memory reference `Mem`, everything else
/// `Other`.
pub fn normalize_operand(form: &OperandForm) -> (kind: OperandKind)
    ensures
        kind@ == kind_of_form(form@),
{
    match form {
        OperandForm::Register(name) => OperandKind::Reg(name.clone()),
        OperandForm::RegisterMaskMerge(name) => OperandKind::Reg(name.clone()),
        OperandForm::RegisterMaskMergeSae(name) => OperandKind::Reg(name.clone()),
        OperandForm::RegisterMaskMergeSaeNoround(name) => OperandKind::Reg(name.clone()),
        OperandForm::ImmediateI8 => OperandKind::Imm,
        OperandForm::ImmediateU8 => OperandKind::Imm,
        OperandForm::ImmediateI16 => OperandKind::Imm,
        OperandForm::ImmediateU16 => OperandKind::Imm,
        OperandForm::ImmediateI32 => OperandKind::Imm,
        OperandForm::ImmediateU32 => OperandKind::Imm,
        OperandForm::ImmediateI64 => OperandKind::Imm,
        OperandForm::ImmediateU64 => OperandKind::Imm,
        OperandForm::AbsoluteU32 => OperandKind::Mem,
        OperandForm::AbsoluteU64 => OperandKind::Mem,
        OperandForm::MemDeref => OperandKind::Mem,
        OperandForm::Disp => OperandKind::Mem,
        OperandForm::MemIndexScale => OperandKind::Mem,
        OperandForm::MemIndexScaleDisp => OperandKind::Mem,
        OperandForm::MemBaseIndexScale => OperandKind::Mem,
        OperandForm::MemBaseIndexScaleDisp => OperandKind::Mem,
        OperandForm::MemDerefMasked => OperandKind::Mem,
        OperandForm::DispMasked => OperandKind::Mem,
        OperandForm::MemIndexScaleMasked => OperandKind::Mem,
        OperandForm::MemIndexScaleDispMasked => OperandKind::Mem,
        OperandForm::MemBaseIndexScaleMasked => OperandKind::Mem,
        OperandForm::MemBaseIndexScaleDispMasked => OperandKind::Mem,
        OperandForm::Nothing => OperandKind::Other,
        OperandForm::Unlisted => OperandKind::Other,
    }
}

/// Whether a form is one of the four register forms.
pub open spec fn is_register_form(form: OperandFormView) -> bool {
    match form {
        OperandFormView::Register(_) => true,
        OperandFormView::RegisterMaskMerge(_) => true,
        OperandFormView::RegisterMaskMergeSae(_) => true,
        OperandFormView::RegisterMaskMergeSaeNoround(_) => true,
        _ => false,
    }
}

/// Whether a form is an immediate, of whatever width and sign.
pub open spec fn is_immediate_form(form: OperandFormView) -> bool {
    match form {
        OperandFormView::ImmediateI8 => true,
        OperandFormView::ImmediateU8 => true,
        OperandFormView::ImmediateI16 => true,
        OperandFormView::ImmediateU16 => true,
        OperandFormView::ImmediateI32 => true,
        OperandFormView::ImmediateU32 => true,
        OperandFormView::ImmediateI64 => true,
        OperandFormView::ImmediateU64 => true,
        _ => false,
    }
}

/// Whether a form refers to memory: a literal address, or a register with
/// or without offset, index, scale and mask.
pub open spec fn is_memory_form(form: OperandFormView) -> bool {
    match form {
        OperandFormView::AbsoluteU32 => true,
        OperandFormView::AbsoluteU64 => true,
        OperandFormView::MemDeref => true,
        OperandFormView::Disp => true,
        OperandFormView::MemIndexScale => true,
        OperandFormView::MemIndexScaleDisp => true,
        OperandFormView::MemBaseIndexScale => true,
        OperandFormView::MemBaseIndexScaleDisp => true,
        OperandFormView::MemDerefMasked => true,
        OperandFormView::DispMasked => true,
        OperandFormView::MemIndexScaleMasked => true,
        OperandFormView::MemIndexScaleDispMasked => true,
        OperandFormView::MemBaseIndexScaleMasked => true,
        OperandFormView::MemBaseIndexScaleDispMasked => true,
        _ => false,
    }
}

/// Normalization looks at the form alone: every register form becomes
/// `Reg`, every immediate `Imm` whatever its width and value, every memory
/// form `Mem` whatever its address, and nothing else does.
pub proof fn lemma_kinds_by_form(form: OperandFormView)
    ensures
        kind_of_form(form) is Reg <==> is_register_form(form),
        kind_of_form(form) is Imm <==> is_immediate_form(form),
        kind_of_form(form) is Mem <==> is_memory_form(form),
        kind_of_form(form) is Other <==> form is Nothing || form is Unlisted,
{
}

/// The shape of a decoded operand.
pub open spec fn kind_of(op: Operand) -> OperandKindView {
    kind_of_form(form_of(op))
}

/// The normalized form of a decoded instruction that stood at `addr`.
pub open spec fn normalized(addr: u64, insn: DecodedInsnView) -> InsnView {
    InsnView {
        addr,
        mnemonic: insn.mnemonic,
        op_kinds: Seq::new(insn.operands.len(), |i: int| kind_of(insn.operands[i])),
    }
}

fn normalize_instruction(addr: u64, insn: DecodedInsn) -> (out: Insn)
    ensures
        out@ == normalized(addr, insn@),
{
    let mut op_kinds: Vec<OperandKind> = Vec::new();
    let mut i: usize = 0;
    while i < insn.operands.len()
        invariant
            i <= insn.operands.len(),
            op_kinds.len() == i,
            forall|k: int| 0 <= k < i ==> (#[trigger] op_kinds@[k])@ == kind_of(insn.operands@[k]),
        decreases insn.operands.len() - i,
    {
        let form = operand_form(&insn.operands[i]);
        op_kinds.push(normalize_operand(&form));
        i = i + 1;
    }
    let out = Insn { addr, mnemonic: insn.mnemonic, op_kinds };
    assert(out@.op_kinds =~= normalized(addr, insn@).op_kinds);
    out
}

// ---------------------------------------------------------------------------
// Linear decoding of one function
// ---------------------------------------------------------------------------
/// Whether a mnemonic begins with `RET`: a return ends a function.
pub open spec fn is_return_mnemonic(mnemonic: Seq<char>) -> bool {
    mnemonic.len() >= 3 && mnemonic[0] == 'R' && mnemonic[1] == 'E' && mnemonic[2] == 'T'
}

/// Whether a mnemonic begins with `RET`.
pub fn is_return(mnemonic: &str) -> (r: bool)
    ensures
        r == is_return_mnemonic(mnemonic@),
{
    mnemonic.unicode_len() >= 3 && mnemonic.get_char(0) == 'R' && mnemonic.get_char(1) == 'E'
        && mnemonic.get_char(2) == 'T'
}

/// How many bytes of a function may be decoded: its size where the symbol
/// tells one, else what is left of the image, but no more than 4096.
pub open spec fn budget_of(size: u64, remaining: nat) -> nat {
    if size > 0 {
        size as nat
    } else if remaining < 4096 {
        remaining
    } else {
        4096
    }
}

/// How many bytes may be decoded for a function of the given size when
/// `remaining` bytes of the image follow its start.
pub fn decode_budget(size: u64, remaining: usize) -> (budget: u64)
    ensures
        budget == budget_of(size, remaining as nat),
{
    if size > 0 {
        size
    } else if remaining < 4096 {
        remaining as u64
    } else {
        4096
    }
}

/// The instructions that linear decoding yields from position
/// `start + cursor` of `bytes` on, while `cursor` stays below `budget`.
///
/// Decoding stops at the end of the bytes, where the decoder reports an
/// error or a length of zero, and after an instruction whose mnemonic begins
/// with `RET`, which is kept.
pub open spec fn decoded_run(bytes: Seq<u8>, start: nat, cursor: nat, budget: nat) -> Seq<InsnView>
    decreases budget_left(cursor, budget),
{
    if cursor >= budget || start + cursor >= bytes.len() {
        Seq::empty()
    } else {
        let found = decoding(bytes.subrange((start + cursor) as int, bytes.len() as int));
        if found is None || found->0.len == 0 {
            Seq::empty()
        } else {
            let insn = found->0;
            let this = normalized(address_of(start + cursor), insn);
            if is_return_mnemonic(insn.mnemonic) {
                seq![this]
            } else {
                seq![this] + decoded_run(bytes, start, cursor + insn.len, budget)
            }
        }
    }
}

/// How much of the budget is left at `cursor`.
pub open spec fn budget_left(cursor: nat, budget: nat) -> nat {
    if cursor < budget {
        (budget - cursor) as nat
    } else {
        0
    }
}

/// A position in the image as the address of an instruction.
pub open spec fn address_of(position: nat) -> u64 {
    (position % 0x1_0000_0000_0000_0000) as u64
}

/// The instructions of the function that a symbol names.
pub open spec fn body_of(bytes: Seq<u8>, symbol: FunctionSymbolView) -> Seq<InsnView> {
    if symbol.start >= bytes.len() {
        Seq::empty()
    } else {
        decoded_run(
            bytes,
            symbol.start as nat,
            0,
            budget_of(symbol.size, (bytes.len() - symbol.start) as nat),
        )
    }
}

/// The functions decoded from the first `n` symbols of an image: one for
/// each symbol whose body is not empty, in the order of the symbols.
pub open spec fn disassembled_upto(image: BinaryImageView, n: nat) -> Seq<FunctionIRView>
    decreases n,
{
    if n == 0 {
        Seq::empty()
    } else {
        let symbol = image.functions[n - 1];
        let insns = body_of(image.data, symbol);
        if insns.len() == 0 {
            disassembled_upto(image, (n - 1) as nat)
        } else {
            disassembled_upto(image, (n - 1) as nat).push(
                FunctionIRView { name: symbol.name, start: symbol.start, size: symbol.size, insns },
            )
        }
    }
}

/// The shape of a run of instructions: the first stands where the run
/// begins, the addresses rise strictly, every instruction begins inside the
/// bytes and inside the budget, and none but the last is a return.
pub proof fn lemma_run_shape(bytes: Seq<u8>, start: nat, cursor: nat, budget: nat)
    requires
        bytes.len() <= u64::MAX,
    ensures
        ({
            let run = decoded_run(bytes, start, cursor, budget);
            &&& run.len() > 0 ==> run[0].addr == start + cursor
            &&& forall|k: int|
                0 <= k < run.len() ==> start + cursor <= (#[trigger] run[k]).addr < bytes.len()
                    && run[k].addr < start + budget
            &&& forall|k: int, m: int| 0 <= k < m < run.len() ==> run[k].addr < run[m].addr
            &&& forall|k: int|
                0 <= k < run.len() - 1 ==> !is_return_mnemonic((#[trigger] run[k]).mnemonic)
        }),
    decreases budget_left(cursor, budget),
{
    let run = decoded_run(bytes, start, cursor, budget);
    if cursor < budget && start + cursor < bytes.len() {
        let found = decoding(bytes.subrange((start + cursor) as int, bytes.len() as int));
        if found is Some && found->0.len != 0 {
            let insn = found->0;
            let this = normalized(address_of(start + cursor), insn);
            assert(this.addr == start + cursor);
            if !is_return_mnemonic(insn.mnemonic) {
                let rest = decoded_run(bytes, start, cursor + insn.len, budget);
                lemma_run_shape(bytes, start, cursor + insn.len, budget);
                assert(run == seq![this] + rest);
                assert forall|k: int| 0 <= k < run.len() implies start + cursor <= (#[trigger] run[k]).addr
                    < bytes.len() && run[k].addr < start + budget by {
                    if k > 0 {
                        assert(run[k] == rest[k - 1]);
                    }
                }
                assert forall|k: int, m: int| 0 <= k < m < run.len() implies run[k].addr
                    < run[m].addr by {
                    assert(run[m] == rest[m - 1]);
                    if k > 0 {
                        assert(run[k] == rest[k - 1]);
                    }
                }
                assert forall|k: int| 0 <= k < run.len() - 1 implies !is_return_mnemonic(
                    (#[trigger] run[k]).mnemonic,
                ) by {
                    if k > 0 {
                        assert(run[k] == rest[k - 1]);
                    }
                }
            }
        }
    }
}

/// Every function that is handed out was decoded from one of the symbols:
/// it has the symbol's name, start and size, it starts inside the image, and
/// its instructions are the run decoded from its start within its budget.
pub proof fn lemma_disassembled_bodies(image: BinaryImageView, n: nat)
    requires
        n <= image.functions.len(),
    ensures
        forall|k: int|
            0 <= k < disassembled_upto(image, n).len() ==> {
                let f = #[trigger] disassembled_upto(image, n)[k];
                &&& f.start < image.data.len()
                &&& f.insns == decoded_run(
                    image.data,
                    f.start as nat,
                    0,
                    budget_of(f.size, (image.data.len() - f.start) as nat),
                )
                &&& exists|i: int|
                    0 <= i < n && f.name == (#[trigger] image.functions[i]).name && f.start
                        == image.functions[i].start && f.size == image.functions[i].size
            },
    decreases n,
{
    if n > 0 {
        lemma_disassembled_bodies(image, (n - 1) as nat);
        let before = disassembled_upto(image, (n - 1) as nat);
        let symbol = image.functions[n - 1];
        assert forall|k: int| 0 <= k < disassembled_upto(image, n).len() implies {
            let f = #[trigger] disassembled_upto(image, n)[k];
            &&& f.start < image.data.len()
            &&& f.insns == decoded_run(
                image.data,
                f.start as nat,
                0,
                budget_of(f.size, (image.data.len() - f.start) as nat),
            )
            &&& exists|i: int|
                0 <= i < n && f.name == (#[trigger] image.functions[i]).name && f.start
                    == image.functions[i].start && f.size == image.functions[i].size
        } by {
            let f = disassembled_upto(image, n)[k];
            if k < before.len() {
                assert(f == before[k]);
                let i = choose|i: int|
                    0 <= i < n - 1 && f.name == (#[trigger] image.functions[i]).name && f.start
                        == image.functions[i].start && f.size == image.functions[i].size;
                assert(0 <= i < n && f.name == image.functions[i].name);
            } else {
                assert(f.name == image.functions[n - 1].name);
            }
        }
    }
}

/// No function is handed out without instructions, and there are never
/// more functions than symbols.
pub proof fn lemma_disassembled_nonempty(image: BinaryImageView, n: nat)
    ensures
        disassembled_upto(image, n).len() <= n,
        forall|k: int|
            0 <= k < disassembled_upto(image, n).len() ==> (#[trigger] disassembled_upto(
                image,
                n,
            )[k]).insns.len() > 0,
    decreases n,
{
    if n > 0 {
        lemma_disassembled_nonempty(image, (n - 1) as nat);
    }
}

/// Whether the image is one that the disassembler takes: x86 with 64 bits.
pub open spec fn is_x86_64(image: BinaryImageView) -> bool {
    image.arch == "x86"@ && image.bits == 64
}

fn decode_body(data: &[u8], start: usize, budget: u64) -> (insns: Vec<Insn>)
    requires
        start < data.len(),
    ensures
        views(insns@) == decoded_run(data@, start as nat, 0, budget as nat),
{
    let ghost total = decoded_run(data@, start as nat, 0, budget as nat);
    let mut insns: Vec<Insn> = Vec::new();
    let mut cursor: usize = 0;
    let mut done = false;
    assert(views(insns@) + total =~= total);
    while !done && (cursor as u64) < budget && cursor < data.len() - start
        invariant
            start + cursor <= data.len(),
            total == views(insns@) + if done {
                Seq::empty()
            } else {
                decoded_run(data@, start as nat, cursor as nat, budget as nat)
            },
        decreases data.len() - start - cursor + if done { 0int } else { 1int },
    {
        let off = start + cursor;
        let ghost before = views(insns@);
        match decode_at(data, off) {
            Some(insn) => {
                let len = insn.len;
                if len == 0 {
                    done = true;
                } else {
                    let ghost decoded = insn@;
                    let this = normalize_instruction(off as u64, insn);
                    let stop = is_return(this.mnemonic.as_str());
                    insns.push(this);
                    assert(views(insns@) =~= before + seq![normalized(address_of(off as nat), decoded)]);
                    cursor = cursor + len;
                    if stop {
                        done = true;
                    }
                }
            },
            None => {
                done = true;
            },
        }
        assert(total =~= views(insns@) + if done {
            Seq::empty()
        } else {
            decoded_run(data@, start as nat, cursor as nat, budget as nat)
        });
    }
    assert(total =~= views(insns@));
    insns
}

/// Decodes the functions of an image.
///
/// An image that is not x86 with 64 bits is refused as unsupported. For
/// every other image the result holds, in the order of the symbols, one
/// function for each symbol that starts inside the image and whose bytes
/// decode to at least one instruction; symbols that do not are skipped
/// without an error.
pub fn disassemble_functions(bin: &BinaryImage) -> (r: Result<Vec<FunctionIR>, ErrorKind>)
    ensures
        !is_x86_64(bin@) ==> r == Err::<Vec<FunctionIR>, ErrorKind>(ErrorKind::Unsupported),
        is_x86_64(bin@) ==> r is Ok && views(r->Ok_0@) == disassembled_upto(
            bin@,
            bin.functions.len() as nat,
        ),
        r matches Ok(funs) ==> forall|k: int|
            0 <= k < funs.len() ==> (#[trigger] funs@[k]).insns.len() > 0,
        r matches Ok(funs) ==> forall|k: int|
            0 <= k < funs.len() ==> (#[trigger] funs@[k]).insns@[0].addr == funs@[k].start,
        r matches Ok(funs) ==> forall|k: int, i: int|
            0 <= k < funs.len() && 0 <= i < funs@[k].insns.len() ==> (#[trigger] funs@[k].insns@[i]).addr
                < bin.data.len(),
{
    let x86 = String::from_str("x86");
    if bin.arch != x86 || bin.bits != 64 {
        return Err(ErrorKind::Unsupported);
    }
    let data = bin.data.as_slice();
    let mut out: Vec<FunctionIR> = Vec::new();
    let mut n: usize = 0;
    while n < bin.functions.len()
        invariant
            n <= bin.functions.len(),
            data@ == bin.data@,
            views(out@) == disassembled_upto(bin@, n as nat),
        decreases bin.functions.len() - n,
    {
        let f = &bin.functions[n];
        assert(bin@.functions[n as int] == f@);
        if f.start < data.len() as u64 {
            let start = f.start as usize;
            let budget = decode_budget(f.size, data.len() - start);
            let insns = decode_body(data, start, budget);
            if insns.len() > 0 {
                out.push(FunctionIR { name: f.name.clone(), start: f.start, size: f.size, insns });
                assert(views(out@) =~= disassembled_upto(bin@, (n + 1) as nat));
            }
        }
        n = n + 1;
    }
    proof {
        lemma_disassembled_nonempty(bin@, bin.functions.len() as nat);
        lemma_disassembled_bodies(bin@, bin.functions.len() as nat);
        assert(bin@.data.len() == bin.data.len());
        assert(bin.data.len() <= usize::MAX);
        assert forall|k: int| 0 <= k < out.len() implies (#[trigger] out@[k]).insns.len() > 0 by {
            assert(views(out@)[k].insns.len() == out@[k].insns.len());
        }
        assert forall|k: int| 0 <= k < out.len() implies (#[trigger] out@[k]).insns@[0].addr
            == out@[k].start by {
            let f = views(out@)[k];
            assert(f == out@[k]@);
            lemma_run_shape(
                bin@.data,
                f.start as nat,
                0,
                budget_of(f.size, (bin@.data.len() - f.start) as nat),
            );
            assert(f.insns[0] == out@[k].insns@[0]@);
        }
        assert forall|k: int, i: int|
            0 <= k < out.len() && 0 <= i < out@[k].insns.len() implies (#[trigger] out@[k].insns@[i]).addr
            < bin.data.len() by {
            let f = views(out@)[k];
            assert(f == out@[k]@);
            lemma_run_shape(
                bin@.data,
                f.start as nat,
                0,
                budget_of(f.size, (bin@.data.len() - f.start) as nat),
            );
            assert(f.insns[i] == out@[k].insns@[i]@);
        }
    }
    Ok(out)
}

} // verus!
