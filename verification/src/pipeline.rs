//! The pipeline as a whole: from two images to the comparison of their
//! functions, and what holds of it.

use crate::analysis::hash::{fingerprint_of, hash_function, FunctionHash, FunctionHashView};
use crate::arch::x86_64::{disassemble_functions, disassembled_upto, is_x86_64};
use crate::arch::{FunctionIR, FunctionIRView};
use crate::diff::laws::lemma_reflexive;
use crate::diff::matching::{exact_delta, match_functions, names_of, Sides};
use crate::diff::{DiffResult, DiffResultView, FunctionDelta};
use crate::failure::ErrorKind;
use crate::html::render_html;
use crate::loader::{load, outcome_of, BinaryImage, BinaryImageView};
use crate::model::views;
use vstd::prelude::*;

verus! {

/// The functions decoded from an image.
pub open spec fn disassembled(image: BinaryImageView) -> Seq<FunctionIRView> {
    disassembled_upto(image, image.functions.len())
}

/// The fingerprints of a list of functions, in order.
pub open spec fn fingerprints_of(functions: Seq<FunctionIRView>) -> Seq<FunctionHashView> {
    Seq::new(functions.len(), |i: int| fingerprint_of(functions[i]))
}

/// The two sides of the comparison of two images: the functions decoded
/// from each, with their fingerprints.
pub open spec fn sides_of(a: BinaryImageView, b: BinaryImageView) -> Sides {
    Sides {
        fa: disassembled(a),
        fb: disassembled(b),
        ha: fingerprints_of(disassembled(a)),
        hb: fingerprints_of(disassembled(b)),
    }
}

/// The comparison of two images. It is refused as unsupported unless both
/// are x86 with 64 bits.
pub open spec fn compared(a: BinaryImageView, b: BinaryImageView) -> Result<
    DiffResultView,
    ErrorKind,
> {
    if is_x86_64(a) && is_x86_64(b) {
        Ok(
            DiffResultView {
                added: sides_of(a, b).added(),
                removed: sides_of(a, b).removed(),
                modified: sides_of(a, b).modified(),
                unchanged: sides_of(a, b).unchanged(),
            },
        )
    } else {
        Err(ErrorKind::Unsupported)
    }
}

/// The model of the outcome of a comparison.
pub open spec fn comparison_of(r: Result<DiffResult, ErrorKind>) -> Result<
    DiffResultView,
    ErrorKind,
> {
    match r {
        Ok(d) => Ok(d@),
        Err(e) => Err(e),
    }
}

/// Computes the fingerprint of each function of a list.
pub fn hash_functions(functions: &Vec<FunctionIR>) -> (hashes: Vec<FunctionHash>)
    ensures
        views(hashes@) == fingerprints_of(views(functions@)),
{
    let mut hashes: Vec<FunctionHash> = Vec::new();
    let mut i: usize = 0;
    while i < functions.len()
        invariant
            i <= functions.len(),
            hashes.len() == i,
            forall|k: int| 0 <= k < i ==> (#[trigger] hashes@[k])@ == fingerprint_of(functions@[k]@),
        decreases functions.len() - i,
    {
        hashes.push(hash_function(&functions[i]));
        i = i + 1;
    }
    assert(views(hashes@) =~= fingerprints_of(views(functions@)));
    hashes
}

/// Compares the functions of two images: decodes both, fingerprints every
/// function and matches the two sides by name.
pub fn compare(a: &BinaryImage, b: &BinaryImage) -> (r: Result<DiffResult, ErrorKind>)
    ensures
        comparison_of(r) == compared(a@, b@),
{
    let fa = match disassemble_functions(a) {
        Ok(functions) => functions,
        Err(e) => {
            return Err(e);
        },
    };
    let fb = match disassemble_functions(b) {
        Ok(functions) => functions,
        Err(e) => {
            return Err(e);
        },
    };
    let ha = hash_functions(&fa);
    let hb = hash_functions(&fb);
    assert(a@.functions.len() == a.functions.len());
    assert(b@.functions.len() == b.functions.len());
    let (added, removed, modified, unchanged) = match_functions(
        fa.as_slice(),
        fb.as_slice(),
        ha.as_slice(),
        hb.as_slice(),
    );
    Ok(DiffResult { added, removed, modified, unchanged })
}

/// Reflexivity: an image whose decoded functions all have different names,
/// compared with itself, has nothing added, removed or modified; every
/// decoded function is unchanged and paired exactly with itself.
pub proof fn lemma_self_comparison(image: BinaryImageView)
    requires
        is_x86_64(image),
        names_of(fingerprints_of(disassembled(image))).no_duplicates(),
    ensures
        compared(image, image) == Ok::<DiffResultView, ErrorKind>(
            DiffResultView {
                added: Seq::empty(),
                removed: Seq::empty(),
                modified: Seq::empty(),
                unchanged: Seq::new(
                    disassembled(image).len(),
                    |i: int|
                        exact_delta(
                            fingerprint_of(disassembled(image)[i]),
                            fingerprint_of(disassembled(image)[i]),
                        ),
                ),
            },
        ),
{
    let f = disassembled(image);
    let h = fingerprints_of(f);
    lemma_reflexive(f, h);
    assert(Seq::new(h.len(), |i: int| exact_delta(h[i], h[i])) =~= Seq::new(
        f.len(),
        |i: int| exact_delta(fingerprint_of(f[i]), fingerprint_of(f[i])),
    ));
}

/// The model of the outcome of disassembling.
pub open spec fn functions_of(r: Result<Vec<FunctionIR>, ErrorKind>) -> Result<
    Seq<FunctionIRView>,
    ErrorKind,
> {
    match r {
        Ok(funs) => Ok(views(funs@)),
        Err(e) => Err(e),
    }
}

/// Loading is deterministic: the same bytes under the same path always
/// give the same image, or the same error.
pub proof fn lemma_load_is_deterministic(
    path1: &str,
    data1: Vec<u8>,
    r1: Result<BinaryImage, ErrorKind>,
    path2: &str,
    data2: Vec<u8>,
    r2: Result<BinaryImage, ErrorKind>,
)
    requires
        path1@ == path2@,
        data1@ == data2@,
        call_ensures(load, (path1, data1), r1),
        call_ensures(load, (path2, data2), r2),
    ensures
        outcome_of(r1) == outcome_of(r2),
{
}

/// Disassembling is deterministic: images with the same content always
/// give the same functions, or the same error.
pub proof fn lemma_disassembly_is_deterministic(
    bin1: &BinaryImage,
    r1: Result<Vec<FunctionIR>, ErrorKind>,
    bin2: &BinaryImage,
    r2: Result<Vec<FunctionIR>, ErrorKind>,
)
    requires
        bin1@ == bin2@,
        call_ensures(disassemble_functions, (bin1,), r1),
        call_ensures(disassemble_functions, (bin2,), r2),
    ensures
        functions_of(r1) == functions_of(r2),
{
    assert(bin1@.functions.len() == bin1.functions.len());
    assert(bin2@.functions.len() == bin2.functions.len());
}

/// Fingerprinting is deterministic: functions with the same content always
/// have the same fingerprint.
pub proof fn lemma_fingerprint_is_deterministic(
    f1: &FunctionIR,
    h1: FunctionHash,
    f2: &FunctionIR,
    h2: FunctionHash,
)
    requires
        f1@ == f2@,
        call_ensures(hash_function, (f1,), h1),
        call_ensures(hash_function, (f2,), h2),
    ensures
        h1@ == h2@,
{
}

/// Matching is deterministic: sides with the same content, in the same
/// order, always give the same four lists, in the same order and with the
/// same difference texts.
pub proof fn lemma_matching_is_deterministic(
    fa1: &[FunctionIR],
    fb1: &[FunctionIR],
    ha1: &[FunctionHash],
    hb1: &[FunctionHash],
    r1: (Vec<FunctionDelta>, Vec<FunctionDelta>, Vec<FunctionDelta>, Vec<FunctionDelta>),
    fa2: &[FunctionIR],
    fb2: &[FunctionIR],
    ha2: &[FunctionHash],
    hb2: &[FunctionHash],
    r2: (Vec<FunctionDelta>, Vec<FunctionDelta>, Vec<FunctionDelta>, Vec<FunctionDelta>),
)
    requires
        views(fa1@) == views(fa2@),
        views(fb1@) == views(fb2@),
        views(ha1@) == views(ha2@),
        views(hb1@) == views(hb2@),
        call_ensures(match_functions, (fa1, fb1, ha1, hb1), r1),
        call_ensures(match_functions, (fa2, fb2, ha2, hb2), r2),
    ensures
        views(r1.0@) == views(r2.0@),
        views(r1.1@) == views(r2.1@),
        views(r1.2@) == views(r2.2@),
        views(r1.3@) == views(r2.3@),
{
}

/// Rendering is deterministic: comparisons with the same content always
/// give the same document, character for character.
pub proof fn lemma_rendering_is_deterministic(
    d1: &DiffResult,
    r1: Result<String, ErrorKind>,
    d2: &DiffResult,
    r2: Result<String, ErrorKind>,
)
    requires
        d1@ == d2@,
        call_ensures(render_html, (d1,), r1),
        call_ensures(render_html, (d2,), r2),
    ensures
        r1 is Ok,
        r2 is Ok,
        r1->Ok_0@ == r2->Ok_0@,
{
}

} // verus!
