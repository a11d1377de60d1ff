//! Pairing the functions of two binaries by name and classifying each.

use crate::analysis::hash::{hamming, hamming_distance, same_digest, FunctionHash, FunctionHashView};
use crate::arch::{FunctionIR, FunctionIRView, Insn, InsnView, OperandKind, OperandKindView};
use crate::diff::lines::{diff_text, text_diff};
use crate::diff::{FunctionDelta, FunctionDeltaView, MatchKind};
use crate::model::{texts, views};
use crate::text::{join, joined};
use vstd::hash_map::StringHashMap;
use vstd::prelude::*;
use vstd::string::StringExecFns;

verus! {

// ---------------------------------------------------------------------------
// Rendering instructions as lines
// ---------------------------------------------------------------------------
/// How one operand reads in a rendered instruction.
pub open spec fn operand_label(kind: OperandKindView) -> Seq<char> {
    match kind {
        OperandKindView::Reg(name) => "REG("@ + name + ")"@,
        OperandKindView::Mem => "MEM"@,
        OperandKindView::Imm => "IMM"@,
        OperandKindView::Other => "O"@,
    }
}

/// The labels of a list of operands, in order.
pub open spec fn operand_labels(kinds: Seq<OperandKindView>) -> Seq<Seq<char>> {
    Seq::new(kinds.len(), |i: int| operand_label(kinds[i]))
}

/// One instruction as a line: the mnemonic, a space, and the operand labels
/// separated by commas.
pub open spec fn insn_line(insn: InsnView) -> Seq<char> {
    insn.mnemonic + " "@ + joined(operand_labels(insn.op_kinds), ","@)
}

/// The lines of a function, one for each instruction.
pub open spec fn insn_lines_of(f: FunctionIRView) -> Seq<Seq<char>> {
    Seq::new(f.insns.len(), |i: int| insn_line(f.insns[i]))
}

/// The rendered difference between the instructions of two functions: the
/// lines of each side joined by line breaks, then compared line by line.
pub open spec fn unified_diff_of(a: FunctionIRView, b: FunctionIRView) -> Seq<char> {
    text_diff(joined(insn_lines_of(a), "\n"@), joined(insn_lines_of(b), "\n"@))
}

fn label_operand(kind: &OperandKind) -> (out: String)
    ensures
        out@ == operand_label(kind@),
{
    match kind {
        OperandKind::Reg(name) => {
            let mut out = String::from_str("REG(");
            out.append(name.as_str());
            out.append(")");
            out
        },
        OperandKind::Mem => String::from_str("MEM"),
        OperandKind::Imm => String::from_str("IMM"),
        OperandKind::Other => String::from_str("O"),
    }
}

fn render_insn(insn: &Insn) -> (out: String)
    ensures
        out@ == insn_line(insn@),
{
    let mut labels: Vec<String> = Vec::new();
    let mut k: usize = 0;
    while k < insn.op_kinds.len()
        invariant
            k <= insn.op_kinds.len(),
            labels.len() == k,
            forall|m: int| 0 <= m < k ==> labels@[m]@ == operand_label(#[trigger] insn.op_kinds@[m]@),
        decreases insn.op_kinds.len() - k,
    {
        labels.push(label_operand(&insn.op_kinds[k]));
        k = k + 1;
    }
    assert(texts(labels@) =~= operand_labels(insn@.op_kinds));
    let ops = join(&labels, ",");
    let mut out = insn.mnemonic.clone();
    out.append(" ");
    out.append(ops.as_str());
    out
}

/// Renders each instruction of `f` as `"<mnemonic> <label>,<label>,..."`,
/// where a label is `REG(<name>)`, `MEM`, `IMM` or `O`.
pub fn insn_lines(f: &FunctionIR) -> (lines: Vec<String>)
    ensures
        texts(lines@) == insn_lines_of(f@),
{
    let mut lines: Vec<String> = Vec::new();
    let mut i: usize = 0;
    while i < f.insns.len()
        invariant
            i <= f.insns.len(),
            lines.len() == i,
            forall|m: int| 0 <= m < i ==> lines@[m]@ == insn_line(#[trigger] f.insns@[m]@),
        decreases f.insns.len() - i,
    {
        lines.push(render_insn(&f.insns[i]));
        i = i + 1;
    }
    assert(texts(lines@) =~= insn_lines_of(f@));
    lines
}

/// The line-level difference between the rendered instructions of `a` and
/// those of `b`, one change per line, each with its sign.
pub fn unified_diff(a: &FunctionIR, b: &FunctionIR) -> (out: String)
    ensures
        out@ == unified_diff_of(a@, b@),
{
    let a_lines = insn_lines(a);
    let b_lines = insn_lines(b);
    let a_text = join(&a_lines, "\n");
    let b_text = join(&b_lines, "\n");
    diff_text(a_text.as_str(), b_text.as_str())
}

// ---------------------------------------------------------------------------
// The correspondence between the two sides
// ---------------------------------------------------------------------------
/// The names of a list of fingerprints, in order.
pub open spec fn names_of(hs: Seq<FunctionHashView>) -> Seq<Seq<char>> {
    Seq::new(hs.len(), |i: int| hs[i].name)
}

/// Whether no earlier entry has the name of entry `i`.
pub open spec fn first_in(names: Seq<Seq<char>>, i: int) -> bool {
    forall|k: int| 0 <= k < i ==> names[k] != names[i]
}

/// Whether no later entry has the name of entry `j`.
pub open spec fn last_in(names: Seq<Seq<char>>, j: int) -> bool {
    forall|k: int| j < k < names.len() ==> names[k] != names[j]
}

/// The index of the last entry named `name`, if there is one.
pub open spec fn last_index_of(names: Seq<Seq<char>>, name: Seq<char>) -> Option<int>
    decreases names.len(),
{
    if names.len() == 0 {
        None
    } else if names.last() == name {
        Some(names.len() - 1)
    } else {
        last_index_of(names.drop_last(), name)
    }
}

/// The entry of side B that entry `i` of side A is paired with.
///
/// Only the first entry of A under a name is paired, and always with the
/// last entry of B under that name.
pub open spec fn partner(a: Seq<Seq<char>>, b: Seq<Seq<char>>, i: int) -> Option<int> {
    if first_in(a, i) {
        last_index_of(b, a[i])
    } else {
        None
    }
}

/// Whether entry `j` of side B is the partner of some entry of side A.
pub open spec fn claimed(a: Seq<Seq<char>>, b: Seq<Seq<char>>, j: int) -> bool {
    last_in(b, j) && a.contains(b[j])
}

/// What `last_index_of` finds is an entry of that name with none after it.
pub proof fn lemma_last_index_some(names: Seq<Seq<char>>, name: Seq<char>)
    requires
        last_index_of(names, name) is Some,
    ensures
        0 <= last_index_of(names, name)->0 < names.len(),
        names[last_index_of(names, name)->0] == name,
        last_in(names, last_index_of(names, name)->0),
    decreases names.len(),
{
    if names.len() > 0 && names.last() != name {
        let shorter = names.drop_last();
        lemma_last_index_some(shorter, name);
        let j = last_index_of(shorter, name)->0;
        assert forall|k: int| j < k < names.len() implies names[k] != names[j] by {
            if k < shorter.len() {
                assert(shorter[k] != shorter[j]);
            }
        }
    }
}

/// `last_index_of` finds nothing exactly when no entry has the name.
pub proof fn lemma_last_index_none(names: Seq<Seq<char>>, name: Seq<char>)
    ensures
        last_index_of(names, name) is None <==> !names.contains(name),
    decreases names.len(),
{
    if names.len() > 0 {
        if names.last() == name {
            assert(names[names.len() - 1] == name);
        } else {
            lemma_last_index_none(names.drop_last(), name);
            if names.contains(name) {
                let k = choose|k: int| 0 <= k < names.len() && names[k] == name;
                assert(names.drop_last()[k] == name);
            }
            if names.drop_last().contains(name) {
                let k = choose|k: int| 0 <= k < names.len() - 1 && names.drop_last()[k] == name;
                assert(names[k] == name);
            }
        }
    }
}

/// An entry with none of its name after it is what `last_index_of` finds.
pub proof fn lemma_last_index_is(names: Seq<Seq<char>>, j: int)
    requires
        0 <= j < names.len(),
        last_in(names, j),
    ensures
        last_index_of(names, names[j]) == Some(j),
{
    assert(names.contains(names[j]));
    lemma_last_index_none(names, names[j]);
    lemma_last_index_some(names, names[j]);
}

// ---------------------------------------------------------------------------
// The four classes
// ---------------------------------------------------------------------------
/// The record of a pair whose strong hashes agree.
pub open spec fn exact_delta(a: FunctionHashView, b: FunctionHashView) -> FunctionDeltaView {
    FunctionDeltaView {
        name_a: Some(a.name),
        name_b: Some(b.name),
        start_a: Some(a.start),
        start_b: Some(b.start),
        kind: MatchKind::Exact,
        changed: false,
        insn_count_a: Some(a.n_insn),
        insn_count_b: Some(b.n_insn),
        unified_diff: None,
    }
}

/// The record of a pair whose strong hashes differ.
pub open spec fn fuzzy_delta(
    a: FunctionHashView,
    b: FunctionHashView,
    fa: FunctionIRView,
    fb: FunctionIRView,
) -> FunctionDeltaView {
    FunctionDeltaView {
        name_a: Some(a.name),
        name_b: Some(b.name),
        start_a: Some(a.start),
        start_b: Some(b.start),
        kind: MatchKind::Fuzzy { hamming: hamming_distance(a.simhash, b.simhash) as u32 },
        changed: true,
        insn_count_a: Some(a.n_insn),
        insn_count_b: Some(b.n_insn),
        unified_diff: Some(unified_diff_of(fa, fb)),
    }
}

/// The record of a function that only side A has.
pub open spec fn removed_delta(a: FunctionHashView) -> FunctionDeltaView {
    FunctionDeltaView {
        name_a: Some(a.name),
        name_b: None,
        start_a: Some(a.start),
        start_b: None,
        kind: MatchKind::NoMatch,
        changed: true,
        insn_count_a: Some(a.n_insn),
        insn_count_b: None,
        unified_diff: None,
    }
}

/// The record of a function that only side B has.
pub open spec fn added_delta(b: FunctionHashView) -> FunctionDeltaView {
    FunctionDeltaView {
        name_a: None,
        name_b: Some(b.name),
        start_a: None,
        start_b: Some(b.start),
        kind: MatchKind::NoMatch,
        changed: true,
        insn_count_a: None,
        insn_count_b: Some(b.n_insn),
        unified_diff: None,
    }
}

/// Both sides of a comparison: the functions and their fingerprints.
pub struct Sides {
    pub fa: Seq<FunctionIRView>,
    pub fb: Seq<FunctionIRView>,
    pub ha: Seq<FunctionHashView>,
    pub hb: Seq<FunctionHashView>,
}

impl Sides {
    /// The partner of entry `i` of side A.
    pub open spec fn partner_of(self, i: int) -> Option<int> {
        partner(names_of(self.ha), names_of(self.hb), i)
    }

    /// Entry `i` of side A is paired and the strong hashes agree.
    pub open spec fn unchanged_at(self, i: int) -> bool {
        match self.partner_of(i) {
            Some(j) => self.ha[i].blake3 == self.hb[j].blake3,
            None => false,
        }
    }

    /// Entry `i` of side A is paired and the strong hashes differ.
    pub open spec fn modified_at(self, i: int) -> bool {
        match self.partner_of(i) {
            Some(j) => self.ha[i].blake3 != self.hb[j].blake3,
            None => false,
        }
    }

    /// Entry `i` of side A has no partner.
    pub open spec fn removed_at(self, i: int) -> bool {
        self.partner_of(i) is None
    }

    /// Entry `j` of side B is nobody's partner.
    pub open spec fn added_at(self, j: int) -> bool {
        !claimed(names_of(self.ha), names_of(self.hb), j)
    }

    /// The record for entry `i` of side A where it is unchanged.
    pub open spec fn unchanged_record(self, i: int) -> FunctionDeltaView {
        exact_delta(self.ha[i], self.hb[self.partner_of(i)->0])
    }

    /// The record for entry `i` of side A where it is modified.
    pub open spec fn modified_record(self, i: int) -> FunctionDeltaView {
        let j = self.partner_of(i)->0;
        fuzzy_delta(self.ha[i], self.hb[j], self.fa[i], self.fb[j])
    }

    /// The unchanged records for the first `n` entries of side A.
    pub open spec fn unchanged_upto(self, n: nat) -> Seq<FunctionDeltaView>
        decreases n,
    {
        if n == 0 {
            Seq::empty()
        } else if self.unchanged_at(n - 1) {
            self.unchanged_upto((n - 1) as nat).push(self.unchanged_record(n - 1))
        } else {
            self.unchanged_upto((n - 1) as nat)
        }
    }

    /// The modified records for the first `n` entries of side A.
    pub open spec fn modified_upto(self, n: nat) -> Seq<FunctionDeltaView>
        decreases n,
    {
        if n == 0 {
            Seq::empty()
        } else if self.modified_at(n - 1) {
            self.modified_upto((n - 1) as nat).push(self.modified_record(n - 1))
        } else {
            self.modified_upto((n - 1) as nat)
        }
    }

    /// The removed records for the first `n` entries of side A.
    pub open spec fn removed_upto(self, n: nat) -> Seq<FunctionDeltaView>
        decreases n,
    {
        if n == 0 {
            Seq::empty()
        } else if self.removed_at(n - 1) {
            self.removed_upto((n - 1) as nat).push(removed_delta(self.ha[n - 1]))
        } else {
            self.removed_upto((n - 1) as nat)
        }
    }

    /// The added records for the first `n` entries of side B.
    pub open spec fn added_upto(self, n: nat) -> Seq<FunctionDeltaView>
        decreases n,
    {
        if n == 0 {
            Seq::empty()
        } else if self.added_at(n - 1) {
            self.added_upto((n - 1) as nat).push(added_delta(self.hb[n - 1]))
        } else {
            self.added_upto((n - 1) as nat)
        }
    }

    /// The functions of side A that are paired and unchanged, in A's order.
    pub open spec fn unchanged(self) -> Seq<FunctionDeltaView> {
        self.unchanged_upto(self.ha.len())
    }

    /// The functions of side A that are paired and changed, in A's order.
    pub open spec fn modified(self) -> Seq<FunctionDeltaView> {
        self.modified_upto(self.ha.len())
    }

    /// The functions of side A without a partner, in A's order.
    pub open spec fn removed(self) -> Seq<FunctionDeltaView> {
        self.removed_upto(self.ha.len())
    }

    /// The functions of side B that are nobody's partner, in B's order.
    pub open spec fn added(self) -> Seq<FunctionDeltaView> {
        self.added_upto(self.hb.len())
    }
}

/// Whether a map from names to indices tells, for each name, the last
/// entry of that name among `names`.
pub open spec fn maps_last(map: Map<Seq<char>, usize>, names: Seq<Seq<char>>) -> bool {
    forall|name: Seq<char>|
        match #[trigger] last_index_of(names, name) {
            Some(j) => map.contains_key(name) && map[name] == j,
            None => !map.contains_key(name),
        }
}

/// The map from each name of `hs` to the index of its last entry.
fn index_by_name(hs: &[FunctionHash]) -> (map: StringHashMap<usize>)
    ensures
        maps_last(map@, names_of(views(hs@))),
{
    let ghost names = names_of(views(hs@));
    let mut map: StringHashMap<usize> = StringHashMap::new();
    let mut k: usize = 0;
    while k < hs.len()
        invariant
            k <= hs.len(),
            names == names_of(views(hs@)),
            maps_last(map@, names.take(k as int)),
        decreases hs.len() - k,
    {
        let ghost before = map@;
        let ghost longer = names.take(k + 1);
        assert(longer.last() == hs@[k as int]@.name);
        assert(longer.drop_last() == names.take(k as int));
        map.insert(hs[k].name.clone(), k);
        assert forall|name: Seq<char>|
            match #[trigger] last_index_of(longer, name) {
                Some(j) => map@.contains_key(name) && map@[name] == j,
                None => !map@.contains_key(name),
            } by {
            if name != longer.last() {
                assert(last_index_of(longer, name) == last_index_of(names.take(k as int), name));
            }
        }
        k = k + 1;
    }
    assert(names.take(hs.len() as int) == names);
    map
}

/// Pairs the functions of side A with those of side B by name and sorts
/// every function into one of four lists: `(added, removed, modified,
/// unchanged)`.
///
/// An entry of A is paired with the last entry of B of the same name, unless
/// an earlier entry of A took it. A pair with equal strong hashes is
/// unchanged; one with different strong hashes is modified and carries the
/// Hamming distance of the similarity hashes and the rendered difference of
/// the instructions. An entry of A without a partner is removed, an entry of
/// B that nobody is paired with is added. The first three lists follow the
/// order of A, the last the order of B.
pub fn match_functions(
    fa: &[FunctionIR],
    fb: &[FunctionIR],
    ha: &[FunctionHash],
    hb: &[FunctionHash],
) -> (r: (Vec<FunctionDelta>, Vec<FunctionDelta>, Vec<FunctionDelta>, Vec<FunctionDelta>))
    requires
        fa.len() == ha.len(),
        fb.len() == hb.len(),
    ensures
        ({
            let sides = Sides { fa: views(fa@), fb: views(fb@), ha: views(ha@), hb: views(hb@) };
            &&& views(r.0@) == sides.added()
            &&& views(r.1@) == sides.removed()
            &&& views(r.2@) == sides.modified()
            &&& views(r.3@) == sides.unchanged()
        }),
{
    let ghost sides = Sides { fa: views(fa@), fb: views(fb@), ha: views(ha@), hb: views(hb@) };
    let ghost a = names_of(sides.ha);
    let ghost b = names_of(sides.hb);
    let by_name_b = index_by_name(hb);
    let mut used_b: Vec<bool> = vec![false; hb.len()];
    let mut unchanged: Vec<FunctionDelta> = Vec::new();
    let mut modified: Vec<FunctionDelta> = Vec::new();
    let mut removed: Vec<FunctionDelta> = Vec::new();
    let mut added: Vec<FunctionDelta> = Vec::new();

    let mut i: usize = 0;
    while i < ha.len()
        invariant
            i <= ha.len(),
            fa.len() == ha.len(),
            fb.len() == hb.len(),
            sides == (Sides { fa: views(fa@), fb: views(fb@), ha: views(ha@), hb: views(hb@) }),
            a == names_of(sides.ha),
            b == names_of(sides.hb),
            maps_last(by_name_b@, b),
            used_b.len() == hb.len(),
            forall|j: int|
                0 <= j < hb.len() ==> (#[trigger] used_b@[j] <==> last_in(b, j) && a.take(
                    i as int,
                ).contains(b[j])),
            views(unchanged@) == sides.unchanged_upto(i as nat),
            views(modified@) == sides.modified_upto(i as nat),
            views(removed@) == sides.removed_upto(i as nat),
        decreases ha.len() - i,
    {
        let found = by_name_b.get(ha[i].name.as_str());
        let ghost before = a.take(i as int);
        let ghost after = a.take(i + 1);
        assert(a[i as int] == ha@[i as int]@.name);
        assert(forall|x: Seq<char>| after.contains(x) <==> before.contains(x) || x == a[i as int])
            by {
            assert forall|x: Seq<char>| after.contains(x) implies before.contains(x) || x == a[i as int] by {
                let k = choose|k: int| 0 <= k < after.len() && after[k] == x;
                if k < i {
                    assert(before[k] == x);
                }
            }
            assert forall|x: Seq<char>| before.contains(x) || x == a[i as int] implies after.contains(
                x,
            ) by {
                if before.contains(x) {
                    let k = choose|k: int| 0 <= k < before.len() && before[k] == x;
                    assert(after[k] == x);
                } else {
                    assert(after[i as int] == x);
                }
            }
        }
        assert(first_in(a, i as int) <==> !before.contains(a[i as int])) by {
            if before.contains(a[i as int]) {
                let k = choose|k: int| 0 <= k < before.len() && before[k] == a[i as int];
                assert(a[k] == a[i as int]);
            }
            if !first_in(a, i as int) {
                let k = choose|k: int| 0 <= k < i && a[k] == a[i as int];
                assert(before[k] == a[i as int]);
            }
        }
        proof {
            lemma_last_index_none(b, a[i as int]);
            if last_index_of(b, a[i as int]) is Some {
                lemma_last_index_some(b, a[i as int]);
            }
            assert forall|j: int| 0 <= j < hb.len() && last_in(b, j) && b[j] == a[i as int] implies last_index_of(
                b,
                a[i as int],
            ) == Some(j) by {
                lemma_last_index_is(b, j);
            }
        }
        let mut paired: Option<usize> = None;
        if let Some(j) = found {
            assert(last_index_of(b, a[i as int]) == Some(*j as int));
            if !used_b[*j] {
                paired = Some(*j);
            }
        }
        assert(match paired {
            Some(j) => sides.partner_of(i as int) == Some(j as int),
            None => sides.partner_of(i as int) is None,
        });
        match paired {
            Some(j) => {
                used_b.set(j, true);
                assert(b[j as int] == hb@[j as int]@.name);
                if same_digest(&ha[i].blake3, &hb[j].blake3) {
                    unchanged.push(
                        FunctionDelta {
                            name_a: Some(ha[i].name.clone()),
                            name_b: Some(hb[j].name.clone()),
                            start_a: Some(ha[i].start),
                            start_b: Some(hb[j].start),
                            kind: MatchKind::Exact,
                            changed: false,
                            insn_count_a: Some(ha[i].n_insn),
                            insn_count_b: Some(hb[j].n_insn),
                            unified_diff: None,
                        },
                    );
                    assert(views(unchanged@) =~= sides.unchanged_upto((i + 1) as nat));
                } else {
                    let ham = hamming(ha[i].simhash, hb[j].simhash);
                    modified.push(
                        FunctionDelta {
                            name_a: Some(ha[i].name.clone()),
                            name_b: Some(hb[j].name.clone()),
                            start_a: Some(ha[i].start),
                            start_b: Some(hb[j].start),
                            kind: MatchKind::Fuzzy { hamming: ham },
                            changed: true,
                            insn_count_a: Some(ha[i].n_insn),
                            insn_count_b: Some(hb[j].n_insn),
                            unified_diff: Some(unified_diff(&fa[i], &fb[j])),
                        },
                    );
                    assert(views(modified@) =~= sides.modified_upto((i + 1) as nat));
                }
            },
            None => {
                removed.push(
                    FunctionDelta {
                        name_a: Some(ha[i].name.clone()),
                        name_b: None,
                        start_a: Some(ha[i].start),
                        start_b: None,
                        kind: MatchKind::NoMatch,
                        changed: true,
                        insn_count_a: Some(ha[i].n_insn),
                        insn_count_b: None,
                        unified_diff: None,
                    },
                );
                assert(views(removed@) =~= sides.removed_upto((i + 1) as nat));
            },
        }
        i = i + 1;
    }
    assert(a.take(ha.len() as int) == a);

    let mut j: usize = 0;
    while j < hb.len()
        invariant
            j <= hb.len(),
            sides == (Sides { fa: views(fa@), fb: views(fb@), ha: views(ha@), hb: views(hb@) }),
            a == names_of(sides.ha),
            b == names_of(sides.hb),
            used_b.len() == hb.len(),
            forall|k: int| 0 <= k < hb.len() ==> (#[trigger] used_b@[k] <==> claimed(a, b, k)),
            views(added@) == sides.added_upto(j as nat),
        decreases hb.len() - j,
    {
        if !used_b[j] {
            added.push(
                FunctionDelta {
                    name_a: None,
                    name_b: Some(hb[j].name.clone()),
                    start_a: None,
                    start_b: Some(hb[j].start),
                    kind: MatchKind::NoMatch,
                    changed: true,
                    insn_count_a: None,
                    insn_count_b: Some(hb[j].n_insn),
                    unified_diff: None,
                },
            );
            assert(views(added@) =~= sides.added_upto((j + 1) as nat));
        }
        j = j + 1;
    }
    (added, removed, modified, unchanged)
}

} // verus!
