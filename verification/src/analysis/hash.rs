//! Strong and locality-sensitive hashes of a normalized function.

use crate::arch::{FunctionIR, FunctionIRView, OperandKind, OperandKindView};
use crate::model::views;
use vstd::prelude::*;
use vstd::utf8::encode_utf8;

verus! {

/// A 64-bit similarity hash: close inputs give hashes that differ in few bits.
#[derive(Debug, Clone, Copy, PartialEq, Eq, Structural)]
pub struct SimHash64(pub u64);

/// The fingerprint of one function: a strong hash for equality and a
/// similarity hash for closeness, both taken over its normalized instructions.
#[derive(Debug, Clone)]
pub struct FunctionHash {
    pub name: String,
    pub start: u64,
    pub blake3: [u8; 32],
    pub simhash: SimHash64,
    pub n_insn: usize,
}

/// Mathematical model of a [`FunctionHash`].
pub struct FunctionHashView {
    pub name: Seq<char>,
    pub start: u64,
    pub blake3: Seq<u8>,
    pub simhash: SimHash64,
    pub n_insn: usize,
}

impl View for FunctionHash {
    type V = FunctionHashView;

    open spec fn view(&self) -> FunctionHashView {
        FunctionHashView {
            name: self.name@,
            start: self.start,
            blake3: self.blake3@,
            simhash: self.simhash,
            n_insn: self.n_insn,
        }
    }
}

/// Whether two strong hashes are the same.
pub fn same_digest(a: &[u8; 32], b: &[u8; 32]) -> (r: bool)
    ensures
        r == (a@ == b@),
{
    let mut i: usize = 0;
    while i < 32
        invariant
            i <= 32,
            forall|k: int| 0 <= k < i ==> a@[k] == b@[k],
        decreases 32 - i,
    {
        if a[i] != b[i] {
            return false;
        }
        i = i + 1;
    }
    assert(a@ =~= b@);
    true
}

/// Whether bit `i` of `v` is set.
pub open spec fn bit_set(v: u64, i: nat) -> bool {
    (v >> (i as u64)) & 1 == 1
}

/// The number of set bits of `v` among the positions below `n`.
pub open spec fn ones_below(v: u64, n: nat) -> nat
    decreases n,
{
    if n == 0 {
        0
    } else {
        ones_below(v, (n - 1) as nat) + if bit_set(v, (n - 1) as nat) {
            1nat
        } else {
            0nat
        }
    }
}

/// The number of set bits of `v`.
pub open spec fn popcount(v: u64) -> nat {
    ones_below(v, 64)
}

/// The number of bit positions in which two similarity hashes differ.
pub open spec fn hamming_distance(a: SimHash64, b: SimHash64) -> nat {
    popcount(a.0 ^ b.0)
}

/// No more bits are counted than positions are looked at.
pub proof fn lemma_ones_below_bound(v: u64, n: nat)
    ensures
        ones_below(v, n) <= n,
    decreases n,
{
    if n > 0 {
        lemma_ones_below_bound(v, (n - 1) as nat);
    }
}

/// The Hamming distance of two similarity hashes never exceeds 64.
pub proof fn lemma_hamming_bound(a: SimHash64, b: SimHash64)
    ensures
        hamming_distance(a, b) <= 64,
{
    lemma_ones_below_bound(a.0 ^ b.0, 64);
}

/// Hamming distance of two similarity hashes.
pub fn hamming(a: SimHash64, b: SimHash64) -> (r: u32)
    ensures
        r == hamming_distance(a, b),
        r <= 64,
{
    let x: u64 = a.0 ^ b.0;
    let mut count: u32 = 0;
    let mut i: u32 = 0;
    while i < 64
        invariant
            i <= 64,
            count == ones_below(x, i as nat),
            count <= i,
        decreases 64 - i,
    {
        if (x >> (i as u64)) & 1 == 1 {
            count = count + 1;
        }
        i = i + 1;
    }
    count
}

// ---------------------------------------------------------------------------
// Tokens
// ---------------------------------------------------------------------------
/// The tag that stands for an operand in a token: `REG64` for a register
/// whose name begins with `R`, `REG` for any other register, `MEM`, `IMM`
/// or `O`.
pub open spec fn operand_tag(kind: OperandKindView) -> Seq<char> {
    match kind {
        OperandKindView::Reg(name) => if name.len() > 0 && name[0] == 'R' {
            "REG64"@
        } else {
            "REG"@
        },
        OperandKindView::Mem => "MEM"@,
        OperandKindView::Imm => "IMM"@,
        OperandKindView::Other => "O"@,
    }
}

/// The bytes of the tags of the first `n` operands, one after the other.
pub open spec fn tag_bytes(kinds: Seq<OperandKindView>, n: nat) -> Seq<u8>
    decreases n,
{
    if n == 0 {
        Seq::empty()
    } else {
        tag_bytes(kinds, (n - 1) as nat) + encode_utf8(operand_tag(kinds[n - 1]))
    }
}

/// The token of an instruction: the bytes of its mnemonic, then the bytes
/// of the tag of each operand.
pub open spec fn token_of(mnemonic: Seq<char>, kinds: Seq<OperandKindView>) -> Seq<u8> {
    encode_utf8(mnemonic) + tag_bytes(kinds, kinds.len())
}

/// The token of an instruction: the bytes of its mnemonic, then for each
/// operand the bytes of `REG64`, `REG`, `MEM`, `IMM` or `O`.
pub fn token_bytes(mnemonic: &str, op_kinds: &[OperandKind]) -> (token: Vec<u8>)
    ensures
        token@ == token_of(mnemonic@, views(op_kinds@)),
{
    let mut token = mnemonic.as_bytes_vec();
    let mut i: usize = 0;
    assert(token@ =~= encode_utf8(mnemonic@) + tag_bytes(views(op_kinds@), 0));
    while i < op_kinds.len()
        invariant
            i <= op_kinds.len(),
            token@ == encode_utf8(mnemonic@) + tag_bytes(views(op_kinds@), i as nat),
        decreases op_kinds.len() - i,
    {
        let tag = match &op_kinds[i] {
            OperandKind::Reg(name) => {
                if name.as_str().unicode_len() > 0 && name.as_str().get_char(0) == 'R' {
                    "REG64"
                } else {
                    "REG"
                }
            },
            OperandKind::Mem => "MEM",
            OperandKind::Imm => "IMM",
            OperandKind::Other => "O",
        };
        assert(tag@ == operand_tag(op_kinds@[i as int]@));
        token.extend_from_slice(tag.as_bytes());
        i = i + 1;
        assert(token@ =~= encode_utf8(mnemonic@) + tag_bytes(views(op_kinds@), i as nat));
    }
    token
}

// ---------------------------------------------------------------------------
// The first eight bytes as a number
// ---------------------------------------------------------------------------
/// The weight of byte `i` of a little-endian number: 256 to the power `i`.
pub open spec fn byte_weight(i: nat) -> nat
    decreases i,
{
    if i == 0 {
        1
    } else {
        256 * byte_weight((i - 1) as nat)
    }
}

/// The number that the first `n` bytes spell, lowest byte first.
pub open spec fn le_value(bytes: Seq<u8>, n: nat) -> nat
    decreases n,
{
    if n == 0 {
        0
    } else {
        le_value(bytes, (n - 1) as nat) + (bytes[n - 1] as nat) * byte_weight((n - 1) as nat)
    }
}

/// How many bytes make the number: eight, or all where there are fewer.
pub open spec fn word_len(bytes: Seq<u8>) -> nat {
    if bytes.len() < 8 {
        bytes.len()
    } else {
        8
    }
}

/// The first eight bytes as a little-endian 64-bit number.
pub open spec fn le_word(bytes: Seq<u8>) -> nat {
    le_value(bytes, word_len(bytes))
}

proof fn lemma_or_byte(out: u64, b: u8, i: u64)
    by (bit_vector)
    requires
        i < 8,
        i == 0 ==> out == 0,
        i > 0 ==> out < (1u64 << (8 * i)),
    ensures
        out | ((b as u64) << (i * 8)) == out + (b as u64) * (1u64 << (8 * i)),
        i < 7 ==> (out | ((b as u64) << (i * 8))) < (1u64 << (8 * (i + 1))),
{
}

proof fn lemma_next_weight(i: u64)
    by (bit_vector)
    requires
        i < 7,
    ensures
        (1u64 << (8 * (i + 1))) == 256 * (1u64 << (8 * i)),
        (1u64 << (8 * i)) < 0x100_0000_0000_0000,
{
}

proof fn lemma_weight_is_shift(i: nat)
    requires
        i < 8,
    ensures
        byte_weight(i) == (1u64 << ((8 * i) as u64)),
    decreases i,
{
    if i == 0 {
        assert(1u64 << 0u64 == 1) by (bit_vector);
    } else {
        lemma_weight_is_shift((i - 1) as nat);
        lemma_next_weight((i - 1) as u64);
    }
}

/// The first eight bytes of `bytes`, or all of them where there are fewer,
/// as a little-endian number.
pub fn u64_from_first8(bytes: &[u8]) -> (out: u64)
    ensures
        out == le_word(bytes@),
{
    let n: usize = if bytes.len() < 8 {
        bytes.len()
    } else {
        8
    };
    let mut out: u64 = 0;
    let mut i: usize = 0;
    while i < n
        invariant
            i <= n <= 8,
            n <= bytes.len(),
            out == le_value(bytes@, i as nat),
            i == 0 ==> out == 0,
            0 < i < 8 ==> out < (1u64 << ((8 * i) as u64)),
        decreases n - i,
    {
        proof {
            lemma_or_byte(out, bytes[i as int], i as u64);
            lemma_weight_is_shift(i as nat);
        }
        out = out | ((bytes[i] as u64) << ((i as u64) * 8));
        i = i + 1;
    }
    out
}

// ---------------------------------------------------------------------------
// The similarity hash
// ---------------------------------------------------------------------------
/// The BLAKE3 digest of a sequence of bytes, as the `blake3` crate computes
/// it.
pub uninterp spec fn blake3_of(bytes: Seq<u8>) -> Seq<u8>;

/// Calls `blake3::hash` and hands out the 32 bytes of the digest.
///
/// Nothing is proved of the hash function: the digest is only given its
/// name, [`blake3_of`], which depends on the bytes alone.
#[verifier::external_body]
fn digest(data: &[u8]) -> (r: [u8; 32])
    ensures
        r@ == blake3_of(data@),
{
    *blake3::hash(data).as_bytes()
}

/// The 64-bit word that a token votes with: the first eight bytes of its
/// digest, lowest byte first.
pub open spec fn word_of(token: Seq<u8>) -> u64 {
    (le_word(blake3_of(token)) % 0x1_0000_0000_0000_0000) as u64
}

/// The words of a list of tokens.
pub open spec fn words_of(tokens: Seq<Seq<u8>>) -> Seq<u64> {
    Seq::new(tokens.len(), |k: int| word_of(tokens[k]))
}

/// How many of the first `n` words have bit `i` set.
pub open spec fn ones_at(words: Seq<u64>, i: nat, n: nat) -> nat
    decreases n,
{
    if n == 0 {
        0
    } else {
        ones_at(words, i, (n - 1) as nat) + if bit_set(words[n - 1], i) {
            1nat
        } else {
            0nat
        }
    }
}

/// The outcome of the vote on bit `i`: one up for each word that has the
/// bit set, one down for each that has not.
pub open spec fn tally(words: Seq<u64>, i: nat) -> int {
    2 * ones_at(words, i, words.len()) - words.len()
}

/// The number whose bit `i`, for each `i` below `n`, is set exactly where
/// the vote on that bit did not end below zero; all other bits are clear.
pub open spec fn assembled(words: Seq<u64>, n: nat) -> u64
    decreases n,
{
    if n == 0 {
        0
    } else if tally(words, (n - 1) as nat) >= 0 {
        assembled(words, (n - 1) as nat) | (1u64 << ((n - 1) as u64))
    } else {
        assembled(words, (n - 1) as nat)
    }
}

/// The similarity hash of a list of tokens.
pub open spec fn simhash_of(tokens: Seq<Seq<u8>>) -> SimHash64 {
    SimHash64(assembled(words_of(tokens), 64))
}

proof fn lemma_set_bit(low: u64, k: u64, i: u64)
    by (bit_vector)
    requires
        k < 64,
        i < 64,
        low >> k == 0,
    ensures
        ((low | (1u64 << k)) >> i) & 1 == if i == k {
            1u64
        } else {
            (low >> i) & 1
        },
        k < 63 ==> (low | (1u64 << k)) >> ((k + 1) as u64) == 0,
        k < 63 ==> low >> ((k + 1) as u64) == 0,
        i >= k ==> (low >> i) & 1 == 0,
{
}

/// Bit `i` of what is assembled from the first `n` votes tells how the
/// vote on bit `i` ended, for `i` below `n`; the bits from `n` on are clear.
pub proof fn lemma_assembled_bits(words: Seq<u64>, n: nat)
    requires
        n <= 64,
    ensures
        forall|i: nat| i < n ==> (#[trigger] bit_set(assembled(words, n), i) <==> tally(words, i) >= 0),
        forall|i: nat| n <= i < 64 ==> !#[trigger] bit_set(assembled(words, n), i),
        n < 64 ==> assembled(words, n) >> (n as u64) == 0,
    decreases n,
{
    if n == 0 {
        assert(forall|i: u64| i < 64 ==> #[trigger] (0u64 >> i) & 1 == 0) by (bit_vector);
        assert(0u64 >> 0u64 == 0) by (bit_vector);
        assert forall|i: nat| i < 64 implies !#[trigger] bit_set(assembled(words, n), i) by {
            assert((0u64 >> (i as u64)) & 1 == 0);
        }
    } else {
        let k = (n - 1) as nat;
        let low = assembled(words, k);
        lemma_assembled_bits(words, k);
        assert forall|i: nat| i < 64 implies (#[trigger] bit_set(assembled(words, n), i) <==> (i < n
            && tally(words, i) >= 0)) by {
            lemma_set_bit(low, k as u64, i as u64);
            assert(bit_set(low, i) <==> (i < k && tally(words, i) >= 0));
        }
        if n < 64 {
            lemma_set_bit(low, k as u64, 0);
        }
    }
}

/// Each bit of the similarity hash tells how the vote on it ended: it is
/// set exactly where at least as many tokens voted for it as against it.
pub proof fn lemma_simhash_bits(tokens: Seq<Seq<u8>>)
    ensures
        forall|i: nat|
            i < 64 ==> (#[trigger] bit_set(simhash_of(tokens).0, i) <==> tally(words_of(tokens), i)
                >= 0),
{
    lemma_assembled_bits(words_of(tokens), 64);
}

/// How many tokens vote for bit `i`.
pub open spec fn votes_for(tokens: Seq<Seq<u8>>, i: nat) -> nat {
    ones_at(words_of(tokens), i, tokens.len())
}

proof fn lemma_ones_at_prefix(w1: Seq<u64>, w2: Seq<u64>, i: nat, n: nat)
    requires
        n <= w1.len(),
        n <= w2.len(),
        forall|k: int| 0 <= k < n ==> w1[k] == w2[k],
    ensures
        ones_at(w1, i, n) == ones_at(w2, i, n),
    decreases n,
{
    if n > 0 {
        lemma_ones_at_prefix(w1, w2, i, (n - 1) as nat);
    }
}

proof fn lemma_votes_remove(tokens: Seq<Seq<u8>>, k: int, i: nat)
    requires
        0 <= k < tokens.len(),
    ensures
        votes_for(tokens, i) == votes_for(tokens.remove(k), i) + if bit_set(word_of(tokens[k]), i) {
            1nat
        } else {
            0nat
        },
    decreases tokens.len(),
{
    let n = tokens.len();
    let shorter = tokens.drop_last();
    lemma_ones_at_prefix(words_of(tokens), words_of(shorter), i, (n - 1) as nat);
    if k == n - 1 {
        assert(tokens.remove(k) =~= shorter);
    } else {
        let rest = tokens.remove(k);
        lemma_votes_remove(shorter, k, i);
        assert(rest.drop_last() =~= shorter.remove(k));
        assert(rest.last() == tokens.last());
        lemma_ones_at_prefix(words_of(rest), words_of(rest.drop_last()), i, (n - 2) as nat);
        assert(words_of(rest)[n - 2] == word_of(tokens.last()));
        assert(words_of(tokens)[n - 1] == word_of(tokens.last()));
    }
}

proof fn lemma_votes_rearranged(s: Seq<Seq<u8>>, t: Seq<Seq<u8>>, i: nat)
    requires
        s.to_multiset() == t.to_multiset(),
    ensures
        s.len() == t.len(),
        votes_for(s, i) == votes_for(t, i),
    decreases s.len(),
{
    broadcast use vstd::seq_lib::group_to_multiset_ensures;

    s.to_multiset_ensures();
    t.to_multiset_ensures();
    assert(s.len() == t.len());
    if s.len() > 0 {
        let x = s.last();
        assert(s.contains(x)) by {
            assert(s[s.len() - 1] == x);
        }
        assert(t.to_multiset().count(x) > 0);
        assert(t.contains(x));
        let k = choose|k: int| 0 <= k < t.len() && t[k] == x;
        assert(s.remove(s.len() - 1) =~= s.drop_last());
        assert(s.drop_last().to_multiset() =~= t.remove(k).to_multiset());
        lemma_votes_rearranged(s.drop_last(), t.remove(k), i);
        lemma_votes_remove(t, k, i);
        lemma_votes_remove(s, s.len() - 1, i);
    }
}

proof fn lemma_assembled_from_tallies(w1: Seq<u64>, w2: Seq<u64>, n: nat)
    requires
        forall|i: nat| i < n ==> tally(w1, i) == tally(w2, i),
    ensures
        assembled(w1, n) == assembled(w2, n),
    decreases n,
{
    if n > 0 {
        lemma_assembled_from_tallies(w1, w2, (n - 1) as nat);
    }
}

/// The similarity hash does not depend on the order of the tokens: two
/// lists that hold the same tokens equally often have the same hash.
pub proof fn lemma_simhash_ignores_order(s: Seq<Seq<u8>>, t: Seq<Seq<u8>>)
    requires
        s.to_multiset() == t.to_multiset(),
    ensures
        simhash_of(s) == simhash_of(t),
{
    assert forall|i: nat| i < 64 implies tally(words_of(s), i) == tally(words_of(t), i) by {
        lemma_votes_rearranged(s, t, i);
    }
    lemma_assembled_from_tallies(words_of(s), words_of(t), 64);
}

proof fn lemma_ones_at_bound(words: Seq<u64>, i: nat, n: nat)
    ensures
        ones_at(words, i, n) <= n,
    decreases n,
{
    if n > 0 {
        lemma_ones_at_bound(words, i, (n - 1) as nat);
    }
}

/// The similarity hash of a list of tokens.
///
/// Each token votes with the first eight bytes of its BLAKE3 digest, read
/// as a little-endian number: for bit `i` one up where the number has the
/// bit set, one down where not. Bit `i` of the result is set where the vote
/// did not end below zero. The order of the tokens does not matter.
pub fn simhash(tokens: &[Vec<u8>]) -> (r: SimHash64)
    ensures
        r == simhash_of(views(tokens@)),
{
    let ghost words = words_of(views(tokens@));
    let mut ones: Vec<u64> = vec![0u64; 64];
    let mut t: usize = 0;
    while t < tokens.len()
        invariant
            t <= tokens.len(),
            words == words_of(views(tokens@)),
            ones.len() == 64,
            forall|k: int| 0 <= k < 64 ==> #[trigger] ones@[k] == ones_at(words, k as nat, t as nat),
        decreases tokens.len() - t,
    {
        let h = digest(tokens[t].as_slice());
        let val = u64_from_first8(h.as_slice());
        assert(val == words[t as int]);
        let mut i: usize = 0;
        while i < 64
            invariant
                i <= 64,
                t < tokens.len(),
                words.len() == tokens.len(),
                val == words[t as int],
                ones.len() == 64,
                forall|k: int| 0 <= k < i ==> #[trigger] ones@[k] == ones_at(words, k as nat, (t + 1) as nat),
                forall|k: int| i <= k < 64 ==> #[trigger] ones@[k] == ones_at(words, k as nat, t as nat),
            decreases 64 - i,
        {
            if (val >> (i as u64)) & 1 == 1 {
                proof {
                    lemma_ones_at_bound(words, i as nat, t as nat);
                }
                let count = ones[i] + 1;
                ones.set(i, count);
            }
            i = i + 1;
        }
        t = t + 1;
    }
    let n: u64 = tokens.len() as u64;
    let mut out: u64 = 0;
    let mut i: usize = 0;
    while i < 64
        invariant
            i <= 64,
            n == words.len(),
            ones.len() == 64,
            forall|k: int| 0 <= k < 64 ==> #[trigger] ones@[k] == ones_at(words, k as nat, words.len()),
            out == assembled(words, i as nat),
        decreases 64 - i,
    {
        proof {
            lemma_ones_at_bound(words, i as nat, words.len());
        }
        if ones[i] >= n - ones[i] {
            out = out | (1u64 << (i as u64));
        }
        i = i + 1;
    }
    SimHash64(out)
}

// ---------------------------------------------------------------------------
// The fingerprint of a function
// ---------------------------------------------------------------------------
/// The tokens of a function, one for each instruction.
pub open spec fn tokens_of(f: FunctionIRView) -> Seq<Seq<u8>> {
    Seq::new(f.insns.len(), |k: int| token_of(f.insns[k].mnemonic, f.insns[k].op_kinds))
}

/// The first `n` tokens one after the other.
pub open spec fn stream_of(tokens: Seq<Seq<u8>>, n: nat) -> Seq<u8>
    decreases n,
{
    if n == 0 {
        Seq::empty()
    } else {
        stream_of(tokens, (n - 1) as nat) + tokens[n - 1]
    }
}

/// The fingerprint of a function: its name and start, the BLAKE3 digest of
/// all its tokens in order, the similarity hash of its tokens and the number
/// of its instructions.
pub open spec fn fingerprint_of(f: FunctionIRView) -> FunctionHashView {
    FunctionHashView {
        name: f.name,
        start: f.start,
        blake3: blake3_of(stream_of(tokens_of(f), f.insns.len())),
        simhash: simhash_of(tokens_of(f)),
        n_insn: f.insns.len() as usize,
    }
}

/// Computes the fingerprint of a function.
pub fn hash_function(f: &FunctionIR) -> (h: FunctionHash)
    ensures
        h@ == fingerprint_of(f@),
{
    let ghost tokens = tokens_of(f@);
    let mut stream: Vec<u8> = Vec::new();
    let mut toks: Vec<Vec<u8>> = Vec::new();
    let mut i: usize = 0;
    while i < f.insns.len()
        invariant
            i <= f.insns.len(),
            tokens == tokens_of(f@),
            toks.len() == i,
            forall|k: int| 0 <= k < i ==> (#[trigger] toks@[k])@ == tokens[k],
            stream@ == stream_of(tokens, i as nat),
        decreases f.insns.len() - i,
    {
        let insn = &f.insns[i];
        let token = token_bytes(insn.mnemonic.as_str(), insn.op_kinds.as_slice());
        assert(token@ == tokens[i as int]);
        stream.extend_from_slice(token.as_slice());
        toks.push(token);
        i = i + 1;
    }
    assert(views(toks@) =~= tokens);
    FunctionHash {
        name: f.name.clone(),
        start: f.start,
        blake3: digest(stream.as_slice()),
        simhash: simhash(toks.as_slice()),
        n_insn: f.insns.len(),
    }
}

} // verus!
