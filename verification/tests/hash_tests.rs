use bindiff::analysis::hash::{
    hamming, hash_function, same_digest, simhash, token_bytes, u64_from_first8, SimHash64,
};
use bindiff::arch::{FunctionIR, Insn, OperandKind};

fn insn(mnemonic: &str, ops: Vec<OperandKind>) -> Insn {
    Insn { addr: 0, mnemonic: mnemonic.to_string(), op_kinds: ops }
}

fn word(token: &[u8]) -> u64 {
    let d = blake3::hash(token);
    let mut first = [0u8; 8];
    first.copy_from_slice(&d.as_bytes()[..8]);
    u64::from_le_bytes(first)
}

#[test]
fn hamming_of_equal_hashes_is_zero() {
    assert_eq!(hamming(SimHash64(0xdead_beef), SimHash64(0xdead_beef)), 0);
}

#[test]
fn hamming_counts_differing_bits() {
    assert_eq!(hamming(SimHash64(0b1011), SimHash64(0b0001)), 2);
    assert_eq!(hamming(SimHash64(0), SimHash64(u64::MAX)), 64);
    assert_eq!(hamming(SimHash64(1 << 63), SimHash64(0)), 1);
}

#[test]
fn hamming_is_symmetric_and_bounded() {
    let values = [0u64, 1, 0xffff, 0x8000_0000_0000_0001, u64::MAX, 0x0123_4567_89ab_cdef];
    for &a in &values {
        for &b in &values {
            let d = hamming(SimHash64(a), SimHash64(b));
            assert!(d <= 64);
            assert_eq!(d, hamming(SimHash64(b), SimHash64(a)));
            assert_eq!(d, (a ^ b).count_ones());
        }
    }
}

#[test]
fn same_digest_compares_all_bytes() {
    let a = [7u8; 32];
    let mut b = [7u8; 32];
    assert!(same_digest(&a, &b));
    b[31] = 8;
    assert!(!same_digest(&a, &b));
    b[31] = 7;
    b[0] = 0;
    assert!(!same_digest(&a, &b));
}

#[test]
fn token_is_mnemonic_then_tags() {
    let ops = vec![
        OperandKind::Reg("RAX".to_string()),
        OperandKind::Reg("eax".to_string()),
        OperandKind::Mem,
        OperandKind::Imm,
        OperandKind::Other,
    ];
    assert_eq!(token_bytes("MOV", &ops), b"MOVREG64REGMEMIMMO".to_vec());
}

#[test]
fn token_of_bare_mnemonic_is_its_bytes() {
    assert_eq!(token_bytes("RETURN", &[]), b"RETURN".to_vec());
    assert_eq!(token_bytes("", &[]), Vec::<u8>::new());
}

#[test]
fn register_with_empty_name_is_plain_reg() {
    assert_eq!(token_bytes("X", &[OperandKind::Reg(String::new())]), b"XREG".to_vec());
}

#[test]
fn token_takes_mnemonic_as_utf8() {
    assert_eq!(token_bytes("\u{e9}", &[OperandKind::Imm]), vec![0xc3, 0xa9, b'I', b'M', b'M']);
}

#[test]
fn first_eight_bytes_little_endian() {
    assert_eq!(u64_from_first8(&[1, 2, 3, 4, 5, 6, 7, 8, 9, 10]), 0x0807_0605_0403_0201);
    assert_eq!(u64_from_first8(&[0xff; 8]), u64::MAX);
    assert_eq!(u64_from_first8(&[0, 0, 0, 0, 0, 0, 0, 0x80]), 0x8000_0000_0000_0000);
}

#[test]
fn fewer_than_eight_bytes_are_taken_as_they_are() {
    assert_eq!(u64_from_first8(&[]), 0);
    assert_eq!(u64_from_first8(&[0x34, 0x12]), 0x1234);
    assert_eq!(u64_from_first8(&[1, 0, 0, 0, 0, 0, 2]), 0x0002_0000_0000_0001);
}

#[test]
fn simhash_of_nothing_has_all_bits_set() {
    assert_eq!(simhash(&[]), SimHash64(u64::MAX));
}

#[test]
fn simhash_of_one_token_is_its_word() {
    assert_eq!(simhash(&[b"abc".to_vec()]), SimHash64(word(b"abc")));
    assert_eq!(simhash(&[b"abc".to_vec()]), SimHash64(3697813978277427044));
}

#[test]
fn simhash_of_two_tokens_sets_a_bit_on_a_tie() {
    let a = word(b"ADDREG64REG64");
    let b = word(b"RETURN");
    assert_eq!(simhash(&[b"ADDREG64REG64".to_vec(), b"RETURN".to_vec()]), SimHash64(a | b));
}

#[test]
fn simhash_of_three_tokens_is_the_majority() {
    let a = word(b"one");
    let b = word(b"two");
    let c = word(b"three");
    let majority = (a & b) | (a & c) | (b & c);
    let tokens = vec![b"one".to_vec(), b"two".to_vec(), b"three".to_vec()];
    assert_eq!(simhash(&tokens), SimHash64(majority));
}

#[test]
fn simhash_does_not_depend_on_the_order() {
    let x = vec![b"one".to_vec(), b"two".to_vec(), b"three".to_vec(), b"four".to_vec()];
    let y = vec![b"four".to_vec(), b"two".to_vec(), b"one".to_vec(), b"three".to_vec()];
    assert_eq!(simhash(&x), simhash(&y));
}

#[test]
fn fingerprint_hashes_the_tokens_in_order() {
    let f = FunctionIR {
        name: "f".to_string(),
        start: 0x400,
        size: 9,
        insns: vec![
            insn("ADD", vec![OperandKind::Reg("RAX".to_string()), OperandKind::Imm]),
            insn("RETURN", vec![]),
        ],
    };
    let h = hash_function(&f);
    assert_eq!(h.name, "f");
    assert_eq!(h.start, 0x400);
    assert_eq!(h.n_insn, 2);
    assert_eq!(h.blake3, *blake3::hash(b"ADDREG64IMMRETURN").as_bytes());
    assert_eq!(h.simhash, simhash(&[b"ADDREG64IMM".to_vec(), b"RETURN".to_vec()]));
}

#[test]
fn strong_hash_reflects_the_order_of_instructions() {
    let one = insn("PUSH", vec![OperandKind::Reg("RAX".to_string())]);
    let two = insn("POP", vec![OperandKind::Reg("RBX".to_string())]);
    let f = FunctionIR { name: "f".to_string(), start: 0, size: 0, insns: vec![one.clone(), two.clone()] };
    let g = FunctionIR { name: "f".to_string(), start: 0, size: 0, insns: vec![two, one] };
    let hf = hash_function(&f);
    let hg = hash_function(&g);
    assert_ne!(hf.blake3, hg.blake3);
    assert_eq!(hf.simhash, hg.simhash);
}

#[test]
fn fingerprint_of_no_instructions() {
    let f = FunctionIR { name: "empty".to_string(), start: 1, size: 0, insns: vec![] };
    let h = hash_function(&f);
    assert_eq!(h.n_insn, 0);
    assert_eq!(h.blake3, *blake3::hash(b"").as_bytes());
    assert_eq!(h.simhash, SimHash64(u64::MAX));
}

#[test]
fn immediates_do_not_reach_the_fingerprint() {
    let f = FunctionIR {
        name: "f".to_string(),
        start: 0,
        size: 0,
        insns: vec![insn("MOV", vec![OperandKind::Reg("RAX".to_string()), OperandKind::Imm])],
    };
    let mut g = f.clone();
    g.insns[0].addr = 0x1234;
    g.start = 77;
    assert_eq!(hash_function(&f).blake3, hash_function(&g).blake3);
}
