use bindiff::analysis::hash::{hash_function, FunctionHash, SimHash64};
use bindiff::arch::{FunctionIR, Insn, OperandKind};
use bindiff::diff::matching::{insn_lines, match_functions, unified_diff};
use bindiff::diff::{FunctionDelta, MatchKind};

fn insn(mnemonic: &str, ops: Vec<OperandKind>) -> Insn {
    Insn { addr: 0, mnemonic: mnemonic.to_string(), op_kinds: ops }
}

fn reg(name: &str) -> OperandKind {
    OperandKind::Reg(name.to_string())
}

fn function(name: &str, start: u64, insns: Vec<Insn>) -> FunctionIR {
    FunctionIR { name: name.to_string(), start, size: 0, insns }
}

fn small_side() -> Vec<FunctionIR> {
    vec![
        function("alpha", 0x10, vec![insn("MOV", vec![reg("RAX"), OperandKind::Imm]), insn("RETURN", vec![])]),
        function("foo", 0x20, vec![insn("ADD", vec![reg("RAX"), reg("RBX")]), insn("RETURN", vec![])]),
        function("gamma", 0x30, vec![insn("XOR", vec![reg("eax"), OperandKind::Mem]), insn("RETURN", vec![])]),
    ]
}

fn hashes(side: &[FunctionIR]) -> Vec<FunctionHash> {
    side.iter().map(hash_function).collect()
}

fn names_a(deltas: &[FunctionDelta]) -> Vec<Option<String>> {
    deltas.iter().map(|d| d.name_a.clone()).collect()
}

fn names_b(deltas: &[FunctionDelta]) -> Vec<Option<String>> {
    deltas.iter().map(|d| d.name_b.clone()).collect()
}

fn some(s: &str) -> Option<String> {
    Some(s.to_string())
}

#[test]
fn identity_leaves_everything_unchanged() {
    let a = small_side();
    let ha = hashes(&a);
    let (added, removed, modified, unchanged) = match_functions(&a, &a, &ha, &ha);
    assert!(added.is_empty());
    assert!(removed.is_empty());
    assert!(modified.is_empty());
    assert_eq!(unchanged.len(), 3);
    assert_eq!(names_a(&unchanged), vec![some("alpha"), some("foo"), some("gamma")]);
    assert_eq!(names_b(&unchanged), vec![some("alpha"), some("foo"), some("gamma")]);
    for d in &unchanged {
        assert!(matches!(d.kind, MatchKind::Exact));
        assert!(!d.changed);
        assert_eq!(d.unified_diff, None);
        assert_eq!(d.insn_count_a, Some(2));
        assert_eq!(d.insn_count_b, Some(2));
        assert_eq!(d.start_a, d.start_b);
    }
}

#[test]
fn pure_rename_is_removed_and_added() {
    let a = small_side();
    let mut b = small_side();
    b[1].name = "bar".to_string();
    let ha = hashes(&a);
    let hb = hashes(&b);
    let (added, removed, modified, unchanged) = match_functions(&a, &b, &ha, &hb);
    assert_eq!(removed.len(), 1);
    assert_eq!(added.len(), 1);
    assert!(modified.is_empty());
    assert_eq!(unchanged.len(), 2);
    assert_eq!(removed[0].name_a, some("foo"));
    assert_eq!(removed[0].name_b, None);
    assert_eq!(removed[0].start_a, Some(0x20));
    assert_eq!(removed[0].start_b, None);
    assert_eq!(removed[0].insn_count_b, None);
    assert!(matches!(removed[0].kind, MatchKind::NoMatch));
    assert!(removed[0].changed);
    assert_eq!(added[0].name_b, some("bar"));
    assert_eq!(added[0].name_a, None);
    assert!(matches!(added[0].kind, MatchKind::NoMatch));
    assert!(added[0].changed);
}

#[test]
fn mnemonic_change_is_modified_with_diff() {
    let a = small_side();
    let mut b = small_side();
    b[1].insns[0].mnemonic = "SUB".to_string();
    let ha = hashes(&a);
    let hb = hashes(&b);
    let (added, removed, modified, unchanged) = match_functions(&a, &b, &ha, &hb);
    assert!(added.is_empty());
    assert!(removed.is_empty());
    assert_eq!(unchanged.len(), 2);
    assert_eq!(modified.len(), 1);
    let d = &modified[0];
    assert_eq!(d.name_a, some("foo"));
    assert_eq!(d.name_b, some("foo"));
    assert!(d.changed);
    match d.kind {
        MatchKind::Fuzzy { hamming } => assert!(1 <= hamming && hamming <= 64),
        _ => panic!("a modified pair is fuzzy"),
    }
    let diff = d.unified_diff.clone().unwrap();
    let minus: Vec<&str> = diff.lines().filter(|l| l.starts_with('-')).collect();
    let plus: Vec<&str> = diff.lines().filter(|l| l.starts_with('+')).collect();
    assert_eq!(minus, vec!["-ADD REG(RAX),REG(RBX)"]);
    assert_eq!(plus, vec!["+SUB REG(RAX),REG(RBX)"]);
    assert_eq!(diff, "-ADD REG(RAX),REG(RBX)\n\n+SUB REG(RAX),REG(RBX)\n\n RETURN \n\n");
}

#[test]
fn added_function_has_only_side_b() {
    let a = small_side();
    let mut b = small_side();
    b.push(function("extra", 0x40, vec![insn("RETURN", vec![])]));
    let ha = hashes(&a);
    let hb = hashes(&b);
    let (added, removed, modified, unchanged) = match_functions(&a, &b, &ha, &hb);
    assert_eq!(added.len(), 1);
    assert!(removed.is_empty());
    assert!(modified.is_empty());
    assert_eq!(unchanged.len(), 3);
    assert_eq!(added[0].name_a, None);
    assert_eq!(added[0].start_a, None);
    assert_eq!(added[0].insn_count_a, None);
    assert_eq!(added[0].name_b, some("extra"));
    assert_eq!(added[0].start_b, Some(0x40));
    assert_eq!(added[0].insn_count_b, Some(1));
    assert_eq!(added[0].unified_diff, None);
}

#[test]
fn every_function_lands_in_exactly_one_list() {
    let a = small_side();
    let mut b = small_side();
    b[0].name = "renamed".to_string();
    b[2].insns[0].mnemonic = "OR".to_string();
    b.push(function("extra", 0x40, vec![insn("RETURN", vec![])]));
    let ha = hashes(&a);
    let hb = hashes(&b);
    let (added, removed, modified, unchanged) = match_functions(&a, &b, &ha, &hb);
    // names of A: alpha, foo, gamma; names of B not in A: renamed, extra
    assert_eq!(added.len() + removed.len() + modified.len() + unchanged.len(), 3 + 2);
    assert_eq!(names_b(&added), vec![some("renamed"), some("extra")]);
    assert_eq!(names_a(&removed), vec![some("alpha")]);
    assert_eq!(names_a(&modified), vec![some("gamma")]);
    assert_eq!(names_a(&unchanged), vec![some("foo")]);
}

#[test]
fn last_duplicate_of_side_b_wins() {
    let a = vec![function("f", 1, vec![insn("RETURN", vec![])])];
    let b = vec![
        function("f", 10, vec![insn("NOP", vec![]), insn("RETURN", vec![])]),
        function("f", 20, vec![insn("RETURN", vec![])]),
    ];
    let ha = hashes(&a);
    let hb = hashes(&b);
    let (added, removed, modified, unchanged) = match_functions(&a, &b, &ha, &hb);
    assert!(removed.is_empty());
    assert!(modified.is_empty());
    assert_eq!(unchanged.len(), 1);
    assert_eq!(unchanged[0].start_b, Some(20));
    assert_eq!(added.len(), 1);
    assert_eq!(added[0].start_b, Some(10));
}

#[test]
fn first_duplicate_of_side_a_wins() {
    let a = vec![
        function("f", 1, vec![insn("RETURN", vec![])]),
        function("f", 2, vec![insn("RETURN", vec![])]),
    ];
    let b = vec![function("f", 10, vec![insn("RETURN", vec![])])];
    let ha = hashes(&a);
    let hb = hashes(&b);
    let (added, removed, modified, unchanged) = match_functions(&a, &b, &ha, &hb);
    assert!(added.is_empty());
    assert!(modified.is_empty());
    assert_eq!(unchanged.len(), 1);
    assert_eq!(unchanged[0].start_a, Some(1));
    assert_eq!(removed.len(), 1);
    assert_eq!(removed[0].start_a, Some(2));
}

#[test]
fn empty_sides_give_empty_lists() {
    let none: Vec<FunctionIR> = Vec::new();
    let no_hashes: Vec<FunctionHash> = Vec::new();
    let (added, removed, modified, unchanged) = match_functions(&none, &none, &no_hashes, &no_hashes);
    assert!(added.is_empty() && removed.is_empty() && modified.is_empty() && unchanged.is_empty());
}

#[test]
fn fuzzy_distance_is_that_of_the_similarity_hashes() {
    let a = vec![function("f", 1, vec![insn("RETURN", vec![])])];
    let b = vec![function("f", 1, vec![insn("NOP", vec![])])];
    let ha = vec![FunctionHash { name: "f".to_string(), start: 1, blake3: [1; 32], simhash: SimHash64(0b1111), n_insn: 1 }];
    let hb = vec![FunctionHash { name: "f".to_string(), start: 1, blake3: [2; 32], simhash: SimHash64(0b0101), n_insn: 1 }];
    let (_, _, modified, _) = match_functions(&a, &b, &ha, &hb);
    assert_eq!(modified.len(), 1);
    assert!(matches!(modified[0].kind, MatchKind::Fuzzy { hamming: 2 }));
}

#[test]
fn instructions_render_as_lines() {
    let f = function(
        "f",
        0,
        vec![
            insn("MOV", vec![reg("RAX"), OperandKind::Imm]),
            insn("LEA", vec![reg("rcx"), OperandKind::Mem, OperandKind::Other]),
            insn("RETURN", vec![]),
        ],
    );
    assert_eq!(insn_lines(&f), vec!["MOV REG(RAX),IMM", "LEA REG(rcx),MEM,O", "RETURN "]);
}

#[test]
fn unified_diff_of_equal_functions_has_only_equal_lines() {
    let f = function("f", 0, vec![insn("NOP", vec![]), insn("RETURN", vec![])]);
    assert_eq!(unified_diff(&f, &f), " NOP \n\n RETURN \n\n");
}

#[test]
fn no_function_stands_in_two_lists() {
    let a = small_side();
    let mut b = small_side();
    b[0].name = "renamed".to_string();
    b[2].insns[0].mnemonic = "OR".to_string();
    let ha = hashes(&a);
    let hb = hashes(&b);
    let (added, removed, modified, unchanged) = match_functions(&a, &b, &ha, &hb);
    let mut seen_a: Vec<String> = Vec::new();
    for d in removed.iter().chain(modified.iter()).chain(unchanged.iter()) {
        let name = d.name_a.clone().unwrap();
        assert!(!seen_a.contains(&name));
        seen_a.push(name);
    }
    let mut seen_b: Vec<String> = Vec::new();
    for d in added.iter().chain(modified.iter()).chain(unchanged.iter()) {
        let name = d.name_b.clone().unwrap();
        assert!(!seen_b.contains(&name));
        seen_b.push(name);
    }
    assert!(added.iter().all(|d| d.name_a.is_none()));
    assert!(removed.iter().all(|d| d.name_b.is_none()));
    assert_eq!(seen_a.len(), a.len());
    assert_eq!(seen_b.len(), b.len());
}

#[test]
fn matching_twice_gives_the_same_lists() {
    let a = small_side();
    let mut b = small_side();
    b[1].insns[0].mnemonic = "SUB".to_string();
    b.push(function("extra", 0x40, vec![insn("RETURN", vec![])]));
    let ha = hashes(&a);
    let hb = hashes(&b);
    let first = match_functions(&a, &b, &ha, &hb);
    let second = match_functions(&a.clone(), &b.clone(), &hashes(&a), &hashes(&b));
    assert_eq!(format!("{:?}", first), format!("{:?}", second));
}
