use bindiff::arch::x86_64::disassemble_functions;
use bindiff::failure::ErrorKind;
use bindiff::diff::MatchKind;
use bindiff::loader::{collect_elf, collect_pe, elf_bits, load, pe_bits, ElfSymbol, FunctionSymbol, PeExport};
use bindiff::pipeline::compare;

fn u16le(out: &mut Vec<u8>, v: u16) {
    out.extend_from_slice(&v.to_le_bytes());
}

fn u32le(out: &mut Vec<u8>, v: u32) {
    out.extend_from_slice(&v.to_le_bytes());
}

fn u64le(out: &mut Vec<u8>, v: u64) {
    out.extend_from_slice(&v.to_le_bytes());
}

fn pad_to(out: &mut Vec<u8>, len: usize) {
    while out.len() < len {
        out.push(0);
    }
}

struct Sym {
    name: u32,
    info: u8,
    value: u64,
    size: u64,
}

fn section64(out: &mut Vec<u8>, name: u32, kind: u32, offset: u64, size: u64, link: u32, entsize: u64) {
    u32le(out, name);
    u32le(out, kind);
    u64le(out, 0);
    u64le(out, 0);
    u64le(out, offset);
    u64le(out, size);
    u32le(out, link);
    u32le(out, 0);
    u64le(out, 1);
    u64le(out, entsize);
}

// An ELF64 object with the sections .text, .symtab, .strtab and .shstrtab.
// The code starts at file offset 64.
fn elf64(machine: u16, code: &[u8], strtab: &[u8], syms: &[Sym]) -> Vec<u8> {
    let shstrtab = b"\0.text\0.symtab\0.strtab\0.shstrtab\0";
    let code_off = 64usize;
    let sym_off = (code_off + code.len() + 7) / 8 * 8;
    let sym_len = 24 * (syms.len() + 1);
    let str_off = sym_off + sym_len;
    let shstr_off = str_off + strtab.len();
    let sh_off = (shstr_off + shstrtab.len() + 7) / 8 * 8;

    let mut out = vec![0x7f, b'E', b'L', b'F', 2, 1, 1, 0];
    pad_to(&mut out, 16);
    u16le(&mut out, 1);
    u16le(&mut out, machine);
    u32le(&mut out, 1);
    u64le(&mut out, 0);
    u64le(&mut out, 0);
    u64le(&mut out, sh_off as u64);
    u32le(&mut out, 0);
    u16le(&mut out, 64);
    u16le(&mut out, 0);
    u16le(&mut out, 0);
    u16le(&mut out, 64);
    u16le(&mut out, 5);
    u16le(&mut out, 4);
    assert_eq!(out.len(), 64);
    out.extend_from_slice(code);
    pad_to(&mut out, sym_off);
    out.extend_from_slice(&[0u8; 24]);
    for s in syms {
        u32le(&mut out, s.name);
        out.push(s.info);
        out.push(0);
        u16le(&mut out, 1);
        u64le(&mut out, s.value);
        u64le(&mut out, s.size);
    }
    out.extend_from_slice(strtab);
    out.extend_from_slice(shstrtab);
    pad_to(&mut out, sh_off);
    out.extend_from_slice(&[0u8; 64]);
    section64(&mut out, 1, 1, code_off as u64, code.len() as u64, 0, 0);
    section64(&mut out, 7, 2, sym_off as u64, sym_len as u64, 3, 24);
    section64(&mut out, 15, 3, str_off as u64, strtab.len() as u64, 0, 0);
    section64(&mut out, 23, 3, shstr_off as u64, shstrtab.len() as u64, 0, 0);
    out
}

// mov eax, 1 ; ret ; add eax, ebx ; ret
const CODE: [u8; 9] = [0xB8, 1, 0, 0, 0, 0xC3, 0x01, 0xD8, 0xC3];

fn small_elf() -> Vec<u8> {
    // names: 1 "first", 7 "second", 14 "data", 19 "empty"
    let strtab = b"\0first\0second\0data\0empty\0";
    let syms = [
        Sym { name: 1, info: 0x12, value: 64, size: 6 },
        Sym { name: 14, info: 0x11, value: 64, size: 4 },
        Sym { name: 19, info: 0x12, value: 70, size: 0 },
        Sym { name: 7, info: 0x02, value: 70, size: 3 },
    ];
    elf64(62, &CODE, strtab, &syms)
}

fn names(funs: &[FunctionSymbol]) -> Vec<&str> {
    funs.iter().map(|f| f.name.as_str()).collect()
}

#[test]
fn elf_gives_its_sized_function_symbols() {
    let bytes = small_elf();
    let image = load("small.elf", bytes.clone()).unwrap();
    assert_eq!(image.path, "small.elf");
    assert_eq!(image.arch, "x86");
    assert_eq!(image.bits, 64);
    assert_eq!(image.data, bytes);
    assert_eq!(names(&image.functions), vec!["first", "second"]);
    assert_eq!(image.functions[0].start, 64);
    assert_eq!(image.functions[0].size, 6);
    assert_eq!(image.functions[1].start, 70);
    assert_eq!(image.functions[1].size, 3);
}

#[test]
fn loaded_elf_disassembles() {
    let image = load("small.elf", small_elf()).unwrap();
    let funs = disassemble_functions(&image).unwrap();
    assert_eq!(funs.len(), 2);
    assert_eq!(funs[0].name, "first");
    assert_eq!(funs[0].insns.len(), 2);
    assert_eq!(funs[0].insns[0].mnemonic, "MOV");
    assert_eq!(funs[0].insns[0].addr, 64);
    assert_eq!(funs[1].name, "second");
    assert_eq!(funs[1].insns[0].mnemonic, "ADD");
    assert_eq!(funs[1].insns[1].mnemonic, "RETURN");
}

#[test]
fn elf_without_symbols_has_no_functions() {
    let image = load("bare", elf64(62, &CODE, b"\0", &[])).unwrap();
    assert!(image.functions.is_empty());
    assert!(disassemble_functions(&image).unwrap().is_empty());
}

#[test]
fn elf_for_another_machine_loads_with_the_same_tag() {
    let strtab = b"\0f\0";
    let syms = [Sym { name: 1, info: 0x12, value: 64, size: 4 }];
    let image = load("arm.elf", elf64(183, &[0xc0, 0x03, 0x5f, 0xd6], strtab, &syms)).unwrap();
    assert_eq!(image.arch, "x86");
    assert_eq!(image.bits, 64);
    assert_eq!(names(&image.functions), vec!["f"]);
}

#[test]
fn bytes_that_do_not_parse_are_a_format_error() {
    assert_eq!(load("short", vec![1, 2, 3]).err(), Some(ErrorKind::Format));
    assert_eq!(load("empty", vec![]).err(), Some(ErrorKind::Format));
    let mut cut = small_elf();
    cut.truncate(40);
    assert_eq!(load("cut", cut).err(), Some(ErrorKind::Format));
}

#[test]
fn other_containers_are_a_format_error() {
    assert_eq!(load("zeros", vec![0u8; 64]).err(), Some(ErrorKind::Format));
    let mut text = b"just some text, no object file at all".to_vec();
    pad_to(&mut text, 64);
    assert_eq!(load("text", text).err(), Some(ErrorKind::Format));
    // the magic number of a Mach-O file, and nothing behind it
    let mut mach = vec![0xcf, 0xfa, 0xed, 0xfe];
    pad_to(&mut mach, 32);
    assert_eq!(load("mach", mach).err(), Some(ErrorKind::Format));
    // the magic of a Unix archive without members
    let mut archive = b"!<arch>\n".to_vec();
    pad_to(&mut archive, 16);
    assert_eq!(load("archive", archive).err(), Some(ErrorKind::Format));
}

fn elf_symbol(info: u8, value: u64, size: u64, name: Option<&str>) -> ElfSymbol {
    ElfSymbol { info, value, size, name: name.map(|s| s.to_string()) }
}

#[test]
fn collect_elf_keeps_sized_named_functions() {
    let symbols = vec![
        elf_symbol(0x12, 0x1000, 16, Some("global_fn")),
        elf_symbol(0x02, 0x2000, 8, Some("local_fn")),
        elf_symbol(0x22, 0x3000, 1, Some("weak_fn")),
        elf_symbol(0x11, 0x4000, 8, Some("object")),
        elf_symbol(0x12, 0x5000, 0, Some("sizeless")),
        elf_symbol(0x12, 0x6000, 8, None),
        elf_symbol(0x00, 0, 0, Some("")),
        elf_symbol(0x1a, 0x7000, 8, Some("ifunc")),
        elf_symbol(0xf2, u64::MAX, u64::MAX, Some("")),
    ];
    let funs = collect_elf(&symbols);
    assert_eq!(names(&funs), vec!["global_fn", "local_fn", "weak_fn", ""]);
    assert_eq!(funs[0].start, 0x1000);
    assert_eq!(funs[0].size, 16);
    assert_eq!(funs[3].start, u64::MAX);
    assert_eq!(funs[3].size, u64::MAX);
    assert!(collect_elf(&Vec::new()).is_empty());
}

#[test]
fn collect_pe_names_every_export() {
    let exports = vec![
        PeExport { name: Some("DllMain".to_string()), rva: 0x1000 },
        PeExport { name: None, rva: 4660 },
        PeExport { name: None, rva: 0 },
        PeExport { name: Some(String::new()), rva: 7 },
    ];
    let funs = collect_pe(&exports);
    assert_eq!(names(&funs), vec!["DllMain", "ord_4660", "ord_0", ""]);
    assert_eq!(funs[0].start, 0x1000);
    assert_eq!(funs[1].start, 4660);
    assert!(funs.iter().all(|f| f.size == 0));
    assert!(collect_pe(&Vec::new()).is_empty());
}

#[test]
fn pe_width_follows_the_optional_header() {
    assert_eq!(pe_bits(Some(0x20b)), 64);
    assert_eq!(pe_bits(Some(0x10b)), 32);
    assert_eq!(pe_bits(Some(0x107)), 32);
    assert_eq!(pe_bits(Some(0)), 32);
    assert_eq!(pe_bits(None), 64);
}

// A PE image with one section that holds an export table: `foo` at 0x2000.
fn pe(wide: bool) -> Vec<u8> {
    let mut out = vec![b'M', b'Z'];
    pad_to(&mut out, 0x3c);
    u32le(&mut out, 0x80);
    pad_to(&mut out, 0x80);
    out.extend_from_slice(b"PE\0\0");
    u16le(&mut out, if wide { 0x8664 } else { 0x14c });
    u16le(&mut out, 1);
    u32le(&mut out, 0);
    u32le(&mut out, 0);
    u32le(&mut out, 0);
    u16le(&mut out, if wide { 240 } else { 224 });
    u16le(&mut out, 0x2022);
    let opt = out.len();
    u16le(&mut out, if wide { 0x20b } else { 0x10b });
    out.push(1);
    out.push(0);
    u32le(&mut out, 0);
    u32le(&mut out, 0x200);
    u32le(&mut out, 0);
    u32le(&mut out, 0);
    u32le(&mut out, 0x1000);
    if wide {
        u64le(&mut out, 0x1_4000_0000);
    } else {
        u32le(&mut out, 0x1000);
        u32le(&mut out, 0x40_0000);
    }
    u32le(&mut out, 0x1000);
    u32le(&mut out, 0x200);
    u16le(&mut out, 6);
    u16le(&mut out, 0);
    u16le(&mut out, 0);
    u16le(&mut out, 0);
    u16le(&mut out, 6);
    u16le(&mut out, 0);
    u32le(&mut out, 0);
    u32le(&mut out, 0x3000);
    u32le(&mut out, 0x200);
    u32le(&mut out, 0);
    u16le(&mut out, 3);
    u16le(&mut out, 0);
    for _ in 0..4 {
        if wide {
            u64le(&mut out, 0x1000);
        } else {
            u32le(&mut out, 0x1000);
        }
    }
    u32le(&mut out, 0);
    u32le(&mut out, 16);
    u32le(&mut out, 0x1000);
    u32le(&mut out, 0x100);
    for _ in 0..15 {
        u64le(&mut out, 0);
    }
    assert_eq!(out.len() - opt, if wide { 240 } else { 224 });
    out.extend_from_slice(b".edata\0\0");
    u32le(&mut out, 0x200);
    u32le(&mut out, 0x1000);
    u32le(&mut out, 0x200);
    u32le(&mut out, 0x200);
    u32le(&mut out, 0);
    u32le(&mut out, 0);
    u16le(&mut out, 0);
    u16le(&mut out, 0);
    u32le(&mut out, 0x4000_0040);
    pad_to(&mut out, 0x200);
    // the export directory, at relative virtual address 0x1000
    u32le(&mut out, 0);
    u32le(&mut out, 0);
    u16le(&mut out, 0);
    u16le(&mut out, 0);
    u32le(&mut out, 0x1040);
    u32le(&mut out, 1);
    u32le(&mut out, 2);
    u32le(&mut out, 1);
    u32le(&mut out, 0x1028);
    u32le(&mut out, 0x1030);
    u32le(&mut out, 0x1034);
    assert_eq!(out.len(), 0x228);
    u32le(&mut out, 0x2000);
    u32le(&mut out, 0x2010);
    u32le(&mut out, 0x1050);
    u16le(&mut out, 0);
    pad_to(&mut out, 0x240);
    out.extend_from_slice(b"test.dll\0");
    pad_to(&mut out, 0x250);
    out.extend_from_slice(b"foo\0");
    pad_to(&mut out, 0x400);
    out
}

#[test]
fn pe_gives_its_exports_without_sizes() {
    let bytes = pe(true);
    let image = load("wide.dll", bytes.clone()).unwrap();
    assert_eq!(image.path, "wide.dll");
    assert_eq!(image.arch, "x86");
    assert_eq!(image.bits, 64);
    assert_eq!(image.data, bytes);
    assert_eq!(names(&image.functions), vec!["foo"]);
    assert_eq!(image.functions[0].start, 0x2000);
    assert_eq!(image.functions[0].size, 0);
}

#[test]
fn pe_with_the_narrow_magic_has_32_bits() {
    let image = load("narrow.dll", pe(false)).unwrap();
    assert_eq!(image.bits, 32);
    assert_eq!(names(&image.functions), vec!["foo"]);
    assert_eq!(disassemble_functions(&image).err(), Some(ErrorKind::Unsupported));
}

#[test]
fn export_outside_the_file_is_skipped_by_the_disassembler() {
    let image = load("wide.dll", pe(true)).unwrap();
    assert!(disassemble_functions(&image).unwrap().is_empty());
}

#[test]
fn elf_width_follows_the_class() {
    assert_eq!(elf_bits(true), 64);
    assert_eq!(elf_bits(false), 32);
}

// mov eax, <imm> ; ret ; <op> eax, ebx ; ret ; xor eax, eax ; ret
fn three_functions(imm: u8, op: u8, second: &str) -> Vec<u8> {
    let code = [0xB8, imm, 0, 0, 0, 0xC3, op, 0xD8, 0xC3, 0x31, 0xC0, 0xC3];
    let mut strtab = b"\0first\0".to_vec();
    let second_at = strtab.len() as u32;
    strtab.extend_from_slice(second.as_bytes());
    strtab.push(0);
    let third_at = strtab.len() as u32;
    strtab.extend_from_slice(b"third\0");
    let syms = [
        Sym { name: 1, info: 0x12, value: 64, size: 6 },
        Sym { name: second_at, info: 0x12, value: 70, size: 3 },
        Sym { name: third_at, info: 0x12, value: 73, size: 3 },
    ];
    elf64(62, &code, &strtab, &syms)
}

#[test]
fn a_binary_compared_with_itself_is_unchanged() {
    let a = load("a", three_functions(1, 0x01, "second")).unwrap();
    let b = load("b", three_functions(1, 0x01, "second")).unwrap();
    let r = compare(&a, &b).unwrap();
    assert!(r.added.is_empty());
    assert!(r.removed.is_empty());
    assert!(r.modified.is_empty());
    assert_eq!(r.unchanged.len(), 3);
    for d in &r.unchanged {
        assert!(matches!(d.kind, MatchKind::Exact));
        assert!(!d.changed);
        assert_eq!(d.name_a, d.name_b);
    }
    let same = compare(&a, &a).unwrap();
    assert_eq!(format!("{:?}", same), format!("{:?}", r));
}

#[test]
fn a_renamed_symbol_is_removed_and_added() {
    let a = load("a", three_functions(1, 0x01, "foo")).unwrap();
    let b = load("b", three_functions(1, 0x01, "bar")).unwrap();
    let r = compare(&a, &b).unwrap();
    assert_eq!(r.removed.len(), 1);
    assert_eq!(r.added.len(), 1);
    assert!(r.modified.is_empty());
    assert_eq!(r.unchanged.len(), 2);
    assert_eq!(r.removed[0].name_a.as_deref(), Some("foo"));
    assert_eq!(r.added[0].name_b.as_deref(), Some("bar"));
}

#[test]
fn a_changed_immediate_is_unchanged_and_a_changed_opcode_is_modified() {
    let a = load("a", three_functions(1, 0x01, "second")).unwrap();
    let b = load("b", three_functions(9, 0x29, "second")).unwrap();
    let r = compare(&a, &b).unwrap();
    assert!(r.added.is_empty());
    assert!(r.removed.is_empty());
    let unchanged: Vec<_> = r.unchanged.iter().map(|d| d.name_a.clone().unwrap()).collect();
    assert_eq!(unchanged, vec!["first", "third"]);
    assert_eq!(r.modified.len(), 1);
    assert_eq!(r.modified[0].name_a.as_deref(), Some("second"));
    assert!(matches!(r.modified[0].kind, MatchKind::Fuzzy { .. }));
    assert!(r.modified[0].unified_diff.is_some());
}

#[test]
fn an_extra_function_is_added() {
    let a = load("a", small_elf()).unwrap();
    let b = load("b", three_functions(1, 0x01, "second")).unwrap();
    let r = compare(&a, &b).unwrap();
    assert_eq!(r.added.len(), 1);
    assert_eq!(r.added[0].name_b.as_deref(), Some("third"));
    assert_eq!(r.added[0].name_a, None);
    assert_eq!(r.added[0].start_a, None);
    assert_eq!(r.added[0].insn_count_a, None);
    assert!(r.removed.is_empty());
    assert!(r.modified.is_empty());
    assert_eq!(r.unchanged.len(), 2);
}

#[test]
fn comparison_refuses_an_image_that_is_not_x86_64() {
    let a = load("a", small_elf()).unwrap();
    let narrow = load("narrow.dll", pe(false)).unwrap();
    assert_eq!(compare(&a, &narrow).err(), Some(ErrorKind::Unsupported));
    assert_eq!(compare(&narrow, &a).err(), Some(ErrorKind::Unsupported));
    let mut other = a.clone();
    other.arch = "aarch64".to_string();
    assert_eq!(compare(&other, &a).err(), Some(ErrorKind::Unsupported));
}
