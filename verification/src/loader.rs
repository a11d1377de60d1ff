//! Reading the function inventory of an object file.

use crate::model::{text_of, views};
use crate::text::{decimal, push_decimal};
use crate::failure::ErrorKind;
use vstd::prelude::*;
use vstd::string::StringExecFns;

verus! {

/// A named piece of code of an object file.
///
/// `start` is a virtual address (ELF) or a relative virtual address (PE);
/// `size` is zero where the file does not tell the length.
#[derive(Debug, Clone)]
pub struct FunctionSymbol {
    pub name: String,
    pub start: u64,
    pub size: u64,
}

/// Mathematical model of a [`FunctionSymbol`].
pub struct FunctionSymbolView {
    pub name: Seq<char>,
    pub start: u64,
    pub size: u64,
}

impl View for FunctionSymbol {
    type V = FunctionSymbolView;

    open spec fn view(&self) -> FunctionSymbolView {
        FunctionSymbolView { name: self.name@, start: self.start, size: self.size }
    }
}

/// An object file in memory: where it came from, what it was built for,
/// its functions and all of its bytes.
#[derive(Debug, Clone)]
pub struct BinaryImage {
    pub path: String,
    pub arch: String,
    pub bits: u8,
    pub functions: Vec<FunctionSymbol>,
    pub data: Vec<u8>,
}

/// Mathematical model of a [`BinaryImage`].
pub struct BinaryImageView {
    pub path: Seq<char>,
    pub arch: Seq<char>,
    pub bits: u8,
    pub functions: Seq<FunctionSymbolView>,
    pub data: Seq<u8>,
}

impl View for BinaryImage {
    type V = BinaryImageView;

    open spec fn view(&self) -> BinaryImageView {
        BinaryImageView {
            path: self.path@,
            arch: self.arch@,
            bits: self.bits,
            functions: views(self.functions@),
            data: self.data@,
        }
    }
}

// ---------------------------------------------------------------------------
// What the object-file parser hands out
// ---------------------------------------------------------------------------
/// A parsed ELF file of the `goblin` crate.
#[verifier::external_type_specification]
#[verifier::external_body]
pub struct ExElf<'a>(goblin::elf::Elf<'a>);

/// A parsed PE file of the `goblin` crate.
#[verifier::external_type_specification]
#[verifier::external_body]
pub struct ExPe<'a>(goblin::pe::PE<'a>);

/// The error of the `goblin` crate.
#[verifier::external_type_specification]
#[verifier::external_body]
pub struct ExGoblinError(goblin::error::Error);

/// What kind of object file the parser found.
pub enum Parsed<'a> {
    Elf(goblin::elf::Elf<'a>),
    Pe(goblin::pe::PE<'a>),
    Te,
    Coff,
    Mach,
    Archive,
    /// None of the containers that the parser knows; the value is the magic
    /// number that it read.
    Unknown(u64),
    /// A container that the parser learned of later.
    Unlisted,
}

/// One entry of an ELF symbol table, as far as the loader reads it.
#[derive(Debug, Clone)]
pub struct ElfSymbol {
    /// Type and binding of the symbol (`st_info`).
    pub info: u8,
    /// Value of the symbol (`st_value`).
    pub value: u64,
    /// Size of the symbol (`st_size`).
    pub size: u64,
    /// The name, where the string table resolves it.
    pub name: Option<String>,
}

/// Mathematical model of an [`ElfSymbol`].
pub struct ElfSymbolView {
    pub info: u8,
    pub value: u64,
    pub size: u64,
    pub name: Option<Seq<char>>,
}

impl View for ElfSymbol {
    type V = ElfSymbolView;

    open spec fn view(&self) -> ElfSymbolView {
        ElfSymbolView {
            info: self.info,
            value: self.value,
            size: self.size,
            name: text_of(self.name),
        }
    }
}

/// One export of a PE file, as far as the loader reads it.
#[derive(Debug, Clone)]
pub struct PeExport {
    /// The name, where the export has one.
    pub name: Option<String>,
    /// The relative virtual address of the export.
    pub rva: u64,
}

/// Mathematical model of a [`PeExport`].
pub struct PeExportView {
    pub name: Option<Seq<char>>,
    pub rva: u64,
}

impl View for PeExport {
    type V = PeExportView;

    open spec fn view(&self) -> PeExportView {
        PeExportView { name: text_of(self.name), rva: self.rva }
    }
}

/// What the loader reads of a parsed ELF file.
pub struct ElfFile {
    /// Whether the file is of the 64-bit class.
    pub is_64: bool,
    /// The entries of the symbol table, in its order.
    pub symbols: Vec<ElfSymbol>,
}

/// Mathematical model of an [`ElfFile`].
pub struct ElfFileView {
    pub is_64: bool,
    pub symbols: Seq<ElfSymbolView>,
}

impl View for ElfFile {
    type V = ElfFileView;

    open spec fn view(&self) -> ElfFileView {
        ElfFileView { is_64: self.is_64, symbols: views(self.symbols@) }
    }
}

/// What the loader reads of a parsed PE file.
pub struct PeFile {
    /// The magic number of the optional header, where there is one.
    pub optional_magic: Option<u16>,
    /// The exports, in their order.
    pub exports: Vec<PeExport>,
}

/// Mathematical model of a [`PeFile`].
pub struct PeFileView {
    pub optional_magic: Option<u16>,
    pub exports: Seq<PeExportView>,
}

impl View for PeFile {
    type V = PeFileView;

    open spec fn view(&self) -> PeFileView {
        PeFileView { optional_magic: self.optional_magic, exports: views(self.exports@) }
    }
}

/// What `goblin::Object::parse` makes of the bytes of a file; `None` where
/// it reports an error.
pub uninterp spec fn parsing(bytes: Seq<u8>) -> Option<Parsed<'static>>;

/// What a parsed ELF file holds: its class, and the entries of its symbol
/// table, each with its name as the string table of that table resolves it.
pub uninterp spec fn elf_contents(elf: goblin::elf::Elf<'static>) -> ElfFileView;

/// What a parsed PE file holds: the magic number of its optional header, and
/// its exports.
pub uninterp spec fn pe_contents(pe: goblin::pe::PE<'static>) -> PeFileView;

/// Calls `goblin::Object::parse` and tells the kinds of object file apart.
///
/// Nothing is proved of the parser: its outcome is only given its name,
/// [`parsing`], which depends on the bytes alone.
#[verifier::external_body]
fn parse_object<'a>(data: &'a [u8]) -> (r: Result<Parsed<'a>, goblin::error::Error>)
    ensures
        match r {
            Ok(parsed) => parsing(data@) == Some(parsed),
            Err(_) => parsing(data@) is None,
        },
{
    Ok(
        match goblin::Object::parse(data)? {
            goblin::Object::Elf(elf) => Parsed::Elf(elf),
            goblin::Object::PE(pe) => Parsed::Pe(pe),
            goblin::Object::TE(_) => Parsed::Te,
            goblin::Object::COFF(_) => Parsed::Coff,
            goblin::Object::Mach(_) => Parsed::Mach,
            goblin::Object::Archive(_) => Parsed::Archive,
            goblin::Object::Unknown(magic) => Parsed::Unknown(magic),
            _ => Parsed::Unlisted,
        },
    )
}

/// Reads the field `is_64` of a parsed ELF file, walks its symbol table
/// `syms` and hands out the fields `st_info`, `st_value` and `st_size` of
/// each entry, with the name that `strtab.get_at` finds for its `st_name`.
#[verifier::external_body]
fn read_elf(elf: &goblin::elf::Elf) -> (r: ElfFile)
    ensures
        r@ == elf_contents(*elf),
{
    ElfFile {
        is_64: elf.is_64,
        symbols: elf.syms
            .iter()
            .map(|s| ElfSymbol {
                info: s.st_info,
                value: s.st_value,
                size: s.st_size,
                name: elf.strtab.get_at(s.st_name).map(|n| n.to_string()),
            })
            .collect(),
    }
}

/// Reads the magic number from the optional header of a parsed PE file and
/// hands out the fields `name` and `rva` of each of its exports.
#[verifier::external_body]
fn read_pe(pe: &goblin::pe::PE) -> (r: PeFile)
    ensures
        r@ == pe_contents(*pe),
{
    PeFile {
        optional_magic: pe.header.optional_header.map(|h| h.standard_fields.magic),
        exports: pe.exports
            .iter()
            .map(|e| PeExport { name: e.name.map(|n| n.to_string()), rva: e.rva as u64 })
            .collect(),
    }
}

// ---------------------------------------------------------------------------
// The function inventory
// ---------------------------------------------------------------------------
/// Whether the type of a symbol is that of a function: the low four bits
/// of `st_info` are 2.
pub open spec fn is_function_info(info: u8) -> bool {
    info & 0xf == 2
}

/// Whether an ELF symbol is kept: it is a function, its size is not zero
/// and its name resolves.
pub open spec fn elf_symbol_kept(symbol: ElfSymbolView) -> bool {
    is_function_info(symbol.info) && symbol.size != 0 && symbol.name is Some
}

/// The function symbols among the first `n` entries of an ELF symbol table.
pub open spec fn elf_functions_upto(symbols: Seq<ElfSymbolView>, n: nat) -> Seq<FunctionSymbolView>
    decreases n,
{
    if n == 0 {
        Seq::empty()
    } else if elf_symbol_kept(symbols[n - 1]) {
        elf_functions_upto(symbols, (n - 1) as nat).push(
            FunctionSymbolView {
                name: symbols[n - 1].name->0,
                start: symbols[n - 1].value,
                size: symbols[n - 1].size,
            },
        )
    } else {
        elf_functions_upto(symbols, (n - 1) as nat)
    }
}

/// The function symbols of an ELF symbol table, in its order.
pub open spec fn elf_functions(symbols: Seq<ElfSymbolView>) -> Seq<FunctionSymbolView> {
    elf_functions_upto(symbols, symbols.len())
}

/// The function symbols of an ELF symbol table: every entry that is a
/// function with a size above zero and a name that resolves, in the order
/// of the table.
pub fn collect_elf(symbols: &Vec<ElfSymbol>) -> (funs: Vec<FunctionSymbol>)
    ensures
        views(funs@) == elf_functions(views(symbols@)),
{
    let mut funs: Vec<FunctionSymbol> = Vec::new();
    let mut i: usize = 0;
    while i < symbols.len()
        invariant
            i <= symbols.len(),
            views(funs@) == elf_functions_upto(views(symbols@), i as nat),
        decreases symbols.len() - i,
    {
        let symbol = &symbols[i];
        if symbol.info & 0xf == 2 && symbol.size != 0 {
            match &symbol.name {
                Some(name) => {
                    funs.push(
                        FunctionSymbol { name: name.clone(), start: symbol.value, size: symbol.size },
                    );
                },
                None => {},
            }
        }
        i = i + 1;
        assert(views(funs@) =~= elf_functions_upto(views(symbols@), i as nat));
    }
    funs
}

/// The name of an export: its own, or `ord_` and its address in decimal
/// where it has none.
pub open spec fn export_name(export: PeExportView) -> Seq<char> {
    match export.name {
        Some(name) => name,
        None => "ord_"@ + decimal(export.rva as nat),
    }
}

/// The function symbols of the exports of a PE file: one for each export,
/// with size zero.
pub open spec fn pe_functions(exports: Seq<PeExportView>) -> Seq<FunctionSymbolView> {
    Seq::new(
        exports.len(),
        |i: int| FunctionSymbolView { name: export_name(exports[i]), start: exports[i].rva, size: 0 },
    )
}

/// The function symbols of the exports of a PE file: one for each export,
/// named by the export or `ord_<rva>`, starting at its address, with size
/// zero because the export table tells no length.
pub fn collect_pe(exports: &Vec<PeExport>) -> (funs: Vec<FunctionSymbol>)
    ensures
        views(funs@) == pe_functions(views(exports@)),
{
    let mut funs: Vec<FunctionSymbol> = Vec::new();
    let mut i: usize = 0;
    while i < exports.len()
        invariant
            i <= exports.len(),
            funs.len() == i,
            forall|k: int| 0 <= k < i ==> (#[trigger] funs@[k])@ == pe_functions(views(exports@))[k],
        decreases exports.len() - i,
    {
        let export = &exports[i];
        let name = match &export.name {
            Some(name) => name.clone(),
            None => {
                let mut name = String::from_str("ord_");
                push_decimal(&mut name, export.rva);
                name
            },
        };
        funs.push(FunctionSymbol { name, start: export.rva, size: 0 });
        i = i + 1;
    }
    assert(views(funs@) =~= pe_functions(views(exports@)));
    funs
}

/// The width of a PE image from the magic number of its optional header:
/// 64 for `0x20b` and where there is no optional header, else 32.
pub open spec fn pe_bits_of(magic: Option<u16>) -> u8 {
    match magic {
        Some(m) => if m == 0x20b {
            64
        } else {
            32
        },
        None => 64,
    }
}

/// The width of a PE image from the magic number of its optional header.
pub fn pe_bits(magic: Option<u16>) -> (bits: u8)
    ensures
        bits == pe_bits_of(magic),
{
    match magic {
        Some(m) => if m == 0x20b {
            64
        } else {
            32
        },
        None => 64,
    }
}

/// The width of an ELF image from its class.
pub open spec fn elf_bits_of(is_64: bool) -> u8 {
    if is_64 {
        64
    } else {
        32
    }
}

/// The width of an ELF image from its class: 64 for the 64-bit class, else
/// 32.
pub fn elf_bits(is_64: bool) -> (bits: u8)
    ensures
        bits == elf_bits_of(is_64),
{
    if is_64 {
        64
    } else {
        32
    }
}

/// What loading the bytes of a file gives.
///
/// An ELF file gives its function symbols and the width of its class; a PE
/// file gives its exports and the width that its optional header tells.
/// Everything else is a format error: bytes that the parser refuses, and
/// bytes that it takes for any other container. The architecture tag is
/// always `x86`, and the image holds all the bytes of the file.
pub open spec fn loaded(path: Seq<char>, bytes: Seq<u8>) -> Result<BinaryImageView, ErrorKind> {
    match parsing(bytes) {
        None => Err(ErrorKind::Format),
        Some(Parsed::Elf(elf)) => Ok(
            BinaryImageView {
                path,
                arch: "x86"@,
                bits: elf_bits_of(elf_contents(elf).is_64),
                functions: elf_functions(elf_contents(elf).symbols),
                data: bytes,
            },
        ),
        Some(Parsed::Pe(pe)) => Ok(
            BinaryImageView {
                path,
                arch: "x86"@,
                bits: pe_bits_of(pe_contents(pe).optional_magic),
                functions: pe_functions(pe_contents(pe).exports),
                data: bytes,
            },
        ),
        Some(_) => Err(ErrorKind::Format),
    }
}

/// The model of the outcome of [`load`].
pub open spec fn outcome_of(r: Result<BinaryImage, ErrorKind>) -> Result<BinaryImageView, ErrorKind> {
    match r {
        Ok(image) => Ok(image@),
        Err(e) => Err(e),
    }
}

/// Builds the image of an object file from its bytes; `path` tells where
/// the bytes came from.
pub fn load(path: &str, data: Vec<u8>) -> (r: Result<BinaryImage, ErrorKind>)
    ensures
        outcome_of(r) == loaded(path@, data@),
        r matches Err(e) ==> e == ErrorKind::Format,
{
    let (bits, functions) = match parse_object(data.as_slice()) {
        Err(_) => {
            return Err(ErrorKind::Format);
        },
        Ok(Parsed::Elf(elf)) => {
            let file = read_elf(&elf);
            (elf_bits(file.is_64), collect_elf(&file.symbols))
        },
        Ok(Parsed::Pe(pe)) => {
            let file = read_pe(&pe);
            (pe_bits(file.optional_magic), collect_pe(&file.exports))
        },
        Ok(_) => {
            return Err(ErrorKind::Format);
        },
    };
    Ok(BinaryImage { path: String::from_str(path), arch: String::from_str("x86"), bits, functions, data })
}

} // verus!
