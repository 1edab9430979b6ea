//! Reading symbol and relocation tables out of section bytes, looking names up
//! in string tables, and framing sections into a new ELF.
use vstd::prelude::*;
use vstd::utf8::{decode_utf8, valid_utf8};

use crate::constants::{MIPS_DATA_START_ADDR, MIPS_TEXT_START_ADDR};
use crate::elf_def::{section_views, sym_bytes, Elf, Elf32Header, Elf32ProgramHeader, Elf32SectionHeader, Elf32Sym, ElfType, RelocationEntry, RelocationEntryType};
use crate::words::{half_from_be, half_from_bytes, word_at, word_from_bytes};

verus! {

/// The symbol stored at entry `i` of the table `bytes`.
pub open spec fn sym_at(bytes: Seq<u8>, i: int) -> Elf32Sym {
    let k = 16 * i;
    Elf32Sym {
        st_name: word_at(bytes, k),
        st_value: word_at(bytes, k + 4),
        st_size: word_at(bytes, k + 8),
        st_info: bytes[k + 12],
        st_other: bytes[k + 13],
        st_shndx: half_from_be(bytes[k + 14], bytes[k + 15]),
    }
}

/// The symbols of the table `bytes`: one per whole 16-byte entry.
pub open spec fn symbols_of(bytes: Seq<u8>) -> Seq<Elf32Sym> {
    Seq::new((bytes.len() / 16) as nat, |i: int| sym_at(bytes, i))
}

/// The bytes of a table of symbols, one entry after another.
pub open spec fn syms_bytes(syms: Seq<Elf32Sym>) -> Seq<u8>
    decreases syms.len(),
{
    if syms.len() == 0 {
        Seq::empty()
    } else {
        syms_bytes(syms.drop_last()) + sym_bytes(syms.last())
    }
}

/// Parses a symbol table: each whole 16-byte entry, in order.
pub fn parse_elf_symbols(bytes: &Vec<u8>) -> (syms: Vec<Elf32Sym>)
    ensures
        syms@ == symbols_of(bytes@),
{
    let n = bytes.len() / 16;
    let mut syms: Vec<Elf32Sym> = Vec::new();
    let mut i: usize = 0;
    while i < n
        invariant
            n == bytes@.len() / 16,
            i <= n,
            syms@ == symbols_of(bytes@).subrange(0, i as int),
        decreases n - i,
    {
        assert(16 * i + 16 <= bytes@.len()) by (nonlinear_arith)
            requires i < n, n == bytes@.len() / 16;
        assert(bytes@.len() == bytes.len());
        let k: usize = 16 * i;
        let sym = Elf32Sym {
            st_name: word_from_bytes(bytes[k], bytes[k + 1], bytes[k + 2], bytes[k + 3]),
            st_value: word_from_bytes(bytes[k + 4], bytes[k + 5], bytes[k + 6], bytes[k + 7]),
            st_size: word_from_bytes(bytes[k + 8], bytes[k + 9], bytes[k + 10], bytes[k + 11]),
            st_info: bytes[k + 12],
            st_other: bytes[k + 13],
            st_shndx: half_from_bytes(bytes[k + 14], bytes[k + 15]),
        };
        syms.push(sym);
        assert(symbols_of(bytes@).subrange(0, i + 1) =~= symbols_of(bytes@).subrange(0, i as int).push(sym));
        i = i + 1;
    }
    assert(symbols_of(bytes@).subrange(0, n as int) =~= symbols_of(bytes@));
    syms
}

/// Serialises a table of symbols.
pub fn symbols_to_bytes(syms: &Vec<Elf32Sym>) -> (bytes: Vec<u8>)
    ensures
        bytes@ == syms_bytes(syms@),
{
    let mut bytes: Vec<u8> = Vec::new();
    let mut i: usize = 0;
    while i < syms.len()
        invariant
            i <= syms.len(),
            bytes@ == syms_bytes(syms@.subrange(0, i as int)),
        decreases syms.len() - i,
    {
        let b = syms[i].to_bytes();
        let mut j: usize = 0;
        let ghost before = bytes@;
        while j < b.len()
            invariant
                j <= b.len(),
                bytes@ == before + b@.subrange(0, j as int),
            decreases b.len() - j,
        {
            bytes.push(b[j]);
            assert(b@.subrange(0, j + 1) =~= b@.subrange(0, j as int).push(b@[j as int]));
            j = j + 1;
        }
        assert(b@.subrange(0, b.len() as int) =~= b@);
        assert(syms@.subrange(0, i + 1).drop_last() =~= syms@.subrange(0, i as int));
        i = i + 1;
    }
    assert(syms@.subrange(0, syms.len() as int) =~= syms@);
    bytes
}

/// A table serialised from symbols has 16 bytes per symbol, and each entry
/// holds the bytes of its symbol.
pub proof fn lemma_syms_bytes_layout(syms: Seq<Elf32Sym>)
    ensures
        syms_bytes(syms).len() == 16 * syms.len(),
        forall|i: int, k: int| 0 <= i < syms.len() && 0 <= k < 16 ==>
            #[trigger] syms_bytes(syms)[16 * i + k] == #[trigger] sym_bytes(syms[i])[k],
    decreases syms.len(),
{
    if syms.len() > 0 {
        let init = syms.drop_last();
        lemma_syms_bytes_layout(init);
        assert forall|i: int, k: int| 0 <= i < syms.len() && 0 <= k < 16 implies
            #[trigger] syms_bytes(syms)[16 * i + k] == #[trigger] sym_bytes(syms[i])[k] by {
            if i < syms.len() - 1 {
                assert(syms[i] == init[i]);
                assert(syms_bytes(init)[16 * i + k] == sym_bytes(init[i])[k]);
            }
        }
    }
}

/// Parsing a serialised table gives back its symbols.
pub proof fn lemma_symbols_roundtrip(syms: Seq<Elf32Sym>)
    ensures
        symbols_of(syms_bytes(syms)) == syms,
{
    lemma_syms_bytes_layout(syms);
    let bytes = syms_bytes(syms);
    assert(bytes.len() / 16 == syms.len()) by (nonlinear_arith)
        requires bytes.len() == 16 * syms.len();
    assert forall|i: int| 0 <= i < syms.len() implies #[trigger] sym_at(bytes, i) == syms[i] by {
        let s = syms[i];
        let sb = sym_bytes(s);
        assert forall|k: int| 0 <= k < 16 implies bytes[16 * i + k] == #[trigger] sb[k] by {}
        assert(bytes[16 * i] == sb[0]);
        assert(bytes[16 * i + 1] == sb[1]);
        assert(bytes[16 * i + 2] == sb[2]);
        assert(bytes[16 * i + 3] == sb[3]);
        assert(bytes[16 * i + 4] == sb[4]);
        assert(bytes[16 * i + 5] == sb[5]);
        assert(bytes[16 * i + 6] == sb[6]);
        assert(bytes[16 * i + 7] == sb[7]);
        assert(bytes[16 * i + 8] == sb[8]);
        assert(bytes[16 * i + 9] == sb[9]);
        assert(bytes[16 * i + 10] == sb[10]);
        assert(bytes[16 * i + 11] == sb[11]);
        assert(bytes[16 * i + 12] == sb[12]);
        assert(bytes[16 * i + 13] == sb[13]);
        assert(bytes[16 * i + 14] == sb[14]);
        assert(bytes[16 * i + 15] == sb[15]);
        crate::words::lemma_word_roundtrip(s.st_name);
        crate::words::lemma_word_roundtrip(s.st_value);
        crate::words::lemma_word_roundtrip(s.st_size);
        crate::words::lemma_half_roundtrip(s.st_shndx);
    }
    assert(symbols_of(bytes) =~= syms);
}


/// The relocation entry stored at entry `i` of the table `bytes`.
pub open spec fn rel_at(bytes: Seq<u8>, i: int) -> RelocationEntry {
    let info = word_at(bytes, 8 * i + 4);
    RelocationEntry {
        r_offset: word_at(bytes, 8 * i),
        r_sym: info >> 8u32,
        r_type: RelocationEntryType::of_code((info & 0xFFu32) as u8),
    }
}

/// The entries of the relocation table `bytes`: one per whole 8-byte entry.
pub open spec fn rels_of(bytes: Seq<u8>) -> Seq<RelocationEntry> {
    Seq::new((bytes.len() / 8) as nat, |i: int| rel_at(bytes, i))
}

/// The bytes of a relocation table, one entry after another.
pub open spec fn rels_bytes(rels: Seq<RelocationEntry>) -> Seq<u8>
    decreases rels.len(),
{
    if rels.len() == 0 {
        Seq::empty()
    } else {
        rels_bytes(rels.drop_last()) + crate::elf_def::rel_bytes(rels.last())
    }
}

/// Parses a relocation table: each whole 8-byte entry, in order.
pub fn parse_rel_info(bytes: &Vec<u8>) -> (rels: Vec<RelocationEntry>)
    ensures
        rels@ == rels_of(bytes@),
{
    let n = bytes.len() / 8;
    let mut rels: Vec<RelocationEntry> = Vec::new();
    let mut i: usize = 0;
    while i < n
        invariant
            n == bytes@.len() / 8,
            i <= n,
            rels@ == rels_of(bytes@).subrange(0, i as int),
        decreases n - i,
    {
        assert(8 * i + 8 <= bytes@.len()) by (nonlinear_arith)
            requires i < n, n == bytes@.len() / 8;
        assert(bytes@.len() == bytes.len());
        let k: usize = 8 * i;
        let offset = word_from_bytes(bytes[k], bytes[k + 1], bytes[k + 2], bytes[k + 3]);
        let info = word_from_bytes(bytes[k + 4], bytes[k + 5], bytes[k + 6], bytes[k + 7]);
        let entry = RelocationEntry {
            r_offset: offset,
            r_sym: info >> 8,
            r_type: RelocationEntryType::from_code((info & 0xFF) as u8),
        };
        rels.push(entry);
        assert(rels_of(bytes@).subrange(0, i + 1) =~= rels_of(bytes@).subrange(0, i as int).push(entry));
        i = i + 1;
    }
    assert(rels_of(bytes@).subrange(0, n as int) =~= rels_of(bytes@));
    rels
}

/// Serialises a relocation table.
pub fn rels_to_bytes(rels: &Vec<RelocationEntry>) -> (bytes: Vec<u8>)
    ensures
        bytes@ == rels_bytes(rels@),
{
    let mut bytes: Vec<u8> = Vec::new();
    let mut i: usize = 0;
    while i < rels.len()
        invariant
            i <= rels.len(),
            bytes@ == rels_bytes(rels@.subrange(0, i as int)),
        decreases rels.len() - i,
    {
        let b = rels[i].to_bytes();
        let mut j: usize = 0;
        let ghost before = bytes@;
        while j < b.len()
            invariant
                j <= b.len(),
                bytes@ == before + b@.subrange(0, j as int),
            decreases b.len() - j,
        {
            bytes.push(b[j]);
            assert(b@.subrange(0, j + 1) =~= b@.subrange(0, j as int).push(b@[j as int]));
            j = j + 1;
        }
        assert(b@.subrange(0, b.len() as int) =~= b@);
        assert(rels@.subrange(0, i + 1).drop_last() =~= rels@.subrange(0, i as int));
        i = i + 1;
    }
    assert(rels@.subrange(0, rels.len() as int) =~= rels@);
    bytes
}

/// A relocation table serialised from entries has 8 bytes per entry, and each
/// entry holds the bytes of its relocation.
pub proof fn lemma_rels_bytes_layout(rels: Seq<RelocationEntry>)
    ensures
        rels_bytes(rels).len() == 8 * rels.len(),
        forall|i: int, k: int| 0 <= i < rels.len() && 0 <= k < 8 ==>
            #[trigger] rels_bytes(rels)[8 * i + k] == #[trigger] crate::elf_def::rel_bytes(rels[i])[k],
    decreases rels.len(),
{
    if rels.len() > 0 {
        let init = rels.drop_last();
        lemma_rels_bytes_layout(init);
        assert forall|i: int, k: int| 0 <= i < rels.len() && 0 <= k < 8 implies
            #[trigger] rels_bytes(rels)[8 * i + k] == #[trigger] crate::elf_def::rel_bytes(rels[i])[k] by {
            if i < rels.len() - 1 {
                assert(rels[i] == init[i]);
                assert(rels_bytes(init)[8 * i + k] == crate::elf_def::rel_bytes(init[i])[k]);
            }
        }
    }
}

/// Parsing a serialised relocation table gives back its entries, when each
/// symbol index fits the 24 bits the format gives it and no type is kept as
/// `Other` with a code that names a type.
pub proof fn lemma_rels_roundtrip(rels: Seq<RelocationEntry>)
    requires
        forall|i: int| 0 <= i < rels.len() ==> (#[trigger] rels[i]).r_sym < 0x1000000,
        forall|i: int| 0 <= i < rels.len() ==> ((#[trigger] rels[i]).r_type matches RelocationEntryType::Other(k) ==> k > 12),
    ensures
        rels_of(rels_bytes(rels)) == rels,
{
    lemma_rels_bytes_layout(rels);
    let bytes = rels_bytes(rels);
    assert(bytes.len() / 8 == rels.len()) by (nonlinear_arith)
        requires bytes.len() == 8 * rels.len();
    assert forall|i: int| 0 <= i < rels.len() implies #[trigger] rel_at(bytes, i) == rels[i] by {
        let e = rels[i];
        let eb = crate::elf_def::rel_bytes(e);
        assert forall|k: int| 0 <= k < 8 implies bytes[8 * i + k] == #[trigger] eb[k] by {}
        assert(bytes[8 * i] == eb[0]);
        assert(bytes[8 * i + 1] == eb[1]);
        assert(bytes[8 * i + 2] == eb[2]);
        assert(bytes[8 * i + 3] == eb[3]);
        assert(bytes[8 * i + 4] == eb[4]);
        assert(bytes[8 * i + 5] == eb[5]);
        assert(bytes[8 * i + 6] == eb[6]);
        assert(bytes[8 * i + 7] == eb[7]);
        crate::words::lemma_word_roundtrip(e.r_offset);
        let info = crate::elf_def::rel_info(e);
        crate::words::lemma_word_roundtrip(info);
        let sym = e.r_sym;
        let c = e.r_type.code_of();
        assert(((((sym << 8u32) | (c as u32)) as u32) >> 8u32) == sym
            && (((((sym << 8u32) | (c as u32)) as u32) & 0xFFu32) as u8) == c) by (bit_vector)
            requires sym < 0x1000000u32;
        crate::elf_def::lemma_relocation_code_roundtrip(c, e.r_type);
    }
    assert(rels_of(bytes) =~= rels);
}

/// The bytes of the null-terminated string that starts at `start` (to the end
/// of `s` when no terminator follows; empty when `start` lies past the end).
pub open spec fn cstr_from(s: Seq<u8>, start: int) -> Seq<u8>
    decreases s.len() - start,
{
    if start < 0 || start >= s.len() || s[start] == 0 {
        Seq::empty()
    } else {
        seq![s[start]] + cstr_from(s, start + 1)
    }
}

/// Copies the null-terminated string that starts at `start`.
pub fn cstr_bytes(s: &Vec<u8>, start: usize) -> (r: Vec<u8>)
    ensures
        r@ == cstr_from(s@, start as int),
{
    let mut out: Vec<u8> = Vec::new();
    let mut i = start;
    while i < s.len() && s[i] != 0
        invariant
            start <= i,
            cstr_from(s@, start as int) == out@ + cstr_from(s@, i as int),
        decreases s.len() - i,
    {
        let ghost before = out@;
        out.push(s[i]);
        assert(before + cstr_from(s@, i as int) =~= out@ + cstr_from(s@, i + 1));
        i = i + 1;
    }
    assert(out@ + cstr_from(s@, i as int) =~= out@);
    out
}

/// The text `String::from_utf8_lossy` makes of `bytes`.
pub uninterp spec fn lossy_text(bytes: Seq<u8>) -> Seq<char>;

/// `String::from_utf8_lossy(..).into_owned()`: valid UTF-8 is decoded as it is,
/// and each invalid sequence becomes U+FFFD. What it makes of invalid input is
/// not stated beyond the name.
#[verifier::external_body]
fn utf8_lossy(bytes: &Vec<u8>) -> (s: String)
    ensures
        s@ == lossy_text(bytes@),
        valid_utf8(bytes@) ==> s@ == decode_utf8(bytes@),
{
    String::from_utf8_lossy(bytes).into_owned()
}

/// The name that `st_name` (or any string-table offset) denotes in `strtab`.
pub open spec fn linked_name(strtab: Seq<u8>, offset: u32) -> Seq<char> {
    lossy_text(cstr_from(strtab, offset as int))
}

impl Elf32Sym {
    /// The symbol's name, read from the string table `strtab`.
    pub fn get_linked_name(&self, strtab: &Vec<u8>) -> (name: String)
        ensures
            name@ == linked_name(strtab@, self.st_name),
    {
        let bytes = cstr_bytes(strtab, self.st_name as usize);
        utf8_lossy(&bytes)
    }
}

/// The name a string-table offset denotes, as a `String`.
pub fn name_at(strtab: &Vec<u8>, offset: u32) -> (name: String)
    ensures
        name@ == linked_name(strtab@, offset),
{
    let bytes = cstr_bytes(strtab, offset as usize);
    utf8_lossy(&bytes)
}

/// The index (in the section header table) of the first section whose name in
/// `shstrtab` is `target`.
pub fn find_target_section_index(section_header_table: &Vec<Elf32SectionHeader>, shstrtab: &Vec<u8>, target: &str)
    -> (r: Option<usize>)
    ensures
        match r {
            Some(i) => i < section_header_table@.len()
                && linked_name(shstrtab@, section_header_table@[i as int].sh_name) == target@
                && forall|j: int| 0 <= j < i ==> linked_name(shstrtab@, #[trigger] section_header_table@[j].sh_name) != target@,
            None => forall|j: int| 0 <= j < section_header_table@.len()
                ==> linked_name(shstrtab@, #[trigger] section_header_table@[j].sh_name) != target@,
        },
{
    let wanted = String::from_str(target);
    let mut i: usize = 0;
    while i < section_header_table.len()
        invariant
            i <= section_header_table@.len(),
            wanted@ == target@,
            forall|j: int| 0 <= j < i ==> linked_name(shstrtab@, #[trigger] section_header_table@[j].sh_name) != target@,
        decreases section_header_table.len() - i,
    {
        let name = name_at(shstrtab, section_header_table[i].sh_name);
        if name == wanted {
            return Some(i);
        }
        i = i + 1;
    }
    None
}

/// The value of the first global symbol named `name`.
pub fn find_global_symbol_address(symbol_table: &Vec<Elf32Sym>, strtab: &Vec<u8>, name: &str) -> (r: Option<u32>)
    ensures
        r == global_address(symbol_table@, strtab@, name@),
        match r {
            Some(v) => exists|i: int| 0 <= i < symbol_table@.len()
                && (#[trigger] symbol_table@[i]).st_info >> 4 == 1
                && linked_name(strtab@, symbol_table@[i].st_name) == name@
                && symbol_table@[i].st_value == v
                && forall|j: int| 0 <= j < i ==> !((#[trigger] symbol_table@[j]).st_info >> 4 == 1
                    && linked_name(strtab@, symbol_table@[j].st_name) == name@),
            None => forall|j: int| 0 <= j < symbol_table@.len() ==> !((#[trigger] symbol_table@[j]).st_info >> 4 == 1
                && linked_name(strtab@, symbol_table@[j].st_name) == name@),
        },
{
    let wanted = String::from_str(name);
    let mut i: usize = 0;
    while i < symbol_table.len()
        invariant
            i <= symbol_table@.len(),
            wanted@ == name@,
            forall|j: int| 0 <= j < i ==> !((#[trigger] symbol_table@[j]).st_info >> 4 == 1
                && linked_name(strtab@, symbol_table@[j].st_name) == name@),
        decreases symbol_table.len() - i,
    {
        let sym = symbol_table[i];
        if sym.get_bind() == 1 {
            let n = sym.get_linked_name(strtab);
            if n == wanted {
                proof {
                    lemma_first_global_named(symbol_table@, strtab@, name@, i as int);
                    assert(sym == symbol_table@[i as int]);
                }
                return Some(sym.st_value);
            }
        }
        i = i + 1;
    }
    proof { lemma_first_global_named(symbol_table@, strtab@, name@, i as int); }
    None
}


/// Total size of the first `k` sections.
pub open spec fn sizes_before(secs: Seq<Seq<u8>>, k: int) -> int
    decreases k,
{
    if k <= 0 || k > secs.len() {
        0
    } else {
        sizes_before(secs, k - 1) + secs[k - 1].len()
    }
}

/// Where the contents begin: after the file header and the two program headers.
pub open spec fn contents_start() -> int {
    116int
}

/// The file offset of section `k` (counting from the first after the null section).
pub open spec fn section_offset(secs: Seq<Seq<u8>>, k: int) -> int {
    contents_start() + sizes_before(secs, k)
}

/// The null section header.
pub open spec fn null_section_header() -> Elf32SectionHeader {
    Elf32SectionHeader {
        sh_name: 0, sh_type: 0, sh_flags: 0, sh_addr: 0, sh_offset: 0, sh_size: 0, sh_link: 0,
        sh_info: 0, sh_addralign: 0, sh_entsize: 0,
    }
}

/// The header given to section `k` of `secs`: a string table when it is the
/// last and `last_is_shstrtab` holds, program data otherwise.
pub open spec fn framed_section_header(secs: Seq<Seq<u8>>, k: int, last_is_shstrtab: bool) -> Elf32SectionHeader {
    Elf32SectionHeader {
        sh_name: 0,
        sh_type: if last_is_shstrtab && k == secs.len() - 1 { 3 } else { 1 },
        sh_flags: 0,
        sh_addr: 0,
        sh_offset: section_offset(secs, k) as u32,
        sh_size: secs[k].len() as u32,
        sh_link: 0,
        sh_info: 0,
        sh_addralign: 0,
        sh_entsize: 0,
    }
}

/// The loadable segment of section `k`, at `vaddr` with permissions `flags`.
pub open spec fn framed_segment(secs: Seq<Seq<u8>>, k: int, vaddr: u32, flags: u32) -> Elf32ProgramHeader {
    let size: u32 = if k < secs.len() { secs[k].len() as u32 } else { 0 };
    Elf32ProgramHeader {
        p_type: 1,
        p_offset: section_offset(secs, k) as u32,
        p_vaddr: vaddr,
        p_paddr: vaddr,
        p_filesz: size,
        p_memsz: size,
        p_flags: flags,
        p_align: 0x1000,
    }
}

/// The file header of a new ELF of type `t` framing `secs`.
pub open spec fn framed_file_header(secs: Seq<Seq<u8>>, t: ElfType, last_is_shstrtab: bool) -> Elf32Header {
    Elf32Header {
        e_ident: arbitrary(),
        e_type: if t == ElfType::Relocatable { 1 } else { 2 },
        e_machine: 8,
        e_version: 1,
        e_entry: if t == ElfType::Relocatable { 0 } else { 0x00400000 },
        e_phoff: 52,
        e_shoff: section_offset(secs, secs.len() as int) as u32,
        e_flags: 0x30000021,
        e_ehsize: 52,
        e_phentsize: 32,
        e_phnum: 2,
        e_shentsize: 40,
        e_shnum: (secs.len() + 1) as u16,
        e_shstrndx: if last_is_shstrtab { secs.len() as u16 } else { 0 },
    }
}

/// Whether `h` is the framed file header, its e_ident being the default one.
pub open spec fn is_framed_file_header(h: Elf32Header, secs: Seq<Seq<u8>>, t: ElfType, last_is_shstrtab: bool) -> bool {
    &&& h.e_ident@ == crate::elf_def::e_ident_default_spec()
    &&& h == Elf32Header { e_ident: h.e_ident, ..framed_file_header(secs, t, last_is_shstrtab) }
}

/// Frames `sections` (the sections after the null section, in order) into an
/// ELF of type `elf_type`: the contents follow the file header and the two
/// program headers (.text and .data, loaded at their conventional addresses),
/// and the section header table follows the contents. When `last_is_shstrtab`
/// holds, the last section is recorded as the section-name string table.
pub fn create_new_elf(sections: Vec<Vec<u8>>, elf_type: ElfType, last_is_shstrtab: bool) -> (elf: Elf)
    requires
        section_offset(sections.deep_view(), sections@.len() as int) <= u32::MAX,
        sections@.len() + 1 <= u16::MAX,
    ensures
        section_views(elf) == sections.deep_view(),
        is_framed_file_header(elf.file_header, sections.deep_view(), elf_type, last_is_shstrtab),
        elf.program_header_table@ == seq![
            framed_segment(sections.deep_view(), 0, 0x00400000, 0x5),
            framed_segment(sections.deep_view(), 1, 0x10010000, 0x6),
        ],
        elf.section_header_table@.len() == sections@.len() + 1,
        elf.section_header_table@[0] == null_section_header(),
        forall|k: int| 0 <= k < sections@.len() ==> #[trigger] elf.section_header_table@[k + 1]
            == framed_section_header(sections.deep_view(), k, last_is_shstrtab),
        crate::elf_file::laid_out(elf),
{
    let ghost secs = sections.deep_view();
    let n = sections.len();
    let mut sht: Vec<Elf32SectionHeader> = Vec::new();
    sht.push(Elf32SectionHeader {
        sh_name: 0, sh_type: 0, sh_flags: 0, sh_addr: 0, sh_offset: 0, sh_size: 0, sh_link: 0,
        sh_info: 0, sh_addralign: 0, sh_entsize: 0,
    });
    let mut offset: u32 = 116;
    let mut text_offset: u32 = 116;
    let mut data_offset: u32 = 116;
    let mut k: usize = 0;
    proof { lemma_sizes_monotone(secs, 0, n as int); }
    while k < n
        invariant
            n == sections@.len(),
            secs == sections.deep_view(),
            k <= n,
            section_offset(secs, n as int) <= u32::MAX,
            offset == section_offset(secs, k as int),
            k >= 1 ==> text_offset == section_offset(secs, 0),
            k == 0 ==> text_offset == 116,
            k >= 2 ==> data_offset == section_offset(secs, 1),
            sht@.len() == k + 1,
            sht@[0] == null_section_header(),
            forall|j: int| 0 <= j < k ==> #[trigger] sht@[j + 1] == framed_section_header(secs, j, last_is_shstrtab),
        decreases n - k,
    {
        proof { lemma_sizes_monotone(secs, k + 1, n as int); }
        let size = sections[k].len();
        assert(secs[k as int] == sections@[k as int]@);
        if k == 1 {
            data_offset = offset;
        }
        let last = last_is_shstrtab && k == n - 1;
        sht.push(Elf32SectionHeader {
            sh_name: 0,
            sh_type: if last { 3 } else { 1 },
            sh_flags: 0,
            sh_addr: 0,
            sh_offset: offset,
            sh_size: size as u32,
            sh_link: 0,
            sh_info: 0,
            sh_addralign: 0,
            sh_entsize: 0,
        });
        offset = offset + size as u32;
        k = k + 1;
    }
    if n < 2 {
        data_offset = offset;
    }
    let text_size: u32 = if n > 0 { sections[0].len() as u32 } else { 0 };
    let data_size: u32 = if n > 1 { sections[1].len() as u32 } else { 0 };
    proof {
        if n > 0 { assert(secs[0] == sections@[0]@); }
        if n > 1 { assert(secs[1] == sections@[1]@); }
    }
    let mut phs: Vec<Elf32ProgramHeader> = Vec::new();
    phs.push(Elf32ProgramHeader {
        p_type: 1, p_offset: text_offset, p_vaddr: MIPS_TEXT_START_ADDR, p_paddr: MIPS_TEXT_START_ADDR,
        p_filesz: text_size, p_memsz: text_size, p_flags: 0x5, p_align: 0x1000,
    });
    phs.push(Elf32ProgramHeader {
        p_type: 1, p_offset: data_offset, p_vaddr: MIPS_DATA_START_ADDR, p_paddr: MIPS_DATA_START_ADDR,
        p_filesz: data_size, p_memsz: data_size, p_flags: 0x6, p_align: 0x1000,
    });
    let is_rel = match elf_type {
        ElfType::Relocatable => true,
        ElfType::Executable => false,
    };
    let header = Elf32Header {
        e_ident: crate::elf_def::e_ident_default(),
        e_type: if is_rel { 1 } else { 2 },
        e_machine: 8,
        e_version: 1,
        e_entry: if is_rel { 0 } else { MIPS_TEXT_START_ADDR },
        e_phoff: 52,
        e_shoff: offset,
        e_flags: 0x30000021,
        e_ehsize: 52,
        e_phentsize: 32,
        e_phnum: 2,
        e_shentsize: 40,
        e_shnum: (n + 1) as u16,
        e_shstrndx: if last_is_shstrtab { n as u16 } else { 0 },
    };
    assert(phs@ =~= seq![framed_segment(secs, 0, 0x00400000, 0x5), framed_segment(secs, 1, 0x10010000, 0x6)]);
    proof {
        assert forall|j: int| 0 <= j < n implies #[trigger] sht@[j + 1].sh_offset == 116 + sizes_before(secs, j)
            && sht@[j + 1].sh_size == secs[j].len() by {
            lemma_sizes_monotone(secs, j, n as int);
            lemma_sizes_monotone(secs, j + 1, n as int);
            lemma_sizes_monotone(secs, 0, j);
        }
    }
    Elf { file_header: header, program_header_table: phs, sections, section_header_table: sht }
}

/// The total size of sections only grows as more are counted.
pub proof fn lemma_sizes_monotone(secs: Seq<Seq<u8>>, a: int, b: int)
    requires
        0 <= a <= b <= secs.len(),
    ensures
        sizes_before(secs, a) <= sizes_before(secs, b),
    decreases b - a,
{
    if a < b {
        lemma_sizes_monotone(secs, a, b - 1);
    }
}


/// Appends the bytes of `src`.
pub fn append_bytes(out: &mut Vec<u8>, src: &Vec<u8>)
    ensures
        final(out)@ == old(out)@ + src@,
{
    let ghost start = out@;
    let mut j: usize = 0;
    while j < src.len()
        invariant
            j <= src.len(),
            out@ == start + src@.subrange(0, j as int),
        decreases src.len() - j,
    {
        out.push(src[j]);
        assert(src@.subrange(0, j + 1) =~= src@.subrange(0, j as int).push(src@[j as int]));
        j = j + 1;
    }
    assert(src@.subrange(0, src.len() as int) =~= src@);
}

/// Appends `n` zero bytes.
pub fn append_zeros(out: &mut Vec<u8>, n: usize)
    ensures
        final(out)@ == old(out)@ + Seq::new(n as nat, |i: int| 0u8),
{
    let ghost start = out@;
    let mut j: usize = 0;
    while j < n
        invariant
            j <= n,
            out@ == start + Seq::new(j as nat, |i: int| 0u8),
        decreases n - j,
    {
        out.push(0u8);
        assert(Seq::new((j + 1) as nat, |i: int| 0u8) =~= Seq::new(j as nat, |i: int| 0u8).push(0u8));
        j = j + 1;
    }
}


/// The first global symbol at or after `start` whose name is `name`.
pub open spec fn first_global_named(syms: Seq<Elf32Sym>, strtab: Seq<u8>, name: Seq<char>, start: int) -> Option<int>
    decreases syms.len() - start,
{
    if start < 0 || start >= syms.len() {
        None
    } else if linked_name(strtab, syms[start].st_name) == name && syms[start].st_info >> 4 == 1 {
        Some(start)
    } else {
        first_global_named(syms, strtab, name, start + 1)
    }
}

/// The value of the first global symbol named `name`, if there is one.
pub open spec fn global_address(syms: Seq<Elf32Sym>, strtab: Seq<u8>, name: Seq<char>) -> Option<u32> {
    match first_global_named(syms, strtab, name, 0) {
        Some(i) => Some(syms[i].st_value),
        None => None,
    }
}

/// `first_global_named` finds the first match at or after `start`.
pub proof fn lemma_first_global_named(syms: Seq<Elf32Sym>, strtab: Seq<u8>, name: Seq<char>, start: int)
    requires
        0 <= start <= syms.len(),
        forall|j: int| 0 <= j < start ==> !(linked_name(strtab, (#[trigger] syms[j]).st_name) == name && syms[j].st_info >> 4 == 1),
    ensures
        first_global_named(syms, strtab, name, 0) == first_global_named(syms, strtab, name, start),
    decreases start,
{
    if start > 0 {
        lemma_first_global_named(syms, strtab, name, start - 1);
    }
}


/// A copy of `sections`.
pub fn copy_sections(sections: &Vec<Vec<u8>>) -> (copy: Vec<Vec<u8>>)
    ensures
        copy.deep_view() == sections.deep_view(),
{
    let mut copy: Vec<Vec<u8>> = Vec::new();
    let mut i: usize = 0;
    while i < sections.len()
        invariant
            i <= sections@.len(),
            copy@.len() == i,
            copy.deep_view() == sections.deep_view().subrange(0, i as int),
        decreases sections.len() - i,
    {
        let mut s: Vec<u8> = Vec::new();
        append_bytes(&mut s, &sections[i]);
        let ghost before = copy.deep_view();
        let ghost old_copy = copy@;
        copy.push(s);
        assert forall|j: int| 0 <= j < copy@.len() implies copy.deep_view()[j] == #[trigger] before.push(s@)[j] by {
            if j < i {
                assert(copy@[j] == old_copy[j]);
                assert(before[j] == old_copy[j]@);
            } else {
                assert(copy@[j] == s);
            }
        }
        assert(copy.deep_view() =~= before.push(s@));
        assert(sections.deep_view().subrange(0, i + 1) =~= sections.deep_view().subrange(0, i as int).push(sections@[i as int]@));
        i = i + 1;
    }
    assert(sections.deep_view().subrange(0, i as int) =~= sections.deep_view());
    copy
}

/// A copy of `elf`.
pub fn copy_elf(elf: &Elf) -> (copy: Elf)
    ensures
        copy.file_header == elf.file_header,
        copy.program_header_table@ == elf.program_header_table@,
        section_views(copy) == section_views(*elf),
        copy.section_header_table@ == elf.section_header_table@,
{
    let mut pht: Vec<Elf32ProgramHeader> = Vec::new();
    let mut i: usize = 0;
    while i < elf.program_header_table.len()
        invariant
            i <= elf.program_header_table@.len(),
            pht@ == elf.program_header_table@.subrange(0, i as int),
        decreases elf.program_header_table.len() - i,
    {
        pht.push(elf.program_header_table[i]);
        assert(elf.program_header_table@.subrange(0, i + 1) =~= elf.program_header_table@.subrange(0, i as int).push(elf.program_header_table@[i as int]));
        i = i + 1;
    }
    assert(elf.program_header_table@.subrange(0, i as int) =~= elf.program_header_table@);
    let mut sht: Vec<Elf32SectionHeader> = Vec::new();
    let mut k: usize = 0;
    while k < elf.section_header_table.len()
        invariant
            k <= elf.section_header_table@.len(),
            sht@ == elf.section_header_table@.subrange(0, k as int),
        decreases elf.section_header_table.len() - k,
    {
        sht.push(elf.section_header_table[k]);
        assert(elf.section_header_table@.subrange(0, k + 1) =~= elf.section_header_table@.subrange(0, k as int).push(elf.section_header_table@[k as int]));
        k = k + 1;
    }
    assert(elf.section_header_table@.subrange(0, k as int) =~= elf.section_header_table@);
    Elf {
        file_header: elf.file_header,
        program_header_table: pht,
        sections: copy_sections(&elf.sections),
        section_header_table: sht,
    }
}


/// The first section at or after `start` whose name in `shstrtab` is `name`.
pub open spec fn first_section_named(sht: Seq<Elf32SectionHeader>, shstrtab: Seq<u8>, name: Seq<char>, start: int) -> Option<int>
    decreases sht.len() - start,
{
    if start < 0 || start >= sht.len() {
        None
    } else if linked_name(shstrtab, sht[start].sh_name) == name {
        Some(start)
    } else {
        first_section_named(sht, shstrtab, name, start + 1)
    }
}

/// `first_section_named` finds the first match at or after `start`.
pub proof fn lemma_first_section_named(sht: Seq<Elf32SectionHeader>, shstrtab: Seq<u8>, name: Seq<char>, start: int)
    requires
        0 <= start <= sht.len(),
        forall|j: int| 0 <= j < start ==> linked_name(shstrtab, (#[trigger] sht[j]).sh_name) != name,
    ensures
        first_section_named(sht, shstrtab, name, 0) == first_section_named(sht, shstrtab, name, start),
    decreases start,
{
    if start > 0 {
        lemma_first_section_named(sht, shstrtab, name, start - 1);
    }
}

/// The index, in the section header table, of the section named .symtab
/// (found through the section-name table at `e_shstrndx`), if any.
pub open spec fn symtab_index_of(e: Elf) -> Option<int> {
    let k = e.file_header.e_shstrndx as int;
    first_section_named(e.section_header_table@, section_views(e)[k - 1], ".symtab"@, 0)
}

/// Whether the symbol table of `e` can be found: the section-name table is a
/// section, a section is named .symtab, and it is not the null section.
pub open spec fn symtab_findable(e: Elf) -> bool {
    let k = e.file_header.e_shstrndx as int;
    &&& 1 <= k <= section_views(e).len()
    &&& symtab_index_of(e) matches Some(i) && 1 <= i <= section_views(e).len()
}

/// The symbols of `e`'s .symtab.
pub open spec fn symtab_of(e: Elf) -> Seq<Elf32Sym> {
    symbols_of(section_views(e)[symtab_index_of(e)->0 - 1])
}

/// Finds and parses the symbol table of `e`.
pub(crate) fn find_symtab(e: &Elf) -> (r: (usize, Vec<Elf32Sym>))
    requires
        symtab_findable(*e),
    ensures
        r.0 as int == symtab_index_of(*e)->0,
        r.1@ == symtab_of(*e),
{
    let shstrndx: usize = e.file_header.e_shstrndx as usize;
    assert(section_views(*e)[shstrndx - 1] == e.sections@[shstrndx - 1]@);
    let found = find_target_section_index(&e.section_header_table, &e.sections[shstrndx - 1], ".symtab");
    proof {
        match found {
            Some(i) => { lemma_first_section_named(e.section_header_table@, e.sections@[shstrndx - 1]@, ".symtab"@, i as int); },
            None => { lemma_first_section_named(e.section_header_table@, e.sections@[shstrndx - 1]@, ".symtab"@, e.section_header_table@.len() as int); },
        }
    }
    let i = match found {
        Some(i) => i,
        None => 1,
    };
    assert(section_views(*e)[i - 1] == e.sections@[i - 1]@);
    let syms = parse_elf_symbols(&e.sections[i - 1]);
    (i, syms)
}

/// Whether the symbol table of `e` can be found (see `symtab_findable`).
pub fn symtab_found(e: &Elf) -> (b: bool)
    ensures
        b == symtab_findable(*e),
{
    let shstrndx: usize = e.file_header.e_shstrndx as usize;
    if shstrndx < 1 || shstrndx > e.sections.len() {
        return false;
    }
    assert(section_views(*e)[shstrndx - 1] == e.sections@[shstrndx - 1]@);
    let found = find_target_section_index(&e.section_header_table, &e.sections[shstrndx - 1], ".symtab");
    proof {
        match found {
            Some(i) => { lemma_first_section_named(e.section_header_table@, e.sections@[shstrndx - 1]@, ".symtab"@, i as int); },
            None => { lemma_first_section_named(e.section_header_table@, e.sections@[shstrndx - 1]@, ".symtab"@, e.section_header_table@.len() as int); },
        }
    }
    match found {
        Some(i) => 1 <= i && i <= e.sections.len(),
        None => false,
    }
}

/// Where the contents of `sections` end in a file made of them (see
/// `section_offset`), where that fits 32 bits.
pub fn contents_end(sections: &Vec<Vec<u8>>) -> (r: Option<u32>)
    ensures
        r is Some <==> section_offset(sections.deep_view(), sections@.len() as int) <= u32::MAX,
        r matches Some(v) ==> v == section_offset(sections.deep_view(), sections@.len() as int),
{
    let ghost secs = sections.deep_view();
    let mut end: u32 = 116;
    let mut i: usize = 0;
    while i < sections.len()
        invariant
            secs == sections.deep_view(),
            i <= sections@.len(),
            end as int == section_offset(secs, i as int),
        decreases sections.len() - i,
    {
        assert(secs[i as int] == sections@[i as int]@);
        let n: usize = sections[i].len();
        if n as u64 > (u32::MAX - end) as u64 {
            proof { lemma_sizes_monotone(secs, i + 1, secs.len() as int); }
            return None;
        }
        end = end + n as u32;
        i = i + 1;
    }
    Some(end)
}

} // verus!
