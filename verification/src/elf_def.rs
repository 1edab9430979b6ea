//! The ELF structures that make up relocatable and executable files, and their
//! big-endian serialisation.
use vstd::prelude::*;

use crate::words::{be_bytes_u16, be_bytes_u32, push_u16_be, push_u32_be};

verus! {

/// Required alignment of loadable MIPS segments.
pub const MIPS_ALIGNMENT: u32 = 0x1000;
/// EI_CLASS: 32-bit objects.
pub const EI_CLASS: u8 = 1;
/// EI_DATA: big-endian data.
pub const EI_DATA: u8 = 2;
/// EI_VERSION: the first version of the format.
pub const EI_VERSION: u8 = 1;
/// EI_OSABI: System V.
pub const EI_OSABI: u8 = 0;
/// EI_ABIVERSION: unused.
pub const EI_ABIVERSION: u8 = 0;
/// Size of e_ident.
pub const EI_NIDENT: usize = 16;
/// e_type of a relocatable object file.
pub const ET_REL: u16 = 1;
/// e_type of an executable.
pub const ET_EXEC: u16 = 2;
/// e_type given to freshly assembled files.
pub const E_TYPE_DEFAULT: u16 = 1;
/// e_machine of MIPS.
pub const E_MACHINE_DEFAULT: u16 = 8;
/// e_version before linking.
pub const E_VERSION_DEFAULT: u32 = 1;
/// e_entry before linking.
pub const E_ENTRY_DEFAULT: u32 = 0;
/// e_phoff: the program header table follows the 52-byte file header.
pub const E_PHOFF_DEFAULT: u32 = 52;
/// No reordering of code.
pub const EF_MIPS_NONREORDER: u32 = 0x00000001;
/// 32-bit class.
pub const EF_MIPS_ABI2: u32 = 0x00000020;
/// MIPS architecture level.
pub const EF_MIPS_ARCH: u32 = 0x30000000;
/// e_flags of every file made here.
pub const E_FLAGS_DEFAULT: u32 = 0x30000021;
/// Size of the file header.
pub const E_EHSIZE_DEFAULT: u16 = 52;
/// Size of a program header entry.
pub const E_PHENTSIZE_DEFAULT: u16 = 32;
/// Number of program headers: .text and .data.
pub const E_PHNUM_DEFAULT: u16 = 2;
/// Size of a section header entry.
pub const E_SHENTSIZE_DEFAULT: u16 = 40;
/// Number of section headers of an executable (null, .text, .data, .symtab, .strtab, .line, .shstrtab).
pub const E_SHNUM_DEFAULT: u16 = 7;
/// Index of .shstrtab in an executable.
pub const E_SHSTRNDX_DEFAULT: u16 = 6;
/// Number of section headers of a relocatable file (the executable's, plus .rel).
pub const E_SHNUM_DEFAULT_REL: u16 = 8;
/// Index of .shstrtab in a relocatable file.
pub const E_SHSTRNDX_DEFAULT_REL: u16 = 7;
/// A loadable segment.
pub const PT_LOAD: u32 = 1;
/// Segment flag: executable.
pub const PF_X: u32 = 0x1;
/// Segment flag: writable.
pub const PF_W: u32 = 0x2;
/// Segment flag: readable.
pub const PF_R: u32 = 0x4;
/// Symbol type: data object.
pub const STT_OBJECT: u8 = 1;
/// Symbol type: function.
pub const STT_FUNC: u8 = 2;
/// Size of a symbol table entry.
pub const SH_ENTSIZE_SYMTAB: u32 = 16;
/// Section type: inactive.
pub const SHT_NULL: u32 = 0;
/// Section type: program data.
pub const SHT_PROGBITS: u32 = 1;
/// Section type: symbol table.
pub const SHT_SYMTAB: u32 = 2;
/// Section type: string table.
pub const SHT_STRTAB: u32 = 3;
/// Section flag: writable.
pub const SHF_WRITE: u32 = 0x1;
/// Section flag: occupies memory.
pub const SHF_ALLOC: u32 = 0x2;
/// Section flag: executable.
pub const SHF_EXECINSTR: u32 = 0x4;
/// Section flag: null-terminated strings.
pub const SHF_STRINGS: u32 = 0x20;

/// The e_ident every file made here carries: magic, 32-bit, big-endian, version 1, System V.
pub open spec fn e_ident_default_spec() -> Seq<u8> {
    seq![0x7Fu8, 0x45u8, 0x4Cu8, 0x46u8, 1u8, 2u8, 1u8, 0u8, 0u8, 0u8, 0u8, 0u8, 0u8, 0u8, 0u8, 0u8]
}

/// The e_ident every file made here carries.
pub fn e_ident_default() -> (id: [u8; 16])
    ensures
        id@ == e_ident_default_spec(),
{
    let id: [u8; 16] = [0x7F, 0x45, 0x4C, 0x46, 1, 2, 1, 0, 0, 0, 0, 0, 0, 0, 0, 0];
    assert(id@ =~= e_ident_default_spec());
    id
}

/// The ELF file header.
#[derive(Clone, Copy, Debug)]
pub struct Elf32Header {
    pub e_ident: [u8; 16],
    pub e_type: u16,
    pub e_machine: u16,
    pub e_version: u32,
    pub e_entry: u32,
    pub e_phoff: u32,
    pub e_shoff: u32,
    pub e_flags: u32,
    pub e_ehsize: u16,
    pub e_phentsize: u16,
    pub e_phnum: u16,
    pub e_shentsize: u16,
    pub e_shnum: u16,
    pub e_shstrndx: u16,
}

/// The serialised file header: each field in order, big-endian.
pub open spec fn header_bytes(h: Elf32Header) -> Seq<u8> {
    h.e_ident@ + be_bytes_u16(h.e_type) + be_bytes_u16(h.e_machine) + be_bytes_u32(h.e_version)
        + be_bytes_u32(h.e_entry) + be_bytes_u32(h.e_phoff) + be_bytes_u32(h.e_shoff)
        + be_bytes_u32(h.e_flags) + be_bytes_u16(h.e_ehsize) + be_bytes_u16(h.e_phentsize)
        + be_bytes_u16(h.e_phnum) + be_bytes_u16(h.e_shentsize) + be_bytes_u16(h.e_shnum)
        + be_bytes_u16(h.e_shstrndx)
}

impl Elf32Header {
    /// The header's bytes, as written to a file.
    pub fn to_bytes(&self) -> (bytes: Vec<u8>)
        ensures
            bytes@ == header_bytes(*self),
            bytes@.len() == 52,
    {
        let mut bytes: Vec<u8> = Vec::new();
        let mut i: usize = 0;
        while i < 16
            invariant
                i <= 16,
                bytes@ == self.e_ident@.subrange(0, i as int),
            decreases 16 - i,
        {
            bytes.push(self.e_ident[i]);
            assert(self.e_ident@.subrange(0, i + 1) =~= self.e_ident@.subrange(0, i as int).push(self.e_ident@[i as int]));
            i = i + 1;
        }
        assert(self.e_ident@.subrange(0, 16) =~= self.e_ident@);
        push_u16_be(&mut bytes, self.e_type);
        push_u16_be(&mut bytes, self.e_machine);
        push_u32_be(&mut bytes, self.e_version);
        push_u32_be(&mut bytes, self.e_entry);
        push_u32_be(&mut bytes, self.e_phoff);
        push_u32_be(&mut bytes, self.e_shoff);
        push_u32_be(&mut bytes, self.e_flags);
        push_u16_be(&mut bytes, self.e_ehsize);
        push_u16_be(&mut bytes, self.e_phentsize);
        push_u16_be(&mut bytes, self.e_phnum);
        push_u16_be(&mut bytes, self.e_shentsize);
        push_u16_be(&mut bytes, self.e_shnum);
        push_u16_be(&mut bytes, self.e_shstrndx);
        bytes
    }
}

/// A program header entry.
#[derive(Clone, Copy, Debug)]
pub struct Elf32ProgramHeader {
    pub p_type: u32,
    pub p_offset: u32,
    pub p_vaddr: u32,
    pub p_paddr: u32,
    pub p_filesz: u32,
    pub p_memsz: u32,
    pub p_flags: u32,
    pub p_align: u32,
}

/// The serialised program header entry.
pub open spec fn program_header_bytes(p: Elf32ProgramHeader) -> Seq<u8> {
    be_bytes_u32(p.p_type) + be_bytes_u32(p.p_offset) + be_bytes_u32(p.p_vaddr) + be_bytes_u32(p.p_paddr)
        + be_bytes_u32(p.p_filesz) + be_bytes_u32(p.p_memsz) + be_bytes_u32(p.p_flags) + be_bytes_u32(p.p_align)
}

impl Elf32ProgramHeader {
    /// The entry's bytes, as written to a file.
    pub fn to_bytes(&self) -> (bytes: Vec<u8>)
        ensures
            bytes@ == program_header_bytes(*self),
            bytes@.len() == 32,
    {
        let mut bytes: Vec<u8> = Vec::new();
        push_u32_be(&mut bytes, self.p_type);
        push_u32_be(&mut bytes, self.p_offset);
        push_u32_be(&mut bytes, self.p_vaddr);
        push_u32_be(&mut bytes, self.p_paddr);
        push_u32_be(&mut bytes, self.p_filesz);
        push_u32_be(&mut bytes, self.p_memsz);
        push_u32_be(&mut bytes, self.p_flags);
        push_u32_be(&mut bytes, self.p_align);
        assert(bytes@ =~= program_header_bytes(*self));
        bytes
    }
}

/// A section header entry.
#[derive(Clone, Copy, Debug)]
pub struct Elf32SectionHeader {
    pub sh_name: u32,
    pub sh_type: u32,
    pub sh_flags: u32,
    pub sh_addr: u32,
    pub sh_offset: u32,
    pub sh_size: u32,
    pub sh_link: u32,
    pub sh_info: u32,
    pub sh_addralign: u32,
    pub sh_entsize: u32,
}

/// The serialised section header entry.
pub open spec fn section_header_bytes(s: Elf32SectionHeader) -> Seq<u8> {
    be_bytes_u32(s.sh_name) + be_bytes_u32(s.sh_type) + be_bytes_u32(s.sh_flags) + be_bytes_u32(s.sh_addr)
        + be_bytes_u32(s.sh_offset) + be_bytes_u32(s.sh_size) + be_bytes_u32(s.sh_link) + be_bytes_u32(s.sh_info)
        + be_bytes_u32(s.sh_addralign) + be_bytes_u32(s.sh_entsize)
}

impl Elf32SectionHeader {
    /// The entry's bytes, as written to a file.
    pub fn to_bytes(&self) -> (bytes: Vec<u8>)
        ensures
            bytes@ == section_header_bytes(*self),
            bytes@.len() == 40,
    {
        let mut bytes: Vec<u8> = Vec::new();
        push_u32_be(&mut bytes, self.sh_name);
        push_u32_be(&mut bytes, self.sh_type);
        push_u32_be(&mut bytes, self.sh_flags);
        push_u32_be(&mut bytes, self.sh_addr);
        push_u32_be(&mut bytes, self.sh_offset);
        push_u32_be(&mut bytes, self.sh_size);
        push_u32_be(&mut bytes, self.sh_link);
        push_u32_be(&mut bytes, self.sh_info);
        push_u32_be(&mut bytes, self.sh_addralign);
        push_u32_be(&mut bytes, self.sh_entsize);
        assert(bytes@ =~= section_header_bytes(*self));
        bytes
    }
}

/// A symbol table entry.
#[derive(Clone, Copy, Debug, PartialEq, Eq, Structural)]
pub struct Elf32Sym {
    pub st_name: u32,
    pub st_value: u32,
    pub st_size: u32,
    pub st_info: u8,
    pub st_other: u8,
    pub st_shndx: u16,
}

/// The serialised symbol: name, value and size as big-endian words, info and
/// other as single bytes, then the section index as a big-endian half-word.
pub open spec fn sym_bytes(s: Elf32Sym) -> Seq<u8> {
    be_bytes_u32(s.st_name) + be_bytes_u32(s.st_value) + be_bytes_u32(s.st_size) + seq![s.st_info, s.st_other]
        + be_bytes_u16(s.st_shndx)
}

impl Elf32Sym {
    /// The symbol's bytes, as they appear in .symtab.
    pub fn to_bytes(&self) -> (bytes: Vec<u8>)
        ensures
            bytes@ == sym_bytes(*self),
            bytes@.len() == 16,
    {
        let mut bytes: Vec<u8> = Vec::new();
        push_u32_be(&mut bytes, self.st_name);
        push_u32_be(&mut bytes, self.st_value);
        push_u32_be(&mut bytes, self.st_size);
        bytes.push(self.st_info);
        bytes.push(self.st_other);
        push_u16_be(&mut bytes, self.st_shndx);
        assert(bytes@ =~= sym_bytes(*self));
        bytes
    }

    /// The binding: the high four bits of st_info (0 local, 1 global, 2 weak).
    pub fn get_bind(&self) -> (b: u8)
        ensures
            b == self.st_info >> 4,
            b < 16,
    {
        proof { let i = self.st_info; assert(i >> 4 < 16) by (bit_vector); }
        self.st_info >> 4
    }
}

/// Whether an ELF is relocatable or executable.
#[derive(Clone, Copy, PartialEq, Eq, Structural, Debug)]
pub enum ElfType {
    Relocatable,
    Executable,
}

/// MIPS relocation types, by their ELF codes; other codes are kept as they are.
#[derive(Clone, Copy, PartialEq, Eq, Structural, Debug)]
pub enum RelocationEntryType {
    RNone,
    R16,
    R32,
    Rel32,
    R26,
    Hi16,
    Lo16,
    GpRel16,
    Literal,
    Got16,
    Pc16,
    Call16,
    GpRel32,
    Other(u8),
}

impl RelocationEntryType {
    /// The ELF code of this relocation type.
    pub open spec fn code_of(self) -> u8 {
        match self {
            RelocationEntryType::RNone => 0,
            RelocationEntryType::R16 => 1,
            RelocationEntryType::R32 => 2,
            RelocationEntryType::Rel32 => 3,
            RelocationEntryType::R26 => 4,
            RelocationEntryType::Hi16 => 5,
            RelocationEntryType::Lo16 => 6,
            RelocationEntryType::GpRel16 => 7,
            RelocationEntryType::Literal => 8,
            RelocationEntryType::Got16 => 9,
            RelocationEntryType::Pc16 => 10,
            RelocationEntryType::Call16 => 11,
            RelocationEntryType::GpRel32 => 12,
            RelocationEntryType::Other(c) => c,
        }
    }

    /// The relocation type with ELF code `c`.
    pub open spec fn of_code(c: u8) -> RelocationEntryType {
        if c == 0 { RelocationEntryType::RNone }
        else if c == 1 { RelocationEntryType::R16 }
        else if c == 2 { RelocationEntryType::R32 }
        else if c == 3 { RelocationEntryType::Rel32 }
        else if c == 4 { RelocationEntryType::R26 }
        else if c == 5 { RelocationEntryType::Hi16 }
        else if c == 6 { RelocationEntryType::Lo16 }
        else if c == 7 { RelocationEntryType::GpRel16 }
        else if c == 8 { RelocationEntryType::Literal }
        else if c == 9 { RelocationEntryType::Got16 }
        else if c == 10 { RelocationEntryType::Pc16 }
        else if c == 11 { RelocationEntryType::Call16 }
        else if c == 12 { RelocationEntryType::GpRel32 }
        else { RelocationEntryType::Other(c) }
    }

    /// The ELF code of this relocation type.
    pub fn code(&self) -> (c: u8)
        ensures
            c == self.code_of(),
    {
        match self {
            RelocationEntryType::RNone => 0,
            RelocationEntryType::R16 => 1,
            RelocationEntryType::R32 => 2,
            RelocationEntryType::Rel32 => 3,
            RelocationEntryType::R26 => 4,
            RelocationEntryType::Hi16 => 5,
            RelocationEntryType::Lo16 => 6,
            RelocationEntryType::GpRel16 => 7,
            RelocationEntryType::Literal => 8,
            RelocationEntryType::Got16 => 9,
            RelocationEntryType::Pc16 => 10,
            RelocationEntryType::Call16 => 11,
            RelocationEntryType::GpRel32 => 12,
            RelocationEntryType::Other(c) => *c,
        }
    }

    /// The relocation type with ELF code `c`.
    pub fn from_code(c: u8) -> (t: RelocationEntryType)
        ensures
            t == RelocationEntryType::of_code(c),
    {
        if c == 0 { RelocationEntryType::RNone }
        else if c == 1 { RelocationEntryType::R16 }
        else if c == 2 { RelocationEntryType::R32 }
        else if c == 3 { RelocationEntryType::Rel32 }
        else if c == 4 { RelocationEntryType::R26 }
        else if c == 5 { RelocationEntryType::Hi16 }
        else if c == 6 { RelocationEntryType::Lo16 }
        else if c == 7 { RelocationEntryType::GpRel16 }
        else if c == 8 { RelocationEntryType::Literal }
        else if c == 9 { RelocationEntryType::Got16 }
        else if c == 10 { RelocationEntryType::Pc16 }
        else if c == 11 { RelocationEntryType::Call16 }
        else if c == 12 { RelocationEntryType::GpRel32 }
        else { RelocationEntryType::Other(c) }
    }
}

/// A code names the type it was read from, and reading a type's code gives it back
/// (the codes that name a type are never kept as `Other`).
pub proof fn lemma_relocation_code_roundtrip(c: u8, t: RelocationEntryType)
    ensures
        RelocationEntryType::of_code(c).code_of() == c,
        (t matches RelocationEntryType::Other(k) ==> k > 12) ==> RelocationEntryType::of_code(t.code_of()) == t,
{
}

/// An entry of .rel: where in .text, which symbol, and how to patch.
#[derive(Clone, Copy, PartialEq, Eq, Structural, Debug)]
pub struct RelocationEntry {
    pub r_offset: u32,
    pub r_sym: u32,
    pub r_type: RelocationEntryType,
}

/// The info word of a relocation entry: the symbol above the low byte, the type below.
pub open spec fn rel_info(e: RelocationEntry) -> u32 {
    ((e.r_sym << 8u32) | (e.r_type.code_of() as u32)) as u32
}

/// The serialised relocation entry: offset and info as big-endian words.
pub open spec fn rel_bytes(e: RelocationEntry) -> Seq<u8> {
    be_bytes_u32(e.r_offset) + be_bytes_u32(rel_info(e))
}

impl RelocationEntry {
    /// The entry's bytes, as they appear in .rel.
    pub fn to_bytes(&self) -> (bytes: Vec<u8>)
        ensures
            bytes@ == rel_bytes(*self),
            bytes@.len() == 8,
    {
        let mut bytes: Vec<u8> = Vec::new();
        push_u32_be(&mut bytes, self.r_offset);
        let info: u32 = (self.r_sym << 8) | (self.r_type.code() as u32);
        push_u32_be(&mut bytes, info);
        bytes
    }
}

/// A whole ELF file: header, program headers, the sections after the null
/// section (in section header order), and the section headers.
#[derive(Clone, Debug)]
pub struct Elf {
    pub file_header: Elf32Header,
    pub program_header_table: Vec<Elf32ProgramHeader>,
    pub sections: Vec<Vec<u8>>,
    pub section_header_table: Vec<Elf32SectionHeader>,
}

/// The bytes of each section.
pub open spec fn section_views(e: Elf) -> Seq<Seq<u8>> {
    e.sections.deep_view()
}

impl Elf {
    /// The size of .text as its section header records it (section 1; 0 when
    /// there is no such header).
    pub fn get_text_length(&self) -> (n: u32)
        ensures
            n == if self.section_header_table@.len() > 1 { self.section_header_table@[1].sh_size } else { 0 },
    {
        if self.section_header_table.len() > 1 {
            self.section_header_table[1].sh_size
        } else {
            0
        }
    }
}


impl RelocationEntryType {
    /// The name of this relocation type.
    pub open spec fn spelled(self) -> Seq<char> {
        match self {
            RelocationEntryType::RNone => "RNone"@,
            RelocationEntryType::R16 => "R16"@,
            RelocationEntryType::R32 => "R32"@,
            RelocationEntryType::Rel32 => "Rel32"@,
            RelocationEntryType::R26 => "R26"@,
            RelocationEntryType::Hi16 => "Hi16"@,
            RelocationEntryType::Lo16 => "Lo16"@,
            RelocationEntryType::GpRel16 => "GpRel16"@,
            RelocationEntryType::Literal => "Literal"@,
            RelocationEntryType::Got16 => "Got16"@,
            RelocationEntryType::Pc16 => "Pc16"@,
            RelocationEntryType::Call16 => "Call16"@,
            RelocationEntryType::GpRel32 => "GpRel32"@,
            RelocationEntryType::Other(c) => "Other("@ + crate::text::dec_chars(c as nat) + ")"@,
        }
    }

    /// The name of this relocation type.
    pub fn name(&self) -> (s: String)
        ensures
            s@ == self.spelled(),
    {
        let mut s = String::new();
        match self {
            RelocationEntryType::RNone => { s.append("RNone"); proof { reveal_strlit("RNone"); } },
            RelocationEntryType::R16 => { s.append("R16"); proof { reveal_strlit("R16"); } },
            RelocationEntryType::R32 => { s.append("R32"); proof { reveal_strlit("R32"); } },
            RelocationEntryType::Rel32 => { s.append("Rel32"); proof { reveal_strlit("Rel32"); } },
            RelocationEntryType::R26 => { s.append("R26"); proof { reveal_strlit("R26"); } },
            RelocationEntryType::Hi16 => { s.append("Hi16"); proof { reveal_strlit("Hi16"); } },
            RelocationEntryType::Lo16 => { s.append("Lo16"); proof { reveal_strlit("Lo16"); } },
            RelocationEntryType::GpRel16 => { s.append("GpRel16"); proof { reveal_strlit("GpRel16"); } },
            RelocationEntryType::Literal => { s.append("Literal"); proof { reveal_strlit("Literal"); } },
            RelocationEntryType::Got16 => { s.append("Got16"); proof { reveal_strlit("Got16"); } },
            RelocationEntryType::Pc16 => { s.append("Pc16"); proof { reveal_strlit("Pc16"); } },
            RelocationEntryType::Call16 => { s.append("Call16"); proof { reveal_strlit("Call16"); } },
            RelocationEntryType::GpRel32 => { s.append("GpRel32"); proof { reveal_strlit("GpRel32"); } },
            RelocationEntryType::Other(c) => {
                s.append("Other(");
                crate::text::append_radix(&mut s, *c as u64, 10);
                s.append(")");
                proof { reveal_strlit("Other("); reveal_strlit(")"); }
            },
        }
        s
    }
}

} // verus!
