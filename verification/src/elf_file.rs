//! ELF files as bytes: an `Elf` written out, and an `Elf` read back in.
//!
//! A file is the file header, the program header table, the contents of every
//! section after the null section, one after another, and the section header
//! table, each table entry big-endian.
use vstd::prelude::*;

use crate::elf_def::{
    header_bytes, program_header_bytes, section_header_bytes, section_views, Elf, Elf32Header, Elf32ProgramHeader,
    Elf32SectionHeader,
};
use crate::elf_utils::{append_bytes, lemma_sizes_monotone, sizes_before};
use crate::text::{append_radix, dec_chars};
use crate::words::{
    be_bytes_u16, be_bytes_u32, half_from_be, half_from_bytes, lemma_half_roundtrip, lemma_word_roundtrip, word_at,
    word_from_be, word_from_bytes,
};

verus! {

/// Parts laid one after another.
pub open spec fn joined_bytes(parts: Seq<Seq<u8>>) -> Seq<u8>
    decreases parts.len(),
{
    if parts.len() == 0 {
        Seq::empty()
    } else {
        joined_bytes(parts.drop_last()) + parts.last()
    }
}

/// The bytes of each program header entry.
pub open spec fn program_header_parts(t: Seq<Elf32ProgramHeader>) -> Seq<Seq<u8>> {
    Seq::new(t.len(), |k: int| program_header_bytes(t[k]))
}

/// The bytes of each section header entry.
pub open spec fn section_header_parts(t: Seq<Elf32SectionHeader>) -> Seq<Seq<u8>> {
    Seq::new(t.len(), |k: int| section_header_bytes(t[k]))
}

/// The bytes of the file that `e` is.
pub open spec fn file_bytes(e: Elf) -> Seq<u8> {
    header_bytes(e.file_header) + joined_bytes(program_header_parts(e.program_header_table@))
        + joined_bytes(section_views(e)) + joined_bytes(section_header_parts(e.section_header_table@))
}

/// Joining one more part adds it at the end.
proof fn lemma_joined_push(parts: Seq<Seq<u8>>, p: Seq<u8>)
    ensures
        joined_bytes(parts.push(p)) == joined_bytes(parts) + p,
{
    assert(parts.push(p).drop_last() =~= parts);
}

impl Elf {
    /// The file this ELF is (see `file_bytes`).
    pub fn to_bytes(&self) -> (bytes: Vec<u8>)
        ensures
            bytes@ == file_bytes(*self),
    {
        let mut bytes = self.file_header.to_bytes();
        let ghost h = bytes@;
        let mut i: usize = 0;
        while i < self.program_header_table.len()
            invariant
                i <= self.program_header_table@.len(),
                bytes@ == h + joined_bytes(program_header_parts(self.program_header_table@.subrange(0, i as int))),
            decreases self.program_header_table.len() - i,
        {
            let b = self.program_header_table[i].to_bytes();
            append_bytes(&mut bytes, &b);
            proof {
                let t = self.program_header_table@;
                assert(program_header_parts(t.subrange(0, i + 1)) =~= program_header_parts(t.subrange(0, i as int)).push(b@));
                lemma_joined_push(program_header_parts(t.subrange(0, i as int)), b@);
            }
            i = i + 1;
        }
        assert(self.program_header_table@.subrange(0, i as int) =~= self.program_header_table@);
        let ghost hp = bytes@;
        let mut k: usize = 0;
        while k < self.sections.len()
            invariant
                k <= self.sections@.len(),
                bytes@ == hp + joined_bytes(section_views(*self).subrange(0, k as int)),
            decreases self.sections.len() - k,
        {
            append_bytes(&mut bytes, &self.sections[k]);
            proof {
                let secs = section_views(*self);
                assert(secs[k as int] == self.sections@[k as int]@);
                assert(secs.subrange(0, k + 1) =~= secs.subrange(0, k as int).push(secs[k as int]));
                lemma_joined_push(secs.subrange(0, k as int), secs[k as int]);
            }
            k = k + 1;
        }
        assert(section_views(*self).subrange(0, k as int) =~= section_views(*self));
        let ghost hps = bytes@;
        let mut j: usize = 0;
        while j < self.section_header_table.len()
            invariant
                j <= self.section_header_table@.len(),
                bytes@ == hps + joined_bytes(section_header_parts(self.section_header_table@.subrange(0, j as int))),
            decreases self.section_header_table.len() - j,
        {
            let b = self.section_header_table[j].to_bytes();
            append_bytes(&mut bytes, &b);
            proof {
                let t = self.section_header_table@;
                assert(section_header_parts(t.subrange(0, j + 1)) =~= section_header_parts(t.subrange(0, j as int)).push(b@));
                lemma_joined_push(section_header_parts(t.subrange(0, j as int)), b@);
            }
            j = j + 1;
        }
        assert(self.section_header_table@.subrange(0, j as int) =~= self.section_header_table@);
        bytes
    }
}

/// The half-word read from two consecutive bytes of `b` starting at `i`.
pub open spec fn half_at(b: Seq<u8>, i: int) -> u16 {
    half_from_be(b[i], b[i + 1])
}

/// Whether `h` is the file header held by the first 52 bytes of `b`.
pub open spec fn header_read(b: Seq<u8>, h: Elf32Header) -> bool {
    &&& h.e_ident@ == b.subrange(0, 16)
    &&& h.e_type == half_at(b, 16)
    &&& h.e_machine == half_at(b, 18)
    &&& h.e_version == word_at(b, 20)
    &&& h.e_entry == word_at(b, 24)
    &&& h.e_phoff == word_at(b, 28)
    &&& h.e_shoff == word_at(b, 32)
    &&& h.e_flags == word_at(b, 36)
    &&& h.e_ehsize == half_at(b, 40)
    &&& h.e_phentsize == half_at(b, 42)
    &&& h.e_phnum == half_at(b, 44)
    &&& h.e_shentsize == half_at(b, 46)
    &&& h.e_shnum == half_at(b, 48)
    &&& h.e_shstrndx == half_at(b, 50)
}

/// The program header entry held by the 32 bytes of `b` at `off`.
pub open spec fn program_header_at(b: Seq<u8>, off: int) -> Elf32ProgramHeader {
    Elf32ProgramHeader {
        p_type: word_at(b, off),
        p_offset: word_at(b, off + 4),
        p_vaddr: word_at(b, off + 8),
        p_paddr: word_at(b, off + 12),
        p_filesz: word_at(b, off + 16),
        p_memsz: word_at(b, off + 20),
        p_flags: word_at(b, off + 24),
        p_align: word_at(b, off + 28),
    }
}

/// The section header entry held by the 40 bytes of `b` at `off`.
pub open spec fn section_header_at(b: Seq<u8>, off: int) -> Elf32SectionHeader {
    Elf32SectionHeader {
        sh_name: word_at(b, off),
        sh_type: word_at(b, off + 4),
        sh_flags: word_at(b, off + 8),
        sh_addr: word_at(b, off + 12),
        sh_offset: word_at(b, off + 16),
        sh_size: word_at(b, off + 20),
        sh_link: word_at(b, off + 24),
        sh_info: word_at(b, off + 28),
        sh_addralign: word_at(b, off + 32),
        sh_entsize: word_at(b, off + 36),
    }
}

/// Where the file header of `b` puts the program header table.
pub open spec fn phoff_of(b: Seq<u8>) -> int {
    word_at(b, 28) as int
}

/// Where the file header of `b` puts the section header table.
pub open spec fn shoff_of(b: Seq<u8>) -> int {
    word_at(b, 32) as int
}

/// How many program headers the file header of `b` counts.
pub open spec fn phnum_of(b: Seq<u8>) -> int {
    half_at(b, 44) as int
}

/// How many section headers the file header of `b` counts.
pub open spec fn shnum_of(b: Seq<u8>) -> int {
    half_at(b, 48) as int
}

/// Section header `k` of `b`.
pub open spec fn section_header_of(b: Seq<u8>, k: int) -> Elf32SectionHeader {
    section_header_at(b, shoff_of(b) + 40 * k)
}

/// Whether section `k` of `b` lies inside the file.
pub open spec fn section_inside(b: Seq<u8>, k: int) -> bool {
    section_header_of(b, k).sh_offset + section_header_of(b, k).sh_size <= b.len()
}

/// The first section after the null one, from `k` on, that does not lie inside the file.
pub open spec fn first_stray_section(b: Seq<u8>, k: int) -> Option<int>
    decreases shnum_of(b) - k,
{
    if k < 1 || k >= shnum_of(b) {
        None
    } else if !section_inside(b, k) {
        Some(k)
    } else {
        first_stray_section(b, k + 1)
    }
}

/// Why `b` cannot be read as an ELF file, if it cannot: it is shorter than a
/// file header, or a header table or a section reaches past its end.
pub open spec fn read_error(b: Seq<u8>) -> Option<Seq<char>> {
    if b.len() < 52 {
        Some("ELF file is too short for its header"@)
    } else if phoff_of(b) + 32 * phnum_of(b) > b.len() {
        Some("ELF program header table lies outside the file"@)
    } else if shoff_of(b) + 40 * shnum_of(b) > b.len() {
        Some("ELF section header table lies outside the file"@)
    } else {
        match first_stray_section(b, 1) {
            Some(k) => Some("ELF section "@ + dec_chars(k as nat) + " lies outside the file"@),
            None => None,
        }
    }
}

/// The contents of section `k` of `b`.
pub open spec fn section_contents(b: Seq<u8>, k: int) -> Seq<u8> {
    let h = section_header_of(b, k);
    b.subrange(h.sh_offset as int, h.sh_offset + h.sh_size)
}

/// Whether `e` is what `b` holds: its file header, its program headers and
/// section headers where the file header puts them, and the contents of each
/// section after the null one where its header puts them.
pub open spec fn elf_read(b: Seq<u8>, e: Elf) -> bool {
    &&& header_read(b, e.file_header)
    &&& e.program_header_table@ == Seq::new(phnum_of(b) as nat, |k: int| program_header_at(b, phoff_of(b) + 32 * k))
    &&& e.section_header_table@ == Seq::new(shnum_of(b) as nat, |k: int| section_header_of(b, k))
    &&& section_views(e) == Seq::new(if shnum_of(b) > 0 { (shnum_of(b) - 1) as nat } else { 0nat },
        |k: int| section_contents(b, k + 1))
}

/// The word at `i` of `bytes`.
fn read_word(bytes: &Vec<u8>, i: usize) -> (w: u32)
    requires
        i + 4 <= bytes@.len(),
    ensures
        w == word_at(bytes@, i as int),
{
    let n = bytes.len();
    assert(i + 4 <= n);
    word_from_bytes(bytes[i], bytes[i + 1], bytes[i + 2], bytes[i + 3])
}

/// The half-word at `i` of `bytes`.
fn read_half(bytes: &Vec<u8>, i: usize) -> (h: u16)
    requires
        i + 2 <= bytes@.len(),
    ensures
        h == half_at(bytes@, i as int),
{
    let n = bytes.len();
    assert(i + 2 <= n);
    half_from_bytes(bytes[i], bytes[i + 1])
}

/// The section header entry at `off` of `bytes`.
fn read_section_header(bytes: &Vec<u8>, off: usize) -> (h: Elf32SectionHeader)
    requires
        off + 40 <= bytes@.len(),
    ensures
        h == section_header_at(bytes@, off as int),
{
    let n = bytes.len();
    assert(off + 40 <= n);
    Elf32SectionHeader {
        sh_name: read_word(bytes, off),
        sh_type: read_word(bytes, off + 4),
        sh_flags: read_word(bytes, off + 8),
        sh_addr: read_word(bytes, off + 12),
        sh_offset: read_word(bytes, off + 16),
        sh_size: read_word(bytes, off + 20),
        sh_link: read_word(bytes, off + 24),
        sh_info: read_word(bytes, off + 28),
        sh_addralign: read_word(bytes, off + 32),
        sh_entsize: read_word(bytes, off + 36),
    }
}

/// The bytes of `bytes` from `lo` up to, not including, `hi`.
fn copy_range(bytes: &Vec<u8>, lo: usize, hi: usize) -> (c: Vec<u8>)
    requires
        lo <= hi <= bytes@.len(),
    ensures
        c@ == bytes@.subrange(lo as int, hi as int),
{
    let mut c: Vec<u8> = Vec::new();
    let mut i: usize = lo;
    while i < hi
        invariant
            lo <= i <= hi <= bytes@.len(),
            c@ == bytes@.subrange(lo as int, i as int),
        decreases hi - i,
    {
        c.push(bytes[i]);
        assert(bytes@.subrange(lo as int, i + 1) =~= bytes@.subrange(lo as int, i as int).push(bytes@[i as int]));
        i = i + 1;
    }
    c
}

/// Reads an ELF file (see `elf_read`), or says why it cannot be read (see `read_error`).
pub fn read_bytes_to_elf(bytes: Vec<u8>) -> (r: Result<Elf, String>)
    ensures
        match read_error(bytes@) {
            Some(m) => r matches Err(e) && e@ == m,
            None => r matches Ok(e) && elf_read(bytes@, e),
        },
{
    let ghost b = bytes@;
    if bytes.len() < 52 {
        proof { reveal_strlit("ELF file is too short for its header"); }
        return Err("ELF file is too short for its header".to_string());
    }
    let mut e_ident: [u8; 16] = [0u8; 16];
    let mut i: usize = 0;
    while i < 16
        invariant
            bytes@.len() >= 52,
            i <= 16,
            e_ident@.len() == 16,
            forall|j: int| 0 <= j < i ==> e_ident@[j] == bytes@[j],
        decreases 16 - i,
    {
        e_ident[i] = bytes[i];
        i = i + 1;
    }
    assert(e_ident@ =~= bytes@.subrange(0, 16));
    let file_header = Elf32Header {
        e_ident,
        e_type: read_half(&bytes, 16),
        e_machine: read_half(&bytes, 18),
        e_version: read_word(&bytes, 20),
        e_entry: read_word(&bytes, 24),
        e_phoff: read_word(&bytes, 28),
        e_shoff: read_word(&bytes, 32),
        e_flags: read_word(&bytes, 36),
        e_ehsize: read_half(&bytes, 40),
        e_phentsize: read_half(&bytes, 42),
        e_phnum: read_half(&bytes, 44),
        e_shentsize: read_half(&bytes, 46),
        e_shnum: read_half(&bytes, 48),
        e_shstrndx: read_half(&bytes, 50),
    };
    let phoff: u64 = file_header.e_phoff as u64;
    let shoff: u64 = file_header.e_shoff as u64;
    let phnum: u64 = file_header.e_phnum as u64;
    let shnum: u64 = file_header.e_shnum as u64;
    if phoff + 32 * phnum > bytes.len() as u64 {
        proof { reveal_strlit("ELF program header table lies outside the file"); }
        return Err("ELF program header table lies outside the file".to_string());
    }
    if shoff + 40 * shnum > bytes.len() as u64 {
        proof { reveal_strlit("ELF section header table lies outside the file"); }
        return Err("ELF section header table lies outside the file".to_string());
    }
    let mut program_header_table: Vec<Elf32ProgramHeader> = Vec::new();
    let mut k: u64 = 0;
    while k < phnum
        invariant
            b == bytes@,
            phoff == phoff_of(b),
            phnum == phnum_of(b),
            phoff + 32 * phnum <= b.len(),
            k <= phnum,
            program_header_table@ == Seq::new(k as nat, |j: int| program_header_at(b, phoff_of(b) + 32 * j)),
        decreases phnum - k,
    {
        let off: usize = (phoff + 32 * k) as usize;
        assert(off + 32 <= b.len());
        let h = Elf32ProgramHeader {
            p_type: read_word(&bytes, off),
            p_offset: read_word(&bytes, off + 4),
            p_vaddr: read_word(&bytes, off + 8),
            p_paddr: read_word(&bytes, off + 12),
            p_filesz: read_word(&bytes, off + 16),
            p_memsz: read_word(&bytes, off + 20),
            p_flags: read_word(&bytes, off + 24),
            p_align: read_word(&bytes, off + 28),
        };
        program_header_table.push(h);
        assert(program_header_table@ =~= Seq::new((k + 1) as nat, |j: int| program_header_at(b, phoff_of(b) + 32 * j)));
        k = k + 1;
    }
    let mut section_header_table: Vec<Elf32SectionHeader> = Vec::new();
    let mut k: u64 = 0;
    while k < shnum
        invariant
            b == bytes@,
            shoff == shoff_of(b),
            shnum == shnum_of(b),
            shoff + 40 * shnum <= b.len(),
            k <= shnum,
            section_header_table@ == Seq::new(k as nat, |j: int| section_header_of(b, j)),
        decreases shnum - k,
    {
        let off: usize = (shoff + 40 * k) as usize;
        let h = read_section_header(&bytes, off);
        section_header_table.push(h);
        assert(section_header_table@ =~= Seq::new((k + 1) as nat, |j: int| section_header_of(b, j)));
        k = k + 1;
    }
    let mut sections: Vec<Vec<u8>> = Vec::new();
    let mut k: usize = 1;
    while k < section_header_table.len()
        invariant
            b == bytes@,
            b.len() >= 52,
            phoff_of(b) + 32 * phnum_of(b) <= b.len(),
            shoff_of(b) + 40 * shnum_of(b) <= b.len(),
            shnum == shnum_of(b),
            section_header_table@ == Seq::new(shnum as nat, |j: int| section_header_of(b, j)),
            1 <= k,
            k <= shnum || (shnum == 0 && k == 1),
            first_stray_section(b, 1) == first_stray_section(b, k as int),
            sections@.len() == k - 1,
            forall|j: int| 0 <= j < k - 1 ==> #[trigger] sections@[j]@ == section_contents(b, j + 1),
        decreases section_header_table.len() - k,
    {
        let h = section_header_table[k];
        assert(h == section_header_of(b, k as int));
        if h.sh_offset as u64 + h.sh_size as u64 > bytes.len() as u64 {
            let mut m = String::new();
            m.append("ELF section ");
            append_radix(&mut m, k as u64, 10);
            m.append(" lies outside the file");
            proof { reveal_strlit("ELF section "); reveal_strlit(" lies outside the file"); }
            return Err(m);
        }
        let c = copy_range(&bytes, h.sh_offset as usize, (h.sh_offset as u64 + h.sh_size as u64) as usize);
        sections.push(c);
        k = k + 1;
    }
    let elf = Elf { file_header, program_header_table, sections, section_header_table };
    proof {
        let n: nat = if shnum_of(b) > 0 { (shnum_of(b) - 1) as nat } else { 0nat };
        assert(section_views(elf) =~= Seq::new(n, |j: int| section_contents(b, j + 1))) by {
            assert(section_views(elf).len() == elf.sections@.len());

            assert forall|j: int| 0 <= j < n implies section_views(elf)[j] == section_contents(b, j + 1) by {
                assert(section_views(elf)[j] == elf.sections@[j]@);
                assert(elf.sections@[j]@ == section_contents(b, j + 1));
            }
        }
    }
    Ok(elf)
}

/// Whether `e` is laid out as its headers say: the program headers right after
/// the file header, the contents of the sections right after them, in order,
/// the section header table right after the contents, and each section header
/// after the null one giving its section's place and size.
pub open spec fn laid_out(e: Elf) -> bool {
    let h = e.file_header;
    let secs = section_views(e);
    let start = 52 + 32 * e.program_header_table@.len();
    &&& h.e_phoff == 52
    &&& h.e_phnum == e.program_header_table@.len()
    &&& h.e_shnum == e.section_header_table@.len()
    &&& e.section_header_table@.len() == secs.len() + 1
    &&& h.e_shoff == start + sizes_before(secs, secs.len() as int)
    &&& forall|k: int| 0 <= k < secs.len() ==> (#[trigger] e.section_header_table@[k + 1]).sh_offset == start + sizes_before(secs, k)
        && e.section_header_table@[k + 1].sh_size == secs[k].len()
}

/// Parts of one size laid one after another: the `j`-th byte of part `k` is
/// byte `size * k + j` of the whole.
proof fn lemma_joined_fixed(parts: Seq<Seq<u8>>, size: int, k: int, j: int)
    requires
        size >= 0,
        forall|i: int| 0 <= i < parts.len() ==> (#[trigger] parts[i]).len() == size,
        0 <= k < parts.len(),
        0 <= j < size,
    ensures
        joined_bytes(parts).len() == size * parts.len(),
        joined_bytes(parts)[size * k + j] == parts[k][j],
    decreases parts.len(),
{
    let init = parts.drop_last();
    lemma_joined_len_fixed(init, size);
    if k < parts.len() - 1 {
        lemma_joined_fixed(init, size, k, j);
        assert(size * k + j < size * (parts.len() - 1)) by (nonlinear_arith)
            requires
                0 <= k < parts.len() - 1,
                0 <= j < size,
        ;
    } else {
        assert(size * k + j - size * (parts.len() - 1) == j) by (nonlinear_arith)
            requires
                k == parts.len() - 1,
        ;
    }
    assert(size * parts.len() == size * (parts.len() - 1) + size) by (nonlinear_arith);
}

/// Parts of one size laid one after another take that size times their number.
proof fn lemma_joined_len_fixed(parts: Seq<Seq<u8>>, size: int)
    requires
        size >= 0,
        forall|i: int| 0 <= i < parts.len() ==> (#[trigger] parts[i]).len() == size,
    ensures
        joined_bytes(parts).len() == size * parts.len(),
    decreases parts.len(),
{
    if parts.len() > 0 {
        lemma_joined_len_fixed(parts.drop_last(), size);
        assert(size * parts.len() == size * (parts.len() - 1) + size) by (nonlinear_arith);
    }
}

/// Sections laid one after another: section `k` lies from the size of those
/// before it, and the whole is the size of them all.
proof fn lemma_joined_sections(secs: Seq<Seq<u8>>, k: int)
    requires
        0 <= k < secs.len(),
    ensures
        joined_bytes(secs).len() == sizes_before(secs, secs.len() as int),
        joined_bytes(secs).subrange(sizes_before(secs, k), sizes_before(secs, k) + secs[k].len()) == secs[k],
    decreases secs.len(),
{
    let init = secs.drop_last();
    lemma_joined_len(init);
    lemma_sizes_prefix_same(secs, init, secs.len() - 1);
    if k < secs.len() - 1 {
        lemma_joined_sections(init, k);
        lemma_sizes_prefix_same(secs, init, k);
        lemma_sizes_prefix_same(secs, init, k + 1);
        lemma_sizes_monotone(init, k + 1, init.len() as int);
        assert(joined_bytes(secs) == joined_bytes(init) + secs.last());
        assert(init[k] == secs[k]);
        assert(sizes_before(init, k + 1) == sizes_before(init, k) + init[k].len());
        lemma_sizes_monotone(init, 0, k);
        let x = sizes_before(init, k);
        let y = x + init[k].len();
        assert(y <= joined_bytes(init).len());
        assert(joined_bytes(secs).subrange(x, y) =~= joined_bytes(init).subrange(x, y));
    } else {
        lemma_sizes_monotone(init, 0, k);
        assert(joined_bytes(secs).subrange(sizes_before(secs, k), sizes_before(secs, k) + secs[k].len()) =~= secs[k]);
    }
}

/// Sections laid one after another take the size of them all.
proof fn lemma_joined_len(secs: Seq<Seq<u8>>)
    ensures
        joined_bytes(secs).len() == sizes_before(secs, secs.len() as int),
    decreases secs.len(),
{
    if secs.len() > 0 {
        let init = secs.drop_last();
        lemma_joined_len(init);
        lemma_sizes_prefix_same(secs, init, init.len() as int);
    }
}

/// Counting the first `k` sections only looks at those sections.
proof fn lemma_sizes_prefix_same(a: Seq<Seq<u8>>, b: Seq<Seq<u8>>, k: int)
    requires
        0 <= k <= a.len(),
        k <= b.len(),
        forall|i: int| 0 <= i < k ==> a[i] == b[i],
    ensures
        sizes_before(a, k) == sizes_before(b, k),
    decreases k,
{
    if k > 0 {
        lemma_sizes_prefix_same(a, b, k - 1);
    }
}

/// Reading the header of a file that starts with a header's bytes gives that header.
proof fn lemma_header_read(h: Elf32Header, rest: Seq<u8>)
    ensures
        header_read(header_bytes(h) + rest, h),
{
    let b = header_bytes(h) + rest;
    let hb = header_bytes(h);
    assert(hb.len() == 52);
    assert(b.subrange(0, 16) =~= h.e_ident@);
    lemma_half_roundtrip(h.e_type);
    lemma_half_roundtrip(h.e_machine);
    lemma_word_roundtrip(h.e_version);
    lemma_word_roundtrip(h.e_entry);
    lemma_word_roundtrip(h.e_phoff);
    lemma_word_roundtrip(h.e_shoff);
    lemma_word_roundtrip(h.e_flags);
    lemma_half_roundtrip(h.e_ehsize);
    lemma_half_roundtrip(h.e_phentsize);
    lemma_half_roundtrip(h.e_phnum);
    lemma_half_roundtrip(h.e_shentsize);
    lemma_half_roundtrip(h.e_shnum);
    lemma_half_roundtrip(h.e_shstrndx);
    assert(b[16] == be_bytes_u16(h.e_type)[0] && b[17] == be_bytes_u16(h.e_type)[1]);
    assert(b[18] == be_bytes_u16(h.e_machine)[0] && b[19] == be_bytes_u16(h.e_machine)[1]);
    assert(b[20] == be_bytes_u32(h.e_version)[0] && b[21] == be_bytes_u32(h.e_version)[1]
        && b[22] == be_bytes_u32(h.e_version)[2] && b[23] == be_bytes_u32(h.e_version)[3]);
    assert(b[24] == be_bytes_u32(h.e_entry)[0] && b[25] == be_bytes_u32(h.e_entry)[1]
        && b[26] == be_bytes_u32(h.e_entry)[2] && b[27] == be_bytes_u32(h.e_entry)[3]);
    assert(b[28] == be_bytes_u32(h.e_phoff)[0] && b[29] == be_bytes_u32(h.e_phoff)[1]
        && b[30] == be_bytes_u32(h.e_phoff)[2] && b[31] == be_bytes_u32(h.e_phoff)[3]);
    assert(b[32] == be_bytes_u32(h.e_shoff)[0] && b[33] == be_bytes_u32(h.e_shoff)[1]
        && b[34] == be_bytes_u32(h.e_shoff)[2] && b[35] == be_bytes_u32(h.e_shoff)[3]);
    assert(b[36] == be_bytes_u32(h.e_flags)[0] && b[37] == be_bytes_u32(h.e_flags)[1]
        && b[38] == be_bytes_u32(h.e_flags)[2] && b[39] == be_bytes_u32(h.e_flags)[3]);
    assert(b[40] == be_bytes_u16(h.e_ehsize)[0] && b[41] == be_bytes_u16(h.e_ehsize)[1]);
    assert(b[42] == be_bytes_u16(h.e_phentsize)[0] && b[43] == be_bytes_u16(h.e_phentsize)[1]);
    assert(b[44] == be_bytes_u16(h.e_phnum)[0] && b[45] == be_bytes_u16(h.e_phnum)[1]);
    assert(b[46] == be_bytes_u16(h.e_shentsize)[0] && b[47] == be_bytes_u16(h.e_shentsize)[1]);
    assert(b[48] == be_bytes_u16(h.e_shnum)[0] && b[49] == be_bytes_u16(h.e_shnum)[1]);
    assert(b[50] == be_bytes_u16(h.e_shstrndx)[0] && b[51] == be_bytes_u16(h.e_shstrndx)[1]);
}

/// Part `k` of parts of one size lies at `size * k` of the whole.
proof fn lemma_joined_part(parts: Seq<Seq<u8>>, size: int, k: int)
    requires
        size >= 0,
        forall|i: int| 0 <= i < parts.len() ==> (#[trigger] parts[i]).len() == size,
        0 <= k < parts.len(),
    ensures
        joined_bytes(parts).len() == size * parts.len(),
        size * k + size <= size * parts.len(),
        joined_bytes(parts).subrange(size * k, size * k + size) == parts[k],
{
    lemma_joined_len_fixed(parts, size);
    assert(size * k + size <= size * parts.len()) by (nonlinear_arith)
        requires
            size >= 0,
            0 <= k < parts.len(),
    ;
    assert(0 <= size * k) by (nonlinear_arith)
        requires
            size >= 0,
            k >= 0,
    ;
    assert forall|j: int| 0 <= j < size implies #[trigger] joined_bytes(parts).subrange(size * k, size * k + size)[j] == parts[k][j] by {
        lemma_joined_fixed(parts, size, k, j);
    }
    assert(joined_bytes(parts).subrange(size * k, size * k + size) =~= parts[k]);
}

/// Reading a program header where its bytes lie gives it back.
proof fn lemma_program_header_at(b: Seq<u8>, off: int, p: Elf32ProgramHeader)
    requires
        0 <= off,
        off + 32 <= b.len(),
        b.subrange(off, off + 32) == program_header_bytes(p),
    ensures
        program_header_at(b, off) == p,
{
    let pb = program_header_bytes(p);
    assert forall|i: int| 0 <= i < 32 implies #[trigger] b[off + i] == pb[i] by {
        assert(b.subrange(off, off + 32)[i] == b[off + i]);
    }
    lemma_word_roundtrip(p.p_type);
    lemma_word_roundtrip(p.p_offset);
    lemma_word_roundtrip(p.p_vaddr);
    lemma_word_roundtrip(p.p_paddr);
    lemma_word_roundtrip(p.p_filesz);
    lemma_word_roundtrip(p.p_memsz);
    lemma_word_roundtrip(p.p_flags);
    lemma_word_roundtrip(p.p_align);
    assert(b[off + 0] == pb[0] && b[off + 1] == pb[1] && b[off + 2] == pb[2] && b[off + 3] == pb[3]);
    assert(b[off + 4] == pb[4] && b[off + 5] == pb[5] && b[off + 6] == pb[6] && b[off + 7] == pb[7]);
    assert(b[off + 8] == pb[8] && b[off + 9] == pb[9] && b[off + 10] == pb[10] && b[off + 11] == pb[11]);
    assert(b[off + 12] == pb[12] && b[off + 13] == pb[13] && b[off + 14] == pb[14] && b[off + 15] == pb[15]);
    assert(b[off + 16] == pb[16] && b[off + 17] == pb[17] && b[off + 18] == pb[18] && b[off + 19] == pb[19]);
    assert(b[off + 20] == pb[20] && b[off + 21] == pb[21] && b[off + 22] == pb[22] && b[off + 23] == pb[23]);
    assert(b[off + 24] == pb[24] && b[off + 25] == pb[25] && b[off + 26] == pb[26] && b[off + 27] == pb[27]);
    assert(b[off + 28] == pb[28] && b[off + 29] == pb[29] && b[off + 30] == pb[30] && b[off + 31] == pb[31]);
}

/// Reading a section header where its bytes lie gives it back.
proof fn lemma_section_header_at(b: Seq<u8>, off: int, h: Elf32SectionHeader)
    requires
        0 <= off,
        off + 40 <= b.len(),
        b.subrange(off, off + 40) == section_header_bytes(h),
    ensures
        section_header_at(b, off) == h,
{
    let hb = section_header_bytes(h);
    assert forall|i: int| 0 <= i < 40 implies #[trigger] b[off + i] == hb[i] by {
        assert(b.subrange(off, off + 40)[i] == b[off + i]);
    }
    lemma_word_roundtrip(h.sh_name);
    lemma_word_roundtrip(h.sh_type);
    lemma_word_roundtrip(h.sh_flags);
    lemma_word_roundtrip(h.sh_addr);
    lemma_word_roundtrip(h.sh_offset);
    lemma_word_roundtrip(h.sh_size);
    lemma_word_roundtrip(h.sh_link);
    lemma_word_roundtrip(h.sh_info);
    lemma_word_roundtrip(h.sh_addralign);
    lemma_word_roundtrip(h.sh_entsize);
    assert(b[off + 0] == hb[0] && b[off + 1] == hb[1] && b[off + 2] == hb[2] && b[off + 3] == hb[3]);
    assert(b[off + 4] == hb[4] && b[off + 5] == hb[5] && b[off + 6] == hb[6] && b[off + 7] == hb[7]);
    assert(b[off + 8] == hb[8] && b[off + 9] == hb[9] && b[off + 10] == hb[10] && b[off + 11] == hb[11]);
    assert(b[off + 12] == hb[12] && b[off + 13] == hb[13] && b[off + 14] == hb[14] && b[off + 15] == hb[15]);
    assert(b[off + 16] == hb[16] && b[off + 17] == hb[17] && b[off + 18] == hb[18] && b[off + 19] == hb[19]);
    assert(b[off + 20] == hb[20] && b[off + 21] == hb[21] && b[off + 22] == hb[22] && b[off + 23] == hb[23]);
    assert(b[off + 24] == hb[24] && b[off + 25] == hb[25] && b[off + 26] == hb[26] && b[off + 27] == hb[27]);
    assert(b[off + 28] == hb[28] && b[off + 29] == hb[29] && b[off + 30] == hb[30] && b[off + 31] == hb[31]);
    assert(b[off + 32] == hb[32] && b[off + 33] == hb[33] && b[off + 34] == hb[34] && b[off + 35] == hb[35]);
    assert(b[off + 36] == hb[36] && b[off + 37] == hb[37] && b[off + 38] == hb[38] && b[off + 39] == hb[39]);
}

/// No section from `k` on reaches past the end of a file that holds every
/// section before the section header table.
proof fn lemma_no_stray(b: Seq<u8>, k: int)
    requires
        k >= 1,
        forall|i: int| 1 <= i < shnum_of(b) ==> #[trigger] section_inside(b, i),
    ensures
        first_stray_section(b, k) is None,
    decreases shnum_of(b) - k,
{
    if k < shnum_of(b) {
        assert(section_inside(b, k));
        lemma_no_stray(b, k + 1);
    }
}

/// The parts of the file that `e` is, and their sizes.
proof fn lemma_file_parts(e: Elf)
    ensures
        header_bytes(e.file_header).len() == 52,
        joined_bytes(program_header_parts(e.program_header_table@)).len() == 32 * e.program_header_table@.len(),
        joined_bytes(section_views(e)).len() == sizes_before(section_views(e), section_views(e).len() as int),
        joined_bytes(section_header_parts(e.section_header_table@)).len() == 40 * e.section_header_table@.len(),
        sizes_before(section_views(e), section_views(e).len() as int) >= 0,
        forall|i: int| 0 <= i < e.program_header_table@.len() ==> (#[trigger] program_header_parts(e.program_header_table@)[i]).len() == 32,
        forall|i: int| 0 <= i < e.section_header_table@.len() ==> (#[trigger] section_header_parts(e.section_header_table@)[i]).len() == 40,
{
    let pp = program_header_parts(e.program_header_table@);
    let sp = section_header_parts(e.section_header_table@);
    assert forall|i: int| 0 <= i < pp.len() implies (#[trigger] pp[i]).len() == 32 by {}
    assert forall|i: int| 0 <= i < sp.len() implies (#[trigger] sp[i]).len() == 40 by {}
    lemma_joined_len_fixed(pp, 32);
    lemma_joined_len_fixed(sp, 40);
    lemma_joined_len(section_views(e));
    lemma_sizes_monotone(section_views(e), 0, section_views(e).len() as int);
}

/// The program headers of a laid-out ELF are read back from its file.
proof fn lemma_program_headers_read(e: Elf)
    requires
        laid_out(e),
    ensures
        forall|k: int| 0 <= k < e.program_header_table@.len() ==> #[trigger] program_header_at(file_bytes(e), 52 + 32 * k)
            == e.program_header_table@[k],
{
    lemma_file_parts(e);
    let pt = e.program_header_table@;
    let pp = program_header_parts(pt);
    let hb = header_bytes(e.file_header);
    let pb = joined_bytes(pp);
    let rest = joined_bytes(section_views(e)) + joined_bytes(section_header_parts(e.section_header_table@));
    let b = file_bytes(e);
    assert(b =~= (hb + pb) + rest);
    assert forall|k: int| 0 <= k < pt.len() implies #[trigger] program_header_at(b, 52 + 32 * k) == pt[k] by {
        lemma_joined_part(pp, 32, k);
        assert(b.subrange(52 + 32 * k, 52 + 32 * k + 32) =~= pb.subrange(32 * k, 32 * k + 32));
        lemma_program_header_at(b, 52 + 32 * k, pt[k]);
    }
}

/// The section headers of a laid-out ELF are read back from its file.
proof fn lemma_section_headers_read(e: Elf)
    requires
        laid_out(e),
    ensures
        forall|k: int| 0 <= k < e.section_header_table@.len() ==> #[trigger] section_header_at(file_bytes(e),
            e.file_header.e_shoff + 40 * k) == e.section_header_table@[k],
{
    lemma_file_parts(e);
    let st = e.section_header_table@;
    let sp = section_header_parts(st);
    let tb = joined_bytes(sp);
    let front = header_bytes(e.file_header) + joined_bytes(program_header_parts(e.program_header_table@))
        + joined_bytes(section_views(e));
    let b = file_bytes(e);
    let shoff = e.file_header.e_shoff as int;
    assert(front.len() == shoff);
    assert(b =~= front + tb);
    assert forall|k: int| 0 <= k < st.len() implies #[trigger] section_header_at(b, shoff + 40 * k) == st[k] by {
        lemma_joined_part(sp, 40, k);
        assert(b.subrange(shoff + 40 * k, shoff + 40 * k + 40) =~= tb.subrange(40 * k, 40 * k + 40));
        lemma_section_header_at(b, shoff + 40 * k, st[k]);
    }
}

/// The contents of the sections of a laid-out ELF are where their headers put them in its file.
proof fn lemma_sections_read(e: Elf)
    requires
        laid_out(e),
    ensures
        forall|k: int| 0 <= k < section_views(e).len() ==> #[trigger] file_bytes(e).subrange(
            e.section_header_table@[k + 1].sh_offset as int,
            e.section_header_table@[k + 1].sh_offset + e.section_header_table@[k + 1].sh_size) == section_views(e)[k],
        forall|k: int| 0 <= k < section_views(e).len() ==> e.section_header_table@[k + 1].sh_offset
            + #[trigger] e.section_header_table@[k + 1].sh_size <= file_bytes(e).len(),
{
    lemma_file_parts(e);
    let secs = section_views(e);
    let n = secs.len() as int;
    let sb = joined_bytes(secs);
    let front = header_bytes(e.file_header) + joined_bytes(program_header_parts(e.program_header_table@));
    let back = joined_bytes(section_header_parts(e.section_header_table@));
    let b = file_bytes(e);
    let start = 52 + 32 * e.program_header_table@.len();
    assert(front.len() == start);
    assert(b =~= front + sb + back);
    assert forall|k: int| 0 <= k < n implies #[trigger] b.subrange(
            e.section_header_table@[k + 1].sh_offset as int,
            e.section_header_table@[k + 1].sh_offset + e.section_header_table@[k + 1].sh_size) == secs[k] by {
        lemma_joined_sections(secs, k);
        lemma_sizes_monotone(secs, 0, k);
        lemma_sizes_monotone(secs, k + 1, n);
        let lo = start + sizes_before(secs, k);
        assert(b.subrange(lo, lo + secs[k].len())
            =~= sb.subrange(sizes_before(secs, k), sizes_before(secs, k) + secs[k].len()));
    }
    assert forall|k: int| 0 <= k < n implies e.section_header_table@[k + 1].sh_offset
            + #[trigger] e.section_header_table@[k + 1].sh_size <= b.len() by {
        lemma_sizes_monotone(secs, k + 1, n);
    }
}

/// What is written is read back: the file that an ELF laid out as its headers
/// say (see `laid_out`) can be read, and what it holds is that ELF.
#[verifier::spinoff_prover]
#[verifier::rlimit(40)]
pub proof fn lemma_read_back_written(e: Elf)
    requires
        laid_out(e),
    ensures
        read_error(file_bytes(e)) is None,
        elf_read(file_bytes(e), e),
{
    let h = e.file_header;
    let secs = section_views(e);
    let n = secs.len() as int;
    let pt = e.program_header_table@;
    let st = e.section_header_table@;
    let b = file_bytes(e);
    lemma_file_parts(e);
    let rest = joined_bytes(program_header_parts(pt)) + joined_bytes(secs) + joined_bytes(section_header_parts(st));
    assert(b =~= header_bytes(h) + rest);
    lemma_header_read(h, rest);
    lemma_program_headers_read(e);
    lemma_section_headers_read(e);
    lemma_sections_read(e);
    assert(pt =~= Seq::new(phnum_of(b) as nat, |k: int| program_header_at(b, phoff_of(b) + 32 * k)));
    assert(st =~= Seq::new(shnum_of(b) as nat, |k: int| section_header_of(b, k)));
    assert forall|k: int| 0 <= k < n implies #[trigger] section_contents(b, k + 1) == secs[k] by {
        assert(section_header_of(b, k + 1) == st[k + 1]);
    }
    assert(secs =~= Seq::new(if shnum_of(b) > 0 { (shnum_of(b) - 1) as nat } else { 0nat },
        |k: int| section_contents(b, k + 1)));
    assert forall|i: int| 1 <= i < shnum_of(b) implies #[trigger] section_inside(b, i) by {
        assert(section_header_of(b, i) == st[i]);
        assert(st[(i - 1) + 1] == st[i]);
    }
    lemma_no_stray(b, 1);
}

} // verus!
