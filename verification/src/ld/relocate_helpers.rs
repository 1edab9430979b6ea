//! Re-basing the links between the joined tables, and checking the joined
//! symbol table for names defined twice.
use vstd::prelude::*;

use crate::elf_def::{rel_info, section_views, sym_bytes, Elf, Elf32Sym, ElfType, RelocationEntry};
use crate::elf_utils::{
    contents_end, create_new_elf, framed_section_header, framed_segment, is_framed_file_header, lemma_sizes_monotone,
    null_section_header, linked_name, parse_elf_symbols,
    parse_rel_info, rels_bytes, rels_of, rels_to_bytes, section_offset, sizes_before, symbols_of,
    symbols_to_bytes, syms_bytes,
};
use crate::ld::constants::{REL, STRTAB, SYMTAB, TEXT};

verus! {

/// The value that marks "no previous entry" while walking the symbol table.
pub open spec fn no_previous_name() -> u32 {
    0xDEADBEEF
}

/// The value that marks "no previous entry" while walking the relocation table.
pub open spec fn no_previous_offset() -> u32 {
    0x2BADC0DE
}

/// The column `c` of every row of `offsets`.
pub open spec fn column(offsets: Seq<Seq<u32>>, c: int) -> Seq<u32> {
    Seq::new(offsets.len(), |i: int| offsets[i][c])
}

/// Walking the first `k` symbols: the adjustment so far, the index of the file
/// they come from, and the previous name offset. A name offset that does not
/// grow starts the next file's symbols.
pub open spec fn sym_walk(syms: Seq<Elf32Sym>, strtab_offs: Seq<u32>, k: int) -> (int, int, u32)
    decreases k,
{
    if k <= 0 {
        (0, 0, no_previous_name())
    } else {
        let (adj, idx, prev) = sym_walk(syms, strtab_offs, k - 1);
        let name = syms[k - 1].st_name;
        if name <= prev && prev != no_previous_name() {
            (adj + strtab_offs[idx + 1], idx + 1, name)
        } else {
            (adj, idx, name)
        }
    }
}

/// Whether symbol `k` can be re-based: its file has an offset, and nothing overflows.
pub open spec fn sym_step_ok(syms: Seq<Elf32Sym>, strtab_offs: Seq<u32>, k: int) -> bool {
    let (adj, idx, prev) = sym_walk(syms, strtab_offs, k);
    let name = syms[k].st_name;
    let bump = name <= prev && prev != no_previous_name();
    &&& bump ==> idx + 1 < strtab_offs.len() && adj + strtab_offs[idx + 1] <= u32::MAX
    &&& sym_walk(syms, strtab_offs, k + 1).0 + name <= u32::MAX
}

/// Symbol `k` re-based: its name offset moved by its file's string table
/// offset, and its file's index kept in st_other.
pub open spec fn relinked_sym(syms: Seq<Elf32Sym>, strtab_offs: Seq<u32>, k: int) -> Elf32Sym {
    let (adj, idx, _) = sym_walk(syms, strtab_offs, k + 1);
    Elf32Sym { st_name: (adj + syms[k].st_name) as u32, st_other: idx as u8, ..syms[k] }
}

/// Walking the first `k` relocation entries: the symbol and text adjustments,
/// the file index, and the previous offset. An offset that does not grow starts
/// the next file's entries.
pub open spec fn rel_walk(rels: Seq<RelocationEntry>, sym_offs: Seq<u32>, text_offs: Seq<u32>, k: int) -> (int, int, int, u32)
    decreases k,
{
    if k <= 0 {
        (0, 0, 0, no_previous_offset())
    } else {
        let (sadj, tadj, idx, prev) = rel_walk(rels, sym_offs, text_offs, k - 1);
        let off = rels[k - 1].r_offset;
        if off <= prev && prev != no_previous_offset() {
            (sadj + sym_offs[idx + 1], tadj + text_offs[idx + 1], idx + 1, off)
        } else {
            (sadj, tadj, idx, off)
        }
    }
}

/// Whether relocation entry `k` can be re-based without a missing offset or an overflow.
pub open spec fn rel_step_ok(rels: Seq<RelocationEntry>, sym_offs: Seq<u32>, text_offs: Seq<u32>, k: int) -> bool {
    let (sadj, tadj, idx, prev) = rel_walk(rels, sym_offs, text_offs, k);
    let off = rels[k].r_offset;
    let bump = off <= prev && prev != no_previous_offset();
    let next = rel_walk(rels, sym_offs, text_offs, k + 1);
    &&& bump ==> idx + 1 < sym_offs.len() && idx + 1 < text_offs.len()
        && sadj + sym_offs[idx + 1] <= u32::MAX && tadj + text_offs[idx + 1] <= u32::MAX
    &&& next.1 + off <= u32::MAX
    &&& next.0 + rels[k].r_sym <= u32::MAX
}

/// Relocation entry `k` re-based: its offset moved by its file's .text offset
/// and its symbol by its file's .symtab offset.
pub open spec fn relinked_rel(rels: Seq<RelocationEntry>, sym_offs: Seq<u32>, text_offs: Seq<u32>, k: int) -> RelocationEntry {
    let (sadj, tadj, _, _) = rel_walk(rels, sym_offs, text_offs, k + 1);
    RelocationEntry {
        r_offset: (tadj + rels[k].r_offset) as u32,
        r_sym: (sadj + rels[k].r_sym) as u32,
        r_type: rels[k].r_type,
    }
}

/// The sections after relinking.
pub open spec fn relinked(secs: Seq<Seq<u8>>, offsets: Seq<Seq<u32>>) -> Seq<Seq<u8>> {
    relinked_sections(secs, rels_bytes(relinked_rels(secs, offsets)), syms_bytes(relinked_symtab(secs, offsets)))
}

/// The sections of `elf` with .rel and .symtab replaced.
pub open spec fn relinked_sections(secs: Seq<Seq<u8>>, new_rel: Seq<u8>, new_symtab: Seq<u8>) -> Seq<Seq<u8>> {
    secs.update(REL as int, new_rel).update(SYMTAB as int, new_symtab)
}

/// The re-based symbol table of `elf`.
pub open spec fn relinked_symtab(secs: Seq<Seq<u8>>, offsets: Seq<Seq<u32>>) -> Seq<Elf32Sym> {
    let syms = symbols_of(secs[SYMTAB as int]);
    Seq::new(syms.len(), |k: int| relinked_sym(syms, column(offsets, STRTAB as int), k))
}

/// The re-based relocation table of `elf`.
pub open spec fn relinked_rels(secs: Seq<Seq<u8>>, offsets: Seq<Seq<u32>>) -> Seq<RelocationEntry> {
    let rels = rels_of(secs[REL as int]);
    Seq::new(rels.len(), |k: int| relinked_rel(rels, column(offsets, SYMTAB as int), column(offsets, TEXT as int), k))
}

/// Whether `elf` and `offsets` can be relinked: the tables are there, every row
/// has the string table column, each re-basing step has its offset and does not
/// overflow, and the result still fits an ELF.
pub open spec fn relinkable(secs: Seq<Seq<u8>>, offsets: Seq<Seq<u32>>) -> bool {
    let syms = symbols_of(secs[SYMTAB as int]);
    let rels = rels_of(secs[REL as int]);
    &&& secs.len() > SYMTAB
    &&& forall|i: int| 0 <= i < offsets.len() ==> (#[trigger] offsets[i]).len() > STRTAB
    &&& forall|k: int| 0 <= k < syms.len() ==> #[trigger] sym_step_ok(syms, column(offsets, STRTAB as int), k)
    &&& forall|k: int| 0 <= k < rels.len() ==>
        #[trigger] rel_step_ok(rels, column(offsets, SYMTAB as int), column(offsets, TEXT as int), k)
    &&& section_offset(secs, secs.len() as int) <= u32::MAX
    &&& secs.len() + 1 <= u16::MAX
}

/// Whether `relocate_links` can run on the sections `sections` with `offsets`
/// (see `relinkable`): each re-basing step is walked as it would run, and
/// checked before it is taken.
pub fn relinking_possible(sections: &Vec<Vec<u8>>, offsets: &Vec<Vec<u32>>) -> (b: bool)
    ensures
        b == relinkable(sections.deep_view(), offsets.deep_view()),
{
    let ghost secs = sections.deep_view();
    let ghost offs = offsets.deep_view();
    if sections.len() <= SYMTAB || sections.len() >= 0xFFFF {
        return false;
    }
    match contents_end(sections) {
        None => { return false; },
        Some(_) => {},
    }
    let mut strtab_offsets: Vec<u32> = Vec::new();
    let mut symtab_offsets: Vec<u32> = Vec::new();
    let mut text_offsets: Vec<u32> = Vec::new();
    let mut r: usize = 0;
    while r < offsets.len()
        invariant
            offs == offsets.deep_view(),
            r <= offsets@.len(),
            forall|i: int| 0 <= i < r ==> (#[trigger] offs[i]).len() > STRTAB,
            strtab_offsets@ == column(offs, STRTAB as int).subrange(0, r as int),
            symtab_offsets@ == column(offs, SYMTAB as int).subrange(0, r as int),
            text_offsets@ == column(offs, TEXT as int).subrange(0, r as int),
        decreases offsets.len() - r,
    {
        assert(offs[r as int] == offsets@[r as int]@);
        if offsets[r].len() <= STRTAB {
            return false;
        }
        strtab_offsets.push(offsets[r][STRTAB]);
        symtab_offsets.push(offsets[r][SYMTAB]);
        text_offsets.push(offsets[r][TEXT]);
        assert(column(offs, STRTAB as int).subrange(0, r + 1) =~= column(offs, STRTAB as int).subrange(0, r as int).push(offs[r as int][STRTAB as int]));
        assert(column(offs, SYMTAB as int).subrange(0, r + 1) =~= column(offs, SYMTAB as int).subrange(0, r as int).push(offs[r as int][SYMTAB as int]));
        assert(column(offs, TEXT as int).subrange(0, r + 1) =~= column(offs, TEXT as int).subrange(0, r as int).push(offs[r as int][TEXT as int]));
        r = r + 1;
    }
    assert(column(offs, STRTAB as int).subrange(0, r as int) =~= column(offs, STRTAB as int));
    assert(column(offs, SYMTAB as int).subrange(0, r as int) =~= column(offs, SYMTAB as int));
    assert(column(offs, TEXT as int).subrange(0, r as int) =~= column(offs, TEXT as int));

    assert(secs[SYMTAB as int] == sections@[SYMTAB as int]@);
    let symbol_table = parse_elf_symbols(&sections[SYMTAB]);
    let ghost syms = symbol_table@;
    let ghost so = strtab_offsets@;
    let mut adj: u64 = 0;
    let mut idx: usize = 0;
    let mut prev: u32 = 0xDEADBEEF;
    let mut k: usize = 0;
    while k < symbol_table.len()
        invariant
            syms == symbol_table@,
            so == strtab_offsets@,
            secs == sections.deep_view(),
            offs == offsets.deep_view(),
            syms == symbols_of(secs[SYMTAB as int]),
            so == column(offs, STRTAB as int),
            secs.len() > SYMTAB,
            forall|i: int| 0 <= i < offs.len() ==> (#[trigger] offs[i]).len() > STRTAB,
            k <= syms.len(),
            idx <= k,
            forall|j: int| 0 <= j < k ==> #[trigger] sym_step_ok(syms, so, j),
            (adj as int, idx as int, prev) == sym_walk(syms, so, k as int),
            adj <= u32::MAX,
        decreases symbol_table.len() - k,
    {
        let symbol = symbol_table[k];
        assert(symbol == syms[k as int]);
        if symbol.st_name <= prev && prev != 0xDEADBEEF {
            if idx + 1 >= strtab_offsets.len() {
                assert(!sym_step_ok(syms, so, k as int));
                return false;
            }
            if adj + strtab_offsets[idx + 1] as u64 > 0xFFFF_FFFF {
                assert(!sym_step_ok(syms, so, k as int));
                return false;
            }
            adj = adj + strtab_offsets[idx + 1] as u64;
            idx = idx + 1;
        }
        prev = symbol.st_name;
        if adj + symbol.st_name as u64 > 0xFFFF_FFFF {
            assert(!sym_step_ok(syms, so, k as int));
            return false;
        }
        assert(sym_step_ok(syms, so, k as int));
        k = k + 1;
    }

    assert(secs[REL as int] == sections@[REL as int]@);
    let rel_section = parse_rel_info(&sections[REL]);
    let ghost rels = rel_section@;
    let ghost yo = symtab_offsets@;
    let ghost to = text_offsets@;
    let mut sadj: u64 = 0;
    let mut tadj: u64 = 0;
    let mut ridx: usize = 0;
    let mut rprev: u32 = 0x2BADC0DE;
    let mut e: usize = 0;
    while e < rel_section.len()
        invariant
            rels == rel_section@,
            yo == symtab_offsets@,
            to == text_offsets@,
            secs == sections.deep_view(),
            offs == offsets.deep_view(),
            syms == symbols_of(secs[SYMTAB as int]),
            rels == rels_of(secs[REL as int]),
            so == column(offs, STRTAB as int),
            yo == column(offs, SYMTAB as int),
            to == column(offs, TEXT as int),
            secs.len() > SYMTAB,
            section_offset(secs, secs.len() as int) <= u32::MAX,
            secs.len() + 1 <= u16::MAX,
            forall|i: int| 0 <= i < offs.len() ==> (#[trigger] offs[i]).len() > STRTAB,
            forall|j: int| 0 <= j < syms.len() ==> #[trigger] sym_step_ok(syms, so, j),
            yo.len() == to.len(),
            e <= rels.len(),
            ridx <= e,
            forall|j: int| 0 <= j < e ==> #[trigger] rel_step_ok(rels, yo, to, j),
            (sadj as int, tadj as int, ridx as int, rprev) == rel_walk(rels, yo, to, e as int),
            sadj <= u32::MAX,
            tadj <= u32::MAX,
        decreases rel_section.len() - e,
    {
        let entry = rel_section[e];
        assert(entry == rels[e as int]);
        if entry.r_offset <= rprev && rprev != 0x2BADC0DE {
            if ridx + 1 >= symtab_offsets.len() {
                assert(!rel_step_ok(rels, yo, to, e as int));
                return false;
            }
            if sadj + symtab_offsets[ridx + 1] as u64 > 0xFFFF_FFFF || tadj + text_offsets[ridx + 1] as u64 > 0xFFFF_FFFF {
                assert(!rel_step_ok(rels, yo, to, e as int));
                return false;
            }
            sadj = sadj + symtab_offsets[ridx + 1] as u64;
            tadj = tadj + text_offsets[ridx + 1] as u64;
            ridx = ridx + 1;
        }
        rprev = entry.r_offset;
        if tadj + entry.r_offset as u64 > 0xFFFF_FFFF || sadj + entry.r_sym as u64 > 0xFFFF_FFFF {
            assert(!rel_step_ok(rels, yo, to, e as int));
            return false;
        }
        assert(rel_step_ok(rels, yo, to, e as int));
        e = e + 1;
    }
    true
}

/// Whether `check_duplicate_symbols` can run on `elf` (see `duplicates_checkable`).
pub fn duplicates_check_possible(elf: &Elf) -> (b: bool)
    ensures
        b == duplicates_checkable(section_views(*elf)),
{
    let ghost secs = section_views(*elf);
    if elf.sections.len() <= STRTAB {
        return false;
    }
    assert(secs[SYMTAB as int] == elf.sections@[SYMTAB as int]@);
    let syms = parse_elf_symbols(&elf.sections[SYMTAB]);
    if syms.len() == 0 {
        return false;
    }
    let last: u8 = syms[syms.len() - 1].st_other;
    let mut i: usize = 0;
    while i < syms.len()
        invariant
            secs == section_views(*elf),
            secs.len() > STRTAB,
            syms@ == symbols_of(secs[SYMTAB as int]),
            syms@.len() > 0,
            last == syms@.last().st_other,
            i <= syms@.len(),
            forall|j: int| 0 <= j < i ==> (#[trigger] syms@[j]).st_other <= last,
        decreases syms.len() - i,
    {
        if syms[i].st_other > last {
            return false;
        }
        i = i + 1;
    }
    true
}

/// Total size never grows when each section shrinks or keeps its size.
pub proof fn lemma_sizes_shrink(a: Seq<Seq<u8>>, b: Seq<Seq<u8>>, k: int)
    requires
        a.len() == b.len(),
        0 <= k <= a.len(),
        forall|i: int| 0 <= i < a.len() ==> (#[trigger] a[i]).len() <= b[i].len(),
    ensures
        sizes_before(a, k) <= sizes_before(b, k),
    decreases k,
{
    if k > 0 {
        lemma_sizes_shrink(a, b, k - 1);
    }
}

/// Re-bases the links of a joined relocatable: each symbol's name offset moves by
/// its file's .strtab offset (and st_other records the file), and each
/// relocation entry's offset and symbol move by its file's .text and .symtab
/// offsets. A file's entries are recognised by their offsets starting over.
/// The result is framed afresh as a relocatable file (see `create_new_elf`).
pub fn relocate_links(elf: Elf, offsets: &Vec<Vec<u32>>) -> (out: Elf)
    requires
        relinkable(section_views(elf), offsets.deep_view()),
    ensures
        ({
            let secs = relinked(section_views(elf), offsets.deep_view());
            &&& section_views(out) == secs
            &&& is_framed_file_header(out.file_header, secs, ElfType::Relocatable, false)
            &&& out.program_header_table@ == seq![
                framed_segment(secs, 0, 0x00400000, 0x5),
                framed_segment(secs, 1, 0x10010000, 0x6),
            ]
            &&& out.section_header_table@.len() == secs.len() + 1
            &&& out.section_header_table@[0] == null_section_header()
            &&& forall|k: int| 0 <= k < secs.len() ==> #[trigger] out.section_header_table@[k + 1]
                == framed_section_header(secs, k, false)
            &&& crate::elf_file::laid_out(out)
        }),
{
    let ghost offs = offsets.deep_view();
    let ghost secs = section_views(elf);
    let mut strtab_offsets: Vec<u32> = Vec::new();
    let mut symtab_offsets: Vec<u32> = Vec::new();
    let mut text_offsets: Vec<u32> = Vec::new();
    let mut r: usize = 0;
    while r < offsets.len()
        invariant
            offs == offsets.deep_view(),
            forall|i: int| 0 <= i < offs.len() ==> (#[trigger] offs[i]).len() > STRTAB,
            r <= offsets@.len(),
            strtab_offsets@ == column(offs, STRTAB as int).subrange(0, r as int),
            symtab_offsets@ == column(offs, SYMTAB as int).subrange(0, r as int),
            text_offsets@ == column(offs, TEXT as int).subrange(0, r as int),
        decreases offsets.len() - r,
    {
        assert(offs[r as int] == offsets@[r as int]@);
        strtab_offsets.push(offsets[r][STRTAB]);
        symtab_offsets.push(offsets[r][SYMTAB]);
        text_offsets.push(offsets[r][TEXT]);
        assert(column(offs, STRTAB as int).subrange(0, r + 1) =~= column(offs, STRTAB as int).subrange(0, r as int).push(offs[r as int][STRTAB as int]));
        assert(column(offs, SYMTAB as int).subrange(0, r + 1) =~= column(offs, SYMTAB as int).subrange(0, r as int).push(offs[r as int][SYMTAB as int]));
        assert(column(offs, TEXT as int).subrange(0, r + 1) =~= column(offs, TEXT as int).subrange(0, r as int).push(offs[r as int][TEXT as int]));
        r = r + 1;
    }
    assert(column(offs, STRTAB as int).subrange(0, r as int) =~= column(offs, STRTAB as int));
    assert(column(offs, SYMTAB as int).subrange(0, r as int) =~= column(offs, SYMTAB as int));
    assert(column(offs, TEXT as int).subrange(0, r as int) =~= column(offs, TEXT as int));

    // Symbols: name offsets into the joined string table.
    assert(secs[SYMTAB as int] == elf.sections@[SYMTAB as int]@);
    let symbol_table = parse_elf_symbols(&elf.sections[SYMTAB]);
    let ghost syms = symbol_table@;
    let ghost so = strtab_offsets@;
    let mut new_syms: Vec<Elf32Sym> = Vec::new();
    let mut adj: u32 = 0;
    let mut idx: usize = 0;
    let mut prev: u32 = 0xDEADBEEF;
    let mut k: usize = 0;
    while k < symbol_table.len()
        invariant
            syms == symbol_table@,
            so == strtab_offsets@,
            forall|j: int| 0 <= j < syms.len() ==> #[trigger] sym_step_ok(syms, so, j),
            k <= syms.len(),
            (adj as int, idx as int, prev) == sym_walk(syms, so, k as int),
            new_syms@.len() == k,
            forall|j: int| 0 <= j < k ==> #[trigger] new_syms@[j] == relinked_sym(syms, so, j),
        decreases symbol_table.len() - k,
    {
        let symbol = symbol_table[k];
        assert(sym_step_ok(syms, so, k as int));
        assert(symbol == syms[k as int]);
        if symbol.st_name <= prev && prev != 0xDEADBEEF {
            assert(idx + 1 < so.len());
            assert(so.len() == strtab_offsets.len());
            adj = adj + strtab_offsets[idx + 1];
            idx = idx + 1;
        }
        prev = symbol.st_name;
        let new_symbol = Elf32Sym { st_name: adj + symbol.st_name, st_other: idx as u8, ..symbol };
        new_syms.push(new_symbol);
        k = k + 1;
    }
    let new_symbol_table = symbols_to_bytes(&new_syms);
    assert(new_syms@ =~= relinked_symtab(secs, offs));

    // Relocation entries: offsets into the joined .text and symbols of the joined table.
    assert(secs[REL as int] == elf.sections@[REL as int]@);
    let rel_section = parse_rel_info(&elf.sections[REL]);
    let ghost rels = rel_section@;
    let ghost yo = symtab_offsets@;
    let ghost to = text_offsets@;
    let mut new_rels: Vec<RelocationEntry> = Vec::new();
    let mut sadj: u32 = 0;
    let mut tadj: u32 = 0;
    let mut ridx: usize = 0;
    let mut rprev: u32 = 0x2BADC0DE;
    let mut e: usize = 0;
    while e < rel_section.len()
        invariant
            rels == rel_section@,
            yo == symtab_offsets@,
            to == text_offsets@,
            forall|j: int| 0 <= j < rels.len() ==> #[trigger] rel_step_ok(rels, yo, to, j),
            e <= rels.len(),
            (sadj as int, tadj as int, ridx as int, rprev) == rel_walk(rels, yo, to, e as int),
            new_rels@.len() == e,
            forall|j: int| 0 <= j < e ==> #[trigger] new_rels@[j] == relinked_rel(rels, yo, to, j),
        decreases rel_section.len() - e,
    {
        let entry = rel_section[e];
        assert(rel_step_ok(rels, yo, to, e as int));
        assert(entry == rels[e as int]);
        if entry.r_offset <= rprev && rprev != 0x2BADC0DE {
            assert(ridx + 1 < yo.len() && ridx + 1 < to.len());
            sadj = sadj + symtab_offsets[ridx + 1];
            tadj = tadj + text_offsets[ridx + 1];
            ridx = ridx + 1;
        }
        rprev = entry.r_offset;
        let new_entry = RelocationEntry {
            r_offset: tadj + entry.r_offset,
            r_sym: sadj + entry.r_sym,
            r_type: entry.r_type,
        };
        new_rels.push(new_entry);
        e = e + 1;
    }
    let new_rel_section = rels_to_bytes(&new_rels);
    assert(new_rels@ =~= relinked_rels(secs, offs));

    // The new ELF: every section kept but .rel and .symtab.
    let ghost target = relinked_sections(secs, new_rel_section@, new_symbol_table@);
    let mut new_sections = elf.sections;
    let ghost before = new_sections@;
    new_sections.set(REL, new_rel_section);
    new_sections.set(SYMTAB, new_symbol_table);
    assert forall|j: int| 0 <= j < target.len() implies new_sections.deep_view()[j] == #[trigger] target[j] by {
        if j != REL && j != SYMTAB {
            assert(new_sections@[j] == before[j]);
            assert(secs[j] == before[j]@);
        }
    }
    assert(new_sections.deep_view() =~= target);
    proof {
        lemma_symtab_not_longer(secs, offs);
        lemma_rels_not_longer(secs, offs);
        lemma_sizes_shrink(target, secs, secs.len() as int);
    }
    create_new_elf(new_sections, ElfType::Relocatable, false)
}

/// The re-based symbol table is no longer than the one it replaces.
proof fn lemma_symtab_not_longer(secs: Seq<Seq<u8>>, offs: Seq<Seq<u32>>)
    requires
        secs.len() > SYMTAB,
    ensures
        syms_bytes(relinked_symtab(secs, offs)).len() <= secs[SYMTAB as int].len(),
{
    let t = relinked_symtab(secs, offs);
    crate::elf_utils::lemma_syms_bytes_layout(t);
    let n = secs[SYMTAB as int].len();
    assert(16 * (n / 16) <= n) by (nonlinear_arith);
}

/// The re-based relocation table is no longer than the one it replaces.
proof fn lemma_rels_not_longer(secs: Seq<Seq<u8>>, offs: Seq<Seq<u32>>)
    requires
        secs.len() > SYMTAB,
    ensures
        rels_bytes(relinked_rels(secs, offs)).len() <= secs[REL as int].len(),
{
    let t = relinked_rels(secs, offs);
    crate::elf_utils::lemma_rels_bytes_layout(t);
    let n = secs[REL as int].len();
    assert(8 * (n / 8) <= n) by (nonlinear_arith);
}


/// A name defined twice, in the global scope or in one file's local scope.
#[derive(Debug, PartialEq, Clone)]
pub enum DuplicateSymbolError {
    Global(String),
    Local(String),
}

impl DuplicateSymbolError {
    /// The error as a sentence.
    pub fn message(&self) -> (s: String)
        ensures
            s@ == match self {
                DuplicateSymbolError::Global(n) => "Duplicate symbol "@ + n@ + " found in global scope"@,
                DuplicateSymbolError::Local(n) => "Duplicate symbol "@ + n@ + " found in local scope"@,
            },
    {
        let mut s = String::new();
        s.append("Duplicate symbol ");
        proof { reveal_strlit("Duplicate symbol "); }
        match self {
            DuplicateSymbolError::Global(n) => {
                s.append(n.as_str());
                s.append(" found in global scope");
                proof { reveal_strlit(" found in global scope"); }
            },
            DuplicateSymbolError::Local(n) => {
                s.append(n.as_str());
                s.append(" found in local scope");
                proof { reveal_strlit(" found in local scope"); }
            },
        }
        s
    }
}

/// The names of the defined (non-zero value) global symbols, in table order.
pub open spec fn global_names(syms: Seq<Elf32Sym>, strtab: Seq<u8>) -> Seq<Seq<char>>
    decreases syms.len(),
{
    if syms.len() == 0 {
        Seq::empty()
    } else {
        let s = syms.last();
        global_names(syms.drop_last(), strtab) + if s.st_value != 0 && s.st_info >> 4 == 1 {
            seq![linked_name(strtab, s.st_name)]
        } else {
            Seq::empty()
        }
    }
}

/// The names of the local symbols of scope `scope` (their st_other), in table order.
pub open spec fn local_names(syms: Seq<Elf32Sym>, strtab: Seq<u8>, scope: int) -> Seq<Seq<char>>
    decreases syms.len(),
{
    if syms.len() == 0 {
        Seq::empty()
    } else {
        let s = syms.last();
        local_names(syms.drop_last(), strtab, scope) + if s.st_other == scope && s.st_info >> 4 == 0 {
            seq![linked_name(strtab, s.st_name)]
        } else {
            Seq::empty()
        }
    }
}

/// The first name in `names` that repeats an earlier one.
pub open spec fn first_dup(names: Seq<Seq<char>>) -> Option<Seq<char>>
    decreases names.len(),
{
    if names.len() == 0 {
        None
    } else if first_dup(names.drop_last()) is Some {
        first_dup(names.drop_last())
    } else if exists|i: int| 0 <= i < names.len() - 1 && names[i] == names.last() {
        Some(names.last())
    } else {
        None
    }
}

/// The first repeated local name, over the scopes below `count` in order.
pub open spec fn first_local_dup(syms: Seq<Elf32Sym>, strtab: Seq<u8>, count: int) -> Option<Seq<char>>
    decreases count,
{
    if count <= 0 {
        None
    } else if first_local_dup(syms, strtab, count - 1) is Some {
        first_local_dup(syms, strtab, count - 1)
    } else {
        first_dup(local_names(syms, strtab, count - 1))
    }
}

/// Finds the first name that repeats an earlier one.
fn find_duplicate(names: &Vec<String>) -> (r: Option<usize>)
    ensures
        match first_dup(names.deep_view()) {
            Some(n) => r matches Some(j) && j < names@.len() && names@[j as int]@ == n,
            None => r is None,
        },
{
    let ghost all = names.deep_view();
    let mut j: usize = 0;
    while j < names.len()
        invariant
            all == names.deep_view(),
            j <= names@.len(),
            first_dup(all.subrange(0, j as int)) is None,
        decreases names.len() - j,
    {
        let ghost pre = all.subrange(0, j as int);
        let ghost cur = all.subrange(0, j + 1);
        assert(cur.drop_last() =~= pre);
        assert(cur.last() == names@[j as int]@);
        let mut i: usize = 0;
        while i < j
            invariant
                all == names.deep_view(),
                j < names@.len(),
                i <= j,
                cur == all.subrange(0, j + 1),
                first_dup(cur.drop_last()) is None,
                cur.last() == names@[j as int]@,
                forall|k: int| 0 <= k < i ==> cur[k] != cur.last(),
            decreases j - i,
        {
            assert(cur[i as int] == names@[i as int]@);
            if names[i] == names[j] {
                proof {
                    assert(cur[i as int] == cur.last());
                    assert(first_dup(cur) == Some(cur.last()));
                    lemma_first_dup_prefix(all, j + 1);
                }
                return Some(j);
            }
            i = i + 1;
        }
        j = j + 1;
    }
    assert(all.subrange(0, j as int) =~= all);
    None
}

/// A repetition within a prefix is the first repetition of the whole.
proof fn lemma_first_dup_prefix(all: Seq<Seq<char>>, k: int)
    requires
        0 <= k <= all.len(),
        first_dup(all.subrange(0, k)) is Some,
    ensures
        first_dup(all) == first_dup(all.subrange(0, k)),
    decreases all.len() - k,
{
    if k < all.len() {
        let next = all.subrange(0, k + 1);
        assert(next.drop_last() =~= all.subrange(0, k));
        lemma_first_dup_prefix(all, k + 1);
    } else {
        assert(all.subrange(0, k) =~= all);
    }
}

/// The names of `syms` picked by `global` (defined globals) or by a scope (its locals).
fn collect_names(syms: &Vec<Elf32Sym>, strtab: &Vec<u8>, global: bool, scope: u8) -> (names: Vec<String>)
    ensures
        names.deep_view() == if global { global_names(syms@, strtab@) } else { local_names(syms@, strtab@, scope as int) },
{
    let ghost want = |s: Seq<Elf32Sym>| if global { global_names(s, strtab@) } else { local_names(s, strtab@, scope as int) };
    let mut names: Vec<String> = Vec::new();
    let mut k: usize = 0;
    while k < syms.len()
        invariant
            k <= syms@.len(),
            want == (|s: Seq<Elf32Sym>| if global { global_names(s, strtab@) } else { local_names(s, strtab@, scope as int) }),
            names.deep_view() == want(syms@.subrange(0, k as int)),
        decreases syms.len() - k,
    {
        let sym = syms[k];
        let ghost sub = syms@.subrange(0, k + 1);
        assert(sub.drop_last() =~= syms@.subrange(0, k as int));
        assert(sub.last() == sym);
        let picked = if global { sym.st_value != 0 && sym.get_bind() == 1 } else { sym.st_other == scope && sym.get_bind() == 0 };
        if picked {
            let n = sym.get_linked_name(strtab);
            let ghost before = names.deep_view();
            names.push(n);
            assert(names.deep_view() =~= before.push(n@));
            assert(want(sub) =~= before + seq![n@]);
        } else {
            assert(want(sub) =~= want(syms@.subrange(0, k as int)));
        }
        k = k + 1;
    }
    assert(syms@.subrange(0, k as int) =~= syms@);
    names
}

/// Once a scope has a repeated local name, later scopes do not change the first one found.
proof fn lemma_first_local_dup_mono(syms: Seq<Elf32Sym>, strtab: Seq<u8>, a: int, b: int)
    requires
        0 <= a <= b,
        first_local_dup(syms, strtab, a) is Some,
    ensures
        first_local_dup(syms, strtab, b) == first_local_dup(syms, strtab, a),
    decreases b - a,
{
    if a < b {
        lemma_first_local_dup_mono(syms, strtab, a, b - 1);
    }
}

/// Whether `check_duplicate_symbols` can read the sections `secs`: they hold a string table and
/// a non-empty symbol table whose last symbol has the highest scope.
pub open spec fn duplicates_checkable(secs: Seq<Seq<u8>>) -> bool {
    let syms = symbols_of(secs[SYMTAB as int]);
    &&& secs.len() > STRTAB
    &&& syms.len() > 0
    &&& forall|i: int| 0 <= i < syms.len() ==> (#[trigger] syms[i]).st_other <= syms.last().st_other
}

/// Checks the joined symbol table: first that no defined global name repeats,
/// then, scope by scope (the file index in st_other), that no local name repeats.
/// The first repetition found is the error.
pub fn check_duplicate_symbols(elf: &Elf) -> (r: Result<(), DuplicateSymbolError>)
    requires
        duplicates_checkable(section_views(*elf)),
    ensures
        ({
            let syms = symbols_of(section_views(*elf)[SYMTAB as int]);
            let strtab = section_views(*elf)[STRTAB as int];
            match first_dup(global_names(syms, strtab)) {
                Some(n) => r matches Err(DuplicateSymbolError::Global(s)) && s@ == n,
                None => match first_local_dup(syms, strtab, syms.last().st_other + 1) {
                    Some(n) => r matches Err(DuplicateSymbolError::Local(s)) && s@ == n,
                    None => r is Ok,
                },
            }
        }),
{
    assert(section_views(*elf)[SYMTAB as int] == elf.sections@[SYMTAB as int]@);
    assert(section_views(*elf)[STRTAB as int] == elf.sections@[STRTAB as int]@);
    let symtab = parse_elf_symbols(&elf.sections[SYMTAB]);
    let strtab = &elf.sections[STRTAB];
    let global_list = collect_names(&symtab, strtab, true, 0);
    match find_duplicate(&global_list) {
        Some(j) => {
            return Err(DuplicateSymbolError::Global(global_list[j].clone()));
        },
        None => {},
    }
    let last_scope: u8 = symtab[symtab.len() - 1].st_other;
    let num_of_scopes: usize = last_scope as usize + 1;
    let mut scope: usize = 0;
    while scope < num_of_scopes
        invariant
            symtab@ == symbols_of(section_views(*elf)[SYMTAB as int]),
            strtab@ == section_views(*elf)[STRTAB as int],
            num_of_scopes == last_scope + 1,
            last_scope == symtab@.last().st_other,
            symtab@.len() > 0,
            first_dup(global_names(symtab@, strtab@)) is None,
            last_scope <= 255,
            scope <= num_of_scopes,
            first_local_dup(symtab@, strtab@, scope as int) is None,
        decreases num_of_scopes - scope,
    {
        let scope_list = collect_names(&symtab, strtab, false, scope as u8);
        match find_duplicate(&scope_list) {
            Some(j) => {
                proof {
                    lemma_first_local_dup_mono(symtab@, strtab@, scope + 1, num_of_scopes as int);
                }
                return Err(DuplicateSymbolError::Local(scope_list[j].clone()));
            },
            None => {},
        }
        scope = scope + 1;
    }
    Ok(())
}

} // verus!
