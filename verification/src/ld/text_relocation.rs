//! Patching .text with the addresses that relocation entries ask for.
use vstd::prelude::*;

use crate::elf_def::{section_views, Elf, Elf32Sym, ElfType, RelocationEntry, RelocationEntryType};
use crate::elf_utils::{
    contents_end, create_new_elf, first_global_named, sizes_before, framed_section_header, linked_name, parse_elf_symbols, parse_rel_info, rels_of,
    section_offset, symbols_of,
};
use crate::implementation::write_word_be;
use crate::words::{be_bytes_u32, read_word_be, word_at};

verus! {

/// Why .text could not be relocated.
#[derive(Debug)]
pub enum TextRelocationError {
    UndefinedSymbol(String),
    UnimplementedRelType(RelocationEntryType),
}

impl TextRelocationError {
    /// The error as a sentence.
    pub fn message(&self) -> (s: String)
        ensures
            s@ == match self {
                TextRelocationError::UndefinedSymbol(n) => "Symbol "@ + n@ + " not found in any scope"@,
                TextRelocationError::UnimplementedRelType(t) => "Relocation type "@ + t.spelled() + " not yet implmented"@,
            },
    {
        let mut s = String::new();
        match self {
            TextRelocationError::UndefinedSymbol(n) => {
                s.append("Symbol ");
                s.append(n.as_str());
                s.append(" not found in any scope");
                proof { reveal_strlit("Symbol "); reveal_strlit(" not found in any scope"); }
            },
            TextRelocationError::UnimplementedRelType(t) => {
                s.append("Relocation type ");
                let name = t.name();
                s.append(name.as_str());
                s.append(" not yet implmented");
                proof { reveal_strlit("Relocation type "); reveal_strlit(" not yet implmented"); }
            },
        }
        s
    }
}

/// The symbol that symbol `idx` stands for: itself when it has a value, and
/// otherwise the first global symbol of the same name.
pub open spec fn linked_symbol(syms: Seq<Elf32Sym>, strtab: Seq<u8>, idx: int) -> Option<Elf32Sym> {
    if syms[idx].st_value == 0 {
        match first_global_named(syms, strtab, linked_name(strtab, syms[idx].st_name), 0) {
            Some(i) => Some(syms[i]),
            None => None,
        }
    } else {
        Some(syms[idx])
    }
}

/// The symbol index a relocation entry refers to.
pub open spec fn rel_symbol_index(e: RelocationEntry) -> int {
    (e.r_sym >> 5u32) as int
}

/// Whether entry `e` cannot be applied: its symbol is undefined or its type is not implemented.
pub open spec fn entry_fails(syms: Seq<Elf32Sym>, strtab: Seq<u8>, e: RelocationEntry) -> bool {
    linked_symbol(syms, strtab, rel_symbol_index(e)) is None
        || !(e.r_type == RelocationEntryType::Pc16 || e.r_type == RelocationEntryType::R26)
}

/// The bits an applied entry ors into its word: the word distance from the
/// entry to the symbol for a branch, the symbol's word address for a jump.
pub open spec fn rel_value(e: RelocationEntry, sym: Elf32Sym) -> u32 {
    if e.r_type == RelocationEntryType::Pc16 {
        (((sym.st_value as i32) - (e.r_offset as i32)) as u32) >> 2u32
    } else {
        sym.st_value >> 2u32
    }
}

/// `text` with the word at `off` or-ed with `v`.
pub open spec fn patched(text: Seq<u8>, off: int, v: u32) -> Seq<u8> {
    let w = be_bytes_u32(word_at(text, off) | v);
    text.update(off, w[0]).update(off + 1, w[1]).update(off + 2, w[2]).update(off + 3, w[3])
}

/// .text after the first `k` entries are applied.
pub open spec fn text_after(text: Seq<u8>, syms: Seq<Elf32Sym>, strtab: Seq<u8>, rels: Seq<RelocationEntry>, k: int) -> Seq<u8>
    decreases k,
{
    if k <= 0 {
        text
    } else {
        let prev = text_after(text, syms, strtab, rels, k - 1);
        let e = rels[k - 1];
        match linked_symbol(syms, strtab, rel_symbol_index(e)) {
            Some(sym) => patched(prev, e.r_offset as int, rel_value(e, sym)),
            None => prev,
        }
    }
}

/// Whether none of the first `k` entries fails.
pub open spec fn none_fail_before(syms: Seq<Elf32Sym>, strtab: Seq<u8>, rels: Seq<RelocationEntry>, k: int) -> bool {
    forall|j: int| 0 <= j < k ==> !entry_fails(syms, strtab, #[trigger] rels[j])
}

/// What entry `k` needs once every entry before it applied: a symbol index in
/// the table and, when it applies too, a word inside .text and a branch
/// distance that fits a signed word.
pub open spec fn entry_ok(syms: Seq<Elf32Sym>, strtab: Seq<u8>, rels: Seq<RelocationEntry>, text_len: int, k: int) -> bool {
    let e = rels[k];
    &&& rel_symbol_index(e) < syms.len()
    &&& !entry_fails(syms, strtab, e) ==> {
        let sym = linked_symbol(syms, strtab, rel_symbol_index(e))->0;
        &&& e.r_offset + 4 <= text_len
        &&& e.r_type == RelocationEntryType::Pc16 ==> i32::MIN <= (sym.st_value as i32) - (e.r_offset as i32) <= i32::MAX
    }
}

/// The sections of the executable: .text patched and .rel dropped.
pub open spec fn exec_sections(secs: Seq<Seq<u8>>, text: Seq<u8>) -> Seq<Seq<u8>> {
    seq![text] + secs.subrange(1, 2) + secs.subrange(3, secs.len() as int)
}

/// Whether `relocate_text_entries` can run on the sections `secs` (see `entry_ok`), and the
/// executable it makes still fits an ELF.
pub open spec fn text_relocatable(secs: Seq<Seq<u8>>) -> bool {
    let syms = symbols_of(secs[3]);
    let strtab = secs[4];
    let rels = rels_of(secs[2]);
    &&& secs.len() > 4
    &&& forall|k: int| 0 <= k < rels.len() && none_fail_before(syms, strtab, rels, k) ==>
        #[trigger] entry_ok(syms, strtab, rels, secs[0].len() as int, k)
    &&& section_offset(secs, secs.len() as int) <= u32::MAX
    &&& secs.len() <= u16::MAX
}

/// The first failing entry, if any.
pub open spec fn first_failure(syms: Seq<Elf32Sym>, strtab: Seq<u8>, rels: Seq<RelocationEntry>) -> Option<int> {
    if exists|k: int| 0 <= k < rels.len() && entry_fails(syms, strtab, #[trigger] rels[k]) {
        Some(choose|k: int| 0 <= k < rels.len() && entry_fails(syms, strtab, #[trigger] rels[k])
            && none_fail_before(syms, strtab, rels, k))
    } else {
        None
    }
}

/// The size of two lists of sections together is the sum of their sizes.
pub proof fn lemma_sizes_concat(a: Seq<Seq<u8>>, b: Seq<Seq<u8>>)
    ensures
        sizes_before(a + b, (a + b).len() as int) == sizes_before(a, a.len() as int) + sizes_before(b, b.len() as int),
    decreases b.len(),
{
    if b.len() > 0 {
        let b0 = b.drop_last();
        lemma_sizes_concat(a, b0);
        assert((a + b).drop_last() =~= a + b0);
        assert((a + b).subrange(0, (a + b).len() - 1) =~= a + b0);
        lemma_sizes_prefix(a + b, (a + b).len() - 1);
        lemma_sizes_prefix(b, b.len() - 1);
        assert(b.subrange(0, b.len() - 1) =~= b0);
    }
}

/// Counting the first `k` sections of a list is counting the list cut to `k`.
pub proof fn lemma_sizes_prefix(s: Seq<Seq<u8>>, k: int)
    requires
        0 <= k <= s.len(),
    ensures
        sizes_before(s, k) == sizes_before(s.subrange(0, k), k),
    decreases k,
{
    if k > 0 {
        lemma_sizes_prefix(s, k - 1);
        lemma_sizes_prefix(s.subrange(0, k), k - 1);
        assert(s.subrange(0, k).subrange(0, k - 1) =~= s.subrange(0, k - 1));
    }
}

/// The symbol that symbol `symbol_idx` stands for (see `linked_symbol`).
fn get_linked_symbol(symtab: &Vec<Elf32Sym>, strtab: &Vec<u8>, symbol_idx: usize) -> (r: Option<Elf32Sym>)
    requires
        symbol_idx < symtab@.len(),
    ensures
        r == linked_symbol(symtab@, strtab@, symbol_idx as int),
{
    if symtab[symbol_idx].st_value == 0 {
        let name_to_match = symtab[symbol_idx].get_linked_name(strtab);
        let mut i: usize = 0;
        while i < symtab.len()
            invariant
                i <= symtab@.len(),
                symbol_idx < symtab@.len(),
                symtab@[symbol_idx as int].st_value == 0,
                name_to_match@ == linked_name(strtab@, symtab@[symbol_idx as int].st_name),
                first_global_named(symtab@, strtab@, name_to_match@, 0)
                    == first_global_named(symtab@, strtab@, name_to_match@, i as int),
            decreases symtab.len() - i,
        {
            let candidate = symtab[i];
            let n = candidate.get_linked_name(strtab);
            if n == name_to_match && candidate.get_bind() == 1 {
                assert(candidate == symtab@[i as int]);
                assert(first_global_named(symtab@, strtab@, name_to_match@, i as int) == Some(i as int));
                return Some(candidate);
            }
            i = i + 1;
        }
        None
    } else {
        Some(symtab[symbol_idx])
    }
}

/// A failing entry found after none failed before it is the first failure.
proof fn lemma_first_failure(syms: Seq<Elf32Sym>, strtab: Seq<u8>, rels: Seq<RelocationEntry>, k: int)
    requires
        0 <= k < rels.len(),
        entry_fails(syms, strtab, rels[k]),
        none_fail_before(syms, strtab, rels, k),
    ensures
        first_failure(syms, strtab, rels) == Some(k),
{
    let c = choose|c: int| 0 <= c < rels.len() && entry_fails(syms, strtab, #[trigger] rels[c])
        && none_fail_before(syms, strtab, rels, c);
    assert(0 <= c < rels.len() && entry_fails(syms, strtab, rels[c]) && none_fail_before(syms, strtab, rels, c));
    if c < k {
        assert(!entry_fails(syms, strtab, rels[c]));
    } else if c > k {
        assert(!entry_fails(syms, strtab, rels[k]));
    }
}

/// Applies each relocation entry to .text, in order: a branch (Pc16) gets the
/// word distance to its symbol, a jump (R26) its symbol's word address, or-ed
/// into the word at the entry's offset. A symbol without a value is looked up
/// among the globals by name. The first entry whose symbol is undefined, or
/// whose type is not implemented, is the error. The result is an executable
/// with the patched .text and without .rel.
pub fn relocate_text_entries(adjusted_checked_elf: Elf, _offsets: &Vec<Vec<u32>>) -> (r: Result<Elf, TextRelocationError>)
    requires
        text_relocatable(section_views(adjusted_checked_elf)),
    ensures
        ({
            let secs = section_views(adjusted_checked_elf);
            let syms = symbols_of(secs[3]);
            let strtab = secs[4];
            let rels = rels_of(secs[2]);
            match first_failure(syms, strtab, rels) {
                Some(k) => {
                    let e = rels[k];
                    if linked_symbol(syms, strtab, rel_symbol_index(e)) is None {
                        r matches Err(TextRelocationError::UndefinedSymbol(n))
                            && n@ == linked_name(strtab, syms[rel_symbol_index(e)].st_name)
                    } else {
                        r matches Err(TextRelocationError::UnimplementedRelType(t)) && t == e.r_type
                    }
                },
                None => r matches Ok(out) && {
                    let new_secs = exec_sections(secs, text_after(secs[0], syms, strtab, rels, rels.len() as int));
                    &&& section_views(out) == new_secs
                    &&& out.file_header.e_type == 2
                    &&& crate::elf_file::laid_out(out)
                    &&& out.section_header_table@.len() == new_secs.len() + 1
                    &&& forall|k: int| 0 <= k < new_secs.len() ==> #[trigger] out.section_header_table@[k + 1]
                        == framed_section_header(new_secs, k, false)
                },
            }
        }),
{
    let ghost secs = section_views(adjusted_checked_elf);
    assert(secs[0] == adjusted_checked_elf.sections@[0]@);
    assert(secs[2] == adjusted_checked_elf.sections@[2]@);
    assert(secs[3] == adjusted_checked_elf.sections@[3]@);
    assert(secs[4] == adjusted_checked_elf.sections@[4]@);
    let mut new_text_section: Vec<u8> = adjusted_checked_elf.sections[0].clone();
    let symbol_table = parse_elf_symbols(&adjusted_checked_elf.sections[3]);
    let string_table = &adjusted_checked_elf.sections[4];
    let relocation_entries = parse_rel_info(&adjusted_checked_elf.sections[2]);
    let ghost syms = symbol_table@;
    let ghost strtab = string_table@;
    let ghost rels = relocation_entries@;
    let mut k: usize = 0;
    while k < relocation_entries.len()
        invariant
            secs == section_views(adjusted_checked_elf),
            text_relocatable(section_views(adjusted_checked_elf)),
            syms == symbol_table@,
            syms == symbols_of(secs[3]),
            strtab == string_table@,
            strtab == secs[4],
            rels == relocation_entries@,
            rels == rels_of(secs[2]),
            k <= rels.len(),
            none_fail_before(syms, strtab, rels, k as int),
            new_text_section@ == text_after(secs[0], syms, strtab, rels, k as int),
            new_text_section@.len() == secs[0].len(),
        decreases relocation_entries.len() - k,
    {
        let entry = relocation_entries[k];
        assert(entry_ok(syms, strtab, rels, secs[0].len() as int, k as int));
        let idx: usize = (entry.r_sym >> 5) as usize;
        let linked_symbol = match get_linked_symbol(&symbol_table, string_table, idx) {
            Some(sym) => sym,
            None => {
                proof { lemma_first_failure(syms, strtab, rels, k as int); }
                return Err(TextRelocationError::UndefinedSymbol(symbol_table[idx].get_linked_name(string_table)));
            },
        };
        let value: u32 = match entry.r_type {
            RelocationEntryType::Pc16 => {
                let symbol_address: u32 = linked_symbol.st_value;
                let pc_rel: u32 = entry.r_offset;
                (((symbol_address as i32) - (pc_rel as i32)) as u32) >> 2
            },
            RelocationEntryType::R26 => linked_symbol.st_value >> 2,
            _ => {
                proof { lemma_first_failure(syms, strtab, rels, k as int); }
                return Err(TextRelocationError::UnimplementedRelType(entry.r_type));
            },
        };
        let text_offset: usize = entry.r_offset as usize;
        let old_value: u32 = read_word_be(&new_text_section, text_offset);
        write_word_be(&mut new_text_section, text_offset, old_value | value);
        proof {
            assert forall|j: int| 0 <= j < k + 1 implies !entry_fails(syms, strtab, #[trigger] rels[j]) by {
                if j < k { assert(none_fail_before(syms, strtab, rels, k as int)); }
            }
        }
        k = k + 1;
    }
    proof {
        if exists|j: int| 0 <= j < rels.len() && entry_fails(syms, strtab, #[trigger] rels[j]) {
            let j = choose|j: int| 0 <= j < rels.len() && entry_fails(syms, strtab, #[trigger] rels[j]);
            assert(!entry_fails(syms, strtab, rels[j]));
        }
    }
    let mut exec_secs: Vec<Vec<u8>> = Vec::new();
    exec_secs.push(new_text_section);
    let mut s: usize = 1;
    while s < adjusted_checked_elf.sections.len()
        invariant
            secs == section_views(adjusted_checked_elf),
            1 <= s <= secs.len(),
            secs.len() > 4,
            exec_secs@.len() == if s <= 2 { s as int } else { s - 1 },
            exec_secs@[0]@ == text_after(secs[0], syms, strtab, rels, rels.len() as int),
            forall|j: int| 1 <= j < s && j != 2 ==> (#[trigger] secs[j]) == exec_secs@[if j < 2 { j } else { j - 1 }]@,
        decreases adjusted_checked_elf.sections.len() - s,
    {
        if s != 2 {
            assert(secs[s as int] == adjusted_checked_elf.sections@[s as int]@);
            exec_secs.push(adjusted_checked_elf.sections[s].clone());
        }
        s = s + 1;
    }
    let ghost target = exec_sections(secs, text_after(secs[0], syms, strtab, rels, rels.len() as int));
    assert forall|j: int| 0 <= j < target.len() implies exec_secs.deep_view()[j] == #[trigger] target[j] by {
        if j == 1 {
            assert(secs[1] == exec_secs@[1]@);
        } else if j >= 2 {
            assert(secs[j + 1] == exec_secs@[j]@);
        }
    }
    assert(exec_secs.deep_view() =~= target);
    proof {
        let t0: Seq<Seq<u8>> = seq![target[0]];
        let s0: Seq<Seq<u8>> = secs.subrange(0, 1);
        let a = secs.subrange(1, 2);
        let b = secs.subrange(2, 3);
        let c = secs.subrange(3, secs.len() as int);
        assert(target =~= t0 + a + c);
        assert(secs =~= s0 + a + b + c);
        lemma_sizes_concat(t0, a);
        lemma_sizes_concat(t0 + a, c);
        lemma_sizes_concat(s0, a);
        lemma_sizes_concat(s0 + a, b);
        lemma_sizes_concat(s0 + a + b, c);
        reveal_with_fuel(sizes_before, 2);
        assert(sizes_before(b, 1) >= 0);
    }
    Ok(create_new_elf(exec_secs, ElfType::Executable, false))
}

/// Whether `relocate_text_entries` can run on `elf` (see `text_relocatable`):
/// the entries are checked in order up to the first that fails.
pub fn text_relocation_possible(elf: &Elf) -> (b: bool)
    ensures
        b == text_relocatable(section_views(*elf)),
{
    let ghost secs = section_views(*elf);
    if elf.sections.len() <= 4 || elf.sections.len() > 0xFFFF {
        return false;
    }
    match contents_end(&elf.sections) {
        None => { return false; },
        Some(_) => {},
    }
    assert(secs[0] == elf.sections@[0]@);
    assert(secs[2] == elf.sections@[2]@);
    assert(secs[3] == elf.sections@[3]@);
    assert(secs[4] == elf.sections@[4]@);
    let symbol_table = parse_elf_symbols(&elf.sections[3]);
    let string_table = &elf.sections[4];
    let relocation_entries = parse_rel_info(&elf.sections[2]);
    let text_len: usize = elf.sections[0].len();
    let ghost syms = symbol_table@;
    let ghost strtab = string_table@;
    let ghost rels = relocation_entries@;
    let mut k: usize = 0;
    while k < relocation_entries.len()
        invariant
            secs == section_views(*elf),
            syms == symbol_table@,
            syms == symbols_of(secs[3]),
            strtab == string_table@,
            strtab == secs[4],
            rels == relocation_entries@,
            rels == rels_of(secs[2]),
            text_len == secs[0].len(),
            4 < secs.len() <= u16::MAX,
            section_offset(secs, secs.len() as int) <= u32::MAX,
            k <= rels.len(),
            none_fail_before(syms, strtab, rels, k as int),
            forall|j: int| 0 <= j < k ==> #[trigger] entry_ok(syms, strtab, rels, text_len as int, j),
        decreases relocation_entries.len() - k,
    {
        let entry = relocation_entries[k];
        let idx: usize = (entry.r_sym >> 5) as usize;
        if idx >= symbol_table.len() {
            assert(!entry_ok(syms, strtab, rels, text_len as int, k as int));
            return false;
        }
        let fails = match get_linked_symbol(&symbol_table, string_table, idx) {
            None => true,
            Some(sym) => {
                match entry.r_type {
                    RelocationEntryType::Pc16 => {
                        if entry.r_offset as u64 + 4 > text_len as u64 {
                            assert(!entry_ok(syms, strtab, rels, text_len as int, k as int));
                            return false;
                        }
                        let d: i64 = (sym.st_value as i32) as i64 - (entry.r_offset as i32) as i64;
                        if d < -0x8000_0000i64 || d > 0x7FFF_FFFFi64 {
                            assert(!entry_ok(syms, strtab, rels, text_len as int, k as int));
                            return false;
                        }
                        false
                    },
                    RelocationEntryType::R26 => {
                        if entry.r_offset as u64 + 4 > text_len as u64 {
                            assert(!entry_ok(syms, strtab, rels, text_len as int, k as int));
                            return false;
                        }
                        false
                    },
                    _ => true,
                }
            },
        };
        assert(entry == rels[k as int]);
        assert(fails == entry_fails(syms, strtab, rels[k as int]));
        assert(entry_ok(syms, strtab, rels, text_len as int, k as int));
        if fails {
            assert forall|j: int| 0 <= j < rels.len() && none_fail_before(syms, strtab, rels, j)
                implies #[trigger] entry_ok(syms, strtab, rels, text_len as int, j) by {
                if j > k {
                    assert(!entry_fails(syms, strtab, rels[k as int]));
                }
            }
            return true;
        }
        proof {
            assert forall|j: int| 0 <= j < k + 1 implies !entry_fails(syms, strtab, #[trigger] rels[j]) by {
                if j < k { assert(none_fail_before(syms, strtab, rels, k as int)); }
            }
        }
        k = k + 1;
    }
    assert forall|j: int| 0 <= j < rels.len() && none_fail_before(syms, strtab, rels, j)
        implies #[trigger] entry_ok(syms, strtab, rels, text_len as int, j) by {}
    true
}

/// `relocate_text_entries` where it can run (see `text_relocatable`), and
/// `None` where it cannot.
pub fn try_relocate_text_entries(adjusted_checked_elf: Elf, offsets: &Vec<Vec<u32>>) -> (r: Option<Result<Elf, TextRelocationError>>)
    ensures
        r is Some <==> text_relocatable(section_views(adjusted_checked_elf)),
        r matches Some(x) ==> ({
            let secs = section_views(adjusted_checked_elf);
            let syms = symbols_of(secs[3]);
            let strtab = secs[4];
            let rels = rels_of(secs[2]);
            match first_failure(syms, strtab, rels) {
                Some(k) => {
                    let e = rels[k];
                    if linked_symbol(syms, strtab, rel_symbol_index(e)) is None {
                        x matches Err(TextRelocationError::UndefinedSymbol(n))
                            && n@ == linked_name(strtab, syms[rel_symbol_index(e)].st_name)
                    } else {
                        x matches Err(TextRelocationError::UnimplementedRelType(t)) && t == e.r_type
                    }
                },
                None => x matches Ok(out) && {
                    let new_secs = exec_sections(secs, text_after(secs[0], syms, strtab, rels, rels.len() as int));
                    &&& section_views(out) == new_secs
                    &&& out.file_header.e_type == 2
                    &&& crate::elf_file::laid_out(out)
                    &&& out.section_header_table@.len() == new_secs.len() + 1
                    &&& forall|k: int| 0 <= k < new_secs.len() ==> #[trigger] out.section_header_table@[k + 1]
                        == framed_section_header(new_secs, k, false)
                },
            }
        }),
{
    if text_relocation_possible(&adjusted_checked_elf) {
        Some(relocate_text_entries(adjusted_checked_elf, offsets))
    } else {
        None
    }
}

} // verus!
