//! Relocation of the joined sections into an executable.
use vstd::prelude::*;

use crate::elf_def::{section_views, Elf, ElfType};
use crate::elf_utils::{rels_of, section_offset, symbols_of};
use crate::ld::constants::{STRTAB, SYMTAB};
use crate::ld::relocate_helpers::{
    check_duplicate_symbols, duplicates_check_possible, duplicates_checkable, first_dup, first_local_dup, global_names, relinkable,
    relinked, relinking_possible, relocate_links,
};
use crate::ld::text_relocation::{
    exec_sections, first_failure, linked_symbol, rel_symbol_index, relocate_text_entries, text_after,
    text_relocatable, text_relocation_possible,
};
use crate::elf_utils::linked_name;

verus! {

/// The message of the first repeated name of the sections `secs`, if any.
pub open spec fn duplicate_message(secs: Seq<Seq<u8>>) -> Option<Seq<char>> {
    let syms = symbols_of(secs[SYMTAB as int]);
    let strtab = secs[STRTAB as int];
    match first_dup(global_names(syms, strtab)) {
        Some(n) => Some("Duplicate symbol "@ + n + " found in global scope"@),
        None => match first_local_dup(syms, strtab, syms.last().st_other + 1) {
            Some(n) => Some("Duplicate symbol "@ + n + " found in local scope"@),
            None => None,
        },
    }
}

/// The message of the first relocation entry of `secs` that cannot be applied, if any.
pub open spec fn text_message(secs: Seq<Seq<u8>>) -> Option<Seq<char>> {
    let syms = symbols_of(secs[3]);
    let strtab = secs[4];
    let rels = rels_of(secs[2]);
    match first_failure(syms, strtab, rels) {
        Some(k) => {
            let e = rels[k];
            if linked_symbol(syms, strtab, rel_symbol_index(e)) is None {
                Some("Symbol "@ + linked_name(strtab, syms[rel_symbol_index(e)].st_name) + " not found in any scope"@)
            } else {
                Some("Relocation type "@ + e.r_type.spelled() + " not yet implmented"@)
            }
        },
        None => None,
    }
}

/// The executable sections made from relinked sections `secs`.
pub open spec fn executable_sections(secs: Seq<Seq<u8>>) -> Seq<Seq<u8>> {
    exec_sections(secs, text_after(secs[0], symbols_of(secs[3]), secs[4], rels_of(secs[2]), rels_of(secs[2]).len() as int))
}

/// What relocating the joined sections `secs` with `offsets` gives: the
/// sections of the executable, or the message of the first problem.
pub open spec fn relocation_outcome(secs: Seq<Seq<u8>>, offsets: Seq<Seq<u32>>) -> Result<Seq<Seq<u8>>, Seq<char>> {
    let r = relinked(secs, offsets);
    match duplicate_message(r) {
        Some(m) => Err(m),
        None => match text_message(r) {
            Some(m) => Err(m),
            None => Ok(executable_sections(r)),
        },
    }
}

/// Whether `relocate` can run on `secs` and `offsets`: the joined sections fit an
/// ELF and can be relinked, the relinked symbol table can be checked, and when
/// it has no repeated name its relocation entries can be applied.
pub open spec fn relocatable(secs: Seq<Seq<u8>>, offsets: Seq<Seq<u32>>) -> bool {
    let r = relinked(secs, offsets);
    &&& section_offset(secs, secs.len() as int) <= u32::MAX
    &&& secs.len() + 1 <= u16::MAX
    &&& relinkable(secs, offsets)
    &&& duplicates_checkable(r)
    &&& duplicate_message(r) is None ==> text_relocatable(r)
}

/// Makes an executable of the joined sections: re-bases the links with
/// `offsets`, checks for names defined twice, and applies the relocation entries.
pub fn relocate(sections: Vec<Vec<u8>>, offsets: Vec<Vec<u32>>) -> (r: Result<Elf, String>)
    requires
        relocatable(sections.deep_view(), offsets.deep_view()),
    ensures
        match relocation_outcome(sections.deep_view(), offsets.deep_view()) {
            Ok(s) => r matches Ok(e) && section_views(e) == s && e.file_header.e_type == 2 && crate::elf_file::laid_out(e),
            Err(m) => r matches Err(x) && x@ == m,
        },
{
    let new_elf = crate::elf_utils::create_new_elf(sections, ElfType::Relocatable, false);
    let linked = relocate_links(new_elf, &offsets);
    match check_duplicate_symbols(&linked) {
        Err(e) => {
            return Err(e.message());
        },
        Ok(()) => {},
    }
    match relocate_text_entries(linked, &offsets) {
        Ok(elf) => Ok(elf),
        Err(e) => Err(e.message()),
    }
}

/// Whether `relocate` can run on `sections` and `offsets` (see `relocatable`):
/// the sections are relinked as `relocate` would, and the result checked.
pub fn relocation_possible(sections: &Vec<Vec<u8>>, offsets: &Vec<Vec<u32>>) -> (b: bool)
    ensures
        b == relocatable(sections.deep_view(), offsets.deep_view()),
{
    if !relinking_possible(sections, offsets) {
        return false;
    }
    let copy = crate::elf_utils::copy_sections(sections);
    let new_elf = crate::elf_utils::create_new_elf(copy, ElfType::Relocatable, false);
    let linked = relocate_links(new_elf, offsets);
    if !duplicates_check_possible(&linked) {
        return false;
    }
    match check_duplicate_symbols(&linked) {
        Err(_) => true,
        Ok(()) => text_relocation_possible(&linked),
    }
}

/// `relocate` where it can run (see `relocatable`), and `None` where it cannot.
pub fn try_relocate(sections: Vec<Vec<u8>>, offsets: Vec<Vec<u32>>) -> (r: Option<Result<Elf, String>>)
    ensures
        r is Some <==> relocatable(sections.deep_view(), offsets.deep_view()),
        r matches Some(x) ==> match relocation_outcome(sections.deep_view(), offsets.deep_view()) {
            Ok(s) => x matches Ok(e) && section_views(e) == s && e.file_header.e_type == 2 && crate::elf_file::laid_out(e),
            Err(m) => x matches Err(y) && y@ == m,
        },
{
    if relocation_possible(&sections, &offsets) {
        Some(relocate(sections, offsets))
    } else {
        None
    }
}

} // verus!
