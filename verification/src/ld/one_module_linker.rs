//! Linking a single relocatable file.
use vstd::prelude::*;

use crate::elf_def::{section_views, Elf, Elf32Header};
use crate::elf_utils::{find_global_symbol_address, global_address, parse_elf_symbols, symbols_of};
use crate::ld::conformity::{header_error, relocatable_conformity_check};

verus! {

/// The header of the executable made from `h`, whose symbol table is `syms`
/// and string table `strtab`: executable type, next version, and the entry at
/// the global `main` (or the start of .text).
pub open spec fn executable_header(h: Elf32Header, syms: Seq<crate::elf_def::Elf32Sym>, strtab: Seq<u8>) -> Elf32Header {
    Elf32Header {
        e_type: 2,
        e_version: (h.e_version + 1) as u32,
        e_entry: match global_address(syms, strtab, "main"@) {
            Some(a) => a,
            None => 0x00400000,
        },
        ..h
    }
}

/// Turns one checked relocatable file into an executable: the header gets the
/// executable type, the next version and the entry point; sections are kept.
/// A file that fails the conformity check gives that check's error; one that
/// passes must hold the symbol and string tables and a version that can grow.
pub fn one_module_linker(et_rel: Elf) -> (r: Result<Elf, String>)
    requires
        header_error(et_rel.file_header) is None ==> section_views(et_rel).len() > 4,
        header_error(et_rel.file_header) is None ==> et_rel.file_header.e_version < u32::MAX,
    ensures
        match header_error(et_rel.file_header) {
            Some(m) => r matches Err(e) && e@ == m,
            None => r matches Ok(e) && {
                let secs = section_views(et_rel);
                &&& e.file_header == executable_header(et_rel.file_header, symbols_of(secs[3]), secs[4])
                &&& e.program_header_table@ == et_rel.program_header_table@
                &&& section_views(e) == secs
                &&& e.section_header_table@ == et_rel.section_header_table@
            },
        },
{
    match relocatable_conformity_check(&et_rel) {
        Ok(_) => {},
        Err(e) => {
            return Err(e);
        },
    }
    let mut et_exec = et_rel;
    et_exec.file_header.e_type = 2;
    et_exec.file_header.e_version = et_exec.file_header.e_version + 1;
    et_exec.file_header.e_entry = crate::constants::MIPS_TEXT_START_ADDR;
    assert(section_views(et_exec)[3] == et_exec.sections@[3]@);
    assert(section_views(et_exec)[4] == et_exec.sections@[4]@);
    let symbol_table = parse_elf_symbols(&et_exec.sections[3]);
    let entry = match find_global_symbol_address(&symbol_table, &et_exec.sections[4], "main") {
        Some(new_address) => new_address,
        None => crate::constants::MIPS_TEXT_START_ADDR,
    };
    proof { reveal_strlit("main"); }
    et_exec.file_header.e_entry = entry;
    Ok(et_exec)
}

} // verus!
