//! The header of an executable made from a checked relocatable file.
use vstd::prelude::*;

use crate::elf_def::{section_views, Elf};
use crate::elf_utils::{copy_elf, find_global_symbol_address, parse_elf_symbols, symbols_of};
use crate::ld::one_module_linker::executable_header;

verus! {

/// A copy of `et_rel` with the executable type, the next version, and the entry
/// at the global `main` (or the start of .text); its symbol and string tables
/// are the third and fourth sections.
pub fn update_header(et_rel: &Elf) -> (et_exec: Elf)
    requires
        section_views(*et_rel).len() > 3,
        et_rel.file_header.e_version < u32::MAX,
    ensures
        ({
            let secs = section_views(*et_rel);
            &&& et_exec.file_header == executable_header(et_rel.file_header, symbols_of(secs[2]), secs[3])
            &&& et_exec.program_header_table@ == et_rel.program_header_table@
            &&& section_views(et_exec) == secs
            &&& et_exec.section_header_table@ == et_rel.section_header_table@
        }),
{
    let mut et_exec = copy_elf(et_rel);
    et_exec.file_header.e_type = 2;
    et_exec.file_header.e_version = et_exec.file_header.e_version + 1;
    et_exec.file_header.e_entry = crate::constants::MIPS_TEXT_START_ADDR;
    assert(section_views(et_exec)[2] == et_exec.sections@[2]@);
    assert(section_views(et_exec)[3] == et_exec.sections@[3]@);
    let symbol_table = parse_elf_symbols(&et_exec.sections[2]);
    let entry = match find_global_symbol_address(&symbol_table, &et_exec.sections[3], "main") {
        Some(new_address) => new_address,
        None => crate::constants::MIPS_TEXT_START_ADDR,
    };
    proof { reveal_strlit("main"); }
    et_exec.file_header.e_entry = entry;
    et_exec
}

} // verus!
