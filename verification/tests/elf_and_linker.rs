use name_core::elf_file::read_bytes_to_elf;
use name_core::debug::try_extract_loadable_sections;
use name_core::elf_def::{e_ident_default, Elf32SectionHeader, Elf32Sym, ElfType, RelocationEntry, RelocationEntryType};
use name_core::elf_utils::{
    create_new_elf, find_global_symbol_address, find_target_section_index, parse_elf_symbols, parse_rel_info,
    rels_to_bytes, symbols_to_bytes,
};
use name_core::ld::conformity::check_e_ident;
use name_core::ld::linker::try_linker;
use name_core::ld::symbols::try_collect_global_symbols;
use name_core::ld::text_relocation::{relocate_text_entries, text_relocation_possible, TextRelocationError};

fn sym(st_name: u32, st_value: u32, st_info: u8) -> Elf32Sym {
    Elf32Sym { st_name, st_value, st_size: 0, st_info, st_other: 0, st_shndx: 0 }
}

fn header(sh_name: u32) -> Elf32SectionHeader {
    Elf32SectionHeader {
        sh_name,
        sh_type: 1,
        sh_flags: 0,
        sh_addr: 0,
        sh_offset: 0,
        sh_size: 0,
        sh_link: 0,
        sh_info: 0,
        sh_addralign: 0,
        sh_entsize: 0,
    }
}

#[test]
fn symbols_read_back_what_was_written() {
    let syms = vec![sym(0, 0, 0), sym(1, 0x0040_0010, 0x10), sym(6, 0xdead_beef, 0x00)];
    let bytes = symbols_to_bytes(&syms);
    assert_eq!(bytes.len(), 48);
    assert_eq!(bytes[16..20].to_vec(), vec![0, 0, 0, 1]);
    assert_eq!(parse_elf_symbols(&bytes), syms);
}

#[test]
fn relocation_entries_read_back_what_was_written() {
    let rels = vec![
        RelocationEntry { r_offset: 4, r_sym: 32, r_type: RelocationEntryType::R26 },
        RelocationEntry { r_offset: 8, r_sym: 64, r_type: RelocationEntryType::Pc16 },
    ];
    let bytes = rels_to_bytes(&rels);
    assert_eq!(bytes.len(), 16);
    assert_eq!(bytes[0..8].to_vec(), vec![0, 0, 0, 4, 0, 0, 32, 4]);
    assert_eq!(parse_rel_info(&bytes), rels);
}

#[test]
fn relocation_type_codes_round_trip() {
    for c in 0u8..=20 {
        assert_eq!(RelocationEntryType::from_code(c).code(), c);
    }
    assert_eq!(RelocationEntryType::R26.code(), 4);
    assert_eq!(RelocationEntryType::Pc16.code(), 10);
    assert_eq!(RelocationEntryType::from_code(99).name(), "Other(99)".to_string());
}

#[test]
fn names_that_are_not_utf8_are_read_lossily() {
    let strtab = vec![0u8, b'a', 0xff, b'b', 0, b'o', b'k', 0];
    assert_eq!(sym(1, 0, 0).get_linked_name(&strtab), "a\u{FFFD}b".to_string());
    assert_eq!(sym(5, 0, 0).get_linked_name(&strtab), "ok".to_string());
}

#[test]
fn global_symbol_addresses_are_found_by_name() {
    let strtab = b"\0main\0loop\0".to_vec();
    let syms = vec![sym(0, 0, 0), sym(6, 0x40, 0x00), sym(1, 0x0040_0000, 0x10), sym(6, 0x80, 0x10)];
    assert_eq!(find_global_symbol_address(&syms, &strtab, "main"), Some(0x0040_0000));
    assert_eq!(find_global_symbol_address(&syms, &strtab, "loop"), Some(0x80));
    assert_eq!(find_global_symbol_address(&syms, &strtab, "exit"), None);
}

#[test]
fn sections_are_found_by_name() {
    let shstrtab = b"\0.text\0.data\0".to_vec();
    let sht = vec![header(0), header(1), header(7)];
    assert_eq!(find_target_section_index(&sht, &shstrtab, ".data"), Some(2));
    assert_eq!(find_target_section_index(&sht, &shstrtab, ".text"), Some(1));
    assert_eq!(find_target_section_index(&sht, &shstrtab, ".rel"), None);
}

#[test]
fn e_ident_checks_each_field() {
    let good = e_ident_default();
    assert_eq!(check_e_ident(&good), Ok(()));
    let mut bad = good;
    bad[0] = 0;
    assert_eq!(
        check_e_ident(&bad),
        Err("Magic bytes did not match for ELF format (EI_MAG field expected 7f454c46).".to_string())
    );
    let mut bad = good;
    bad[4] = 2;
    assert_eq!(
        check_e_ident(&bad),
        Err("NAME currently only supports 32-bit binaries (EI_CLASS field expected 1).".to_string())
    );
    let mut bad = good;
    bad[5] = 1;
    assert_eq!(check_e_ident(&bad), Err("NAME only supports big-endian data (EI_DATA field expected 2).".to_string()));
    let mut other_version = good;
    other_version[6] = 2;
    assert_eq!(check_e_ident(&other_version), Ok(()));
    let mut bad = good;
    bad[7] = 3;
    assert_eq!(check_e_ident(&bad), Err("OSABI expected 0".to_string()));
}

fn executable_parts(rel: RelocationEntry, symbol: Elf32Sym) -> Vec<Vec<u8>> {
    vec![
        vec![0u8; 8],
        vec![1u8, 2, 3, 4],
        rels_to_bytes(&vec![rel]),
        symbols_to_bytes(&vec![sym(0, 0, 0), symbol]),
        b"\0main\0".to_vec(),
    ]
}

#[test]
fn jump_entries_get_the_word_address_of_their_symbol() {
    let rel = RelocationEntry { r_offset: 4, r_sym: 32, r_type: RelocationEntryType::R26 };
    let elf = create_new_elf(executable_parts(rel, sym(1, 0x0040_0010, 0x10)), ElfType::Relocatable, false);
    assert!(text_relocation_possible(&elf));
    let out = relocate_text_entries(elf, &vec![]).unwrap();
    assert_eq!(out.file_header.e_type, 2);
    assert_eq!(out.sections.len(), 4);
    assert_eq!(out.sections[0], vec![0, 0, 0, 0, 0x00, 0x10, 0x00, 0x04]);
    assert_eq!(out.sections[1], vec![1u8, 2, 3, 4]);
    assert_eq!(out.sections[3], b"\0main\0".to_vec());
}

#[test]
fn branch_entries_get_the_word_distance_to_their_symbol() {
    let rel = RelocationEntry { r_offset: 0, r_sym: 32, r_type: RelocationEntryType::Pc16 };
    let elf = create_new_elf(executable_parts(rel, sym(1, 0x10, 0x10)), ElfType::Relocatable, false);
    let out = relocate_text_entries(elf, &vec![]).unwrap();
    assert_eq!(out.sections[0], vec![0, 0, 0, 4, 0, 0, 0, 0]);
}

#[test]
fn undefined_symbols_stop_text_relocation() {
    let rel = RelocationEntry { r_offset: 4, r_sym: 32, r_type: RelocationEntryType::R26 };
    let elf = create_new_elf(executable_parts(rel, sym(1, 0, 0x00)), ElfType::Relocatable, false);
    let err = relocate_text_entries(elf, &vec![]).unwrap_err();
    assert_eq!(err.message(), "Symbol main not found in any scope".to_string());
    assert!(matches!(err, TextRelocationError::UndefinedSymbol(_)));
}

#[test]
fn unimplemented_relocation_types_stop_text_relocation() {
    let rel = RelocationEntry { r_offset: 4, r_sym: 32, r_type: RelocationEntryType::R16 };
    let elf = create_new_elf(executable_parts(rel, sym(1, 0x10, 0x10)), ElfType::Relocatable, false);
    let err = relocate_text_entries(elf, &vec![]).unwrap_err();
    assert_eq!(err.message(), "Relocation type R16 not yet implmented".to_string());
}

#[test]
fn entries_past_the_text_cannot_be_relocated() {
    let rel = RelocationEntry { r_offset: 8, r_sym: 32, r_type: RelocationEntryType::R26 };
    let elf = create_new_elf(executable_parts(rel, sym(1, 0x10, 0x10)), ElfType::Relocatable, false);
    assert!(!text_relocation_possible(&elf));
}

#[test]
fn nothing_to_link_is_refused_by_the_checked_linker() {
    assert!(try_linker(vec![]).is_none());
}

#[test]
fn files_without_a_symbol_table_have_no_globals_to_collect() {
    let elf = create_new_elf(vec![vec![0u8; 4], b"\0.text\0".to_vec()], ElfType::Relocatable, true);
    assert!(try_collect_global_symbols(&vec![elf]).is_none());
}

#[test]
fn loadable_sections_need_a_text_section() {
    let without = create_new_elf(vec![vec![0u8; 4], b"\0.text\0".to_vec()], ElfType::Executable, true);
    assert!(try_extract_loadable_sections(&without).is_none());
}

#[test]
fn loadable_sections_are_the_ones_named_text_and_data() {
    let text = vec![1u8, 2, 3, 4];
    let data = vec![9u8; 5];
    let mut elf = create_new_elf(
        vec![text.clone(), data.clone(), b"\0.text\0.data\0".to_vec()],
        ElfType::Executable,
        true,
    );
    elf.section_header_table[1].sh_name = 1;
    elf.section_header_table[2].sh_name = 7;
    assert_eq!(try_extract_loadable_sections(&elf), Some((data, text)));
}

#[test]
fn a_written_elf_reads_back_as_itself() {
    let sections = vec![vec![1u8, 2, 3, 4], vec![5u8; 6], b"\0.text\0.data\0".to_vec()];
    let elf = create_new_elf(sections.clone(), ElfType::Executable, true);
    let bytes = elf.to_bytes();
    assert_eq!(bytes.len(), 52 + 64 + 4 + 6 + 13 + 40 * 4);
    assert_eq!(bytes[0..4].to_vec(), vec![0x7f, b'E', b'L', b'F']);
    let back = read_bytes_to_elf(bytes.clone()).unwrap();
    assert_eq!(back.sections, sections);
    assert_eq!(back.section_header_table.len(), 4);
    assert_eq!(back.file_header.e_shstrndx, 3);
    assert_eq!(back.file_header.e_entry, 0x0040_0000);
    assert_eq!(back.to_bytes(), bytes);
}

#[test]
fn unreadable_files_say_why() {
    assert_eq!(read_bytes_to_elf(vec![0u8; 10]).unwrap_err(), "ELF file is too short for its header".to_string());
    let elf = create_new_elf(vec![vec![1u8, 2, 3, 4]], ElfType::Executable, false);
    let bytes = elf.to_bytes();
    let mut cut = bytes.clone();
    cut.truncate(bytes.len() - 1);
    assert_eq!(read_bytes_to_elf(cut).unwrap_err(), "ELF section header table lies outside the file".to_string());
    let mut far = bytes.clone();
    far[28..32].copy_from_slice(&0xffffu32.to_be_bytes());
    assert_eq!(read_bytes_to_elf(far).unwrap_err(), "ELF program header table lies outside the file".to_string());
    let mut stray = bytes.clone();
    let size_at = 52 + 64 + 4 + 40 + 20;
    stray[size_at..size_at + 4].copy_from_slice(&0x1000u32.to_be_bytes());
    assert_eq!(read_bytes_to_elf(stray).unwrap_err(), "ELF section 1 lies outside the file".to_string());
}

fn relocatable_with_main(main_value: Option<u32>) -> name_core::elf_def::Elf {
    let syms = match main_value {
        Some(v) => vec![sym(0, 0, 0), sym(1, v, 0x10)],
        None => vec![sym(0, 0, 0), sym(1, 0x0040_0004, 0x00)],
    };
    create_new_elf(
        vec![
            vec![0u8; 8],
            vec![],
            vec![],
            symbols_to_bytes(&syms),
            b"\0main\0".to_vec(),
            vec![],
            b"\0.text\0".to_vec(),
        ],
        ElfType::Relocatable,
        true,
    )
}

#[test]
fn a_linked_executable_starts_at_global_main() {
    let linked = try_linker(vec![relocatable_with_main(Some(0x0040_0004))]).unwrap().unwrap();
    assert_eq!(linked.file_header.e_type, 2);
    assert_eq!(linked.file_header.e_entry, 0x0040_0004);
}

#[test]
fn a_linked_executable_without_global_main_starts_at_text() {
    let linked = try_linker(vec![relocatable_with_main(None)]).unwrap().unwrap();
    assert_eq!(linked.file_header.e_entry, 0x0040_0000);
}
