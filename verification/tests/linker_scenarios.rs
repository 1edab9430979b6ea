use name_core::elf_def::{Elf, Elf32Sym, ElfType, RelocationEntry, RelocationEntryType};
use name_core::elf_utils::create_new_elf;
use name_core::ld::consolidate::consolidate_sections;
use name_core::ld::constants::{REL, STRTAB, SYMTAB};
use name_core::ld::offsets::calculate_offsets;
use name_core::ld::relocate_helpers::{check_duplicate_symbols, relocate_links, DuplicateSymbolError};

#[test]
fn validate_consolidation() {
    let elf1: Elf = create_new_elf(vec![vec![0u8; 37]; 6], ElfType::Relocatable, true);
    let elf2: Elf = elf1.clone();
    let elfs: Vec<Elf> = vec![elf1, elf2];
    let offsets: Vec<Vec<u32>> = vec![
        vec![0, 37],
        vec![0, 40],
        vec![0, 37],
        vec![0, 37],
        vec![0, 37],
        vec![0, 37],
    ];
    let result: Vec<Vec<u8>> = consolidate_sections(elfs, &offsets);
    // .text, along with any other section that is not .data, will have this property after consolidation.
    assert_eq!(result[0], vec![0u8; 37 * 2]);
    // for n ELF files, the first (n-1) sections in the consolidated form will be padded. The last need not be.
    assert_eq!(result[1], vec![0u8; 40 + 37]);
}

#[test]
fn verify_calculate_offsets() {
    let test_num: usize = 63;
    let data_num: usize = (test_num + 4) >> 3 << 3;
    let mock_sections: Vec<Vec<u8>> = vec![vec![0u8; test_num]; 7];
    let elf1: Elf = create_new_elf(mock_sections, ElfType::Relocatable, true);
    let elf2: Elf = elf1.clone();
    let res = calculate_offsets(&vec![elf1, elf2]);
    assert_eq!(
        res,
        vec![
            vec![0u32; 6],
            vec![
                test_num as u32,
                data_num as u32,
                test_num as u32,
                test_num as u32,
                test_num as u32,
                test_num as u32
            ]
        ]
    );
    assert_eq!(data_num, 64);
}

fn sym(st_name: u32, st_value: u32, st_size: u32, st_info: u8, st_other: u8) -> Elf32Sym {
    Elf32Sym { st_name, st_value, st_size, st_info, st_other, st_shndx: 0 }
}

#[test]
fn validate_link_relocation() {
    let mock_rel_table: Vec<RelocationEntry> = vec![
        RelocationEntry { r_offset: 0, r_sym: 0, r_type: RelocationEntryType::R16 },
        RelocationEntry { r_offset: 4, r_sym: 0, r_type: RelocationEntryType::R16 },
        RelocationEntry { r_offset: 0, r_sym: 0, r_type: RelocationEntryType::R16 },
    ];
    let mock_rel_section: Vec<u8> = mock_rel_table.iter().flat_map(|entry| entry.to_bytes()).collect();
    let empty_symtab_entry: Elf32Sym = sym(0, 0, 0, 0, 0);
    let mock_symtab: Vec<Elf32Sym> = vec![
        empty_symtab_entry.clone(),
        sym(1, 0xDEADBEEF, 3, 0, 0),
        empty_symtab_entry.clone(),
        sym(1, 0x8BADF00D, 4, 0, 0),
    ];
    let mock_sections: Vec<Vec<u8>> = vec![
        vec![0u8; 8],
        vec![0u8; 8],
        mock_rel_section,
        mock_symtab.iter().map(|symbol| symbol.to_bytes()).flatten().collect(),
        vec![b'\0', b'h', b'i', b'\0', b'\0', b'm', b'o', b'm', b'\0'],
        vec![0u8; 32],
    ];
    let offsets = vec![vec![0, 0, 0, 0, 0, 0], vec![8, 8, 8, 32, 4, 16]];
    let mock_consolidated_elf: Elf = create_new_elf(mock_sections, ElfType::Relocatable, true);
    let tested: Elf = relocate_links(mock_consolidated_elf, &offsets);
    let expected_rel_table: Vec<RelocationEntry> = vec![
        RelocationEntry { r_offset: 0, r_sym: 0, r_type: RelocationEntryType::R16 },
        RelocationEntry { r_offset: 4, r_sym: 0, r_type: RelocationEntryType::R16 },
        RelocationEntry { r_offset: 8, r_sym: 32, r_type: RelocationEntryType::R16 },
    ];
    let expected_rel_section: Vec<u8> = expected_rel_table.iter().flat_map(|entry| entry.to_bytes()).collect();
    let expected_symtab: Vec<Elf32Sym> = vec![
        empty_symtab_entry.clone(),
        sym(1, 0xDEADBEEF, 3, 0, 0),
        sym(4, 0, 0, 0, 1),
        sym(5, 0x8BADF00D, 4, 0, 1),
    ];
    let expected_symtab_section: Vec<u8> = expected_symtab.iter().map(|symbol| symbol.to_bytes()).flatten().collect();
    assert_eq!(tested.sections[SYMTAB], expected_symtab_section);
    assert_eq!(tested.sections[REL], expected_rel_section);
}

#[test]
fn validate_duplicate_symbol_checker() {
    let mock_symtab: Vec<Elf32Sym> = vec![
        sym(0, 0, 0, 0, 0),
        sym(1, 0xDEADBEEF, 4, 1 << 4, 0),
        sym(5, 0x8BADF00D, 4, 1 << 4, 0),
        sym(9, 0x2EADBEEF, 4, 0, 0),
        sym(13, 0x9BADF00D, 4, 0, 0),
    ];
    let bad_global_strtab: Vec<u8> = vec![
        b'\0', b'c', b'a', b't', b'\0', b'c', b'a', b't', b'\0', b'c', b'a', b't', b'\0', b'c', b'a', b't', b'\0',
    ];
    let mock_sections: Vec<Vec<u8>> = vec![
        vec![0; 4],
        vec![0; 16],
        vec![0; 8],
        mock_symtab.iter().map(|symbol| symbol.to_bytes()).flatten().collect(),
        bad_global_strtab.clone(),
        vec![0; 16],
    ];
    let mut mock_elf: Elf = create_new_elf(mock_sections, ElfType::Relocatable, true);
    let result: Result<(), DuplicateSymbolError> = check_duplicate_symbols(&mock_elf);
    assert_eq!(result, Err(DuplicateSymbolError::Global(String::from("cat"))));

    let bad_local_strtab: Vec<u8> = vec![
        b'\0', b'c', b'a', b't', b'\0', b'd', b'o', b'g', b'\0', b'c', b'a', b't', b'\0', b'c', b'a', b't', b'\0',
    ];
    mock_elf.sections[STRTAB] = bad_local_strtab.clone();
    let result: Result<(), DuplicateSymbolError> = check_duplicate_symbols(&mock_elf);
    assert_eq!(result, Err(DuplicateSymbolError::Local(String::from("cat"))));

    let fine_strtab: Vec<u8> = vec![
        b'\0', b'c', b'a', b't', b'\0', b'd', b'o', b'g', b'\0', b'c', b'a', b't', b'\0', b'd', b'o', b'g', b'\0',
    ];
    mock_elf.sections[STRTAB] = fine_strtab.clone();
    let result: Result<(), DuplicateSymbolError> = check_duplicate_symbols(&mock_elf);
    assert_eq!(result, Ok(()));
}

#[test]
fn data_offsets_round_up_to_a_word_past_the_previous_data() {
    let elf = create_new_elf(vec![vec![0u8; 65]; 7], ElfType::Relocatable, true);
    let res = calculate_offsets(&vec![elf.clone(), elf.clone(), elf]);
    assert_eq!(res[1][1], 68);
    assert_eq!(res[2][1], 136);
    assert_eq!(res[1][0], 65);
}

#[test]
fn each_file_data_lands_at_its_offset() {
    let make = |fill: u8| create_new_elf(vec![vec![fill; 5]; 7], ElfType::Relocatable, true);
    let elfs = vec![make(1), make(2), make(3)];
    let offsets = calculate_offsets(&elfs);
    assert_eq!(offsets[1][1], 8);
    assert_eq!(offsets[2][1], 16);
    let result = consolidate_sections(elfs, &offsets);
    assert_eq!(result[1], vec![1, 1, 1, 1, 1, 0, 0, 0, 2, 2, 2, 2, 2, 0, 0, 0, 3, 3, 3, 3, 3]);
    assert_eq!(result[0].len(), 15);
    assert_eq!(result[0][5..10].to_vec(), vec![2u8; 5]);
    assert_eq!(offsets[1][0], 5);
}
