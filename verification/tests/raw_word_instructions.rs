use name_core::constants::{MIPS_DATA_START_ADDR, MIPS_TEXT_START_ADDR};
use name_core::processor::{ExecutionStatus, Processor};
use name_core::structs::Memory;
use name_core::decode::{decode, WordOp};
use name_core::word_instructions::{
    addiu, beq, bgtz, blez, execute, fetch, jal, jalr, jr, lb, lui, lw, single_step, slt, sub, sw, syscall,
};

fn r_word(rs: u32, rt: u32, rd: u32, shamt: u32, funct: u32) -> u32 {
    (rs << 21) | (rt << 16) | (rd << 11) | (shamt << 6) | funct
}

fn i_word(op: u32, rs: u32, rt: u32, imm: u32) -> u32 {
    (op << 26) | (rs << 21) | (rt << 16) | imm
}

fn setup(text_len: usize, data: Vec<u8>) -> (Processor, Memory) {
    (Processor::new(MIPS_TEXT_START_ADDR), Memory::new(data, vec![0; text_len]))
}

#[test]
fn jr_jumps_through_the_register_in_bits_eleven_to_sixteen() {
    let (mut cpu, mut memory) = setup(16, vec![]);
    cpu.general_purpose_registers[8] = MIPS_TEXT_START_ADDR + 8;
    cpu.general_purpose_registers[9] = 0;
    // bits 21..26 name register 9, bits 11..16 name register 8
    let word = r_word(9, 0, 8, 0, 0x08);
    assert_eq!(jr(&mut cpu, &mut memory, word), Ok(ExecutionStatus::Continue));
    assert_eq!(cpu.pc, MIPS_TEXT_START_ADDR + 8);
}

#[test]
fn jr_refuses_an_address_outside_text() {
    let (mut cpu, mut memory) = setup(16, vec![]);
    let word = r_word(0, 0, 8, 0, 0x08);
    assert_eq!(
        jr(&mut cpu, &mut memory, word),
        Err("Attempted to jump to unowned address 0x0".to_string())
    );
    assert_eq!(cpu.pc, MIPS_TEXT_START_ADDR);
}

#[test]
fn jalr_saves_the_return_address() {
    let (mut cpu, mut memory) = setup(16, vec![]);
    cpu.pc = MIPS_TEXT_START_ADDR + 4;
    cpu.general_purpose_registers[8] = MIPS_TEXT_START_ADDR + 12;
    let word = r_word(0, 0, 8, 0, 0x09);
    assert_eq!(jalr(&mut cpu, &mut memory, word), Ok(ExecutionStatus::Continue));
    assert_eq!(cpu.general_purpose_registers[31], MIPS_TEXT_START_ADDR + 4);
    assert_eq!(cpu.pc, MIPS_TEXT_START_ADDR + 12);
}

#[test]
fn jal_moves_within_the_region() {
    let (mut cpu, mut memory) = setup(64, vec![]);
    let target = (MIPS_TEXT_START_ADDR + 32) >> 2;
    let word = (0x03 << 26) | target;
    assert_eq!(jal(&mut cpu, &mut memory, word), Ok(ExecutionStatus::Continue));
    assert_eq!(cpu.pc, MIPS_TEXT_START_ADDR + 32);
    assert_eq!(cpu.general_purpose_registers[31], MIPS_TEXT_START_ADDR);
}

#[test]
fn sub_that_would_go_below_zero_fails_through_at() {
    let (mut cpu, mut memory) = setup(0, vec![]);
    cpu.general_purpose_registers[8] = 1;
    cpu.general_purpose_registers[9] = 3;
    let word = r_word(8, 9, 10, 0, 0x22);
    assert_eq!(
        sub(&mut cpu, &mut memory, word),
        Err("Integer underflow occurred in subtraction.".to_string())
    );
    assert_eq!(cpu.general_purpose_registers[1], 0xFFFF_FFFE);
    assert_eq!(cpu.general_purpose_registers[10], 0);
}

#[test]
fn sub_sets_the_difference() {
    let (mut cpu, mut memory) = setup(0, vec![]);
    cpu.general_purpose_registers[8] = 10;
    cpu.general_purpose_registers[9] = 3;
    let word = r_word(8, 9, 10, 0, 0x22);
    assert_eq!(sub(&mut cpu, &mut memory, word), Ok(ExecutionStatus::Continue));
    assert_eq!(cpu.general_purpose_registers[10], 7);
    assert_eq!(cpu.general_purpose_registers[1], 7);
}

#[test]
fn slt_compares_as_signed_words() {
    let (mut cpu, mut memory) = setup(0, vec![]);
    cpu.general_purpose_registers[8] = 0xFFFF_FFFF;
    cpu.general_purpose_registers[9] = 1;
    let word = r_word(8, 9, 10, 0, 0x2A);
    assert_eq!(slt(&mut cpu, &mut memory, word), Ok(ExecutionStatus::Continue));
    assert_eq!(cpu.general_purpose_registers[10], 1);
    let word = r_word(9, 8, 10, 0, 0x2A);
    assert_eq!(slt(&mut cpu, &mut memory, word), Ok(ExecutionStatus::Continue));
    assert_eq!(cpu.general_purpose_registers[10], 0);
}

#[test]
fn beq_taken_checks_the_target_and_leaves_the_counter() {
    let (mut cpu, mut memory) = setup(16, vec![]);
    let word = i_word(0x04, 8, 9, 2);
    assert_eq!(beq(&mut cpu, &mut memory, word), Ok(ExecutionStatus::Continue));
    assert_eq!(cpu.general_purpose_registers[1], MIPS_TEXT_START_ADDR + 8);
    assert_eq!(cpu.pc, MIPS_TEXT_START_ADDR);
}

#[test]
fn beq_to_an_unowned_target_fails() {
    let (mut cpu, mut memory) = setup(16, vec![]);
    let word = i_word(0x04, 8, 9, 0xFFFF);
    assert_eq!(
        beq(&mut cpu, &mut memory, word),
        Err("Attempted to access unowned address 0x3ffffc".to_string())
    );
    assert_eq!(cpu.general_purpose_registers[1], MIPS_TEXT_START_ADDR - 4);
}

#[test]
fn blez_is_taken_at_zero_and_below() {
    let (mut cpu, mut memory) = setup(16, vec![]);
    let word = i_word(0x06, 8, 0, 0x0100);
    cpu.general_purpose_registers[8] = 1;
    assert_eq!(blez(&mut cpu, &mut memory, word), Ok(ExecutionStatus::Continue));
    cpu.general_purpose_registers[8] = 0xFFFF_FFFF;
    assert_eq!(
        blez(&mut cpu, &mut memory, word),
        Err("Attempted to access unowned address 0x400400".to_string())
    );
    cpu.general_purpose_registers[8] = 0;
    assert_eq!(
        blez(&mut cpu, &mut memory, word),
        Err("Attempted to access unowned address 0x400400".to_string())
    );
}

#[test]
fn bgtz_moves_the_counter_when_positive() {
    let (mut cpu, mut memory) = setup(16, vec![]);
    cpu.general_purpose_registers[8] = 0x8000_0000;
    let word = i_word(0x07, 8, 0, 3);
    assert_eq!(bgtz(&mut cpu, &mut memory, word), Ok(ExecutionStatus::Continue));
    assert_eq!(cpu.pc, MIPS_TEXT_START_ADDR);
    cpu.general_purpose_registers[8] = 5;
    assert_eq!(bgtz(&mut cpu, &mut memory, word), Ok(ExecutionStatus::Continue));
    assert_eq!(cpu.pc, MIPS_TEXT_START_ADDR + 12);
}

#[test]
fn addiu_adds_the_immediate_without_extending_its_sign() {
    let (mut cpu, mut memory) = setup(0, vec![]);
    cpu.general_purpose_registers[8] = 1;
    let word = i_word(0x09, 8, 9, 0xFFFF);
    assert_eq!(addiu(&mut cpu, &mut memory, word), Ok(ExecutionStatus::Continue));
    assert_eq!(cpu.general_purpose_registers[9], 0x1_0000);
}

#[test]
fn lui_fills_the_upper_half() {
    let (mut cpu, mut memory) = setup(0, vec![]);
    let word = i_word(0x0F, 0, 9, 0x1001);
    assert_eq!(lui(&mut cpu, &mut memory, word), Ok(ExecutionStatus::Continue));
    assert_eq!(cpu.general_purpose_registers[9], 0x1001_0000);
}

#[test]
fn lb_leaves_the_address_in_at() {
    let (mut cpu, mut memory) = setup(0, vec![7, 0xAB, 9]);
    cpu.general_purpose_registers[8] = MIPS_DATA_START_ADDR;
    let word = i_word(0x20, 8, 9, 1);
    assert_eq!(lb(&mut cpu, &mut memory, word), Ok(ExecutionStatus::Continue));
    assert_eq!(cpu.general_purpose_registers[9], 0xAB);
    assert_eq!(cpu.general_purpose_registers[1], MIPS_DATA_START_ADDR + 1);
    let word = i_word(0x20, 8, 9, 3);
    assert_eq!(
        lb(&mut cpu, &mut memory, word),
        Err("Attempted to access unowned address 0x10010003".to_string())
    );
}

#[test]
fn sw_then_lw_gives_the_word_back() {
    let (mut cpu, mut memory) = setup(0, vec![0; 12]);
    cpu.general_purpose_registers[8] = MIPS_DATA_START_ADDR;
    cpu.general_purpose_registers[9] = 0xDEAD_BEEF;
    assert_eq!(sw(&mut cpu, &mut memory, i_word(0x2B, 8, 9, 4)), Ok(ExecutionStatus::Continue));
    assert_eq!(memory.data, vec![0, 0, 0, 0, 0xDE, 0xAD, 0xBE, 0xEF, 0, 0, 0, 0]);
    assert_eq!(lw(&mut cpu, &mut memory, i_word(0x23, 8, 10, 4)), Ok(ExecutionStatus::Continue));
    assert_eq!(cpu.general_purpose_registers[10], 0xDEAD_BEEF);
}

#[test]
fn lw_refuses_misaligned_and_unowned_words() {
    let (mut cpu, mut memory) = setup(0, vec![0; 8]);
    cpu.general_purpose_registers[8] = MIPS_DATA_START_ADDR;
    assert_eq!(
        lw(&mut cpu, &mut memory, i_word(0x23, 8, 10, 2)),
        Err("Incorrect alignment for word access at 0x10010002".to_string())
    );
    assert_eq!(
        lw(&mut cpu, &mut memory, i_word(0x23, 8, 10, 4)),
        Err("Attempted to access unowned address 0x10010004 (possible alignment issue)".to_string())
    );
}

#[test]
fn syscall_word_prints_through_the_processor() {
    let (mut cpu, mut memory) = setup(0, vec![]);
    cpu.general_purpose_registers[2] = 1;
    cpu.general_purpose_registers[4] = 42;
    let mut out = Vec::new();
    assert_eq!(syscall(&mut cpu, &mut memory, 0x0C, &mut out), Ok(ExecutionStatus::Continue));
    assert_eq!(out, b"42".to_vec());
}

#[test]
fn decode_finds_routines_by_funct_and_opcode() {
    assert_eq!(decode(&r_word(8, 9, 10, 0, 0x20)), Ok(WordOp::Add));
    assert_eq!(decode(&r_word(0, 0, 0, 0, 0x0C)), Ok(WordOp::Syscall));
    assert_eq!(decode(&i_word(0x23, 8, 9, 4)), Ok(WordOp::Lw));
    assert_eq!(decode(&((0x02u32 << 26) | 5)), Ok(WordOp::J));
}

#[test]
fn decode_reports_unknown_words() {
    assert_eq!(
        decode(&r_word(0, 0, 0, 0, 0x23)),
        Err("Failed to fetch R-type instruction with funct: 35".to_string())
    );
    assert_eq!(
        decode(&i_word(0x28, 0, 0, 0)),
        Err("Failed to decode instruction opcode: 40".to_string())
    );
}

#[test]
fn fetch_reads_big_endian_words_inside_text() {
    let memory = Memory::new(vec![], vec![0x12, 0x34, 0x56, 0x78, 0, 0, 0, 1]);
    assert_eq!(fetch(&MIPS_TEXT_START_ADDR, &memory), Ok(0x1234_5678));
    assert_eq!(fetch(&(MIPS_TEXT_START_ADDR + 4), &memory), Ok(1));
    assert_eq!(fetch(&(MIPS_TEXT_START_ADDR + 9), &memory), Err("Program fell off bottom.".to_string()));
    assert_eq!(
        fetch(&(MIPS_TEXT_START_ADDR - 4), &memory),
        Err("Program counter has reached unowned address space. You, the user, have made a grave mistake.".to_string())
    );
}

#[test]
fn execute_dispatches_to_the_routine() {
    let (mut cpu, mut memory) = setup(0, vec![]);
    let mut out = Vec::new();
    cpu.general_purpose_registers[8] = 0b1100;
    cpu.general_purpose_registers[9] = 0b1010;
    let word = r_word(8, 9, 10, 0, 0x26);
    assert_eq!(execute(WordOp::Xor, &mut cpu, &mut memory, word, &mut out), Ok(ExecutionStatus::Continue));
    assert_eq!(cpu.general_purpose_registers[10], 0b0110);
}

fn program(words: &[u32]) -> Vec<u8> {
    let mut text = Vec::new();
    for w in words {
        text.extend_from_slice(&w.to_be_bytes());
    }
    text
}

#[test]
fn single_step_runs_a_small_program() {
    // ori $t0, $zero, 5; addiu $zero, $t0, 1; ori $v0, $zero, 10; syscall
    let text = program(&[
        i_word(0x0D, 0, 8, 5),
        i_word(0x09, 8, 0, 1),
        i_word(0x0D, 0, 2, 10),
        r_word(0, 0, 0, 0, 0x0C),
    ]);
    let mut cpu = Processor::new(MIPS_TEXT_START_ADDR);
    let mut memory = Memory::new(vec![], text);
    let mut out = Vec::new();
    assert_eq!(single_step(&mut cpu, &mut memory, &mut out), Ok(ExecutionStatus::Continue));
    assert_eq!(cpu.general_purpose_registers[8], 5);
    assert_eq!(single_step(&mut cpu, &mut memory, &mut out), Ok(ExecutionStatus::Continue));
    assert_eq!(cpu.general_purpose_registers[0], 0);
    assert_eq!(single_step(&mut cpu, &mut memory, &mut out), Ok(ExecutionStatus::Continue));
    assert_eq!(single_step(&mut cpu, &mut memory, &mut out), Ok(ExecutionStatus::Complete));
    assert_eq!(cpu.pc, MIPS_TEXT_START_ADDR + 16);
}

#[test]
fn single_step_wraps_decode_and_routine_failures() {
    let text = program(&[i_word(0x28, 0, 0, 0), r_word(0, 0, 8, 0, 0x08)]);
    let mut cpu = Processor::new(MIPS_TEXT_START_ADDR);
    let mut memory = Memory::new(vec![], text);
    let mut out = Vec::new();
    assert_eq!(
        single_step(&mut cpu, &mut memory, &mut out),
        Err("An error occurred when fetching instruction at address 0x400000 (instruction 0): Failed to decode instruction opcode: 40.".to_string())
    );
    assert_eq!(cpu.pc, MIPS_TEXT_START_ADDR + 4);
    assert_eq!(
        single_step(&mut cpu, &mut memory, &mut out),
        Err("An error occurred when executing instruction at address 0x400004 (instruction #2): Attempted to jump to unowned address 0x0.".to_string())
    );
}

#[test]
fn single_step_outside_text_falls_off() {
    let mut cpu = Processor::new(MIPS_TEXT_START_ADDR + 64);
    let mut memory = Memory::new(vec![], program(&[0]));
    let mut out = Vec::new();
    assert_eq!(single_step(&mut cpu, &mut memory, &mut out), Err("Program fell off bottom.".to_string()));
}
