use name_core::constants::{MIPS_DATA_START_ADDR, MIPS_TEXT_START_ADDR};
use name_core::processor::{ExecutionStatus, Processor};
use name_core::structs::Memory;

fn processor_with(v0: u32, a0: u32) -> Processor {
    let mut cpu = Processor::new(MIPS_TEXT_START_ADDR);
    cpu.general_purpose_registers[2] = v0;
    cpu.general_purpose_registers[4] = a0;
    cpu
}

#[test]
fn syscall_one_prints_the_decimal_value() {
    let mut cpu = processor_with(1, 8675309);
    let mut memory = Memory::new(vec![], vec![]);
    let mut out = Vec::new();
    assert_eq!(cpu.syscall(&mut memory, &mut out), Ok(ExecutionStatus::Continue));
    assert_eq!(out, b"8675309".to_vec());
}

#[test]
fn syscall_four_prints_the_string() {
    let mut cpu = processor_with(4, MIPS_DATA_START_ADDR);
    let mut memory = Memory::new(b"hi\0rest".to_vec(), vec![]);
    let mut out = Vec::new();
    assert_eq!(cpu.syscall(&mut memory, &mut out), Ok(ExecutionStatus::Continue));
    assert_eq!(out, b"hi".to_vec());
}

#[test]
fn syscall_four_reports_bytes_that_are_not_utf8() {
    let mut cpu = processor_with(4, MIPS_DATA_START_ADDR);
    let mut memory = Memory::new(vec![0xff, 0], vec![]);
    let mut out = Vec::new();
    assert_eq!(
        cpu.syscall(&mut memory, &mut out),
        Err("UTF-8 conversion error: invalid utf-8 sequence of 1 bytes from index 0".to_string())
    );
    assert!(out.is_empty());
}

#[test]
fn syscall_four_reports_a_string_that_runs_off_memory() {
    let mut cpu = processor_with(4, MIPS_DATA_START_ADDR);
    let mut memory = Memory::new(b"ab".to_vec(), vec![]);
    let mut out = Vec::new();
    assert_eq!(
        cpu.syscall(&mut memory, &mut out),
        Err("Memory address 0x10010002 is out of bounds.".to_string())
    );
}

#[test]
fn syscall_ten_completes_the_program() {
    let mut cpu = processor_with(10, 0);
    let mut memory = Memory::new(vec![], vec![]);
    let mut out = Vec::new();
    assert_eq!(cpu.syscall(&mut memory, &mut out), Ok(ExecutionStatus::Complete));
    assert!(out.is_empty());
}

#[test]
fn syscall_eleven_prints_a_character() {
    let mut cpu = processor_with(11, 'é' as u32);
    let mut memory = Memory::new(vec![], vec![]);
    let mut out = Vec::new();
    assert_eq!(cpu.syscall(&mut memory, &mut out), Ok(ExecutionStatus::Continue));
    assert_eq!(out, "é".as_bytes().to_vec());
    let mut cpu = processor_with(11, 0xD800);
    assert_eq!(
        cpu.syscall(&mut memory, &mut out),
        Err("Value in register $a0 could not be evaluated to a char.".to_string())
    );
}

#[test]
fn other_syscalls_are_not_implemented() {
    let mut cpu = processor_with(7, 0);
    let mut memory = Memory::new(vec![], vec![]);
    let mut out = Vec::new();
    assert_eq!(cpu.syscall(&mut memory, &mut out), Err("Syscall 7 is not implemented".to_string()));
}

#[test]
fn read_int_stores_the_trimmed_value_in_v0() {
    let mut cpu = processor_with(5, 0);
    let mut memory = Memory::new(vec![], vec![]);
    let mut input = name_core::syscalls::InputBuffer::new(b"  1234 \nnext\n".to_vec());
    assert_eq!(
        name_core::processor::sys_read_int(&mut cpu, &mut memory, &mut input),
        Ok(ExecutionStatus::Continue)
    );
    assert_eq!(cpu.general_purpose_registers[2], 1234);
    assert_eq!(input.pos, 8);
}

#[test]
fn read_int_refuses_text_that_is_not_a_number() {
    let mut cpu = processor_with(5, 0);
    let mut memory = Memory::new(vec![], vec![]);
    let mut input = name_core::syscalls::InputBuffer::new(b" -7 \n".to_vec());
    assert_eq!(
        name_core::processor::sys_read_int(&mut cpu, &mut memory, &mut input),
        Err("-7 is not an integer.\nRead failed".to_string())
    );
    assert_eq!(cpu.general_purpose_registers[2], 5);
}

#[test]
fn read_char_consumes_one_byte_into_v0() {
    let mut cpu = processor_with(12, 0);
    let mut memory = Memory::new(vec![], vec![]);
    let mut input = name_core::syscalls::InputBuffer::new(b"xy".to_vec());
    assert_eq!(
        name_core::processor::sys_read_char(&mut cpu, &mut memory, &mut input),
        Ok(ExecutionStatus::Continue)
    );
    assert_eq!(cpu.general_purpose_registers[2], b'x' as u32);
    assert_eq!(input.pos, 1);
}
