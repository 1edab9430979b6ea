use name_core::constants::MIPS_DATA_START_ADDR;
use name_core::structs::{Memory, Processor, ProgramState, A0, A1, V0};
use name_core::syscalls::{
    sys_print_char, sys_print_int, sys_print_string, sys_read_char, sys_read_int, sys_read_string, InputBuffer,
};

fn test_print(
    syscall: fn(&mut ProgramState, &mut Vec<u8>) -> Result<(), String>,
    program_state: &mut ProgramState,
    expected: &str,
) {
    let mut buf = Vec::<u8>::new();
    assert_eq!(Ok(()), syscall(program_state, &mut buf));
    assert_eq!(expected.as_bytes().to_vec(), buf);
}

#[test]
fn test_sys_print_int() {
    let mut program_state = ProgramState::default();
    program_state.cpu.general_purpose_registers[A0] = 4;
    test_print(sys_print_int, &mut program_state, "4");
}

#[test]
fn test_sys_print_char() {
    let mut program_state = ProgramState::default();
    program_state.cpu.general_purpose_registers[A0] = 'c' as u32;
    test_print(sys_print_char, &mut program_state, "c");
}

#[test]
fn test_sys_print_string() {
    let mut program_state = ProgramState::new(
        Processor::default(),
        Memory::new("hello world\0".as_bytes().to_vec(), vec![]),
    );
    program_state.cpu.general_purpose_registers[A0] = MIPS_DATA_START_ADDR;
    test_print(sys_print_string, &mut program_state, "hello world");
}

#[test]
fn test_sys_read_char() {
    let mut program_state = ProgramState::default();
    let mut cursor = InputBuffer::new("name".as_bytes().to_vec());
    assert_eq!(Ok(()), sys_read_char(&mut program_state, &mut cursor));
    assert_eq!(program_state.cpu.general_purpose_registers[V0], 'n' as u32);
}

#[test]
fn test_sys_read_int() {
    let mut program_state = ProgramState::default();
    let mut cursor = InputBuffer::new("8675309".as_bytes().to_vec());
    assert_eq!(Ok(()), sys_read_int(&mut program_state, &mut cursor));
    assert_eq!(program_state.cpu.general_purpose_registers[V0], 8675309);
}

#[test]
fn test_sys_read_sting() {
    let mut str = "just throw yourself at the ground and miss".as_bytes().to_vec();
    let mut cursor = InputBuffer::new(str.clone());
    let mut program_state = ProgramState::new(Processor::default(), Memory::new([0; 16].to_vec(), vec![]));
    program_state.cpu.general_purpose_registers[A0] = MIPS_DATA_START_ADDR;
    program_state.cpu.general_purpose_registers[A1] = 16;
    assert_eq!(Ok(()), sys_read_string(&mut program_state, &mut cursor));
    // read string adds a null terminator as last char
    str[15] = 0;
    assert_eq!(program_state.memory.data[..16], str[..16]);
}
