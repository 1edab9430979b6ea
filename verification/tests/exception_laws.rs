use name_core::cp0_registers::Register;
use name_core::exception::ExceptionType;
use name_core::structs::{Coprocessor0, Memory, Processor, ProgramState};

#[test]
fn a_field_reads_back_what_was_written_and_its_neighbours_stay() {
    let mut cop0 = Coprocessor0::default();
    cop0.registers[13] = 0xffff_ffff;
    cop0.set_bit_field(Register::Cause, 2..7, 0b1_0110);
    assert_eq!(cop0.get_bit_field(Register::Cause, 2..7), 0b1_0110);
    assert_eq!(cop0.registers[13], 0xffff_ffdb);
    cop0.set_bit_field(Register::Cause, 2..7, 0xff);
    assert_eq!(cop0.get_bit_field(Register::Cause, 2..7), 0x1f);
}

#[test]
fn exception_codes_round_trip() {
    let all = [
        ExceptionType::AddressExceptionLoad,
        ExceptionType::AddressExceptionStore,
        ExceptionType::BusFetch,
        ExceptionType::BusLoadStore,
        ExceptionType::Syscall,
        ExceptionType::Breakpoint,
        ExceptionType::ReservedInstruction,
        ExceptionType::CoprocessorUnusable,
        ExceptionType::ArithmeticOverflow,
        ExceptionType::Trap,
        ExceptionType::FloatingPoint,
    ];
    for e in all {
        assert_eq!(ExceptionType::try_from(e.code()), Ok(e));
    }
    assert_eq!(ExceptionType::Syscall.code(), 8);
    assert_eq!(ExceptionType::try_from(1), Err("Failed to coerce ExcCode 1 to ExceptionType.".to_string()));
}

#[test]
fn raising_then_recovering_resumes_at_the_counter() {
    let mut ps = ProgramState::new(Processor::new(0x0040_0008), Memory::new(vec![], vec![0u8; 16]));
    ps.set_exception(ExceptionType::Syscall);
    assert!(ps.is_exception());
    assert_eq!(ps.cp0.get_epc(), 0x0040_0004);
    assert_eq!(ps.cp0.get_exc_code(), 8);
    ps.recover_from_exception();
    assert!(!ps.is_exception());
    assert_eq!(ps.cpu.pc, 0x0040_0008);
    assert_eq!(ps.cp0.get_epc(), 0);
}

#[test]
fn a_second_exception_keeps_the_first_address() {
    let mut ps = ProgramState::new(Processor::new(0x0040_0008), Memory::new(vec![], vec![0u8; 16]));
    ps.set_exception(ExceptionType::Syscall);
    ps.cpu.pc = 0x0040_000c;
    ps.set_exception(ExceptionType::Breakpoint);
    assert_eq!(ps.cp0.get_epc(), 0x0040_0004);
    assert_eq!(ps.cp0.get_exc_code(), 9);
}

#[test]
fn memory_reads_back_a_stored_byte() {
    let mut m = Memory::new(vec![0u8; 4], vec![0u8; 4]);
    assert_eq!(m.set_byte(0x1001_0002, 0xab), Ok(()));
    assert_eq!(m.read_byte(0x1001_0002), Ok(0xab));
    assert_eq!(m.read_byte(0x1001_0001), Ok(0));
    assert_eq!(m.read_byte(0x1001_0004), Err("Memory address 0x10010004 is out of bounds.".to_string()));
    assert_eq!(m.set_byte(0x0040_0004, 1), Err("Memory address 0x400004 is out of bounds.".to_string()));
}
