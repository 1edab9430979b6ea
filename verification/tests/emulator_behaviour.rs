use name_core::constants::MIPS_TEXT_START_ADDR;
use name_core::debug::{handle_exception, run_step, single_step, try_single_step, DebuggerState};
use name_core::exception::ExceptionType;
use name_core::structs::{LineInfo, Memory, Processor, ProgramState};
use name_core::syscalls::OperatingSystem;

fn text_of(words: &[u32]) -> Vec<u8> {
    words.iter().flat_map(|w| w.to_be_bytes()).collect()
}

fn state_running(words: &[u32]) -> ProgramState {
    ProgramState::new(Processor::default(), Memory::new(vec![0u8; 16], text_of(words)))
}

fn lines_for(words: &[u32]) -> Vec<LineInfo> {
    (0..words.len())
        .map(|i| LineInfo {
            content: format!("line {}", i + 1),
            line_number: (i + 1) as u32,
            start_address: MIPS_TEXT_START_ADDR + 4 * i as u32,
            end_address: MIPS_TEXT_START_ADDR + 4 * (i as u32 + 1),
        })
        .collect()
}

#[test]
fn step_runs_addi_and_moves_on() {
    // addi $t0, $zero, 5
    let words = [0x2008_0005];
    let mut ps = state_running(&words);
    single_step(&lines_for(&words), &mut ps);
    assert_eq!(ps.cpu.general_purpose_registers[8], 5);
    assert_eq!(ps.cpu.pc, MIPS_TEXT_START_ADDR + 4);
    assert!(!ps.is_exception());
}

#[test]
fn step_runs_add_of_a_register_with_itself() {
    // addi $t0, $zero, 5 ; add $t1, $t0, $t0
    let words = [0x2008_0005, 0x0108_4820];
    let lines = lines_for(&words);
    let mut ps = state_running(&words);
    single_step(&lines, &mut ps);
    single_step(&lines, &mut ps);
    assert_eq!(ps.cpu.general_purpose_registers[9], 10);
    assert_eq!(ps.cpu.pc, MIPS_TEXT_START_ADDR + 8);
}

#[test]
fn zero_register_stays_zero_after_a_write_to_it() {
    // addi $zero, $zero, 5
    let words = [0x2000_0005];
    let mut ps = state_running(&words);
    single_step(&lines_for(&words), &mut ps);
    assert_eq!(ps.cpu.general_purpose_registers[0], 0);
}

#[test]
fn add_of_large_words_keeps_the_sum() {
    // lui $t0, 0x7fff ; ori $t0, $t0, 0xffff ; add $t1, $t0, $t0
    let words = [0x3c08_7fff, 0x3508_ffff, 0x0108_4820];
    let lines = lines_for(&words);
    let mut ps = state_running(&words);
    single_step(&lines, &mut ps);
    single_step(&lines, &mut ps);
    assert_eq!(ps.cpu.general_purpose_registers[8], 0x7fff_ffff);
    single_step(&lines, &mut ps);
    assert!(!ps.is_exception());
    assert_eq!(ps.cpu.general_purpose_registers[9], 0xffff_fffe);
}

#[test]
fn unknown_word_raises_reserved_instruction() {
    let words = [0xffff_ffff];
    let mut ps = state_running(&words);
    single_step(&lines_for(&words), &mut ps);
    assert!(ps.is_exception());
    assert_eq!(ExceptionType::try_from(ps.cp0.get_exc_code()), Ok(ExceptionType::ReservedInstruction));
}

#[test]
fn counter_outside_text_raises_address_error() {
    let words = [0x2008_0005];
    let mut ps = state_running(&words);
    ps.cpu.pc = MIPS_TEXT_START_ADDR + 4;
    single_step(&lines_for(&words), &mut ps);
    assert!(ps.is_exception());
    assert_eq!(ExceptionType::try_from(ps.cp0.get_exc_code()), Ok(ExceptionType::AddressExceptionLoad));
}

#[test]
fn try_single_step_refuses_a_counter_at_zero() {
    let words = [0x2008_0005];
    let mut ps = state_running(&words);
    ps.cpu.pc = 0;
    assert_eq!(
        try_single_step(&lines_for(&words), &mut ps),
        Err("attempt to execute an instruction outside the machine's limits".to_string())
    );
}

#[test]
fn syscall_prints_and_resumes_after_it() {
    // ori $v0, $zero, 1 ; ori $a0, $zero, 42 ; syscall
    let words = [0x3402_0001, 0x3404_002a, 0x0000_000c];
    let lines = lines_for(&words);
    let mut ps = state_running(&words);
    let mut os = OperatingSystem::new();
    let mut db = DebuggerState::new();
    for _ in 0..3 {
        single_step(&lines, &mut ps);
    }
    assert!(ps.is_exception());
    assert_eq!(ps.cp0.get_epc(), MIPS_TEXT_START_ADDR + 8);
    assert_eq!(handle_exception(&mut ps, &mut os, &lines, &mut db), Ok(()));
    assert_eq!(os.stdout, b"42".to_vec());
    assert!(!ps.is_exception());
    assert_eq!(ps.cpu.pc, MIPS_TEXT_START_ADDR + 12);
}

#[test]
fn fatal_exception_is_reported_with_its_address() {
    let words = [0xffff_ffff];
    let lines = lines_for(&words);
    let mut ps = state_running(&words);
    let mut os = OperatingSystem::new();
    let mut db = DebuggerState::new();
    single_step(&lines, &mut ps);
    let r = handle_exception(&mut ps, &mut os, &lines, &mut db);
    assert_eq!(
        r,
        Err(format!("[*] At pc 0x{:8x}:\n - {}", MIPS_TEXT_START_ADDR - 4, "Unrecognized bytes in ELF at program counter."))
    );
}

#[test]
fn unknown_syscall_is_an_error() {
    // ori $v0, $zero, 99 ; syscall
    let words = [0x3402_0063, 0x0000_000c];
    let lines = lines_for(&words);
    let mut ps = state_running(&words);
    let mut os = OperatingSystem::new();
    let mut db = DebuggerState::new();
    single_step(&lines, &mut ps);
    single_step(&lines, &mut ps);
    let r = handle_exception(&mut ps, &mut os, &lines, &mut db);
    assert!(r.is_err());
    assert!(os.stdout.is_empty());
}

#[test]
fn breakpoint_in_then_out_restores_the_instruction() {
    let words = [0x2008_0005, 0x0108_4820];
    let lines = lines_for(&words);
    let mut ps = state_running(&words);
    let before = ps.memory.text.clone();
    let mut db = DebuggerState::new();
    let added = db.add_breakpoint(&lines, &vec!["b".to_string(), "2".to_string()], &mut ps);
    assert_eq!(added, Ok(2));
    assert_eq!(db.breakpoints.len(), 1);
    assert_eq!(db.breakpoints[0].unwrap().replaced_instruction, 0x0108_4820);
    assert_eq!(ps.memory.text[4..8].to_vec(), vec![0, 0, 0, 0x0d]);
    assert_eq!(db.remove_breakpoint(&vec!["del".to_string(), "0".to_string()], &mut ps), Ok(()));
    assert_eq!(ps.memory.text, before);
    assert!(db.breakpoints.iter().all(|slot| slot.is_none()));
    assert_eq!(db.global_bp_num, 0);
}

#[test]
fn breakpoint_commands_report_bad_arguments() {
    let words = [0x2008_0005];
    let lines = lines_for(&words);
    let mut ps = state_running(&words);
    let mut db = DebuggerState::new();
    assert_eq!(
        db.add_breakpoint(&lines, &vec!["b".to_string()], &mut ps),
        Err("b expects 1 argument, received 0".to_string())
    );
    assert_eq!(
        db.add_breakpoint(&lines, &vec!["b".to_string(), "x".to_string()], &mut ps),
        Err("b takes 32-bit unsigned int as input".to_string())
    );
    assert_eq!(
        db.add_breakpoint(&lines, &vec!["b".to_string(), "7".to_string()], &mut ps),
        Err("7 exceeds number of lines in program.".to_string())
    );
    assert_eq!(
        db.remove_breakpoint(&vec!["del".to_string(), "x".to_string()], &mut ps),
        Err("del takes an unsigned int as input".to_string())
    );
    assert_eq!(
        db.remove_breakpoint(&vec!["del".to_string(), "3".to_string()], &mut ps),
        Err("Breakpoint 3 not found.".to_string())
    );
}

#[test]
fn register_dump_lists_the_counter_and_registers() {
    let words = [0x2008_0005];
    let mut ps = state_running(&words);
    single_step(&lines_for(&words), &mut ps);
    let dump = ps.register_dump();
    assert!(dump.starts_with("  $pc: 00400004\n"));
    assert!(dump.contains("  $t0: 00000005\n"));
    assert_eq!(dump.lines().count(), 33);
    assert_eq!(ps.print_all_registers(&vec!["pa".to_string()]), Ok(dump));
    assert_eq!(
        ps.print_all_registers(&vec!["pa".to_string(), "x".to_string()]),
        Err("pa expects 0 arguments, received 1".to_string())
    );
}

#[test]
fn errors_name_the_source_line_of_their_address() {
    let words = [0x2008_0005, 0x0108_4820];
    let lines = lines_for(&words);
    assert_eq!(
        name_core::debug::generate_err(&lines, MIPS_TEXT_START_ADDR + 4, "bad"),
        "[*] At pc 0x400004:\n - 2: line 2\n - bad".to_string()
    );
    assert_eq!(
        name_core::debug::generate_err(&lines, 0x10, "bad"),
        "[*] At pc 0x      10:\n - bad".to_string()
    );
}

#[test]
fn stores_write_data_and_leave_the_code() {
    // ori $t0, $zero, 0x41 ; lui $t1, 0x1001 ; sb $t0, 1($t1)
    let words = [0x3408_0041, 0x3c09_1001, 0xa128_0001];
    let lines = lines_for(&words);
    let mut ps = state_running(&words);
    let code = ps.memory.text.clone();
    for _ in 0..3 {
        single_step(&lines, &mut ps);
    }
    assert!(!ps.is_exception());
    assert_eq!(ps.memory.data[1], 0x41);
    assert_eq!(ps.memory.data[0], 0);
    assert_eq!(ps.memory.text, code);
}

#[test]
fn emulator_fetch_raises_instead_of_reading_outside_text() {
    let mut ps = state_running(&[0x2008_0005]);
    ps.cpu.pc = MIPS_TEXT_START_ADDR;
    assert_eq!(name_core::simulator::fetch(&mut ps).raw, 0x2008_0005);
    assert!(!ps.is_exception());

    let mut ps = state_running(&[0x2008_0005]);
    ps.cpu.pc = MIPS_TEXT_START_ADDR + 4;
    assert_eq!(name_core::simulator::fetch(&mut ps).raw, 0);
    assert!(ps.is_exception());
    assert_eq!(ps.cp0.get_exc_code(), 0x06);

    let mut ps = state_running(&[0x2008_0005]);
    ps.cpu.pc = MIPS_TEXT_START_ADDR + 64;
    assert_eq!(name_core::simulator::fetch(&mut ps).raw, 0);
    assert_eq!(ps.cp0.get_exc_code(), 0x04);
}

#[test]
fn run_step_asks_for_input_then_handles_the_read() {
    // ori $v0, $zero, 5; syscall
    let words = [0x3402_0005, 0x0000_000C];
    let lines = lines_for(&words);
    let mut ps = state_running(&words);
    let mut os = OperatingSystem::new();
    assert_eq!(run_step(&lines, &mut ps, &mut os, false), Ok(false));
    assert_eq!(ps.cpu.general_purpose_registers[2], 5);
    assert_eq!(run_step(&lines, &mut ps, &mut os, false), Ok(true));
    assert!(ps.is_exception());
    assert_eq!(run_step(&lines, &mut ps, &mut os, false), Ok(true));
    os.stdin.push_bytes(&b"7\n".to_vec());
    assert_eq!(run_step(&lines, &mut ps, &mut os, false), Ok(false));
    assert!(!ps.is_exception());
    assert_eq!(ps.cpu.general_purpose_registers[2], 7);
    assert_eq!(ps.cpu.pc, MIPS_TEXT_START_ADDR + 8);
}
