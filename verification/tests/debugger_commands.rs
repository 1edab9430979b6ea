use name_core::debug::DebuggerState;
use name_core::debugger::{
    help_menu, list_text, modify_register, parse_command, print_register, register_index, split_command,
    u32_parse_error_text, DebuggerCommand,
};
use name_core::structs::{LineInfo, Memory, Processor, ProgramState};

fn args(words: &[&str]) -> Vec<String> {
    words.iter().map(|w| w.to_string()).collect()
}

fn lines(n: usize) -> Vec<LineInfo> {
    (0..n)
        .map(|i| LineInfo {
            content: format!("nop {}", i + 1),
            line_number: (i + 1) as u32,
            start_address: 0x0040_0000 + 4 * i as u32,
            end_address: 0x0040_0004 + 4 * i as u32,
        })
        .collect()
}

fn listing_row(l: &LineInfo) -> String {
    format!("{:>3} #{:08x}  {}\n", l.line_number, l.start_address, l.content)
}

#[test]
fn commands_are_split_at_single_spaces_after_trimming() {
    assert_eq!(split_command("  b 12 \n"), args(&["b", "12"]));
    assert_eq!(split_command("p $t0  $t1"), args(&["p", "$t0", "", "$t1"]));
    assert_eq!(split_command(""), args(&[""]));
}

#[test]
fn command_words_name_commands() {
    assert_eq!(parse_command("r").0, DebuggerCommand::Run);
    assert_eq!(parse_command("c").0, DebuggerCommand::Run);
    assert_eq!(parse_command("quit").0, DebuggerCommand::Quit);
    assert_eq!(parse_command("exit").0, DebuggerCommand::Quit);
    assert_eq!(parse_command("del 3").0, DebuggerCommand::RemoveBreakpoint);
    assert_eq!(parse_command("pb").0, DebuggerCommand::PrintBreakpoints);
    assert_eq!(parse_command("x").0, DebuggerCommand::Unknown);
    assert_eq!(parse_command("m $t0 5").1, args(&["m", "$t0", "5"]));
}

#[test]
fn registers_are_found_by_name() {
    assert_eq!(register_index(&"$zero".to_string()), Some(0));
    assert_eq!(register_index(&"$t0".to_string()), Some(8));
    assert_eq!(register_index(&"$ra".to_string()), Some(31));
    assert_eq!(register_index(&"t0".to_string()), None);
}

#[test]
fn printing_registers_reports_each_value() {
    let mut ps = ProgramState::new(Processor::default(), Memory::new(vec![], vec![]));
    ps.cpu.general_purpose_registers[8] = 0xabc;
    let (out, r) = print_register(&ps, &args(&["p", "$t0", "$zero"]));
    assert_eq!(out, "Value in register 8 is 00000abc\nValue in register 0 is 00000000\n".to_string());
    assert_eq!(r, Ok(()));
    let (out, r) = print_register(&ps, &args(&["p", "$t0", "$nope"]));
    assert_eq!(out, "Value in register 8 is 00000abc\n".to_string());
    assert_eq!(r, Err("$t0 is not a valid register.".to_string()));
    let (out, r) = print_register(&ps, &args(&["p"]));
    assert!(out.is_empty());
    assert_eq!(r, Err("p expects a non-zero argument, received 0".to_string()));
    let (_, r) = print_register(&ps, &args(&["p", "t0"]));
    assert_eq!(
        r,
        Err("Congrats! You discovered an unimplemented feature... or you forgot the dollar sign on your register.".to_string())
    );
}

#[test]
fn modifying_a_register_sets_it_and_reports_the_change() {
    let mut ps = ProgramState::new(Processor::default(), Memory::new(vec![], vec![]));
    ps.cpu.general_purpose_registers[9] = 7;
    assert_eq!(
        modify_register(&mut ps, &args(&["m", "$t1", "42"])),
        Ok("Successfully modified value in register $t1 from 7 to 42.\n".to_string())
    );
    assert_eq!(ps.cpu.general_purpose_registers[9], 42);
    assert_eq!(modify_register(&mut ps, &args(&["m", "$t1"])), Err("m expects 2 arguments, received 1".to_string()));
    assert_eq!(
        modify_register(&mut ps, &args(&["m", "t1", "1"])),
        Err("First argument to m must be a register. (Did you include the dollar sign?)".to_string())
    );
    assert_eq!(
        modify_register(&mut ps, &args(&["m", "$t1", "4x"])),
        Err("invalid digit found in string".to_string())
    );
    assert_eq!(ps.cpu.general_purpose_registers[9], 42);
}

#[test]
fn parse_errors_use_the_standard_wording() {
    for s in ["", "+", "-", "-5", "12a", "4294967296", "99999999999x", "+7", "x9999999999"] {
        let expected = match s.parse::<u32>() {
            Ok(_) => String::new(),
            Err(e) => e.to_string(),
        };
        assert_eq!(u32_parse_error_text(s), expected, "parsing {:?}", s);
    }
}

#[test]
fn listing_shows_lines_around_the_remembered_one() {
    let info = lines(20);
    let mut db = DebuggerState::new();
    let text = list_text(&info, &mut db, &args(&["l"])).unwrap();
    let expected: String = info[0..=8].iter().map(listing_row).collect();
    assert_eq!(text, expected);
    assert_eq!(db.global_list_loc, 14);
    let text = list_text(&info, &mut db, &args(&["l", "10"])).unwrap();
    let expected: String = info[5..=13].iter().map(listing_row).collect();
    assert_eq!(text, expected);
    assert_eq!(db.global_list_loc, 19);
    let all = list_text(&info, &mut db, &args(&["l", "all"])).unwrap();
    assert_eq!(all.lines().count(), 20);
    assert_eq!(list_text(&info, &mut db, &args(&["l", "21"])), Err("21 out of bounds of program.".to_string()));
    assert_eq!(
        list_text(&info, &mut db, &args(&["l", "x"])),
        Err("l expects an unsigned int or \"all\" as an argument".to_string())
    );
    assert_eq!(list_text(&info, &mut db, &args(&["l", "1", "2"])), Err("l expects 0 or 1 arguments, received 2".to_string()));
}

#[test]
fn breakpoints_are_listed_by_number() {
    let info = lines(3);
    let mut ps = ProgramState::new(Processor::default(), Memory::new(vec![], vec![0u8; 12]));
    let mut db = DebuggerState::new();
    assert_eq!(db.add_breakpoint(&info, &args(&["b", "3"]), &mut ps), Ok(3));
    assert_eq!(db.add_breakpoint(&info, &args(&["b", "1"]), &mut ps), Ok(1));
    assert_eq!(db.print_all_breakpoints(), "BP_NUM: LINE_NUM\n     0: 3\n     1: 1\n".to_string());
}

#[test]
fn deleting_a_breakpoint_keeps_the_others_numbers() {
    let info = lines(3);
    let mut ps = ProgramState::new(Processor::default(), Memory::new(vec![], vec![0u8; 12]));
    let mut db = DebuggerState::new();
    assert_eq!(db.add_breakpoint(&info, &args(&["b", "1"]), &mut ps), Ok(1));
    assert_eq!(db.add_breakpoint(&info, &args(&["b", "2"]), &mut ps), Ok(2));
    assert_eq!(db.add_breakpoint(&info, &args(&["b", "3"]), &mut ps), Ok(3));
    assert_eq!(db.remove_breakpoint(&args(&["del", "1"]), &mut ps), Ok(()));
    assert!(db.breakpoints[1].is_none());
    assert_eq!(db.breakpoints[2].unwrap().line_num, 3);
    assert_eq!(db.global_bp_num, 1);
    assert_eq!(db.print_all_breakpoints(), "BP_NUM: LINE_NUM\n     0: 1\n     2: 3\n".to_string());
    assert_eq!(db.remove_breakpoint(&args(&["del", "1"]), &mut ps), Err("Breakpoint 1 not found.".to_string()));
    assert_eq!(db.add_breakpoint(&info, &args(&["b", "2"]), &mut ps), Ok(2));
    assert_eq!(db.breakpoints[1].unwrap().line_num, 2);
    assert_eq!(db.global_bp_num, 3);
}

#[test]
fn help_covers_each_command() {
    let (out, err) = help_menu(args(&["help"]));
    assert_eq!(out.lines().count(), 12);
    assert!(out.starts_with("help - Display this menu.\n"));
    assert!(err.is_empty());
    let (out, _) = help_menu(args(&["help", "l"]));
    assert_eq!(out.lines().count(), 3);
    let (out, err) = help_menu(args(&["help", "zz"]));
    assert!(out.is_empty());
    assert_eq!(
        err,
        "zz is either not recognized as a valid command or the help menu for it was neglected to be implemented.\n"
            .to_string()
    );
}
