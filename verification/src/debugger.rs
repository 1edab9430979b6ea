//! The commands of the command-line debugger, as text: what each prints, and
//! what it changes in the program or the debugger.
use vstd::prelude::*;

use crate::constants::{lemma_register_names, lemma_register_names_distinct, numbered_name, register_name, register_str};
use crate::debug::DebuggerState;
use crate::structs::{LineInfo, ProgramState};
use crate::text::{
    append_padded, append_radix, dec_chars, hex_chars, is_digit, pad_left, parse_unsigned, parse_unsigned_str, trim, trim_str,
    unsigned_body,
};

verus! {

/// The first register, from index `i` on, whose name is `name`.
pub open spec fn register_named(name: Seq<char>, i: int) -> Option<int>
    decreases 32 - i,
{
    if i < 0 || i >= 32 {
        None
    } else if register_name(i) == name {
        Some(i)
    } else {
        register_named(name, i + 1)
    }
}

/// The index of the register called `name` (such as `$t0`), if there is one.
pub fn register_index(name: &String) -> (r: Option<usize>)
    ensures
        r == match register_named(name@, 0) {
            Some(i) => Some(i as usize),
            None => None::<usize>,
        },
{
    let mut i: usize = 0;
    while i < 32
        invariant
            i <= 32,
            register_named(name@, 0) == register_named(name@, i as int),
        decreases 32 - i,
    {
        let candidate = String::from_str(register_str(i));
        if candidate == *name {
            return Some(i);
        }
        i = i + 1;
    }
    None
}

/// One line of the breakpoint list: the number right-aligned in six columns,
/// then the source line.
pub open spec fn breakpoint_row(bp_num: nat, line_num: u32) -> Seq<char> {
    pad_left(dec_chars(bp_num), 6, ' ') + ": "@ + dec_chars(line_num as nat) + "\n"@
}

/// The rows of the breakpoints in the first `k` slots of `d` (empty slots give none).
pub open spec fn breakpoint_rows(d: DebuggerState, k: int) -> Seq<char>
    decreases k,
{
    if k <= 0 {
        Seq::empty()
    } else {
        match d.breakpoints@[k - 1] {
            Some(bp) => breakpoint_rows(d, k - 1) + breakpoint_row((k - 1) as nat, bp.line_num),
            None => breakpoint_rows(d, k - 1),
        }
    }
}

impl DebuggerState {
    /// The list of breakpoints: a heading, then each breakpoint's number and
    /// line, in order of number.
    pub fn print_all_breakpoints(&self) -> (s: String)
        ensures
            s@ == "BP_NUM: LINE_NUM\n"@ + breakpoint_rows(*self, self.breakpoints@.len() as int),
    {
        let mut s = String::new();
        s.append("BP_NUM: LINE_NUM\n");
        proof { reveal_strlit("BP_NUM: LINE_NUM\n"); }
        let mut k: usize = 0;
        while k < self.breakpoints.len()
            invariant
                k <= self.breakpoints@.len(),
                s@ == "BP_NUM: LINE_NUM\n"@ + breakpoint_rows(*self, k as int),
            decreases self.breakpoints.len() - k,
        {
            if let Some(bp) = self.breakpoints[k] {
                proof { reveal_strlit(" "); }
                append_padded(&mut s, k as u64, 10, 6, " ");
                s.append(": ");
                append_radix(&mut s, bp.line_num as u64, 10);
                s.append("\n");
                proof {
                    reveal_strlit(": ");
                    reveal_strlit("\n");
                    assert(s@ =~= "BP_NUM: LINE_NUM\n"@ + breakpoint_rows(*self, k + 1));
                }
            }
            k = k + 1;
        }
        s
    }
}

/// The listing of one source line: its number right-aligned in three columns,
/// `#` and its address in eight hex digits, then its text.
pub open spec fn listing_line(l: LineInfo) -> Seq<char> {
    pad_left(dec_chars(l.line_number as nat), 3, ' ') + " #"@ + pad_left(hex_chars(l.start_address as nat), 8, '0')
        + "  "@ + l.content@ + "\n"@
}

/// The listing of the lines from index `lo` up to, not including, `hi`.
pub open spec fn listing(lines: Seq<LineInfo>, lo: int, hi: int) -> Seq<char>
    decreases hi - lo,
{
    if hi <= lo {
        Seq::empty()
    } else {
        listing(lines, lo, hi - 1) + listing_line(lines[hi - 1])
    }
}

/// The first index listed around line `l` (see `DebuggerState::list_lines`).
pub open spec fn list_first(l: int) -> int {
    if l >= 5 { l - 5 } else { 0 }
}

/// The last index listed around line `l` among `len` lines.
pub open spec fn list_last(len: int, l: int) -> int {
    if l + 3 < len - 1 { l + 3 } else { len - 1 }
}

/// Where listing goes on after listing around line `l`.
pub open spec fn list_next(len: int, l: int) -> int {
    if l + 9 <= len { l + 9 } else { 5 }
}

/// What is listed around line `l`.
pub open spec fn shown_lines(lines: Seq<LineInfo>, l: int) -> Seq<char> {
    listing(lines, list_first(l), list_last(lines.len() as int, l) + 1)
}

/// Appends the listing of lines `lo` up to, not including, `hi`.
fn append_listing(s: &mut String, lines: &Vec<LineInfo>, lo: usize, hi: usize)
    requires
        hi <= lines@.len(),
    ensures
        final(s)@ == old(s)@ + listing(lines@, lo as int, hi as int),
{
    if hi <= lo {
        return;
    }
    let mut i: usize = lo;
    while i < hi
        invariant
            lo <= i <= hi,
            hi <= lines@.len(),
            s@ == old(s)@ + listing(lines@, lo as int, i as int),
        decreases hi - i,
    {
        let line = &lines[i];
        proof { reveal_strlit(" "); reveal_strlit("0"); }
        append_padded(s, line.line_number as u64, 10, 3, " ");
        s.append(" #");
        append_padded(s, line.start_address as u64, 16, 8, "0");
        s.append("  ");
        s.append(line.content.as_str());
        s.append("\n");
        proof {
            reveal_strlit(" #");
            reveal_strlit("  ");
            reveal_strlit("\n");
            assert(s@ =~= old(s)@ + listing(lines@, lo as int, i + 1));
        }
        i = i + 1;
    }
}

/// The line that "l" lists around, when it lists around one: the remembered
/// line without an argument; the given line when it is a number within the
/// program (0 meaning the remembered line).
pub open spec fn list_around(lineinfo: Seq<LineInfo>, d: DebuggerState, db_args: Seq<String>) -> Option<int> {
    if db_args.len() == 1 {
        Some(d.global_list_loc as int)
    } else if db_args.len() == 2 && db_args[1]@ != "all"@ {
        match parse_unsigned(db_args[1]@, usize::MAX as nat) {
            Some(n) => if n <= lineinfo.len() {
                Some(if n == 0 { d.global_list_loc as int } else { n as int })
            } else {
                None
            },
            None => None,
        }
    } else {
        None
    }
}

/// Whether "l" with `db_args` can list (see `list_text`): when it lists around
/// a line, the program has a line and the line is not at the very top of the
/// address range.
pub fn listing_possible(lineinfo: &Vec<LineInfo>, debugger_state: &DebuggerState, db_args: &Vec<String>) -> (b: bool)
    requires
        db_args@.len() >= 1,
    ensures
        b == (list_around(lineinfo@, *debugger_state, db_args@) matches Some(l) ==> lineinfo@.len() >= 1 && l <= usize::MAX - 9),
{
    let l: usize = if db_args.len() == 1 {
        debugger_state.global_list_loc
    } else if db_args.len() == 2 {
        let all = String::from_str("all");
        proof { reveal_strlit("all"); }
        if db_args[1] == all {
            return true;
        }
        match parse_unsigned_str(db_args[1].as_str(), usize::MAX as u64) {
            None => { return true; },
            Some(n) => {
                if n as usize > lineinfo.len() {
                    return true;
                }
                if n == 0 { debugger_state.global_list_loc } else { n as usize }
            },
        }
    } else {
        return true;
    };
    lineinfo.len() >= 1 && l <= usize::MAX - 9
}

/// "l": lists the program. Without an argument, the lines around the
/// remembered line; with "all", every line; with a line number, the lines
/// around it. Listing around a line moves the remembered line on.
pub fn list_text(lineinfo: &Vec<LineInfo>, debugger_state: &mut DebuggerState, db_args: &Vec<String>) -> (r: Result<String, String>)
    requires
        db_args@.len() >= 1,
        list_around(lineinfo@, *old(debugger_state), db_args@) matches Some(l) ==> lineinfo@.len() >= 1 && l <= usize::MAX - 9,
    ensures
        final(debugger_state).breakpoints == old(debugger_state).breakpoints,
        final(debugger_state).global_bp_num == old(debugger_state).global_bp_num,
        match list_around(lineinfo@, *old(debugger_state), db_args@) {
            Some(l) => (r matches Ok(t) && t@ == shown_lines(lineinfo@, l))
                && final(debugger_state).global_list_loc == list_next(lineinfo@.len() as int, l),
            None => final(debugger_state).global_list_loc == old(debugger_state).global_list_loc && if db_args@.len() > 2 {
                r matches Err(e) && e@ == "l expects 0 or 1 arguments, received "@ + dec_chars((db_args@.len() - 1) as nat)
            } else if db_args@[1]@ == "all"@ {
                r matches Ok(t) && t@ == listing(lineinfo@, 0, lineinfo@.len() as int)
            } else {
                match parse_unsigned(db_args@[1]@, usize::MAX as nat) {
                    Some(n) => r matches Err(e) && e@ == dec_chars(n) + " out of bounds of program."@,
                    None => r matches Err(e) && e@ == "l expects an unsigned int or \"all\" as an argument"@,
                }
            },
        },
{
    if db_args.len() == 1 {
        let l = debugger_state.global_list_loc;
        let (begin, end) = debugger_state.list_lines(lineinfo, l);
        let mut t = String::new();
        append_listing(&mut t, lineinfo, begin, end + 1);
        return Ok(t);
    }
    if db_args.len() > 2 {
        let mut m = String::new();
        m.append("l expects 0 or 1 arguments, received ");
        append_radix(&mut m, (db_args.len() - 1) as u64, 10);
        proof { reveal_strlit("l expects 0 or 1 arguments, received "); }
        return Err(m);
    }
    let all = String::from_str("all");
    proof { reveal_strlit("all"); }
    if db_args[1] == all {
        let mut t = String::new();
        append_listing(&mut t, lineinfo, 0, lineinfo.len());
        return Ok(t);
    }
    match parse_unsigned_str(db_args[1].as_str(), usize::MAX as u64) {
        None => {
            proof { reveal_strlit("l expects an unsigned int or \"all\" as an argument"); }
            Err("l expects an unsigned int or \"all\" as an argument".to_string())
        },
        Some(n) => {
            let lnum = n as usize;
            if lnum > lineinfo.len() {
                let mut m = String::new();
                append_radix(&mut m, n, 10);
                m.append(" out of bounds of program.");
                proof { reveal_strlit(" out of bounds of program."); }
                Err(m)
            } else {
                let (begin, end) = debugger_state.list_lines(lineinfo, lnum);
                let mut t = String::new();
                append_listing(&mut t, lineinfo, begin, end + 1);
                Ok(t)
            }
        },
    }
}

/// The line "p" prints for register `i` holding `v`.
pub open spec fn value_line(i: int, v: u32) -> Seq<char> {
    "Value in register "@ + dec_chars(i as nat) + " is "@ + pad_left(hex_chars(v as nat), 8, '0') + "\n"@
}

/// The first argument, from index `k` on, that names no register (the number
/// of arguments when every one does).
pub open spec fn first_unknown(args: Seq<String>, k: int) -> int
    decreases args.len() - k,
{
    if k < 0 || k >= args.len() {
        args.len() as int
    } else if register_named(args[k]@, 0) is None {
        k
    } else {
        first_unknown(args, k + 1)
    }
}

/// The value lines of the registers named by arguments 1 up to, not including, `k`.
pub open spec fn value_lines(regs: Seq<u32>, args: Seq<String>, k: int) -> Seq<char>
    decreases k,
{
    if k <= 1 {
        Seq::empty()
    } else {
        value_lines(regs, args, k - 1) + match register_named(args[k - 1]@, 0) {
            Some(i) => value_line(i, regs[i]),
            None => Seq::empty(),
        }
    }
}

/// Whether `s` starts with a dollar sign.
pub open spec fn starts_with_dollar(s: Seq<char>) -> bool {
    s.len() > 0 && s[0] == '$'
}

/// "p": prints the value of each register named by the arguments, in order;
/// the first name that is no register stops it with an error (which names the
/// first argument). Gives what was printed and the outcome.
pub fn print_register(program_state: &ProgramState, db_args: &Vec<String>) -> (r: (String, Result<(), String>))
    requires
        db_args@.len() >= 1,
    ensures
        db_args@.len() < 2 ==> r.0@ == Seq::<char>::empty()
            && (r.1 matches Err(e) && e@ == "p expects a non-zero argument, received "@ + dec_chars((db_args@.len() - 1) as nat)),
        db_args@.len() >= 2 && !starts_with_dollar(db_args@[1]@) ==> r.0@ == Seq::<char>::empty()
            && (r.1 matches Err(e) && e@ == "Congrats! You discovered an unimplemented feature... or you forgot the dollar sign on your register."@),
        db_args@.len() >= 2 && starts_with_dollar(db_args@[1]@) ==> {
            let stop = first_unknown(db_args@, 1);
            &&& r.0@ == value_lines(program_state.cpu.general_purpose_registers@, db_args@, stop)
            &&& stop < db_args@.len() ==> (r.1 matches Err(e) && e@ == db_args@[1]@ + " is not a valid register."@)
            &&& stop == db_args@.len() ==> r.1 is Ok
        },
{
    let mut out = String::new();
    if db_args.len() < 2 {
        let mut m = String::new();
        m.append("p expects a non-zero argument, received ");
        append_radix(&mut m, (db_args.len() - 1) as u64, 10);
        proof { reveal_strlit("p expects a non-zero argument, received "); }
        return (out, Err(m));
    }
    let first = db_args[1].as_str();
    if !(first.unicode_len() > 0 && first.get_char(0) == '$') {
        proof { reveal_strlit("Congrats! You discovered an unimplemented feature... or you forgot the dollar sign on your register."); }
        return (out, Err("Congrats! You discovered an unimplemented feature... or you forgot the dollar sign on your register.".to_string()));
    }
    let ghost regs = program_state.cpu.general_purpose_registers@;
    let mut k: usize = 1;
    while k < db_args.len()
        invariant
            1 <= k <= db_args@.len(),
            db_args@.len() >= 2,
            starts_with_dollar(db_args@[1]@),
            regs == program_state.cpu.general_purpose_registers@,
            first_unknown(db_args@, 1) == first_unknown(db_args@, k as int),
            out@ == value_lines(regs, db_args@, k as int),
        decreases db_args.len() - k,
    {
        match register_index(&db_args[k]) {
            Some(i) => {
                proof { crate::debugger::lemma_register_named_range(db_args@[k as int]@, 0); }
                out.append("Value in register ");
                append_radix(&mut out, i as u64, 10);
                out.append(" is ");
                proof { reveal_strlit("0"); }
                append_padded(&mut out, program_state.cpu.general_purpose_registers[i] as u64, 16, 8, "0");
                out.append("\n");
                proof {
                    reveal_strlit("Value in register ");
                    reveal_strlit(" is ");
                    reveal_strlit("\n");
                    assert(out@ =~= value_lines(regs, db_args@, k + 1));
                }
            },
            None => {
                let mut m = String::new();
                m.append(db_args[1].as_str());
                m.append(" is not a valid register.");
                proof { reveal_strlit(" is not a valid register."); }
                return (out, Err(m));
            },
        }
        k = k + 1;
    }
    (out, Ok(()))
}

/// A register found by name is one of the 32.
pub proof fn lemma_register_named_range(name: Seq<char>, i: int)
    ensures
        register_named(name, i) matches Some(j) ==> i <= j < 32 && register_name(j) == name,
    decreases 32 - i,
{
    if 0 <= i < 32 && register_name(i) != name {
        lemma_register_named_range(name, i + 1);
    }
}

/// The value of a decimal digit.
pub open spec fn digit_value(c: char) -> nat {
    ((c as nat) - 48) as nat
}

/// What parsing the digits `d` from index `i` on, after the value `acc` of
/// those before, reports first: a character that is no digit, or a value past
/// `u32::MAX` (nothing when neither happens).
pub open spec fn digits_error(d: Seq<char>, i: int, acc: nat) -> Seq<char>
    decreases d.len() - i,
{
    if i < 0 || i >= d.len() {
        Seq::empty()
    } else if !is_digit(d[i]) {
        "invalid digit found in string"@
    } else if acc * 10 + digit_value(d[i]) > u32::MAX {
        "number too large to fit in target type"@
    } else {
        digits_error(d, i + 1, acc * 10 + digit_value(d[i]))
    }
}

/// What parsing `s` as a `u32` reports when it fails, in the standard
/// library's words: an empty string, a sign alone or a character that is no
/// digit, or a value too large.
pub open spec fn u32_parse_error(s: Seq<char>) -> Seq<char> {
    if s.len() == 0 {
        "cannot parse integer from empty string"@
    } else if s == seq!['+'] || s == seq!['-'] {
        "invalid digit found in string"@
    } else {
        digits_error(unsigned_body(s), 0, 0)
    }
}

/// The report of parsing `s` as a `u32` (see `u32_parse_error`).
pub fn u32_parse_error_text(s: &str) -> (m: String)
    ensures
        m@ == u32_parse_error(s@),
{
    let n = s.unicode_len();
    if n == 0 {
        proof { reveal_strlit("cannot parse integer from empty string"); }
        return "cannot parse integer from empty string".to_string();
    }
    let c0 = s.get_char(0);
    if n == 1 && (c0 == '+' || c0 == '-') {
        proof {
            reveal_strlit("invalid digit found in string");
            assert(s@ =~= seq![c0]);
        }
        return "invalid digit found in string".to_string();
    }
    let mut i: usize = if c0 == '+' { 1 } else { 0 };
    let start = i;
    let ghost d = unsigned_body(s@);
    assert(d =~= s@.subrange(start as int, n as int));
    let mut acc: u64 = 0;
    while i < n
        invariant
            n == s@.len(),
            n >= 1,
            !(s@ == seq!['+'] || s@ == seq!['-']),
            d == unsigned_body(s@),
            d == s@.subrange(start as int, n as int),
            start <= i <= n,
            acc <= u32::MAX,
            digits_error(d, 0, 0) == digits_error(d, i - start, acc as nat),
        decreases n - i,
    {
        let c = s.get_char(i);
        assert(c == d[i - start]);
        if !('0' <= c && c <= '9') {
            proof { reveal_strlit("invalid digit found in string"); }
            return "invalid digit found in string".to_string();
        }
        let next: u64 = acc * 10 + (c as u32 - 48) as u64;
        if next > 0xFFFF_FFFF {
            proof { reveal_strlit("number too large to fit in target type"); }
            return "number too large to fit in target type".to_string();
        }
        acc = next;
        i = i + 1;
    }
    String::new()
}

/// "m": sets the register named by the first argument to the value the second
/// gives in decimal, and reports the change.
pub fn modify_register(program_state: &mut ProgramState, db_args: &Vec<String>) -> (r: Result<String, String>)
    requires
        db_args@.len() >= 1,
    ensures
        final(program_state).cpu.pc == old(program_state).cpu.pc,
        final(program_state).cp0 == old(program_state).cp0,
        final(program_state).memory == old(program_state).memory,
        final(program_state).should_continue_execution == old(program_state).should_continue_execution,
        ({
            let regs = old(program_state).cpu.general_purpose_registers@;
            let unchanged = final(program_state).cpu.general_purpose_registers@ == regs;
            if db_args@.len() != 3 {
                unchanged && (r matches Err(e) && e@ == "m expects 2 arguments, received "@ + dec_chars((db_args@.len() - 1) as nat))
            } else {
                match register_named(db_args@[1]@, 0) {
                    None => unchanged && (r matches Err(e)
                        && e@ == "First argument to m must be a register. (Did you include the dollar sign?)"@),
                    Some(i) => match parse_unsigned(db_args@[2]@, u32::MAX as nat) {
                        None => unchanged && (r matches Err(e) && e@ == u32_parse_error(db_args@[2]@)),
                        Some(v) => final(program_state).cpu.general_purpose_registers@ == regs.update(i, v as u32)
                            && (r matches Ok(t) && t@ == "Successfully modified value in register "@ + db_args@[1]@
                                + " from "@ + dec_chars(regs[i] as nat) + " to "@ + dec_chars(v) + ".\n"@),
                    },
                }
            }
        }),
{
    if db_args.len() != 3 {
        let mut m = String::new();
        m.append("m expects 2 arguments, received ");
        append_radix(&mut m, (db_args.len() - 1) as u64, 10);
        proof { reveal_strlit("m expects 2 arguments, received "); }
        return Err(m);
    }
    let register = match register_index(&db_args[1]) {
        Some(i) => i,
        None => {
            proof { reveal_strlit("First argument to m must be a register. (Did you include the dollar sign?)"); }
            return Err("First argument to m must be a register. (Did you include the dollar sign?)".to_string());
        },
    };
    proof { lemma_register_named_range(db_args@[1]@, 0); }
    let value: u32 = match parse_unsigned_str(db_args[2].as_str(), 0xFFFF_FFFF) {
        Some(v) => v as u32,
        None => {
            return Err(u32_parse_error_text(db_args[2].as_str()));
        },
    };
    let previous_value = program_state.cpu.general_purpose_registers[register];
    program_state.cpu.general_purpose_registers[register] = value;
    let mut t = String::new();
    t.append("Successfully modified value in register ");
    t.append(db_args[1].as_str());
    t.append(" from ");
    append_radix(&mut t, previous_value as u64, 10);
    t.append(" to ");
    append_radix(&mut t, value as u64, 10);
    t.append(".\n");
    proof {
        reveal_strlit("Successfully modified value in register ");
        reveal_strlit(" from ");
        reveal_strlit(" to ");
        reveal_strlit(".\n");
    }
    Ok(t)
}

/// The general help: a line for each debugger command.
pub open spec fn general_help() -> Seq<char> {
    "help - Display this menu.\n"@
        + "help [CMD] - Get more information about a specific db command CMD.\n"@
        + "r - Begin execution of program.\n"@
        + "c - Continue program execution until the next breakpoint.\n"@
        + "s - Execute only the next instruction.\n"@
        + "l - Print the entire program. (this functionality will be much improved later)\n"@
        + "p - Print the value of a register (or registers) at the current place in program execution (please include the dollar sign).\n"@
        + "pa - Print value of ALL registers at once.\n"@
        + "pb - Print all breakpoints.\n"@
        + "b [N] - Insert a breakpoint at line number N.\n"@
        + "del [N] - Delete breakpoint number N.\n"@
        + "q - Exit (quit) debugger.\n"@
}

/// The help for the command `cmd`, where there is one.
pub open spec fn command_help(cmd: Seq<char>) -> Option<Seq<char>> {
    if cmd == "r"@ {
        Some("Begin execution of program.\n"@)
    } else if cmd == "c"@ {
        Some("Continue program execution until the next breakpoint.\n"@)
    } else if cmd == "s"@ {
        Some("Execute only the next instruction.\n"@)
    } else if cmd == "l"@ {
        Some("When provided no arguments: print the first ten lines of the program. Then, print the next 10, and so forth.\n"@ + "When provided a line number (positive integer): print 9 lines around the given line number.\n"@ + "When provided the argument \"all\": print the entire program.\n"@)
    } else if cmd == "p"@ {
        Some("Print the value stored in the provided register.\n"@)
    } else if cmd == "pa"@ {
        Some("Print each register and the value stored therein.\n"@)
    } else if cmd == "pb"@ {
        Some("Print all user-created breakpoints.\n"@)
    } else if cmd == "b"@ {
        Some("Insert a breakpoint at the line number provided. Note that this line will be executed before the break occurs.\n"@)
    } else if cmd == "del"@ {
        Some("Delete the breakpoint with the associated number. (run pb to find out which number the desired breakpoint has)\n"@)
    } else if cmd == "help"@ {
        Some("you're funny\n"@)
    } else if cmd == "q"@ {
        Some("please work :wq please work :wq plea\n"@)
    } else {
        None
    }
}

/// "help": the general help without an argument, the help of one command
/// with one. Gives what goes to standard output and what goes to standard
/// error (the complaint about a command without help).
pub fn help_menu(db_args: Vec<String>) -> (r: (String, String))
    ensures
        db_args@.len() == 1 ==> r.0@ == general_help() && r.1@ == Seq::<char>::empty(),
        db_args@.len() == 2 ==> match command_help(db_args@[1]@) {
            Some(t) => r.0@ == t && r.1@ == Seq::<char>::empty(),
            None => r.0@ == Seq::<char>::empty() && r.1@ == db_args@[1]@
                + " is either not recognized as a valid command or the help menu for it was neglected to be implemented.\n"@,
        },
        db_args@.len() != 1 && db_args@.len() != 2 ==> r.0@ == Seq::<char>::empty() && r.1@ == Seq::<char>::empty(),
{
    let mut out = String::new();
    let mut err = String::new();
    if db_args.len() == 1 {
        out.append("help - Display this menu.\n");
        out.append("help [CMD] - Get more information about a specific db command CMD.\n");
        out.append("r - Begin execution of program.\n");
        out.append("c - Continue program execution until the next breakpoint.\n");
        out.append("s - Execute only the next instruction.\n");
        out.append("l - Print the entire program. (this functionality will be much improved later)\n");
        out.append("p - Print the value of a register (or registers) at the current place in program execution (please include the dollar sign).\n");
        out.append("pa - Print value of ALL registers at once.\n");
        out.append("pb - Print all breakpoints.\n");
        out.append("b [N] - Insert a breakpoint at line number N.\n");
        out.append("del [N] - Delete breakpoint number N.\n");
        out.append("q - Exit (quit) debugger.\n");
        proof {
            reveal_strlit("help - Display this menu.\n");
            reveal_strlit("help [CMD] - Get more information about a specific db command CMD.\n");
            reveal_strlit("r - Begin execution of program.\n");
            reveal_strlit("c - Continue program execution until the next breakpoint.\n");
            reveal_strlit("s - Execute only the next instruction.\n");
            reveal_strlit("l - Print the entire program. (this functionality will be much improved later)\n");
            reveal_strlit("p - Print the value of a register (or registers) at the current place in program execution (please include the dollar sign).\n");
            reveal_strlit("pa - Print value of ALL registers at once.\n");
            reveal_strlit("pb - Print all breakpoints.\n");
            reveal_strlit("b [N] - Insert a breakpoint at line number N.\n");
            reveal_strlit("del [N] - Delete breakpoint number N.\n");
            reveal_strlit("q - Exit (quit) debugger.\n");
        }
        return (out, err);
    }
    if db_args.len() != 2 {
        return (out, err);
    }
    let cmd = &db_args[1];
    if *cmd == String::from_str("r") {
        proof { reveal_strlit("r"); }
        out.append("Begin execution of program.\n");
        proof {
            reveal_strlit("Begin execution of program.\n");
        }
    } else if *cmd == String::from_str("c") {
        proof { reveal_strlit("c"); }
        out.append("Continue program execution until the next breakpoint.\n");
        proof {
            reveal_strlit("Continue program execution until the next breakpoint.\n");
        }
    } else if *cmd == String::from_str("s") {
        proof { reveal_strlit("s"); }
        out.append("Execute only the next instruction.\n");
        proof {
            reveal_strlit("Execute only the next instruction.\n");
        }
    } else if *cmd == String::from_str("l") {
        proof { reveal_strlit("l"); }
        out.append("When provided no arguments: print the first ten lines of the program. Then, print the next 10, and so forth.\n");
        out.append("When provided a line number (positive integer): print 9 lines around the given line number.\n");
        out.append("When provided the argument \"all\": print the entire program.\n");
        proof {
            reveal_strlit("When provided no arguments: print the first ten lines of the program. Then, print the next 10, and so forth.\n");
            reveal_strlit("When provided a line number (positive integer): print 9 lines around the given line number.\n");
            reveal_strlit("When provided the argument \"all\": print the entire program.\n");
        }
    } else if *cmd == String::from_str("p") {
        proof { reveal_strlit("p"); }
        out.append("Print the value stored in the provided register.\n");
        proof {
            reveal_strlit("Print the value stored in the provided register.\n");
        }
    } else if *cmd == String::from_str("pa") {
        proof { reveal_strlit("pa"); }
        out.append("Print each register and the value stored therein.\n");
        proof {
            reveal_strlit("Print each register and the value stored therein.\n");
        }
    } else if *cmd == String::from_str("pb") {
        proof { reveal_strlit("pb"); }
        out.append("Print all user-created breakpoints.\n");
        proof {
            reveal_strlit("Print all user-created breakpoints.\n");
        }
    } else if *cmd == String::from_str("b") {
        proof { reveal_strlit("b"); }
        out.append("Insert a breakpoint at the line number provided. Note that this line will be executed before the break occurs.\n");
        proof {
            reveal_strlit("Insert a breakpoint at the line number provided. Note that this line will be executed before the break occurs.\n");
        }
    } else if *cmd == String::from_str("del") {
        proof { reveal_strlit("del"); }
        out.append("Delete the breakpoint with the associated number. (run pb to find out which number the desired breakpoint has)\n");
        proof {
            reveal_strlit("Delete the breakpoint with the associated number. (run pb to find out which number the desired breakpoint has)\n");
        }
    } else if *cmd == String::from_str("help") {
        proof { reveal_strlit("help"); }
        out.append("you're funny\n");
        proof {
            reveal_strlit("you're funny\n");
        }
    } else if *cmd == String::from_str("q") {
        proof { reveal_strlit("q"); }
        out.append("please work :wq please work :wq plea\n");
        proof {
            reveal_strlit("please work :wq please work :wq plea\n");
        }
    } else {
        proof { reveal_strlit("r"); }
        proof { reveal_strlit("c"); }
        proof { reveal_strlit("s"); }
        proof { reveal_strlit("l"); }
        proof { reveal_strlit("p"); }
        proof { reveal_strlit("pa"); }
        proof { reveal_strlit("pb"); }
        proof { reveal_strlit("b"); }
        proof { reveal_strlit("del"); }
        proof { reveal_strlit("help"); }
        proof { reveal_strlit("q"); }
        err.append(cmd.as_str());
        err.append(" is either not recognized as a valid command or the help menu for it was neglected to be implemented.\n");
        proof { reveal_strlit(" is either not recognized as a valid command or the help menu for it was neglected to be implemented.\n"); }
    }
    (out, err)
}

/// The index of the first space in `s` at or after `i` (the length when there is none).
pub open spec fn next_space(s: Seq<char>, i: int) -> int
    decreases s.len() - i,
{
    if i < 0 || i >= s.len() {
        s.len() as int
    } else if s[i] == ' ' {
        i
    } else {
        next_space(s, i + 1)
    }
}

/// The pieces of `s` from index `start` on, separated by single spaces (two
/// spaces in a row give an empty piece).
pub open spec fn pieces_from(s: Seq<char>, start: int) -> Seq<Seq<char>>
    decreases s.len() - start,
{
    let k = next_space(s, start);
    if start < 0 || start > s.len() {
        Seq::empty()
    } else if k >= s.len() {
        seq![s.subrange(start, s.len() as int)]
    } else {
        proof { lemma_next_space(s, start); }
        seq![s.subrange(start, k)] + pieces_from(s, k + 1)
    }
}

/// The first space at or after `i` lies between `i` and the end.
pub proof fn lemma_next_space(s: Seq<char>, i: int)
    requires
        0 <= i <= s.len(),
    ensures
        i <= next_space(s, i) <= s.len(),
        next_space(s, i) < s.len() ==> s[next_space(s, i)] == ' ',
        forall|j: int| i <= j < next_space(s, i) ==> s[j] != ' ',
    decreases s.len() - i,
{
    if i < s.len() && s[i] != ' ' {
        lemma_next_space(s, i + 1);
    }
}

/// The command that the first word of a debugger command line names.
#[derive(Clone, Copy, PartialEq, Eq, Structural, Debug)]
pub enum DebuggerCommand {
    Help,
    Quit,
    Run,
    Step,
    List,
    PrintRegister,
    PrintAllRegisters,
    ModifyRegister,
    PrintBreakpoints,
    AddBreakpoint,
    RemoveBreakpoint,
    Unknown,
}

/// The command named by `word`: "r" and "c" both run, "q", "exit" and "quit" all leave.
pub open spec fn command_of(word: Seq<char>) -> DebuggerCommand {
    if word == "help"@ { DebuggerCommand::Help }
    else if word == "q"@ || word == "exit"@ || word == "quit"@ { DebuggerCommand::Quit }
    else if word == "r"@ || word == "c"@ { DebuggerCommand::Run }
    else if word == "s"@ { DebuggerCommand::Step }
    else if word == "l"@ { DebuggerCommand::List }
    else if word == "p"@ { DebuggerCommand::PrintRegister }
    else if word == "pa"@ { DebuggerCommand::PrintAllRegisters }
    else if word == "m"@ { DebuggerCommand::ModifyRegister }
    else if word == "pb"@ { DebuggerCommand::PrintBreakpoints }
    else if word == "b"@ { DebuggerCommand::AddBreakpoint }
    else if word == "del"@ { DebuggerCommand::RemoveBreakpoint }
    else { DebuggerCommand::Unknown }
}

/// Splits a debugger command line into its arguments: the line without the
/// whitespace around it, cut at each single space.
pub fn split_command(line: &str) -> (args: Vec<String>)
    ensures
        args@.len() == pieces_from(trim(line@), 0).len(),
        forall|i: int| 0 <= i < args@.len() ==> #[trigger] args@[i]@ == pieces_from(trim(line@), 0)[i],
        args@.len() >= 1,
{
    let t = trim_str(line);
    let ghost s = t@;
    let n = t.unicode_len();
    let mut args: Vec<String> = Vec::new();
    let mut start: usize = 0;
    loop
        invariant_except_break
            s == t@,
            n == s.len(),
            start <= n,
            pieces_from(s, 0) == args@.map_values(|a: String| a@) + pieces_from(s, start as int),
        ensures
            pieces_from(s, 0) == args@.map_values(|a: String| a@),
            args@.len() >= 1,
        decreases n - start,
    {
        let mut k: usize = start;
        while k < n && t.get_char(k) != ' '
            invariant
                s == t@,
                n == s.len(),
                start <= k <= n,
                next_space(s, start as int) == next_space(s, k as int),
            decreases n - k,
        {
            k = k + 1;
        }
        proof { lemma_next_space(s, k as int); }
        let piece = t.substring_char(start, k).to_string();
        let ghost before = args@;
        args.push(piece);
        proof {
            assert(args@.map_values(|a: String| a@) =~= before.map_values(|a: String| a@).push(s.subrange(start as int, k as int)));
        }
        if k >= n {
            proof {
                assert(pieces_from(s, start as int) == seq![s.subrange(start as int, n as int)]);
                assert(pieces_from(s, 0) =~= args@.map_values(|a: String| a@));
            }
            break;
        }
        proof {
            assert(pieces_from(s, start as int) == seq![s.subrange(start as int, k as int)] + pieces_from(s, k + 1));
            assert(pieces_from(s, 0) =~= args@.map_values(|a: String| a@) + pieces_from(s, k + 1));
        }
        start = k + 1;
    }
    proof {
        assert forall|i: int| 0 <= i < args@.len() implies #[trigger] args@[i]@ == pieces_from(trim(line@), 0)[i] by {
            assert(args@.map_values(|a: String| a@)[i] == args@[i]@);
        }
    }
    args
}

/// The command a debugger command line asks for, with its arguments (see
/// `split_command` and `command_of`).
pub fn parse_command(line: &str) -> (r: (DebuggerCommand, Vec<String>))
    ensures
        r.1@.len() == pieces_from(trim(line@), 0).len(),
        forall|i: int| 0 <= i < r.1@.len() ==> #[trigger] r.1@[i]@ == pieces_from(trim(line@), 0)[i],
        r.1@.len() >= 1,
        r.0 == command_of(r.1@[0]@),
{
    let args = split_command(line);
    let w = &args[0];
    proof {
        reveal_strlit("help"); reveal_strlit("q"); reveal_strlit("exit"); reveal_strlit("quit");
        reveal_strlit("r"); reveal_strlit("c"); reveal_strlit("s"); reveal_strlit("l"); reveal_strlit("p");
        reveal_strlit("pa"); reveal_strlit("m"); reveal_strlit("pb"); reveal_strlit("b"); reveal_strlit("del");
    }
    let c = if *w == String::from_str("help") {
        DebuggerCommand::Help
    } else if *w == String::from_str("q") || *w == String::from_str("exit") || *w == String::from_str("quit") {
        DebuggerCommand::Quit
    } else if *w == String::from_str("r") || *w == String::from_str("c") {
        DebuggerCommand::Run
    } else if *w == String::from_str("s") {
        DebuggerCommand::Step
    } else if *w == String::from_str("l") {
        DebuggerCommand::List
    } else if *w == String::from_str("p") {
        DebuggerCommand::PrintRegister
    } else if *w == String::from_str("pa") {
        DebuggerCommand::PrintAllRegisters
    } else if *w == String::from_str("m") {
        DebuggerCommand::ModifyRegister
    } else if *w == String::from_str("pb") {
        DebuggerCommand::PrintBreakpoints
    } else if *w == String::from_str("b") {
        DebuggerCommand::AddBreakpoint
    } else if *w == String::from_str("del") {
        DebuggerCommand::RemoveBreakpoint
    } else {
        DebuggerCommand::Unknown
    };
    (c, args)
}


/// The search by name from `i` finds register `j` when `j` is the first at or
/// after `i` with that name.
proof fn lemma_register_named_finds(name: Seq<char>, i: int, j: int)
    requires
        0 <= i <= j < 32,
        register_name(j) == name,
        forall|k: int| i <= k < j ==> #[trigger] register_name(k) != name,
    ensures
        register_named(name, i) == Some(j),
    decreases j - i,
{
    if i < j {
        lemma_register_named_finds(name, i + 1, j);
    }
}

/// Looking a register up by its name gives its number: each of the 32 names
/// finds its own register, so `$s0`-`$s7` are 16-23, `$t0`-`$t7` are 8-15,
/// `$t8`-`$t9` are 24-25, `$a0`-`$a3` are 4-7 and `$v0`-`$v1` are 2-3.
pub proof fn lemma_register_lookup()
    ensures
        forall|i: int| 0 <= i < 32 ==> register_named(#[trigger] register_name(i), 0) == Some(i),
        forall|k: int| 0 <= k < 8 ==> register_named(#[trigger] numbered_name('s', k), 0) == Some(16 + k),
        forall|k: int| 0 <= k < 8 ==> register_named(#[trigger] numbered_name('t', k), 0) == Some(8 + k),
        forall|k: int| 8 <= k < 10 ==> register_named(#[trigger] numbered_name('t', k), 0) == Some(16 + k),
        forall|k: int| 0 <= k < 4 ==> register_named(#[trigger] numbered_name('a', k), 0) == Some(4 + k),
        forall|k: int| 0 <= k < 2 ==> register_named(#[trigger] numbered_name('v', k), 0) == Some(2 + k),
{
    lemma_register_names_distinct();
    lemma_register_names();
    assert forall|i: int| 0 <= i < 32 implies register_named(#[trigger] register_name(i), 0) == Some(i) by {
        assert forall|k: int| 0 <= k < i implies #[trigger] register_name(k) != register_name(i) by {
            assert(register_name(k) != register_name(i));
        }
        lemma_register_named_finds(register_name(i), 0, i);
    }
    assert forall|k: int| 0 <= k < 8 implies register_named(#[trigger] numbered_name('s', k), 0) == Some(16 + k) by {
        assert(register_name(16 + k) == numbered_name('s', k));
        assert(register_named(register_name(16 + k), 0) == Some(16 + k));
    }
    assert forall|k: int| 0 <= k < 8 implies register_named(#[trigger] numbered_name('t', k), 0) == Some(8 + k) by {
        assert(register_name(8 + k) == numbered_name('t', k));
        assert(register_named(register_name(8 + k), 0) == Some(8 + k));
    }
    assert forall|k: int| 8 <= k < 10 implies register_named(#[trigger] numbered_name('t', k), 0) == Some(16 + k) by {
        assert(register_name(16 + k) == numbered_name('t', k));
        assert(register_named(register_name(16 + k), 0) == Some(16 + k));
    }
    assert forall|k: int| 0 <= k < 4 implies register_named(#[trigger] numbered_name('a', k), 0) == Some(4 + k) by {
        assert(register_name(4 + k) == numbered_name('a', k));
        assert(register_named(register_name(4 + k), 0) == Some(4 + k));
    }
    assert forall|k: int| 0 <= k < 2 implies register_named(#[trigger] numbered_name('v', k), 0) == Some(2 + k) by {
        assert(register_name(2 + k) == numbered_name('v', k));
        assert(register_named(register_name(2 + k), 0) == Some(2 + k));
    }
}

} // verus!
