//! System calls, performed against an input buffer and an output buffer: the
//! operating system reads what the program is given and collects what it prints.
use vstd::prelude::*;
use vstd::utf8::{decode_utf8, encode_scalar, is_scalar, valid_utf8};

use crate::structs::{lemma_read_after_store, out_of_bounds_message, Memory, ProgramState, A0, A1, V0};
use crate::text::{
    append_radix, append_radix_bytes, ascii_bytes, dec_chars, parse_unsigned, parse_unsigned_str,
    trim, trim_str,
};

verus! {

/// The message `String::from_utf8` gives for bytes that are not UTF-8.
pub uninterp spec fn utf8_error_text(bytes: Seq<u8>) -> Seq<char>;

/// `String::from_utf8` on a copy of `bytes`: it succeeds exactly when the bytes
/// are valid UTF-8, and the string then holds the characters they encode;
/// otherwise the error, as text, is the standard library's description of why
/// (that text is not stated here; it depends on the bytes alone).
#[verifier::external_body]
pub(crate) fn string_from_utf8(bytes: &Vec<u8>) -> (r: Result<String, String>)
    ensures
        r is Ok <==> valid_utf8(bytes@),
        r matches Ok(s) ==> s@ == decode_utf8(bytes@),
        r matches Err(m) ==> m@ == utf8_error_text(bytes@),
{
    match String::from_utf8(bytes.clone()) {
        Ok(s) => Ok(s),
        Err(e) => Err(e.to_string()),
    }
}

/// The end (exclusive) of the line that starts at `pos`: just past the first
/// newline at or after `pos`, or the end of the input.
pub open spec fn line_end(s: Seq<u8>, pos: int) -> int
    decreases s.len() - pos,
{
    if pos >= s.len() {
        s.len() as int
    } else if s[pos] == 10 {
        pos + 1
    } else {
        line_end(s, pos + 1)
    }
}

pub proof fn lemma_line_end_bounds(s: Seq<u8>, pos: int)
    requires
        0 <= pos <= s.len(),
    ensures
        pos <= line_end(s, pos) <= s.len(),
    decreases s.len() - pos,
{
    if pos < s.len() && s[pos] != 10 {
        lemma_line_end_bounds(s, pos + 1);
    }
}

/// Bytes the program can read, and how far it has read.
pub struct InputBuffer {
    pub bytes: Vec<u8>,
    pub pos: usize,
}

impl InputBuffer {
    /// The read position lies within the bytes.
    pub open spec fn wf(&self) -> bool {
        self.pos <= self.bytes@.len()
    }

    /// A buffer holding `bytes`, nothing read yet.
    pub fn new(bytes: Vec<u8>) -> (b: InputBuffer)
        ensures
            b.bytes@ == bytes@,
            b.pos == 0,
            b.wf(),
    {
        InputBuffer { bytes, pos: 0 }
    }

    /// Makes `more` available after what is already there.
    pub fn push_bytes(&mut self, more: &Vec<u8>)
        requires
            old(self).wf(),
        ensures
            final(self).bytes@ == old(self).bytes@ + more@,
            final(self).pos == old(self).pos,
            final(self).wf(),
    {
        let mut i: usize = 0;
        while i < more.len()
            invariant
                i <= more@.len(),
                self.bytes@ == old(self).bytes@ + more@.subrange(0, i as int),
                self.pos == old(self).pos,
                self.wf(),
            decreases more.len() - i,
        {
            self.bytes.push(more[i]);
            i = i + 1;
            assert(self.bytes@ =~= old(self).bytes@ + more@.subrange(0, i as int));
        }
        assert(more@.subrange(0, more@.len() as int) =~= more@);
    }

    /// Reads exactly one byte; `None` at the end of the input.
    pub fn read_byte(&mut self) -> (r: Option<u8>)
        requires
            old(self).wf(),
        ensures
            final(self).wf(),
            final(self).bytes == old(self).bytes,
            old(self).pos < old(self).bytes@.len() ==> r == Some(old(self).bytes@[old(self).pos as int])
                && final(self).pos == old(self).pos + 1,
            old(self).pos >= old(self).bytes@.len() ==> r is None && final(self).pos == old(self).pos,
    {
        if self.pos < self.bytes.len() {
            let b = self.bytes[self.pos];
            self.pos = self.pos + 1;
            Some(b)
        } else {
            None
        }
    }

    /// Reads up to and including the next newline, or to the end of the input.
    pub fn read_line(&mut self) -> (line: Vec<u8>)
        requires
            old(self).wf(),
        ensures
            final(self).wf(),
            final(self).bytes == old(self).bytes,
            final(self).pos == line_end(old(self).bytes@, old(self).pos as int),
            line@ == old(self).bytes@.subrange(old(self).pos as int, final(self).pos as int),
    {
        let mut line: Vec<u8> = Vec::new();
        let start = self.pos;
        loop
            invariant
                self.wf(),
                self.bytes == old(self).bytes,
                start == old(self).pos,
                start <= self.pos,
                line_end(self.bytes@, start as int) == line_end(self.bytes@, self.pos as int),
                line@ == self.bytes@.subrange(start as int, self.pos as int),
            decreases self.bytes@.len() - self.pos,
        {
            if self.pos >= self.bytes.len() {
                return line;
            }
            let b = self.bytes[self.pos];
            line.push(b);
            self.pos = self.pos + 1;
            assert(line@ =~= self.bytes@.subrange(start as int, self.pos as int));
            if b == 10 {
                return line;
            }
        }
    }
}

/// The operating system: the program's standard input and what it has printed.
pub struct OperatingSystem {
    pub stdin: InputBuffer,
    pub stdout: Vec<u8>,
}

/// The bytes of the null-terminated string at `address`, or the message of the
/// first address that holds no byte.
pub open spec fn cstring_at(m: Memory, address: u32) -> Result<Seq<u8>, Seq<char>>
    decreases u32::MAX - address,
{
    match m.byte_at(address) {
        None => Err(out_of_bounds_message(address)),
        Some(b) => if b == 0 {
            Ok(Seq::empty())
        } else if address == u32::MAX {
            Err(out_of_bounds_message(address))
        } else {
            match cstring_at(m, (address + 1) as u32) {
                Ok(rest) => Ok(seq![b] + rest),
                Err(e) => Err(e),
            }
        },
    }
}

/// Reads the null-terminated string at `address`.
pub fn read_cstring(m: &Memory, address: u32) -> (r: Result<Vec<u8>, String>)
    ensures
        match cstring_at(*m, address) {
            Ok(s) => r matches Ok(v) && v@ == s,
            Err(e) => r matches Err(msg) && msg@ == e,
        },
{
    let mut a = address;
    let mut out: Vec<u8> = Vec::new();
    loop
        invariant
            cstring_at(*m, address) == match cstring_at(*m, a) {
                Ok(rest) => Ok(out@ + rest),
                Err(e) => Err(e),
            },
        decreases u32::MAX - a,
    {
        match m.read_byte(a) {
            Err(e) => {
                return Err(e);
            },
            Ok(b) => {
                if b == 0 {
                    assert(out@ + Seq::<u8>::empty() =~= out@);
                    return Ok(out);
                }
                let ghost old_out = out@;
                out.push(b);
                proof {
                    match cstring_at(*m, (a + 1) as u32) {
                        Ok(rest) => { assert(old_out + (seq![b] + rest) =~= out@ + rest); },
                        Err(_) => {},
                    }
                }
                a = a + 1;
            },
        }
    }
}

/// What printing an integer does: `$a0` in decimal is appended to the output.
pub open spec fn print_int_effect(pre: ProgramState, post: ProgramState, out0: Seq<u8>, out1: Seq<u8>, r: Result<(), String>) -> bool {
    &&& r is Ok
    &&& out1 == out0 + ascii_bytes(dec_chars(pre.cpu.general_purpose_registers[A0 as int] as nat))
    &&& post == pre
}

/// Syscall 1 - print the unsigned decimal value of `$a0`.
pub fn sys_print_int(program_state: &mut ProgramState, sys: &mut Vec<u8>) -> (r: Result<(), String>)
    ensures
        print_int_effect(*old(program_state), *final(program_state), old(sys)@, final(sys)@, r),
{
    append_radix_bytes(sys, program_state.cpu.general_purpose_registers[A0] as u64, 10);
    Ok(())
}

/// The message when the string to print is not UTF-8.
pub open spec fn not_utf8_message() -> Seq<char> {
    "Supplied string is NOT utf-8"@
}

/// What printing a string does: the null-terminated string at `$a0` is appended
/// to the output when it is valid UTF-8; otherwise an error is returned.
pub open spec fn print_string_effect(pre: ProgramState, post: ProgramState, out0: Seq<u8>, out1: Seq<u8>, r: Result<(), String>) -> bool {
    &&& post == pre
    &&& match cstring_at(pre.memory, pre.cpu.general_purpose_registers[A0 as int]) {
        Err(e) => r matches Err(m) && m@ == e && out1 == out0,
        Ok(s) => if valid_utf8(s) {
            r is Ok && out1 == out0 + s
        } else {
            r matches Err(m) && m@ == not_utf8_message() && out1 == out0
        },
    }
}

/// Syscall 4 - print the null-terminated UTF-8 string at `$a0`.
pub fn sys_print_string(program_state: &mut ProgramState, sys: &mut Vec<u8>) -> (r: Result<(), String>)
    ensures
        print_string_effect(*old(program_state), *final(program_state), old(sys)@, final(sys)@, r),
{
    let address = program_state.cpu.general_purpose_registers[A0];
    let to_print = match read_cstring(&program_state.memory, address) {
        Ok(v) => v,
        Err(e) => return Err(e),
    };
    match string_from_utf8(&to_print) {
        Err(_) => {
            proof { reveal_strlit("Supplied string is NOT utf-8"); }
            Err("Supplied string is NOT utf-8".to_string())
        },
        Ok(_) => {
            let mut i: usize = 0;
            while i < to_print.len()
                invariant
                    i <= to_print@.len(),
                    sys@ == old(sys)@ + to_print@.subrange(0, i as int),
                decreases to_print.len() - i,
            {
                sys.push(to_print[i]);
                i = i + 1;
                assert(sys@ =~= old(sys)@ + to_print@.subrange(0, i as int));
            }
            assert(to_print@.subrange(0, to_print@.len() as int) =~= to_print@);
            Ok(())
        },
    }
}

/// What reading an integer does: one line is consumed; when it is UTF-8 and,
/// trimmed, an unsigned 32-bit decimal number, that number goes to `$v0`.
pub open spec fn read_int_effect(pre: ProgramState, post: ProgramState, in0: InputBuffer, in1: InputBuffer, r: Result<(), String>) -> bool {
    &&& in1.wf()
    &&& in1.bytes == in0.bytes
    &&& in1.pos == line_end(in0.bytes@, in0.pos as int)
    &&& ({
            let line = in0.bytes@.subrange(in0.pos as int, in1.pos as int);
            if !valid_utf8(line) {
                r matches Err(m) && m@ == "Failed to read from stdin"@ && post == pre
            } else {
                match parse_unsigned(trim(decode_utf8(line)), u32::MAX as nat) {
                    Some(v) => r is Ok && post.cpu.general_purpose_registers@
                        == pre.cpu.general_purpose_registers@.update(V0 as int, v as u32)
                        && post.cpu.pc == pre.cpu.pc
                        && post.cp0 == pre.cp0
                        && post.memory == pre.memory
                        && post.should_continue_execution
                            == pre.should_continue_execution,
                    None => r matches Err(m) && m@ == "Failed to convert input to Int"@
                        && post == pre,
                }
            }
        })
}

/// Syscall 5 - read a line and store its value, as an unsigned decimal integer, in `$v0`.
pub fn sys_read_int(program_state: &mut ProgramState, sys: &mut InputBuffer) -> (r: Result<(), String>)
    requires
        old(sys).wf(),
    ensures
        final(sys).wf(),
        read_int_effect(*old(program_state), *final(program_state), *old(sys), *final(sys), r),
{
    let line = sys.read_line();
    proof { lemma_line_end_bounds(old(sys).bytes@, old(sys).pos as int); }
    let input_text = match string_from_utf8(&line) {
        Ok(s) => s,
        Err(_) => {
            proof { reveal_strlit("Failed to read from stdin"); }
            return Err("Failed to read from stdin".to_string());
        },
    };
    let trimmed = trim_str(input_text.as_str());
    match parse_unsigned_str(trimmed, 0xffff_ffff) {
        Some(i) => {
            program_state.cpu.general_purpose_registers[V0] = i as u32;
            Ok(())
        },
        None => {
            proof { reveal_strlit("Failed to convert input to Int"); }
            Err("Failed to convert input to Int".to_string())
        },
    }
}

/// How the read-string loop ends, from input position `pos`, storing at `addr`,
/// with at most `left` bytes to go: the number of bytes it stores, and whether it
/// finished (0), ran out of input (1), or met an address that holds no byte (2).
pub open spec fn rs_run(m: Memory, input: Seq<u8>, pos: int, addr: int, left: int) -> (int, int)
    decreases left,
{
    if left <= 0 {
        (0, 0)
    } else if pos >= input.len() {
        (0, 1)
    } else if addr < 0 || addr > u32::MAX || m.byte_at(addr as u32) is None {
        (0, 2)
    } else if input[pos] == 10 {
        (1, 0)
    } else {
        let (k, c) = rs_run(m, input, pos + 1, addr + 1, left - 1);
        (k + 1, c)
    }
}

proof fn lemma_rs_run_bounds(m: Memory, input: Seq<u8>, pos: int, addr: int, left: int)
    requires
        0 <= pos,
    ensures
        0 <= rs_run(m, input, pos, addr, left).0,
        left >= 0 ==> rs_run(m, input, pos, addr, left).0 <= left,
        pos + rs_run(m, input, pos, addr, left).0 <= input.len() || rs_run(m, input, pos, addr, left).0 == 0,
        forall|j: int| 0 <= j < rs_run(m, input, pos, addr, left).0 ==> 0 <= addr + j <= u32::MAX
            && #[trigger] m.byte_at((addr + j) as u32) is Some && pos + j < input.len(),
    decreases left,
{
    if left > 0 && pos < input.len() && !(addr < 0 || addr > u32::MAX || m.byte_at(addr as u32) is None)
        && input[pos] != 10 {
        lemma_rs_run_bounds(m, input, pos + 1, addr + 1, left - 1);
        let k = rs_run(m, input, pos + 1, addr + 1, left - 1).0;
        assert forall|j: int| 0 <= j < k + 1 implies 0 <= addr + j <= u32::MAX
            && #[trigger] m.byte_at((addr + j) as u32) is Some && pos + j < input.len() by {
            if j > 0 {
                assert(m.byte_at((addr + 1 + (j - 1)) as u32) is Some);
            }
        }
    }
}

/// The memory of `post` is that of `pre` with the bytes `input[pos..pos + k]`
/// stored from `addr` on, and then a zero after them when `zero` holds.
pub open spec fn stores_string(pre: Memory, post: Memory, input: Seq<u8>, pos: int, addr: int, k: int, zero: bool) -> bool {
    &&& post.data_start == pre.data_start
    &&& post.data_end == pre.data_end
    &&& post.text_start == pre.text_start
    &&& post.text_end == pre.text_end
    &&& post.data@.len() == pre.data@.len()
    &&& post.text@.len() == pre.text@.len()
    &&& forall|x: u32| #[trigger] post.byte_at(x) == if addr <= x < addr + k {
        Some(input[pos + (x - addr)])
    } else if zero && x == addr + k && pre.byte_at(x) is Some {
        Some(0u8)
    } else {
        pre.byte_at(x)
    }
}

/// The prefix of every message of the read-string syscall about memory.
pub open spec fn read_string_prefix() -> Seq<char> {
    "Error occurred in read string syscall:\n - "@
}

fn read_string_error(address: u32) -> (s: String)
    ensures
        s@ == read_string_prefix() + out_of_bounds_message(address),
{
    let mut s = String::new();
    s.append("Error occurred in read string syscall:\n - ");
    s.append("Memory address 0x");
    append_radix(&mut s, address as u64, 16);
    s.append(" is out of bounds.");
    proof {
        reveal_strlit("Error occurred in read string syscall:\n - ");
        reveal_strlit("Memory address 0x");
        reveal_strlit(" is out of bounds.");
    }
    s
}

/// Syscall 8 - read a string of at most `$a1 - 1` bytes into memory at `$a0`,
/// stopping after a newline, then store a terminating zero.
pub fn sys_read_string(program_state: &mut ProgramState, sys: &mut InputBuffer) -> (r: Result<(), String>)
    requires
        old(sys).wf(),
        old(program_state).cpu.general_purpose_registers[A1 as int] >= 1,
    ensures
        final(sys).wf(),
        final(sys).bytes == old(sys).bytes,
        final(program_state).cpu == old(program_state).cpu,
        final(program_state).cp0 == old(program_state).cp0,
        final(program_state).should_continue_execution == old(program_state).should_continue_execution,
        ({
            let pre = *old(program_state);
            let input = old(sys).bytes@;
            let p0 = old(sys).pos as int;
            let a0 = pre.cpu.general_purpose_registers[A0 as int] as int;
            let run = rs_run(pre.memory, input, p0, a0, pre.cpu.general_purpose_registers[A1 as int] - 1);
            let k = run.0;
            let end = (a0 + k) as u32;
            let zero_ok = run.1 == 0 && pre.memory.byte_at(end) is Some;
            &&& stores_string(pre.memory, final(program_state).memory, input, p0, a0, k, zero_ok)
            &&& final(sys).pos == p0 + k + if run.1 == 2 { 1int } else { 0int }
            &&& if run.1 == 1 {
                r matches Err(m) && m@ == "Failed to access stdin."@
            } else if run.1 == 2 || !zero_ok {
                r matches Err(m) && m@ == read_string_prefix() + out_of_bounds_message(end)
            } else {
                r is Ok
            }
        }),
{
    let ghost pre = *program_state;
    let ghost input = sys.bytes@;
    let ghost p0 = sys.pos as int;
    let mut count: u32 = 0;
    let mut address = program_state.cpu.general_purpose_registers[A0];
    let maxlength = program_state.cpu.general_purpose_registers[A1];
    let ghost a0 = address as int;
    let ghost total = rs_run(pre.memory, input, p0, a0, maxlength - 1);
    proof { lemma_rs_run_bounds(pre.memory, input, p0, a0, maxlength - 1); }
    loop
        invariant_except_break
            total == ({
                let rest = rs_run(pre.memory, input, p0 + count, a0 + count, maxlength - 1 - count);
                (count + rest.0, rest.1)
            }),
        invariant
            sys.wf(),
            sys.bytes == old(sys).bytes,
            input == old(sys).bytes@,
            p0 == old(sys).pos as int,
            pre == *old(program_state),
            sys.bytes@ == input,
            sys.pos == p0 + count,
            0 <= p0,
            maxlength >= 1,
            count <= maxlength - 1,
            address == a0 + count,
            program_state.cpu == pre.cpu,
            program_state.cp0 == pre.cp0,
            program_state.should_continue_execution == pre.should_continue_execution,
            maxlength == pre.cpu.general_purpose_registers[A1 as int],
            a0 == pre.cpu.general_purpose_registers[A0 as int],
            total == rs_run(pre.memory, input, p0, a0, maxlength - 1),
            stores_string(pre.memory, program_state.memory, input, p0, a0, count as int, false),
        ensures
            sys.wf(),
            sys.bytes == old(sys).bytes,
            sys.pos == p0 + count,
            address == a0 + count,
            program_state.cpu == pre.cpu,
            program_state.cp0 == pre.cp0,
            program_state.should_continue_execution == pre.should_continue_execution,
            total == (count as int, 0int),
            stores_string(pre.memory, program_state.memory, input, p0, a0, count as int, false),
        decreases maxlength - 1 - count,
    {
        if count >= maxlength - 1 {
            break;
        }
        let b = match sys.read_byte() {
            Some(b) => b,
            None => {
                proof { reveal_strlit("Failed to access stdin."); }
                return Err("Failed to access stdin.".to_string());
            },
        };
        let ghost before = program_state.memory;
        match program_state.memory.set_byte(address, b) {
            Ok(_) => {},
            Err(_) => {
                proof {
                    lemma_read_after_store(before, program_state.memory, address, b);
                }
                return Err(read_string_error(address));
            },
        }
        proof {
            lemma_read_after_store(before, program_state.memory, address, b);
            assert(before.byte_at(address) == pre.memory.byte_at(address));
        }
        count = count + 1;
        address = address + 1;
        if b == 10 {
            break;
        }
    }
    let ghost before = program_state.memory;
    match program_state.memory.set_byte(address, 0) {
        Ok(_) => {},
        Err(_) => {
            proof {
                lemma_read_after_store(before, program_state.memory, address, 0);
            }
            return Err(read_string_error(address));
        },
    }
    proof {
        lemma_read_after_store(before, program_state.memory, address, 0);
    }
    Ok(())
}

/// What exiting does: execution stops, nothing else changes.
pub open spec fn exit_effect(pre: ProgramState, post: ProgramState, r: Result<(), String>) -> bool {
    &&& r is Ok
    &&& !post.should_continue_execution
    &&& post.cpu == pre.cpu
    &&& post.cp0 == pre.cp0
    &&& post.memory == pre.memory
}

/// Syscall 10 - stop execution.
pub fn sys_exit(program_state: &mut ProgramState) -> (r: Result<(), String>)
    ensures
        exit_effect(*old(program_state), *final(program_state), r),
{
    program_state.should_continue_execution = false;
    Ok(())
}

/// Appends the UTF-8 encoding of the scalar value `c`.
pub fn push_utf8(out: &mut Vec<u8>, c: u32)
    requires
        is_scalar(c),
    ensures
        final(out)@ == old(out)@ + encode_scalar(c),
{
    if c <= 0x7F {
        out.push((c & 0x7F) as u8);
    } else if c <= 0x7FF {
        out.push(0xC0 | ((c >> 6) & 0x1F) as u8);
        out.push(0x80 | (c & 0x3F) as u8);
    } else if c <= 0xFFFF {
        out.push(0xE0 | ((c >> 12) & 0x0F) as u8);
        out.push(0x80 | ((c >> 6) & 0x3F) as u8);
        out.push(0x80 | (c & 0x3F) as u8);
    } else {
        out.push(0xF0 | ((c >> 18) & 0x7) as u8);
        out.push(0x80 | ((c >> 12) & 0x3F) as u8);
        out.push(0x80 | ((c >> 6) & 0x3F) as u8);
        out.push(0x80 | (c & 0x3F) as u8);
    }
    assert(final(out)@ =~= old(out)@ + encode_scalar(c));
}

/// Whether `c` is a Unicode scalar value (what `char::from_u32` accepts).
pub fn scalar_check(c: u32) -> (b: bool)
    ensures
        b == is_scalar(c),
{
    c <= 0x7F || (0x80 <= c && c <= 0x7FF) || (0x800 <= c && c <= 0xFFFF && !(0xD800 <= c && c <= 0xDFFF))
        || (0x10000 <= c && c <= 0x10FFFF)
}

/// What printing a character does: the UTF-8 encoding of the scalar value in
/// `$a0` is appended to the output; a value that is no scalar is an error.
pub open spec fn print_char_effect(pre: ProgramState, post: ProgramState, out0: Seq<u8>, out1: Seq<u8>, r: Result<(), String>) -> bool {
    &&& post == pre
    &&& ({
        let c = pre.cpu.general_purpose_registers[A0 as int];
        if is_scalar(c) {
            r is Ok && out1 == out0 + encode_scalar(c)
        } else {
            r matches Err(m) && m@ == "Failed to convert given character to byte value."@ && out1 == out0
        }
    })
}

/// Syscall 11 - print the character whose scalar value is in `$a0`.
pub fn sys_print_char(program_state: &mut ProgramState, sys: &mut Vec<u8>) -> (r: Result<(), String>)
    ensures
        print_char_effect(*old(program_state), *final(program_state), old(sys)@, final(sys)@, r),
{
    let c = program_state.cpu.general_purpose_registers[A0];
    if scalar_check(c) {
        push_utf8(sys, c);
        Ok(())
    } else {
        proof { reveal_strlit("Failed to convert given character to byte value."); }
        Err("Failed to convert given character to byte value.".to_string())
    }
}

/// What reading a character does: one byte is consumed into `$v0`; at the end
/// of the input it is an error.
pub open spec fn read_char_effect(pre: ProgramState, post: ProgramState, in0: InputBuffer, in1: InputBuffer, r: Result<(), String>) -> bool {
    &&& in1.bytes == in0.bytes
    &&& in0.pos < in0.bytes@.len() ==> r is Ok && in1.pos == in0.pos + 1
        && post.cpu.general_purpose_registers@ == pre.cpu.general_purpose_registers@.update(V0 as int,
            in0.bytes@[in0.pos as int] as u32)
        && post.cpu.pc == pre.cpu.pc
        && post.cp0 == pre.cp0
        && post.memory == pre.memory
        && post.should_continue_execution == pre.should_continue_execution
    &&& in0.pos >= in0.bytes@.len() ==> (r matches Err(m) && m@ == "Failed to read from stdin"@
        && in1.pos == in0.pos && post == pre)
}

/// Syscall 12 - read one byte into `$v0`.
pub fn sys_read_char(program_state: &mut ProgramState, sys: &mut InputBuffer) -> (r: Result<(), String>)
    requires
        old(sys).wf(),
    ensures
        final(sys).wf(),
        read_char_effect(*old(program_state), *final(program_state), *old(sys), *final(sys), r),
{
    match sys.read_byte() {
        Some(b) => {
            program_state.cpu.general_purpose_registers[V0] = b as u32;
            Ok(())
        },
        None => {
            proof { reveal_strlit("Failed to read from stdin"); }
            Err("Failed to read from stdin".to_string())
        },
    }
}

/// The message for a syscall number that is not recognized.
pub open spec fn unknown_syscall_message(n: u32) -> Seq<char> {
    dec_chars(n as nat) + " is not a recognized syscall."@
}

/// What the syscall numbered in `$v0` does: 1 print integer, 4 print string,
/// 5 read integer, 10 exit, 11 print character, 12 read character; any other
/// number is an error.
pub open spec fn syscall_handled(pre: ProgramState, post: ProgramState, os0: OperatingSystem, os1: OperatingSystem, r: Result<(), String>) -> bool {
    let n = pre.cpu.general_purpose_registers[V0 as int];
    if n == 1 {
        print_int_effect(pre, post, os0.stdout@, os1.stdout@, r) && os1.stdin == os0.stdin
    } else if n == 4 {
        print_string_effect(pre, post, os0.stdout@, os1.stdout@, r) && os1.stdin == os0.stdin
    } else if n == 5 {
        read_int_effect(pre, post, os0.stdin, os1.stdin, r) && os1.stdout == os0.stdout
    } else if n == 10 {
        exit_effect(pre, post, r) && os1 == os0
    } else if n == 11 {
        print_char_effect(pre, post, os0.stdout@, os1.stdout@, r) && os1.stdin == os0.stdin
    } else if n == 12 {
        read_char_effect(pre, post, os0.stdin, os1.stdin, r) && os1.stdout == os0.stdout
    } else {
        r matches Err(m) && m@ == unknown_syscall_message(n) && post == pre && os1 == os0
    }
}

impl OperatingSystem {
    /// An operating system with no input and nothing printed.
    pub fn new() -> (os: OperatingSystem)
        ensures
            os.stdin.bytes@.len() == 0,
            os.stdin.pos == 0,
            os.stdout@.len() == 0,
    {
        OperatingSystem { stdin: InputBuffer::new(Vec::new()), stdout: Vec::new() }
    }

    /// Performs the syscall whose number is in `$v0`: 1 print integer, 4 print
    /// string, 5 read integer, 10 exit, 11 print character, 12 read character.
    pub fn handle_syscall(&mut self, program_state: &mut ProgramState) -> (r: Result<(), String>)
        requires
            old(self).stdin.wf(),
        ensures
            final(self).stdin.wf(),
            syscall_handled(*old(program_state), *final(program_state), *old(self), *final(self), r),
            final(program_state).cp0 == old(program_state).cp0,
            final(program_state).memory == old(program_state).memory,
    {
        let syscall_num = program_state.cpu.general_purpose_registers[V0];
        if syscall_num == 0x01 {
            sys_print_int(program_state, &mut self.stdout)
        } else if syscall_num == 0x04 {
            sys_print_string(program_state, &mut self.stdout)
        } else if syscall_num == 0x05 {
            sys_read_int(program_state, &mut self.stdin)
        } else if syscall_num == 0x0A {
            sys_exit(program_state)
        } else if syscall_num == 0x0B {
            sys_print_char(program_state, &mut self.stdout)
        } else if syscall_num == 0x0C {
            sys_read_char(program_state, &mut self.stdin)
        } else {
            let mut m = String::new();
            append_radix(&mut m, syscall_num as u64, 10);
            m.append(" is not a recognized syscall.");
            proof { reveal_strlit(" is not a recognized syscall."); }
            Err(m)
        }
    }
}

/// Whether a whole line (one ending in a newline) is waiting unread in `input`.
pub open spec fn line_waiting(input: InputBuffer) -> bool {
    exists|i: int| input.pos <= i < input.bytes@.len() && input.bytes@[i] == 10
}

/// Whether the syscall `program_state` is about to have handled reads input
/// that `os` does not hold yet: a pending syscall exception asking to read an
/// integer (5) with no whole line waiting, or a character (12) with nothing waiting.
pub open spec fn input_awaited(program_state: ProgramState, os: OperatingSystem) -> bool {
    let n = program_state.cpu.general_purpose_registers@[V0 as int];
    &&& crate::exception::in_exception(program_state.cp0)
    &&& crate::exception::bits_of(program_state.cp0.registers[13], 2, 7) == 8
    &&& (n == 5 && !line_waiting(os.stdin) || n == 12 && os.stdin.pos >= os.stdin.bytes@.len())
}

/// Whether the program waits for input before its syscall can be handled (see `input_awaited`).
pub fn awaits_input(program_state: &ProgramState, os: &OperatingSystem) -> (b: bool)
    ensures
        b == input_awaited(*program_state, *os),
{
    if !program_state.is_exception() || program_state.cp0.get_exc_code() != 8 {
        return false;
    }
    let n = program_state.cpu.general_purpose_registers[V0];
    if n == 12 {
        return os.stdin.pos >= os.stdin.bytes.len();
    }
    if n != 5 {
        return false;
    }
    if os.stdin.pos >= os.stdin.bytes.len() {
        return true;
    }
    let mut i: usize = os.stdin.pos;
    while i < os.stdin.bytes.len()
        invariant
            os.stdin.pos <= i <= os.stdin.bytes@.len(),
            forall|j: int| os.stdin.pos <= j < i ==> os.stdin.bytes@[j] != 10,
        decreases os.stdin.bytes.len() - i,
    {
        if os.stdin.bytes[i] == 10 {
            return false;
        }
        i = i + 1;
    }
    true
}


/// The string read at `address` is every byte from there up to, not
/// including, the first 0 byte: each of its bytes is held at its address and
/// is not 0, and the byte just past it is 0.
pub proof fn lemma_cstring_to_nul(m: Memory, address: u32)
    ensures
        cstring_at(m, address) matches Ok(s) ==> {
            &&& address + s.len() <= u32::MAX
            &&& forall|i: int| 0 <= i < s.len() ==> #[trigger] s[i] != 0 && m.byte_at((address + i) as u32) == Some(s[i])
            &&& m.byte_at((address + s.len()) as u32) == Some(0u8)
        },
    decreases u32::MAX - address,
{
    match m.byte_at(address) {
        None => {},
        Some(b) => {
            if b != 0 && address < u32::MAX {
                lemma_cstring_to_nul(m, (address + 1) as u32);
                match cstring_at(m, (address + 1) as u32) {
                    Ok(rest) => {
                        let s = seq![b] + rest;
                        assert forall|i: int| 0 <= i < s.len() implies #[trigger] s[i] != 0
                            && m.byte_at((address + i) as u32) == Some(s[i]) by {
                            if i > 0 {
                                assert(s[i] == rest[i - 1]);
                                assert(((address + 1) as u32 + (i - 1)) as u32 == (address + i) as u32);
                            }
                        }
                        assert(((address + 1) as u32 + rest.len()) as u32 == (address + s.len()) as u32);
                    },
                    Err(_) => {},
                }
            }
        },
    }
}

/// Syscall 4 prints exactly the bytes at `$a0` up to, not including, the first
/// 0 byte: what it adds to the output is held byte by byte from `$a0` on, has
/// no 0 in it, and is followed in memory by a 0.
pub proof fn lemma_print_string_to_nul(pre: ProgramState, post: ProgramState, out0: Seq<u8>, out1: Seq<u8>, r: Result<(), String>)
    requires
        print_string_effect(pre, post, out0, out1, r),
        r is Ok,
    ensures
        ({
            let a = pre.cpu.general_purpose_registers[A0 as int];
            let printed = out1.subrange(out0.len() as int, out1.len() as int);
            &&& out1.len() >= out0.len()
            &&& out1.subrange(0, out0.len() as int) == out0
            &&& forall|i: int| 0 <= i < printed.len() ==> #[trigger] printed[i] != 0
                && pre.memory.byte_at((a + i) as u32) == Some(printed[i])
            &&& pre.memory.byte_at((a + printed.len()) as u32) == Some(0u8)
        }),
{
    let a = pre.cpu.general_purpose_registers[A0 as int];
    lemma_cstring_to_nul(pre.memory, a);
    match cstring_at(pre.memory, a) {
        Ok(s) => {
            assert(out1 == out0 + s);
            assert(out1.subrange(out0.len() as int, out1.len() as int) =~= s);
            assert(out1.subrange(0, out0.len() as int) =~= out0);
        },
        Err(_) => {},
    }
}

} // verus!
