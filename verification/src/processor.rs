//! The emulator's processor: executes decoded instructions against memory and
//! reports faults as messages. What the program prints is collected in an
//! output buffer.
use vstd::prelude::*;
use vstd::utf8::{decode_utf8, encode_scalar, is_scalar, valid_utf8};

use crate::instruction::{Immediate, Instruction, Jump, Special, SpecialOp};
use crate::operation::{ImmediateOp, Special1Op};
use crate::structs::{out_of_bounds_message, Memory, Register};
use crate::syscalls::{
    cstring_at, lemma_line_end_bounds, line_end, push_utf8, read_cstring, scalar_check, string_from_utf8, utf8_error_text,
    InputBuffer,
};
use crate::text::{append_radix, append_radix_bytes, ascii_bytes, dec_chars, hex_chars, parse_unsigned, parse_unsigned_str, trim, trim_str};
use crate::implementation::write_word_be;
use crate::words::{be_bytes_u32, read_word_be, sext16, sign_extend16, word_at};

verus! {

/// Whether execution goes on after an instruction.
#[derive(Clone, Copy, PartialEq, Eq, Structural, Debug)]
pub enum ExecutionStatus {
    Continue,
    Complete,
}

/// The register file and program counter of the emulator.
pub struct Processor {
    pub pc: u32,
    pub general_purpose_registers: [u32; 32],
}

/// The registers of `p`.
pub open spec fn pregs(p: Processor) -> Seq<u32> {
    p.general_purpose_registers@
}

/// The value of register `r` in `p`.
pub open spec fn reg_val(p: Processor, r: Register) -> u32 {
    p.general_purpose_registers@[r.reg_index() as int]
}

/// A successful step that leaves the registers as `regs` and changes nothing else.
pub open spec fn ok_regs(p0: Processor, p1: Processor, r: Result<ExecutionStatus, String>, regs: Seq<u32>) -> bool {
    &&& r == Ok::<ExecutionStatus, String>(ExecutionStatus::Continue)
    &&& pregs(p1) == regs
    &&& p1.pc == p0.pc
}

/// A successful step that sets register `reg` to `v` and changes nothing else.
pub open spec fn sets(p0: Processor, p1: Processor, r: Result<ExecutionStatus, String>, reg: int, v: u32) -> bool {
    ok_regs(p0, p1, r, pregs(p0).update(reg, v))
}

/// A successful step that sets register `reg` to `v` and leaves memory alone.
pub open spec fn ok_write(p0: Processor, p1: Processor, m0: Memory, m1: Memory, r: Result<ExecutionStatus, String>, reg: int, v: u32) -> bool {
    &&& sets(p0, p1, r, reg, v)
    &&& m1 == m0
}

/// A failed step with message `msg`, the registers having become `regs`.
pub open spec fn fails(p0: Processor, p1: Processor, m0: Memory, m1: Memory, r: Result<ExecutionStatus, String>, regs: Seq<u32>, msg: Seq<char>) -> bool {
    &&& r matches Err(m) && m@ == msg
    &&& pregs(p1) == regs
    &&& p1.pc == p0.pc
    &&& m1 == m0
}

/// A step that moves the program counter to `target` with the registers `regs`.
pub open spec fn goes_to(p0: Processor, p1: Processor, m0: Memory, m1: Memory, r: Result<ExecutionStatus, String>, target: u32, regs: Seq<u32>) -> bool {
    &&& r == Ok::<ExecutionStatus, String>(ExecutionStatus::Continue)
    &&& pregs(p1) == regs
    &&& p1.pc == target
    &&& m1 == m0
}

/// Whether `a` lies in the .text address range.
pub open spec fn owns_text(m: Memory, a: u32) -> bool {
    m.text_start <= a < m.text_end
}

/// Whether `a` lies in the .data address range.
pub open spec fn owns_data(m: Memory, a: u32) -> bool {
    m.data_start <= a < m.data_end
}

pub open spec fn jump_message(a: u32) -> Seq<char> {
    "Attempted to jump to unowned address 0x"@ + hex_chars(a as nat)
}

pub open spec fn access_message(a: u32) -> Seq<char> {
    "Attempted to access unowned address 0x"@ + hex_chars(a as nat)
}

pub open spec fn alignment_message(a: u32) -> Seq<char> {
    "Incorrect alignment for word access at 0x"@ + hex_chars(a as nat)
}

pub open spec fn word_access_message(a: u32) -> Seq<char> {
    "Attempted to access unowned address 0x"@ + hex_chars(a as nat) + " (possible alignment issue)"@
}

pub(crate) fn jump_error(a: u32) -> (s: String)
    ensures
        s@ == jump_message(a),
{
    let mut s = String::new();
    s.append("Attempted to jump to unowned address 0x");
    append_radix(&mut s, a as u64, 16);
    proof { reveal_strlit("Attempted to jump to unowned address 0x"); }
    s
}

pub(crate) fn access_error(a: u32) -> (s: String)
    ensures
        s@ == access_message(a),
{
    let mut s = String::new();
    s.append("Attempted to access unowned address 0x");
    append_radix(&mut s, a as u64, 16);
    proof { reveal_strlit("Attempted to access unowned address 0x"); }
    s
}

pub(crate) fn alignment_error(a: u32) -> (s: String)
    ensures
        s@ == alignment_message(a),
{
    let mut s = String::new();
    s.append("Incorrect alignment for word access at 0x");
    append_radix(&mut s, a as u64, 16);
    proof { reveal_strlit("Incorrect alignment for word access at 0x"); }
    s
}

pub(crate) fn word_access_error(a: u32) -> (s: String)
    ensures
        s@ == word_access_message(a),
{
    let mut s = access_error(a);
    s.append(" (possible alignment issue)");
    proof { reveal_strlit(" (possible alignment issue)"); }
    s
}

/// The sign-extended byte offset of a branch.
pub open spec fn offset_of(imm: u32) -> i32 {
    (sext16(imm) * 4) as i32
}

/// Whether `pc + offset_of(imm)` is representable as a signed word.
pub open spec fn target_fits(pc: u32, imm: u32) -> bool {
    i32::MIN <= (pc as i32) + offset_of(imm) <= i32::MAX
}

/// The target of a taken branch.
pub open spec fn taken_target(pc: u32, imm: u32) -> u32 {
    ((pc as i32) + offset_of(imm)) as u32
}

/// The effect of a conditional branch taken when `taken`.
pub open spec fn branch_effect(p0: Processor, p1: Processor, m0: Memory, m1: Memory, r: Result<ExecutionStatus, String>, taken: bool, imm: u32) -> bool {
    if !taken {
        goes_to(p0, p1, m0, m1, r, p0.pc, pregs(p0))
    } else if owns_text(m0, taken_target(p0.pc, imm)) {
        goes_to(p0, p1, m0, m1, r, taken_target(p0.pc, imm), pregs(p0))
    } else {
        fails(p0, p1, m0, m1, r, pregs(p0), access_message(taken_target(p0.pc, imm)))
    }
}

/// The target of a J-format jump.
pub open spec fn region_target(pc: u32, address: u32) -> u32 {
    (address << 2) | (pc & 0xF0000000)
}

/// The address of a load or store: base plus immediate, as signed words.
pub open spec fn mem_address(p: Processor, i: Immediate) -> u32 {
    ((reg_val(p, i.rs) as i32) + (i.imm as i32)) as u32
}

/// Whether the load/store address computation does not overflow.
pub open spec fn mem_address_fits(p: Processor, i: Immediate) -> bool {
    i32::MIN <= (reg_val(p, i.rs) as i32) + (i.imm as i32) <= i32::MAX
}

/// The effect of a syscall on the emulator: 1 prints `$a0` in decimal, 4 prints
/// the string at `$a0`, 10 completes the program, 11 prints the character in `$a0`.
pub open spec fn syscall_effect(p0: Processor, p1: Processor, m0: Memory, m1: Memory, out0: Seq<u8>, out1: Seq<u8>, r: Result<ExecutionStatus, String>) -> bool {
    let n = pregs(p0)[2];
    let a0 = pregs(p0)[4];
    &&& p1 == p0
    &&& m1 == m0
    &&& if n == 1 {
        r == Ok::<ExecutionStatus, String>(ExecutionStatus::Continue)
            && out1 == out0 + ascii_bytes(dec_chars(a0 as nat))
    } else if n == 4 {
        match cstring_at(m0, a0) {
            Err(e) => r matches Err(m) && m@ == e && out1 == out0,
            Ok(s) => if valid_utf8(s) {
                r == Ok::<ExecutionStatus, String>(ExecutionStatus::Continue) && out1 == out0 + s
            } else {
                r matches Err(m) && m@ == "UTF-8 conversion error: "@ + utf8_error_text(s) && out1 == out0
            },
        }
    } else if n == 10 {
        r == Ok::<ExecutionStatus, String>(ExecutionStatus::Complete) && out1 == out0
    } else if n == 11 {
        if is_scalar(a0) {
            r == Ok::<ExecutionStatus, String>(ExecutionStatus::Continue) && out1 == out0 + encode_scalar(a0)
        } else {
            r matches Err(m) && m@ == "Value in register $a0 could not be evaluated to a char."@ && out1 == out0
        }
    } else {
        r matches Err(m) && m@ == "Syscall "@ + dec_chars(n as nat) + " is not implemented"@ && out1 == out0
    }
}

/// The operations of SPECIAL-form instructions that this processor executes.
pub open spec fn special_supported(op: SpecialOp) -> bool {
    match op {
        SpecialOp::Special1(s) => match s {
            Special1Op::Sll | Special1Op::Srl | Special1Op::Jr | Special1Op::Jalr | Special1Op::Syscall
            | Special1Op::Add | Special1Op::Addu | Special1Op::Sub | Special1Op::Subu | Special1Op::And
            | Special1Op::Or | Special1Op::Xor | Special1Op::Nor | Special1Op::Slt | Special1Op::Sltu => true,
            _ => false,
        },
        SpecialOp::Special2(_) => false,
    }
}

/// What a SPECIAL-form instruction needs beyond being supported.
pub open spec fn special_ok(p: Processor, s: Special) -> bool {
    match s.special_opcode {
        SpecialOp::Special1(Special1Op::Sll) | SpecialOp::Special1(Special1Op::Srl) => s.shamt < 32,
        SpecialOp::Special1(Special1Op::Syscall) => pregs(p)[2] < 64,
        SpecialOp::Special1(Special1Op::Add) => reg_val(p, s.rs) + reg_val(p, s.rt) <= u32::MAX,
        _ => true,
    }
}

/// The effect of a supported SPECIAL-form instruction.
pub open spec fn special_effect(p0: Processor, p1: Processor, m0: Memory, m1: Memory, out0: Seq<u8>, out1: Seq<u8>, s: Special, r: Result<ExecutionStatus, String>) -> bool {
    let rs = reg_val(p0, s.rs);
    let rt = reg_val(p0, s.rt);
    let rd = s.rd.reg_index() as int;
    match s.special_opcode {
        SpecialOp::Special1(op) => match op {
            Special1Op::Syscall => syscall_effect(p0, p1, m0, m1, out0, out1, r),
            _ => out1 == out0 && match op {
                Special1Op::Sll => ok_write(p0, p1, m0, m1, r, rd, rt << s.shamt),
                Special1Op::Srl => ok_write(p0, p1, m0, m1, r, rd, rt >> s.shamt),
                Special1Op::Jr => if owns_text(m0, rs) {
                    goes_to(p0, p1, m0, m1, r, rs, pregs(p0))
                } else {
                    fails(p0, p1, m0, m1, r, pregs(p0), jump_message(rs))
                },
                Special1Op::Jalr => {
                    let link = if rd == 0 { 31int } else { rd };
                    let regs = pregs(p0).update(link, p0.pc);
                    if owns_text(m0, rs) {
                        goes_to(p0, p1, m0, m1, r, regs[s.rs.reg_index() as int], regs)
                    } else {
                        fails(p0, p1, m0, m1, r, pregs(p0), jump_message(rs))
                    }
                },
                Special1Op::Add => ok_write(p0, p1, m0, m1, r, rd, (rs + rt) as u32),
                Special1Op::Addu => ok_write(p0, p1, m0, m1, r, rd, vstd::wrapping::u32_specs::wrapping_add(rs, rt)),
                Special1Op::Sub => {
                    let d = vstd::wrapping::u32_specs::wrapping_sub(rs, rt);
                    if rs < rt {
                        fails(p0, p1, m0, m1, r, pregs(p0).update(1, d), "Integer underflow occurred in subtraction."@)
                    } else {
                        ok_regs(p0, p1, r, pregs(p0).update(1, d).update(rd, d)) && m1 == m0
                    }
                },
                Special1Op::Subu => ok_write(p0, p1, m0, m1, r, rd, vstd::wrapping::u32_specs::wrapping_sub(rs, rt)),
                Special1Op::And => ok_write(p0, p1, m0, m1, r, rd, rs & rt),
                Special1Op::Or => ok_write(p0, p1, m0, m1, r, rd, rs | rt),
                Special1Op::Xor => ok_write(p0, p1, m0, m1, r, rd, rs ^ rt),
                Special1Op::Nor => ok_write(p0, p1, m0, m1, r, rd, !(rs | rt)),
                Special1Op::Slt => ok_write(p0, p1, m0, m1, r, rd, if (rs as i32) < (rt as i32) { 1u32 } else { 0u32 }),
                Special1Op::Sltu => ok_write(p0, p1, m0, m1, r, rd, if rs < rt { 1u32 } else { 0u32 }),
                _ => false,
            },
        },
        SpecialOp::Special2(_) => false,
    }
}

/// The operations of immediate-form instructions that this processor executes
/// (jumps given as immediate-form instructions are refused with a message).
pub open spec fn immediate_supported(op: ImmediateOp) -> bool {
    match op {
        ImmediateOp::J | ImmediateOp::Jal | ImmediateOp::Jalx | ImmediateOp::Beq | ImmediateOp::Bne
        | ImmediateOp::Blez | ImmediateOp::Bgtz | ImmediateOp::Addi | ImmediateOp::Addiu
        | ImmediateOp::Slti | ImmediateOp::Sltiu | ImmediateOp::Andi | ImmediateOp::Ori | ImmediateOp::Xori
        | ImmediateOp::Lui | ImmediateOp::Lb | ImmediateOp::Lw | ImmediateOp::Sb | ImmediateOp::Sw => true,
        _ => false,
    }
}

/// Whether the branch condition of `op` holds.
pub open spec fn branch_taken(p: Processor, i: Immediate) -> bool {
    let rs = reg_val(p, i.rs);
    let rt = reg_val(p, i.rt);
    match i.opcode {
        ImmediateOp::Beq => rs == rt,
        ImmediateOp::Bne => rs != rt,
        ImmediateOp::Blez => (rs as i32) <= 0,
        ImmediateOp::Bgtz => (rs as i32) > 0,
        _ => false,
    }
}

/// What an immediate-form instruction needs beyond being supported.
pub open spec fn immediate_ok(p: Processor, m: Memory, i: Immediate) -> bool {
    match i.opcode {
        ImmediateOp::Beq | ImmediateOp::Bne | ImmediateOp::Blez | ImmediateOp::Bgtz =>
            branch_taken(p, i) ==> target_fits(p.pc, i.imm),
        ImmediateOp::Addi => i32::MIN <= (reg_val(p, i.rs) as i32) + sext16(i.imm) <= i32::MAX,
        ImmediateOp::Lb | ImmediateOp::Sb => m.data_wf() && mem_address_fits(p, i),
        ImmediateOp::Lw | ImmediateOp::Sw => m.data_wf() && mem_address_fits(p, i)
            && (mem_address(p, i) % 4 == 0 ==> mem_address(p, i) + 4 <= u32::MAX),
        _ => true,
    }
}

/// Whether a word access at `a` reaches or passes the end of .data, or starts before it.
pub open spec fn word_outside(m: Memory, a: u32) -> bool {
    a + 4 >= m.data_end || a < m.data_start
}

/// The effect of a supported immediate-form instruction.
pub open spec fn immediate_effect(p0: Processor, p1: Processor, m0: Memory, m1: Memory, i: Immediate, r: Result<ExecutionStatus, String>) -> bool {
    let rs = reg_val(p0, i.rs);
    let rt = i.rt.reg_index() as int;
    let a = mem_address(p0, i);
    match i.opcode {
        ImmediateOp::J | ImmediateOp::Jal | ImmediateOp::Jalx =>
            fails(p0, p1, m0, m1, r, pregs(p0), "Jump operation called with IType arguments"@),
        ImmediateOp::Beq | ImmediateOp::Bne | ImmediateOp::Blez | ImmediateOp::Bgtz =>
            branch_effect(p0, p1, m0, m1, r, branch_taken(p0, i), i.imm),
        ImmediateOp::Addi => ok_write(p0, p1, m0, m1, r, rt, ((rs as i32) + sext16(i.imm)) as u32),
        ImmediateOp::Addiu => ok_write(p0, p1, m0, m1, r, rt, vstd::wrapping::u32_specs::wrapping_add(rs, i.imm)),
        ImmediateOp::Slti => ok_write(p0, p1, m0, m1, r, rt, if (rs as i32) < (i.imm as i32) { 1u32 } else { 0u32 }),
        ImmediateOp::Sltiu => ok_write(p0, p1, m0, m1, r, rt, if rs < i.imm { 1u32 } else { 0u32 }),
        ImmediateOp::Andi => ok_write(p0, p1, m0, m1, r, rt, rs & i.imm),
        ImmediateOp::Ori => ok_write(p0, p1, m0, m1, r, rt, rs | i.imm),
        ImmediateOp::Xori => ok_write(p0, p1, m0, m1, r, rt, rs ^ i.imm),
        ImmediateOp::Lui => ok_write(p0, p1, m0, m1, r, rt, i.imm << 16),
        ImmediateOp::Lb => if owns_data(m0, a) {
            ok_regs(p0, p1, r, pregs(p0).update(1, a).update(rt, m0.data@[a - m0.data_start] as u32)) && m1 == m0
        } else {
            fails(p0, p1, m0, m1, r, pregs(p0).update(1, a), access_message(a))
        },
        ImmediateOp::Lw => if a % 4 != 0 {
            fails(p0, p1, m0, m1, r, pregs(p0), alignment_message(a))
        } else if word_outside(m0, a) {
            fails(p0, p1, m0, m1, r, pregs(p0), word_access_message(a))
        } else {
            ok_write(p0, p1, m0, m1, r, rt, word_at(m0.data@, a - m0.data_start))
        },
        ImmediateOp::Sb => if !owns_data(m0, a) {
            fails(p0, p1, m0, m1, r, pregs(p0), access_message(a))
        } else {
            &&& r == Ok::<ExecutionStatus, String>(ExecutionStatus::Continue)
            &&& p1 == p0
            &&& m1.data@ == m0.data@.update(a - m0.data_start, rs_byte(p0, i))
            &&& m1.text == m0.text
            &&& same_bounds(m0, m1)
        },
        ImmediateOp::Sw => if a % 4 != 0 {
            fails(p0, p1, m0, m1, r, pregs(p0), alignment_message(a))
        } else if word_outside(m0, a) {
            fails(p0, p1, m0, m1, r, pregs(p0), word_access_message(a))
        } else {
            let k = a - m0.data_start;
            let w = be_bytes_u32(reg_val(p0, i.rt));
            &&& r == Ok::<ExecutionStatus, String>(ExecutionStatus::Continue)
            &&& p1 == p0
            &&& m1.data@ == m0.data@.update(k, w[0]).update(k + 1, w[1]).update(k + 2, w[2]).update(k + 3, w[3])
            &&& m1.text == m0.text
            &&& same_bounds(m0, m1)
        },
        _ => false,
    }
}

/// The byte that `sb` stores: the low byte of rt.
pub open spec fn rs_byte(p: Processor, i: Immediate) -> u8 {
    reg_val(p, i.rt) as u8
}

/// The segment bounds of two memories agree.
pub open spec fn same_bounds(m0: Memory, m1: Memory) -> bool {
    &&& m1.data_start == m0.data_start
    &&& m1.data_end == m0.data_end
    &&& m1.text_start == m0.text_start
    &&& m1.text_end == m0.text_end
}

/// The effect of a jump: J and JAL move within the current region; others are refused.
pub open spec fn jump_effect(p0: Processor, p1: Processor, m0: Memory, m1: Memory, j: Jump, r: Result<ExecutionStatus, String>) -> bool {
    let target = region_target(p0.pc, j.address);
    match j.opcode {
        ImmediateOp::J => if owns_text(m0, target) {
            goes_to(p0, p1, m0, m1, r, target, pregs(p0))
        } else {
            fails(p0, p1, m0, m1, r, pregs(p0), jump_message(target))
        },
        ImmediateOp::Jal => if owns_text(m0, target) {
            goes_to(p0, p1, m0, m1, r, target, pregs(p0).update(31, p0.pc))
        } else {
            fails(p0, p1, m0, m1, r, pregs(p0), jump_message(target))
        },
        _ => fails(p0, p1, m0, m1, r, pregs(p0), "Operation does not take jump arguments"@),
    }
}


/// Syscall 1 - appends `$a0` in unsigned decimal to the output.
pub fn sys_print_int(cpu: &mut Processor, memory: &mut Memory, out: &mut Vec<u8>) -> (r: Result<ExecutionStatus, String>)
    ensures
        r == Ok::<ExecutionStatus, String>(ExecutionStatus::Continue),
        final(out)@ == old(out)@ + ascii_bytes(dec_chars(pregs(*old(cpu))[4] as nat)),
        *final(cpu) == *old(cpu),
        *final(memory) == *old(memory),
{
    append_radix_bytes(out, cpu.general_purpose_registers[4] as u64, 10);
    Ok(ExecutionStatus::Continue)
}

/// Syscall 4 - appends the null-terminated UTF-8 string at `$a0` to the output.
pub fn sys_print_string(cpu: &mut Processor, memory: &mut Memory, out: &mut Vec<u8>) -> (r: Result<ExecutionStatus, String>)
    ensures
        *final(cpu) == *old(cpu),
        *final(memory) == *old(memory),
        match cstring_at(*old(memory), pregs(*old(cpu))[4]) {
            Err(e) => r matches Err(m) && m@ == e && final(out)@ == old(out)@,
            Ok(s) => if valid_utf8(s) {
                r == Ok::<ExecutionStatus, String>(ExecutionStatus::Continue) && final(out)@ == old(out)@ + s
            } else {
                r matches Err(m) && m@ == "UTF-8 conversion error: "@ + utf8_error_text(s) && final(out)@ == old(out)@
            },
        },
{
    let bytes = match read_cstring(memory, cpu.general_purpose_registers[4]) {
        Ok(b) => b,
        Err(e) => {
            return Err(e);
        },
    };
    let checked = string_from_utf8(&bytes);
    if checked.is_ok() {
        let mut i: usize = 0;
        while i < bytes.len()
            invariant
                i <= bytes.len(),
                out@ == old(out)@ + bytes@.subrange(0, i as int),
            decreases bytes.len() - i,
        {
            out.push(bytes[i]);
            assert(bytes@.subrange(0, i + 1) =~= bytes@.subrange(0, i as int).push(bytes@[i as int]));
            i = i + 1;
        }
        assert(bytes@.subrange(0, bytes.len() as int) =~= bytes@);
        Ok(ExecutionStatus::Continue)
    } else {
        let mut m = String::new();
        m.append("UTF-8 conversion error: ");
        match checked {
            Err(e) => { m.append(e.as_str()); },
            Ok(_) => {},
        }
        proof { reveal_strlit("UTF-8 conversion error: "); }
        Err(m)
    }
}

/// The line `input` holds next (up to and including its newline, or to the end).
pub open spec fn next_line(input: InputBuffer) -> Seq<u8> {
    input.bytes@.subrange(input.pos as int, line_end(input.bytes@, input.pos as int))
}

/// Syscall 5 - reads a line and stores its value, as an unsigned decimal
/// integer with the whitespace around it ignored, in `$v0`. The line must be
/// UTF-8 text.
pub fn sys_read_int(cpu: &mut Processor, memory: &mut Memory, input: &mut InputBuffer) -> (r: Result<ExecutionStatus, String>)
    requires
        old(input).wf(),
        valid_utf8(next_line(*old(input))),
    ensures
        final(input).wf(),
        final(input).bytes == old(input).bytes,
        final(input).pos == line_end(old(input).bytes@, old(input).pos as int),
        *final(memory) == *old(memory),
        final(cpu).pc == old(cpu).pc,
        ({
            let text = trim(decode_utf8(next_line(*old(input))));
            match parse_unsigned(text, u32::MAX as nat) {
                Some(v) => r == Ok::<ExecutionStatus, String>(ExecutionStatus::Continue)
                    && pregs(*final(cpu)) == pregs(*old(cpu)).update(2, v as u32),
                None => (r matches Err(m) && m@ == text + " is not an integer.\nRead failed"@)
                    && pregs(*final(cpu)) == pregs(*old(cpu)),
            }
        }),
{
    let line = input.read_line();
    proof { lemma_line_end_bounds(old(input).bytes@, old(input).pos as int); }
    let input_text = match string_from_utf8(&line) {
        Ok(s) => s,
        Err(_) => {
            return Err(String::new());
        },
    };
    let trimmed = trim_str(input_text.as_str());
    match parse_unsigned_str(trimmed, 0xffff_ffff) {
        Some(i) => {
            cpu.general_purpose_registers[2] = i as u32;
            Ok(ExecutionStatus::Continue)
        },
        None => {
            let mut m = String::new();
            m.append(trimmed);
            m.append(" is not an integer.\nRead failed");
            proof { reveal_strlit(" is not an integer.\nRead failed"); }
            Err(m)
        },
    }
}

/// Syscall 10 - the program is complete.
pub fn sys_exit(cpu: &mut Processor, memory: &mut Memory) -> (r: Result<ExecutionStatus, String>)
    ensures
        r == Ok::<ExecutionStatus, String>(ExecutionStatus::Complete),
        *final(cpu) == *old(cpu),
        *final(memory) == *old(memory),
{
    Ok(ExecutionStatus::Complete)
}

/// Syscall 11 - appends the character whose scalar value is in `$a0` to the output.
pub fn sys_print_char(cpu: &mut Processor, memory: &mut Memory, out: &mut Vec<u8>) -> (r: Result<ExecutionStatus, String>)
    ensures
        *final(cpu) == *old(cpu),
        *final(memory) == *old(memory),
        if is_scalar(pregs(*old(cpu))[4]) {
            r == Ok::<ExecutionStatus, String>(ExecutionStatus::Continue)
                && final(out)@ == old(out)@ + encode_scalar(pregs(*old(cpu))[4])
        } else {
            r matches Err(m) && m@ == "Value in register $a0 could not be evaluated to a char."@
                && final(out)@ == old(out)@
        },
{
    let c = cpu.general_purpose_registers[4];
    if scalar_check(c) {
        push_utf8(out, c);
        Ok(ExecutionStatus::Continue)
    } else {
        proof { reveal_strlit("Value in register $a0 could not be evaluated to a char."); }
        Err("Value in register $a0 could not be evaluated to a char.".to_string())
    }
}

/// Syscall 12 - consumes one byte of input into `$v0`; the input must hold
/// one more byte.
pub fn sys_read_char(cpu: &mut Processor, memory: &mut Memory, input: &mut InputBuffer) -> (r: Result<ExecutionStatus, String>)
    requires
        old(input).wf(),
        old(input).pos < old(input).bytes@.len(),
    ensures
        final(input).wf(),
        final(input).bytes == old(input).bytes,
        final(input).pos == old(input).pos + 1,
        *final(memory) == *old(memory),
        sets(*old(cpu), *final(cpu), r, 2, old(input).bytes@[old(input).pos as int] as u32),
{
    match input.read_byte() {
        Some(b) => {
            cpu.general_purpose_registers[2] = b as u32;
        },
        None => {},
    }
    Ok(ExecutionStatus::Continue)
}

/// What `sll` does to the processor.
pub open spec fn sll_effect(p0: Processor, p1: Processor, rargs: Special, r: Result<ExecutionStatus, String>) -> bool {
    sets(p0, p1, r, rargs.rd.reg_index() as int, reg_val(p0, rargs.rt) << rargs.shamt)
}

/// What `srl` does to the processor.
pub open spec fn srl_effect(p0: Processor, p1: Processor, rargs: Special, r: Result<ExecutionStatus, String>) -> bool {
    sets(p0, p1, r, rargs.rd.reg_index() as int, reg_val(p0, rargs.rt) >> rargs.shamt)
}

/// What `jr` does to the processor and memory.
pub open spec fn jr_effect(p0: Processor, p1: Processor, m0: Memory, m1: Memory, rargs: Special, r: Result<ExecutionStatus, String>) -> bool {
    let rs = reg_val(p0, rargs.rs);
    if owns_text(m0, rs) {
        goes_to(p0, p1, m0, m1, r, rs, pregs(p0))
    } else {
        fails(p0, p1, m0, m1, r, pregs(p0), jump_message(rs))
    }
}

/// What `jalr` does to the processor and memory.
pub open spec fn jalr_effect(p0: Processor, p1: Processor, m0: Memory, m1: Memory, rargs: Special, r: Result<ExecutionStatus, String>) -> bool {
    let rs = reg_val(p0, rargs.rs);
    let rd = rargs.rd.reg_index() as int;
    let link = if rd == 0 { 31int } else { rd };
    let regs = pregs(p0).update(link, p0.pc);
    if owns_text(m0, rs) {
        goes_to(p0, p1, m0, m1, r, regs[rargs.rs.reg_index() as int], regs)
    } else {
        fails(p0, p1, m0, m1, r, pregs(p0), jump_message(rs))
    }
}

/// What `slti` does to the processor.
pub open spec fn slti_effect(p0: Processor, p1: Processor, iargs: Immediate, r: Result<ExecutionStatus, String>) -> bool {
    sets(p0, p1, r, iargs.rt.reg_index() as int,
        if (reg_val(p0, iargs.rs) as i32) < (iargs.imm as i32) { 1u32 } else { 0u32 })
}

/// What `sltiu` does to the processor.
pub open spec fn sltiu_effect(p0: Processor, p1: Processor, iargs: Immediate, r: Result<ExecutionStatus, String>) -> bool {
    sets(p0, p1, r, iargs.rt.reg_index() as int,
        if reg_val(p0, iargs.rs) < iargs.imm { 1u32 } else { 0u32 })
}

/// What `add` does to the processor.
pub open spec fn add_effect(p0: Processor, p1: Processor, rargs: Special, r: Result<ExecutionStatus, String>) -> bool {
    sets(p0, p1, r, rargs.rd.reg_index() as int,
        (reg_val(p0, rargs.rs) + reg_val(p0, rargs.rt)) as u32)
}

/// What `addu` does to the processor.
pub open spec fn addu_effect(p0: Processor, p1: Processor, rargs: Special, r: Result<ExecutionStatus, String>) -> bool {
    sets(p0, p1, r, rargs.rd.reg_index() as int,
        vstd::wrapping::u32_specs::wrapping_add(reg_val(p0, rargs.rs), reg_val(p0, rargs.rt)))
}

/// What `sub` does to the processor.
pub open spec fn sub_effect(p0: Processor, p1: Processor, rargs: Special, r: Result<ExecutionStatus, String>) -> bool {
    let rs = reg_val(p0, rargs.rs);
    let rt = reg_val(p0, rargs.rt);
    let d = vstd::wrapping::u32_specs::wrapping_sub(rs, rt);
    let rd = rargs.rd.reg_index() as int;
    if rs < rt {
        &&& r matches Err(m) && m@ == "Integer underflow occurred in subtraction."@
        &&& pregs(p1) == pregs(p0).update(1, d)
        &&& p1.pc == p0.pc
    } else {
        ok_regs(p0, p1, r, pregs(p0).update(1, d).update(rd, d))
    }
}

/// What `subu` does to the processor.
pub open spec fn subu_effect(p0: Processor, p1: Processor, rargs: Special, r: Result<ExecutionStatus, String>) -> bool {
    sets(p0, p1, r, rargs.rd.reg_index() as int,
        vstd::wrapping::u32_specs::wrapping_sub(reg_val(p0, rargs.rs), reg_val(p0, rargs.rt)))
}

/// What `and` does to the processor.
pub open spec fn and_effect(p0: Processor, p1: Processor, rargs: Special, r: Result<ExecutionStatus, String>) -> bool {
    sets(p0, p1, r, rargs.rd.reg_index() as int,
        reg_val(p0, rargs.rs) & reg_val(p0, rargs.rt))
}

/// What `or` does to the processor.
pub open spec fn or_effect(p0: Processor, p1: Processor, rargs: Special, r: Result<ExecutionStatus, String>) -> bool {
    sets(p0, p1, r, rargs.rd.reg_index() as int,
        reg_val(p0, rargs.rs) | reg_val(p0, rargs.rt))
}

/// What `xor` does to the processor.
pub open spec fn xor_effect(p0: Processor, p1: Processor, rargs: Special, r: Result<ExecutionStatus, String>) -> bool {
    sets(p0, p1, r, rargs.rd.reg_index() as int,
        reg_val(p0, rargs.rs) ^ reg_val(p0, rargs.rt))
}

/// What `nor` does to the processor.
pub open spec fn nor_effect(p0: Processor, p1: Processor, rargs: Special, r: Result<ExecutionStatus, String>) -> bool {
    sets(p0, p1, r, rargs.rd.reg_index() as int,
        !(reg_val(p0, rargs.rs) | reg_val(p0, rargs.rt)))
}

/// What `slt` does to the processor.
pub open spec fn slt_effect(p0: Processor, p1: Processor, rargs: Special, r: Result<ExecutionStatus, String>) -> bool {
    sets(p0, p1, r, rargs.rd.reg_index() as int,
        if (reg_val(p0, rargs.rs) as i32) < (reg_val(p0, rargs.rt) as i32) { 1u32 } else { 0u32 })
}

/// What `sltu` does to the processor.
pub open spec fn sltu_effect(p0: Processor, p1: Processor, rargs: Special, r: Result<ExecutionStatus, String>) -> bool {
    sets(p0, p1, r, rargs.rd.reg_index() as int,
        if reg_val(p0, rargs.rs) < reg_val(p0, rargs.rt) { 1u32 } else { 0u32 })
}

/// What `j` does to the processor and memory.
pub open spec fn j_effect(p0: Processor, p1: Processor, m0: Memory, m1: Memory, jargs: Jump, r: Result<ExecutionStatus, String>) -> bool {
    let target = region_target(p0.pc, jargs.address);
    if owns_text(m0, target) {
        goes_to(p0, p1, m0, m1, r, target, pregs(p0))
    } else {
        fails(p0, p1, m0, m1, r, pregs(p0), jump_message(target))
    }
}

/// What `jal` does to the processor and memory.
pub open spec fn jal_effect(p0: Processor, p1: Processor, m0: Memory, m1: Memory, jargs: Jump, r: Result<ExecutionStatus, String>) -> bool {
    let target = region_target(p0.pc, jargs.address);
    if owns_text(m0, target) {
        goes_to(p0, p1, m0, m1, r, target,
            pregs(p0).update(31, p0.pc))
    } else {
        fails(p0, p1, m0, m1, r, pregs(p0), jump_message(target))
    }
}

/// What `beq` does to the processor and memory.
pub open spec fn beq_effect(p0: Processor, p1: Processor, m0: Memory, m1: Memory, iargs: Immediate, r: Result<ExecutionStatus, String>) -> bool {
    branch_effect(p0, p1, m0, m1, r,
        reg_val(p0, iargs.rs) == reg_val(p0, iargs.rt), iargs.imm)
}

/// What `bne` does to the processor and memory.
pub open spec fn bne_effect(p0: Processor, p1: Processor, m0: Memory, m1: Memory, iargs: Immediate, r: Result<ExecutionStatus, String>) -> bool {
    branch_effect(p0, p1, m0, m1, r,
        reg_val(p0, iargs.rs) != reg_val(p0, iargs.rt), iargs.imm)
}

/// What `blez` does to the processor and memory.
pub open spec fn blez_effect(p0: Processor, p1: Processor, m0: Memory, m1: Memory, iargs: Immediate, r: Result<ExecutionStatus, String>) -> bool {
    branch_effect(p0, p1, m0, m1, r,
        (reg_val(p0, iargs.rs) as i32) <= 0, iargs.imm)
}

/// What `bgtz` does to the processor and memory.
pub open spec fn bgtz_effect(p0: Processor, p1: Processor, m0: Memory, m1: Memory, iargs: Immediate, r: Result<ExecutionStatus, String>) -> bool {
    branch_effect(p0, p1, m0, m1, r,
        (reg_val(p0, iargs.rs) as i32) > 0, iargs.imm)
}

/// What `addi` does to the processor.
pub open spec fn addi_effect(p0: Processor, p1: Processor, iargs: Immediate, r: Result<ExecutionStatus, String>) -> bool {
    sets(p0, p1, r, iargs.rt.reg_index() as int,
        ((reg_val(p0, iargs.rs) as i32) + sext16(iargs.imm)) as u32)
}

/// What `addiu` does to the processor.
pub open spec fn addiu_effect(p0: Processor, p1: Processor, iargs: Immediate, r: Result<ExecutionStatus, String>) -> bool {
    sets(p0, p1, r, iargs.rt.reg_index() as int,
        vstd::wrapping::u32_specs::wrapping_add(reg_val(p0, iargs.rs), iargs.imm))
}

/// What `andi` does to the processor.
pub open spec fn andi_effect(p0: Processor, p1: Processor, iargs: Immediate, r: Result<ExecutionStatus, String>) -> bool {
    sets(p0, p1, r, iargs.rt.reg_index() as int, reg_val(p0, iargs.rs) & iargs.imm)
}

/// What `ori` does to the processor.
pub open spec fn ori_effect(p0: Processor, p1: Processor, iargs: Immediate, r: Result<ExecutionStatus, String>) -> bool {
    sets(p0, p1, r, iargs.rt.reg_index() as int, reg_val(p0, iargs.rs) | iargs.imm)
}

/// What `xori` does to the processor.
pub open spec fn xori_effect(p0: Processor, p1: Processor, iargs: Immediate, r: Result<ExecutionStatus, String>) -> bool {
    sets(p0, p1, r, iargs.rt.reg_index() as int, reg_val(p0, iargs.rs) ^ iargs.imm)
}

/// What `lui` does to the processor.
pub open spec fn lui_effect(p0: Processor, p1: Processor, iargs: Immediate, r: Result<ExecutionStatus, String>) -> bool {
    sets(p0, p1, r, iargs.rt.reg_index() as int, iargs.imm << 16)
}

/// What `lb` does to the processor and memory.
pub open spec fn lb_effect(p0: Processor, p1: Processor, m0: Memory, m1: Memory, iargs: Immediate, r: Result<ExecutionStatus, String>) -> bool {
    let a = mem_address(p0, iargs);
    let rt = iargs.rt.reg_index() as int;
    &&& m1 == m0
    &&& if owns_data(m0, a) {
        ok_regs(p0, p1, r, pregs(p0).update(1, a).update(rt, m0.data@[a - m0.data_start] as u32))
    } else {
        fails(p0, p1, m0, m1, r, pregs(p0).update(1, a), access_message(a))
    }
}

/// What `lw` does to the processor and memory.
pub open spec fn lw_effect(p0: Processor, p1: Processor, m0: Memory, m1: Memory, iargs: Immediate, r: Result<ExecutionStatus, String>) -> bool {
    let a = mem_address(p0, iargs);
    if a % 4 != 0 {
        fails(p0, p1, m0, m1, r, pregs(p0), alignment_message(a))
    } else if word_outside(m0, a) {
        fails(p0, p1, m0, m1, r, pregs(p0), word_access_message(a))
    } else {
        ok_write(p0, p1, m0, m1, r, iargs.rt.reg_index() as int, word_at(m0.data@, a - m0.data_start))
    }
}

/// What `sb` does to the processor and memory.
pub open spec fn sb_effect(p0: Processor, p1: Processor, m0: Memory, m1: Memory, iargs: Immediate, r: Result<ExecutionStatus, String>) -> bool {
    let a = mem_address(p0, iargs);
    if !owns_data(m0, a) {
        fails(p0, p1, m0, m1, r, pregs(p0), access_message(a))
    } else {
        &&& r == Ok::<ExecutionStatus, String>(ExecutionStatus::Continue)
        &&& p1 == p0
        &&& m1.data@ == m0.data@.update(a - m0.data_start, rs_byte(p0, iargs))
        &&& m1.text == m0.text
        &&& same_bounds(m0, m1)
    }
}

/// What `sw` does to the processor and memory.
pub open spec fn sw_effect(p0: Processor, p1: Processor, m0: Memory, m1: Memory, iargs: Immediate, r: Result<ExecutionStatus, String>) -> bool {
    let a = mem_address(p0, iargs);
    if a % 4 != 0 {
        fails(p0, p1, m0, m1, r, pregs(p0), alignment_message(a))
    } else if word_outside(m0, a) {
        fails(p0, p1, m0, m1, r, pregs(p0), word_access_message(a))
    } else {
        let k = a - m0.data_start;
        let w = be_bytes_u32(reg_val(p0, iargs.rt));
        &&& r == Ok::<ExecutionStatus, String>(ExecutionStatus::Continue)
        &&& p1 == p0
        &&& m1.data@ == m0.data@.update(k, w[0]).update(k + 1, w[1]).update(k + 2, w[2]).update(k + 3, w[3])
        &&& m1.text == m0.text
        &&& same_bounds(m0, m1)
    }
}

impl Processor {
    /// A processor about to execute `entry`, with every register zero.
    pub fn new(entry: u32) -> (p: Self)
        ensures
            p.pc == entry,
            forall|i: int| 0 <= i < 32 ==> pregs(p)[i] == 0,
    {
        Processor { pc: entry, general_purpose_registers: [0; 32] }
    }

    // 0x00 - sll
    /// rd = rt << shamt.
    pub fn sll(&mut self, rargs: Special) -> (r: Result<ExecutionStatus, String>)
        requires
            rargs.shamt < 32,
        ensures
            sll_effect(*old(self), *final(self), rargs, r),
    {
        let v = self.general_purpose_registers[rargs.rt.index()] << rargs.shamt;
        self.general_purpose_registers[rargs.rd.index()] = v;
        Ok(ExecutionStatus::Continue)
    }

    // 0x02 - srl
    /// rd = rt >> shamt.
    pub fn srl(&mut self, rargs: Special) -> (r: Result<ExecutionStatus, String>)
        requires
            rargs.shamt < 32,
        ensures
            srl_effect(*old(self), *final(self), rargs, r),
    {
        let v = self.general_purpose_registers[rargs.rt.index()] >> rargs.shamt;
        self.general_purpose_registers[rargs.rd.index()] = v;
        Ok(ExecutionStatus::Continue)
    }

    // 0x08 - jr
    /// Jumps to the address in rs, which must lie in .text.
    pub fn jr(&mut self, memory: &mut Memory, rargs: Special) -> (r: Result<ExecutionStatus, String>)
        ensures
            jr_effect(*old(self), *final(self), *old(memory), *final(memory), rargs, r),
    {
        let target = self.general_purpose_registers[rargs.rs.index()];
        if target >= memory.text_end || target < memory.text_start {
            return Err(jump_error(target));
        }
        self.pc = target;
        Ok(ExecutionStatus::Continue)
    }

    // 0x09 - jalr
    /// Jumps to the address in rs, saving the return address in rd (`$ra` when rd is `$zero`).
    pub fn jalr(&mut self, memory: &mut Memory, rargs: Special) -> (r: Result<ExecutionStatus, String>)
        ensures
            jalr_effect(*old(self), *final(self), *old(memory), *final(memory), rargs, r),
    {
        let rd: usize = match rargs.rd.index() {
            0 => 31,
            x => x,
        };
        let target = self.general_purpose_registers[rargs.rs.index()];
        if target >= memory.text_end || target < memory.text_start {
            return Err(jump_error(target));
        }
        self.general_purpose_registers[rd] = self.pc;
        self.pc = self.general_purpose_registers[rargs.rs.index()];
        Ok(ExecutionStatus::Continue)
    }

    // 0x0A - slti
    /// rt = 1 when rs < imm as signed words, else 0.
    pub fn slti(&mut self, iargs: Immediate) -> (r: Result<ExecutionStatus, String>)
        ensures
            slti_effect(*old(self), *final(self), iargs, r),
    {
        if (self.general_purpose_registers[iargs.rs.index()] as i32) < (iargs.imm as i32) {
            self.general_purpose_registers[iargs.rt.index()] = 1;
        } else {
            self.general_purpose_registers[iargs.rt.index()] = 0;
        }
        Ok(ExecutionStatus::Continue)
    }

    // 0x0B - sltiu
    /// rt = 1 when rs < imm as unsigned words, else 0.
    pub fn sltiu(&mut self, iargs: Immediate) -> (r: Result<ExecutionStatus, String>)
        ensures
            sltiu_effect(*old(self), *final(self), iargs, r),
    {
        if self.general_purpose_registers[iargs.rs.index()] < iargs.imm {
            self.general_purpose_registers[iargs.rt.index()] = 1;
        } else {
            self.general_purpose_registers[iargs.rt.index()] = 0;
        }
        Ok(ExecutionStatus::Continue)
    }

    // 0x0C - syscall
    /// Performs the syscall whose number is in `$v0` (see `syscall_effect`).
    pub fn syscall(&mut self, memory: &mut Memory, out: &mut Vec<u8>) -> (r: Result<ExecutionStatus, String>)
        requires
            pregs(*old(self))[2] < 64,
        ensures
            syscall_effect(*old(self), *final(self), *old(memory), *final(memory), old(out)@, final(out)@, r),
    {
        let syscall_num = self.general_purpose_registers[2];
        if syscall_num == 1 {
            sys_print_int(self, memory, out)
        } else if syscall_num == 4 {
            sys_print_string(self, memory, out)
        } else if syscall_num == 10 {
            sys_exit(self, memory)
        } else if syscall_num == 11 {
            sys_print_char(self, memory, out)
        } else {
            let mut m = String::new();
            m.append("Syscall ");
            append_radix(&mut m, syscall_num as u64, 10);
            m.append(" is not implemented");
            proof {
                reveal_strlit("Syscall ");
                reveal_strlit(" is not implemented");
            }
            Err(m)
        }
    }

    /// 0x20 - add
    /// rd = rs + rt; a sum that does not fit a word is outside what this accepts.
    pub fn add(&mut self, rargs: Special) -> (r: Result<ExecutionStatus, String>)
        requires
            reg_val(*old(self), rargs.rs) + reg_val(*old(self), rargs.rt) <= u32::MAX,
        ensures
            add_effect(*old(self), *final(self), rargs, r),
    {
        let v = self.general_purpose_registers[rargs.rs.index()] + self.general_purpose_registers[rargs.rt.index()];
        self.general_purpose_registers[rargs.rd.index()] = v;
        Ok(ExecutionStatus::Continue)
    }

    // 0x21 - addu
    /// rd = rs + rt, wrapping.
    pub fn addu(&mut self, rargs: Special) -> (r: Result<ExecutionStatus, String>)
        ensures
            addu_effect(*old(self), *final(self), rargs, r),
    {
        let v = self.general_purpose_registers[rargs.rs.index()].wrapping_add(self.general_purpose_registers[rargs.rt.index()]);
        self.general_purpose_registers[rargs.rd.index()] = v;
        Ok(ExecutionStatus::Continue)
    }

    // 0x22 - sub
    /// `$at` = rs - rt, wrapping; on underflow an error, otherwise rd = `$at`.
    pub fn sub(&mut self, rargs: Special) -> (r: Result<ExecutionStatus, String>)
        ensures
            sub_effect(*old(self), *final(self), rargs, r),
    {
        let rs = self.general_purpose_registers[rargs.rs.index()];
        let rt = self.general_purpose_registers[rargs.rt.index()];
        let d = rs.wrapping_sub(rt);
        self.general_purpose_registers[1] = d;
        if rs < rt {
            proof { reveal_strlit("Integer underflow occurred in subtraction."); }
            return Err("Integer underflow occurred in subtraction.".to_string());
        }
        self.general_purpose_registers[rargs.rd.index()] = self.general_purpose_registers[1];
        Ok(ExecutionStatus::Continue)
    }

    // 0x23 - subu
    /// rd = rs - rt, wrapping.
    pub fn subu(&mut self, rargs: Special) -> (r: Result<ExecutionStatus, String>)
        ensures
            subu_effect(*old(self), *final(self), rargs, r),
    {
        let v = self.general_purpose_registers[rargs.rs.index()].wrapping_sub(self.general_purpose_registers[rargs.rt.index()]);
        self.general_purpose_registers[rargs.rd.index()] = v;
        Ok(ExecutionStatus::Continue)
    }

    // 0x24 - and
    /// rd = rs & rt.
    pub fn and(&mut self, rargs: Special) -> (r: Result<ExecutionStatus, String>)
        ensures
            and_effect(*old(self), *final(self), rargs, r),
    {
        let v = self.general_purpose_registers[rargs.rs.index()] & self.general_purpose_registers[rargs.rt.index()];
        self.general_purpose_registers[rargs.rd.index()] = v;
        Ok(ExecutionStatus::Continue)
    }

    // 0x25 - or
    /// rd = rs | rt.
    pub fn or(&mut self, rargs: Special) -> (r: Result<ExecutionStatus, String>)
        ensures
            or_effect(*old(self), *final(self), rargs, r),
    {
        let v = self.general_purpose_registers[rargs.rs.index()] | self.general_purpose_registers[rargs.rt.index()];
        self.general_purpose_registers[rargs.rd.index()] = v;
        Ok(ExecutionStatus::Continue)
    }

    // 0x26 - xor
    /// rd = rs ^ rt.
    pub fn xor(&mut self, rargs: Special) -> (r: Result<ExecutionStatus, String>)
        ensures
            xor_effect(*old(self), *final(self), rargs, r),
    {
        let v = self.general_purpose_registers[rargs.rs.index()] ^ self.general_purpose_registers[rargs.rt.index()];
        self.general_purpose_registers[rargs.rd.index()] = v;
        Ok(ExecutionStatus::Continue)
    }

    // 0x27 - nor
    /// rd = !(rs | rt).
    pub fn nor(&mut self, rargs: Special) -> (r: Result<ExecutionStatus, String>)
        ensures
            nor_effect(*old(self), *final(self), rargs, r),
    {
        let v = !(self.general_purpose_registers[rargs.rs.index()] | self.general_purpose_registers[rargs.rt.index()]);
        self.general_purpose_registers[rargs.rd.index()] = v;
        Ok(ExecutionStatus::Continue)
    }

    // 0x2A - slt
    /// rd = 1 when rs < rt as signed words, else 0.
    pub fn slt(&mut self, rargs: Special) -> (r: Result<ExecutionStatus, String>)
        ensures
            slt_effect(*old(self), *final(self), rargs, r),
    {
        if (self.general_purpose_registers[rargs.rs.index()] as i32) < (self.general_purpose_registers[rargs.rt.index()] as i32) {
            self.general_purpose_registers[rargs.rd.index()] = 1;
        } else {
            self.general_purpose_registers[rargs.rd.index()] = 0;
        }
        Ok(ExecutionStatus::Continue)
    }

    // 0x2B - sltu
    /// rd = 1 when rs < rt as unsigned words, else 0.
    pub fn sltu(&mut self, rargs: Special) -> (r: Result<ExecutionStatus, String>)
        ensures
            sltu_effect(*old(self), *final(self), rargs, r),
    {
        if self.general_purpose_registers[rargs.rs.index()] < self.general_purpose_registers[rargs.rt.index()] {
            self.general_purpose_registers[rargs.rd.index()] = 1;
        } else {
            self.general_purpose_registers[rargs.rd.index()] = 0;
        }
        Ok(ExecutionStatus::Continue)
    }
}


impl Processor {
    /// Moves to the target of a taken branch, which must lie in .text.
    fn take_branch(&mut self, memory: &Memory, iargs: Immediate) -> (r: Result<ExecutionStatus, String>)
        requires
            target_fits(old(self).pc, iargs.imm),
        ensures
            branch_effect(*old(self), *final(self), *memory, *memory, r, true, iargs.imm),
    {
        let offset: i32 = sign_extend16(iargs.imm) * 4;
        let temp = (self.pc as i32 + offset) as u32;
        if temp >= memory.text_end || temp < memory.text_start {
            return Err(access_error(temp));
        }
        self.pc = temp;
        Ok(ExecutionStatus::Continue)
    }

    // 0x02 - j
    /// Jumps within the current 256 MB region; the target must lie in .text.
    pub fn j(&mut self, memory: &mut Memory, jargs: Jump) -> (r: Result<ExecutionStatus, String>)
        ensures
            j_effect(*old(self), *final(self), *old(memory), *final(memory), jargs, r),
    {
        let address: u32 = (jargs.address << 2) | (self.pc & 0xF0000000);
        if address >= memory.text_end || address < memory.text_start {
            return Err(jump_error(address));
        }
        self.pc = address;
        Ok(ExecutionStatus::Continue)
    }

    // 0x03 - jal
    /// Like `j`, saving the return address in `$ra`.
    pub fn jal(&mut self, memory: &mut Memory, jargs: Jump) -> (r: Result<ExecutionStatus, String>)
        ensures
            jal_effect(*old(self), *final(self), *old(memory), *final(memory), jargs, r),
    {
        let address: u32 = (jargs.address << 2) | (self.pc & 0xF0000000);
        if address >= memory.text_end || address < memory.text_start {
            return Err(jump_error(address));
        }
        self.general_purpose_registers[31] = self.pc;
        self.pc = address;
        Ok(ExecutionStatus::Continue)
    }

    // 0x04 - beq
    /// Branches when rs == rt.
    pub fn beq(&mut self, memory: &mut Memory, iargs: Immediate) -> (r: Result<ExecutionStatus, String>)
        requires
            reg_val(*old(self), iargs.rs) == reg_val(*old(self), iargs.rt) ==> target_fits(old(self).pc, iargs.imm),
        ensures
            beq_effect(*old(self), *final(self), *old(memory), *final(memory), iargs, r),
    {
        if self.general_purpose_registers[iargs.rs.index()] != self.general_purpose_registers[iargs.rt.index()] {
            return Ok(ExecutionStatus::Continue);
        }
        self.take_branch(memory, iargs)
    }

    // 0x05 - bne
    /// Branches when rs != rt.
    pub fn bne(&mut self, memory: &mut Memory, iargs: Immediate) -> (r: Result<ExecutionStatus, String>)
        requires
            reg_val(*old(self), iargs.rs) != reg_val(*old(self), iargs.rt) ==> target_fits(old(self).pc, iargs.imm),
        ensures
            bne_effect(*old(self), *final(self), *old(memory), *final(memory), iargs, r),
    {
        if self.general_purpose_registers[iargs.rs.index()] == self.general_purpose_registers[iargs.rt.index()] {
            return Ok(ExecutionStatus::Continue);
        }
        self.take_branch(memory, iargs)
    }

    // 0x06 - blez
    /// Branches when rs <= 0 as a signed word.
    pub fn blez(&mut self, memory: &mut Memory, iargs: Immediate) -> (r: Result<ExecutionStatus, String>)
        requires
            (reg_val(*old(self), iargs.rs) as i32) <= 0 ==> target_fits(old(self).pc, iargs.imm),
        ensures
            blez_effect(*old(self), *final(self), *old(memory), *final(memory), iargs, r),
    {
        if (self.general_purpose_registers[iargs.rs.index()] as i32) > 0 {
            return Ok(ExecutionStatus::Continue);
        }
        self.take_branch(memory, iargs)
    }

    // 0x07 - bgtz
    /// Branches when rs > 0 as a signed word.
    pub fn bgtz(&mut self, memory: &mut Memory, iargs: Immediate) -> (r: Result<ExecutionStatus, String>)
        requires
            (reg_val(*old(self), iargs.rs) as i32) > 0 ==> target_fits(old(self).pc, iargs.imm),
        ensures
            bgtz_effect(*old(self), *final(self), *old(memory), *final(memory), iargs, r),
    {
        if (self.general_purpose_registers[iargs.rs.index()] as i32) <= 0 {
            return Ok(ExecutionStatus::Continue);
        }
        self.take_branch(memory, iargs)
    }

    /// 0x08 - addi
    /// rt = rs + the sign-extended immediate; a signed overflow is outside what this accepts.
    pub fn addi(&mut self, iargs: Immediate) -> (r: Result<ExecutionStatus, String>)
        requires
            i32::MIN <= (reg_val(*old(self), iargs.rs) as i32) + sext16(iargs.imm) <= i32::MAX,
        ensures
            addi_effect(*old(self), *final(self), iargs, r),
    {
        let v = (self.general_purpose_registers[iargs.rs.index()] as i32 + sign_extend16(iargs.imm)) as u32;
        self.general_purpose_registers[iargs.rt.index()] = v;
        Ok(ExecutionStatus::Continue)
    }

    // 0x09 - addiu
    /// rt = rs + imm, wrapping.
    pub fn addiu(&mut self, iargs: Immediate) -> (r: Result<ExecutionStatus, String>)
        ensures
            addiu_effect(*old(self), *final(self), iargs, r),
    {
        let v = self.general_purpose_registers[iargs.rs.index()].wrapping_add(iargs.imm);
        self.general_purpose_registers[iargs.rt.index()] = v;
        Ok(ExecutionStatus::Continue)
    }

    // 0x0C - andi
    /// rt = rs & imm.
    pub fn andi(&mut self, iargs: Immediate) -> (r: Result<ExecutionStatus, String>)
        ensures
            andi_effect(*old(self), *final(self), iargs, r),
    {
        let v = self.general_purpose_registers[iargs.rs.index()] & iargs.imm;
        self.general_purpose_registers[iargs.rt.index()] = v;
        Ok(ExecutionStatus::Continue)
    }

    // 0x0D - ori
    /// rt = rs | imm.
    pub fn ori(&mut self, iargs: Immediate) -> (r: Result<ExecutionStatus, String>)
        ensures
            ori_effect(*old(self), *final(self), iargs, r),
    {
        let v = self.general_purpose_registers[iargs.rs.index()] | iargs.imm;
        self.general_purpose_registers[iargs.rt.index()] = v;
        Ok(ExecutionStatus::Continue)
    }

    // 0x0E - xori
    /// rt = rs ^ imm.
    pub fn xori(&mut self, iargs: Immediate) -> (r: Result<ExecutionStatus, String>)
        ensures
            xori_effect(*old(self), *final(self), iargs, r),
    {
        let v = self.general_purpose_registers[iargs.rs.index()] ^ iargs.imm;
        self.general_purpose_registers[iargs.rt.index()] = v;
        Ok(ExecutionStatus::Continue)
    }

    // 0x0F - lui
    /// rt = imm << 16.
    pub fn lui(&mut self, iargs: Immediate) -> (r: Result<ExecutionStatus, String>)
        ensures
            lui_effect(*old(self), *final(self), iargs, r),
    {
        self.general_purpose_registers[iargs.rt.index()] = iargs.imm << 16;
        Ok(ExecutionStatus::Continue)
    }

    // 0x20 - lb
    /// `$at` = the address rs + imm; outside .data an error, otherwise rt = the byte there.
    pub fn lb(&mut self, memory: &mut Memory, iargs: Immediate) -> (r: Result<ExecutionStatus, String>)
        requires
            old(memory).data_wf(),
            mem_address_fits(*old(self), iargs),
        ensures
            lb_effect(*old(self), *final(self), *old(memory), *final(memory), iargs, r),
    {
        self.general_purpose_registers[1] =
            (self.general_purpose_registers[iargs.rs.index()] as i32 + iargs.imm as i32) as u32;
        let a = self.general_purpose_registers[1];
        if a >= memory.data_end || a < memory.data_start {
            return Err(access_error(a));
        }
        let v = memory.data[(a - memory.data_start) as usize] as u32;
        self.general_purpose_registers[iargs.rt.index()] = v;
        Ok(ExecutionStatus::Continue)
    }

    // 0x23 - lw
    /// rt = the big-endian word at rs + imm, which must be aligned and lie in .data.
    pub fn lw(&mut self, memory: &mut Memory, iargs: Immediate) -> (r: Result<ExecutionStatus, String>)
        requires
            old(memory).data_wf(),
            mem_address_fits(*old(self), iargs),
            mem_address(*old(self), iargs) % 4 == 0 ==> mem_address(*old(self), iargs) + 4 <= u32::MAX,
        ensures
            lw_effect(*old(self), *final(self), *old(memory), *final(memory), iargs, r),
    {
        let temp = (self.general_purpose_registers[iargs.rs.index()] as i32 + iargs.imm as i32) as u32;
        if temp % 4 != 0 {
            return Err(alignment_error(temp));
        }
        if temp + 4 >= memory.data_end || temp < memory.data_start {
            return Err(word_access_error(temp));
        }
        let start_idx: usize = (temp - memory.data_start) as usize;
        let v = read_word_be(&memory.data, start_idx);
        self.general_purpose_registers[iargs.rt.index()] = v;
        Ok(ExecutionStatus::Continue)
    }

    // 0x28 - sb
    /// Stores the low byte of rt at rs + imm, which must lie in .data.
    pub fn sb(&mut self, memory: &mut Memory, iargs: Immediate) -> (r: Result<ExecutionStatus, String>)
        requires
            old(memory).data_wf(),
            mem_address_fits(*old(self), iargs),
        ensures
            sb_effect(*old(self), *final(self), *old(memory), *final(memory), iargs, r),
    {
        let temp = (self.general_purpose_registers[iargs.rs.index()] as i32 + iargs.imm as i32) as u32;
        if temp >= memory.data_end || temp < memory.data_start {
            return Err(access_error(temp));
        }
        let byte = self.general_purpose_registers[iargs.rt.index()] as u8;
        memory.data.set((temp - memory.data_start) as usize, byte);
        Ok(ExecutionStatus::Continue)
    }

    // 0x2b - sw
    /// Stores rt big-endian at rs + imm, which must be aligned and lie in .data.
    pub fn sw(&mut self, memory: &mut Memory, iargs: Immediate) -> (r: Result<ExecutionStatus, String>)
        requires
            old(memory).data_wf(),
            mem_address_fits(*old(self), iargs),
            mem_address(*old(self), iargs) % 4 == 0 ==> mem_address(*old(self), iargs) + 4 <= u32::MAX,
        ensures
            sw_effect(*old(self), *final(self), *old(memory), *final(memory), iargs, r),
    {
        let temp = (self.general_purpose_registers[iargs.rs.index()] as i32 + iargs.imm as i32) as u32;
        if temp % 4 != 0 {
            return Err(alignment_error(temp));
        }
        if temp + 4 >= memory.data_end || temp < memory.data_start {
            return Err(word_access_error(temp));
        }
        let start_idx: usize = (temp - memory.data_start) as usize;
        let w = self.general_purpose_registers[iargs.rt.index()];
        write_word_be(&mut memory.data, start_idx, w);
        Ok(ExecutionStatus::Continue)
    }
}


impl Processor {
    /// Executes an immediate-form instruction.
    pub fn process_immediate(&mut self, memory: &mut Memory, instr: Immediate) -> (r: Result<ExecutionStatus, String>)
        requires
            immediate_supported(instr.opcode),
            immediate_ok(*old(self), *old(memory), instr),
        ensures
            immediate_effect(*old(self), *final(self), *old(memory), *final(memory), instr, r),
    {
        match instr.opcode {
            ImmediateOp::Beq => self.beq(memory, instr),
            ImmediateOp::Bne => self.bne(memory, instr),
            ImmediateOp::Blez => self.blez(memory, instr),
            ImmediateOp::Bgtz => self.bgtz(memory, instr),
            ImmediateOp::Addi => self.addi(instr),
            ImmediateOp::Addiu => self.addiu(instr),
            ImmediateOp::Slti => self.slti(instr),
            ImmediateOp::Sltiu => self.sltiu(instr),
            ImmediateOp::Andi => self.andi(instr),
            ImmediateOp::Ori => self.ori(instr),
            ImmediateOp::Xori => self.xori(instr),
            ImmediateOp::Lui => self.lui(instr),
            ImmediateOp::Lb => self.lb(memory, instr),
            ImmediateOp::Lw => self.lw(memory, instr),
            ImmediateOp::Sb => self.sb(memory, instr),
            ImmediateOp::Sw => self.sw(memory, instr),
            _ => {
                proof { reveal_strlit("Jump operation called with IType arguments"); }
                Err("Jump operation called with IType arguments".to_string())
            },
        }
    }

    /// Executes a jump-form instruction.
    pub fn process_jump(&mut self, memory: &mut Memory, instr: Jump) -> (r: Result<ExecutionStatus, String>)
        requires
            !(instr.opcode is Jalx),
        ensures
            jump_effect(*old(self), *final(self), *old(memory), *final(memory), instr, r),
    {
        match instr.opcode {
            ImmediateOp::J => self.j(memory, instr),
            ImmediateOp::Jal => self.jal(memory, instr),
            _ => {
                proof { reveal_strlit("Operation does not take jump arguments"); }
                Err("Operation does not take jump arguments".to_string())
            },
        }
    }

    /// Executes a SPECIAL-form instruction; what syscalls print goes to `out`.
    pub fn process_special(&mut self, memory: &mut Memory, instr: Special, out: &mut Vec<u8>) -> (r: Result<ExecutionStatus, String>)
        requires
            special_supported(instr.special_opcode),
            special_ok(*old(self), instr),
        ensures
            special_effect(*old(self), *final(self), *old(memory), *final(memory), old(out)@, final(out)@, instr, r),
    {
        match instr.special_opcode {
            SpecialOp::Special1(special1) => match special1 {
                Special1Op::Sll => self.sll(instr),
                Special1Op::Srl => self.srl(instr),
                Special1Op::Jr => self.jr(memory, instr),
                Special1Op::Jalr => self.jalr(memory, instr),
                Special1Op::Syscall => self.syscall(memory, out),
                Special1Op::Add => self.add(instr),
                Special1Op::Addu => self.addu(instr),
                Special1Op::Sub => self.sub(instr),
                Special1Op::Subu => self.subu(instr),
                Special1Op::And => self.and(instr),
                Special1Op::Or => self.or(instr),
                Special1Op::Xor => self.xor(instr),
                Special1Op::Nor => self.nor(instr),
                Special1Op::Slt => self.slt(instr),
                Special1Op::Sltu => self.sltu(instr),
                _ => Err(String::new()),
            },
            SpecialOp::Special2(_) => Err(String::new()),
        }
    }
}

/// Whether the processor executes `instr` on `p` and `m` (its operation is
/// implemented and its operands are in range).
pub open spec fn executable(p: Processor, m: Memory, instr: Instruction) -> bool {
    match instr {
        Instruction::Imm(i) => immediate_supported(i.opcode) && immediate_ok(p, m, i),
        Instruction::J(j) => !(j.opcode is Jalx),
        Instruction::Spec(s) => special_supported(s.special_opcode) && special_ok(p, s),
        Instruction::Regimm(_) => false,
    }
}

/// The effect of executing `instr`.
pub open spec fn instruction_effect(p0: Processor, p1: Processor, m0: Memory, m1: Memory, out0: Seq<u8>, out1: Seq<u8>, instr: Instruction, r: Result<ExecutionStatus, String>) -> bool {
    match instr {
        Instruction::Imm(i) => immediate_effect(p0, p1, m0, m1, i, r) && out1 == out0,
        Instruction::J(j) => jump_effect(p0, p1, m0, m1, j, r) && out1 == out0,
        Instruction::Spec(s) => special_effect(p0, p1, m0, m1, out0, out1, s, r),
        Instruction::Regimm(_) => false,
    }
}

impl Processor {
    /// Executes one decoded instruction. REGIMM-form instructions are not
    /// implemented by this processor.
    pub fn process_instruction(&mut self, memory: &mut Memory, instr: Instruction, out: &mut Vec<u8>) -> (r: Result<ExecutionStatus, String>)
        requires
            executable(*old(self), *old(memory), instr),
        ensures
            instruction_effect(*old(self), *final(self), *old(memory), *final(memory), old(out)@, final(out)@, instr, r),
    {
        match instr {
            Instruction::Imm(imm) => self.process_immediate(memory, imm),
            Instruction::J(jump) => self.process_jump(memory, jump),
            Instruction::Spec(spec) => self.process_special(memory, spec, out),
            Instruction::Regimm(_) => Err(String::new()),
        }
    }
}


/// Executing a SPECIAL-form instruction does exactly what the method named by
/// its operation does (`sll`, `srl`, `jr`, `jalr`, `syscall`, `add`, ...,
/// `sltu`); the methods that are not handed the memory or the output leave them
/// as they were.
pub proof fn lemma_special_dispatch(p0: Processor, p1: Processor, m0: Memory, m1: Memory, out0: Seq<u8>, out1: Seq<u8>,
    s: Special, r: Result<ExecutionStatus, String>)
    requires
        special_supported(s.special_opcode),
    ensures
        special_effect(p0, p1, m0, m1, out0, out1, s, r) <==> match s.special_opcode {
            SpecialOp::Special1(op) => match op {
                Special1Op::Syscall => syscall_effect(p0, p1, m0, m1, out0, out1, r),
                Special1Op::Jr => jr_effect(p0, p1, m0, m1, s, r) && out1 == out0,
                Special1Op::Jalr => jalr_effect(p0, p1, m0, m1, s, r) && out1 == out0,
                _ => m1 == m0 && out1 == out0 && match op {
                    Special1Op::Sll => sll_effect(p0, p1, s, r),
                    Special1Op::Srl => srl_effect(p0, p1, s, r),
                    Special1Op::Add => add_effect(p0, p1, s, r),
                    Special1Op::Addu => addu_effect(p0, p1, s, r),
                    Special1Op::Sub => sub_effect(p0, p1, s, r),
                    Special1Op::Subu => subu_effect(p0, p1, s, r),
                    Special1Op::And => and_effect(p0, p1, s, r),
                    Special1Op::Or => or_effect(p0, p1, s, r),
                    Special1Op::Xor => xor_effect(p0, p1, s, r),
                    Special1Op::Nor => nor_effect(p0, p1, s, r),
                    Special1Op::Slt => slt_effect(p0, p1, s, r),
                    Special1Op::Sltu => sltu_effect(p0, p1, s, r),
                    _ => false,
                },
            },
            SpecialOp::Special2(_) => false,
        },
{
}

/// Executing an immediate-form instruction does exactly what the method named
/// by its operation does (`beq`, ..., `lui`, `lb`, `lw`, `sb`, `sw`); the
/// methods that are not handed the memory leave it as it was. A jump given in
/// this form is refused with the state unchanged.
pub proof fn lemma_immediate_dispatch(p0: Processor, p1: Processor, m0: Memory, m1: Memory, i: Immediate,
    r: Result<ExecutionStatus, String>)
    requires
        immediate_supported(i.opcode),
    ensures
        immediate_effect(p0, p1, m0, m1, i, r) <==> match i.opcode {
            ImmediateOp::J | ImmediateOp::Jal | ImmediateOp::Jalx =>
                fails(p0, p1, m0, m1, r, pregs(p0), "Jump operation called with IType arguments"@),
            ImmediateOp::Beq => beq_effect(p0, p1, m0, m1, i, r),
            ImmediateOp::Bne => bne_effect(p0, p1, m0, m1, i, r),
            ImmediateOp::Blez => blez_effect(p0, p1, m0, m1, i, r),
            ImmediateOp::Bgtz => bgtz_effect(p0, p1, m0, m1, i, r),
            ImmediateOp::Lb => lb_effect(p0, p1, m0, m1, i, r),
            ImmediateOp::Lw => lw_effect(p0, p1, m0, m1, i, r),
            ImmediateOp::Sb => sb_effect(p0, p1, m0, m1, i, r),
            ImmediateOp::Sw => sw_effect(p0, p1, m0, m1, i, r),
            _ => m1 == m0 && match i.opcode {
                ImmediateOp::Addi => addi_effect(p0, p1, i, r),
                ImmediateOp::Addiu => addiu_effect(p0, p1, i, r),
                ImmediateOp::Slti => slti_effect(p0, p1, i, r),
                ImmediateOp::Sltiu => sltiu_effect(p0, p1, i, r),
                ImmediateOp::Andi => andi_effect(p0, p1, i, r),
                ImmediateOp::Ori => ori_effect(p0, p1, i, r),
                ImmediateOp::Xori => xori_effect(p0, p1, i, r),
                ImmediateOp::Lui => lui_effect(p0, p1, i, r),
                _ => false,
            },
        },
{
}

/// Executing a jump-form instruction does exactly what `j` or `jal` does; any
/// other operation is refused with the state unchanged.
pub proof fn lemma_jump_dispatch(p0: Processor, p1: Processor, m0: Memory, m1: Memory, j: Jump,
    r: Result<ExecutionStatus, String>)
    ensures
        jump_effect(p0, p1, m0, m1, j, r) <==> match j.opcode {
            ImmediateOp::J => j_effect(p0, p1, m0, m1, j, r),
            ImmediateOp::Jal => jal_effect(p0, p1, m0, m1, j, r),
            _ => fails(p0, p1, m0, m1, r, pregs(p0), "Operation does not take jump arguments"@),
        },
{
}

/// A word loaded by `lw` from the address that an `sw` just stored to is the
/// word that was stored.
pub proof fn lemma_load_after_store(p0: Processor, p1: Processor, p2: Processor, m0: Memory, m1: Memory, m2: Memory,
    store: Immediate, load: Immediate, r1: Result<ExecutionStatus, String>, r2: Result<ExecutionStatus, String>)
    requires
        mem_address(p0, store) - m0.data_start + 4 <= m0.data@.len(),
        sw_effect(p0, p1, m0, m1, store, r1),
        r1 is Ok,
        lw_effect(p1, p2, m1, m2, load, r2),
        mem_address(p1, load) == mem_address(p0, store),
    ensures
        r2 is Ok,
        reg_val(p2, load.rt) == reg_val(p0, store.rt),
{
    let a = mem_address(p0, store);
    let k = a - m0.data_start;
    let v = reg_val(p0, store.rt);
    crate::words::lemma_word_roundtrip(v);
    assert(m1.data@[k] == be_bytes_u32(v)[0]);
    assert(m1.data@[k + 1] == be_bytes_u32(v)[1]);
    assert(m1.data@[k + 2] == be_bytes_u32(v)[2]);
    assert(m1.data@[k + 3] == be_bytes_u32(v)[3]);
    assert(word_at(m1.data@, k) == v);
    assert(load.rt.reg_index() < 32);
    vstd::array::array_len_matches_n(&p1.general_purpose_registers);
}


/// `jalr` with rd other than `$zero` saves the return address in rd and leaves
/// every other register, `$ra` included, as it was; with rd `$zero` it saves it
/// in `$ra` (register 31).
pub proof fn lemma_jalr_link_register(p0: Processor, p1: Processor, m0: Memory, m1: Memory, rargs: Special,
    r: Result<ExecutionStatus, String>)
    requires
        jalr_effect(p0, p1, m0, m1, rargs, r),
        r is Ok,
    ensures
        ({
            let rd = rargs.rd.reg_index() as int;
            &&& rd != 0 ==> pregs(p1)[rd] == p0.pc
                && forall|i: int| 0 <= i < 32 && i != rd ==> #[trigger] pregs(p1)[i] == pregs(p0)[i]
            &&& rd == 0 ==> pregs(p1)[31] == p0.pc
                && forall|i: int| 0 <= i < 31 ==> #[trigger] pregs(p1)[i] == pregs(p0)[i]
        }),
{
    crate::structs::lemma_register_index(rargs.rd, 0);
    vstd::array::array_len_matches_n(&p0.general_purpose_registers);
}

/// A taken branch that stays in .text moves the counter to `pc + 4 * imm`,
/// the immediate read as a signed 16-bit number.
pub proof fn lemma_taken_branch_target(p0: Processor, p1: Processor, m0: Memory, m1: Memory,
    r: Result<ExecutionStatus, String>, imm: u32)
    requires
        branch_effect(p0, p1, m0, m1, r, true, imm),
        r is Ok,
        i32::MIN <= (p0.pc as i32) as int + 4 * ((imm as u16) as i16) as int <= i32::MAX,
    ensures
        p1.pc == ((p0.pc as i32) as int + 4 * ((imm as u16) as i16) as int) as u32,
{
}

} // verus!
