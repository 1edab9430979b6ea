//! The emulator's instructions run straight from their raw words: each takes
//! its fields from the word (see `decode`) and acts on the processor and memory.
//! The branch routines here only check their target; `bgtz` alone moves the
//! counter.
use vstd::prelude::*;

use crate::decode::{decode, decode_message, unpack_i_type, unpack_j_type, unpack_r_type, word_op, WordOp};
use crate::instruction::{imm_of, lemma_field_bounds, rd_of, rs_of, rt_of, shamt_of, target_of};
use crate::processor::{
    access_error, access_message, alignment_error, alignment_message, fails, goes_to, jump_error, jump_message,
    ok_regs, owns_data, owns_text, pregs, region_target, same_bounds, sets, syscall_effect, target_fits,
    taken_target, word_access_error, word_access_message, word_outside, ExecutionStatus, Processor,
};
use crate::structs::Memory;
use crate::implementation::write_word_be;
use crate::text::{append_radix, dec_chars, hex_chars};
use crate::words::{be_bytes_u32, lemma_word_roundtrip, read_word_be, sext16, sign_extend16, word_at};

verus! {

/// The value of register `i` of `p`.
pub open spec fn rv(p: Processor, i: u32) -> u32 {
    pregs(p)[i as int]
}

/// The address a load or store of word `w` reaches: rs plus the immediate, not extended.
pub open spec fn word_address(p: Processor, w: u32) -> u32 {
    ((rv(p, rs_of(w)) as i32) + (imm_of(w) as i32)) as u32
}

/// Whether that address computation stays within a signed word.
pub open spec fn word_address_fits(p: Processor, w: u32) -> bool {
    i32::MIN <= (rv(p, rs_of(w)) as i32) + (imm_of(w) as i32) <= i32::MAX
}

/// The effect of `sll` on word `w`.
pub open spec fn sll_effect(p0: Processor, p1: Processor, m0: Memory, m1: Memory, w: u32, r: Result<ExecutionStatus, String>) -> bool {
    &&& m1 == m0
    &&& sets(p0, p1, r, rd_of(w) as int, rv(p0, rt_of(w)) << shamt_of(w))
}

// 0x00 - sll
/// rd = rt shifted left by shamt.
pub fn sll(cpu: &mut Processor, memory: &mut Memory, instruction: u32) -> (r: Result<ExecutionStatus, String>)
    ensures
        sll_effect(*old(cpu), *final(cpu), *old(memory), *final(memory), instruction, r),
{
    let (rd, _, rt, shamt) = unpack_r_type(instruction);
    cpu.general_purpose_registers[rd] = cpu.general_purpose_registers[rt] << shamt;
    Ok(ExecutionStatus::Continue)
}

/// The effect of `srl` on word `w`.
pub open spec fn srl_effect(p0: Processor, p1: Processor, m0: Memory, m1: Memory, w: u32, r: Result<ExecutionStatus, String>) -> bool {
    &&& m1 == m0
    &&& sets(p0, p1, r, rd_of(w) as int, rv(p0, rt_of(w)) >> shamt_of(w))
}

// 0x02 - srl
/// rd = rt shifted right by shamt, zeros coming in.
pub fn srl(cpu: &mut Processor, memory: &mut Memory, instruction: u32) -> (r: Result<ExecutionStatus, String>)
    ensures
        srl_effect(*old(cpu), *final(cpu), *old(memory), *final(memory), instruction, r),
{
    let (rd, _, rt, shamt) = unpack_r_type(instruction);
    cpu.general_purpose_registers[rd] = cpu.general_purpose_registers[rt] >> shamt;
    Ok(ExecutionStatus::Continue)
}

/// The effect of `jr` on word `w`.
pub open spec fn jr_effect(p0: Processor, p1: Processor, m0: Memory, m1: Memory, w: u32, r: Result<ExecutionStatus, String>) -> bool {
    let t = rv(p0, rd_of(w));
    if owns_text(m0, t) {
        goes_to(p0, p1, m0, m1, r, t, pregs(p0))
    } else {
        fails(p0, p1, m0, m1, r, pregs(p0), jump_message(t))
    }
}

// 0x08 - jr
/// Jumps to the address held in the register that the first unpacked field
/// names (bits 11..16 of the word), which must lie in .text.
pub fn jr(cpu: &mut Processor, memory: &mut Memory, instruction: u32) -> (r: Result<ExecutionStatus, String>)
    ensures
        jr_effect(*old(cpu), *final(cpu), *old(memory), *final(memory), instruction, r),
{
    let (reg, _, _, _) = unpack_r_type(instruction);
    let target = cpu.general_purpose_registers[reg];
    if target >= memory.text_end || target < memory.text_start {
        return Err(jump_error(target));
    }
    cpu.pc = target;
    Ok(ExecutionStatus::Continue)
}

/// The effect of `jalr` on word `w`.
pub open spec fn jalr_effect(p0: Processor, p1: Processor, m0: Memory, m1: Memory, w: u32, r: Result<ExecutionStatus, String>) -> bool {
    let t = rv(p0, rd_of(w));
    let regs = pregs(p0).update(31, p0.pc);
    if owns_text(m0, t) {
        goes_to(p0, p1, m0, m1, r, regs[rd_of(w) as int], regs)
    } else {
        fails(p0, p1, m0, m1, r, pregs(p0), jump_message(t))
    }
}

// 0x09 - jalr
/// Jumps like `jr` (the register named by bits 11..16), after saving the
/// return address in `$ra`; the register is read after that save.
pub fn jalr(cpu: &mut Processor, memory: &mut Memory, instruction: u32) -> (r: Result<ExecutionStatus, String>)
    ensures
        jalr_effect(*old(cpu), *final(cpu), *old(memory), *final(memory), instruction, r),
{
    let (reg, _, _, _) = unpack_r_type(instruction);
    let target = cpu.general_purpose_registers[reg];
    if target >= memory.text_end || target < memory.text_start {
        return Err(jump_error(target));
    }
    cpu.general_purpose_registers[31] = cpu.pc;
    cpu.pc = cpu.general_purpose_registers[reg];
    Ok(ExecutionStatus::Continue)
}

// 0x0C - syscall
/// Performs the syscall whose number is in `$v0` (see `Processor::syscall`).
pub fn syscall(cpu: &mut Processor, memory: &mut Memory, _instruction: u32, out: &mut Vec<u8>) -> (r: Result<ExecutionStatus, String>)
    requires
        pregs(*old(cpu))[2] < 64,
    ensures
        syscall_effect(*old(cpu), *final(cpu), *old(memory), *final(memory), old(out)@, final(out)@, r),
{
    cpu.syscall(memory, out)
}

/// The effect of `add` on word `w`.
pub open spec fn add_effect(p0: Processor, p1: Processor, m0: Memory, m1: Memory, w: u32, r: Result<ExecutionStatus, String>) -> bool {
    &&& m1 == m0
    &&& sets(p0, p1, r, rd_of(w) as int,
        (rv(p0, rs_of(w)) + rv(p0, rt_of(w))) as u32)
}

/// What `add` needs of the state and word `w`.
pub open spec fn add_ready(p0: Processor, m0: Memory, w: u32) -> bool {
    &&& rv(p0, rs_of(w)) + rv(p0, rt_of(w)) <= u32::MAX
}

// 0x20 - add
/// rd = rs + rt; a sum past a word is outside what this accepts.
pub fn add(cpu: &mut Processor, memory: &mut Memory, instruction: u32) -> (r: Result<ExecutionStatus, String>)
    requires
        add_ready(*old(cpu), *old(memory), instruction),
    ensures
        add_effect(*old(cpu), *final(cpu), *old(memory), *final(memory), instruction, r),
{
    let (rd, rs, rt, _) = unpack_r_type(instruction);
    cpu.general_purpose_registers[rd] = cpu.general_purpose_registers[rs] + cpu.general_purpose_registers[rt];
    Ok(ExecutionStatus::Continue)
}

/// The effect of `addu` on word `w`.
pub open spec fn addu_effect(p0: Processor, p1: Processor, m0: Memory, m1: Memory, w: u32, r: Result<ExecutionStatus, String>) -> bool {
    &&& m1 == m0
    &&& sets(p0, p1, r, rd_of(w) as int,
        vstd::wrapping::u32_specs::wrapping_add(rv(p0, rs_of(w)), rv(p0, rt_of(w))))
}

// 0x21 - addu
/// rd = rs + rt, wrapping.
pub fn addu(cpu: &mut Processor, memory: &mut Memory, instruction: u32) -> (r: Result<ExecutionStatus, String>)
    ensures
        addu_effect(*old(cpu), *final(cpu), *old(memory), *final(memory), instruction, r),
{
    let (rd, rs, rt, _) = unpack_r_type(instruction);
    cpu.general_purpose_registers[rd] = cpu.general_purpose_registers[rs].wrapping_add(cpu.general_purpose_registers[rt]);
    Ok(ExecutionStatus::Continue)
}

/// The effect of `sub` on word `w`.
pub open spec fn sub_effect(p0: Processor, p1: Processor, m0: Memory, m1: Memory, w: u32, r: Result<ExecutionStatus, String>) -> bool {
    &&& m1 == m0
    &&& ({
        let a = rv(p0, rs_of(w));
        let b = rv(p0, rt_of(w));
        let d = vstd::wrapping::u32_specs::wrapping_sub(a, b);
        if a < b {
            &&& r matches Err(m) && m@ == "Integer underflow occurred in subtraction."@
            &&& pregs(p1) == pregs(p0).update(1, d)
            &&& p1.pc == p0.pc
        } else {
            ok_regs(p0, p1, r, pregs(p0).update(1, d).update(rd_of(w) as int, d))
        }
    })
}

// 0x22 - sub
/// rd = rs - rt, through `$at`; when rt exceeds rs the difference wraps into
/// `$at` and the step fails.
pub fn sub(cpu: &mut Processor, memory: &mut Memory, instruction: u32) -> (r: Result<ExecutionStatus, String>)
    ensures
        sub_effect(*old(cpu), *final(cpu), *old(memory), *final(memory), instruction, r),
{
    let (rd, rs, rt, _) = unpack_r_type(instruction);
    let a = cpu.general_purpose_registers[rs];
    let b = cpu.general_purpose_registers[rt];
    cpu.general_purpose_registers[1] = a.wrapping_sub(b);
    if a < b {
        proof { reveal_strlit("Integer underflow occurred in subtraction."); }
        return Err("Integer underflow occurred in subtraction.".to_string());
    }
    cpu.general_purpose_registers[rd] = cpu.general_purpose_registers[1];
    Ok(ExecutionStatus::Continue)
}

/// The effect of `and` on word `w`.
pub open spec fn and_effect(p0: Processor, p1: Processor, m0: Memory, m1: Memory, w: u32, r: Result<ExecutionStatus, String>) -> bool {
    &&& m1 == m0
    &&& sets(p0, p1, r, rd_of(w) as int, rv(p0, rs_of(w)) & rv(p0, rt_of(w)))
}

// 0x24 - and
/// rd = rs & rt.
pub fn and(cpu: &mut Processor, memory: &mut Memory, instruction: u32) -> (r: Result<ExecutionStatus, String>)
    ensures
        and_effect(*old(cpu), *final(cpu), *old(memory), *final(memory), instruction, r),
{
    let (rd, rs, rt, _) = unpack_r_type(instruction);
    cpu.general_purpose_registers[rd] = cpu.general_purpose_registers[rs] & cpu.general_purpose_registers[rt];
    Ok(ExecutionStatus::Continue)
}

/// The effect of `or` on word `w`.
pub open spec fn or_effect(p0: Processor, p1: Processor, m0: Memory, m1: Memory, w: u32, r: Result<ExecutionStatus, String>) -> bool {
    &&& m1 == m0
    &&& sets(p0, p1, r, rd_of(w) as int, rv(p0, rs_of(w)) | rv(p0, rt_of(w)))
}

// 0x25 - or
/// rd = rs | rt.
pub fn or(cpu: &mut Processor, memory: &mut Memory, instruction: u32) -> (r: Result<ExecutionStatus, String>)
    ensures
        or_effect(*old(cpu), *final(cpu), *old(memory), *final(memory), instruction, r),
{
    let (rd, rs, rt, _) = unpack_r_type(instruction);
    cpu.general_purpose_registers[rd] = cpu.general_purpose_registers[rs] | cpu.general_purpose_registers[rt];
    Ok(ExecutionStatus::Continue)
}

/// The effect of `xor` on word `w`.
pub open spec fn xor_effect(p0: Processor, p1: Processor, m0: Memory, m1: Memory, w: u32, r: Result<ExecutionStatus, String>) -> bool {
    &&& m1 == m0
    &&& sets(p0, p1, r, rd_of(w) as int, rv(p0, rs_of(w)) ^ rv(p0, rt_of(w)))
}

// 0x26 - xor
/// rd = rs ^ rt.
pub fn xor(cpu: &mut Processor, memory: &mut Memory, instruction: u32) -> (r: Result<ExecutionStatus, String>)
    ensures
        xor_effect(*old(cpu), *final(cpu), *old(memory), *final(memory), instruction, r),
{
    let (rd, rs, rt, _) = unpack_r_type(instruction);
    cpu.general_purpose_registers[rd] = cpu.general_purpose_registers[rs] ^ cpu.general_purpose_registers[rt];
    Ok(ExecutionStatus::Continue)
}

/// The effect of `nor` on word `w`.
pub open spec fn nor_effect(p0: Processor, p1: Processor, m0: Memory, m1: Memory, w: u32, r: Result<ExecutionStatus, String>) -> bool {
    &&& m1 == m0
    &&& sets(p0, p1, r, rd_of(w) as int, !(rv(p0, rs_of(w)) | rv(p0, rt_of(w))))
}

// 0x27 - nor
/// rd = !(rs | rt).
pub fn nor(cpu: &mut Processor, memory: &mut Memory, instruction: u32) -> (r: Result<ExecutionStatus, String>)
    ensures
        nor_effect(*old(cpu), *final(cpu), *old(memory), *final(memory), instruction, r),
{
    let (rd, rs, rt, _) = unpack_r_type(instruction);
    cpu.general_purpose_registers[rd] = !(cpu.general_purpose_registers[rs] | cpu.general_purpose_registers[rt]);
    Ok(ExecutionStatus::Continue)
}

/// The effect of `slt` on word `w`.
pub open spec fn slt_effect(p0: Processor, p1: Processor, m0: Memory, m1: Memory, w: u32, r: Result<ExecutionStatus, String>) -> bool {
    &&& m1 == m0
    &&& sets(p0, p1, r, rd_of(w) as int,
        if (rv(p0, rs_of(w)) as i32) < (rv(p0, rt_of(w)) as i32) { 1u32 } else { 0u32 })
}

// 0x2A - slt
/// rd = 1 when rs < rt, compared as signed words, else 0.
pub fn slt(cpu: &mut Processor, memory: &mut Memory, instruction: u32) -> (r: Result<ExecutionStatus, String>)
    ensures
        slt_effect(*old(cpu), *final(cpu), *old(memory), *final(memory), instruction, r),
{
    let (rd, rs, rt, _) = unpack_r_type(instruction);
    if (cpu.general_purpose_registers[rs] as i32) < (cpu.general_purpose_registers[rt] as i32) {
        cpu.general_purpose_registers[rd] = 1;
    } else {
        cpu.general_purpose_registers[rd] = 0;
    }
    Ok(ExecutionStatus::Continue)
}

/// The effect of `j` on word `w`.
pub open spec fn j_effect(p0: Processor, p1: Processor, m0: Memory, m1: Memory, w: u32, r: Result<ExecutionStatus, String>) -> bool {
    let t = region_target(p0.pc, target_of(w));
    if owns_text(m0, t) {
        goes_to(p0, p1, m0, m1, r, t, pregs(p0))
    } else {
        fails(p0, p1, m0, m1, r, pregs(p0), jump_message(t))
    }
}

// 0x02 - j
/// Jumps within the current 256 MB region; the target must lie in .text.
pub fn j(cpu: &mut Processor, memory: &mut Memory, instruction: u32) -> (r: Result<ExecutionStatus, String>)
    ensures
        j_effect(*old(cpu), *final(cpu), *old(memory), *final(memory), instruction, r),
{
    let address: u32 = (unpack_j_type(instruction) << 2) | (cpu.pc & 0xF0000000);
    if address >= memory.text_end || address < memory.text_start {
        return Err(jump_error(address));
    }
    cpu.pc = address;
    Ok(ExecutionStatus::Continue)
}

/// The effect of `jal` on word `w`.
pub open spec fn jal_effect(p0: Processor, p1: Processor, m0: Memory, m1: Memory, w: u32, r: Result<ExecutionStatus, String>) -> bool {
    let t = region_target(p0.pc, target_of(w));
    if owns_text(m0, t) {
        goes_to(p0, p1, m0, m1, r, t, pregs(p0).update(31, p0.pc))
    } else {
        fails(p0, p1, m0, m1, r, pregs(p0), jump_message(t))
    }
}

// 0x03 - jal
/// Like `j`, saving the return address in `$ra`.
pub fn jal(cpu: &mut Processor, memory: &mut Memory, instruction: u32) -> (r: Result<ExecutionStatus, String>)
    ensures
        jal_effect(*old(cpu), *final(cpu), *old(memory), *final(memory), instruction, r),
{
    let address: u32 = (unpack_j_type(instruction) << 2) | (cpu.pc & 0xF0000000);
    if address >= memory.text_end || address < memory.text_start {
        return Err(jump_error(address));
    }
    cpu.general_purpose_registers[31] = cpu.pc;
    cpu.pc = address;
    Ok(ExecutionStatus::Continue)
}

/// The word `pc + 4 * sext(imm)` that a branch of `w` would reach.
pub open spec fn branch_target(p: Processor, w: u32) -> u32 {
    taken_target(p.pc, imm_of(w))
}

/// The effect of `beq` on word `w`.
pub open spec fn beq_effect(p0: Processor, p1: Processor, m0: Memory, m1: Memory, w: u32, r: Result<ExecutionStatus, String>) -> bool {
    let t = branch_target(p0, w);
    if rv(p0, rs_of(w)) != rv(p0, rt_of(w)) {
        goes_to(p0, p1, m0, m1, r, p0.pc, pregs(p0))
    } else if owns_text(m0, t) {
        goes_to(p0, p1, m0, m1, r, p0.pc, pregs(p0).update(1, t))
    } else {
        fails(p0, p1, m0, m1, r, pregs(p0).update(1, t), access_message(t))
    }
}

/// What `beq` needs of the state and word `w`.
pub open spec fn beq_ready(p0: Processor, m0: Memory, w: u32) -> bool {
    &&& rv(p0, rs_of(w)) == rv(p0, rt_of(w)) ==> target_fits(p0.pc, imm_of(w))
}

// 0x04 - beq
/// When rs == rt, puts the branch target in `$at` and checks that it lies in
/// .text; the counter does not move either way.
pub fn beq(cpu: &mut Processor, memory: &mut Memory, instruction: u32) -> (r: Result<ExecutionStatus, String>)
    requires
        beq_ready(*old(cpu), *old(memory), instruction),
    ensures
        beq_effect(*old(cpu), *final(cpu), *old(memory), *final(memory), instruction, r),
{
    let (rs, rt, imm) = unpack_i_type(instruction);
    let offset: i32 = sign_extend16(imm) * 4;
    if cpu.general_purpose_registers[rs] != cpu.general_purpose_registers[rt] {
        return Ok(ExecutionStatus::Continue);
    }
    let target = (cpu.pc as i32 + offset) as u32;
    cpu.general_purpose_registers[1] = target;
    if target >= memory.text_end || target < memory.text_start {
        return Err(access_error(target));
    }
    Ok(ExecutionStatus::Continue)
}

/// The effect of `bne` on word `w`.
pub open spec fn bne_effect(p0: Processor, p1: Processor, m0: Memory, m1: Memory, w: u32, r: Result<ExecutionStatus, String>) -> bool {
    let t = branch_target(p0, w);
    if rv(p0, rs_of(w)) == rv(p0, rt_of(w)) || owns_text(m0, t) {
        goes_to(p0, p1, m0, m1, r, p0.pc, pregs(p0))
    } else {
        fails(p0, p1, m0, m1, r, pregs(p0), access_message(t))
    }
}

/// What `bne` needs of the state and word `w`.
pub open spec fn bne_ready(p0: Processor, m0: Memory, w: u32) -> bool {
    &&& rv(p0, rs_of(w)) != rv(p0, rt_of(w)) ==> target_fits(p0.pc, imm_of(w))
}

// 0x05 - bne
/// When rs != rt, checks that the branch target lies in .text; the counter
/// does not move either way.
pub fn bne(cpu: &mut Processor, memory: &mut Memory, instruction: u32) -> (r: Result<ExecutionStatus, String>)
    requires
        bne_ready(*old(cpu), *old(memory), instruction),
    ensures
        bne_effect(*old(cpu), *final(cpu), *old(memory), *final(memory), instruction, r),
{
    let (rs, rt, imm) = unpack_i_type(instruction);
    let offset: i32 = sign_extend16(imm) * 4;
    if cpu.general_purpose_registers[rs] == cpu.general_purpose_registers[rt] {
        return Ok(ExecutionStatus::Continue);
    }
    let target = (cpu.pc as i32 + offset) as u32;
    if target >= memory.text_end || target < memory.text_start {
        return Err(access_error(target));
    }
    Ok(ExecutionStatus::Continue)
}

/// The effect of `blez` on word `w`.
pub open spec fn blez_effect(p0: Processor, p1: Processor, m0: Memory, m1: Memory, w: u32, r: Result<ExecutionStatus, String>) -> bool {
    let t = branch_target(p0, w);
    if (rv(p0, rs_of(w)) as i32) > 0 || owns_text(m0, t) {
        goes_to(p0, p1, m0, m1, r, p0.pc, pregs(p0))
    } else {
        fails(p0, p1, m0, m1, r, pregs(p0), access_message(t))
    }
}

/// What `blez` needs of the state and word `w`.
pub open spec fn blez_ready(p0: Processor, m0: Memory, w: u32) -> bool {
    &&& (rv(p0, rs_of(w)) as i32) <= 0 ==> target_fits(p0.pc, imm_of(w))
}

// 0x06 - blez
/// When rs is at most zero (as a signed word), checks that the branch target
/// lies in .text; the counter does not move either way.
pub fn blez(cpu: &mut Processor, memory: &mut Memory, instruction: u32) -> (r: Result<ExecutionStatus, String>)
    requires
        blez_ready(*old(cpu), *old(memory), instruction),
    ensures
        blez_effect(*old(cpu), *final(cpu), *old(memory), *final(memory), instruction, r),
{
    let (rs, _, imm) = unpack_i_type(instruction);
    let offset: i32 = sign_extend16(imm) * 4;
    if (cpu.general_purpose_registers[rs] as i32) > 0 {
        return Ok(ExecutionStatus::Continue);
    }
    let target = (cpu.pc as i32 + offset) as u32;
    if target >= memory.text_end || target < memory.text_start {
        return Err(access_error(target));
    }
    Ok(ExecutionStatus::Continue)
}

/// The effect of `bgtz` on word `w`.
pub open spec fn bgtz_effect(p0: Processor, p1: Processor, m0: Memory, m1: Memory, w: u32, r: Result<ExecutionStatus, String>) -> bool {
    let t = branch_target(p0, w);
    if (rv(p0, rs_of(w)) as i32) <= 0 {
        goes_to(p0, p1, m0, m1, r, p0.pc, pregs(p0))
    } else if owns_text(m0, t) {
        goes_to(p0, p1, m0, m1, r, t, pregs(p0))
    } else {
        fails(p0, p1, m0, m1, r, pregs(p0), access_message(t))
    }
}

/// What `bgtz` needs of the state and word `w`.
pub open spec fn bgtz_ready(p0: Processor, m0: Memory, w: u32) -> bool {
    &&& (rv(p0, rs_of(w)) as i32) > 0 ==> target_fits(p0.pc, imm_of(w))
}

// 0x07 - bgtz
/// When rs is above zero (as a signed word), moves the counter to the branch
/// target, which must lie in .text.
pub fn bgtz(cpu: &mut Processor, memory: &mut Memory, instruction: u32) -> (r: Result<ExecutionStatus, String>)
    requires
        bgtz_ready(*old(cpu), *old(memory), instruction),
    ensures
        bgtz_effect(*old(cpu), *final(cpu), *old(memory), *final(memory), instruction, r),
{
    let (rs, _, imm) = unpack_i_type(instruction);
    let offset: i32 = sign_extend16(imm) * 4;
    if (cpu.general_purpose_registers[rs] as i32) <= 0 {
        return Ok(ExecutionStatus::Continue);
    }
    let target = (cpu.pc as i32 + offset) as u32;
    if target >= memory.text_end || target < memory.text_start {
        return Err(access_error(target));
    }
    cpu.pc = target;
    Ok(ExecutionStatus::Continue)
}

/// The effect of `addi` on word `w`.
pub open spec fn addi_effect(p0: Processor, p1: Processor, m0: Memory, m1: Memory, w: u32, r: Result<ExecutionStatus, String>) -> bool {
    &&& m1 == m0
    &&& sets(p0, p1, r, rt_of(w) as int,
        ((rv(p0, rs_of(w)) as i32) + sext16(imm_of(w))) as u32)
}

/// What `addi` needs of the state and word `w`.
pub open spec fn addi_ready(p0: Processor, m0: Memory, w: u32) -> bool {
    &&& i32::MIN <= (rv(p0, rs_of(w)) as i32) + sext16(imm_of(w)) <= i32::MAX
}

// 0x08 - addi
/// rt = rs + the sign-extended immediate, as signed words; a signed overflow
/// is outside what this accepts.
pub fn addi(cpu: &mut Processor, memory: &mut Memory, instruction: u32) -> (r: Result<ExecutionStatus, String>)
    requires
        addi_ready(*old(cpu), *old(memory), instruction),
    ensures
        addi_effect(*old(cpu), *final(cpu), *old(memory), *final(memory), instruction, r),
{
    let (rs, rt, imm) = unpack_i_type(instruction);
    let v = (cpu.general_purpose_registers[rs] as i32 + sign_extend16(imm)) as u32;
    cpu.general_purpose_registers[rt] = v;
    Ok(ExecutionStatus::Continue)
}

/// The effect of `addiu` on word `w`.
pub open spec fn addiu_effect(p0: Processor, p1: Processor, m0: Memory, m1: Memory, w: u32, r: Result<ExecutionStatus, String>) -> bool {
    &&& m1 == m0
    &&& sets(p0, p1, r, rt_of(w) as int,
        vstd::wrapping::u32_specs::wrapping_add(rv(p0, rs_of(w)), imm_of(w)))
}

// 0x09 - addiu
/// rt = rs + the immediate (not sign-extended), wrapping.
pub fn addiu(cpu: &mut Processor, memory: &mut Memory, instruction: u32) -> (r: Result<ExecutionStatus, String>)
    ensures
        addiu_effect(*old(cpu), *final(cpu), *old(memory), *final(memory), instruction, r),
{
    let (rs, rt, imm) = unpack_i_type(instruction);
    let v = cpu.general_purpose_registers[rs].wrapping_add(imm);
    cpu.general_purpose_registers[rt] = v;
    Ok(ExecutionStatus::Continue)
}

/// The effect of `andi` on word `w`.
pub open spec fn andi_effect(p0: Processor, p1: Processor, m0: Memory, m1: Memory, w: u32, r: Result<ExecutionStatus, String>) -> bool {
    &&& m1 == m0
    &&& sets(p0, p1, r, rt_of(w) as int, rv(p0, rs_of(w)) & imm_of(w))
}

// 0x0C - andi
/// rt = rs & imm.
pub fn andi(cpu: &mut Processor, memory: &mut Memory, instruction: u32) -> (r: Result<ExecutionStatus, String>)
    ensures
        andi_effect(*old(cpu), *final(cpu), *old(memory), *final(memory), instruction, r),
{
    let (rs, rt, imm) = unpack_i_type(instruction);
    let v = cpu.general_purpose_registers[rs] & imm;
    cpu.general_purpose_registers[rt] = v;
    Ok(ExecutionStatus::Continue)
}

/// The effect of `ori` on word `w`.
pub open spec fn ori_effect(p0: Processor, p1: Processor, m0: Memory, m1: Memory, w: u32, r: Result<ExecutionStatus, String>) -> bool {
    &&& m1 == m0
    &&& sets(p0, p1, r, rt_of(w) as int, rv(p0, rs_of(w)) | imm_of(w))
}

// 0x0D - ori
/// rt = rs | imm.
pub fn ori(cpu: &mut Processor, memory: &mut Memory, instruction: u32) -> (r: Result<ExecutionStatus, String>)
    ensures
        ori_effect(*old(cpu), *final(cpu), *old(memory), *final(memory), instruction, r),
{
    let (rs, rt, imm) = unpack_i_type(instruction);
    let v = cpu.general_purpose_registers[rs] | imm;
    cpu.general_purpose_registers[rt] = v;
    Ok(ExecutionStatus::Continue)
}

/// The effect of `lui` on word `w`.
pub open spec fn lui_effect(p0: Processor, p1: Processor, m0: Memory, m1: Memory, w: u32, r: Result<ExecutionStatus, String>) -> bool {
    &&& m1 == m0
    &&& sets(p0, p1, r, rt_of(w) as int, imm_of(w) << 16)
}

// 0x0F - lui
/// rt = imm in the upper half of the word.
pub fn lui(cpu: &mut Processor, memory: &mut Memory, instruction: u32) -> (r: Result<ExecutionStatus, String>)
    ensures
        lui_effect(*old(cpu), *final(cpu), *old(memory), *final(memory), instruction, r),
{
    let (_, rt, imm) = unpack_i_type(instruction);
    cpu.general_purpose_registers[rt] = imm << 16;
    Ok(ExecutionStatus::Continue)
}

/// The effect of `lb` on word `w`.
pub open spec fn lb_effect(p0: Processor, p1: Processor, m0: Memory, m1: Memory, w: u32, r: Result<ExecutionStatus, String>) -> bool {
    let a = word_address(p0, w);
    &&& m1 == m0
    &&& if owns_data(m0, a) {
        ok_regs(p0, p1, r, pregs(p0).update(1, a).update(rt_of(w) as int, m0.data@[a - m0.data_start] as u32))
    } else {
        fails(p0, p1, m0, m1, r, pregs(p0).update(1, a), access_message(a))
    }
}

/// What `lb` needs of the state and word `w`.
pub open spec fn lb_ready(p0: Processor, m0: Memory, w: u32) -> bool {
    &&& m0.data_wf()
    &&& word_address_fits(p0, w)
}

// 0x20 - lb
/// Puts rs + imm in `$at`, then loads the byte there, which must lie in
/// .data, into rt (zero-extended).
pub fn lb(cpu: &mut Processor, memory: &mut Memory, instruction: u32) -> (r: Result<ExecutionStatus, String>)
    requires
        lb_ready(*old(cpu), *old(memory), instruction),
    ensures
        lb_effect(*old(cpu), *final(cpu), *old(memory), *final(memory), instruction, r),
{
    let (rs, rt, imm) = unpack_i_type(instruction);
    let a = (cpu.general_purpose_registers[rs] as i32 + imm as i32) as u32;
    cpu.general_purpose_registers[1] = a;
    if a >= memory.data_end || a < memory.data_start {
        return Err(access_error(a));
    }
    let v = memory.data[(a - memory.data_start) as usize] as u32;
    cpu.general_purpose_registers[rt] = v;
    Ok(ExecutionStatus::Continue)
}

/// The effect of `lw` on word `w`.
pub open spec fn lw_effect(p0: Processor, p1: Processor, m0: Memory, m1: Memory, w: u32, r: Result<ExecutionStatus, String>) -> bool {
    let a = word_address(p0, w);
    if a % 4 != 0 {
        fails(p0, p1, m0, m1, r, pregs(p0), alignment_message(a))
    } else if word_outside(m0, a) {
        fails(p0, p1, m0, m1, r, pregs(p0), word_access_message(a))
    } else {
        &&& sets(p0, p1, r, rt_of(w) as int, word_at(m0.data@, a - m0.data_start))
        &&& m1 == m0
    }
}

/// What `lw` needs of the state and word `w`.
pub open spec fn lw_ready(p0: Processor, m0: Memory, w: u32) -> bool {
    &&& m0.data_wf()
    &&& word_address_fits(p0, w)
    &&& word_address(p0, w) % 4 == 0 ==> word_address(p0, w) + 4 <= u32::MAX
}

// 0x23 - lw
/// rt = the big-endian word at rs + imm, which must be aligned and lie in .data.
pub fn lw(cpu: &mut Processor, memory: &mut Memory, instruction: u32) -> (r: Result<ExecutionStatus, String>)
    requires
        lw_ready(*old(cpu), *old(memory), instruction),
    ensures
        lw_effect(*old(cpu), *final(cpu), *old(memory), *final(memory), instruction, r),
{
    let (rs, rt, imm) = unpack_i_type(instruction);
    let temp = (cpu.general_purpose_registers[rs] as i32 + imm as i32) as u32;
    if temp % 4 != 0 {
        return Err(alignment_error(temp));
    }
    if temp + 4 >= memory.data_end || temp < memory.data_start {
        return Err(word_access_error(temp));
    }
    let start_idx: usize = (temp - memory.data_start) as usize;
    let v = read_word_be(&memory.data, start_idx);
    cpu.general_purpose_registers[rt] = v;
    Ok(ExecutionStatus::Continue)
}

/// The effect of `sw` on word `w`.
pub open spec fn sw_effect(p0: Processor, p1: Processor, m0: Memory, m1: Memory, w: u32, r: Result<ExecutionStatus, String>) -> bool {
    let a = word_address(p0, w);
    if a % 4 != 0 {
        fails(p0, p1, m0, m1, r, pregs(p0), alignment_message(a))
    } else if word_outside(m0, a) {
        fails(p0, p1, m0, m1, r, pregs(p0), word_access_message(a))
    } else {
        let k = a - m0.data_start;
        let w = be_bytes_u32(rv(p0, rt_of(w)));
        &&& r == Ok::<ExecutionStatus, String>(ExecutionStatus::Continue)
        &&& p1 == p0
        &&& m1.data@ == m0.data@.update(k, w[0]).update(k + 1, w[1]).update(k + 2, w[2]).update(k + 3, w[3])
        &&& m1.text == m0.text
        &&& same_bounds(m0, m1)
    }
}

/// What `sw` needs of the state and word `w`.
pub open spec fn sw_ready(p0: Processor, m0: Memory, w: u32) -> bool {
    &&& m0.data_wf()
    &&& word_address_fits(p0, w)
    &&& word_address(p0, w) % 4 == 0 ==> word_address(p0, w) + 4 <= u32::MAX
}

// 0x2B - sw
/// Stores rt as a big-endian word at rs + imm, which must be aligned and lie in .data.
pub fn sw(cpu: &mut Processor, memory: &mut Memory, instruction: u32) -> (r: Result<ExecutionStatus, String>)
    requires
        sw_ready(*old(cpu), *old(memory), instruction),
    ensures
        sw_effect(*old(cpu), *final(cpu), *old(memory), *final(memory), instruction, r),
{
    let (rs, rt, imm) = unpack_i_type(instruction);
    let temp = (cpu.general_purpose_registers[rs] as i32 + imm as i32) as u32;
    if temp % 4 != 0 {
        return Err(alignment_error(temp));
    }
    if temp + 4 >= memory.data_end || temp < memory.data_start {
        return Err(word_access_error(temp));
    }
    let start_idx: usize = (temp - memory.data_start) as usize;
    let w = cpu.general_purpose_registers[rt];
    write_word_be(&mut memory.data, start_idx, w);
    Ok(ExecutionStatus::Continue)
}

/// What routine `op` needs of the state and word `w`.
pub open spec fn op_ready(op: WordOp, p0: Processor, m0: Memory, w: u32) -> bool {
    match op {
        WordOp::Syscall => pregs(p0)[2] < 64,
        WordOp::Add => add_ready(p0, m0, w),
        WordOp::Beq => beq_ready(p0, m0, w),
        WordOp::Bne => bne_ready(p0, m0, w),
        WordOp::Blez => blez_ready(p0, m0, w),
        WordOp::Bgtz => bgtz_ready(p0, m0, w),
        WordOp::Addi => addi_ready(p0, m0, w),
        WordOp::Lb => lb_ready(p0, m0, w),
        WordOp::Lw => lw_ready(p0, m0, w),
        WordOp::Sw => sw_ready(p0, m0, w),
        _ => true,
    }
}

/// The effect of routine `op` on word `w`, the output going from `out0` to `out1`.
pub open spec fn op_effect(op: WordOp, p0: Processor, p1: Processor, m0: Memory, m1: Memory, w: u32, out0: Seq<u8>, out1: Seq<u8>, r: Result<ExecutionStatus, String>) -> bool {
    match op {
        WordOp::Syscall => syscall_effect(p0, p1, m0, m1, out0, out1, r),
        _ => out1 == out0 && match op {
            WordOp::Sll => sll_effect(p0, p1, m0, m1, w, r),
            WordOp::Srl => srl_effect(p0, p1, m0, m1, w, r),
            WordOp::Jr => jr_effect(p0, p1, m0, m1, w, r),
            WordOp::Jalr => jalr_effect(p0, p1, m0, m1, w, r),
            WordOp::Add => add_effect(p0, p1, m0, m1, w, r),
            WordOp::Addu => addu_effect(p0, p1, m0, m1, w, r),
            WordOp::Sub => sub_effect(p0, p1, m0, m1, w, r),
            WordOp::And => and_effect(p0, p1, m0, m1, w, r),
            WordOp::Or => or_effect(p0, p1, m0, m1, w, r),
            WordOp::Xor => xor_effect(p0, p1, m0, m1, w, r),
            WordOp::Nor => nor_effect(p0, p1, m0, m1, w, r),
            WordOp::Slt => slt_effect(p0, p1, m0, m1, w, r),
            WordOp::J => j_effect(p0, p1, m0, m1, w, r),
            WordOp::Jal => jal_effect(p0, p1, m0, m1, w, r),
            WordOp::Beq => beq_effect(p0, p1, m0, m1, w, r),
            WordOp::Bne => bne_effect(p0, p1, m0, m1, w, r),
            WordOp::Blez => blez_effect(p0, p1, m0, m1, w, r),
            WordOp::Bgtz => bgtz_effect(p0, p1, m0, m1, w, r),
            WordOp::Addi => addi_effect(p0, p1, m0, m1, w, r),
            WordOp::Addiu => addiu_effect(p0, p1, m0, m1, w, r),
            WordOp::Andi => andi_effect(p0, p1, m0, m1, w, r),
            WordOp::Ori => ori_effect(p0, p1, m0, m1, w, r),
            WordOp::Lui => lui_effect(p0, p1, m0, m1, w, r),
            WordOp::Lb => lb_effect(p0, p1, m0, m1, w, r),
            WordOp::Lw => lw_effect(p0, p1, m0, m1, w, r),
            WordOp::Sw => sw_effect(p0, p1, m0, m1, w, r),
            WordOp::Syscall => false,
        },
    }
}

/// Runs routine `op` on `instruction`.
pub fn execute(op: WordOp, cpu: &mut Processor, memory: &mut Memory, instruction: u32, out: &mut Vec<u8>) -> (r: Result<ExecutionStatus, String>)
    requires
        op_ready(op, *old(cpu), *old(memory), instruction),
    ensures
        op_effect(op, *old(cpu), *final(cpu), *old(memory), *final(memory), instruction, old(out)@, final(out)@, r),
{
    match op {
        WordOp::Sll => sll(cpu, memory, instruction),
        WordOp::Srl => srl(cpu, memory, instruction),
        WordOp::Jr => jr(cpu, memory, instruction),
        WordOp::Jalr => jalr(cpu, memory, instruction),
        WordOp::Syscall => syscall(cpu, memory, instruction, out),
        WordOp::Add => self::add(cpu, memory, instruction),
        WordOp::Addu => addu(cpu, memory, instruction),
        WordOp::Sub => self::sub(cpu, memory, instruction),
        WordOp::And => and(cpu, memory, instruction),
        WordOp::Or => or(cpu, memory, instruction),
        WordOp::Xor => xor(cpu, memory, instruction),
        WordOp::Nor => nor(cpu, memory, instruction),
        WordOp::Slt => slt(cpu, memory, instruction),
        WordOp::J => j(cpu, memory, instruction),
        WordOp::Jal => jal(cpu, memory, instruction),
        WordOp::Beq => beq(cpu, memory, instruction),
        WordOp::Bne => bne(cpu, memory, instruction),
        WordOp::Blez => blez(cpu, memory, instruction),
        WordOp::Bgtz => bgtz(cpu, memory, instruction),
        WordOp::Addi => addi(cpu, memory, instruction),
        WordOp::Addiu => addiu(cpu, memory, instruction),
        WordOp::Andi => andi(cpu, memory, instruction),
        WordOp::Ori => ori(cpu, memory, instruction),
        WordOp::Lui => lui(cpu, memory, instruction),
        WordOp::Lb => lb(cpu, memory, instruction),
        WordOp::Lw => lw(cpu, memory, instruction),
        WordOp::Sw => sw(cpu, memory, instruction),
    }
}

/// A routine that fails leaves the counter where it was.
pub proof fn lemma_failure_keeps_counter(op: WordOp, p0: Processor, p1: Processor, m0: Memory, m1: Memory, w: u32, out0: Seq<u8>, out1: Seq<u8>, r: Result<ExecutionStatus, String>)
    requires
        op_effect(op, p0, p1, m0, m1, w, out0, out1, r),
        r is Err,
    ensures
        p1.pc == p0.pc,
{
}

/// A word loaded by `lw` from the address that an `sw` just stored to is the
/// word that was stored.
pub proof fn lemma_load_after_store(p0: Processor, p1: Processor, p2: Processor, m0: Memory, m1: Memory, m2: Memory,
    store: u32, load: u32, r1: Result<ExecutionStatus, String>, r2: Result<ExecutionStatus, String>)
    requires
        word_address(p0, store) - m0.data_start + 4 <= m0.data@.len(),
        sw_effect(p0, p1, m0, m1, store, r1),
        r1 is Ok,
        lw_effect(p1, p2, m1, m2, load, r2),
        word_address(p1, load) == word_address(p0, store),
    ensures
        r2 is Ok,
        pregs(p2)[rt_of(load) as int] == rv(p0, rt_of(store)),
{
    let a = word_address(p0, store);
    let k = a - m0.data_start;
    let v = rv(p0, rt_of(store));
    lemma_word_roundtrip(v);
    assert(m1.data@[k] == be_bytes_u32(v)[0]);
    assert(m1.data@[k + 1] == be_bytes_u32(v)[1]);
    assert(m1.data@[k + 2] == be_bytes_u32(v)[2]);
    assert(m1.data@[k + 3] == be_bytes_u32(v)[3]);
    assert(word_at(m1.data@, k) == v);
    lemma_field_bounds(load);
    vstd::array::array_len_matches_n(&p1.general_purpose_registers);
}

/// The message for a counter past the end of .text.
pub open spec fn fell_off_message() -> Seq<char> {
    "Program fell off bottom."@
}

/// The message for a counter below .text.
pub open spec fn unowned_counter_message() -> Seq<char> {
    "Program counter has reached unowned address space. You, the user, have made a grave mistake."@
}

/// Reads the big-endian word at `fetch_address` from .text. An address past
/// the end of .text, or before it, is an error; an address whose word runs
/// past the bytes of .text is outside what this accepts.
pub fn fetch(fetch_address: &u32, memory: &Memory) -> (r: Result<u32, String>)
    requires
        memory.text_start <= *fetch_address <= memory.text_end ==> (*fetch_address - memory.text_start) + 4 <= memory.text@.len(),
    ensures
        if *fetch_address > memory.text_end {
            r matches Err(m) && m@ == fell_off_message()
        } else if *fetch_address < memory.text_start {
            r matches Err(m) && m@ == unowned_counter_message()
        } else {
            r == Ok::<u32, String>(word_at(memory.text@, *fetch_address - memory.text_start))
        },
{
    if *fetch_address > memory.text_end {
        proof { reveal_strlit("Program fell off bottom."); }
        return Err("Program fell off bottom.".to_string());
    } else if *fetch_address < memory.text_start {
        proof { reveal_strlit("Program counter has reached unowned address space. You, the user, have made a grave mistake."); }
        return Err("Program counter has reached unowned address space. You, the user, have made a grave mistake.".to_string());
    }
    let instr_index: usize = (*fetch_address - memory.text_start) as usize;
    Ok(read_word_be(&memory.text, instr_index))
}

/// The message for a word at `pc` that names no routine.
pub open spec fn fetch_failure_message(pc: u32, text_start: u32, e: Seq<char>) -> Seq<char> {
    "An error occurred when fetching instruction at address 0x"@ + hex_chars(pc as nat) + " (instruction "@
        + dec_chars(((pc - text_start) / 4) as nat) + "): "@ + e + "."@
}

/// The message for a routine that failed with `e`, the counter being `pc`
/// (four past the word) afterwards.
pub open spec fn execution_failure_message(pc: u32, text_start: u32, e: Seq<char>) -> Seq<char> {
    "An error occurred when executing instruction at address 0x"@ + hex_chars((pc - 4) as nat) + " (instruction #"@
        + dec_chars(((pc - text_start) / 4) as nat) + "): "@ + e + "."@
}

/// The state after routine `op` ran on `w` from `pa` with memory `m0` and
/// output `out0`, reached through some intermediate `pm` and result `r0`:
/// `$zero` cleared and a failure's message wrapped with its place.
pub open spec fn ran(op: WordOp, pa: Processor, p1: Processor, m0: Memory, m1: Memory, w: u32, out0: Seq<u8>, out1: Seq<u8>, r: Result<ExecutionStatus, String>) -> bool {
    exists|pm: Processor, r0: Result<ExecutionStatus, String>|
        #![trigger op_effect(op, pa, pm, m0, m1, w, out0, out1, r0)]
        {
            &&& op_effect(op, pa, pm, m0, m1, w, out0, out1, r0)
            &&& p1.pc == pm.pc
            &&& pregs(p1) == pregs(pm).update(0, 0u32)
            &&& match r0 {
                Ok(s) => r == Ok::<ExecutionStatus, String>(s),
                Err(e) => r matches Err(m) && m@ == execution_failure_message(pm.pc, m0.text_start, e@),
            }
        }
}

/// Whether `step` can run from `p0`, `m0`: the word at the counter can be read
/// and, where it names a routine, that routine can run once the counter has
/// moved past it.
pub open spec fn step_ready(p0: Processor, m0: Memory) -> bool {
    &&& m0.wf()
    &&& m0.text_start <= p0.pc <= m0.text_end ==> (p0.pc - m0.text_start) + 4 <= m0.text@.len()
    &&& m0.text_start <= p0.pc <= m0.text_end ==> {
        let w = word_at(m0.text@, p0.pc - m0.text_start);
        let pa = Processor { pc: (p0.pc + 4) as u32, ..p0 };
        word_op(w) matches Some(op) ==> op_ready(op, pa, m0, w)
    }
}

/// Runs the instruction at the counter: reads its word, moves the counter past
/// it, finds its routine and runs it, then clears `$zero`. A counter outside
/// .text, a word that names no routine, and a failing routine are errors,
/// each with its message.
pub fn single_step(cpu: &mut Processor, memory: &mut Memory, out: &mut Vec<u8>) -> (r: Result<ExecutionStatus, String>)
    requires
        step_ready(*old(cpu), *old(memory)),
    ensures
        ({
            let p0 = *old(cpu);
            let m0 = *old(memory);
            let p1 = *final(cpu);
            let m1 = *final(memory);
            if p0.pc > m0.text_end || p0.pc < m0.text_start {
                &&& r matches Err(m) && m@ == fell_off_message()
                &&& p1 == p0
                &&& m1 == m0
                &&& final(out)@ == old(out)@
            } else {
                let w = word_at(m0.text@, p0.pc - m0.text_start);
                let pa = Processor { pc: (p0.pc + 4) as u32, ..p0 };
                match word_op(w) {
                    None => {
                        &&& r matches Err(m) && m@ == fetch_failure_message(p0.pc, m0.text_start, decode_message(w))
                        &&& p1 == pa
                        &&& m1 == m0
                        &&& final(out)@ == old(out)@
                    },
                    Some(op) => ran(op, pa, p1, m0, m1, w, old(out)@, final(out)@, r),
                }
            }
        }),
        old(memory).text_start <= old(cpu).pc <= old(memory).text_end
            && word_op(word_at(old(memory).text@, old(cpu).pc - old(memory).text_start)) is Some
            ==> pregs(*final(cpu))[0] == 0,
{
    if cpu.pc > memory.text_end || cpu.pc < memory.text_start {
        proof { reveal_strlit("Program fell off bottom."); }
        return Err("Program fell off bottom.".to_string());
    }
    let fetched_instruction: u32 = match fetch(&cpu.pc, memory) {
        Ok(w) => w,
        Err(e) => return Err(e),
    };
    cpu.pc = cpu.pc + 4;
    let op = match decode(&fetched_instruction) {
        Ok(op) => op,
        Err(e) => {
            let at = cpu.pc - 4;
            let mut m = String::new();
            m.append("An error occurred when fetching instruction at address 0x");
            append_radix(&mut m, at as u64, 16);
            m.append(" (instruction ");
            append_radix(&mut m, ((at - memory.text_start) / 4) as u64, 10);
            m.append("): ");
            m.append(e.as_str());
            m.append(".");
            proof {
                reveal_strlit("An error occurred when fetching instruction at address 0x");
                reveal_strlit(" (instruction ");
                reveal_strlit("): ");
                reveal_strlit(".");
            }
            return Err(m);
        },
    };
    let ghost pa = *cpu;
    let ghost out0 = out@;
    let ghost m0 = *memory;
    let instruction_result = execute(op, cpu, memory, fetched_instruction, out);
    let ghost pm = *cpu;
    proof {
        if instruction_result is Err {
            lemma_failure_keeps_counter(op, pa, pm, m0, *memory, fetched_instruction, out0, out@, instruction_result);
        }
    }
    cpu.general_purpose_registers[0] = 0;
    let r = match instruction_result {
        Ok(execution_status) => Ok(execution_status),
        Err(e) => {
            let mut m = String::new();
            m.append("An error occurred when executing instruction at address 0x");
            append_radix(&mut m, (cpu.pc - 4) as u64, 16);
            m.append(" (instruction #");
            append_radix(&mut m, ((cpu.pc - memory.text_start) / 4) as u64, 10);
            m.append("): ");
            m.append(e.as_str());
            m.append(".");
            proof {
                reveal_strlit("An error occurred when executing instruction at address 0x");
                reveal_strlit(" (instruction #");
                reveal_strlit("): ");
                reveal_strlit(".");
            }
            Err(m)
        },
    };
    proof {
        assert(op_effect(op, pa, pm, m0, *memory, fetched_instruction, out0, out@, instruction_result));
    }
    r
}

} // verus!
