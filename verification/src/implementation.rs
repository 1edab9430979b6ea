//! The semantics of the implemented instructions on a program state.
//! Faults are recorded in coprocessor 0 (see `ProgramState::set_exception`).
use vstd::prelude::*;

use crate::exception::{can_raise, raised, ExceptionType};
use crate::instruction_fields::{IArgs, JArgs, RArgs};
use crate::structs::{ProgramState, AT, RA};
use crate::words::{be_bytes_u32, read_word_be, sext16, sign_extend16, word_at};

verus! {

/// The general purpose registers of `s`.
pub open spec fn regs(s: ProgramState) -> Seq<u32> {
    s.cpu.general_purpose_registers@
}

/// Whether `a` lies in the .text address range.
pub open spec fn in_text_range(s: ProgramState, a: u32) -> bool {
    s.memory.text_start <= a < s.memory.text_end
}

/// Whether `a` lies in the .data address range.
pub open spec fn in_data_range(s: ProgramState, a: u32) -> bool {
    s.memory.data_start <= a < s.memory.data_end
}

/// Coprocessor 0 of `post` is that of `pre`, with `e` raised when `cond` holds.
pub open spec fn cp0_raised_if(pre: ProgramState, post: ProgramState, cond: bool, e: ExceptionType) -> bool {
    &&& post.cp0.registers@ == if cond { raised(pre, e) } else { pre.cp0.registers@ }
    &&& post.cp0.debug_mode == pre.cp0.debug_mode
}

/// `post` is `pre` with the register file replaced by `r`.
pub open spec fn with_regs(pre: ProgramState, post: ProgramState, r: Seq<u32>) -> bool {
    &&& regs(post) == r
    &&& post.cpu.pc == pre.cpu.pc
    &&& post.cp0.registers@ == pre.cp0.registers@
    &&& post.cp0.debug_mode == pre.cp0.debug_mode
    &&& post.memory == pre.memory
    &&& post.should_continue_execution == pre.should_continue_execution
}

/// `post` is `pre` with register `r` set to `v`.
pub open spec fn writes_reg(pre: ProgramState, post: ProgramState, r: int, v: u32) -> bool {
    with_regs(pre, post, regs(pre).update(r, v))
}

/// A jump or branch to `target`, after `e` is raised when the target lies outside .text.
pub open spec fn jumps(pre: ProgramState, post: ProgramState, target: u32, r: Seq<u32>) -> bool {
    &&& post.cpu.pc == target
    &&& regs(post) == r
    &&& cp0_raised_if(pre, post, !in_text_range(pre, target), ExceptionType::AddressExceptionLoad)
    &&& post.memory == pre.memory
    &&& post.should_continue_execution == pre.should_continue_execution
}

/// The signed 32-bit sum `a + b`, when it does not overflow.
pub open spec fn i32_sum_fits(a: i32, b: i32) -> bool {
    i32::MIN <= a + b <= i32::MAX
}

/// The byte offset of a branch: the sign-extended immediate times four.
pub open spec fn branch_offset(imm: u32) -> i32 {
    (sext16(imm) * 4) as i32
}

/// The target of a taken branch.
pub open spec fn branch_target(pc: u32, imm: u32) -> u32 {
    ((pc as i32) + branch_offset(imm)) as u32
}

/// The target of a J-format jump: the 26-bit target shifted into the current 256 MB region.
pub open spec fn jump_target(pc: u32, address: u32) -> u32 {
    (address << 2) | (pc & 0xF0000000)
}

/// The address computed by loads and stores: base register plus immediate, as signed words.
pub open spec fn effective_address(s: ProgramState, rs: u32, imm: u32) -> u32 {
    ((regs(s)[rs as int] as i32) + (imm as i32)) as u32
}

/// Whether the base-plus-immediate address computation does not overflow.
pub open spec fn address_fits(s: ProgramState, rs: u32, imm: u32) -> bool {
    i32_sum_fits(regs(s)[rs as int] as i32, imm as i32)
}

/// `pre` with the register file `r` and register `rd` set to 1 when `cond` holds, else 0.
pub open spec fn flag(cond: bool) -> u32 {
    if cond { 1 } else { 0 }
}

/// Raising the same exception twice leaves coprocessor 0 as raising it once.
pub proof fn lemma_raise_twice(pre: ProgramState, mid: ProgramState, e: ExceptionType)
    requires
        mid.cp0.registers@ == raised(pre, e),
        mid.cpu.pc == pre.cpu.pc,
    ensures
        raised(mid, e) == raised(pre, e),
{
    let s = pre.cp0.registers[12];
    let c = pre.cp0.registers[13];
    let code = e.exc_code_of();
    assert(((((((((s & !(3u32 << 3u32)) | ((0u32 & 3u32) << 3u32)) & !(1u32 << 0u32)) | ((1u32 & 1u32) << 0u32))
        & !(3u32 << 3u32)) | ((0u32 & 3u32) << 3u32)) & !(1u32 << 0u32)) | ((1u32 & 1u32) << 0u32))
        == ((((s & !(3u32 << 3u32)) | ((0u32 & 3u32) << 3u32)) & !(1u32 << 0u32)) | ((1u32 & 1u32) << 0u32))
        && (((c & !(31u32 << 2u32)) | ((code & 31u32) << 2u32)) & !(31u32 << 2u32)) | ((code & 31u32) << 2u32)
            == (c & !(31u32 << 2u32)) | ((code & 31u32) << 2u32)) by (bit_vector);
    crate::exception::lemma_small_masks();
    assert(crate::exception::in_exception(mid.cp0)) by {
        assert((((((s & !(3u32 << 3u32)) | ((0u32 & 3u32) << 3u32)) & !(1u32 << 0u32)) | ((1u32 & 1u32) << 0u32))
            & (1u32 << 0u32)) >> 0u32 == 1u32) by (bit_vector);
    }
    assert(raised(mid, e) =~= raised(pre, e));
}

/// Raising a second exception while the first is being handled leaves coprocessor 0
/// as raising the second alone would: EPC keeps the first address and the cause is replaced.
pub proof fn lemma_raise_again(pre: ProgramState, mid: ProgramState, e1: ExceptionType, e2: ExceptionType)
    requires
        mid.cp0.registers@ == raised(pre, e1),
        mid.cpu.pc == pre.cpu.pc,
    ensures
        raised(mid, e2) == raised(pre, e2),
{
    let s = pre.cp0.registers[12];
    let c = pre.cp0.registers[13];
    let k1 = e1.exc_code_of();
    let k2 = e2.exc_code_of();
    assert(((((((((s & !(3u32 << 3u32)) | ((0u32 & 3u32) << 3u32)) & !(1u32 << 0u32)) | ((1u32 & 1u32) << 0u32))
        & !(3u32 << 3u32)) | ((0u32 & 3u32) << 3u32)) & !(1u32 << 0u32)) | ((1u32 & 1u32) << 0u32))
        == ((((s & !(3u32 << 3u32)) | ((0u32 & 3u32) << 3u32)) & !(1u32 << 0u32)) | ((1u32 & 1u32) << 0u32))
        && (((c & !(31u32 << 2u32)) | ((k1 & 31u32) << 2u32)) & !(31u32 << 2u32)) | ((k2 & 31u32) << 2u32)
            == (c & !(31u32 << 2u32)) | ((k2 & 31u32) << 2u32)) by (bit_vector);
    crate::exception::lemma_small_masks();
    assert(crate::exception::in_exception(mid.cp0)) by {
        assert((((((s & !(3u32 << 3u32)) | ((0u32 & 3u32) << 3u32)) & !(1u32 << 0u32)) | ((1u32 & 1u32) << 0u32))
            & (1u32 << 0u32)) >> 0u32 == 1u32) by (bit_vector);
    }
    assert(raised(mid, e2) =~= raised(pre, e2));
}

/// What `sll` needs of the state it runs on.
pub open spec fn sll_ok(pre: ProgramState, args: RArgs) -> bool {
    &&& args.wf()
}

/// What `sll` does: `post` is the state after it runs on `pre`.
pub open spec fn sll_effect(pre: ProgramState, post: ProgramState, args: RArgs) -> bool {
    &&& writes_reg(pre, post, args.rd as int,
        regs(pre)[args.rt as int] << args.shamt)
}

/// What `srl` needs of the state it runs on.
pub open spec fn srl_ok(pre: ProgramState, args: RArgs) -> bool {
    &&& args.wf()
}

/// What `srl` does: `post` is the state after it runs on `pre`.
pub open spec fn srl_effect(pre: ProgramState, post: ProgramState, args: RArgs) -> bool {
    &&& writes_reg(pre, post, args.rd as int,
        regs(pre)[args.rt as int] >> args.shamt)
}

/// What `jr` needs of the state it runs on.
pub open spec fn jr_ok(pre: ProgramState, args: RArgs) -> bool {
    &&& args.wf()
    &&& !in_text_range(pre, regs(pre)[args.rs as int])
        ==> can_raise(pre)
}

/// What `jr` does: `post` is the state after it runs on `pre`.
pub open spec fn jr_effect(pre: ProgramState, post: ProgramState, args: RArgs) -> bool {
    &&& jumps(pre, post, regs(pre)[args.rs as int],
        regs(pre))
}

/// What `jalr` needs of the state it runs on.
pub open spec fn jalr_ok(pre: ProgramState, args: RArgs) -> bool {
    &&& args.wf()
    &&& !in_text_range(pre, regs(pre)[args.rs as int])
        ==> can_raise(pre)
}

/// What `jalr` does: `post` is the state after it runs on `pre`.
pub open spec fn jalr_effect(pre: ProgramState, post: ProgramState, args: RArgs) -> bool {
    &&& ({
        let pre = pre;
        let post = post;
        let r = regs(pre).update(jalr_link(args.rd), pre.cpu.pc);
        &&& post.cpu.pc == r[args.rs as int]
        &&& regs(post) == r
        &&& cp0_raised_if(pre, post, !in_text_range(pre, regs(pre)[args.rs as int]),
            ExceptionType::AddressExceptionLoad)
        &&& post.memory == pre.memory
        &&& post.should_continue_execution == pre.should_continue_execution
    })
}

/// What `slti` needs of the state it runs on.
pub open spec fn slti_ok(pre: ProgramState, args: IArgs) -> bool {
    &&& args.wf()
}

/// What `slti` does: `post` is the state after it runs on `pre`.
pub open spec fn slti_effect(pre: ProgramState, post: ProgramState, args: IArgs) -> bool {
    &&& writes_reg(pre, post, args.rt as int,
        flag((regs(pre)[args.rs as int] as i32) < (args.imm as i32)))
}

/// What `sltiu` needs of the state it runs on.
pub open spec fn sltiu_ok(pre: ProgramState, args: IArgs) -> bool {
    &&& args.wf()
}

/// What `sltiu` does: `post` is the state after it runs on `pre`.
pub open spec fn sltiu_effect(pre: ProgramState, post: ProgramState, args: IArgs) -> bool {
    &&& writes_reg(pre, post, args.rt as int,
        flag(regs(pre)[args.rs as int] < args.imm))
}

/// What `syscall` needs of the state it runs on.
pub open spec fn syscall_ok(pre: ProgramState, args: RArgs) -> bool {
    &&& can_raise(pre)
}

/// What `syscall` does: `post` is the state after it runs on `pre`.
pub open spec fn syscall_effect(pre: ProgramState, post: ProgramState, args: RArgs) -> bool {
    &&& regs(post) == regs(pre)
    &&& post.cpu.pc == pre.cpu.pc
    &&& cp0_raised_if(pre, post, true, ExceptionType::Syscall)
    &&& post.memory == pre.memory
    &&& post.should_continue_execution == pre.should_continue_execution
}

/// What `add` needs of the state it runs on.
pub open spec fn add_ok(pre: ProgramState, args: RArgs) -> bool {
    &&& args.wf()
    &&& regs(pre)[args.rs as int] + regs(pre)[args.rt as int] <= u32::MAX
}

/// What `add` does: `post` is the state after it runs on `pre`.
pub open spec fn add_effect(pre: ProgramState, post: ProgramState, args: RArgs) -> bool {
    &&& writes_reg(pre, post, args.rd as int,
        (regs(pre)[args.rs as int] + regs(pre)[args.rt as int]) as u32)
}

/// What `addu` needs of the state it runs on.
pub open spec fn addu_ok(pre: ProgramState, args: RArgs) -> bool {
    &&& args.wf()
}

/// What `addu` does: `post` is the state after it runs on `pre`.
pub open spec fn addu_effect(pre: ProgramState, post: ProgramState, args: RArgs) -> bool {
    &&& writes_reg(pre, post, args.rd as int,
        vstd::wrapping::u32_specs::wrapping_add(regs(pre)[args.rs as int],
            regs(pre)[args.rt as int]))
}

/// What `sub` needs of the state it runs on.
pub open spec fn sub_ok(pre: ProgramState, args: RArgs) -> bool {
    &&& args.wf()
    &&& regs(pre)[args.rs as int] < regs(pre)[args.rt as int]
        ==> can_raise(pre)
}

/// What `sub` does: `post` is the state after it runs on `pre`.
pub open spec fn sub_effect(pre: ProgramState, post: ProgramState, args: RArgs) -> bool {
    &&& ({
        let a = regs(pre)[args.rs as int];
        let b = regs(pre)[args.rt as int];
        let d = vstd::wrapping::u32_specs::wrapping_sub(a, b);
        let r1 = regs(pre).update(1, d);
        &&& regs(post) == if a < b { r1 } else { r1.update(args.rd as int, d) }
        &&& post.cpu.pc == pre.cpu.pc
        &&& cp0_raised_if(pre, post, a < b, ExceptionType::ArithmeticOverflow)
        &&& post.memory == pre.memory
        &&& post.should_continue_execution == pre.should_continue_execution
    })
}

/// What `subu` needs of the state it runs on.
pub open spec fn subu_ok(pre: ProgramState, args: RArgs) -> bool {
    &&& args.wf()
}

/// What `subu` does: `post` is the state after it runs on `pre`.
pub open spec fn subu_effect(pre: ProgramState, post: ProgramState, args: RArgs) -> bool {
    &&& writes_reg(pre, post, args.rd as int,
        vstd::wrapping::u32_specs::wrapping_sub(regs(pre)[args.rs as int],
            regs(pre)[args.rt as int]))
}

/// What `and` needs of the state it runs on.
pub open spec fn and_ok(pre: ProgramState, args: RArgs) -> bool {
    &&& args.wf()
}

/// What `and` does: `post` is the state after it runs on `pre`.
pub open spec fn and_effect(pre: ProgramState, post: ProgramState, args: RArgs) -> bool {
    &&& writes_reg(pre, post, args.rd as int,
        regs(pre)[args.rs as int] & regs(pre)[args.rt as int])
}

/// What `or` needs of the state it runs on.
pub open spec fn or_ok(pre: ProgramState, args: RArgs) -> bool {
    &&& args.wf()
}

/// What `or` does: `post` is the state after it runs on `pre`.
pub open spec fn or_effect(pre: ProgramState, post: ProgramState, args: RArgs) -> bool {
    &&& writes_reg(pre, post, args.rd as int,
        regs(pre)[args.rs as int] | regs(pre)[args.rt as int])
}

/// What `xor` needs of the state it runs on.
pub open spec fn xor_ok(pre: ProgramState, args: RArgs) -> bool {
    &&& args.wf()
}

/// What `xor` does: `post` is the state after it runs on `pre`.
pub open spec fn xor_effect(pre: ProgramState, post: ProgramState, args: RArgs) -> bool {
    &&& writes_reg(pre, post, args.rd as int,
        regs(pre)[args.rs as int] ^ regs(pre)[args.rt as int])
}

/// What `nor` needs of the state it runs on.
pub open spec fn nor_ok(pre: ProgramState, args: RArgs) -> bool {
    &&& args.wf()
}

/// What `nor` does: `post` is the state after it runs on `pre`.
pub open spec fn nor_effect(pre: ProgramState, post: ProgramState, args: RArgs) -> bool {
    &&& writes_reg(pre, post, args.rd as int,
        !(regs(pre)[args.rs as int] | regs(pre)[args.rt as int]))
}

/// What `slt` needs of the state it runs on.
pub open spec fn slt_ok(pre: ProgramState, args: RArgs) -> bool {
    &&& args.wf()
}

/// What `slt` does: `post` is the state after it runs on `pre`.
pub open spec fn slt_effect(pre: ProgramState, post: ProgramState, args: RArgs) -> bool {
    &&& writes_reg(pre, post, args.rd as int,
        flag((regs(pre)[args.rs as int] as i32)
            < (regs(pre)[args.rt as int] as i32)))
}

/// What `sltu` needs of the state it runs on.
pub open spec fn sltu_ok(pre: ProgramState, args: RArgs) -> bool {
    &&& args.wf()
}

/// What `sltu` does: `post` is the state after it runs on `pre`.
pub open spec fn sltu_effect(pre: ProgramState, post: ProgramState, args: RArgs) -> bool {
    &&& writes_reg(pre, post, args.rd as int,
        flag(regs(pre)[args.rs as int] < regs(pre)[args.rt as int]))
}

/// What `j` needs of the state it runs on.
pub open spec fn j_ok(pre: ProgramState, args: JArgs) -> bool {
    &&& !in_text_range(pre, jump_target(pre.cpu.pc, args.address))
        ==> can_raise(pre)
}

/// What `j` does: `post` is the state after it runs on `pre`.
pub open spec fn j_effect(pre: ProgramState, post: ProgramState, args: JArgs) -> bool {
    &&& jumps(pre, post,
        jump_target(pre.cpu.pc, args.address), regs(pre))
}

/// What `jal` needs of the state it runs on.
pub open spec fn jal_ok(pre: ProgramState, args: JArgs) -> bool {
    &&& !in_text_range(pre, jump_target(pre.cpu.pc, args.address))
        ==> can_raise(pre)
}

/// What `jal` does: `post` is the state after it runs on `pre`.
pub open spec fn jal_effect(pre: ProgramState, post: ProgramState, args: JArgs) -> bool {
    &&& jumps(pre, post,
        jump_target(pre.cpu.pc, args.address),
        regs(pre).update(31, pre.cpu.pc))
}

/// What `beq` needs of the state it runs on.
pub open spec fn beq_ok(pre: ProgramState, args: IArgs) -> bool {
    &&& args.wf()
    &&& regs(pre)[args.rs as int] == regs(pre)[args.rt as int]
        ==> branch_ok(pre, args.imm)
}

/// What `beq` does: `post` is the state after it runs on `pre`.
pub open spec fn beq_effect(pre: ProgramState, post: ProgramState, args: IArgs) -> bool {
    &&& branches(pre, post,
        regs(pre)[args.rs as int] == regs(pre)[args.rt as int], args.imm)
}

/// What `bne` needs of the state it runs on.
pub open spec fn bne_ok(pre: ProgramState, args: IArgs) -> bool {
    &&& args.wf()
    &&& regs(pre)[args.rs as int] != regs(pre)[args.rt as int]
        ==> branch_ok(pre, args.imm)
}

/// What `bne` does: `post` is the state after it runs on `pre`.
pub open spec fn bne_effect(pre: ProgramState, post: ProgramState, args: IArgs) -> bool {
    &&& branches(pre, post,
        regs(pre)[args.rs as int] != regs(pre)[args.rt as int], args.imm)
}

/// What `blez` needs of the state it runs on.
pub open spec fn blez_ok(pre: ProgramState, args: IArgs) -> bool {
    &&& args.wf()
    &&& (regs(pre)[args.rs as int] as i32) <= 0 ==> branch_ok(pre, args.imm)
}

/// What `blez` does: `post` is the state after it runs on `pre`.
pub open spec fn blez_effect(pre: ProgramState, post: ProgramState, args: IArgs) -> bool {
    &&& branches(pre, post,
        (regs(pre)[args.rs as int] as i32) <= 0, args.imm)
}

/// What `bgtz` needs of the state it runs on.
pub open spec fn bgtz_ok(pre: ProgramState, args: IArgs) -> bool {
    &&& args.wf()
    &&& (regs(pre)[args.rs as int] as i32) > 0 ==> branch_ok(pre, args.imm)
}

/// What `bgtz` does: `post` is the state after it runs on `pre`.
pub open spec fn bgtz_effect(pre: ProgramState, post: ProgramState, args: IArgs) -> bool {
    &&& branches(pre, post,
        (regs(pre)[args.rs as int] as i32) > 0, args.imm)
}

/// What `addi` needs of the state it runs on.
pub open spec fn addi_ok(pre: ProgramState, args: IArgs) -> bool {
    &&& args.wf()
    &&& i32_sum_fits(regs(pre)[args.rs as int] as i32, sext16(args.imm))
}

/// What `addi` does: `post` is the state after it runs on `pre`.
pub open spec fn addi_effect(pre: ProgramState, post: ProgramState, args: IArgs) -> bool {
    &&& writes_reg(pre, post, args.rt as int,
        ((regs(pre)[args.rs as int] as i32) + sext16(args.imm)) as u32)
}

/// What `addiu` needs of the state it runs on.
pub open spec fn addiu_ok(pre: ProgramState, args: IArgs) -> bool {
    &&& args.wf()
}

/// What `addiu` does: `post` is the state after it runs on `pre`.
pub open spec fn addiu_effect(pre: ProgramState, post: ProgramState, args: IArgs) -> bool {
    &&& writes_reg(pre, post, args.rt as int,
        vstd::wrapping::u32_specs::wrapping_add(regs(pre)[args.rs as int], args.imm))
}

/// What `andi` needs of the state it runs on.
pub open spec fn andi_ok(pre: ProgramState, args: IArgs) -> bool {
    &&& args.wf()
}

/// What `andi` does: `post` is the state after it runs on `pre`.
pub open spec fn andi_effect(pre: ProgramState, post: ProgramState, args: IArgs) -> bool {
    &&& writes_reg(pre, post, args.rt as int,
        regs(pre)[args.rs as int] & args.imm)
}

/// What `ori` needs of the state it runs on.
pub open spec fn ori_ok(pre: ProgramState, args: IArgs) -> bool {
    &&& args.wf()
}

/// What `ori` does: `post` is the state after it runs on `pre`.
pub open spec fn ori_effect(pre: ProgramState, post: ProgramState, args: IArgs) -> bool {
    &&& writes_reg(pre, post, args.rt as int,
        regs(pre)[args.rs as int] | args.imm)
}

/// What `xori` needs of the state it runs on.
pub open spec fn xori_ok(pre: ProgramState, args: IArgs) -> bool {
    &&& args.wf()
}

/// What `xori` does: `post` is the state after it runs on `pre`.
pub open spec fn xori_effect(pre: ProgramState, post: ProgramState, args: IArgs) -> bool {
    &&& writes_reg(pre, post, args.rt as int,
        regs(pre)[args.rs as int] ^ args.imm)
}

/// What `lui` needs of the state it runs on.
pub open spec fn lui_ok(pre: ProgramState, args: IArgs) -> bool {
    &&& args.wf()
}

/// What `lui` does: `post` is the state after it runs on `pre`.
pub open spec fn lui_effect(pre: ProgramState, post: ProgramState, args: IArgs) -> bool {
    &&& writes_reg(pre, post, args.rt as int, args.imm << 16)
}

/// What `lb` needs of the state it runs on.
pub open spec fn lb_ok(pre: ProgramState, args: IArgs) -> bool {
    &&& args.wf()
    &&& pre.memory.wf()
    &&& address_fits(pre, args.rs, args.imm)
    &&& !in_data_range(pre, effective_address(pre, args.rs, args.imm))
        ==> can_raise(pre)
}

/// What `lb` does: `post` is the state after it runs on `pre`.
pub open spec fn lb_effect(pre: ProgramState, post: ProgramState, args: IArgs) -> bool {
    &&& ({
        let pre = pre;
        let post = post;
        let a = effective_address(pre, args.rs, args.imm);
        let r1 = regs(pre).update(1, a);
        &&& regs(post) == if in_data_range(pre, a) {
            r1.update(args.rt as int, pre.memory.data@[a - pre.memory.data_start] as u32)
        } else {
            r1
        }
        &&& post.cpu.pc == pre.cpu.pc
        &&& cp0_raised_if(pre, post, !in_data_range(pre, a), ExceptionType::AddressExceptionLoad)
        &&& post.memory == pre.memory
        &&& post.should_continue_execution == pre.should_continue_execution
    })
}

/// What `lw` needs of the state it runs on.
pub open spec fn lw_ok(pre: ProgramState, args: IArgs) -> bool {
    &&& args.wf()
    &&& pre.memory.wf()
    &&& address_fits(pre, args.rs, args.imm)
    &&& ({
        let a = effective_address(pre, args.rs, args.imm);
        &&& a % 4 == 0 ==> a + 4 <= u32::MAX
        &&& (a % 4 != 0 || word_out_of_data(pre, a)) ==> can_raise(pre)
    })
}

/// What `lw` does: `post` is the state after it runs on `pre`.
pub open spec fn lw_effect(pre: ProgramState, post: ProgramState, args: IArgs) -> bool {
    &&& ({
        let pre = pre;
        let post = post;
        let a = effective_address(pre, args.rs, args.imm);
        let fault = a % 4 != 0 || word_out_of_data(pre, a);
        &&& regs(post) == if fault {
            regs(pre)
        } else {
            regs(pre).update(args.rt as int, word_at(pre.memory.data@, a - pre.memory.data_start))
        }
        &&& post.cpu.pc == pre.cpu.pc
        &&& cp0_raised_if(pre, post, fault, ExceptionType::AddressExceptionLoad)
        &&& post.memory == pre.memory
        &&& post.should_continue_execution == pre.should_continue_execution
    })
}

/// What `sb` needs of the state it runs on.
pub open spec fn sb_ok(pre: ProgramState, args: IArgs) -> bool {
    &&& args.wf()
    &&& pre.memory.wf()
    &&& address_fits(pre, args.rs, args.imm)
    &&& in_data_range(pre, effective_address(pre, args.rs, args.imm))
}

/// What `sb` does: `post` is the state after it runs on `pre`.
pub open spec fn sb_effect(pre: ProgramState, post: ProgramState, args: IArgs) -> bool {
    &&& ({
        let pre = pre;
        let post = post;
        let a = effective_address(pre, args.rs, args.imm);
        &&& post.memory.data@ == pre.memory.data@.update(a - pre.memory.data_start,
            regs(pre)[args.rt as int] as u8)
        &&& post.memory.text == pre.memory.text
        &&& post.memory.data_start == pre.memory.data_start
        &&& post.memory.data_end == pre.memory.data_end
        &&& post.memory.text_start == pre.memory.text_start
        &&& post.memory.text_end == pre.memory.text_end
        &&& post.cpu == pre.cpu
        &&& post.cp0 == pre.cp0
        &&& post.should_continue_execution == pre.should_continue_execution
    })
}

/// What `sw` needs of the state it runs on.
pub open spec fn sw_ok(pre: ProgramState, args: IArgs) -> bool {
    &&& args.wf()
    &&& pre.memory.wf()
    &&& address_fits(pre, args.rs, args.imm)
    &&& ({
        let a = effective_address(pre, args.rs, args.imm);
        &&& pre.memory.data_start <= a
        &&& a + 4 <= pre.memory.data_end
        &&& (a % 4 != 0 || a + 4 == pre.memory.data_end) ==> can_raise(pre)
    })
}

/// What `sw` does: `post` is the state after it runs on `pre`.
pub open spec fn sw_effect(pre: ProgramState, post: ProgramState, args: IArgs) -> bool {
    &&& ({
        let pre = pre;
        let post = post;
        let a = effective_address(pre, args.rs, args.imm);
        let i = a - pre.memory.data_start;
        let w = be_bytes_u32(regs(pre)[args.rt as int]);
        &&& post.memory.data@ == pre.memory.data@.update(i, w[0]).update(i + 1, w[1]).update(i + 2, w[2])
            .update(i + 3, w[3])
        &&& post.memory.text == pre.memory.text
        &&& post.memory.data_start == pre.memory.data_start
        &&& post.memory.data_end == pre.memory.data_end
        &&& post.memory.text_start == pre.memory.text_start
        &&& post.memory.text_end == pre.memory.text_end
        &&& post.cpu == pre.cpu
        &&& cp0_raised_if(pre, post, a % 4 != 0 || a + 4 == pre.memory.data_end,
            ExceptionType::AddressExceptionStore)
        &&& post.should_continue_execution == pre.should_continue_execution
    })
}

// 0x00 - sll
/// Shift left logical: rd = rt << shamt.
pub fn sll(program_state: &mut ProgramState, args: RArgs)
    requires
        sll_ok(*old(program_state), args),
    ensures
        sll_effect(*old(program_state), *final(program_state), args),
{
    program_state.cpu.general_purpose_registers[args.rd as usize] =
        program_state.cpu.general_purpose_registers[args.rt as usize] << args.shamt;
}

// 0x02 - srl
/// Shift right logical: rd = rt >> shamt.
pub fn srl(program_state: &mut ProgramState, args: RArgs)
    requires
        srl_ok(*old(program_state), args),
    ensures
        srl_effect(*old(program_state), *final(program_state), args),
{
    program_state.cpu.general_purpose_registers[args.rd as usize] =
        program_state.cpu.general_purpose_registers[args.rt as usize] >> args.shamt;
}

// 0x08 - jr
/// Jump to the address in rs; an address outside .text raises an address error,
/// and the jump is taken either way.
pub fn jr(program_state: &mut ProgramState, args: RArgs)
    requires
        jr_ok(*old(program_state), args),
    ensures
        jr_effect(*old(program_state), *final(program_state), args),
{
    let target = program_state.cpu.general_purpose_registers[args.rs as usize];
    if target >= program_state.memory.text_end || target < program_state.memory.text_start {
        program_state.set_exception(ExceptionType::AddressExceptionLoad);
    }
    program_state.cpu.pc = target;
}

/// The register that `jalr` links: rd, or `$ra` when rd is zero.
pub open spec fn jalr_link(rd: u32) -> int {
    if rd == 0 { 31 } else { rd as int }
}

// 0x09 - jalr
/// Jump to the address in rs, saving the return address in rd (or `$ra` when rd is 0).
pub fn jalr(program_state: &mut ProgramState, args: RArgs)
    requires
        jalr_ok(*old(program_state), args),
    ensures
        jalr_effect(*old(program_state), *final(program_state), args),
{
    let rd = match args.rd {
        0 => 31,
        x => x,
    };
    let target = program_state.cpu.general_purpose_registers[args.rs as usize];
    if target >= program_state.memory.text_end || target < program_state.memory.text_start {
        program_state.set_exception(ExceptionType::AddressExceptionLoad);
    }
    program_state.cpu.general_purpose_registers[rd as usize] = program_state.cpu.pc;
    program_state.cpu.pc = program_state.cpu.general_purpose_registers[args.rs as usize];
}

// 0x0A - slti
/// Set on less than immediate (signed): rt = (rs < imm) as signed words.
pub fn slti(program_state: &mut ProgramState, args: IArgs)
    requires
        slti_ok(*old(program_state), args),
    ensures
        slti_effect(*old(program_state), *final(program_state), args),
{
    if (program_state.cpu.general_purpose_registers[args.rs as usize] as i32) < (args.imm as i32) {
        program_state.cpu.general_purpose_registers[args.rt as usize] = 1;
    } else {
        program_state.cpu.general_purpose_registers[args.rt as usize] = 0;
    }
}

// 0x0B - sltiu
/// Set on less than immediate (unsigned).
pub fn sltiu(program_state: &mut ProgramState, args: IArgs)
    requires
        sltiu_ok(*old(program_state), args),
    ensures
        sltiu_effect(*old(program_state), *final(program_state), args),
{
    if program_state.cpu.general_purpose_registers[args.rs as usize] < args.imm {
        program_state.cpu.general_purpose_registers[args.rt as usize] = 1;
    } else {
        program_state.cpu.general_purpose_registers[args.rt as usize] = 0;
    }
}

// 0x0C - syscall
/// Raises the syscall exception.
pub fn syscall(program_state: &mut ProgramState, args: RArgs)
    requires
        syscall_ok(*old(program_state), args),
    ensures
        syscall_effect(*old(program_state), *final(program_state), args),
{
    program_state.set_exception(ExceptionType::Syscall);
}

/// What `brk` needs of the state it runs on.
pub open spec fn brk_ok(pre: ProgramState, args: RArgs) -> bool {
    can_raise(pre)
}

/// What `brk` does: `post` is the state after it runs on `pre`.
pub open spec fn brk_effect(pre: ProgramState, post: ProgramState, args: RArgs) -> bool {
    &&& regs(post) == regs(pre)
    &&& post.cpu.pc == pre.cpu.pc
    &&& cp0_raised_if(pre, post, true, ExceptionType::Breakpoint)
    &&& post.memory == pre.memory
    &&& post.should_continue_execution == pre.should_continue_execution
}

// 0x0D - break
/// Raises the breakpoint exception.
pub fn brk(program_state: &mut ProgramState, args: RArgs)
    requires
        brk_ok(*old(program_state), args),
    ensures
        brk_effect(*old(program_state), *final(program_state), args),
{
    program_state.set_exception(ExceptionType::Breakpoint);
}

// 0x20 - add
/// Add: rd = rs + rt. A sum past `u32::MAX` is outside what this accepts.
pub fn add(program_state: &mut ProgramState, args: RArgs)
    requires
        add_ok(*old(program_state), args),
    ensures
        add_effect(*old(program_state), *final(program_state), args),
{
    program_state.cpu.general_purpose_registers[args.rd as usize] =
        program_state.cpu.general_purpose_registers[args.rs as usize]
            + program_state.cpu.general_purpose_registers[args.rt as usize];
}

// 0x21 - addu
/// Add unsigned: rd = rs + rt, wrapping.
pub fn addu(program_state: &mut ProgramState, args: RArgs)
    requires
        addu_ok(*old(program_state), args),
    ensures
        addu_effect(*old(program_state), *final(program_state), args),
{
    program_state.cpu.general_purpose_registers[args.rd as usize] =
        program_state.cpu.general_purpose_registers[args.rs as usize]
            .wrapping_add(program_state.cpu.general_purpose_registers[args.rt as usize]);
}

// 0x22 - sub
/// Subtract: the difference goes to `$at`; a borrow raises arithmetic overflow,
/// otherwise the difference also goes to rd.
pub fn sub(program_state: &mut ProgramState, args: RArgs)
    requires
        sub_ok(*old(program_state), args),
    ensures
        sub_effect(*old(program_state), *final(program_state), args),
{
    let a = program_state.cpu.general_purpose_registers[args.rs as usize];
    let b = program_state.cpu.general_purpose_registers[args.rt as usize];
    let borrow = a < b;
    program_state.cpu.general_purpose_registers[AT] = a.wrapping_sub(b);
    if borrow {
        program_state.set_exception(ExceptionType::ArithmeticOverflow);
    } else {
        program_state.cpu.general_purpose_registers[args.rd as usize] =
            program_state.cpu.general_purpose_registers[AT];
    }
}

// 0x23 - subu
/// Subtract unsigned: rd = rs - rt, wrapping.
pub fn subu(program_state: &mut ProgramState, args: RArgs)
    requires
        subu_ok(*old(program_state), args),
    ensures
        subu_effect(*old(program_state), *final(program_state), args),
{
    program_state.cpu.general_purpose_registers[args.rd as usize] =
        program_state.cpu.general_purpose_registers[args.rs as usize]
            .wrapping_sub(program_state.cpu.general_purpose_registers[args.rt as usize]);
}

// 0x24 - and
/// Bitwise and: rd = rs & rt.
pub fn and(program_state: &mut ProgramState, args: RArgs)
    requires
        and_ok(*old(program_state), args),
    ensures
        and_effect(*old(program_state), *final(program_state), args),
{
    program_state.cpu.general_purpose_registers[args.rd as usize] =
        program_state.cpu.general_purpose_registers[args.rs as usize]
            & program_state.cpu.general_purpose_registers[args.rt as usize];
}

// 0x25 - or
/// Bitwise or: rd = rs | rt.
pub fn or(program_state: &mut ProgramState, args: RArgs)
    requires
        or_ok(*old(program_state), args),
    ensures
        or_effect(*old(program_state), *final(program_state), args),
{
    program_state.cpu.general_purpose_registers[args.rd as usize] =
        program_state.cpu.general_purpose_registers[args.rs as usize]
            | program_state.cpu.general_purpose_registers[args.rt as usize];
}

// 0x26 - xor
/// Bitwise exclusive or: rd = rs ^ rt.
pub fn xor(program_state: &mut ProgramState, args: RArgs)
    requires
        xor_ok(*old(program_state), args),
    ensures
        xor_effect(*old(program_state), *final(program_state), args),
{
    program_state.cpu.general_purpose_registers[args.rd as usize] =
        program_state.cpu.general_purpose_registers[args.rs as usize]
            ^ program_state.cpu.general_purpose_registers[args.rt as usize];
}

// 0x27 - nor
/// Bitwise nor: rd = !(rs | rt).
pub fn nor(program_state: &mut ProgramState, args: RArgs)
    requires
        nor_ok(*old(program_state), args),
    ensures
        nor_effect(*old(program_state), *final(program_state), args),
{
    program_state.cpu.general_purpose_registers[args.rd as usize] =
        !(program_state.cpu.general_purpose_registers[args.rs as usize]
            | program_state.cpu.general_purpose_registers[args.rt as usize]);
}

// 0x2A - slt
/// Set on less than (signed).
pub fn slt(program_state: &mut ProgramState, args: RArgs)
    requires
        slt_ok(*old(program_state), args),
    ensures
        slt_effect(*old(program_state), *final(program_state), args),
{
    if (program_state.cpu.general_purpose_registers[args.rs as usize] as i32)
        < (program_state.cpu.general_purpose_registers[args.rt as usize] as i32) {
        program_state.cpu.general_purpose_registers[args.rd as usize] = 1;
    } else {
        program_state.cpu.general_purpose_registers[args.rd as usize] = 0;
    }
}

// 0x2B - sltu
/// Set on less than (unsigned).
pub fn sltu(program_state: &mut ProgramState, args: RArgs)
    requires
        sltu_ok(*old(program_state), args),
    ensures
        sltu_effect(*old(program_state), *final(program_state), args),
{
    if program_state.cpu.general_purpose_registers[args.rs as usize]
        < program_state.cpu.general_purpose_registers[args.rt as usize] {
        program_state.cpu.general_purpose_registers[args.rd as usize] = 1;
    } else {
        program_state.cpu.general_purpose_registers[args.rd as usize] = 0;
    }
}

// 0x02 - j
/// Jump within the current 256 MB region.
pub fn j(program_state: &mut ProgramState, args: JArgs)
    requires
        j_ok(*old(program_state), args),
    ensures
        j_effect(*old(program_state), *final(program_state), args),
{
    let address: u32 = (args.address << 2) | (program_state.cpu.pc & 0xF0000000);
    if address >= program_state.memory.text_end || address < program_state.memory.text_start {
        program_state.set_exception(ExceptionType::AddressExceptionLoad);
    }
    program_state.cpu.pc = address;
}

// 0x03 - jal
/// Jump within the current 256 MB region, saving the return address in `$ra`.
pub fn jal(program_state: &mut ProgramState, args: JArgs)
    requires
        jal_ok(*old(program_state), args),
    ensures
        jal_effect(*old(program_state), *final(program_state), args),
{
    let address: u32 = (args.address << 2) | (program_state.cpu.pc & 0xF0000000);
    if address >= program_state.memory.text_end || address < program_state.memory.text_start {
        program_state.set_exception(ExceptionType::AddressExceptionLoad);
    }
    program_state.cpu.general_purpose_registers[RA] = program_state.cpu.pc;
    program_state.cpu.pc = address;
}

/// A conditional branch: taken when `taken`, to `branch_target(pc, imm)`.
pub open spec fn branches(pre: ProgramState, post: ProgramState, taken: bool, imm: u32) -> bool {
    if taken {
        jumps(pre, post, branch_target(pre.cpu.pc, imm), regs(pre))
    } else {
        with_regs(pre, post, regs(pre))
    }
}

/// What a taken branch needs: a representable target, and the right to raise
/// when that target lies outside .text.
pub open spec fn branch_ok(s: ProgramState, imm: u32) -> bool {
    &&& i32_sum_fits(s.cpu.pc as i32, branch_offset(imm))
    &&& !in_text_range(s, branch_target(s.cpu.pc, imm)) ==> can_raise(s)
}

/// Computes the target of a taken branch.
fn take_branch(program_state: &mut ProgramState, imm: u32)
    requires
        branch_ok(*old(program_state), imm),
    ensures
        jumps(*old(program_state), *final(program_state), branch_target(old(program_state).cpu.pc, imm),
            regs(*old(program_state))),
{
    let offset: i32 = sign_extend16(imm & 0xFFFF) * 4;
    proof {
        assert((imm & 0xFFFF) as u16 == imm as u16) by (bit_vector);
    }
    let temp = (program_state.cpu.pc as i32 + offset) as u32;
    if temp >= program_state.memory.text_end || temp < program_state.memory.text_start {
        program_state.set_exception(ExceptionType::AddressExceptionLoad);
    }
    program_state.cpu.pc = temp;
}

// 0x04 - beq
/// Branch when rs equals rt.
pub fn beq(program_state: &mut ProgramState, args: IArgs)
    requires
        beq_ok(*old(program_state), args),
    ensures
        beq_effect(*old(program_state), *final(program_state), args),
{
    if program_state.cpu.general_purpose_registers[args.rs as usize]
        != program_state.cpu.general_purpose_registers[args.rt as usize] {
        return;
    }
    take_branch(program_state, args.imm);
}

// 0x05 - bne
/// Branch when rs differs from rt.
pub fn bne(program_state: &mut ProgramState, args: IArgs)
    requires
        bne_ok(*old(program_state), args),
    ensures
        bne_effect(*old(program_state), *final(program_state), args),
{
    if program_state.cpu.general_purpose_registers[args.rs as usize]
        == program_state.cpu.general_purpose_registers[args.rt as usize] {
        return;
    }
    take_branch(program_state, args.imm);
}

// 0x06 - blez
/// Branch when rs, as a signed word, is at most zero.
pub fn blez(program_state: &mut ProgramState, args: IArgs)
    requires
        blez_ok(*old(program_state), args),
    ensures
        blez_effect(*old(program_state), *final(program_state), args),
{
    if (program_state.cpu.general_purpose_registers[args.rs as usize] as i32) > 0 {
        return;
    }
    take_branch(program_state, args.imm);
}

// 0x07 - bgtz
/// Branch when rs, as a signed word, is greater than zero.
pub fn bgtz(program_state: &mut ProgramState, args: IArgs)
    requires
        bgtz_ok(*old(program_state), args),
    ensures
        bgtz_effect(*old(program_state), *final(program_state), args),
{
    if program_state.cpu.general_purpose_registers[args.rs as usize] as i32 <= 0 {
        return;
    }
    take_branch(program_state, args.imm);
}

// 0x08 - addi
/// Add immediate: rt = rs + sign-extended imm, as signed words. A signed overflow
/// is outside what this accepts.
pub fn addi(program_state: &mut ProgramState, args: IArgs)
    requires
        addi_ok(*old(program_state), args),
    ensures
        addi_effect(*old(program_state), *final(program_state), args),
{
    program_state.cpu.general_purpose_registers[args.rt as usize] =
        (program_state.cpu.general_purpose_registers[args.rs as usize] as i32 + sign_extend16(args.imm)) as u32;
}

// 0x09 - addiu
/// Add immediate unsigned: rt = rs + imm, wrapping (the immediate is not sign-extended).
pub fn addiu(program_state: &mut ProgramState, args: IArgs)
    requires
        addiu_ok(*old(program_state), args),
    ensures
        addiu_effect(*old(program_state), *final(program_state), args),
{
    program_state.cpu.general_purpose_registers[args.rt as usize] =
        program_state.cpu.general_purpose_registers[args.rs as usize].wrapping_add(args.imm);
}

// 0x0C - andi
/// And immediate: rt = rs & imm.
pub fn andi(program_state: &mut ProgramState, args: IArgs)
    requires
        andi_ok(*old(program_state), args),
    ensures
        andi_effect(*old(program_state), *final(program_state), args),
{
    program_state.cpu.general_purpose_registers[args.rt as usize] =
        program_state.cpu.general_purpose_registers[args.rs as usize] & args.imm;
}

// 0x0D - ori
/// Or immediate: rt = rs | imm.
pub fn ori(program_state: &mut ProgramState, args: IArgs)
    requires
        ori_ok(*old(program_state), args),
    ensures
        ori_effect(*old(program_state), *final(program_state), args),
{
    program_state.cpu.general_purpose_registers[args.rt as usize] =
        program_state.cpu.general_purpose_registers[args.rs as usize] | args.imm;
}

// 0x0E - xori
/// Exclusive or immediate: rt = rs ^ imm.
pub fn xori(program_state: &mut ProgramState, args: IArgs)
    requires
        xori_ok(*old(program_state), args),
    ensures
        xori_effect(*old(program_state), *final(program_state), args),
{
    program_state.cpu.general_purpose_registers[args.rt as usize] =
        program_state.cpu.general_purpose_registers[args.rs as usize] ^ args.imm;
}

// 0x0F - lui
/// Load upper immediate: rt = imm << 16.
pub fn lui(program_state: &mut ProgramState, args: IArgs)
    requires
        lui_ok(*old(program_state), args),
    ensures
        lui_effect(*old(program_state), *final(program_state), args),
{
    program_state.cpu.general_purpose_registers[args.rt as usize] = args.imm << 16;
}

// 0x20 - lb
/// Load byte: the address goes to `$at`; outside .data it raises an address error,
/// otherwise the byte, zero-extended, goes to rt.
pub fn lb(program_state: &mut ProgramState, args: IArgs)
    requires
        lb_ok(*old(program_state), args),
    ensures
        lb_effect(*old(program_state), *final(program_state), args),
{
    program_state.cpu.general_purpose_registers[AT] =
        (program_state.cpu.general_purpose_registers[args.rs as usize] as i32 + args.imm as i32) as u32;
    let a = program_state.cpu.general_purpose_registers[AT];
    if a >= program_state.memory.data_end || a < program_state.memory.data_start {
        program_state.set_exception(ExceptionType::AddressExceptionLoad);
    } else {
        program_state.cpu.general_purpose_registers[args.rt as usize] =
            program_state.memory.data[(a - program_state.memory.data_start) as usize] as u32;
    }
}

/// Whether a word access at `a` is out of bounds for `lw`/`sw`: its last byte reaches
/// or passes the end of .data, or it starts before .data.
pub open spec fn word_out_of_data(s: ProgramState, a: u32) -> bool {
    a + 4 >= s.memory.data_end || a < s.memory.data_start
}

// 0x23 - lw
/// Load word: a misaligned or out-of-range address raises an address error;
/// otherwise the big-endian word goes to rt.
pub fn lw(program_state: &mut ProgramState, args: IArgs)
    requires
        lw_ok(*old(program_state), args),
    ensures
        lw_effect(*old(program_state), *final(program_state), args),
{
    let temp = (program_state.cpu.general_purpose_registers[args.rs as usize] as i32 + args.imm as i32) as u32;
    if temp % 4 != 0 {
        program_state.set_exception(ExceptionType::AddressExceptionLoad);
        return;
    }
    if temp + 4 >= program_state.memory.data_end || temp < program_state.memory.data_start {
        program_state.set_exception(ExceptionType::AddressExceptionLoad);
        return;
    }
    let start_idx: usize = (temp - program_state.memory.data_start) as usize;
    program_state.cpu.general_purpose_registers[args.rt as usize] =
        read_word_be(&program_state.memory.data, start_idx);
}

// 0x28 - sb
/// Store byte: the low byte of rt goes to the address. An address outside .data
/// is outside what this accepts.
pub fn sb(program_state: &mut ProgramState, args: IArgs)
    requires
        sb_ok(*old(program_state), args),
    ensures
        sb_effect(*old(program_state), *final(program_state), args),
{
    let temp = (program_state.cpu.general_purpose_registers[args.rs as usize] as i32 + args.imm as i32) as u32;
    if temp >= program_state.memory.data_end || temp < program_state.memory.data_start {
        program_state.set_exception(ExceptionType::AddressExceptionStore);
    }
    let idx = (temp - program_state.memory.data_start) as usize;
    let byte = program_state.cpu.general_purpose_registers[args.rt as usize] as u8;
    program_state.memory.data.set(idx, byte);
}

/// Overwrites four bytes of `data` with the big-endian bytes of `w`.
pub(crate) fn write_word_be(data: &mut Vec<u8>, i: usize, w: u32)
    requires
        i + 4 <= old(data).len(),
    ensures
        final(data)@ == old(data)@.update(i as int, be_bytes_u32(w)[0]).update(i + 1, be_bytes_u32(w)[1])
            .update(i + 2, be_bytes_u32(w)[2]).update(i + 3, be_bytes_u32(w)[3]),
{
    data.set(i, (w >> 24) as u8);
    data.set(i + 1, (w >> 16) as u8);
    data.set(i + 2, (w >> 8) as u8);
    data.set(i + 3, w as u8);
}

// 0x2b - sw
/// Store word: a misaligned address, or one whose word reaches the end of .data,
/// raises an address error, and the big-endian word of rt is stored either way.
/// A word that does not lie inside .data is outside what this accepts.
pub fn sw(program_state: &mut ProgramState, args: IArgs)
    requires
        sw_ok(*old(program_state), args),
    ensures
        sw_effect(*old(program_state), *final(program_state), args),
{
    let ghost pre = *program_state;
    let temp = (program_state.cpu.general_purpose_registers[args.rs as usize] as i32 + args.imm as i32) as u32;
    if temp % 4 != 0 {
        program_state.set_exception(ExceptionType::AddressExceptionStore);
    }
    let ghost mid = *program_state;
    if temp + 4 >= program_state.memory.data_end || temp < program_state.memory.data_start {
        program_state.set_exception(ExceptionType::AddressExceptionStore);
        proof {
            if temp % 4 != 0 {
                lemma_raise_twice(pre, mid, ExceptionType::AddressExceptionStore);
            }
        }
    }
    let start_idx: usize = (temp - program_state.memory.data_start) as usize;
    let w = program_state.cpu.general_purpose_registers[args.rt as usize];
    write_word_be(&mut program_state.memory.data, start_idx, w);
}


/// `jalr` with rd other than 0 links into rd: rd then holds the address the
/// instruction ran with (the counter before the jump), and every other
/// register, `$ra` included, keeps its value.
pub proof fn lemma_jalr_links_rd(pre: ProgramState, post: ProgramState, args: RArgs)
    requires
        args.wf(),
        args.rd != 0,
        jalr_effect(pre, post, args),
    ensures
        regs(post)[args.rd as int] == pre.cpu.pc,
        forall|i: int| 0 <= i < 32 && i != args.rd ==> #[trigger] regs(post)[i] == regs(pre)[i],
{
    vstd::array::array_len_matches_n(&pre.cpu.general_purpose_registers);
}

/// `jalr` with rd 0 links into `$ra` (register 31), and every other register
/// keeps its value.
pub proof fn lemma_jalr_zero_links_ra(pre: ProgramState, post: ProgramState, args: RArgs)
    requires
        args.wf(),
        args.rd == 0,
        jalr_effect(pre, post, args),
    ensures
        regs(post)[31] == pre.cpu.pc,
        forall|i: int| 0 <= i < 31 ==> #[trigger] regs(post)[i] == regs(pre)[i],
{
    vstd::array::array_len_matches_n(&pre.cpu.general_purpose_registers);
}

/// A taken branch moves the counter by four bytes per unit of the immediate
/// read as a signed 16-bit number: from `pc` to `pc + 4 * imm`.
pub proof fn lemma_branch_moves_by_words(pre: ProgramState, post: ProgramState, imm: u32)
    requires
        branches(pre, post, true, imm),
        i32::MIN <= (pre.cpu.pc as i32) as int + 4 * ((imm as u16) as i16) as int <= i32::MAX,
    ensures
        post.cpu.pc == ((pre.cpu.pc as i32) as int + 4 * ((imm as u16) as i16) as int) as u32,
{
}

/// `beq` with equal registers jumps to `pc + 4 * imm` (the immediate read as
/// a signed 16-bit number), and with unequal ones leaves the counter alone.
pub proof fn lemma_beq_target(pre: ProgramState, post: ProgramState, args: IArgs)
    requires
        beq_effect(pre, post, args),
        i32::MIN <= (pre.cpu.pc as i32) as int + 4 * ((args.imm as u16) as i16) as int <= i32::MAX,
    ensures
        regs(pre)[args.rs as int] == regs(pre)[args.rt as int]
            ==> post.cpu.pc == ((pre.cpu.pc as i32) as int + 4 * ((args.imm as u16) as i16) as int) as u32,
        regs(pre)[args.rs as int] != regs(pre)[args.rt as int] ==> post.cpu.pc == pre.cpu.pc,
{
}

} // verus!
