//! The debugger's view of execution: fetching, dispatching by lookup code,
//! breakpoints, and the handling of exceptions.
use vstd::prelude::*;

use crate::implementation::{addi, addiu, addu, and, andi, beq, bgtz, blez, bne, brk, j, jal, jalr, jr, lb, lui, lw, nor, or, ori, sb, sll, slt, slti, sltiu, sltu, srl, subu, sw, syscall, xor, xori, add_ok, addi_ok, addiu_ok, addu_ok, and_ok, andi_ok, beq_ok, bgtz_ok, blez_ok, bne_ok, brk_ok, j_ok, jal_ok, jalr_ok, jr_ok, lb_ok, lui_ok, lw_ok, nor_ok, or_ok, ori_ok, sb_ok, sll_ok, slt_ok, slti_ok, sltiu_ok, sltu_ok, srl_ok, sub_ok, subu_ok, sw_ok, syscall_ok, xor_ok, xori_ok, add_effect, addi_effect, addiu_effect, addu_effect, and_effect, andi_effect, beq_effect, bgtz_effect, blez_effect, bne_effect, brk_effect, j_effect, jal_effect, jalr_effect, jr_effect, lb_effect, lui_effect, lw_effect, nor_effect, or_effect, ori_effect, sb_effect, sll_effect, slt_effect, slti_effect, sltiu_effect, sltu_effect, srl_effect, sub_effect, subu_effect, sw_effect, syscall_effect, xor_effect, xori_effect};
use crate::exception::{can_raise, in_exception, raised, raises, ExceptionType};
use crate::fetch::{fetch, fetch_cp0, fetch_misses, fetched_byte};
use crate::implementation::{address_fits, branch_offset, branch_ok, branch_target, effective_address, i32_sum_fits, in_data_range, in_text_range, jump_target, lemma_raise_again, regs, word_out_of_data};
use crate::information::{instruction_information, known_code, mnemonic_of};
use crate::instruction_fields::lookup_of;
use crate::structs::{out_of_bounds_message, LineInfo, Memory, Processor};
use crate::syscalls::{awaits_input, input_awaited, syscall_handled, OperatingSystem};
use crate::elf_def::{section_views, Elf};
use crate::elf_utils::{find_target_section_index, first_section_named, lemma_first_section_named};
use crate::exception::{bits_of, with_bits, NO_EXCEPTION};
use crate::constants::{register_name, register_str};
use crate::text::{append_fill, append_padded, append_radix, dec_chars, hex_chars, pad_left, parse_unsigned, parse_unsigned_str, trim, trim_str};
use crate::words::{be_bytes_u32, word_from_bytes};
use crate::words::word_from_be;
use crate::instruction_fields::{iargs_of, jargs_of, rargs_of, IArgs, JArgs, RArgs, RawInstruction};
use crate::structs::ProgramState;

verus! {

/// What the instruction `w`, whose lookup code is `code`, needs of the state `s`.
pub open spec fn code_ok(code: u32, s: ProgramState, w: u32) -> bool {
    if code == 0x0 { sll_ok(s, rargs_of(w)) }
    else if code == 0x2 { srl_ok(s, rargs_of(w)) }
    else if code == 0x8 { jr_ok(s, rargs_of(w)) }
    else if code == 0x9 { jalr_ok(s, rargs_of(w)) }
    else if code == 0xC { syscall_ok(s, rargs_of(w)) }
    else if code == 0xD { brk_ok(s, rargs_of(w)) }
    else if code == 0x20 { add_ok(s, rargs_of(w)) }
    else if code == 0x21 { addu_ok(s, rargs_of(w)) }
    else if code == 0x22 { sub_ok(s, rargs_of(w)) }
    else if code == 0x23 { subu_ok(s, rargs_of(w)) }
    else if code == 0x24 { and_ok(s, rargs_of(w)) }
    else if code == 0x25 { or_ok(s, rargs_of(w)) }
    else if code == 0x26 { xor_ok(s, rargs_of(w)) }
    else if code == 0x27 { nor_ok(s, rargs_of(w)) }
    else if code == 0x2A { slt_ok(s, rargs_of(w)) }
    else if code == 0x2B { sltu_ok(s, rargs_of(w)) }
    else if code == 0x80 { j_ok(s, jargs_of(w)) }
    else if code == 0xC0 { jal_ok(s, jargs_of(w)) }
    else if code == 0x100 { beq_ok(s, iargs_of(w)) }
    else if code == 0x140 { bne_ok(s, iargs_of(w)) }
    else if code == 0x180 { blez_ok(s, iargs_of(w)) }
    else if code == 0x1C0 { bgtz_ok(s, iargs_of(w)) }
    else if code == 0x200 { addi_ok(s, iargs_of(w)) }
    else if code == 0x240 { addiu_ok(s, iargs_of(w)) }
    else if code == 0x280 { slti_ok(s, iargs_of(w)) }
    else if code == 0x2C0 { sltiu_ok(s, iargs_of(w)) }
    else if code == 0x300 { andi_ok(s, iargs_of(w)) }
    else if code == 0x340 { ori_ok(s, iargs_of(w)) }
    else if code == 0x380 { xori_ok(s, iargs_of(w)) }
    else if code == 0x3C0 { lui_ok(s, iargs_of(w)) }
    else if code == 0x800 { lb_ok(s, iargs_of(w)) }
    else if code == 0x8C0 { lw_ok(s, iargs_of(w)) }
    else if code == 0xA00 { sb_ok(s, iargs_of(w)) }
    else if code == 0xAC0 { sw_ok(s, iargs_of(w)) }
    else { true }
}

/// What the instruction `w`, whose lookup code is `code`, does: `post` is the
/// state after it runs on `pre`.
pub open spec fn code_effect(code: u32, pre: ProgramState, post: ProgramState, w: u32) -> bool {
    if code == 0x0 { sll_effect(pre, post, rargs_of(w)) }
    else if code == 0x2 { srl_effect(pre, post, rargs_of(w)) }
    else if code == 0x8 { jr_effect(pre, post, rargs_of(w)) }
    else if code == 0x9 { jalr_effect(pre, post, rargs_of(w)) }
    else if code == 0xC { syscall_effect(pre, post, rargs_of(w)) }
    else if code == 0xD { brk_effect(pre, post, rargs_of(w)) }
    else if code == 0x20 { add_effect(pre, post, rargs_of(w)) }
    else if code == 0x21 { addu_effect(pre, post, rargs_of(w)) }
    else if code == 0x22 { sub_effect(pre, post, rargs_of(w)) }
    else if code == 0x23 { subu_effect(pre, post, rargs_of(w)) }
    else if code == 0x24 { and_effect(pre, post, rargs_of(w)) }
    else if code == 0x25 { or_effect(pre, post, rargs_of(w)) }
    else if code == 0x26 { xor_effect(pre, post, rargs_of(w)) }
    else if code == 0x27 { nor_effect(pre, post, rargs_of(w)) }
    else if code == 0x2A { slt_effect(pre, post, rargs_of(w)) }
    else if code == 0x2B { sltu_effect(pre, post, rargs_of(w)) }
    else if code == 0x80 { j_effect(pre, post, jargs_of(w)) }
    else if code == 0xC0 { jal_effect(pre, post, jargs_of(w)) }
    else if code == 0x100 { beq_effect(pre, post, iargs_of(w)) }
    else if code == 0x140 { bne_effect(pre, post, iargs_of(w)) }
    else if code == 0x180 { blez_effect(pre, post, iargs_of(w)) }
    else if code == 0x1C0 { bgtz_effect(pre, post, iargs_of(w)) }
    else if code == 0x200 { addi_effect(pre, post, iargs_of(w)) }
    else if code == 0x240 { addiu_effect(pre, post, iargs_of(w)) }
    else if code == 0x280 { slti_effect(pre, post, iargs_of(w)) }
    else if code == 0x2C0 { sltiu_effect(pre, post, iargs_of(w)) }
    else if code == 0x300 { andi_effect(pre, post, iargs_of(w)) }
    else if code == 0x340 { ori_effect(pre, post, iargs_of(w)) }
    else if code == 0x380 { xori_effect(pre, post, iargs_of(w)) }
    else if code == 0x3C0 { lui_effect(pre, post, iargs_of(w)) }
    else if code == 0x800 { lb_effect(pre, post, iargs_of(w)) }
    else if code == 0x8C0 { lw_effect(pre, post, iargs_of(w)) }
    else if code == 0xA00 { sb_effect(pre, post, iargs_of(w)) }
    else if code == 0xAC0 { sw_effect(pre, post, iargs_of(w)) }
    else { false }
}

/// Runs the implemented instruction `w`, whose lookup code is `code`.
pub fn execute(program_state: &mut ProgramState, code: u32, w: u32)
    requires
        known_code(code),
        code_ok(code, *old(program_state), w),
    ensures
        code_effect(code, *old(program_state), *final(program_state), w),
{
    let raw = RawInstruction::new(w);
    if code == 0x0 {
        sll(program_state, RArgs::of(raw));
    } else if code == 0x2 {
        srl(program_state, RArgs::of(raw));
    } else if code == 0x8 {
        jr(program_state, RArgs::of(raw));
    } else if code == 0x9 {
        jalr(program_state, RArgs::of(raw));
    } else if code == 0xC {
        syscall(program_state, RArgs::of(raw));
    } else if code == 0xD {
        brk(program_state, RArgs::of(raw));
    } else if code == 0x20 {
        crate::implementation::add(program_state, RArgs::of(raw));
    } else if code == 0x21 {
        addu(program_state, RArgs::of(raw));
    } else if code == 0x22 {
        crate::implementation::sub(program_state, RArgs::of(raw));
    } else if code == 0x23 {
        subu(program_state, RArgs::of(raw));
    } else if code == 0x24 {
        and(program_state, RArgs::of(raw));
    } else if code == 0x25 {
        or(program_state, RArgs::of(raw));
    } else if code == 0x26 {
        xor(program_state, RArgs::of(raw));
    } else if code == 0x27 {
        nor(program_state, RArgs::of(raw));
    } else if code == 0x2A {
        slt(program_state, RArgs::of(raw));
    } else if code == 0x2B {
        sltu(program_state, RArgs::of(raw));
    } else if code == 0x80 {
        j(program_state, JArgs::of(raw));
    } else if code == 0xC0 {
        jal(program_state, JArgs::of(raw));
    } else if code == 0x100 {
        beq(program_state, IArgs::of(raw));
    } else if code == 0x140 {
        bne(program_state, IArgs::of(raw));
    } else if code == 0x180 {
        blez(program_state, IArgs::of(raw));
    } else if code == 0x1C0 {
        bgtz(program_state, IArgs::of(raw));
    } else if code == 0x200 {
        addi(program_state, IArgs::of(raw));
    } else if code == 0x240 {
        addiu(program_state, IArgs::of(raw));
    } else if code == 0x280 {
        slti(program_state, IArgs::of(raw));
    } else if code == 0x2C0 {
        sltiu(program_state, IArgs::of(raw));
    } else if code == 0x300 {
        andi(program_state, IArgs::of(raw));
    } else if code == 0x340 {
        ori(program_state, IArgs::of(raw));
    } else if code == 0x380 {
        xori(program_state, IArgs::of(raw));
    } else if code == 0x3C0 {
        lui(program_state, IArgs::of(raw));
    } else if code == 0x800 {
        lb(program_state, IArgs::of(raw));
    } else if code == 0x8C0 {
        lw(program_state, IArgs::of(raw));
    } else if code == 0xA00 {
        sb(program_state, IArgs::of(raw));
    } else if code == 0xAC0 {
        sw(program_state, IArgs::of(raw));
    }
}


/// The word a fetch at the program counter of `s` reads.
pub open spec fn fetched_word(s: ProgramState) -> u32 {
    let m = s.memory;
    let pc = s.cpu.pc;
    word_from_be(fetched_byte(m, pc as int), fetched_byte(m, pc + 1), fetched_byte(m, pc + 2), fetched_byte(m, pc + 3))
}

/// `s` with the program counter moved past the current instruction.
pub open spec fn advanced(s: ProgramState) -> ProgramState {
    ProgramState { cpu: Processor { pc: (s.cpu.pc + 4) as u32, ..s.cpu }, ..s }
}

/// Whether a single step can be taken from `s`: a counter outside .text may
/// raise; otherwise the fetched word may raise where it is missing or unknown,
/// and a known instruction has what it needs once the counter has moved on.
pub open spec fn step_ok(s: ProgramState) -> bool {
    let pc = s.cpu.pc;
    let m = s.memory;
    let w = fetched_word(s);
    let code = lookup_of(w);
    if !(m.text_start <= pc < m.text_end) {
        can_raise(s)
    } else {
        &&& pc <= u32::MAX - 3
        &&& fetch_misses(m, pc) ==> can_raise(s)
        &&& !known_code(code) ==> (can_raise(s) || fetch_misses(m, pc))
        &&& known_code(code) ==> pc <= u32::MAX - 4 && code_ok(code, advanced(s), w)
    }
}

/// What a single step from `pre` gives `post`: a counter outside .text raises an
/// address error; an unknown instruction raises a reserved-instruction
/// exception; a known one runs with the counter moved on, and `$zero` is
/// cleared after it.
pub open spec fn step_effect(pre: ProgramState, post: ProgramState) -> bool {
    let pc = pre.cpu.pc;
    let m = pre.memory;
    let w = fetched_word(pre);
    let code = lookup_of(w);
    if !(m.text_start <= pc < m.text_end) {
        raises(pre, post, ExceptionType::AddressExceptionLoad)
    } else if !known_code(code) {
        raises(pre, post, ExceptionType::ReservedInstruction)
    } else {
        exists|mid: ProgramState, out: ProgramState| {
            &&& #[trigger] mid.cp0.registers@ == fetch_cp0(pre)
            &&& mid.cp0.debug_mode == pre.cp0.debug_mode
            &&& mid.cpu.pc == pc + 4
            &&& mid.cpu.general_purpose_registers == pre.cpu.general_purpose_registers
            &&& mid.memory == pre.memory
            &&& mid.should_continue_execution == pre.should_continue_execution
            &&& #[trigger] code_effect(code, mid, out, w)
            &&& post.cpu.general_purpose_registers@ == out.cpu.general_purpose_registers@.update(0, 0)
            &&& post.cpu.pc == out.cpu.pc
            &&& post.cp0 == out.cp0
            &&& post.memory == out.memory
            &&& post.should_continue_execution == out.should_continue_execution
        }
    }
}

/// What an instruction needs does not depend on coprocessor 0 once the counter is past the first word.
proof fn lemma_code_ok_cp0(code: u32, a: ProgramState, b: ProgramState, w: u32)
    requires
        code_ok(code, a, w),
        a.cpu == b.cpu,
        a.memory == b.memory,
        a.cpu.pc >= 4,
    ensures
        code_ok(code, b, w),
{
    assert(can_raise(b));
}

/// `$zero` stays zero: a step from a state whose `$zero` is zero leaves it zero,
/// whether the step raised an exception or ran an instruction.
pub proof fn lemma_step_keeps_zero(pre: ProgramState, post: ProgramState)
    requires
        pre.cpu.general_purpose_registers@[0] == 0,
        step_effect(pre, post),
    ensures
        post.cpu.general_purpose_registers@[0] == 0,
{
    let pc = pre.cpu.pc;
    let m = pre.memory;
    let code = lookup_of(fetched_word(pre));
    if !(m.text_start <= pc < m.text_end) {
    } else if !known_code(code) {
    } else {
        let (mid, out) = choose|mid: ProgramState, out: ProgramState| {
            &&& #[trigger] mid.cp0.registers@ == fetch_cp0(pre)
            &&& mid.cp0.debug_mode == pre.cp0.debug_mode
            &&& mid.cpu.pc == pc + 4
            &&& mid.cpu.general_purpose_registers == pre.cpu.general_purpose_registers
            &&& mid.memory == pre.memory
            &&& mid.should_continue_execution == pre.should_continue_execution
            &&& #[trigger] code_effect(code, mid, out, fetched_word(pre))
            &&& post.cpu.general_purpose_registers@ == out.cpu.general_purpose_registers@.update(0, 0)
            &&& post.cpu.pc == out.cpu.pc
            &&& post.cp0 == out.cp0
            &&& post.memory == out.memory
            &&& post.should_continue_execution == out.should_continue_execution
        };
        assert(out.cpu.general_purpose_registers@.len() == 32);
    }
}

/// A step keeps the program's layout and code: the bounds of .data and .text
/// and every byte of .text stay as they were (only .data can be written).
pub proof fn lemma_step_keeps_layout(pre: ProgramState, post: ProgramState)
    requires
        step_effect(pre, post),
    ensures
        post.memory.text == pre.memory.text,
        post.memory.data_start == pre.memory.data_start,
        post.memory.data_end == pre.memory.data_end,
        post.memory.text_start == pre.memory.text_start,
        post.memory.text_end == pre.memory.text_end,
{
    let pc = pre.cpu.pc;
    let m = pre.memory;
    let w = fetched_word(pre);
    let code = lookup_of(w);
    if !(m.text_start <= pc < m.text_end) {
    } else if !known_code(code) {
    } else {
        let (mid, out) = choose|mid: ProgramState, out: ProgramState| {
            &&& #[trigger] mid.cp0.registers@ == fetch_cp0(pre)
            &&& mid.cp0.debug_mode == pre.cp0.debug_mode
            &&& mid.cpu.pc == pc + 4
            &&& mid.cpu.general_purpose_registers == pre.cpu.general_purpose_registers
            &&& mid.memory == pre.memory
            &&& mid.should_continue_execution == pre.should_continue_execution
            &&& #[trigger] code_effect(code, mid, out, w)
            &&& post.cpu.general_purpose_registers@ == out.cpu.general_purpose_registers@.update(0, 0)
            &&& post.cpu.pc == out.cpu.pc
            &&& post.cp0 == out.cp0
            &&& post.memory == out.memory
            &&& post.should_continue_execution == out.should_continue_execution
        };
        assert(code_effect(code, mid, out, w));
    }
}

/// Executes the instruction at the program counter (see `step_effect`).
pub fn single_step(_lineinfo: &Vec<LineInfo>, program_state: &mut ProgramState)
    requires
        step_ok(*old(program_state)),
    ensures
        step_effect(*old(program_state), *final(program_state)),
{
    let ghost pre = *program_state;
    if !program_state.memory.allows_execution_of(program_state.cpu.pc) {
        program_state.set_exception(ExceptionType::AddressExceptionLoad);
        return;
    }
    let raw_instruction = fetch(program_state);
    let ghost fetched = *program_state;
    let w = raw_instruction.raw;
    let code = RawInstruction::new(w).get_lookup();
    match instruction_information(code) {
        None => {
            assert(can_raise(fetched)) by {
                if fetch_misses(pre.memory, pre.cpu.pc) {
                    crate::exception::lemma_raised_in_exception(pre, ExceptionType::BusFetch);
                    assert(fetched.cp0.registers@[12] == raised(pre, ExceptionType::BusFetch)[12]);
                    assert(in_exception(fetched.cp0));
                }
            }
            program_state.set_exception(ExceptionType::ReservedInstruction);
            proof {
                if fetch_misses(pre.memory, pre.cpu.pc) {
                    lemma_raise_again(pre, fetched, ExceptionType::BusFetch, ExceptionType::ReservedInstruction);
                }
            }
            return;
        },
        Some(_) => {},
    }
    program_state.cpu.pc = program_state.cpu.pc + 4;
    let ghost mid = *program_state;
    proof { lemma_code_ok_cp0(code, advanced(pre), mid, w); }
    execute(program_state, code, w);
    let ghost out = *program_state;
    program_state.cpu.general_purpose_registers[0] = 0;
    assert(mid.cp0.registers@ == fetch_cp0(pre) && code_effect(code, mid, out, w));
}


/// The break instruction that carries breakpoint number `bp_num` in its code field.
pub open spec fn break_word(bp_num: usize) -> u32 {
    (((bp_num as u32) << 6u32) | 13u32) as u32
}

/// The first of the four bytes at `address`, from the `i`-th on, that memory
/// does not hold (4 when it holds them all).
pub open spec fn first_missing(m: Memory, address: u32, i: int) -> int
    decreases 4 - i,
{
    if i >= 4 {
        4
    } else if m.byte_at((address + i) as u32) is None {
        i
    } else {
        first_missing(m, address, i + 1)
    }
}

/// The first missing byte is found among the bytes searched.
pub proof fn lemma_first_missing_range(m: Memory, address: u32, i: int)
    requires
        0 <= i <= 4,
    ensures
        i <= first_missing(m, address, i) <= 4,
    decreases 4 - i,
{
    if i < 4 {
        lemma_first_missing_range(m, address, i + 1);
    }
}

/// Whether `post` has the same segments as `pre`, holds bytes where `pre` does,
/// and reads `bytes[a - address]` at each `a` in `lo..hi` (offsets from `address`)
/// and what `pre` reads elsewhere.
pub open spec fn overwritten(pre: Memory, post: Memory, address: u32, bytes: Seq<u8>, lo: int, hi: int) -> bool {
    &&& post.data_start == pre.data_start
    &&& post.data_end == pre.data_end
    &&& post.text_start == pre.text_start
    &&& post.text_end == pre.text_end
    &&& post.data@.len() == pre.data@.len()
    &&& post.text@.len() == pre.text@.len()
    &&& forall|a: u32| #[trigger] post.byte_at(a) == if address + lo <= a < address + hi {
        Some(bytes[a - address])
    } else {
        pre.byte_at(a)
    }
}

/// The message for a breakpoint address outside .text.
pub open spec fn outside_text_message(address: u32) -> Seq<char> {
    " - Address 0x"@ + hex_chars(address as nat) + " is out of bounds."@
}

/// The word memory holds at `address`.
pub open spec fn word_held(m: Memory, address: u32) -> u32 {
    word_from_be(m.byte_at(address)->0, m.byte_at((address + 1) as u32)->0,
        m.byte_at((address + 2) as u32)->0, m.byte_at((address + 3) as u32)->0)
}

/// Taking a breakpoint out undoes putting it in: once `insert_breakpoint` has
/// replaced all four bytes at `address` with a break word and handed back the
/// word held there, writing that word back as `remove_breakpoint` does gives
/// every address the byte it held before, with the same layout.
pub proof fn lemma_breakpoint_round_trip(m0: Memory, m1: Memory, m2: Memory, address: u32, bp_num: usize)
    requires
        address <= u32::MAX - 3,
        first_missing(m0, address, 0) == 4,
        overwritten(m0, m1, address, be_bytes_u32(break_word(bp_num)), 0, 4),
        overwritten(m1, m2, address, be_bytes_u32(word_held(m0, address)), last_missing(m1, address, 3) + 1, 4),
    ensures
        last_missing(m1, address, 3) == -1,
        m2.data_start == m0.data_start,
        m2.data_end == m0.data_end,
        m2.text_start == m0.text_start,
        m2.text_end == m0.text_end,
        forall|a: u32| #[trigger] m2.byte_at(a) == m0.byte_at(a),
{
    let bw = be_bytes_u32(break_word(bp_num));
    assert(bw.len() == 4);
    assert(m0.byte_at(address) is Some);
    assert(m0.byte_at((address + 1) as u32) is Some);
    assert(m0.byte_at((address + 2) as u32) is Some);
    assert(m0.byte_at((address + 3) as u32) is Some);
    assert(m1.byte_at(address) is Some);
    assert(m1.byte_at((address + 1) as u32) is Some);
    assert(m1.byte_at((address + 2) as u32) is Some);
    assert(m1.byte_at((address + 3) as u32) is Some);
    assert(last_missing(m1, address, 3) == -1) by {
        reveal_with_fuel(last_missing, 5);
        assert(m1.byte_at((address + 0) as u32) == m1.byte_at(address));
    }
    let b0 = m0.byte_at(address)->0;
    let b1 = m0.byte_at((address + 1) as u32)->0;
    let b2 = m0.byte_at((address + 2) as u32)->0;
    let b3 = m0.byte_at((address + 3) as u32)->0;
    crate::words::lemma_bytes_roundtrip(b0, b1, b2, b3);
    let back = be_bytes_u32(word_held(m0, address));
    assert(back == seq![b0, b1, b2, b3]);
    assert forall|a: u32| #[trigger] m2.byte_at(a) == m0.byte_at(a) by {
        assert(m2.byte_at(a) == m2.byte_at(a));
        assert(m1.byte_at(a) == m1.byte_at(a));
        if address <= a < address + 4 {
            let i = a - address;
            if i == 0 { assert(a == address); }
            if i == 1 { assert(a == (address + 1) as u32); }
            if i == 2 { assert(a == (address + 2) as u32); }
            if i == 3 { assert(a == (address + 3) as u32); }
        }
    }
}

impl ProgramState {
    /// Replaces the instruction at `address` with a break instruction carrying
    /// `bp_num`, and returns the replaced instruction. The address must lie in
    /// .text; a byte memory does not hold stops the replacement there.
    pub fn insert_breakpoint(&mut self, address: u32, bp_num: usize) -> (r: Result<u32, String>)
        requires
            old(self).memory.text_start <= address < old(self).memory.text_end ==> address <= u32::MAX - 3,
        ensures
            final(self).cpu == old(self).cpu,
            final(self).cp0 == old(self).cp0,
            final(self).should_continue_execution == old(self).should_continue_execution,
            !(old(self).memory.text_start <= address < old(self).memory.text_end) ==> {
                &&& r matches Err(e) && e@ == outside_text_message(address)
                &&& final(self).memory == old(self).memory
            },
            old(self).memory.text_start <= address < old(self).memory.text_end ==> {
                let k = first_missing(old(self).memory, address, 0);
                &&& overwritten(old(self).memory, final(self).memory, address, be_bytes_u32(break_word(bp_num)), 0, k)
                &&& k < 4 ==> (r matches Err(e) && e@ == out_of_bounds_message((address + k) as u32))
                &&& k == 4 ==> r == Ok::<u32, String>(word_held(old(self).memory, address))
            },
    {
        if !self.memory.allows_execution_of(address) {
            let mut m = String::new();
            m.append(" - Address 0x");
            append_radix(&mut m, address as u64, 16);
            m.append(" is out of bounds.");
            proof { reveal_strlit(" - Address 0x"); reveal_strlit(" is out of bounds."); }
            return Err(m);
        }
        let ghost pre = self.memory;
        let break_inst: u32 = ((bp_num as u32) << 6) | 0b001101;
        let ghost bb = be_bytes_u32(break_inst);
        let mut old_word: Vec<u8> = Vec::new();
        let mut i: u32 = 0;
        while i < 4
            invariant
                address <= u32::MAX - 3,
                pre == old(self).memory,
                old(self).memory.text_start <= address < old(self).memory.text_end,
                i <= 4,
                bb == be_bytes_u32(break_word(bp_num)),
                break_inst == break_word(bp_num),
                first_missing(pre, address, 0) == first_missing(pre, address, i as int),
                overwritten(pre, self.memory, address, bb, 0, i as int),
                old_word@.len() == i,
                forall|j: int| 0 <= j < i ==> pre.byte_at((address + j) as u32) == Some(#[trigger] old_word@[j]),
                self.cpu == old(self).cpu,
                self.cp0 == old(self).cp0,
                self.should_continue_execution == old(self).should_continue_execution,
            decreases 4 - i,
        {
            let byte: u8 = (break_inst >> (24 - 8 * i)) as u8;
            assert(byte == bb[i as int]) by {
                if i == 0 {
                    assert(24 - 8 * i == 24);
                } else if i == 1 {
                    assert(24 - 8 * i == 16);
                } else if i == 2 {
                    assert(24 - 8 * i == 8);
                } else {
                    assert(24 - 8 * i == 0);
                    assert(break_inst >> 0u32 == break_inst) by (bit_vector);
                }
            }
            let ghost before = self.memory;
            assert(before.byte_at((address + i) as u32) == pre.byte_at((address + i) as u32));
            match self.memory.read_byte(address + i) {
                Ok(b) => { old_word.push(b); },
                Err(e) => {
                    return Err(e);
                },
            }
            match self.memory.set_byte(address + i, byte) {
                Ok(_) => {},
                Err(e) => {
                    return Err(e);
                },
            }
            proof {
                crate::structs::lemma_read_after_store(before, self.memory, (address + i) as u32, byte);
                assert forall|a: u32| #[trigger] self.memory.byte_at(a) == if address + 0 <= a < address + (i + 1) {
                    Some(bb[a - address])
                } else {
                    pre.byte_at(a)
                } by {
                    if a == address + i {
                    } else {
                        assert(self.memory.byte_at(a) == before.byte_at(a));
                    }
                }
            }
            i = i + 1;
        }
        let old_instruction = word_from_bytes(old_word[0], old_word[1], old_word[2], old_word[3]);
        proof {
            assert(pre.byte_at((address + 0) as u32) == Some(old_word@[0]));
            assert(pre.byte_at((address + 1) as u32) == Some(old_word@[1]));
            assert(pre.byte_at((address + 2) as u32) == Some(old_word@[2]));
            assert(pre.byte_at((address + 3) as u32) == Some(old_word@[3]));
        }
        Ok(old_instruction)
    }
}


/// A breakpoint: the break instruction put in place of the instruction at
/// `address` (source line `line_num`), and whether it was just passed.
#[derive(Clone, Copy, Debug)]
pub struct Breakpoint {
    pub line_num: u32,
    pub address: u32,
    pub replaced_instruction: u32,
    pub already_executed: bool,
}

/// The first line whose code starts at `address`.
pub open spec fn line_starting_at(lineinfo: Seq<LineInfo>, address: u32, i: int) -> Option<int>
    decreases lineinfo.len() - i,
{
    if i < 0 || i >= lineinfo.len() {
        None
    } else if lineinfo[i].start_address == address {
        Some(i)
    } else {
        line_starting_at(lineinfo, address, i + 1)
    }
}

/// Whether putting a breakpoint at `address` in `m` succeeds.
pub open spec fn insertable(m: Memory, address: u32) -> bool {
    m.text_start <= address < m.text_end && first_missing(m, address, 0) == 4
}

/// The message for a breakpoint that cannot be put at `address`.
pub open spec fn bad_breakpoint_message(address: u32) -> Seq<char> {
    "Attempted breakpoint insertion at invalid address 0x0x"@ + pad_left(hex_chars(address as nat), 6, '0')
        + " - please stick to .text."@
}

impl Breakpoint {
    /// Puts breakpoint `bp_num` at `line_address`, the start of a source line.
    pub fn new(bp_num: usize, line_address: u32, lineinfo: &Vec<LineInfo>, program_state: &mut ProgramState) -> (r: Result<Self, String>)
        requires
            old(program_state).memory.text_start <= line_address < old(program_state).memory.text_end
                ==> line_address <= u32::MAX - 3,
            insertable(old(program_state).memory, line_address) ==> line_starting_at(lineinfo@, line_address, 0) is Some,
        ensures
            final(program_state).cpu == old(program_state).cpu,
            final(program_state).cp0 == old(program_state).cp0,
            final(program_state).should_continue_execution == old(program_state).should_continue_execution,
            ({
                let m0 = old(program_state).memory;
                if !(m0.text_start <= line_address < m0.text_end) {
                    final(program_state).memory == m0
                } else {
                    overwritten(m0, final(program_state).memory, line_address, be_bytes_u32(break_word(bp_num)), 0,
                        first_missing(m0, line_address, 0))
                }
            }),
            !insertable(old(program_state).memory, line_address) ==> (r matches Err(e) && e@ == bad_breakpoint_message(line_address)),
            insertable(old(program_state).memory, line_address) ==> r == Ok::<Breakpoint, String>(Breakpoint {
                line_num: lineinfo@[line_starting_at(lineinfo@, line_address, 0)->0].line_number,
                address: line_address,
                replaced_instruction: word_held(old(program_state).memory, line_address),
                already_executed: false,
            }),
    {
        let mut found: Option<u32> = None;
        let mut i: usize = 0;
        while i < lineinfo.len()
            invariant
                i <= lineinfo@.len(),
                found is None ==> line_starting_at(lineinfo@, line_address, 0) == line_starting_at(lineinfo@, line_address, i as int),
                found matches Some(n) ==> line_starting_at(lineinfo@, line_address, 0) matches Some(k)
                    && lineinfo@[k].line_number == n,
            decreases lineinfo.len() - i,
        {
            if found.is_none() && lineinfo[i].start_address == line_address {
                found = Some(lineinfo[i].line_number);
            }
            i = i + 1;
        }
        proof { lemma_first_missing_range(program_state.memory, line_address, 0); }
        let old_instr = match program_state.insert_breakpoint(line_address, bp_num) {
            Ok(instr) => instr,
            Err(_e) => {
                let mut m = String::new();
                m.append("Attempted breakpoint insertion at invalid address 0x0x");
                proof { reveal_strlit("0"); }
                append_padded(&mut m, line_address as u64, 16, 6, "0");
                m.append(" - please stick to .text.");
                proof {
                    reveal_strlit("Attempted breakpoint insertion at invalid address 0x0x");
                    reveal_strlit(" - please stick to .text.");
                }
                return Err(m);
            },
        };
        let line_num = match found {
            Some(n) => n,
            None => 0,
        };
        Ok(Breakpoint { line_num, address: line_address, replaced_instruction: old_instr, already_executed: false })
    }

    /// Whether the break was just passed (so the replaced instruction has run).
    pub fn already_executed(&self) -> (b: bool)
        ensures
            b == self.already_executed,
    {
        self.already_executed
    }

    /// Toggles whether the break was just passed.
    pub fn flip_execution_status(&mut self)
        ensures
            *final(self) == (Breakpoint { already_executed: !old(self).already_executed, ..*old(self) }),
    {
        self.already_executed = !self.already_executed;
    }
}

/// The debugger's breakpoints, each in the slot of its number (a deleted
/// breakpoint leaves its slot empty), a free number, and the line the `l`
/// command centres on.
pub struct DebuggerState {
    pub global_bp_num: usize,
    pub breakpoints: Vec<Option<Breakpoint>>,
    pub global_list_loc: usize,
}

/// The first empty slot of `slots` at or after `i` (the length when none is).
pub open spec fn first_free(slots: Seq<Option<Breakpoint>>, i: int) -> int
    decreases slots.len() - i,
{
    if i >= slots.len() {
        slots.len() as int
    } else if i >= 0 && slots[i] is None {
        i
    } else {
        first_free(slots, i + 1)
    }
}

/// `first_free` lies between where it starts and the length, and finds an empty slot.
pub proof fn lemma_first_free(slots: Seq<Option<Breakpoint>>, i: int)
    requires
        0 <= i,
    ensures
        i <= first_free(slots, i) || i > slots.len(),
        first_free(slots, i) <= slots.len(),
        first_free(slots, i) < slots.len() ==> slots[first_free(slots, i)] is None,
    decreases slots.len() - i,
{
    if i < slots.len() && slots[i] is Some {
        lemma_first_free(slots, i + 1);
    }
}

impl DebuggerState {
    /// The free number names an empty slot or the end of the list.
    pub open spec fn wf(&self) -> bool {
        &&& self.global_bp_num <= self.breakpoints@.len()
        &&& self.global_bp_num < self.breakpoints@.len() ==> self.breakpoints@[self.global_bp_num as int] is None
    }

    /// No breakpoints, listing centred on line 5.
    pub fn new() -> (d: Self)
        ensures
            d.global_bp_num == 0,
            d.breakpoints@.len() == 0,
            d.global_list_loc == 5,
            d.wf(),
    {
        DebuggerState { global_bp_num: 0, breakpoints: Vec::new(), global_list_loc: 5 }
    }

    /// The range of lines (first and last index, inclusive) listed around line
    /// `lnum` (around the remembered line when `lnum` is 0); the remembered line
    /// moves nine lines on, or back to 5 past the end.
    pub fn list_lines(&mut self, lineinfo: &Vec<LineInfo>, lnum: usize) -> (range: (usize, usize))
        requires
            lineinfo@.len() >= 1,
            (if lnum == 0 { old(self).global_list_loc } else { lnum }) <= usize::MAX - 9,
        ensures
            ({
                let l = if lnum == 0 { old(self).global_list_loc as int } else { lnum as int };
                &&& range.0 == if l >= 5 { l - 5 } else { 0 }
                &&& range.1 == if l + 3 < lineinfo@.len() - 1 { l + 3 } else { lineinfo@.len() - 1 }
                &&& final(self).global_list_loc == if l + 9 <= lineinfo@.len() { l + 9 } else { 5 }
                &&& final(self).global_bp_num == old(self).global_bp_num
                &&& final(self).breakpoints == old(self).breakpoints
            }),
    {
        let mut l = lnum;
        if l == 0 {
            l = self.global_list_loc;
        }
        let begin = l.saturating_sub(5);
        let up = l.saturating_add(3);
        let last = lineinfo.len() - 1;
        let end = if up < last { up } else { last };
        if l + 9 <= lineinfo.len() {
            self.global_list_loc = l + 9;
        } else {
            self.global_list_loc = 5;
        }
        (begin, end)
    }
}


/// The last of the four bytes at `address`, going down from offset `i`, that
/// memory does not hold (-1 when it holds them all).
pub open spec fn last_missing(m: Memory, address: u32, i: int) -> int
    decreases i + 1,
{
    if i < 0 {
        -1
    } else if m.byte_at((address + i) as u32) is None {
        i
    } else {
        last_missing(m, address, i - 1)
    }
}

/// The last missing byte is found among the bytes searched.
pub proof fn lemma_last_missing_range(m: Memory, address: u32, i: int)
    requires
        -1 <= i <= 3,
    ensures
        -1 <= last_missing(m, address, i) <= i,
    decreases i + 1,
{
    if i >= 0 {
        lemma_last_missing_range(m, address, i - 1);
    }
}

/// The message for a wrong number of arguments to command `cmd`.
pub open spec fn arity_message(cmd: Seq<char>, received: nat) -> Seq<char> {
    cmd + " expects 1 argument, received "@ + dec_chars(received)
}

/// `cmd`, " expects 1 argument, received ", and the count.
fn arity_error(cmd: &str, received: usize) -> (s: String)
    ensures
        s@ == arity_message(cmd@, received as nat),
{
    let mut s = String::new();
    s.append(cmd);
    s.append(" expects 1 argument, received ");
    append_radix(&mut s, received as u64, 10);
    proof { reveal_strlit(" expects 1 argument, received "); }
    s
}

impl DebuggerState {
    /// Deletes the breakpoint whose number is `db_args[1]`: its replaced
    /// instruction is written back (from the last byte down; a byte memory does
    /// not hold stops it there), its slot is emptied (every other breakpoint
    /// keeps its number), and its number becomes the free one if it is lower.
    pub fn remove_breakpoint(&mut self, db_args: &Vec<String>, program_state: &mut ProgramState) -> (r: Result<(), String>)
        requires
            db_args@.len() >= 1,
            forall|i: int| 0 <= i < old(self).breakpoints@.len() && (#[trigger] old(self).breakpoints@[i]) is Some
                ==> old(self).breakpoints@[i]->0.address <= u32::MAX - 3,
        ensures
            old(self).wf() ==> final(self).wf(),
            final(program_state).cpu == old(program_state).cpu,
            final(program_state).cp0 == old(program_state).cp0,
            final(program_state).should_continue_execution == old(program_state).should_continue_execution,
            final(self).global_list_loc == old(self).global_list_loc,
            db_args@.len() != 2 ==> (r matches Err(e) && e@ == arity_message("del"@, (db_args@.len() - 1) as nat)
                && *final(self) == *old(self) && final(program_state).memory == old(program_state).memory),
            db_args@.len() == 2 ==> match parse_unsigned(db_args@[1]@, usize::MAX as nat) {
                None => r matches Err(e) && e@ == "del takes an unsigned int as input"@
                    && *final(self) == *old(self) && final(program_state).memory == old(program_state).memory,
                Some(n) => if n >= old(self).breakpoints@.len() || old(self).breakpoints@[n as int] is None {
                    r matches Err(e) && e@ == "Breakpoint "@ + dec_chars(n) + " not found."@
                        && *final(self) == *old(self) && final(program_state).memory == old(program_state).memory
                } else {
                    let bp = old(self).breakpoints@[n as int]->0;
                    let m0 = old(program_state).memory;
                    let k = last_missing(m0, bp.address, 3);
                    &&& overwritten(m0, final(program_state).memory, bp.address, be_bytes_u32(bp.replaced_instruction), k + 1, 4)
                    &&& k >= 0 ==> (r matches Err(e) && e@ == out_of_bounds_message((bp.address + k) as u32)
                        && *final(self) == *old(self))
                    &&& k < 0 ==> {
                        &&& r is Ok
                        &&& final(self).breakpoints@ == old(self).breakpoints@.update(n as int, None)
                        &&& final(self).global_bp_num == if old(self).global_bp_num > n { n as usize } else { old(self).global_bp_num }
                    }
                },
            },
    {
        if db_args.len() != 2 {
            proof { reveal_strlit("del"); }
            return Err(arity_error("del", db_args.len() - 1));
        }
        let bp_num: usize = match parse_unsigned_str(db_args[1].as_str(), usize::MAX as u64) {
            Some(n) => n as usize,
            None => {
                proof { reveal_strlit("del takes an unsigned int as input"); }
                return Err("del takes an unsigned int as input".to_string());
            },
        };
        let slot = if bp_num < self.breakpoints.len() { self.breakpoints[bp_num] } else { None };
        let removed = match slot {
            Some(bp) => bp,
            None => {
                let mut m = String::new();
                m.append("Breakpoint ");
                append_radix(&mut m, bp_num as u64, 10);
                m.append(" not found.");
                proof { reveal_strlit("Breakpoint "); reveal_strlit(" not found."); }
                return Err(m);
            },
        };
        assert(removed.address <= u32::MAX - 3);
        let ghost pre = program_state.memory;
        let ghost bb = be_bytes_u32(removed.replaced_instruction);
        proof { lemma_last_missing_range(pre, removed.address, 3); }
        let mut i: u32 = 0;
        while i < 4
            invariant
                removed.address <= u32::MAX - 3,
                db_args@.len() == 2,
                parse_unsigned(db_args@[1]@, usize::MAX as nat) == Some(bp_num as nat),
                bp_num < old(self).breakpoints@.len(),
                old(self).breakpoints@[bp_num as int] == Some(removed),
                *self == *old(self),
                pre == old(program_state).memory,
                bb == be_bytes_u32(removed.replaced_instruction),
                i <= 4,
                last_missing(pre, removed.address, 3) == last_missing(pre, removed.address, 3 - i),
                overwritten(pre, program_state.memory, removed.address, bb, 4 - i, 4),
                program_state.cpu == old(program_state).cpu,
                program_state.cp0 == old(program_state).cp0,
                program_state.should_continue_execution == old(program_state).should_continue_execution,
            decreases 4 - i,
        {
            let new_byte: u8 = ((removed.replaced_instruction >> (i * 8)) & 0xFF) as u8;
            assert(new_byte == bb[3 - i]) by {
                let w = removed.replaced_instruction;
                if i == 0 {
                    assert(((w >> 0u32) & 0xFFu32) as u8 == w as u8) by (bit_vector);
                } else if i == 1 {
                    assert(((w >> 8u32) & 0xFFu32) as u8 == (w >> 8u32) as u8) by (bit_vector);
                } else if i == 2 {
                    assert(((w >> 16u32) & 0xFFu32) as u8 == (w >> 16u32) as u8) by (bit_vector);
                } else {
                    assert(((w >> 24u32) & 0xFFu32) as u8 == (w >> 24u32) as u8) by (bit_vector);
                }
            }
            let ghost before = program_state.memory;
            let a = removed.address + (3 - i);
            assert(before.byte_at(a) == pre.byte_at(a));
            match program_state.memory.set_byte(a, new_byte) {
                Ok(_) => {},
                Err(e) => {
                    proof {
                        assert(pre.byte_at((removed.address + (3 - i)) as u32) is None);
                        assert(last_missing(pre, removed.address, 3 - i) == 3 - i);
                        crate::structs::lemma_read_after_store(before, program_state.memory, a, new_byte);
                    }
                    return Err(e);
                },
            }
            proof {
                crate::structs::lemma_read_after_store(before, program_state.memory, a, new_byte);
                assert(before.byte_at(a) == pre.byte_at(a));
                assert forall|x: u32| #[trigger] program_state.memory.byte_at(x) == if removed.address + (4 - (i + 1)) <= x < removed.address + 4 {
                    Some(bb[x - removed.address])
                } else {
                    pre.byte_at(x)
                } by {
                    if x != a {
                        assert(program_state.memory.byte_at(x) == before.byte_at(x));
                    }
                }
            }
            i = i + 1;
        }
        self.breakpoints.set(bp_num, None);
        if self.global_bp_num > bp_num {
            self.global_bp_num = bp_num;
        }
        Ok(())
    }
}


/// The first line numbered `n`.
pub open spec fn line_numbered(lineinfo: Seq<LineInfo>, n: u32, i: int) -> Option<int>
    decreases lineinfo.len() - i,
{
    if i < 0 || i >= lineinfo.len() {
        None
    } else if lineinfo[i].line_number == n {
        Some(i)
    } else {
        line_numbered(lineinfo, n, i + 1)
    }
}

/// A line that starts at `address` is found by the search from any earlier line.
proof fn lemma_line_starting_found(lineinfo: Seq<LineInfo>, address: u32, i: int, k: int)
    requires
        0 <= i <= k < lineinfo.len(),
        lineinfo[k].start_address == address,
    ensures
        line_starting_at(lineinfo, address, i) is Some,
    decreases k - i,
{
    if lineinfo[i].start_address != address {
        lemma_line_starting_found(lineinfo, address, i + 1, k);
    }
}

/// `slots` with breakpoint `bp` in slot `g`: an empty slot is filled, and a
/// number at the end adds a slot.
pub open spec fn filled(slots: Seq<Option<Breakpoint>>, g: int, bp: Breakpoint) -> Seq<Option<Breakpoint>> {
    if g < slots.len() { slots.update(g, Some(bp)) } else { slots.push(Some(bp)) }
}

/// What adding a breakpoint at source line `n` needs: each line's start inside
/// .text leaves room for a word.
pub open spec fn lines_addressable(lineinfo: Seq<LineInfo>, m: Memory) -> bool {
    forall|i: int| 0 <= i < lineinfo.len() && m.text_start <= (#[trigger] lineinfo[i]).start_address < m.text_end
        ==> lineinfo[i].start_address <= u32::MAX - 3
}

impl DebuggerState {
    /// Adds a breakpoint at the source line `db_args[1]`: the line's first
    /// instruction is replaced by a break carrying the free number, the
    /// breakpoint fills the slot of that number, and the free number moves to
    /// the next empty slot after it. Returns the line number.
    pub fn add_breakpoint(&mut self, lineinfo: &Vec<LineInfo>, db_args: &Vec<String>, program_state: &mut ProgramState)
        -> (r: Result<u32, String>)
        requires
            old(self).wf(),
            db_args@.len() >= 1,
            lineinfo@.len() <= u32::MAX,
            lines_addressable(lineinfo@, old(program_state).memory),
        ensures
            final(self).wf(),
            final(self).global_list_loc == old(self).global_list_loc,
            final(program_state).cpu == old(program_state).cpu,
            final(program_state).cp0 == old(program_state).cp0,
            final(program_state).should_continue_execution == old(program_state).should_continue_execution,
            ({
                let m0 = old(program_state).memory;
                let unchanged = *final(self) == *old(self) && final(program_state).memory == m0;
                if db_args@.len() != 2 {
                    unchanged && (r matches Err(e) && e@ == arity_message("b"@, (db_args@.len() - 1) as nat))
                } else if old(self).breakpoints@.len() > 0xFFFFF {
                    unchanged && (r matches Err(e) && e@ == "Reached maximum number of breakpoints - cannot add any more."@)
                } else {
                    match parse_unsigned(db_args@[1]@, u32::MAX as nat) {
                        None => unchanged && (r matches Err(e) && e@ == "b takes 32-bit unsigned int as input"@),
                        Some(n) => if n > lineinfo@.len() {
                            unchanged && (r matches Err(e) && e@ == dec_chars(n) + " exceeds number of lines in program."@)
                        } else {
                            match line_numbered(lineinfo@, n as u32, 0) {
                                None => unchanged && (r matches Err(e) && e@ == "Line number "@ + dec_chars(n)
                                    + " not found in memory. Something has gone very wrong."@),
                                Some(k) => {
                                    let addr = lineinfo@[k].start_address;
                                    let g = old(self).global_bp_num;
                                    &&& (m0.text_start <= addr < m0.text_end ==> overwritten(m0, final(program_state).memory,
                                        addr, be_bytes_u32(break_word(g)), 0, first_missing(m0, addr, 0)))
                                    &&& (!(m0.text_start <= addr < m0.text_end) ==> final(program_state).memory == m0)
                                    &&& if insertable(m0, addr) {
                                        &&& r == Ok::<u32, String>(n as u32)
                                        &&& final(self).breakpoints@ == filled(old(self).breakpoints@, g as int, Breakpoint {
                                            line_num: lineinfo@[line_starting_at(lineinfo@, addr, 0)->0].line_number,
                                            address: addr,
                                            replaced_instruction: word_held(m0, addr),
                                            already_executed: false,
                                        })
                                        &&& final(self).global_bp_num == first_free(final(self).breakpoints@, g + 1)
                                    } else {
                                        &&& *final(self) == *old(self)
                                        &&& r matches Err(e) && e@ == bad_breakpoint_message(addr)
                                    }
                                },
                            }
                        },
                    }
                }
            }),
    {
        if db_args.len() != 2 {
            proof { reveal_strlit("b"); }
            return Err(arity_error("b", db_args.len() - 1));
        }
        if self.breakpoints.len() > 0xFFFFF {
            proof { reveal_strlit("Reached maximum number of breakpoints - cannot add any more."); }
            return Err("Reached maximum number of breakpoints - cannot add any more.".to_string());
        }
        let line_num: u32 = match parse_unsigned_str(db_args[1].as_str(), u32::MAX as u64) {
            Some(v) => v as u32,
            None => {
                proof { reveal_strlit("b takes 32-bit unsigned int as input"); }
                return Err("b takes 32-bit unsigned int as input".to_string());
            },
        };
        if line_num as usize > lineinfo.len() {
            let mut m = String::new();
            append_radix(&mut m, line_num as u64, 10);
            m.append(" exceeds number of lines in program.");
            proof { reveal_strlit(" exceeds number of lines in program."); }
            return Err(m);
        }
        let mut i: usize = 0;
        let mut found: Option<usize> = None;
        while i < lineinfo.len()
            invariant
                i <= lineinfo@.len(),
                found is None ==> line_numbered(lineinfo@, line_num, 0) == line_numbered(lineinfo@, line_num, i as int),
                found matches Some(k) ==> line_numbered(lineinfo@, line_num, 0) == Some(k as int),
            decreases lineinfo.len() - i,
        {
            if found.is_none() && lineinfo[i].line_number == line_num {
                found = Some(i);
            }
            i = i + 1;
        }
        let k = match found {
            Some(k) => k,
            None => {
                let mut m = String::new();
                m.append("Line number ");
                append_radix(&mut m, line_num as u64, 10);
                m.append(" not found in memory. Something has gone very wrong.");
                proof {
                    reveal_strlit("Line number ");
                    reveal_strlit(" not found in memory. Something has gone very wrong.");
                }
                return Err(m);
            },
        };
        assert(0 <= k < lineinfo@.len()) by {
            lemma_line_numbered_range(lineinfo@, line_num, 0);
        }
        let line_address: u32 = lineinfo[k].start_address;
        proof { lemma_line_starting_found(lineinfo@, line_address, 0, k as int); }
        let new_bp = match Breakpoint::new(self.global_bp_num, line_address, lineinfo, program_state) {
            Ok(bp) => bp,
            Err(e) => {
                return Err(e);
            },
        };
        if self.global_bp_num < self.breakpoints.len() {
            self.breakpoints.set(self.global_bp_num, Some(new_bp));
        } else {
            self.breakpoints.push(Some(new_bp));
        }
        let ghost bps = self.breakpoints@;
        let ghost loc = self.global_list_loc;
        let ghost g = old(self).global_bp_num as int;
        self.global_bp_num = self.global_bp_num + 1;
        while self.global_bp_num < self.breakpoints.len() && self.breakpoints[self.global_bp_num].is_some()
            invariant
                g + 1 <= self.global_bp_num <= self.breakpoints@.len(),
                first_free(bps, g + 1) == first_free(bps, self.global_bp_num as int),
                self.breakpoints@ == bps,
                self.global_list_loc == loc,
            decreases self.breakpoints@.len() - self.global_bp_num,
        {
            self.global_bp_num = self.global_bp_num + 1;
        }
        proof { lemma_first_free(bps, g + 1); }
        Ok(line_num)
    }
}

/// The line found by number lies in the list.
proof fn lemma_line_numbered_range(lineinfo: Seq<LineInfo>, n: u32, i: int)
    requires
        0 <= i,
    ensures
        line_numbered(lineinfo, n, i) matches Some(k) ==> i <= k < lineinfo.len(),
    decreases lineinfo.len() - i,
{
    if i < lineinfo.len() && lineinfo[i].line_number != n {
        lemma_line_numbered_range(lineinfo, n, i + 1);
    }
}


/// One line of a register dump: the name right-aligned in five columns, then
/// the value as eight hex digits.
pub open spec fn register_line(name: Seq<char>, v: u32) -> Seq<char> {
    pad_left(name, 5, ' ') + ": "@ + pad_left(hex_chars(v as nat), 8, '0') + "\n"@
}

/// The dump lines of the first `k` general purpose registers.
pub open spec fn register_lines(regs: Seq<u32>, k: int) -> Seq<char>
    decreases k,
{
    if k <= 0 {
        Seq::empty()
    } else {
        register_lines(regs, k - 1) + register_line(register_name(k - 1), regs[k - 1])
    }
}

/// The dump of every register: the program counter, then `$zero` to `$ra`.
pub open spec fn register_dump_text(s: ProgramState) -> Seq<char> {
    register_line("$pc"@, s.cpu.pc) + register_lines(s.cpu.general_purpose_registers@, 32)
}

/// Appends one dump line.
fn append_register_line(out: &mut String, name: &str, v: u32)
    requires
        name@.len() <= 5,
    ensures
        final(out)@ == old(out)@ + register_line(name@, v),
{
    proof { reveal_strlit(" "); reveal_strlit(": "); reveal_strlit("0"); reveal_strlit("\n"); }
    let n = name.unicode_len();
    append_fill(out, " ", 5 - n);
    out.append(name);
    out.append(": ");
    append_padded(out, v as u64, 16, 8, "0");
    out.append("\n");
    assert(final(out)@ =~= old(out)@ + register_line(name@, v));
}

/// Appends the bytes of `s`.
pub fn append_str_bytes(out: &mut Vec<u8>, s: &str)
    ensures
        final(out)@ == old(out)@ + vstd::utf8::encode_utf8(s@),
{
    let b = s.as_bytes();
    let ghost start = out@;
    let mut i: usize = 0;
    while i < b.len()
        invariant
            i <= b@.len(),
            out@ == start + b@.subrange(0, i as int),
        decreases b.len() - i,
    {
        out.push(b[i]);
        assert(b@.subrange(0, i + 1) =~= b@.subrange(0, i as int).push(b@[i as int]));
        i = i + 1;
    }
    assert(b@.subrange(0, i as int) =~= b@);
}

impl ProgramState {
    /// The text of a register dump.
    pub fn register_dump(&self) -> (text: String)
        ensures
            text@ == register_dump_text(*self),
    {
        let mut out = String::new();
        proof { reveal_strlit("$pc"); }
        append_register_line(&mut out, "$pc", self.cpu.pc);
        let ghost head = out@;
        let mut i: usize = 0;
        while i < 32
            invariant
                i <= 32,
                out@ == head + register_lines(self.cpu.general_purpose_registers@, i as int),
            decreases 32 - i,
        {
            let name = register_str(i);
            append_register_line(&mut out, name, self.cpu.general_purpose_registers[i]);
            i = i + 1;
        }
        out
    }

    /// The register dump for the `pa` command, which takes no argument.
    pub fn print_all_registers(&self, db_args: &Vec<String>) -> (r: Result<String, String>)
        ensures
            db_args@.len() > 1 ==> (r matches Err(e) && e@ == "pa expects 0 arguments, received "@
                + dec_chars((db_args@.len() - 1) as nat)),
            db_args@.len() <= 1 ==> (r matches Ok(t) && t@ == register_dump_text(*self)),
    {
        if db_args.len() > 1 {
            let mut m = String::new();
            m.append("pa expects 0 arguments, received ");
            append_radix(&mut m, (db_args.len() - 1) as u64, 10);
            proof { reveal_strlit("pa expects 0 arguments, received "); }
            return Err(m);
        }
        Ok(self.register_dump())
    }
}

/// The first line whose code covers `address`.
pub open spec fn line_covering(lineinfo: Seq<LineInfo>, address: u32, i: int) -> Option<int>
    decreases lineinfo.len() - i,
{
    if i < 0 || i >= lineinfo.len() {
        None
    } else if lineinfo[i].start_address <= address < lineinfo[i].end_address {
        Some(i)
    } else {
        line_covering(lineinfo, address, i + 1)
    }
}

/// The report of an error at `address`: with the source line that covers it
/// (number and trimmed text) when there is one.
pub open spec fn error_report(lineinfo: Seq<LineInfo>, address: u32, message: Seq<char>) -> Seq<char> {
    match line_covering(lineinfo, address, 0) {
        None => "[*] At pc 0x"@ + pad_left(hex_chars(address as nat), 8, ' ') + ":\n - "@ + message,
        Some(i) => "[*] At pc 0x"@ + hex_chars(address as nat) + ":\n - "@ + dec_chars(lineinfo[i].line_number as nat)
            + ": "@ + trim(lineinfo[i].content@) + "\n - "@ + message,
    }
}

/// The report of an error at `address` (see `error_report`).
pub fn generate_err(lineinfo: &Vec<LineInfo>, address: u32, message: &str) -> (s: String)
    ensures
        s@ == error_report(lineinfo@, address, message@),
{
    proof {
        reveal_strlit("[*] At pc 0x");
        reveal_strlit(" ");
        reveal_strlit(":\n - ");
        reveal_strlit(": ");
        reveal_strlit("\n - ");
    }
    let mut i: usize = 0;
    while i < lineinfo.len()
        invariant
            i <= lineinfo@.len(),
            line_covering(lineinfo@, address, 0) == line_covering(lineinfo@, address, i as int),
        decreases lineinfo.len() - i,
    {
        let li = &lineinfo[i];
        if li.start_address <= address && address < li.end_address {
            let mut s = String::new();
            s.append("[*] At pc 0x");
            append_radix(&mut s, address as u64, 16);
            s.append(":\n - ");
            append_radix(&mut s, li.line_number as u64, 10);
            s.append(": ");
            s.append(trim_str(li.content.as_str()));
            s.append("\n - ");
            s.append(message);
            return s;
        }
        i = i + 1;
    }
    let mut s = String::new();
    s.append("[*] At pc 0x");
    append_padded(&mut s, address as u64, 16, 8, " ");
    s.append(":\n - ");
    s.append(message);
    s
}


/// The message when no line starts at a breakpoint's address.
pub open spec fn lost_breakpoint_message(address: u32) -> Seq<char> {
    "Line number with associated breakpoint address 0x"@ + hex_chars(address as nat)
        + " not found. Something has gone seriously wrong."@
}

impl OperatingSystem {
    /// Reports the breakpoint at the program counter: its line, then a
    /// register dump, written to the output.
    pub fn handle_breakpoint(&mut self, program_state: &ProgramState, lineinfo: &Vec<LineInfo>, _debugger_state: &DebuggerState)
        -> (r: Result<(), String>)
        ensures
            final(self).stdin == old(self).stdin,
            match line_starting_at(lineinfo@, program_state.cpu.pc, 0) {
                None => (r matches Err(e) && e@ == lost_breakpoint_message(program_state.cpu.pc))
                    && final(self).stdout@ == old(self).stdout@,
                Some(i) => r is Ok && final(self).stdout@ == old(self).stdout@ + vstd::utf8::encode_utf8(
                    "Breakpoint at line "@ + dec_chars(lineinfo@[i].line_number as nat) + " reached.\n"@
                        + register_dump_text(*program_state)),
            },
    {
        let line_addr = program_state.cpu.pc;
        let mut i: usize = 0;
        while i < lineinfo.len()
            invariant
                i <= lineinfo@.len(),
                *self == *old(self),
                line_addr == program_state.cpu.pc,
                line_starting_at(lineinfo@, line_addr, 0) == line_starting_at(lineinfo@, line_addr, i as int),
            decreases lineinfo.len() - i,
        {
            if lineinfo[i].start_address == line_addr {
                let mut text = String::new();
                text.append("Breakpoint at line ");
                append_radix(&mut text, lineinfo[i].line_number as u64, 10);
                text.append(" reached.\n");
                let dump = program_state.register_dump();
                text.append(dump.as_str());
                proof { reveal_strlit("Breakpoint at line "); reveal_strlit(" reached.\n"); }
                append_str_bytes(&mut self.stdout, text.as_str());
                return Ok(());
            }
            i = i + 1;
        }
        let mut m = String::new();
        m.append("Line number with associated breakpoint address 0x");
        append_radix(&mut m, line_addr as u64, 16);
        m.append(" not found. Something has gone seriously wrong.");
        proof {
            reveal_strlit("Line number with associated breakpoint address 0x");
            reveal_strlit(" not found. Something has gone seriously wrong.");
        }
        Err(m)
    }
}

/// What `recover_from_exception` makes of `mid`: EXL cleared, the counter past
/// the faulting instruction, EPC cleared.
pub open spec fn recovered(mid: ProgramState, post: ProgramState) -> bool {
    &&& post.cpu.pc == mid.cp0.registers[14] + 4
    &&& post.cp0.registers@ == mid.cp0.registers@.update(12, with_bits(mid.cp0.registers[12], 0, 1, NO_EXCEPTION)).update(14, 0)
    &&& post.cp0.debug_mode == mid.cp0.debug_mode
    &&& post.cpu.general_purpose_registers == mid.cpu.general_purpose_registers
    &&& post.memory == mid.memory
    &&& post.should_continue_execution == mid.should_continue_execution
}

/// Recovering from an exception goes back to where raising it left off: when a
/// state that is not already handling an exception raises one and the handler
/// recovers, execution continues at the counter the raising state had, outside
/// exception handling, with registers and memory as they were.
pub proof fn lemma_raise_then_recover(pre: ProgramState, mid: ProgramState, post: ProgramState, e: ExceptionType)
    requires
        !in_exception(pre.cp0),
        pre.cpu.pc >= 4,
        raises(pre, mid, e),
        recovered(mid, post),
    ensures
        post.cpu.pc == pre.cpu.pc,
        !in_exception(post.cp0),
        post.cpu.general_purpose_registers == pre.cpu.general_purpose_registers,
        post.memory == pre.memory,
{
    let st = mid.cp0.registers[12];
    crate::exception::lemma_bits_of_with_bits(st, 0, 1, NO_EXCEPTION);
    assert(post.cp0.registers[12] == with_bits(st, 0, 1, NO_EXCEPTION));
    assert(forall|x: u32| #[trigger] (0u32 & x) == 0u32) by (bit_vector);
    assert(NO_EXCEPTION & crate::exception::low_mask(crate::exception::range_len(0, 1)) == 0u32);
}

/// The message an exception that ends the program is reported with.
pub open spec fn fatal_message(e: ExceptionType) -> Seq<char> {
    match e {
        ExceptionType::AddressExceptionLoad => "Illegal address provided for load/fetch; misaligned, unreachable, or unowned address."@,
        ExceptionType::AddressExceptionStore => "Illegal address provided on store operation; misaligned, unreachable, or unowned address."@,
        ExceptionType::BusFetch => "Failed to interpret instruction as word; Unrecognized bytes in ELF .text space."@,
        ExceptionType::BusLoadStore => "Failed to store data in given address."@,
        ExceptionType::ReservedInstruction => "Unrecognized bytes in ELF at program counter."@,
        ExceptionType::CoprocessorUnusable => "Attempted to access a coprocessor without correct operating mode."@,
        ExceptionType::ArithmeticOverflow => "Arithmetic overflow, underflow, or divide by zero detected on instruction."@,
        ExceptionType::FloatingPoint => "Floating point exception occurred."@,
        _ => Seq::empty(),
    }
}

/// Whether `e` ends the program whatever the state.
pub open spec fn is_fatal(e: ExceptionType) -> bool {
    !(e == ExceptionType::Syscall || e == ExceptionType::Breakpoint || e == ExceptionType::Trap)
}

/// The exception recorded in coprocessor 0 of `s`, if its code names one.
pub open spec fn recorded_exception(s: ProgramState) -> Option<ExceptionType> {
    ExceptionType::from_exc_code(bits_of(s.cp0.registers[13], 2, 7))
}

/// Execution resumes from `mid` past the faulting instruction; a return
/// address at the top of the address space cannot be moved past.
pub open spec fn resumed(mid: ProgramState, post: ProgramState, r: Result<(), String>) -> bool {
    if mid.cp0.registers[14] <= u32::MAX - 4 {
        r is Ok && recovered(mid, post)
    } else {
        (r matches Err(e) && e@ == "attempt to add with overflow"@) && post == mid
    }
}

/// What the exception handler does from `pre` (see `handle_exception`).
pub open spec fn exception_handled(pre: ProgramState, post: ProgramState, os0: OperatingSystem, os1: OperatingSystem,
    lineinfo: Seq<LineInfo>, r: Result<(), String>) -> bool {
    let epc = pre.cp0.registers[14];
    match recorded_exception(pre) {
        None => r matches Err(e) && e@ == "Failed to coerce ExcCode "@
            + dec_chars(bits_of(pre.cp0.registers[13], 2, 7) as nat) + " to ExceptionType."@
            && post == pre && os1 == os0,
        Some(ex) => if is_fatal(ex) {
            r matches Err(e) && e@ == error_report(lineinfo, epc, fatal_message(ex))
                && post == pre && os1 == os0
        } else if ex == ExceptionType::Trap {
            r matches Err(e) && e@ == "not yet implemented: Not sure how we want trap to work yet."@
                && post == pre && os1 == os0
        } else if ex == ExceptionType::Syscall {
            exists|mid: ProgramState, sr: Result<(), String>| {
                &&& #[trigger] syscall_handled(pre, mid, os0, os1, sr)
                &&& mid.cp0 == pre.cp0
                &&& match sr {
                    Err(m) => r matches Err(e) && e@ == error_report(lineinfo, epc, "Failed to handle a syscall: "@ + m@)
                        && post == mid,
                    Ok(_) => resumed(mid, post, r),
                }
            }
        } else if !pre.cp0.debug_mode {
            r matches Err(e) && e@ == "Break not recognized outside of debug mode. To run in debug mode, pass -d as a command line argument."@
                && post == pre && os1 == os0
        } else {
            &&& os1.stdin == os0.stdin
            &&& match line_starting_at(lineinfo, pre.cpu.pc, 0) {
                None => (r matches Err(e) && e@ == lost_breakpoint_message(pre.cpu.pc))
                    && os1.stdout@ == os0.stdout@ && post == pre,
                Some(i) => os1.stdout@ == os0.stdout@ + vstd::utf8::encode_utf8(
                    "Breakpoint at line "@ + dec_chars(lineinfo[i].line_number as nat) + " reached.\n"@
                        + register_dump_text(pre)) && resumed(pre, post, r),
            }
        },
    }
}

/// The exception handler: a syscall is performed and a breakpoint (in debug
/// mode) reported, after which execution resumes past the faulting
/// instruction. Every other exception, and a failed syscall, ends the program:
/// the error returned is the report it ends with.
pub fn handle_exception(program_state: &mut ProgramState, os: &mut OperatingSystem, lineinfo: &Vec<LineInfo>,
    debugger_state: &mut DebuggerState) -> (r: Result<(), String>)
    requires
        old(os).stdin.wf(),
    ensures
        final(os).stdin.wf(),
        *final(debugger_state) == *old(debugger_state),
        exception_handled(*old(program_state), *final(program_state), *old(os), *final(os), lineinfo@, r),
{
    let exception_type = match ExceptionType::try_from(program_state.cp0.get_exc_code()) {
        Ok(exc_type) => exc_type,
        Err(e) => {
            return Err(e);
        },
    };
    let epc: u32 = program_state.cp0.get_epc();
    let fatal: &str = match exception_type {
        ExceptionType::AddressExceptionLoad => "Illegal address provided for load/fetch; misaligned, unreachable, or unowned address.",
        ExceptionType::AddressExceptionStore => "Illegal address provided on store operation; misaligned, unreachable, or unowned address.",
        ExceptionType::BusFetch => "Failed to interpret instruction as word; Unrecognized bytes in ELF .text space.",
        ExceptionType::BusLoadStore => "Failed to store data in given address.",
        ExceptionType::ReservedInstruction => "Unrecognized bytes in ELF at program counter.",
        ExceptionType::CoprocessorUnusable => "Attempted to access a coprocessor without correct operating mode.",
        ExceptionType::ArithmeticOverflow => "Arithmetic overflow, underflow, or divide by zero detected on instruction.",
        ExceptionType::FloatingPoint => "Floating point exception occurred.",
        _ => "",
    };
    proof {
        reveal_strlit("Illegal address provided for load/fetch; misaligned, unreachable, or unowned address.");
        reveal_strlit("Illegal address provided on store operation; misaligned, unreachable, or unowned address.");
        reveal_strlit("Failed to interpret instruction as word; Unrecognized bytes in ELF .text space.");
        reveal_strlit("Failed to store data in given address.");
        reveal_strlit("Unrecognized bytes in ELF at program counter.");
        reveal_strlit("Attempted to access a coprocessor without correct operating mode.");
        reveal_strlit("Arithmetic overflow, underflow, or divide by zero detected on instruction.");
        reveal_strlit("Floating point exception occurred.");
        reveal_strlit("");
    }
    match exception_type {
        ExceptionType::Syscall => {
            let ghost pre = *program_state;
            let ghost os0 = *os;
            let handled = os.handle_syscall(program_state);
            let ghost mid = *program_state;
            match handled {
                Err(e) => {
                    let mut m = String::new();
                    m.append("Failed to handle a syscall: ");
                    m.append(e.as_str());
                    proof { reveal_strlit("Failed to handle a syscall: "); }
                    let report = generate_err(lineinfo, epc, m.as_str());
                    assert(syscall_handled(pre, mid, os0, *os, Err::<(), String>(e)));
                    return Err(report);
                },
                Ok(()) => {
                    assert(syscall_handled(pre, mid, os0, *os, Ok::<(), String>(())));
                    if program_state.cp0.get_epc() > u32::MAX - 4 {
                        proof { reveal_strlit("attempt to add with overflow"); }
                        return Err("attempt to add with overflow".to_string());
                    }
                    program_state.recover_from_exception();
                    return Ok(());
                },
            }
        },
        ExceptionType::Breakpoint => {
            if program_state.cp0.is_debug_mode() {
                match os.handle_breakpoint(program_state, lineinfo, debugger_state) {
                    Err(e) => {
                        return Err(e);
                    },
                    Ok(()) => {},
                }
            } else {
                proof { reveal_strlit("Break not recognized outside of debug mode. To run in debug mode, pass -d as a command line argument."); }
                return Err("Break not recognized outside of debug mode. To run in debug mode, pass -d as a command line argument.".to_string());
            }
        },
        ExceptionType::Trap => {
            proof { reveal_strlit("not yet implemented: Not sure how we want trap to work yet."); }
            return Err("not yet implemented: Not sure how we want trap to work yet.".to_string());
        },
        _ => {
            return Err(generate_err(lineinfo, epc, fatal));
        },
    }
    if program_state.cp0.get_epc() > u32::MAX - 4 {
        proof { reveal_strlit("attempt to add with overflow"); }
        return Err("attempt to add with overflow".to_string());
    }
    program_state.recover_from_exception();
    Ok(())
}


/// The code-field mask of a break instruction.
pub open spec fn code_mask() -> u32 {
    0x03FFFFC0
}

/// The first `n` bytes at `base`, masked to the code field, combined as the high bytes of a word.
pub open spec fn masked_partial(m: Memory, base: u32, n: int) -> u32
    decreases n,
{
    if n <= 0 {
        0
    } else {
        let i = n - 1;
        let shift = (24 - 8 * i) as u32;
        masked_partial(m, base, i) | ((((m.byte_at((base + i) as u32)->0) as u32) & ((code_mask() >> shift) & 0xFFu32)) << shift)
    }
}

/// The breakpoint number carried by the break instruction before the program
/// counter (its code field); a byte memory does not hold is the error.
pub fn get_bp_num(program_state: &ProgramState) -> (r: Result<u32, String>)
    requires
        program_state.cpu.pc >= 4,
    ensures
        ({
            let m = program_state.memory;
            let base = (program_state.cpu.pc - 4) as u32;
            let k = first_missing(m, base, 0);
            &&& k < 4 ==> (r matches Err(e) && e@ == out_of_bounds_message((base + k) as u32))
            &&& k == 4 ==> r == Ok::<u32, String>((word_held(m, base) & code_mask()) >> 6u32)
        }),
{
    let bitmask: u32 = 0b00000011111111111111111111000000;
    let mut bp_num: u32 = 0;
    let ghost m = program_state.memory;
    let base: u32 = program_state.cpu.pc - 4;
    proof { lemma_first_missing_range(m, base, 0); }
    let mut i: u32 = 0;
    while i < 4
        invariant
            m == program_state.memory,
            base == program_state.cpu.pc - 4,
            bitmask == code_mask(),
            i <= 4,
            first_missing(m, base, 0) == first_missing(m, base, i as int),
            bp_num == masked_partial(m, base, i as int),
        decreases 4 - i,
    {
        let mut word_portion: u32 = match program_state.memory.read_byte(base + i) {
            Ok(byte) => byte as u32,
            Err(e) => {
                return Err(e);
            },
        };
        word_portion = word_portion & ((bitmask >> (24 - 8 * i)) & 0xff);
        bp_num = bp_num | (word_portion << (24 - 8 * i));
        i = i + 1;
    }
    proof {
        reveal_with_fuel(masked_partial, 5);
        let b0 = m.byte_at(base)->0;
        let b1 = m.byte_at((base + 1) as u32)->0;
        let b2 = m.byte_at((base + 2) as u32)->0;
        let b3 = m.byte_at((base + 3) as u32)->0;
        assert(m.byte_at((base + 0) as u32) == m.byte_at(base));
        assert(((((0u32 | (((b0 as u32) & ((0x03FFFFC0u32 >> 24u32) & 0xFFu32)) << 24u32))
            | (((b1 as u32) & ((0x03FFFFC0u32 >> 16u32) & 0xFFu32)) << 16u32))
            | (((b2 as u32) & ((0x03FFFFC0u32 >> 8u32) & 0xFFu32)) << 8u32))
            | (((b3 as u32) & ((0x03FFFFC0u32 >> 0u32) & 0xFFu32)) << 0u32)) >> 6u32
            == (word_from_be(b0, b1, b2, b3) & 0x03FFFFC0u32) >> 6u32) by (bit_vector);
    }
    bp_num = bp_num >> 6;
    Ok(bp_num)
}

/// The contents of the sections named .text and .data (empty when there is no
/// .data), found through the section-name table at `e_shstrndx`. The contents
/// leave out the null section, so header `j` has its contents at `j - 1`.
pub fn extract_loadable_sections(elf: &Elf) -> (r: (Vec<u8>, Vec<u8>))
    requires
        loadable_sections_found(*elf),
    ensures
        ({
            let secs = section_views(*elf);
            let names = secs[elf.file_header.e_shstrndx - 1];
            &&& r.1@ == secs[first_section_named(elf.section_header_table@, names, ".text"@, 0)->0 - 1]
            &&& r.0@ == match first_section_named(elf.section_header_table@, names, ".data"@, 0) {
                Some(j) => secs[j - 1],
                None => Seq::empty(),
            }
        }),
{
    let k: usize = elf.file_header.e_shstrndx as usize - 1;
    assert(section_views(*elf)[k as int] == elf.sections@[k as int]@);
    let text = find_target_section_index(&elf.section_header_table, &elf.sections[k], ".text");
    let data = find_target_section_index(&elf.section_header_table, &elf.sections[k], ".data");
    proof {
        let sht = elf.section_header_table@;
        let names = elf.sections@[k as int]@;
        match text {
            Some(i) => { lemma_first_section_named(sht, names, ".text"@, i as int); },
            None => { lemma_first_section_named(sht, names, ".text"@, sht.len() as int); },
        }
        match data {
            Some(i) => { lemma_first_section_named(sht, names, ".data"@, i as int); },
            None => { lemma_first_section_named(sht, names, ".data"@, sht.len() as int); },
        }
    }
    let text_section: Vec<u8> = match text {
        Some(i) => copy_bytes(&elf.sections[i - 1]),
        None => Vec::new(),
    };
    let data_section: Vec<u8> = match data {
        Some(i) => copy_bytes(&elf.sections[i - 1]),
        None => Vec::new(),
    };
    proof {
        match text { Some(i) => { assert(section_views(*elf)[i - 1] == elf.sections@[i - 1]@); }, None => {} }
        match data { Some(i) => { assert(section_views(*elf)[i - 1] == elf.sections@[i - 1]@); }, None => {} }
    }
    (data_section, text_section)
}

/// `extract_loadable_sections` where what it needs is found (see
/// `loadable_sections_found`), and `None` where it is not.
pub fn try_extract_loadable_sections(elf: &Elf) -> (r: Option<(Vec<u8>, Vec<u8>)>)
    ensures
        r is Some <==> loadable_sections_found(*elf),
        r matches Some(p) ==> ({
            let secs = section_views(*elf);
            let names = secs[elf.file_header.e_shstrndx - 1];
            &&& p.1@ == secs[first_section_named(elf.section_header_table@, names, ".text"@, 0)->0 - 1]
            &&& p.0@ == match first_section_named(elf.section_header_table@, names, ".data"@, 0) {
                Some(j) => secs[j - 1],
                None => Seq::empty(),
            }
        }),
{
    let shstrndx: usize = elf.file_header.e_shstrndx as usize;
    if shstrndx < 1 || shstrndx > elf.sections.len() {
        return None;
    }
    let k: usize = shstrndx - 1;
    assert(section_views(*elf)[k as int] == elf.sections@[k as int]@);
    let text = find_target_section_index(&elf.section_header_table, &elf.sections[k], ".text");
    let data = find_target_section_index(&elf.section_header_table, &elf.sections[k], ".data");
    proof {
        let sht = elf.section_header_table@;
        let names = elf.sections@[k as int]@;
        match text {
            Some(i) => { lemma_first_section_named(sht, names, ".text"@, i as int); },
            None => { lemma_first_section_named(sht, names, ".text"@, sht.len() as int); },
        }
        match data {
            Some(i) => { lemma_first_section_named(sht, names, ".data"@, i as int); },
            None => { lemma_first_section_named(sht, names, ".data"@, sht.len() as int); },
        }
    }
    let text_ok = match text {
        Some(i) => 1 <= i && i <= elf.sections.len(),
        None => false,
    };
    let data_ok = match data {
        Some(j) => 1 <= j && j <= elf.sections.len(),
        None => true,
    };
    if text_ok && data_ok {
        Some(extract_loadable_sections(elf))
    } else {
        None
    }
}

/// Whether `extract_loadable_sections` finds what it needs: the section-name
/// table is a section, a section is named .text, and the sections found by name
/// have contents (header `j`, past the null header, has its contents at `j - 1`).
pub open spec fn loadable_sections_found(elf: Elf) -> bool {
    let secs = section_views(elf);
    let k = elf.file_header.e_shstrndx as int;
    &&& 1 <= k <= secs.len()
    &&& first_section_named(elf.section_header_table@, secs[k - 1], ".text"@, 0) matches Some(i) && 1 <= i <= secs.len()
    &&& first_section_named(elf.section_header_table@, secs[k - 1], ".data"@, 0) matches Some(j) ==> 1 <= j <= secs.len()
}

/// A copy of `b`.
pub fn copy_bytes(b: &Vec<u8>) -> (c: Vec<u8>)
    ensures
        c@ == b@,
{
    let mut c: Vec<u8> = Vec::new();
    crate::elf_utils::append_bytes(&mut c, b);
    c
}


/// Whether the instruction before the counter in `s` is a break (its funct field is 0x0D).
pub open spec fn after_break(s: ProgramState) -> bool {
    s.memory.byte_at((s.cpu.pc - 1) as u32) matches Some(b) && b & 0x3Fu8 == 13
}

/// The breakpoint number read before the counter, when its bytes are all held.
pub open spec fn bp_number(s: ProgramState) -> Option<u32> {
    let base = (s.cpu.pc - 4) as u32;
    if first_missing(s.memory, base, 0) == 4 {
        Some((word_held(s.memory, base) & code_mask()) >> 6u32)
    } else {
        None
    }
}

/// What running the instruction a breakpoint replaced needs.
pub open spec fn replay_ok(s: ProgramState, bp: Breakpoint) -> bool {
    let code = lookup_of(bp.replaced_instruction);
    &&& known_code(code) ==> code_ok(code, s, bp.replaced_instruction)
    &&& !known_code(code) ==> can_raise(s)
}


/// What `db_step` needs of the state, the operating system and the debugger.
pub open spec fn db_step_ok(s: ProgramState, os: OperatingSystem, d: DebuggerState) -> bool {
    &&& s.cpu.pc >= 1
    &&& after_break(s) ==> s.cpu.pc >= 4
    &&& after_break(s) ==> match bp_number(s) {
        Some(n) => n < d.breakpoints@.len() && d.breakpoints@[n as int] is Some ==> {
            let bp = d.breakpoints@[n as int]->0;
            if bp.already_executed { step_ok(s) } else { replay_ok(s, bp) }
        },
        None => true,
    }
    &&& !after_break(s) ==> step_ok(s)
}

/// What a plain debugger step does from `pre`: a single step, then the
/// exception it leaves (but a breakpoint) handled; a breakpoint stops the step.
pub open spec fn plain_step_effect(pre: ProgramState, post: ProgramState, os0: OperatingSystem, os1: OperatingSystem,
    lineinfo: Seq<LineInfo>, r: Result<Result<(), String>, String>) -> bool {
    exists|t: ProgramState| {
        &&& #[trigger] step_effect(pre, t)
        &&& if !in_exception(t.cp0) {
            post == t && os1 == os0 && r == Ok::<Result<(), String>, String>(Ok(()))
        } else if recorded_exception(t) == Some(ExceptionType::Breakpoint) {
            post == t && os1 == os0 && (r matches Ok(Err(m)) && m@ == "Breakpoint reached."@)
        } else {
            exists|hr: Result<(), String>| {
                &&& #[trigger] exception_handled(t, post, os0, os1, lineinfo, hr)
                &&& match hr {
                    Ok(_) => r == Ok::<Result<(), String>, String>(Ok(())),
                    Err(f) => r matches Err(g) && g@ == f@,
                }
            }
        }
    }
}

/// One step of the debugger. When the counter follows a break instruction, the
/// breakpoint it carries is consulted: the first time, the instruction it
/// replaced is run (and announced on the output) and the exception cleared;
/// the second time, execution goes on with a plain step. A plain step runs
/// `single_step` and handles the exception it leaves, but for a breakpoint,
/// which stops with "Breakpoint reached.". The outer error is a failure that
/// ends the program; the inner one a message for the user.
pub fn db_step(lineinfo: &Vec<LineInfo>, program_state: &mut ProgramState, os: &mut OperatingSystem,
    debugger_state: &mut DebuggerState) -> (r: Result<Result<(), String>, String>)
    requires
        old(os).stdin.wf(),
    ensures
        final(os).stdin.wf(),
        !db_step_ok(*old(program_state), *old(os), *old(debugger_state)) ==> r is Err,
        db_step_ok(*old(program_state), *old(os), *old(debugger_state)) ==> ({
            let pre = *old(program_state);
            let post = *final(program_state);
            let d0 = *old(debugger_state);
            let d1 = *final(debugger_state);
            if pre.memory.byte_at((pre.cpu.pc - 1) as u32) is None && pre.cpu.pc != 0x00400000 {
                &&& r matches Err(e) && e@ == out_of_bounds_message((pre.cpu.pc - 1) as u32)
                &&& post == pre && *final(os) == *old(os) && d1 == d0
            } else if after_break(pre) {
                match bp_number(pre) {
                    None => r matches Ok(Err(e)) && e@ == out_of_bounds_message(
                        (pre.cpu.pc - 4 + first_missing(pre.memory, (pre.cpu.pc - 4) as u32, 0)) as u32)
                        && post == pre && *final(os) == *old(os) && d1 == d0,
                    Some(n) => if n >= d0.breakpoints@.len() || d0.breakpoints@[n as int] is None {
                        (r matches Ok(Err(e)) && e@ == "Breakpoint "@ + dec_chars(n as nat) + " not found in memory."@)
                            && post == pre && *final(os) == *old(os) && d1 == d0
                    } else {
                        let bp = d0.breakpoints@[n as int]->0;
                        let flipped = Breakpoint { already_executed: !bp.already_executed, ..bp };
                        let code = lookup_of(bp.replaced_instruction);
                        &&& d1.global_bp_num == d0.global_bp_num
                        &&& d1.global_list_loc == d0.global_list_loc
                        &&& if bp.already_executed {
                            &&& d1.breakpoints@ == d0.breakpoints@.update(n as int, Some(flipped))
                            &&& plain_step_effect(pre, post, *old(os), *final(os), lineinfo@, r)
                        } else if !known_code(code) {
                            &&& r matches Ok(Err(e)) && e@ == "Reserved instruction reached. (My code is bad so the program state has been changed as a result. Lord help us)"@
                            &&& raises(pre, post, ExceptionType::ReservedInstruction)
                            &&& *final(os) == *old(os)
                            &&& d1 == d0
                        } else {
                            &&& final(os).stdin == old(os).stdin
                            &&& final(os).stdout@ == old(os).stdout@ + vstd::utf8::encode_utf8("Executing "@ + mnemonic_of(code) + "\n"@)
                            &&& exists|out: ProgramState| {
                                &&& #[trigger] code_effect(code, pre, out, bp.replaced_instruction)
                                &&& if out.cp0.registers[14] <= u32::MAX - 4 {
                                    &&& r == Ok::<Result<(), String>, String>(Ok(()))
                                    &&& d1.breakpoints@ == d0.breakpoints@.update(n as int, Some(flipped))
                                    &&& exists|rec: ProgramState| {
                                        &&& #[trigger] recovered(out, rec)
                                        &&& post.cpu.general_purpose_registers@ == rec.cpu.general_purpose_registers@.update(0, 0)
                                        &&& post.cpu.pc == rec.cpu.pc
                                        &&& post.cp0 == rec.cp0
                                        &&& post.memory == rec.memory
                                        &&& post.should_continue_execution == rec.should_continue_execution
                                    }
                                } else {
                                    &&& r matches Err(e) && e@ == "attempt to add with overflow"@
                                    &&& post == out
                                    &&& d1 == d0
                                }
                            }
                        }
                    },
                }
            } else {
                &&& d1 == d0
                &&& plain_step_effect(pre, post, *old(os), *final(os), lineinfo@, r)
            }
        }),
{
    let ghost pre = *program_state;
    if program_state.cpu.pc == 0 {
        return Err(stuck());
    }
    let prev_funct_code: u8 = match program_state.memory.read_byte(program_state.cpu.pc - 1) {
        Ok(byte) => byte & 0b00111111,
        Err(e) => {
            if program_state.cpu.pc != 0x00400000 {
                return Err(e);
            } else {
                0
            }
        },
    };
    if prev_funct_code == 0b001101 {
        if program_state.cpu.pc < 4 {
            return Err(stuck());
        }
        proof { lemma_first_missing_range(pre.memory, (pre.cpu.pc - 4) as u32, 0); }
        let bp_num = match get_bp_num(program_state) {
            Ok(idx) => idx,
            Err(e) => {
                return Ok(Err(e));
            },
        };
        let idx = bp_num as usize;
        let slot = if idx < debugger_state.breakpoints.len() { debugger_state.breakpoints[idx] } else { None };
        let bp = match slot {
            Some(bp) => bp,
            None => {
                let mut m = String::new();
                m.append("Breakpoint ");
                append_radix(&mut m, bp_num as u64, 10);
                m.append(" not found in memory.");
                proof { reveal_strlit("Breakpoint "); reveal_strlit(" not found in memory."); }
                return Ok(Err(m));
            },
        };
        if bp.already_executed() {
            let mut flipped = bp;
            flipped.flip_execution_status();
            debugger_state.breakpoints.set(idx, Some(flipped));
        } else {
            let w = bp.replaced_instruction;
            let code = RawInstruction::new(w).get_lookup();
            let info = match instruction_information(code) {
                Some(info) => info,
                None => {
                    if !raise_allowed(program_state) {
                        return Err(stuck());
                    }
                    program_state.set_exception(ExceptionType::ReservedInstruction);
                    proof { reveal_strlit("Reserved instruction reached. (My code is bad so the program state has been changed as a result. Lord help us)"); }
                    return Ok(Err("Reserved instruction reached. (My code is bad so the program state has been changed as a result. Lord help us)".to_string()));
                },
            };
            if !code_allowed(code, program_state, w) {
                return Err(stuck());
            }
            let mut line = String::new();
            line.append("Executing ");
            line.append(info.mnemonic);
            line.append("\n");
            proof { reveal_strlit("Executing "); reveal_strlit("\n"); }
            append_str_bytes(&mut os.stdout, line.as_str());
            execute(program_state, code, w);
            let ghost out = *program_state;
            if program_state.cp0.get_epc() > u32::MAX - 4 {
                proof { reveal_strlit("attempt to add with overflow"); }
                return Err("attempt to add with overflow".to_string());
            }
            program_state.recover_from_exception();
            let ghost rec = *program_state;
            let mut flipped = bp;
            flipped.flip_execution_status();
            debugger_state.breakpoints.set(idx, Some(flipped));
            program_state.cpu.general_purpose_registers[0] = 0;
            assert(code_effect(code, pre, out, w) && recovered(out, rec));
            return Ok(Ok(()));
        }
    }
    let ghost before_step = *program_state;
    match try_single_step(lineinfo, program_state) {
        Err(e) => {
            return Err(e);
        },
        Ok(()) => {},
    }
    let ghost t = *program_state;
    if program_state.is_exception() {
        if program_state.cp0.get_exc_code() != 0x09 {
            let ghost os0 = *os;
            let handled = handle_exception(program_state, os, lineinfo, debugger_state);
            assert(exception_handled(t, *program_state, os0, *os, lineinfo@, handled));
            match handled {
                Err(f) => {
                    return Err(f);
                },
                Ok(()) => {},
            }
        } else {
            proof { reveal_strlit("Breakpoint reached."); }
            return Ok(Err("Breakpoint reached.".to_string()));
        }
    }
    Ok(Ok(()))
}


/// What the emulator does with the exception pending in `t`: when the syscall
/// it stands for waits for input that has not come (and the input is not
/// closed) nothing happens and more input is asked for; otherwise the
/// exception is handled, a failure ending the run with its report.
pub open spec fn pending_handled(t: ProgramState, post: ProgramState, os0: OperatingSystem, os1: OperatingSystem,
    lineinfo: Seq<LineInfo>, input_closed: bool, r: Result<bool, String>) -> bool {
    if input_awaited(t, os0) && !input_closed {
        post == t && os1 == os0 && r == Ok::<bool, String>(true)
    } else {
        exists|hr: Result<(), String>| {
            &&& #[trigger] exception_handled(t, post, os0, os1, lineinfo, hr)
            &&& match hr {
                Ok(_) => r == Ok::<bool, String>(false),
                Err(f) => r matches Err(g) && g@ == f@,
            }
        }
    }
}

/// One move of the emulator running a program outside the debugger. With an
/// exception pending (one left waiting for input), it is handled; otherwise one
/// instruction is stepped and the exception it raises, if any, is handled. An
/// exception whose syscall waits for input that has not come is left pending
/// and `Ok(true)` asks for input, unless `input_closed` says none will come.
/// `Ok(false)` means the move is done; an error ends the run.
pub fn run_step(lineinfo: &Vec<LineInfo>, program_state: &mut ProgramState, os: &mut OperatingSystem,
    input_closed: bool) -> (r: Result<bool, String>)
    requires
        old(os).stdin.wf(),
    ensures
        final(os).stdin.wf(),
        ({
            let pre = *old(program_state);
            let post = *final(program_state);
            if in_exception(pre.cp0) {
                pending_handled(pre, post, *old(os), *final(os), lineinfo@, input_closed, r)
            } else if !step_ok(pre) {
                r matches Err(e) && e@ == stuck_message() && *final(os) == *old(os)
            } else {
                exists|t: ProgramState| {
                    &&& #[trigger] step_effect(pre, t)
                    &&& if !in_exception(t.cp0) {
                        post == t && *final(os) == *old(os) && r == Ok::<bool, String>(false)
                    } else {
                        pending_handled(t, post, *old(os), *final(os), lineinfo@, input_closed, r)
                    }
                }
            }
        }),
{
    if !program_state.is_exception() {
        match try_single_step(lineinfo, program_state) {
            Err(e) => {
                return Err(e);
            },
            Ok(()) => {},
        }
        if !program_state.is_exception() {
            return Ok(false);
        }
    }
    let ghost t = *program_state;
    if awaits_input(program_state, os) && !input_closed {
        return Ok(true);
    }
    let ghost os0 = *os;
    let mut debugger_state = DebuggerState::new();
    let handled = handle_exception(program_state, os, lineinfo, &mut debugger_state);
    assert(exception_handled(t, *program_state, os0, *os, lineinfo@, handled));
    match handled {
        Ok(()) => Ok(false),
        Err(f) => Err(f),
    }
}

/// Whether an exception may be raised in `s` (see `can_raise`).
pub fn raise_allowed(s: &ProgramState) -> (b: bool)
    ensures
        b == can_raise(*s),
{
    s.is_exception() || s.cpu.pc >= 4
}

/// Whether `a` lies in .text of `s`.
fn text_has(s: &ProgramState, a: u32) -> (b: bool)
    ensures
        b == in_text_range(*s, a),
{
    s.memory.text_start <= a && a < s.memory.text_end
}

/// Whether the segments of memory end exactly where their bytes end.
pub fn memory_consistent(m: &Memory) -> (b: bool)
    ensures
        b == m.wf(),
{
    m.data_start <= m.data_end && (m.data_end - m.data_start) as usize == m.data.len()
        && m.text_start <= m.text_end && (m.text_end - m.text_start) as usize == m.text.len()
}

/// Whether a taken branch from `s` with immediate `imm` may be taken (see `branch_ok`).
fn branch_allowed(s: &ProgramState, imm: u32) -> (b: bool)
    ensures
        b == branch_ok(*s, imm),
{
    let off: i64 = crate::words::sign_extend16(imm) as i64 * 4;
    assert(off == branch_offset(imm)) by {
        assert(-32768 <= crate::words::sext16(imm) < 32768);
    }
    let sum: i64 = (s.cpu.pc as i32) as i64 + off;
    if sum < i32::MIN as i64 || sum > i32::MAX as i64 {
        return false;
    }
    let target = ((s.cpu.pc as i32) + (off as i32)) as u32;
    text_has(s, target) || raise_allowed(s)
}

/// Whether the base-plus-immediate address of `s` with registers `rs` and immediate `imm` fits.
fn address_allowed(s: &ProgramState, rs: u32, imm: u32) -> (b: bool)
    requires
        rs < 32,
    ensures
        b == address_fits(*s, rs, imm),
{
    let sum: i64 = (s.cpu.general_purpose_registers[rs as usize] as i32) as i64 + (imm as i32) as i64;
    i32::MIN as i64 <= sum && sum <= i32::MAX as i64
}

/// Whether the instruction `w`, with lookup code `code`, can run on `s` (see `code_ok`).
pub fn code_allowed(code: u32, s: &ProgramState, w: u32) -> (b: bool)
    ensures
        b == code_ok(code, *s, w),
{
    let raw = RawInstruction::new(w);
    let r = RArgs::of(raw);
    let i = IArgs::of(raw);
    let j = JArgs::of(raw);
    proof { crate::instruction_fields::lemma_args_wf(raw); }
    let g = &s.cpu.general_purpose_registers;
    if code == 0x8 || code == 0x9 {
        text_has(s, g[r.rs as usize]) || raise_allowed(s)
    } else if code == 0xC || code == 0xD {
        raise_allowed(s)
    } else if code == 0x20 {
        g[r.rs as usize] <= u32::MAX - g[r.rt as usize]
    } else if code == 0x22 {
        !(g[r.rs as usize] < g[r.rt as usize]) || raise_allowed(s)
    } else if code == 0x80 || code == 0xC0 {
        let target = (j.address << 2) | (s.cpu.pc & 0xF0000000);
        text_has(s, target) || raise_allowed(s)
    } else if code == 0x100 {
        g[i.rs as usize] != g[i.rt as usize] || branch_allowed(s, i.imm)
    } else if code == 0x140 {
        g[i.rs as usize] == g[i.rt as usize] || branch_allowed(s, i.imm)
    } else if code == 0x180 {
        (g[i.rs as usize] as i32) > 0 || branch_allowed(s, i.imm)
    } else if code == 0x1C0 {
        (g[i.rs as usize] as i32) <= 0 || branch_allowed(s, i.imm)
    } else if code == 0x200 {
        let sum: i64 = (g[i.rs as usize] as i32) as i64 + crate::words::sign_extend16(i.imm) as i64;
        i32::MIN as i64 <= sum && sum <= i32::MAX as i64
    } else if code == 0x800 || code == 0x8C0 || code == 0xA00 || code == 0xAC0 {
        if !memory_consistent(&s.memory) || !address_allowed(s, i.rs, i.imm) {
            return false;
        }
        let a = ((g[i.rs as usize] as i32) + (i.imm as i32)) as u32;
        assert(a == effective_address(*s, i.rs, i.imm));
        let in_data = s.memory.data_start <= a && a < s.memory.data_end;
        if code == 0x800 {
            in_data || raise_allowed(s)
        } else if code == 0x8C0 {
            (a % 4 != 0 || a <= u32::MAX - 4)
                && ((a % 4 == 0 && !(a as u64 + 4 >= s.memory.data_end as u64 || a < s.memory.data_start)) || raise_allowed(s))
        } else if code == 0xA00 {
            in_data
        } else {
            s.memory.data_start <= a && a as u64 + 4 <= s.memory.data_end as u64
                && ((a % 4 == 0 && a as u64 + 4 != s.memory.data_end as u64) || raise_allowed(s))
        }
    } else {
        true
    }
}


/// The message a step that the machine cannot take ends with.
pub open spec fn stuck_message() -> Seq<char> {
    "attempt to execute an instruction outside the machine's limits"@
}

fn stuck() -> (s: String)
    ensures
        s@ == stuck_message(),
{
    proof { reveal_strlit("attempt to execute an instruction outside the machine's limits"); }
    "attempt to execute an instruction outside the machine's limits".to_string()
}

/// `single_step` for any state: where a step cannot be taken (see `step_ok`)
/// the error is returned instead.
pub fn try_single_step(lineinfo: &Vec<LineInfo>, program_state: &mut ProgramState) -> (r: Result<(), String>)
    ensures
        step_ok(*old(program_state)) ==> r is Ok && step_effect(*old(program_state), *final(program_state)),
        !step_ok(*old(program_state)) ==> (r matches Err(e) && e@ == stuck_message()),
{
    let ghost pre = *program_state;
    let may_raise = raise_allowed(program_state);
    if !program_state.memory.allows_execution_of(program_state.cpu.pc) {
        if !may_raise {
            return Err(stuck());
        }
        program_state.set_exception(ExceptionType::AddressExceptionLoad);
        return Ok(());
    }
    if program_state.cpu.pc > u32::MAX - 3 {
        return Err(stuck());
    }
    let pc = program_state.cpu.pc;
    let misses = program_state.memory.read_byte(pc).is_err() || program_state.memory.read_byte(pc + 1).is_err()
        || program_state.memory.read_byte(pc + 2).is_err() || program_state.memory.read_byte(pc + 3).is_err();
    assert(misses == fetch_misses(pre.memory, pc)) by {
        if fetch_misses(pre.memory, pc) {
            let i = choose|i: int| 0 <= i < 4 && (#[trigger] pre.memory.byte_at((pc + i) as u32)) is None;
            assert(i == 0 || i == 1 || i == 2 || i == 3);
        }
        if misses {
            if pre.memory.byte_at(pc) is None { assert(pre.memory.byte_at((pc + 0) as u32) is None); }
        }
    }
    if misses && !may_raise {
        return Err(stuck());
    }
    let raw_instruction = fetch(program_state);
    let ghost fetched = *program_state;
    let w = raw_instruction.raw;
    let code = RawInstruction::new(w).get_lookup();
    match instruction_information(code) {
        None => {
            if !(may_raise || misses) {
                return Err(stuck());
            }
            assert(can_raise(fetched)) by {
                if fetch_misses(pre.memory, pre.cpu.pc) {
                    crate::exception::lemma_raised_in_exception(pre, ExceptionType::BusFetch);
                    assert(fetched.cp0.registers@[12] == raised(pre, ExceptionType::BusFetch)[12]);
                    assert(in_exception(fetched.cp0));
                }
            }
            program_state.set_exception(ExceptionType::ReservedInstruction);
            proof {
                if fetch_misses(pre.memory, pre.cpu.pc) {
                    lemma_raise_again(pre, fetched, ExceptionType::BusFetch, ExceptionType::ReservedInstruction);
                }
            }
            return Ok(());
        },
        Some(_) => {},
    }
    if program_state.cpu.pc > u32::MAX - 4 {
        return Err(stuck());
    }
    program_state.cpu.pc = program_state.cpu.pc + 4;
    let ghost mid = *program_state;
    if !code_allowed(code, program_state, w) {
        proof {
            if code_ok(code, advanced(pre), w) {
                lemma_code_ok_cp0(code, advanced(pre), mid, w);
            }
        }
        return Err(stuck());
    }
    proof { lemma_code_ok_cp0(code, mid, advanced(pre), w); }
    execute(program_state, code, w);
    let ghost out = *program_state;
    program_state.cpu.general_purpose_registers[0] = 0;
    assert(mid.cp0.registers@ == fetch_cp0(pre) && code_effect(code, mid, out, w));
    Ok(())
}


/// The break word that `insert_breakpoint` writes for breakpoint `n` is read
/// back as breakpoint `n`: once its four bytes stand at `address`, the word
/// there is a break (function code 0x0D) whose code field, masked with
/// 0x03FFFFC0 and shifted right by 6, is `n`; so a state stopped just past it
/// reads breakpoint `n`.
pub proof fn lemma_break_word_read_back(pre: Memory, post: Memory, address: u32, n: usize, s: ProgramState)
    requires
        address <= u32::MAX - 3,
        n < 0x100000,
        overwritten(pre, post, address, be_bytes_u32(break_word(n)), 0, 4),
        s.memory == post,
        s.cpu.pc == address + 4,
    ensures
        word_held(post, address) & 0x3F == 0x0D,
        (word_held(post, address) & 0x03FFFFC0) >> 6 == n,
        bp_number(s) == Some(n as u32),
{
    let w = break_word(n);
    let b = be_bytes_u32(w);
    assert(post.byte_at(address) == Some(b[0]));
    assert(post.byte_at((address + 1) as u32) == Some(b[1]));
    assert(post.byte_at((address + 2) as u32) == Some(b[2]));
    assert(post.byte_at((address + 3) as u32) == Some(b[3]));
    crate::words::lemma_word_roundtrip(w);
    assert(word_held(post, address) == w);
    let x = n as u32;
    assert(x < 0x100000);
    assert((((x << 6u32) | 13u32) & 0x3Fu32) == 0x0Du32 && ((((x << 6u32) | 13u32) & 0x03FFFFC0u32) >> 6u32) == x)
        by (bit_vector)
        requires
            x < 0x100000u32,
    ;
    assert(first_missing(post, address, 0) == 4) by {
        reveal_with_fuel(first_missing, 5);
        assert(post.byte_at((address + 0) as u32) == post.byte_at(address));
    }
    assert(((s.cpu.pc - 4) as u32) == address);
}

} // verus!
