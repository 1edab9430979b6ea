//! Fetching the instruction at the program counter.
use vstd::prelude::*;

use crate::exception::{can_raise, raised, ExceptionType};
use crate::implementation::lemma_raise_again;
use crate::instruction::RawInstruction;
use crate::structs::{Memory, ProgramState};
use crate::words::word_from_be;

verus! {

/// The byte that a fetch reads at `a`: the byte memory holds there, or 0.
pub open spec fn fetched_byte(m: Memory, a: int) -> u8 {
    match m.byte_at(a as u32) {
        Some(b) => b,
        None => 0,
    }
}

/// Whether one of the four bytes at `pc` is not held by memory.
pub open spec fn fetch_misses(m: Memory, pc: u32) -> bool {
    exists|i: int| 0 <= i < 4 && (#[trigger] m.byte_at((pc + i) as u32)) is None
}

/// The first `n` bytes at `pc`, combined as the high bytes of a big-endian word.
pub open spec fn partial_word(m: Memory, pc: u32, n: int) -> u32
    decreases n,
{
    if n <= 0 {
        0
    } else {
        partial_word(m, pc, n - 1) | ((fetched_byte(m, pc + n - 1) as u32) << ((24 - (n - 1) * 8) as u32))
    }
}

/// Coprocessor 0 after a fetch at `pc`: a missing byte raises a bus error, and
/// otherwise a counter outside .text raises an address error.
pub open spec fn fetch_cp0(pre: ProgramState) -> Seq<u32> {
    let pc = pre.cpu.pc;
    if fetch_misses(pre.memory, pc) {
        raised(pre, ExceptionType::BusFetch)
    } else if !(pre.memory.text_start <= pc < pre.memory.text_end) {
        raised(pre, ExceptionType::AddressExceptionLoad)
    } else {
        pre.cp0.registers@
    }
}

/// Reads the big-endian word at the program counter. A counter outside .text
/// raises an address error and a byte that memory does not hold raises a bus
/// error (and reads as 0); the word is returned either way.
pub fn fetch(program_state: &mut ProgramState) -> (instr: RawInstruction)
    requires
        old(program_state).cpu.pc <= u32::MAX - 3,
        (fetch_misses(old(program_state).memory, old(program_state).cpu.pc)
            || !(old(program_state).memory.text_start <= old(program_state).cpu.pc < old(program_state).memory.text_end))
            ==> can_raise(*old(program_state)),
    ensures
        ({
            let pre = *old(program_state);
            let post = *final(program_state);
            let m = pre.memory;
            let pc = pre.cpu.pc;
            &&& instr.raw == word_from_be(fetched_byte(m, pc as int), fetched_byte(m, pc + 1),
                fetched_byte(m, pc + 2), fetched_byte(m, pc + 3))
            &&& post.cp0.registers@ == fetch_cp0(pre)
            &&& post.cp0.debug_mode == pre.cp0.debug_mode
            &&& post.cpu == pre.cpu
            &&& post.memory == pre.memory
            &&& post.should_continue_execution == pre.should_continue_execution
        }),
{
    let ghost pre = *program_state;
    let ghost m = pre.memory;
    let ghost pc = pre.cpu.pc;
    if !program_state.memory.allows_execution_of(program_state.cpu.pc) {
        program_state.set_exception(ExceptionType::AddressExceptionLoad);
    }
    let ghost start = program_state.cp0.registers@;
    let mut fetched_instruction: u32 = 0;
    let mut i: u32 = 0;
    while i < 4
        invariant
            0 <= i <= 4,
            pc == pre.cpu.pc,
            m == pre.memory,
            pc <= u32::MAX - 3,
            program_state.cpu == pre.cpu,
            program_state.memory == m,
            program_state.cp0.debug_mode == pre.cp0.debug_mode,
            program_state.should_continue_execution == pre.should_continue_execution,
            fetched_instruction == partial_word(m, pc, i as int),
            start == (if !(m.text_start <= pc < m.text_end) { raised(pre, ExceptionType::AddressExceptionLoad) }
                else { pre.cp0.registers@ }),
            (fetch_misses(m, pc) || !(m.text_start <= pc < m.text_end)) ==> can_raise(*program_state),
            program_state.cp0.registers@ == if exists|j: int| 0 <= j < i && (#[trigger] m.byte_at((pc + j) as u32)) is None {
                raised(pre, ExceptionType::BusFetch)
            } else {
                start
            },
        decreases 4 - i,
    {
        let ghost before = *program_state;
        match program_state.memory.read_byte(program_state.cpu.pc + i) {
            Ok(b) => {
                let shift: u32 = 24 - i * 8;
                assert(b == fetched_byte(m, pc + i));
                fetched_instruction = fetched_instruction | ((b as u32) << shift);
            },
            Err(_) => {
                assert(m.byte_at((pc + i) as u32) is None);
                assert(fetch_misses(m, pc));
                program_state.set_exception(ExceptionType::BusFetch);
                proof {
                    if exists|j: int| 0 <= j < i && (#[trigger] m.byte_at((pc + j) as u32)) is None {
                        lemma_raise_again(pre, before, ExceptionType::BusFetch, ExceptionType::BusFetch);
                    } else if !(m.text_start <= pc < m.text_end) {
                        lemma_raise_again(pre, before, ExceptionType::AddressExceptionLoad, ExceptionType::BusFetch);
                    }
                }
                assert(fetched_byte(m, pc + i) == 0);
                assert(fetched_instruction | ((0u8 as u32) << ((24 - i * 8) as u32)) == fetched_instruction) by (bit_vector);
            },
        };
        assert(exists|j: int| 0 <= j < i + 1 && (#[trigger] m.byte_at((pc + j) as u32)) is None
            <==> (exists|j: int| 0 <= j < i && (#[trigger] m.byte_at((pc + j) as u32)) is None)
                || m.byte_at((pc + i) as u32) is None);
        i = i + 1;
    }
    proof {
        reveal_with_fuel(partial_word, 5);
        let b0 = fetched_byte(m, pc as int);
        let b1 = fetched_byte(m, pc + 1);
        let b2 = fetched_byte(m, pc + 2);
        let b3 = fetched_byte(m, pc + 3);
        assert(partial_word(m, pc, 4) == ((((0u32 | ((b0 as u32) << 24u32)) | ((b1 as u32) << 16u32))
            | ((b2 as u32) << 8u32)) | ((b3 as u32) << 0u32)));
        assert(((((0u32 | ((b0 as u32) << 24u32)) | ((b1 as u32) << 16u32)) | ((b2 as u32) << 8u32))
            | ((b3 as u32) << 0u32)) == word_from_be(b0, b1, b2, b3)) by (bit_vector);
    }
    RawInstruction::new(fetched_instruction)
}

} // verus!
