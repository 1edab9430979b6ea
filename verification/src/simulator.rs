//! The emulator's instruction fetch.
use vstd::prelude::*;

use crate::exception::{can_raise, raised, ExceptionType};
use crate::instruction::RawInstruction;
use crate::structs::ProgramState;
use crate::words::{read_word_be, word_at};

verus! {

/// Whether the word at the counter lies in .text and in its bytes.
pub open spec fn word_fetchable(s: ProgramState) -> bool {
    &&& s.memory.text_start <= s.cpu.pc <= s.memory.text_end
    &&& (s.cpu.pc - s.memory.text_start) + 4 <= s.memory.text@.len()
}

/// Reads the big-endian word at the program counter from .text. A counter
/// outside .text raises an address error, and a word that runs past the bytes
/// of .text a bus error; either way the word read is zero, as it will not run.
/// Raising needs what `set_exception` needs.
pub fn fetch(program_state: &mut ProgramState) -> (instr: RawInstruction)
    requires
        !word_fetchable(*old(program_state)) ==> can_raise(*old(program_state)),
    ensures
        ({
            let pre = *old(program_state);
            let post = *final(program_state);
            &&& instr.raw == if word_fetchable(pre) { word_at(pre.memory.text@, pre.cpu.pc - pre.memory.text_start) } else { 0 }
            &&& post.cp0.registers@ == if pre.cpu.pc > pre.memory.text_end || pre.cpu.pc < pre.memory.text_start {
                raised(pre, ExceptionType::AddressExceptionLoad)
            } else if !word_fetchable(pre) {
                raised(pre, ExceptionType::BusFetch)
            } else {
                pre.cp0.registers@
            }
            &&& post.cp0.debug_mode == pre.cp0.debug_mode
            &&& post.cpu == pre.cpu
            &&& post.memory == pre.memory
            &&& post.should_continue_execution == pre.should_continue_execution
        }),
{
    if program_state.cpu.pc > program_state.memory.text_end || program_state.cpu.pc < program_state.memory.text_start {
        program_state.set_exception(ExceptionType::AddressExceptionLoad);
        return RawInstruction::new(0);
    }
    let instr_index: usize = (program_state.cpu.pc - program_state.memory.text_start) as usize;
    if instr_index > program_state.memory.text.len() || program_state.memory.text.len() - instr_index < 4 {
        program_state.set_exception(ExceptionType::BusFetch);
        return RawInstruction::new(0);
    }
    let fetched_instruction = read_word_be(&program_state.memory.text, instr_index);
    RawInstruction::new(fetched_instruction)
}

} // verus!
