//! Register and immediate operands unpacked from a raw instruction, as indices.
use vstd::prelude::*;

use crate::instruction::{imm_of, lemma_field_bounds, rd_of, rs_of, rt_of, shamt_of, target_of, RawInstruction};
use crate::words::sext16;

verus! {

/// Operands of an R-format instruction.
#[derive(Clone, Copy, Debug)]
pub struct RArgs {
    pub rd: usize,
    pub rt: usize,
    pub rs: usize,
    pub shamt: usize,
}

impl RArgs {
    /// The rs, rt, rd and shamt fields of `instr`.
    pub fn unpack(instr: RawInstruction) -> (a: RArgs)
        ensures
            a.rs == rs_of(instr.raw),
            a.rt == rt_of(instr.raw),
            a.rd == rd_of(instr.raw),
            a.shamt == shamt_of(instr.raw),
            a.rs < 32 && a.rt < 32 && a.rd < 32 && a.shamt < 32,
    {
        proof { lemma_field_bounds(instr.raw); }
        let rs: u32 = (instr.raw >> 21) & 0x1F;
        let rt: u32 = (instr.raw >> 16) & 0x1F;
        let rd: u32 = (instr.raw >> 11) & 0x1F;
        let shamt: u32 = (instr.raw >> 6) & 0x1F;
        RArgs { rs: rs as usize, rt: rt as usize, rd: rd as usize, shamt: shamt as usize }
    }
}

/// Operands of an I-format instruction; the immediate is sign-extended.
#[derive(Clone, Copy, Debug)]
pub struct IArgs {
    pub rs: usize,
    pub rt: usize,
    pub imm: u32,
}

impl IArgs {
    /// The rs and rt fields of `instr` and its immediate, sign-extended to a word.
    pub fn unpack(instr: RawInstruction) -> (a: IArgs)
        ensures
            a.rs == rs_of(instr.raw),
            a.rt == rt_of(instr.raw),
            a.imm == sext16(imm_of(instr.raw)) as u32,
            a.rs < 32 && a.rt < 32,
    {
        proof { lemma_field_bounds(instr.raw); }
        let rs: u32 = (instr.raw >> 21) & 0x1F;
        let rt: u32 = (instr.raw >> 16) & 0x1F;
        let imm: u32 = (instr.raw & 0xFFFF) as i16 as i32 as u32;
        proof {
            let r = instr.raw;
            assert(((r & 0xFFFF) as i16) == ((r & 0xFFFF) as u16) as i16) by (bit_vector);
        }
        IArgs { rs: rs as usize, rt: rt as usize, imm }
    }
}

/// Operand of a J-format instruction: the 26-bit target.
#[derive(Clone, Copy, Debug)]
pub struct JArgs {
    pub imm: u32,
}

impl JArgs {
    /// The 26-bit target field of `instr`.
    pub fn unpack(instr: RawInstruction) -> (a: JArgs)
        ensures
            a.imm == target_of(instr.raw),
    {
        JArgs { imm: instr.raw & 0x03FFFFFF }
    }
}

} // verus!
