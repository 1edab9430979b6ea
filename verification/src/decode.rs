//! Decoding of raw instruction words: which instruction routine a word names,
//! and the unpacking of its fields into plain tuples.
use vstd::prelude::*;

use crate::instruction::{imm_of, lemma_field_bounds, rd_of, rs_of, rt_of, shamt_of, target_of};
use crate::text::{append_radix, dec_chars};

verus! {

/// The instruction routines of `word_instructions`, one per supported word.
#[derive(Clone, Copy, Debug, PartialEq, Eq, Structural)]
pub enum WordOp {
    Sll,
    Srl,
    Jr,
    Jalr,
    Syscall,
    Add,
    Addu,
    Sub,
    And,
    Or,
    Xor,
    Nor,
    Slt,
    J,
    Jal,
    Beq,
    Bne,
    Blez,
    Bgtz,
    Addi,
    Addiu,
    Andi,
    Ori,
    Lui,
    Lb,
    Lw,
    Sw,
}

/// The routine of an R-format word with function code `funct`, if any.
pub open spec fn funct_op(funct: u32) -> Option<WordOp> {
    if funct == 0x00 { Some(WordOp::Sll) }
    else if funct == 0x02 { Some(WordOp::Srl) }
    else if funct == 0x08 { Some(WordOp::Jr) }
    else if funct == 0x09 { Some(WordOp::Jalr) }
    else if funct == 0x0C { Some(WordOp::Syscall) }
    else if funct == 0x20 { Some(WordOp::Add) }
    else if funct == 0x21 { Some(WordOp::Addu) }
    else if funct == 0x22 { Some(WordOp::Sub) }
    else if funct == 0x24 { Some(WordOp::And) }
    else if funct == 0x25 { Some(WordOp::Or) }
    else if funct == 0x26 { Some(WordOp::Xor) }
    else if funct == 0x27 { Some(WordOp::Nor) }
    else if funct == 0x2A { Some(WordOp::Slt) }
    else { None }
}

/// The routine of a word with nonzero opcode `opcode`, if any.
pub open spec fn opcode_op(opcode: u32) -> Option<WordOp> {
    if opcode == 0x02 { Some(WordOp::J) }
    else if opcode == 0x03 { Some(WordOp::Jal) }
    else if opcode == 0x04 { Some(WordOp::Beq) }
    else if opcode == 0x05 { Some(WordOp::Bne) }
    else if opcode == 0x06 { Some(WordOp::Blez) }
    else if opcode == 0x07 { Some(WordOp::Bgtz) }
    else if opcode == 0x08 { Some(WordOp::Addi) }
    else if opcode == 0x09 { Some(WordOp::Addiu) }
    else if opcode == 0x0C { Some(WordOp::Andi) }
    else if opcode == 0x0D { Some(WordOp::Ori) }
    else if opcode == 0x0F { Some(WordOp::Lui) }
    else if opcode == 0x20 { Some(WordOp::Lb) }
    else if opcode == 0x23 { Some(WordOp::Lw) }
    else if opcode == 0x2B { Some(WordOp::Sw) }
    else { None }
}

/// The routine that word `w` names, if any: R-format words (opcode 0) by their
/// function code, the others by their opcode.
pub open spec fn word_op(w: u32) -> Option<WordOp> {
    if (w >> 26) == 0 { funct_op(w & 0x3F) } else { opcode_op(w >> 26) }
}

/// The error for a word that names no routine.
pub open spec fn decode_message(w: u32) -> Seq<char> {
    if (w >> 26) == 0 {
        "Failed to fetch R-type instruction with funct: "@ + dec_chars((w & 0x3F) as nat)
    } else {
        "Failed to decode instruction opcode: "@ + dec_chars((w >> 26) as nat)
    }
}

fn funct_lookup(funct: u32) -> (r: Option<WordOp>)
    ensures
        r == funct_op(funct),
{
    match funct {
        0x00 => Some(WordOp::Sll),
        0x02 => Some(WordOp::Srl),
        0x08 => Some(WordOp::Jr),
        0x09 => Some(WordOp::Jalr),
        0x0C => Some(WordOp::Syscall),
        0x20 => Some(WordOp::Add),
        0x21 => Some(WordOp::Addu),
        0x22 => Some(WordOp::Sub),
        0x24 => Some(WordOp::And),
        0x25 => Some(WordOp::Or),
        0x26 => Some(WordOp::Xor),
        0x27 => Some(WordOp::Nor),
        0x2A => Some(WordOp::Slt),
        _ => None,
    }
}

fn opcode_lookup(opcode: u32) -> (r: Option<WordOp>)
    ensures
        r == opcode_op(opcode),
{
    match opcode {
        0x02 => Some(WordOp::J),
        0x03 => Some(WordOp::Jal),
        0x04 => Some(WordOp::Beq),
        0x05 => Some(WordOp::Bne),
        0x06 => Some(WordOp::Blez),
        0x07 => Some(WordOp::Bgtz),
        0x08 => Some(WordOp::Addi),
        0x09 => Some(WordOp::Addiu),
        0x0C => Some(WordOp::Andi),
        0x0D => Some(WordOp::Ori),
        0x0F => Some(WordOp::Lui),
        0x20 => Some(WordOp::Lb),
        0x23 => Some(WordOp::Lw),
        0x2B => Some(WordOp::Sw),
        _ => None,
    }
}

/// The routine that `instruction` names, or the error for a word that names none.
pub fn decode(instruction: &u32) -> (r: Result<WordOp, String>)
    ensures
        match word_op(*instruction) {
            Some(op) => r == Ok::<WordOp, String>(op),
            None => r matches Err(m) && m@ == decode_message(*instruction),
        },
{
    let opcode: u32 = *instruction >> 26;
    if opcode == 0 {
        let funct: u32 = *instruction & 0x3F;
        match funct_lookup(funct) {
            Some(op) => Ok(op),
            None => {
                let mut m = String::new();
                m.append("Failed to fetch R-type instruction with funct: ");
                append_radix(&mut m, funct as u64, 10);
                proof { reveal_strlit("Failed to fetch R-type instruction with funct: "); }
                Err(m)
            },
        }
    } else {
        match opcode_lookup(opcode) {
            Some(op) => Ok(op),
            None => {
                let mut m = String::new();
                m.append("Failed to decode instruction opcode: ");
                append_radix(&mut m, opcode as u64, 10);
                proof { reveal_strlit("Failed to decode instruction opcode: "); }
                Err(m)
            },
        }
    }
}

/// The (rd, rs, rt, shamt) fields of an R-format word.
pub fn unpack_r_type(instruction: u32) -> (f: (usize, usize, usize, usize))
    ensures
        f.0 == rd_of(instruction),
        f.1 == rs_of(instruction),
        f.2 == rt_of(instruction),
        f.3 == shamt_of(instruction),
        f.0 < 32 && f.1 < 32 && f.2 < 32 && f.3 < 32,
{
    proof { lemma_field_bounds(instruction); }
    let rs: u32 = (instruction >> 21) & 0x1F;
    let rt: u32 = (instruction >> 16) & 0x1F;
    let rd: u32 = (instruction >> 11) & 0x1F;
    let shamt: u32 = (instruction >> 6) & 0x1F;
    (rd as usize, rs as usize, rt as usize, shamt as usize)
}

/// The (rs, rt, imm) fields of an I-format word; the immediate is not extended.
pub fn unpack_i_type(instruction: u32) -> (f: (usize, usize, u32))
    ensures
        f.0 == rs_of(instruction),
        f.1 == rt_of(instruction),
        f.2 == imm_of(instruction),
        f.0 < 32 && f.1 < 32 && f.2 < 65536,
{
    proof { lemma_field_bounds(instruction); }
    let rs: u32 = (instruction >> 21) & 0x1F;
    let rt: u32 = (instruction >> 16) & 0x1F;
    let imm: u32 = instruction & 0xFFFF;
    (rs as usize, rt as usize, imm)
}

/// The 26-bit target field of a J-format word.
pub fn unpack_j_type(instruction: u32) -> (imm: u32)
    ensures
        imm == target_of(instruction),
{
    instruction & 0x03FFFFFF
}

} // verus!
