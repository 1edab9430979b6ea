//! What the emulator knows of each instruction it implements: mnemonic,
//! format, codes and operands, looked up by the instruction's lookup code.
use vstd::prelude::*;

verus! {

/// The format of an instruction.
#[derive(Clone, Copy, Debug, PartialEq, Eq, Structural)]
pub enum InstructionType {
    RType,
    IType,
    JType,
}

/// An operand of an instruction, as written in assembly.
#[derive(Clone, Copy, Debug, PartialEq, Eq, Structural)]
pub enum ArgumentType {
    Rd,
    Rs,
    Rt,
    Immediate,
    Identifier,
    BranchLabel,
}

/// The description of one instruction.
#[derive(Debug)]
pub struct InstructionInformation {
    pub mnemonic: &'static str,
    pub instruction_type: InstructionType,
    pub op_code: u32,
    pub funct_code: Option<u32>,
    pub args: Vec<ArgumentType>,
    pub alt_args: Option<Vec<Vec<ArgumentType>>>,
}

impl InstructionInformation {
    /// The key the instruction is found under: the opcode above six bits of funct (or zero).
    pub open spec fn lookup_of(&self) -> u32 {
        ((self.op_code << 6u32) | match self.funct_code { Some(f) => f, None => 0u32 }) as u32
    }

    /// The key the instruction is found under.
    pub fn lookup_code(&self) -> (c: u32)
        ensures
            c == self.lookup_of(),
    {
        self.op_code << 6 | match self.funct_code { Some(f) => f, None => 0 }
    }
}

/// Whether `code` is the lookup code of an implemented instruction.
pub open spec fn known_code(code: u32) -> bool {
    code == 0x0 || code == 0x2 || code == 0x8 || code == 0x9 || code == 0xC || code == 0xD || code == 0x20 || code == 0x21 || code == 0x22 || code == 0x23 || code == 0x24 || code == 0x25 || code == 0x26 || code == 0x27 || code == 0x2A || code == 0x2B || code == 0x80 || code == 0xC0 || code == 0x100 || code == 0x140 || code == 0x180 || code == 0x1C0 || code == 0x200 || code == 0x240 || code == 0x280 || code == 0x2C0 || code == 0x300 || code == 0x340 || code == 0x380 || code == 0x3C0 || code == 0x800 || code == 0x8C0 || code == 0xA00 || code == 0xAC0
}

/// The mnemonic of the instruction with lookup code `code`.
pub open spec fn mnemonic_of(code: u32) -> Seq<char> {
    if code == 0x0 { "sll"@ }
    else if code == 0x2 { "srl"@ }
    else if code == 0x8 { "jr"@ }
    else if code == 0x9 { "jalr"@ }
    else if code == 0xC { "syscall"@ }
    else if code == 0xD { "break"@ }
    else if code == 0x20 { "add"@ }
    else if code == 0x21 { "addu"@ }
    else if code == 0x22 { "sub"@ }
    else if code == 0x23 { "subu"@ }
    else if code == 0x24 { "and"@ }
    else if code == 0x25 { "or"@ }
    else if code == 0x26 { "xor"@ }
    else if code == 0x27 { "nor"@ }
    else if code == 0x2A { "slt"@ }
    else if code == 0x2B { "sltu"@ }
    else if code == 0x80 { "j"@ }
    else if code == 0xC0 { "jal"@ }
    else if code == 0x100 { "beq"@ }
    else if code == 0x140 { "bne"@ }
    else if code == 0x180 { "blez"@ }
    else if code == 0x1C0 { "bgtz"@ }
    else if code == 0x200 { "addi"@ }
    else if code == 0x240 { "addiu"@ }
    else if code == 0x280 { "slti"@ }
    else if code == 0x2C0 { "sltiu"@ }
    else if code == 0x300 { "andi"@ }
    else if code == 0x340 { "ori"@ }
    else if code == 0x380 { "xori"@ }
    else if code == 0x3C0 { "lui"@ }
    else if code == 0x800 { "lb"@ }
    else if code == 0x8C0 { "lw"@ }
    else if code == 0xA00 { "sb"@ }
    else if code == 0xAC0 { "sw"@ }
    else { Seq::empty() }
}

/// The lookup codes of the implemented instructions.
proof fn lemma_lookup_codes()
    ensures
        ((0x0u32 << 6u32) | 0x0u32) == 0x0u32 && ((0x0u32 << 6u32) | 0x2u32) == 0x2u32 && ((0x0u32 << 6u32) | 0x8u32) == 0x8u32 && ((0x0u32 << 6u32) | 0x9u32) == 0x9u32 && ((0x0u32 << 6u32) | 0xCu32) == 0xCu32 && ((0x0u32 << 6u32) | 0xDu32) == 0xDu32 && ((0x0u32 << 6u32) | 0x20u32) == 0x20u32 && ((0x0u32 << 6u32) | 0x21u32) == 0x21u32 && ((0x0u32 << 6u32) | 0x22u32) == 0x22u32 && ((0x0u32 << 6u32) | 0x23u32) == 0x23u32 && ((0x0u32 << 6u32) | 0x24u32) == 0x24u32 && ((0x0u32 << 6u32) | 0x25u32) == 0x25u32 && ((0x0u32 << 6u32) | 0x26u32) == 0x26u32 && ((0x0u32 << 6u32) | 0x27u32) == 0x27u32 && ((0x0u32 << 6u32) | 0x2Au32) == 0x2Au32 && ((0x0u32 << 6u32) | 0x2Bu32) == 0x2Bu32 && ((0x2u32 << 6u32) | 0x0u32) == 0x80u32 && ((0x3u32 << 6u32) | 0x0u32) == 0xC0u32 && ((0x4u32 << 6u32) | 0x0u32) == 0x100u32 && ((0x5u32 << 6u32) | 0x0u32) == 0x140u32 && ((0x6u32 << 6u32) | 0x0u32) == 0x180u32 && ((0x7u32 << 6u32) | 0x0u32) == 0x1C0u32 && ((0x8u32 << 6u32) | 0x0u32) == 0x200u32 && ((0x9u32 << 6u32) | 0x0u32) == 0x240u32 && ((0xAu32 << 6u32) | 0x0u32) == 0x280u32 && ((0xBu32 << 6u32) | 0x0u32) == 0x2C0u32 && ((0xCu32 << 6u32) | 0x0u32) == 0x300u32 && ((0xDu32 << 6u32) | 0x0u32) == 0x340u32 && ((0xEu32 << 6u32) | 0x0u32) == 0x380u32 && ((0xFu32 << 6u32) | 0x0u32) == 0x3C0u32 && ((0x20u32 << 6u32) | 0x0u32) == 0x800u32 && ((0x23u32 << 6u32) | 0x0u32) == 0x8C0u32 && ((0x28u32 << 6u32) | 0x0u32) == 0xA00u32 && ((0x2Bu32 << 6u32) | 0x0u32) == 0xAC0u32,
{
    assert(((0x0u32 << 6u32) | 0x0u32) == 0x0u32 && ((0x0u32 << 6u32) | 0x2u32) == 0x2u32 && ((0x0u32 << 6u32) | 0x8u32) == 0x8u32 && ((0x0u32 << 6u32) | 0x9u32) == 0x9u32 && ((0x0u32 << 6u32) | 0xCu32) == 0xCu32 && ((0x0u32 << 6u32) | 0xDu32) == 0xDu32 && ((0x0u32 << 6u32) | 0x20u32) == 0x20u32 && ((0x0u32 << 6u32) | 0x21u32) == 0x21u32 && ((0x0u32 << 6u32) | 0x22u32) == 0x22u32 && ((0x0u32 << 6u32) | 0x23u32) == 0x23u32 && ((0x0u32 << 6u32) | 0x24u32) == 0x24u32 && ((0x0u32 << 6u32) | 0x25u32) == 0x25u32 && ((0x0u32 << 6u32) | 0x26u32) == 0x26u32 && ((0x0u32 << 6u32) | 0x27u32) == 0x27u32 && ((0x0u32 << 6u32) | 0x2Au32) == 0x2Au32 && ((0x0u32 << 6u32) | 0x2Bu32) == 0x2Bu32 && ((0x2u32 << 6u32) | 0x0u32) == 0x80u32 && ((0x3u32 << 6u32) | 0x0u32) == 0xC0u32 && ((0x4u32 << 6u32) | 0x0u32) == 0x100u32 && ((0x5u32 << 6u32) | 0x0u32) == 0x140u32 && ((0x6u32 << 6u32) | 0x0u32) == 0x180u32 && ((0x7u32 << 6u32) | 0x0u32) == 0x1C0u32 && ((0x8u32 << 6u32) | 0x0u32) == 0x200u32 && ((0x9u32 << 6u32) | 0x0u32) == 0x240u32 && ((0xAu32 << 6u32) | 0x0u32) == 0x280u32 && ((0xBu32 << 6u32) | 0x0u32) == 0x2C0u32 && ((0xCu32 << 6u32) | 0x0u32) == 0x300u32 && ((0xDu32 << 6u32) | 0x0u32) == 0x340u32 && ((0xEu32 << 6u32) | 0x0u32) == 0x380u32 && ((0xFu32 << 6u32) | 0x0u32) == 0x3C0u32 && ((0x20u32 << 6u32) | 0x0u32) == 0x800u32 && ((0x23u32 << 6u32) | 0x0u32) == 0x8C0u32 && ((0x28u32 << 6u32) | 0x0u32) == 0xA00u32 && ((0x2Bu32 << 6u32) | 0x0u32) == 0xAC0u32) by (bit_vector);
}

/// The description of the instruction with lookup code `code`, if it is implemented.
pub fn instruction_information(code: u32) -> (info: Option<InstructionInformation>)
    ensures
        info is Some <==> known_code(code),
        info matches Some(i) ==> i.lookup_of() == code && i.mnemonic@ == mnemonic_of(code),
{
    proof { lemma_lookup_codes(); }
    if code == 0x0 {
        proof { reveal_strlit("sll"); }
        Some(InstructionInformation { mnemonic: "sll", instruction_type: InstructionType::RType, op_code: 0x0, funct_code: Some(0x0), args: vec![ArgumentType::Rd, ArgumentType::Rt, ArgumentType::Immediate], alt_args: None })
    } else if code == 0x2 {
        proof { reveal_strlit("srl"); }
        Some(InstructionInformation { mnemonic: "srl", instruction_type: InstructionType::RType, op_code: 0x0, funct_code: Some(0x2), args: vec![ArgumentType::Rd, ArgumentType::Rt, ArgumentType::Immediate], alt_args: None })
    } else if code == 0x8 {
        proof { reveal_strlit("jr"); }
        Some(InstructionInformation { mnemonic: "jr", instruction_type: InstructionType::RType, op_code: 0x0, funct_code: Some(0x8), args: vec![ArgumentType::Rs], alt_args: None })
    } else if code == 0x9 {
        proof { reveal_strlit("jalr"); }
        Some(InstructionInformation { mnemonic: "jalr", instruction_type: InstructionType::RType, op_code: 0x0, funct_code: Some(0x9), args: vec![ArgumentType::Rd, ArgumentType::Rs], alt_args: None })
    } else if code == 0xC {
        proof { reveal_strlit("syscall"); }
        Some(InstructionInformation { mnemonic: "syscall", instruction_type: InstructionType::RType, op_code: 0x0, funct_code: Some(0xC), args: vec![], alt_args: None })
    } else if code == 0xD {
        proof { reveal_strlit("break"); }
        Some(InstructionInformation { mnemonic: "break", instruction_type: InstructionType::RType, op_code: 0x0, funct_code: Some(0xD), args: vec![], alt_args: None })
    } else if code == 0x20 {
        proof { reveal_strlit("add"); }
        Some(InstructionInformation { mnemonic: "add", instruction_type: InstructionType::RType, op_code: 0x0, funct_code: Some(0x20), args: vec![ArgumentType::Rd, ArgumentType::Rs, ArgumentType::Rt], alt_args: None })
    } else if code == 0x21 {
        proof { reveal_strlit("addu"); }
        Some(InstructionInformation { mnemonic: "addu", instruction_type: InstructionType::RType, op_code: 0x0, funct_code: Some(0x21), args: vec![ArgumentType::Rd, ArgumentType::Rs, ArgumentType::Rt], alt_args: None })
    } else if code == 0x22 {
        proof { reveal_strlit("sub"); }
        Some(InstructionInformation { mnemonic: "sub", instruction_type: InstructionType::RType, op_code: 0x0, funct_code: Some(0x22), args: vec![ArgumentType::Rd, ArgumentType::Rs, ArgumentType::Rt], alt_args: None })
    } else if code == 0x23 {
        proof { reveal_strlit("subu"); }
        Some(InstructionInformation { mnemonic: "subu", instruction_type: InstructionType::RType, op_code: 0x0, funct_code: Some(0x23), args: vec![ArgumentType::Rd, ArgumentType::Rs, ArgumentType::Rt], alt_args: None })
    } else if code == 0x24 {
        proof { reveal_strlit("and"); }
        Some(InstructionInformation { mnemonic: "and", instruction_type: InstructionType::RType, op_code: 0x0, funct_code: Some(0x24), args: vec![ArgumentType::Rd, ArgumentType::Rs, ArgumentType::Rt], alt_args: None })
    } else if code == 0x25 {
        proof { reveal_strlit("or"); }
        Some(InstructionInformation { mnemonic: "or", instruction_type: InstructionType::RType, op_code: 0x0, funct_code: Some(0x25), args: vec![ArgumentType::Rd, ArgumentType::Rs, ArgumentType::Rt], alt_args: None })
    } else if code == 0x26 {
        proof { reveal_strlit("xor"); }
        Some(InstructionInformation { mnemonic: "xor", instruction_type: InstructionType::RType, op_code: 0x0, funct_code: Some(0x26), args: vec![ArgumentType::Rd, ArgumentType::Rs, ArgumentType::Rt], alt_args: None })
    } else if code == 0x27 {
        proof { reveal_strlit("nor"); }
        Some(InstructionInformation { mnemonic: "nor", instruction_type: InstructionType::RType, op_code: 0x0, funct_code: Some(0x27), args: vec![ArgumentType::Rd, ArgumentType::Rs, ArgumentType::Rt], alt_args: None })
    } else if code == 0x2A {
        proof { reveal_strlit("slt"); }
        Some(InstructionInformation { mnemonic: "slt", instruction_type: InstructionType::RType, op_code: 0x0, funct_code: Some(0x2A), args: vec![ArgumentType::Rd, ArgumentType::Rs, ArgumentType::Rt], alt_args: None })
    } else if code == 0x2B {
        proof { reveal_strlit("sltu"); }
        Some(InstructionInformation { mnemonic: "sltu", instruction_type: InstructionType::RType, op_code: 0x0, funct_code: Some(0x2B), args: vec![ArgumentType::Rd, ArgumentType::Rs, ArgumentType::Rt], alt_args: None })
    } else if code == 0x80 {
        proof { reveal_strlit("j"); }
        Some(InstructionInformation { mnemonic: "j", instruction_type: InstructionType::JType, op_code: 0x2, funct_code: None, args: vec![ArgumentType::Identifier], alt_args: None })
    } else if code == 0xC0 {
        proof { reveal_strlit("jal"); }
        Some(InstructionInformation { mnemonic: "jal", instruction_type: InstructionType::JType, op_code: 0x3, funct_code: None, args: vec![ArgumentType::Identifier], alt_args: None })
    } else if code == 0x100 {
        proof { reveal_strlit("beq"); }
        Some(InstructionInformation { mnemonic: "beq", instruction_type: InstructionType::IType, op_code: 0x4, funct_code: None, args: vec![ArgumentType::Rs, ArgumentType::Rt, ArgumentType::BranchLabel], alt_args: None })
    } else if code == 0x140 {
        proof { reveal_strlit("bne"); }
        Some(InstructionInformation { mnemonic: "bne", instruction_type: InstructionType::IType, op_code: 0x5, funct_code: None, args: vec![ArgumentType::Rs, ArgumentType::Rt, ArgumentType::BranchLabel], alt_args: None })
    } else if code == 0x180 {
        proof { reveal_strlit("blez"); }
        Some(InstructionInformation { mnemonic: "blez", instruction_type: InstructionType::IType, op_code: 0x6, funct_code: None, args: vec![ArgumentType::Rs, ArgumentType::BranchLabel], alt_args: None })
    } else if code == 0x1C0 {
        proof { reveal_strlit("bgtz"); }
        Some(InstructionInformation { mnemonic: "bgtz", instruction_type: InstructionType::IType, op_code: 0x7, funct_code: None, args: vec![ArgumentType::Rs, ArgumentType::BranchLabel], alt_args: None })
    } else if code == 0x200 {
        proof { reveal_strlit("addi"); }
        Some(InstructionInformation { mnemonic: "addi", instruction_type: InstructionType::IType, op_code: 0x8, funct_code: None, args: vec![ArgumentType::Rt, ArgumentType::Rs, ArgumentType::Immediate], alt_args: None })
    } else if code == 0x240 {
        proof { reveal_strlit("addiu"); }
        Some(InstructionInformation { mnemonic: "addiu", instruction_type: InstructionType::IType, op_code: 0x9, funct_code: None, args: vec![ArgumentType::Rt, ArgumentType::Rs, ArgumentType::Immediate], alt_args: None })
    } else if code == 0x280 {
        proof { reveal_strlit("slti"); }
        Some(InstructionInformation { mnemonic: "slti", instruction_type: InstructionType::IType, op_code: 0xA, funct_code: None, args: vec![ArgumentType::Rt, ArgumentType::Rs, ArgumentType::Immediate], alt_args: None })
    } else if code == 0x2C0 {
        proof { reveal_strlit("sltiu"); }
        Some(InstructionInformation { mnemonic: "sltiu", instruction_type: InstructionType::IType, op_code: 0xB, funct_code: None, args: vec![ArgumentType::Rt, ArgumentType::Rs, ArgumentType::Immediate], alt_args: None })
    } else if code == 0x300 {
        proof { reveal_strlit("andi"); }
        Some(InstructionInformation { mnemonic: "andi", instruction_type: InstructionType::IType, op_code: 0xC, funct_code: None, args: vec![ArgumentType::Rt, ArgumentType::Rs, ArgumentType::Immediate], alt_args: None })
    } else if code == 0x340 {
        proof { reveal_strlit("ori"); }
        Some(InstructionInformation { mnemonic: "ori", instruction_type: InstructionType::IType, op_code: 0xD, funct_code: None, args: vec![ArgumentType::Rt, ArgumentType::Rs, ArgumentType::Immediate], alt_args: None })
    } else if code == 0x380 {
        proof { reveal_strlit("xori"); }
        Some(InstructionInformation { mnemonic: "xori", instruction_type: InstructionType::IType, op_code: 0xE, funct_code: None, args: vec![ArgumentType::Rt, ArgumentType::Rs, ArgumentType::Immediate], alt_args: None })
    } else if code == 0x3C0 {
        proof { reveal_strlit("lui"); }
        Some(InstructionInformation { mnemonic: "lui", instruction_type: InstructionType::IType, op_code: 0xF, funct_code: None, args: vec![ArgumentType::Rt, ArgumentType::Immediate], alt_args: None })
    } else if code == 0x800 {
        proof { reveal_strlit("lb"); }
        Some(InstructionInformation { mnemonic: "lb", instruction_type: InstructionType::IType, op_code: 0x20, funct_code: None, args: vec![ArgumentType::Rt, ArgumentType::Immediate, ArgumentType::Rs], alt_args: None })
    } else if code == 0x8C0 {
        proof { reveal_strlit("lw"); }
        Some(InstructionInformation { mnemonic: "lw", instruction_type: InstructionType::IType, op_code: 0x23, funct_code: None, args: vec![ArgumentType::Rt, ArgumentType::Immediate, ArgumentType::Rs], alt_args: None })
    } else if code == 0xA00 {
        proof { reveal_strlit("sb"); }
        Some(InstructionInformation { mnemonic: "sb", instruction_type: InstructionType::IType, op_code: 0x28, funct_code: None, args: vec![ArgumentType::Rt, ArgumentType::Immediate, ArgumentType::Rs], alt_args: None })
    } else if code == 0xAC0 {
        proof { reveal_strlit("sw"); }
        Some(InstructionInformation { mnemonic: "sw", instruction_type: InstructionType::IType, op_code: 0x2B, funct_code: None, args: vec![ArgumentType::Rt, ArgumentType::Immediate, ArgumentType::Rs], alt_args: None })
    } else {
        None
    }
}

} // verus!
