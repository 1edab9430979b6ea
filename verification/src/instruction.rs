//! Decoding of raw 32-bit MIPS instructions into their classes and fields.
use vstd::prelude::*;

use crate::operation::{ImmediateOp, Operation, OperationError, RegimmOp, Special1Op, Special2Op};
use crate::structs::Register;

verus! {

/// The opcode field (bits 26..32).
pub open spec fn opcode_of(raw: u32) -> u32 {
    raw >> 26
}

/// The rs field (bits 21..26).
pub open spec fn rs_of(raw: u32) -> u32 {
    (raw >> 21) & 0x1F
}

/// The rt field (bits 16..21).
pub open spec fn rt_of(raw: u32) -> u32 {
    (raw >> 16) & 0x1F
}

/// The rd field (bits 11..16).
pub open spec fn rd_of(raw: u32) -> u32 {
    (raw >> 11) & 0x1F
}

/// The shamt field (bits 6..11).
pub open spec fn shamt_of(raw: u32) -> u32 {
    (raw >> 6) & 0x1F
}

/// The funct field (bits 0..6).
pub open spec fn funct_of(raw: u32) -> u32 {
    raw & 0x3F
}

/// The 16-bit immediate field (bits 0..16).
pub open spec fn imm_of(raw: u32) -> u32 {
    raw & 0xFFFF
}

/// The 26-bit jump target field (bits 0..26).
pub open spec fn target_of(raw: u32) -> u32 {
    raw & 0x3FFFFFF
}

/// Every field fits its width.
pub proof fn lemma_field_bounds(raw: u32)
    ensures
        opcode_of(raw) < 64,
        rs_of(raw) < 32,
        rt_of(raw) < 32,
        rd_of(raw) < 32,
        shamt_of(raw) < 32,
        funct_of(raw) < 64,
        imm_of(raw) < 65536,
        target_of(raw) < 0x4000000,
{
    assert(raw >> 26 < 64 && (raw >> 21) & 0x1F < 32 && (raw >> 16) & 0x1F < 32 && (raw >> 11) & 0x1F
        < 32 && (raw >> 6) & 0x1F < 32 && raw & 0x3F < 64 && raw & 0xFFFF < 65536 && raw & 0x3FFFFFF
        < 0x4000000) by (bit_vector);
}

/// Why a field or operation could not be decoded.
#[derive(Clone, Copy, PartialEq, Eq, Structural, Debug)]
pub enum InstructionError {
    Operation(OperationError),
    InvalidRegister,
    NoSuchField,
}

/// A raw instruction word.
#[derive(Clone, Copy)]
pub struct RawInstruction {
    pub raw: u32,
}

/// The register named by a 5-bit field.
pub open spec fn reg_of(field: u32) -> Register {
    Register::from_index(field).unwrap()
}

/// The SPECIAL or SPECIAL2 operation, when that is the class.
pub enum SpecialOp {
    Special1(Special1Op),
    Special2(Special2Op),
}

impl RawInstruction {
    pub open spec fn spec_opcode(self) -> u32 {
        opcode_of(self.raw)
    }

    pub open spec fn spec_is_immediate(self) -> bool {
        let op = opcode_of(self.raw);
        op != 0x00 && op != 0x01 && op != 0x1C && op < 0x3F
    }

    pub open spec fn spec_is_special1(self) -> bool {
        opcode_of(self.raw) == 0x00
    }

    pub open spec fn spec_is_special2(self) -> bool {
        opcode_of(self.raw) == 0x1C
    }

    pub open spec fn spec_is_special(self) -> bool {
        self.spec_is_special1() || self.spec_is_special2()
    }

    pub open spec fn spec_is_regimm(self) -> bool {
        opcode_of(self.raw) == 0x01
    }

    pub open spec fn spec_immediate_op(self) -> Result<ImmediateOp, InstructionError> {
        match ImmediateOp::from_op_code(opcode_of(self.raw)) {
            Some(op) => Ok(op),
            None => Err(InstructionError::Operation(ImmediateOp::code_error(opcode_of(self.raw)))),
        }
    }

    pub open spec fn spec_special_op(self) -> Result<SpecialOp, InstructionError> {
        if self.spec_is_special1() {
            match Special1Op::from_op_code(funct_of(self.raw)) {
                Some(op) => Ok(SpecialOp::Special1(op)),
                None => Err(InstructionError::Operation(Special1Op::code_error(funct_of(self.raw)))),
            }
        } else if self.spec_is_special2() {
            match Special2Op::from_op_code(funct_of(self.raw)) {
                Some(op) => Ok(SpecialOp::Special2(op)),
                None => Err(InstructionError::Operation(Special2Op::code_error(funct_of(self.raw)))),
            }
        } else {
            Err(InstructionError::NoSuchField)
        }
    }

    pub open spec fn spec_regimm_op(self) -> Result<RegimmOp, InstructionError> {
        if self.spec_is_regimm() {
            match RegimmOp::from_op_code(rt_of(self.raw)) {
                Some(op) => Ok(op),
                None => Err(InstructionError::Operation(RegimmOp::code_error(rt_of(self.raw)))),
            }
        } else {
            Err(InstructionError::NoSuchField)
        }
    }

    /// The operation: SPECIAL classes first, then REGIMM, then the opcode alone.
    pub open spec fn spec_operation(self) -> Result<Operation, InstructionError> {
        match self.spec_special_op() {
            Ok(SpecialOp::Special1(s)) => Ok(Operation::Special1(s)),
            Ok(SpecialOp::Special2(s)) => Ok(Operation::Special2(s)),
            Err(_) => match self.spec_regimm_op() {
                Ok(op) => Ok(Operation::Regimm(op)),
                Err(_) => match self.spec_immediate_op() {
                    Ok(op) => Ok(Operation::Immediate(op)),
                    Err(e) => Err(e),
                },
            },
        }
    }

    pub open spec fn spec_rs(self) -> Result<Register, InstructionError> {
        Ok(reg_of(rs_of(self.raw)))
    }

    pub open spec fn spec_rt(self) -> Result<Register, InstructionError> {
        if self.spec_is_regimm() {
            Err(InstructionError::NoSuchField)
        } else {
            Ok(reg_of(rt_of(self.raw)))
        }
    }

    pub open spec fn spec_shamt(self) -> Result<u32, InstructionError> {
        if self.spec_is_special() {
            Ok(shamt_of(self.raw))
        } else {
            Err(InstructionError::NoSuchField)
        }
    }

    pub open spec fn spec_rd(self) -> Result<Register, InstructionError> {
        if self.spec_is_regimm() || self.spec_is_immediate() {
            Err(InstructionError::NoSuchField)
        } else {
            Ok(reg_of(rd_of(self.raw)))
        }
    }

    pub open spec fn spec_immediate(self) -> Result<u32, InstructionError> {
        if self.spec_is_special() {
            Err(InstructionError::NoSuchField)
        } else {
            Ok(imm_of(self.raw))
        }
    }

    pub open spec fn spec_26_bit_address(self) -> Result<u32, InstructionError> {
        match self.spec_immediate_op() {
            Err(e) => Err(e),
            Ok(ImmediateOp::J) | Ok(ImmediateOp::Jal) | Ok(ImmediateOp::Jalx) => Ok(target_of(self.raw)),
            Ok(_) => Err(InstructionError::NoSuchField),
        }
    }

    /// Wraps a raw word.
    pub fn new(raw: u32) -> (r: RawInstruction)
        ensures
            r.raw == raw,
    {
        RawInstruction { raw }
    }

    /// The opcode field.
    pub fn opcode(self) -> (r: u32)
        ensures
            r == self.spec_opcode(),
            r < 64,
    {
        proof { lemma_field_bounds(self.raw); }
        self.raw >> 26
    }

    /// Whether the opcode alone selects the operation.
    pub fn is_immediate(self) -> (b: bool)
        ensures
            b == self.spec_is_immediate(),
    {
        let op = self.opcode();
        if op == 0x00 || op == 0x01 || op == 0x1C {
            false
        } else if op < 0x3F {
            true
        } else {
            false
        }
    }

    /// Whether this is a SPECIAL-class instruction.
    pub fn is_special1(self) -> (b: bool)
        ensures
            b == self.spec_is_special1(),
    {
        self.opcode() == 0x00
    }

    /// Whether this is a SPECIAL2-class instruction.
    pub fn is_special2(self) -> (b: bool)
        ensures
            b == self.spec_is_special2(),
    {
        self.opcode() == 0x1C
    }

    /// Whether this is a SPECIAL or SPECIAL2 instruction.
    pub fn is_special(self) -> (b: bool)
        ensures
            b == self.spec_is_special(),
    {
        self.is_special1() || self.is_special2()
    }

    /// Whether this is a REGIMM-class instruction.
    pub fn is_regimm(self) -> (b: bool)
        ensures
            b == self.spec_is_regimm(),
    {
        self.opcode() == 0x01
    }

    /// The operation, tried as SPECIAL, then REGIMM, then by opcode.
    pub fn operation(self) -> (r: Result<Operation, InstructionError>)
        ensures
            r == self.spec_operation(),
    {
        match self.get_special_op() {
            Ok(SpecialOp::Special1(s)) => Ok(Operation::Special1(s)),
            Ok(SpecialOp::Special2(s)) => Ok(Operation::Special2(s)),
            Err(_) => match self.get_regimm_op() {
                Ok(op) => Ok(Operation::Regimm(op)),
                Err(_) => match self.get_immediate_op() {
                    Ok(op) => Ok(Operation::Immediate(op)),
                    Err(e) => Err(e),
                },
            },
        }
    }

    /// The operation named by the opcode.
    pub fn get_immediate_op(self) -> (r: Result<ImmediateOp, InstructionError>)
        ensures
            r == self.spec_immediate_op(),
    {
        match ImmediateOp::try_from(self.opcode()) {
            Ok(op) => Ok(op),
            Err(e) => Err(InstructionError::Operation(e)),
        }
    }

    /// The SPECIAL or SPECIAL2 operation named by the funct field.
    pub fn get_special_op(self) -> (r: Result<SpecialOp, InstructionError>)
        ensures
            r == self.spec_special_op(),
    {
        if self.is_special1() {
            match Special1Op::try_from(self.raw & 0x3F) {
                Ok(op) => Ok(SpecialOp::Special1(op)),
                Err(e) => Err(InstructionError::Operation(e)),
            }
        } else if self.is_special2() {
            match Special2Op::try_from(self.raw & 0x3F) {
                Ok(op) => Ok(SpecialOp::Special2(op)),
                Err(e) => Err(InstructionError::Operation(e)),
            }
        } else {
            Err(InstructionError::NoSuchField)
        }
    }

    /// The REGIMM operation named by the rt field.
    pub fn get_regimm_op(self) -> (r: Result<RegimmOp, InstructionError>)
        ensures
            r == self.spec_regimm_op(),
    {
        if self.is_regimm() {
            match RegimmOp::try_from(self.raw >> 16 & 0x1F) {
                Ok(op) => Ok(op),
                Err(e) => Err(InstructionError::Operation(e)),
            }
        } else {
            Err(InstructionError::NoSuchField)
        }
    }

    /// The rs register.
    pub fn get_rs(self) -> (r: Result<Register, InstructionError>)
        ensures
            r == self.spec_rs(),
    {
        proof { lemma_field_bounds(self.raw); }
        Register::try_from(self.raw >> 21 & 0x1F)
    }

    /// The rt register (REGIMM instructions use that field for the operation).
    pub fn get_rt(self) -> (r: Result<Register, InstructionError>)
        ensures
            r == self.spec_rt(),
    {
        proof { lemma_field_bounds(self.raw); }
        if self.is_regimm() {
            Err(InstructionError::NoSuchField)
        } else {
            Register::try_from(self.raw >> 16 & 0x1F)
        }
    }

    /// The shift amount of SPECIAL instructions.
    pub fn get_shamt(self) -> (r: Result<u32, InstructionError>)
        ensures
            r == self.spec_shamt(),
    {
        if self.is_special() {
            Ok(self.raw >> 6 & 0x1F)
        } else {
            Err(InstructionError::NoSuchField)
        }
    }

    /// The rd register of SPECIAL instructions.
    pub fn get_rd(self) -> (r: Result<Register, InstructionError>)
        ensures
            r == self.spec_rd(),
    {
        proof { lemma_field_bounds(self.raw); }
        if self.is_regimm() || self.is_immediate() {
            Err(InstructionError::NoSuchField)
        } else {
            Register::try_from(self.raw >> 11 & 0x1F)
        }
    }

    /// The 16-bit immediate of non-SPECIAL instructions.
    pub fn get_immediate(self) -> (r: Result<u32, InstructionError>)
        ensures
            r == self.spec_immediate(),
    {
        if self.is_special() {
            Err(InstructionError::NoSuchField)
        } else {
            Ok(self.raw & 0xFFFF)
        }
    }

    /// The 26-bit target of jump instructions.
    pub fn get_26_bit_address(self) -> (r: Result<u32, InstructionError>)
        ensures
            r == self.spec_26_bit_address(),
    {
        match self.get_immediate_op() {
            Err(e) => Err(e),
            Ok(ImmediateOp::J) | Ok(ImmediateOp::Jal) | Ok(ImmediateOp::Jalx) => Ok(self.raw & 0x3FFFFFF),
            Ok(_) => Err(InstructionError::NoSuchField),
        }
    }
}

/// An instruction selected by its opcode, with two registers and an immediate.
pub struct Immediate {
    pub opcode: ImmediateOp,
    pub rs: Register,
    pub rt: Register,
    pub imm: u32,
}

/// The immediate-form decoding of `raw`: its operation and fields, or the first field that fails.
pub open spec fn immediate_of(raw: RawInstruction) -> Result<Immediate, InstructionError> {
    match raw.spec_immediate_op() {
        Err(e) => Err(e),
        Ok(opcode) => match raw.spec_rs() {
            Err(e) => Err(e),
            Ok(rs) => match raw.spec_rt() {
                Err(e) => Err(e),
                Ok(rt) => match raw.spec_immediate() {
                    Err(e) => Err(e),
                    Ok(imm) => Ok(Immediate { opcode, rs, rt, imm }),
                },
            },
        },
    }
}

impl Immediate {
    /// Decodes `raw` as an immediate-form instruction.
    pub fn try_from(raw: RawInstruction) -> (r: Result<Immediate, InstructionError>)
        ensures
            r == immediate_of(raw),
    {
        let opcode = match raw.get_immediate_op() {
            Ok(x) => x,
            Err(e) => return Err(e),
        };
        let rs = match raw.get_rs() {
            Ok(x) => x,
            Err(e) => return Err(e),
        };
        let rt = match raw.get_rt() {
            Ok(x) => x,
            Err(e) => return Err(e),
        };
        let imm = match raw.get_immediate() {
            Ok(x) => x,
            Err(e) => return Err(e),
        };
        Ok(Immediate { opcode, rs, rt, imm })
    }
}

/// A SPECIAL or SPECIAL2 instruction with three registers and a shift amount.
pub struct Special {
    pub special_opcode: SpecialOp,
    pub rs: Register,
    pub rt: Register,
    pub rd: Register,
    pub shamt: u32,
}

/// The SPECIAL-form decoding of `raw`.
pub open spec fn special_of(raw: RawInstruction) -> Result<Special, InstructionError> {
    match raw.spec_special_op() {
        Err(e) => Err(e),
        Ok(special_opcode) => match raw.spec_rs() {
            Err(e) => Err(e),
            Ok(rs) => match raw.spec_rt() {
                Err(e) => Err(e),
                Ok(rt) => match raw.spec_rd() {
                    Err(e) => Err(e),
                    Ok(rd) => match raw.spec_shamt() {
                        Err(e) => Err(e),
                        Ok(shamt) => Ok(Special { special_opcode, rs, rt, rd, shamt }),
                    },
                },
            },
        },
    }
}

impl Special {
    /// Decodes `raw` as a SPECIAL-form instruction.
    pub fn try_from(raw: RawInstruction) -> (r: Result<Special, InstructionError>)
        ensures
            r == special_of(raw),
    {
        let special_opcode = match raw.get_special_op() {
            Ok(x) => x,
            Err(e) => return Err(e),
        };
        let rs = match raw.get_rs() {
            Ok(x) => x,
            Err(e) => return Err(e),
        };
        let rt = match raw.get_rt() {
            Ok(x) => x,
            Err(e) => return Err(e),
        };
        let rd = match raw.get_rd() {
            Ok(x) => x,
            Err(e) => return Err(e),
        };
        let shamt = match raw.get_shamt() {
            Ok(x) => x,
            Err(e) => return Err(e),
        };
        Ok(Special { special_opcode, rs, rt, rd, shamt })
    }
}

/// A REGIMM instruction with a register and an offset.
pub struct Regimm {
    pub regimm_op: RegimmOp,
    pub rs: Register,
    pub offset: u32,
}

/// The REGIMM-form decoding of `raw`.
pub open spec fn regimm_of(raw: RawInstruction) -> Result<Regimm, InstructionError> {
    match raw.spec_regimm_op() {
        Err(e) => Err(e),
        Ok(regimm_op) => match raw.spec_rs() {
            Err(e) => Err(e),
            Ok(rs) => match raw.spec_immediate() {
                Err(e) => Err(e),
                Ok(offset) => Ok(Regimm { regimm_op, rs, offset }),
            },
        },
    }
}

impl Regimm {
    /// Decodes `raw` as a REGIMM instruction.
    pub fn try_from(raw: RawInstruction) -> (r: Result<Regimm, InstructionError>)
        ensures
            r == regimm_of(raw),
    {
        let regimm_op = match raw.get_regimm_op() {
            Ok(x) => x,
            Err(e) => return Err(e),
        };
        let rs = match raw.get_rs() {
            Ok(x) => x,
            Err(e) => return Err(e),
        };
        let offset = match raw.get_immediate() {
            Ok(x) => x,
            Err(e) => return Err(e),
        };
        Ok(Regimm { regimm_op, rs, offset })
    }
}

/// A jump instruction with its 26-bit target.
pub struct Jump {
    pub opcode: ImmediateOp,
    pub address: u32,
}

/// The jump-form decoding of `raw`.
pub open spec fn jump_of(raw: RawInstruction) -> Result<Jump, InstructionError> {
    match raw.spec_immediate_op() {
        Err(e) => Err(e),
        Ok(opcode) => match raw.spec_26_bit_address() {
            Err(e) => Err(e),
            Ok(address) => Ok(Jump { opcode, address }),
        },
    }
}

impl Jump {
    /// Decodes `raw` as a jump.
    pub fn try_from(raw: RawInstruction) -> (r: Result<Jump, InstructionError>)
        ensures
            r == jump_of(raw),
    {
        let opcode = match raw.get_immediate_op() {
            Ok(x) => x,
            Err(e) => return Err(e),
        };
        let address = match raw.get_26_bit_address() {
            Ok(x) => x,
            Err(e) => return Err(e),
        };
        Ok(Jump { opcode, address })
    }
}

/// A decoded instruction of any class.
pub enum Instruction {
    Imm(Immediate),
    Spec(Special),
    Regimm(Regimm),
    J(Jump),
}

/// The full decoding of `raw`: its class by operation, then its fields.
pub open spec fn instruction_of(raw: RawInstruction) -> Result<Instruction, InstructionError> {
    match raw.spec_operation() {
        Err(e) => Err(e),
        Ok(Operation::Immediate(imm)) => if imm == ImmediateOp::J || imm == ImmediateOp::Jal || imm
            == ImmediateOp::Jalx {
            match jump_of(raw) {
                Ok(j) => Ok(Instruction::J(j)),
                Err(e) => Err(e),
            }
        } else {
            match immediate_of(raw) {
                Ok(i) => Ok(Instruction::Imm(i)),
                Err(e) => Err(e),
            }
        },
        Ok(Operation::Special1(_)) | Ok(Operation::Special2(_)) => match special_of(raw) {
            Ok(s) => Ok(Instruction::Spec(s)),
            Err(e) => Err(e),
        },
        Ok(Operation::Regimm(_)) => match regimm_of(raw) {
            Ok(r) => Ok(Instruction::Regimm(r)),
            Err(e) => Err(e),
        },
    }
}

impl Instruction {
    /// Decodes `raw` fully.
    pub fn try_from(raw: RawInstruction) -> (r: Result<Instruction, InstructionError>)
        ensures
            r == instruction_of(raw),
    {
        let op = match raw.operation() {
            Ok(x) => x,
            Err(e) => return Err(e),
        };
        match op {
            Operation::Immediate(imm) => match imm {
                ImmediateOp::J | ImmediateOp::Jal | ImmediateOp::Jalx => match Jump::try_from(raw) {
                    Ok(j) => Ok(Instruction::J(j)),
                    Err(e) => Err(e),
                },
                _ => match Immediate::try_from(raw) {
                    Ok(i) => Ok(Instruction::Imm(i)),
                    Err(e) => Err(e),
                },
            },
            Operation::Special2(_) | Operation::Special1(_) => match Special::try_from(raw) {
                Ok(s) => Ok(Instruction::Spec(s)),
                Err(e) => Err(e),
            },
            Operation::Regimm(_) => match Regimm::try_from(raw) {
                Ok(r) => Ok(Instruction::Regimm(r)),
                Err(e) => Err(e),
            },
        }
    }
}

} // verus!
