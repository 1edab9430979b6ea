//! The operations of the MIPS instruction set, by instruction class, and
//! their numeric codes.
use vstd::prelude::*;

verus! {

/// Why a code names no operation of a class.
#[derive(Clone, Copy, PartialEq, Eq, Structural, Debug)]
pub enum OperationError {
    ReservedInstruction,
    InvalidInstruction,
    WrongInstructionClass,
}

/// An operation together with its instruction class.
#[derive(Clone, Copy, PartialEq, Eq, Structural, Debug)]
pub enum Operation {
    Immediate(ImmediateOp),
    Special1(Special1Op),
    Special2(Special2Op),
    Regimm(RegimmOp),
}

impl Operation {
    /// The immediate-class operation, if that is the class.
    pub fn immediate(&self) -> (r: Result<ImmediateOp, OperationError>)
        ensures
            r == match *self {
                Operation::Immediate(x) => Ok(x),
                _ => Err(OperationError::WrongInstructionClass),
            },
    {
        match self {
            Operation::Immediate(x) => Ok(*x),
            _ => Err(OperationError::WrongInstructionClass),
        }
    }

    /// The SPECIAL-class operation, if that is the class.
    pub fn special1(&self) -> (r: Result<Special1Op, OperationError>)
        ensures
            r == match *self {
                Operation::Special1(x) => Ok(x),
                _ => Err(OperationError::WrongInstructionClass),
            },
    {
        match self {
            Operation::Special1(x) => Ok(*x),
            _ => Err(OperationError::WrongInstructionClass),
        }
    }

    /// The SPECIAL2-class operation, if that is the class.
    pub fn special2(&self) -> (r: Result<Special2Op, OperationError>)
        ensures
            r == match *self {
                Operation::Special2(x) => Ok(x),
                _ => Err(OperationError::WrongInstructionClass),
            },
    {
        match self {
            Operation::Special2(x) => Ok(*x),
            _ => Err(OperationError::WrongInstructionClass),
        }
    }

    /// The REGIMM-class operation, if that is the class.
    pub fn regimm(&self) -> (r: Result<RegimmOp, OperationError>)
        ensures
            r == match *self {
                Operation::Regimm(x) => Ok(x),
                _ => Err(OperationError::WrongInstructionClass),
            },
    {
        match self {
            Operation::Regimm(x) => Ok(*x),
            _ => Err(OperationError::WrongInstructionClass),
        }
    }
}

/// Operations selected by the opcode field alone.
#[derive(Clone, Copy, PartialEq, Eq, Structural, Debug)]
pub enum ImmediateOp {
    J,
    Jal,
    Beq,
    Bne,
    Blez,
    Bgtz,
    Addi,
    Addiu,
    Slti,
    Sltiu,
    Andi,
    Ori,
    Xori,
    Lui,
    Beql,
    Bnel,
    Blezl,
    Bgtzl,
    Jalx,
    Lb,
    Lh,
    Lwl,
    Lw,
    Lbu,
    Lhu,
    Lwr,
    Sb,
    Sh,
    Swl,
    Sw,
    Swr,
    Cache,
    Ll,
    Lwc1,
    Lwc2,
    Pref,
    Ldc1,
    Ldc2,
    Sc,
    Swc1,
    Swc2,
    Sdc1,
    Sdc2,
}

impl ImmediateOp {
    /// The numeric code of this operation.
    pub open spec fn op_code(self) -> u32 {
        match self {
            ImmediateOp::J => 0x02,
            ImmediateOp::Jal => 0x03,
            ImmediateOp::Beq => 0x04,
            ImmediateOp::Bne => 0x05,
            ImmediateOp::Blez => 0x06,
            ImmediateOp::Bgtz => 0x07,
            ImmediateOp::Addi => 0x08,
            ImmediateOp::Addiu => 0x09,
            ImmediateOp::Slti => 0x0A,
            ImmediateOp::Sltiu => 0x0B,
            ImmediateOp::Andi => 0x0C,
            ImmediateOp::Ori => 0x0D,
            ImmediateOp::Xori => 0x0E,
            ImmediateOp::Lui => 0x0F,
            ImmediateOp::Beql => 0x14,
            ImmediateOp::Bnel => 0x15,
            ImmediateOp::Blezl => 0x16,
            ImmediateOp::Bgtzl => 0x17,
            ImmediateOp::Jalx => 0x1D,
            ImmediateOp::Lb => 0x20,
            ImmediateOp::Lh => 0x21,
            ImmediateOp::Lwl => 0x22,
            ImmediateOp::Lw => 0x23,
            ImmediateOp::Lbu => 0x24,
            ImmediateOp::Lhu => 0x25,
            ImmediateOp::Lwr => 0x26,
            ImmediateOp::Sb => 0x28,
            ImmediateOp::Sh => 0x29,
            ImmediateOp::Swl => 0x2A,
            ImmediateOp::Sw => 0x2B,
            ImmediateOp::Swr => 0x2E,
            ImmediateOp::Cache => 0x2F,
            ImmediateOp::Ll => 0x30,
            ImmediateOp::Lwc1 => 0x31,
            ImmediateOp::Lwc2 => 0x32,
            ImmediateOp::Pref => 0x33,
            ImmediateOp::Ldc1 => 0x35,
            ImmediateOp::Ldc2 => 0x36,
            ImmediateOp::Sc => 0x38,
            ImmediateOp::Swc1 => 0x39,
            ImmediateOp::Swc2 => 0x3A,
            ImmediateOp::Sdc1 => 0x3D,
            ImmediateOp::Sdc2 => 0x3E,
        }
    }

    /// The operation whose code is `raw`, if any.
    pub open spec fn from_op_code(raw: u32) -> Option<ImmediateOp> {
        if raw == 0x02 { Some(ImmediateOp::J) }
        else if raw == 0x03 { Some(ImmediateOp::Jal) }
        else if raw == 0x04 { Some(ImmediateOp::Beq) }
        else if raw == 0x05 { Some(ImmediateOp::Bne) }
        else if raw == 0x06 { Some(ImmediateOp::Blez) }
        else if raw == 0x07 { Some(ImmediateOp::Bgtz) }
        else if raw == 0x08 { Some(ImmediateOp::Addi) }
        else if raw == 0x09 { Some(ImmediateOp::Addiu) }
        else if raw == 0x0A { Some(ImmediateOp::Slti) }
        else if raw == 0x0B { Some(ImmediateOp::Sltiu) }
        else if raw == 0x0C { Some(ImmediateOp::Andi) }
        else if raw == 0x0D { Some(ImmediateOp::Ori) }
        else if raw == 0x0E { Some(ImmediateOp::Xori) }
        else if raw == 0x0F { Some(ImmediateOp::Lui) }
        else if raw == 0x14 { Some(ImmediateOp::Beql) }
        else if raw == 0x15 { Some(ImmediateOp::Bnel) }
        else if raw == 0x16 { Some(ImmediateOp::Blezl) }
        else if raw == 0x17 { Some(ImmediateOp::Bgtzl) }
        else if raw == 0x1D { Some(ImmediateOp::Jalx) }
        else if raw == 0x20 { Some(ImmediateOp::Lb) }
        else if raw == 0x21 { Some(ImmediateOp::Lh) }
        else if raw == 0x22 { Some(ImmediateOp::Lwl) }
        else if raw == 0x23 { Some(ImmediateOp::Lw) }
        else if raw == 0x24 { Some(ImmediateOp::Lbu) }
        else if raw == 0x25 { Some(ImmediateOp::Lhu) }
        else if raw == 0x26 { Some(ImmediateOp::Lwr) }
        else if raw == 0x28 { Some(ImmediateOp::Sb) }
        else if raw == 0x29 { Some(ImmediateOp::Sh) }
        else if raw == 0x2A { Some(ImmediateOp::Swl) }
        else if raw == 0x2B { Some(ImmediateOp::Sw) }
        else if raw == 0x2E { Some(ImmediateOp::Swr) }
        else if raw == 0x2F { Some(ImmediateOp::Cache) }
        else if raw == 0x30 { Some(ImmediateOp::Ll) }
        else if raw == 0x31 { Some(ImmediateOp::Lwc1) }
        else if raw == 0x32 { Some(ImmediateOp::Lwc2) }
        else if raw == 0x33 { Some(ImmediateOp::Pref) }
        else if raw == 0x35 { Some(ImmediateOp::Ldc1) }
        else if raw == 0x36 { Some(ImmediateOp::Ldc2) }
        else if raw == 0x38 { Some(ImmediateOp::Sc) }
        else if raw == 0x39 { Some(ImmediateOp::Swc1) }
        else if raw == 0x3A { Some(ImmediateOp::Swc2) }
        else if raw == 0x3D { Some(ImmediateOp::Sdc1) }
        else if raw == 0x3E { Some(ImmediateOp::Sdc2) }
        else { None }
    }

    /// The numeric code of this operation.
    pub fn code(&self) -> (c: u32)
        ensures
            c == self.op_code(),
    {
        match self {
            ImmediateOp::J => 0x02,
            ImmediateOp::Jal => 0x03,
            ImmediateOp::Beq => 0x04,
            ImmediateOp::Bne => 0x05,
            ImmediateOp::Blez => 0x06,
            ImmediateOp::Bgtz => 0x07,
            ImmediateOp::Addi => 0x08,
            ImmediateOp::Addiu => 0x09,
            ImmediateOp::Slti => 0x0A,
            ImmediateOp::Sltiu => 0x0B,
            ImmediateOp::Andi => 0x0C,
            ImmediateOp::Ori => 0x0D,
            ImmediateOp::Xori => 0x0E,
            ImmediateOp::Lui => 0x0F,
            ImmediateOp::Beql => 0x14,
            ImmediateOp::Bnel => 0x15,
            ImmediateOp::Blezl => 0x16,
            ImmediateOp::Bgtzl => 0x17,
            ImmediateOp::Jalx => 0x1D,
            ImmediateOp::Lb => 0x20,
            ImmediateOp::Lh => 0x21,
            ImmediateOp::Lwl => 0x22,
            ImmediateOp::Lw => 0x23,
            ImmediateOp::Lbu => 0x24,
            ImmediateOp::Lhu => 0x25,
            ImmediateOp::Lwr => 0x26,
            ImmediateOp::Sb => 0x28,
            ImmediateOp::Sh => 0x29,
            ImmediateOp::Swl => 0x2A,
            ImmediateOp::Sw => 0x2B,
            ImmediateOp::Swr => 0x2E,
            ImmediateOp::Cache => 0x2F,
            ImmediateOp::Ll => 0x30,
            ImmediateOp::Lwc1 => 0x31,
            ImmediateOp::Lwc2 => 0x32,
            ImmediateOp::Pref => 0x33,
            ImmediateOp::Ldc1 => 0x35,
            ImmediateOp::Ldc2 => 0x36,
            ImmediateOp::Sc => 0x38,
            ImmediateOp::Swc1 => 0x39,
            ImmediateOp::Swc2 => 0x3A,
            ImmediateOp::Sdc1 => 0x3D,
            ImmediateOp::Sdc2 => 0x3E,
        }
    }

    /// The operation whose code is `raw`, if any.
    pub fn from_repr(raw: u32) -> (r: Option<ImmediateOp>)
        ensures
            r == ImmediateOp::from_op_code(raw),
    {
        if raw == 0x02 { Some(ImmediateOp::J) }
        else if raw == 0x03 { Some(ImmediateOp::Jal) }
        else if raw == 0x04 { Some(ImmediateOp::Beq) }
        else if raw == 0x05 { Some(ImmediateOp::Bne) }
        else if raw == 0x06 { Some(ImmediateOp::Blez) }
        else if raw == 0x07 { Some(ImmediateOp::Bgtz) }
        else if raw == 0x08 { Some(ImmediateOp::Addi) }
        else if raw == 0x09 { Some(ImmediateOp::Addiu) }
        else if raw == 0x0A { Some(ImmediateOp::Slti) }
        else if raw == 0x0B { Some(ImmediateOp::Sltiu) }
        else if raw == 0x0C { Some(ImmediateOp::Andi) }
        else if raw == 0x0D { Some(ImmediateOp::Ori) }
        else if raw == 0x0E { Some(ImmediateOp::Xori) }
        else if raw == 0x0F { Some(ImmediateOp::Lui) }
        else if raw == 0x14 { Some(ImmediateOp::Beql) }
        else if raw == 0x15 { Some(ImmediateOp::Bnel) }
        else if raw == 0x16 { Some(ImmediateOp::Blezl) }
        else if raw == 0x17 { Some(ImmediateOp::Bgtzl) }
        else if raw == 0x1D { Some(ImmediateOp::Jalx) }
        else if raw == 0x20 { Some(ImmediateOp::Lb) }
        else if raw == 0x21 { Some(ImmediateOp::Lh) }
        else if raw == 0x22 { Some(ImmediateOp::Lwl) }
        else if raw == 0x23 { Some(ImmediateOp::Lw) }
        else if raw == 0x24 { Some(ImmediateOp::Lbu) }
        else if raw == 0x25 { Some(ImmediateOp::Lhu) }
        else if raw == 0x26 { Some(ImmediateOp::Lwr) }
        else if raw == 0x28 { Some(ImmediateOp::Sb) }
        else if raw == 0x29 { Some(ImmediateOp::Sh) }
        else if raw == 0x2A { Some(ImmediateOp::Swl) }
        else if raw == 0x2B { Some(ImmediateOp::Sw) }
        else if raw == 0x2E { Some(ImmediateOp::Swr) }
        else if raw == 0x2F { Some(ImmediateOp::Cache) }
        else if raw == 0x30 { Some(ImmediateOp::Ll) }
        else if raw == 0x31 { Some(ImmediateOp::Lwc1) }
        else if raw == 0x32 { Some(ImmediateOp::Lwc2) }
        else if raw == 0x33 { Some(ImmediateOp::Pref) }
        else if raw == 0x35 { Some(ImmediateOp::Ldc1) }
        else if raw == 0x36 { Some(ImmediateOp::Ldc2) }
        else if raw == 0x38 { Some(ImmediateOp::Sc) }
        else if raw == 0x39 { Some(ImmediateOp::Swc1) }
        else if raw == 0x3A { Some(ImmediateOp::Swc2) }
        else if raw == 0x3D { Some(ImmediateOp::Sdc1) }
        else if raw == 0x3E { Some(ImmediateOp::Sdc2) }
        else { None }
    }

    /// Why `raw` names no operation of this class.
    pub open spec fn code_error(raw: u32) -> OperationError {
        if raw == 0x00 || raw == 0x01 || raw == 0x1C {
            OperationError::WrongInstructionClass
        } else if raw < 0x40 {
            OperationError::ReservedInstruction
        } else {
            OperationError::InvalidInstruction
        }
    }

    /// The operation whose code is `raw`; otherwise why there is none.
    pub fn try_from(raw: u32) -> (r: Result<ImmediateOp, OperationError>)
        ensures
            r == match ImmediateOp::from_op_code(raw) {
                Some(op) => Ok(op),
                None => Err(ImmediateOp::code_error(raw)),
            },
    {
        let err = if raw == 0x00 || raw == 0x01 || raw == 0x1C {
            OperationError::WrongInstructionClass
        } else if raw < 0x40 {
            OperationError::ReservedInstruction
        } else {
            OperationError::InvalidInstruction
        };
        match ImmediateOp::from_repr(raw) {
            Some(op) => Ok(op),
            None => Err(err),
        }
    }

}

/// Every ImmediateOp code reads back as its operation, and only operation codes read back.
pub proof fn lemma_immediate_op_roundtrip(op: ImmediateOp, raw: u32)
    ensures
        ImmediateOp::from_op_code(op.op_code()) == Some(op),
        ImmediateOp::from_op_code(raw) matches Some(o) ==> o.op_code() == raw,
{
}

/// Operations of opcode 0x00 (SPECIAL), selected by the funct field.
#[derive(Clone, Copy, PartialEq, Eq, Structural, Debug)]
pub enum Special1Op {
    Sll,
    Movci,
    Srl,
    Sra,
    Sllv,
    Lsa,
    Srlv,
    Srav,
    Jr,
    Jalr,
    Movz,
    Movn,
    Syscall,
    Break,
    Sdbbp,
    Sync,
    Mfhi,
    Mthi,
    Mflo,
    Mtlo,
    Mult,
    Multu,
    Div,
    Divu,
    Add,
    Addu,
    Sub,
    Subu,
    And,
    Or,
    Xor,
    Nor,
    Slt,
    Sltu,
    Tge,
    Tgeu,
    Tlt,
    Tltu,
    Teq,
    Tne,
}

impl Special1Op {
    /// The numeric code of this operation.
    pub open spec fn op_code(self) -> u32 {
        match self {
            Special1Op::Sll => 0x00,
            Special1Op::Movci => 0x01,
            Special1Op::Srl => 0x02,
            Special1Op::Sra => 0x03,
            Special1Op::Sllv => 0x04,
            Special1Op::Lsa => 0x05,
            Special1Op::Srlv => 0x06,
            Special1Op::Srav => 0x07,
            Special1Op::Jr => 0x08,
            Special1Op::Jalr => 0x09,
            Special1Op::Movz => 0x0A,
            Special1Op::Movn => 0x0B,
            Special1Op::Syscall => 0x0C,
            Special1Op::Break => 0x0D,
            Special1Op::Sdbbp => 0x0E,
            Special1Op::Sync => 0x0F,
            Special1Op::Mfhi => 0x10,
            Special1Op::Mthi => 0x11,
            Special1Op::Mflo => 0x12,
            Special1Op::Mtlo => 0x13,
            Special1Op::Mult => 0x18,
            Special1Op::Multu => 0x19,
            Special1Op::Div => 0x1A,
            Special1Op::Divu => 0x1B,
            Special1Op::Add => 0x20,
            Special1Op::Addu => 0x21,
            Special1Op::Sub => 0x22,
            Special1Op::Subu => 0x23,
            Special1Op::And => 0x24,
            Special1Op::Or => 0x25,
            Special1Op::Xor => 0x26,
            Special1Op::Nor => 0x27,
            Special1Op::Slt => 0x2A,
            Special1Op::Sltu => 0x2B,
            Special1Op::Tge => 0x30,
            Special1Op::Tgeu => 0x31,
            Special1Op::Tlt => 0x32,
            Special1Op::Tltu => 0x33,
            Special1Op::Teq => 0x34,
            Special1Op::Tne => 0x36,
        }
    }

    /// The operation whose code is `raw`, if any.
    pub open spec fn from_op_code(raw: u32) -> Option<Special1Op> {
        if raw == 0x00 { Some(Special1Op::Sll) }
        else if raw == 0x01 { Some(Special1Op::Movci) }
        else if raw == 0x02 { Some(Special1Op::Srl) }
        else if raw == 0x03 { Some(Special1Op::Sra) }
        else if raw == 0x04 { Some(Special1Op::Sllv) }
        else if raw == 0x05 { Some(Special1Op::Lsa) }
        else if raw == 0x06 { Some(Special1Op::Srlv) }
        else if raw == 0x07 { Some(Special1Op::Srav) }
        else if raw == 0x08 { Some(Special1Op::Jr) }
        else if raw == 0x09 { Some(Special1Op::Jalr) }
        else if raw == 0x0A { Some(Special1Op::Movz) }
        else if raw == 0x0B { Some(Special1Op::Movn) }
        else if raw == 0x0C { Some(Special1Op::Syscall) }
        else if raw == 0x0D { Some(Special1Op::Break) }
        else if raw == 0x0E { Some(Special1Op::Sdbbp) }
        else if raw == 0x0F { Some(Special1Op::Sync) }
        else if raw == 0x10 { Some(Special1Op::Mfhi) }
        else if raw == 0x11 { Some(Special1Op::Mthi) }
        else if raw == 0x12 { Some(Special1Op::Mflo) }
        else if raw == 0x13 { Some(Special1Op::Mtlo) }
        else if raw == 0x18 { Some(Special1Op::Mult) }
        else if raw == 0x19 { Some(Special1Op::Multu) }
        else if raw == 0x1A { Some(Special1Op::Div) }
        else if raw == 0x1B { Some(Special1Op::Divu) }
        else if raw == 0x20 { Some(Special1Op::Add) }
        else if raw == 0x21 { Some(Special1Op::Addu) }
        else if raw == 0x22 { Some(Special1Op::Sub) }
        else if raw == 0x23 { Some(Special1Op::Subu) }
        else if raw == 0x24 { Some(Special1Op::And) }
        else if raw == 0x25 { Some(Special1Op::Or) }
        else if raw == 0x26 { Some(Special1Op::Xor) }
        else if raw == 0x27 { Some(Special1Op::Nor) }
        else if raw == 0x2A { Some(Special1Op::Slt) }
        else if raw == 0x2B { Some(Special1Op::Sltu) }
        else if raw == 0x30 { Some(Special1Op::Tge) }
        else if raw == 0x31 { Some(Special1Op::Tgeu) }
        else if raw == 0x32 { Some(Special1Op::Tlt) }
        else if raw == 0x33 { Some(Special1Op::Tltu) }
        else if raw == 0x34 { Some(Special1Op::Teq) }
        else if raw == 0x36 { Some(Special1Op::Tne) }
        else { None }
    }

    /// The numeric code of this operation.
    pub fn code(&self) -> (c: u32)
        ensures
            c == self.op_code(),
    {
        match self {
            Special1Op::Sll => 0x00,
            Special1Op::Movci => 0x01,
            Special1Op::Srl => 0x02,
            Special1Op::Sra => 0x03,
            Special1Op::Sllv => 0x04,
            Special1Op::Lsa => 0x05,
            Special1Op::Srlv => 0x06,
            Special1Op::Srav => 0x07,
            Special1Op::Jr => 0x08,
            Special1Op::Jalr => 0x09,
            Special1Op::Movz => 0x0A,
            Special1Op::Movn => 0x0B,
            Special1Op::Syscall => 0x0C,
            Special1Op::Break => 0x0D,
            Special1Op::Sdbbp => 0x0E,
            Special1Op::Sync => 0x0F,
            Special1Op::Mfhi => 0x10,
            Special1Op::Mthi => 0x11,
            Special1Op::Mflo => 0x12,
            Special1Op::Mtlo => 0x13,
            Special1Op::Mult => 0x18,
            Special1Op::Multu => 0x19,
            Special1Op::Div => 0x1A,
            Special1Op::Divu => 0x1B,
            Special1Op::Add => 0x20,
            Special1Op::Addu => 0x21,
            Special1Op::Sub => 0x22,
            Special1Op::Subu => 0x23,
            Special1Op::And => 0x24,
            Special1Op::Or => 0x25,
            Special1Op::Xor => 0x26,
            Special1Op::Nor => 0x27,
            Special1Op::Slt => 0x2A,
            Special1Op::Sltu => 0x2B,
            Special1Op::Tge => 0x30,
            Special1Op::Tgeu => 0x31,
            Special1Op::Tlt => 0x32,
            Special1Op::Tltu => 0x33,
            Special1Op::Teq => 0x34,
            Special1Op::Tne => 0x36,
        }
    }

    /// The operation whose code is `raw`, if any.
    pub fn from_repr(raw: u32) -> (r: Option<Special1Op>)
        ensures
            r == Special1Op::from_op_code(raw),
    {
        if raw == 0x00 { Some(Special1Op::Sll) }
        else if raw == 0x01 { Some(Special1Op::Movci) }
        else if raw == 0x02 { Some(Special1Op::Srl) }
        else if raw == 0x03 { Some(Special1Op::Sra) }
        else if raw == 0x04 { Some(Special1Op::Sllv) }
        else if raw == 0x05 { Some(Special1Op::Lsa) }
        else if raw == 0x06 { Some(Special1Op::Srlv) }
        else if raw == 0x07 { Some(Special1Op::Srav) }
        else if raw == 0x08 { Some(Special1Op::Jr) }
        else if raw == 0x09 { Some(Special1Op::Jalr) }
        else if raw == 0x0A { Some(Special1Op::Movz) }
        else if raw == 0x0B { Some(Special1Op::Movn) }
        else if raw == 0x0C { Some(Special1Op::Syscall) }
        else if raw == 0x0D { Some(Special1Op::Break) }
        else if raw == 0x0E { Some(Special1Op::Sdbbp) }
        else if raw == 0x0F { Some(Special1Op::Sync) }
        else if raw == 0x10 { Some(Special1Op::Mfhi) }
        else if raw == 0x11 { Some(Special1Op::Mthi) }
        else if raw == 0x12 { Some(Special1Op::Mflo) }
        else if raw == 0x13 { Some(Special1Op::Mtlo) }
        else if raw == 0x18 { Some(Special1Op::Mult) }
        else if raw == 0x19 { Some(Special1Op::Multu) }
        else if raw == 0x1A { Some(Special1Op::Div) }
        else if raw == 0x1B { Some(Special1Op::Divu) }
        else if raw == 0x20 { Some(Special1Op::Add) }
        else if raw == 0x21 { Some(Special1Op::Addu) }
        else if raw == 0x22 { Some(Special1Op::Sub) }
        else if raw == 0x23 { Some(Special1Op::Subu) }
        else if raw == 0x24 { Some(Special1Op::And) }
        else if raw == 0x25 { Some(Special1Op::Or) }
        else if raw == 0x26 { Some(Special1Op::Xor) }
        else if raw == 0x27 { Some(Special1Op::Nor) }
        else if raw == 0x2A { Some(Special1Op::Slt) }
        else if raw == 0x2B { Some(Special1Op::Sltu) }
        else if raw == 0x30 { Some(Special1Op::Tge) }
        else if raw == 0x31 { Some(Special1Op::Tgeu) }
        else if raw == 0x32 { Some(Special1Op::Tlt) }
        else if raw == 0x33 { Some(Special1Op::Tltu) }
        else if raw == 0x34 { Some(Special1Op::Teq) }
        else if raw == 0x36 { Some(Special1Op::Tne) }
        else { None }
    }

    /// Why `raw` names no operation of this class.
    pub open spec fn code_error(raw: u32) -> OperationError {
        if raw < 0x40 {
            OperationError::ReservedInstruction
        } else {
            OperationError::InvalidInstruction
        }
    }

    /// The operation whose code is `raw`; otherwise why there is none.
    pub fn try_from(raw: u32) -> (r: Result<Special1Op, OperationError>)
        ensures
            r == match Special1Op::from_op_code(raw) {
                Some(op) => Ok(op),
                None => Err(Special1Op::code_error(raw)),
            },
    {
        let err = if raw < 0x40 {
            OperationError::ReservedInstruction
        } else {
            OperationError::InvalidInstruction
        };
        match Special1Op::from_repr(raw) {
            Some(op) => Ok(op),
            None => Err(err),
        }
    }

}

/// Every Special1Op code reads back as its operation, and only operation codes read back.
pub proof fn lemma_special1_op_roundtrip(op: Special1Op, raw: u32)
    ensures
        Special1Op::from_op_code(op.op_code()) == Some(op),
        Special1Op::from_op_code(raw) matches Some(o) ==> o.op_code() == raw,
{
}

/// Operations of opcode 0x01 (REGIMM), selected by the rt field.
#[derive(Clone, Copy, PartialEq, Eq, Structural, Debug)]
pub enum RegimmOp {
    Bltz,
    Bgez,
    Bltzl,
    Bgezl,
    Tgei,
    Tgeiu,
    Tlti,
    Tltiu,
    Teqi,
    Tnei,
    Bltzal,
    Bgezal,
    Bltzall,
    Bgezall,
    Synci,
}

impl RegimmOp {
    /// The numeric code of this operation.
    pub open spec fn op_code(self) -> u32 {
        match self {
            RegimmOp::Bltz => 0x00,
            RegimmOp::Bgez => 0x01,
            RegimmOp::Bltzl => 0x02,
            RegimmOp::Bgezl => 0x03,
            RegimmOp::Tgei => 0x08,
            RegimmOp::Tgeiu => 0x09,
            RegimmOp::Tlti => 0x0A,
            RegimmOp::Tltiu => 0x0B,
            RegimmOp::Teqi => 0x0C,
            RegimmOp::Tnei => 0x0E,
            RegimmOp::Bltzal => 0x20,
            RegimmOp::Bgezal => 0x21,
            RegimmOp::Bltzall => 0x22,
            RegimmOp::Bgezall => 0x23,
            RegimmOp::Synci => 0x2F,
        }
    }

    /// The operation whose code is `raw`, if any.
    pub open spec fn from_op_code(raw: u32) -> Option<RegimmOp> {
        if raw == 0x00 { Some(RegimmOp::Bltz) }
        else if raw == 0x01 { Some(RegimmOp::Bgez) }
        else if raw == 0x02 { Some(RegimmOp::Bltzl) }
        else if raw == 0x03 { Some(RegimmOp::Bgezl) }
        else if raw == 0x08 { Some(RegimmOp::Tgei) }
        else if raw == 0x09 { Some(RegimmOp::Tgeiu) }
        else if raw == 0x0A { Some(RegimmOp::Tlti) }
        else if raw == 0x0B { Some(RegimmOp::Tltiu) }
        else if raw == 0x0C { Some(RegimmOp::Teqi) }
        else if raw == 0x0E { Some(RegimmOp::Tnei) }
        else if raw == 0x20 { Some(RegimmOp::Bltzal) }
        else if raw == 0x21 { Some(RegimmOp::Bgezal) }
        else if raw == 0x22 { Some(RegimmOp::Bltzall) }
        else if raw == 0x23 { Some(RegimmOp::Bgezall) }
        else if raw == 0x2F { Some(RegimmOp::Synci) }
        else { None }
    }

    /// The numeric code of this operation.
    pub fn code(&self) -> (c: u32)
        ensures
            c == self.op_code(),
    {
        match self {
            RegimmOp::Bltz => 0x00,
            RegimmOp::Bgez => 0x01,
            RegimmOp::Bltzl => 0x02,
            RegimmOp::Bgezl => 0x03,
            RegimmOp::Tgei => 0x08,
            RegimmOp::Tgeiu => 0x09,
            RegimmOp::Tlti => 0x0A,
            RegimmOp::Tltiu => 0x0B,
            RegimmOp::Teqi => 0x0C,
            RegimmOp::Tnei => 0x0E,
            RegimmOp::Bltzal => 0x20,
            RegimmOp::Bgezal => 0x21,
            RegimmOp::Bltzall => 0x22,
            RegimmOp::Bgezall => 0x23,
            RegimmOp::Synci => 0x2F,
        }
    }

    /// The operation whose code is `raw`, if any.
    pub fn from_repr(raw: u32) -> (r: Option<RegimmOp>)
        ensures
            r == RegimmOp::from_op_code(raw),
    {
        if raw == 0x00 { Some(RegimmOp::Bltz) }
        else if raw == 0x01 { Some(RegimmOp::Bgez) }
        else if raw == 0x02 { Some(RegimmOp::Bltzl) }
        else if raw == 0x03 { Some(RegimmOp::Bgezl) }
        else if raw == 0x08 { Some(RegimmOp::Tgei) }
        else if raw == 0x09 { Some(RegimmOp::Tgeiu) }
        else if raw == 0x0A { Some(RegimmOp::Tlti) }
        else if raw == 0x0B { Some(RegimmOp::Tltiu) }
        else if raw == 0x0C { Some(RegimmOp::Teqi) }
        else if raw == 0x0E { Some(RegimmOp::Tnei) }
        else if raw == 0x20 { Some(RegimmOp::Bltzal) }
        else if raw == 0x21 { Some(RegimmOp::Bgezal) }
        else if raw == 0x22 { Some(RegimmOp::Bltzall) }
        else if raw == 0x23 { Some(RegimmOp::Bgezall) }
        else if raw == 0x2F { Some(RegimmOp::Synci) }
        else { None }
    }

    /// Why `raw` names no operation of this class.
    pub open spec fn code_error(raw: u32) -> OperationError {
        if raw < 0x40 {
            OperationError::ReservedInstruction
        } else {
            OperationError::InvalidInstruction
        }
    }

    /// The operation whose code is `raw`; otherwise why there is none.
    pub fn try_from(raw: u32) -> (r: Result<RegimmOp, OperationError>)
        ensures
            r == match RegimmOp::from_op_code(raw) {
                Some(op) => Ok(op),
                None => Err(RegimmOp::code_error(raw)),
            },
    {
        let err = if raw < 0x40 {
            OperationError::ReservedInstruction
        } else {
            OperationError::InvalidInstruction
        };
        match RegimmOp::from_repr(raw) {
            Some(op) => Ok(op),
            None => Err(err),
        }
    }

}

/// Every RegimmOp code reads back as its operation, and only operation codes read back.
pub proof fn lemma_regimm_op_roundtrip(op: RegimmOp, raw: u32)
    ensures
        RegimmOp::from_op_code(op.op_code()) == Some(op),
        RegimmOp::from_op_code(raw) matches Some(o) ==> o.op_code() == raw,
{
}

/// Operations of opcode 0x1C (SPECIAL2), selected by the funct field.
#[derive(Clone, Copy, PartialEq, Eq, Structural, Debug)]
pub enum Special2Op {
    Madd,
    Maddu,
    Mul,
    Msub,
    Msubu,
    Clz,
    Clo,
    Sdbbp,
}

impl Special2Op {
    /// The numeric code of this operation.
    pub open spec fn op_code(self) -> u32 {
        match self {
            Special2Op::Madd => 0x00,
            Special2Op::Maddu => 0x01,
            Special2Op::Mul => 0x02,
            Special2Op::Msub => 0x04,
            Special2Op::Msubu => 0x05,
            Special2Op::Clz => 0x20,
            Special2Op::Clo => 0x21,
            Special2Op::Sdbbp => 0x3F,
        }
    }

    /// The operation whose code is `raw`, if any.
    pub open spec fn from_op_code(raw: u32) -> Option<Special2Op> {
        if raw == 0x00 { Some(Special2Op::Madd) }
        else if raw == 0x01 { Some(Special2Op::Maddu) }
        else if raw == 0x02 { Some(Special2Op::Mul) }
        else if raw == 0x04 { Some(Special2Op::Msub) }
        else if raw == 0x05 { Some(Special2Op::Msubu) }
        else if raw == 0x20 { Some(Special2Op::Clz) }
        else if raw == 0x21 { Some(Special2Op::Clo) }
        else if raw == 0x3F { Some(Special2Op::Sdbbp) }
        else { None }
    }

    /// The numeric code of this operation.
    pub fn code(&self) -> (c: u32)
        ensures
            c == self.op_code(),
    {
        match self {
            Special2Op::Madd => 0x00,
            Special2Op::Maddu => 0x01,
            Special2Op::Mul => 0x02,
            Special2Op::Msub => 0x04,
            Special2Op::Msubu => 0x05,
            Special2Op::Clz => 0x20,
            Special2Op::Clo => 0x21,
            Special2Op::Sdbbp => 0x3F,
        }
    }

    /// The operation whose code is `raw`, if any.
    pub fn from_repr(raw: u32) -> (r: Option<Special2Op>)
        ensures
            r == Special2Op::from_op_code(raw),
    {
        if raw == 0x00 { Some(Special2Op::Madd) }
        else if raw == 0x01 { Some(Special2Op::Maddu) }
        else if raw == 0x02 { Some(Special2Op::Mul) }
        else if raw == 0x04 { Some(Special2Op::Msub) }
        else if raw == 0x05 { Some(Special2Op::Msubu) }
        else if raw == 0x20 { Some(Special2Op::Clz) }
        else if raw == 0x21 { Some(Special2Op::Clo) }
        else if raw == 0x3F { Some(Special2Op::Sdbbp) }
        else { None }
    }

    /// Why `raw` names no operation of this class.
    pub open spec fn code_error(raw: u32) -> OperationError {
        if raw < 0x40 {
            OperationError::ReservedInstruction
        } else {
            OperationError::InvalidInstruction
        }
    }

    /// The operation whose code is `raw`; otherwise why there is none.
    pub fn try_from(raw: u32) -> (r: Result<Special2Op, OperationError>)
        ensures
            r == match Special2Op::from_op_code(raw) {
                Some(op) => Ok(op),
                None => Err(Special2Op::code_error(raw)),
            },
    {
        let err = if raw < 0x40 {
            OperationError::ReservedInstruction
        } else {
            OperationError::InvalidInstruction
        };
        match Special2Op::from_repr(raw) {
            Some(op) => Ok(op),
            None => Err(err),
        }
    }

}

/// Every Special2Op code reads back as its operation, and only operation codes read back.
pub proof fn lemma_special2_op_roundtrip(op: Special2Op, raw: u32)
    ensures
        Special2Op::from_op_code(op.op_code()) == Some(op),
        Special2Op::from_op_code(raw) matches Some(o) ==> o.op_code() == raw,
{
}

} // verus!
