//! Field extraction from raw instruction words by format (R, I, J), the
//! lookup key that identifies an instruction, and the per-format argument records.
use vstd::prelude::*;
use vstd::std_specs::convert::FromSpecImpl;

use crate::instruction::{
    funct_of, imm_of, lemma_field_bounds, opcode_of, rd_of, rs_of, rt_of, shamt_of, target_of,
};

verus! {

/// A raw instruction word, read by format.
#[derive(Clone, Copy)]
pub struct RawInstruction {
    pub raw: u32,
}

/// Whether `raw` is R-format (opcode 0x00 or 0x1C).
pub open spec fn is_rtype_word(raw: u32) -> bool {
    opcode_of(raw) == 0x00 || opcode_of(raw) == 0x1C
}

/// Whether `raw` is J-format (opcode 0x02 or 0x03).
pub open spec fn is_jtype_word(raw: u32) -> bool {
    opcode_of(raw) == 0x02 || opcode_of(raw) == 0x03
}

/// The key under which the instruction `raw` is looked up: the opcode shifted
/// left by six bits, combined with the funct field for R-format words and with
/// the rt field for REGIMM words.
pub open spec fn lookup_of(raw: u32) -> u32 {
    let base = opcode_of(raw) << 6;
    if is_rtype_word(raw) {
        base | funct_of(raw)
    } else if opcode_of(raw) == 0x01 {
        base | rt_of(raw)
    } else {
        base
    }
}

impl RawInstruction {
    /// Wraps a raw word.
    pub fn new(raw: u32) -> (r: RawInstruction)
        ensures
            r.raw == raw,
    {
        RawInstruction { raw }
    }

    /// The opcode field.
    pub fn get_opcode(self) -> (r: u32)
        ensures
            r == opcode_of(self.raw),
    {
        self.raw >> 26
    }

    /// The funct field.
    pub fn get_funct(self) -> (r: u32)
        ensures
            r == funct_of(self.raw),
    {
        self.raw & 0x3F
    }

    /// Whether this is an R-format instruction.
    pub fn is_rtype(self) -> (b: bool)
        ensures
            b == is_rtype_word(self.raw),
    {
        let op = self.get_opcode();
        op == 0x00 || op == 0x1C
    }

    /// Whether this is a J-format instruction.
    pub fn is_jtype(self) -> (b: bool)
        ensures
            b == is_jtype_word(self.raw),
    {
        let op = self.get_opcode();
        op == 0x02 || op == 0x03
    }

    /// Whether this is an I-format instruction (neither R nor J).
    pub fn is_itype(self) -> (b: bool)
        ensures
            b == (!is_rtype_word(self.raw) && !is_jtype_word(self.raw)),
    {
        !self.is_rtype() && !self.is_jtype()
    }

    /// Whether this is a REGIMM instruction.
    pub fn is_regimm(self) -> (b: bool)
        ensures
            b == (opcode_of(self.raw) == 0x01),
    {
        self.get_opcode() == 0x01
    }

    /// The rs field.
    pub fn get_rs(self) -> (r: u32)
        ensures
            r == rs_of(self.raw),
            r < 32,
    {
        proof { lemma_field_bounds(self.raw); }
        self.raw >> 21 & 0x1F
    }

    /// The rt field.
    pub fn get_rt(self) -> (r: u32)
        ensures
            r == rt_of(self.raw),
            r < 32,
    {
        proof { lemma_field_bounds(self.raw); }
        self.raw >> 16 & 0x1F
    }

    /// The rd field.
    pub fn get_rd(self) -> (r: u32)
        ensures
            r == rd_of(self.raw),
            r < 32,
    {
        proof { lemma_field_bounds(self.raw); }
        self.raw >> 11 & 0x1F
    }

    /// The shamt field.
    pub fn get_shamt(self) -> (r: u32)
        ensures
            r == shamt_of(self.raw),
            r < 32,
    {
        proof { lemma_field_bounds(self.raw); }
        self.raw >> 6 & 0x1F
    }

    /// The 16-bit immediate field.
    pub fn get_immediate(self) -> (r: u32)
        ensures
            r == imm_of(self.raw),
            r < 65536,
    {
        proof { lemma_field_bounds(self.raw); }
        self.raw & 0xFFFF
    }

    /// The 26-bit jump target field.
    pub fn get_jump(self) -> (r: u32)
        ensures
            r == target_of(self.raw),
            r < 0x4000000,
    {
        proof { lemma_field_bounds(self.raw); }
        self.raw & 0x3FFFFFF
    }

    /// The key under which this instruction is looked up.
    pub fn get_lookup(self) -> (r: u32)
        ensures
            r == lookup_of(self.raw),
    {
        let base = self.get_opcode() << 6;
        if self.is_rtype() {
            base | self.get_funct()
        } else if self.is_regimm() {
            base | self.get_rt()
        } else {
            base
        }
    }
}

/// Arguments of an I-format instruction.
pub struct IArgs {
    pub opcode: u32,
    pub rs: u32,
    pub rt: u32,
    pub imm: u32,
}

impl IArgs {
    /// Register fields name registers and the immediate fits 16 bits.
    pub open spec fn wf(&self) -> bool {
        self.rs < 32 && self.rt < 32 && self.imm < 65536
    }
}

/// The I-format operands of the word `raw`.
pub open spec fn iargs_of(raw: u32) -> IArgs {
    IArgs { opcode: opcode_of(raw), rs: rs_of(raw), rt: rt_of(raw), imm: imm_of(raw) }
}

impl IArgs {
    /// The I-format operands of `raw`.
    pub fn of(raw: RawInstruction) -> (a: IArgs)
        ensures
            a == iargs_of(raw.raw),
    {
        IArgs {
            opcode: raw.get_opcode(),
            rs: raw.get_rs(),
            rt: raw.get_rt(),
            imm: raw.get_immediate(),
        }
    }
}

impl From<RawInstruction> for IArgs {
    fn from(raw: RawInstruction) -> (a: IArgs) {
        IArgs::of(raw)
    }
}

impl FromSpecImpl<RawInstruction> for IArgs {
    open spec fn obeys_from_spec() -> bool {
        true
    }

    open spec fn from_spec(raw: RawInstruction) -> IArgs {
        iargs_of(raw.raw)
    }
}


/// Arguments of a J-format instruction.
pub struct JArgs {
    pub opcode: u32,
    pub address: u32,
}

/// The J-format operands of the word `raw`.
pub open spec fn jargs_of(raw: u32) -> JArgs {
    JArgs { opcode: opcode_of(raw), address: target_of(raw) }
}

impl JArgs {
    /// The J-format operands of `raw`.
    pub fn of(raw: RawInstruction) -> (a: JArgs)
        ensures
            a == jargs_of(raw.raw),
    {
        JArgs { opcode: raw.get_opcode(), address: raw.get_jump() }
    }
}

impl From<RawInstruction> for JArgs {
    fn from(raw: RawInstruction) -> (a: JArgs) {
        JArgs::of(raw)
    }
}

impl FromSpecImpl<RawInstruction> for JArgs {
    open spec fn obeys_from_spec() -> bool {
        true
    }

    open spec fn from_spec(raw: RawInstruction) -> JArgs {
        jargs_of(raw.raw)
    }
}


/// Arguments of an R-format instruction.
pub struct RArgs {
    pub opcode: u32,
    pub rs: u32,
    pub rt: u32,
    pub rd: u32,
    pub shamt: u32,
    pub funct: u32,
}

impl RArgs {
    /// Register fields name registers and the shift amount is below 32.
    pub open spec fn wf(&self) -> bool {
        self.rs < 32 && self.rt < 32 && self.rd < 32 && self.shamt < 32
    }
}

/// The R-format operands of the word `raw`.
pub open spec fn rargs_of(raw: u32) -> RArgs {
    RArgs {
        opcode: opcode_of(raw),
        rs: rs_of(raw),
        rt: rt_of(raw),
        rd: rd_of(raw),
        shamt: shamt_of(raw),
        funct: funct_of(raw),
    }
}

impl RArgs {
    /// The R-format operands of `raw`.
    pub fn of(raw: RawInstruction) -> (a: RArgs)
        ensures
            a == rargs_of(raw.raw),
    {
        RArgs {
            opcode: raw.get_opcode(),
            rs: raw.get_rs(),
            rt: raw.get_rt(),
            rd: raw.get_rd(),
            shamt: raw.get_shamt(),
            funct: raw.get_funct(),
        }
    }
}

impl From<RawInstruction> for RArgs {
    fn from(raw: RawInstruction) -> (a: RArgs) {
        RArgs::of(raw)
    }
}

impl FromSpecImpl<RawInstruction> for RArgs {
    open spec fn obeys_from_spec() -> bool {
        true
    }

    open spec fn from_spec(raw: RawInstruction) -> RArgs {
        rargs_of(raw.raw)
    }
}


/// Arguments taken from any word are well formed.
pub proof fn lemma_args_wf(raw: RawInstruction)
    ensures
        iargs_of(raw.raw).wf(),
        rargs_of(raw.raw).wf(),
{
    lemma_field_bounds(raw.raw);
}

} // verus!
