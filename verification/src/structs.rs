//! The machine state: processor, coprocessor 0, memory and the program state
//! that bundles them, plus the symbol and line-information records.
use vstd::prelude::*;

use crate::constants::{MIPS_DATA_START_ADDR, MIPS_TEXT_START_ADDR};
use crate::text::{append_radix, hex_chars};

verus! {

/// A symbol of an assembled module.
pub struct Symbol {
    pub symbol_type: u8,
    pub identifier: String,
    pub value: u32,
    pub size: u32,
    pub visibility: Visibility,
    pub section: Section,
}

/// The general purpose register file and program counter.
pub struct Processor {
    pub pc: u32,
    pub general_purpose_registers: [u32; 32],
}

impl Default for Processor {
    fn default() -> (p: Self)
        ensures
            p.pc == MIPS_TEXT_START_ADDR,
            forall|i: int| 0 <= i < 32 ==> p.general_purpose_registers[i] == 0,
    {
        Processor { pc: MIPS_TEXT_START_ADDR, general_purpose_registers: [0u32; 32] }
    }
}

impl Processor {
    /// A processor about to execute the instruction at `entry`, with every register zero.
    pub fn new(entry: u32) -> (p: Self)
        ensures
            p.pc == entry,
            forall|i: int| 0 <= i < 32 ==> p.general_purpose_registers[i] == 0,
    {
        Processor { pc: entry, general_purpose_registers: [0u32; 32] }
    }
}

/// Coprocessor 0: the system control registers and the debug-mode flag.
pub struct Coprocessor0 {
    pub registers: [u32; 32],
    pub debug_mode: bool,
}

impl Default for Coprocessor0 {
    fn default() -> (c: Self)
        ensures
            forall|i: int| 0 <= i < 32 ==> c.registers[i] == 0,
            !c.debug_mode,
    {
        Coprocessor0 { registers: [0u32; 32], debug_mode: false }
    }
}

impl Coprocessor0 {
    /// A coprocessor with every register zero, outside debug mode.
    pub fn new() -> (c: Self)
        ensures
            forall|i: int| 0 <= i < 32 ==> c.registers[i] == 0,
            !c.debug_mode,
    {
        Coprocessor0 { registers: [0u32; 32], debug_mode: false }
    }
}

/// The .data and .text segments and the address ranges they occupy.
pub struct Memory {
    pub data: Vec<u8>,
    pub text: Vec<u8>,
    pub data_start: u32,
    pub data_end: u32,
    pub text_start: u32,
    pub text_end: u32,
}

impl Default for Memory {
    fn default() -> (m: Self)
        ensures
            m.data@.len() == 0,
            m.text@.len() == 0,
            m.data_start == MIPS_DATA_START_ADDR,
            m.data_end == MIPS_DATA_START_ADDR,
            m.text_start == MIPS_TEXT_START_ADDR,
            m.text_end == MIPS_TEXT_START_ADDR,
    {
        Memory {
            data: Vec::new(),
            text: Vec::new(),
            data_start: MIPS_DATA_START_ADDR,
            data_end: MIPS_DATA_START_ADDR,
            text_start: MIPS_TEXT_START_ADDR,
            text_end: MIPS_TEXT_START_ADDR,
        }
    }
}

/// The message given for an access outside owned memory.
pub open spec fn out_of_bounds_message(address: u32) -> Seq<char> {
    "Memory address 0x"@ + hex_chars(address as nat) + " is out of bounds."@
}

impl Memory {
    /// Each segment ends exactly where its bytes end.
    pub open spec fn wf(&self) -> bool {
        &&& self.data_start as int + self.data@.len() == self.data_end as int
        &&& self.text_start as int + self.text@.len() == self.text_end as int
    }

    /// The .data bytes span exactly the .data address range.
    pub open spec fn data_wf(&self) -> bool {
        self.data_start as int + self.data@.len() == self.data_end as int
    }

    /// Whether `address` holds a byte of the .data segment.
    pub open spec fn in_data(&self, address: u32) -> bool {
        self.data_start <= address < self.data_end && address - self.data_start < self.data@.len()
    }

    /// Whether `address` holds a byte of the .text segment.
    pub open spec fn in_text(&self, address: u32) -> bool {
        self.text_start <= address < self.text_end && address - self.text_start < self.text@.len()
    }

    /// The byte at `address`, where memory holds one (.data is looked up first).
    pub open spec fn byte_at(&self, address: u32) -> Option<u8> {
        if self.in_data(address) {
            Some(self.data@[address - self.data_start])
        } else if self.in_text(address) {
            Some(self.text@[address - self.text_start])
        } else {
            None
        }
    }

    /// Whether `post` is this memory after `value` is stored at `address`
    /// (nothing changes where no byte is held).
    pub open spec fn stored(self, post: Memory, address: u32, value: u8) -> bool {
        &&& post.data_start == self.data_start
        &&& post.data_end == self.data_end
        &&& post.text_start == self.text_start
        &&& post.text_end == self.text_end
        &&& post.data@ == if self.in_data(address) {
            self.data@.update((address - self.data_start) as int, value)
        } else {
            self.data@
        }
        &&& post.text@ == if !self.in_data(address) && self.in_text(address) {
            self.text@.update((address - self.text_start) as int, value)
        } else {
            self.text@
        }
    }

    /// Memory holding the given segments at their conventional addresses.
    pub fn new(data: Vec<u8>, text: Vec<u8>) -> (m: Self)
        requires
            MIPS_DATA_START_ADDR + data@.len() <= u32::MAX,
            MIPS_TEXT_START_ADDR + text@.len() <= u32::MAX,
        ensures
            m.data@ == data@,
            m.text@ == text@,
            m.data_start == MIPS_DATA_START_ADDR,
            m.text_start == MIPS_TEXT_START_ADDR,
            m.wf(),
    {
        let data_end = MIPS_DATA_START_ADDR + data.len() as u32;
        let text_end = MIPS_TEXT_START_ADDR + text.len() as u32;
        Memory {
            data,
            text,
            data_start: MIPS_DATA_START_ADDR,
            data_end,
            text_start: MIPS_TEXT_START_ADDR,
            text_end,
        }
    }

    /// Whether the instruction at `address` may be fetched: it lies in the .text segment.
    pub fn allows_execution_of(&self, address: u32) -> (b: bool)
        ensures
            b == (self.text_start <= address < self.text_end),
    {
        self.text_start <= address && address < self.text_end
    }

    /// Reads the byte at `address`.
    pub fn read_byte(&self, address: u32) -> (r: Result<u8, String>)
        ensures
            r matches Ok(b) ==> self.byte_at(address) == Some(b),
            r matches Err(e) ==> self.byte_at(address) is None && e@ == out_of_bounds_message(address),
            r is Ok <==> self.byte_at(address) is Some,
    {
        if self.data_start <= address && address < self.data_end
            && ((address - self.data_start) as usize) < self.data.len() {
            Ok(self.data[(address - self.data_start) as usize])
        } else if self.text_start <= address && address < self.text_end
            && ((address - self.text_start) as usize) < self.text.len() {
            Ok(self.text[(address - self.text_start) as usize])
        } else {
            Err(out_of_bounds(address))
        }
    }

    /// Stores `value` at `address`.
    pub fn set_byte(&mut self, address: u32, value: u8) -> (r: Result<(), String>)
        ensures
            r is Ok <==> old(self).byte_at(address) is Some,
            old(self).stored(*final(self), address, value),
            r matches Err(e) ==> e@ == out_of_bounds_message(address),
    {
        if self.data_start <= address && address < self.data_end
            && ((address - self.data_start) as usize) < self.data.len() {
            let i = (address - self.data_start) as usize;
            self.data.set(i, value);
            Ok(())
        } else if self.text_start <= address && address < self.text_end
            && ((address - self.text_start) as usize) < self.text.len() {
            let i = (address - self.text_start) as usize;
            self.text.set(i, value);
            Ok(())
        } else {
            Err(out_of_bounds(address))
        }
    }
}

/// A byte read back after it is stored is the byte stored, and every other
/// address reads as before.
pub proof fn lemma_read_after_store(pre: Memory, post: Memory, address: u32, value: u8)
    requires
        pre.stored(post, address, value),
    ensures
        forall|x: u32| #[trigger] post.byte_at(x) == if x == address && pre.byte_at(address) is Some {
            Some(value)
        } else {
            pre.byte_at(x)
        },
{
    assert forall|x: u32| #[trigger] post.byte_at(x) == if x == address && pre.byte_at(address) is Some {
        Some(value)
    } else {
        pre.byte_at(x)
    } by {
        assert(post.in_data(x) == pre.in_data(x));
        assert(post.in_text(x) == pre.in_text(x));
    }
}

/// The message given for an access outside owned memory.
fn out_of_bounds(address: u32) -> (s: String)
    ensures
        s@ == out_of_bounds_message(address),
{
    let mut s = String::new();
    s.append("Memory address 0x");
    append_radix(&mut s, address as u64, 16);
    s.append(" is out of bounds.");
    proof {
        reveal_strlit("Memory address 0x");
        reveal_strlit(" is out of bounds.");
    }
    s
}

/// The whole state of an emulated program.
pub struct ProgramState {
    pub should_continue_execution: bool,
    pub cpu: Processor,
    pub cp0: Coprocessor0,
    pub memory: Memory,
}

impl Default for ProgramState {
    fn default() -> (s: Self)
        ensures
            !s.should_continue_execution,
            s.cpu.pc == MIPS_TEXT_START_ADDR,
            forall|i: int| 0 <= i < 32 ==> s.cpu.general_purpose_registers[i] == 0,
            forall|i: int| 0 <= i < 32 ==> s.cp0.registers[i] == 0,
            !s.cp0.debug_mode,
            s.memory.data@.len() == 0,
            s.memory.text@.len() == 0,
            s.memory.data_start == MIPS_DATA_START_ADDR,
            s.memory.data_end == MIPS_DATA_START_ADDR,
            s.memory.text_start == MIPS_TEXT_START_ADDR,
            s.memory.text_end == MIPS_TEXT_START_ADDR,
    {
        ProgramState {
            should_continue_execution: false,
            cpu: Processor::default(),
            cp0: Coprocessor0::default(),
            memory: Memory::default(),
        }
    }
}

impl ProgramState {
    /// A running program with the given processor and memory and a cleared coprocessor 0.
    pub fn new(cpu: Processor, memory: Memory) -> (s: Self)
        ensures
            s.should_continue_execution,
            s.cpu == cpu,
            s.memory == memory,
            forall|i: int| 0 <= i < 32 ==> s.cp0.registers[i] == 0,
            !s.cp0.debug_mode,
    {
        ProgramState { should_continue_execution: true, cpu, cp0: Coprocessor0::new(), memory }
    }
}

/// Names of the general purpose registers, in register order.
#[derive(Clone, Copy, PartialEq, Eq, Structural)]
pub enum Register {
    Zero,
    At,
    V0,
    V1,
    A0,
    A1,
    A2,
    A3,
    T0,
    T1,
    T2,
    T3,
    T4,
    T5,
    T6,
    T7,
    S0,
    S1,
    S2,
    S3,
    S4,
    S5,
    S6,
    S7,
    T8,
    T9,
    K0,
    K1,
    Gp,
    Sp,
    Fp,
    Ra,
}

impl Register {
    /// The register number.
    pub open spec fn reg_index(self) -> u32 {
        match self {
            Register::Zero => 0,
            Register::At => 1,
            Register::V0 => 2,
            Register::V1 => 3,
            Register::A0 => 4,
            Register::A1 => 5,
            Register::A2 => 6,
            Register::A3 => 7,
            Register::T0 => 8,
            Register::T1 => 9,
            Register::T2 => 10,
            Register::T3 => 11,
            Register::T4 => 12,
            Register::T5 => 13,
            Register::T6 => 14,
            Register::T7 => 15,
            Register::S0 => 16,
            Register::S1 => 17,
            Register::S2 => 18,
            Register::S3 => 19,
            Register::S4 => 20,
            Register::S5 => 21,
            Register::S6 => 22,
            Register::S7 => 23,
            Register::T8 => 24,
            Register::T9 => 25,
            Register::K0 => 26,
            Register::K1 => 27,
            Register::Gp => 28,
            Register::Sp => 29,
            Register::Fp => 30,
            Register::Ra => 31,
        }
    }

    /// The register with number `raw`, if `raw` is a register number.
    pub open spec fn from_index(raw: u32) -> Option<Register> {
        if raw == 0 { Some(Register::Zero) }
        else if raw == 1 { Some(Register::At) }
        else if raw == 2 { Some(Register::V0) }
        else if raw == 3 { Some(Register::V1) }
        else if raw == 4 { Some(Register::A0) }
        else if raw == 5 { Some(Register::A1) }
        else if raw == 6 { Some(Register::A2) }
        else if raw == 7 { Some(Register::A3) }
        else if raw == 8 { Some(Register::T0) }
        else if raw == 9 { Some(Register::T1) }
        else if raw == 10 { Some(Register::T2) }
        else if raw == 11 { Some(Register::T3) }
        else if raw == 12 { Some(Register::T4) }
        else if raw == 13 { Some(Register::T5) }
        else if raw == 14 { Some(Register::T6) }
        else if raw == 15 { Some(Register::T7) }
        else if raw == 16 { Some(Register::S0) }
        else if raw == 17 { Some(Register::S1) }
        else if raw == 18 { Some(Register::S2) }
        else if raw == 19 { Some(Register::S3) }
        else if raw == 20 { Some(Register::S4) }
        else if raw == 21 { Some(Register::S5) }
        else if raw == 22 { Some(Register::S6) }
        else if raw == 23 { Some(Register::S7) }
        else if raw == 24 { Some(Register::T8) }
        else if raw == 25 { Some(Register::T9) }
        else if raw == 26 { Some(Register::K0) }
        else if raw == 27 { Some(Register::K1) }
        else if raw == 28 { Some(Register::Gp) }
        else if raw == 29 { Some(Register::Sp) }
        else if raw == 30 { Some(Register::Fp) }
        else if raw == 31 { Some(Register::Ra) }
        else { None }
    }

    /// The register number.
    pub fn index(&self) -> (i: usize)
        ensures
            i == self.reg_index(),
            i < 32,
    {
        match self {
            Register::Zero => 0,
            Register::At => 1,
            Register::V0 => 2,
            Register::V1 => 3,
            Register::A0 => 4,
            Register::A1 => 5,
            Register::A2 => 6,
            Register::A3 => 7,
            Register::T0 => 8,
            Register::T1 => 9,
            Register::T2 => 10,
            Register::T3 => 11,
            Register::T4 => 12,
            Register::T5 => 13,
            Register::T6 => 14,
            Register::T7 => 15,
            Register::S0 => 16,
            Register::S1 => 17,
            Register::S2 => 18,
            Register::S3 => 19,
            Register::S4 => 20,
            Register::S5 => 21,
            Register::S6 => 22,
            Register::S7 => 23,
            Register::T8 => 24,
            Register::T9 => 25,
            Register::K0 => 26,
            Register::K1 => 27,
            Register::Gp => 28,
            Register::Sp => 29,
            Register::Fp => 30,
            Register::Ra => 31,
        }
    }

    /// The register with number `raw`; `InvalidRegister` when `raw` is 32 or more.
    pub fn try_from(raw: u32) -> (r: Result<Register, crate::instruction::InstructionError>)
        ensures
            r == match Register::from_index(raw) {
                Some(reg) => Ok(reg),
                None => Err(crate::instruction::InstructionError::InvalidRegister),
            },
    {
        if raw == 0 { Ok(Register::Zero) }
        else if raw == 1 { Ok(Register::At) }
        else if raw == 2 { Ok(Register::V0) }
        else if raw == 3 { Ok(Register::V1) }
        else if raw == 4 { Ok(Register::A0) }
        else if raw == 5 { Ok(Register::A1) }
        else if raw == 6 { Ok(Register::A2) }
        else if raw == 7 { Ok(Register::A3) }
        else if raw == 8 { Ok(Register::T0) }
        else if raw == 9 { Ok(Register::T1) }
        else if raw == 10 { Ok(Register::T2) }
        else if raw == 11 { Ok(Register::T3) }
        else if raw == 12 { Ok(Register::T4) }
        else if raw == 13 { Ok(Register::T5) }
        else if raw == 14 { Ok(Register::T6) }
        else if raw == 15 { Ok(Register::T7) }
        else if raw == 16 { Ok(Register::S0) }
        else if raw == 17 { Ok(Register::S1) }
        else if raw == 18 { Ok(Register::S2) }
        else if raw == 19 { Ok(Register::S3) }
        else if raw == 20 { Ok(Register::S4) }
        else if raw == 21 { Ok(Register::S5) }
        else if raw == 22 { Ok(Register::S6) }
        else if raw == 23 { Ok(Register::S7) }
        else if raw == 24 { Ok(Register::T8) }
        else if raw == 25 { Ok(Register::T9) }
        else if raw == 26 { Ok(Register::K0) }
        else if raw == 27 { Ok(Register::K1) }
        else if raw == 28 { Ok(Register::Gp) }
        else if raw == 29 { Ok(Register::Sp) }
        else if raw == 30 { Ok(Register::Fp) }
        else if raw == 31 { Ok(Register::Ra) }
        else { Err(crate::instruction::InstructionError::InvalidRegister) }
    }
}

/// Register numbers and registers correspond one to one.
pub proof fn lemma_register_index(reg: Register, raw: u32)
    ensures
        reg.reg_index() < 32,
        Register::from_index(reg.reg_index()) == Some(reg),
        Register::from_index(raw) is Some <==> raw < 32,
        Register::from_index(raw) matches Some(r) ==> r.reg_index() == raw,
{
}

/// Register number of `$at`.
pub const AT: usize = 1;
/// Register number of `$v0`.
pub const V0: usize = 2;
/// Register number of `$a0`.
pub const A0: usize = 4;
/// Register number of `$a1`.
pub const A1: usize = 5;
/// Register number of `$ra`.
pub const RA: usize = 31;

/// Binding of a symbol.
pub enum Visibility {
    Local,
    Global,
    Weak,
}

impl Default for Visibility {
    fn default() -> (v: Self)
        ensures
            v is Local,
    {
        Visibility::Local
    }
}

/// The section a symbol belongs to.
#[derive(Clone, Copy)]
pub enum Section {
    Null,
    Text,
    Data,
}

/// Where a source line landed in the assembled program.
pub struct LineInfo {
    pub content: String,
    pub line_number: u32,
    pub start_address: u32,
    pub end_address: u32,
}

} // verus!
