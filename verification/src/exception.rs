//! Exceptions: their cause codes, the bit fields of coprocessor 0 that record
//! them, and how the program state enters and leaves exception handling.
use vstd::prelude::*;

use crate::cp0_registers::{cp0_register_number, to_register, Register};
use crate::structs::{Coprocessor0, ProgramState};
use crate::text::{append_radix, dec_chars};

verus! {

/// Operating mode value of the Status register's KSU field for kernel mode.
pub const KERNEL_MODE: u32 = 0;
/// Exception level value while an exception is being handled.
pub const EXCEPTION_BEING_HANDLED: u32 = 1;
/// Exception level value during normal execution.
pub const NO_EXCEPTION: u32 = 0;

/// The exceptions the machine can raise.
#[derive(Clone, Copy, PartialEq, Eq, Structural, Debug)]
pub enum ExceptionType {
    AddressExceptionLoad,
    AddressExceptionStore,
    BusFetch,
    BusLoadStore,
    Syscall,
    Breakpoint,
    ReservedInstruction,
    CoprocessorUnusable,
    ArithmeticOverflow,
    Trap,
    FloatingPoint,
}

impl ExceptionType {
    /// The ExcCode of this exception in the Cause register.
    pub open spec fn exc_code_of(self) -> u32 {
        match self {
            ExceptionType::AddressExceptionLoad => 0x04,
            ExceptionType::AddressExceptionStore => 0x05,
            ExceptionType::BusFetch => 0x06,
            ExceptionType::BusLoadStore => 0x07,
            ExceptionType::Syscall => 0x08,
            ExceptionType::Breakpoint => 0x09,
            ExceptionType::ReservedInstruction => 0x0a,
            ExceptionType::CoprocessorUnusable => 0x0b,
            ExceptionType::ArithmeticOverflow => 0x0c,
            ExceptionType::Trap => 0x0d,
            ExceptionType::FloatingPoint => 0x0f,
        }
    }

    /// The exception whose ExcCode is `value`, if there is one.
    pub open spec fn from_exc_code(value: u32) -> Option<ExceptionType> {
        if value == 0x04 { Some(ExceptionType::AddressExceptionLoad) }
        else if value == 0x05 { Some(ExceptionType::AddressExceptionStore) }
        else if value == 0x06 { Some(ExceptionType::BusFetch) }
        else if value == 0x07 { Some(ExceptionType::BusLoadStore) }
        else if value == 0x08 { Some(ExceptionType::Syscall) }
        else if value == 0x09 { Some(ExceptionType::Breakpoint) }
        else if value == 0x0a { Some(ExceptionType::ReservedInstruction) }
        else if value == 0x0b { Some(ExceptionType::CoprocessorUnusable) }
        else if value == 0x0c { Some(ExceptionType::ArithmeticOverflow) }
        else if value == 0x0d { Some(ExceptionType::Trap) }
        else if value == 0x0f { Some(ExceptionType::FloatingPoint) }
        else { None }
    }

    /// The ExcCode of this exception.
    pub fn code(&self) -> (c: u32)
        ensures
            c == self.exc_code_of(),
    {
        match self {
            ExceptionType::AddressExceptionLoad => 0x04,
            ExceptionType::AddressExceptionStore => 0x05,
            ExceptionType::BusFetch => 0x06,
            ExceptionType::BusLoadStore => 0x07,
            ExceptionType::Syscall => 0x08,
            ExceptionType::Breakpoint => 0x09,
            ExceptionType::ReservedInstruction => 0x0a,
            ExceptionType::CoprocessorUnusable => 0x0b,
            ExceptionType::ArithmeticOverflow => 0x0c,
            ExceptionType::Trap => 0x0d,
            ExceptionType::FloatingPoint => 0x0f,
        }
    }

    /// The exception whose ExcCode is `value`; a message when there is none.
    pub fn try_from(value: u32) -> (r: Result<ExceptionType, String>)
        ensures
            r matches Ok(e) ==> ExceptionType::from_exc_code(value) == Some(e),
            r is Err <==> ExceptionType::from_exc_code(value) is None,
            r matches Err(m) ==> m@ == "Failed to coerce ExcCode "@ + dec_chars(value as nat)
                + " to ExceptionType."@,
    {
        if value == 0x04 { Ok(ExceptionType::AddressExceptionLoad) }
        else if value == 0x05 { Ok(ExceptionType::AddressExceptionStore) }
        else if value == 0x06 { Ok(ExceptionType::BusFetch) }
        else if value == 0x07 { Ok(ExceptionType::BusLoadStore) }
        else if value == 0x08 { Ok(ExceptionType::Syscall) }
        else if value == 0x09 { Ok(ExceptionType::Breakpoint) }
        else if value == 0x0a { Ok(ExceptionType::ReservedInstruction) }
        else if value == 0x0b { Ok(ExceptionType::CoprocessorUnusable) }
        else if value == 0x0c { Ok(ExceptionType::ArithmeticOverflow) }
        else if value == 0x0d { Ok(ExceptionType::Trap) }
        else if value == 0x0f { Ok(ExceptionType::FloatingPoint) }
        else {
            let mut m = String::new();
            m.append("Failed to coerce ExcCode ");
            append_radix(&mut m, value as u64, 10);
            m.append(" to ExceptionType.");
            proof {
                reveal_strlit("Failed to coerce ExcCode ");
                reveal_strlit(" to ExceptionType.");
            }
            Err(m)
        }
    }
}

/// Every exception's code reads back as that exception, and only codes of exceptions read back.
pub proof fn lemma_exc_code_roundtrip(e: ExceptionType, value: u32)
    ensures
        ExceptionType::from_exc_code(e.exc_code_of()) == Some(e),
        ExceptionType::from_exc_code(value) matches Some(f) ==> f.exc_code_of() == value,
{
}

/// The mask of the low `num_bits` bits (all bits for 32 or more).
pub open spec fn low_mask(num_bits: u32) -> u32 {
    if num_bits >= 32 {
        0xffff_ffffu32
    } else {
        ((1u32 << num_bits) - 1u32) as u32
    }
}

/// Number of bits in the range `start..end` (zero for an empty or reversed range).
pub open spec fn range_len(start: u32, end: u32) -> u32 {
    if end > start { (end - start) as u32 } else { 0 }
}

/// Bits `start..end` of `word`, shifted down to bit 0.
pub open spec fn bits_of(word: u32, start: u32, end: u32) -> u32 {
    (word & (low_mask(range_len(start, end)) << start)) >> start
}

/// `word` with bits `start..end` replaced by the low bits of `value`.
pub open spec fn with_bits(word: u32, start: u32, end: u32, value: u32) -> u32 {
    let mask = low_mask(range_len(start, end));
    (word & !(mask << start)) | ((value & mask) << start)
}

/// Reading a field just written gives back what fits of the written value.
pub proof fn lemma_bits_of_with_bits(word: u32, start: u32, end: u32, value: u32)
    requires
        start < 32,
        end <= 32,
    ensures
        bits_of(with_bits(word, start, end, value), start, end) == value & low_mask(range_len(start, end)),
{
    let n = range_len(start, end);
    let m = low_mask(n);
    if n >= 32 {
        assert(m == 0xffff_ffffu32);
        assert(start == 0);
        assert((((word & !(m << start)) | ((value & m) << start)) & (m << start)) >> start == value & m)
            by (bit_vector)
            requires m == 0xffff_ffffu32, start == 0u32;
    } else {
        assert(m == ((1u32 << n) - 1u32) as u32);
        assert(n + start <= 32);
        assert((((word & !(m << start)) | ((value & m) << start)) & (m << start)) >> start == value & m)
            by (bit_vector)
            requires m == ((1u32 << n) - 1u32) as u32, n < 32u32, start < 32u32, n + start <= 32u32;
    }
}

/// Writing a field leaves the bits outside it alone.
pub proof fn lemma_with_bits_frame(word: u32, start: u32, end: u32, value: u32, other_start: u32, other_end: u32)
    requires
        start < 32,
        end <= 32,
        other_start < 32,
        other_end <= 32,
        other_end <= start || end <= other_start,
        start < end,
        other_start < other_end,
    ensures
        bits_of(with_bits(word, start, end, value), other_start, other_end) == bits_of(word, other_start, other_end),
{
    let n = range_len(start, end);
    let m = low_mask(n);
    let on = range_len(other_start, other_end);
    let om = low_mask(on);
    assert(n < 32 || start == 0);
    if n >= 32 {
        assert(false);
    }
    if on >= 32 {
        assert(false);
    }
    assert(m == ((1u32 << n) - 1u32) as u32);
    assert(om == ((1u32 << on) - 1u32) as u32);
    assert((((word & !(m << start)) | ((value & m) << start)) & (om << other_start)) >> other_start
        == (word & (om << other_start)) >> other_start) by (bit_vector)
        requires
            m == ((1u32 << n) - 1u32) as u32,
            om == ((1u32 << on) - 1u32) as u32,
            n == end - start,
            on == other_end - other_start,
            start < end, end <= 32u32,
            other_start < other_end, other_end <= 32u32,
            other_end <= start || end <= other_start;
}

impl Coprocessor0 {
    /// The field `start..end` of the implemented register `reg`.
    pub open spec fn field(&self, reg: Register, start: u32, end: u32) -> u32 {
        bits_of(self.registers[cp0_register_number(reg).unwrap() as int], start, end)
    }

    /// Enters or leaves debug mode.
    pub fn set_debug_mode(&mut self, thing: bool)
        ensures
            final(self).debug_mode == thing,
            final(self).registers == old(self).registers,
    {
        self.debug_mode = thing;
    }

    /// Whether the debugger is running.
    pub fn is_debug_mode(&self) -> (b: bool)
        ensures
            b == self.debug_mode,
    {
        self.debug_mode
    }

    /// Bits `range.start..range.end` of register `register`, shifted down to bit 0.
    pub fn get_bit_field(&self, register: Register, range: core::ops::Range<usize>) -> (r: u32)
        requires
            cp0_register_number(register) is Some,
            range.start < 32,
            range.end <= 32,
        ensures
            r == self.field(register, range.start as u32, range.end as u32),
    {
        let reg = to_register(register);
        let start = range.start as u32;
        let end = range.end as u32;
        let num_bits: u32 = if end > start { end - start } else { 0 };
        proof {
            if num_bits < 32 {
                assert(1u32 << num_bits >= 1u32) by (bit_vector) requires num_bits < 32u32;
            }
        }
        let mask: u32 = if num_bits == 32 {
            0xffff_ffffu32
        } else {
            ((1u32 << num_bits) - 1) << start
        };
        let r = (self.registers[reg] & mask) >> start;
        proof {
            if num_bits == 32 {
                assert(start == 0);
                let w = self.registers[reg as int];
                assert((w & 0xffff_ffffu32) >> 0u32 == (w & (0xffff_ffffu32 << 0u32)) >> 0u32) by (bit_vector);
            }
        }
        r
    }

    /// Replaces bits `range.start..range.end` of register `register` by the low bits of `value`,
    /// leaving every other bit and register alone.
    pub fn set_bit_field(&mut self, register: Register, range: core::ops::Range<usize>, value: u32)
        requires
            cp0_register_number(register) is Some,
            range.start < 32,
            range.end <= 32,
        ensures
            final(self).registers@ == old(self).registers@.update(
                cp0_register_number(register).unwrap() as int,
                with_bits(
                    old(self).registers[cp0_register_number(register).unwrap() as int],
                    range.start as u32,
                    range.end as u32,
                    value,
                ),
            ),
            final(self).debug_mode == old(self).debug_mode,
    {
        let reg = to_register(register);
        let start = range.start as u32;
        let end = range.end as u32;
        let num_bits: u32 = if end > start { end - start } else { 0 };
        proof {
            if num_bits < 32 {
                assert(1u32 << num_bits >= 1u32) by (bit_vector) requires num_bits < 32u32;
            }
        }
        let mask: u32 = if num_bits == 32 { 0xffff_ffffu32 } else { (1u32 << num_bits) - 1 };
        let old_word = self.registers[reg];
        self.registers[reg] = (old_word & !(mask << start)) | ((value & mask) << start);
    }

    /// The KSU field (Status bits 3..5).
    pub fn get_current_mode(&self) -> (r: u32)
        ensures
            r == bits_of(self.registers[12], 3, 5),
    {
        self.get_bit_field(Register::Status, 3..5)
    }

    /// Sets the KSU field (Status bits 3..5).
    pub fn set_current_mode(&mut self, value: u32)
        ensures
            final(self).registers@ == old(self).registers@.update(12, with_bits(old(self).registers[12], 3, 5, value)),
            final(self).debug_mode == old(self).debug_mode,
    {
        self.set_bit_field(Register::Status, 3..5, value)
    }

    /// The EXL bit (Status bit 0).
    pub fn get_exception_level(&self) -> (r: u32)
        ensures
            r == bits_of(self.registers[12], 0, 1),
    {
        self.get_bit_field(Register::Status, 0..1)
    }

    /// Sets the EXL bit (Status bit 0).
    pub fn set_exception_level(&mut self, value: u32)
        ensures
            final(self).registers@ == old(self).registers@.update(12, with_bits(old(self).registers[12], 0, 1, value)),
            final(self).debug_mode == old(self).debug_mode,
    {
        self.set_bit_field(Register::Status, 0..1, value)
    }

    /// The ExcCode field (Cause bits 2..7).
    pub fn get_exc_code(&self) -> (r: u32)
        ensures
            r == bits_of(self.registers[13], 2, 7),
    {
        self.get_bit_field(Register::Cause, 2..7)
    }

    /// Sets the ExcCode field (Cause bits 2..7).
    pub fn set_exc_code(&mut self, value: u32)
        ensures
            final(self).registers@ == old(self).registers@.update(13, with_bits(old(self).registers[13], 2, 7, value)),
            final(self).debug_mode == old(self).debug_mode,
    {
        self.set_bit_field(Register::Cause, 2..7, value)
    }

    /// The exception program counter (EPC, all 32 bits).
    pub fn get_epc(&self) -> (r: u32)
        ensures
            r == bits_of(self.registers[14], 0, 32),
            r == self.registers[14],
    {
        let r = self.get_bit_field(Register::EPC, 0..32);
        proof { lemma_full_field(self.registers[14]); }
        r
    }

    /// Sets the exception program counter.
    pub fn set_epc(&mut self, value: u32)
        ensures
            final(self).registers@ == old(self).registers@.update(14, with_bits(old(self).registers[14], 0, 32, value)),
            final(self).registers[14] == value,
            final(self).debug_mode == old(self).debug_mode,
    {
        self.set_bit_field(Register::EPC, 0..32, value);
        proof { lemma_full_field_write(old(self).registers[14], value); }
    }
}

/// The masks of the fields this coprocessor uses.
pub proof fn lemma_small_masks()
    ensures
        low_mask(1) == 1,
        low_mask(2) == 3,
        low_mask(5) == 31,
{
    assert(((1u32 << 1u32) - 1u32) as u32 == 1u32 && ((1u32 << 2u32) - 1u32) as u32 == 3u32
        && ((1u32 << 5u32) - 1u32) as u32 == 31u32) by (bit_vector);
}

/// The whole word is its own 0..32 field.
pub proof fn lemma_full_field(w: u32)
    ensures
        bits_of(w, 0, 32) == w,
{
    assert((w & (0xffff_ffffu32 << 0u32)) >> 0u32 == w) by (bit_vector);
}

/// Writing the 0..32 field replaces the whole word.
pub proof fn lemma_full_field_write(w: u32, v: u32)
    ensures
        with_bits(w, 0, 32, v) == v,
{
    assert((w & !(0xffff_ffffu32 << 0u32)) | ((v & 0xffff_ffffu32) << 0u32) == v) by (bit_vector);
}

/// Whether an exception is being handled (the EXL bit is set).
pub open spec fn in_exception(cp0: Coprocessor0) -> bool {
    bits_of(cp0.registers[12], 0, 1) == EXCEPTION_BEING_HANDLED
}

/// The Status word after an exception is entered: kernel mode, EXL set.
pub open spec fn status_on_exception(status: u32) -> u32 {
    with_bits(with_bits(status, 3, 5, KERNEL_MODE), 0, 1, EXCEPTION_BEING_HANDLED)
}

/// Whether an exception may be raised now: one is already being handled, or the
/// program counter is past the first instruction so its address can be recorded.
pub open spec fn can_raise(state: ProgramState) -> bool {
    in_exception(state.cp0) || state.cpu.pc >= 4
}

/// The coprocessor registers after `exception` is raised in `state`.
pub open spec fn raised(state: ProgramState, exception: ExceptionType) -> Seq<u32> {
    state.cp0.registers@
        .update(12, status_on_exception(state.cp0.registers[12]))
        .update(14, if in_exception(state.cp0) { state.cp0.registers[14] } else { (state.cpu.pc - 4) as u32 })
        .update(13, with_bits(state.cp0.registers[13], 2, 7, exception.exc_code_of()))
}

/// Whether `post` is `pre` with `exception` raised and nothing else changed.
pub open spec fn raises(pre: ProgramState, post: ProgramState, exception: ExceptionType) -> bool {
    &&& post.cp0.registers@ == raised(pre, exception)
    &&& post.cp0.debug_mode == pre.cp0.debug_mode
    &&& post.cpu == pre.cpu
    &&& post.memory == pre.memory
    &&& post.should_continue_execution == pre.should_continue_execution
}

impl ProgramState {
    /// Whether an exception is being handled.
    pub fn is_exception(&self) -> (b: bool)
        ensures
            b == in_exception(self.cp0),
    {
        self.cp0.get_exception_level() == EXCEPTION_BEING_HANDLED
    }

    /// Records `exception_type` in coprocessor 0: kernel mode, the address of the
    /// faulting instruction in EPC (unless an exception is already being handled),
    /// the EXL bit, and the ExcCode.
    pub fn set_exception(&mut self, exception_type: ExceptionType)
        requires
            can_raise(*old(self)),
        ensures
            raises(*old(self), *final(self), exception_type),
            in_exception(final(self).cp0),
    {
        self.cp0.set_current_mode(KERNEL_MODE);
        let already = self.is_exception();
        proof {
            let s = old(self).cp0.registers[12];
            assert(bits_of(with_bits(s, 3, 5, KERNEL_MODE), 0, 1) == bits_of(s, 0, 1)) by {
                lemma_with_bits_frame(s, 3, 5, KERNEL_MODE, 0, 1);
            }
        }
        if !already {
            self.cp0.set_epc(self.cpu.pc - 4);
        }
        self.cp0.set_exception_level(EXCEPTION_BEING_HANDLED);
        self.cp0.set_exc_code(exception_type.code());
        proof {
            let s1 = with_bits(old(self).cp0.registers[12], 3, 5, KERNEL_MODE);
            lemma_bits_of_with_bits(s1, 0, 1, EXCEPTION_BEING_HANDLED);
            assert(EXCEPTION_BEING_HANDLED & low_mask(1) == 1) by (bit_vector);
            assert(self.cp0.registers@ =~= raised(*old(self), exception_type));
        }
    }

    /// Leaves exception handling: clears EXL, resumes after the faulting
    /// instruction (EPC + 4), and clears EPC.
    pub fn recover_from_exception(&mut self)
        requires
            old(self).cp0.registers[14] <= u32::MAX - 4,
        ensures
            final(self).cpu.pc == old(self).cp0.registers[14] + 4,
            final(self).cp0.registers@ == old(self).cp0.registers@
                .update(12, with_bits(old(self).cp0.registers[12], 0, 1, NO_EXCEPTION))
                .update(14, 0),
            !in_exception(final(self).cp0),
            final(self).cp0.debug_mode == old(self).cp0.debug_mode,
            final(self).cpu.general_purpose_registers == old(self).cpu.general_purpose_registers,
            final(self).memory == old(self).memory,
            final(self).should_continue_execution == old(self).should_continue_execution,
    {
        self.cp0.set_exception_level(NO_EXCEPTION);
        self.cpu.pc = self.cp0.get_epc() + 4;
        self.cp0.set_epc(0u32);
        proof {
            lemma_bits_of_with_bits(old(self).cp0.registers[12], 0, 1, NO_EXCEPTION);
            assert(NO_EXCEPTION & low_mask(1) == 0) by (bit_vector);
            assert(self.cp0.registers@ =~= old(self).cp0.registers@
                .update(12, with_bits(old(self).cp0.registers[12], 0, 1, NO_EXCEPTION))
                .update(14, 0));
        }
    }
}


/// Raising an exception leaves one being handled.
pub proof fn lemma_raised_in_exception(state: ProgramState, exception: ExceptionType)
    ensures
        bits_of(raised(state, exception)[12], 0, 1) == EXCEPTION_BEING_HANDLED,
{
    let s1 = with_bits(state.cp0.registers[12], 3, 5, KERNEL_MODE);
    lemma_bits_of_with_bits(s1, 0, 1, EXCEPTION_BEING_HANDLED);
    lemma_small_masks();
    assert(EXCEPTION_BEING_HANDLED & 1u32 == 1u32) by (bit_vector);
}

} // verus!
