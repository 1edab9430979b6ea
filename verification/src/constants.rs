//! Memory layout conventions and register names of the MIPS machine.
use vstd::prelude::*;

verus! {

/// Number of general purpose registers.
pub const NUM_OF_REGISTERS: usize = 32;

/// The address at which, by convention, MIPS begins the .text section.
pub const MIPS_TEXT_START_ADDR: u32 = 0x00400000;

/// The address at which, by convention, MIPS begins the .data section.
pub const MIPS_DATA_START_ADDR: u32 = 0x10010000;

/// Start of the heap, which grows upward.
pub const MIPS_HEAP_START_ADDR: u32 = 0x10040000;

/// End of the stack, which grows downward.
pub const MIPS_STACK_END_ADDR: u32 = 0x7ffffe00;

/// MIPS instructions are aligned to 4-byte words.
pub const MIPS_ADDRESS_ALIGNMENT: u32 = 4;

/// The conventional assembler name of the general purpose register `index`.
pub open spec fn register_name(index: int) -> Seq<char> {
    if index == 0 { "$zero"@ }
    else if index == 1 { "$at"@ }
    else if index == 2 { "$v0"@ }
    else if index == 3 { "$v1"@ }
    else if index == 4 { "$a0"@ }
    else if index == 5 { "$a1"@ }
    else if index == 6 { "$a2"@ }
    else if index == 7 { "$a3"@ }
    else if index == 8 { "$t0"@ }
    else if index == 9 { "$t1"@ }
    else if index == 10 { "$t2"@ }
    else if index == 11 { "$t3"@ }
    else if index == 12 { "$t4"@ }
    else if index == 13 { "$t5"@ }
    else if index == 14 { "$t6"@ }
    else if index == 15 { "$t7"@ }
    else if index == 16 { "$s0"@ }
    else if index == 17 { "$s1"@ }
    else if index == 18 { "$s2"@ }
    else if index == 19 { "$s3"@ }
    else if index == 20 { "$s4"@ }
    else if index == 21 { "$s5"@ }
    else if index == 22 { "$s6"@ }
    else if index == 23 { "$s7"@ }
    else if index == 24 { "$t8"@ }
    else if index == 25 { "$t9"@ }
    else if index == 26 { "$k0"@ }
    else if index == 27 { "$k1"@ }
    else if index == 28 { "$gp"@ }
    else if index == 29 { "$sp"@ }
    else if index == 30 { "$fp"@ }
    else { "$ra"@ }
}


/// The conventional assembler name of the general purpose register `index`.
pub fn register_str(index: usize) -> (s: &'static str)
    requires
        index < 32,
    ensures
        s@ == register_name(index as int),
        s@.len() <= 5,
{
    if index == 0 {
        proof { reveal_strlit("$zero"); }
        "$zero"
    } else if index == 1 {
        proof { reveal_strlit("$at"); }
        "$at"
    } else if index == 2 {
        proof { reveal_strlit("$v0"); }
        "$v0"
    } else if index == 3 {
        proof { reveal_strlit("$v1"); }
        "$v1"
    } else if index == 4 {
        proof { reveal_strlit("$a0"); }
        "$a0"
    } else if index == 5 {
        proof { reveal_strlit("$a1"); }
        "$a1"
    } else if index == 6 {
        proof { reveal_strlit("$a2"); }
        "$a2"
    } else if index == 7 {
        proof { reveal_strlit("$a3"); }
        "$a3"
    } else if index == 8 {
        proof { reveal_strlit("$t0"); }
        "$t0"
    } else if index == 9 {
        proof { reveal_strlit("$t1"); }
        "$t1"
    } else if index == 10 {
        proof { reveal_strlit("$t2"); }
        "$t2"
    } else if index == 11 {
        proof { reveal_strlit("$t3"); }
        "$t3"
    } else if index == 12 {
        proof { reveal_strlit("$t4"); }
        "$t4"
    } else if index == 13 {
        proof { reveal_strlit("$t5"); }
        "$t5"
    } else if index == 14 {
        proof { reveal_strlit("$t6"); }
        "$t6"
    } else if index == 15 {
        proof { reveal_strlit("$t7"); }
        "$t7"
    } else if index == 16 {
        proof { reveal_strlit("$s0"); }
        "$s0"
    } else if index == 17 {
        proof { reveal_strlit("$s1"); }
        "$s1"
    } else if index == 18 {
        proof { reveal_strlit("$s2"); }
        "$s2"
    } else if index == 19 {
        proof { reveal_strlit("$s3"); }
        "$s3"
    } else if index == 20 {
        proof { reveal_strlit("$s4"); }
        "$s4"
    } else if index == 21 {
        proof { reveal_strlit("$s5"); }
        "$s5"
    } else if index == 22 {
        proof { reveal_strlit("$s6"); }
        "$s6"
    } else if index == 23 {
        proof { reveal_strlit("$s7"); }
        "$s7"
    } else if index == 24 {
        proof { reveal_strlit("$t8"); }
        "$t8"
    } else if index == 25 {
        proof { reveal_strlit("$t9"); }
        "$t9"
    } else if index == 26 {
        proof { reveal_strlit("$k0"); }
        "$k0"
    } else if index == 27 {
        proof { reveal_strlit("$k1"); }
        "$k1"
    } else if index == 28 {
        proof { reveal_strlit("$gp"); }
        "$gp"
    } else if index == 29 {
        proof { reveal_strlit("$sp"); }
        "$sp"
    } else if index == 30 {
        proof { reveal_strlit("$fp"); }
        "$fp"
    } else {
        proof { reveal_strlit("$ra"); }
        "$ra"
    }
}


/// The name `$` + `letter` + the decimal digit `k`, such as `$s6`.
pub open spec fn numbered_name(letter: char, k: int) -> Seq<char> {
    seq!['$', letter, ((48 + k) as char)]
}

/// The general purpose registers are named by the MIPS convention: `$v0`-`$v1`
/// are 2-3, `$a0`-`$a3` are 4-7, `$t0`-`$t7` are 8-15, `$s0`-`$s7` are 16-23,
/// `$t8`-`$t9` are 24-25, `$k0`-`$k1` are 26-27, and 0, 1, 28, 29, 30 and 31
/// are `$zero`, `$at`, `$gp`, `$sp`, `$fp` and `$ra`.
pub proof fn lemma_register_names()
    ensures
        forall|k: int| 0 <= k < 2 ==> register_name(2 + k) == #[trigger] numbered_name('v', k),
        forall|k: int| 0 <= k < 4 ==> register_name(4 + k) == #[trigger] numbered_name('a', k),
        forall|k: int| 0 <= k < 8 ==> register_name(8 + k) == #[trigger] numbered_name('t', k),
        forall|k: int| 0 <= k < 8 ==> register_name(16 + k) == #[trigger] numbered_name('s', k),
        forall|k: int| 8 <= k < 10 ==> register_name(16 + k) == #[trigger] numbered_name('t', k),
        forall|k: int| 0 <= k < 2 ==> register_name(26 + k) == #[trigger] numbered_name('k', k),
        register_name(0) == seq!['$', 'z', 'e', 'r', 'o'],
        register_name(1) == seq!['$', 'a', 't'],
        register_name(28) == seq!['$', 'g', 'p'],
        register_name(29) == seq!['$', 's', 'p'],
        register_name(30) == seq!['$', 'f', 'p'],
        register_name(31) == seq!['$', 'r', 'a'],
{
    reveal_strlit("$zero");
    reveal_strlit("$at");
    reveal_strlit("$v0");
    reveal_strlit("$v1");
    reveal_strlit("$a0");
    reveal_strlit("$a1");
    reveal_strlit("$a2");
    reveal_strlit("$a3");
    reveal_strlit("$t0");
    reveal_strlit("$t1");
    reveal_strlit("$t2");
    reveal_strlit("$t3");
    reveal_strlit("$t4");
    reveal_strlit("$t5");
    reveal_strlit("$t6");
    reveal_strlit("$t7");
    reveal_strlit("$s0");
    reveal_strlit("$s1");
    reveal_strlit("$s2");
    reveal_strlit("$s3");
    reveal_strlit("$s4");
    reveal_strlit("$s5");
    reveal_strlit("$s6");
    reveal_strlit("$s7");
    reveal_strlit("$t8");
    reveal_strlit("$t9");
    reveal_strlit("$k0");
    reveal_strlit("$k1");
    reveal_strlit("$gp");
    reveal_strlit("$sp");
    reveal_strlit("$fp");
    reveal_strlit("$ra");
    assert forall|k: int| 0 <= k < 2 implies register_name(2 + k) == #[trigger] numbered_name('v', k) by {
        assert(register_name(2 + k) =~= numbered_name('v', k));
    }
    assert forall|k: int| 0 <= k < 4 implies register_name(4 + k) == #[trigger] numbered_name('a', k) by {
        assert(register_name(4 + k) =~= numbered_name('a', k));
    }
    assert forall|k: int| 0 <= k < 8 implies register_name(8 + k) == #[trigger] numbered_name('t', k) by {
        assert(register_name(8 + k) =~= numbered_name('t', k));
    }
    assert forall|k: int| 0 <= k < 8 implies register_name(16 + k) == #[trigger] numbered_name('s', k) by {
        assert(register_name(16 + k) =~= numbered_name('s', k));
    }
    assert forall|k: int| 8 <= k < 10 implies register_name(16 + k) == #[trigger] numbered_name('t', k) by {
        assert(register_name(16 + k) =~= numbered_name('t', k));
    }
    assert forall|k: int| 0 <= k < 2 implies register_name(26 + k) == #[trigger] numbered_name('k', k) by {
        assert(register_name(26 + k) =~= numbered_name('k', k));
    }
    assert(register_name(0) =~= seq!['$', 'z', 'e', 'r', 'o']);
    assert(register_name(1) =~= seq!['$', 'a', 't']);
    assert(register_name(28) =~= seq!['$', 'g', 'p']);
    assert(register_name(29) =~= seq!['$', 's', 'p']);
    assert(register_name(30) =~= seq!['$', 'f', 'p']);
    assert(register_name(31) =~= seq!['$', 'r', 'a']);
}


/// A number that tells the register names apart: the length, then the two
/// characters after the `$`.
spec fn name_key(s: Seq<char>) -> int {
    s.len() * 65536 + (s[1] as int) * 256 + (s[2] as int)
}

/// No two general purpose registers share a name.
pub proof fn lemma_register_names_distinct()
    ensures
        forall|i: int, j: int| 0 <= i < 32 && 0 <= j < 32 && i != j ==>
            #[trigger] register_name(i) != #[trigger] register_name(j),
{
    reveal_strlit("$zero");
    reveal_strlit("$at");
    reveal_strlit("$v0");
    reveal_strlit("$v1");
    reveal_strlit("$a0");
    reveal_strlit("$a1");
    reveal_strlit("$a2");
    reveal_strlit("$a3");
    reveal_strlit("$t0");
    reveal_strlit("$t1");
    reveal_strlit("$t2");
    reveal_strlit("$t3");
    reveal_strlit("$t4");
    reveal_strlit("$t5");
    reveal_strlit("$t6");
    reveal_strlit("$t7");
    reveal_strlit("$s0");
    reveal_strlit("$s1");
    reveal_strlit("$s2");
    reveal_strlit("$s3");
    reveal_strlit("$s4");
    reveal_strlit("$s5");
    reveal_strlit("$s6");
    reveal_strlit("$s7");
    reveal_strlit("$t8");
    reveal_strlit("$t9");
    reveal_strlit("$k0");
    reveal_strlit("$k1");
    reveal_strlit("$gp");
    reveal_strlit("$sp");
    reveal_strlit("$fp");
    reveal_strlit("$ra");
    assert(name_key(register_name(0)) == 359013);
    assert(name_key(register_name(1)) == 221556);
    assert(name_key(register_name(2)) == 226864);
    assert(name_key(register_name(3)) == 226865);
    assert(name_key(register_name(4)) == 221488);
    assert(name_key(register_name(5)) == 221489);
    assert(name_key(register_name(6)) == 221490);
    assert(name_key(register_name(7)) == 221491);
    assert(name_key(register_name(8)) == 226352);
    assert(name_key(register_name(9)) == 226353);
    assert(name_key(register_name(10)) == 226354);
    assert(name_key(register_name(11)) == 226355);
    assert(name_key(register_name(12)) == 226356);
    assert(name_key(register_name(13)) == 226357);
    assert(name_key(register_name(14)) == 226358);
    assert(name_key(register_name(15)) == 226359);
    assert(name_key(register_name(16)) == 226096);
    assert(name_key(register_name(17)) == 226097);
    assert(name_key(register_name(18)) == 226098);
    assert(name_key(register_name(19)) == 226099);
    assert(name_key(register_name(20)) == 226100);
    assert(name_key(register_name(21)) == 226101);
    assert(name_key(register_name(22)) == 226102);
    assert(name_key(register_name(23)) == 226103);
    assert(name_key(register_name(24)) == 226360);
    assert(name_key(register_name(25)) == 226361);
    assert(name_key(register_name(26)) == 224048);
    assert(name_key(register_name(27)) == 224049);
    assert(name_key(register_name(28)) == 223088);
    assert(name_key(register_name(29)) == 226160);
    assert(name_key(register_name(30)) == 222832);
    assert(name_key(register_name(31)) == 225889);
    assert forall|i: int, j: int| 0 <= i < 32 && 0 <= j < 32 && i != j implies
        #[trigger] register_name(i) != #[trigger] register_name(j) by {
        assert(name_key(register_name(i)) != name_key(register_name(j)));
    }
}

} // verus!
