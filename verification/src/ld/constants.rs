//! Positions of the sections of a relocatable file, counted from the first
//! section after the null section.
use vstd::prelude::*;

verus! {

/// .text
pub const TEXT: usize = 0;
/// .data
pub const DATA: usize = 1;
/// .rel
pub const REL: usize = 2;
/// .symtab
pub const SYMTAB: usize = 3;
/// .strtab
pub const STRTAB: usize = 4;
/// .line
pub const LINE: usize = 5;

} // verus!
