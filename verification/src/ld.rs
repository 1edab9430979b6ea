//! The linker: checks relocatable files, lays their sections out one after
//! another, and resolves their symbols and relocations into an executable.
pub mod adjust;
pub mod conformity;
pub mod consolidate;
pub mod constants;
pub mod linker;
pub mod offsets;
pub mod one_module_linker;
pub mod relocate;
pub mod relocate_helpers;
pub mod symbols;
pub mod text_relocation;
pub mod update_header;
