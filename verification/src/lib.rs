//! The core of NAME, a MIPS emulation pipeline for teaching: the machine
//! (registers, memory, coprocessor 0, instructions, syscalls, exceptions), its
//! debugger, the ELF files it runs, and the linker that makes them.
pub mod arguments;
pub mod constants;
pub mod cp0_registers;
pub mod debug;
pub mod debugger;

pub mod decode;
pub mod elf_def;
pub mod elf_file;
pub mod elf_utils;
pub mod exception;
pub mod fetch;
pub mod implementation;
pub mod information;
pub mod instruction;
pub mod instruction_fields;
pub mod ld;
pub mod operation;
pub mod processor;
pub mod simulator;
pub mod structs;
pub mod syscalls;
pub mod text;
pub mod word_instructions;
pub mod words;
