# name_core

NAME ("Not Another MIPS Emulator") is a MIPS pipeline for teaching: a linker
that joins relocatable ELF files into an executable, and an emulator with a
command-line debugger that runs it. This crate is its core, written in Verus:
every function of the library carries a contract that the verifier proves.

## Layout

- `src/` — the verified library.
  - machine: `structs` (processor, memory, program state), `exception` and
    `cp0_registers` (coprocessor 0), `instruction`, `instruction_fields`,
    `arguments`, `operation`, `information` (decoding and the instruction
    table), `implementation` (what each instruction does), `fetch`,
    `syscalls`, `words`, `text`, `constants`;
  - `processor`, `simulator`: the stand-alone emulator's processor;
  - `decode`, `word_instructions`: the routines that run straight from raw
    words, the decoder that picks one for a word, and a step built on them;
  - `debug`, `debugger`: stepping, exceptions, breakpoints and the debugger's
    commands;
  - `elf_def`, `elf_utils`, `elf_file`: ELF structures, symbol and relocation
    tables, and files as bytes;
  - `ld`: the linker (conformity checks, offsets, joining, relinking,
    duplicate symbols, relocation of .text).
- `tests/` — scenarios and examples of the laws the library proves.
- `app/` — the command-line tools: `emu` (run or debug an executable) and
  `ld` (link relocatable files). They read and write files, talk to the
  terminal, and call the library for everything else.

## Laws

Among the properties proved: reading back a written ELF file gives the same
ELF (`elf_file::lemma_read_back_written`); symbol and relocation tables
round-trip through their bytes; a step never writes `.text` and keeps `$zero`
at zero; removing a breakpoint restores the instruction it replaced;
recovering from an exception resumes where it was raised; a field of a
coprocessor register reads back what was written; deleting a breakpoint keeps
every other breakpoint's number; a word loaded from where one was just stored
is that word; executing an instruction does what the method its operation
names does (`processor::lemma_special_dispatch` and its two siblings); each
file's sections land at the offsets computed for them
(`ld::linker::lemma_sections_land`); a linked executable starts at the global
`main`, or else at the start of .text.
