//! Base addresses of each file's .text, and symbols moved to them.
use vstd::prelude::*;

use crate::elf_def::{section_views, Elf, Elf32Sym};
use crate::elf_utils::{copy_elf, find_symtab, symtab_found, symbols_to_bytes, symtab_findable, symtab_index_of, symtab_of, syms_bytes};

verus! {

/// The size of .text of `e` (see `Elf::get_text_length`).
pub open spec fn text_length(e: Elf) -> int {
    if e.section_header_table@.len() > 1 { e.section_header_table@[1].sh_size as int } else { 0 }
}

/// The total .text size of the first `k` files.
pub open spec fn text_before(elfs: Seq<Elf>, k: int) -> int
    decreases k,
{
    if k <= 0 || k > elfs.len() {
        0
    } else {
        text_before(elfs, k - 1) + text_length(elfs[k - 1])
    }
}

/// Where each file's .text begins when the files' .text are laid end to end.
pub fn generate_base_addresses(elfs: &Vec<Elf>) -> (base_offsets: Vec<u32>)
    requires
        text_before(elfs@, elfs@.len() as int) <= u32::MAX,
    ensures
        base_offsets@.len() == elfs@.len(),
        forall|i: int| 0 <= i < elfs@.len() ==> #[trigger] base_offsets@[i] == text_before(elfs@, i),
{
    let mut current_base_offset: u32 = 0;
    let mut base_offsets: Vec<u32> = Vec::new();
    let mut i: usize = 0;
    while i < elfs.len()
        invariant
            i <= elfs@.len(),
            text_before(elfs@, elfs@.len() as int) <= u32::MAX,
            current_base_offset == text_before(elfs@, i as int),
            base_offsets@.len() == i,
            forall|k: int| 0 <= k < i ==> #[trigger] base_offsets@[k] == text_before(elfs@, k),
        decreases elfs.len() - i,
    {
        base_offsets.push(current_base_offset);
        proof { lemma_text_before_monotone(elfs@, i + 1, elfs@.len() as int); }
        current_base_offset = current_base_offset + elfs[i].get_text_length();
        i = i + 1;
    }
    base_offsets
}

/// The .text total only grows with more files.
pub proof fn lemma_text_before_monotone(elfs: Seq<Elf>, a: int, b: int)
    requires
        0 <= a <= b <= elfs.len(),
    ensures
        text_before(elfs, a) <= text_before(elfs, b),
    decreases b - a,
{
    if a < b {
        lemma_text_before_monotone(elfs, a, b - 1);
    }
}

/// The empty symbol that opens a symbol table.
pub open spec fn empty_symbol() -> Elf32Sym {
    Elf32Sym { st_name: 0, st_value: 0, st_size: 0, st_info: 0, st_other: 0, st_shndx: 0 }
}

/// `sym` moved by `base` (symbols without a value keep it).
pub open spec fn moved_symbol(sym: Elf32Sym, base: u32) -> Elf32Sym {
    if sym.st_value == 0 { sym } else { Elf32Sym { st_value: (sym.st_value + base) as u32, ..sym } }
}

/// The symbol table of a file after moving: an empty symbol, then each symbol moved.
pub open spec fn moved_symtab(syms: Seq<Elf32Sym>, base: u32) -> Seq<Elf32Sym> {
    seq![empty_symbol()] + Seq::new(syms.len(), |k: int| moved_symbol(syms[k], base))
}

/// Whether file `i` can be adjusted: its .symtab can be found, and it has a
/// base offset with no overflow for each symbol with a value.
pub open spec fn adjustable(e: Elf, bases: Seq<u32>, i: int) -> bool {
    &&& symtab_findable(e)
    &&& forall|k: int| 0 <= k < symtab_of(e).len() && (#[trigger] symtab_of(e)[k]).st_value != 0 ==>
        i < bases.len() && symtab_of(e)[k].st_value + bases[i] <= u32::MAX
}

/// Moves every file's symbols by the file's base offset: each file's .symtab is
/// replaced by an empty symbol followed by its symbols, those with a value moved.
pub fn adjust_symbols(elfs: Vec<Elf>, base_address_offsets: &Vec<u32>) -> (adjusted: Vec<Elf>)
    requires
        forall|i: int| 0 <= i < elfs@.len() ==> adjustable(#[trigger] elfs@[i], base_address_offsets@, i),
    ensures
        adjusted@.len() == elfs@.len(),
        forall|i: int| 0 <= i < elfs@.len() ==> {
            let e = #[trigger] elfs@[i];
            let a = adjusted@[i];
            let k = symtab_index_of(e)->0 - 1;
            &&& a.file_header == e.file_header
            &&& a.program_header_table@ == e.program_header_table@
            &&& a.section_header_table@ == e.section_header_table@
            &&& section_views(a) == section_views(e).update(k, syms_bytes(moved_symtab(symtab_of(e), base_address_offsets@[i])))
        },
{
    let mut collected_elfs: Vec<Elf> = Vec::new();
    let mut idx: usize = 0;
    while idx < elfs.len()
        invariant
            idx <= elfs@.len(),
            forall|i: int| 0 <= i < elfs@.len() ==> adjustable(#[trigger] elfs@[i], base_address_offsets@, i),
            collected_elfs@.len() == idx,
            forall|i: int| 0 <= i < idx ==> {
                let e = #[trigger] elfs@[i];
                let a = collected_elfs@[i];
                let k = symtab_index_of(e)->0 - 1;
                &&& a.file_header == e.file_header
                &&& a.program_header_table@ == e.program_header_table@
                &&& a.section_header_table@ == e.section_header_table@
                &&& section_views(a) == section_views(e).update(k, syms_bytes(moved_symtab(symtab_of(e), base_address_offsets@[i])))
            },
        decreases elfs.len() - idx,
    {
        let elf = &elfs[idx];
        assert(adjustable(elfs@[idx as int], base_address_offsets@, idx as int));
        let (symtab_index, symtab) = find_symtab(elf);
        let mut new_symtab: Vec<Elf32Sym> = Vec::new();
        new_symtab.push(Elf32Sym { st_name: 0, st_value: 0, st_size: 0, st_info: 0, st_other: 0, st_shndx: 0 });
        let mut k: usize = 0;
        while k < symtab.len()
            invariant
                k <= symtab@.len(),
                symtab@ == symtab_of(*elf),
                *elf == elfs@[idx as int],
                adjustable(*elf, base_address_offsets@, idx as int),
                new_symtab@.len() == k + 1,
                new_symtab@ == moved_symtab(symtab@.subrange(0, k as int), if idx < base_address_offsets@.len() { base_address_offsets@[idx as int] } else { 0 }),
            decreases symtab.len() - k,
        {
            let symbol = symtab[k];
            let ghost base: u32 = if idx < base_address_offsets@.len() { base_address_offsets@[idx as int] } else { 0 };
            let moved = if symbol.st_value == 0 {
                symbol
            } else {
                assert(symtab_of(*elf)[k as int].st_value != 0);
                Elf32Sym { st_value: symbol.st_value + base_address_offsets[idx], ..symbol }
            };
            new_symtab.push(moved);
            assert(new_symtab@ =~= moved_symtab(symtab@.subrange(0, k + 1), base));
            k = k + 1;
        }
        assert(symtab@.subrange(0, k as int) =~= symtab@);
        let serialized_new_symtab = symbols_to_bytes(&new_symtab);
        let mut cloned_elf = copy_elf(elf);
        let ghost before = cloned_elf.sections@;
        cloned_elf.sections.set(symtab_index - 1, serialized_new_symtab);
        proof {
            let t = section_views(*elf).update(symtab_index - 1, syms_bytes(new_symtab@));
            assert forall|j: int| 0 <= j < t.len() implies section_views(cloned_elf)[j] == #[trigger] t[j] by {
                if j != symtab_index - 1 {
                    assert(cloned_elf.sections@[j] == before[j]);
                }
            }
            assert(section_views(cloned_elf) =~= t);
            if !(idx < base_address_offsets@.len()) {
                assert forall|k: int| 0 <= k < symtab@.len() implies (#[trigger] symtab@[k]).st_value == 0 by {
                    assert(symtab_of(*elf)[k] == symtab@[k]);
                }
                assert(moved_symtab(symtab@, 0) =~= moved_symtab(symtab@, base_address_offsets@[idx as int]));
            }
        }
        collected_elfs.push(cloned_elf);
        idx = idx + 1;
    }
    collected_elfs
}

/// Whether file `i` can be adjusted (see `adjustable`).
fn can_adjust(e: &Elf, bases: &Vec<u32>, i: usize) -> (b: bool)
    ensures
        b == adjustable(*e, bases@, i as int),
{
    if !symtab_found(e) {
        return false;
    }
    let (_, symtab) = find_symtab(e);
    let mut k: usize = 0;
    while k < symtab.len()
        invariant
            k <= symtab@.len(),
            symtab@ == symtab_of(*e),
            forall|j: int| 0 <= j < k && (#[trigger] symtab_of(*e)[j]).st_value != 0 ==>
                i < bases@.len() && symtab_of(*e)[j].st_value + bases@[i as int] <= u32::MAX,
        decreases symtab.len() - k,
    {
        let v = symtab[k].st_value;
        if v != 0 {
            assert(symtab_of(*e)[k as int].st_value != 0);
            if i >= bases.len() {
                return false;
            }
            if v > u32::MAX - bases[i] {
                return false;
            }
        }
        k = k + 1;
    }
    true
}

/// `adjust_symbols` where every file can be adjusted (see `adjustable`), and
/// `None` where one cannot.
pub fn try_adjust_symbols(elfs: Vec<Elf>, base_address_offsets: &Vec<u32>) -> (r: Option<Vec<Elf>>)
    ensures
        r is Some <==> forall|i: int| 0 <= i < elfs@.len() ==> adjustable(#[trigger] elfs@[i], base_address_offsets@, i),
        r matches Some(adjusted) ==> {
            &&& adjusted@.len() == elfs@.len()
            &&& forall|i: int| 0 <= i < elfs@.len() ==> {
                let e = #[trigger] elfs@[i];
                let a = adjusted@[i];
                let k = symtab_index_of(e)->0 - 1;
                &&& a.file_header == e.file_header
                &&& a.program_header_table@ == e.program_header_table@
                &&& a.section_header_table@ == e.section_header_table@
                &&& section_views(a) == section_views(e).update(k, syms_bytes(moved_symtab(symtab_of(e), base_address_offsets@[i])))
            }
        },
{
    let mut i: usize = 0;
    while i < elfs.len()
        invariant
            i <= elfs@.len(),
            forall|j: int| 0 <= j < i ==> adjustable(#[trigger] elfs@[j], base_address_offsets@, j),
        decreases elfs.len() - i,
    {
        if !can_adjust(&elfs[i], base_address_offsets, i) {
            return None;
        }
        i = i + 1;
    }
    Some(adjust_symbols(elfs, base_address_offsets))
}

} // verus!
