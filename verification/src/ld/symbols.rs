//! Gathering the global symbols of several files.
use vstd::prelude::*;

use crate::elf_def::{Elf, Elf32Sym};
use crate::elf_utils::{find_symtab, symtab_found, symtab_findable, symtab_of};

verus! {

/// The global symbols (binding 1) of `syms`, in order.
pub open spec fn globals_of(syms: Seq<Elf32Sym>) -> Seq<Elf32Sym> {
    syms.filter(|s: Elf32Sym| s.st_info >> 4 == 1)
}

/// The global symbols of the first `k` files, file by file.
pub open spec fn globals_before(elfs: Seq<Elf>, k: int) -> Seq<Elf32Sym>
    decreases k,
{
    if k <= 0 || k > elfs.len() {
        Seq::empty()
    } else {
        globals_before(elfs, k - 1) + globals_of(symtab_of(elfs[k - 1]))
    }
}

/// Collects the global symbols of every file's .symtab, in file order.
pub fn collect_global_symbols(elfs: &Vec<Elf>) -> (r: Result<Vec<Elf32Sym>, String>)
    requires
        forall|i: int| 0 <= i < elfs@.len() ==> symtab_findable(#[trigger] elfs@[i]),
    ensures
        r matches Ok(v) && v@ == globals_before(elfs@, elfs@.len() as int),
{
    let mut global_symbols: Vec<Elf32Sym> = Vec::new();
    let mut i: usize = 0;
    while i < elfs.len()
        invariant
            i <= elfs@.len(),
            forall|j: int| 0 <= j < elfs@.len() ==> symtab_findable(#[trigger] elfs@[j]),
            global_symbols@ == globals_before(elfs@, i as int),
        decreases elfs.len() - i,
    {
        assert(symtab_findable(elfs@[i as int]));
        let (_, symtab) = find_symtab(&elfs[i]);
        let ghost start = global_symbols@;
        let mut k: usize = 0;
        while k < symtab.len()
            invariant
                k <= symtab@.len(),
                global_symbols@ == start + globals_of(symtab@.subrange(0, k as int)),
            decreases symtab.len() - k,
        {
            let symbol = symtab[k];
            proof {
                let sub = symtab@.subrange(0, k + 1);
                assert(sub.drop_last() =~= symtab@.subrange(0, k as int));
                assert(sub.filter(|s: Elf32Sym| s.st_info >> 4 == 1) == sub.drop_last().filter(|s: Elf32Sym| s.st_info >> 4 == 1)
                    + if symbol.st_info >> 4 == 1 { seq![symbol] } else { Seq::<Elf32Sym>::empty() }) by {
                    reveal(Seq::filter);
                    assert(sub.last() == symbol);
                }
            }
            if symbol.get_bind() == 1 {
                global_symbols.push(symbol);
                assert(global_symbols@ =~= start + globals_of(symtab@.subrange(0, k + 1)));
            } else {
                assert(global_symbols@ =~= start + globals_of(symtab@.subrange(0, k + 1)));
            }
            k = k + 1;
        }
        assert(symtab@.subrange(0, k as int) =~= symtab@);
        i = i + 1;
    }
    Ok(global_symbols)
}

/// `collect_global_symbols` where every file's .symtab can be found, and
/// `None` where one cannot.
pub fn try_collect_global_symbols(elfs: &Vec<Elf>) -> (r: Option<Result<Vec<Elf32Sym>, String>>)
    ensures
        r is Some <==> forall|i: int| 0 <= i < elfs@.len() ==> symtab_findable(#[trigger] elfs@[i]),
        r matches Some(x) ==> x matches Ok(v) && v@ == globals_before(elfs@, elfs@.len() as int),
{
    let mut i: usize = 0;
    while i < elfs.len()
        invariant
            i <= elfs@.len(),
            forall|j: int| 0 <= j < i ==> symtab_findable(#[trigger] elfs@[j]),
        decreases elfs.len() - i,
    {
        if !symtab_found(&elfs[i]) {
            return None;
        }
        i = i + 1;
    }
    Some(collect_global_symbols(elfs))
}

} // verus!
