//! The linker's driver.
use vstd::prelude::*;

use crate::elf_def::{section_views, Elf};
use crate::elf_utils::{find_global_symbol_address, global_address, parse_elf_symbols, symbols_of};
use crate::ld::conformity::{all_conform, conformity_check, error_lines};
use crate::ld::consolidate::{consolidatable, consolidate_sections, consolidation_possible, data_pad, joined, zeros};
use crate::ld::offsets::{calculate_offsets, next_offset, offset_row, offset_sum, offsets_computable, offsets_possible, recorded_size};
use crate::ld::relocate::{relocatable, relocate, relocation_outcome, try_relocate};

verus! {

/// The offsets `calculate_offsets` computes for `elfs`.
pub open spec fn offsets_of(elfs: Seq<Elf>) -> Seq<Seq<u32>> {
    Seq::new(if elfs.len() == 0 { 1nat } else { elfs.len() }, |i: int| Seq::new(6, |j: int| offset_row(elfs, i)[j] as u32))
}

/// The six sections `consolidate_sections` joins for `elfs`.
pub open spec fn joined_of(elfs: Seq<Elf>) -> Seq<Seq<u8>> {
    Seq::new(6, |s: int| joined(elfs, offsets_of(elfs), s, elfs.len() as int))
}

/// Whether files that pass the checks can be linked: offsets computable,
/// sections joinable, and the joined sections relocatable.
pub open spec fn linkable(elfs: Seq<Elf>) -> bool {
    all_conform(elfs) ==> {
        &&& offsets_computable(elfs)
        &&& consolidatable(elfs, offsets_of(elfs))
        &&& relocatable(joined_of(elfs), offsets_of(elfs))
    }
}

/// The entry point of an executable with sections `secs` (symbol table third,
/// string table fourth): the global `main`, or else the start of .text.
pub open spec fn linked_entry(secs: Seq<Seq<u8>>) -> u32 {
    match global_address(symbols_of(secs[2]), secs[3], "main"@) {
        Some(a) => a,
        None => 0x00400000,
    }
}

/// Points the entry of `e` at the global `main`, or else at the start of .text.
fn set_entry(e: &mut Elf)
    requires
        section_views(*old(e)).len() > 3,
    ensures
        final(e).file_header == (crate::elf_def::Elf32Header { e_entry: linked_entry(section_views(*old(e))), ..old(e).file_header }),
        final(e).program_header_table == old(e).program_header_table,
        final(e).section_header_table == old(e).section_header_table,
        final(e).sections == old(e).sections,
{
    assert(section_views(*e)[2] == e.sections@[2]@);
    assert(section_views(*e)[3] == e.sections@[3]@);
    let symbol_table = parse_elf_symbols(&e.sections[2]);
    let entry = match find_global_symbol_address(&symbol_table, &e.sections[3], "main") {
        Some(a) => a,
        None => crate::constants::MIPS_TEXT_START_ADDR,
    };
    proof { reveal_strlit("main"); }
    e.file_header.e_entry = entry;
}

/// The executable a successful link yields: relocation's sections, laid out
/// as its headers say, with the entry at the global `main` (or .text).
pub open spec fn linked_as(e: Elf, s: Seq<Seq<u8>>) -> bool {
    &&& section_views(e) == s
    &&& e.file_header.e_type == 2
    &&& e.file_header.e_entry == linked_entry(s)
    &&& crate::elf_file::laid_out(e)
}

/// The sections of a relocation that succeeded include the symbol and string tables.
proof fn lemma_outcome_len(secs: Seq<Seq<u8>>, offsets: Seq<Seq<u32>>)
    requires
        relocatable(secs, offsets),
        relocation_outcome(secs, offsets) is Ok,
    ensures
        relocation_outcome(secs, offsets)->Ok_0.len() > 3,
{
}

/// Points a relocated executable's entry as `linked_entry` says.
fn with_entry(r: Result<Elf, String>, secs: Ghost<Seq<Seq<u8>>>, offsets: Ghost<Seq<Seq<u32>>>) -> (out: Result<Elf, String>)
    requires
        relocatable(secs@, offsets@),
        match relocation_outcome(secs@, offsets@) {
            Ok(s) => r matches Ok(e) && section_views(e) == s && e.file_header.e_type == 2 && crate::elf_file::laid_out(e),
            Err(m) => r matches Err(x) && x@ == m,
        },
    ensures
        match relocation_outcome(secs@, offsets@) {
            Ok(s) => out matches Ok(e) && linked_as(e, s),
            Err(m) => out matches Err(x) && x@ == m,
        },
{
    match r {
        Ok(e) => {
            proof { lemma_outcome_len(secs@, offsets@); }
            let mut e = e;
            set_entry(&mut e);
            Ok(e)
        },
        Err(x) => Err(x),
    }
}

/// The computed offsets of every file lie within a word.
proof fn lemma_offset_row_bounds(elfs: Seq<Elf>, i: int)
    requires
        offsets_computable(elfs),
        0 <= i < elfs.len(),
    ensures
        forall|j: int| 0 <= j < 6 ==> 0 <= #[trigger] offset_row(elfs, i)[j] <= u32::MAX,
    decreases i,
{
    if i > 0 {
        lemma_offset_row_bounds(elfs, i - 1);
        assert forall|j: int| 0 <= j < 6 implies 0 <= #[trigger] offset_row(elfs, i)[j] <= u32::MAX by {
            let prev = offset_row(elfs, i - 1)[j];
            let size = recorded_size(elfs[i - 1], j);
            assert(offset_sum(offset_row(elfs, i - 1)[j], size, j) <= u32::MAX);
            assert(offset_row(elfs, i)[j] == next_offset(prev, size, j));
            if j == 1 {
                assert(((prev + size + 3) / 4) * 4 <= prev + size + 3);
                assert(((prev + size + 3) / 4) * 4 >= 0);
            }
        }
    }
}

/// Joined sections only grow: what is joined of the first `k` files begins
/// what is joined of the first `n`.
proof fn lemma_joined_prefix(elfs: Seq<Elf>, offsets: Seq<Seq<u32>>, s: int, k: int, n: int)
    requires
        0 <= k <= n,
    ensures
        joined(elfs, offsets, s, k).len() <= joined(elfs, offsets, s, n).len(),
        joined(elfs, offsets, s, n).subrange(0, joined(elfs, offsets, s, k).len() as int) == joined(elfs, offsets, s, k),
    decreases n - k,
{
    if k < n {
        lemma_joined_prefix(elfs, offsets, s, k, n - 1);
        let a = joined(elfs, offsets, s, n - 1);
        let b = joined(elfs, offsets, s, k);
        assert(joined(elfs, offsets, s, n).subrange(0, a.len() as int) =~= a);
        assert(joined(elfs, offsets, s, n).subrange(0, b.len() as int) =~= a.subrange(0, b.len() as int));
    }
}

/// Where each file's sections land in the joined sections: when each file's
/// sections have the sizes their headers record, section `s` of file `i`
/// starts at the offset computed for it, and its bytes follow there.
pub proof fn lemma_sections_land(elfs: Seq<Elf>, s: int, i: int)
    requires
        0 <= s < 6,
        0 <= i < elfs.len(),
        offsets_computable(elfs),
        consolidatable(elfs, offsets_of(elfs)),
        forall|k: int, j: int| 0 <= k < elfs.len() && 0 <= j < 6 ==>
            #[trigger] section_views(elfs[k])[j].len() == recorded_size(elfs[k], j),
    ensures
        joined(elfs, offsets_of(elfs), s, i).len() == offset_row(elfs, i)[s],
        joined(elfs, offsets_of(elfs), s, elfs.len() as int).subrange(offset_row(elfs, i)[s],
            offset_row(elfs, i)[s] + section_views(elfs[i])[s].len()) == section_views(elfs[i])[s],
    decreases i,
{
    let offs = offsets_of(elfs);
    lemma_offset_row_bounds(elfs, i);
    if i > 0 {
        lemma_sections_land(elfs, s, i - 1);
        lemma_offset_row_bounds(elfs, i - 1);
        let prev = joined(elfs, offs, s, i - 1);
        let sec = section_views(elfs[i - 1])[s];
        assert(sec.len() == recorded_size(elfs[i - 1], s));
        assert(offset_row(elfs, i)[s] == next_offset(offset_row(elfs, i - 1)[s], recorded_size(elfs[i - 1], s), s));
        if s == 1 {
            assert(offs[i][1] == offset_row(elfs, i)[1] as u32);
            assert(elfs[i - 1] == elfs[i - 1]);
            assert(data_pad(elfs, offs, i - 1, prev.len() as int) == offs[i][1] - (prev.len() + sec.len()));
            assert(joined(elfs, offs, s, i).len() == prev.len() + sec.len() + data_pad(elfs, offs, i - 1, prev.len() as int));
        } else {
            assert(joined(elfs, offs, s, i) == prev + sec + Seq::<u8>::empty());
        }
    } else {
        assert(offset_row(elfs, 0)[s] == 0);
    }
    let here = joined(elfs, offs, s, i);
    let sec = section_views(elfs[i])[s];
    let next = joined(elfs, offs, s, i + 1);
    assert(next.subrange(here.len() as int, (here.len() + sec.len()) as int) =~= sec);
    lemma_joined_prefix(elfs, offs, s, i + 1, elfs.len() as int);
    let all = joined(elfs, offs, s, elfs.len() as int);
    assert(all.subrange(here.len() as int, (here.len() + sec.len()) as int) =~= next.subrange(here.len() as int, (here.len() + sec.len()) as int));
}

/// Links relocatable files into one executable: checks each file, computes
/// where each file's sections go, joins the sections, relocates, and points
/// the entry at the global `main` (or else at the start of .text).
pub fn linker(elfs: Vec<Elf>) -> (r: Result<Elf, String>)
    requires
        linkable(elfs@),
    ensures
        !all_conform(elfs@) ==> (r matches Err(e) && e@ == "Conformity checks failed:\n "@ + error_lines(elfs@)),
        all_conform(elfs@) ==> match relocation_outcome(joined_of(elfs@), offsets_of(elfs@)) {
            Ok(s) => r matches Ok(e) && linked_as(e, s),
            Err(m) => r matches Err(x) && x@ == m,
        },
{
    let ghost es = elfs@;
    match conformity_check(&elfs) {
        Err(e) => {
            return Err(e);
        },
        Ok(()) => {},
    }
    let offsets: Vec<Vec<u32>> = calculate_offsets(&elfs);
    assert(offsets.deep_view() =~= offsets_of(es)) by {
        assert forall|i: int| 0 <= i < offsets@.len() implies offsets.deep_view()[i] =~= offsets_of(es)[i] by {
            assert(offsets@[i]@.len() == 6);
        }
    }
    let consolidated_sections: Vec<Vec<u8>> = consolidate_sections(elfs, &offsets);
    assert(consolidated_sections.deep_view() =~= joined_of(es)) by {
        assert(offsets.deep_view()[0].len() == 6);
        assert forall|s: int| 0 <= s < 6 implies consolidated_sections.deep_view()[s] == joined_of(es)[s] by {
            assert(consolidated_sections@[s]@ == joined(es, offsets.deep_view(), s, es.len() as int));
        }
    }
    let ghost js = consolidated_sections.deep_view();
    let ghost os = offsets.deep_view();
    let r = relocate(consolidated_sections, offsets);
    with_entry(r, Ghost(js), Ghost(os))
}

/// `linker` where the files can be linked (see `linkable`), and `None` where
/// they cannot: each step is checked before it is taken.
pub fn try_linker(elfs: Vec<Elf>) -> (r: Option<Result<Elf, String>>)
    ensures
        r is Some <==> linkable(elfs@),
        r matches Some(x) ==> {
            &&& !all_conform(elfs@) ==> (x matches Err(e) && e@ == "Conformity checks failed:\n "@ + error_lines(elfs@))
            &&& all_conform(elfs@) ==> match relocation_outcome(joined_of(elfs@), offsets_of(elfs@)) {
                Ok(s) => x matches Ok(e) && linked_as(e, s),
                Err(m) => x matches Err(y) && y@ == m,
            }
        },
{
    let ghost es = elfs@;
    match conformity_check(&elfs) {
        Err(e) => {
            return Some(Err(e));
        },
        Ok(()) => {},
    }
    if !offsets_possible(&elfs) {
        return None;
    }
    let offsets: Vec<Vec<u32>> = calculate_offsets(&elfs);
    assert(offsets.deep_view() =~= offsets_of(es)) by {
        assert forall|i: int| 0 <= i < offsets@.len() implies offsets.deep_view()[i] =~= offsets_of(es)[i] by {
            assert(offsets@[i]@.len() == 6);
        }
    }
    if !consolidation_possible(&elfs, &offsets) {
        return None;
    }
    let consolidated_sections: Vec<Vec<u8>> = consolidate_sections(elfs, &offsets);
    assert(consolidated_sections.deep_view() =~= joined_of(es)) by {
        assert(offsets.deep_view()[0].len() == 6);
        assert forall|s: int| 0 <= s < 6 implies consolidated_sections.deep_view()[s] == joined_of(es)[s] by {
            assert(consolidated_sections@[s]@ == joined(es, offsets.deep_view(), s, es.len() as int));
        }
    }
    let ghost js = consolidated_sections.deep_view();
    let ghost os = offsets.deep_view();
    match try_relocate(consolidated_sections, offsets) {
        Some(r) => Some(with_entry(r, Ghost(js), Ghost(os))),
        None => None,
    }
}

} // verus!
