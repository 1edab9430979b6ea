//! Where each file's sections land in the linked output.
use vstd::prelude::*;

use crate::elf_def::Elf;

verus! {

/// The offset of a section in the next file, given its offset `prev` in this
/// file and its size here: .data (section 1) starts at the first word boundary
/// at or after the end of this file's .data; the rest follow directly.
pub open spec fn next_offset(prev: int, size: int, section: int) -> int {
    if section == 1 {
        ((prev + size + 3) / 4) * 4
    } else {
        prev + size
    }
}

/// What `next_offset` computes before realigning; it must fit in a word.
pub open spec fn offset_sum(prev: int, size: int, section: int) -> int {
    if section == 1 { prev + size + 3 } else { prev + size }
}

/// The size recorded for section `j` (counted after the null section) of `e`.
pub open spec fn recorded_size(e: Elf, j: int) -> int {
    e.section_header_table@[j + 1].sh_size as int
}

/// The offsets, in the output, of the six sections (.text, .data, .rel, .symtab,
/// .strtab, .line) of file `i`: the first file starts at zero, and each next file
/// starts where the previous one's section ends.
pub open spec fn offset_row(elfs: Seq<Elf>, i: int) -> Seq<int>
    decreases i,
{
    if i <= 0 {
        seq![0int, 0int, 0int, 0int, 0int, 0int]
    } else {
        let prev = offset_row(elfs, i - 1);
        Seq::new(6, |j: int| next_offset(prev[j], recorded_size(elfs[i - 1], j), j))
    }
}

/// Whether the offsets of `elfs` can be computed: every file but the last has
/// the six section headers after the null one, and no sum overflows a word.
pub open spec fn offsets_computable(elfs: Seq<Elf>) -> bool {
    forall|i: int| 0 <= i < elfs.len() - 1 ==> {
        &&& (#[trigger] elfs[i]).section_header_table@.len() >= 7
        &&& forall|j: int| 0 <= j < 6 ==> offset_sum(#[trigger] offset_row(elfs, i)[j], recorded_size(elfs[i], j), j) <= u32::MAX
    }
}

/// Computes, for each file, the output offsets of its six sections (a single
/// row of zeros when there is no file).
pub fn calculate_offsets(elfs: &Vec<Elf>) -> (offsets: Vec<Vec<u32>>)
    requires
        offsets_computable(elfs@),
    ensures
        offsets@.len() == if elfs@.len() == 0 { 1 } else { elfs@.len() },
        forall|i: int| 0 <= i < offsets@.len() ==> (#[trigger] offsets@[i])@.len() == 6,
        forall|i: int, j: int| 0 <= i < offsets@.len() && 0 <= j < 6 ==>
            #[trigger] offsets@[i]@[j] == offset_row(elfs@, i)[j],
{
    let mut return_data: Vec<Vec<u32>> = Vec::new();
    let first: Vec<u32> = vec![0, 0, 0, 0, 0, 0];
    return_data.push(first);
    let mut idx: usize = 0;
    while elfs.len() > 0 && idx < elfs.len() - 1
        invariant
            offsets_computable(elfs@),
            idx + 1 <= elfs@.len() || (idx == 0 && elfs@.len() == 0),
            return_data@.len() == idx + 1,
            forall|i: int| 0 <= i < return_data@.len() ==> (#[trigger] return_data@[i])@.len() == 6,
            forall|i: int, j: int| 0 <= i < return_data@.len() && 0 <= j < 6 ==>
                #[trigger] return_data@[i]@[j] == offset_row(elfs@, i)[j],
        decreases elfs.len() - idx,
    {
        let elf = &elfs[idx];
        assert(elfs@[idx as int].section_header_table@.len() >= 7);
        let mut next_offsets: Vec<u32> = Vec::new();
        let mut j: usize = 0;
        while j < 6
            invariant
                offsets_computable(elfs@),
                idx + 1 < elfs@.len(),
                *elf == elfs@[idx as int],
                return_data@.len() == idx + 1,
                return_data@[idx as int]@.len() == 6,
                forall|jj: int| 0 <= jj < 6 ==> return_data@[idx as int]@[jj] == offset_row(elfs@, idx as int)[jj],
                j <= 6,
                next_offsets@.len() == j,
                forall|jj: int| 0 <= jj < j ==> next_offsets@[jj] == offset_row(elfs@, idx + 1)[jj],
            decreases 6 - j,
        {
            let prev = return_data[idx][j];
            let size = elf.section_header_table[j + 1].sh_size;
            assert(offset_sum(offset_row(elfs@, idx as int)[j as int], recorded_size(elfs@[idx as int], j as int), j as int) <= u32::MAX);
            let v: u32 = if j == 1 {
                let x: u32 = prev + size + 3;
                assert((x >> 2u32) << 2u32 == (x / 4) * 4) by (bit_vector);
                (x >> 2) << 2
            } else {
                prev + size
            };
            next_offsets.push(v);
            j = j + 1;
        }
        return_data.push(next_offsets);
        idx = idx + 1;
    }
    return_data
}

/// Whether `calculate_offsets` can run on `elfs` (see `offsets_computable`):
/// the rows are computed in turn and each sum checked before it is taken.
pub fn offsets_possible(elfs: &Vec<Elf>) -> (b: bool)
    ensures
        b == offsets_computable(elfs@),
{
    if elfs.len() == 0 {
        return true;
    }
    let mut row: Vec<u32> = vec![0, 0, 0, 0, 0, 0];
    let mut idx: usize = 0;
    while idx < elfs.len() - 1
        invariant
            elfs@.len() > 0,
            idx + 1 <= elfs@.len(),
            row@.len() == 6,
            forall|j: int| 0 <= j < 6 ==> #[trigger] row@[j] == offset_row(elfs@, idx as int)[j],
            forall|i: int| 0 <= i < idx ==> {
                &&& (#[trigger] elfs@[i]).section_header_table@.len() >= 7
                &&& forall|j: int| 0 <= j < 6 ==> offset_sum(#[trigger] offset_row(elfs@, i)[j], recorded_size(elfs@[i], j), j) <= u32::MAX
            },
        decreases elfs.len() - idx,
    {
        let elf = &elfs[idx];
        if elf.section_header_table.len() < 7 {
            return false;
        }
        let mut next: Vec<u32> = Vec::new();
        let mut j: usize = 0;
        while j < 6
            invariant
                idx + 1 < elfs@.len(),
                *elf == elfs@[idx as int],
                elf.section_header_table@.len() >= 7,
                row@.len() == 6,
                forall|jj: int| 0 <= jj < 6 ==> #[trigger] row@[jj] == offset_row(elfs@, idx as int)[jj],
                j <= 6,
                next@.len() == j,
                forall|jj: int| 0 <= jj < j ==> offset_sum(#[trigger] offset_row(elfs@, idx as int)[jj], recorded_size(elfs@[idx as int], jj), jj) <= u32::MAX,
                forall|jj: int| 0 <= jj < j ==> #[trigger] next@[jj] == offset_row(elfs@, idx + 1)[jj],
            decreases 6 - j,
        {
            let prev: u64 = row[j] as u64;
            let size: u64 = elf.section_header_table[j + 1].sh_size as u64;
            assert(row@[j as int] == offset_row(elfs@, idx as int)[j as int]);
            let sum: u64 = if j == 1 { prev + size + 3 } else { prev + size };
            if sum > 0xFFFF_FFFF {
                return false;
            }
            let x: u32 = sum as u32;
            let v: u32 = if j == 1 {
                assert((x >> 2u32) << 2u32 == (x / 4) * 4) by (bit_vector);
                (x >> 2) << 2
            } else {
                x
            };
            next.push(v);
            j = j + 1;
        }
        row = next;
        idx = idx + 1;
    }
    true
}

} // verus!
