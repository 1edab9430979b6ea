//! Concatenation of the files' sections, section by section.
use vstd::prelude::*;

use crate::elf_def::{section_views, Elf};
use crate::elf_utils::{append_bytes, append_zeros};

verus! {

/// `n` zero bytes.
pub open spec fn zeros(n: int) -> Seq<u8> {
    Seq::new(n as nat, |i: int| 0u8)
}

/// The padding after file `i`'s .data, which follows `before` bytes of joined
/// .data: up to the next file's .data offset (none after the last file).
pub open spec fn data_pad(elfs: Seq<Elf>, offsets: Seq<Seq<u32>>, i: int, before: int) -> int {
    if i < elfs.len() - 1 {
        offsets[i + 1][1] - (before + section_views(elfs[i])[1].len())
    } else {
        0
    }
}

/// Section `s` of the first `k` files, concatenated; .data (section 1) is
/// padded after each file so that the next file's .data starts at its offset.
pub open spec fn joined(elfs: Seq<Elf>, offsets: Seq<Seq<u32>>, s: int, k: int) -> Seq<u8>
    decreases k,
{
    if k <= 0 {
        Seq::empty()
    } else {
        joined(elfs, offsets, s, k - 1) + section_views(elfs[k - 1])[s]
            + if s == 1 {
                zeros(data_pad(elfs, offsets, k - 1, joined(elfs, offsets, s, k - 1).len() as int))
            } else {
                Seq::empty()
            }
    }
}

/// Whether the sections can be joined: `offsets` has a first row, every file has
/// each section that row counts, and when .data is joined every row has its
/// .data offset and the .data joined up to each file but the last, with that
/// file's, fits before the next one's .data offset.
pub open spec fn consolidatable(elfs: Seq<Elf>, offsets: Seq<Seq<u32>>) -> bool {
    &&& offsets.len() >= 1
    &&& forall|i: int| 0 <= i < elfs.len() ==> (#[trigger] elfs[i]).sections@.len() >= offsets[0].len()
    &&& offsets[0].len() > 1 ==> {
        &&& elfs.len() <= offsets.len()
        &&& forall|i: int| 0 <= i < offsets.len() ==> (#[trigger] offsets[i]).len() > 1
        &&& forall|i: int| 0 <= i < elfs.len() - 1 ==>
            joined(elfs, offsets, 1, i).len() + section_views(#[trigger] elfs[i])[1].len() <= offsets[i + 1][1]
    }
}

/// Joins each section of the files (as many sections as the first row of
/// `offsets` has), padding .data so each file but the first has its .data
/// start at its offset.
pub fn consolidate_sections(elfs: Vec<Elf>, offsets: &Vec<Vec<u32>>) -> (joined_sections: Vec<Vec<u8>>)
    requires
        consolidatable(elfs@, offsets.deep_view()),
    ensures
        joined_sections@.len() == offsets.deep_view()[0].len(),
        forall|s: int| 0 <= s < joined_sections@.len() ==>
            (#[trigger] joined_sections@[s])@ == joined(elfs@, offsets.deep_view(), s, elfs@.len() as int),
        offsets.deep_view()[0].len() > 1 ==> forall|i: int| 0 < i < elfs@.len() ==>
            #[trigger] joined(elfs@, offsets.deep_view(), 1, i).len() == offsets.deep_view()[i][1],
{
    proof {
        if offsets.deep_view()[0].len() > 1 {
            assert forall|i: int| 0 < i < elfs@.len() implies
                #[trigger] joined(elfs@, offsets.deep_view(), 1, i).len() == offsets.deep_view()[i][1] by {
                assert(elfs@[i - 1] == elfs@[i - 1]);
            }
        }
    }
    let ghost offs = offsets.deep_view();
    let mut return_vector: Vec<Vec<u8>> = Vec::new();
    let count = offsets[0].len();
    assert(count == offs[0].len());
    let mut current_section: usize = 0;
    while current_section < count
        invariant
            offs == offsets.deep_view(),
            count == offs[0].len(),
            consolidatable(elfs@, offs),
            current_section <= count,
            return_vector@.len() == current_section,
            forall|s: int| 0 <= s < current_section ==>
                (#[trigger] return_vector@[s])@ == joined(elfs@, offs, s, elfs@.len() as int),
        decreases count - current_section,
    {
        let mut out: Vec<u8> = Vec::new();
        let mut i: usize = 0;
        while i < elfs.len()
            invariant
                offs == offsets.deep_view(),
                count == offs[0].len(),
                consolidatable(elfs@, offs),
                current_section < count,
                i <= elfs@.len(),
                out@ == joined(elfs@, offs, current_section as int, i as int),
            decreases elfs.len() - i,
        {
            assert(elfs@[i as int].sections@.len() >= count);
            assert(section_views(elfs@[i as int])[current_section as int] == elfs@[i as int].sections@[current_section as int]@);
            append_bytes(&mut out, &elfs[i].sections[current_section]);
            if current_section == 1 {
                let pad: usize = if i != elfs.len() - 1 {
                    assert(offsets@[i + 1]@.len() > 1);
                    assert(offs[i + 1] == offsets@[i + 1]@);
                    assert(elfs@[i as int] == elfs@[i as int]);
                    offsets[i + 1][1] as usize - out.len()
                } else {
                    0
                };
                append_zeros(&mut out, pad);
            } else {
                assert(out@ + Seq::<u8>::empty() =~= out@);
            }
            i = i + 1;
        }
        return_vector.push(out);
        current_section = current_section + 1;
    }
    return_vector
}

/// Whether `consolidate_sections` can run on `elfs` and `offsets` (see `consolidatable`).
pub fn consolidation_possible(elfs: &Vec<Elf>, offsets: &Vec<Vec<u32>>) -> (b: bool)
    ensures
        b == consolidatable(elfs@, offsets.deep_view()),
{
    let ghost offs = offsets.deep_view();
    if offsets.len() < 1 {
        return false;
    }
    assert(offs[0] == offsets@[0]@);
    let count: usize = offsets[0].len();
    let mut i: usize = 0;
    while i < elfs.len()
        invariant
            offs == offsets.deep_view(),
            offs.len() >= 1,
            count == offs[0].len(),
            i <= elfs@.len(),
            forall|k: int| 0 <= k < i ==> (#[trigger] elfs@[k]).sections@.len() >= offs[0].len(),
        decreases elfs.len() - i,
    {
        if elfs[i].sections.len() < count {
            return false;
        }
        i = i + 1;
    }
    if count <= 1 {
        return true;
    }
    let mut r: usize = 0;
    while r < offsets.len()
        invariant
            offs == offsets.deep_view(),
            offs.len() >= 1,
            count == offs[0].len(),
            count > 1,
            forall|k: int| 0 <= k < elfs@.len() ==> (#[trigger] elfs@[k]).sections@.len() >= offs[0].len(),
            r <= offs.len(),
            forall|k: int| 0 <= k < r ==> (#[trigger] offs[k]).len() > 1,
        decreases offsets.len() - r,
    {
        assert(offs[r as int] == offsets@[r as int]@);
        if offsets[r].len() <= 1 {
            return false;
        }
        r = r + 1;
    }
    if elfs.len() > offsets.len() {
        return false;
    }
    if elfs.len() == 0 {
        return true;
    }
    let mut i: usize = 0;
    let mut before: usize = 0;
    while i < elfs.len() - 1
        invariant
            offs == offsets.deep_view(),
            offs.len() >= 1,
            count == offs[0].len(),
            count > 1,
            offs.len() == offsets@.len(),
            elfs@.len() > 0,
            elfs@.len() <= offs.len(),
            forall|k: int| 0 <= k < elfs@.len() ==> (#[trigger] elfs@[k]).sections@.len() >= offs[0].len(),
            forall|k: int| 0 <= k < offs.len() ==> (#[trigger] offs[k]).len() > 1,
            i <= elfs@.len() - 1,
            before == joined(elfs@, offs, 1, i as int).len(),
            forall|k: int| 0 <= k < i ==>
                joined(elfs@, offs, 1, k).len() + section_views(#[trigger] elfs@[k])[1].len() <= offs[k + 1][1],
        decreases elfs.len() - i,
    {
        assert(offs[i + 1] == offsets@[i + 1]@);
        assert(elfs@[i as int].sections@.len() > 1);
        assert(section_views(elfs@[i as int])[1] == elfs@[i as int].sections@[1]@);
        let next: usize = offsets[i + 1][1] as usize;
        let size: usize = elfs[i].sections[1].len();
        if before > next || size > next - before {
            assert(joined(elfs@, offs, 1, i as int).len() + section_views(elfs@[i as int])[1].len() > offs[i + 1][1]);
            return false;
        }
        assert(joined(elfs@, offs, 1, i + 1).len() == offs[i + 1][1]);
        before = next;
        i = i + 1;
    }
    true
}

} // verus!
