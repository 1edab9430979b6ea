//! Checks that each input file is a relocatable object this linker can read.
use vstd::prelude::*;

use crate::elf_def::{Elf, Elf32Header};
use crate::text::{append_radix, dec_chars};

verus! {

/// The first problem with an e_ident, if any: the magic bytes, then the class
/// (byte 4), the data encoding (byte 5) and the OS ABI (byte 7). The version
/// byte is not checked.
pub open spec fn e_ident_error(id: Seq<u8>) -> Option<Seq<char>> {
    if !(id[0] == 0x7F && id[1] == 0x45 && id[2] == 0x4C && id[3] == 0x46) {
        Some("Magic bytes did not match for ELF format (EI_MAG field expected 7f454c46)."@)
    } else if id[4] != 1 {
        Some("NAME currently only supports 32-bit binaries (EI_CLASS field expected 1)."@)
    } else if id[5] != 2 {
        Some("NAME only supports big-endian data (EI_DATA field expected 2)."@)
    } else if id[7] != 0 {
        Some("OSABI expected 0"@)
    } else {
        None
    }
}

/// The message for a section layout other than the expected one.
pub open spec fn layout_message(field: Seq<char>, expected: nat) -> Seq<char> {
    "Linker expected a very specific section layout. If you're making your own ELF, refer to documentation (bad "@
        + field + " field, expected "@ + dec_chars(expected) + ")."@
}

/// The first problem with a relocatable file's header, if any, in the order the checks are made.
pub open spec fn header_error(h: Elf32Header) -> Option<Seq<char>> {
    if e_ident_error(h.e_ident@) is Some {
        e_ident_error(h.e_ident@)
    } else if h.e_type != 1 {
        Some("Linker expected a relocatable object file (1), found e_type field "@ + dec_chars(h.e_type as nat) + "."@)
    } else if h.e_machine != 8 {
        Some("NAME only supports big-endian MIPS (8), received "@ + dec_chars(h.e_machine as nat) + "."@)
    } else if h.e_phoff != 52 {
        Some("Non-compliant file header size detected. Ensure 32-bit format."@)
    } else if h.e_flags != 0x30000021 {
        Some("Linker expected flags 805306401, received "@ + dec_chars(h.e_flags as nat) + "."@)
    } else if h.e_ehsize != 52 {
        Some("Non-compliant file header size detected. Ensure 32-bit format."@)
    } else if h.e_phentsize != 32 {
        Some("Non-compliant program header entry size detected. Ensure 32-bit format."@)
    } else if h.e_phnum != 2 {
        Some(layout_message("e_phnum"@, 2))
    } else if h.e_shentsize != 40 {
        Some("Non-compliant section header entry size detected. Ensure 32-bit format."@)
    } else if h.e_shnum != 8 {
        Some(layout_message("e_shnum"@, 8))
    } else if h.e_shstrndx != 7 {
        Some(layout_message("e_shstrndx"@, 7))
    } else {
        None
    }
}

/// Checks the identification bytes: magic, class, data encoding and OS ABI.
pub fn check_e_ident(e_ident: &[u8]) -> (r: Result<(), String>)
    requires
        e_ident@.len() >= 8,
    ensures
        match e_ident_error(e_ident@) {
            None => r is Ok,
            Some(m) => r matches Err(e) && e@ == m,
        },
{
    if !(e_ident[0] == 0x7F && e_ident[1] == 0x45 && e_ident[2] == 0x4C && e_ident[3] == 0x46) {
        proof { reveal_strlit("Magic bytes did not match for ELF format (EI_MAG field expected 7f454c46)."); }
        return Err("Magic bytes did not match for ELF format (EI_MAG field expected 7f454c46).".to_string());
    }
    if e_ident[4] != 1 {
        proof { reveal_strlit("NAME currently only supports 32-bit binaries (EI_CLASS field expected 1)."); }
        return Err("NAME currently only supports 32-bit binaries (EI_CLASS field expected 1).".to_string());
    }
    if e_ident[5] != 2 {
        proof { reveal_strlit("NAME only supports big-endian data (EI_DATA field expected 2)."); }
        return Err("NAME only supports big-endian data (EI_DATA field expected 2).".to_string());
    }
    // The version byte (6) does not matter.
    if e_ident[7] != 0 {
        proof { reveal_strlit("OSABI expected 0"); }
        return Err("OSABI expected 0".to_string());
    }
    Ok(())
}

/// `prefix`, the decimal `n`, then `suffix`.
fn numbered(prefix: &str, n: u64, suffix: &str) -> (s: String)
    ensures
        s@ == prefix@ + dec_chars(n as nat) + suffix@,
{
    let mut s = String::new();
    s.append(prefix);
    append_radix(&mut s, n, 10);
    s.append(suffix);
    s
}

/// The message for a bad `field` in the section layout.
fn layout_error(field: &str, expected: u64) -> (s: String)
    ensures
        s@ == layout_message(field@, expected as nat),
{
    let mut t = String::new();
    t.append("Linker expected a very specific section layout. If you're making your own ELF, refer to documentation (bad ");
    t.append(field);
    t.append(" field, expected ");
    append_radix(&mut t, expected, 10);
    t.append(").");
    proof {
        reveal_strlit("Linker expected a very specific section layout. If you're making your own ELF, refer to documentation (bad ");
        reveal_strlit(" field, expected ");
        reveal_strlit(").");
    }
    t
}

/// Checks that `et_rel` is a relocatable, big-endian, 32-bit MIPS object with
/// the expected header sizes and section layout; the first failed check gives the error.
pub fn relocatable_conformity_check(et_rel: &Elf) -> (r: Result<(), String>)
    ensures
        match header_error(et_rel.file_header) {
            None => r is Ok,
            Some(m) => r matches Err(e) && e@ == m,
        },
{
    let fh = &et_rel.file_header;
    if let Err(e) = check_e_ident(&fh.e_ident) {
        return Err(e);
    }
    if fh.e_type != 1 {
        let m = numbered("Linker expected a relocatable object file (1), found e_type field ", fh.e_type as u64, ".");
        proof { reveal_strlit("Linker expected a relocatable object file (1), found e_type field "); reveal_strlit("."); }
        return Err(m);
    }
    if fh.e_machine != 8 {
        let m = numbered("NAME only supports big-endian MIPS (8), received ", fh.e_machine as u64, ".");
        proof { reveal_strlit("NAME only supports big-endian MIPS (8), received "); reveal_strlit("."); }
        return Err(m);
    }
    if fh.e_phoff != 52 {
        proof { reveal_strlit("Non-compliant file header size detected. Ensure 32-bit format."); }
        return Err("Non-compliant file header size detected. Ensure 32-bit format.".to_string());
    }
    if fh.e_flags != 0x30000021 {
        let m = numbered("Linker expected flags 805306401, received ", fh.e_flags as u64, ".");
        proof { reveal_strlit("Linker expected flags 805306401, received "); reveal_strlit("."); }
        return Err(m);
    }
    if fh.e_ehsize != 52 {
        proof { reveal_strlit("Non-compliant file header size detected. Ensure 32-bit format."); }
        return Err("Non-compliant file header size detected. Ensure 32-bit format.".to_string());
    }
    if fh.e_phentsize != 32 {
        proof { reveal_strlit("Non-compliant program header entry size detected. Ensure 32-bit format."); }
        return Err("Non-compliant program header entry size detected. Ensure 32-bit format.".to_string());
    }
    if fh.e_phnum != 2 {
        proof { reveal_strlit("e_phnum"); }
        return Err(layout_error("e_phnum", 2));
    }
    if fh.e_shentsize != 40 {
        proof { reveal_strlit("Non-compliant section header entry size detected. Ensure 32-bit format."); }
        return Err("Non-compliant section header entry size detected. Ensure 32-bit format.".to_string());
    }
    if fh.e_shnum != 8 {
        proof { reveal_strlit("e_shnum"); }
        return Err(layout_error("e_shnum", 8));
    }
    if fh.e_shstrndx != 7 {
        proof { reveal_strlit("e_shstrndx"); }
        return Err(layout_error("e_shstrndx", 7));
    }
    Ok(())
}

/// The list of problems of `elfs` (each file's first), one "- message" line each.
pub open spec fn error_lines(elfs: Seq<Elf>) -> Seq<char>
    decreases elfs.len(),
{
    if elfs.len() == 0 {
        Seq::empty()
    } else {
        error_lines(elfs.drop_last()) + match header_error(elfs.last().file_header) {
            Some(m) => "- "@ + m + "\n"@,
            None => Seq::empty(),
        }
    }
}

/// Whether every file of `elfs` passes the checks.
pub open spec fn all_conform(elfs: Seq<Elf>) -> bool {
    forall|i: int| 0 <= i < elfs.len() ==> header_error((#[trigger] elfs[i]).file_header) is None
}

/// Checks every file; when any fails, the error lists each failing file's problem.
pub fn conformity_check(elfs: &Vec<Elf>) -> (r: Result<(), String>)
    ensures
        all_conform(elfs@) ==> r is Ok,
        !all_conform(elfs@) ==> (r matches Err(e) && e@ == "Conformity checks failed:\n "@ + error_lines(elfs@)),
{
    let mut lines = String::new();
    let mut any = false;
    let mut i: usize = 0;
    while i < elfs.len()
        invariant
            i <= elfs@.len(),
            lines@ == error_lines(elfs@.subrange(0, i as int)),
            any == !all_conform(elfs@.subrange(0, i as int)),
        decreases elfs.len() - i,
    {
        let ghost sub = elfs@.subrange(0, i + 1);
        assert(sub.drop_last() =~= elfs@.subrange(0, i as int));
        match relocatable_conformity_check(&elfs[i]) {
            Ok(_) => {},
            Err(e) => {
                lines.append("- ");
                lines.append(e.as_str());
                lines.append("\n");
                proof { reveal_strlit("- "); reveal_strlit("\n"); }
                any = true;
            },
        }
        proof {
            if !all_conform(elfs@.subrange(0, i as int)) {
                let j = choose|j: int| 0 <= j < i && !(header_error((#[trigger] elfs@.subrange(0, i as int)[j]).file_header) is None);
                assert(sub[j] == elfs@.subrange(0, i as int)[j]);
            }
            if all_conform(elfs@.subrange(0, i as int)) && header_error(elfs@[i as int].file_header) is None {
                assert forall|j: int| 0 <= j < i + 1 implies header_error((#[trigger] sub[j]).file_header) is None by {
                    if j < i { assert(sub[j] == elfs@.subrange(0, i as int)[j]); }
                }
            }
            if !(header_error(elfs@[i as int].file_header) is None) {
                assert(sub[i as int] == elfs@[i as int]);
            }
        }
        i = i + 1;
    }
    assert(elfs@.subrange(0, elfs.len() as int) =~= elfs@);
    if any {
        let mut m = String::new();
        m.append("Conformity checks failed:\n ");
        m.append(lines.as_str());
        proof { reveal_strlit("Conformity checks failed:\n "); }
        Err(m)
    } else {
        Ok(())
    }
}

} // verus!
