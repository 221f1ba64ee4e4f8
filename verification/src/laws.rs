use vstd::prelude::*;
use crate::bytes::{rd16, rd32};
use crate::executable::{parse_spec, ArchSpec, BinFormat, BinSpec, ParseError};
use crate::elf::is_elf_magic;
use crate::macho::{
    is_thin_magic, is_fat_magic, macho_parse, macho_raw_libs, fat_parse, fat_arches, fat_entry,
    lemma_fat_arches_len, MH_MAGIC, MH_MAGIC_64, MH_CIGAM_64,
};
use crate::pe::{is_mz_magic, PE_OPT_MAGIC_64};

verus! {

/// Every successful parse reports at least one architecture: ELF, PE and
/// thin Mach-O yield exactly one record, and a fat Mach-O yields one per
/// architecture-table entry, of which a well-formed fat header has at least
/// one.
pub proof fn lemma_parse_nonempty(s: Seq<u8>)
    ensures
        parse_spec(s) matches Ok(b) ==> b.arches.len() > 0,
{
    if is_elf_magic(s) {
    } else if is_thin_magic(s) {
    } else if is_fat_magic(s) {
        if fat_parse(s) is Ok {
            lemma_fat_arches_len(s, 0, rd32(s, 4, false) as int);
        }
    } else {
    }
}

/// A buffer that begins with the ELF, thin Mach-O or DOS-stub magic never
/// parses to an unsupported-format error: it yields a result or a malformed
/// error. (A fat Mach-O may in addition report an unsupported archive
/// member.)
pub proof fn lemma_magic_failure_is_malformed(s: Seq<u8>)
    ensures
        is_elf_magic(s) || is_thin_magic(s) || is_mz_magic(s) ==> (parse_spec(s) is Ok
            || parse_spec(s) == Err::<BinSpec, ParseError>(ParseError::Malformed)),
{
}

/// One architecture's signature points back into the buffer: its bytes are
/// exactly the bytes of the original buffer at its offset.
pub open spec fn sig_matches_buffer(s: Seq<u8>, a: ArchSpec) -> bool {
    &&& 0 <= a.sig.offset
    &&& a.sig.offset + a.sig.bytes.len() <= s.len()
    &&& a.sig.bytes == s.subrange(a.sig.offset, a.sig.offset + a.sig.bytes.len())
}

/// Within a successful fat parse, every record's signature holds the bytes
/// at the record's file-level offset.
proof fn lemma_fat_arches_sig(s: Seq<u8>, i: int, n: int)
    ensures
        fat_arches(s, i, n) matches Ok(r) ==> forall|j: int|
            0 <= j < r.len() ==> sig_matches_buffer(s, #[trigger] r[j]),
    decreases n - i,
{
    reveal(fat_entry);
    if i < n {
        lemma_fat_arches_sig(s, i + 1, n);
        match fat_entry(s, i) {
            Ok(a) => {
                let e = 8 + i * 20;
                let off = rd32(s, e + 8, false) as int;
                let size = rd32(s, e + 12, false) as int;
                let slice = s.subrange(off, off + size);
                assert(slice.subrange(0, 4) =~= s.subrange(off, off + 4));
                assert(sig_matches_buffer(s, a));
            },
            Err(_) => {},
        }
    }
}

/// Round trip: every signature of a successful parse, the outer one and the
/// per-architecture ones, holds exactly the bytes that stand at its offset
/// in the parsed buffer.
pub proof fn lemma_signature_roundtrip(s: Seq<u8>)
    ensures
        parse_spec(s) matches Ok(b) ==> {
            &&& forall|i: int|
                0 <= i < b.arches.len() ==> sig_matches_buffer(s, #[trigger] b.arches[i])
            &&& b.outer matches Some(o) ==> o.offset == 0 && o.bytes == s.subrange(
                0,
                o.bytes.len() as int,
            )
        },
{
    if is_elf_magic(s) {
    } else if is_thin_magic(s) {
    } else if is_fat_magic(s) {
        if fat_parse(s) is Ok {
            lemma_fat_arches_sig(s, 0, rd32(s, 4, false) as int);
        }
    } else if is_mz_magic(s) {
    } else {
    }
}

/// Mach-O dependency extraction: the dependencies of a thin Mach-O record
/// are its raw library list without the first entry — the image's
/// self-referential install-name entry is never reported as a dependency.
pub proof fn lemma_macho_deps_skip_self(s: Seq<u8>, sig_off: int)
    ensures
        macho_parse(s, sig_off) matches Ok(a) ==> ({
            let m = rd32(s, 0, true);
            let is64 = m == MH_MAGIC_64 || m == MH_CIGAM_64;
            let le = m == MH_MAGIC || m == MH_MAGIC_64;
            let hsz = if is64 { 32int } else { 28int };
            let ncmds = rd32(s, 16, le) as int;
            let sizeofcmds = rd32(s, 20, le) as int;
            let libs = macho_raw_libs(s, le, hsz, hsz + sizeofcmds, ncmds);
            &&& libs is Some
            &&& libs.unwrap().len() >= 1
            &&& a.deps == libs.unwrap().skip(1)
            &&& a.deps.len() == libs.unwrap().len() - 1
        }),
{
}

/// PE classification: a successful parse of a DOS-stub buffer has exactly
/// one record; its format follows the optional-header magic, the outer
/// signature sits at offset 0, and the slice signature sits at the byte
/// offset recorded in the DOS stub's PE-header pointer field.
pub proof fn lemma_pe_classification(s: Seq<u8>)
    ensures
        is_mz_magic(s) ==> (parse_spec(s) matches Ok(b) ==> ({
            let pp = rd32(s, 0x3c, true) as int;
            let m = rd16(s, pp + 24, true);
            &&& b.arches.len() == 1
            &&& b.outer matches Some(o) && o.offset == 0
            &&& b.arches[0].sig.offset == pp
            &&& b.arches[0].format == (if m == PE_OPT_MAGIC_64 {
                BinFormat::Pe32Plus
            } else {
                BinFormat::Pe32
            })
        })),
{
    if is_mz_magic(s) && is_thin_magic(s) {
        let m = rd32(s, 0, true);
        assert(false);
    }
}

/// Within a successful fat parse, the record at every index is exactly what
/// the fat table entry at that index parses to.
proof fn lemma_fat_arches_entries(s: Seq<u8>, i: int, n: int)
    ensures
        fat_arches(s, i, n) matches Ok(r) ==> forall|j: int|
            0 <= j < r.len() ==> fat_entry(s, i + j) == Ok::<ArchSpec, ParseError>(#[trigger] r[j]),
    decreases n - i,
{
    if i < n {
        lemma_fat_arches_entries(s, i + 1, n);
        match fat_arches(s, i, n) {
            Ok(r) => {
                match fat_entry(s, i) {
                    Ok(a) => {
                        match fat_arches(s, i + 1, n) {
                            Ok(rest) => {
                                assert forall|j: int| 0 <= j < r.len() implies fat_entry(s, i + j)
                                    == Ok::<ArchSpec, ParseError>(#[trigger] r[j]) by {
                                    if j > 0 {
                                        assert(r[j] == rest[j - 1]);
                                    }
                                }
                            },
                            Err(_) => {},
                        }
                    },
                    Err(_) => {},
                }
            },
            Err(_) => {},
        }
    }
}

/// Fat Mach-O ordering: a successful fat parse has exactly one record per
/// architecture-table entry, and the record at index `i` is the parse of the
/// entry at index `i` — on-disk table order is preserved.
pub proof fn lemma_fat_slice_order(s: Seq<u8>)
    ensures
        is_fat_magic(s) ==> (parse_spec(s) matches Ok(b) ==> ({
            let n = rd32(s, 4, false) as int;
            &&& b.arches.len() == n
            &&& forall|i: int|
                0 <= i < n ==> fat_entry(s, i) == Ok::<ArchSpec, ParseError>(#[trigger] b.arches[i])
        })),
{
    if is_fat_magic(s) && parse_spec(s) is Ok {
        let n = rd32(s, 4, false) as int;
        lemma_fat_arches_len(s, 0, n);
        lemma_fat_arches_entries(s, 0, n);
    }
}

} // verus!
