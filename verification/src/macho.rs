use vstd::prelude::*;
use vstd::slice::slice_to_vec;
use vstd::string::StringExecFns;
use crate::bytes::{rd32, read_u32_at, cstr_at, read_cstr};
use crate::magic::{MagicBytesMeta, SigSpec};
use crate::executable::{ArchSpec, BinFormat, Binary, BinaryArch, BinSpec, ParseError};
use crate::arch::macho_arch_of;
use crate::arch::macho_arch_name;

verus! {

pub const MH_MAGIC: u32 = 0xFEED_FACE;
pub const MH_CIGAM: u32 = 0xCEFA_EDFE;
pub const MH_MAGIC_64: u32 = 0xFEED_FACF;
pub const MH_CIGAM_64: u32 = 0xCFFA_EDFE;
pub const FAT_MAGIC: u32 = 0xCAFE_BABE;
pub const FAT_CIGAM: u32 = 0xBEBA_FECA;
pub const LC_LOAD_DYLIB: u32 = 0x0000_000C;
pub const LC_ID_DYLIB: u32 = 0x0000_000D;
pub const LC_LAZY_LOAD_DYLIB: u32 = 0x0000_0020;
pub const LC_LOAD_WEAK_DYLIB: u32 = 0x8000_0018;
pub const LC_REEXPORT_DYLIB: u32 = 0x8000_001F;
pub const LC_LOAD_UPWARD_DYLIB: u32 = 0x8000_0023;

/// The buffer begins with a thin Mach-O magic, of either width and either
/// byte order.
pub open spec fn is_thin_magic(s: Seq<u8>) -> bool {
    s.len() >= 4 && {
        let m = rd32(s, 0, true);
        m == MH_MAGIC || m == MH_MAGIC_64 || m == MH_CIGAM || m == MH_CIGAM_64
    }
}

/// The buffer begins with the fat magic as it stands on disk.
pub open spec fn is_fat_magic(s: Seq<u8>) -> bool {
    s.len() >= 4 && s[0] == 0xca && s[1] == 0xfe && s[2] == 0xba && s[3] == 0xbe
}

/// The buffer begins with the archive magic.
pub open spec fn is_archive_magic(s: Seq<u8>) -> bool {
    s.len() >= 8 && s[0] == 0x21 && s[1] == 0x3c && s[2] == 0x61 && s[3] == 0x72 && s[4] == 0x63
        && s[5] == 0x68 && s[6] == 0x3e && s[7] == 0x0a
}

/// Load commands that record a library reference.
pub open spec fn is_dylib_load_cmd(cmd: u32) -> bool {
    cmd == LC_LOAD_DYLIB || cmd == LC_LOAD_WEAK_DYLIB || cmd == LC_REEXPORT_DYLIB || cmd
        == LC_LOAD_UPWARD_DYLIB || cmd == LC_LAZY_LOAD_DYLIB
}

/// Walks `n` load commands in `[off, end)`: the library names referenced by
/// dylib-load commands in command order, and the image's own install name
/// from the last `LC_ID_DYLIB` command, when one exists. Nothing when a
/// command or a name is truncated or invalid.
pub open spec fn scan_cmds(s: Seq<u8>, le: bool, off: int, end: int, n: int) -> Option<
    (Seq<Seq<char>>, Option<Seq<char>>),
>
    decreases n,
{
    if n <= 0 {
        Some((Seq::empty(), None))
    } else if off + 8 > end {
        None
    } else {
        let cmd = rd32(s, off, le);
        let csz = rd32(s, off + 4, le) as int;
        if csz < 8 || off + csz > end {
            None
        } else {
            let rest = scan_cmds(s, le, off + csz, end, n - 1);
            if is_dylib_load_cmd(cmd) || cmd == LC_ID_DYLIB {
                if csz < 12 {
                    None
                } else {
                    let noff = rd32(s, off + 8, le) as int;
                    match cstr_at(s, off + noff, off + csz) {
                        None => None,
                        Some(nm) => match rest {
                            None => None,
                            Some(pr) => {
                                if cmd == LC_ID_DYLIB {
                                    Some((pr.0, if pr.1 is Some { pr.1 } else { Some(nm) }))
                                } else {
                                    Some((seq![nm] + pr.0, pr.1))
                                }
                            },
                        },
                    }
                }
            } else {
                rest
            }
        }
    }
}

/// The raw library list of a Mach-O image: the self-referential install-name
/// entry first, then every referenced library in command order.
pub open spec fn macho_raw_libs(s: Seq<u8>, le: bool, off: int, end: int, n: int) -> Option<
    Seq<Seq<char>>,
> {
    match scan_cmds(s, le, off, end, n) {
        None => None,
        Some(pr) => Some(
            seq![
                match pr.1 {
                    Some(id) => id,
                    None => "self"@,
                },
            ] + pr.0,
        ),
    }
}

/// What parsing a thin Mach-O slice yields: one record whose architecture
/// follows the CPU-type table, whose dependencies are the raw library list
/// without its leading self entry, and whose signature holds the four magic
/// bytes of the slice at offset `sig_off`.
pub open spec fn macho_parse(s: Seq<u8>, sig_off: int) -> Result<ArchSpec, ParseError> {
    if s.len() < 4 {
        Err(ParseError::Malformed)
    } else {
        let m = rd32(s, 0, true);
        let is64 = m == MH_MAGIC_64 || m == MH_CIGAM_64;
        let le = m == MH_MAGIC || m == MH_MAGIC_64;
        let hsz = if is64 { 32int } else { 28int };
        if s.len() < hsz {
            Err(ParseError::Malformed)
        } else {
            let cputype = rd32(s, 4, le);
            let ncmds = rd32(s, 16, le) as int;
            let sizeofcmds = rd32(s, 20, le) as int;
            if hsz + sizeofcmds > s.len() {
                Err(ParseError::Malformed)
            } else {
                match macho_raw_libs(s, le, hsz, hsz + sizeofcmds, ncmds) {
                    None => Err(ParseError::Malformed),
                    Some(libs) => Ok(
                        ArchSpec {
                            format: BinFormat::MachO,
                            arch: macho_arch_of(cputype),
                            deps: libs.skip(1),
                            sig: SigSpec { offset: sig_off, bytes: s.subrange(0, 4) },
                        },
                    ),
                }
            }
        }
    }
}

/// The dependency list that a raw Mach-O library list yields: every entry
/// after the first, in order. The first entry is the image's self-referential
/// install-name entry, not a dependency.
pub fn macho_dependencies(libs: &Vec<String>) -> (r: Vec<String>)
    ensures
        libs@.len() >= 1 ==> r.deep_view() == libs.deep_view().skip(1),
        libs@.len() == 0 ==> r.deep_view() == Seq::<Seq<char>>::empty(),
{
    let mut out: Vec<String> = Vec::new();
    let mut i: usize = 1;
    while i < libs.len()
        invariant
            1 <= i,
            libs@.len() >= 1 ==> i <= libs@.len(),
            libs@.len() >= 1 ==> out.deep_view() == libs.deep_view().subrange(1, i as int),
            libs@.len() == 0 ==> out.deep_view() == Seq::<Seq<char>>::empty(),
        decreases libs@.len() - i,
    {
        let ghost old_deep = out.deep_view();
        let name = libs[i].clone();
        out.push(name);
        proof {
            assert(out.deep_view() =~~= old_deep.push(libs@[i as int]@));
            assert(old_deep.push(libs@[i as int]@) =~~= libs.deep_view().subrange(
                1,
                i + 1 as int,
            ));
        }
        i = i + 1;
    }
    proof {
        if libs@.len() >= 1 {
            assert(libs.deep_view().subrange(1, libs@.len() as int) =~~= libs.deep_view().skip(1));
        }
    }
    out
}

/// Walks the load commands, collecting library references and the install
/// name.
fn scan_load_commands(s: &[u8], le: bool, hsz: u64, end: u64, ncmds: u32) -> (r: Result<
    (Vec<String>, Option<String>),
    ParseError,
>)
    requires
        hsz <= end <= s@.len(),
    ensures
        r matches Ok(pr) ==> scan_cmds(s@, le, hsz as int, end as int, ncmds as int) == Some(
            (
                pr.0.deep_view(),
                match pr.1 {
                    Some(id) => Some(id@),
                    None => None::<Seq<char>>,
                },
            ),
        ),
        r matches Err(e) ==> scan_cmds(s@, le, hsz as int, end as int, ncmds as int) is None && e
            == ParseError::Malformed,
{
    let _n: usize = s.len();
    let mut loads: Vec<String> = Vec::new();
    let mut id: Option<String> = None;
    let mut off: u64 = hsz;
    let mut k: u32 = 0;
    while k < ncmds
        invariant
            s@.len() <= u64::MAX,
            s@.len() <= usize::MAX,
            hsz <= off <= end <= s@.len(),
            0 <= k <= ncmds,
            ({
                let total = scan_cmds(s@, le, hsz as int, end as int, ncmds as int);
                let rem = scan_cmds(s@, le, off as int, end as int, (ncmds - k) as int);
                match rem {
                    None => total is None,
                    Some(pr) => total == Some(
                        (
                            loads.deep_view() + pr.0,
                            if pr.1 is Some {
                                pr.1
                            } else {
                                match id {
                                    Some(t) => Some(t@),
                                    None => None::<Seq<char>>,
                                }
                            },
                        ),
                    ),
                }
            }),
        decreases ncmds - k,
    {
        if 8 > end - off {
            return Err(ParseError::Malformed);
        }
        let cmd = read_u32_at(s, off, le);
        let csz32 = read_u32_at(s, off + 4, le);
        let csz: u64 = csz32 as u64;
        if csz < 8 || csz > end - off {
            return Err(ParseError::Malformed);
        }
        let is_load = cmd == LC_LOAD_DYLIB || cmd == LC_LOAD_WEAK_DYLIB || cmd
            == LC_REEXPORT_DYLIB || cmd == LC_LOAD_UPWARD_DYLIB || cmd == LC_LAZY_LOAD_DYLIB;
        if is_load || cmd == LC_ID_DYLIB {
            if csz < 12 {
                return Err(ParseError::Malformed);
            }
            let noff = read_u32_at(s, off + 8, le) as u64;
            if noff > csz {
                proof {
                    assert(cstr_at(s@, off + noff, off + csz) is None);
                }
                return Err(ParseError::Malformed);
            }
            let start: u64 = off + noff;
            let limit: u64 = off + csz;
            match read_cstr(s, start as usize, limit as usize) {
                None => {
                    return Err(ParseError::Malformed);
                },
                Some(t) => {
                    if cmd == LC_ID_DYLIB {
                        id = Some(t);
                    } else {
                        let ghost old_deep = loads.deep_view();
                        let ghost nm = t@;
                        loads.push(t);
                        proof {
                            assert(loads.deep_view() =~~= old_deep.push(nm));
                            let rest = scan_cmds(
                                s@,
                                le,
                                off + csz,
                                end as int,
                                (ncmds - k - 1) as int,
                            );
                            if rest is Some {
                                assert(old_deep + (seq![nm] + rest.unwrap().0) =~~= old_deep.push(
                                    nm,
                                ) + rest.unwrap().0);
                            }
                        }
                    }
                },
            }
        }
        k = k + 1;
        off = off + csz;
    }
    proof {
        let rem = scan_cmds(s@, le, off as int, end as int, 0);
        assert(rem == Some((Seq::<Seq<char>>::empty(), None::<Seq<char>>)));
        assert(loads.deep_view() + Seq::<Seq<char>>::empty() =~~= loads.deep_view());
    }
    Ok((loads, id))
}

/// Parses a thin Mach-O slice into its architecture record; `sig_offset` is
/// the file-level offset at which the slice begins.
pub fn parse_macho(s: &[u8], sig_offset: usize) -> (r: Result<BinaryArch, ParseError>)
    requires
        is_thin_magic(s@),
    ensures
        r matches Ok(a) ==> macho_parse(s@, sig_offset as int) == Ok::<_, ParseError>(a@)
            && a.wf(),
        r matches Err(e) ==> macho_parse(s@, sig_offset as int) == Err::<ArchSpec, _>(e),
{
    let len: usize = s.len();
    let len64: u64 = len as u64;
    let m = read_u32_at(s, 0, true);
    let is64 = m == MH_MAGIC_64 || m == MH_CIGAM_64;
    let le = m == MH_MAGIC || m == MH_MAGIC_64;
    let hsz: u64 = if is64 { 32 } else { 28 };
    if len64 < hsz {
        return Err(ParseError::Malformed);
    }
    let cputype = read_u32_at(s, 4, le);
    let ncmds = read_u32_at(s, 16, le);
    let sizeofcmds = read_u32_at(s, 20, le) as u64;
    if sizeofcmds > len64 - hsz {
        return Err(ParseError::Malformed);
    }
    let end: u64 = hsz + sizeofcmds;
    match scan_load_commands(s, le, hsz, end, ncmds) {
        Err(e) => Err(e),
        Ok((loads, id)) => {
            let mut raw: Vec<String> = Vec::new();
            let head = match id {
                Some(t) => t,
                None => String::from_str("self"),
            };
            let ghost head_spec = head@;
            raw.push(head);
            let mut rest = loads;
            let ghost loads_spec = rest.deep_view();
            raw.append(&mut rest);
            proof {
                assert(raw.deep_view() =~~= seq![head_spec] + loads_spec);
            }
            let deps = macho_dependencies(&raw);
            let arch = macho_arch_name(cputype);
            let sig_bytes = slice_to_vec(&s[0..4]);
            let magic_bytes = MagicBytesMeta::new(sig_offset, sig_bytes);
            let a = BinaryArch { magic_bytes, format: BinFormat::MachO, arch, dependencies: deps };
            proof {
                let libs = macho_raw_libs(s@, le, hsz as int, end as int, ncmds as int).unwrap();
                assert(libs =~~= raw.deep_view());
                assert(deps.deep_view() =~~= libs.skip(1));
                let target = ArchSpec {
                    format: BinFormat::MachO,
                    arch: macho_arch_of(cputype),
                    deps: libs.skip(1),
                    sig: SigSpec { offset: sig_offset as int, bytes: s@.subrange(0, 4) },
                };
                assert(a@ =~~= target);
                assert(macho_parse(s@, sig_offset as int) == Ok::<_, ParseError>(target));
            }
            Ok(a)
        },
    }
}

/// The record of the fat table entry at index `i`: its slice parsed as a
/// thin Mach-O image, with the entry's file offset as signature offset. An
/// archive member is unsupported; any other non-Mach-O slice is malformed.
#[verifier::opaque]
pub open spec fn fat_entry(s: Seq<u8>, i: int) -> Result<ArchSpec, ParseError> {
    let e = 8 + i * 20;
    let off = rd32(s, e + 8, false) as int;
    let size = rd32(s, e + 12, false) as int;
    if off + size > s.len() {
        Err(ParseError::Malformed)
    } else {
        let slice = s.subrange(off, off + size);
        if is_archive_magic(slice) {
            Err(ParseError::Unsupported)
        } else if !is_thin_magic(slice) {
            Err(ParseError::Malformed)
        } else {
            macho_parse(slice, off)
        }
    }
}

/// The architecture records of the fat table entries `i` up to `n`, in table
/// order; the first failing entry fails the whole list.
pub open spec fn fat_arches(s: Seq<u8>, i: int, n: int) -> Result<Seq<ArchSpec>, ParseError>
    decreases n - i,
{
    if i >= n {
        Ok(Seq::empty())
    } else {
        match fat_entry(s, i) {
            Err(e2) => Err(e2),
            Ok(a) => match fat_arches(s, i + 1, n) {
                Err(e2) => Err(e2),
                Ok(rest) => Ok(seq![a] + rest),
            },
        }
    }
}

/// Parses the fat table entry whose 20-byte record begins at `e`.
fn parse_fat_entry(s: &[u8], e: u64, Ghost(i): Ghost<int>) -> (r: Result<BinaryArch, ParseError>)
    requires
        0 <= i,
        e == 8 + i * 20,
        e + 20 <= s@.len(),
    ensures
        r matches Ok(a) ==> fat_entry(s@, i) == Ok::<_, ParseError>(a@) && a.wf(),
        r matches Err(er) ==> fat_entry(s@, i) == Err::<ArchSpec, _>(er),
{
    proof {
        reveal(fat_entry);
    }
    let len: usize = s.len();
    let len64: u64 = len as u64;
    let off = read_u32_at(s, e + 8, false) as u64;
    let size = read_u32_at(s, e + 12, false) as u64;
    if off > len64 || size > len64 - off {
        return Err(ParseError::Malformed);
    }
    let slice = &s[(off as usize)..((off + size) as usize)];
    assert(slice@ == s@.subrange(off as int, off as int + size as int));
    if slice_is_archive(slice) {
        return Err(ParseError::Unsupported);
    }
    if !slice_is_thin(slice) {
        return Err(ParseError::Malformed);
    }
    parse_macho(slice, off as usize)
}

/// What parsing a fat Mach-O buffer yields: one record per architecture-table
/// entry in on-disk order, and the outer signature holding the four fat magic
/// bytes at file offset 0. A fat header without entries is malformed.
pub open spec fn fat_parse(s: Seq<u8>) -> Result<BinSpec, ParseError> {
    if s.len() < 8 {
        Err(ParseError::Malformed)
    } else {
        let n = rd32(s, 4, false) as int;
        if n == 0 {
            Err(ParseError::Malformed)
        } else if 8 + n * 20 > s.len() {
            Err(ParseError::Malformed)
        } else {
            match fat_arches(s, 0, n) {
                Err(e) => Err(e),
                Ok(arches) => Ok(
                    BinSpec {
                        arches,
                        outer: Some(SigSpec { offset: 0, bytes: s.subrange(0, 4) }),
                    },
                ),
            }
        }
    }
}

/// Parses a fat Mach-O buffer into one record per embedded slice.
#[verifier::rlimit(50)]
pub fn parse_fat(s: &[u8]) -> (r: Result<Binary, ParseError>)
    requires
        is_fat_magic(s@),
    ensures
        r matches Ok(b) ==> fat_parse(s@) == Ok::<_, ParseError>(b@) && b.wf(),
        r matches Err(e) ==> fat_parse(s@) == Err::<BinSpec, _>(e),
{
    let len: usize = s.len();
    let len64: u64 = len as u64;
    if len < 8 {
        return Err(ParseError::Malformed);
    }
    let n = read_u32_at(s, 4, false);
    if n == 0 {
        return Err(ParseError::Malformed);
    }
    proof {
        assert((n as u64) * 20 <= 0xFFFF_FFFFu64 * 20) by (nonlinear_arith)
            requires
                n <= 0xFFFF_FFFFu64,
        ;
    }
    let table: u64 = (n as u64) * 20;
    if table > len64 - 8 {
        return Err(ParseError::Malformed);
    }
    let mut arches: Vec<BinaryArch> = Vec::new();
    let mut i: u32 = 0;
    let mut e: u64 = 8;
    while i < n
        invariant
            s@.len() <= u64::MAX,
            len == s@.len(),
            len64 == s@.len(),
            0 <= i <= n,
            e == 8 + i * 20,
            8 + n * 20 <= s@.len(),
            s@.len() >= 8,
            n == rd32(s@, 4, false),
            n != 0,
            arches@.len() == i,
            forall|j: int| 0 <= j < arches@.len() ==> (#[trigger] arches@[j]).wf(),
            ({
                let total = fat_arches(s@, 0, n as int);
                let rem = fat_arches(s@, i as int, n as int);
                match rem {
                    Err(e2) => total == Err::<Seq<ArchSpec>, _>(e2),
                    Ok(rest) => total == Ok::<_, ParseError>(
                        arches@.map_values(|a: BinaryArch| a@) + rest,
                    ),
                }
            }),
        decreases n - i,
    {
        proof {
            lemma_fat_entry_bound(i as int, n as int);
        }
        let arch_rec = match parse_fat_entry(s, e, Ghost(i as int)) {
            Err(e2) => {
                return Err(e2);
            },
            Ok(a) => a,
        };
        let ghost old_arches = arches@.map_values(|a: BinaryArch| a@);
        let ghost a_spec = arch_rec@;
        arches.push(arch_rec);
        proof {
            assert(arches@.map_values(|a: BinaryArch| a@) =~= old_arches.push(a_spec));
            let rest = fat_arches(s@, i + 1, n as int);
            if rest is Ok {
                assert(old_arches + (seq![a_spec] + rest.unwrap()) =~~= old_arches.push(a_spec)
                    + rest.unwrap());
            }
        }
        i = i + 1;
        e = e + 20;
    }
    proof {
        assert(fat_arches(s@, n as int, n as int) == Ok::<Seq<ArchSpec>, ParseError>(Seq::empty()));
        assert(arches@.map_values(|a: BinaryArch| a@) + Seq::<ArchSpec>::empty() =~~= arches@
            .map_values(|a: BinaryArch| a@));
    }
    let sig_bytes = slice_to_vec(&s[0..4]);
    let magic_bytes = MagicBytesMeta::new(0, sig_bytes);
    let b = Binary { arches, magic_bytes: Some(magic_bytes) };
    proof {
        let target = BinSpec {
            arches: fat_arches(s@, 0, (rd32(s@, 4, false) as u64) as int).unwrap(),
            outer: Some(SigSpec { offset: 0, bytes: s@.subrange(0, 4) }),
        };
        assert(b@ =~~= target);
        assert(fat_parse(s@) == Ok::<_, ParseError>(target));
    }
    Ok(b)
}

/// Bounds the fat-table entry at index `i` within the table.
proof fn lemma_fat_entry_bound(i: int, n: int)
    requires
        0 <= i < n,
    ensures
        8 + i * 20 + 20 <= 8 + n * 20,
{
    assert(i * 20 + 20 <= n * 20) by (nonlinear_arith)
        requires
            i < n,
    ;
}

/// A successful fat parse yields exactly one record per table entry.
pub proof fn lemma_fat_arches_len(s: Seq<u8>, i: int, n: int)
    ensures
        fat_arches(s, i, n) matches Ok(r) ==> r.len() == if n > i {
            n - i
        } else {
            0
        },
    decreases n - i,
{
    if i < n {
        lemma_fat_arches_len(s, i + 1, n);
    }
}

/// The slice begins with the archive magic.
fn slice_is_archive(s: &[u8]) -> (r: bool)
    ensures
        r == is_archive_magic(s@),
{
    s.len() >= 8 && s[0] == 0x21 && s[1] == 0x3c && s[2] == 0x61 && s[3] == 0x72 && s[4] == 0x63
        && s[5] == 0x68 && s[6] == 0x3e && s[7] == 0x0a
}

/// The slice begins with a thin Mach-O magic.
fn slice_is_thin(s: &[u8]) -> (r: bool)
    ensures
        r == is_thin_magic(s@),
{
    if s.len() < 4 {
        return false;
    }
    let m = read_u32_at(s, 0, true);
    m == MH_MAGIC || m == MH_MAGIC_64 || m == MH_CIGAM || m == MH_CIGAM_64
}

} // verus!
