use vstd::prelude::*;
use vstd::slice::slice_to_vec;
use crate::bytes::{rd16, rd32, read_u16_at, read_u32_at, cstr_at, read_cstr};
use crate::magic::{MagicBytesMeta, SigSpec};
use crate::executable::{ArchSpec, BinFormat, Binary, BinaryArch, BinSpec, ParseError};
use crate::arch::{lower_of, pe_machine_name, pe_arch_name};

verus! {

pub const PE_OPT_MAGIC_32: u16 = 0x010B;
pub const PE_OPT_MAGIC_64: u16 = 0x020B;

/// The two DOS-stub magic bytes.
pub open spec fn is_mz_magic(s: Seq<u8>) -> bool {
    s.len() >= 2 && s[0] == 0x4d && s[1] == 0x5a
}

/// Size of one section-table entry.
pub const SECTION_SIZE: u64 = 40;

pub open spec fn sec_vaddr(s: Seq<u8>, b: int) -> int {
    rd32(s, b + 12, true) as int
}

pub open spec fn sec_rawsz(s: Seq<u8>, b: int) -> int {
    rd32(s, b + 16, true) as int
}

pub open spec fn sec_rawptr(s: Seq<u8>, b: int) -> int {
    rd32(s, b + 20, true) as int
}

/// The file offset that a relative virtual address maps to: through the
/// first of the `n` section-table entries starting at `b` whose raw data
/// range covers `rva`.
pub open spec fn rva_to_off(s: Seq<u8>, b: int, n: int, rva: int) -> Option<int>
    decreases n,
{
    if n <= 0 {
        None
    } else if sec_vaddr(s, b) <= rva < sec_vaddr(s, b) + sec_rawsz(s, b) {
        Some(sec_rawptr(s, b) + (rva - sec_vaddr(s, b)))
    } else {
        rva_to_off(s, b + 40, n - 1, rva)
    }
}

/// The imported-library names recorded by the import descriptors starting at
/// file offset `doff`, in descriptor order, each name resolved through the
/// section table; nothing when a descriptor or a name cannot be read.
pub open spec fn pe_imports(s: Seq<u8>, secoff: int, nsec: int, doff: int) -> Option<
    Seq<Seq<char>>,
>
    decreases s.len() - doff,
{
    if doff < 0 || doff + 20 > s.len() {
        None
    } else {
        let name_rva = rd32(s, doff + 12, true) as int;
        if name_rva == 0 {
            Some(Seq::empty())
        } else {
            match rva_to_off(s, secoff, nsec, name_rva) {
                None => None,
                Some(noff) => match cstr_at(s, noff, s.len() as int) {
                    None => None,
                    Some(nm) => match pe_imports(s, secoff, nsec, doff + 20) {
                        None => None,
                        Some(rest) => Some(seq![nm] + rest),
                    },
                },
            }
        }
    }
}

/// What parsing a PE buffer yields: one architecture record for the COFF
/// machine, classified by the optional-header magic, with the imported
/// libraries in import-table order; the slice signature is the four
/// signature bytes at the DOS stub's recorded PE-header pointer, and the
/// outer signature is the two DOS magic bytes at offset 0.
pub open spec fn pe_parse(s: Seq<u8>) -> Result<BinSpec, ParseError> {
    if s.len() < 0x40 {
        Err(ParseError::Malformed)
    } else {
        let pp = rd32(s, 0x3c, true) as int;
        if pp + 24 > s.len() {
            Err(ParseError::Malformed)
        } else if !(s[pp] == 0x50 && s[pp + 1] == 0x45 && s[pp + 2] == 0 && s[pp + 3] == 0) {
            Err(ParseError::Malformed)
        } else {
            let machine = rd16(s, pp + 4, true);
            let nsec = rd16(s, pp + 6, true) as int;
            let szopt = rd16(s, pp + 20, true) as int;
            let opt = pp + 24;
            if szopt < 2 || opt + szopt > s.len() {
                Err(ParseError::Malformed)
            } else {
                let m = rd16(s, opt, true);
                if m != PE_OPT_MAGIC_32 && m != PE_OPT_MAGIC_64 {
                    Err(ParseError::Malformed)
                } else {
                    let is64 = m == PE_OPT_MAGIC_64;
                    match pe_deps(s, pp, is64) {
                        Err(e) => Err(e),
                        Ok(deps) => Ok(
                            BinSpec {
                                arches: seq![
                                    ArchSpec {
                                        format: if is64 {
                                            BinFormat::Pe32Plus
                                        } else {
                                            BinFormat::Pe32
                                        },
                                        arch: lower_of(pe_machine_name(machine)),
                                        deps,
                                        sig: SigSpec { offset: pp, bytes: s.subrange(pp, pp + 4) },
                                    },
                                ],
                                outer: Some(SigSpec { offset: 0, bytes: s.subrange(0, 2) }),
                            },
                        ),
                    }
                }
            }
        }
    }
}

/// The imported-library list of a PE image: nothing to import when the
/// optional header carries no import directory or a zero import address;
/// otherwise the names behind the import descriptor table.
pub open spec fn pe_deps(s: Seq<u8>, pp: int, is64: bool) -> Result<Seq<Seq<char>>, ParseError> {
    let nsec = rd16(s, pp + 6, true) as int;
    let szopt = rd16(s, pp + 20, true) as int;
    let opt = pp + 24;
    let ddbase = if is64 { 112int } else { 96int };
    if szopt < ddbase {
        Ok(Seq::empty())
    } else {
        let ndirs = rd32(s, opt + ddbase - 4, true) as int;
        if ndirs < 2 || szopt < ddbase + 16 {
            Ok(Seq::empty())
        } else {
            let import_rva = rd32(s, opt + ddbase + 8, true) as int;
            if import_rva == 0 {
                Ok(Seq::empty())
            } else {
                let secoff = opt + szopt;
                if secoff + nsec * 40 > s.len() {
                    Err(ParseError::Malformed)
                } else {
                    match rva_to_off(s, secoff, nsec, import_rva) {
                        None => Err(ParseError::Malformed),
                        Some(doff) => match pe_imports(s, secoff, nsec, doff) {
                            None => Err(ParseError::Malformed),
                            Some(names) => Ok(names),
                        },
                    }
                }
            }
        }
    }
}

/// Walks the section table for the first section covering `rva`.
fn scan_rva(s: &[u8], secoff: u64, nsec: u16, rva: u64) -> (r: Option<u64>)
    requires
        secoff + nsec * 40 <= s@.len(),
    ensures
        r matches Some(o) ==> rva_to_off(s@, secoff as int, nsec as int, rva as int) == Some(
            o as int,
        ),
        r is None ==> rva_to_off(s@, secoff as int, nsec as int, rva as int) is None,
{
    let _n: usize = s.len();
    let mut i: u16 = 0;
    let mut b: u64 = secoff;
    while i < nsec
        invariant
            s@.len() <= u64::MAX,
            0 <= i <= nsec,
            b == secoff + i * 40,
            nsec > 0 ==> secoff + nsec * 40 <= s@.len(),
            rva_to_off(s@, secoff as int, nsec as int, rva as int) == rva_to_off(
                s@,
                b as int,
                (nsec - i) as int,
                rva as int,
            ),
        decreases nsec - i,
    {
        proof {
            assert((i as int + 1) * 40 <= nsec as int * 40) by (nonlinear_arith)
                requires
                    i < nsec,
            ;
            assert((i as int + 1) * 40 == i as int * 40 + 40) by (nonlinear_arith);
        }
        let vaddr = read_u32_at(s, b + 12, true) as u64;
        let rawsz = read_u32_at(s, b + 16, true) as u64;
        let rawptr = read_u32_at(s, b + 20, true) as u64;
        if vaddr <= rva && rva - vaddr < rawsz {
            return Some(rawptr + (rva - vaddr));
        }
        i = i + 1;
        b = b + 40;
    }
    None
}

/// Walks the import descriptors, resolving each named library.
fn scan_imports(s: &[u8], secoff: u64, nsec: u16, doff: u64) -> (r: Result<
    Vec<String>,
    ParseError,
>)
    requires
        secoff + nsec * 40 <= s@.len(),
    ensures
        r matches Ok(d) ==> pe_imports(s@, secoff as int, nsec as int, doff as int) == Some(
            d.deep_view(),
        ),
        r matches Err(e) ==> pe_imports(s@, secoff as int, nsec as int, doff as int) is None && e
            == ParseError::Malformed,
{
    let len: usize = s.len();
    let len64: u64 = len as u64;
    let mut names: Vec<String> = Vec::new();
    let mut d: u64 = doff;
    loop
        invariant
            len == s@.len(),
            len64 == s@.len(),
            doff <= d,
            secoff + nsec * 40 <= s@.len(),
            ({
                let total = pe_imports(s@, secoff as int, nsec as int, doff as int);
                let rem = pe_imports(s@, secoff as int, nsec as int, d as int);
                match rem {
                    None => total is None,
                    Some(rest) => total == Some(names.deep_view() + rest),
                }
            }),
        decreases s@.len() - d,
    {
        if d > len64 || 20 > len64 - d {
            return Err(ParseError::Malformed);
        }
        let name_rva = read_u32_at(s, d + 12, true) as u64;
        if name_rva == 0 {
            proof {
                assert(names.deep_view() + Seq::<Seq<char>>::empty() =~~= names.deep_view());
            }
            return Ok(names);
        }
        match scan_rva(s, secoff, nsec, name_rva) {
            None => {
                return Err(ParseError::Malformed);
            },
            Some(noff) => {
                if noff > len64 {
                    proof {
                        assert(cstr_at(s@, noff as int, s@.len() as int) is None);
                    }
                    return Err(ParseError::Malformed);
                }
                match read_cstr(s, noff as usize, len) {
                    None => {
                        return Err(ParseError::Malformed);
                    },
                    Some(t) => {
                        let ghost old_deep = names.deep_view();
                        let ghost nm = t@;
                        names.push(t);
                        proof {
                            assert(names.deep_view() =~~= old_deep.push(nm));
                            let rest = pe_imports(s@, secoff as int, nsec as int, d + 20);
                            if rest is Some {
                                assert(old_deep + (seq![nm] + rest.unwrap()) =~~= old_deep.push(
                                    nm,
                                ) + rest.unwrap());
                            }
                        }
                    },
                }
            },
        }
        d = d + 20;
    }
}

/// Computes the imported-library list of the image.
fn parse_pe_deps(s: &[u8], pp: u64, is64: bool) -> (r: Result<Vec<String>, ParseError>)
    requires
        pp + 24 <= s@.len(),
        rd16(s@, pp + 20, true) >= 2,
        pp + 24 + rd16(s@, pp + 20, true) <= s@.len(),
    ensures
        r matches Ok(d) ==> pe_deps(s@, pp as int, is64) == Ok::<_, ParseError>(d.deep_view()),
        r matches Err(e) ==> pe_deps(s@, pp as int, is64) == Err::<Seq<Seq<char>>, _>(e),
{
    let len: usize = s.len();
    let len64: u64 = len as u64;
    let nsec = read_u16_at(s, pp + 6, true);
    let szopt: u64 = read_u16_at(s, pp + 20, true) as u64;
    let opt: u64 = pp + 24;
    let ddbase: u64 = if is64 { 112 } else { 96 };
    if szopt < ddbase {
        let deps: Vec<String> = Vec::new();
        proof {
            assert(deps.deep_view() =~~= Seq::<Seq<char>>::empty());
        }
        return Ok(deps);
    }
    let ndirs = read_u32_at(s, opt + ddbase - 4, true);
    if ndirs < 2 || szopt < ddbase + 16 {
        let deps: Vec<String> = Vec::new();
        proof {
            assert(deps.deep_view() =~~= Seq::<Seq<char>>::empty());
        }
        return Ok(deps);
    }
    let import_rva = read_u32_at(s, opt + ddbase + 8, true) as u64;
    if import_rva == 0 {
        let deps: Vec<String> = Vec::new();
        proof {
            assert(deps.deep_view() =~~= Seq::<Seq<char>>::empty());
        }
        return Ok(deps);
    }
    let secoff: u64 = opt + szopt;
    proof {
        assert((nsec as u64) * 40 <= 0xFFFF * 40) by (nonlinear_arith)
            requires
                nsec <= 0xFFFF,
        ;
    }
    let sectab: u64 = (nsec as u64) * 40;
    if secoff > len64 || sectab > len64 - secoff {
        return Err(ParseError::Malformed);
    }
    match scan_rva(s, secoff, nsec, import_rva) {
        None => Err(ParseError::Malformed),
        Some(doff) => {
            if doff > len64 {
                proof {
                    assert(pe_imports(s@, secoff as int, nsec as int, doff as int) is None);
                }
                return Err(ParseError::Malformed);
            }
            match scan_imports(s, secoff, nsec, doff) {
                Err(e) => Err(e),
                Ok(d) => Ok(d),
            }
        },
    }
}

/// Parses a PE buffer into its single architecture record and its two
/// signatures.
pub fn parse_pe(s: &[u8]) -> (r: Result<Binary, ParseError>)
    requires
        is_mz_magic(s@),
    ensures
        r matches Ok(b) ==> pe_parse(s@) == Ok::<_, ParseError>(b@) && b.wf(),
        r matches Err(e) ==> pe_parse(s@) == Err::<BinSpec, _>(e),
{
    let len: usize = s.len();
    let len64: u64 = len as u64;
    if len < 0x40 {
        return Err(ParseError::Malformed);
    }
    let pp: u64 = read_u32_at(s, 0x3c, true) as u64;
    if pp > len64 || 24 > len64 - pp {
        return Err(ParseError::Malformed);
    }
    if !(s[pp as usize] == 0x50 && s[(pp + 1) as usize] == 0x45 && s[(pp + 2) as usize] == 0 && s[(
    pp + 3) as usize] == 0) {
        return Err(ParseError::Malformed);
    }
    let machine = read_u16_at(s, pp + 4, true);
    let szopt: u64 = read_u16_at(s, pp + 20, true) as u64;
    let opt: u64 = pp + 24;
    if szopt < 2 || szopt > len64 - opt {
        return Err(ParseError::Malformed);
    }
    let m = read_u16_at(s, opt, true);
    if m != PE_OPT_MAGIC_32 && m != PE_OPT_MAGIC_64 {
        return Err(ParseError::Malformed);
    }
    let is64 = m == PE_OPT_MAGIC_64;
    match parse_pe_deps(s, pp, is64) {
        Err(e) => Err(e),
        Ok(deps) => {
            let arch = pe_arch_name(machine);
            let sig_bytes = slice_to_vec(&s[(pp as usize)..((pp + 4) as usize)]);
            assert(sig_bytes@ == s@.subrange(pp as int, pp + 4));
            let magic_bytes = MagicBytesMeta::new(pp as usize, sig_bytes);
            let format = if is64 {
                BinFormat::Pe32Plus
            } else {
                BinFormat::Pe32
            };
            let a = BinaryArch { magic_bytes, format, arch, dependencies: deps };
            let outer_bytes = slice_to_vec(&s[0..2]);
            let outer = MagicBytesMeta::new(0, outer_bytes);
            let mut arches: Vec<BinaryArch> = Vec::new();
            arches.push(a);
            let b = Binary { arches, magic_bytes: Some(outer) };
            proof {
                let target = BinSpec {
                    arches: seq![
                        ArchSpec {
                            format: if is64 {
                                BinFormat::Pe32Plus
                            } else {
                                BinFormat::Pe32
                            },
                            arch: lower_of(pe_machine_name(machine)),
                            deps: b.arches@[0].dependencies.deep_view(),
                            sig: SigSpec { offset: pp as int, bytes: s@.subrange(pp as int, pp + 4) },
                        },
                    ],
                    outer: Some(SigSpec { offset: 0, bytes: s@.subrange(0, 2) }),
                };
                assert(b@.arches =~~= target.arches);
                assert(b@ =~~= target);
                assert(pe_parse(s@) == Ok::<_, ParseError>(target));
            }
            Ok(b)
        },
    }
}

} // verus!
