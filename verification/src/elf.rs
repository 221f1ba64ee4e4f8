use vstd::prelude::*;
use vstd::slice::slice_to_vec;
use vstd::arithmetic::mul::lemma_mul_inequality;
use crate::bytes::{rd16, rd32, rd64, read_u16_at, read_u32_at, read_u64_at, cstr_at, read_cstr};
use crate::magic::{MagicBytesMeta, SigSpec};
use crate::executable::{ArchSpec, BinFormat, BinaryArch, ParseError};
use crate::arch::{lower_of, elf_machine_name, elf_arch_name};

verus! {

pub const PT_LOAD: u32 = 1;
pub const PT_DYNAMIC: u32 = 2;
pub const DT_NEEDED: u64 = 1;
pub const DT_STRTAB: u64 = 5;

/// The four ELF identification bytes.
pub open spec fn is_elf_magic(s: Seq<u8>) -> bool {
    s.len() >= 4 && s[0] == 0x7f && s[1] == 0x45 && s[2] == 0x4c && s[3] == 0x46
}

/// Size of one program header, by file class.
pub open spec fn phdr_size(is64: bool) -> int {
    if is64 { 56 } else { 32 }
}

/// Size of one dynamic entry, by file class.
pub open spec fn dyn_size(is64: bool) -> int {
    if is64 { 16 } else { 8 }
}

pub open spec fn ph_type(s: Seq<u8>, b: int, le: bool) -> u32 {
    rd32(s, b, le)
}

pub open spec fn ph_offset(s: Seq<u8>, b: int, is64: bool, le: bool) -> int {
    if is64 { rd64(s, b + 8, le) as int } else { rd32(s, b + 4, le) as int }
}

pub open spec fn ph_vaddr(s: Seq<u8>, b: int, is64: bool, le: bool) -> int {
    if is64 { rd64(s, b + 16, le) as int } else { rd32(s, b + 8, le) as int }
}

pub open spec fn ph_filesz(s: Seq<u8>, b: int, is64: bool, le: bool) -> int {
    if is64 { rd64(s, b + 32, le) as int } else { rd32(s, b + 16, le) as int }
}

/// The base offset of the first of the `n` program headers starting at `b`
/// whose type is `PT_DYNAMIC`.
pub open spec fn find_dynamic(s: Seq<u8>, b: int, n: int, is64: bool, le: bool) -> Option<int>
    decreases n,
{
    if n <= 0 {
        None
    } else if ph_type(s, b, le) == PT_DYNAMIC {
        Some(b)
    } else {
        find_dynamic(s, b + phdr_size(is64), n - 1, is64, le)
    }
}

/// The base offset of the first of the `n` program headers starting at `b`
/// that is a `PT_LOAD` segment whose virtual address range contains `addr`.
pub open spec fn find_load(s: Seq<u8>, b: int, n: int, is64: bool, le: bool, addr: int) -> Option<
    int,
>
    decreases n,
{
    if n <= 0 {
        None
    } else if ph_type(s, b, le) == PT_LOAD && ph_vaddr(s, b, is64, le) <= addr < ph_vaddr(
        s,
        b,
        is64,
        le,
    ) + ph_filesz(s, b, is64, le) {
        Some(b)
    } else {
        find_load(s, b + phdr_size(is64), n - 1, is64, le, addr)
    }
}

pub open spec fn dyn_tag(s: Seq<u8>, b: int, is64: bool, le: bool) -> u64 {
    if is64 { rd64(s, b, le) } else { rd32(s, b, le) as u64 }
}

pub open spec fn dyn_val(s: Seq<u8>, b: int, is64: bool, le: bool) -> u64 {
    if is64 { rd64(s, b + 8, le) } else { rd32(s, b + 4, le) as u64 }
}

/// The `DT_NEEDED` values of the dynamic entries in `[b, end)`, in table
/// order, stopping at `DT_NULL` or at the end of the region.
pub open spec fn dyn_needed(s: Seq<u8>, b: int, end: int, is64: bool, le: bool) -> Seq<u64>
    decreases end - b,
{
    if b < 0 || b + dyn_size(is64) > end {
        Seq::empty()
    } else {
        let tag = dyn_tag(s, b, is64, le);
        if tag == 0 {
            Seq::empty()
        } else if tag == DT_NEEDED {
            seq![dyn_val(s, b, is64, le)] + dyn_needed(s, b + dyn_size(is64), end, is64, le)
        } else {
            dyn_needed(s, b + dyn_size(is64), end, is64, le)
        }
    }
}

/// The value of the first `DT_STRTAB` dynamic entry in `[b, end)`, looking no
/// further than a `DT_NULL` terminator.
pub open spec fn dyn_strtab(s: Seq<u8>, b: int, end: int, is64: bool, le: bool) -> Option<u64>
    decreases end - b,
{
    if b < 0 || b + dyn_size(is64) > end {
        None
    } else {
        let tag = dyn_tag(s, b, is64, le);
        if tag == 0 {
            None
        } else if tag == DT_STRTAB {
            Some(dyn_val(s, b, is64, le))
        } else {
            dyn_strtab(s, b + dyn_size(is64), end, is64, le)
        }
    }
}

/// The name that a string-table offset resolves to: the NUL-terminated UTF-8
/// string at `strtab + off`.
pub open spec fn name_at(s: Seq<u8>, strtab: int, off: u64) -> Option<Seq<char>> {
    cstr_at(s, strtab + off, s.len() as int)
}

/// All needed-library names, when every offset resolves; nothing otherwise.
pub open spec fn needed_names(s: Seq<u8>, strtab: int, offs: Seq<u64>) -> Option<Seq<Seq<char>>> {
    if forall|k: int| 0 <= k < offs.len() ==> (#[trigger] name_at(s, strtab, offs[k])) is Some {
        Some(Seq::new(offs.len(), |k: int| name_at(s, strtab, offs[k]).unwrap()))
    } else {
        None
    }
}

/// The needed-library list of an ELF image: the `DT_NEEDED` entries of the
/// `PT_DYNAMIC` segment, resolved through the dynamic string table, in table
/// order. An image without a dynamic segment or without needed entries has an
/// empty list.
pub open spec fn elf_deps(s: Seq<u8>, is64: bool, le: bool, phoff: int, phnum: int) -> Result<
    Seq<Seq<char>>,
    ParseError,
> {
    match find_dynamic(s, phoff, phnum, is64, le) {
        None => Ok(Seq::empty()),
        Some(b) => {
            let doff = ph_offset(s, b, is64, le);
            let dsz = ph_filesz(s, b, is64, le);
            if doff + dsz > s.len() {
                Err(ParseError::Malformed)
            } else {
                let offs = dyn_needed(s, doff, doff + dsz, is64, le);
                if offs.len() == 0 {
                    Ok(Seq::empty())
                } else {
                    match dyn_strtab(s, doff, doff + dsz, is64, le) {
                        None => Err(ParseError::Malformed),
                        Some(va) => match find_load(s, phoff, phnum, is64, le, va as int) {
                            None => Err(ParseError::Malformed),
                            Some(lb) => {
                                let strtab = ph_offset(s, lb, is64, le) + (va - ph_vaddr(
                                    s,
                                    lb,
                                    is64,
                                    le,
                                ));
                                match needed_names(s, strtab, offs) {
                                    None => Err(ParseError::Malformed),
                                    Some(names) => Ok(names),
                                }
                            },
                        },
                    }
                }
            }
        },
    }
}

/// What parsing an ELF buffer yields: one architecture record, whose format
/// follows the file-class byte, whose architecture is the lowercased standard
/// machine name, whose dependencies are the needed-library list, and whose
/// signature is the four identification bytes at offset 0.
pub open spec fn elf_parse(s: Seq<u8>) -> Result<ArchSpec, ParseError> {
    if s.len() < 6 {
        Err(ParseError::Malformed)
    } else {
        let class = s[4];
        let data = s[5];
        if class != 1 && class != 2 {
            Err(ParseError::Malformed)
        } else if data != 1 && data != 2 {
            Err(ParseError::Malformed)
        } else {
            let is64 = class == 2;
            let le = data == 1;
            if s.len() < (if is64 { 64int } else { 52int }) {
                Err(ParseError::Malformed)
            } else {
                let machine = rd16(s, 18, le);
                let phoff = if is64 { rd64(s, 32, le) as int } else { rd32(s, 28, le) as int };
                let phentsize = rd16(s, if is64 { 54 } else { 42 }, le) as int;
                let phnum = rd16(s, if is64 { 56 } else { 44 }, le) as int;
                if phnum > 0 && phentsize != phdr_size(is64) {
                    Err(ParseError::Malformed)
                } else if phnum > 0 && phoff + phnum * phdr_size(is64) > s.len() {
                    Err(ParseError::Malformed)
                } else {
                    match elf_deps(s, is64, le, phoff, phnum) {
                        Err(e) => Err(e),
                        Ok(deps) => Ok(
                            ArchSpec {
                                format: if is64 { BinFormat::Elf64 } else { BinFormat::Elf32 },
                                arch: lower_of(elf_machine_name(machine)),
                                deps,
                                sig: SigSpec { offset: 0, bytes: s.subrange(0, 4) },
                            },
                        ),
                    }
                }
            }
        }
    }
}

/// Scans the program headers for the first `PT_DYNAMIC` entry.
fn scan_dynamic(s: &[u8], phoff: u64, phnum: u16, is64: bool, le: bool) -> (r: Option<u64>)
    requires
        phnum > 0 ==> phoff + phnum * phdr_size(is64) <= s@.len(),
    ensures
        r matches Some(b) ==> find_dynamic(s@, phoff as int, phnum as int, is64, le) == Some(
            b as int,
        ) && b + phdr_size(is64) <= s@.len(),
        r is None ==> find_dynamic(s@, phoff as int, phnum as int, is64, le) is None,
{
    let _n: usize = s.len();
    let ps: u64 = if is64 { 56 } else { 32 };
    let mut i: u16 = 0;
    let mut b: u64 = phoff;
    while i < phnum
        invariant
            s@.len() <= u64::MAX,
            0 <= i <= phnum,
            ps == phdr_size(is64),
            b == phoff + i * phdr_size(is64),
            phnum > 0 ==> phoff + phnum * phdr_size(is64) <= s@.len(),
            find_dynamic(s@, phoff as int, phnum as int, is64, le) == find_dynamic(
                s@,
                b as int,
                (phnum - i) as int,
                is64,
                le,
            ),
        decreases phnum - i,
    {
        proof {
            lemma_mul_inequality(i as int + 1, phnum as int, phdr_size(is64));
            assert((i as int + 1) * phdr_size(is64) == i as int * phdr_size(is64) + phdr_size(
                is64,
            )) by (nonlinear_arith);
        }
        let t = read_u32_at(s, b, le);
        if t == PT_DYNAMIC {
            return Some(b);
        }
        i = i + 1;
        b = b + ps;
    }
    None
}

/// Scans the program headers for the first `PT_LOAD` segment containing
/// virtual address `addr`.
fn scan_load(s: &[u8], phoff: u64, phnum: u16, is64: bool, le: bool, addr: u64) -> (r: Option<u64>)
    requires
        phnum > 0 ==> phoff + phnum * phdr_size(is64) <= s@.len(),
    ensures
        r matches Some(b) ==> find_load(s@, phoff as int, phnum as int, is64, le, addr as int)
            == Some(b as int) && b + phdr_size(is64) <= s@.len() && (ph_vaddr(s@, b as int, is64, le)
            <= addr as int) && ((addr as int) < ph_vaddr(s@, b as int, is64, le) + ph_filesz(s@, b as int, is64, le)),
        r is None ==> find_load(s@, phoff as int, phnum as int, is64, le, addr as int) is None,
{
    let _n: usize = s.len();
    let ps: u64 = if is64 { 56 } else { 32 };
    let mut i: u16 = 0;
    let mut b: u64 = phoff;
    while i < phnum
        invariant
            s@.len() <= u64::MAX,
            0 <= i <= phnum,
            ps == phdr_size(is64),
            b == phoff + i * phdr_size(is64),
            phnum > 0 ==> phoff + phnum * phdr_size(is64) <= s@.len(),
            find_load(s@, phoff as int, phnum as int, is64, le, addr as int) == find_load(
                s@,
                b as int,
                (phnum - i) as int,
                is64,
                le,
                addr as int,
            ),
        decreases phnum - i,
    {
        proof {
            lemma_mul_inequality(i as int + 1, phnum as int, phdr_size(is64));
            assert((i as int + 1) * phdr_size(is64) == i as int * phdr_size(is64) + phdr_size(
                is64,
            )) by (nonlinear_arith);
        }
        let t = read_u32_at(s, b, le);
        if t == PT_LOAD {
            let vaddr = if is64 {
                read_u64_at(s, b + 16, le)
            } else {
                read_u32_at(s, b + 8, le) as u64
            };
            let filesz = if is64 {
                read_u64_at(s, b + 32, le)
            } else {
                read_u32_at(s, b + 16, le) as u64
            };
            if vaddr <= addr && addr - vaddr < filesz {
                return Some(b);
            }
        }
        i = i + 1;
        b = b + ps;
    }
    None
}

/// Scans the dynamic entries, collecting every `DT_NEEDED` value in order and
/// the first `DT_STRTAB` value, stopping at `DT_NULL`.
fn scan_dyn_entries(s: &[u8], doff: u64, dsz: u64, is64: bool, le: bool) -> (r: (
    Vec<u64>,
    Option<u64>,
))
    requires
        doff + dsz <= s@.len(),
    ensures
        r.0@ == dyn_needed(s@, doff as int, doff + dsz, is64, le),
        r.1 == dyn_strtab(s@, doff as int, doff + dsz, is64, le),
{
    let _n: usize = s.len();
    let esz: u64 = if is64 { 16 } else { 8 };
    let end: u64 = doff + dsz;
    let mut offs: Vec<u64> = Vec::new();
    let mut strtab: Option<u64> = None;
    let mut b: u64 = doff;
    while esz <= end - b
        invariant
            s@.len() <= u64::MAX,
            esz == dyn_size(is64),
            doff <= b <= end,
            end == doff + dsz,
            end <= s@.len(),
            dyn_needed(s@, doff as int, end as int, is64, le) == offs@ + dyn_needed(
                s@,
                b as int,
                end as int,
                is64,
                le,
            ),
            dyn_strtab(s@, doff as int, end as int, is64, le) == (match strtab {
                Some(v) => Some(v),
                None => dyn_strtab(s@, b as int, end as int, is64, le),
            }),
        decreases end - b,
    {
        let tag = if is64 {
            read_u64_at(s, b, le)
        } else {
            read_u32_at(s, b, le) as u64
        };
        if tag == 0 {
            proof {
                assert(dyn_needed(s@, b as int, end as int, is64, le) =~= Seq::<u64>::empty());
                assert(offs@ + Seq::<u64>::empty() =~= offs@);
            }
            return (offs, strtab);
        }
        if tag == DT_NEEDED {
            let v = if is64 {
                read_u64_at(s, b + 8, le)
            } else {
                read_u32_at(s, b + 4, le) as u64
            };
            proof {
                assert(offs@ + (seq![dyn_val(s@, b as int, is64, le)] + dyn_needed(
                    s@,
                    b + dyn_size(is64),
                    end as int,
                    is64,
                    le,
                )) =~= offs@.push(dyn_val(s@, b as int, is64, le)) + dyn_needed(
                    s@,
                    b + dyn_size(is64),
                    end as int,
                    is64,
                    le,
                ));
            }
            offs.push(v);
        } else if tag == DT_STRTAB && strtab.is_none() {
            let v = if is64 {
                read_u64_at(s, b + 8, le)
            } else {
                read_u32_at(s, b + 4, le) as u64
            };
            strtab = Some(v);
        }
        b = b + esz;
    }
    proof {
        assert(dyn_needed(s@, b as int, end as int, is64, le) =~= Seq::<u64>::empty());
        assert(offs@ + Seq::<u64>::empty() =~= offs@);
    }
    (offs, strtab)
}

/// Resolves every needed-library offset through the string table at `strtab`.
fn resolve_needed(s: &[u8], strtab: u64, offs: &Vec<u64>) -> (r: Result<Vec<String>, ParseError>)
    requires
        strtab <= s@.len(),
    ensures
        r matches Ok(d) ==> needed_names(s@, strtab as int, offs@) == Some(d.deep_view()),
        r matches Err(e) ==> needed_names(s@, strtab as int, offs@) is None && e
            == ParseError::Malformed,
{
    let len: usize = s.len();
    let len64: u64 = len as u64;
    let mut deps: Vec<String> = Vec::new();
    let mut k: usize = 0;
    while k < offs.len()
        invariant
            0 <= k <= offs@.len(),
            strtab <= len64,
            len64 == s@.len(),
            len == s@.len(),
            deps@.len() == k,
            forall|j: int|
                0 <= j < k ==> (#[trigger] name_at(s@, strtab as int, offs@[j])) is Some
                    && deps.deep_view()[j] == name_at(s@, strtab as int, offs@[j]).unwrap(),
        decreases offs@.len() - k,
    {
        let off_k = offs[k];
        if off_k > len64 - strtab {
            proof {
                assert(name_at(s@, strtab as int, offs@[k as int]) is None);
            }
            return Err(ParseError::Malformed);
        }
        let start: u64 = strtab + off_k;
        match read_cstr(s, start as usize, len) {
            None => {
                proof {
                    assert(name_at(s@, strtab as int, offs@[k as int]) is None);
                }
                return Err(ParseError::Malformed);
            },
            Some(t) => {
                let ghost old_deep = deps.deep_view();
                deps.push(t);
                proof {
                    assert(deps.deep_view() =~~= old_deep.push(t@));
                }
            },
        }
        k = k + 1;
    }
    proof {
        let names = Seq::new(offs@.len(), |j: int| name_at(s@, strtab as int, offs@[j]).unwrap());
        assert(deps.deep_view() =~~= names);
    }
    Ok(deps)
}

/// Computes the needed-library list of the image.
fn parse_elf_deps(s: &[u8], is64: bool, le: bool, phoff: u64, phnum: u16) -> (r: Result<
    Vec<String>,
    ParseError,
>)
    requires
        phnum > 0 ==> phoff + phnum * phdr_size(is64) <= s@.len(),
    ensures
        r matches Ok(d) ==> elf_deps(s@, is64, le, phoff as int, phnum as int) == Ok::<_, ParseError>(d.deep_view()),
        r matches Err(e) ==> elf_deps(s@, is64, le, phoff as int, phnum as int) == Err::<Seq<Seq<char>>, _>(e),
{
    let len: usize = s.len();
    let len64: u64 = len as u64;
    match scan_dynamic(s, phoff, phnum, is64, le) {
        None => {
            let deps: Vec<String> = Vec::new();
            proof {
                assert(deps.deep_view() =~~= Seq::<Seq<char>>::empty());
            }
            Ok(deps)
        },
        Some(b) => {
            let doff = if is64 {
                read_u64_at(s, b + 8, le)
            } else {
                read_u32_at(s, b + 4, le) as u64
            };
            let dsz = if is64 {
                read_u64_at(s, b + 32, le)
            } else {
                read_u32_at(s, b + 16, le) as u64
            };
            if doff > len64 || dsz > len64 - doff {
                return Err(ParseError::Malformed);
            }
            let (offs, strtab_opt) = scan_dyn_entries(s, doff, dsz, is64, le);
            if offs.len() == 0 {
                let deps: Vec<String> = Vec::new();
                proof {
                    assert(deps.deep_view() =~~= Seq::<Seq<char>>::empty());
                }
                return Ok(deps);
            }
            match strtab_opt {
                None => Err(ParseError::Malformed),
                Some(va) => {
                    match scan_load(s, phoff, phnum, is64, le, va) {
                        None => Err(ParseError::Malformed),
                        Some(lb) => {
                            let lo = if is64 {
                                read_u64_at(s, lb + 8, le)
                            } else {
                                read_u32_at(s, lb + 4, le) as u64
                            };
                            let lv = if is64 {
                                read_u64_at(s, lb + 16, le)
                            } else {
                                read_u32_at(s, lb + 8, le) as u64
                            };
                            let delta: u64 = va - lv;
                            if lo > len64 || delta > len64 - lo {
                                proof {
                                    let strtab = ph_offset(s@, lb as int, is64, le) + (
                                    va - ph_vaddr(s@, lb as int, is64, le));
                                    assert(name_at(s@, strtab, offs@[0]) is None);
                                }
                                return Err(ParseError::Malformed);
                            }
                            let strtab: u64 = lo + delta;
                            resolve_needed(s, strtab, &offs)
                        },
                    }
                },
            }
        },
    }
}

/// Parses an ELF buffer into its single architecture record.
pub fn parse_elf(s: &[u8]) -> (r: Result<BinaryArch, ParseError>)
    requires
        is_elf_magic(s@),
    ensures
        r matches Ok(a) ==> elf_parse(s@) == Ok::<_, ParseError>(a@) && a.wf(),
        r matches Err(e) ==> elf_parse(s@) == Err::<ArchSpec, _>(e),
{
    let len: usize = s.len();
    let len64: u64 = len as u64;
    if len < 6 {
        return Err(ParseError::Malformed);
    }
    let class = s[4];
    let data = s[5];
    if class != 1 && class != 2 {
        return Err(ParseError::Malformed);
    }
    if data != 1 && data != 2 {
        return Err(ParseError::Malformed);
    }
    let is64 = class == 2;
    let le = data == 1;
    if len < (if is64 { 64 } else { 52 }) {
        return Err(ParseError::Malformed);
    }
    let machine = read_u16_at(s, 18, le);
    let phoff: u64 = if is64 {
        read_u64_at(s, 32, le)
    } else {
        read_u32_at(s, 28, le) as u64
    };
    let phentsize = read_u16_at(s, if is64 { 54 } else { 42 }, le);
    let phnum = read_u16_at(s, if is64 { 56 } else { 44 }, le);
    if phnum > 0 {
        let ps16: u16 = if is64 { 56 } else { 32 };
        if phentsize != ps16 {
            return Err(ParseError::Malformed);
        }
        if phoff > len64 {
            return Err(ParseError::Malformed);
        }
        proof {
            assert((phnum as u64) * (ps16 as u64) <= 0xFFFF * 56) by (nonlinear_arith)
                requires
                    phnum <= 0xFFFF,
                    ps16 <= 56,
            ;
        }
        let prod: u64 = (phnum as u64) * (ps16 as u64);
        if prod > len64 - phoff {
            return Err(ParseError::Malformed);
        }
    }
    match parse_elf_deps(s, is64, le, phoff, phnum) {
        Err(e) => Err(e),
        Ok(deps) => {
            let arch = elf_arch_name(machine);
            let sig_bytes = slice_to_vec(&s[0..4]);
            let magic_bytes = MagicBytesMeta::new(0, sig_bytes);
            let format = if is64 {
                BinFormat::Elf64
            } else {
                BinFormat::Elf32
            };
            let a = BinaryArch { magic_bytes, format, arch, dependencies: deps };
            proof {
                let target = ArchSpec {
                    format: if is64 { BinFormat::Elf64 } else { BinFormat::Elf32 },
                    arch: lower_of(elf_machine_name(machine)),
                    deps: a.dependencies.deep_view(),
                    sig: SigSpec { offset: 0, bytes: s@.subrange(0, 4) },
                };
                assert(a@ =~~= target);
                assert(elf_parse(s@) == Ok::<_, ParseError>(target));
            }
            Ok(a)
        },
    }
}

} // verus!
