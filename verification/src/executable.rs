use vstd::prelude::*;
use vstd::string::StringExecFns;
use crate::magic::{MagicBytesMeta, SigSpec};
use crate::bytes::{rd16, rd32, read_u16, read_u32};
use crate::elf::{is_elf_magic, elf_parse, parse_elf};
use crate::macho::{
    is_thin_magic, is_fat_magic, macho_parse, fat_parse, parse_macho, parse_fat, MH_MAGIC,
    MH_CIGAM, MH_MAGIC_64, MH_CIGAM_64, FAT_MAGIC, FAT_CIGAM,
};
use crate::pe::{is_mz_magic, pe_parse, parse_pe, PE_OPT_MAGIC_32, PE_OPT_MAGIC_64};

verus! {

/// The container format of one architecture slice.
#[derive(Clone, Copy, PartialEq, Eq, Structural, Debug)]
pub enum BinFormat {
    Elf32,
    Elf64,
    Pe32,
    Pe32Plus,
    MachO,
}

impl BinFormat {
    /// The format tag as it is reported to callers.
    pub open spec fn name_spec(self) -> Seq<char> {
        match self {
            BinFormat::Elf32 => "elf32"@,
            BinFormat::Elf64 => "elf64"@,
            BinFormat::Pe32 => "pe32"@,
            BinFormat::Pe32Plus => "pe32+"@,
            BinFormat::MachO => "mach-o"@,
        }
    }

    pub fn name(&self) -> (r: String)
        ensures
            r@ == self.name_spec(),
    {
        match self {
            BinFormat::Elf32 => String::from_str("elf32"),
            BinFormat::Elf64 => String::from_str("elf64"),
            BinFormat::Pe32 => String::from_str("pe32"),
            BinFormat::Pe32Plus => String::from_str("pe32+"),
            BinFormat::MachO => String::from_str("mach-o"),
        }
    }
}

/// Why a buffer could not be parsed into a `Binary`.
#[derive(Clone, Copy, PartialEq, Eq, Structural, Debug)]
pub enum ParseError {
    /// A recognized family with an unimplemented member (an archive slice
    /// inside a fat binary), or a container outside ELF, PE and Mach-O.
    Unsupported,
    /// The bytes match a container's magic but the structure past it is
    /// truncated or invalid.
    Malformed,
}

impl ParseError {
    /// The label under which the error is reported.
    pub open spec fn message_spec(self) -> Seq<char> {
        match self {
            ParseError::Unsupported => "Unsupported file format"@,
            ParseError::Malformed => "Malformed executable container"@,
        }
    }

    pub fn message(&self) -> (r: String)
        ensures
            r@ == self.message_spec(),
    {
        match self {
            ParseError::Unsupported => String::from_str("Unsupported file format"),
            ParseError::Malformed => String::from_str("Malformed executable container"),
        }
    }
}

/// One architecture slice of a parsed container.
#[derive(Debug)]
pub struct BinaryArch {
    /// The signature record for this slice.
    pub magic_bytes: MagicBytesMeta,
    /// The container format of the slice.
    pub format: BinFormat,
    /// Canonical lowercase architecture name.
    pub arch: String,
    /// Library references from the container's import/link table, in table
    /// order, without the slice's own self-referential entry.
    pub dependencies: Vec<String>,
}

/// Mathematical shape of one architecture slice.
pub ghost struct ArchSpec {
    pub format: BinFormat,
    pub arch: Seq<char>,
    pub deps: Seq<Seq<char>>,
    pub sig: SigSpec,
}

impl View for BinaryArch {
    type V = ArchSpec;

    open spec fn view(&self) -> ArchSpec {
        ArchSpec {
            format: self.format,
            arch: self.arch@,
            deps: self.dependencies.deep_view(),
            sig: self.magic_bytes@,
        }
    }
}

impl BinaryArch {
    pub open spec fn wf(&self) -> bool {
        self.magic_bytes.wf()
    }
}

/// The result of parsing one file: one record per embedded architecture, and
/// the container-level signature where it differs from the slices' own.
#[derive(Debug)]
pub struct Binary {
    pub arches: Vec<BinaryArch>,
    pub magic_bytes: Option<MagicBytesMeta>,
}

/// Mathematical shape of a parsed container.
pub ghost struct BinSpec {
    pub arches: Seq<ArchSpec>,
    pub outer: Option<SigSpec>,
}

impl View for Binary {
    type V = BinSpec;

    open spec fn view(&self) -> BinSpec {
        BinSpec {
            arches: self.arches@.map_values(|a: BinaryArch| a@),
            outer: match self.magic_bytes {
                Some(m) => Some(m@),
                None => None,
            },
        }
    }
}

impl Binary {
    pub open spec fn wf(&self) -> bool {
        &&& forall|i: int| 0 <= i < self.arches@.len() ==> (#[trigger] self.arches@[i]).wf()
        &&& match self.magic_bytes {
            Some(m) => m.wf(),
            None => true,
        }
    }
}

/// What parsing any buffer yields, by the magic its first bytes carry: an
/// ELF, thin Mach-O, fat Mach-O or PE container is decoded; anything else is
/// an unsupported format. The first bytes of the four families are disjoint,
/// so at most one case applies.
pub open spec fn parse_spec(s: Seq<u8>) -> Result<BinSpec, ParseError> {
    if is_elf_magic(s) {
        match elf_parse(s) {
            Ok(a) => Ok(BinSpec { arches: seq![a], outer: None }),
            Err(e) => Err(e),
        }
    } else if is_thin_magic(s) {
        match macho_parse(s, 0) {
            Ok(a) => Ok(BinSpec { arches: seq![a], outer: None }),
            Err(e) => Err(e),
        }
    } else if is_fat_magic(s) {
        fat_parse(s)
    } else if is_mz_magic(s) {
        pe_parse(s)
    } else {
        Err(ParseError::Unsupported)
    }
}

impl Binary {
    /// Parses raw file bytes into one record per embedded architecture.
    /// A successful parse always reports at least one architecture.
    pub fn parse(bytes: &[u8]) -> (r: Result<Binary, ParseError>)
        ensures
            r matches Ok(b) ==> parse_spec(bytes@) == Ok::<_, ParseError>(b@) && b.wf()
                && b@.arches.len() > 0,
            r matches Err(e) ==> parse_spec(bytes@) == Err::<BinSpec, _>(e),
    {
        let len: usize = bytes.len();
        if len >= 4 && bytes[0] == 0x7f && bytes[1] == 0x45 && bytes[2] == 0x4c && bytes[3]
            == 0x46 {
            return match parse_elf(bytes) {
                Ok(a) => {
                    let mut arches: Vec<BinaryArch> = Vec::new();
                    arches.push(a);
                    let b = Binary { arches, magic_bytes: None };
                    proof {
                        assert(b@.arches =~~= seq![b.arches@[0]@]);
                    }
                    Ok(b)
                },
                Err(e) => Err(e),
            };
        }
        if len >= 4 {
            let m = read_u32(bytes, 0, true);
            if m == MH_MAGIC || m == MH_CIGAM || m == MH_MAGIC_64 || m == MH_CIGAM_64 {
                return match parse_macho(bytes, 0) {
                    Ok(a) => {
                        let mut arches: Vec<BinaryArch> = Vec::new();
                        arches.push(a);
                        let b = Binary { arches, magic_bytes: None };
                        proof {
                            assert(b@.arches =~~= seq![b.arches@[0]@]);
                        }
                        Ok(b)
                    },
                    Err(e) => Err(e),
                };
            }
        }
        if len >= 4 && bytes[0] == 0xca && bytes[1] == 0xfe && bytes[2] == 0xba && bytes[3]
            == 0xbe {
            return match parse_fat(bytes) {
                Ok(b) => {
                    proof {
                        crate::macho::lemma_fat_arches_len(
                            bytes@,
                            0,
                            rd32(bytes@, 4, false) as int,
                        );
                    }
                    Ok(b)
                },
                Err(e) => Err(e),
            };
        }
        if len >= 2 && bytes[0] == 0x4d && bytes[1] == 0x5a {
            return parse_pe(bytes);
        }
        Err(ParseError::Unsupported)
    }
}

/// The four-byte prefixes the sniffer recognizes: the ELF magic, the thin
/// Mach-O magics and their byte-swapped forms, the fat magic and its
/// byte-swapped form, and the two PE optional-header magics read from the
/// first two bytes.
pub open spec fn known_magic(s: Seq<u8>) -> bool {
    s.len() >= 4 && {
        ||| is_elf_magic(s)
        ||| {
            let m = rd32(s, 0, true);
            m == MH_MAGIC || m == MH_CIGAM || m == MH_MAGIC_64 || m == MH_CIGAM_64 || m
                == FAT_MAGIC || m == FAT_CIGAM
        }
        ||| {
            let m16 = rd16(s, 0, true);
            m16 == PE_OPT_MAGIC_32 || m16 == PE_OPT_MAGIC_64
        }
    }
}

impl Binary {
    /// Whether a buffer of at least four bytes begins with a known
    /// executable magic; shorter buffers never match.
    pub fn has_magic_bytes(buf: &[u8]) -> (r: bool)
        ensures
            r == known_magic(buf@),
    {
        if buf.len() < 4 {
            return false;
        }
        if buf[0] == 0x7f && buf[1] == 0x45 && buf[2] == 0x4c && buf[3] == 0x46 {
            return true;
        }
        let m = read_u32(buf, 0, true);
        if m == MH_MAGIC || m == MH_CIGAM || m == MH_MAGIC_64 || m == MH_CIGAM_64 || m == FAT_MAGIC
            || m == FAT_CIGAM {
            return true;
        }
        let m16 = read_u16(buf, 0, true);
        m16 == PE_OPT_MAGIC_32 || m16 == PE_OPT_MAGIC_64
    }
}

/// The decimal digit character for a value below ten.
pub open spec fn dec_digit(d: int) -> char {
    if d == 0 {
        '0'
    } else if d == 1 {
        '1'
    } else if d == 2 {
        '2'
    } else if d == 3 {
        '3'
    } else if d == 4 {
        '4'
    } else if d == 5 {
        '5'
    } else if d == 6 {
        '6'
    } else if d == 7 {
        '7'
    } else if d == 8 {
        '8'
    } else {
        '9'
    }
}

/// The decimal digits of a non-negative number, most significant first.
pub open spec fn dec_str(n: int) -> Seq<char>
    decreases n,
{
    if n < 0 {
        Seq::empty()
    } else if n < 10 {
        seq![dec_digit(n)]
    } else {
        dec_str(n / 10).push(dec_digit(n % 10))
    }
}

/// The one-character string for a decimal digit.
fn digit_str(d: u8) -> (r: &'static str)
    requires
        d < 10,
    ensures
        r@ == seq![dec_digit(d as int)],
{
    proof {
        reveal_strlit("0");
        reveal_strlit("1");
        reveal_strlit("2");
        reveal_strlit("3");
        reveal_strlit("4");
        reveal_strlit("5");
        reveal_strlit("6");
        reveal_strlit("7");
        reveal_strlit("8");
        reveal_strlit("9");
    }
    let r = if d == 0 {
        "0"
    } else if d == 1 {
        "1"
    } else if d == 2 {
        "2"
    } else if d == 3 {
        "3"
    } else if d == 4 {
        "4"
    } else if d == 5 {
        "5"
    } else if d == 6 {
        "6"
    } else if d == 7 {
        "7"
    } else if d == 8 {
        "8"
    } else {
        "9"
    };
    proof {
        assert(r@ =~= seq![dec_digit(d as int)]);
    }
    r
}

/// Writes a number in decimal.
fn u64_dec(n: u64) -> (r: String)
    ensures
        r@ == dec_str(n as int),
    decreases n,
{
    if n < 10 {
        String::from_str(digit_str(n as u8))
    } else {
        let mut s = u64_dec(n / 10);
        s.append(digit_str((n % 10) as u8));
        proof {
            assert(dec_str(n as int / 10) + seq![dec_digit(n as int % 10)] =~= dec_str(
                n as int,
            ));
        }
        s
    }
}

/// The description of one slice: its format tag, then its architecture.
pub open spec fn arch_desc(a: ArchSpec) -> Seq<char> {
    a.format.name_spec() + " binary, "@ + a.arch
}

/// The bracketed slice descriptions from index `i` on, joined by ", ".
pub open spec fn fat_desc_list(arches: Seq<ArchSpec>, i: int) -> Seq<char>
    decreases arches.len() - i,
{
    if i < 0 || i >= arches.len() {
        Seq::empty()
    } else {
        let part = "["@ + arch_desc(arches[i]) + "]"@;
        if i + 1 < arches.len() {
            part + ", "@ + fat_desc_list(arches, i + 1)
        } else {
            part
        }
    }
}

/// The human-readable description of a parsed container: the single slice's
/// description, or a fat summary naming the slice count and every slice.
/// A record without architectures describes itself as the empty string.
pub open spec fn description_spec(b: BinSpec) -> Seq<char> {
    if b.arches.len() == 0 {
        Seq::empty()
    } else if b.arches.len() == 1 {
        arch_desc(b.arches[0])
    } else {
        "fat binary, with "@ + dec_str(b.arches.len() as int) + " arches: "@ + fat_desc_list(
            b.arches,
            0,
        )
    }
}

impl Binary {
    /// Describes the parsed container in one line.
    pub fn description(&self) -> (r: String)
        ensures
            r@ == description_spec(self@),
    {
        let n = self.arches.len();
        if n == 0 {
            let r = String::new();
            proof {
                assert(r@ =~= description_spec(self@));
            }
            r
        } else if n == 1 {
            let a = &self.arches[0];
            let mut r = a.format.name();
            r.append(" binary, ");
            r.append(a.arch.as_str());
            proof {
                assert(r@ =~= arch_desc(self@.arches[0]));
            }
            r
        } else {
            let mut r = String::from_str("fat binary, with ");
            let count = u64_dec(n as u64);
            r.append(count.as_str());
            r.append(" arches: ");
            let ghost prefix = r@;
            let mut i: usize = 0;
            while i < n
                invariant
                    n == self.arches@.len(),
                    0 <= i <= n,
                    prefix + fat_desc_list(self@.arches, 0) == r@ + fat_desc_list(
                        self@.arches,
                        i as int,
                    ),
                decreases n - i,
            {
                let ghost old_r = r@;
                let a = &self.arches[i];
                r.append("[");
                let name = a.format.name();
                r.append(name.as_str());
                r.append(" binary, ");
                r.append(a.arch.as_str());
                r.append("]");
                if i + 1 < n {
                    r.append(", ");
                }
                proof {
                    let ghost part = "["@ + arch_desc(self@.arches[i as int]) + "]"@;
                    let ghost rest = fat_desc_list(self@.arches, i + 1);
                    assert(self@.arches[i as int] == self.arches@[i as int]@);
                    if i + 1 < n {
                        assert(r@ =~= old_r + (part + ", "@));
                        assert(old_r + (part + ", "@ + rest) =~= (old_r + (part + ", "@)) + rest);
                    } else {
                        assert(r@ =~= old_r + part);
                        assert(fat_desc_list(self@.arches, i as int) == part);
                    }
                }
                i = i + 1;
            }
            proof {
                assert(fat_desc_list(self@.arches, n as int) =~= Seq::<char>::empty());
                assert(r@ + Seq::<char>::empty() =~= r@);
                assert(r@ =~= description_spec(self@));
            }
            r
        }
    }
}

/// The flattened signature list of a parsed container: the outer signature
/// first, when there is one, then each architecture's own signature in
/// architecture order.
pub open spec fn magics_spec(b: BinSpec) -> Seq<SigSpec> {
    match b.outer {
        Some(o) => seq![o] + b.arches.map_values(|a: ArchSpec| a.sig),
        None => b.arches.map_values(|a: ArchSpec| a.sig),
    }
}

impl Binary {
    /// The flattened signature list, outer signature first.
    pub fn magics(&self) -> (r: Vec<MagicBytesMeta>)
        ensures
            r@.map_values(|m: MagicBytesMeta| m@) == magics_spec(self@),
            forall|i: int| 0 <= i < r@.len() ==> (#[trigger] r@[i]).wf(),
    {
        let mut out: Vec<MagicBytesMeta> = Vec::new();
        match &self.magic_bytes {
            Some(m) => {
                out.push(m.duplicate());
            },
            None => {
            },
        }
        let ghost head = out@.map_values(|m: MagicBytesMeta| m@);
        let mut i: usize = 0;
        while i < self.arches.len()
            invariant
                0 <= i <= self.arches@.len(),
                forall|j: int| 0 <= j < out@.len() ==> (#[trigger] out@[j]).wf(),
                out@.map_values(|m: MagicBytesMeta| m@) == head + self@.arches.map_values(
                    |a: ArchSpec| a.sig,
                ).subrange(0, i as int),
                head + self@.arches.map_values(|a: ArchSpec| a.sig) == magics_spec(self@),
            decreases self.arches@.len() - i,
        {
            let ghost old_sigs = out@.map_values(|m: MagicBytesMeta| m@);
            let m = self.arches[i].magic_bytes.duplicate();
            out.push(m);
            proof {
                assert(out@.map_values(|m: MagicBytesMeta| m@) =~= old_sigs.push(
                    self.arches@[i as int].magic_bytes@,
                ));
                assert(old_sigs.push(self.arches@[i as int].magic_bytes@) =~= head
                    + self@.arches.map_values(|a: ArchSpec| a.sig).subrange(0, i + 1 as int));
            }
            i = i + 1;
        }
        proof {
            let sigs = self@.arches.map_values(|a: ArchSpec| a.sig);
            assert(sigs.subrange(0, sigs.len() as int) =~= sigs);
            assert(out@.map_values(|m: MagicBytesMeta| m@) =~= magics_spec(self@));
        }
        out
    }
}

} // verus!
