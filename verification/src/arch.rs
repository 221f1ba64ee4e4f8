use vstd::prelude::*;
use vstd::string::StringExecFns;

verus! {

// Mach-O CPU-type codes, as recorded in Mach-O and fat headers.
pub const CPU_TYPE_ANY: u32 = 0xFFFF_FFFF;
pub const CPU_TYPE_VAX: u32 = 1;
pub const CPU_TYPE_MC680X0: u32 = 6;
pub const CPU_TYPE_X86: u32 = 7;
pub const CPU_TYPE_X86_64: u32 = 0x0100_0007;
pub const CPU_TYPE_MIPS: u32 = 8;
pub const CPU_TYPE_MC98000: u32 = 10;
pub const CPU_TYPE_HPPA: u32 = 11;
pub const CPU_TYPE_ARM: u32 = 12;
pub const CPU_TYPE_ARM64: u32 = 0x0100_000C;
pub const CPU_TYPE_ARM64_32: u32 = 0x0200_000C;
pub const CPU_TYPE_MC88000: u32 = 13;
pub const CPU_TYPE_SPARC: u32 = 14;
pub const CPU_TYPE_I860: u32 = 15;
pub const CPU_TYPE_ALPHA: u32 = 16;
pub const CPU_TYPE_POWERPC: u32 = 18;
pub const CPU_TYPE_POWERPC64: u32 = 0x0100_0012;

/// The canonical lowercase architecture name for a Mach-O CPU-type code.
/// Every code resolves to a name; unrecognized codes resolve to "unknown".
pub open spec fn macho_arch_of(cputype: u32) -> Seq<char> {
    if cputype == CPU_TYPE_ANY {
        "any"@
    } else if cputype == CPU_TYPE_VAX {
        "vax"@
    } else if cputype == CPU_TYPE_MC680X0 {
        "m68k"@
    } else if cputype == CPU_TYPE_X86 {
        "x86"@
    } else if cputype == CPU_TYPE_X86_64 {
        "x86_64"@
    } else if cputype == CPU_TYPE_MIPS {
        "mips"@
    } else if cputype == CPU_TYPE_MC98000 {
        "mc98000"@
    } else if cputype == CPU_TYPE_HPPA {
        "hppa"@
    } else if cputype == CPU_TYPE_ARM {
        "arm"@
    } else if cputype == CPU_TYPE_ARM64 {
        "arm64"@
    } else if cputype == CPU_TYPE_ARM64_32 {
        "arm64_32"@
    } else if cputype == CPU_TYPE_MC88000 {
        "m88k"@
    } else if cputype == CPU_TYPE_SPARC {
        "sparc"@
    } else if cputype == CPU_TYPE_I860 {
        "i860"@
    } else if cputype == CPU_TYPE_ALPHA {
        "alpha"@
    } else if cputype == CPU_TYPE_POWERPC {
        "ppc"@
    } else if cputype == CPU_TYPE_POWERPC64 {
        "ppc64"@
    } else {
        "unknown"@
    }
}

/// Decodes a Mach-O CPU-type code to its canonical lowercase name.
pub fn macho_arch_name(cputype: u32) -> (r: String)
    ensures
        r@ == macho_arch_of(cputype),
{
    if cputype == CPU_TYPE_ANY {
        String::from_str("any")
    } else if cputype == CPU_TYPE_VAX {
        String::from_str("vax")
    } else if cputype == CPU_TYPE_MC680X0 {
        String::from_str("m68k")
    } else if cputype == CPU_TYPE_X86 {
        String::from_str("x86")
    } else if cputype == CPU_TYPE_X86_64 {
        String::from_str("x86_64")
    } else if cputype == CPU_TYPE_MIPS {
        String::from_str("mips")
    } else if cputype == CPU_TYPE_MC98000 {
        String::from_str("mc98000")
    } else if cputype == CPU_TYPE_HPPA {
        String::from_str("hppa")
    } else if cputype == CPU_TYPE_ARM {
        String::from_str("arm")
    } else if cputype == CPU_TYPE_ARM64 {
        String::from_str("arm64")
    } else if cputype == CPU_TYPE_ARM64_32 {
        String::from_str("arm64_32")
    } else if cputype == CPU_TYPE_MC88000 {
        String::from_str("m88k")
    } else if cputype == CPU_TYPE_SPARC {
        String::from_str("sparc")
    } else if cputype == CPU_TYPE_I860 {
        String::from_str("i860")
    } else if cputype == CPU_TYPE_ALPHA {
        String::from_str("alpha")
    } else if cputype == CPU_TYPE_POWERPC {
        String::from_str("ppc")
    } else if cputype == CPU_TYPE_POWERPC64 {
        String::from_str("ppc64")
    } else {
        String::from_str("unknown")
    }
}

/// The name that the ELF machine-name table gives a machine code, before
/// lowercasing.
pub uninterp spec fn elf_machine_name(machine: u16) -> Seq<char>;

/// Relies on goblin::elf::header::machine_to_str: the returned name is a
/// static table lookup, a function of the machine code alone.
#[verifier::external_body]
pub(crate) fn elf_machine_str(machine: u16) -> (r: String)
    ensures
        r@ == elf_machine_name(machine),
{
    goblin::elf::header::machine_to_str(machine).to_owned()
}

/// The name that the PE (COFF) machine-name table gives a machine code,
/// before lowercasing.
pub uninterp spec fn pe_machine_name(machine: u16) -> Seq<char>;

/// Relies on goblin::pe::header::machine_to_str: the returned name is a
/// static table lookup, a function of the machine code alone.
#[verifier::external_body]
pub(crate) fn pe_machine_str(machine: u16) -> (r: String)
    ensures
        r@ == pe_machine_name(machine),
{
    goblin::pe::header::machine_to_str(machine).to_owned()
}

/// The lowercase form of a character sequence.
pub uninterp spec fn lower_of(s: Seq<char>) -> Seq<char>;

/// Relies on str::to_lowercase: the result depends on the characters alone.
#[verifier::external_body]
pub(crate) fn lowercase(s: &str) -> (r: String)
    ensures
        r@ == lower_of(s@),
{
    s.to_lowercase()
}

/// The canonical lowercase architecture name for an ELF machine code.
pub fn elf_arch_name(machine: u16) -> (r: String)
    ensures
        r@ == lower_of(elf_machine_name(machine)),
{
    let name = elf_machine_str(machine);
    lowercase(name.as_str())
}

/// The canonical lowercase architecture name for a PE machine code.
pub fn pe_arch_name(machine: u16) -> (r: String)
    ensures
        r@ == lower_of(pe_machine_name(machine)),
{
    let name = pe_machine_str(machine);
    lowercase(name.as_str())
}

} // verus!
