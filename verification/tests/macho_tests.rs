use binident::executable::{Binary, BinFormat, ParseError};
use binident::macho::macho_dependencies;

const LC_LOAD_DYLIB: u32 = 0x0000_000C;
const LC_ID_DYLIB: u32 = 0x0000_000D;

/// A little-endian 64-bit thin Mach-O whose load commands are dylib commands
/// with the given command kinds and names.
fn macho64(cputype: u32, cmds: &[(u32, &str)]) -> Vec<u8> {
    let mut body: Vec<u8> = Vec::new();
    for (cmd, name) in cmds {
        let cmdsize = (24 + name.len() + 1) as u32;
        body.extend_from_slice(&cmd.to_le_bytes());
        body.extend_from_slice(&cmdsize.to_le_bytes());
        body.extend_from_slice(&24u32.to_le_bytes());
        body.extend_from_slice(&0u32.to_le_bytes());
        body.extend_from_slice(&0u32.to_le_bytes());
        body.extend_from_slice(&0u32.to_le_bytes());
        body.extend_from_slice(name.as_bytes());
        body.push(0);
    }
    let mut f: Vec<u8> = Vec::new();
    f.extend_from_slice(&0xFEED_FACFu32.to_le_bytes());
    f.extend_from_slice(&cputype.to_le_bytes());
    f.extend_from_slice(&0u32.to_le_bytes());
    f.extend_from_slice(&2u32.to_le_bytes());
    f.extend_from_slice(&(cmds.len() as u32).to_le_bytes());
    f.extend_from_slice(&(body.len() as u32).to_le_bytes());
    f.extend_from_slice(&0u32.to_le_bytes());
    f.extend_from_slice(&0u32.to_le_bytes());
    f.extend_from_slice(&body);
    f
}

/// A fat Mach-O whose architecture table holds the given slices, in order.
fn fat(slices: &[Vec<u8>]) -> Vec<u8> {
    let mut f: Vec<u8> = Vec::new();
    f.extend_from_slice(&[0xca, 0xfe, 0xba, 0xbe]);
    f.extend_from_slice(&(slices.len() as u32).to_be_bytes());
    let mut off = 8 + 20 * slices.len() as u32;
    for s in slices {
        f.extend_from_slice(&0u32.to_be_bytes());
        f.extend_from_slice(&0u32.to_be_bytes());
        f.extend_from_slice(&off.to_be_bytes());
        f.extend_from_slice(&(s.len() as u32).to_be_bytes());
        f.extend_from_slice(&0u32.to_be_bytes());
        off += s.len() as u32;
    }
    for s in slices {
        f.extend_from_slice(s);
    }
    f
}

const CPU_ARM: u32 = 12;
const CPU_ARM64: u32 = 0x0100_000C;
const CPU_X86_64: u32 = 0x0100_0007;

#[test]
fn thin_macho_skips_self_entry() {
    let buf = macho64(
        CPU_X86_64,
        &[
            (LC_ID_DYLIB, "libself.dylib"),
            (LC_LOAD_DYLIB, "libA.dylib"),
            (LC_LOAD_DYLIB, "libB.dylib"),
        ],
    );
    let bin = Binary::parse(&buf).unwrap();
    assert_eq!(bin.arches.len(), 1);
    let a = &bin.arches[0];
    assert_eq!(a.format, BinFormat::MachO);
    assert_eq!(a.format.name(), "mach-o");
    assert_eq!(a.arch, "x86_64");
    assert_eq!(a.dependencies, vec!["libA.dylib".to_string(), "libB.dylib".to_string()]);
    assert!(bin.magic_bytes.is_none());
    assert_eq!(a.magic_bytes.offset, 0);
    assert_eq!(a.magic_bytes.bytes, 0xFEED_FACFu32.to_le_bytes().to_vec());
}

#[test]
fn thin_macho_without_libraries_has_no_dependencies() {
    let buf = macho64(CPU_ARM64, &[]);
    let bin = Binary::parse(&buf).unwrap();
    assert!(bin.arches[0].dependencies.is_empty());
    assert_eq!(bin.arches[0].arch, "arm64");
}

#[test]
fn thin_macho_id_only_has_no_dependencies() {
    let buf = macho64(CPU_ARM64, &[(LC_ID_DYLIB, "libself.dylib")]);
    let bin = Binary::parse(&buf).unwrap();
    assert!(bin.arches[0].dependencies.is_empty());
}

#[test]
fn macho_dependencies_drops_first_entry() {
    let raw = vec!["self".to_string(), "libA".to_string(), "libB".to_string()];
    assert_eq!(macho_dependencies(&raw), vec!["libA".to_string(), "libB".to_string()]);
}

#[test]
fn macho_dependencies_of_self_only_is_empty() {
    let raw = vec!["self".to_string()];
    assert!(macho_dependencies(&raw).is_empty());
}

#[test]
fn thin_macho_32_bit_with_library() {
    // 32-bit little-endian image: a 28-byte header, then one load command.
    let name = "libA.dylib";
    let cmdsize = (24 + name.len() + 1) as u32;
    let mut f: Vec<u8> = Vec::new();
    f.extend_from_slice(&0xFEED_FACEu32.to_le_bytes());
    f.extend_from_slice(&CPU_ARM.to_le_bytes());
    f.extend_from_slice(&0u32.to_le_bytes());
    f.extend_from_slice(&2u32.to_le_bytes());
    f.extend_from_slice(&1u32.to_le_bytes());
    f.extend_from_slice(&cmdsize.to_le_bytes());
    f.extend_from_slice(&0u32.to_le_bytes());
    f.extend_from_slice(&LC_LOAD_DYLIB.to_le_bytes());
    f.extend_from_slice(&cmdsize.to_le_bytes());
    f.extend_from_slice(&24u32.to_le_bytes());
    f.extend_from_slice(&0u32.to_le_bytes());
    f.extend_from_slice(&0u32.to_le_bytes());
    f.extend_from_slice(&0u32.to_le_bytes());
    f.extend_from_slice(name.as_bytes());
    f.push(0);
    let bin = Binary::parse(&f).unwrap();
    let a = &bin.arches[0];
    assert_eq!(a.arch, "arm");
    assert_eq!(a.dependencies, vec!["libA.dylib".to_string()]);
    assert_eq!(a.magic_bytes.bytes, 0xFEED_FACEu32.to_le_bytes().to_vec());
}

#[test]
fn big_endian_thin_macho() {
    // A byte-swapped (big-endian) 32-bit image: the magic reads as MH_CIGAM.
    let mut f: Vec<u8> = Vec::new();
    f.extend_from_slice(&0xFEED_FACEu32.to_be_bytes());
    f.extend_from_slice(&18u32.to_be_bytes());
    f.extend_from_slice(&0u32.to_be_bytes());
    f.extend_from_slice(&2u32.to_be_bytes());
    f.extend_from_slice(&0u32.to_be_bytes());
    f.extend_from_slice(&0u32.to_be_bytes());
    f.extend_from_slice(&0u32.to_be_bytes());
    let bin = Binary::parse(&f).unwrap();
    assert_eq!(bin.arches[0].arch, "ppc");
}

#[test]
fn unknown_cputype_reports_unknown() {
    let buf = macho64(0x0042_4242, &[]);
    let bin = Binary::parse(&buf).unwrap();
    assert_eq!(bin.arches[0].arch, "unknown");
}

#[test]
fn fat_two_slices_in_order() {
    let s1 = macho64(CPU_ARM64, &[]);
    let s2 = macho64(CPU_X86_64, &[]);
    let buf = fat(&[s1.clone(), s2.clone()]);
    let bin = Binary::parse(&buf).unwrap();
    assert_eq!(bin.arches.len(), 2);
    assert_eq!(bin.arches[0].arch, "arm64");
    assert_eq!(bin.arches[1].arch, "x86_64");
    assert_eq!(bin.arches[0].format, BinFormat::MachO);
    assert_eq!(bin.arches[1].format, BinFormat::MachO);
    let outer = bin.magic_bytes.as_ref().unwrap();
    assert_eq!(outer.offset, 0);
    assert_eq!(outer.length, 4);
    assert_eq!(outer.bytes, vec![0xca, 0xfe, 0xba, 0xbe]);
    // Slice signatures sit at the file-level slice offsets.
    assert_eq!(bin.arches[0].magic_bytes.offset, 8 + 40);
    assert_eq!(bin.arches[1].magic_bytes.offset, 8 + 40 + s1.len());
}

#[test]
fn fat_three_slices_keep_table_order() {
    let buf = fat(&[macho64(CPU_ARM, &[]), macho64(CPU_ARM64, &[]), macho64(CPU_X86_64, &[])]);
    let bin = Binary::parse(&buf).unwrap();
    let names: Vec<&str> = bin.arches.iter().map(|a| a.arch.as_str()).collect();
    assert_eq!(names, vec!["arm", "arm64", "x86_64"]);
}

#[test]
fn fat_signatures_match_buffer() {
    let buf = fat(&[macho64(CPU_ARM64, &[]), macho64(CPU_X86_64, &[])]);
    let bin = Binary::parse(&buf).unwrap();
    for a in &bin.arches {
        let lo = a.magic_bytes.offset;
        let hi = lo + a.magic_bytes.length;
        assert_eq!(&buf[lo..hi], &a.magic_bytes.bytes[..]);
    }
}

#[test]
fn fat_description_and_magics() {
    let buf = fat(&[macho64(CPU_ARM64, &[]), macho64(CPU_X86_64, &[])]);
    let bin = Binary::parse(&buf).unwrap();
    assert_eq!(
        bin.description(),
        "fat binary, with 2 arches: [mach-o binary, arm64], [mach-o binary, x86_64]"
    );
    let magics = bin.magics();
    assert_eq!(magics.len(), 3);
    assert_eq!(magics[0].offset, 0);
    assert_eq!(magics[0].bytes, vec![0xca, 0xfe, 0xba, 0xbe]);
    assert_eq!(magics[1].offset, bin.arches[0].magic_bytes.offset);
    assert_eq!(magics[2].offset, bin.arches[1].magic_bytes.offset);
}

#[test]
fn fat_with_twelve_slices_counts_in_decimal() {
    let slices: Vec<Vec<u8>> = (0..12).map(|_| macho64(CPU_ARM64, &[])).collect();
    let bin = Binary::parse(&fat(&slices)).unwrap();
    assert_eq!(bin.arches.len(), 12);
    assert!(bin.description().starts_with("fat binary, with 12 arches: "));
}

#[test]
fn fat_archive_member_is_unsupported() {
    let mut member = b"!<arch>\n".to_vec();
    member.extend_from_slice(b"0123456789");
    let buf = fat(&[macho64(CPU_ARM64, &[]), member]);
    let err = Binary::parse(&buf).unwrap_err();
    assert_eq!(err, ParseError::Unsupported);
    assert_eq!(err.message(), "Unsupported file format");
}

#[test]
fn fat_with_no_entries_is_malformed() {
    let buf = fat(&[]);
    assert_eq!(Binary::parse(&buf).unwrap_err(), ParseError::Malformed);
}

#[test]
fn fat_with_truncated_table_is_malformed() {
    let mut buf = fat(&[macho64(CPU_ARM64, &[])]);
    buf.truncate(12);
    assert_eq!(Binary::parse(&buf).unwrap_err(), ParseError::Malformed);
}

#[test]
fn fat_with_garbage_slice_is_malformed() {
    let buf = fat(&[vec![0u8; 64]]);
    assert_eq!(Binary::parse(&buf).unwrap_err(), ParseError::Malformed);
}

#[test]
fn truncated_thin_macho_is_malformed() {
    let buf = 0xFEED_FACFu32.to_le_bytes().to_vec();
    assert_eq!(Binary::parse(&buf).unwrap_err(), ParseError::Malformed);
}

#[test]
fn thin_macho_with_truncated_command_is_malformed() {
    let mut buf = macho64(CPU_ARM64, &[(LC_LOAD_DYLIB, "libA.dylib")]);
    // Claim one more command than the region holds.
    buf[16..20].copy_from_slice(&2u32.to_le_bytes());
    assert_eq!(Binary::parse(&buf).unwrap_err(), ParseError::Malformed);
}
