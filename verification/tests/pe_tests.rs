use binident::executable::{Binary, BinFormat, ParseError};

/// A PE image: DOS stub, COFF header, optional header with an import data
/// directory, one section mapping RVA 0x1000 to file offset 0x200, and an
/// import descriptor table naming `libs`.
fn pe(is64: bool, machine: u16, libs: &[&str]) -> Vec<u8> {
    let pp: usize = 0x40;
    let ddbase: usize = if is64 { 112 } else { 96 };
    let szopt: usize = ddbase + 16;
    let opt: usize = pp + 24;
    let secoff: usize = opt + szopt;
    let import_file: usize = 0x200;
    let import_rva: u32 = 0x1000;
    assert!(secoff + 40 <= import_file);
    let mut f = vec![0u8; 0x200 + 0x400];
    f[0] = b'M';
    f[1] = b'Z';
    f[0x3c..0x40].copy_from_slice(&(pp as u32).to_le_bytes());
    f[pp..pp + 4].copy_from_slice(b"PE\0\0");
    f[pp + 4..pp + 6].copy_from_slice(&machine.to_le_bytes());
    f[pp + 6..pp + 8].copy_from_slice(&1u16.to_le_bytes());
    f[pp + 20..pp + 22].copy_from_slice(&(szopt as u16).to_le_bytes());
    let opt_magic: u16 = if is64 { 0x020B } else { 0x010B };
    f[opt..opt + 2].copy_from_slice(&opt_magic.to_le_bytes());
    f[opt + ddbase - 4..opt + ddbase].copy_from_slice(&16u32.to_le_bytes());
    f[opt + ddbase + 8..opt + ddbase + 12].copy_from_slice(&import_rva.to_le_bytes());
    f[opt + ddbase + 12..opt + ddbase + 16].copy_from_slice(&0x100u32.to_le_bytes());
    // Section: vaddr 0x1000, raw size 0x400, raw pointer 0x200.
    f[secoff + 12..secoff + 16].copy_from_slice(&0x1000u32.to_le_bytes());
    f[secoff + 16..secoff + 20].copy_from_slice(&0x400u32.to_le_bytes());
    f[secoff + 20..secoff + 24].copy_from_slice(&0x200u32.to_le_bytes());
    // Import descriptors, then names.
    let desc_bytes = (libs.len() + 1) * 20;
    let mut name_off = import_file + desc_bytes;
    for (k, l) in libs.iter().enumerate() {
        let d = import_file + k * 20;
        let name_rva = import_rva + (name_off - import_file) as u32;
        f[d + 12..d + 16].copy_from_slice(&name_rva.to_le_bytes());
        f[name_off..name_off + l.len()].copy_from_slice(l.as_bytes());
        name_off += l.len() + 1;
    }
    f
}

#[test]
fn pe64_classification_and_imports() {
    let buf = pe(true, 0x8664, &["KERNEL32.dll", "USER32.dll"]);
    let bin = Binary::parse(&buf).unwrap();
    assert_eq!(bin.arches.len(), 1);
    let a = &bin.arches[0];
    assert_eq!(a.format, BinFormat::Pe32Plus);
    assert_eq!(a.format.name(), "pe32+");
    assert_eq!(a.arch, "x86_64");
    assert_eq!(a.dependencies, vec!["KERNEL32.dll".to_string(), "USER32.dll".to_string()]);
    let outer = bin.magic_bytes.as_ref().unwrap();
    assert_eq!(outer.offset, 0);
    assert_eq!(outer.length, 2);
    assert_eq!(outer.bytes, vec![b'M', b'Z']);
    assert_eq!(a.magic_bytes.offset, 0x40);
    assert_eq!(a.magic_bytes.length, 4);
    assert_eq!(a.magic_bytes.bytes, vec![b'P', b'E', 0, 0]);
}

#[test]
fn pe32_classification() {
    let buf = pe(false, 0x014C, &[]);
    let bin = Binary::parse(&buf).unwrap();
    let a = &bin.arches[0];
    assert_eq!(a.format, BinFormat::Pe32);
    assert_eq!(a.format.name(), "pe32");
    assert_eq!(a.arch, "x86");
    assert!(a.dependencies.is_empty());
}

#[test]
fn pe_description() {
    let buf = pe(true, 0x8664, &[]);
    let bin = Binary::parse(&buf).unwrap();
    assert_eq!(bin.description(), "pe32+ binary, x86_64");
}

#[test]
fn pe_magics_outer_then_slice() {
    let buf = pe(true, 0x8664, &["KERNEL32.dll"]);
    let bin = Binary::parse(&buf).unwrap();
    let magics = bin.magics();
    assert_eq!(magics.len(), 2);
    assert_eq!(magics[0].offset, 0);
    assert_eq!(magics[0].bytes, vec![b'M', b'Z']);
    assert_eq!(magics[1].offset, 0x40);
    assert_eq!(magics[1].bytes, vec![b'P', b'E', 0, 0]);
}

#[test]
fn pe_signatures_match_buffer() {
    let buf = pe(true, 0x8664, &["KERNEL32.dll"]);
    let bin = Binary::parse(&buf).unwrap();
    for m in bin.magics() {
        assert_eq!(m.length, m.bytes.len());
        assert_eq!(&buf[m.offset..m.offset + m.length], &m.bytes[..]);
    }
}

#[test]
fn pe_with_bad_header_pointer_is_malformed() {
    let mut f = vec![0u8; 0x40];
    f[0] = b'M';
    f[1] = b'Z';
    f[0x3c..0x40].copy_from_slice(&0x10_0000u32.to_le_bytes());
    assert_eq!(Binary::parse(&f).unwrap_err(), ParseError::Malformed);
}

#[test]
fn pe_with_bad_signature_is_malformed() {
    let mut buf = pe(true, 0x8664, &[]);
    buf[0x41] = b'X';
    assert_eq!(Binary::parse(&buf).unwrap_err(), ParseError::Malformed);
}

#[test]
fn pe_with_unknown_optional_magic_is_malformed() {
    let mut buf = pe(true, 0x8664, &[]);
    let opt = 0x40 + 24;
    buf[opt..opt + 2].copy_from_slice(&0x0333u16.to_le_bytes());
    assert_eq!(Binary::parse(&buf).unwrap_err(), ParseError::Malformed);
}

#[test]
fn truncated_mz_stub_is_malformed() {
    let buf = vec![b'M', b'Z', 0, 0];
    assert_eq!(Binary::parse(&buf).unwrap_err(), ParseError::Malformed);
}
