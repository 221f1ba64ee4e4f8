use binident::executable::{Binary, BinFormat, ParseError};

/// A little-endian 64-bit ELF with a PT_LOAD segment covering the whole
/// file, a PT_DYNAMIC segment whose needed entries name `libs`, and a
/// dynamic string table at the end.
fn elf64(machine: u16, libs: &[&str]) -> Vec<u8> {
    let mut strtab: Vec<u8> = vec![0];
    let mut offs: Vec<u64> = Vec::new();
    for l in libs {
        offs.push(strtab.len() as u64);
        strtab.extend_from_slice(l.as_bytes());
        strtab.push(0);
    }
    let phoff: u64 = 64;
    let dyn_off: usize = 64 + 2 * 56;
    let dyn_size: u64 = ((libs.len() + 2) * 16) as u64;
    let strtab_off: u64 = dyn_off as u64 + dyn_size;
    let total: u64 = strtab_off + strtab.len() as u64;
    let mut f = vec![0u8; total as usize];
    f[0..4].copy_from_slice(&[0x7f, b'E', b'L', b'F']);
    f[4] = 2;
    f[5] = 1;
    f[18..20].copy_from_slice(&machine.to_le_bytes());
    f[32..40].copy_from_slice(&phoff.to_le_bytes());
    f[54..56].copy_from_slice(&56u16.to_le_bytes());
    f[56..58].copy_from_slice(&2u16.to_le_bytes());
    let p0 = 64;
    f[p0..p0 + 4].copy_from_slice(&1u32.to_le_bytes());
    f[p0 + 8..p0 + 16].copy_from_slice(&0u64.to_le_bytes());
    f[p0 + 16..p0 + 24].copy_from_slice(&0u64.to_le_bytes());
    f[p0 + 32..p0 + 40].copy_from_slice(&total.to_le_bytes());
    let p1 = 120;
    f[p1..p1 + 4].copy_from_slice(&2u32.to_le_bytes());
    f[p1 + 8..p1 + 16].copy_from_slice(&(dyn_off as u64).to_le_bytes());
    f[p1 + 16..p1 + 24].copy_from_slice(&(dyn_off as u64).to_le_bytes());
    f[p1 + 32..p1 + 40].copy_from_slice(&dyn_size.to_le_bytes());
    let mut d = dyn_off;
    for off in &offs {
        f[d..d + 8].copy_from_slice(&1u64.to_le_bytes());
        f[d + 8..d + 16].copy_from_slice(&off.to_le_bytes());
        d += 16;
    }
    f[d..d + 8].copy_from_slice(&5u64.to_le_bytes());
    f[d + 8..d + 16].copy_from_slice(&strtab_off.to_le_bytes());
    f[strtab_off as usize..].copy_from_slice(&strtab);
    f
}

/// A little-endian 32-bit ELF with a dynamic segment, mirroring `elf64`.
fn elf32_with_libs(machine: u16, libs: &[&str]) -> Vec<u8> {
    let mut strtab: Vec<u8> = vec![0];
    let mut offs: Vec<u32> = Vec::new();
    for l in libs {
        offs.push(strtab.len() as u32);
        strtab.extend_from_slice(l.as_bytes());
        strtab.push(0);
    }
    let phoff: u32 = 52;
    let dyn_off: usize = 52 + 2 * 32;
    let dyn_size: u32 = ((libs.len() + 2) * 8) as u32;
    let strtab_off: u32 = dyn_off as u32 + dyn_size;
    let total: u32 = strtab_off + strtab.len() as u32;
    let mut f = vec![0u8; total as usize];
    f[0..4].copy_from_slice(&[0x7f, b'E', b'L', b'F']);
    f[4] = 1;
    f[5] = 1;
    f[18..20].copy_from_slice(&machine.to_le_bytes());
    f[28..32].copy_from_slice(&phoff.to_le_bytes());
    f[42..44].copy_from_slice(&32u16.to_le_bytes());
    f[44..46].copy_from_slice(&2u16.to_le_bytes());
    let p0 = 52;
    f[p0..p0 + 4].copy_from_slice(&1u32.to_le_bytes());
    f[p0 + 4..p0 + 8].copy_from_slice(&0u32.to_le_bytes());
    f[p0 + 8..p0 + 12].copy_from_slice(&0u32.to_le_bytes());
    f[p0 + 16..p0 + 20].copy_from_slice(&total.to_le_bytes());
    let p1 = 84;
    f[p1..p1 + 4].copy_from_slice(&2u32.to_le_bytes());
    f[p1 + 4..p1 + 8].copy_from_slice(&(dyn_off as u32).to_le_bytes());
    f[p1 + 8..p1 + 12].copy_from_slice(&(dyn_off as u32).to_le_bytes());
    f[p1 + 16..p1 + 20].copy_from_slice(&dyn_size.to_le_bytes());
    let mut d = dyn_off;
    for off in &offs {
        f[d..d + 4].copy_from_slice(&1u32.to_le_bytes());
        f[d + 4..d + 8].copy_from_slice(&off.to_le_bytes());
        d += 8;
    }
    f[d..d + 4].copy_from_slice(&5u32.to_le_bytes());
    f[d + 4..d + 8].copy_from_slice(&strtab_off.to_le_bytes());
    f[strtab_off as usize..].copy_from_slice(&strtab);
    f
}

/// A little-endian 32-bit ELF header with no program headers.
fn elf32(machine: u16) -> Vec<u8> {
    let mut f = vec![0u8; 52];
    f[0..4].copy_from_slice(&[0x7f, b'E', b'L', b'F']);
    f[4] = 1;
    f[5] = 1;
    f[18..20].copy_from_slice(&machine.to_le_bytes());
    f
}

#[test]
fn elf64_two_dependencies() {
    let buf = elf64(62, &["libA.so", "libB.so"]);
    let bin = Binary::parse(&buf).unwrap();
    assert_eq!(bin.arches.len(), 1);
    let a = &bin.arches[0];
    assert_eq!(a.format, BinFormat::Elf64);
    assert_eq!(a.format.name(), "elf64");
    assert_eq!(a.arch, "x86_64");
    assert_eq!(a.dependencies, vec!["libA.so".to_string(), "libB.so".to_string()]);
    assert!(bin.magic_bytes.is_none());
    assert_eq!(a.magic_bytes.offset, 0);
    assert_eq!(a.magic_bytes.length, 4);
    assert_eq!(a.magic_bytes.bytes, vec![0x7f, b'E', b'L', b'F']);
}

#[test]
fn elf64_dependency_order_is_table_order() {
    let buf = elf64(62, &["z.so", "a.so", "m.so"]);
    let bin = Binary::parse(&buf).unwrap();
    assert_eq!(
        bin.arches[0].dependencies,
        vec!["z.so".to_string(), "a.so".to_string(), "m.so".to_string()]
    );
}

#[test]
fn elf64_description() {
    let buf = elf64(62, &[]);
    let bin = Binary::parse(&buf).unwrap();
    assert_eq!(bin.description(), "elf64 binary, x86_64");
}

#[test]
fn elf64_signature_matches_buffer() {
    let buf = elf64(62, &["libA.so"]);
    let bin = Binary::parse(&buf).unwrap();
    let sig = &bin.arches[0].magic_bytes;
    assert_eq!(sig.length, sig.bytes.len());
    let lo = sig.offset;
    let hi = sig.offset + sig.length;
    assert_eq!(&buf[lo..hi], &sig.bytes[..]);
}

#[test]
fn elf64_magics_has_no_outer_signature() {
    let buf = elf64(62, &[]);
    let bin = Binary::parse(&buf).unwrap();
    let magics = bin.magics();
    assert_eq!(magics.len(), 1);
    assert_eq!(magics[0].offset, 0);
    assert_eq!(magics[0].bytes, vec![0x7f, b'E', b'L', b'F']);
}

#[test]
fn elf32_no_dynamic_section() {
    let buf = elf32(3);
    let bin = Binary::parse(&buf).unwrap();
    let a = &bin.arches[0];
    assert_eq!(a.format, BinFormat::Elf32);
    assert_eq!(a.format.name(), "elf32");
    assert_eq!(a.arch, "386");
    assert!(a.dependencies.is_empty());
}

#[test]
fn elf32_with_dynamic_dependencies() {
    let buf = elf32_with_libs(40, &["libc.so.6", "libm.so.6"]);
    let bin = Binary::parse(&buf).unwrap();
    let a = &bin.arches[0];
    assert_eq!(a.format, BinFormat::Elf32);
    assert_eq!(a.arch, "arm");
    assert_eq!(a.dependencies, vec!["libc.so.6".to_string(), "libm.so.6".to_string()]);
}

#[test]
fn elf64_big_endian_machine() {
    let mut f = vec![0u8; 64];
    f[0..4].copy_from_slice(&[0x7f, b'E', b'L', b'F']);
    f[4] = 2;
    f[5] = 2;
    f[18..20].copy_from_slice(&8u16.to_be_bytes());
    let bin = Binary::parse(&f).unwrap();
    assert_eq!(bin.arches[0].format, BinFormat::Elf64);
    assert_eq!(bin.arches[0].arch, "mips");
}

#[test]
fn truncated_elf_is_malformed() {
    let buf = vec![0x7f, b'E', b'L', b'F', 2];
    let err = Binary::parse(&buf).unwrap_err();
    assert_eq!(err, ParseError::Malformed);
    assert_eq!(err.message(), "Malformed executable container");
}

#[test]
fn elf_with_invalid_class_is_malformed() {
    let mut f = vec![0u8; 64];
    f[0..4].copy_from_slice(&[0x7f, b'E', b'L', b'F']);
    f[4] = 9;
    f[5] = 1;
    assert_eq!(Binary::parse(&f).unwrap_err(), ParseError::Malformed);
}

#[test]
fn elf_with_non_utf8_library_name_is_malformed() {
    let mut buf = elf64(62, &["libA.so"]);
    let n = buf.len();
    buf[n - 3] = 0xff;
    assert_eq!(Binary::parse(&buf).unwrap_err(), ParseError::Malformed);
}

#[test]
fn elf_with_missing_strtab_is_malformed() {
    let mut buf = elf64(62, &["libA.so"]);
    // Rewrite the DT_STRTAB tag into an unrelated tag: needed entries remain
    // but no string table can be found.
    let dyn_off = 64 + 2 * 56;
    let strtab_entry = dyn_off + 16;
    buf[strtab_entry..strtab_entry + 8].copy_from_slice(&21u64.to_le_bytes());
    assert_eq!(Binary::parse(&buf).unwrap_err(), ParseError::Malformed);
}

#[test]
fn empty_buffer_is_unsupported() {
    let err = Binary::parse(&[]).unwrap_err();
    assert_eq!(err, ParseError::Unsupported);
    assert_eq!(err.message(), "Unsupported file format");
}

#[test]
fn unknown_magic_is_unsupported() {
    let err = Binary::parse(b"#!/bin/sh\n").unwrap_err();
    assert_eq!(err, ParseError::Unsupported);
}
