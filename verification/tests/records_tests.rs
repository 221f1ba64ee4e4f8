use binident::executable::{Binary, BinFormat};
use binident::magic::MagicBytesMeta;

#[test]
fn format_names() {
    assert_eq!(BinFormat::Elf32.name(), "elf32");
    assert_eq!(BinFormat::Elf64.name(), "elf64");
    assert_eq!(BinFormat::Pe32.name(), "pe32");
    assert_eq!(BinFormat::Pe32Plus.name(), "pe32+");
    assert_eq!(BinFormat::MachO.name(), "mach-o");
}

#[test]
fn record_without_architectures_describes_nothing() {
    let bin = Binary { arches: Vec::new(), magic_bytes: None };
    assert_eq!(bin.description(), "");
    assert!(bin.magics().is_empty());
}

#[test]
fn magic_record_length_mirrors_bytes() {
    let m = MagicBytesMeta::new(7, vec![1, 2, 3]);
    assert_eq!(m.offset, 7);
    assert_eq!(m.length, 3);
    assert_eq!(m.bytes, vec![1, 2, 3]);
    let d = m.duplicate();
    assert_eq!(d.offset, 7);
    assert_eq!(d.length, 3);
    assert_eq!(d.bytes, vec![1, 2, 3]);
}
