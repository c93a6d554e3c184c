//! End-to-end decoding of a tiny `.debug_info` unit: the abbreviation
//! table drives the tree walk, and children nest exactly where the
//! abbreviation says they do.

use udb::ElfError;
use udb::dwarf::Tag;
use udb::elf_file::ElfFile;
use udb::types::{Attribute, ParseTypes};

fn d_put(b: &mut Vec<u8>, at: usize, bytes: &[u8]) {
    if b.len() < at + bytes.len() {
        b.resize(at + bytes.len(), 0);
    }
    b[at..at + bytes.len()].copy_from_slice(bytes);
}

fn d_ehdr64(shoff: u64, shnum: u16, shstrndx: u16) -> Vec<u8> {
    let mut b = vec![0u8; 64];
    d_put(&mut b, 0, &[0x7f, 0x45, 0x4c, 0x46, 2, 1, 1, 0]);
    d_put(&mut b, 0x10, &2u16.to_le_bytes());
    d_put(&mut b, 0x12, &0x3eu16.to_le_bytes());
    d_put(&mut b, 0x14, &1u32.to_le_bytes());
    d_put(&mut b, 0x28, &shoff.to_le_bytes());
    d_put(&mut b, 0x34, &64u16.to_le_bytes());
    d_put(&mut b, 0x3a, &64u16.to_le_bytes());
    d_put(&mut b, 0x3c, &shnum.to_le_bytes());
    d_put(&mut b, 0x3e, &shstrndx.to_le_bytes());
    b
}

/// An executable carrying one compile unit: a compile-unit node with an
/// inline name and one base-type child with a byte size.
fn d_exe() -> Vec<u8> {
    // The abbreviation table: code 1 is a compile unit with children and
    // an inline-string name; code 2 is a base type without children and a
    // one-byte size; a zero code ends the table.
    let abbrev: Vec<u8> = vec![
        0x01, 0x11, 0x01, 0x03, 0x08, 0x00, 0x00, // code 1
        0x02, 0x24, 0x00, 0x0b, 0x0b, 0x00, 0x00, // code 2
        0x00, // end of table
    ];
    // The unit entries: node 1 with its name, a child node 2 with size
    // four, and the zero code that ends the child list.
    let mut entries: Vec<u8> = Vec::new();
    entries.push(0x01);
    entries.extend(b"unit.c\0");
    entries.push(0x02);
    entries.push(0x04);
    entries.push(0x00);
    // The unit header: length, version 2, abbreviation offset, address
    // size; the length counts everything after the length word.
    let mut info: Vec<u8> = Vec::new();
    let unit_len = (2 + 4 + 1 + entries.len()) as u32;
    info.extend(&unit_len.to_le_bytes());
    info.extend(&2u16.to_le_bytes());
    info.extend(&0u32.to_le_bytes());
    info.push(8);
    info.extend(&entries);

    let names = b"\0.shstrtab\0.debug_abbrev\0.debug_info\0";
    let names_off = 64 + 4 * 64u64;
    let abbrev_off = names_off + names.len() as u64;
    let info_off = abbrev_off + abbrev.len() as u64;
    let mut b = d_ehdr64(64, 4, 1);
    let mut shdr = |name: u32, stype: u32, off: u64, size: u64| {
        let mut h = vec![0u8; 64];
        d_put(&mut h, 0, &name.to_le_bytes());
        d_put(&mut h, 4, &stype.to_le_bytes());
        d_put(&mut h, 24, &off.to_le_bytes());
        d_put(&mut h, 32, &size.to_le_bytes());
        h
    };
    b.extend(shdr(0, 0, 0, 0));
    b.extend(shdr(1, 3, names_off, names.len() as u64));
    b.extend(shdr(11, 1, abbrev_off, abbrev.len() as u64));
    b.extend(shdr(25, 1, info_off, info.len() as u64));
    b.extend(names.to_vec());
    b.extend(&abbrev);
    b.extend(&info);
    b
}

#[test]
fn abbreviations_load_in_code_order() {
    let f = ElfFile::new(d_exe()).unwrap();
    let abbrevs = f.find_abbreviations();
    assert_eq!(abbrevs.len(), 2);
    assert_eq!(abbrevs[0].tag, Tag::DW_TAG_compile_unit);
    assert!(abbrevs[0].has_children);
    assert_eq!(abbrevs[1].tag, Tag::DW_TAG_base_type);
    assert!(!abbrevs[1].has_children);
}

#[test]
fn type_tree_nests_children_under_their_parent() {
    let f = ElfFile::new(d_exe()).unwrap();
    let parser = ParseTypes::new(&f).unwrap();
    let (types, err) = parser.parse();
    assert!(err.is_none());
    assert_eq!(types.len(), 1);
    let unit = &types[0];
    assert_eq!(unit.tag, Tag::DW_TAG_compile_unit);
    assert_eq!(unit.attrs.len(), 1);
    match &unit.attrs[0] {
        Attribute::DW_AT_name(name) => assert_eq!(name, "unit.c"),
        _ => panic!("expected a name"),
    }
    assert_eq!(unit.children.len(), 1);
    let child = &unit.children[0];
    assert_eq!(child.tag, Tag::DW_TAG_base_type);
    match &child.attrs[0] {
        Attribute::DW_AT_byte_size(size) => assert_eq!(*size, 4),
        _ => panic!("expected a byte size"),
    }
    assert!(child.children.is_empty());
}

#[test]
fn missing_debug_info_is_an_explicit_error() {
    // A file with sections but no .debug_info cannot seed a tree walk.
    let core_like = {
        let mut b = d_ehdr64(64, 2, 1);
        let names = b"\0.shstrtab\0";
        let names_off = 64 + 2 * 64u64;
        let mut h0 = vec![0u8; 64];
        let mut h1 = vec![0u8; 64];
        d_put(&mut h1, 0, &1u32.to_le_bytes());
        d_put(&mut h1, 4, &3u32.to_le_bytes());
        d_put(&mut h1, 24, &names_off.to_le_bytes());
        d_put(&mut h1, 32, &(names.len() as u64).to_le_bytes());
        d_put(&mut h0, 0, &0u32.to_le_bytes());
        b.extend(h0);
        b.extend(h1);
        b.extend(names.to_vec());
        b
    };
    let f = ElfFile::new(core_like).unwrap();
    assert!(matches!(ParseTypes::new(&f).err(), Some(ElfError::NoDebugInfo)));
}

#[test]
fn unsupported_attribute_pairs_are_visible_errors() {
    // An abbreviation declaring the ordering attribute (0x09), which has
    // no decoder: the walk reports the exact pair instead of skipping it.
    let mut b = d_exe();
    // The abbreviation bytes start right after the section name table;
    // patch code 1's single attribute from name/string to ordering/data1.
    let f = ElfFile::new(d_exe()).unwrap();
    let (_, abbrev_section) = f.find_section_named(".debug_abbrev").unwrap();
    let at = abbrev_section.obytes.start.0 as usize;
    b[at + 3] = 0x09; // attribute name: ordering
    b[at + 4] = 0x0b; // form: one-byte constant
    let f = ElfFile::new(b).unwrap();
    let parser = ParseTypes::new(&f).unwrap();
    let (types, err) = parser.parse();
    assert!(types.is_empty());
    assert_eq!(err, Some(ElfError::UnsupportedAttribute(0x09, 0x0b)));
}
