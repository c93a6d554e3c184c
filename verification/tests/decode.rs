//! Byte-level decoding: primitive reads, variable-length integers,
//! ranges, and the fixed code tables.

use udb::ElfError;
use udb::ranges::{Bytes, Offset, VirtualAddr};
use udb::reader::{Reader, Stream};
use udb::search::{ascii_str_to_vec, byte_str_to_vec, parse_u64_expr};
use udb::sections::{RelocationX86_64, SectionHeader, SectionType};
use udb::segments::{LoadSegment, ProgramHeader, SegmentType};
use udb::symbols::{SymbolBinding, SymbolIndex, SymbolType, SymbolVisibility};
use udb::abbrev::Abbreviation;
use udb::notes::{CoreNoteType, GenericNoteType, GnuNoteType, NoteType, PrStatus};
use udb::key_map::{FileKey, KeyMap, KeyType};

fn tiny_elf(class: u8, data: u8, version: u8, etype: u8) -> Vec<u8> {
    let mut b = vec![0u8; 80];
    b[0] = 0x7f;
    b[1] = 0x45;
    b[2] = 0x4c;
    b[3] = 0x46;
    b[4] = class;
    b[5] = data;
    b[6] = version;
    b[0x10] = etype;
    b
}

fn le_reader(bytes: Vec<u8>) -> Reader {
    let mut b = tiny_elf(2, 1, 1, 2);
    b.extend(bytes);
    Reader::new(b).unwrap()
}

#[test]
fn read_half_round_trips_little_endian() {
    for v in [0u16, 1, 0x1234, 0xfffe, u16::MAX] {
        let r = le_reader(v.to_le_bytes().to_vec());
        assert_eq!(r.read_half(Offset(80)).unwrap(), v);
    }
}

#[test]
fn read_word_round_trips_little_endian() {
    for v in [0u32, 1, 0xdeadbeef, u32::MAX] {
        let r = le_reader(v.to_le_bytes().to_vec());
        assert_eq!(r.read_word(Offset(80)).unwrap(), v);
    }
}

#[test]
fn read_xword_round_trips_little_endian() {
    for v in [0u64, 1, 0x0123_4567_89ab_cdef, u64::MAX] {
        let r = le_reader(v.to_le_bytes().to_vec());
        assert_eq!(r.read_xword(Offset(80)).unwrap(), v);
    }
}

#[test]
fn reads_honor_big_endian() {
    let mut b = tiny_elf(2, 2, 1, 2);
    b.extend([0x12, 0x34, 0x56, 0x78]);
    let r = Reader::new(b).unwrap();
    assert!(!r.little_endian);
    assert_eq!(r.read_word(Offset(80)).unwrap(), 0x12345678);
}

#[test]
fn reads_past_the_end_fail() {
    let r = le_reader(vec![1, 2]);
    assert_eq!(r.read_word(Offset(81)), Err(ElfError::ReadOutOfBounds));
    assert_eq!(r.read_byte(Offset(9999)), Err(ElfError::ReadOutOfBounds));
}

#[test]
fn bad_magic_is_rejected() {
    let mut b = tiny_elf(2, 1, 1, 2);
    b[3] = 0x47;
    assert_eq!(Reader::new(b).err(), Some(ElfError::BadMagic));
    assert_eq!(Reader::new(vec![0u8; 10]).err(), Some(ElfError::TooSmall));
    assert_eq!(
        Reader::new(tiny_elf(2, 1, 9, 2)).err(),
        Some(ElfError::BadVersion(9))
    );
    assert_eq!(
        Reader::new(tiny_elf(2, 1, 1, 7)).err(),
        Some(ElfError::BadFileType(7))
    );
}

#[test]
fn leb128_decodes_multi_byte_value() {
    let r = le_reader(vec![0xE5, 0x8E, 0x26]);
    let mut s = Stream::new(&r, Offset(80));
    assert_eq!(s.read_uleb128().unwrap(), 624485);
    assert_eq!(s.offset.0, 83);
}

#[test]
fn leb128_decodes_zero() {
    let r = le_reader(vec![0x00]);
    let mut s = Stream::new(&r, Offset(80));
    assert_eq!(s.read_uleb128().unwrap(), 0);
    assert_eq!(s.offset.0, 81);
}

#[test]
fn leb128_handles_maximum_and_overflow() {
    // u64::MAX: nine 0xff groups and a final 0x01.
    let r = le_reader(vec![0xff, 0xff, 0xff, 0xff, 0xff, 0xff, 0xff, 0xff, 0xff, 0x01]);
    let mut s = Stream::new(&r, Offset(80));
    assert_eq!(s.read_uleb128().unwrap(), u64::MAX);
    // One bit past 64 does not fit.
    let r = le_reader(vec![0x80, 0x80, 0x80, 0x80, 0x80, 0x80, 0x80, 0x80, 0x80, 0x02]);
    let mut s = Stream::new(&r, Offset(80));
    assert_eq!(s.read_uleb128(), Err(ElfError::IntegerTooLarge));
}

#[test]
fn sleb128_decodes_signed_values() {
    let r = le_reader(vec![0x7f]);
    let mut s = Stream::new(&r, Offset(80));
    assert_eq!(s.read_sleb128().unwrap(), -1);
    let r = le_reader(vec![0x3f]);
    let mut s = Stream::new(&r, Offset(80));
    assert_eq!(s.read_sleb128().unwrap(), 63);
    // -129 is 0xFF 0x7E.
    let r = le_reader(vec![0xff, 0x7e]);
    let mut s = Stream::new(&r, Offset(80));
    assert_eq!(s.read_sleb128().unwrap(), -129);
}

#[test]
fn strings_stop_at_the_terminator() {
    let r = le_reader(b"core\0rest".to_vec());
    let mut s = Stream::new(&r, Offset(80));
    assert_eq!(s.read_string().unwrap(), "core");
    assert_eq!(s.offset.0, 85);
    // A string with no terminator before the end of the buffer fails.
    let r = le_reader(b"xyz".to_vec());
    let mut s = Stream::new(&r, Offset(80));
    assert!(s.read_string().is_err());
}

#[test]
fn byte_range_contains_its_bytes_exactly() {
    let range = Bytes::<VirtualAddr> { start: VirtualAddr(10), size: 5 };
    assert!(!range.contains(VirtualAddr(9)));
    assert!(range.contains(VirtualAddr(10)));
    assert!(range.contains(VirtualAddr(14)));
    assert!(!range.contains(VirtualAddr(15)));
    assert_eq!(range.end().0, 15);
    let empty = Bytes::<Offset> { start: Offset(10), size: 0 };
    assert!(!empty.contains(Offset(10)));
    assert_eq!(empty.end().0, 10);
}

#[test]
fn segment_translation_round_trips() {
    let seg = LoadSegment {
        obytes: Bytes { start: Offset(0x100), size: 0x40 },
        vbytes: Bytes { start: VirtualAddr(0x7000), size: 0x40 },
        flags: 6,
    };
    for v in [0x7000u64, 0x7001, 0x703f] {
        let o = seg.to_offset(VirtualAddr(v)).unwrap();
        assert_eq!(o.0, 0x100 + (v - 0x7000));
    }
    assert!(seg.to_offset(VirtualAddr(0x6fff)).is_none());
    assert!(seg.to_offset(VirtualAddr(0x7040)).is_none());
    assert!(seg.writeable());
    assert!(seg.readable());
    assert!(!seg.executable());
    assert_eq!(seg.flags(), "-wr");
    assert_eq!(ProgramHeader::flags(5), "x-r");
}

#[test]
fn symbol_bytes_decode_by_nibble() {
    // Binding nibble 1 is Global, type nibble 2 is Func.
    assert_eq!(SymbolBinding::from_u8(0x10), SymbolBinding::Global);
    assert_eq!(SymbolType::from_u8(0x02), SymbolType::Func);
    assert_eq!(SymbolType::from_u8(0x12), SymbolType::Func);
    assert_eq!(SymbolBinding::from_u8(0x00), SymbolBinding::Local);
    assert_eq!(SymbolBinding::from_u8(0x20), SymbolBinding::Weak);
    assert_eq!(SymbolBinding::from_u8(0x30), SymbolBinding::Reserved);
    assert_eq!(SymbolVisibility::from_u8(2), SymbolVisibility::Hidden);
    assert_eq!(SymbolIndex::from_u16(0), SymbolIndex::Undef);
    assert_eq!(SymbolIndex::from_u16(0xfff1), SymbolIndex::Abs);
    assert_eq!(
        SymbolIndex::from_u16(7),
        SymbolIndex::Index(udb::ranges::SectionIndex(7))
    );
}

#[test]
fn type_codes_decode_to_their_variants() {
    assert_eq!(SegmentType::from_u32(1), SegmentType::Load);
    assert_eq!(SegmentType::from_u32(4), SegmentType::Note);
    assert_eq!(SegmentType::from_u32(0x12345), SegmentType::Null);
    assert_eq!(SectionType::from_u32(0x2), SectionType::SymbolTable);
    assert_eq!(SectionType::from_u32(0x3), SectionType::StringTable);
    assert_eq!(SectionType::from_u32(0x999), SectionType::Null);
    assert_eq!(RelocationX86_64::from_u64(7).unwrap(), RelocationX86_64::JumpSlot);
    assert_eq!(
        RelocationX86_64::from_u64(99),
        Err(ElfError::BadRelocationType(99))
    );
}

#[test]
fn note_types_dispatch_on_name_then_code() {
    assert_eq!(NoteType::new("CORE", 1), NoteType::Core(CoreNoteType::PrStatus));
    assert_eq!(
        NoteType::new("CORE", 0x46494c45),
        NoteType::Core(CoreNoteType::File)
    );
    assert_eq!(
        NoteType::new("CORE", 0x53494749),
        NoteType::Core(CoreNoteType::SigInfo)
    );
    assert_eq!(NoteType::new("CORE", 999), NoteType::Core(CoreNoteType::Other));
    assert_eq!(NoteType::new("GNU", 3), NoteType::Gnu(GnuNoteType::BuildId));
    assert_eq!(
        NoteType::new("XEN", 2),
        NoteType::Generic(GenericNoteType::Arch)
    );
}

#[test]
fn abbreviation_table_ends_at_zero_code() {
    // A zero code at the start means an empty table for the unit.
    let r = le_reader(vec![0x00]);
    let mut s = Stream::new(&r, Offset(80));
    assert!(Abbreviation::new(&mut s).unwrap().is_none());
    // One abbreviation: code 1, tag 0x24 (base type), no children, the
    // byte-size attribute (0x0b) in data1 form (0x0b), then the (0, 0)
    // terminator.
    let r = le_reader(vec![0x01, 0x24, 0x00, 0x0b, 0x0b, 0x00, 0x00]);
    let mut s = Stream::new(&r, Offset(80));
    let a = Abbreviation::new(&mut s).unwrap().unwrap();
    assert_eq!(a.tag, udb::dwarf::Tag::DW_TAG_base_type);
    assert!(!a.has_children);
    assert_eq!(a.attrs.len(), 1);
    assert_eq!(a.attrs[0].name, udb::dwarf::AttributeName::DW_AT_byte_size);
    assert_eq!(a.attrs[0].encoding, udb::dwarf::FormEncoding::DW_FORM_data1);
}

#[test]
fn input_parsers_accept_and_reject() {
    assert_eq!(byte_str_to_vec("ab 0c1d").unwrap(), vec![0xab, 0x0c, 0x1d]);
    assert_eq!(byte_str_to_vec("20").unwrap(), vec![0x20]);
    assert_eq!(byte_str_to_vec("xy"), Err(ElfError::BadHexString));
    assert_eq!(byte_str_to_vec("a"), Err(ElfError::BadHexString));
    assert_eq!(ascii_str_to_vec("apple"), b"apple".to_vec());
    assert_eq!(parse_u64_expr("0x10").unwrap(), 16);
    assert_eq!(parse_u64_expr("25").unwrap(), 25);
    assert!(parse_u64_expr("0x").is_err());
    assert!(parse_u64_expr("12z").is_err());
}

#[test]
fn utility_helpers_behave() {
    assert_eq!(udb::align_to_word(0), 0);
    assert_eq!(udb::align_to_word(1), 4);
    assert_eq!(udb::align_to_word(4), 4);
    assert_eq!(udb::align_to_word(5), 8);
    assert!(udb::require(true, ElfError::BadMagic).is_ok());
    assert_eq!(udb::require(false, ElfError::BadMagic), Err(ElfError::BadMagic));
    assert_eq!(ElfError::BadMagic.message(), "not an ELF file (bad magic)");
}

#[test]
fn registers_have_names_and_rarity() {
    let st = PrStatus { signal_num: 11, signal_code: 1, pid: 1, registers: vec![0; 26] };
    assert_eq!(st.register_name(16), "rip");
    assert_eq!(st.register_name(4), "rbp");
    assert_eq!(st.register_name(15), "?");
    assert!(st.is_rare_register(17));
    assert!(!st.is_rare_register(16));
    assert_eq!(st.signal(), "SIGSEGV: Address not mapped to object");
    let st2 = PrStatus { signal_num: 9, signal_code: 0, pid: 1, registers: vec![0; 26] };
    assert_eq!(st2.signal(), "SIGKILL");
}

#[test]
fn key_maps_hand_out_dense_keys() {
    let mut m: KeyMap<FileKey> = KeyMap::new("?".to_string());
    let a = m.insert("alpha.c".to_string());
    let b = m.insert("beta.c".to_string());
    let a2 = m.insert("alpha.c".to_string());
    assert_eq!(a, a2);
    assert_ne!(a, b);
    assert_eq!(m.get(a), "alpha.c");
    assert_eq!(m.get(b), "beta.c");
    assert_eq!(m.iter(), vec!["alpha.c".to_string(), "beta.c".to_string()]);
    let overflow = m.insert("?".to_string());
    assert_eq!(overflow.as_index(), 0);
}

#[test]
fn section_flags_render_as_words() {
    assert_eq!(SectionHeader::flags(0), "none");
    assert_eq!(SectionHeader::flags(0x1), "WRITE");
    assert_eq!(SectionHeader::flags(0x7), "WRITE ALLOC EXEC");
    assert_eq!(SectionHeader::flags(0x402), "ALLOC TLS");
}
