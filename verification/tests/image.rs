//! Whole-image decoding on synthetic 64-bit little-endian files: tables,
//! notes, the memory map, symbols, and the address queries.

use udb::ElfError;
use udb::elf_file::ElfFile;
use udb::notes::SignalDetails;
use udb::ranges::{Offset, SectionIndex, StringIndex, VirtualAddr};

// ---- builders for synthetic images -------------------------------------

fn put(b: &mut Vec<u8>, at: usize, bytes: &[u8]) {
    if b.len() < at + bytes.len() {
        b.resize(at + bytes.len(), 0);
    }
    b[at..at + bytes.len()].copy_from_slice(bytes);
}

fn ehdr64(etype: u16, phoff: u64, phnum: u16, shoff: u64, shnum: u16, shstrndx: u16) -> Vec<u8> {
    let mut b = vec![0u8; 64];
    put(&mut b, 0, &[0x7f, 0x45, 0x4c, 0x46, 2, 1, 1, 0]);
    put(&mut b, 0x10, &etype.to_le_bytes());
    put(&mut b, 0x12, &0x3eu16.to_le_bytes());
    put(&mut b, 0x14, &1u32.to_le_bytes());
    put(&mut b, 0x20, &phoff.to_le_bytes());
    put(&mut b, 0x28, &shoff.to_le_bytes());
    put(&mut b, 0x34, &64u16.to_le_bytes());
    put(&mut b, 0x36, &56u16.to_le_bytes());
    put(&mut b, 0x38, &phnum.to_le_bytes());
    put(&mut b, 0x3a, &64u16.to_le_bytes());
    put(&mut b, 0x3c, &shnum.to_le_bytes());
    put(&mut b, 0x3e, &shstrndx.to_le_bytes());
    b
}

fn phdr64(ptype: u32, flags: u32, offset: u64, vaddr: u64, filesz: u64, memsz: u64) -> Vec<u8> {
    let mut p = vec![0u8; 56];
    put(&mut p, 0, &ptype.to_le_bytes());
    put(&mut p, 4, &flags.to_le_bytes());
    put(&mut p, 8, &offset.to_le_bytes());
    put(&mut p, 16, &vaddr.to_le_bytes());
    put(&mut p, 24, &vaddr.to_le_bytes());
    put(&mut p, 32, &filesz.to_le_bytes());
    put(&mut p, 40, &memsz.to_le_bytes());
    put(&mut p, 48, &8u64.to_le_bytes());
    p
}

fn note(name: &str, ntype: u32, desc: &[u8]) -> Vec<u8> {
    let mut n = Vec::new();
    let name_bytes = name.as_bytes();
    n.extend(&((name_bytes.len() + 1) as u32).to_le_bytes());
    n.extend(&(desc.len() as u32).to_le_bytes());
    n.extend(&ntype.to_le_bytes());
    n.extend(name_bytes);
    n.push(0);
    while n.len() % 4 != 0 {
        n.push(0);
    }
    n.extend(desc);
    while n.len() % 4 != 0 {
        n.push(0);
    }
    n
}

fn prstatus_desc(signal: i32, code: i32, pid: i32, ip: u64, rbp: u64, rsp: u64) -> Vec<u8> {
    let mut d = vec![0u8; 320];
    put(&mut d, 0, &signal.to_le_bytes());
    put(&mut d, 4, &code.to_le_bytes());
    put(&mut d, 32, &pid.to_le_bytes());
    put(&mut d, 112 + 8 * 4, &rbp.to_le_bytes());
    put(&mut d, 112 + 8 * 16, &ip.to_le_bytes());
    put(&mut d, 112 + 8 * 19, &rsp.to_le_bytes());
    d
}

fn file_note_desc(records: &[(u64, u64, &str)]) -> Vec<u8> {
    let mut d = Vec::new();
    d.extend(&(records.len() as u64).to_le_bytes());
    d.extend(&4096u64.to_le_bytes());
    for (start, end, _) in records {
        d.extend(&start.to_le_bytes());
        d.extend(&end.to_le_bytes());
        d.extend(&0u64.to_le_bytes());
    }
    for (_, _, name) in records {
        d.extend(name.as_bytes());
        d.push(0);
    }
    d
}

fn siginfo_desc(signo: u64, code: u64, fault_addr: u64) -> Vec<u8> {
    let mut d = Vec::new();
    d.extend(&signo.to_le_bytes());
    d.extend(&0u64.to_le_bytes());
    d.extend(&code.to_le_bytes());
    d.extend(&fault_addr.to_le_bytes());
    d
}

/// A core with a status note, a fault signal note, a three-record memory
/// map, and one writable load segment holding a little stack.
fn make_core() -> Vec<u8> {
    let stack_vaddr: u64 = 0x7000;
    // The stack: frame records for the walker and some findable text.
    let mut stack = vec![0u8; 0x100];
    // Frame at 0x7010: saved rbp 0x7040, return address 0x1111.
    put(&mut stack, 0x10, &0x7040u64.to_le_bytes());
    put(&mut stack, 0x18, &0x1111u64.to_le_bytes());
    // Frame at 0x7040: saved rbp 0x7090, return address 0x2222.
    put(&mut stack, 0x40, &0x7090u64.to_le_bytes());
    put(&mut stack, 0x48, &0x2222u64.to_le_bytes());
    // Frame at 0x7090: saved rbp 0 ends the walk, return address 0x3333.
    put(&mut stack, 0x90, &0u64.to_le_bytes());
    put(&mut stack, 0x98, &0x3333u64.to_le_bytes());
    put(&mut stack, 0xc0, b"apple and count\0");

    let notes: Vec<u8> = [
        note("CORE", 1, &prstatus_desc(11, 1, 1234, 0x5555, 0x7010, 0x7000)),
        note("CORE", 0x53494749, &siginfo_desc(11, 3 << 16, 0xdead)),
        note(
            "CORE",
            0x46494c45,
            &file_note_desc(&[(0, 100, "a"), (100, 200, "a"), (200, 210, "b")]),
        ),
    ]
    .concat();

    let phoff = 64u64;
    let note_off = 64 + 2 * 56;
    let stack_off = note_off + notes.len() as u64;
    let mut b = ehdr64(4, phoff, 2, 0, 0, 0);
    b.extend(phdr64(4, 0, note_off, 0, notes.len() as u64, 0));
    b.extend(phdr64(1, 6, stack_off, stack_vaddr, 0x100, 0x100));
    assert_eq!(b.len() as u64, note_off);
    b.extend(&notes);
    assert_eq!(b.len() as u64, stack_off);
    b.extend(&stack);
    b
}

// ---- the tests ----------------------------------------------------------

#[test]
fn open_rejects_non_elf_bytes() {
    let mut b = make_core();
    b[0] = b'M';
    assert_eq!(ElfFile::new(b).err(), Some(ElfError::BadMagic));
}

#[test]
fn core_tables_load_eagerly() {
    let f = ElfFile::new(make_core()).unwrap();
    assert!(f.header.is_core());
    assert!(f.header.is_x86_64());
    assert_eq!(f.header.machine(), "x86-64");
    assert_eq!(f.header.stype(), "core");
    assert_eq!(f.loads.len(), 1);
    assert_eq!(f.notes.len(), 3);
    assert_eq!(f.sections.len(), 0);
    assert_eq!(f.notes[0].name, "CORE");
}

#[test]
fn truncated_final_note_keeps_the_earlier_ones() {
    // Corrupt the last note's length field so its payload runs past the
    // end of the segment: the earlier notes stay queryable.
    let good = ElfFile::new(make_core()).unwrap();
    let mut b = make_core();
    let last = good.notes[2].contents.start.0 as usize;
    // The note head starts twelve bytes plus the padded name before the
    // payload; make its name-size field exceed the file.
    let head = last - 12 - udb::align_to_word(5) as usize;
    put(&mut b, head, &0xffff_0000u32.to_le_bytes());
    let f = ElfFile::new(b).unwrap();
    assert_eq!(f.notes.len(), 2);
    assert!(f.find_prstatus().is_some());
}

#[test]
fn prstatus_decodes_fields_and_registers() {
    let f = ElfFile::new(make_core()).unwrap();
    let st = f.find_prstatus().unwrap();
    assert_eq!(st.signal_num, 11);
    assert_eq!(st.signal_code, 1);
    assert_eq!(st.pid, 1234);
    assert_eq!(st.get_ip().0, 0x5555);
    assert_eq!(st.get_frame_stack_top().0, 0x7010);
    assert_eq!(st.get_frame_stack_bottom().0, 0x7000);
}

#[test]
fn siginfo_decodes_the_fault_class() {
    let f = ElfFile::new(make_core()).unwrap();
    let info = f.find_signal_info().unwrap();
    match info.details {
        SignalDetails::Fault(fault) => assert_eq!(fault.fault_addr, 0xdead),
        _ => panic!("expected a fault"),
    }
}

#[test]
fn memory_map_merges_adjacent_same_file_records() {
    let f = ElfFile::new(make_core()).unwrap();
    let files = f.get_memory_mapped_files().unwrap();
    assert_eq!(files.len(), 2);
    assert_eq!(files[0].vbytes.start.0, 0);
    assert_eq!(files[0].vbytes.size, 200);
    assert_eq!(files[0].file_name, "a");
    assert_eq!(files[1].vbytes.start.0, 200);
    assert_eq!(files[1].vbytes.size, 10);
    assert_eq!(files[1].file_name, "b");
}

#[test]
fn relative_addresses_come_from_the_memory_map() {
    let f = ElfFile::new(make_core()).unwrap();
    assert_eq!(f.vaddr_to_raddr(VirtualAddr(150)).unwrap().0, 150);
    assert_eq!(f.vaddr_to_raddr(VirtualAddr(205)).unwrap().0, 5);
    assert!(f.vaddr_to_raddr(VirtualAddr(50000)).is_none());
}

#[test]
fn load_segment_queries_translate_addresses() {
    let f = ElfFile::new(make_core()).unwrap();
    let seg = f.find_load_segment(VirtualAddr(0x7010)).unwrap();
    assert!(seg.writeable());
    let o = seg.to_offset(VirtualAddr(0x7010)).unwrap();
    let (seg2, back) = f.offset_to_vaddr(o).unwrap();
    assert_eq!(back.0, 0x7010);
    assert_eq!(seg2.vbytes.start.0, seg.vbytes.start.0);
    assert!(f.find_load_segment(VirtualAddr(0x9999)).is_none());
}

#[test]
fn segments_enumerate_the_raw_table() {
    let f = ElfFile::new(make_core()).unwrap();
    let phs = ElfFile::find_segments(&f.reader, &f.header);
    assert_eq!(phs.len(), 2);
    assert_eq!(phs[0].stype, udb::segments::SegmentType::Note);
    assert_eq!(phs[1].stype, udb::segments::SegmentType::Load);
    assert_eq!(phs[1].mem_size, 0x100);
}

/// An executable with a string table, a symbol table, and enough header
/// plumbing to resolve names.
fn make_exe_with_symbols() -> Vec<u8> {
    // Layout: ehdr, 3 shdrs at 64, strtab, symtab.
    let shoff = 64u64;
    let strtab_off = 64 + 3 * 64;
    let strtab = b"\0main\0.strtab\0extra\0";
    let symtab_off = strtab_off + strtab.len() as u64;
    // One 24-byte symbol: name index 1 ("main"), info 0x12
    // (global func), value 0x40, size 16, section index 1.
    let mut sym = vec![0u8; 24];
    put(&mut sym, 0, &1u32.to_le_bytes());
    sym[4] = 0x12;
    sym[5] = 0;
    put(&mut sym, 6, &1u16.to_le_bytes());
    put(&mut sym, 8, &0x40u64.to_le_bytes());
    put(&mut sym, 16, &16u64.to_le_bytes());

    let mut b = ehdr64(2, 0, 0, shoff, 3, 1);
    let mut shdr = |name: u32, stype: u32, off: u64, size: u64, link: u32, entsize: u64| {
        let mut h = vec![0u8; 64];
        put(&mut h, 0, &name.to_le_bytes());
        put(&mut h, 4, &stype.to_le_bytes());
        put(&mut h, 24, &off.to_le_bytes());
        put(&mut h, 32, &size.to_le_bytes());
        put(&mut h, 40, &link.to_le_bytes());
        put(&mut h, 56, &entsize.to_le_bytes());
        h
    };
    b.extend(shdr(0, 0, 0, 0, 0, 0));
    b.extend(shdr(6, 3, strtab_off, strtab.len() as u64, 0, 0));
    b.extend(shdr(0, 2, symtab_off, 24, 1, 24));
    assert_eq!(b.len() as u64, strtab_off);
    b.extend(strtab.to_vec());
    b.extend(sym);
    b
}

#[test]
fn symbols_resolve_their_names() {
    let f = ElfFile::new(make_exe_with_symbols()).unwrap();
    let table = f.find_symbols().unwrap();
    assert!(!table.dynamic);
    assert_eq!(table.entries.len(), 1);
    let e = &table.entries[0];
    assert_eq!(e.value, 0x40);
    assert_eq!(e.size, 16);
    assert_eq!(e.stype, udb::symbols::SymbolType::Func);
    assert_eq!(e.binding, udb::symbols::SymbolBinding::Global);
    let name = f.find_string(SectionIndex(table.section.link), StringIndex(e.name.0));
    assert_eq!(name.unwrap(), "main");
    assert!(f.find_dynamic_symbols().is_none());
}

#[test]
fn string_tables_support_suffix_aliasing() {
    let f = ElfFile::new(make_exe_with_symbols()).unwrap();
    // Index 1 is "main"; index 3 points into its middle.
    assert_eq!(f.find_default_string(StringIndex(1)).unwrap(), "main");
    assert_eq!(f.find_default_string(StringIndex(3)).unwrap(), "in");
    assert_eq!(f.find_section_name(SectionIndex(1)).unwrap(), ".strtab");
    assert!(f.find_string(SectionIndex(9), StringIndex(0)).is_none());
    let strings = f.find_strings(&f.sections[1], 2);
    assert_eq!(strings, vec!["".to_string(), "main".to_string()]);
    let all = f.find_strings(&f.sections[1], 0);
    assert_eq!(
        all,
        vec!["".to_string(), "main".to_string(), ".strtab".to_string(), "extra".to_string()]
    );
}

/// An executable with one with-addend relocation section.
fn make_exe_with_relocations() -> Vec<u8> {
    let shoff = 64u64;
    let rela_off = 64 + 2 * 64u64;
    // One 24-byte entry: offset 0x1000, symbol 3, type 8 (relative),
    // addend -7.
    let mut rela = vec![0u8; 24];
    put(&mut rela, 0, &0x1000u64.to_le_bytes());
    put(&mut rela, 8, &((3u64 << 32) | 8).to_le_bytes());
    put(&mut rela, 16, &(-7i64).to_le_bytes());
    let mut b = ehdr64(2, 0, 0, shoff, 2, 0);
    let mut h = vec![0u8; 64];
    b.extend(h.clone());
    put(&mut h, 4, &4u32.to_le_bytes());
    put(&mut h, 24, &rela_off.to_le_bytes());
    put(&mut h, 32, &24u64.to_le_bytes());
    put(&mut h, 56, &24u64.to_le_bytes());
    b.extend(h);
    b.extend(rela);
    b
}

#[test]
fn relocations_decode_the_composite_word() {
    let f = ElfFile::new(make_exe_with_relocations()).unwrap();
    let mut result = Vec::new();
    assert!(f.find_relocations(&mut result).is_ok());
    assert_eq!(result.len(), 1);
    let r = &result[0];
    assert_eq!(r.offset, 0x1000);
    assert_eq!(r.symbol_index, 3);
    assert_eq!(r.rtype, udb::sections::RelocationX86_64::Relative);
    assert_eq!(r.addend, Some(-7));
    assert!(r.dynamic);
}

#[test]
fn header_fields_decode_at_their_offsets() {
    let f = ElfFile::new(make_core()).unwrap();
    assert_eq!(f.header.etype, 4);
    assert_eq!(f.header.machine, 0x3e);
    assert_eq!(f.header.ph_offset, 64);
    assert_eq!(f.header.num_ph_entries, 2);
    assert_eq!(f.header.ph_entry_size, 56);
    assert_eq!(f.header.abi(), "System V");
    assert!(f.reader.little_endian);
    assert!(f.reader.sixty_four_bit);
}

/// A minimal 32-bit little-endian core: the header tables use the narrow
/// layout, where field order differs from the wide one.
fn make_core32() -> Vec<u8> {
    let mut b = vec![0u8; 0x34];
    put(&mut b, 0, &[0x7f, 0x45, 0x4c, 0x46, 1, 1, 1, 0]);
    put(&mut b, 0x10, &4u16.to_le_bytes());
    put(&mut b, 0x12, &3u16.to_le_bytes());
    put(&mut b, 0x14, &1u32.to_le_bytes());
    put(&mut b, 0x1c, &0x34u32.to_le_bytes()); // program header table
    put(&mut b, 0x2a, &32u16.to_le_bytes()); // entry size
    put(&mut b, 0x2c, &1u16.to_le_bytes()); // one entry
    // One 32-byte load segment entry: type, offset, vaddr, paddr, file
    // size, memory size, flags, align.
    let mut p = vec![0u8; 32];
    put(&mut p, 0, &1u32.to_le_bytes());
    put(&mut p, 4, &0x60u32.to_le_bytes());
    put(&mut p, 8, &0x8000u32.to_le_bytes());
    put(&mut p, 16, &0x10u32.to_le_bytes());
    put(&mut p, 20, &0x10u32.to_le_bytes());
    put(&mut p, 24, &5u32.to_le_bytes());
    b.extend(p);
    b.resize(0x80, 0xcc);
    b
}

#[test]
fn narrow_layout_headers_decode() {
    let f = ElfFile::new(make_core32()).unwrap();
    assert!(!f.reader.sixty_four_bit);
    assert!(f.header.is_core());
    assert_eq!(f.header.machine(), "x86");
    assert_eq!(f.loads.len(), 1);
    let seg = &f.loads[0];
    assert_eq!(seg.obytes.start.0, 0x60);
    assert_eq!(seg.vbytes.start.0, 0x8000);
    assert_eq!(seg.vbytes.size, 0x10);
    assert!(seg.executable());
    assert!(seg.readable());
    assert!(!seg.writeable());
}

#[test]
fn relocations_on_another_architecture_are_an_explicit_error() {
    // The same image with an AArch64 machine code: the decoder reports the
    // capability gap and appends nothing.
    let mut b = make_exe_with_relocations();
    put(&mut b, 0x12, &0xb7u16.to_le_bytes());
    let f = ElfFile::new(b).unwrap();
    let mut result = Vec::new();
    assert_eq!(
        f.find_relocations(&mut result),
        Err(ElfError::UnsupportedArchitecture)
    );
    assert!(result.is_empty());
}
