//! Paired core and executable queries on synthetic files: classification,
//! the stack walker, byte searching, dumping, and source-line lookup.

use udb::ElfError;
use udb::elf_file::ElfFile;
use udb::elf_files::ElfFiles;
use udb::ranges::{Offset, VirtualAddr};
use udb::search::{ascii_str_to_vec, byte_str_to_vec, find_everywhere, find_in_load_segments};

fn s_put(b: &mut Vec<u8>, at: usize, bytes: &[u8]) {
    if b.len() < at + bytes.len() {
        b.resize(at + bytes.len(), 0);
    }
    b[at..at + bytes.len()].copy_from_slice(bytes);
}

fn s_ehdr64(etype: u16, phoff: u64, phnum: u16, shoff: u64, shnum: u16, shstrndx: u16) -> Vec<u8> {
    let mut b = vec![0u8; 64];
    s_put(&mut b, 0, &[0x7f, 0x45, 0x4c, 0x46, 2, 1, 1, 0]);
    s_put(&mut b, 0x10, &etype.to_le_bytes());
    s_put(&mut b, 0x12, &0x3eu16.to_le_bytes());
    s_put(&mut b, 0x14, &1u32.to_le_bytes());
    s_put(&mut b, 0x20, &phoff.to_le_bytes());
    s_put(&mut b, 0x28, &shoff.to_le_bytes());
    s_put(&mut b, 0x34, &64u16.to_le_bytes());
    s_put(&mut b, 0x36, &56u16.to_le_bytes());
    s_put(&mut b, 0x38, &phnum.to_le_bytes());
    s_put(&mut b, 0x3a, &64u16.to_le_bytes());
    s_put(&mut b, 0x3c, &shnum.to_le_bytes());
    s_put(&mut b, 0x3e, &shstrndx.to_le_bytes());
    b
}

fn s_phdr64(ptype: u32, flags: u32, offset: u64, vaddr: u64, filesz: u64, memsz: u64) -> Vec<u8> {
    let mut p = vec![0u8; 56];
    s_put(&mut p, 0, &ptype.to_le_bytes());
    s_put(&mut p, 4, &flags.to_le_bytes());
    s_put(&mut p, 8, &offset.to_le_bytes());
    s_put(&mut p, 16, &vaddr.to_le_bytes());
    s_put(&mut p, 24, &vaddr.to_le_bytes());
    s_put(&mut p, 32, &filesz.to_le_bytes());
    s_put(&mut p, 40, &memsz.to_le_bytes());
    s_put(&mut p, 48, &8u64.to_le_bytes());
    p
}

fn s_note(name: &str, ntype: u32, desc: &[u8]) -> Vec<u8> {
    let mut n = Vec::new();
    let name_bytes = name.as_bytes();
    n.extend(&((name_bytes.len() + 1) as u32).to_le_bytes());
    n.extend(&(desc.len() as u32).to_le_bytes());
    n.extend(&ntype.to_le_bytes());
    n.extend(name_bytes);
    n.push(0);
    while n.len() % 4 != 0 {
        n.push(0);
    }
    n.extend(desc);
    while n.len() % 4 != 0 {
        n.push(0);
    }
    n
}

fn s_prstatus(ip: u64, rbp: u64) -> Vec<u8> {
    let mut d = vec![0u8; 320];
    s_put(&mut d, 0, &11i32.to_le_bytes());
    s_put(&mut d, 4, &1i32.to_le_bytes());
    s_put(&mut d, 32, &77i32.to_le_bytes());
    s_put(&mut d, 112 + 8 * 4, &rbp.to_le_bytes());
    s_put(&mut d, 112 + 8 * 16, &ip.to_le_bytes());
    s_put(&mut d, 112 + 8 * 19, &0x7000u64.to_le_bytes());
    d
}

fn s_file_note(records: &[(u64, u64, &str)]) -> Vec<u8> {
    let mut d = Vec::new();
    d.extend(&(records.len() as u64).to_le_bytes());
    d.extend(&4096u64.to_le_bytes());
    for (start, end, _) in records {
        d.extend(&start.to_le_bytes());
        d.extend(&end.to_le_bytes());
        d.extend(&0u64.to_le_bytes());
    }
    for (_, _, name) in records {
        d.extend(name.as_bytes());
        d.push(0);
    }
    d
}

/// A core whose single writable load segment holds a frame chain and a
/// few findable strings, and whose memory map is configurable.
fn s_core(rbp: u64, map: &[(u64, u64, &str)]) -> Vec<u8> {
    let stack_vaddr: u64 = 0x7000;
    let mut stack = vec![0u8; 0x100];
    s_put(&mut stack, 0x10, &0x7040u64.to_le_bytes());
    s_put(&mut stack, 0x18, &0x1111u64.to_le_bytes());
    s_put(&mut stack, 0x40, &0x7090u64.to_le_bytes());
    s_put(&mut stack, 0x48, &0x2222u64.to_le_bytes());
    s_put(&mut stack, 0x90, &0u64.to_le_bytes());
    s_put(&mut stack, 0x98, &0x3333u64.to_le_bytes());
    s_put(&mut stack, 0xc0, b"apple and count\0");

    let notes: Vec<u8> = [
        s_note("CORE", 1, &s_prstatus(0x5555, rbp)),
        s_note("CORE", 0x46494c45, &s_file_note(map)),
    ]
    .concat();
    let note_off = 64 + 2 * 56;
    let stack_off = note_off + notes.len() as u64;
    let mut b = s_ehdr64(4, 64, 2, 0, 0, 0);
    b.extend(s_phdr64(4, 0, note_off, 0, notes.len() as u64, 0));
    b.extend(s_phdr64(1, 6, stack_off, stack_vaddr, 0x100, 0x100));
    b.extend(&notes);
    b.extend(&stack);
    b
}

fn s_uleb(v: u64) -> Vec<u8> {
    let mut out = Vec::new();
    let mut v = v;
    loop {
        let byte = (v & 0x7f) as u8;
        v >>= 7;
        if v == 0 {
            out.push(byte);
            break;
        }
        out.push(byte | 0x80);
    }
    out
}

/// An executable whose `.debug_line` program maps relative address 0x40
/// to app.c line 1, 0x44 to line 3, and 0x48 to line 5.
fn s_exe_with_lines() -> Vec<u8> {
    let mut lt: Vec<u8> = Vec::new();
    // Header fields after the header-length word.
    let mut hdr: Vec<u8> = Vec::new();
    hdr.push(1); // minimum instruction length
    hdr.push(1); // default is_stmt
    hdr.push(0xfb); // line base -5
    hdr.push(14); // line range
    hdr.push(13); // opcode base
    hdr.extend([0u8, 1, 1, 1, 1, 0, 0, 0, 1, 0, 0, 1]); // standard operand counts
    hdr.push(0); // no include paths
    hdr.extend(b"app.c\0");
    hdr.extend(s_uleb(0)); // directory index
    hdr.extend(s_uleb(0)); // mtime
    hdr.extend(s_uleb(0)); // length
    hdr.push(0); // end of file table
    let mut prog: Vec<u8> = Vec::new();
    prog.extend([0x00, 0x09, 0x02]); // extended: set address
    prog.extend(&0x40u64.to_le_bytes());
    prog.push(0x01); // copy: row (0x40, line 1)
    prog.extend([0x03, 0x02]); // advance line by +2
    prog.extend([0x02, 0x04]); // advance pc by 4
    prog.push(0x01); // copy: row (0x44, line 3)
    // A special opcode: advance the address by 4 and the line by 2 in one
    // byte (adjusted 4 * 14 + (2 - line base) = 63).
    prog.push(13 + 63);
    prog.extend([0x00, 0x01, 0x01]); // end of sequence
    let unit_len = (2 + 4 + hdr.len() + prog.len()) as u32;
    lt.extend(&unit_len.to_le_bytes());
    lt.extend(&2u16.to_le_bytes()); // version
    lt.extend(&(hdr.len() as u32).to_le_bytes());
    lt.extend(&hdr);
    lt.extend(&prog);

    let shoff = 64u64;
    let names = b"\0.shstrtab\0.debug_line\0";
    let names_off = 64 + 3 * 64u64;
    let lt_off = names_off + names.len() as u64;
    let mut b = s_ehdr64(2, 0, 0, shoff, 3, 1);
    let mut shdr = |name: u32, stype: u32, off: u64, size: u64| {
        let mut h = vec![0u8; 64];
        s_put(&mut h, 0, &name.to_le_bytes());
        s_put(&mut h, 4, &stype.to_le_bytes());
        s_put(&mut h, 24, &off.to_le_bytes());
        s_put(&mut h, 32, &size.to_le_bytes());
        h
    };
    b.extend(shdr(0, 0, 0, 0));
    b.extend(shdr(1, 3, names_off, names.len() as u64));
    b.extend(shdr(11, 1, lt_off, lt.len() as u64));
    b.extend(names.to_vec());
    b.extend(&lt);
    b
}

fn s_pair() -> ElfFiles {
    let core = ElfFile::new(s_core(0x7010, &[(0x2000, 0x2100, "libapp")])).unwrap();
    let exe = ElfFile::new(s_exe_with_lines()).unwrap();
    ElfFiles::new(vec![core, exe]).unwrap()
}

// ---- classification -----------------------------------------------------

#[test]
fn files_classify_into_core_and_exe() {
    let files = s_pair();
    assert!(files.core.is_some());
    assert!(files.exe.is_some());
}

#[test]
fn two_cores_or_two_exes_are_rejected() {
    let a = ElfFile::new(s_core(0x7010, &[])).unwrap();
    let b = ElfFile::new(s_core(0x7010, &[])).unwrap();
    assert_eq!(ElfFiles::new(vec![a, b]).err(), Some(ElfError::MultipleCores));
    let a = ElfFile::new(s_exe_with_lines()).unwrap();
    let b = ElfFile::new(s_exe_with_lines()).unwrap();
    assert_eq!(ElfFiles::new(vec![a, b]).err(), Some(ElfError::MultipleExes));
}

// ---- the stack walker ---------------------------------------------------

#[test]
fn bt() {
    let files = s_pair();
    let bt = files.raw_backtrace().unwrap();
    let addrs: Vec<u64> = bt.iter().map(|a| a.0).collect();
    assert_eq!(addrs, vec![0x5555, 0x1111, 0x2222, 0x3333]);
}

#[test]
fn bt_reports_a_frame_pointer_outside_every_segment() {
    // The frame register points nowhere useful: the walk reports the
    // missing load segment at once and yields no frames.
    let core = ElfFile::new(s_core(0x9999, &[])).unwrap();
    let files = ElfFiles::new(vec![core]).unwrap();
    assert_eq!(files.raw_backtrace().err(), Some(ElfError::NoLoadSegment));
    assert_eq!(
        ElfError::NoLoadSegment.message(),
        "couldn't find load segment"
    );
}

#[test]
fn bt_without_a_core_reports_no_status() {
    let exe = ElfFile::new(s_exe_with_lines()).unwrap();
    let files = ElfFiles::new(vec![exe]).unwrap();
    assert_eq!(files.raw_backtrace().err(), Some(ElfError::NoPrStatus));
}

// ---- searching ----------------------------------------------------------

#[test]
fn find_default_str() {
    let files = s_pair();
    let core = files.core.as_ref().unwrap();
    let hits = find_in_load_segments(core, &ascii_str_to_vec("apple"), 0);
    assert_eq!(hits.len(), 1);
    assert_eq!(hits[0].0, 0x70c0);
}

#[test]
fn find_all_str() {
    let files = s_pair();
    let core = files.core.as_ref().unwrap();
    let (addrs, offs) = find_everywhere(core, &ascii_str_to_vec("count"));
    let hit: Vec<u64> = addrs.iter().map(|a| a.0).collect();
    assert_eq!(hit, vec![0x70ca]);
    assert!(offs.is_empty());
}

#[test]
fn find_hex() {
    let files = s_pair();
    let core = files.core.as_ref().unwrap();
    let pattern = byte_str_to_vec("20").unwrap();
    let hits = find_in_load_segments(core, &pattern, 10);
    assert!(hits.len() <= 10);
    // 0x20 is the space between the words on the stack.
    assert!(hits.iter().any(|a| a.0 == 0x70c5));
    assert!(hits.iter().any(|a| a.0 == 0x70c9));
}

#[test]
fn find_all_hex() {
    let files = s_pair();
    let core = files.core.as_ref().unwrap();
    let pattern = byte_str_to_vec("20").unwrap();
    let (addrs, offs) = find_everywhere(core, &pattern);
    // The byte occurs both inside the stack segment and in the notes.
    assert!(addrs.iter().any(|a| a.0 == 0x70c5));
    assert!(!offs.is_empty());
}

#[test]
fn find_str_dump() {
    // Search, then dump 25 bytes from the hit, as the interactive find
    // command shows context around each match.
    let files = s_pair();
    let core = files.core.as_ref().unwrap();
    let hits = find_in_load_segments(core, &ascii_str_to_vec("count"), 0);
    assert_eq!(hits.len(), 1);
    let seg = core.find_load_segment(hits[0]).unwrap();
    let offset = seg.to_offset(hits[0]).unwrap();
    let bytes = core.reader.slice(offset, 6).unwrap();
    assert_eq!(bytes, b"count\0".to_vec());
}

// ---- dumping ------------------------------------------------------------

#[test]
fn dump_addr() {
    // Dump 16 bytes at a virtual address through the owning segment.
    let files = s_pair();
    let core = files.core.as_ref().unwrap();
    let addr = VirtualAddr(0x7010);
    let seg = core.find_load_segment(addr).unwrap();
    let offset = seg.to_offset(addr).unwrap();
    let bytes = core.reader.slice(offset, 16).unwrap();
    let mut expected = vec![0u8; 16];
    s_put(&mut expected, 0, &0x7040u64.to_le_bytes());
    s_put(&mut expected, 8, &0x1111u64.to_le_bytes());
    assert_eq!(bytes, expected);
}

#[test]
fn dump_offset() {
    // Dump 32 bytes at a raw file offset: no segment is involved.
    let files = s_pair();
    let exe = files.exe.as_ref().unwrap();
    let bytes = exe.reader.slice(Offset(0), 32).unwrap();
    assert_eq!(&bytes[0..4], &[0x7f, 0x45, 0x4c, 0x46]);
    assert_eq!(bytes.len(), 32);
}

#[test]
fn dump_addr_labels() {
    // An odd-length dump that crosses a frame record keeps the address
    // arithmetic consistent: byte eight is the low byte of the saved
    // return address.
    let files = s_pair();
    let core = files.core.as_ref().unwrap();
    let addr = VirtualAddr(0x7010);
    let seg = core.find_load_segment(addr).unwrap();
    let offset = seg.to_offset(addr).unwrap();
    let bytes = core.reader.slice(offset, 34).unwrap();
    assert_eq!(bytes.len(), 34);
    assert_eq!(bytes[8], 0x11);
    assert_eq!(bytes[0], 0x40);
}

// ---- source lines -------------------------------------------------------

#[test]
fn find_line_resolves_a_mapped_address() {
    let files = s_pair();
    let (file, line, col) = files.find_line(VirtualAddr(0x2040)).unwrap();
    assert_eq!(file, "app.c");
    assert_eq!(line, 1);
    assert_eq!(col, 0);
    let (file, line, _) = files.find_line(VirtualAddr(0x2044)).unwrap();
    assert_eq!(file, "app.c");
    assert_eq!(line, 3);
    // The row a special opcode emitted resolves too.
    let (_, line, _) = files.find_line(VirtualAddr(0x2048)).unwrap();
    assert_eq!(line, 5);
}

#[test]
fn find_line_returns_the_placeholder_off_the_table() {
    // The address is inside a mapped library but has no line-table row:
    // the answer is the placeholder, not an error.
    let files = s_pair();
    let (file, line, col) = files.find_line(VirtualAddr(0x2050)).unwrap();
    assert_eq!(file, "?");
    assert_eq!(line, 0);
    assert_eq!(col, 0);
}

#[test]
fn find_line_reports_what_is_missing() {
    let none = ElfFiles { core: None, exe: None };
    assert_eq!(none.find_line(VirtualAddr(1)).err(), Some(ElfError::MissingBoth));
    let core = ElfFile::new(s_core(0x7010, &[])).unwrap();
    let only_core = ElfFiles::new(vec![core]).unwrap();
    assert_eq!(
        only_core.find_line(VirtualAddr(1)).err(),
        Some(ElfError::MissingExe)
    );
    let exe = ElfFile::new(s_exe_with_lines()).unwrap();
    let only_exe = ElfFiles::new(vec![exe]).unwrap();
    assert_eq!(
        only_exe.find_line(VirtualAddr(1)).err(),
        Some(ElfError::MissingCore)
    );
    // A mapped pair with an unmapped address reports the missing mapping.
    let files = s_pair();
    assert_eq!(
        files.find_line(VirtualAddr(0x9000)).err(),
        Some(ElfError::NoMapping)
    );
}

#[test]
fn line_tables_decode_the_unit() {
    let exe = ElfFile::new(s_exe_with_lines()).unwrap();
    let li = exe.get_lines().unwrap();
    assert_eq!(li.units.len(), 1);
    assert_eq!(li.units[0].source_files.len(), 1);
    assert_eq!(li.units[0].source_files[0].file, "app.c");
    assert_eq!(li.lines.len(), 4);
    assert_eq!(li.lines[0].addr.0, 0x40);
    assert_eq!(li.lines[0].line, 1);
    assert_eq!(li.lines[1].addr.0, 0x44);
    assert_eq!(li.lines[1].line, 3);
    assert_eq!(li.lines[2].addr.0, 0x48);
    assert_eq!(li.lines[2].line, 5);
}
