//! One opened ELF image: its header, load segments, note descriptors and
//! section table, decoded eagerly at open time, plus the queries that decode
//! note payloads and tables on demand.
//!
//! Decoding is deliberately tolerant: a malformed table entry is skipped and
//! the rest of the file stays usable, because the primary use case is
//! analyzing damaged or truncated core files.

use vstd::prelude::*;
use crate::ElfError;
use crate::header::{ElfHeader, ehdr_at, ehdr_size};
use crate::notes::{Note, NoteType, note_next, note_ok, read_note, spec_note_type};
use crate::ranges::{Bytes, Coord, Offset, VirtualAddr};
use crate::reader::{Reader, Stream, addr_size, byte_chars, header_ok, magic_ok, word_at};
use crate::segments::{LoadSegment, ProgramHeader, SegmentType, ph_at, ph_size};
use crate::sections::{SectionHeader, sh_at, sh_ranges_ok, sh_size};

verus! {

/// A load segment built from a program header, with both of its ranges.
pub open spec fn spec_load_of(ph: ProgramHeader) -> LoadSegment {
    LoadSegment {
        obytes: Bytes { start: Offset(ph.offset), size: ph.mem_size },
        vbytes: Bytes { start: VirtualAddr(ph.vaddr), size: ph.mem_size },
        flags: ph.flags,
    }
}

/// Whether a program header describes representable ranges.
pub open spec fn load_ranges_ok(ph: ProgramHeader) -> bool {
    ph.offset + ph.mem_size <= u64::MAX && ph.vaddr + ph.mem_size <= u64::MAX
}

/// The file offset of program header `k`.
pub open spec fn ph_offset_of(h: ElfHeader, k: int) -> int {
    h.ph_offset + k * h.ph_entry_size
}

/// Whether program header `k` lies fully inside the buffer.
pub open spec fn ph_decodable(b: Seq<u8>, h: ElfHeader, sf: bool, k: int) -> bool {
    0 <= ph_offset_of(h, k) && ph_offset_of(h, k) + ph_size(sf) <= b.len() && ph_offset_of(h, k)
        <= u64::MAX
}

/// The load segments among the first `n` program headers: each decodable
/// entry of type `Load` whose ranges are representable, in table order.
pub open spec fn spec_loads(b: Seq<u8>, h: ElfHeader, sf: bool, le: bool, n: nat) -> Seq<
    LoadSegment,
>
    decreases n,
{
    if n == 0 {
        Seq::empty()
    } else {
        let prev = spec_loads(b, h, sf, le, (n - 1) as nat);
        if ph_decodable(b, h, sf, n - 1) {
            let ph = ph_at(b, ph_offset_of(h, n - 1), sf, le);
            if ph.stype == SegmentType::Load && load_ranges_ok(ph) {
                prev.push(spec_load_of(ph))
            } else {
                prev
            }
        } else {
            prev
        }
    }
}

/// The decodable program headers among the first `n`, in table order.
pub open spec fn spec_phs(b: Seq<u8>, h: ElfHeader, sf: bool, le: bool, n: nat) -> Seq<
    ProgramHeader,
>
    decreases n,
{
    if n == 0 {
        Seq::empty()
    } else {
        let prev = spec_phs(b, h, sf, le, (n - 1) as nat);
        if ph_decodable(b, h, sf, n - 1) {
            prev.push(ph_at(b, ph_offset_of(h, n - 1), sf, le))
        } else {
            prev
        }
    }
}

/// The file offset of section header `k`.
pub open spec fn sh_offset_of(h: ElfHeader, k: int) -> int {
    h.section_offset + k * h.section_entry_size
}

/// Whether section header `k` lies fully inside the buffer and describes
/// representable ranges.
pub open spec fn sh_decodable(b: Seq<u8>, h: ElfHeader, sf: bool, le: bool, k: int) -> bool {
    &&& 0 <= sh_offset_of(h, k)
    &&& sh_offset_of(h, k) + sh_size(sf) <= b.len()
    &&& sh_offset_of(h, k) <= u64::MAX
    &&& sh_ranges_ok(b, sh_offset_of(h, k), sf, le)
}

/// The decodable section headers among the first `n`, in table order.
pub open spec fn spec_sections(b: Seq<u8>, h: ElfHeader, sf: bool, le: bool, n: nat) -> Seq<
    SectionHeader,
>
    decreases n,
{
    if n == 0 {
        Seq::empty()
    } else {
        let prev = spec_sections(b, h, sf, le, (n - 1) as nat);
        if sh_decodable(b, h, sf, le, n - 1) {
            prev.push(sh_at(b, sh_offset_of(h, n - 1), sf, le))
        } else {
            prev
        }
    }
}

/// The view of a note a contract can speak about: name characters, type,
/// and payload range.
pub open spec fn note_view(n: Note) -> (Seq<char>, NoteType, Bytes<Offset>) {
    (n.name@, n.ntype, n.contents)
}

/// The notes of one Note segment: decoded front to back, stopping at the
/// segment's end or at the first malformed note.
pub open spec fn spec_notes_seg(b: Seq<u8>, i: int, end: int, le: bool) -> Seq<
    (Seq<char>, NoteType, Bytes<Offset>),
>
    decreases end - i,
    via spec_notes_seg_decreases
{
    if i >= end || !note_ok(b, i, le) {
        Seq::empty()
    } else {
        let name = byte_chars(
            b.subrange(i + 12, i + 12 + crate::notes::note_name_size(b, i, le) - 1),
        );
        let code = crate::notes::note_type_code(b, i, le) as u32;
        let contents = Bytes {
            start: Offset(crate::notes::note_desc_start(b, i, le) as u64),
            size: crate::notes::note_desc_size(b, i, le) as u64,
        };
        let next = note_next(b, i, le);
        seq![(name, spec_note_type(name, code), contents)] + spec_notes_seg(
            b,
            if next > end {
                end
            } else {
                next
            },
            end,
            le,
        )
    }
}

#[via_fn]
proof fn spec_notes_seg_decreases(b: Seq<u8>, i: int, end: int, le: bool) {
    if i < end && note_ok(b, i, le) {
        crate::reader::lemma_word_at_bound(b, i + 4, 4, le);
        assert(crate::notes::note_desc_size(b, i, le) >= 0);
        assert(crate::notes::align4(crate::notes::note_name_size(b, i, le)) >= 0);
        assert(crate::notes::align4(crate::notes::note_desc_size(b, i, le)) >= 0);
        assert(note_next(b, i, le) > i);
    }
}

/// Where scanning a Note segment stops: the segment's end in the file,
/// clamped so it stays representable.
pub open spec fn seg_end_of(ph: ProgramHeader) -> int {
    if ph.offset + ph.file_size <= u64::MAX {
        ph.offset + ph.file_size
    } else {
        u64::MAX as int
    }
}

/// The notes of the first `n` program headers' Note segments, concatenated
/// in table order.
pub open spec fn spec_notes(b: Seq<u8>, h: ElfHeader, sf: bool, le: bool, n: nat) -> Seq<
    (Seq<char>, NoteType, Bytes<Offset>),
>
    decreases n,
{
    if n == 0 {
        Seq::empty()
    } else {
        let prev = spec_notes(b, h, sf, le, (n - 1) as nat);
        if ph_decodable(b, h, sf, n - 1) {
            let ph = ph_at(b, ph_offset_of(h, n - 1), sf, le);
            if ph.stype == SegmentType::Note {
                prev + spec_notes_seg(b, ph.offset as int, seg_end_of(ph), le)
            } else {
                prev
            }
        } else {
            prev
        }
    }
}

/// One opened ELF file: the reader that owns its bytes, the decoded header,
/// and the eagerly decoded load, note, and section tables.
///
/// Everything is immutable once constructed; queries that decode note
/// payloads or debug sections recompute from the bytes on each call.
pub struct ElfFile {
    pub header: ElfHeader,
    pub reader: Reader,
    pub loads: Vec<LoadSegment>,
    pub notes: Vec<Note>,
    /// Not used for core files.
    pub sections: Vec<SectionHeader>,
}

impl ElfFile {
    /// What construction establishes: the tables are exactly the decodable
    /// entries of the file's header tables.
    pub open spec fn wf(&self) -> bool {
        let b = self.reader@;
        let sf = self.reader.sixty_four_bit;
        let le = self.reader.little_endian;
        &&& header_ok(b)
        &&& ehdr_size(sf) <= b.len()
        &&& self.header == ehdr_at(b, sf, le)
        &&& self.loads@ == spec_loads(b, self.header, sf, le, self.header.num_ph_entries as nat)
        &&& self.notes@.map_values(|n: Note| note_view(n)) == spec_notes(
            b,
            self.header,
            sf,
            le,
            self.header.num_ph_entries as nat,
        )
        &&& self.sections@ == spec_sections(
            b,
            self.header,
            sf,
            le,
            self.header.num_section_entries as nat,
        )
    }

    /// The decoded tables hold only representable ranges (every load
    /// segment and every section header is well-formed) and no more
    /// entries than their sixteen-bit counts allow.
    pub open spec fn tables_wf(&self) -> bool {
        &&& forall|j: int| 0 <= j < self.loads@.len() ==> (#[trigger] self.loads@[j]).wf()
        &&& forall|j: int|
            0 <= j < self.sections@.len() ==> (#[trigger] self.sections@[j]).obytes.wf()
                && self.sections@[j].vbytes.wf()
        &&& self.loads@.len() <= 0xffff
        &&& self.sections@.len() <= 0xffff
    }

    /// Opens an image from its bytes: validates the identification, decodes
    /// the header, and walks the program-header and section-header tables
    /// once.  Malformed table entries are skipped; only an invalid
    /// identification rejects the file as a whole.
    pub fn new(bytes: Vec<u8>) -> (r: Result<Self, ElfError>)
        ensures
            r is Ok <==> header_ok(bytes@),
            r matches Ok(f) ==> f.wf() && f.tables_wf() && f.reader@ == bytes@,
            bytes@.len() <= 64 ==> r == Err::<Self, ElfError>(ElfError::TooSmall),
            bytes@.len() > 64 && !magic_ok(bytes@) ==> r == Err::<Self, ElfError>(
                ElfError::BadMagic,
            ),
            bytes@.len() > 64 && magic_ok(bytes@) && bytes@[6] != 1 ==> r == Err::<
                Self,
                ElfError,
            >(ElfError::BadVersion(bytes@[6])),
            bytes@.len() > 64 && magic_ok(bytes@) && bytes@[6] == 1 && !(bytes@[0x10] == 2
                || bytes@[0x10] == 3 || bytes@[0x10] == 4) ==> r == Err::<Self, ElfError>(
                ElfError::BadFileType(bytes@[0x10]),
            ),
    {
        let reader = match Reader::new(bytes) {
            Ok(reader) => reader,
            Err(e) => {
                return Err(e);
            },
        };
        // The reader guarantees more than a header's worth of bytes, so
        // decoding the header cannot fail.
        proof {
            assert(ehdr_size(reader.sixty_four_bit) <= reader@.len());
        }
        let header = match ElfHeader::new(&reader) {
            Ok(h) => h,
            Err(_) => {
                proof {
                    assert(false);
                }
                return Err(ElfError::TooSmall);
            },
        };
        let loads = ElfFile::load_loads(&reader, &header);
        let notes = ElfFile::load_notes(&reader, &header);
        let sections = ElfFile::load_sections(&reader, &header);
        proof {
            lemma_spec_loads_wf(
                reader@,
                header,
                reader.sixty_four_bit,
                reader.little_endian,
                header.num_ph_entries as nat,
            );
            lemma_spec_sections_wf(
                reader@,
                header,
                reader.sixty_four_bit,
                reader.little_endian,
                header.num_section_entries as nat,
            );
            lemma_spec_loads_len(
                reader@,
                header,
                reader.sixty_four_bit,
                reader.little_endian,
                header.num_ph_entries as nat,
            );
            lemma_spec_sections_len(
                reader@,
                header,
                reader.sixty_four_bit,
                reader.little_endian,
                header.num_section_entries as nat,
            );
        }
        Ok(ElfFile { header, reader, loads, notes, sections })
    }

    /// Walks the program-header table and materializes the `Load` entries.
    fn load_loads(reader: &Reader, header: &ElfHeader) -> (r: Vec<LoadSegment>)
        ensures
            r@ == spec_loads(
                reader@,
                *header,
                reader.sixty_four_bit,
                reader.little_endian,
                header.num_ph_entries as nat,
            ),
    {
        let ghost b = reader@;
        let ghost sf = reader.sixty_four_bit;
        let ghost le = reader.little_endian;
        let mut loads: Vec<LoadSegment> = Vec::new();
        let mut k: u16 = 0;
        let n = header.num_ph_entries;
        while k < n
            invariant
                k <= n,
                loads@ == spec_loads(b, *header, sf, le, k as nat),
            decreases n - k,
        {
            match Self::ph_entry(reader, header, k) {
                Some(ph) => {
                    let is_load = match ph.stype {
                        SegmentType::Load => true,
                        _ => false,
                    };
                    if is_load && ph.offset <= u64::MAX - ph.mem_size && ph.vaddr <= u64::MAX
                        - ph.mem_size {
                        loads.push(
                            LoadSegment {
                                obytes: Bytes::<Offset>::from_raw(ph.offset, ph.mem_size),
                                vbytes: Bytes::<VirtualAddr>::from_raw(ph.vaddr, ph.mem_size),
                                flags: ph.flags,
                            },
                        );
                    }
                },
                None => {},
            }
            k = k + 1;
        }
        loads
    }

    /// Decodes program header `k` if it lies inside the file.
    fn ph_entry(reader: &Reader, header: &ElfHeader, k: u16) -> (r: Option<ProgramHeader>)
        ensures
            r is Some <==> ph_decodable(reader@, *header, reader.sixty_four_bit, k as int),
            r matches Some(ph) ==> ph == ph_at(
                reader@,
                ph_offset_of(*header, k as int),
                reader.sixty_four_bit,
                reader.little_endian,
            ),
    {
        assert((k as u64) * (header.ph_entry_size as u64) < 0x1_0000_0000) by (nonlinear_arith)
            requires
                k < 0x1_0000,
                header.ph_entry_size < 0x1_0000,
        ;
        let stride = (k as u64) * (header.ph_entry_size as u64);
        let len = reader.len();
        if header.ph_offset > u64::MAX - stride {
            proof {
                assert(ph_offset_of(*header, k as int) > u64::MAX);
                assert(reader@.len() == len <= usize::MAX);
            }
            return None;
        }
        let offset = Offset(header.ph_offset + stride);
        match ProgramHeader::new(reader, offset) {
            Ok(ph) => Some(ph),
            Err(_) => None,
        }
    }

    /// Decodes section header `k` if it lies inside the file.
    fn sh_entry(reader: &Reader, header: &ElfHeader, k: u16) -> (r: Option<SectionHeader>)
        ensures
            r is Some <==> sh_decodable(
                reader@,
                *header,
                reader.sixty_four_bit,
                reader.little_endian,
                k as int,
            ),
            r matches Some(h) ==> h == sh_at(
                reader@,
                sh_offset_of(*header, k as int),
                reader.sixty_four_bit,
                reader.little_endian,
            ),
    {
        assert((k as u64) * (header.section_entry_size as u64) < 0x1_0000_0000) by (
        nonlinear_arith)
            requires
                k < 0x1_0000,
                header.section_entry_size < 0x1_0000,
        ;
        let stride = (k as u64) * (header.section_entry_size as u64);
        let len = reader.len();
        if header.section_offset > u64::MAX - stride {
            proof {
                assert(sh_offset_of(*header, k as int) > u64::MAX);
                assert(reader@.len() == len <= usize::MAX);
            }
            return None;
        }
        let offset = Offset(header.section_offset + stride);
        match SectionHeader::new(reader, offset) {
            Ok(h) => Some(h),
            Err(_) => None,
        }
    }

    /// Walks the section-header table.
    fn load_sections(reader: &Reader, header: &ElfHeader) -> (r: Vec<SectionHeader>)
        ensures
            r@ == spec_sections(
                reader@,
                *header,
                reader.sixty_four_bit,
                reader.little_endian,
                header.num_section_entries as nat,
            ),
    {
        let ghost b = reader@;
        let ghost sf = reader.sixty_four_bit;
        let ghost le = reader.little_endian;
        let mut sections: Vec<SectionHeader> = Vec::new();
        let mut k: u16 = 0;
        let n = header.num_section_entries;
        while k < n
            invariant
                k <= n,
                sections@ == spec_sections(b, *header, sf, le, k as nat),
            decreases n - k,
        {
            match Self::sh_entry(reader, header, k) {
                Some(h) => sections.push(h),
                None => {},
            }
            k = k + 1;
        }
        sections
    }

    /// The decodable program headers, in table order.  Used by consumers
    /// that show the raw table rather than the load segments.
    pub fn find_segments(reader: &Reader, header: &ElfHeader) -> (r: Vec<ProgramHeader>)
        ensures
            r@ == spec_phs(
                reader@,
                *header,
                reader.sixty_four_bit,
                reader.little_endian,
                header.num_ph_entries as nat,
            ),
    {
        let ghost b = reader@;
        let ghost sf = reader.sixty_four_bit;
        let ghost le = reader.little_endian;
        let mut segments: Vec<ProgramHeader> = Vec::new();
        let mut k: u16 = 0;
        let n = header.num_ph_entries;
        while k < n
            invariant
                k <= n,
                segments@ == spec_phs(b, *header, sf, le, k as nat),
            decreases n - k,
        {
            match Self::ph_entry(reader, header, k) {
                Some(ph) => segments.push(ph),
                None => {},
            }
            k = k + 1;
        }
        segments
    }

    /// Walks the program-header table and scans each Note segment for note
    /// descriptors.  A malformed note aborts only the scan of its own
    /// segment's remaining notes, never the whole load.
    fn load_notes(reader: &Reader, header: &ElfHeader) -> (r: Vec<Note>)
        ensures
            r@.map_values(|n: Note| note_view(n)) == spec_notes(
                reader@,
                *header,
                reader.sixty_four_bit,
                reader.little_endian,
                header.num_ph_entries as nat,
            ),
    {
        let ghost b = reader@;
        let ghost sf = reader.sixty_four_bit;
        let ghost le = reader.little_endian;
        let mut notes: Vec<Note> = Vec::new();
        let mut k: u16 = 0;
        let n = header.num_ph_entries;
        proof {
            assert(notes@.map_values(|nn: Note| note_view(nn)) =~= spec_notes(
                b,
                *header,
                sf,
                le,
                0,
            ));
        }
        while k < n
            invariant
                k <= n,
                notes@.map_values(|nn: Note| note_view(nn)) == spec_notes(
                    b,
                    *header,
                    sf,
                    le,
                    k as nat,
                ),
            decreases n - k,
        {
            match Self::ph_entry(reader, header, k) {
                Some(ph) => {
                    let is_note = match ph.stype {
                        SegmentType::Note => true,
                        _ => false,
                    };
                    if is_note {
                        let end: u64 = if ph.file_size > u64::MAX - ph.offset {
                            u64::MAX
                        } else {
                            ph.offset + ph.file_size
                        };
                        Self::scan_note_segment(reader, ph.offset, end, &mut notes);
                    }
                },
                None => {},
            }
            k = k + 1;
        }
        notes
    }

    /// Scans one Note segment from `start` to `end`, appending each note
    /// until the segment ends or a note is malformed.
    fn scan_note_segment(reader: &Reader, start: u64, end: u64, notes: &mut Vec<Note>)
        ensures
            final(notes)@.map_values(|n: Note| note_view(n)) == old(notes)@.map_values(
                |n: Note| note_view(n),
            ) + spec_notes_seg(reader@, start as int, end as int, reader.little_endian),
    {
        let ghost b = reader@;
        let ghost le = reader.little_endian;
        let mut s = Stream::new(reader, Offset(start));
        while s.offset.0 < end
            invariant
                s.reader == reader,
                s.offset.0 >= start,
                notes@.map_values(|n: Note| note_view(n)) + spec_notes_seg(
                    b,
                    s.offset.0 as int,
                    end as int,
                    le,
                ) == old(notes)@.map_values(|n: Note| note_view(n)) + spec_notes_seg(
                    b,
                    start as int,
                    end as int,
                    le,
                ),
            decreases
                    if s.offset.0 < end {
                        end - s.offset.0
                    } else {
                        0
                    },
        {
            let ghost cur = s.offset.0 as int;
            let ghost seen = notes@.map_values(|n: Note| note_view(n));
            match read_note(&mut s) {
                Ok((name, code, contents)) => {
                    let ntype = NoteType::new(name.as_str(), code);
                    let note = Note { name, ntype, contents };
                    proof {
                        assert(note_ok(b, cur, le));
                        let nx = note_next(b, cur, le);
                        if nx > end as int {
                            assert(spec_notes_seg(b, nx, end as int, le) =~= Seq::<
                                (Seq<char>, NoteType, Bytes<Offset>),
                            >::empty());
                            assert(spec_notes_seg(b, end as int, end as int, le) =~= Seq::<
                                (Seq<char>, NoteType, Bytes<Offset>),
                            >::empty());
                        }
                        assert(spec_notes_seg(b, cur, end as int, le) =~= seq![
                            note_view(note),
                        ] + spec_notes_seg(b, s.offset.0 as int, end as int, le));
                    }
                    notes.push(note);
                    proof {
                        assert(notes@.map_values(|n: Note| note_view(n)) =~= seen.push(
                            note_view(note),
                        ));
                        assert(seen.push(note_view(note)) + spec_notes_seg(
                            b,
                            s.offset.0 as int,
                            end as int,
                            le,
                        ) =~= seen + spec_notes_seg(b, cur, end as int, le));
                    }
                },
                Err(_) => {
                    proof {
                        assert(!note_ok(b, cur, le));
                        assert(spec_notes_seg(b, cur, end as int, le) =~= Seq::<
                            (Seq<char>, NoteType, Bytes<Offset>),
                        >::empty());
                        assert(seen + spec_notes_seg(b, cur, end as int, le) =~= seen);
                    }
                    return ;
                },
            }
        }
        proof {
            assert(spec_notes_seg(b, s.offset.0 as int, end as int, le) =~= Seq::<
                (Seq<char>, NoteType, Bytes<Offset>),
            >::empty());
        }
    }
}


/// The first load segment in a list whose virtual range contains `v`.
pub open spec fn spec_find_load(s: Seq<LoadSegment>, v: u64) -> Option<LoadSegment>
    decreases s.len(),
{
    if s.len() == 0 {
        None
    } else if s[0].vbytes.spec_contains(v) {
        Some(s[0])
    } else {
        spec_find_load(s.drop_first(), v)
    }
}

/// The first load segment in a list whose offset range contains `o`.
pub open spec fn spec_find_load_by_offset(s: Seq<LoadSegment>, o: u64) -> Option<LoadSegment>
    decreases s.len(),
{
    if s.len() == 0 {
        None
    } else if s[0].obytes.spec_contains(o) {
        Some(s[0])
    } else {
        spec_find_load_by_offset(s.drop_first(), o)
    }
}

/// A segment the address search finds is one of the searched segments, so
/// a well-formed list only ever yields well-formed segments.
pub proof fn lemma_spec_find_load_wf(s: Seq<LoadSegment>, v: u64)
    requires
        forall|j: int| 0 <= j < s.len() ==> (#[trigger] s[j]).wf(),
    ensures
        spec_find_load(s, v) matches Some(seg) ==> seg.wf(),
    decreases s.len(),
{
    if s.len() > 0 && !s[0].vbytes.spec_contains(v) {
        assert forall|j: int| 0 <= j < s.drop_first().len() implies (#[trigger] s.drop_first()[j]).wf() by {
            assert(s[j + 1].wf());
        }
        lemma_spec_find_load_wf(s.drop_first(), v);
    }
}

/// A segment the offset search finds is one of the searched segments, so
/// a well-formed list only ever yields well-formed segments.
pub proof fn lemma_find_load_by_offset_wf(s: Seq<LoadSegment>, o: u64)
    requires
        forall|j: int| 0 <= j < s.len() ==> (#[trigger] s[j]).wf(),
    ensures
        spec_find_load_by_offset(s, o) matches Some(seg) ==> seg.wf(),
    decreases s.len(),
{
    if s.len() > 0 && !s[0].obytes.spec_contains(o) {
        assert forall|j: int| 0 <= j < s.drop_first().len() implies (#[trigger] s.drop_first()[j]).wf() by {
            assert(s[j + 1].wf());
        }
        lemma_find_load_by_offset_wf(s.drop_first(), o);
    }
}

/// The payload range of the first note of the given core type.
pub open spec fn spec_find_core_note(
    s: Seq<(Seq<char>, NoteType, Bytes<Offset>)>,
    t: crate::notes::CoreNoteType,
) -> Option<Bytes<Offset>>
    decreases s.len(),
{
    if s.len() == 0 {
        None
    } else if s[0].1 == NoteType::Core(t) {
        Some(s[0].2)
    } else {
        spec_find_core_note(s.drop_first(), t)
    }
}

impl ElfFile {
    /// The first load segment whose virtual range contains `vaddr`.
    pub fn find_load_segment(&self, vaddr: VirtualAddr) -> (r: Option<LoadSegment>)
        ensures
            r == spec_find_load(self.loads@, vaddr.0),
    {
        let mut j: usize = 0;
        let n = self.loads.len();
        proof {
            assert(self.loads@.subrange(0, n as int) =~= self.loads@);
        }
        while j < n
            invariant
                j <= n,
                n == self.loads.len(),
                spec_find_load(self.loads@, vaddr.0) == spec_find_load(
                    self.loads@.subrange(j as int, n as int),
                    vaddr.0,
                ),
            decreases n - j,
        {
            let ghost rest = self.loads@.subrange(j as int, n as int);
            let seg = self.loads[j];
            if seg.vbytes.contains(vaddr) {
                return Some(seg);
            }
            j = j + 1;
            proof {
                assert(rest.drop_first() =~= self.loads@.subrange(j as int, n as int));
            }
        }
        None
    }

    /// The first load segment whose offset range contains `offset`, and the
    /// virtual address the offset translates to inside it.
    pub fn offset_to_vaddr(&self, offset: Offset) -> (r: Option<(LoadSegment, VirtualAddr)>)
        requires
            self.tables_wf(),
        ensures
            r is Some <==> spec_find_load_by_offset(self.loads@, offset.0) is Some,
            r matches Some((seg, v)) ==> spec_find_load_by_offset(self.loads@, offset.0)
                == Some(seg) && Some(v.0) == seg.spec_to_vaddr(offset.0),
    {
        let mut j: usize = 0;
        let n = self.loads.len();
        proof {
            assert(self.loads@.subrange(0, n as int) =~= self.loads@);
        }
        while j < n
            invariant
                j <= n,
                n == self.loads.len(),
                spec_find_load_by_offset(self.loads@, offset.0) == spec_find_load_by_offset(
                    self.loads@.subrange(j as int, n as int),
                    offset.0,
                ),
            decreases n - j,
        {
            let ghost rest = self.loads@.subrange(j as int, n as int);
            let seg = self.loads[j];
            if seg.obytes.contains(offset) {
                let delta = offset.0 - seg.obytes.start.raw();
                return Some((seg, VirtualAddr(seg.vbytes.start.raw() + delta)));
            }
            j = j + 1;
            proof {
                assert(rest.drop_first() =~= self.loads@.subrange(j as int, n as int));
            }
        }
        None
    }

    /// The payload range of the first note of the given core type, if the
    /// file carries one.
    pub fn find_core_note(&self, ntype: crate::notes::CoreNoteType) -> (r: Option<Bytes<Offset>>)
        ensures
            r == spec_find_core_note(self.notes@.map_values(|n: Note| note_view(n)), ntype),
    {
        let ghost views = self.notes@.map_values(|n: Note| note_view(n));
        let mut j: usize = 0;
        let n = self.notes.len();
        proof {
            assert(views.subrange(0, n as int) =~= views);
        }
        while j < n
            invariant
                j <= n,
                n == self.notes.len(),
                views == self.notes@.map_values(|nn: Note| note_view(nn)),
                spec_find_core_note(views, ntype) == spec_find_core_note(
                    views.subrange(j as int, n as int),
                    ntype,
                ),
            decreases n - j,
        {
            let ghost rest = views.subrange(j as int, n as int);
            let matches_type = match &self.notes[j].ntype {
                NoteType::Core(t) => *t == ntype,
                _ => false,
            };
            if matches_type {
                return Some(self.notes[j].contents);
            }
            j = j + 1;
            proof {
                assert(rest.drop_first() =~= views.subrange(j as int, n as int));
            }
        }
        None
    }
}


/// Where the fixed-layout fields of a process-status record sit inside its
/// note payload starting at `c`: signal number, signal code, process id,
/// and the register vector.
pub open spec fn prstatus_matches(st: crate::notes::PrStatus, b: Seq<u8>, c: int, le: bool) -> bool {
    &&& st.signal_num == ((word_at(b, c, 4, le) as u32) as i32)
    &&& st.signal_code == ((word_at(b, c + 4, 4, le) as u32) as i32)
    &&& st.pid == ((word_at(b, c + 32, 4, le) as u32) as i32)
    &&& st.registers.len() == crate::notes::NUM_REGISTERS
    &&& forall|j: int|
        0 <= j < crate::notes::NUM_REGISTERS ==> st.registers@[j] == word_at(
            b,
            c + 112 + 8 * j,
            8,
            le,
        ) as u64
}

/// A process-status record occupies 320 bytes: the signal words, times,
/// and the register vector.
pub open spec fn prstatus_size() -> int {
    320
}

/// The class of a signal, from the high half of the code word at `c + 16`.
pub open spec fn sig_class(b: Seq<u8>, c: int, le: bool) -> int {
    (((word_at(b, c + 16, 8, le) as u64) as u32) as int) / 0x10000
}

/// How many payload bytes each signal class carries after the three head
/// words.
pub open spec fn sig_payload_size(b: Seq<u8>, c: int, le: bool, sf: bool) -> int {
    let class = sig_class(b, c, le);
    if class == 0 {
        16
    } else if class == 1 || class == 2 || class == 6 || class == 7 {
        0
    } else if class == 3 {
        addr_size(sf) as int
    } else if class == 4 {
        24
    } else {
        16
    }
}

/// The decoded per-class details of the signal whose record starts at `c`.
pub open spec fn spec_sig_details(b: Seq<u8>, c: int, le: bool, sf: bool)
    -> crate::notes::SignalDetails {
    let class = sig_class(b, c, le);
    let p = c + 24;
    if class == 0 {
        crate::notes::SignalDetails::Kill(
            crate::notes::KillSignal {
                sender_pid: (word_at(b, p, 8, le) as u64) as i32,
                sender_uid: (word_at(b, p + 8, 8, le) as u64) as i32,
            },
        )
    } else if class == 1 {
        crate::notes::SignalDetails::Timer
    } else if class == 2 {
        crate::notes::SignalDetails::Poll
    } else if class == 3 {
        crate::notes::SignalDetails::Fault(
            crate::notes::FaultSignal { fault_addr: word_at(b, p, addr_size(sf), le) as u64 },
        )
    } else if class == 4 {
        crate::notes::SignalDetails::Child(
            crate::notes::ChildSignal {
                child_pid: (word_at(b, p, 8, le) as u64) as i32,
                child_uid: (word_at(b, p + 8, 8, le) as u64) as i32,
                exit_code: (word_at(b, p + 16, 8, le) as u64) as i32,
            },
        )
    } else if class == 6 {
        crate::notes::SignalDetails::MesgQ
    } else if class == 7 {
        crate::notes::SignalDetails::Sys
    } else {
        crate::notes::SignalDetails::Posix(
            crate::notes::PosixSignal {
                sender_pid: (word_at(b, p, 8, le) as u64) as i32,
                sender_uid: (word_at(b, p + 8, 8, le) as u64) as i32,
            },
        )
    }
}

impl ElfFile {
    /// Decodes the process-status note, if the file carries one whose
    /// payload is complete.  A truncated record yields `None` rather than a
    /// partial status.
    pub fn find_prstatus(&self) -> (r: Option<crate::notes::PrStatus>)
        ensures
            ({
                let views = self.notes@.map_values(|n: Note| note_view(n));
                let found = spec_find_core_note(views, crate::notes::CoreNoteType::PrStatus);
                &&& (r is Some <==> (found matches Some(c) && c.start.0 + prstatus_size()
                    <= self.reader@.len()))
                &&& (r matches Some(st) ==> found matches Some(c) && prstatus_matches(
                    st,
                    self.reader@,
                    c.start.0 as int,
                    self.reader.little_endian,
                ) && st.wf())
            }),
    {
        match self.find_core_note(crate::notes::CoreNoteType::PrStatus) {
            Some(contents) => match Self::parse_prstatus(&self.reader, contents.start) {
                Ok(st) => Some(st),
                Err(_) => None,
            },
            None => None,
        }
    }

    /// Decodes the fixed kernel layout of a process-status record.
    fn parse_prstatus(reader: &Reader, start: Offset) -> (r: Result<
        crate::notes::PrStatus,
        ElfError,
    >)
        ensures
            r is Ok <==> start.0 + prstatus_size() <= reader@.len(),
            r matches Ok(st) ==> prstatus_matches(
                st,
                reader@,
                start.0 as int,
                reader.little_endian,
            ) && st.wf(),
    {
        let ghost b = reader@;
        let ghost le = reader.little_endian;
        let ghost c = start.0 as int;
        let mut s = Stream::new(reader, start);
        let signal_num = s.read_int()?;
        let signal_code = s.read_int()?;
        let _errno = s.read_int()?;
        let _current_signal = s.read_half()?;
        let _padding = s.read_half()?;
        let _pending_signals = s.read_xword()?;
        let _held_signals = s.read_xword()?;
        let pid = s.read_int()?;
        let _pppid = s.read_int()?;
        let _pgrp = s.read_int()?;
        let _prsid = s.read_int()?;
        let _utime_s = s.read_xword()?;
        let _utime_u = s.read_xword()?;
        let _stime_s = s.read_xword()?;
        let _stime_u = s.read_xword()?;
        let _cutime_s = s.read_xword()?;
        let _cutime_u = s.read_xword()?;
        let _cstime_s = s.read_xword()?;
        let _cstime_u = s.read_xword()?;
        let mut registers: Vec<u64> = Vec::new();
        let mut j: usize = 0;
        while j < crate::notes::NUM_REGISTERS
            invariant
                j <= crate::notes::NUM_REGISTERS,
                s.reader == reader,
                s.offset.0 == c + 112 + 8 * j,
                c + 112 + 8 * j <= u64::MAX,
                j > 0 ==> s.offset.0 <= b.len(),
                registers@.len() == j,
                forall|jj: int|
                    0 <= jj < j ==> registers@[jj] == word_at(b, c + 112 + 8 * jj, 8, le) as u64,
            decreases crate::notes::NUM_REGISTERS - j,
        {
            let r = s.read_xword()?;
            registers.push(r);
            j = j + 1;
        }
        Ok(crate::notes::PrStatus { signal_num, signal_code, pid, registers })
    }

    /// Decodes the detailed signal-information note, if the file carries
    /// one whose payload is complete for its signal class.
    pub fn find_signal_info(&self) -> (r: Option<crate::notes::SigInfo>)
        ensures
            ({
                let b = self.reader@;
                let le = self.reader.little_endian;
                let sf = self.reader.sixty_four_bit;
                let views = self.notes@.map_values(|n: Note| note_view(n));
                let found = spec_find_core_note(views, crate::notes::CoreNoteType::SigInfo);
                &&& (r is Some <==> (found matches Some(c) && c.start.0 + 24 + sig_payload_size(
                    b,
                    c.start.0 as int,
                    le,
                    sf,
                ) <= b.len()))
                &&& (r matches Some(info) ==> found matches Some(c) && info.details
                    == spec_sig_details(b, c.start.0 as int, le, sf))
            }),
    {
        match self.find_core_note(crate::notes::CoreNoteType::SigInfo) {
            Some(contents) => match Self::parse_siginfo(&self.reader, contents.start) {
                Ok(info) => Some(info),
                Err(_) => None,
            },
            None => None,
        }
    }

    /// Decodes a signal-information record: three head words, then a
    /// payload whose shape the class in the code word selects.
    fn parse_siginfo(reader: &Reader, start: Offset) -> (r: Result<crate::notes::SigInfo, ElfError>)
        ensures
            r is Ok <==> start.0 + 24 + sig_payload_size(
                reader@,
                start.0 as int,
                reader.little_endian,
                reader.sixty_four_bit,
            ) <= reader@.len(),
            r matches Ok(info) ==> info.details == spec_sig_details(
                reader@,
                start.0 as int,
                reader.little_endian,
                reader.sixty_four_bit,
            ),
    {
        let ghost b = reader@;
        let ghost le = reader.little_endian;
        let ghost sf = reader.sixty_four_bit;
        let ghost c = start.0 as int;
        let mut s = Stream::new(reader, start);
        let _si_signo = s.read_xword()?;
        let _si_errno = s.read_xword()?;
        let si_code_word = s.read_xword()?;
        let si_code = #[verifier::truncate] (si_code_word as u32);
        let class = si_code / 0x10000;
        let details = if class == 0 {
            let sender_pid_w = s.read_xword()?;
            let sender_uid_w = s.read_xword()?;
            crate::notes::SignalDetails::Kill(
                crate::notes::KillSignal {
                    sender_pid: #[verifier::truncate] (sender_pid_w as i32),
                    sender_uid: #[verifier::truncate] (sender_uid_w as i32),
                },
            )
        } else if class == 1 {
            crate::notes::SignalDetails::Timer
        } else if class == 2 {
            crate::notes::SignalDetails::Poll
        } else if class == 3 {
            let fault_addr = s.read_addr()?;
            crate::notes::SignalDetails::Fault(crate::notes::FaultSignal { fault_addr })
        } else if class == 4 {
            let child_pid_w = s.read_xword()?;
            let child_uid_w = s.read_xword()?;
            let exit_code_w = s.read_xword()?;
            crate::notes::SignalDetails::Child(
                crate::notes::ChildSignal {
                    child_pid: #[verifier::truncate] (child_pid_w as i32),
                    child_uid: #[verifier::truncate] (child_uid_w as i32),
                    exit_code: #[verifier::truncate] (exit_code_w as i32),
                },
            )
        } else if class == 6 {
            crate::notes::SignalDetails::MesgQ
        } else if class == 7 {
            crate::notes::SignalDetails::Sys
        } else {
            let sender_pid_w = s.read_xword()?;
            let sender_uid_w = s.read_xword()?;
            crate::notes::SignalDetails::Posix(
                crate::notes::PosixSignal {
                    sender_pid: #[verifier::truncate] (sender_pid_w as i32),
                    sender_uid: #[verifier::truncate] (sender_uid_w as i32),
                },
            )
        };
        Ok(crate::notes::SigInfo { details })
    }
}


/// The view of a memory-mapped file a contract can speak about: start
/// address, size, and name characters.
pub open spec fn mmf_view(m: crate::notes::MemoryMappedFile) -> (u64, u64, Seq<char>) {
    (m.vbytes.start.0, m.vbytes.size, m.file_name@)
}

/// The start address of record `j` in a memory-map note whose triples
/// begin at `tb`.
pub open spec fn mm_start(b: Seq<u8>, tb: int, j: int, le: bool, sf: bool) -> int {
    word_at(b, tb + 3 * addr_size(sf) * j, addr_size(sf), le)
}

/// The end address of record `j`.
pub open spec fn mm_end(b: Seq<u8>, tb: int, j: int, le: bool, sf: bool) -> int {
    word_at(b, tb + 3 * addr_size(sf) * j + addr_size(sf), addr_size(sf), le)
}

/// The `count` null-terminated names starting at `i`, or `None` if one of
/// them lacks a terminator inside the buffer.
pub open spec fn spec_names(b: Seq<u8>, i: int, count: nat) -> Option<Seq<Seq<char>>>
    decreases count,
{
    if count == 0 {
        Some(Seq::empty())
    } else if 0 <= i && crate::reader::find_nul(b, i) < b.len() {
        let nul = crate::reader::find_nul(b, i);
        match spec_names(b, nul + 1, (count - 1) as nat) {
            None => None,
            Some(rest) => Some(seq![byte_chars(b.subrange(i, nul))] + rest),
        }
    } else {
        None
    }
}

/// Prepends already-decoded names to a pending tail of names.
pub open spec fn names_concat(a: Seq<Seq<char>>, o: Option<Seq<Seq<char>>>) -> Option<
    Seq<Seq<char>>,
> {
    match o {
        None => None,
        Some(r) => Some(a + r),
    }
}

/// The raw records of the memory-map note whose payload starts at `c`:
/// `count` (start, size, name) records, or `None` when the note cannot be
/// decoded in full (truncated numbers or names, or a record whose end lies
/// before its start).
pub open spec fn spec_mapped_raw(b: Seq<u8>, c: int, le: bool, sf: bool) -> Option<
    Seq<(u64, u64, Seq<char>)>,
> {
    let w = addr_size(sf) as int;
    let count = word_at(b, c, addr_size(sf), le);
    let tb = c + 2 * w;
    if c < 0 || c + 2 * w > b.len() {
        None
    } else if tb + 3 * w * count > b.len() {
        None
    } else {
        match spec_names(b, tb + 3 * w * count, count as nat) {
            None => None,
            Some(names) => if forall|j: int|
                0 <= j < count ==> mm_end(b, tb, j, le, sf) >= mm_start(b, tb, j, le, sf) {
                Some(
                    Seq::new(
                        count as nat,
                        |j: int|
                            (
                                mm_start(b, tb, j, le, sf) as u64,
                                (mm_end(b, tb, j, le, sf) - mm_start(b, tb, j, le, sf)) as u64,
                                names[j],
                            ),
                    ),
                )
            } else {
                None
            },
        }
    }
}

/// Merges a record into the running entry, or emits the running entry and
/// starts a new one: two records fuse exactly when the first ends where
/// the second starts and both name the same file.
pub open spec fn spec_merge_fold(
    s: Seq<(u64, u64, Seq<char>)>,
    pending: (u64, u64, Seq<char>),
) -> Seq<(u64, u64, Seq<char>)>
    decreases s.len(),
{
    if s.len() == 0 {
        seq![pending]
    } else {
        let x = s[0];
        if pending.0 + pending.1 == x.0 && pending.2 == x.2 {
            spec_merge_fold(
                s.drop_first(),
                (pending.0, (x.0 + x.1 - pending.0) as u64, pending.2),
            )
        } else {
            seq![pending] + spec_merge_fold(s.drop_first(), x)
        }
    }
}

/// The adjacency-merged list of records.
pub open spec fn spec_merge(s: Seq<(u64, u64, Seq<char>)>) -> Seq<(u64, u64, Seq<char>)> {
    if s.len() == 0 {
        Seq::empty()
    } else {
        spec_merge_fold(s.drop_first(), s[0])
    }
}

/// No two neighbouring entries share both a boundary and a name.
pub open spec fn no_adjacent_mergeable(s: Seq<(u64, u64, Seq<char>)>) -> bool {
    forall|j: int|
        0 < j < s.len() ==> !((#[trigger] s[j - 1]).0 + s[j - 1].1 == s[j].0 && s[j - 1].2
            == s[j].2)
}

/// The merge leaves nothing left to merge: in its result no two
/// neighbouring entries share both a boundary and a name, and the first
/// entry keeps the pending record's start and name.
pub proof fn lemma_merge_fold_no_adjacent(
    s: Seq<(u64, u64, Seq<char>)>,
    pending: (u64, u64, Seq<char>),
)
    ensures
        spec_merge_fold(s, pending).len() >= 1,
        spec_merge_fold(s, pending)[0].0 == pending.0,
        spec_merge_fold(s, pending)[0].2 == pending.2,
        no_adjacent_mergeable(spec_merge_fold(s, pending)),
    decreases s.len(),
{
    if s.len() == 0 {
    } else {
        let x = s[0];
        if pending.0 + pending.1 == x.0 && pending.2 == x.2 {
            lemma_merge_fold_no_adjacent(
                s.drop_first(),
                (pending.0, (x.0 + x.1 - pending.0) as u64, pending.2),
            );
        } else {
            lemma_merge_fold_no_adjacent(s.drop_first(), x);
            let m = seq![pending] + spec_merge_fold(s.drop_first(), x);
            assert forall|j: int| 0 < j < m.len() implies !((#[trigger] m[j - 1]).0 + m[j
                - 1].1 == m[j].0 && m[j - 1].2 == m[j].2) by {
                if j == 1 {
                    assert(m[0] == pending);
                    assert(m[1] == spec_merge_fold(s.drop_first(), x)[0]);
                } else {
                    assert(m[j - 1] == spec_merge_fold(s.drop_first(), x)[j - 2]);
                    assert(m[j] == spec_merge_fold(s.drop_first(), x)[j - 1]);
                }
            }
        }
    }
}

/// The adjacency-merged list never holds two neighbouring entries that
/// still share a boundary and a name: merging is complete.
pub proof fn lemma_merge_no_adjacent(s: Seq<(u64, u64, Seq<char>)>)
    ensures
        no_adjacent_mergeable(spec_merge(s)),
{
    if s.len() > 0 {
        lemma_merge_fold_no_adjacent(s.drop_first(), s[0]);
    }
}

/// Merges adjacent records that continue the same file: the kernel emits
/// several contiguous mappings for the protection regions of one shared
/// object, and the merged list reads better.
pub fn merge_mapped_files(records: Vec<crate::notes::MemoryMappedFile>) -> (r: Vec<
    crate::notes::MemoryMappedFile,
>)
    requires
        forall|j: int|
            0 <= j < records@.len() ==> (#[trigger] records@[j]).vbytes.start.0
                + records@[j].vbytes.size <= u64::MAX,
    ensures
        r@.map_values(|m: crate::notes::MemoryMappedFile| mmf_view(m)) == spec_merge(
            records@.map_values(|m: crate::notes::MemoryMappedFile| mmf_view(m)),
        ),
        no_adjacent_mergeable(r@.map_values(|m: crate::notes::MemoryMappedFile| mmf_view(m))),
{
    let ghost all = records@.map_values(|m: crate::notes::MemoryMappedFile| mmf_view(m));
    let mut rest = records;
    let mut merged: Vec<crate::notes::MemoryMappedFile> = Vec::new();
    if rest.len() == 0 {
        proof {
            assert(merged@.map_values(|m: crate::notes::MemoryMappedFile| mmf_view(m)) =~=
            spec_merge(all));
        }
        return merged;
    }
    let mut pending = rest.remove(0);
    proof {
        assert(rest@.map_values(|m: crate::notes::MemoryMappedFile| mmf_view(m)) =~=
        all.drop_first());
        assert(mmf_view(pending) == all[0]);
        assert(merged@.map_values(|m: crate::notes::MemoryMappedFile| mmf_view(m))
            + spec_merge_fold(all.drop_first(), all[0]) =~= spec_merge_fold(
            all.drop_first(),
            all[0],
        ));
    }
    while rest.len() > 0
        invariant
            pending.vbytes.start.0 + pending.vbytes.size <= u64::MAX,
            forall|j: int|
                0 <= j < rest@.len() ==> (#[trigger] rest@[j]).vbytes.start.0
                    + rest@[j].vbytes.size <= u64::MAX,
            merged@.map_values(|m: crate::notes::MemoryMappedFile| mmf_view(m))
                + spec_merge_fold(
                rest@.map_values(|m: crate::notes::MemoryMappedFile| mmf_view(m)),
                mmf_view(pending),
            ) == spec_merge(all),
        decreases rest.len(),
    {
        let ghost pre = rest@.map_values(|m: crate::notes::MemoryMappedFile| mmf_view(m));
        let ghost mpre = merged@.map_values(|m: crate::notes::MemoryMappedFile| mmf_view(m));
        let ghost pv = mmf_view(pending);
        let x = rest.remove(0);
        proof {
            assert(rest@.map_values(|m: crate::notes::MemoryMappedFile| mmf_view(m)) =~=
            pre.drop_first());
            assert(mmf_view(x) == pre[0]);
        }
        let pend_end = pending.vbytes.start.raw() + pending.vbytes.size;
        if pend_end == x.vbytes.start.raw() && crate::string_eq(&pending.file_name, &x.file_name) {
            let new_end = x.vbytes.start.raw() + x.vbytes.size;
            let keep_start = pending.vbytes.start.raw();
            pending = crate::notes::MemoryMappedFile {
                vbytes: Bytes::<VirtualAddr>::from_raw(keep_start, new_end - keep_start),
                file_name: pending.file_name,
            };
            proof {
                assert(spec_merge_fold(pre, pv) == spec_merge_fold(
                    pre.drop_first(),
                    (pv.0, (pre[0].0 + pre[0].1 - pv.0) as u64, pv.2),
                ));
                assert(mmf_view(pending) == (pv.0, (pre[0].0 + pre[0].1 - pv.0) as u64, pv.2));
            }
        } else {
            proof {
                assert(spec_merge_fold(pre, pv) == seq![pv] + spec_merge_fold(
                    pre.drop_first(),
                    pre[0],
                ));
            }
            merged.push(pending);
            pending = x;
            proof {
                assert(merged@.map_values(|m: crate::notes::MemoryMappedFile| mmf_view(m)) =~=
                mpre.push(pv));
                assert(mpre.push(pv) + spec_merge_fold(pre.drop_first(), pre[0]) =~= mpre + (
                seq![pv] + spec_merge_fold(pre.drop_first(), pre[0])));
            }
        }
    }
    proof {
        let mv = merged@.map_values(|m: crate::notes::MemoryMappedFile| mmf_view(m));
        assert(spec_merge_fold(
            rest@.map_values(|m: crate::notes::MemoryMappedFile| mmf_view(m)),
            mmf_view(pending),
        ) =~= seq![mmf_view(pending)]);
    }
    let ghost mv = merged@.map_values(|m: crate::notes::MemoryMappedFile| mmf_view(m));
    merged.push(pending);
    proof {
        assert(merged@.map_values(|m: crate::notes::MemoryMappedFile| mmf_view(m)) =~= mv.push(
            mmf_view(pending),
        ));
        assert(mv.push(mmf_view(pending)) =~= mv + seq![mmf_view(pending)]);
        lemma_merge_no_adjacent(all);
    }
    merged
}


impl ElfFile {
    /// Decodes the memory-mapped-file note, if the file carries one that
    /// decodes in full, and merges mappings that continue the same file.
    /// In the result no two neighbouring entries share both a boundary and
    /// a name.
    pub fn get_memory_mapped_files(&self) -> (r: Option<Vec<crate::notes::MemoryMappedFile>>)
        ensures
            ({
                let b = self.reader@;
                let le = self.reader.little_endian;
                let sf = self.reader.sixty_four_bit;
                let views = self.notes@.map_values(|n: Note| note_view(n));
                let found = spec_find_core_note(views, crate::notes::CoreNoteType::File);
                &&& (r is Some <==> (found matches Some(c) && spec_mapped_raw(
                    b,
                    c.start.0 as int,
                    le,
                    sf,
                ) is Some))
                &&& (r matches Some(files) ==> (found matches Some(c) && spec_mapped_raw(
                    b,
                    c.start.0 as int,
                    le,
                    sf,
                ) matches Some(raw) && files@.map_values(
                    |m: crate::notes::MemoryMappedFile| mmf_view(m),
                ) == spec_merge(raw) && no_adjacent_mergeable(
                    files@.map_values(|m: crate::notes::MemoryMappedFile| mmf_view(m)),
                )))
            }),
    {
        match self.find_core_note(crate::notes::CoreNoteType::File) {
            Some(contents) => match Self::parse_mapped_files(&self.reader, contents.start) {
                Ok(files) => Some(files),
                Err(_) => None,
            },
            None => None,
        }
    }

    /// Decodes the body of a memory-map note: a count and page size, then
    /// `count` (start, end, page offset) triples, then one null-terminated
    /// path per triple, merging adjacent same-file records at the end.
    fn parse_mapped_files(reader: &Reader, start: Offset) -> (r: Result<
        Vec<crate::notes::MemoryMappedFile>,
        ElfError,
    >)
        ensures
            r is Ok <==> spec_mapped_raw(
                reader@,
                start.0 as int,
                reader.little_endian,
                reader.sixty_four_bit,
            ) is Some,
            r matches Ok(files) ==> (spec_mapped_raw(
                reader@,
                start.0 as int,
                reader.little_endian,
                reader.sixty_four_bit,
            ) matches Some(raw) && files@.map_values(
                |m: crate::notes::MemoryMappedFile| mmf_view(m),
            ) == spec_merge(raw) && no_adjacent_mergeable(
                files@.map_values(|m: crate::notes::MemoryMappedFile| mmf_view(m)),
            )),
    {
        let ghost b = reader@;
        let ghost le = reader.little_endian;
        let ghost sf = reader.sixty_four_bit;
        let ghost c = start.0 as int;
        let ghost w = addr_size(sf) as int;
        let wexe: u64 = if reader.sixty_four_bit {
            8
        } else {
            4
        };
        let mut s = Stream::new(reader, start);
        let count = s.read_ulong()?;
        let _page_size = s.read_ulong()?;
        let ghost tb = c + 2 * w;
        let mut triples: Vec<(u64, u64)> = Vec::new();
        let mut j: u64 = 0;
        while j < count
            invariant
                s.reader == reader,
                wexe == addr_size(sf),
                j <= count,
                s.offset.0 == tb + 3 * w * j,
                tb + 3 * w * j <= u64::MAX,
                tb <= b.len(),
                j > 0 ==> s.offset.0 <= b.len(),
                triples@.len() == j,
                forall|jj: int|
                    0 <= jj < j ==> #[trigger] triples@[jj] == (
                        mm_start(b, tb, jj, le, sf) as u64,
                        mm_end(b, tb, jj, le, sf) as u64,
                    ),
                forall|jj: int|
                    0 <= jj < j ==> 0 <= #[trigger] mm_start(b, tb, jj, le, sf) <= u64::MAX,
                forall|jj: int|
                    0 <= jj < j ==> 0 <= #[trigger] mm_end(b, tb, jj, le, sf) <= u64::MAX,
            decreases count - j,
        {
            proof {
                assert(3 * w * j + 3 * w <= 3 * w * count) by (nonlinear_arith)
                    requires
                        0 <= w,
                        0 <= j < count,
                ;
            }
            let st = s.read_ulong()?;
            let en = s.read_ulong()?;
            let _off = s.read_ulong()?;
            triples.push((st, en));
            j = j + 1;
            proof {
                assert(3 * w * (j - 1) + w + w + w == 3 * w * j as int) by (nonlinear_arith);
            }
        }
        proof {
            assert(tb + 3 * w * count <= b.len());
        }
        // The paths follow the numeric records as one block.
        let ghost nb = tb + 3 * w * count;
        let mut files: Vec<crate::notes::MemoryMappedFile> = Vec::new();
        let mut k: usize = 0;
        let n = triples.len();
        let ghost mut done: Seq<Seq<char>> = Seq::empty();
        while k < n
            invariant
                s.reader == reader,
                k <= n,
                n == count,
                n == triples@.len(),
                tb + 3 * w * count <= b.len(),
                forall|jj: int|
                    0 <= jj < n ==> #[trigger] triples@[jj] == (
                        mm_start(b, tb, jj, le, sf) as u64,
                        mm_end(b, tb, jj, le, sf) as u64,
                    ),
                forall|jj: int|
                    0 <= jj < n ==> 0 <= #[trigger] mm_start(b, tb, jj, le, sf) <= u64::MAX,
                forall|jj: int|
                    0 <= jj < n ==> 0 <= #[trigger] mm_end(b, tb, jj, le, sf) <= u64::MAX,
                spec_names(b, nb, count as nat) == names_concat(
                    done,
                    spec_names(b, s.offset.0 as int, (count - k) as nat),
                ),
                done.len() == k,
                forall|jj: int| 0 <= jj < k ==> mm_end(b, tb, jj, le, sf) >= mm_start(b, tb, jj, le, sf),
                files@.len() == k,
                forall|jj: int|
                    0 <= jj < k ==> (#[trigger] files@[jj]).vbytes.start.0
                        + files@[jj].vbytes.size <= u64::MAX,
                forall|jj: int|
                    0 <= jj < k ==> #[trigger] mmf_view(files@[jj]) == (
                        mm_start(b, tb, jj, le, sf) as u64,
                        (mm_end(b, tb, jj, le, sf) - mm_start(b, tb, jj, le, sf)) as u64,
                        done[jj],
                    ),
                s.offset.0 >= 0,
            decreases n - k,
        {
            let ghost cur = s.offset.0 as int;
            let name = match s.read_string() {
                Ok(nm) => nm,
                Err(e) => {
                    proof {
                        assert(spec_names(b, cur, (count - k) as nat) is None);
                        assert(spec_names(b, nb, count as nat) is None);
                    }
                    return Err(e);
                },
            };
            let (st, en) = triples[k];
            if en < st {
                proof {
                    assert(mm_end(b, tb, k as int, le, sf) < mm_start(b, tb, k as int, le, sf));
                    assert(spec_mapped_raw(b, c, le, sf) is None);
                }
                return Err(ElfError::BadRange);
            }
            files.push(
                crate::notes::MemoryMappedFile {
                    vbytes: Bytes::<VirtualAddr>::from_raw(st, en - st),
                    file_name: name,
                },
            );
            proof {
                let nul = crate::reader::find_nul(b, cur);
                let head = byte_chars(b.subrange(cur, nul));
                match spec_names(b, nul + 1, (count - k - 1) as nat) {
                    None => {
                        assert(spec_names(b, cur, (count - k) as nat) is None);
                    },
                    Some(rest) => {
                        assert(spec_names(b, cur, (count - k) as nat) == Some(
                            seq![head] + rest,
                        ));
                        assert(done + (seq![head] + rest) =~= done.push(head) + rest);
                    },
                }
                done = done.push(head);
                assert(files@[k as int].vbytes.start.0 == st);
                assert(files@[k as int].vbytes.size == en - st);
                assert(files@[k as int].file_name@ == head);
                assert(mmf_view(files@[k as int]) == (
                    mm_start(b, tb, k as int, le, sf) as u64,
                    (mm_end(b, tb, k as int, le, sf) - mm_start(b, tb, k as int, le, sf)) as u64,
                    done[k as int],
                ));
            }
            k = k + 1;
        }
        proof {
            assert(spec_names(b, s.offset.0 as int, 0) == Some(Seq::<Seq<char>>::empty()));
            assert(done + Seq::<Seq<char>>::empty() =~= done);
            assert(spec_names(b, nb, count as nat) == Some(done));
            let raw = spec_mapped_raw(b, c, le, sf);
            assert(raw matches Some(rw) && rw =~= files@.map_values(
                |m: crate::notes::MemoryMappedFile| mmf_view(m),
            ));
        }
        Ok(merge_mapped_files(files))
    }
}


/// The string at index `index` of the string table held by `section`: the
/// null-terminated bytes starting at `start + index`.  The index may point
/// into the middle of a stored string; the suffix read from there is a
/// legal name and is preserved.
pub open spec fn spec_table_string(b: Seq<u8>, section: SectionHeader, index: u32) -> Option<
    Seq<char>,
> {
    let start = section.obytes.start.0 + index;
    if start <= u64::MAX && crate::reader::find_nul(b, start) < b.len() {
        Some(byte_chars(b.subrange(start, crate::reader::find_nul(b, start))))
    } else {
        None
    }
}

/// The string `find_string` returns for a (section, index) pair.
pub open spec fn spec_find_string(
    b: Seq<u8>,
    sections: Seq<SectionHeader>,
    section: u32,
    index: u32,
) -> Option<Seq<char>> {
    if section < sections.len() {
        spec_table_string(b, sections[section as int], index)
    } else {
        None
    }
}

/// The name of section `j`, read from the section-name string table.
pub open spec fn spec_section_name_of(
    b: Seq<u8>,
    sections: Seq<SectionHeader>,
    strtab: u32,
    j: int,
) -> Option<Seq<char>> {
    if 0 <= j < sections.len() {
        spec_find_string(b, sections, strtab, sections[j].name)
    } else {
        None
    }
}

/// The first section at or after `j` whose name is exactly `name`.
pub open spec fn spec_first_named(
    b: Seq<u8>,
    sections: Seq<SectionHeader>,
    strtab: u32,
    name: Seq<char>,
    j: int,
) -> Option<int>
    decreases sections.len() - j,
{
    if j < 0 || j >= sections.len() {
        None
    } else if spec_section_name_of(b, sections, strtab, j) == Some(name) {
        Some(j)
    } else {
        spec_first_named(b, sections, strtab, name, j + 1)
    }
}

/// The first program-bits section at or after `j` whose name is exactly
/// `name`; the debug sections are found this way.
pub open spec fn spec_first_progbits_named(
    b: Seq<u8>,
    sections: Seq<SectionHeader>,
    strtab: u32,
    name: Seq<char>,
    j: int,
) -> Option<int>
    decreases sections.len() - j,
{
    if j < 0 || j >= sections.len() {
        None
    } else if sections[j].stype == crate::sections::SectionType::ProgBits
        && spec_section_name_of(b, sections, strtab, j) == Some(name) {
        Some(j)
    } else {
        spec_first_progbits_named(b, sections, strtab, name, j + 1)
    }
}

impl ElfFile {
    /// The section at `index`, or `None` for an index past the table.
    fn find_section(&self, section: crate::ranges::SectionIndex) -> (r: Option<SectionHeader>)
        ensures
            r is Some <==> section.0 < self.sections@.len(),
            r matches Some(h) ==> h == self.sections@[section.0 as int],
    {
        if (section.0 as usize) < self.sections.len() {
            Some(self.sections[section.0 as usize])
        } else {
            None
        }
    }

    /// Reads a string from the string table held by `section`.  The index
    /// may legally point into the middle of a stored string.
    pub fn find_string(
        &self,
        section: crate::ranges::SectionIndex,
        index: crate::ranges::StringIndex,
    ) -> (r: Option<String>)
        ensures
            r is Some <==> spec_find_string(self.reader@, self.sections@, section.0, index.0)
                is Some,
            r matches Some(st) ==> Some(st@) == spec_find_string(
                self.reader@,
                self.sections@,
                section.0,
                index.0,
            ),
    {
        let h = match self.find_section(section) {
            Some(h) => h,
            None => {
                return None;
            },
        };
        if h.obytes.start.raw() > u64::MAX - (index.0 as u64) {
            return None;
        }
        let offset = Offset(h.obytes.start.raw() + index.0 as u64);
        let mut stream = Stream::new(&self.reader, offset);
        match stream.read_string() {
            Ok(st) => Some(st),
            Err(_) => None,
        }
    }

    /// Reads a string from the section-name string table.
    pub fn find_default_string(&self, index: crate::ranges::StringIndex) -> (r: Option<String>)
        ensures
            r is Some <==> spec_find_string(
                self.reader@,
                self.sections@,
                self.header.string_table_index as u32,
                index.0,
            ) is Some,
            r matches Some(st) ==> Some(st@) == spec_find_string(
                self.reader@,
                self.sections@,
                self.header.string_table_index as u32,
                index.0,
            ),
    {
        let section = crate::ranges::SectionIndex(self.header.string_table_index as u32);
        self.find_string(section, index)
    }

    /// The name of the section at `index`, from the section-name table.
    pub fn find_section_name(&self, section: crate::ranges::SectionIndex) -> (r: Option<String>)
        ensures
            ({
                let named = if section.0 < self.sections@.len() {
                    spec_find_string(
                        self.reader@,
                        self.sections@,
                        self.header.string_table_index as u32,
                        self.sections@[section.0 as int].name,
                    )
                } else {
                    None
                };
                &&& (r is Some <==> named is Some)
                &&& (r matches Some(st) ==> Some(st@) == named)
            }),
    {
        let h = match self.find_section(section) {
            Some(h) => h,
            None => {
                return None;
            },
        };
        self.find_default_string(crate::ranges::StringIndex(h.name))
    }

    /// The first section whose name is exactly `name`.
    pub fn find_section_named(&self, name: &str) -> (r: Option<(usize, SectionHeader)>)
        requires
            self.tables_wf(),
        ensures
            ({
                let first = spec_first_named(
                    self.reader@,
                    self.sections@,
                    self.header.string_table_index as u32,
                    name@,
                    0,
                );
                &&& (r is Some <==> first is Some)
                &&& (r matches Some((j, h)) ==> Some(j as int) == first && h
                    == self.sections@[j as int])
            }),
    {
        let ghost strtab = self.header.string_table_index as u32;
        let n = self.sections.len();
        let mut j: usize = 0;
        while j < n
            invariant
                j <= n,
                n == self.sections.len(),
                spec_first_named(self.reader@, self.sections@, strtab, name@, 0)
                    == spec_first_named(self.reader@, self.sections@, strtab, name@, j as int),
            decreases n - j,
        {
            let ghost jj = j as int;
            match self.find_section_name(crate::ranges::SectionIndex(j as u32)) {
                Some(sname) => {
                    if crate::notes::str_eq(sname.as_str(), name) {
                        proof {
                            assert(spec_section_name_of(
                                self.reader@,
                                self.sections@,
                                strtab,
                                jj,
                            ) == Some(name@));
                        }
                        return Some((j, self.sections[j]));
                    }
                    proof {
                        assert(spec_section_name_of(self.reader@, self.sections@, strtab, jj)
                            == Some(sname@));
                    }
                },
                None => {
                    proof {
                        assert(spec_section_name_of(self.reader@, self.sections@, strtab, jj)
                            is None);
                    }
                },
            }
            j = j + 1;
        }
        None
    }
}


/// The first mapping in a merged memory-map list that contains `a`.
pub open spec fn spec_find_mapping(s: Seq<(u64, u64, Seq<char>)>, a: u64) -> Option<
    (u64, u64, Seq<char>),
>
    decreases s.len(),
{
    if s.len() == 0 {
        None
    } else if s[0].0 <= a < s[0].0 + s[0].1 {
        Some(s[0])
    } else {
        spec_find_mapping(s.drop_first(), a)
    }
}

/// The first section of the given type.
pub open spec fn spec_find_section_by_type(s: Seq<SectionHeader>, t: crate::sections::SectionType)
    -> Option<SectionHeader>
    decreases s.len(),
{
    if s.len() == 0 {
        None
    } else if s[0].stype == t {
        Some(s[0])
    } else {
        spec_find_section_by_type(s.drop_first(), t)
    }
}

/// A table walk yields at most one entry per table slot.
pub proof fn lemma_spec_loads_len(b: Seq<u8>, h: ElfHeader, sf: bool, le: bool, n: nat)
    ensures
        spec_loads(b, h, sf, le, n).len() <= n,
    decreases n,
{
    if n > 0 {
        lemma_spec_loads_len(b, h, sf, le, (n - 1) as nat);
    }
}

/// A table walk yields at most one entry per table slot.
pub proof fn lemma_spec_sections_len(b: Seq<u8>, h: ElfHeader, sf: bool, le: bool, n: nat)
    ensures
        spec_sections(b, h, sf, le, n).len() <= n,
    decreases n,
{
    if n > 0 {
        lemma_spec_sections_len(b, h, sf, le, (n - 1) as nat);
    }
}

/// Every load segment the table walk produces is well-formed.
pub proof fn lemma_spec_loads_wf(b: Seq<u8>, h: ElfHeader, sf: bool, le: bool, n: nat)
    ensures
        forall|j: int|
            0 <= j < spec_loads(b, h, sf, le, n).len() ==> (#[trigger] spec_loads(
                b,
                h,
                sf,
                le,
                n,
            )[j]).wf(),
    decreases n,
{
    if n > 0 {
        lemma_spec_loads_wf(b, h, sf, le, (n - 1) as nat);
        assert forall|j: int|
            0 <= j < spec_loads(b, h, sf, le, n).len() implies (#[trigger] spec_loads(
            b,
            h,
            sf,
            le,
            n,
        )[j]).wf() by {
            let prev = spec_loads(b, h, sf, le, (n - 1) as nat);
            if j < prev.len() {
                assert(spec_loads(b, h, sf, le, n)[j] == prev[j]);
            }
        }
    }
}

/// Every section header the table walk produces has well-formed ranges.
pub proof fn lemma_spec_sections_wf(b: Seq<u8>, h: ElfHeader, sf: bool, le: bool, n: nat)
    ensures
        forall|j: int|
            0 <= j < spec_sections(b, h, sf, le, n).len() ==> (#[trigger] spec_sections(
                b,
                h,
                sf,
                le,
                n,
            )[j]).obytes.wf() && spec_sections(b, h, sf, le, n)[j].vbytes.wf(),
    decreases n,
{
    if n > 0 {
        lemma_spec_sections_wf(b, h, sf, le, (n - 1) as nat);
        assert forall|j: int|
            0 <= j < spec_sections(b, h, sf, le, n).len() implies (#[trigger] spec_sections(
            b,
            h,
            sf,
            le,
            n,
        )[j]).obytes.wf() && spec_sections(b, h, sf, le, n)[j].vbytes.wf() by {
            let prev = spec_sections(b, h, sf, le, (n - 1) as nat);
            if j < prev.len() {
                assert(spec_sections(b, h, sf, le, n)[j] == prev[j]);
            }
        }
    }
}

/// The symbol entries decoded from a table section: one candidate every
/// `stride` bytes from `i` up to `end`; an entry that runs past the end of
/// the buffer is skipped and the walk continues.
pub open spec fn spec_symbols(b: Seq<u8>, i: int, end: int, stride: int, sf: bool, le: bool)
    -> Seq<crate::symbols::SymbolTableEntry>
    decreases end - i,
{
    if stride < 1 || i >= end || i < 0 {
        Seq::empty()
    } else {
        let head: Seq<crate::symbols::SymbolTableEntry> = if i + crate::symbols::sym_size(sf)
            <= b.len() {
            seq![crate::symbols::sym_at(b, i, sf, le)]
        } else {
            Seq::empty()
        };
        head + spec_symbols(
            b,
            if i + stride > end {
                end
            } else {
                i + stride
            },
            end,
            stride,
            sf,
            le,
        )
    }
}

impl ElfFile {
    /// Translates a core virtual address into a position relative to the
    /// memory mapping that contains it, via the memory-map note.
    pub fn vaddr_to_raddr(&self, addr: VirtualAddr) -> (r: Option<crate::ranges::RelativeAddr>)
        ensures
            ({
                let b = self.reader@;
                let le = self.reader.little_endian;
                let sf = self.reader.sixty_four_bit;
                let views = self.notes@.map_values(|n: Note| note_view(n));
                let found = spec_find_core_note(views, crate::notes::CoreNoteType::File);
                &&& (r is Some <==> (found matches Some(c) && spec_mapped_raw(
                    b,
                    c.start.0 as int,
                    le,
                    sf,
                ) matches Some(raw) && spec_find_mapping(spec_merge(raw), addr.0) is Some))
                &&& (r matches Some(ra) ==> (found matches Some(c) && spec_mapped_raw(
                    b,
                    c.start.0 as int,
                    le,
                    sf,
                ) matches Some(raw) && spec_find_mapping(spec_merge(raw), addr.0) matches Some(m)
                    && ra.0 == addr.0 - m.0))
            }),
    {
        let files = match self.get_memory_mapped_files() {
            Some(files) => files,
            None => {
                return None;
            },
        };
        let ghost fv = files@.map_values(|m: crate::notes::MemoryMappedFile| mmf_view(m));
        let n = files.len();
        let mut j: usize = 0;
        proof {
            assert(fv.subrange(0, n as int) =~= fv);
        }
        while j < n
            invariant
                j <= n,
                n == files.len(),
                fv == files@.map_values(|m: crate::notes::MemoryMappedFile| mmf_view(m)),
                spec_find_mapping(fv, addr.0) == spec_find_mapping(
                    fv.subrange(j as int, n as int),
                    addr.0,
                ),
            decreases n - j,
        {
            let ghost rest = fv.subrange(j as int, n as int);
            proof {
                assert(rest[0] == mmf_view(files@[j as int]));
            }
            let map_start = files[j].vbytes.start.raw();
            let map_size = files[j].vbytes.size;
            if addr.0 >= map_start && addr.0 - map_start < map_size {
                return Some(crate::ranges::RelativeAddr(addr.0 - map_start));
            }
            j = j + 1;
            proof {
                assert(rest.drop_first() =~= fv.subrange(j as int, n as int));
            }
        }
        None
    }

    /// The static symbol table, if the file carries one.
    pub fn find_symbols(&self) -> (r: Option<crate::symbols::SymbolTable>)
        requires
            self.tables_wf(),
        ensures
            symbol_table_result(r, *self, crate::sections::SectionType::SymbolTable),
    {
        self.do_find_symbols(crate::sections::SectionType::SymbolTable)
    }

    /// The dynamic symbol table, if the file carries one.
    pub fn find_dynamic_symbols(&self) -> (r: Option<crate::symbols::SymbolTable>)
        requires
            self.tables_wf(),
        ensures
            symbol_table_result(r, *self, crate::sections::SectionType::DynamicSymbolTable),
    {
        self.do_find_symbols(crate::sections::SectionType::DynamicSymbolTable)
    }

    /// Decodes the first section of the given symbol-table type into its
    /// entries, at the section's declared entry stride.
    fn do_find_symbols(&self, stype: crate::sections::SectionType) -> (r: Option<
        crate::symbols::SymbolTable,
    >)
        requires
            self.tables_wf(),
        ensures
            symbol_table_result(r, *self, stype),
    {
        let ghost b = self.reader@;
        let ghost sf = self.reader.sixty_four_bit;
        let ghost le = self.reader.little_endian;
        let n = self.sections.len();
        let mut j: usize = 0;
        proof {
            assert(self.sections@.subrange(0, n as int) =~= self.sections@);
        }
        while j < n
            invariant
                j <= n,
                n == self.sections.len(),
                spec_find_section_by_type(self.sections@, stype) == spec_find_section_by_type(
                    self.sections@.subrange(j as int, n as int),
                    stype,
                ),
            decreases n - j,
        {
            let ghost rest = self.sections@.subrange(j as int, n as int);
            let section = self.sections[j];
            if section_type_eq(section.stype, stype) {
                let entries = self.read_symbol_entries(&section);
                let dynamic = section_type_eq(
                    stype,
                    crate::sections::SectionType::DynamicSymbolTable,
                );
                return Some(crate::symbols::SymbolTable { section, dynamic, entries });
            }
            j = j + 1;
            proof {
                assert(rest.drop_first() =~= self.sections@.subrange(j as int, n as int));
            }
        }
        None
    }

    /// Walks one symbol-table section at its entry stride, skipping
    /// truncated entries.
    fn read_symbol_entries(&self, section: &SectionHeader) -> (r: Vec<
        crate::symbols::SymbolTableEntry,
    >)
        requires
            section.obytes.wf(),
        ensures
            r@ == spec_symbols(
                self.reader@,
                section.obytes.start.0 as int,
                section.obytes.start.0 + section.obytes.size,
                section.entry_size as int,
                self.reader.sixty_four_bit,
                self.reader.little_endian,
            ),
    {
        let ghost b = self.reader@;
        let ghost sf = self.reader.sixty_four_bit;
        let ghost le = self.reader.little_endian;
        let start = section.obytes.start.raw();
        let end = section.obytes.start.raw() + section.obytes.size;
        let stride = section.entry_size;
        let ghost all = spec_symbols(b, start as int, end as int, stride as int, sf, le);
        let mut entries: Vec<crate::symbols::SymbolTableEntry> = Vec::new();
        if stride == 0 {
            return entries;
        }
        let mut offset: u64 = start;
        while offset < end
            invariant
                stride >= 1,
                offset >= start,
                entries@ + spec_symbols(b, offset as int, end as int, stride as int, sf, le)
                    == all,
            decreases end - offset,
        {
            let ghost cur = offset as int;
            let ghost seen = entries@;
            match crate::symbols::SymbolTableEntry::new(&self.reader, Offset(offset)) {
                Ok(e) => {
                    proof {
                        assert(cur + crate::symbols::sym_size(sf) <= b.len());
                    }
                    entries.push(e);
                },
                Err(_) => {
                    proof {
                        assert(cur + crate::symbols::sym_size(sf) > b.len());
                    }
                },
            }
            let ghost next = if cur + stride > end as int {
                end as int
            } else {
                cur + stride
            };
            proof {
                assert(spec_symbols(b, cur, end as int, stride as int, sf, le) =~= (
                if cur + crate::symbols::sym_size(sf) <= b.len() {
                    seq![crate::symbols::sym_at(b, cur, sf, le)]
                } else {
                    Seq::<crate::symbols::SymbolTableEntry>::empty()
                }) + spec_symbols(b, next, end as int, stride as int, sf, le));
                assert(entries@ + spec_symbols(b, next, end as int, stride as int, sf, le)
                    =~= all);
            }
            if stride > u64::MAX - offset {
                proof {
                    assert(next == end as int);
                    assert(spec_symbols(b, next, end as int, stride as int, sf, le)
                        =~= Seq::<crate::symbols::SymbolTableEntry>::empty());
                    assert(entries@ =~= entries@ + Seq::<
                        crate::symbols::SymbolTableEntry,
                    >::empty());
                }
                return entries;
            }
            offset = if offset + stride > end {
                end
            } else {
                offset + stride
            };
        }
        proof {
            assert(spec_symbols(b, offset as int, end as int, stride as int, sf, le) =~= Seq::<
                crate::symbols::SymbolTableEntry,
            >::empty());
            assert(entries@ =~= entries@ + Seq::<crate::symbols::SymbolTableEntry>::empty());
        }
        entries
    }
}

/// Compares two section types.
fn section_type_eq(a: crate::sections::SectionType, b: crate::sections::SectionType) -> (r: bool)
    ensures
        r == (a == b),
{
    a == b
}

/// What a symbol-table lookup returns: the first section of the requested
/// type, its entries decoded at the section's stride, and whether the
/// table is the dynamic one.
pub open spec fn symbol_table_result(
    r: Option<crate::symbols::SymbolTable>,
    f: ElfFile,
    stype: crate::sections::SectionType,
) -> bool {
    let found = spec_find_section_by_type(f.sections@, stype);
    &&& (r is Some <==> found is Some)
    &&& (r matches Some(t) ==> (found matches Some(sec) && t.section == sec && t.dynamic == (
    stype == crate::sections::SectionType::DynamicSymbolTable) && t.entries@ == spec_symbols(
        f.reader@,
        sec.obytes.start.0 as int,
        sec.obytes.start.0 + sec.obytes.size,
        sec.entry_size as int,
        f.reader.sixty_four_bit,
        f.reader.little_endian,
    )))
}


/// The relocation entries of one section: one candidate every `stride`
/// bytes while a whole entry still fits before `end`; an entry that is
/// truncated or carries an unknown type code is skipped.
pub open spec fn spec_relocs_seg(
    b: Seq<u8>,
    i: int,
    end: int,
    stride: int,
    has_addend: bool,
    dynamic: bool,
    sf: bool,
    le: bool,
) -> Seq<crate::sections::Relocation>
    decreases end - i,
{
    if stride < 1 || i < 0 || i + stride > end {
        Seq::empty()
    } else {
        let head: Seq<crate::sections::Relocation> = match spec_rel_at(
            b,
            i,
            has_addend,
            dynamic,
            sf,
            le,
        ) {
            Some(rel) => seq![rel],
            None => Seq::empty(),
        };
        head + spec_relocs_seg(b, i + stride, end, stride, has_addend, dynamic, sf, le)
    }
}

/// The relocation at `i`, when it lies inside the buffer and its type code
/// is a defined x86-64 relocation type.
pub open spec fn spec_rel_at(
    b: Seq<u8>,
    i: int,
    has_addend: bool,
    dynamic: bool,
    sf: bool,
    le: bool,
) -> Option<crate::sections::Relocation> {
    let info = crate::sections::rel_info_at(b, i, sf, le);
    let split = crate::sections::rel_split(info, sf);
    if i + crate::sections::rel_size(sf, has_addend) <= b.len() {
        match crate::sections::spec_reloc_type(split.1 as u64) {
            Some(t) => Some(
                crate::sections::Relocation {
                    offset: word_at(b, i, crate::sections::addr_plus(sf), le) as u64,
                    symbol_index: split.0 as u32,
                    rtype: t,
                    dynamic,
                    addend: if has_addend {
                        Some(
                            (word_at(
                                b,
                                i + crate::sections::addr_plus(sf) + 8,
                                8,
                                le,
                            ) as u64) as i64,
                        )
                    } else {
                        None
                    },
                },
            ),
            None => None,
        }
    } else {
        None
    }
}

/// The relocations of the first `n` sections, in table order: with-addend
/// and without-addend relocation sections each walked at their declared
/// stride, a section counting as dynamic when its `info` field is zero.
pub open spec fn spec_relocations(b: Seq<u8>, sections: Seq<SectionHeader>, sf: bool, le: bool)
    -> Seq<crate::sections::Relocation>
    decreases sections.len(),
{
    if sections.len() == 0 {
        Seq::empty()
    } else {
        let sec = sections[0];
        let head: Seq<crate::sections::Relocation> = if sec.stype
            == crate::sections::SectionType::RelocationsWith {
            spec_relocs_seg(
                b,
                sec.obytes.start.0 as int,
                sec.obytes.start.0 + sec.obytes.size,
                sec.entry_size as int,
                true,
                sec.info == 0,
                sf,
                le,
            )
        } else if sec.stype == crate::sections::SectionType::RelocationsWithout {
            spec_relocs_seg(
                b,
                sec.obytes.start.0 as int,
                sec.obytes.start.0 + sec.obytes.size,
                sec.entry_size as int,
                false,
                sec.info == 0,
                sf,
                le,
            )
        } else {
            Seq::empty()
        };
        head + spec_relocations(b, sections.drop_first(), sf, le)
    }
}

impl ElfFile {
    /// Appends this file's relocations to `result`.  Relocation decoding is
    /// implemented only for 64-bit x86; any other architecture is an
    /// explicit unsupported-architecture error that appends nothing, never
    /// a silent skip.
    pub fn find_relocations(&self, result: &mut Vec<crate::sections::Relocation>) -> (r: Result<
        (),
        ElfError,
    >)
        requires
            self.tables_wf(),
        ensures
            r is Ok <==> self.header.machine == 0x3e,
            r is Err ==> r->Err_0 == ElfError::UnsupportedArchitecture && final(result)@ == old(
                result,
            )@,
            self.header.machine == 0x3e ==> final(result)@ == old(result)@ + spec_relocations(
                self.reader@,
                self.sections@,
                self.reader.sixty_four_bit,
                self.reader.little_endian,
            ),
    {
        if !self.header.is_x86_64() {
            return Err(ElfError::UnsupportedArchitecture);
        }
        let ghost b = self.reader@;
        let ghost sf = self.reader.sixty_four_bit;
        let ghost le = self.reader.little_endian;
        let ghost base = result@;
        let n = self.sections.len();
        let mut j: usize = 0;
        proof {
            assert(self.sections@.subrange(0, n as int) =~= self.sections@);
        }
        while j < n
            invariant
                j <= n,
                n == self.sections.len(),
                self.tables_wf(),
                result@ + spec_relocations(
                    b,
                    self.sections@.subrange(j as int, n as int),
                    sf,
                    le,
                ) == base + spec_relocations(b, self.sections@, sf, le),
            decreases n - j,
        {
            let ghost rest = self.sections@.subrange(j as int, n as int);
            let ghost seen = result@;
            let section = self.sections[j];
            proof {
                assert(rest[0] == section);
            }
            if section_type_eq(section.stype, crate::sections::SectionType::RelocationsWith) {
                self.read_relocation_entries(&section, true, result);
            } else if section_type_eq(
                section.stype,
                crate::sections::SectionType::RelocationsWithout,
            ) {
                self.read_relocation_entries(&section, false, result);
            }
            j = j + 1;
            proof {
                assert(rest.drop_first() =~= self.sections@.subrange(j as int, n as int));
                assert(seen + (spec_relocations(b, rest, sf, le)) =~= base + spec_relocations(
                    b,
                    self.sections@,
                    sf,
                    le,
                ));
            }
        }
        proof {
            assert(spec_relocations(b, self.sections@.subrange(n as int, n as int), sf, le)
                =~= Seq::<crate::sections::Relocation>::empty());
            assert(result@ =~= result@ + Seq::<crate::sections::Relocation>::empty());
        }
        Ok(())
    }

    /// Walks one relocation section at its entry stride, appending each
    /// decodable entry.
    fn read_relocation_entries(
        &self,
        section: &SectionHeader,
        has_addend: bool,
        result: &mut Vec<crate::sections::Relocation>,
    )
        requires
            section.obytes.wf(),
        ensures
            final(result)@ == old(result)@ + spec_relocs_seg(
                self.reader@,
                section.obytes.start.0 as int,
                section.obytes.start.0 + section.obytes.size,
                section.entry_size as int,
                has_addend,
                section.info == 0,
                self.reader.sixty_four_bit,
                self.reader.little_endian,
            ),
    {
        let ghost b = self.reader@;
        let ghost sf = self.reader.sixty_four_bit;
        let ghost le = self.reader.little_endian;
        let start = section.obytes.start.raw();
        let end = section.obytes.start.raw() + section.obytes.size;
        let stride = section.entry_size;
        let dynamic = section.info == 0;
        let ghost all = spec_relocs_seg(
            b,
            start as int,
            end as int,
            stride as int,
            has_addend,
            dynamic,
            sf,
            le,
        );
        let ghost base = result@;
        if stride == 0 {
            proof {
                assert(all =~= Seq::<crate::sections::Relocation>::empty());
                assert(result@ =~= base + all);
            }
            return ;
        }
        let mut offset: u64 = start;
        while offset <= u64::MAX - stride && offset + stride <= end
            invariant
                stride >= 1,
                offset >= start,
                result@ + spec_relocs_seg(
                    b,
                    offset as int,
                    end as int,
                    stride as int,
                    has_addend,
                    dynamic,
                    sf,
                    le,
                ) == base + all,
            decreases end - offset,
        {
            let ghost cur = offset as int;
            let decoded = if has_addend {
                crate::sections::Relocation::with_addend(&self.reader, Offset(offset), dynamic)
            } else {
                crate::sections::Relocation::with_no_addend(&self.reader, Offset(offset), dynamic)
            };
            proof {
                assert(spec_relocs_seg(b, cur, end as int, stride as int, has_addend, dynamic,
                sf, le) =~= (match spec_rel_at(b, cur, has_addend, dynamic, sf, le) {
                    Some(rel) => seq![rel],
                    None => Seq::<crate::sections::Relocation>::empty(),
                }) + spec_relocs_seg(
                    b,
                    cur + stride,
                    end as int,
                    stride as int,
                    has_addend,
                    dynamic,
                    sf,
                    le,
                ));
            }
            match decoded {
                Ok(rel) => {
                    proof {
                        assert(spec_rel_at(b, cur, has_addend, dynamic, sf, le) == Some(rel));
                    }
                    let ghost seen = result@;
                    result.push(rel);
                    proof {
                        assert(result@ =~= seen.push(rel));
                        assert(seen.push(rel) + spec_relocs_seg(
                            b,
                            cur + stride,
                            end as int,
                            stride as int,
                            has_addend,
                            dynamic,
                            sf,
                            le,
                        ) =~= seen + (seq![rel] + spec_relocs_seg(
                            b,
                            cur + stride,
                            end as int,
                            stride as int,
                            has_addend,
                            dynamic,
                            sf,
                            le,
                        )));
                    }
                },
                Err(_) => {
                    proof {
                        assert(spec_rel_at(b, cur, has_addend, dynamic, sf, le) is None);
                    }
                },
            }
            offset = offset + stride;
        }
        proof {
            assert(spec_relocs_seg(
                b,
                offset as int,
                end as int,
                stride as int,
                has_addend,
                dynamic,
                sf,
                le,
            ) =~= Seq::<crate::sections::Relocation>::empty());
            assert(result@ =~= result@ + Seq::<crate::sections::Relocation>::empty());
        }
    }
}


/// The null-terminated strings packed from `i` to `end`: reading stops at
/// the first position with no terminator before the end of the buffer.  A
/// string that starts before `end` is read whole even if it crosses it.
pub open spec fn spec_strings_from(b: Seq<u8>, i: int, end: int) -> Seq<Seq<char>>
    decreases end - i,
    via spec_strings_from_decreases
{
    if i < 0 || i >= end || crate::reader::find_nul(b, i) >= b.len() {
        Seq::empty()
    } else {
        let nul = crate::reader::find_nul(b, i);
        seq![byte_chars(b.subrange(i, nul))] + spec_strings_from(
            b,
            if nul + 1 > end {
                end
            } else {
                nul + 1
            },
            end,
        )
    }
}

#[via_fn]
proof fn spec_strings_from_decreases(b: Seq<u8>, i: int, end: int) {
    if 0 <= i < end && crate::reader::find_nul(b, i) < b.len() {
        if i < b.len() {
            crate::reader::lemma_find_nul_bounds(b, i);
        }
    }
}

/// What `find_strings` returns: nothing unless the section is a string
/// table, and at most `max` strings when `max` is nonzero.
pub open spec fn spec_strings_result(b: Seq<u8>, section: SectionHeader, max: int) -> Seq<
    Seq<char>,
> {
    if section.stype != crate::sections::SectionType::StringTable {
        Seq::empty()
    } else {
        let all = spec_strings_from(
            b,
            section.obytes.start.0 as int,
            section.obytes.start.0 + section.obytes.size,
        );
        if 0 < max < all.len() {
            all.take(max)
        } else {
            all
        }
    }
}

impl ElfFile {
    /// The strings of one string-table section, at most `max` of them when
    /// `max` is nonzero.
    pub fn find_strings(&self, section: &SectionHeader, max: usize) -> (r: Vec<String>)
        requires
            section.obytes.wf(),
        ensures
            r@.map_values(|st: String| st@) == spec_strings_result(
                self.reader@,
                *section,
                max as int,
            ),
    {
        let ghost b = self.reader@;
        let mut result: Vec<String> = Vec::new();
        let is_table = section_type_eq(
            section.stype,
            crate::sections::SectionType::StringTable,
        );
        if !is_table {
            proof {
                assert(result@.map_values(|st: String| st@) =~= spec_strings_result(
                    b,
                    *section,
                    max as int,
                ));
            }
            return result;
        }
        let start = section.obytes.start.raw();
        let end = section.obytes.start.raw() + section.obytes.size;
        let ghost all = spec_strings_from(b, start as int, end as int);
        let mut stream = Stream::new(&self.reader, Offset(start));
        while stream.offset.0 < end
            invariant
                stream.reader == &self.reader,
                stream.offset.0 >= start,
                max > 0 ==> result@.len() < max,
                result@.map_values(|st: String| st@) + spec_strings_from(
                    b,
                    stream.offset.0 as int,
                    end as int,
                ) == all,
            decreases
                    if stream.offset.0 < end {
                        end - stream.offset.0
                    } else {
                        0
                    },
        {
            let ghost cur = stream.offset.0 as int;
            let ghost seen = result@.map_values(|st: String| st@);
            match stream.read_string() {
                Ok(st) => {
                    proof {
                        crate::reader::lemma_find_nul_bounds(b, cur);
                        let nul = crate::reader::find_nul(b, cur);
                        assert(nul < b.len());
                        if nul + 1 > end as int {
                            assert(spec_strings_from(b, nul + 1, end as int) =~= Seq::<
                                Seq<char>,
                            >::empty());
                            assert(spec_strings_from(b, end as int, end as int) =~= Seq::<
                                Seq<char>,
                            >::empty());
                        }
                        assert(spec_strings_from(b, cur, end as int) =~= seq![st@]
                            + spec_strings_from(b, stream.offset.0 as int, end as int));
                    }
                    result.push(st);
                    proof {
                        assert(result@.map_values(|s2: String| s2@) =~= seen.push(st@));
                        assert(seen.push(st@) + spec_strings_from(
                            b,
                            stream.offset.0 as int,
                            end as int,
                        ) =~= seen + (seq![st@] + spec_strings_from(
                            b,
                            stream.offset.0 as int,
                            end as int,
                        )));
                    }
                    if max > 0 && result.len() == max {
                        proof {
                            lemma_prefix_is_take(
                                result@.map_values(|s2: String| s2@),
                                spec_strings_from(b, stream.offset.0 as int, end as int),
                                all,
                            );
                        }
                        return result;
                    }
                },
                Err(_) => {
                    proof {
                        assert(spec_strings_from(b, cur, end as int) =~= Seq::<
                            Seq<char>,
                        >::empty());
                        assert(seen =~= seen + Seq::<Seq<char>>::empty());
                        if max > 0 && all.len() > max {
                            assert(seen.len() < max);
                            assert(false);
                        }
                    }
                    return result;
                },
            }
        }
        proof {
            assert(spec_strings_from(b, stream.offset.0 as int, end as int) =~= Seq::<
                Seq<char>,
            >::empty());
            assert(result@.map_values(|st: String| st@) =~= result@.map_values(|st: String| st@)
                + Seq::<Seq<char>>::empty());
            if max > 0 && all.len() > max {
                assert(result@.len() < max);
                assert(false);
            }
        }
        result
    }
}

/// A list that concatenates with a tail to a whole is the whole's prefix
/// of its own length.
proof fn lemma_prefix_is_take(a: Seq<Seq<char>>, tail: Seq<Seq<char>>, whole: Seq<Seq<char>>)
    requires
        a + tail == whole,
    ensures
        a == whole.take(a.len() as int),
        whole.len() >= a.len(),
{
    assert(whole.take(a.len() as int) =~= a);
}


impl ElfFile {
    /// Decodes the line tables of the first `.debug_line` program-bits
    /// section, when the file carries one.
    pub fn get_lines(&self) -> (r: Option<crate::line::LineInfo>)
        requires
            self.tables_wf(),
        ensures
            ({
                let first = spec_first_progbits_named(
                    self.reader@,
                    self.sections@,
                    self.header.string_table_index as u32,
                    ".debug_line"@,
                    0,
                );
                &&& (r is Some <==> first is Some)
                &&& (r matches Some(li) ==> li.wf())
                &&& (r matches Some(li) ==> (first matches Some(j) && ({
                    let sec = self.sections@[j];
                    let u = crate::line::spec_units(
                        self.reader@,
                        self.reader.little_endian,
                        self.reader.sixty_four_bit,
                        sec.obytes.start.0 as int,
                        sec.obytes.start.0 + sec.obytes.size,
                        seq!["?"@],
                    );
                    &&& li.units@.map_values(|un: crate::line::LineUnit| crate::line::line_unit_view(un)) == u.0
                    &&& crate::line::rows_view(li.lines@, li.files@) == u.1
                    &&& li.files@ == u.2
                })))
            }),
    {
        let ghost strtab = self.header.string_table_index as u32;
        let n = self.sections.len();
        let mut j: usize = 0;
        while j < n
            invariant
                j <= n,
                n == self.sections.len(),
                self.tables_wf(),
                spec_first_progbits_named(
                    self.reader@,
                    self.sections@,
                    strtab,
                    ".debug_line"@,
                    0,
                ) == spec_first_progbits_named(
                    self.reader@,
                    self.sections@,
                    strtab,
                    ".debug_line"@,
                    j as int,
                ),
            decreases n - j,
        {
            let ghost jj = j as int;
            let section = self.sections[j];
            let is_progbits = match section.stype {
                crate::sections::SectionType::ProgBits => true,
                _ => false,
            };
            if is_progbits {
                match self.find_section_name(crate::ranges::SectionIndex(j as u32)) {
                    Some(name) => {
                        if crate::notes::str_eq(name.as_str(), ".debug_line") {
                            proof {
                                assert(spec_section_name_of(
                                    self.reader@,
                                    self.sections@,
                                    strtab,
                                    jj,
                                ) == Some(".debug_line"@));
                            }
                            let mut stream = Stream::new(&self.reader, section.obytes.start);
                            let max_offset = Offset(section.obytes.start.0 + section.obytes.size);
                            return Some(crate::line::LineInfo::new(&mut stream, max_offset));
                        }
                        proof {
                            assert(spec_section_name_of(self.reader@, self.sections@, strtab, jj)
                                == Some(name@));
                        }
                    },
                    None => {
                        proof {
                            assert(spec_section_name_of(self.reader@, self.sections@, strtab, jj)
                                is None);
                        }
                    },
                }
            }
            j = j + 1;
        }
        None
    }

    /// Decodes the abbreviation table of the first `.debug_abbrev`
    /// section: the entries in order until the terminating zero code,
    /// indexed by `code - 1`, stopping early at the first malformed entry.
    /// A missing section yields an empty table.
    pub fn find_abbreviations(&self) -> (r: Vec<crate::abbrev::Abbreviation>)
        requires
            self.tables_wf(),
        ensures
            ({
                let first = spec_first_named(
                    self.reader@,
                    self.sections@,
                    self.header.string_table_index as u32,
                    ".debug_abbrev"@,
                    0,
                );
                &&& (first is None ==> r@.len() == 0)
                &&& (first matches Some(j) ==> r@.map_values(
                    |a: crate::abbrev::Abbreviation| crate::abbrev::abbrev_view(a),
                ) == crate::abbrev::spec_abbrev_table(
                    self.reader@,
                    self.sections@[j].obytes.start.0 as int,
                ))
            }),
    {
        let mut abbrevs: Vec<crate::abbrev::Abbreviation> = Vec::new();
        let section = match self.find_section_named(".debug_abbrev") {
            Some((_, section)) => section,
            None => {
                return abbrevs;
            },
        };
        let ghost b = self.reader@;
        let ghost table_start = section.obytes.start.0 as int;
        let ghost whole = crate::abbrev::spec_abbrev_table(b, table_start);
        let mut stream = Stream::new(&self.reader, section.obytes.start);
        proof {
            assert(abbrevs@.map_values(|a: crate::abbrev::Abbreviation| crate::abbrev::abbrev_view(a))
                + whole =~= whole);
        }
        let n = self.reader.len();
        loop
            invariant
                stream.reader == &self.reader,
                abbrevs@.map_values(|a: crate::abbrev::Abbreviation| crate::abbrev::abbrev_view(a))
                    + crate::abbrev::spec_abbrev_table(b, stream.offset.0 as int) == whole,
            decreases
                    if stream.offset.0 < n {
                        n - stream.offset.0
                    } else {
                        0
                    },
        {
            let before = stream.offset.0;
            let ghost seen = abbrevs@.map_values(
                |a: crate::abbrev::Abbreviation| crate::abbrev::abbrev_view(a),
            );
            match crate::abbrev::Abbreviation::new(&mut stream) {
                Ok(Some(a)) => {
                    proof {
                        crate::reader::lemma_uleb_at_bounds(b, before as int);
                        match crate::reader::uleb_at(b, before as int) {
                            Some((code, n1)) => {
                                crate::reader::lemma_uleb_at_bounds(b, n1);
                                match crate::reader::uleb_at(b, n1) {
                                    Some((tagv, n2)) => {
                                        crate::abbrev::lemma_attr_pairs_bounds(b, n2 + 1);
                                    },
                                    None => {},
                                }
                            },
                            None => {},
                        }
                        assert(crate::abbrev::spec_abbrev_table(b, before as int) =~= seq![
                            crate::abbrev::spec_abbrev_at(b, before as int),
                        ] + crate::abbrev::spec_abbrev_table(b, stream.offset.0 as int));
                    }
                    abbrevs.push(a);
                    proof {
                        assert(abbrevs@.map_values(
                            |aa: crate::abbrev::Abbreviation| crate::abbrev::abbrev_view(aa),
                        ) =~= seen.push(crate::abbrev::abbrev_view(a)));
                        assert(seen.push(crate::abbrev::abbrev_view(a))
                            + crate::abbrev::spec_abbrev_table(b, stream.offset.0 as int)
                            =~= seen + crate::abbrev::spec_abbrev_table(b, before as int));
                    }
                    if stream.offset.0 <= before || stream.offset.0 > n as u64 {
                        proof {
                            assert(false);
                        }
                        return abbrevs;
                    }
                },
                Ok(None) => {
                    proof {
                        assert(crate::abbrev::spec_abbrev_table(b, before as int) =~= Seq::<
                            (crate::dwarf::Tag, bool, Seq<crate::abbrev::AttributeEncoding>),
                        >::empty());
                        assert(seen + crate::abbrev::spec_abbrev_table(b, before as int)
                            =~= seen);
                    }
                    return abbrevs;
                },
                Err(_) => {
                    proof {
                        assert(!crate::abbrev::spec_abbrev_ok(b, before as int));
                        assert(crate::abbrev::spec_abbrev_table(b, before as int) =~= Seq::<
                            (crate::dwarf::Tag, bool, Seq<crate::abbrev::AttributeEncoding>),
                        >::empty());
                        assert(seen + crate::abbrev::spec_abbrev_table(b, before as int)
                            =~= seen);
                    }
                    return abbrevs;
                },
            }
        }
    }
}

} // verus!
