//! Program headers and load segments: the run-time loader's view of the
//! file.  Sections are the link-time view.

use vstd::prelude::*;
use crate::ElfError;
use crate::ranges::{Bytes, Coord, Offset, VirtualAddr};
use crate::reader::{Reader, Stream, addr_size, word_at};

verus! {

pub const EXECUTE_FLAG: u32 = 0x1;

pub const WRITE_FLAG: u32 = 0x2;

pub const READ_FLAG: u32 = 0x4;

/// The segment types the loader distinguishes.  Unknown and reserved codes
/// map to `Null` so a damaged table never aborts a load.
#[derive(Clone, Copy, Debug, Eq, PartialEq, Structural)]
pub enum SegmentType {
    /// Not to be used: either reserved, OS- or processor-specific, or
    /// unrecognized.
    Null,
    /// A loadable segment, described by its file and memory sizes.
    Load,
    /// Dynamic linking information.
    Dynamic,
    /// The path of the interpreter to invoke.
    Interpreter,
    /// Auxiliary metadata; core files store process state here.
    Note,
    /// Reserved with unspecified semantics.
    Shlib,
    /// The program header table itself.
    Phdr,
    /// The thread-local storage template.
    Tls,
}

/// Which variant each segment type code decodes to.
pub open spec fn spec_segment_type(value: u32) -> SegmentType {
    if value == 0 {
        SegmentType::Null
    } else if value == 1 {
        SegmentType::Load
    } else if value == 2 {
        SegmentType::Dynamic
    } else if value == 3 {
        SegmentType::Interpreter
    } else if value == 4 {
        SegmentType::Note
    } else if value == 5 {
        SegmentType::Shlib
    } else if value == 6 {
        SegmentType::Phdr
    } else if value == 7 {
        SegmentType::Tls
    } else {
        SegmentType::Null
    }
}

impl SegmentType {
    /// Decodes a segment type code; codes the engine does not special-case
    /// become `Null` rather than an error.
    pub fn from_u32(value: u32) -> (r: Self)
        ensures
            r == spec_segment_type(value),
    {
        match value {
            0 => SegmentType::Null,
            1 => SegmentType::Load,
            2 => SegmentType::Dynamic,
            3 => SegmentType::Interpreter,
            4 => SegmentType::Note,
            5 => SegmentType::Shlib,
            6 => SegmentType::Phdr,
            7 => SegmentType::Tls,
            _ => SegmentType::Null,
        }
    }
}

/// One entry of the program header table, as stored in the file.
pub struct ProgramHeader {
    pub stype: SegmentType,
    /// Offset of the first byte of the segment in the file.
    pub offset: u64,
    /// Virtual address of the first byte of the segment.
    pub vaddr: u64,
    /// Physical address of the first byte; zero in core files.
    pub paddr: u64,
    /// Number of bytes the segment occupies in the file.
    pub file_size: u64,
    /// Number of bytes the segment occupies in memory.
    pub mem_size: u64,
    /// Read/write/execute flags.
    pub flags: u32,
}

/// The size of one program header entry for the given word size.
pub open spec fn ph_size(sixty_four_bit: bool) -> nat {
    if sixty_four_bit {
        0x38
    } else {
        0x20
    }
}

/// The decoded fields of the program header at `i`, under the 64-bit layout
/// (flags come right after the type) or the 32-bit layout (flags come after
/// the sizes).
pub open spec fn ph_at(b: Seq<u8>, i: int, sixty_four_bit: bool, le: bool) -> ProgramHeader {
    if sixty_four_bit {
        ProgramHeader {
            stype: spec_segment_type(word_at(b, i, 4, le) as u32),
            flags: word_at(b, i + 4, 4, le) as u32,
            offset: word_at(b, i + 8, 8, le) as u64,
            vaddr: word_at(b, i + 0x10, 8, le) as u64,
            paddr: word_at(b, i + 0x18, 8, le) as u64,
            file_size: word_at(b, i + 0x20, 8, le) as u64,
            mem_size: word_at(b, i + 0x28, 8, le) as u64,
        }
    } else {
        ProgramHeader {
            stype: spec_segment_type(word_at(b, i, 4, le) as u32),
            offset: word_at(b, i + 4, 4, le) as u64,
            vaddr: word_at(b, i + 8, 4, le) as u64,
            paddr: word_at(b, i + 0xc, 4, le) as u64,
            file_size: word_at(b, i + 0x10, 4, le) as u64,
            mem_size: word_at(b, i + 0x14, 4, le) as u64,
            flags: word_at(b, i + 0x18, 4, le) as u32,
        }
    }
}

impl ProgramHeader {
    /// Decodes the program header at `offset`.  Field order and widths both
    /// differ between the 32-bit and 64-bit encodings.
    pub fn new(reader: &Reader, offset: Offset) -> (r: Result<Self, ElfError>)
        ensures
            r is Ok <==> offset.0 + ph_size(reader.sixty_four_bit) <= reader@.len(),
            r matches Ok(ph) ==> ph == ph_at(
                reader@,
                offset.0 as int,
                reader.sixty_four_bit,
                reader.little_endian,
            ),
            r is Err ==> r->Err_0 == ElfError::ReadOutOfBounds,
    {
        let mut s = Stream::new(reader, offset);
        if reader.sixty_four_bit {
            let p_type = SegmentType::from_u32(s.read_word()?);
            let p_flags = s.read_word()?;
            let p_offset = s.read_offset()?;
            let p_vaddr = s.read_addr()?;
            let p_paddr = s.read_addr()?;
            let p_filesz = s.read_xword()?;
            let p_memsz = s.read_xword()?;
            let _p_align = s.read_xword()?;
            Ok(
                ProgramHeader {
                    stype: p_type,
                    flags: p_flags,
                    offset: p_offset,
                    vaddr: p_vaddr,
                    paddr: p_paddr,
                    file_size: p_filesz,
                    mem_size: p_memsz,
                },
            )
        } else {
            let p_type = SegmentType::from_u32(s.read_word()?);
            let p_offset = s.read_offset()?;
            let p_vaddr = s.read_addr()?;
            let p_paddr = s.read_addr()?;
            let p_filesz = s.read_word()?;
            let p_memsz = s.read_word()?;
            let p_flags = s.read_word()?;
            let _p_align = s.read_word()?;
            Ok(
                ProgramHeader {
                    stype: p_type,
                    flags: p_flags,
                    offset: p_offset,
                    vaddr: p_vaddr,
                    paddr: p_paddr,
                    file_size: p_filesz as u64,
                    mem_size: p_memsz as u64,
                },
            )
        }
    }

    /// The conventional three-character rendering of the permission flags,
    /// for example `x-r`.
    pub fn flags(flags: u32) -> (r: String)
        ensures
            r@ == flag_chars(flags),
    {
        let mut result = String::new();
        if flags & EXECUTE_FLAG != 0 {
            crate::reader::push_char(&mut result, 'x');
        } else {
            crate::reader::push_char(&mut result, '-');
        }
        if flags & WRITE_FLAG != 0 {
            crate::reader::push_char(&mut result, 'w');
        } else {
            crate::reader::push_char(&mut result, '-');
        }
        if flags & READ_FLAG != 0 {
            crate::reader::push_char(&mut result, 'r');
        } else {
            crate::reader::push_char(&mut result, '-');
        }
        proof {
            assert(result@ =~= flag_chars(flags));
        }
        result
    }
}

/// The three characters `ProgramHeader::flags` renders: execute, write,
/// read, each shown as its letter or a dash.
pub open spec fn flag_chars(flags: u32) -> Seq<char> {
    seq![
        if flags & EXECUTE_FLAG != 0 {
            'x'
        } else {
            '-'
        },
        if flags & WRITE_FLAG != 0 {
            'w'
        } else {
            '-'
        },
        if flags & READ_FLAG != 0 {
            'r'
        } else {
            '-'
        },
    ]
}

/// A loadable region: the same `size` bytes addressed both by file offset
/// and by virtual address, with permission flags.  The two ranges are
/// congruent: translating an address between them is adding or subtracting
/// the fixed delta between their starts.
#[derive(Clone, Copy)]
pub struct LoadSegment {
    /// The segment's bytes addressed by offset from the start of the file.
    pub obytes: Bytes<Offset>,
    /// The segment's bytes addressed by virtual address in the process.
    pub vbytes: Bytes<VirtualAddr>,
    /// Readable, writeable, and/or executable.
    pub flags: u32,
}

impl LoadSegment {
    /// Both ranges are representable and share one size.
    pub open spec fn wf(&self) -> bool {
        &&& self.obytes.wf()
        &&& self.vbytes.wf()
        &&& self.obytes.size == self.vbytes.size
    }

    /// The file offset a contained virtual address translates to.
    pub open spec fn spec_to_offset(&self, vaddr: u64) -> Option<u64> {
        if self.vbytes.spec_contains(vaddr) {
            Some((self.obytes.start.value() + (vaddr - self.vbytes.start.value())) as u64)
        } else {
            None
        }
    }

    /// The virtual address a contained file offset translates to.
    pub open spec fn spec_to_vaddr(&self, offset: u64) -> Option<u64> {
        if self.obytes.spec_contains(offset) {
            Some((self.vbytes.start.value() + (offset - self.obytes.start.value())) as u64)
        } else {
            None
        }
    }

    /// Translates a virtual address to its file offset.  Defined exactly on
    /// the addresses the virtual range contains; the result is the offset
    /// range's start plus the address's distance from the virtual range's
    /// start.
    pub fn to_offset(&self, vaddr: VirtualAddr) -> (r: Option<Offset>)
        requires
            self.wf(),
        ensures
            r is Some <==> self.vbytes.spec_contains(vaddr.0),
            r matches Some(o) ==> Some(o.0) == self.spec_to_offset(vaddr.0),
    {
        if self.vbytes.contains(vaddr) {
            let delta = vaddr.0 - self.vbytes.start.raw();
            Some(Offset(self.obytes.start.raw() + delta))
        } else {
            None
        }
    }

    pub fn executable(&self) -> (r: bool)
        ensures
            r == (self.flags & EXECUTE_FLAG != 0),
    {
        self.flags & EXECUTE_FLAG != 0
    }

    pub fn writeable(&self) -> (r: bool)
        ensures
            r == (self.flags & WRITE_FLAG != 0),
    {
        self.flags & WRITE_FLAG != 0
    }

    pub fn readable(&self) -> (r: bool)
        ensures
            r == (self.flags & READ_FLAG != 0),
    {
        self.flags & READ_FLAG != 0
    }

    pub fn flags(&self) -> (r: String)
        ensures
            r@ == flag_chars(self.flags),
    {
        ProgramHeader::flags(self.flags)
    }
}

/// Within one well-formed segment the two translations are mutually
/// inverse: every virtual address the segment contains maps to a file
/// offset the segment contains, and translating that offset back
/// reconstructs the address exactly; an address outside the virtual range
/// maps to nothing.
pub proof fn lemma_translation_round_trip(seg: LoadSegment, v: u64)
    requires
        seg.wf(),
    ensures
        seg.vbytes.spec_contains(v) ==> (seg.spec_to_offset(v) matches Some(o)
            && seg.obytes.spec_contains(o) && seg.spec_to_vaddr(o) == Some(v)),
        !seg.vbytes.spec_contains(v) ==> seg.spec_to_offset(v) is None,
{
}

} // verus!
