//! Section headers and relocation entries: the link-time and debug-time
//! view of the file.  Pure core files carry no sections.

use vstd::prelude::*;
use crate::ElfError;
use crate::ranges::{Bytes, Coord, Offset, VirtualAddr};
use crate::reader::{Reader, Stream, word_at};

verus! {

/// The section types the engine distinguishes; unknown codes become `Null`
/// so a damaged table never aborts a load.
#[derive(Clone, Copy, Debug, Eq, PartialEq, Structural)]
pub enum SectionType {
    /// Dynamic linking information.
    Dynamic,
    /// Dynamic linker symbol table.
    DynamicSymbolTable,
    /// Array of pointers to termination functions.
    FiniArray,
    /// GNU style hash table.
    Hash,
    /// Array of pointers to initialization functions.
    InitArray,
    /// Uninitialized data.
    NoBits,
    /// Arbitrary metadata.
    Note,
    /// Not to be used, or unrecognized.
    Null,
    /// Functions called before the regular initialization functions.
    PreinitArray,
    /// CPU instructions or constant data.
    ProgBits,
    /// Relocation entries with addends.
    RelocationsWith,
    /// Relocation entries without addends.
    RelocationsWithout,
    /// Strings for the linker and debugger.
    StringTable,
    /// Symbol hash table.
    SymbolHashTable,
    /// The static symbol table.
    SymbolTable,
    /// GNU symbol versions that are provided.
    VerDef,
    /// GNU symbol versions that are required.
    VerNeed,
    /// GNU symbol version table.
    VerSym,
}

/// Which variant each section type code decodes to.
pub open spec fn spec_section_type(value: u32) -> SectionType {
    if value == 0x6 {
        SectionType::Dynamic
    } else if value == 0xb {
        SectionType::DynamicSymbolTable
    } else if value == 0xf {
        SectionType::FiniArray
    } else if value == 0x5 {
        SectionType::SymbolHashTable
    } else if value == 0xe {
        SectionType::InitArray
    } else if value == 0x8 {
        SectionType::NoBits
    } else if value == 0x7 {
        SectionType::Note
    } else if value == 0x10 {
        SectionType::PreinitArray
    } else if value == 0x1 {
        SectionType::ProgBits
    } else if value == 0x9 {
        SectionType::RelocationsWithout
    } else if value == 0x4 {
        SectionType::RelocationsWith
    } else if value == 0x3 {
        SectionType::StringTable
    } else if value == 0x2 {
        SectionType::SymbolTable
    } else if value == 0x6ffffff6 {
        SectionType::Hash
    } else if value == 0x6ffffffd {
        SectionType::VerDef
    } else if value == 0x6ffffffe {
        SectionType::VerNeed
    } else if value == 0x6fffffff {
        SectionType::VerSym
    } else {
        SectionType::Null
    }
}

impl SectionType {
    /// Decodes a section type code; unknown codes become `Null`.
    pub fn from_u32(value: u32) -> (r: Self)
        ensures
            r == spec_section_type(value),
    {
        match value {
            0x6 => SectionType::Dynamic,
            0xb => SectionType::DynamicSymbolTable,
            0xf => SectionType::FiniArray,
            0x5 => SectionType::SymbolHashTable,
            0xe => SectionType::InitArray,
            0x8 => SectionType::NoBits,
            0x7 => SectionType::Note,
            0x10 => SectionType::PreinitArray,
            0x1 => SectionType::ProgBits,
            0x9 => SectionType::RelocationsWithout,
            0x4 => SectionType::RelocationsWith,
            0x3 => SectionType::StringTable,
            0x2 => SectionType::SymbolTable,
            0x6ffffff6 => SectionType::Hash,
            0x6ffffffd => SectionType::VerDef,
            0x6ffffffe => SectionType::VerNeed,
            0x6fffffff => SectionType::VerSym,
            _ => SectionType::Null,
        }
    }
}

/// One entry of the section header table.
#[derive(Clone, Copy)]
pub struct SectionHeader {
    /// Index into the section-name string table; zero means no name.
    pub name: u32,
    pub stype: SectionType,
    /// Write, alloc, exec and further flag bits.
    pub flags: u64,
    /// The section's bytes addressed by file offset.
    pub obytes: Bytes<Offset>,
    /// The section's bytes addressed by virtual address.
    pub vbytes: Bytes<VirtualAddr>,
    /// A related section, usually a string or symbol table.
    pub link: u32,
    /// Additional section info.
    pub info: u32,
    /// Section alignment.
    pub align: u64,
    /// Entry size, set when the section holds a table of fixed-size rows.
    pub entry_size: u64,
}

/// The size of one section header entry for the given word size.
pub open spec fn sh_size(sixty_four_bit: bool) -> nat {
    if sixty_four_bit {
        0x40
    } else {
        0x28
    }
}

/// The raw words of the section header at `i`: name, type, flags, vaddr,
/// offset, size, link, info, align, entry size.
pub open spec fn sh_at(b: Seq<u8>, i: int, sixty_four_bit: bool, le: bool) -> SectionHeader {
    if sixty_four_bit {
        SectionHeader {
            name: word_at(b, i, 4, le) as u32,
            stype: spec_section_type(word_at(b, i + 4, 4, le) as u32),
            flags: word_at(b, i + 8, 8, le) as u64,
            vbytes: Bytes {
                start: VirtualAddr(word_at(b, i + 0x10, 8, le) as u64),
                size: word_at(b, i + 0x20, 8, le) as u64,
            },
            obytes: Bytes {
                start: Offset(word_at(b, i + 0x18, 8, le) as u64),
                size: word_at(b, i + 0x20, 8, le) as u64,
            },
            link: word_at(b, i + 0x28, 4, le) as u32,
            info: word_at(b, i + 0x2c, 4, le) as u32,
            align: word_at(b, i + 0x30, 8, le) as u64,
            entry_size: word_at(b, i + 0x38, 8, le) as u64,
        }
    } else {
        SectionHeader {
            name: word_at(b, i, 4, le) as u32,
            stype: spec_section_type(word_at(b, i + 4, 4, le) as u32),
            flags: word_at(b, i + 8, 4, le) as u64,
            vbytes: Bytes {
                start: VirtualAddr(word_at(b, i + 0xc, 4, le) as u64),
                size: word_at(b, i + 0x14, 4, le) as u64,
            },
            obytes: Bytes {
                start: Offset(word_at(b, i + 0x10, 4, le) as u64),
                size: word_at(b, i + 0x14, 4, le) as u64,
            },
            link: word_at(b, i + 0x18, 4, le) as u32,
            info: word_at(b, i + 0x1c, 4, le) as u32,
            align: word_at(b, i + 0x20, 4, le) as u64,
            entry_size: word_at(b, i + 0x24, 4, le) as u64,
        }
    }
}

/// Whether the ranges the header describes are representable: neither the
/// offset range nor the address range wraps around.
pub open spec fn sh_ranges_ok(b: Seq<u8>, i: int, sixty_four_bit: bool, le: bool) -> bool {
    let h = sh_at(b, i, sixty_four_bit, le);
    h.obytes.wf() && h.vbytes.wf()
}

impl SectionHeader {
    /// Decodes the section header at `offset`.  A header whose ranges wrap
    /// around the address space is rejected as malformed.
    pub fn new(reader: &Reader, offset: Offset) -> (r: Result<Self, ElfError>)
        ensures
            r is Ok <==> (offset.0 + sh_size(reader.sixty_four_bit) <= reader@.len()
                && sh_ranges_ok(reader@, offset.0 as int, reader.sixty_four_bit,
            reader.little_endian)),
            r matches Ok(h) ==> h == sh_at(
                reader@,
                offset.0 as int,
                reader.sixty_four_bit,
                reader.little_endian,
            ) && h.obytes.wf() && h.vbytes.wf(),
            r matches Err(e) ==> (e == ElfError::ReadOutOfBounds || e == ElfError::BadRange),
    {
        let mut s = Stream::new(reader, offset);
        if reader.sixty_four_bit {
            let name = s.read_word()?;
            let stype = SectionType::from_u32(s.read_word()?);
            let flags = s.read_xword()?;
            let vaddr = s.read_addr()?;
            let off = s.read_offset()?;
            let size = s.read_xword()?;
            let link = s.read_word()?;
            let info = s.read_word()?;
            let align = s.read_xword()?;
            let entry_size = s.read_xword()?;
            if off > u64::MAX - size || vaddr > u64::MAX - size {
                return Err(ElfError::BadRange);
            }
            Ok(
                SectionHeader {
                    name,
                    stype,
                    flags,
                    obytes: Bytes::<Offset>::from_raw(off, size),
                    vbytes: Bytes::<VirtualAddr>::from_raw(vaddr, size),
                    link,
                    info,
                    align,
                    entry_size,
                },
            )
        } else {
            let name = s.read_word()?;
            let stype = SectionType::from_u32(s.read_word()?);
            let flags = s.read_word()?;
            let vaddr = s.read_addr()?;
            let off = s.read_offset()?;
            let size = s.read_word()?;
            let link = s.read_word()?;
            let info = s.read_word()?;
            let align = s.read_word()?;
            let entry_size = s.read_word()?;
            if off > u64::MAX - (size as u64) || vaddr > u64::MAX - (size as u64) {
                return Err(ElfError::BadRange);
            }
            Ok(
                SectionHeader {
                    name,
                    stype,
                    flags: flags as u64,
                    obytes: Bytes::<Offset>::from_raw(off, size as u64),
                    vbytes: Bytes::<VirtualAddr>::from_raw(vaddr, size as u64),
                    link,
                    info,
                    align: align as u64,
                    entry_size: entry_size as u64,
                },
            )
        }
    }
}

/// One more flag word appended to a space-separated list: nothing when
/// the flag is absent, the word alone when the list is empty so far.
pub open spec fn spec_flag_word(acc: Seq<char>, word: Seq<char>, cond: bool) -> Seq<char> {
    if !cond {
        acc
    } else if acc.len() == 0 {
        word
    } else {
        acc + " "@ + word
    }
}

/// The space-separated names of the flag bits set in `flags`, or `none`.
pub open spec fn spec_section_flags(flags: u64) -> Seq<char> {
    let w = spec_flag_word(Seq::empty(), "WRITE"@, flags & 0x1 != 0);
    let w = spec_flag_word(w, "ALLOC"@, flags & 0x2 != 0);
    let w = spec_flag_word(w, "EXEC"@, flags & 0x4 != 0);
    let w = spec_flag_word(w, "MERGE"@, flags & 0x10 != 0);
    let w = spec_flag_word(w, "STRINGS"@, flags & 0x20 != 0);
    let w = spec_flag_word(w, "INFO"@, flags & 0x40 != 0);
    let w = spec_flag_word(w, "LINK"@, flags & 0x80 != 0);
    let w = spec_flag_word(w, "OS_NONCONFORMING"@, flags & 0x100 != 0);
    let w = spec_flag_word(w, "GROUP"@, flags & 0x200 != 0);
    let w = spec_flag_word(w, "TLS"@, flags & 0x400 != 0);
    let w = spec_flag_word(w, "COMPRESSED"@, flags & 0x800 != 0);
    let w = spec_flag_word(w, "MASKOS"@, flags & 0x0ff00000 != 0);
    let w = spec_flag_word(w, "MASKPROC"@, flags & 0xf0000000 != 0);
    if w.len() == 0 {
        "none"@
    } else {
        w
    }
}

impl SectionHeader {
    /// The space-separated names of the flag bits set in `flags`, or
    /// `none` when no known bit is set.
    pub fn flags(flags: u64) -> (r: String)
        ensures
            r@ == spec_section_flags(flags),
    {
        let mut acc = String::new();
        push_flag_word(&mut acc, "WRITE", flags & 0x1 != 0);
        push_flag_word(&mut acc, "ALLOC", flags & 0x2 != 0);
        push_flag_word(&mut acc, "EXEC", flags & 0x4 != 0);
        push_flag_word(&mut acc, "MERGE", flags & 0x10 != 0);
        push_flag_word(&mut acc, "STRINGS", flags & 0x20 != 0);
        push_flag_word(&mut acc, "INFO", flags & 0x40 != 0);
        push_flag_word(&mut acc, "LINK", flags & 0x80 != 0);
        push_flag_word(&mut acc, "OS_NONCONFORMING", flags & 0x100 != 0);
        push_flag_word(&mut acc, "GROUP", flags & 0x200 != 0);
        push_flag_word(&mut acc, "TLS", flags & 0x400 != 0);
        push_flag_word(&mut acc, "COMPRESSED", flags & 0x800 != 0);
        push_flag_word(&mut acc, "MASKOS", flags & 0x0ff00000 != 0);
        push_flag_word(&mut acc, "MASKPROC", flags & 0xf0000000 != 0);
        if acc.as_str().is_empty() {
            String::from_str("none")
        } else {
            acc
        }
    }
}

/// Appends one flag word to the list when its bit is set.
fn push_flag_word(acc: &mut String, word: &str, cond: bool)
    ensures
        final(acc)@ == spec_flag_word(old(acc)@, word@, cond),
{
    if cond {
        if acc.as_str().is_empty() {
            acc.append(word);
        } else {
            acc.append(" ");
            acc.append(word);
        }
    }
}

/// A relocation entry, already narrowed to the x86-64 encoding.
#[derive(Clone, Copy, Debug)]
pub struct Relocation {
    /// Where the relocation is applied.
    pub offset: u64,
    /// Whether the entry came from a dynamic relocation section.
    pub dynamic: bool,
    /// Index of the symbol the relocation refers to.
    pub symbol_index: u32,
    /// The architecture relocation type.
    pub rtype: RelocationX86_64,
    /// The explicit addend, present only in with-addend sections.
    pub addend: Option<i64>,
}

/// The x86-64 relocation types.
#[derive(Clone, Copy, Debug, Eq, PartialEq, Structural)]
pub enum RelocationX86_64 {
    /// The architecture's null relocation type.
    NoReloc,
    SixtyFour,
    Pc32,
    Got32,
    Plt32,
    Copy,
    GlobDat,
    JumpSlot,
    Relative,
    GotPcRel,
    ThirtyTwo,
    ThirtyTwoS,
    Sixteen,
    Pc16,
    Eight,
    Pc8,
    Pc64,
    GoTOoff64,
    GotPc32,
    Size32,
    Size64,
}

/// Which variant each x86-64 relocation type code decodes to; `None` for
/// codes outside the defined set.
pub open spec fn spec_reloc_type(value: u64) -> Option<RelocationX86_64> {
    if value == 0 {
        Some(RelocationX86_64::NoReloc)
    } else if value == 1 {
        Some(RelocationX86_64::SixtyFour)
    } else if value == 2 {
        Some(RelocationX86_64::Pc32)
    } else if value == 3 {
        Some(RelocationX86_64::Got32)
    } else if value == 4 {
        Some(RelocationX86_64::Plt32)
    } else if value == 5 {
        Some(RelocationX86_64::Copy)
    } else if value == 6 {
        Some(RelocationX86_64::GlobDat)
    } else if value == 7 {
        Some(RelocationX86_64::JumpSlot)
    } else if value == 8 {
        Some(RelocationX86_64::Relative)
    } else if value == 9 {
        Some(RelocationX86_64::GotPcRel)
    } else if value == 10 {
        Some(RelocationX86_64::ThirtyTwo)
    } else if value == 11 {
        Some(RelocationX86_64::ThirtyTwoS)
    } else if value == 12 {
        Some(RelocationX86_64::Sixteen)
    } else if value == 13 {
        Some(RelocationX86_64::Pc16)
    } else if value == 14 {
        Some(RelocationX86_64::Eight)
    } else if value == 15 {
        Some(RelocationX86_64::Pc8)
    } else if value == 24 {
        Some(RelocationX86_64::Pc64)
    } else if value == 25 {
        Some(RelocationX86_64::GoTOoff64)
    } else if value == 26 {
        Some(RelocationX86_64::GotPc32)
    } else if value == 32 {
        Some(RelocationX86_64::Size32)
    } else if value == 33 {
        Some(RelocationX86_64::Size64)
    } else {
        None
    }
}

impl RelocationX86_64 {
    /// Decodes an x86-64 relocation type code; a code outside the defined
    /// set is an explicit error, never a silent default.
    pub fn from_u64(rtype: u64) -> (r: Result<Self, ElfError>)
        ensures
            r is Ok <==> spec_reloc_type(rtype) is Some,
            r matches Ok(t) ==> Some(t) == spec_reloc_type(rtype),
            r is Err ==> r->Err_0 == ElfError::BadRelocationType(rtype),
    {
        match rtype {
            0 => Ok(RelocationX86_64::NoReloc),
            1 => Ok(RelocationX86_64::SixtyFour),
            2 => Ok(RelocationX86_64::Pc32),
            3 => Ok(RelocationX86_64::Got32),
            4 => Ok(RelocationX86_64::Plt32),
            5 => Ok(RelocationX86_64::Copy),
            6 => Ok(RelocationX86_64::GlobDat),
            7 => Ok(RelocationX86_64::JumpSlot),
            8 => Ok(RelocationX86_64::Relative),
            9 => Ok(RelocationX86_64::GotPcRel),
            10 => Ok(RelocationX86_64::ThirtyTwo),
            11 => Ok(RelocationX86_64::ThirtyTwoS),
            12 => Ok(RelocationX86_64::Sixteen),
            13 => Ok(RelocationX86_64::Pc16),
            14 => Ok(RelocationX86_64::Eight),
            15 => Ok(RelocationX86_64::Pc8),
            24 => Ok(RelocationX86_64::Pc64),
            25 => Ok(RelocationX86_64::GoTOoff64),
            26 => Ok(RelocationX86_64::GotPc32),
            32 => Ok(RelocationX86_64::Size32),
            33 => Ok(RelocationX86_64::Size64),
            _ => Err(ElfError::BadRelocationType(rtype)),
        }
    }
}

/// The size of one relocation entry: target, composite info word, and the
/// addend when the section carries one.
pub open spec fn rel_size(sixty_four_bit: bool, has_addend: bool) -> nat {
    addr_plus(sixty_four_bit) + 8 + if has_addend {
        8 as nat
    } else {
        0 as nat
    }
}

/// The width of the leading target field.
pub open spec fn addr_plus(sixty_four_bit: bool) -> nat {
    if sixty_four_bit {
        8
    } else {
        4
    }
}

/// The composite symbol-index/type word of the relocation at `i`.
pub open spec fn rel_info_at(b: Seq<u8>, i: int, sixty_four_bit: bool, le: bool) -> int {
    word_at(b, i + addr_plus(sixty_four_bit), 8, le)
}

/// How the composite word splits: 64-bit files keep the type in the low 32
/// bits and the symbol index above them; 32-bit files use an 8/24 split.
pub open spec fn rel_split(info: int, sixty_four_bit: bool) -> (int, int) {
    if sixty_four_bit {
        (info / 0x1_0000_0000, info % 0x1_0000_0000)
    } else {
        (info / 0x100, info % 0x100)
    }
}

impl Relocation {
    /// Decodes a relocation entry that carries no addend.
    pub fn with_no_addend(reader: &Reader, offset: Offset, dynamic: bool) -> (r: Result<
        Self,
        ElfError,
    >)
        ensures
            r is Ok <==> (offset.0 + rel_size(reader.sixty_four_bit, false) <= reader@.len()
                && spec_reloc_type(
                rel_split(
                    rel_info_at(reader@, offset.0 as int, reader.sixty_four_bit,
                    reader.little_endian),
                    reader.sixty_four_bit,
                ).1 as u64,
            ) is Some),
            r matches Ok(rel) ==> rel_matches(rel, reader@, offset.0 as int, false, dynamic,
            reader.sixty_four_bit, reader.little_endian),
    {
        Relocation::new(reader, offset, false, dynamic)
    }

    /// Decodes a relocation entry that carries an explicit addend.
    pub fn with_addend(reader: &Reader, offset: Offset, dynamic: bool) -> (r: Result<
        Self,
        ElfError,
    >)
        ensures
            r is Ok <==> (offset.0 + rel_size(reader.sixty_four_bit, true) <= reader@.len()
                && spec_reloc_type(
                rel_split(
                    rel_info_at(reader@, offset.0 as int, reader.sixty_four_bit,
                    reader.little_endian),
                    reader.sixty_four_bit,
                ).1 as u64,
            ) is Some),
            r matches Ok(rel) ==> rel_matches(rel, reader@, offset.0 as int, true, dynamic,
            reader.sixty_four_bit, reader.little_endian),
    {
        Relocation::new(reader, offset, true, dynamic)
    }

    fn new(reader: &Reader, offset: Offset, has_addend: bool, dynamic: bool) -> (r: Result<
        Self,
        ElfError,
    >)
        ensures
            r is Ok <==> (offset.0 + rel_size(reader.sixty_four_bit, has_addend) <= reader@.len()
                && spec_reloc_type(
                rel_split(
                    rel_info_at(reader@, offset.0 as int, reader.sixty_four_bit,
                    reader.little_endian),
                    reader.sixty_four_bit,
                ).1 as u64,
            ) is Some),
            r matches Ok(rel) ==> rel_matches(rel, reader@, offset.0 as int, has_addend, dynamic,
            reader.sixty_four_bit, reader.little_endian),
    {
        let mut s = Stream::new(reader, offset);
        let target = s.read_addr()?;
        let info = s.read_xword()?;
        let addend = if has_addend {
            Some(s.read_sxword()?)
        } else {
            None
        };
        if reader.sixty_four_bit {
            let rtype = RelocationX86_64::from_u64(info % 0x1_0000_0000)?;
            Ok(
                Relocation {
                    offset: target,
                    symbol_index: (info / 0x1_0000_0000) as u32,
                    rtype,
                    addend,
                    dynamic,
                },
            )
        } else {
            let rtype = RelocationX86_64::from_u64(info % 0x100)?;
            Ok(
                Relocation {
                    offset: target,
                    symbol_index: #[verifier::truncate] ((info / 0x100) as u32),
                    rtype,
                    addend,
                    dynamic,
                },
            )
        }
    }
}

/// What a decoded relocation holds: the target comes from the leading
/// field, symbol index and type from the composite word, and the addend is
/// present exactly in with-addend sections.
pub open spec fn rel_matches(
    rel: Relocation,
    b: Seq<u8>,
    i: int,
    has_addend: bool,
    dynamic: bool,
    sixty_four_bit: bool,
    le: bool,
) -> bool {
    let info = rel_info_at(b, i, sixty_four_bit, le);
    &&& rel.offset == word_at(b, i, addr_plus(sixty_four_bit), le) as u64
    &&& rel.symbol_index == rel_split(info, sixty_four_bit).0 as u32
    &&& Some(rel.rtype) == spec_reloc_type(rel_split(info, sixty_four_bit).1 as u64)
    &&& rel.dynamic == dynamic
    &&& if has_addend {
        rel.addend == Some((word_at(b, i + addr_plus(sixty_four_bit) + 8, 8, le) as u64) as i64)
    } else {
        rel.addend is None
    }
}

} // verus!
