//! Postmortem analysis engine for ELF executables and Linux core files.
//!
//! The crate decodes the structural and debugging metadata stored inside an
//! ELF image (segments, sections, notes, symbol and relocation tables, DWARF
//! abbreviation/type/line data) and answers address-oriented queries: which
//! load segment owns an address, what source line an instruction belongs to,
//! and what the call stack looked like when a process died.
//!
//! All decoding works over an in-memory copy of the file bytes; reading the
//! file from disk is the caller's concern.
#![verifier::loop_isolation(false)]

pub mod abbrev;
pub mod dwarf;
pub mod elf_file;
pub mod elf_files;
pub mod header;
pub mod key_map;
pub mod line;
pub mod notes;
pub mod ranges;
pub mod reader;
pub mod search;
pub mod sections;
pub mod segments;
pub mod symbols;
pub mod types;

use vstd::prelude::*;

verus! {

/// Everything that can go wrong while decoding an ELF image or answering a
/// query about one.  Decoders favour returning partial data over failing, so
/// most of these mark either a fatal open-time problem or an explicitly
/// unsupported capability.
#[derive(Clone, Copy, Debug, PartialEq, Eq, Structural)]
pub enum ElfError {
    /// The buffer is too short to hold an ELF header.
    TooSmall,
    /// The first four bytes are not 0x7f 'E' 'L' 'F'.
    BadMagic,
    /// The identification version byte is not 1.
    BadVersion(u8),
    /// The file is not a core, executable, or shared object.
    BadFileType(u8),
    /// A primitive read ran past the end of the buffer.
    ReadOutOfBounds,
    /// A decoded byte range wraps around the top of the address space.
    BadRange,
    /// A note's name is not valid UTF-8 or its length fields are malformed.
    BadNote,
    /// A variable-length integer does not fit in 64 bits.
    IntegerTooLarge,
    /// A DWARF tag encoding that the decoder does not recognize.
    UnknownTag(u64),
    /// A DWARF attribute-name encoding that the decoder does not recognize.
    UnknownAttributeName(u64),
    /// A DWARF form encoding that the decoder does not recognize.
    UnknownForm(u64),
    /// A DWARF (attribute, form) pair with no decoder; both encodings are
    /// reported so gaps in coverage stay visible.
    UnsupportedAttribute(u64, u64),
    /// An abbreviation code with no entry in the abbreviation table.
    BadAbbreviationCode(u64),
    /// An x86-64 relocation type code outside the defined set.
    BadRelocationType(u64),
    /// Relocation decoding was asked of a machine other than 64-bit x86,
    /// the one architecture it is implemented for.
    UnsupportedArchitecture,
    /// The `.debug_info` unit header carries an unsupported version.
    BadInfoVersion(u16),
    /// The `.debug_info` unit header carries an address size other than 4 or 8.
    BadAddressSize(u8),
    /// The `.debug_line` unit header carries an unsupported version.
    BadLineVersion(u16),
    /// A needed `.debug_str` section is absent.
    NoDebugStr,
    /// A needed `.debug_info` section is absent.
    NoDebugInfo,
    /// A needed `.debug_line` section is absent.
    NoDebugLine,
    /// More than one core file was supplied.
    MultipleCores,
    /// More than one executable file was supplied.
    MultipleExes,
    /// The query needs a core file and none was supplied.
    MissingCore,
    /// The query needs an executable file and none was supplied.
    MissingExe,
    /// The query needs both a core and an executable file.
    MissingBoth,
    /// No load segment contains the requested address.
    NoLoadSegment,
    /// The core file has no usable process-status note.
    NoPrStatus,
    /// No memory mapping covers the requested address.
    NoMapping,
    /// A string of hex bytes was malformed.
    BadHexString,
    /// A command argument was not a hex or decimal number.
    BadNumber,
}

impl ElfError {
    /// A fixed description for each error, suitable for display; numeric
    /// payloads are left to the caller to format.
    pub fn message(&self) -> &'static str {
        match self {
            ElfError::TooSmall => "file is much too small",
            ElfError::BadMagic => "not an ELF file (bad magic)",
            ElfError::BadVersion(_) => "bad elf version",
            ElfError::BadFileType(_) => "bad elf type: not a core, exe, or shared lib",
            ElfError::ReadOutOfBounds => "read out of bounds",
            ElfError::BadRange => "byte range wraps around",
            ElfError::BadNote => "malformed note",
            ElfError::IntegerTooLarge => "LEB128 integer is too large",
            ElfError::UnknownTag(_) => "unknown tag encoding",
            ElfError::UnknownAttributeName(_) => "unknown attribute name encoding",
            ElfError::UnknownForm(_) => "unknown form encoding",
            ElfError::UnsupportedAttribute(_, _) => "attribute not implemented for encoding",
            ElfError::BadAbbreviationCode(_) => "attr code is too large",
            ElfError::BadRelocationType(_) => "bad x86 64 relocation type",
            ElfError::UnsupportedArchitecture => "relocations are only supported for x86 64-bit",
            ElfError::BadInfoVersion(_) => "bad .debug_info version",
            ElfError::BadAddressSize(_) => "bad addr size",
            ElfError::BadLineVersion(_) => "bad .debug_line version",
            ElfError::NoDebugStr => "no .debug_str section",
            ElfError::NoDebugInfo => "couldn't find section .debug_info",
            ElfError::NoDebugLine => "couldn't find .debug_line section",
            ElfError::MultipleCores => "can't have multiple core files",
            ElfError::MultipleExes => "can't have multiple exe files",
            ElfError::MissingCore => "need a core file to find file and line",
            ElfError::MissingExe => "need an exe file to find file and line",
            ElfError::MissingBoth => "need core and exe files to find file and line",
            ElfError::NoLoadSegment => "couldn't find load segment",
            ElfError::NoPrStatus => "couldn't find prstatus",
            ElfError::NoMapping => "couldn't find a load segment matching the addr",
            ElfError::BadHexString => "expected a string of hex bytes with optional spaces",
            ElfError::BadNumber => "isn't a hex or decimal number",
        }
    }
}

/// Compares two strings by their characters.
pub fn string_eq(a: &String, b: &String) -> (r: bool)
    ensures
        r == (a@ == b@),
{
    a.eq(b)
}

/// Returns `Ok` exactly when the predicate holds.
pub fn require(predicate: bool, err: ElfError) -> (r: Result<(), ElfError>)
    ensures
        r is Ok <==> predicate,
        r is Err ==> r->Err_0 == err,
{
    if predicate {
        Ok(())
    } else {
        Err(err)
    }
}

/// Rounds `n` up to the next multiple of four; note names and payloads are
/// stored word-aligned.
pub fn align_to_word(n: u32) -> (r: u32)
    requires
        n + 3 <= u32::MAX,
    ensures
        r == 4 * ((n + 3) / 4),
        r >= n,
        r % 4 == 0,
        r - n < 4,
{
    let aligned: u32 = (n / 4) * 4;
    if aligned == n {
        n
    } else {
        aligned + 4
    }
}

} // verus!
