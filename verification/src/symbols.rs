//! Symbol table entries and the enums their packed fields decode to.

use vstd::prelude::*;
use crate::ElfError;
use crate::ranges::{Offset, SectionIndex, StringIndex};
use crate::reader::{Reader, Stream, word_at};
use crate::sections::SectionHeader;

verus! {

/// One symbol table, together with the section it was decoded from; the
/// section's `link` field names the string table that holds the names.
pub struct SymbolTable {
    pub section: SectionHeader,
    /// Whether this is the dynamic symbol table.
    pub dynamic: bool,
    pub entries: Vec<SymbolTableEntry>,
}

/// One symbol: a name index, a value, a size, and the decoded packed
/// fields.
pub struct SymbolTableEntry {
    /// Index into the symbol string table.
    pub name: StringIndex,
    /// An address, absolute value, or other value depending on the type.
    pub value: u64,
    /// Size of the symbol; zero when unknown.
    pub size: u64,
    pub stype: SymbolType,
    pub binding: SymbolBinding,
    pub visibility: SymbolVisibility,
    pub index: SymbolIndex,
}

/// What the symbol's section index field relates the symbol to.
#[derive(Clone, Copy, Debug, Eq, PartialEq, Structural)]
pub enum SymbolIndex {
    /// An absolute value that relocation does not change.
    Abs,
    /// A common block that has not been allocated yet.
    Common,
    /// The section at this index.
    Index(SectionIndex),
    /// Undefined; the linker fixes these up.
    Undef,
    /// The index overflowed into a separate section.
    XIndex,
}

/// Where the symbol is visible.
#[derive(Clone, Copy, Debug, Eq, PartialEq, Structural)]
pub enum SymbolVisibility {
    /// Visibility is decided by the binding.
    Default,
    /// Visible only within its object file; the CPU may special-case it.
    Internal,
    /// Visible only within its object file.
    Hidden,
    /// Visible to other object files but cannot be preempted.
    Protected,
}

/// Linkage visibility and behaviour.
#[derive(Clone, Copy, Debug, Eq, PartialEq, Structural)]
pub enum SymbolBinding {
    /// Not visible outside the defining object file.
    Local,
    /// Visible to all object files.
    Global,
    /// Like `Global` but with lower precedence.
    Weak,
    /// Reserved for the OS or CPU.
    Reserved,
}

/// What kind of entity the symbol names.
#[derive(Clone, Copy, Debug, Eq, PartialEq, Structural)]
pub enum SymbolType {
    NoType,
    /// A data object: variable, array, and so on.
    Object,
    /// A function or other executable code.
    Func,
    /// Another section, used for relocation.
    Section,
    /// The source file associated with the table.
    File,
    /// An uninitialized common block.
    Common,
    /// Thread-local storage; the value is an offset to the data.
    Tls,
    /// Reserved for the OS or CPU.
    Reserved,
}

/// Which variant each section index value decodes to.
pub open spec fn spec_symbol_index(value: u16) -> SymbolIndex {
    if value == 0 {
        SymbolIndex::Undef
    } else if value == 0xfff1 {
        SymbolIndex::Abs
    } else if value == 0xfff2 {
        SymbolIndex::Common
    } else if value == 0xffff {
        SymbolIndex::XIndex
    } else {
        SymbolIndex::Index(SectionIndex(value as u32))
    }
}

/// Which variant the low two bits of the `other` field decode to.
pub open spec fn spec_symbol_visibility(value: u8) -> SymbolVisibility {
    if value == 0 {
        SymbolVisibility::Default
    } else if value == 1 {
        SymbolVisibility::Internal
    } else if value == 2 {
        SymbolVisibility::Hidden
    } else if value == 3 {
        SymbolVisibility::Protected
    } else {
        SymbolVisibility::Default
    }
}

/// Which variant the high nibble of the `info` byte decodes to.
pub open spec fn spec_symbol_binding(value: u8) -> SymbolBinding {
    let nibble = value / 16;
    if nibble == 0 {
        SymbolBinding::Local
    } else if nibble == 1 {
        SymbolBinding::Global
    } else if nibble == 2 {
        SymbolBinding::Weak
    } else {
        SymbolBinding::Reserved
    }
}

/// Which variant the low nibble of the `info` byte decodes to.
pub open spec fn spec_symbol_type(value: u8) -> SymbolType {
    let nibble = value % 16;
    if nibble == 0 {
        SymbolType::NoType
    } else if nibble == 1 {
        SymbolType::Object
    } else if nibble == 2 {
        SymbolType::Func
    } else if nibble == 3 {
        SymbolType::Section
    } else if nibble == 4 {
        SymbolType::File
    } else if nibble == 5 {
        SymbolType::Common
    } else if nibble == 6 {
        SymbolType::Tls
    } else {
        SymbolType::Reserved
    }
}

impl SymbolIndex {
    /// Decodes the related-section field: a handful of sentinel values, or
    /// a concrete section index.
    pub fn from_u16(value: u16) -> (r: Self)
        ensures
            r == spec_symbol_index(value),
    {
        match value {
            0 => SymbolIndex::Undef,
            0xfff1 => SymbolIndex::Abs,
            0xfff2 => SymbolIndex::Common,
            0xffff => SymbolIndex::XIndex,
            _ => SymbolIndex::Index(SectionIndex(value as u32)),
        }
    }
}

impl SymbolVisibility {
    /// Decodes the `other` byte; unknown values fall back to `Default`.
    pub fn from_u8(value: u8) -> (r: Self)
        ensures
            r == spec_symbol_visibility(value),
    {
        match value {
            0 => SymbolVisibility::Default,
            1 => SymbolVisibility::Internal,
            2 => SymbolVisibility::Hidden,
            3 => SymbolVisibility::Protected,
            _ => SymbolVisibility::Default,
        }
    }
}

impl SymbolBinding {
    /// Decodes the binding from the high nibble of the `info` byte; unknown
    /// nibbles fall back to `Reserved`.
    pub fn from_u8(value: u8) -> (r: Self)
        ensures
            r == spec_symbol_binding(value),
    {
        match value / 16 {
            0 => SymbolBinding::Local,
            1 => SymbolBinding::Global,
            2 => SymbolBinding::Weak,
            _ => SymbolBinding::Reserved,
        }
    }
}

impl SymbolType {
    /// Decodes the type from the low nibble of the `info` byte; unknown
    /// nibbles fall back to `Reserved`.
    pub fn from_u8(value: u8) -> (r: Self)
        ensures
            r == spec_symbol_type(value),
    {
        match value % 16 {
            0 => SymbolType::NoType,
            1 => SymbolType::Object,
            2 => SymbolType::Func,
            3 => SymbolType::Section,
            4 => SymbolType::File,
            5 => SymbolType::Common,
            6 => SymbolType::Tls,
            _ => SymbolType::Reserved,
        }
    }
}

/// The size of one symbol table entry for the given word size.
pub open spec fn sym_size(sixty_four_bit: bool) -> nat {
    if sixty_four_bit {
        24
    } else {
        16
    }
}

/// The decoded fields of the symbol at `i`; the 64-bit layout moves the
/// packed bytes ahead of the value.
pub open spec fn sym_at(b: Seq<u8>, i: int, sixty_four_bit: bool, le: bool) -> SymbolTableEntry {
    if sixty_four_bit {
        SymbolTableEntry {
            name: StringIndex(word_at(b, i, 4, le) as u32),
            stype: spec_symbol_type(b[i + 4]),
            binding: spec_symbol_binding(b[i + 4]),
            visibility: spec_symbol_visibility(b[i + 5]),
            index: spec_symbol_index(word_at(b, i + 6, 2, le) as u16),
            value: word_at(b, i + 8, 8, le) as u64,
            size: word_at(b, i + 16, 8, le) as u64,
        }
    } else {
        SymbolTableEntry {
            name: StringIndex(word_at(b, i, 4, le) as u32),
            value: word_at(b, i + 4, 4, le) as u64,
            size: word_at(b, i + 8, 4, le) as u64,
            stype: spec_symbol_type(b[i + 12]),
            binding: spec_symbol_binding(b[i + 12]),
            visibility: spec_symbol_visibility(b[i + 13]),
            index: spec_symbol_index(word_at(b, i + 14, 2, le) as u16),
        }
    }
}

impl SymbolTableEntry {
    /// Decodes the symbol table entry at `offset`; the field order differs
    /// between the 32-bit and 64-bit encodings.
    pub fn new(reader: &Reader, offset: Offset) -> (r: Result<Self, ElfError>)
        ensures
            r is Ok <==> offset.0 + sym_size(reader.sixty_four_bit) <= reader@.len(),
            r matches Ok(e) ==> e == sym_at(
                reader@,
                offset.0 as int,
                reader.sixty_four_bit,
                reader.little_endian,
            ),
            r is Err ==> r->Err_0 == ElfError::ReadOutOfBounds,
    {
        let mut s = Stream::new(reader, offset);
        if reader.sixty_four_bit {
            let name = s.read_word()?;
            let info = s.read_byte()?;
            let other = s.read_byte()?;
            let index = s.read_half()?;
            let value = s.read_addr()?;
            let size = s.read_xword()?;
            Ok(
                SymbolTableEntry {
                    name: StringIndex(name),
                    value,
                    size,
                    stype: SymbolType::from_u8(info),
                    binding: SymbolBinding::from_u8(info),
                    visibility: SymbolVisibility::from_u8(other),
                    index: SymbolIndex::from_u16(index),
                },
            )
        } else {
            let name = s.read_word()?;
            let value = s.read_addr()?;
            let size = s.read_word()?;
            let info = s.read_byte()?;
            let other = s.read_byte()?;
            let index = s.read_half()?;
            Ok(
                SymbolTableEntry {
                    name: StringIndex(name),
                    value,
                    size: size as u64,
                    stype: SymbolType::from_u8(info),
                    binding: SymbolBinding::from_u8(info),
                    visibility: SymbolVisibility::from_u8(other),
                    index: SymbolIndex::from_u16(index),
                },
            )
        }
    }
}

} // verus!
