//! The ELF file header: identification bytes plus the locations and shapes
//! of the program-header and section-header tables.

use vstd::prelude::*;
use crate::ElfError;
use crate::ranges::Offset;
use crate::reader::{Reader, Stream, word_at};

verus! {

/// The decoded ELF header.  The identification fields (class, byte order,
/// version) also live on the `Reader` that produced it; this struct carries
/// everything the table walkers need.
pub struct ElfHeader {
    /// Operating system ABI, from the identification bytes.
    pub osabi: u8,
    /// ABI version; zero for Linux.
    pub abiversion: u8,
    /// File type: 2 executable, 3 shared object, 4 core.
    pub etype: u16,
    /// Machine architecture code.
    pub machine: u16,
    /// Architecture-specific flags.
    pub flags: u32,
    /// Virtual address execution starts at; zero when there is none.
    pub entry: u64,
    /// Offset of the program header table.
    pub ph_offset: u64,
    /// Size of one program header entry.
    pub ph_entry_size: u16,
    /// Number of program header entries.
    pub num_ph_entries: u16,
    /// Offset of the section header table.
    pub section_offset: u64,
    /// Size of one section header entry.
    pub section_entry_size: u16,
    /// Number of section header entries.
    pub num_section_entries: u16,
    /// Index of the section holding section names.
    pub string_table_index: u16,
}

/// The size of the ELF header for the given word size.
pub open spec fn ehdr_size(sixty_four_bit: bool) -> nat {
    if sixty_four_bit {
        0x40
    } else {
        0x34
    }
}

/// The decoded fields of the ELF header, under either word size.
pub open spec fn ehdr_at(b: Seq<u8>, sixty_four_bit: bool, le: bool) -> ElfHeader {
    if sixty_four_bit {
        ElfHeader {
            osabi: b[7],
            abiversion: b[8],
            etype: word_at(b, 0x10, 2, le) as u16,
            machine: word_at(b, 0x12, 2, le) as u16,
            entry: word_at(b, 0x18, 8, le) as u64,
            ph_offset: word_at(b, 0x20, 8, le) as u64,
            section_offset: word_at(b, 0x28, 8, le) as u64,
            flags: word_at(b, 0x30, 4, le) as u32,
            ph_entry_size: word_at(b, 0x36, 2, le) as u16,
            num_ph_entries: word_at(b, 0x38, 2, le) as u16,
            section_entry_size: word_at(b, 0x3a, 2, le) as u16,
            num_section_entries: word_at(b, 0x3c, 2, le) as u16,
            string_table_index: word_at(b, 0x3e, 2, le) as u16,
        }
    } else {
        ElfHeader {
            osabi: b[7],
            abiversion: b[8],
            etype: word_at(b, 0x10, 2, le) as u16,
            machine: word_at(b, 0x12, 2, le) as u16,
            entry: word_at(b, 0x18, 4, le) as u64,
            ph_offset: word_at(b, 0x1c, 4, le) as u64,
            section_offset: word_at(b, 0x20, 4, le) as u64,
            flags: word_at(b, 0x24, 4, le) as u32,
            ph_entry_size: word_at(b, 0x2a, 2, le) as u16,
            num_ph_entries: word_at(b, 0x2c, 2, le) as u16,
            section_entry_size: word_at(b, 0x2e, 2, le) as u16,
            num_section_entries: word_at(b, 0x30, 2, le) as u16,
            string_table_index: word_at(b, 0x32, 2, le) as u16,
        }
    }
}

impl ElfHeader {
    /// Decodes the header at the start of the file.  The reader has already
    /// validated the magic, version, and file type.
    pub fn new(reader: &Reader) -> (r: Result<Self, ElfError>)
        ensures
            r is Ok <==> ehdr_size(reader.sixty_four_bit) <= reader@.len(),
            r matches Ok(h) ==> h == ehdr_at(reader@, reader.sixty_four_bit, reader.little_endian),
            r is Err ==> r->Err_0 == ElfError::ReadOutOfBounds,
    {
        let osabi = reader.read_byte(Offset(7))?;
        let abiversion = reader.read_byte(Offset(8))?;
        let mut s = Stream::new(reader, Offset(0x10));
        let etype = s.read_half()?;
        let machine = s.read_half()?;
        let _version = s.read_word()?;
        let entry = s.read_addr()?;
        let ph_offset = s.read_offset()?;
        let section_offset = s.read_offset()?;
        let flags = s.read_word()?;
        let _ehsize = s.read_half()?;
        let ph_entry_size = s.read_half()?;
        let num_ph_entries = s.read_half()?;
        let section_entry_size = s.read_half()?;
        let num_section_entries = s.read_half()?;
        let string_table_index = s.read_half()?;
        Ok(
            ElfHeader {
                osabi,
                abiversion,
                etype,
                machine,
                flags,
                entry,
                ph_offset,
                ph_entry_size,
                num_ph_entries,
                section_offset,
                section_entry_size,
                num_section_entries,
                string_table_index,
            },
        )
    }

    /// Whether the file is a core dump.
    pub fn is_core(&self) -> (r: bool)
        ensures
            r == (self.etype == 4),
    {
        self.etype == 4
    }

    /// Whether the file targets 64-bit x86, the one architecture the
    /// relocation decoder understands.
    pub fn is_x86_64(&self) -> (r: bool)
        ensures
            r == (self.machine == 0x3e),
    {
        self.machine == 0x3e
    }

    /// A human-readable name for the file type.
    pub fn stype(&self) -> (r: &'static str)
        ensures
            r@ == spec_etype_name(self.etype),
    {
        match self.etype {
            2 => "exe",
            3 => "shared object",
            4 => "core",
            _ => "unknown",
        }
    }

    /// A human-readable name for the machine architecture.
    pub fn machine(&self) -> (r: &'static str)
        ensures
            r@ == spec_machine_name(self.machine),
    {
        match self.machine {
            0x03 => "x86",
            0x08 => "MIPS",
            0x14 => "PowerPC",
            0x16 => "S390",
            0x28 => "ARM",
            0x2a => "SuperH",
            0x32 => "IA-64",
            0x3e => "x86-64",
            0xb7 => "AArch64",
            0xf3 => "RISC-V",
            _ => "unknown machine",
        }
    }

    /// A human-readable name for the OS ABI.
    pub fn abi(&self) -> (r: &'static str)
        ensures
            r@ == spec_abi_name(self.osabi),
    {
        match self.osabi {
            0x00 => "System V",
            0x02 => "NetBSD",
            0x03 => "Linux",
            0x06 => "Solaris",
            0x09 => "FreeBSD",
            0x0c => "OpenBSD",
            _ => "unknown abi",
        }
    }
}

/// The name `stype` renders for each file type code.
pub open spec fn spec_etype_name(etype: u16) -> Seq<char> {
    if etype == 2 {
        "exe"@
    } else if etype == 3 {
        "shared object"@
    } else if etype == 4 {
        "core"@
    } else {
        "unknown"@
    }
}

/// The name `machine` renders for each architecture code.
pub open spec fn spec_machine_name(machine: u16) -> Seq<char> {
    if machine == 0x03 {
        "x86"@
    } else if machine == 0x08 {
        "MIPS"@
    } else if machine == 0x14 {
        "PowerPC"@
    } else if machine == 0x16 {
        "S390"@
    } else if machine == 0x28 {
        "ARM"@
    } else if machine == 0x2a {
        "SuperH"@
    } else if machine == 0x32 {
        "IA-64"@
    } else if machine == 0x3e {
        "x86-64"@
    } else if machine == 0xb7 {
        "AArch64"@
    } else if machine == 0xf3 {
        "RISC-V"@
    } else {
        "unknown machine"@
    }
}

/// The name `abi` renders for each OS ABI code.
pub open spec fn spec_abi_name(osabi: u8) -> Seq<char> {
    if osabi == 0x00 {
        "System V"@
    } else if osabi == 0x02 {
        "NetBSD"@
    } else if osabi == 0x03 {
        "Linux"@
    } else if osabi == 0x06 {
        "Solaris"@
    } else if osabi == 0x09 {
        "FreeBSD"@
    } else if osabi == 0x0c {
        "OpenBSD"@
    } else {
        "unknown abi"@
    }
}

} // verus!
