//! Notes: tagged metadata blobs inside Note-type segments.  For core files
//! they describe the dumped process; for executables, how the file was
//! built.

use vstd::prelude::*;
use crate::ElfError;
use crate::ranges::{Bytes, Coord, Offset, VirtualAddr};
use crate::reader::{Stream, byte_chars, word_at};

verus! {

/// One note descriptor: its name, decoded type, and the byte range of its
/// payload.  Payloads are decoded lazily by the queries that need them.
pub struct Note {
    pub name: String,
    pub ntype: NoteType,
    pub contents: Bytes<Offset>,
}

/// A note's type, discriminated first by its name string and then by its
/// numeric code.
#[derive(Clone, Copy, Debug, Eq, PartialEq, Structural)]
pub enum NoteType {
    Core(CoreNoteType),
    Generic(GenericNoteType),
    Gnu(GnuNoteType),
}

/// Core-dump note types, from notes named `CORE`.
#[derive(Clone, Copy, Debug, Eq, PartialEq, Structural)]
pub enum CoreNoteType {
    /// The auxiliary vector, including the address of the vDSO.
    AuxV,
    /// The list of memory-mapped files.
    File,
    /// A type the engine does not handle.
    Other,
    Platform,
    PStatus,
    /// Process status: signal, pid, and registers.
    PrStatus,
    /// Floating point register values.
    FpRegSet,
    /// Process state info: run state, name and arguments.
    PrPsInfo,
    PsInfo,
    /// Detailed signal information, including the fault address.
    SigInfo,
    TaskStruct,
}

/// Note types from notes named `GNU`.
#[derive(Clone, Copy, Debug, Eq, PartialEq, Structural)]
pub enum GnuNoteType {
    AbiTag,
    BuildId,
    HwCap,
    GoldVersion,
    Other,
    PackagingMetadata,
    PropType0,
}

/// Note types from notes with any other name.
#[derive(Clone, Copy, Debug, Eq, PartialEq, Structural)]
pub enum GenericNoteType {
    Arch,
    GnuBuildAttrOpen,
    GnuBuildAttrFunc,
    Other,
    Version,
}

/// Which variant a core note code decodes to.
pub open spec fn spec_core_note(value: u32) -> CoreNoteType {
    if value == 1 {
        CoreNoteType::PrStatus
    } else if value == 2 {
        CoreNoteType::FpRegSet
    } else if value == 3 {
        CoreNoteType::PrPsInfo
    } else if value == 4 {
        CoreNoteType::TaskStruct
    } else if value == 5 {
        CoreNoteType::Platform
    } else if value == 6 {
        CoreNoteType::AuxV
    } else if value == 10 {
        CoreNoteType::PStatus
    } else if value == 13 {
        CoreNoteType::PsInfo
    } else if value == 0x53494749 {
        CoreNoteType::SigInfo
    } else if value == 0x46494c45 {
        CoreNoteType::File
    } else {
        CoreNoteType::Other
    }
}

/// Which variant a GNU note code decodes to.
pub open spec fn spec_gnu_note(value: u32) -> GnuNoteType {
    if value == 1 {
        GnuNoteType::AbiTag
    } else if value == 2 {
        GnuNoteType::HwCap
    } else if value == 3 {
        GnuNoteType::BuildId
    } else if value == 4 {
        GnuNoteType::GoldVersion
    } else if value == 5 {
        GnuNoteType::PropType0
    } else if value == 0xcafe1a7e {
        GnuNoteType::PackagingMetadata
    } else {
        GnuNoteType::Other
    }
}

/// Which variant a generic note code decodes to.
pub open spec fn spec_generic_note(value: u32) -> GenericNoteType {
    if value == 1 {
        GenericNoteType::Version
    } else if value == 2 {
        GenericNoteType::Arch
    } else if value == 0x100 {
        GenericNoteType::GnuBuildAttrOpen
    } else if value == 0x101 {
        GenericNoteType::GnuBuildAttrFunc
    } else {
        GenericNoteType::Other
    }
}

/// Which variant a (name, code) pair decodes to: the name selects the
/// namespace, the code the type within it.
pub open spec fn spec_note_type(name: Seq<char>, value: u32) -> NoteType {
    if name == "CORE"@ {
        NoteType::Core(spec_core_note(value))
    } else if name == "GNU"@ {
        NoteType::Gnu(spec_gnu_note(value))
    } else {
        NoteType::Generic(spec_generic_note(value))
    }
}

/// Compares two string slices by their characters.
pub fn str_eq(a: &str, b: &str) -> (r: bool)
    ensures
        r == (a@ == b@),
{
    let sa = String::from_str(a);
    let sb = String::from_str(b);
    sa == sb
}

impl NoteType {
    /// Decodes a note's type from its name and numeric code.  Codes the
    /// engine does not recognize become the namespace's `Other` variant.
    pub fn new(name: &str, value: u32) -> (r: Self)
        ensures
            r == spec_note_type(name@, value),
    {
        if str_eq(name, "CORE") {
            match value {
                1 => NoteType::Core(CoreNoteType::PrStatus),
                2 => NoteType::Core(CoreNoteType::FpRegSet),
                3 => NoteType::Core(CoreNoteType::PrPsInfo),
                4 => NoteType::Core(CoreNoteType::TaskStruct),
                5 => NoteType::Core(CoreNoteType::Platform),
                6 => NoteType::Core(CoreNoteType::AuxV),
                10 => NoteType::Core(CoreNoteType::PStatus),
                13 => NoteType::Core(CoreNoteType::PsInfo),
                0x53494749 => NoteType::Core(CoreNoteType::SigInfo),
                0x46494c45 => NoteType::Core(CoreNoteType::File),
                _ => NoteType::Core(CoreNoteType::Other),
            }
        } else if str_eq(name, "GNU") {
            match value {
                1 => NoteType::Gnu(GnuNoteType::AbiTag),
                2 => NoteType::Gnu(GnuNoteType::HwCap),
                3 => NoteType::Gnu(GnuNoteType::BuildId),
                4 => NoteType::Gnu(GnuNoteType::GoldVersion),
                5 => NoteType::Gnu(GnuNoteType::PropType0),
                0xcafe1a7e => NoteType::Gnu(GnuNoteType::PackagingMetadata),
                _ => NoteType::Gnu(GnuNoteType::Other),
            }
        } else {
            match value {
                1 => NoteType::Generic(GenericNoteType::Version),
                2 => NoteType::Generic(GenericNoteType::Arch),
                0x100 => NoteType::Generic(GenericNoteType::GnuBuildAttrOpen),
                0x101 => NoteType::Generic(GenericNoteType::GnuBuildAttrFunc),
                _ => NoteType::Generic(GenericNoteType::Other),
            }
        }
    }
}

/// `n` rounded up to a multiple of four, as an unbounded integer.
pub open spec fn align4(n: int) -> int {
    4 * ((n + 3) / 4)
}

/// The layout of the note at `i`: a 12-byte head (name size, payload size,
/// type code), the name bytes, then the payload, with name and payload both
/// padded to four-byte boundaries.
pub open spec fn note_name_size(b: Seq<u8>, i: int, le: bool) -> int {
    word_at(b, i, 4, le)
}

pub open spec fn note_desc_size(b: Seq<u8>, i: int, le: bool) -> int {
    word_at(b, i + 4, 4, le)
}

pub open spec fn note_type_code(b: Seq<u8>, i: int, le: bool) -> int {
    word_at(b, i + 8, 4, le)
}

/// Where the note's payload starts.
pub open spec fn note_desc_start(b: Seq<u8>, i: int, le: bool) -> int {
    i + 12 + align4(note_name_size(b, i, le))
}

/// Where the next note starts.
pub open spec fn note_next(b: Seq<u8>, i: int, le: bool) -> int {
    note_desc_start(b, i, le) + align4(note_desc_size(b, i, le))
}

/// Whether the note at `i` can be decoded: the head is in bounds, the name
/// is present and nonempty, and no position involved wraps around.
pub open spec fn note_ok(b: Seq<u8>, i: int, le: bool) -> bool {
    &&& 0 <= i
    &&& i + 12 <= b.len()
    &&& note_name_size(b, i, le) >= 1
    &&& i + 12 + note_name_size(b, i, le) - 1 <= b.len()
    &&& note_next(b, i, le) <= u64::MAX
}

/// Reads one note descriptor: its name (one character per byte), its type
/// code, and the byte range of its payload.  The payload itself is not
/// read; it may even lie beyond the end of a truncated file, in which case
/// the query that decodes it will fail instead.
pub fn read_note(s: &mut Stream) -> (r: Result<(String, u32, Bytes<Offset>), ElfError>)
    ensures
        final(s).reader == old(s).reader,
        r is Ok <==> note_ok(old(s).reader@, old(s).offset.0 as int, old(s).reader.little_endian),
        r matches Ok((name, ntype, contents)) ==> {
            let b = old(s).reader@;
            let i = old(s).offset.0 as int;
            let le = old(s).reader.little_endian;
            &&& name@ == byte_chars(b.subrange(i + 12, i + 12 + note_name_size(b, i, le) - 1))
            &&& ntype == note_type_code(b, i, le)
            &&& contents.start.0 == note_desc_start(b, i, le)
            &&& contents.size == note_desc_size(b, i, le)
            &&& contents.wf()
            &&& final(s).offset.0 == note_next(b, i, le)
            &&& final(s).offset.0 > old(s).offset.0 + 11
        },
        r matches Err(e) ==> (e == ElfError::ReadOutOfBounds || e == ElfError::BadNote),
{
    let ghost b = s.reader@;
    let ghost i = s.offset.0 as int;
    let ghost le = s.reader.little_endian;
    let n_namesz = s.read_word()?;
    let n_descsz = s.read_word()?;
    let n_type = s.read_word()?;
    if n_namesz == 0 {
        return Err(ElfError::BadNote);
    }
    let name_bytes = s.reader.slice(s.offset, (n_namesz - 1) as usize)?;
    let mut name = String::new();
    let mut k: usize = 0;
    while k < name_bytes.len()
        invariant
            k <= name_bytes.len(),
            name@ == byte_chars(name_bytes@.subrange(0, k as int)),
        decreases name_bytes.len() - k,
    {
        crate::reader::push_char(&mut name, name_bytes[k] as char);
        k = k + 1;
        proof {
            assert(name_bytes@.subrange(0, k as int) =~= name_bytes@.subrange(
                0,
                k - 1,
            ).push(name_bytes@[k - 1]));
            assert(byte_chars(name_bytes@.subrange(0, k as int)) =~= byte_chars(
                name_bytes@.subrange(0, k - 1),
            ).push(name_bytes@[k - 1] as char));
        }
    }
    proof {
        assert(name_bytes@.subrange(0, name_bytes@.len() as int) =~= name_bytes@);
    }
    // Skip the name, padded to a word boundary, then the payload likewise.
    let name_span = align_u64(n_namesz);
    if name_span > u64::MAX - s.offset.0 {
        return Err(ElfError::BadNote);
    }
    let desc_offset = Offset(s.offset.0 + name_span);
    let desc_span = align_u64(n_descsz);
    if desc_span > u64::MAX - desc_offset.0 {
        return Err(ElfError::BadNote);
    }
    s.offset = Offset(desc_offset.0 + desc_span);
    Ok((name, n_type, Bytes { start: desc_offset, size: n_descsz as u64 }))
}

/// `n` rounded up to a multiple of four, widened so the padding cannot
/// overflow.
fn align_u64(n: u32) -> (r: u64)
    ensures
        r == align4(n as int),
{
    let w = n as u64;
    let aligned: u64 = (w / 4) * 4;
    if aligned == w {
        w
    } else {
        aligned + 4
    }
}

/// The fixed-layout process-status record from a core file's `PrStatus`
/// note: the killing signal, the process id, and the general-purpose
/// registers.
pub struct PrStatus {
    /// The signal that terminated the process.
    pub signal_num: i32,
    /// Further detail about the signal, for example which kind of fault.
    pub signal_code: i32,
    /// The process id of the dumped process.
    pub pid: i32,
    /// General purpose registers, laid out as in the kernel's `pt_regs`.
    pub registers: Vec<u64>,
}

/// How many general-purpose register slots a status note carries.
pub const NUM_REGISTERS: usize = 26;

/// The register slot holding the instruction pointer.
pub const IP_REGISTER: usize = 16;

/// The register slot holding the frame-pointer (`rbp`).
pub const FRAME_REGISTER: usize = 4;

/// The register slot holding the stack pointer (`rsp`).
pub const STACK_REGISTER: usize = 19;

impl PrStatus {
    /// A decoded status always carries the full register vector.
    pub open spec fn wf(&self) -> bool {
        self.registers.len() == NUM_REGISTERS
    }

    /// The instruction address the process was executing.
    pub fn get_ip(&self) -> (r: VirtualAddr)
        requires
            self.wf(),
        ensures
            r.0 == self.registers@[IP_REGISTER as int],
    {
        VirtualAddr::from_raw(self.registers[IP_REGISTER])
    }

    /// The frame-pointer register: past the end of the locals, holding the
    /// caller's frame base.  Garbage in frame-pointer-omitting builds.
    pub fn get_frame_stack_top(&self) -> (r: VirtualAddr)
        requires
            self.wf(),
        ensures
            r.0 == self.registers@[FRAME_REGISTER as int],
    {
        VirtualAddr::from_raw(self.registers[FRAME_REGISTER])
    }

    /// The stack-pointer register: the start of the locals.
    pub fn get_frame_stack_bottom(&self) -> (r: VirtualAddr)
        requires
            self.wf(),
        ensures
            r.0 == self.registers@[STACK_REGISTER as int],
    {
        VirtualAddr::from_raw(self.registers[STACK_REGISTER])
    }

    /// True for the registers rarely worth showing, such as the segment
    /// registers.
    pub fn is_rare_register(&self, n: usize) -> (r: bool)
        ensures
            r == spec_rare_register(n as int),
    {
        match n {
            17 => true,  // cs
            18 => true,  // eflags
            20 => true,  // ss
            22 => true,  // ds
            23 => true,  // es
            24 => true,  // fs
            25 => true,  // gs
            _ => false,
        }
    }

    /// The conventional name of a register slot, or `?` for slots without
    /// one.
    pub fn register_name(&self, n: usize) -> (r: &'static str)
        ensures
            r@ == spec_register_name(n as int),
    {
        match n {
            0 => "r15",
            1 => "r14",
            2 => "r13",
            3 => "r12",
            4 => "rbp",
            5 => "rbx",
            6 => "r11",
            7 => "r10",
            8 => "r9",
            9 => "r8",
            10 => "rax",
            11 => "rcx",
            12 => "rdx",
            13 => "rsi",
            14 => "rdi",
            16 => "rip",
            17 => "cs",
            18 => "eflags",
            19 => "rsp",
            20 => "ss",
            22 => "ds",
            23 => "es",
            24 => "fs",
            25 => "gs",
            _ => "?",
        }
    }

    /// The display name of the killing signal, refined by the signal code
    /// where the code pins the cause down.
    pub fn signal(&self) -> (r: &'static str)
        ensures
            r@ == spec_signal_name(self.signal_num as int, self.signal_code as int),
    {
        match self.signal_num {
            1 => "SIGHUP",
            2 => "SIGINT",
            3 => "SIGQUIT",
            4 => match self.signal_code {
                1 => "SIGILL: Illegal opcode",
                2 => "SIGILL: Illegal operand",
                3 => "SIGILL: Illegal addressing mode",
                4 => "SIGILL: Illegal trap",
                5 => "SIGILL: Privileged opcode",
                6 => "SIGILL: Privileged register",
                7 => "SIGILL: Coprocessor error",
                8 => "SIGILL: Internal stack error",
                _ => "SIGILL",
            },
            5 => match self.signal_code {
                1 => "SIGTRAP: Process breakpoint",
                2 => "SIGTRAP: Process trace trap",
                _ => "SIGTRAP",
            },
            6 => "SIGABRT",
            7 => match self.signal_code {
                1 => "SIGBUS: Invalid address alignment",
                2 => "SIGBUS: Non-existant physical address",
                3 => "SIGBUS: Object specific hardware error",
                _ => "SIGBUS",
            },
            8 => match self.signal_code {
                1 => "SIGFPE: Integer divide by zero",
                2 => "SIGFPE: Integer overflow",
                3 => "SIGFPE: Floating point divide by zero",
                4 => "SIGFPE: Floating point overflow",
                5 => "SIGFPE: Floating point underflow",
                6 => "SIGFPE: Floating point inexact result",
                7 => "SIGFPE: Floating point invalid operation",
                8 => "SIGFPE: Subscript out of range",
                _ => "SIGFPE",
            },
            9 => "SIGKILL",
            10 => "SIGUSR1",
            11 => match self.signal_code {
                1 => "SIGSEGV: Address not mapped to object",
                2 => "SIGSEGV: Invalid permissions for mapped object",
                _ => "SIGSEGV",
            },
            12 => "SIGUSR2",
            13 => "SIGPIPE",
            14 => "SIGALRM",
            15 => "SIGTERM",
            16 => "SIGSTKFLT",
            17 => match self.signal_code {
                1 => "SIGCHLD: Child has exited",
                2 => "SIGCHLD: Child was killed",
                3 => "SIGCHLD: Child terminated abnormally",
                4 => "SIGCHLD: Traced child has trapped",
                5 => "SIGCHLD: Child has stopped",
                6 => "SIGCHLD: Stopped child has continued",
                _ => "SIGCHLD",
            },
            18 => "SIGCONT",
            19 => "SIGSTOP",
            20 => "SIGTSTP",
            21 => "SIGTTIN",
            22 => "SIGTTOU",
            23 => "SIGURG",
            24 => "SIGXCPU",
            25 => "SIGXFSZ",
            26 => "SIGVTALRM",
            27 => "SIGPROF",
            28 => "SIGWINCH",
            29 => "SIGIO",
            30 => "SIGPWR",
            31 => "SIGSYS",
            _ => "unknown signal",
        }
    }
}

/// Whether a register slot is rarely worth showing.
pub open spec fn spec_rare_register(n: int) -> bool {
    n == 17 || n == 18 || n == 20 || n == 22 || n == 23 || n == 24 || n == 25
}

/// The name each register slot renders as.
pub open spec fn spec_register_name(n: int) -> Seq<char> {
    if n == 0 {
        "r15"@
    } else if n == 1 {
        "r14"@
    } else if n == 2 {
        "r13"@
    } else if n == 3 {
        "r12"@
    } else if n == 4 {
        "rbp"@
    } else if n == 5 {
        "rbx"@
    } else if n == 6 {
        "r11"@
    } else if n == 7 {
        "r10"@
    } else if n == 8 {
        "r9"@
    } else if n == 9 {
        "r8"@
    } else if n == 10 {
        "rax"@
    } else if n == 11 {
        "rcx"@
    } else if n == 12 {
        "rdx"@
    } else if n == 13 {
        "rsi"@
    } else if n == 14 {
        "rdi"@
    } else if n == 16 {
        "rip"@
    } else if n == 17 {
        "cs"@
    } else if n == 18 {
        "eflags"@
    } else if n == 19 {
        "rsp"@
    } else if n == 20 {
        "ss"@
    } else if n == 22 {
        "ds"@
    } else if n == 23 {
        "es"@
    } else if n == 24 {
        "fs"@
    } else if n == 25 {
        "gs"@
    } else {
        "?"@
    }
}

/// The display name `PrStatus::signal` renders for a (signal, code) pair.
pub open spec fn spec_signal_name(num: int, code: int) -> Seq<char> {
    if num == 1 {
        "SIGHUP"@
    } else if num == 2 {
        "SIGINT"@
    } else if num == 3 {
        "SIGQUIT"@
    } else if num == 4 {
        if code == 1 {
            "SIGILL: Illegal opcode"@
        } else if code == 2 {
            "SIGILL: Illegal operand"@
        } else if code == 3 {
            "SIGILL: Illegal addressing mode"@
        } else if code == 4 {
            "SIGILL: Illegal trap"@
        } else if code == 5 {
            "SIGILL: Privileged opcode"@
        } else if code == 6 {
            "SIGILL: Privileged register"@
        } else if code == 7 {
            "SIGILL: Coprocessor error"@
        } else if code == 8 {
            "SIGILL: Internal stack error"@
        } else {
            "SIGILL"@
        }
    } else if num == 5 {
        if code == 1 {
            "SIGTRAP: Process breakpoint"@
        } else if code == 2 {
            "SIGTRAP: Process trace trap"@
        } else {
            "SIGTRAP"@
        }
    } else if num == 6 {
        "SIGABRT"@
    } else if num == 7 {
        if code == 1 {
            "SIGBUS: Invalid address alignment"@
        } else if code == 2 {
            "SIGBUS: Non-existant physical address"@
        } else if code == 3 {
            "SIGBUS: Object specific hardware error"@
        } else {
            "SIGBUS"@
        }
    } else if num == 8 {
        if code == 1 {
            "SIGFPE: Integer divide by zero"@
        } else if code == 2 {
            "SIGFPE: Integer overflow"@
        } else if code == 3 {
            "SIGFPE: Floating point divide by zero"@
        } else if code == 4 {
            "SIGFPE: Floating point overflow"@
        } else if code == 5 {
            "SIGFPE: Floating point underflow"@
        } else if code == 6 {
            "SIGFPE: Floating point inexact result"@
        } else if code == 7 {
            "SIGFPE: Floating point invalid operation"@
        } else if code == 8 {
            "SIGFPE: Subscript out of range"@
        } else {
            "SIGFPE"@
        }
    } else if num == 9 {
        "SIGKILL"@
    } else if num == 10 {
        "SIGUSR1"@
    } else if num == 11 {
        if code == 1 {
            "SIGSEGV: Address not mapped to object"@
        } else if code == 2 {
            "SIGSEGV: Invalid permissions for mapped object"@
        } else {
            "SIGSEGV"@
        }
    } else if num == 12 {
        "SIGUSR2"@
    } else if num == 13 {
        "SIGPIPE"@
    } else if num == 14 {
        "SIGALRM"@
    } else if num == 15 {
        "SIGTERM"@
    } else if num == 16 {
        "SIGSTKFLT"@
    } else if num == 17 {
        if code == 1 {
            "SIGCHLD: Child has exited"@
        } else if code == 2 {
            "SIGCHLD: Child was killed"@
        } else if code == 3 {
            "SIGCHLD: Child terminated abnormally"@
        } else if code == 4 {
            "SIGCHLD: Traced child has trapped"@
        } else if code == 5 {
            "SIGCHLD: Child has stopped"@
        } else if code == 6 {
            "SIGCHLD: Stopped child has continued"@
        } else {
            "SIGCHLD"@
        }
    } else if num == 18 {
        "SIGCONT"@
    } else if num == 19 {
        "SIGSTOP"@
    } else if num == 20 {
        "SIGTSTP"@
    } else if num == 21 {
        "SIGTTIN"@
    } else if num == 22 {
        "SIGTTOU"@
    } else if num == 23 {
        "SIGURG"@
    } else if num == 24 {
        "SIGXCPU"@
    } else if num == 25 {
        "SIGXFSZ"@
    } else if num == 26 {
        "SIGVTALRM"@
    } else if num == 27 {
        "SIGPROF"@
    } else if num == 28 {
        "SIGWINCH"@
    } else if num == 29 {
        "SIGIO"@
    } else if num == 30 {
        "SIGPWR"@
    } else if num == 31 {
        "SIGSYS"@
    } else {
        "unknown signal"@
    }
}

/// Detailed signal information from a core file's `SigInfo` note.
pub struct SigInfo {
    /// Information specific to the class of signal that killed the process.
    pub details: SignalDetails,
}

/// The per-class payload of a signal, selected by the high half of the
/// signal code.
pub enum SignalDetails {
    Child(ChildSignal),
    Fault(FaultSignal),
    Kill(KillSignal),
    MesgQ,
    Poll,
    Posix(PosixSignal),
    Sys,
    Timer,
}

pub struct ChildSignal {
    pub child_pid: i32,
    pub child_uid: i32,
    pub exit_code: i32,
}

pub struct FaultSignal {
    pub fault_addr: u64,
}

pub struct KillSignal {
    pub sender_pid: i32,
    pub sender_uid: i32,
}

pub struct PosixSignal {
    pub sender_pid: i32,
    pub sender_uid: i32,
}

/// A memory-mapped file recorded in a core's `File` note.
pub struct MemoryMappedFile {
    /// The virtual addresses the file occupies.
    pub vbytes: Bytes<VirtualAddr>,
    /// The path of the mapped file.
    pub file_name: String,
}

} // verus!
