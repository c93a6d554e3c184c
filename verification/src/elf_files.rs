//! The pair of files a session works on: at most one core file and at
//! most one executable.  Queries that need both, such as source-line
//! lookup and the backtrace, live here.

use vstd::prelude::*;
use crate::ElfError;
use crate::elf_file::{ElfFile, note_view, spec_find_core_note, spec_find_load};
use crate::notes::Note;
use crate::ranges::{Coord, Offset, VirtualAddr};
use crate::reader::word_at;
use crate::segments::LoadSegment;

verus! {

/// The files of one analysis session.
pub struct ElfFiles {
    pub core: Option<ElfFile>,
    pub exe: Option<ElfFile>,
}

/// How a list of file types classifies into one core and one executable:
/// type 4 files claim the core slot, everything else the executable slot,
/// and a second claim on either slot is a hard configuration error.
pub open spec fn spec_classify(types: Seq<u16>, j: int, core: bool, exe: bool) -> Result<
    (bool, bool),
    ElfError,
>
    decreases types.len() - j,
{
    if j < 0 || j >= types.len() {
        Ok((core, exe))
    } else if types[j] == 4 {
        if core {
            Err(ElfError::MultipleCores)
        } else {
            spec_classify(types, j + 1, true, exe)
        }
    } else {
        if exe {
            Err(ElfError::MultipleExes)
        } else {
            spec_classify(types, j + 1, core, true)
        }
    }
}

impl ElfFiles {
    /// Both present files carry well-formed tables.
    pub open spec fn wf(&self) -> bool {
        &&& (self.core matches Some(c) ==> c.tables_wf() && c.wf())
        &&& (self.exe matches Some(e) ==> e.tables_wf() && e.wf())
    }

    /// Sorts opened files into the core and executable slots: a core file
    /// (type 4) fills the core slot, anything else the executable slot;
    /// two files for one slot are rejected.
    pub fn new(files: Vec<ElfFile>) -> (r: Result<Self, ElfError>)
        requires
            forall|j: int|
                0 <= j < files@.len() ==> (#[trigger] files@[j]).tables_wf() && files@[j].wf(),
        ensures
            ({
                let types = files@.map_values(|f: ElfFile| f.header.etype);
                &&& (r is Ok <==> spec_classify(types, 0, false, false) is Ok)
                &&& (r matches Ok(fs) ==> {
                    &&& fs.wf()
                    &&& spec_classify(types, 0, false, false) matches Ok((c, e)) && (fs.core
                        is Some <==> c) && (fs.exe is Some <==> e)
                    &&& (fs.core matches Some(cf) ==> cf.header.etype == 4 && exists|jj: int|
                        0 <= jj < files@.len() && files@[jj] == cf)
                    &&& (fs.exe matches Some(ef) ==> ef.header.etype != 4 && exists|jj: int|
                        0 <= jj < files@.len() && files@[jj] == ef)
                })
                &&& (r matches Err(err) ==> Err::<(bool, bool), ElfError>(err) == spec_classify(
                    types,
                    0,
                    false,
                    false,
                ))
            }),
    {
        let ghost types = files@.map_values(|f: ElfFile| f.header.etype);
        let ghost all = files@;
        let mut rest = files;
        let mut core: Option<ElfFile> = None;
        let mut exe: Option<ElfFile> = None;
        let ghost mut j: int = 0;
        while rest.len() > 0
            invariant
                0 <= j,
                j + rest@.len() == types.len(),
                forall|k: int|
                    0 <= k < rest@.len() ==> (#[trigger] rest@[k]).tables_wf() && rest@[k].wf(),
                forall|k: int| 0 <= k < rest@.len() ==> #[trigger] rest@[k] == all[j + k],
                forall|k: int| 0 <= k < rest@.len() ==> rest@[k].header.etype == types[j + k],
                core matches Some(c) ==> c.tables_wf() && c.wf(),
                exe matches Some(e) ==> e.tables_wf() && e.wf(),
                core matches Some(c) ==> c.header.etype == 4 && exists|jj: int|
                    0 <= jj < all.len() && all[jj] == c,
                exe matches Some(e) ==> e.header.etype != 4 && exists|jj: int|
                    0 <= jj < all.len() && all[jj] == e,
                spec_classify(types, 0, false, false) == spec_classify(
                    types,
                    j,
                    core is Some,
                    exe is Some,
                ),
            decreases rest.len(),
        {
            let file = rest.remove(0);
            proof {
                assert(file == all[j]);
                j = j + 1;
            }
            if file.header.etype == 4 {
                if core.is_some() {
                    return Err(ElfError::MultipleCores);
                }
                core = Some(file);
            } else {
                if exe.is_some() {
                    return Err(ElfError::MultipleExes);
                }
                exe = Some(file);
            }
        }
        Ok(ElfFiles { core, exe })
    }

    /// The first load segment of the core whose virtual range contains
    /// `vaddr`.
    pub fn find_load_segment(&self, vaddr: VirtualAddr) -> (r: Option<LoadSegment>)
        ensures
            self.core matches Some(c) ==> r == spec_find_load(c.loads@, vaddr.0),
            self.core is None ==> r is None,
    {
        match &self.core {
            Some(c) => c.find_load_segment(vaddr),
            None => None,
        }
    }

    /// The core's process status, when a core with a complete status note
    /// is present.
    pub fn find_prstatus(&self) -> (r: Option<crate::notes::PrStatus>)
        ensures
            self.core is None ==> r is None,
            self.core matches Some(c) ==> {
                let views = c.notes@.map_values(|n: Note| note_view(n));
                let found = spec_find_core_note(views, crate::notes::CoreNoteType::PrStatus);
                &&& (r is Some <==> (found matches Some(nc) && nc.start.0
                    + crate::elf_file::prstatus_size() <= c.reader@.len()))
                &&& (r matches Some(st) ==> found matches Some(nc)
                    && crate::elf_file::prstatus_matches(
                    st,
                    c.reader@,
                    nc.start.0 as int,
                    c.reader.little_endian,
                ) && st.wf())
            },
    {
        match &self.core {
            Some(c) => c.find_prstatus(),
            None => None,
        }
    }

    /// The relocations of both files, core first, together with the
    /// diagnostic for any present file whose architecture the decoder does
    /// not support: that file contributes nothing, and the gap is reported
    /// rather than silently skipped.
    pub fn find_relocations(&self) -> (r: (Vec<crate::sections::Relocation>, Option<ElfError>))
        requires
            self.wf(),
        ensures
            r.0@ == spec_file_relocations(self.core) + spec_file_relocations(self.exe),
            r.1 == if spec_unsupported_machine(self.core) || spec_unsupported_machine(self.exe) {
                Some(ElfError::UnsupportedArchitecture)
            } else {
                None::<ElfError>
            },
    {
        proof {
            assert(Seq::<crate::sections::Relocation>::empty() + spec_file_relocations(
                self.core,
            ) =~= spec_file_relocations(self.core));
        }
        let mut result: Vec<crate::sections::Relocation> = Vec::new();
        let mut unsupported = false;
        match &self.core {
            Some(file) => {
                if file.find_relocations(&mut result).is_err() {
                    unsupported = true;
                }
            },
            None => {},
        }
        proof {
            if self.core is None {
                assert(spec_file_relocations(self.core) =~= Seq::<
                    crate::sections::Relocation,
                >::empty());
                assert(result@ =~= spec_file_relocations(self.core));
            }
        }
        match &self.exe {
            Some(file) => {
                if file.find_relocations(&mut result).is_err() {
                    unsupported = true;
                }
            },
            None => {},
        }
        proof {
            if self.exe is None {
                assert(spec_file_relocations(self.exe) =~= Seq::<
                    crate::sections::Relocation,
                >::empty());
                assert(result@ =~= result@ + spec_file_relocations(self.exe));
            }
        }
        if unsupported {
            (result, Some(ElfError::UnsupportedArchitecture))
        } else {
            (result, None)
        }
    }

    /// The source file, line, and column for a core virtual address.
    /// Needs both files: the core supplies the memory map that turns the
    /// address into a mapping-relative one, the executable supplies the
    /// line table.  An address with a mapping but no table row yields the
    /// placeholder `("?", 0, 0)`, not an error.
    pub fn find_line(&self, addr: VirtualAddr) -> (r: Result<(String, u32, u16), ElfError>)
        requires
            self.wf(),
        ensures
            self.core is None && self.exe is None ==> r == Err::<(String, u32, u16), ElfError>(
                ElfError::MissingBoth,
            ),
            self.core is None && self.exe is Some ==> r == Err::<(String, u32, u16), ElfError>(
                ElfError::MissingCore,
            ),
            self.core is Some && self.exe is None ==> r == Err::<(String, u32, u16), ElfError>(
                ElfError::MissingExe,
            ),
            self.core matches Some(c) ==> (self.exe is Some ==> (r == Err::<
                (String, u32, u16),
                ElfError,
            >(ElfError::NoMapping) <==> spec_raddr_of(c, addr) is None)),
            self.core matches Some(c) ==> (self.exe matches Some(e) ==> (spec_raddr_of(c, addr)
                is Some ==> (r == Err::<(String, u32, u16), ElfError>(ElfError::NoDebugLine)
                <==> crate::elf_file::spec_first_progbits_named(
                e.reader@,
                e.sections@,
                e.header.string_table_index as u32,
                ".debug_line"@,
                0,
            ) is None))),
            r is Ok ==> self.core is Some && self.exe is Some,
            self.core matches Some(c) ==> (self.exe matches Some(e) ==> (r is Ok <==> (
            spec_raddr_of(c, addr) is Some && crate::elf_file::spec_first_progbits_named(
                e.reader@,
                e.sections@,
                e.header.string_table_index as u32,
                ".debug_line"@,
                0,
            ) is Some))),
            self.core matches Some(c) ==> (self.exe matches Some(e) ==> (spec_raddr_of(c, addr)
                matches Some(ra) ==> (r matches Ok(v) ==> (match crate::line::spec_find_row(
                spec_exe_rows(e),
                ra,
            ) {
                Some(row) => v.0@ == row.1 && v.1 == row.2 && v.2 == row.3,
                None => v.0@ == "?"@ && v.1 == 0 && v.2 == 0,
            })))),
    {
        let core = match &self.core {
            Some(c) => c,
            None => {
                if self.exe.is_some() {
                    return Err(ElfError::MissingCore);
                } else {
                    return Err(ElfError::MissingBoth);
                }
            },
        };
        let exe = match &self.exe {
            Some(e) => e,
            None => {
                return Err(ElfError::MissingExe);
            },
        };
        let raddr = match core.vaddr_to_raddr(addr) {
            Some(ra) => ra,
            None => {
                return Err(ElfError::NoMapping);
            },
        };
        let lines = match exe.get_lines() {
            Some(li) => li,
            None => {
                return Err(ElfError::NoDebugLine);
            },
        };
        proof {
            crate::line::lemma_find_row_correspond(lines.lines@, lines.files@, raddr.0);
        }
        match lines.find(raddr) {
            Some((key, line, column)) => {
                let file = lines.files.get(key).clone();
                Ok((file, line, column))
            },
            None => Ok((placeholder_name(), 0, 0)),
        }
    }

    /// Walks the frame-pointer chain of the core: frame zero is the
    /// instruction pointer; the frame-pointer register seeds the chain,
    /// which must start inside a writable load segment; each step reads
    /// the saved frame pointer and return address at the frame base and
    /// follows the saved pointer while it strictly increases, so the walk
    /// always ends.  Unreliable by design for frame-pointer-omitting
    /// builds.
    pub fn raw_backtrace(&self) -> (r: Result<Vec<VirtualAddr>, ElfError>)
        requires
            self.wf(),
        ensures
            !spec_has_prstatus(self.core) ==> r == Err::<Vec<VirtualAddr>, ElfError>(
                ElfError::NoPrStatus,
            ),
            self.core matches Some(c) ==> (spec_find_core_note(
                c.notes@.map_values(|n: Note| note_view(n)),
                crate::notes::CoreNoteType::PrStatus,
            ) matches Some(nc) ==> (nc.start.0 + crate::elf_file::prstatus_size()
                <= c.reader@.len() ==> {
                let b = c.reader@;
                let le = c.reader.little_endian;
                let rbp = word_at(
                    b,
                    nc.start.0 + 112 + 8 * crate::notes::FRAME_REGISTER,
                    8,
                    le,
                ) as u64;
                let ip = word_at(b, nc.start.0 + 112 + 8 * crate::notes::IP_REGISTER, 8, le);
                let seg = spec_find_load(c.loads@, rbp);
                &&& (seg is None ==> r == Err::<Vec<VirtualAddr>, ElfError>(
                    ElfError::NoLoadSegment,
                ))
                &&& (seg matches Some(sg) ==> ((sg.flags & crate::segments::WRITE_FLAG == 0)
                    ==> r == Err::<Vec<VirtualAddr>, ElfError>(ElfError::NoLoadSegment)))
                &&& (seg matches Some(sg) ==> ((sg.flags & crate::segments::WRITE_FLAG != 0)
                    ==> (r matches Ok(bt) && bt@.map_values(|v: VirtualAddr| v.0 as int)
                    == seq![ip] + spec_walk(b, le, sg, rbp))))
            })),
    {
        let core = match &self.core {
            Some(c) => c,
            None => {
                return Err(ElfError::NoPrStatus);
            },
        };
        let status = match core.find_prstatus() {
            Some(st) => st,
            None => {
                return Err(ElfError::NoPrStatus);
            },
        };
        let mut bt: Vec<VirtualAddr> = Vec::new();
        bt.push(status.get_ip());
        let mut rbp = status.get_frame_stack_top();
        let seg = match core.find_load_segment(rbp) {
            Some(sg) => sg,
            None => {
                return Err(ElfError::NoLoadSegment);
            },
        };
        if !seg.writeable() {
            return Err(ElfError::NoLoadSegment);
        }
        let ghost b = core.reader@;
        let ghost le = core.reader.little_endian;
        let ghost whole = seq![status.registers@[crate::notes::IP_REGISTER as int] as int]
            + spec_walk(b, le, seg, rbp.0);
        proof {
            match spec_find_core_note(
                core.notes@.map_values(|n: Note| note_view(n)),
                crate::notes::CoreNoteType::PrStatus,
            ) {
                Some(nc) => {
                    crate::reader::lemma_pow256_concrete();
                    crate::reader::lemma_word_at_bound(
                        b,
                        nc.start.0 + 112 + 8 * crate::notes::IP_REGISTER,
                        8,
                        le,
                    );
                    crate::reader::lemma_word_at_bound(
                        b,
                        nc.start.0 + 112 + 8 * crate::notes::FRAME_REGISTER,
                        8,
                        le,
                    );
                    assert(status.registers@[crate::notes::IP_REGISTER as int] as int == word_at(
                        b,
                        nc.start.0 + 112 + 8 * crate::notes::IP_REGISTER,
                        8,
                        le,
                    ));
                    assert(whole =~= seq![
                        word_at(b, nc.start.0 + 112 + 8 * crate::notes::IP_REGISTER, 8, le),
                    ] + spec_walk(b, le, seg, rbp.0));
                },
                None => {},
            }
            crate::elf_file::lemma_spec_find_load_wf(core.loads@, rbp.0);
            assert(bt@.map_values(|v: VirtualAddr| v.0 as int) + spec_walk(b, le, seg, rbp.0)
                =~= whole);
        }
        loop
            invariant
                seg.wf(),
                core == self.core->0,
                b == core.reader@,
                le == core.reader.little_endian,
                bt@.map_values(|v: VirtualAddr| v.0 as int) + spec_walk(b, le, seg, rbp.0)
                    == whole,
            decreases walk_measure(seg, rbp.0),
        {
            let offset = match seg.to_offset(rbp) {
                Some(o) => o,
                None => {
                    proof {
                        assert(spec_walk(b, le, seg, rbp.0) =~= Seq::<int>::empty());
                        assert(bt@.map_values(|v: VirtualAddr| v.0 as int) =~= bt@.map_values(
                            |v: VirtualAddr| v.0 as int,
                        ) + Seq::<int>::empty());
                    }
                    return Ok(bt);
                },
            };
            let new_rbp = match core.reader.read_xword(offset) {
                Ok(w) => w,
                Err(_) => {
                    proof {
                        assert(spec_walk(b, le, seg, rbp.0) =~= Seq::<int>::empty());
                        assert(bt@.map_values(|v: VirtualAddr| v.0 as int) =~= bt@.map_values(
                            |v: VirtualAddr| v.0 as int,
                        ) + Seq::<int>::empty());
                    }
                    return Ok(bt);
                },
            };
            if offset.0 > u64::MAX - 8 {
                let len_now = core.reader.len();
                proof {
                    assert(b.len() == len_now);
                    assert(spec_walk(b, le, seg, rbp.0) =~= Seq::<int>::empty());
                    assert(bt@.map_values(|v: VirtualAddr| v.0 as int) =~= bt@.map_values(
                        |v: VirtualAddr| v.0 as int,
                    ) + Seq::<int>::empty());
                }
                return Ok(bt);
            }
            let ret = match core.reader.read_xword(Offset(offset.0 + 8)) {
                Ok(w) => w,
                Err(_) => {
                    proof {
                        assert(spec_walk(b, le, seg, rbp.0) =~= Seq::<int>::empty());
                        assert(bt@.map_values(|v: VirtualAddr| v.0 as int) =~= bt@.map_values(
                            |v: VirtualAddr| v.0 as int,
                        ) + Seq::<int>::empty());
                    }
                    return Ok(bt);
                },
            };
            let ghost pre = bt@.map_values(|v: VirtualAddr| v.0 as int);
            let ghost old_rbp = rbp.0;
            bt.push(VirtualAddr(ret));
            proof {
                assert(spec_walk(b, le, seg, old_rbp) =~= seq![ret as int] + (
                if new_rbp > old_rbp {
                    spec_walk(b, le, seg, new_rbp)
                } else {
                    Seq::<int>::empty()
                }));
                assert(bt@.map_values(|v: VirtualAddr| v.0 as int) =~= pre.push(ret as int));
                assert(pre.push(ret as int) + (if new_rbp > old_rbp {
                    spec_walk(b, le, seg, new_rbp)
                } else {
                    Seq::<int>::empty()
                }) =~= pre + spec_walk(b, le, seg, old_rbp));
            }
            if new_rbp <= rbp.0 {
                // A chain that stops climbing the stack is corrupt or has
                // reached its end; following it further could loop.
                return Ok(bt);
            }
            rbp = VirtualAddr(new_rbp);
        }
    }
}

/// The rows of the executable's line table, when it has one.
pub open spec fn spec_exe_rows(e: ElfFile) -> Seq<(int, Seq<char>, u32, u16)> {
    match crate::elf_file::spec_first_progbits_named(
        e.reader@,
        e.sections@,
        e.header.string_table_index as u32,
        ".debug_line"@,
        0,
    ) {
        Some(j) => {
            let sec = e.sections@[j];
            crate::line::spec_units(
                e.reader@,
                e.reader.little_endian,
                e.reader.sixty_four_bit,
                sec.obytes.start.0 as int,
                sec.obytes.start.0 + sec.obytes.size,
                seq!["?"@],
            ).1
        },
        None => Seq::empty(),
    }
}

/// Whether a present file targets an architecture the relocation decoder
/// does not support.
pub open spec fn spec_unsupported_machine(f: Option<ElfFile>) -> bool {
    f matches Some(file) && file.header.machine != 0x3e
}

/// The relocations one optional file contributes: its decodable entries
/// when it targets 64-bit x86, nothing otherwise.
pub open spec fn spec_file_relocations(f: Option<ElfFile>) -> Seq<crate::sections::Relocation> {
    match f {
        None => Seq::empty(),
        Some(file) => {
            if file.header.machine == 0x3e {
                crate::elf_file::spec_relocations(
                    file.reader@,
                    file.sections@,
                    file.reader.sixty_four_bit,
                    file.reader.little_endian,
                )
            } else {
                Seq::empty()
            }
        },
    }
}

/// The mapping-relative address the core's memory map gives for `addr`,
/// when the map decodes and contains it.
pub open spec fn spec_raddr_of(c: ElfFile, addr: VirtualAddr) -> Option<u64> {
    let views = c.notes@.map_values(|n: Note| note_view(n));
    let found = spec_find_core_note(views, crate::notes::CoreNoteType::File);
    match found {
        Some(nc) => match crate::elf_file::spec_mapped_raw(
            c.reader@,
            nc.start.0 as int,
            c.reader.little_endian,
            c.reader.sixty_four_bit,
        ) {
            Some(raw) => match crate::elf_file::spec_find_mapping(
                crate::elf_file::spec_merge(raw),
                addr.0,
            ) {
                Some(m) => Some((addr.0 - m.0) as u64),
                None => None,
            },
            None => None,
        },
        None => None,
    }
}

/// Whether the core, if any, carries a complete process-status note.
pub open spec fn spec_has_prstatus(core: Option<ElfFile>) -> bool {
    core matches Some(c) && spec_find_core_note(
        c.notes@.map_values(|n: Note| note_view(n)),
        crate::notes::CoreNoteType::PrStatus,
    ) matches Some(nc) && nc.start.0 + crate::elf_file::prstatus_size() <= c.reader@.len()
}

/// The frames the frame-pointer walk yields from `rbp` inside one
/// segment: the return address at each frame base, following the saved
/// frame pointer while it strictly increases and stays inside the
/// segment.
pub open spec fn spec_walk(b: Seq<u8>, le: bool, seg: LoadSegment, rbp: u64) -> Seq<int>
    decreases walk_measure(seg, rbp),
{
    if !seg.vbytes.spec_contains(rbp) {
        Seq::empty()
    } else {
        let o = seg.obytes.start.0 + (rbp - seg.vbytes.start.0);
        if o + 16 <= b.len() {
            let new_rbp = word_at(b, o, 8, le) as u64;
            let ret = word_at(b, o + 8, 8, le);
            seq![ret] + (if new_rbp > rbp {
                spec_walk(b, le, seg, new_rbp)
            } else {
                Seq::empty()
            })
        } else {
            Seq::empty()
        }
    }
}

/// How much room is left above the frame base inside the segment; the
/// walk's termination measure.
pub open spec fn walk_measure(seg: LoadSegment, rbp: u64) -> int {
    if seg.vbytes.spec_contains(rbp) {
        seg.vbytes.start.0 + seg.vbytes.size - rbp
    } else {
        0
    }
}

/// The placeholder returned when an address has a mapping but no line
/// table row.
fn placeholder_name() -> (r: String)
    ensures
        r@ == "?"@,
{
    String::from_str("?")
}

} // verus!
