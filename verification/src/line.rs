//! The DWARF line-number programs of `.debug_line`: per compilation unit a
//! source-file table, an include-path table, and an address-keyed table
//! mapping unit-relative addresses to (file, line, column).
//!
//! The decoder runs the standard line-number state machine; a malformed
//! unit ends decoding and everything decoded before it is kept.

use vstd::prelude::*;
use crate::ElfError;
use crate::key_map::{FileKey, KeyMap, KeyType};
use crate::ranges::{Offset, RelativeAddr};
use crate::reader::Stream;

verus! {

/// One row of the address table.
pub struct LineEntry {
    /// The unit-relative address the row describes.
    pub addr: RelativeAddr,
    /// The key of the source file, resolved through `LineInfo::files`.
    pub file: FileKey,
    pub line: u32,
    pub column: u16,
}

/// One entry of a unit's source-file table.
pub struct SourceFile {
    /// The include path the file's directory index selects, or empty for
    /// the compilation directory.
    pub dir: String,
    /// The file's name as stored in the table.
    pub file: String,
    /// The declared file length; zero is stored as absent.
    pub length: Option<u64>,
}

/// The tables declared in one unit's header.
pub struct LineUnit {
    pub include_paths: Vec<String>,
    pub source_files: Vec<SourceFile>,
}

/// The decoded line information of an executable.
pub struct LineInfo {
    /// Per-unit source-file and include-path tables.
    pub units: Vec<LineUnit>,
    /// All file names seen in address rows, keyed compactly.
    pub files: KeyMap<FileKey>,
    /// The address rows of every unit, in decode order.
    pub lines: Vec<LineEntry>,
}


/// One include path or file name block: null-terminated strings until an
/// empty one, with the position after the terminator.  `None` when a
/// string lacks a terminator inside the buffer.
pub open spec fn spec_str_block(b: Seq<u8>, i: int) -> Option<(Seq<Seq<char>>, int)>
    decreases b.len() - i,
    via spec_str_block_decreases
{
    if !(0 <= i < b.len()) || crate::reader::find_nul(b, i) >= b.len() {
        None
    } else {
        let nul = crate::reader::find_nul(b, i);
        if nul == i {
            Some((Seq::empty(), i + 1))
        } else {
            match spec_str_block(b, nul + 1) {
                None => None,
                Some((rest, e)) => Some(
                    (seq![crate::reader::byte_chars(b.subrange(i, nul))] + rest, e),
                ),
            }
        }
    }
}

#[via_fn]
proof fn spec_str_block_decreases(b: Seq<u8>, i: int) {
    if 0 <= i < b.len() && crate::reader::find_nul(b, i) < b.len() {
        crate::reader::lemma_find_nul_bounds(b, i);
    }
}

/// The view of one source-file entry: its directory, name, and declared
/// length.
pub open spec fn source_file_view(sf: SourceFile) -> (Seq<char>, Seq<char>, Option<u64>) {
    (sf.dir@, sf.file@, sf.length)
}

/// The source-file block at `i`: each entry is a nonempty name followed
/// by a directory index, a timestamp, and a length, until an empty name.
/// The directory index selects an include path; index zero and
/// out-of-range indices select the empty compilation directory.
pub open spec fn spec_file_block(b: Seq<u8>, i: int, dirs: Seq<Seq<char>>) -> Option<
    (Seq<(Seq<char>, Seq<char>, Option<u64>)>, int),
>
    decreases b.len() - i,
    via spec_file_block_decreases
{
    if !(0 <= i < b.len()) || crate::reader::find_nul(b, i) >= b.len() {
        None
    } else {
        let nul = crate::reader::find_nul(b, i);
        if nul == i {
            Some((Seq::empty(), i + 1))
        } else {
            let name = crate::reader::byte_chars(b.subrange(i, nul));
            match crate::reader::uleb_at(b, nul + 1) {
                None => None,
                Some((d, p1)) => {
                    if d >= 0x1_0000_0000_0000_0000 {
                        None
                    } else {
                        match crate::reader::uleb_at(b, p1) {
                            None => None,
                            Some((m, p2)) => {
                                if m >= 0x1_0000_0000_0000_0000 {
                                    None
                                } else {
                                    match crate::reader::uleb_at(b, p2) {
                                        None => None,
                                        Some((l, p3)) => {
                                            if l >= 0x1_0000_0000_0000_0000 {
                                                None
                                            } else {
                                                let dir = if 1 <= d <= dirs.len() {
                                                    dirs[d - 1]
                                                } else {
                                                    Seq::empty()
                                                };
                                                let length = if l == 0 {
                                                    None
                                                } else {
                                                    Some(l as u64)
                                                };
                                                match spec_file_block(b, p3, dirs) {
                                                    None => None,
                                                    Some((rest, e)) => Some(
                                                        (
                                                            seq![(dir, name, length)] + rest,
                                                            e,
                                                        ),
                                                    ),
                                                }
                                            }
                                        },
                                    }
                                }
                            },
                        }
                    }
                }
            }
        }
    }
}

#[via_fn]
proof fn spec_file_block_decreases(b: Seq<u8>, i: int, dirs: Seq<Seq<char>>) {
    if 0 <= i < b.len() && crate::reader::find_nul(b, i) < b.len() {
        crate::reader::lemma_find_nul_bounds(b, i);
        let nul = crate::reader::find_nul(b, i);
        if nul != i {
            crate::reader::lemma_uleb_at_bounds(b, nul + 1);
            match crate::reader::uleb_at(b, nul + 1) {
                None => {},
                Some((d, p1)) => {
                    crate::reader::lemma_uleb_at_bounds(b, p1);
                    match crate::reader::uleb_at(b, p1) {
                        None => {},
                        Some((m, p2)) => {
                            crate::reader::lemma_uleb_at_bounds(b, p2);
                        },
                    }
                },
            }
        }
    }
}

/// Prepends decoded paths to a pending tail of a string block.
pub open spec fn paths_concat(a: Seq<Seq<char>>, o: Option<(Seq<Seq<char>>, int)>) -> Option<
    (Seq<Seq<char>>, int),
> {
    match o {
        None => None,
        Some((r, e)) => Some((a + r, e)),
    }
}

/// Prepends decoded file entries to a pending tail of a file block.
pub open spec fn files_concat(
    a: Seq<(Seq<char>, Seq<char>, Option<u64>)>,
    o: Option<(Seq<(Seq<char>, Seq<char>, Option<u64>)>, int)>,
) -> Option<(Seq<(Seq<char>, Seq<char>, Option<u64>)>, int)> {
    match o {
        None => None,
        Some((r, e)) => Some((a + r, e)),
    }
}

/// The decoded fields of one line-number unit header.
pub struct LineHdr {
    /// Whether the unit uses the 64-bit format.
    pub fmt64: bool,
    /// Where the unit ends, saturated to 64 bits.
    pub unit_end: int,
    /// Where the opcode program starts.
    pub program_start: int,
    pub version: u16,
    pub min_inst: u8,
    /// The signed line base of special opcodes.
    pub line_base: int,
    pub line_range: u8,
    pub opcode_base: u8,
    /// The operand counts of the standard opcodes.
    pub std_lengths: Seq<u8>,
    pub include_paths: Seq<Seq<char>>,
    /// Directory, name, and length of each declared source file.
    pub files: Seq<(Seq<char>, Seq<char>, Option<u64>)>,
}

/// The decode of the line-number unit header at `u`, mirroring the reads
/// the decoder makes: `None` exactly when the decoder rejects the unit.
pub open spec fn spec_line_header(b: Seq<u8>, u: int, le: bool) -> Option<LineHdr> {
    if !(0 <= u && u + 4 <= b.len()) {
        None
    } else {
        let w0 = crate::reader::word_at(b, u, 4, le);
        let fmt64 = w0 == 0xffffffff;
        if fmt64 && u + 12 > b.len() {
            None
        } else {
            let unit_len = if fmt64 {
                crate::reader::word_at(b, u + 4, 8, le)
            } else {
                w0
            };
            let p1 = if fmt64 {
                u + 12
            } else {
                u + 4
            };
            let unit_end = spec_sat_add(p1, unit_len);
            if p1 + 2 > b.len() {
                None
            } else {
                let version = crate::reader::word_at(b, p1, 2, le);
                if !(2 <= version <= 4) {
                    None
                } else {
                    let hw = if fmt64 {
                        8int
                    } else {
                        4int
                    };
                    if p1 + 2 + hw > b.len() {
                        None
                    } else {
                        let header_len = crate::reader::word_at(b, p1 + 2, hw as nat, le);
                        let q0 = p1 + 2 + hw;
                        if header_len > u64::MAX - q0 {
                            None
                        } else {
                            let program_start = q0 + header_len;
                            let q2 = q0 + 1 + (if version >= 4 {
                                1int
                            } else {
                                0int
                            });
                            let q4 = q2 + 4;
                            if q4 > b.len() {
                                None
                            } else {
                                let min_inst = b[q0];
                                let line_base_raw = b[q2 + 1];
                                let line_range = b[q2 + 2];
                                let opcode_base = b[q2 + 3];
                                if line_range == 0 || opcode_base == 0 || q4 + opcode_base - 1
                                    > b.len() {
                                    None
                                } else {
                                    let std_lengths = Seq::new(
                                        (opcode_base - 1) as nat,
                                        |k: int| b[q4 + k],
                                    );
                                    let q5 = q4 + opcode_base - 1;
                                    match spec_str_block(b, q5) {
                                        None => None,
                                        Some((paths, q6)) => match spec_file_block(
                                            b,
                                            q6,
                                            paths,
                                        ) {
                                            None => None,
                                            Some((files, _)) => Some(
                                                LineHdr {
                                                    fmt64,
                                                    unit_end,
                                                    program_start,
                                                    version: version as u16,
                                                    min_inst,
                                                    line_base: if line_base_raw >= 0x80 {
                                                        line_base_raw - 0x100
                                                    } else {
                                                        line_base_raw as int
                                                    },
                                                    line_range,
                                                    opcode_base,
                                                    std_lengths,
                                                    include_paths: paths,
                                                    files,
                                                },
                                            ),
                                        },
                                    }
                                }
                            }
                        }
                    }
                }
            }
        }
    }
}


/// The file table a unit declares, as views.
pub open spec fn line_unit_files_view(u: LineUnit) -> Seq<(Seq<char>, Seq<char>, Option<u64>)> {
    u.source_files@.map_values(|sf: SourceFile| source_file_view(sf))
}

/// One row as a contract speaks of it: address, resolved file name, line,
/// column.
pub open spec fn row_view(e: LineEntry, ktab: Seq<Seq<char>>) -> (int, Seq<char>, u32, u16) {
    (e.addr.0 as int, ktab[e.file.key_index()], e.line, e.column)
}

/// The rows of a table, resolved against a file-name table.
pub open spec fn rows_view(lines: Seq<LineEntry>, ktab: Seq<Seq<char>>) -> Seq<
    (int, Seq<char>, u32, u16),
> {
    lines.map_values(|e: LineEntry| row_view(e, ktab))
}

/// Rows resolve identically against any extension of their file table.
pub proof fn lemma_rows_view_stable(lines: Seq<LineEntry>, kt1: Seq<Seq<char>>, kt2: Seq<Seq<char>>)
    requires
        forall|j: int|
            0 <= j < lines.len() ==> 0 <= (#[trigger] lines[j]).file.key_index() < kt1.len(),
        kt2.len() >= kt1.len(),
        forall|k: int| 0 <= k < kt1.len() ==> kt2[k] == #[trigger] kt1[k],
    ensures
        rows_view(lines, kt1) == rows_view(lines, kt2),
{
    assert forall|j: int| 0 <= j < lines.len() implies rows_view(lines, kt1)[j] == rows_view(
        lines,
        kt2,
    )[j] by {
        assert(kt2[lines[j].file.key_index()] == kt1[lines[j].file.key_index()]);
    }
    assert(rows_view(lines, kt1) =~= rows_view(lines, kt2));
}

/// What inserting a name into the compact file table yields: the table
/// unchanged when the name is present or the key space is full, the name
/// appended otherwise.
pub open spec fn spec_insert_name(ktab: Seq<Seq<char>>, name: Seq<char>) -> Seq<Seq<char>> {
    if crate::key_map::spec_find_value(ktab, name) < ktab.len() {
        ktab
    } else if ktab.len() < 0x10000 {
        ktab.push(name)
    } else {
        ktab
    }
}

/// The name a row records for an inserted name: the name itself, or the
/// overflow placeholder once the key space is full.
pub open spec fn spec_row_name(ktab: Seq<Seq<char>>, name: Seq<char>) -> Seq<char> {
    if crate::key_map::spec_find_value(ktab, name) < ktab.len() || ktab.len() < 0x10000 {
        name
    } else {
        ktab[0]
    }
}

/// The name the file register resolves to in the unit's table.
pub open spec fn spec_resolve_file(
    files: Seq<(Seq<char>, Seq<char>, Option<u64>)>,
    file: int,
) -> Seq<char> {
    if 1 <= file <= files.len() {
        files[file - 1].1
    } else {
        "?"@
    }
}

/// The row one emit appends for the machine state, and the file table it
/// leaves behind.
pub open spec fn spec_emit_row(
    files: Seq<(Seq<char>, Seq<char>, Option<u64>)>,
    ktab: Seq<Seq<char>>,
    addr: int,
    file: int,
    line: int,
    col: int,
) -> ((int, Seq<char>, u32, u16), Seq<Seq<char>>) {
    let name = spec_resolve_file(files, file);
    (
        (
            addr,
            spec_row_name(ktab, name),
            spec_clamp_line(line) as u32,
            (col as u64) as u16,
        ),
        spec_insert_name(ktab, name),
    )
}

/// Where skipping `c` variable-length operands ends, or `None` when one
/// of them is malformed.
pub open spec fn spec_skip_ulebs(b: Seq<u8>, i: int, c: int) -> Option<int>
    decreases c,
{
    if c <= 0 {
        Some(i)
    } else {
        match crate::reader::uleb_at(b, i) {
            None => None,
            Some((v, n)) => {
                if v >= 0x1_0000_0000_0000_0000 {
                    None
                } else {
                    spec_skip_ulebs(b, n, c - 1)
                }
            },
        }
    }
}

/// The rows the line-number program from `pos` yields, the file table it
/// leaves behind, and whether it ran to the unit's end (false when it
/// stopped at a malformed read).  One recursion step consumes one opcode,
/// mirroring the machine exactly: special opcodes advance address and
/// line and emit; the standard opcodes copy, advance, set registers, or
/// skip their declared operands; extended opcodes end a sequence, set the
/// address, or are skipped by their length.
pub open spec fn spec_run(
    b: Seq<u8>,
    le: bool,
    sf: bool,
    h: LineHdr,
    pos: int,
    addr: int,
    file: int,
    line: int,
    col: int,
    ktab: Seq<Seq<char>>,
) -> (Seq<(int, Seq<char>, u32, u16)>, Seq<Seq<char>>, bool)
    decreases
            if pos < b.len() {
                b.len() - pos
            } else {
                0
            },
    via spec_run_decreases
{
    if pos >= h.unit_end || pos >= b.len() || pos < 0 {
        (Seq::empty(), ktab, true)
    } else {
        let op = b[pos];
        let p = pos + 1;
        if op >= h.opcode_base {
            let adj = (op - h.opcode_base) as int;
            let addr2 = spec_sat_add(addr, (adj / h.line_range as int) * h.min_inst as int);
            let line2 = spec_sat_add_i(line, h.line_base + adj % h.line_range as int);
            let (row, ktab2) = spec_emit_row(h.files, ktab, addr2, file, line2, col);
            let rest = spec_run(b, le, sf, h, p, addr2, file, line2, col, ktab2);
            (seq![row] + rest.0, rest.1, rest.2)
        } else if op == 0 {
            match crate::reader::uleb_at(b, p) {
                None => (Seq::empty(), ktab, false),
                Some((l, p2)) => {
                    if l >= 0x1_0000_0000_0000_0000 || l > u64::MAX - p2 {
                        (Seq::empty(), ktab, false)
                    } else {
                        let next = p2 + l;
                        if l >= 1 {
                            if p2 >= b.len() {
                                (Seq::empty(), ktab, false)
                            } else {
                                let sub = b[p2];
                                if sub == 1 {
                                    let (row, ktab2) = spec_emit_row(
                                        h.files,
                                        ktab,
                                        addr,
                                        file,
                                        line,
                                        col,
                                    );
                                    let rest = spec_run(
                                        b,
                                        le,
                                        sf,
                                        h,
                                        next,
                                        0,
                                        1,
                                        1,
                                        0,
                                        ktab2,
                                    );
                                    (seq![row] + rest.0, rest.1, rest.2)
                                } else if sub == 2 {
                                    let aw = crate::reader::addr_size(sf) as int;
                                    if p2 + 1 + aw > b.len() {
                                        (Seq::empty(), ktab, false)
                                    } else {
                                        let addr2 = crate::reader::word_at(
                                            b,
                                            p2 + 1,
                                            crate::reader::addr_size(sf),
                                            le,
                                        );
                                        spec_run(
                                            b,
                                            le,
                                            sf,
                                            h,
                                            next,
                                            addr2,
                                            file,
                                            line,
                                            col,
                                            ktab,
                                        )
                                    }
                                } else {
                                    spec_run(b, le, sf, h, next, addr, file, line, col, ktab)
                                }
                            }
                        } else {
                            spec_run(b, le, sf, h, next, addr, file, line, col, ktab)
                        }
                    }
                },
            }
        } else if op == 1 {
            let (row, ktab2) = spec_emit_row(h.files, ktab, addr, file, line, col);
            let rest = spec_run(b, le, sf, h, p, addr, file, line, col, ktab2);
            (seq![row] + rest.0, rest.1, rest.2)
        } else if op == 2 {
            match crate::reader::uleb_at(b, p) {
                None => (Seq::empty(), ktab, false),
                Some((v, n)) => {
                    if v >= 0x1_0000_0000_0000_0000 {
                        (Seq::empty(), ktab, false)
                    } else {
                        let addr2 = spec_sat_add(addr, spec_sat_mul(v, h.min_inst as int));
                        spec_run(b, le, sf, h, n, addr2, file, line, col, ktab)
                    }
                },
            }
        } else if op == 3 {
            if !crate::reader::sleb_shape_ok(b, p) {
                (Seq::empty(), ktab, false)
            } else {
                match crate::reader::sleb_at(b, p) {
                    None => (Seq::empty(), ktab, false),
                    Some((d, n)) => {
                        let line2 = spec_sat_add_i(line, d);
                        spec_run(b, le, sf, h, n, addr, file, line2, col, ktab)
                    },
                }
            }
        } else if op == 4 {
            match crate::reader::uleb_at(b, p) {
                None => (Seq::empty(), ktab, false),
                Some((v, n)) => {
                    if v >= 0x1_0000_0000_0000_0000 {
                        (Seq::empty(), ktab, false)
                    } else {
                        spec_run(b, le, sf, h, n, addr, v, line, col, ktab)
                    }
                },
            }
        } else if op == 5 {
            match crate::reader::uleb_at(b, p) {
                None => (Seq::empty(), ktab, false),
                Some((v, n)) => {
                    if v >= 0x1_0000_0000_0000_0000 {
                        (Seq::empty(), ktab, false)
                    } else {
                        spec_run(b, le, sf, h, n, addr, file, line, v, ktab)
                    }
                },
            }
        } else if op == 8 {
            let adj = (0xff - h.opcode_base) as int;
            let addr2 = spec_sat_add(addr, (adj / h.line_range as int) * h.min_inst as int);
            spec_run(b, le, sf, h, p, addr2, file, line, col, ktab)
        } else if op == 9 {
            if p + 2 > b.len() {
                (Seq::empty(), ktab, false)
            } else {
                let addr2 = spec_sat_add(addr, crate::reader::word_at(b, p, 2, le));
                spec_run(b, le, sf, h, p + 2, addr2, file, line, col, ktab)
            }
        } else {
            let count = if 1 <= op <= h.std_lengths.len() {
                h.std_lengths[op - 1] as int
            } else {
                0
            };
            match spec_skip_ulebs(b, p, count) {
                None => (Seq::empty(), ktab, false),
                Some(n) => spec_run(b, le, sf, h, n, addr, file, line, col, ktab),
            }
        }
    }
}

#[via_fn]
proof fn spec_run_decreases(
    b: Seq<u8>,
    le: bool,
    sf: bool,
    h: LineHdr,
    pos: int,
    addr: int,
    file: int,
    line: int,
    col: int,
    ktab: Seq<Seq<char>>,
) {
    if 0 <= pos < h.unit_end && pos < b.len() {
        let p = pos + 1;
        crate::reader::lemma_uleb_at_bounds(b, p);
        match crate::reader::uleb_at(b, p) {
            None => {},
            Some((v, n)) => {},
        }
        crate::reader::lemma_sleb_at_bounds(b, p);
        lemma_skip_ulebs_bounds(b, p, 32);
        let op = b[pos];
        if !(op >= h.opcode_base) && !(op == 0) && !(op == 1) && !(op == 2) && !(op == 3) && !(
        op == 4) && !(op == 5) && !(op == 8) && !(op == 9) {
            let count = if 1 <= op <= h.std_lengths.len() {
                h.std_lengths[op - 1] as int
            } else {
                0
            };
            lemma_skip_ulebs_bounds(b, p, count);
        }
    }
}

/// Skipping operands never moves backward.
pub proof fn lemma_skip_ulebs_bounds(b: Seq<u8>, i: int, c: int)
    ensures
        spec_skip_ulebs(b, i, c) matches Some(n) ==> i <= n,
    decreases c,
{
    if c > 0 {
        crate::reader::lemma_uleb_at_bounds(b, i);
        match crate::reader::uleb_at(b, i) {
            None => {},
            Some((v, n)) => {
                if v < 0x1_0000_0000_0000_0000 {
                    lemma_skip_ulebs_bounds(b, n, c - 1);
                }
            },
        }
    }
}

/// The first row with exactly the given address.
pub open spec fn spec_find_line(s: Seq<(u64, int, u32, u16)>, addr: u64) -> Option<
    (u64, int, u32, u16),
>
    decreases s.len(),
{
    if s.len() == 0 {
        None
    } else if s[0].0 == addr {
        Some(s[0])
    } else {
        spec_find_line(s.drop_first(), addr)
    }
}

/// The view of a row a contract can speak about.
pub open spec fn line_view(e: LineEntry) -> (u64, int, u32, u16) {
    (e.addr.0, e.file.key_index(), e.line, e.column)
}


/// The view of one unit's declared tables.
pub open spec fn line_unit_view(u: LineUnit) -> (
    Seq<Seq<char>>,
    Seq<(Seq<char>, Seq<char>, Option<u64>)>,
) {
    (u.include_paths@.map_values(|pth: String| pth@), line_unit_files_view(u))
}

/// The units decoded between `pos` and `max`, threading the shared file
/// table: each unit contributes its tables and the rows of its program;
/// decoding stops at `max`, at a malformed header, at a program that did
/// not run to its unit's end, or at a unit that fails to advance.
pub open spec fn spec_units(
    b: Seq<u8>,
    le: bool,
    sf: bool,
    pos: int,
    max: int,
    ktab: Seq<Seq<char>>,
) -> (
    Seq<(Seq<Seq<char>>, Seq<(Seq<char>, Seq<char>, Option<u64>)>)>,
    Seq<(int, Seq<char>, u32, u16)>,
    Seq<Seq<char>>,
)
    decreases
            if pos < max {
                max - pos
            } else {
                0
            },
{
    if pos >= max || pos >= b.len() || pos < 0 {
        (Seq::empty(), Seq::empty(), ktab)
    } else {
        match spec_line_header(b, pos, le) {
            None => (Seq::empty(), Seq::empty(), ktab),
            Some(h) => {
                let w = spec_run(b, le, sf, h, h.program_start, 0, 1, 1, 0, ktab);
                let uview = (h.include_paths, h.files);
                if !w.2 || h.unit_end <= pos || h.unit_end > max {
                    (seq![uview], w.0, w.1)
                } else {
                    let rest = spec_units(b, le, sf, h.unit_end, max, w.1);
                    (seq![uview] + rest.0, w.0 + rest.1, rest.2)
                }
            },
        }
    }
}

/// The first row whose address is exactly `a`.
pub open spec fn spec_find_row(rows: Seq<(int, Seq<char>, u32, u16)>, a: u64) -> Option<
    (int, Seq<char>, u32, u16),
>
    decreases rows.len(),
{
    if rows.len() == 0 {
        None
    } else if rows[0].0 == a {
        Some(rows[0])
    } else {
        spec_find_row(rows.drop_first(), a)
    }
}

/// Looking rows up by address commutes with resolving their names: the
/// exact-match search over entries and over resolved rows find the same
/// row.
pub proof fn lemma_find_row_correspond(lines: Seq<LineEntry>, kt: Seq<Seq<char>>, a: u64)
    ensures
        spec_find_line(lines.map_values(|e: LineEntry| line_view(e)), a) is Some
            <==> spec_find_row(rows_view(lines, kt), a) is Some,
        spec_find_line(lines.map_values(|e: LineEntry| line_view(e)), a) matches Some(v)
            ==> (spec_find_row(rows_view(lines, kt), a) matches Some(row) && row.0 == v.0
            && row.1 == kt[v.1] && row.2 == v.2 && row.3 == v.3),
    decreases lines.len(),
{
    if lines.len() > 0 {
        assert(lines.map_values(|e: LineEntry| line_view(e)).drop_first()
            =~= lines.drop_first().map_values(|e: LineEntry| line_view(e)));
        assert(rows_view(lines, kt).drop_first() =~= rows_view(lines.drop_first(), kt));
        if lines[0].addr.0 != a {
            lemma_find_row_correspond(lines.drop_first(), kt, a);
        }
    }
}

impl LineInfo {
    /// Every row's file key resolves in the file table.
    pub open spec fn wf(&self) -> bool {
        &&& self.files.wf()
        &&& forall|j: int|
            0 <= j < self.lines@.len() ==> 0 <= (#[trigger] self.lines@[j]).file.key_index()
                < self.files@.len()
    }

    /// The first row whose address is exactly `addr`; addresses between
    /// rows deliberately resolve to nothing, matching the exact-match
    /// query this engine answers.
    pub fn find(&self, addr: RelativeAddr) -> (r: Option<(FileKey, u32, u16)>)
        requires
            self.wf(),
        ensures
            ({
                let views = self.lines@.map_values(|e: LineEntry| line_view(e));
                &&& (r is Some <==> spec_find_line(views, addr.0) is Some)
                &&& (r matches Some((f, l, c)) ==> spec_find_line(views, addr.0) matches Some(v)
                    && f.key_index() == v.1 && l == v.2 && c == v.3 && 0 <= f.key_index()
                    < self.files@.len())
            }),
    {
        let ghost views = self.lines@.map_values(|e: LineEntry| line_view(e));
        let n = self.lines.len();
        let mut j: usize = 0;
        proof {
            assert(views.subrange(0, n as int) =~= views);
        }
        while j < n
            invariant
                j <= n,
                n == self.lines@.len(),
                views == self.lines@.map_values(|e: LineEntry| line_view(e)),
                self.wf(),
                spec_find_line(views, addr.0) == spec_find_line(
                    views.subrange(j as int, n as int),
                    addr.0,
                ),
            decreases n - j,
        {
            let ghost rest = views.subrange(j as int, n as int);
            proof {
                assert(rest[0] == line_view(self.lines@[j as int]));
            }
            if self.lines[j].addr.0 == addr.0 {
                return Some((self.lines[j].file, self.lines[j].line, self.lines[j].column));
            }
            j = j + 1;
            proof {
                assert(rest.drop_first() =~= views.subrange(j as int, n as int));
            }
        }
        None
    }

    /// Decodes every line-number program between the stream's position and
    /// `max_offset`: the units, their rows, and the file table are exactly
    /// what `spec_units` says of the bytes.  A malformed unit ends
    /// decoding; everything decoded before it is kept.
    #[verifier::rlimit(100)]
    pub fn new(s: &mut Stream, max_offset: Offset) -> (r: LineInfo)
        ensures
            r.wf(),
            ({
                let u = spec_units(
                    old(s).reader@,
                    old(s).reader.little_endian,
                    old(s).reader.sixty_four_bit,
                    old(s).offset.0 as int,
                    max_offset.0 as int,
                    seq!["?"@],
                );
                &&& r.units@.map_values(|un: LineUnit| line_unit_view(un)) == u.0
                &&& rows_view(r.lines@, r.files@) == u.1
                &&& r.files@ == u.2
            }),
    {
        let ghost b = s.reader@;
        let ghost le = s.reader.little_endian;
        let ghost sfb = s.reader.sixty_four_bit;
        let ghost maxp = max_offset.0 as int;
        let mut units: Vec<LineUnit> = Vec::new();
        let mut files: KeyMap<FileKey> = KeyMap::new(unknown_file());
        let mut lines: Vec<LineEntry> = Vec::new();
        let ghost whole = spec_units(b, le, sfb, old(s).offset.0 as int, maxp, seq!["?"@]);
        let limit = s.reader.len();
        proof {
            assert(files@ =~= seq!["?"@]);
            assert(units@.map_values(|un: LineUnit| line_unit_view(un)) =~= Seq::<
                (Seq<Seq<char>>, Seq<(Seq<char>, Seq<char>, Option<u64>)>),
            >::empty());
            assert(rows_view(lines@, files@) =~= Seq::<(int, Seq<char>, u32, u16)>::empty());
        }
        loop
            invariant
                s.reader == old(s).reader,
                files.wf(),
                forall|j: int|
                    0 <= j < lines@.len() ==> 0 <= (#[trigger] lines@[j]).file.key_index()
                        < files@.len(),
                units@.map_values(|un: LineUnit| line_unit_view(un)) + spec_units(
                    b, le, sfb, s.offset.0 as int, maxp, files@,
                ).0 == whole.0,
                rows_view(lines@, files@) + spec_units(
                    b, le, sfb, s.offset.0 as int, maxp, files@,
                ).1 == whole.1,
                spec_units(b, le, sfb, s.offset.0 as int, maxp, files@).2 == whole.2,
            decreases
                    if s.offset.0 < max_offset.0 {
                        max_offset.0 - s.offset.0
                    } else {
                        0
                    },
        {
            if s.offset.0 >= max_offset.0 || s.offset.0 >= limit as u64 {
                proof {
                    assert(spec_units(b, le, sfb, s.offset.0 as int, maxp, files@) == (
                        Seq::<
                            (Seq<Seq<char>>, Seq<(Seq<char>, Seq<char>, Option<u64>)>),
                        >::empty(),
                        Seq::<(int, Seq<char>, u32, u16)>::empty(),
                        files@,
                    ));
                    assert(units@.map_values(|un: LineUnit| line_unit_view(un)) + Seq::<
                        (Seq<Seq<char>>, Seq<(Seq<char>, Seq<char>, Option<u64>)>),
                    >::empty() =~= units@.map_values(|un: LineUnit| line_unit_view(un)));
                    assert(rows_view(lines@, files@) + Seq::<
                        (int, Seq<char>, u32, u16),
                    >::empty() =~= rows_view(lines@, files@));
                }
                return LineInfo { units, files, lines };
            }
            let before = s.offset.0;
            let ghost kt0 = files@;
            let ghost udone = units@.map_values(|un: LineUnit| line_unit_view(un));
            let ghost rdone = rows_view(lines@, files@);
            let ghost lines0 = lines@;
            let ghost cur = spec_units(b, le, sfb, before as int, maxp, kt0);
            match Self::parse_unit(s, &mut units, &mut files, &mut lines) {
                Ok(next) => {
                    proof {
                        lemma_rows_view_stable(lines0, kt0, files@);
                        assert(lines@ =~= lines0 + lines@.skip(lines0.len() as int));
                        assert(rows_view(lines@, files@) =~= rows_view(lines0, files@)
                            + rows_view(lines@.skip(lines0.len() as int), files@));
                        match spec_line_header(b, before as int, le) {
                            None => {
                                assert(udone + cur.0 =~= udone);
                                assert(rdone + cur.1 =~= rdone);
                            },
                            Some(h) => {
                                let w = spec_run(
                                    b, le, sfb, h, h.program_start, 0, 1, 1, 0, kt0,
                                );
                                assert(units@.map_values(|un: LineUnit| line_unit_view(un))
                                    =~= udone.push(
                                    line_unit_view(units@[units@.len() - 1]),
                                ));
                                assert(line_unit_view(units@[units@.len() - 1]) == (
                                    h.include_paths,
                                    h.files,
                                ));
                                if !w.2 || h.unit_end <= before as int || h.unit_end > maxp {
                                    assert(cur == (
                                        seq![(h.include_paths, h.files)],
                                        w.0,
                                        w.1,
                                    ));
                                    assert(udone.push((h.include_paths, h.files)) =~= udone
                                        + seq![(h.include_paths, h.files)]);
                                    assert(rdone + w.0 =~= rdone + w.0);
                                } else {
                                    let rest = spec_units(
                                        b, le, sfb, h.unit_end, maxp, w.1,
                                    );
                                    assert(cur == (
                                        seq![(h.include_paths, h.files)] + rest.0,
                                        w.0 + rest.1,
                                        rest.2,
                                    ));
                                    assert(udone.push((h.include_paths, h.files)) + rest.0
                                        =~= udone + (seq![(h.include_paths, h.files)]
                                        + rest.0));
                                    assert((rdone + w.0) + rest.1 =~= rdone + (w.0
                                        + rest.1));
                                }
                            },
                        }
                    }
                    if next <= before || next > max_offset.0 {
                        return LineInfo { units, files, lines };
                    }
                    s.offset = Offset(next);
                },
                Err(_) => {
                    proof {
                        lemma_rows_view_stable(lines0, kt0, files@);
                        assert(lines@ =~= lines0 + lines@.skip(lines0.len() as int));
                        assert(rows_view(lines@, files@) =~= rows_view(lines0, files@)
                            + rows_view(lines@.skip(lines0.len() as int), files@));
                        match spec_line_header(b, before as int, le) {
                            None => {
                                assert(udone + cur.0 =~= udone);
                                assert(rdone + cur.1 =~= rdone);
                            },
                            Some(h) => {
                                let w = spec_run(
                                    b, le, sfb, h, h.program_start, 0, 1, 1, 0, kt0,
                                );
                                assert(units@.map_values(|un: LineUnit| line_unit_view(un))
                                    =~= udone.push(
                                    line_unit_view(units@[units@.len() - 1]),
                                ));
                                assert(line_unit_view(units@[units@.len() - 1]) == (
                                    h.include_paths,
                                    h.files,
                                ));
                                if !w.2 || h.unit_end <= before as int || h.unit_end > maxp {
                                    assert(cur == (
                                        seq![(h.include_paths, h.files)],
                                        w.0,
                                        w.1,
                                    ));
                                    assert(udone.push((h.include_paths, h.files)) =~= udone
                                        + seq![(h.include_paths, h.files)]);
                                    assert(rdone + w.0 =~= rdone + w.0);
                                } else {
                                    let rest = spec_units(
                                        b, le, sfb, h.unit_end, maxp, w.1,
                                    );
                                    assert(cur == (
                                        seq![(h.include_paths, h.files)] + rest.0,
                                        w.0 + rest.1,
                                        rest.2,
                                    ));
                                    assert(udone.push((h.include_paths, h.files)) + rest.0
                                        =~= udone + (seq![(h.include_paths, h.files)]
                                        + rest.0));
                                    assert((rdone + w.0) + rest.1 =~= rdone + (w.0
                                        + rest.1));
                                }
                            },
                        }
                    }
                    return LineInfo { units, files, lines };
                },
            }
        }
    }

    /// Decodes one unit: its header tables and its program; returns the
    /// position of the next unit.  The unit's tables, the rows its program
    /// emits, and the final file table are exactly what `spec_line_header`
    /// and `spec_run` say of the bytes.
    #[verifier::rlimit(100)]
    fn parse_unit(
        s: &mut Stream,
        units: &mut Vec<LineUnit>,
        files: &mut KeyMap<FileKey>,
        lines: &mut Vec<LineEntry>,
    ) -> (r: Result<u64, ElfError>)
        requires
            old(files).wf(),
            forall|j: int|
                0 <= j < old(lines)@.len() ==> 0 <= (#[trigger] old(lines)@[j]).file.key_index() < old(files)@.len(),
        ensures
            final(s).reader == old(s).reader,
            final(files).wf(),
            final(files)@.len() >= old(files)@.len(),
            forall|j: int|
                0 <= j < final(lines)@.len() ==> 0 <= (#[trigger] final(lines)@[j]).file.key_index() < final(files)@.len(),
            ({
                let hd = spec_line_header(
                    old(s).reader@,
                    old(s).offset.0 as int,
                    old(s).reader.little_endian,
                );
                &&& (hd is None ==> r is Err && final(units)@ == old(units)@ && final(lines)@ == old(lines)@ && final(files)@ == old(files)@)
                &&& (hd matches Some(h) ==> ({
                    let w = spec_run(
                        old(s).reader@,
                        old(s).reader.little_endian,
                        old(s).reader.sixty_four_bit,
                        h,
                        h.program_start,
                        0,
                        1,
                        1,
                        0,
                        old(files)@,
                    );
                    &&& final(units)@.len() == old(units)@.len() + 1
                    &&& (forall|j: int|
                        0 <= j < old(units)@.len() ==> final(units)@[j] == #[trigger] old(units)@[j])
                    &&& final(units)@[old(units)@.len() as int].include_paths@.map_values(
                        |pth: String| pth@,
                    ) == h.include_paths
                    &&& line_unit_files_view(final(units)@[old(units)@.len() as int])
                        == h.files
                    &&& final(files)@ == w.1
                    &&& (forall|k: int|
                        0 <= k < old(files)@.len() ==> final(files)@[k] == #[trigger] old(files)@[k])
                    &&& final(lines)@.len() == old(lines)@.len() + w.0.len()
                    &&& (forall|j: int|
                        0 <= j < old(lines)@.len() ==> final(lines)@[j] == #[trigger] old(lines)@[j])
                    &&& rows_view(final(lines)@.skip(old(lines)@.len() as int), final(files)@)
                        == w.0
                    &&& (r is Ok <==> w.2)
                    &&& (r matches Ok(next) ==> next == h.unit_end)
                }))
            }),
    {
        let ghost b = s.reader@;
        let ghost le = s.reader.little_endian;
        let ghost u0 = s.offset.0 as int;
        let ghost hd = spec_line_header(b, u0, le);
        let unit_len_word = s.read_word()?;
        let (sixty_four, unit_len) = if unit_len_word == 0xffffffff {
            (true, s.read_xword()?)
        } else {
            (false, unit_len_word as u64)
        };
        let unit_end: u64 = if unit_len > u64::MAX - s.offset.0 {
            u64::MAX
        } else {
            s.offset.0 + unit_len
        };
        let version = s.read_half()?;
        if version < 2 || version > 4 {
            return Err(ElfError::BadLineVersion(version));
        }
        let header_len = if sixty_four {
            s.read_xword()?
        } else {
            s.read_word()? as u64
        };
        if header_len > u64::MAX - s.offset.0 {
            return Err(ElfError::BadRange);
        }
        let program_start = s.offset.0 + header_len;
        let min_inst = s.read_byte()?;
        if version >= 4 {
            let _max_ops = s.read_byte()?;
        }
        let _default_is_stmt = s.read_byte()?;
        let line_base_raw = s.read_byte()?;
        let line_range = s.read_byte()?;
        if line_range == 0 {
            return Err(ElfError::BadRange);
        }
        let opcode_base = s.read_byte()?;
        if opcode_base == 0 {
            return Err(ElfError::BadRange);
        }
        let ghost q4 = s.offset.0 as int;
        let mut std_lengths: Vec<u8> = Vec::new();
        let mut k: u8 = 1;
        while k < opcode_base
            invariant
                s.reader == old(s).reader,
                1 <= k <= opcode_base,
                s.offset.0 == q4 + k - 1,
                std_lengths@.len() == k - 1,
                forall|j: int| 0 <= j < k - 1 ==> std_lengths@[j] == b[q4 + j],
                q4 + k - 1 <= b.len() || k == 1,
            decreases opcode_base - k,
        {
            std_lengths.push(s.read_byte()?);
            k = k + 1;
        }
        proof {
            if opcode_base > 1 {
                assert(q4 + opcode_base - 1 <= b.len());
            }
            assert(std_lengths@ =~= Seq::new((opcode_base - 1) as nat, |j: int| b[q4 + j]));
        }
        // The include-path block: paths until an empty one.
        let ghost q5 = s.offset.0 as int;
        let mut include_paths: Vec<String> = Vec::new();
        let limit = s.reader.len();
        proof {
            assert(paths_concat(
                include_paths@.map_values(|pth: String| pth@),
                spec_str_block(b, q5),
            ) == spec_str_block(b, q5));
        }
        loop
            invariant
                s.reader == old(s).reader,
                spec_str_block(b, q5) == paths_concat(
                    include_paths@.map_values(|pth: String| pth@),
                    spec_str_block(b, s.offset.0 as int),
                ),
            decreases
                    if s.offset.0 < limit {
                        limit - s.offset.0
                    } else {
                        0
                    },
        {
            let ghost cur = s.offset.0 as int;
            let ghost seen = include_paths@.map_values(|pth: String| pth@);
            if s.offset.0 >= limit as u64 {
                proof {
                    assert(spec_str_block(b, cur) is None);
                }
                return Err(ElfError::ReadOutOfBounds);
            }
            let path = match s.read_string() {
                Ok(v) => v,
                Err(e) => {
                    proof {
                        assert(spec_str_block(b, cur) is None);
                    }
                    return Err(e);
                },
            };
            proof {
                crate::reader::lemma_find_nul_bounds(b, cur);
            }
            if path.as_str().is_empty() {
                proof {
                    assert(crate::reader::find_nul(b, cur) == cur);
                    assert(spec_str_block(b, cur) == Some(
                        (Seq::<Seq<char>>::empty(), cur + 1),
                    ));
                    assert(seen + Seq::<Seq<char>>::empty() =~= seen);
                }
                break ;
            }
            proof {
                assert(crate::reader::find_nul(b, cur) != cur);
                match spec_str_block(b, crate::reader::find_nul(b, cur) + 1) {
                    None => {},
                    Some((rest, e)) => {
                        assert(seen + (seq![path@] + rest) =~= seen.push(path@) + rest);
                    },
                }
            }
            include_paths.push(path);
        }
        // The source-file block: name plus directory, mtime, and length,
        // until an empty name.
        let ghost dirs = include_paths@.map_values(|pth: String| pth@);
        let ghost q6 = s.offset.0 as int;
        let mut source_files: Vec<SourceFile> = Vec::new();
        proof {
            assert(files_concat(
                source_files@.map_values(|sf: SourceFile| source_file_view(sf)),
                spec_file_block(b, q6, dirs),
            ) == spec_file_block(b, q6, dirs));
        }
        loop
            invariant
                s.reader == old(s).reader,
                dirs == include_paths@.map_values(|pth: String| pth@),
                spec_file_block(b, q6, dirs) == files_concat(
                    source_files@.map_values(|sf: SourceFile| source_file_view(sf)),
                    spec_file_block(b, s.offset.0 as int, dirs),
                ),
            decreases
                    if s.offset.0 < limit {
                        limit - s.offset.0
                    } else {
                        0
                    },
        {
            let ghost cur = s.offset.0 as int;
            let ghost seen = source_files@.map_values(|sf: SourceFile| source_file_view(sf));
            if s.offset.0 >= limit as u64 {
                proof {
                    assert(spec_file_block(b, cur, dirs) is None);
                }
                return Err(ElfError::ReadOutOfBounds);
            }
            let name = match s.read_string() {
                Ok(v) => v,
                Err(e) => {
                    proof {
                        assert(spec_file_block(b, cur, dirs) is None);
                    }
                    return Err(e);
                },
            };
            proof {
                crate::reader::lemma_find_nul_bounds(b, cur);
            }
            if name.as_str().is_empty() {
                proof {
                    assert(crate::reader::find_nul(b, cur) == cur);
                    assert(spec_file_block(b, cur, dirs) == Some(
                        (Seq::<(Seq<char>, Seq<char>, Option<u64>)>::empty(), cur + 1),
                    ));
                    assert(seen + Seq::<(Seq<char>, Seq<char>, Option<u64>)>::empty() =~= seen);
                }
                break ;
            }
            proof {
                assert(crate::reader::find_nul(b, cur) != cur);
            }
            let dir_index = match s.read_uleb128() {
                Ok(v) => v,
                Err(e) => {
                    proof {
                        assert(spec_file_block(b, cur, dirs) is None);
                    }
                    return Err(e);
                },
            };
            let _mtime = match s.read_uleb128() {
                Ok(v) => v,
                Err(e) => {
                    proof {
                        assert(spec_file_block(b, cur, dirs) is None);
                    }
                    return Err(e);
                },
            };
            let length = match s.read_uleb128() {
                Ok(v) => v,
                Err(e) => {
                    proof {
                        assert(spec_file_block(b, cur, dirs) is None);
                    }
                    return Err(e);
                },
            };
            let dir = if dir_index >= 1 && dir_index <= include_paths.len() as u64 {
                include_paths[(dir_index - 1) as usize].clone()
            } else {
                String::new()
            };
            let entry = SourceFile {
                dir,
                file: name,
                length: if length == 0 {
                    None
                } else {
                    Some(length)
                },
            };
            proof {
                match spec_file_block(b, s.offset.0 as int, dirs) {
                    None => {},
                    Some((rest, e)) => {
                        assert(seen + (seq![source_file_view(entry)] + rest) =~= seen.push(
                            source_file_view(entry),
                        ) + rest);
                    },
                }
            }
            source_files.push(entry);
        }
        let unit = LineUnit { include_paths, source_files };
        proof {
            assert(hd is Some);
        }
        let ghost h = hd.unwrap();
        proof {
            assert(h.unit_end == unit_end);
            assert(h.program_start == program_start);
            assert(h.min_inst == min_inst);
            assert(h.line_range == line_range);
            assert(h.opcode_base == opcode_base);
            assert(h.std_lengths == std_lengths@);
            assert(h.include_paths == unit.include_paths@.map_values(|pth: String| pth@));
            assert(h.files == line_unit_files_view(unit));
            assert(h.line_base == if line_base_raw >= 0x80 {
                line_base_raw - 0x100
            } else {
                line_base_raw as int
            });
        }
        // Run the program from where the header declares it starts.
        s.offset = Offset(program_start);
        let r = Self::run_program(
            s,
            files,
            lines,
            &unit,
            unit_end,
            min_inst,
            line_base_raw,
            line_range,
            opcode_base,
            &std_lengths,
            Ghost(h),
        );
        units.push(unit);
        match r {
            Ok(_) => Ok(unit_end),
            Err(e) => Err(e),
        }
    }

    /// Runs one unit's line-number program, appending a row at every copy,
    /// special opcode, and end-of-sequence.
    /// Runs one unit's line-number program, appending a row at every copy,
    /// special opcode, and end-of-sequence; the rows, the file table, and
    /// whether the program ran to the unit's end are exactly what
    /// `spec_run` says of the bytes.
    /// Runs one unit's line-number program, appending a row at every copy,
    /// special opcode, and end-of-sequence; the rows, the file table, and
    /// whether the program ran to the unit's end are exactly what
    /// `spec_run` says of the bytes.
    #[verifier::rlimit(100)]
    fn run_program(
        s: &mut Stream,
        files: &mut KeyMap<FileKey>,
        lines: &mut Vec<LineEntry>,
        unit: &LineUnit,
        unit_end: u64,
        min_inst: u8,
        line_base_raw: u8,
        line_range: u8,
        opcode_base: u8,
        std_lengths: &Vec<u8>,
        Ghost(h): Ghost<LineHdr>,
    ) -> (r: Result<(), ElfError>)
        requires
            line_range >= 1,
            old(files).wf(),
            forall|j: int|
                0 <= j < old(lines)@.len() ==> 0 <= (#[trigger] old(lines)@[j]).file.key_index() < old(files)@.len(),
            h.unit_end == unit_end,
            h.min_inst == min_inst,
            h.line_base == if line_base_raw >= 0x80 {
                line_base_raw - 0x100
            } else {
                line_base_raw as int
            },
            h.line_range == line_range,
            h.opcode_base == opcode_base,
            h.std_lengths == std_lengths@,
            h.files == line_unit_files_view(*unit),
        ensures
            final(s).reader == old(s).reader,
            final(files).wf(),
            final(files)@.len() >= old(files)@.len(),
            forall|j: int|
                0 <= j < final(lines)@.len() ==> 0 <= (#[trigger] final(lines)@[j]).file.key_index() < final(files)@.len(),
            ({
                let w = spec_run(
                    old(s).reader@,
                    old(s).reader.little_endian,
                    old(s).reader.sixty_four_bit,
                    h,
                    old(s).offset.0 as int,
                    0,
                    1,
                    1,
                    0,
                    old(files)@,
                );
                &&& (r is Ok <==> w.2)
                &&& final(files)@ == w.1
                &&& (forall|k: int|
                    0 <= k < old(files)@.len() ==> final(files)@[k] == #[trigger] old(files)@[k])
                &&& final(lines)@.len() == old(lines)@.len() + w.0.len()
                &&& (forall|j: int|
                    0 <= j < old(lines)@.len() ==> final(lines)@[j] == #[trigger] old(lines)@[j])
                &&& rows_view(final(lines)@.skip(old(lines)@.len() as int), final(files)@)
                    == w.0
            }),
    {
        let ghost b = old(s).reader@;
        let ghost le = old(s).reader.little_endian;
        let ghost sfb = old(s).reader.sixty_four_bit;
        let ghost n0 = old(lines)@.len() as int;
        let ghost kt_init = old(files)@;
        let ghost whole = spec_run(b, le, sfb, h, old(s).offset.0 as int, 0, 1, 1, 0, kt_init);
        let line_base: i64 = if line_base_raw >= 0x80 {
            line_base_raw as i64 - 0x100
        } else {
            line_base_raw as i64
        };
        let mut address: u64 = 0;
        let mut file: u64 = 1;
        let mut line: i64 = 1;
        let mut column: u64 = 0;
        let limit = s.reader.len();
        proof {
            assert(lines@.skip(n0) =~= Seq::<LineEntry>::empty());
            assert(rows_view(lines@.skip(n0), files@) =~= Seq::<
                (int, Seq<char>, u32, u16),
            >::empty());
        }
        while s.offset.0 < unit_end && s.offset.0 < limit as u64
            invariant
                s.reader == old(s).reader,
                files.wf(),
                files@.len() >= kt_init.len(),
                forall|k: int| 0 <= k < kt_init.len() ==> files@[k] == #[trigger] kt_init[k],
                lines@.len() >= n0,
                forall|j: int| 0 <= j < n0 ==> lines@[j] == #[trigger] old(lines)@[j],
                forall|j: int|
                    0 <= j < lines@.len() ==> 0 <= (#[trigger] lines@[j]).file.key_index()
                        < files@.len(),
                rows_view(lines@.skip(n0), files@) + spec_run(
                    b, le, sfb, h, s.offset.0 as int, address as int, file as int,
                    line as int, column as int, files@,
                ).0 == whole.0,
                spec_run(
                    b, le, sfb, h, s.offset.0 as int, address as int, file as int,
                    line as int, column as int, files@,
                ).1 == whole.1,
                spec_run(
                    b, le, sfb, h, s.offset.0 as int, address as int, file as int,
                    line as int, column as int, files@,
                ).2 == whole.2,
            decreases
                    if s.offset.0 < limit {
                        limit - s.offset.0
                    } else {
                        0
                    },
        {
            let before_pos = s.offset.0;
            let ghost before = s.offset.0 as int;
            let ghost a0 = address as int;
            let ghost f0 = file as int;
            let ghost l0 = line as int;
            let ghost c0 = column as int;
            let ghost kt0 = files@;
            let ghost done = rows_view(lines@.skip(n0), files@);
            let ghost old_run = spec_run(b, le, sfb, h, before, a0, f0, l0, c0, kt0);
            let op = s.read_byte()?;
            let ghost p = before + 1;
            if op >= opcode_base {
                // A special opcode advances both address and line and
                // emits a row.
                let adj = (op - opcode_base) as u64;
                let q = adj / (line_range as u64);
                assert(q * (min_inst as u64) <= 0xfe01) by (nonlinear_arith)
                    requires
                        q <= 0xff,
                        min_inst <= 0xff,
                ;
                let addr_step = q * (min_inst as u64);
                address = address_add(address, addr_step);
                line = line_add(line, line_base + (adj % line_range as u64) as i64);
                let ghost pre_lines = lines@;
                Self::emit(files, lines, unit, address, file, line, column);
                proof {
                    let rk = spec_emit_row(h.files, kt0, address as int, f0, line as int, c0);
                    let nxt = spec_run(
                        b, le, sfb, h, p, address as int, f0, line as int, c0, rk.1,
                    );
                    assert(old_run == (seq![rk.0] + nxt.0, nxt.1, nxt.2));
                    lemma_rows_view_stable(pre_lines.skip(n0), kt0, files@);
                    assert(lines@.skip(n0) =~= pre_lines.skip(n0).push(
                        lines@[lines@.len() - 1],
                    ));
                    assert(rows_view(lines@.skip(n0), files@) =~= done.push(rk.0));
                    assert(done.push(rk.0) + nxt.0 =~= done + (seq![rk.0] + nxt.0));
                }
            } else if op == 0 {
                // Extended opcode: a length, then the sub-opcode.
                let len = match s.read_uleb128() {
                    Ok(v) => v,
                    Err(e) => {
                        proof {
                            assert(old_run == (
                                Seq::<(int, Seq<char>, u32, u16)>::empty(),
                                kt0,
                                false,
                            ));
                            assert(done + old_run.0 =~= done);
                        }
                        return Err(e);
                    },
                };
                proof {
                    crate::reader::lemma_uleb_at_bounds(b, p);
                }
                let after = s.offset.0;
                if len > u64::MAX - after {
                    proof {
                        assert(old_run == (
                            Seq::<(int, Seq<char>, u32, u16)>::empty(),
                            kt0,
                            false,
                        ));
                        assert(done + old_run.0 =~= done);
                    }
                    return Err(ElfError::BadRange);
                }
                let next = after + len;
                if len >= 1 {
                    let sub = match s.read_byte() {
                        Ok(v) => v,
                        Err(e) => {
                            proof {
                                assert(old_run == (
                                    Seq::<(int, Seq<char>, u32, u16)>::empty(),
                                    kt0,
                                    false,
                                ));
                                assert(done + old_run.0 =~= done);
                            }
                            return Err(e);
                        },
                    };
                    if sub == 1 {
                        // End of sequence: emit and reset the registers.
                        let ghost pre_lines = lines@;
                        Self::emit(files, lines, unit, address, file, line, column);
                        proof {
                            let rk = spec_emit_row(h.files, kt0, a0, f0, l0, c0);
                            let nxt = spec_run(b, le, sfb, h, next as int, 0, 1, 1, 0, rk.1);
                            assert(old_run == (seq![rk.0] + nxt.0, nxt.1, nxt.2));
                            lemma_rows_view_stable(pre_lines.skip(n0), kt0, files@);
                            assert(lines@.skip(n0) =~= pre_lines.skip(n0).push(
                                lines@[lines@.len() - 1],
                            ));
                            assert(rows_view(lines@.skip(n0), files@) =~= done.push(rk.0));
                            assert(done.push(rk.0) + nxt.0 =~= done + (seq![rk.0] + nxt.0));
                        }
                        address = 0;
                        file = 1;
                        line = 1;
                        column = 0;
                    } else if sub == 2 {
                        address = match s.read_addr() {
                            Ok(v) => v,
                            Err(e) => {
                                proof {
                                    assert(old_run == (
                                        Seq::<(int, Seq<char>, u32, u16)>::empty(),
                                        kt0,
                                        false,
                                    ));
                                    assert(done + old_run.0 =~= done);
                                }
                                return Err(e);
                            },
                        };
                        proof {
                            assert(old_run == spec_run(
                                b, le, sfb, h, next as int, address as int, f0, l0, c0, kt0,
                            ));
                        }
                    } else {
                        proof {
                            assert(old_run == spec_run(
                                b, le, sfb, h, next as int, a0, f0, l0, c0, kt0,
                            ));
                        }
                    }
                } else {
                    proof {
                        assert(old_run == spec_run(
                            b, le, sfb, h, next as int, a0, f0, l0, c0, kt0,
                        ));
                    }
                }
                s.offset = Offset(next);
            } else if op == 1 {
                let ghost pre_lines = lines@;
                Self::emit(files, lines, unit, address, file, line, column);
                proof {
                    let rk = spec_emit_row(h.files, kt0, a0, f0, l0, c0);
                    let nxt = spec_run(b, le, sfb, h, p, a0, f0, l0, c0, rk.1);
                    assert(old_run == (seq![rk.0] + nxt.0, nxt.1, nxt.2));
                    lemma_rows_view_stable(pre_lines.skip(n0), kt0, files@);
                    assert(lines@.skip(n0) =~= pre_lines.skip(n0).push(
                        lines@[lines@.len() - 1],
                    ));
                    assert(rows_view(lines@.skip(n0), files@) =~= done.push(rk.0));
                    assert(done.push(rk.0) + nxt.0 =~= done + (seq![rk.0] + nxt.0));
                }
            } else if op == 2 {
                let step = match s.read_uleb128() {
                    Ok(v) => v,
                    Err(e) => {
                        proof {
                            assert(old_run == (
                                Seq::<(int, Seq<char>, u32, u16)>::empty(),
                                kt0,
                                false,
                            ));
                            assert(done + old_run.0 =~= done);
                        }
                        return Err(e);
                    },
                };
                proof {
                    crate::reader::lemma_uleb_at_bounds(b, p);
                }
                address = address_add(address, wrap_mul(step, min_inst as u64));
            } else if op == 3 {
                let delta = match s.read_sleb128() {
                    Ok(v) => v,
                    Err(e) => {
                        proof {
                            assert(old_run == (
                                Seq::<(int, Seq<char>, u32, u16)>::empty(),
                                kt0,
                                false,
                            ));
                            assert(done + old_run.0 =~= done);
                        }
                        return Err(e);
                    },
                };
                proof {
                    crate::reader::lemma_sleb_at_bounds(b, p);
                }
                line = line_add(line, delta);
            } else if op == 4 {
                file = match s.read_uleb128() {
                    Ok(v) => v,
                    Err(e) => {
                        proof {
                            assert(old_run == (
                                Seq::<(int, Seq<char>, u32, u16)>::empty(),
                                kt0,
                                false,
                            ));
                            assert(done + old_run.0 =~= done);
                        }
                        return Err(e);
                    },
                };
                proof {
                    crate::reader::lemma_uleb_at_bounds(b, p);
                }
            } else if op == 5 {
                column = match s.read_uleb128() {
                    Ok(v) => v,
                    Err(e) => {
                        proof {
                            assert(old_run == (
                                Seq::<(int, Seq<char>, u32, u16)>::empty(),
                                kt0,
                                false,
                            ));
                            assert(done + old_run.0 =~= done);
                        }
                        return Err(e);
                    },
                };
                proof {
                    crate::reader::lemma_uleb_at_bounds(b, p);
                }
            } else if op == 8 {
                let adj = (0xff - opcode_base) as u64;
                let q = adj / (line_range as u64);
                assert(q * (min_inst as u64) <= 0xfe01) by (nonlinear_arith)
                    requires
                        q <= 0xff,
                        min_inst <= 0xff,
                ;
                let addr_step = q * (min_inst as u64);
                address = address_add(address, addr_step);
            } else if op == 9 {
                let step = match s.read_half() {
                    Ok(v) => v,
                    Err(e) => {
                        proof {
                            assert(old_run == (
                                Seq::<(int, Seq<char>, u32, u16)>::empty(),
                                kt0,
                                false,
                            ));
                            assert(done + old_run.0 =~= done);
                        }
                        return Err(e);
                    },
                };
                address = address_add(address, step as u64);
            } else {
                // The remaining standard opcodes carry only operands the
                // walk does not use: skip as many operands as declared.
                let count = if (op as usize) <= std_lengths.len() && op >= 1 {
                    std_lengths[(op - 1) as usize]
                } else {
                    0
                };
                let mut c: u8 = 0;
                while c < count
                    invariant
                        s.reader == old(s).reader,
                        c <= count,
                        s.offset.0 >= p,
                        spec_skip_ulebs(b, p, count as int) == spec_skip_ulebs(
                            b,
                            s.offset.0 as int,
                            count - c,
                        ),
                    decreases count - c,
                {
                    let _operand = match s.read_uleb128() {
                        Ok(v) => v,
                        Err(e) => {
                            proof {
                                assert(spec_skip_ulebs(b, p, count as int) is None);
                                assert(old_run == (
                                    Seq::<(int, Seq<char>, u32, u16)>::empty(),
                                    kt0,
                                    false,
                                ));
                                assert(done + old_run.0 =~= done);
                            }
                            return Err(e);
                        },
                    };
                    proof {
                        crate::reader::lemma_uleb_at_bounds(
                            b,
                            s.offset.0 as int - 0,
                        );
                    }
                    c = c + 1;
                }
                proof {
                    assert(spec_skip_ulebs(b, s.offset.0 as int, 0) == Some(
                        s.offset.0 as int,
                    ));
                    assert(old_run == spec_run(
                        b, le, sfb, h, s.offset.0 as int, a0, f0, l0, c0, kt0,
                    ));
                }
            }
            if s.offset.0 <= before_pos {
                proof {
                    assert(false);
                }
                return Err(ElfError::ReadOutOfBounds);
            }
        }
        proof {
            assert(spec_run(
                b, le, sfb, h, s.offset.0 as int, address as int, file as int, line as int,
                column as int, files@,
            ).0 =~= Seq::<(int, Seq<char>, u32, u16)>::empty());
        }
        Ok(())
    }

    /// Appends one row, resolving the file register to a name in the
    /// unit's table (or the placeholder) and a compact key.
    fn emit(
        files: &mut KeyMap<FileKey>,
        lines: &mut Vec<LineEntry>,
        unit: &LineUnit,
        address: u64,
        file: u64,
        line: i64,
        column: u64,
    )
        requires
            old(files).wf(),
            forall|j: int|
                0 <= j < old(lines)@.len() ==> 0 <= (#[trigger] old(lines)@[j]).file.key_index() < old(files)@.len(),
        ensures
            final(files).wf(),
            ({
                let (row, ktab2) = spec_emit_row(
                    line_unit_files_view(*unit),
                    old(files)@,
                    address as int,
                    file as int,
                    line as int,
                    column as int,
                );
                &&& final(files)@ == ktab2
                &&& final(files)@.len() >= old(files)@.len()
                &&& (forall|k: int|
                    0 <= k < old(files)@.len() ==> final(files)@[k] == #[trigger] old(files)@[k])
                &&& final(lines)@.len() == old(lines)@.len() + 1
                &&& (forall|j: int|
                    0 <= j < old(lines)@.len() ==> final(lines)@[j] == #[trigger] old(lines)@[j])
                &&& row_view(final(lines)@[old(lines)@.len() as int], final(files)@) == row
            }),
            forall|j: int|
                0 <= j < final(lines)@.len() ==> 0 <= (#[trigger] final(lines)@[j]).file.key_index() < final(files)@.len(),
    {
        let name = if file >= 1 && file <= unit.source_files.len() as u64 {
            unit.source_files[(file - 1) as usize].file.clone()
        } else {
            unknown_file()
        };
        proof {
            assert(name@ == spec_resolve_file(line_unit_files_view(*unit), file as int));
        }
        let ghost kt0 = files@;
        let ghost namev = name@;
        let key = files.insert(name);
        proof {
            crate::key_map::lemma_find_value(kt0, namev);
            assert(files@ =~= spec_insert_name(kt0, namev));
            assert(files@[key.key_index()] == spec_row_name(kt0, namev));
        }
        let entry = LineEntry {
            addr: RelativeAddr(address),
            file: key,
            line: clamp_line(line),
            column: #[verifier::truncate] (column as u16),
        };
        lines.push(entry);
    }
}

/// The placeholder name for rows whose file register does not resolve.
fn unknown_file() -> (r: String)
    ensures
        r@ == "?"@,
{
    String::from_str("?")
}

/// Saturating add for the address register.
fn address_add(a: u64, b: u64) -> (r: u64)
    ensures
        r == if a + b <= u64::MAX {
            a + b
        } else {
            u64::MAX as int
        },
{
    if b > u64::MAX - a {
        u64::MAX
    } else {
        a + b
    }
}

/// Saturating multiply for address steps.
fn wrap_mul(a: u64, b: u64) -> (r: u64)
    ensures
        r == spec_sat_mul(a as int, b as int),
{
    if b == 0 {
        return 0;
    }
    if a > u64::MAX / b {
        proof {
            assert(a * b > u64::MAX) by (nonlinear_arith)
                requires
                    b >= 1,
                    a > u64::MAX as u64 / b,
            ;
        }
        return u64::MAX;
    }
    assert(a * b <= u64::MAX) by (nonlinear_arith)
        requires
            b >= 1,
            a <= u64::MAX as u64 / b,
    ;
    a * b
}

/// The product, saturated to 64 bits.
pub open spec fn spec_sat_mul(a: int, b: int) -> int {
    if a * b <= u64::MAX {
        a * b
    } else {
        u64::MAX as int
    }
}

/// The sum, saturated to 64 bits.
pub open spec fn spec_sat_add(a: int, b: int) -> int {
    if a + b <= u64::MAX {
        a + b
    } else {
        u64::MAX as int
    }
}

/// The signed sum, saturated to 64 bits.
pub open spec fn spec_sat_add_i(a: int, b: int) -> int {
    if a + b > i64::MAX {
        i64::MAX as int
    } else if a + b < i64::MIN {
        i64::MIN as int
    } else {
        a + b
    }
}

/// A row's line number: negative values clamp to zero, large values to
/// the field's maximum.
pub open spec fn spec_clamp_line(line: int) -> int {
    if line < 0 {
        0
    } else if line > u32::MAX {
        u32::MAX as int
    } else {
        line
    }
}

/// Saturating add for the signed line register.
fn line_add(a: i64, b: i64) -> (r: i64)
    ensures
        r == spec_sat_add_i(a as int, b as int),
{
    if b >= 0 {
        if a > i64::MAX - b {
            i64::MAX
        } else {
            a + b
        }
    } else {
        if a < i64::MIN - b {
            i64::MIN
        } else {
            a + b
        }
    }
}

/// A row's line number: negative values clamp to zero.
fn clamp_line(line: i64) -> (r: u32)
    ensures
        r == spec_clamp_line(line as int),
{
    if line < 0 {
        0
    } else if line > u32::MAX as i64 {
        u32::MAX
    } else {
        line as u32
    }
}

} // verus!
