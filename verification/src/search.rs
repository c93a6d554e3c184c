//! Searching the raw bytes of an image for a pattern, and turning the
//! user's text or hex input into the pattern to search for.

use vstd::prelude::*;
use vstd::string::StringSliceAdditionalSpecFns;
use crate::ElfError;
use crate::elf_file::{ElfFile, spec_find_load_by_offset};
use crate::ranges::{Coord, Offset, VirtualAddr};
use crate::segments::LoadSegment;

verus! {

/// Whether the pattern occurs at position `i` of the buffer.
pub open spec fn spec_matches_at(b: Seq<u8>, i: int, pat: Seq<u8>) -> bool {
    &&& 0 <= i
    &&& i + pat.len() <= b.len()
    &&& forall|k: int| 0 <= k < pat.len() ==> b[i + k] == #[trigger] pat[k]
}

/// The virtual addresses of the pattern's occurrences inside one load
/// segment, scanning segment-relative positions `i` while a whole pattern
/// plus one byte still fits; a hit advances by the pattern length, a miss
/// by one.
pub open spec fn spec_seg_matches(
    b: Seq<u8>,
    ostart: int,
    vstart: int,
    size: int,
    i: int,
    pat: Seq<u8>,
) -> Seq<int>
    decreases size - i,
{
    if pat.len() == 0 || i < 0 || i + pat.len() >= size {
        Seq::empty()
    } else if spec_matches_at(b, ostart + i, pat) {
        seq![vstart + i] + spec_seg_matches(b, ostart, vstart, size, i + pat.len(), pat)
    } else {
        seq![] + spec_seg_matches(b, ostart, vstart, size, i + 1, pat)
    }
}

/// The occurrences across a list of load segments, in segment order.
pub open spec fn spec_loads_matches(b: Seq<u8>, loads: Seq<LoadSegment>, pat: Seq<u8>) -> Seq<int>
    decreases loads.len(),
{
    if loads.len() == 0 {
        Seq::empty()
    } else {
        spec_seg_matches(
            b,
            loads[0].obytes.start.0 as int,
            loads[0].vbytes.start.0 as int,
            loads[0].obytes.size as int,
            0,
            pat,
        ) + spec_loads_matches(b, loads.drop_first(), pat)
    }
}

/// Searches the load segments of a file for a byte pattern, returning the
/// virtual addresses of the occurrences; at most `max_results` of them
/// when `max_results` is nonzero.
pub fn find_in_load_segments(file: &ElfFile, bytes: &Vec<u8>, max_results: usize) -> (r: Vec<
    VirtualAddr,
>)
    requires
        file.tables_wf(),
    ensures
        ({
            let all = spec_loads_matches(file.reader@, file.loads@, bytes@);
            r@.map_values(|v: VirtualAddr| v.0 as int) == if 0 < max_results < all.len() {
                all.take(max_results as int)
            } else {
                all
            }
        }),
{
    let ghost b = file.reader@;
    let ghost pat = bytes@;
    let ghost allv = spec_loads_matches(b, file.loads@, pat);
    let mut result: Vec<VirtualAddr> = Vec::new();
    let n = file.loads.len();
    let mut j: usize = 0;
    proof {
        assert(result@.map_values(|v: VirtualAddr| v.0 as int) + spec_loads_matches(
            b,
            file.loads@.subrange(0, n as int),
            pat,
        ) =~= allv) by {
            assert(file.loads@.subrange(0, n as int) =~= file.loads@);
        }
    }
    while j < n
        invariant
            j <= n,
            n == file.loads@.len(),
            file.tables_wf(),
            max_results > 0 ==> result@.len() < max_results,
            result@.map_values(|v: VirtualAddr| v.0 as int) + spec_loads_matches(
                b,
                file.loads@.subrange(j as int, n as int),
                pat,
            ) == allv,
        decreases n - j,
    {
        let ghost rest = file.loads@.subrange(j as int, n as int);
        let ghost pre = result@.map_values(|v: VirtualAddr| v.0 as int);
        let seg = file.loads[j];
        proof {
            assert(rest[0] == seg);
        }
        let done = search_segment(file, &seg, bytes, max_results, &mut result);
        j = j + 1;
        proof {
            assert(rest.drop_first() =~= file.loads@.subrange(j as int, n as int));
        }
        if done {
            proof {
                let views = result@.map_values(|v: VirtualAddr| v.0 as int);
                let here = spec_seg_matches(
                    b,
                    seg.obytes.start.0 as int,
                    seg.vbytes.start.0 as int,
                    seg.obytes.size as int,
                    0,
                    pat,
                );
                let tail = spec_loads_matches(b, file.loads@.subrange(j as int, n as int), pat);
                let full = pre + here;
                assert(spec_loads_matches(b, rest, pat) =~= here + tail);
                assert(allv =~= full + tail);
                assert(views.len() == max_results);
                assert(views =~= full.take(max_results as int));
                assert(max_results <= full.len());
                assert forall|k: int| 0 <= k < max_results implies allv.take(
                    max_results as int,
                )[k] == views[k] by {
                    assert(allv[k] == full[k]);
                    assert(views[k] == full[k]);
                }
                assert(allv.take(max_results as int) =~= views);
                assert(max_results < allv.len() || views =~= allv);
            }
            return result;
        }
    }
    proof {
        assert(spec_loads_matches(b, file.loads@.subrange(n as int, n as int), pat) =~= Seq::<
            int,
        >::empty());
        assert(result@.map_values(|v: VirtualAddr| v.0 as int) =~= result@.map_values(
            |v: VirtualAddr| v.0 as int,
        ) + Seq::<int>::empty());
        if max_results > 0 && allv.len() > max_results {
            assert(result@.len() < max_results);
            assert(false);
        }
    }
    result
}

/// Scans one segment, appending hits until the result limit is reached;
/// returns whether the limit was hit.
fn search_segment(
    file: &ElfFile,
    seg: &LoadSegment,
    bytes: &Vec<u8>,
    max_results: usize,
    result: &mut Vec<VirtualAddr>,
) -> (done: bool)
    requires
        seg.wf(),
        max_results > 0 ==> old(result)@.len() < max_results,
    ensures
        ({
            let here = spec_seg_matches(
                file.reader@,
                seg.obytes.start.0 as int,
                seg.vbytes.start.0 as int,
                seg.obytes.size as int,
                0,
                bytes@,
            );
            let full = old(result)@.map_values(|v: VirtualAddr| v.0 as int) + here;
            &&& (!done ==> final(result)@.map_values(|v: VirtualAddr| v.0 as int) == full
                && (max_results > 0 ==> final(result)@.len() < max_results))
            &&& (done ==> max_results > 0 && final(result)@.len() == max_results && full.len()
                >= max_results && final(result)@.map_values(|v: VirtualAddr| v.0 as int)
                == full.take(max_results as int))
        }),
{
    let ghost b = file.reader@;
    let ghost pat = bytes@;
    let ghost ostart = seg.obytes.start.0 as int;
    let ghost vstart = seg.vbytes.start.0 as int;
    let ghost size = seg.obytes.size as int;
    let ghost base = old(result)@.map_values(|v: VirtualAddr| v.0 as int);
    let ghost full = base + spec_seg_matches(b, ostart, vstart, size, 0, pat);
    let plen = bytes.len();
    if plen == 0 {
        proof {
            assert(spec_seg_matches(b, ostart, vstart, size, 0, pat) =~= Seq::<int>::empty());
            assert(base =~= base + Seq::<int>::empty());
        }
        return false;
    }
    let mut i: u64 = 0;
    while i <= u64::MAX - (plen as u64) && i + (plen as u64) < seg.obytes.size
        invariant
            plen == pat.len(),
            plen >= 1,
            seg.wf(),
            i >= 0,
            max_results > 0 ==> result@.len() < max_results,
            result@.map_values(|v: VirtualAddr| v.0 as int) + spec_seg_matches(
                b,
                ostart,
                vstart,
                size,
                i as int,
                pat,
            ) == full,
        decreases size - i,
    {
        let ghost cur = i as int;
        proof {
            assert(spec_seg_matches(b, ostart, vstart, size, cur, pat) =~= (
            if spec_matches_at(b, ostart + cur, pat) {
                seq![vstart + cur]
            } else {
                Seq::<int>::empty()
            }) + spec_seg_matches(
                b,
                ostart,
                vstart,
                size,
                if spec_matches_at(b, ostart + cur, pat) {
                    cur + plen
                } else {
                    cur + 1
                },
                pat,
            ));
        }
        if match_bytes(file, seg.obytes.start.0 + i, bytes) {
            let ghost pre = result@.map_values(|v: VirtualAddr| v.0 as int);
            result.push(VirtualAddr(seg.vbytes.start.0 + i));
            proof {
                assert(result@.map_values(|v: VirtualAddr| v.0 as int) =~= pre.push(
                    vstart + cur,
                ));
                assert(pre.push(vstart + cur) + spec_seg_matches(
                    b,
                    ostart,
                    vstart,
                    size,
                    cur + plen,
                    pat,
                ) =~= pre + (seq![vstart + cur] + spec_seg_matches(
                    b,
                    ostart,
                    vstart,
                    size,
                    cur + plen,
                    pat,
                )));
            }
            if max_results > 0 && result.len() == max_results {
                proof {
                    lemma_prefix_take(
                        result@.map_values(|v: VirtualAddr| v.0 as int),
                        spec_seg_matches(b, ostart, vstart, size, cur + plen, pat),
                        full,
                    );
                }
                return true;
            }
            i = i + plen as u64;
        } else {
            i = i + 1;
        }
    }
    proof {
        assert(spec_seg_matches(b, ostart, vstart, size, i as int, pat) =~= Seq::<int>::empty());
        assert(result@.map_values(|v: VirtualAddr| v.0 as int) =~= result@.map_values(
            |v: VirtualAddr| v.0 as int,
        ) + Seq::<int>::empty());
    }
    false
}

/// Whether the bytes at `offset` equal the pattern.
fn match_bytes(file: &ElfFile, offset: u64, bytes: &Vec<u8>) -> (r: bool)
    ensures
        r == spec_matches_at(file.reader@, offset as int, bytes@),
{
    let n = file.reader.len();
    if bytes.len() as u64 > n as u64 || offset > (n - bytes.len()) as u64 {
        return false;
    }
    let mut k: usize = 0;
    while k < bytes.len()
        invariant
            offset + bytes@.len() <= file.reader@.len(),
            k <= bytes@.len(),
            forall|kk: int| 0 <= kk < k ==> file.reader@[offset + kk] == #[trigger] bytes@[kk],
        decreases bytes.len() - k,
    {
        match file.reader.read_byte(Offset(offset + k as u64)) {
            Ok(byte) => {
                if byte != bytes[k] {
                    return false;
                }
            },
            Err(_) => {
                return false;
            },
        }
        k = k + 1;
    }
    true
}

/// A list that concatenates with a tail to a whole is the whole's prefix
/// of its own length.
proof fn lemma_prefix_take(a: Seq<int>, tail: Seq<int>, whole: Seq<int>)
    requires
        a + tail == whole,
    ensures
        a == whole.take(a.len() as int),
        whole.len() >= a.len(),
{
    assert(whole.take(a.len() as int) =~= a);
}

/// The positions where the pattern occurs anywhere in the file, split into
/// those inside a load segment (as virtual addresses) and the rest (as
/// file offsets); a hit advances by the pattern length, a miss by one.
pub open spec fn spec_scan_split(
    b: Seq<u8>,
    loads: Seq<LoadSegment>,
    i: int,
    pat: Seq<u8>,
) -> (Seq<int>, Seq<int>)
    decreases b.len() - i,
{
    if pat.len() == 0 || i < 0 || i + pat.len() >= b.len() {
        (Seq::empty(), Seq::empty())
    } else if spec_matches_at(b, i, pat) {
        let rest = spec_scan_split(b, loads, i + pat.len(), pat);
        match spec_find_load_by_offset(loads, i as u64) {
            Some(seg) => (
                seq![seg.vbytes.start.0 + (i - seg.obytes.start.0)] + rest.0,
                rest.1,
            ),
            None => (rest.0, seq![i] + rest.1),
        }
    } else {
        spec_scan_split(b, loads, i + 1, pat)
    }
}

/// Searches every byte of the file, covering bytes outside any load
/// segment too: occurrences inside a segment come back as virtual
/// addresses, the rest as plain file offsets.
pub fn find_everywhere(file: &ElfFile, bytes: &Vec<u8>) -> (r: (Vec<VirtualAddr>, Vec<Offset>))
    requires
        file.tables_wf(),
    ensures
        ({
            let split = spec_scan_split(file.reader@, file.loads@, 0, bytes@);
            &&& r.0@.map_values(|v: VirtualAddr| v.0 as int) == split.0
            &&& r.1@.map_values(|o: Offset| o.0 as int) == split.1
        }),
{
    let ghost b = file.reader@;
    let ghost pat = bytes@;
    let ghost split = spec_scan_split(b, file.loads@, 0, pat);
    let mut addrs: Vec<VirtualAddr> = Vec::new();
    let mut offs: Vec<Offset> = Vec::new();
    let len = file.reader.len();
    let plen = bytes.len();
    if plen == 0 {
        proof {
            assert(split.0 =~= Seq::<int>::empty());
            assert(split.1 =~= Seq::<int>::empty());
            assert(addrs@.map_values(|v: VirtualAddr| v.0 as int) =~= split.0);
            assert(offs@.map_values(|o: Offset| o.0 as int) =~= split.1);
        }
        return (addrs, offs);
    }
    let mut i: u64 = 0;
    proof {
        assert(addrs@.map_values(|v: VirtualAddr| v.0 as int) + spec_scan_split(
            b,
            file.loads@,
            0,
            pat,
        ).0 =~= split.0);
        assert(offs@.map_values(|o: Offset| o.0 as int) + spec_scan_split(
            b,
            file.loads@,
            0,
            pat,
        ).1 =~= split.1);
    }
    while i <= u64::MAX - (plen as u64) && i + (plen as u64) < len as u64
        invariant
            plen == pat.len(),
            plen >= 1,
            file.tables_wf(),
            len == b.len(),
            i >= 0,
            addrs@.map_values(|v: VirtualAddr| v.0 as int) + spec_scan_split(
                b,
                file.loads@,
                i as int,
                pat,
            ).0 == split.0,
            offs@.map_values(|o: Offset| o.0 as int) + spec_scan_split(
                b,
                file.loads@,
                i as int,
                pat,
            ).1 == split.1,
        decreases len - i,
    {
        let ghost cur = i as int;
        if match_bytes(file, i, bytes) {
            let ghost pre_a = addrs@.map_values(|v: VirtualAddr| v.0 as int);
            let ghost pre_o = offs@.map_values(|o: Offset| o.0 as int);
            match file.offset_to_vaddr(Offset(i)) {
                Some((seg2, vaddr)) => {
                    addrs.push(vaddr);
                    proof {
                        assert(spec_find_load_by_offset(file.loads@, cur as u64) == Some(seg2));
                        crate::elf_file::lemma_find_load_by_offset_wf(file.loads@, cur as u64);
                        assert(vaddr.0 as int == seg2.vbytes.start.0 + (cur
                            - seg2.obytes.start.0));
                        assert(spec_scan_split(b, file.loads@, cur, pat).0 == seq![
                            vaddr.0 as int,
                        ] + spec_scan_split(b, file.loads@, cur + plen, pat).0);
                        assert(spec_scan_split(b, file.loads@, cur, pat).1 == spec_scan_split(
                            b,
                            file.loads@,
                            cur + plen,
                            pat,
                        ).1);
                        assert(addrs@.map_values(|v: VirtualAddr| v.0 as int) =~= pre_a.push(
                            vaddr.0 as int,
                        ));
                        assert(pre_a.push(vaddr.0 as int) + spec_scan_split(
                            b,
                            file.loads@,
                            cur + plen,
                            pat,
                        ).0 =~= pre_a + (seq![vaddr.0 as int] + spec_scan_split(
                            b,
                            file.loads@,
                            cur + plen,
                            pat,
                        ).0));
                    }
                },
                None => {
                    offs.push(Offset(i));
                    proof {
                        assert(spec_find_load_by_offset(file.loads@, cur as u64) is None);
                        assert(spec_scan_split(b, file.loads@, cur, pat).1 == seq![cur]
                            + spec_scan_split(b, file.loads@, cur + plen, pat).1);
                        assert(spec_scan_split(b, file.loads@, cur, pat).0 == spec_scan_split(
                            b,
                            file.loads@,
                            cur + plen,
                            pat,
                        ).0);
                        assert(offs@.map_values(|o: Offset| o.0 as int) =~= pre_o.push(cur));
                        assert(pre_o.push(cur) + spec_scan_split(
                            b,
                            file.loads@,
                            cur + plen,
                            pat,
                        ).1 =~= pre_o + (seq![cur] + spec_scan_split(
                            b,
                            file.loads@,
                            cur + plen,
                            pat,
                        ).1));
                    }
                },
            }
            i = i + plen as u64;
        } else {
            i = i + 1;
        }
    }
    proof {
        assert(spec_scan_split(b, file.loads@, i as int, pat).0 =~= Seq::<int>::empty());
        assert(spec_scan_split(b, file.loads@, i as int, pat).1 =~= Seq::<int>::empty());
        assert(addrs@.map_values(|v: VirtualAddr| v.0 as int) =~= addrs@.map_values(
            |v: VirtualAddr| v.0 as int,
        ) + Seq::<int>::empty());
        assert(offs@.map_values(|o: Offset| o.0 as int) =~= offs@.map_values(
            |o: Offset| o.0 as int,
        ) + Seq::<int>::empty());
    }
    (addrs, offs)
}

/// The value of an ASCII hex digit, or nothing.
pub open spec fn spec_hex_digit(c: u8) -> Option<u8> {
    if 0x30 <= c <= 0x39 {
        Some((c - 0x30) as u8)
    } else if 0x61 <= c <= 0x66 {
        Some((c - 0x57) as u8)
    } else if 0x41 <= c <= 0x46 {
        Some((c - 0x37) as u8)
    } else {
        None
    }
}

/// The bytes a hex string denotes: pairs of hex digits with spaces freely
/// between pairs, or nothing when the string is malformed.
pub open spec fn spec_hex_bytes(u: Seq<u8>, i: int) -> Option<Seq<u8>>
    decreases u.len() - i,
{
    if i < 0 {
        None
    } else if i >= u.len() {
        Some(Seq::empty())
    } else if u[i] == 0x20 {
        spec_hex_bytes(u, i + 1)
    } else if i + 1 < u.len() && spec_hex_digit(u[i]) is Some && spec_hex_digit(u[i + 1])
        is Some {
        match spec_hex_bytes(u, i + 2) {
            None => None,
            Some(rest) => Some(
                seq![
                    (spec_hex_digit(u[i]).unwrap() * 16 + spec_hex_digit(
                        u[i + 1],
                    ).unwrap()) as u8,
                ] + rest,
            ),
        }
    } else {
        None
    }
}

/// Turns a string of hex byte pairs, with optional spaces between pairs,
/// into the bytes it denotes.
pub fn byte_str_to_vec(text: &str) -> (r: Result<Vec<u8>, ElfError>)
    ensures
        r is Ok <==> spec_hex_bytes(text.spec_bytes(), 0) is Some,
        r matches Ok(v) ==> Some(v@) == spec_hex_bytes(text.spec_bytes(), 0),
        r is Err ==> r->Err_0 == ElfError::BadHexString,
{
    let u = vstd::slice::slice_to_vec(text.as_bytes());
    let ghost ub = text.spec_bytes();
    let mut result: Vec<u8> = Vec::new();
    let mut i: usize = 0;
    let n = u.len();
    proof {
        assert(opt_bytes_concat(result@, spec_hex_bytes(ub, 0)) == spec_hex_bytes(ub, 0)) by {
            match spec_hex_bytes(ub, 0) {
                None => {},
                Some(rest) => {
                    assert(result@ + rest =~= rest);
                },
            }
        }
    }
    while i < n
        invariant
            n == ub.len(),
            u@ == ub,
            i <= n,
            spec_hex_bytes(ub, 0) == opt_bytes_concat(result@, spec_hex_bytes(ub, i as int)),
        decreases n - i,
    {
        if u[i] == 0x20 {
            i = i + 1;
        } else {
            if i + 1 < n {
                let d1 = hex_digit(u[i]);
                let d2 = hex_digit(u[i + 1]);
                match (d1, d2) {
                    (Some(h1), Some(h2)) => {
                        let ghost pre = result@;
                        result.push(h1 * 16 + h2);
                        proof {
                            match spec_hex_bytes(ub, i + 2) {
                                None => {},
                                Some(rest) => {
                                    assert(pre + (seq![(h1 * 16 + h2) as u8] + rest) =~= pre.push(
                                        (h1 * 16 + h2) as u8,
                                    ) + rest);
                                },
                            }
                        }
                        i = i + 2;
                    },
                    _ => {
                        return Err(ElfError::BadHexString);
                    },
                }
            } else {
                return Err(ElfError::BadHexString);
            }
        }
    }
    proof {
        assert(spec_hex_bytes(ub, n as int) == Some(Seq::<u8>::empty()));
        assert(result@ + Seq::<u8>::empty() =~= result@);
    }
    Ok(result)
}

/// Prepends already-decoded bytes to a pending tail of bytes.
pub open spec fn opt_bytes_concat(a: Seq<u8>, o: Option<Seq<u8>>) -> Option<Seq<u8>> {
    match o {
        None => None,
        Some(r) => Some(a + r),
    }
}

/// The value of an ASCII hex digit.
fn hex_digit(c: u8) -> (r: Option<u8>)
    ensures
        r == spec_hex_digit(c),
{
    if 0x30 <= c && c <= 0x39 {
        Some(c - 0x30)
    } else if 0x61 <= c && c <= 0x66 {
        Some(c - 0x57)
    } else if 0x41 <= c && c <= 0x46 {
        Some(c - 0x37)
    } else {
        None
    }
}

/// The bytes a search string denotes: its UTF-8 encoding.
pub fn ascii_str_to_vec(text: &str) -> (r: Vec<u8>)
    ensures
        r@ == text.spec_bytes(),
{
    vstd::slice::slice_to_vec(text.as_bytes())
}


/// The value of a run of decimal or hex digits, or nothing when the run
/// is empty, holds a stray character, or overflows 64 bits.
pub open spec fn spec_digits_value(u: Seq<u8>, i: int, radix: int, acc: int) -> Option<int>
    decreases u.len() - i,
{
    if i < 0 || radix <= 0 {
        None
    } else if i >= u.len() {
        Some(acc)
    } else {
        match spec_hex_digit(u[i]) {
            Some(d) => {
                if d < radix && acc * radix + d < 0x1_0000_0000_0000_0000 {
                    spec_digits_value(u, i + 1, radix, acc * radix + d)
                } else {
                    None
                }
            },
            None => None,
        }
    }
}

/// The number a command argument denotes: hex after a `0x` prefix,
/// decimal otherwise.
pub open spec fn spec_parse_u64(u: Seq<u8>) -> Option<int> {
    if u.len() >= 2 && u[0] == 0x30 && u[1] == 0x78 {
        if u.len() == 2 {
            None
        } else {
            spec_digits_value(u, 2, 16, 0)
        }
    } else if u.len() == 0 {
        None
    } else {
        spec_digits_value(u, 0, 10, 0)
    }
}

/// Parses a command argument as a hex number after a `0x` prefix or as a
/// decimal number otherwise.
pub fn parse_u64_expr(text: &str) -> (r: Result<u64, ElfError>)
    ensures
        r is Ok <==> spec_parse_u64(text.spec_bytes()) is Some,
        r matches Ok(v) ==> Some(v as int) == spec_parse_u64(text.spec_bytes()),
        r is Err ==> r->Err_0 == ElfError::BadNumber,
{
    let u = vstd::slice::slice_to_vec(text.as_bytes());
    let ghost ub = text.spec_bytes();
    let n = u.len();
    let (mut i, radix): (usize, u64) = if n >= 2 && u[0] == 0x30 && u[1] == 0x78 {
        if n == 2 {
            return Err(ElfError::BadNumber);
        }
        (2, 16)
    } else {
        if n == 0 {
            return Err(ElfError::BadNumber);
        }
        (0, 10)
    };
    let mut value: u64 = 0;
    while i < n
        invariant
            u@ == ub,
            n == ub.len(),
            i <= n,
            radix == 16 || radix == 10,
            spec_parse_u64(ub) == spec_digits_value(ub, i as int, radix as int, value as int),
        decreases n - i,
    {
        let d = match hex_digit(u[i]) {
            Some(d) => d,
            None => {
                return Err(ElfError::BadNumber);
            },
        };
        if (d as u64) >= radix {
            return Err(ElfError::BadNumber);
        }
        if value > (u64::MAX - d as u64) / radix {
            proof {
                assert((value as int) * (radix as int) + d >= 0x1_0000_0000_0000_0000) by (
                nonlinear_arith)
                    requires
                        radix == 16 || radix == 10,
                        value as int > ((u64::MAX - d as u64) as int) / (radix as int),
                        0 <= (d as u64) < radix,
                ;
            }
            return Err(ElfError::BadNumber);
        }
        proof {
            assert((value as int) * (radix as int) + d < 0x1_0000_0000_0000_0000) by (
            nonlinear_arith)
                requires
                    radix == 16 || radix == 10,
                    value as int <= ((u64::MAX - d as u64) as int) / (radix as int),
                    0 <= (d as u64) < radix,
            ;
        }
        value = value * radix + d as u64;
        i = i + 1;
    }
    Ok(value)
}

} // verus!
