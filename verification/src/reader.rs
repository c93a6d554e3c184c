//! Byte-level access to an ELF image.
//!
//! `Reader` owns the file bytes and provides endian- and bitness-aware
//! primitive reads; `Stream` wraps a reader with a position that advances by
//! exactly the number of bytes each read consumes.  Core files are sometimes
//! truncated or corrupted, so every read is bounds-checked and returns a
//! `Result` instead of panicking.

use vstd::prelude::*;
use crate::ElfError;
use crate::ranges::Offset;

verus! {

/// The little-endian value of the `n` bytes starting at `b[i]`: the first
/// byte is the least significant.
pub open spec fn le_at(b: Seq<u8>, i: int, n: nat) -> int
    decreases n,
{
    if n == 0 {
        0
    } else {
        b[i] + 0x100 * le_at(b, i + 1, (n - 1) as nat)
    }
}

/// The big-endian value of the `n` bytes starting at `b[i]`: the last byte
/// is the least significant.
pub open spec fn be_at(b: Seq<u8>, i: int, n: nat) -> int
    decreases n,
{
    if n == 0 {
        0
    } else {
        0x100 * be_at(b, i, (n - 1) as nat) + b[i + n - 1]
    }
}

/// `256^n`, the number of values `n` bytes can take.
pub open spec fn pow256(n: nat) -> int
    decreases n,
{
    if n == 0 {
        1
    } else {
        256 * pow256((n - 1) as nat)
    }
}

/// The value of the `n` bytes at `b[i]` under the given byte order.
pub open spec fn word_at(b: Seq<u8>, i: int, n: nat, little_endian: bool) -> int {
    if little_endian {
        le_at(b, i, n)
    } else {
        be_at(b, i, n)
    }
}

/// A multi-byte value is bounded by the number of bytes that encode it.
pub proof fn lemma_le_at_bound(b: Seq<u8>, i: int, n: nat)
    requires
        0 <= i,
        i + n <= b.len(),
    ensures
        0 <= le_at(b, i, n) < pow256(n),
    decreases n,
{
    if n > 0 {
        lemma_le_at_bound(b, i + 1, (n - 1) as nat);
    }
}

/// A multi-byte value is bounded by the number of bytes that encode it.
pub proof fn lemma_be_at_bound(b: Seq<u8>, i: int, n: nat)
    requires
        0 <= i,
        i + n <= b.len(),
    ensures
        0 <= be_at(b, i, n) < pow256(n),
    decreases n,
{
    if n > 0 {
        lemma_be_at_bound(b, i, (n - 1) as nat);
    }
}

/// A one-byte word is the byte itself, in either byte order.
pub proof fn lemma_word_at_one(b: Seq<u8>, i: int, le: bool)
    ensures
        word_at(b, i, 1, le) == b[i],
{
    assert(le_at(b, i + 1, 0) == 0);
    assert(le_at(b, i, 1) == b[i] + 0x100 * le_at(b, i + 1, 0));
    assert(be_at(b, i, 0) == 0);
    assert(be_at(b, i, 1) == 0x100 * be_at(b, i, 0) + b[i]);
}

/// A multi-byte value is bounded by the number of bytes that encode it,
/// in either byte order.
pub proof fn lemma_word_at_bound(b: Seq<u8>, i: int, n: nat, le: bool)
    requires
        0 <= i,
        i + n <= b.len(),
    ensures
        0 <= word_at(b, i, n, le) < pow256(n),
{
    if le {
        lemma_le_at_bound(b, i, n);
    } else {
        lemma_be_at_bound(b, i, n);
    }
}

/// The little-endian encoding of `v` in `n` bytes (the low byte first).
pub open spec fn le_bytes(v: int, n: nat) -> Seq<u8>
    decreases n,
{
    if n == 0 {
        Seq::empty()
    } else {
        seq![(v % 256) as u8] + le_bytes(v / 256, (n - 1) as nat)
    }
}

/// Reading back a value written in little-endian order with the same width
/// recovers the value exactly, for every value the width can hold.
pub proof fn lemma_le_round_trip(v: int, n: nat)
    requires
        0 <= v < pow256(n),
    ensures
        le_bytes(v, n).len() == n,
        le_at(le_bytes(v, n), 0, n) == v,
    decreases n,
{
    if n > 0 {
        lemma_le_round_trip(v / 256, (n - 1) as nat);
        let rest = le_bytes(v / 256, (n - 1) as nat);
        let whole = le_bytes(v, n);
        assert(whole == seq![(v % 256) as u8] + rest);
        assert forall|j: int| 0 <= j < rest.len() implies rest[j] == whole[j + 1] by {}
        lemma_le_at_shift(whole, rest, n);
    }
}

/// Helper: the little-endian value of a sequence equals that of its tail
/// shifted by one byte position.
proof fn lemma_le_at_shift(whole: Seq<u8>, rest: Seq<u8>, n: nat)
    requires
        n >= 1,
        whole.len() == n,
        rest.len() == n - 1,
        forall|j: int| 0 <= j < rest.len() ==> rest[j] == whole[j + 1],
    ensures
        le_at(whole, 1, (n - 1) as nat) == le_at(rest, 0, (n - 1) as nat),
    decreases n,
{
    lemma_le_at_agree(whole, 1, rest, 0, (n - 1) as nat);
}

/// Two sequences that agree byte for byte over a window have the same
/// little-endian value over that window.
proof fn lemma_le_at_agree(a: Seq<u8>, i: int, b: Seq<u8>, j: int, n: nat)
    requires
        0 <= i,
        i + n <= a.len(),
        0 <= j,
        j + n <= b.len(),
        forall|k: int| 0 <= k < n ==> #[trigger] a[i + k] == b[j + k],
    ensures
        le_at(a, i, n) == le_at(b, j, n),
    decreases n,
{
    if n > 0 {
        assert(a[i + 0] == b[j + 0]);
        assert forall|k: int| 0 <= k < n - 1 implies #[trigger] a[i + 1 + k] == b[j + 1 + k] by {
            assert(a[i + (k + 1)] == b[j + (k + 1)]);
        }
        lemma_le_at_agree(a, i + 1, b, j + 1, (n - 1) as nat);
    }
}

/// Owns the bytes of one ELF image together with the byte order and word
/// size its header declares.  Readers are immutable once constructed.
pub struct Reader {
    pub little_endian: bool,
    pub sixty_four_bit: bool,
    pub bytes: Vec<u8>,
}

impl View for Reader {
    type V = Seq<u8>;

    open spec fn view(&self) -> Seq<u8> {
        self.bytes@
    }
}

/// Whether the buffer begins with the four ELF magic bytes.
pub open spec fn magic_ok(b: Seq<u8>) -> bool {
    b.len() >= 4 && b[0] == 0x7f && b[1] == 0x45 && b[2] == 0x4c && b[3] == 0x46
}

/// The open-time validity checks: a minimum length, the magic bytes, an
/// identification version of 1, and a file type of executable, shared
/// object, or core.
pub open spec fn header_ok(b: Seq<u8>) -> bool {
    &&& b.len() > 64
    &&& magic_ok(b)
    &&& b[6] == 1
    &&& (b[0x10] == 2 || b[0x10] == 3 || b[0x10] == 4)
}

impl Reader {
    /// Validates the buffer before accepting it: a too-small or non-ELF
    /// buffer is rejected up front and no reader is produced.
    pub fn new(bytes: Vec<u8>) -> (r: Result<Reader, ElfError>)
        ensures
            r is Ok <==> header_ok(bytes@),
            r matches Ok(reader) ==> {
                &&& reader@ == bytes@
                &&& reader.sixty_four_bit == (bytes@[4] == 2)
                &&& reader.little_endian == (bytes@[5] == 1)
            },
            bytes@.len() <= 64 ==> r == Err::<Reader, ElfError>(ElfError::TooSmall),
            bytes@.len() > 64 && !magic_ok(bytes@) ==> r == Err::<Reader, ElfError>(
                ElfError::BadMagic,
            ),
            bytes@.len() > 64 && magic_ok(bytes@) && bytes@[6] != 1 ==> r == Err::<
                Reader,
                ElfError,
            >(ElfError::BadVersion(bytes@[6])),
            bytes@.len() > 64 && magic_ok(bytes@) && bytes@[6] == 1 && !(bytes@[0x10] == 2
                || bytes@[0x10] == 3 || bytes@[0x10] == 4) ==> r == Err::<Reader, ElfError>(
                ElfError::BadFileType(bytes@[0x10]),
            ),
    {
        if bytes.len() <= 64 {
            return Err(ElfError::TooSmall);
        }
        if !(bytes[0] == 0x7f && bytes[1] == 0x45 && bytes[2] == 0x4c && bytes[3] == 0x46) {
            return Err(ElfError::BadMagic);
        }
        let ei_class = bytes[4];
        let ei_data = bytes[5];
        let ei_version = bytes[6];
        let e_type = bytes[0x10];
        if ei_version != 1 {
            return Err(ElfError::BadVersion(ei_version));
        }
        if !(e_type == 2 || e_type == 3 || e_type == 4) {
            return Err(ElfError::BadFileType(e_type));
        }
        Ok(Reader { bytes, sixty_four_bit: ei_class == 2, little_endian: ei_data == 1 })
    }

    pub fn len(&self) -> (r: usize)
        ensures
            r == self@.len(),
    {
        self.bytes.len()
    }

    /// A bounds-checked copy of `size` bytes starting at `offset`.
    pub fn slice(&self, offset: Offset, size: usize) -> (r: Result<Vec<u8>, ElfError>)
        ensures
            r is Ok <==> offset.0 + size <= self@.len(),
            r matches Ok(v) ==> v@ == self@.subrange(offset.0 as int, offset.0 + size),
            r is Err ==> r->Err_0 == ElfError::ReadOutOfBounds,
    {
        if size as u64 > self.bytes.len() as u64 || offset.0 > (self.bytes.len() - size) as u64 {
            return Err(ElfError::ReadOutOfBounds);
        }
        let start = offset.0 as usize;
        let len: usize = self.bytes.len();
        let mut v: Vec<u8> = Vec::new();
        let mut k: usize = 0;
        while k < size
            invariant
                len == self@.len(),
                start + size <= len,
                start == offset.0,
                k <= size,
                v@ == self@.subrange(start as int, start + k),
            decreases size - k,
        {
            v.push(self.bytes[start + k]);
            k = k + 1;
            assert(v@ =~= self@.subrange(start as int, start + k));
        }
        Ok(v)
    }

    pub fn read_byte(&self, offset: Offset) -> (r: Result<u8, ElfError>)
        ensures
            r is Ok <==> offset.0 < self@.len(),
            r matches Ok(b) ==> b == self@[offset.0 as int],
            r is Err ==> r->Err_0 == ElfError::ReadOutOfBounds,
    {
        if offset.0 < self.bytes.len() as u64 {
            Ok(self.bytes[offset.0 as usize])
        } else {
            Err(ElfError::ReadOutOfBounds)
        }
    }

    /// Reads an `n`-byte unsigned value in the reader's byte order,
    /// normalized to 64 bits.
    fn read_uint(&self, offset: Offset, n: usize) -> (r: Result<u64, ElfError>)
        requires
            1 <= n <= 8,
        ensures
            r is Ok <==> offset.0 + n <= self@.len(),
            r matches Ok(v) ==> v == word_at(self@, offset.0 as int, n as nat, self.little_endian),
            r is Err ==> r->Err_0 == ElfError::ReadOutOfBounds,
    {
        if n as u64 > self.bytes.len() as u64 || offset.0 > (self.bytes.len() - n) as u64 {
            return Err(ElfError::ReadOutOfBounds);
        }
        let start = offset.0 as usize;
        let len: usize = self.bytes.len();
        let ghost i = offset.0 as int;
        let mut value: u64 = 0;
        let mut j: usize = 0;
        if self.little_endian {
            // Consume from the most significant (last) byte down so that the
            // accumulator stays within one byte-width of its final bound.
            while j < n
                invariant
                    1 <= n <= 8,
                    j <= n,
                    start == offset.0,
                    i == offset.0,
                    len == self@.len(),
                    start + n <= len,
                    value == le_at(self@, i + n - j, j as nat),
                    value < pow256(j as nat),
                decreases n - j,
            {
                proof {
                    lemma_pow256_concrete();
                    lemma_pow256_monotone(j as nat, 7);
                    lemma_le_at_bound(self@, i + n - j, j as nat);
                }
                let b = self.bytes[start + n - 1 - j];
                assert(le_at(self@, i + n - (j + 1), (j + 1) as nat) == self@[i + n - j - 1]
                    + 0x100 * le_at(self@, i + n - j, j as nat));
                value = 0x100 * value + b as u64;
                j = j + 1;
            }
        } else {
            // Big-endian: the first byte is the most significant, so consume
            // front to back.
            while j < n
                invariant
                    1 <= n <= 8,
                    j <= n,
                    start == offset.0,
                    i == offset.0,
                    len == self@.len(),
                    start + n <= len,
                    value == be_at(self@, i, j as nat),
                    value < pow256(j as nat),
                decreases n - j,
            {
                proof {
                    lemma_pow256_concrete();
                    lemma_pow256_monotone(j as nat, 7);
                    lemma_be_at_bound(self@, i, j as nat);
                }
                let b = self.bytes[start + j];
                assert(be_at(self@, i, (j + 1) as nat) == 0x100 * be_at(self@, i, j as nat)
                    + self@[i + j]);
                value = 0x100 * value + b as u64;
                j = j + 1;
            }
        }
        Ok(value)
    }

    /// Reads a 16-bit value honoring the file's byte order.
    pub fn read_half(&self, offset: Offset) -> (r: Result<u16, ElfError>)
        ensures
            r is Ok <==> offset.0 + 2 <= self@.len(),
            r matches Ok(v) ==> v == word_at(self@, offset.0 as int, 2, self.little_endian),
            r is Err ==> r->Err_0 == ElfError::ReadOutOfBounds,
    {
        let v = self.read_uint(offset, 2)?;
        proof {
            lemma_pow256_concrete();
            if self.little_endian {
                lemma_le_at_bound(self@, offset.0 as int, 2);
            } else {
                lemma_be_at_bound(self@, offset.0 as int, 2);
            }
        }
        Ok(v as u16)
    }

    /// Reads a 32-bit value honoring the file's byte order.
    pub fn read_word(&self, offset: Offset) -> (r: Result<u32, ElfError>)
        ensures
            r is Ok <==> offset.0 + 4 <= self@.len(),
            r matches Ok(v) ==> v == word_at(self@, offset.0 as int, 4, self.little_endian),
            r is Err ==> r->Err_0 == ElfError::ReadOutOfBounds,
    {
        let v = self.read_uint(offset, 4)?;
        proof {
            lemma_pow256_concrete();
            if self.little_endian {
                lemma_le_at_bound(self@, offset.0 as int, 4);
            } else {
                lemma_be_at_bound(self@, offset.0 as int, 4);
            }
        }
        Ok(v as u32)
    }

    /// Reads a 64-bit value honoring the file's byte order.
    pub fn read_xword(&self, offset: Offset) -> (r: Result<u64, ElfError>)
        ensures
            r is Ok <==> offset.0 + 8 <= self@.len(),
            r matches Ok(v) ==> v == word_at(self@, offset.0 as int, 8, self.little_endian),
            r is Err ==> r->Err_0 == ElfError::ReadOutOfBounds,
    {
        self.read_uint(offset, 8)
    }

    /// Reads a 32- or 64-bit value depending on the file's declared word
    /// size, always normalized to 64 bits.
    pub fn read_addr(&self, offset: Offset) -> (r: Result<u64, ElfError>)
        ensures
            r is Ok <==> offset.0 + addr_size(self.sixty_four_bit) <= self@.len(),
            r matches Ok(v) ==> v == word_at(
                self@,
                offset.0 as int,
                addr_size(self.sixty_four_bit),
                self.little_endian,
            ),
            r is Err ==> r->Err_0 == ElfError::ReadOutOfBounds,
    {
        if self.sixty_four_bit {
            self.read_xword(offset)
        } else {
            match self.read_word(offset) {
                Ok(v) => Ok(v as u64),
                Err(e) => Err(e),
            }
        }
    }
}

/// The characters a null-terminated byte string denotes: each byte is one
/// character with the same code, as the kernel stores note strings.
pub open spec fn byte_chars(b: Seq<u8>) -> Seq<char> {
    b.map_values(|x: u8| x as char)
}

/// The position of the first zero byte at or after `i`, or `b.len()` if
/// every byte from `i` on is nonzero.
pub open spec fn find_nul(b: Seq<u8>, i: int) -> int
    decreases b.len() - i,
{
    if i < 0 || i >= b.len() {
        b.len() as int
    } else if b[i] == 0 {
        i
    } else {
        find_nul(b, i + 1)
    }
}

/// The first zero byte is never before the search start, never past the
/// end of the buffer, and everything before it in the searched range is
/// nonzero.
pub proof fn lemma_find_nul_bounds(b: Seq<u8>, i: int)
    requires
        0 <= i <= b.len(),
    ensures
        i <= find_nul(b, i) <= b.len(),
        find_nul(b, i) < b.len() ==> b[find_nul(b, i)] == 0,
        forall|j: int| i <= j < find_nul(b, i) ==> #[trigger] b[j] != 0,
    decreases b.len() - i,
{
    if i < b.len() && b[i] != 0 {
        lemma_find_nul_bounds(b, i + 1);
        assert forall|j: int| i <= j < find_nul(b, i) implies #[trigger] b[j] != 0 by {
            if j > i {
                assert(b[j] != 0);
            }
        }
    }
}

/// The value and end position of the variable-length unsigned integer at
/// `b[i]`: seven payload bits per byte, least significant first, with the
/// high bit of each byte flagging a continuation.  `None` when the encoding
/// runs past the end of the buffer.
pub open spec fn uleb_at(b: Seq<u8>, i: int) -> Option<(int, int)>
    decreases b.len() - i,
{
    if i < 0 || i >= b.len() {
        None
    } else if b[i] < 0x80 {
        Some((b[i] as int, i + 1))
    } else {
        match uleb_at(b, i + 1) {
            None => None,
            Some((v, n)) => Some(((b[i] - 0x80) + 0x80 * v, n)),
        }
    }
}

/// A decoded variable-length integer is never negative, and decoding always
/// moves forward.
pub proof fn lemma_uleb_at_bounds(b: Seq<u8>, i: int)
    ensures
        uleb_at(b, i) matches Some((v, n)) ==> 0 <= v && i < n <= b.len(),
    decreases b.len() - i,
{
    if 0 <= i < b.len() && b[i] >= 0x80 {
        lemma_uleb_at_bounds(b, i + 1);
    }
}

/// `128^n`, the weight of the `n`-th payload group of a variable-length
/// integer.
pub open spec fn pow128(n: nat) -> int
    decreases n,
{
    if n == 0 {
        1
    } else {
        128 * pow128((n - 1) as nat)
    }
}

/// The concrete weights of the first ten payload groups; the tenth is the
/// last that contributes bits below 2^64.
proof fn lemma_pow128_concrete()
    ensures
        pow128(0) == 1,
        pow128(1) == 0x80,
        pow128(2) == 0x4000,
        pow128(3) == 0x20_0000,
        pow128(4) == 0x1000_0000,
        pow128(5) == 0x8_0000_0000,
        pow128(6) == 0x400_0000_0000,
        pow128(7) == 0x2_0000_0000_0000,
        pow128(8) == 0x100_0000_0000_0000,
        pow128(9) == 0x8000_0000_0000_0000,
{
    assert(pow128(0) == 1);
    assert(pow128(1) == 128 * pow128(0));
    assert(pow128(2) == 128 * pow128(1));
    assert(pow128(3) == 128 * pow128(2));
    assert(pow128(4) == 128 * pow128(3));
    assert(pow128(5) == 128 * pow128(4));
    assert(pow128(6) == 128 * pow128(5));
    assert(pow128(7) == 128 * pow128(6));
    assert(pow128(8) == 128 * pow128(7));
    assert(pow128(9) == 128 * pow128(8));
}

/// Appends one character to a string.
///
/// Relies on `String::push`: the string grows by exactly the pushed
/// character; vstd gives `push` no specification of its own.
#[verifier::external_body]
pub(crate) fn push_char(s: &mut String, c: char)
    ensures
        final(s)@ == old(s)@.push(c),
{
    s.push(c);
}

/// A sequential decoder over a reader: every read returns the value at the
/// current position and advances the position by exactly the number of bytes
/// consumed.
pub struct Stream<'a> {
    pub reader: &'a Reader,
    pub offset: Offset,
}

impl<'a> Stream<'a> {
    pub fn new(reader: &'a Reader, offset: Offset) -> (r: Self)
        ensures
            r.reader == reader,
            r.offset == offset,
    {
        Stream { reader, offset }
    }

    pub fn read_byte(&mut self) -> (r: Result<u8, ElfError>)
        ensures
            final(self).reader == old(self).reader,
            r is Ok <==> old(self).offset.0 < old(self).reader@.len(),
            r matches Ok(b) ==> b == old(self).reader@[old(self).offset.0 as int]
                && final(self).offset.0 == old(self).offset.0 + 1,
            r is Err ==> final(self).offset == old(self).offset && r->Err_0
                == ElfError::ReadOutOfBounds,
    {
        let n = self.reader.len();
        match self.reader.read_byte(self.offset) {
            Ok(b) => {
                self.offset = Offset(self.offset.0 + 1);
                Ok(b)
            },
            Err(e) => Err(e),
        }
    }

    pub fn read_half(&mut self) -> (r: Result<u16, ElfError>)
        ensures
            final(self).reader == old(self).reader,
            r is Ok <==> old(self).offset.0 + 2 <= old(self).reader@.len(),
            r matches Ok(v) ==> v == word_at(
                old(self).reader@,
                old(self).offset.0 as int,
                2,
                old(self).reader.little_endian,
            ) && final(self).offset.0 == old(self).offset.0 + 2,
            r is Err ==> final(self).offset == old(self).offset && r->Err_0
                == ElfError::ReadOutOfBounds,
    {
        let n = self.reader.len();
        match self.reader.read_half(self.offset) {
            Ok(v) => {
                self.offset = Offset(self.offset.0 + 2);
                Ok(v)
            },
            Err(e) => Err(e),
        }
    }

    pub fn read_word(&mut self) -> (r: Result<u32, ElfError>)
        ensures
            final(self).reader == old(self).reader,
            r is Ok <==> old(self).offset.0 + 4 <= old(self).reader@.len(),
            r matches Ok(v) ==> v == word_at(
                old(self).reader@,
                old(self).offset.0 as int,
                4,
                old(self).reader.little_endian,
            ) && final(self).offset.0 == old(self).offset.0 + 4,
            r is Err ==> final(self).offset == old(self).offset && r->Err_0
                == ElfError::ReadOutOfBounds,
    {
        let n = self.reader.len();
        match self.reader.read_word(self.offset) {
            Ok(v) => {
                self.offset = Offset(self.offset.0 + 4);
                Ok(v)
            },
            Err(e) => Err(e),
        }
    }

    pub fn read_xword(&mut self) -> (r: Result<u64, ElfError>)
        ensures
            final(self).reader == old(self).reader,
            r is Ok <==> old(self).offset.0 + 8 <= old(self).reader@.len(),
            r matches Ok(v) ==> v == word_at(
                old(self).reader@,
                old(self).offset.0 as int,
                8,
                old(self).reader.little_endian,
            ) && final(self).offset.0 == old(self).offset.0 + 8,
            r is Err ==> final(self).offset == old(self).offset && r->Err_0
                == ElfError::ReadOutOfBounds,
    {
        let n = self.reader.len();
        match self.reader.read_xword(self.offset) {
            Ok(v) => {
                self.offset = Offset(self.offset.0 + 8);
                Ok(v)
            },
            Err(e) => Err(e),
        }
    }

    /// Reads a 32-bit value and reinterprets it as signed.
    pub fn read_int(&mut self) -> (r: Result<i32, ElfError>)
        ensures
            final(self).reader == old(self).reader,
            r is Ok <==> old(self).offset.0 + 4 <= old(self).reader@.len(),
            r matches Ok(v) ==> v == (word_at(
                old(self).reader@,
                old(self).offset.0 as int,
                4,
                old(self).reader.little_endian,
            ) as u32) as i32 && final(self).offset.0 == old(self).offset.0 + 4,
            r is Err ==> final(self).offset == old(self).offset && r->Err_0
                == ElfError::ReadOutOfBounds,
    {
        let w = self.read_word()?;
        Ok(#[verifier::truncate] (w as i32))
    }

    /// Reads a 64-bit value and reinterprets it as signed; relocation
    /// addends are stored this way.
    pub fn read_sxword(&mut self) -> (r: Result<i64, ElfError>)
        ensures
            final(self).reader == old(self).reader,
            r is Ok <==> old(self).offset.0 + 8 <= old(self).reader@.len(),
            r matches Ok(v) ==> v == (word_at(
                old(self).reader@,
                old(self).offset.0 as int,
                8,
                old(self).reader.little_endian,
            ) as u64) as i64 && final(self).offset.0 == old(self).offset.0 + 8,
            r is Err ==> final(self).offset == old(self).offset && r->Err_0
                == ElfError::ReadOutOfBounds,
    {
        let w = self.read_xword()?;
        Ok(#[verifier::truncate] (w as i64))
    }

    /// Reads the kernel's `long`: 32 or 64 bits depending on the file's
    /// declared word size, normalized to 64 bits.
    pub fn read_ulong(&mut self) -> (r: Result<u64, ElfError>)
        ensures
            final(self).reader == old(self).reader,
            r is Ok <==> old(self).offset.0 + addr_size(old(self).reader.sixty_four_bit) <= old(
                self,
            ).reader@.len(),
            r matches Ok(v) ==> v == word_at(
                old(self).reader@,
                old(self).offset.0 as int,
                addr_size(old(self).reader.sixty_four_bit),
                old(self).reader.little_endian,
            ) && final(self).offset.0 == old(self).offset.0 + addr_size(
                old(self).reader.sixty_four_bit,
            ),
            r is Err ==> final(self).offset == old(self).offset && r->Err_0
                == ElfError::ReadOutOfBounds,
    {
        if self.reader.sixty_four_bit {
            self.read_xword()
        } else {
            match self.read_word() {
                Ok(v) => Ok(v as u64),
                Err(e) => Err(e),
            }
        }
    }

    /// Reads an architecture-width address; same layout as `read_ulong`.
    pub fn read_addr(&mut self) -> (r: Result<u64, ElfError>)
        ensures
            final(self).reader == old(self).reader,
            r is Ok <==> old(self).offset.0 + addr_size(old(self).reader.sixty_four_bit) <= old(
                self,
            ).reader@.len(),
            r matches Ok(v) ==> v == word_at(
                old(self).reader@,
                old(self).offset.0 as int,
                addr_size(old(self).reader.sixty_four_bit),
                old(self).reader.little_endian,
            ) && final(self).offset.0 == old(self).offset.0 + addr_size(
                old(self).reader.sixty_four_bit,
            ),
            r is Err ==> final(self).offset == old(self).offset && r->Err_0
                == ElfError::ReadOutOfBounds,
    {
        self.read_ulong()
    }

    /// Reads an architecture-width file offset; same layout as `read_ulong`.
    pub fn read_offset(&mut self) -> (r: Result<u64, ElfError>)
        ensures
            final(self).reader == old(self).reader,
            r is Ok <==> old(self).offset.0 + addr_size(old(self).reader.sixty_four_bit) <= old(
                self,
            ).reader@.len(),
            r matches Ok(v) ==> v == word_at(
                old(self).reader@,
                old(self).offset.0 as int,
                addr_size(old(self).reader.sixty_four_bit),
                old(self).reader.little_endian,
            ) && final(self).offset.0 == old(self).offset.0 + addr_size(
                old(self).reader.sixty_four_bit,
            ),
            r is Err ==> final(self).offset == old(self).offset && r->Err_0
                == ElfError::ReadOutOfBounds,
    {
        self.read_ulong()
    }

    /// Reads a null-terminated byte string, interpreting each byte as one
    /// character.  Fails only when no terminator exists before the end of
    /// the buffer.
    pub fn read_string(&mut self) -> (r: Result<String, ElfError>)
        ensures
            final(self).reader == old(self).reader,
            final(self).offset.0 >= old(self).offset.0,
            r is Ok ==> final(self).offset.0 > old(self).offset.0,
            r is Ok <==> (0 <= old(self).offset.0 <= old(self).reader@.len() && find_nul(
                old(self).reader@,
                old(self).offset.0 as int,
            ) < old(self).reader@.len()),
            r matches Ok(s) ==> {
                let start = old(self).offset.0 as int;
                let nul = find_nul(old(self).reader@, start);
                &&& s@ == byte_chars(old(self).reader@.subrange(start, nul))
                &&& final(self).offset.0 == nul + 1
            },
            r is Err ==> r->Err_0 == ElfError::ReadOutOfBounds,
    {
        let ghost b = self.reader@;
        let ghost r0 = *self.reader;
        let ghost start = self.offset.0 as int;
        let n = self.reader.len();
        if self.offset.0 > n as u64 {
            return Err(ElfError::ReadOutOfBounds);
        }
        let mut s = String::new();
        loop
            invariant
                *self.reader == r0,
                b == r0@,
                start <= self.offset.0 <= b.len(),
                find_nul(b, start) == find_nul(b, self.offset.0 as int),
                s@ == byte_chars(b.subrange(start, self.offset.0 as int)),
            decreases b.len() - self.offset.0,
        {
            let ghost cur = self.offset.0 as int;
            let byte = self.read_byte()?;
            if byte == 0 {
                assert(find_nul(b, cur) == cur);
                return Ok(s);
            }
            assert(find_nul(b, cur) == find_nul(b, cur + 1));
            push_char(&mut s, byte as char);
            proof {
                assert(b.subrange(start, cur + 1) =~= b.subrange(start, cur).push(b[cur]));
                assert(byte_chars(b.subrange(start, cur + 1)) =~= byte_chars(
                    b.subrange(start, cur),
                ).push(b[cur] as char));
            }
        }
    }

    /// Decodes a variable-length unsigned integer (seven payload bits per
    /// byte, high bit flags a continuation).  The value is exact: an
    /// encoding whose value does not fit in 64 bits is rejected rather than
    /// truncated.
    pub fn read_uleb128(&mut self) -> (r: Result<u64, ElfError>)
        ensures
            final(self).reader == old(self).reader,
            final(self).offset.0 >= old(self).offset.0,
            r is Ok <==> (uleb_at(old(self).reader@, old(self).offset.0 as int) matches Some(
                (v, _),
            ) && v < 0x1_0000_0000_0000_0000),
            r matches Ok(value) ==> (uleb_at(old(self).reader@, old(self).offset.0 as int)
                matches Some((v, n)) && value == v && final(self).offset.0 == n),
            r matches Err(e) ==> (e == ElfError::ReadOutOfBounds || e
                == ElfError::IntegerTooLarge),
    {
        let ghost b = self.reader@;
        let ghost r0 = *self.reader;
        let ghost start = self.offset.0 as int;
        let mut value: u64 = 0;
        let mut mult: u64 = 1;
        let mut k: usize = 0;
        proof {
            lemma_pow128_concrete();
        }
        // The first ten groups can contribute bits below 2^64.
        while k < 10
            invariant
                *self.reader == r0,
                b == r0@,
                k <= 9,
                self.offset.0 == start + k,
                start + k <= b.len() || k == 0,
                mult == pow128(k as nat),
                value < mult,
                uleb_summary(b, start, value as int, mult as int, self.offset.0 as int),
            decreases 10 - k,
        {
            proof {
                lemma_pow128_concrete();
                if k <= 8 {
                    lemma_pow128_monotone(k as nat, 8);
                }
                lemma_uleb_at_bounds(b, self.offset.0 as int);
            }
            let ghost cur = self.offset.0 as int;
            let ghost v_old = value as int;
            let ghost m_old = mult as int;
            let byte = self.read_byte()?;
            let low: u8 = byte % 0x80;
            assert(k == 9 ==> mult == 0x8000_0000_0000_0000);
            assert(k <= 8 ==> mult <= 0x100_0000_0000_0000);
            if byte < 0x80 {
                // Final group: its payload is the most significant part.
                assert(uleb_at(b, cur) == Some::<(int, int)>((low as int, cur + 1)));
                if k == 9 && low > 1 {
                    proof {
                        assert(v_old + m_old * low >= 0x1_0000_0000_0000_0000) by (nonlinear_arith)
                            requires
                                m_old == 0x8000_0000_0000_0000,
                                low >= 2,
                                v_old >= 0,
                        ;
                    }
                    return Err(ElfError::IntegerTooLarge);
                }
                assert(value + mult * (low as u64) < 0x1_0000_0000_0000_0000) by (nonlinear_arith)
                    requires
                        value < mult,
                        low < 0x80,
                        1 <= mult,
                        mult == 0x8000_0000_0000_0000 ==> low <= 1,
                        mult <= 0x100_0000_0000_0000 || mult == 0x8000_0000_0000_0000,
                ;
                value = value + mult * (low as u64);
                assert(value == v_old + m_old * (low as int));
                return Ok(value);
            }
            // Continuation: fold this group in and move to the next weight.
            if k == 9 {
                // Any payload past the tenth group lies entirely above 2^63,
                // so only zero payload bits can still fit.
                if low > 1 {
                    proof {
                        lemma_uleb_ge_low(b, cur);
                        assert(uleb_at(b, cur) matches Some((v, _)) ==> v_old + m_old * v
                            >= 0x1_0000_0000_0000_0000) by (nonlinear_arith)
                            requires
                                m_old == 0x8000_0000_0000_0000,
                                v_old >= 0,
                                uleb_at(b, cur) matches Some((v, _)) ==> v >= low >= 2,
                        ;
                    }
                    return Err(ElfError::IntegerTooLarge);
                }
                assert(value + mult * (low as u64) <= u64::MAX) by (nonlinear_arith)
                    requires
                        value < mult,
                        low <= 1,
                        mult == 0x8000_0000_0000_0000,
                ;
                value = value + mult * (low as u64);
                let ghost m: int = m_old * 0x80;
                proof {
                    lemma_uleb_cont_step(b, start, cur, v_old, m_old, low as int);
                }
                return self.finish_uleb128(value, Ghost(b), Ghost(r0), Ghost(start), Ghost(m));
            }
            assert(value + mult * (low as u64) < mult * 0x80
                && mult * 0x80 <= 0x8000_0000_0000_0000) by (nonlinear_arith)
                requires
                    value < mult,
                    low < 0x80,
                    1 <= mult,
                    mult <= 0x100_0000_0000_0000,
            ;
            value = value + mult * (low as u64);
            mult = mult * 0x80;
            k = k + 1;
            proof {
                assert(pow128(k as nat) == 128 * pow128((k - 1) as nat));
                lemma_uleb_cont_step(b, start, cur, v_old, m_old, low as int);
            }
        }
        // Unreachable: every path through the tenth group returns.
        Err(ElfError::IntegerTooLarge)
    }

    /// Consumes the remaining groups of an encoding whose pending weight is
    /// already at least 2^64: only zero payload bits may remain.
    fn finish_uleb128(
        &mut self,
        value: u64,
        Ghost(b): Ghost<Seq<u8>>,
        Ghost(r0): Ghost<Reader>,
        Ghost(start): Ghost<int>,
        Ghost(m): Ghost<int>,
    ) -> (r: Result<u64, ElfError>)
        requires
            *old(self).reader == r0,
            b == r0@,
            old(self).offset.0 <= b.len(),
            m >= 0x1_0000_0000_0000_0000,
            uleb_summary(b, start, value as int, m, old(self).offset.0 as int),
        ensures
            final(self).reader == old(self).reader,
            final(self).offset.0 >= old(self).offset.0,
            r is Ok <==> (uleb_at(b, start) matches Some((v, _)) && v
                < 0x1_0000_0000_0000_0000),
            r matches Ok(val) ==> (uleb_at(b, start) matches Some((v, n)) && val == v
                && final(self).offset.0 == n),
            r matches Err(e) ==> (e == ElfError::ReadOutOfBounds || e
                == ElfError::IntegerTooLarge),
    {
        let ghost mut mm = m;
        loop
            invariant
                *self.reader == r0,
                b == r0@,
                self.offset.0 >= old(self).offset.0,
                self.offset.0 <= b.len(),
                mm >= 0x1_0000_0000_0000_0000,
                uleb_summary(b, start, value as int, mm, self.offset.0 as int),
            decreases b.len() - self.offset.0,
        {
            let ghost cur = self.offset.0 as int;
            proof {
                lemma_uleb_at_bounds(b, cur);
            }
            let byte = self.read_byte()?;
            let low: u8 = byte % 0x80;
            if low > 0 {
                proof {
                    lemma_uleb_ge_low(b, cur);
                    assert(uleb_at(b, cur) matches Some((v, _)) ==> (value as int) + mm * v
                        >= 0x1_0000_0000_0000_0000) by (nonlinear_arith)
                        requires
                            mm >= 0x1_0000_0000_0000_0000,
                            value >= 0,
                            uleb_at(b, cur) matches Some((v, _)) ==> v >= low >= 1,
                    ;
                }
                return Err(ElfError::IntegerTooLarge);
            }
            if byte < 0x80 {
                assert(uleb_at(b, cur) == Some::<(int, int)>((0, cur + 1)));
                assert(mm * 0 == 0) by (nonlinear_arith);
                return Ok(value);
            }
            proof {
                lemma_uleb_cont_step(b, start, cur, value as int, mm, 0);
                mm = mm * 0x80;
            }
        }
    }
}

/// A decoded variable-length integer is at least its first payload group.
proof fn lemma_uleb_ge_low(b: Seq<u8>, i: int)
    requires
        0 <= i < b.len(),
    ensures
        uleb_at(b, i) matches Some((v, _)) ==> v >= b[i] % 0x80,
{
    if b[i] >= 0x80 {
        lemma_uleb_at_bounds(b, i + 1);
        match uleb_at(b, i + 1) {
            Some((v2, n2)) => {
                assert(v2 >= 0);
                assert((b[i] - 0x80) + 0x80 * v2 >= b[i] - 0x80) by (nonlinear_arith)
                    requires
                        v2 >= 0,
                ;
            },
            None => {},
        }
    }
}

/// Folding one continuation group into the running value preserves the
/// decoder's summary of the integer being decoded.
proof fn lemma_uleb_cont_step(b: Seq<u8>, start: int, cur: int, value: int, mult: int, low: int)
    requires
        0 <= cur < b.len(),
        b[cur] >= 0x80,
        low == b[cur] - 0x80,
        uleb_summary(b, start, value, mult, cur),
    ensures
        uleb_summary(b, start, value + mult * low, mult * 0x80, cur + 1),
{
    match uleb_at(b, cur + 1) {
        Some((v2, n2)) => {
            assert(uleb_at(b, cur) == Some::<(int, int)>((low + 0x80 * v2, n2)));
            assert(value + mult * (low + 0x80 * v2) == (value + mult * low) + (mult * 0x80) * v2)
                by (nonlinear_arith);
        },
        None => {},
    }
}

/// The decoder's running state summarizes the integer being decoded: the
/// groups already consumed contribute `value`, and whatever remains at `cur`
/// is weighted by `mult`.
pub open spec fn uleb_summary(b: Seq<u8>, start: int, value: int, mult: int, cur: int) -> bool {
    match uleb_at(b, cur) {
        None => uleb_at(b, start) is None,
        Some((v, n)) => uleb_at(b, start) == Some::<(int, int)>((value + mult * v, n)),
    }
}


/// A decoded signed variable-length integer always ends after its start
/// and inside the buffer.
pub proof fn lemma_sleb_at_bounds(b: Seq<u8>, i: int)
    ensures
        sleb_at(b, i) matches Some((_, n)) ==> i < n <= b.len(),
    decreases b.len() - i,
{
    if 0 <= i < b.len() && b[i] >= 0x80 {
        lemma_sleb_at_bounds(b, i + 1);
    }
}

/// Whether a signed variable-length integer of at most eight groups
/// starts at `i`: some prefix of up to eight bytes is all continuations
/// except a final terminating byte, all inside the buffer.
pub open spec fn sleb_shape_ok(b: Seq<u8>, i: int) -> bool {
    exists|k: int|
        1 <= k <= 8 && i + k <= b.len() && (forall|j: int|
            0 <= j < k - 1 ==> #[trigger] b[i + j] >= 0x80) && #[trigger] b[i + (k - 1)] < 0x80
}

/// The value and end position of the signed variable-length integer at
/// `b[i]`: like the unsigned form, but bit six of the final byte is the
/// sign.
pub open spec fn sleb_at(b: Seq<u8>, i: int) -> Option<(int, int)>
    decreases b.len() - i,
{
    if i < 0 || i >= b.len() {
        None
    } else if b[i] < 0x80 {
        if b[i] < 0x40 {
            Some((b[i] as int, i + 1))
        } else {
            Some((b[i] - 0x80, i + 1))
        }
    } else {
        match sleb_at(b, i + 1) {
            None => None,
            Some((v, n)) => Some(((b[i] - 0x80) + 0x80 * v, n)),
        }
    }
}

impl<'a> Stream<'a> {
    /// Decodes a signed variable-length integer of up to eight groups
    /// (enough for the line-number programs this engine reads); a longer
    /// encoding is rejected.
    #[verifier::loop_isolation(true)]
    pub fn read_sleb128(&mut self) -> (r: Result<i64, ElfError>)
        ensures
            final(self).reader == old(self).reader,
            final(self).offset.0 >= old(self).offset.0,
            r is Ok <==> sleb_shape_ok(old(self).reader@, old(self).offset.0 as int),
            r matches Ok(v) ==> (sleb_at(old(self).reader@, old(self).offset.0 as int)
                matches Some((sv, n)) && v == sv && final(self).offset.0 == n),
            r matches Err(e) ==> (e == ElfError::ReadOutOfBounds || e
                == ElfError::IntegerTooLarge),
    {
        let ghost b = self.reader@;
        let ghost r0 = *self.reader;
        let ghost start = self.offset.0 as int;
        let mut groups: Vec<u8> = Vec::new();
        let mut k: usize = 0;
        // Collect the groups; the bytes of one encoding are consecutive.
        loop
            invariant_except_break
                r0 == *old(self).reader,
                start == old(self).offset.0,
                *self.reader == r0,
                b == r0@,
                self.offset.0 == start + k,
                k == groups@.len(),
                k <= 7,
                forall|j: int| 0 <= j < k ==> #[trigger] groups@[j] == b[start + j],
                forall|j: int| 0 <= j < k ==> #[trigger] b[start + j] >= 0x80,
            ensures
                r0 == *old(self).reader,
                start == old(self).offset.0,
                *self.reader == r0,
                b == r0@,
                self.offset.0 == start + k,
                k == groups@.len(),
                1 <= k <= 8,
                forall|j: int| 0 <= j < k ==> #[trigger] groups@[j] == b[start + j],
                forall|j: int| 0 <= j < k - 1 ==> #[trigger] b[start + j] >= 0x80,
                b[start + (k - 1)] < 0x80,
                start >= 0,
                start + k <= b.len(),
            decreases 8 - k,
        {
            let byte = match self.read_byte() {
                Ok(v) => v,
                Err(e) => {
                    proof {
                        assert(start + k >= b.len());
                        assert forall|kk: int| 1 <= kk <= 8 && start + kk <= b.len() implies !(
                        (forall|j: int| 0 <= j < kk - 1 ==> #[trigger] b[start + j] >= 0x80)
                            && #[trigger] b[start + (kk - 1)] < 0x80) by {
                            assert(kk <= k);
                            if (forall|j: int| 0 <= j < kk - 1 ==> #[trigger] b[start + j]
                                >= 0x80) {
                                assert(b[start + (kk - 1)] >= 0x80);
                            }
                        }
                        assert(!sleb_shape_ok(b, start));
                    }
                    return Err(e);
                },
            };
            groups.push(byte);
            k = k + 1;
            if byte < 0x80 {
                proof {
                    assert(b[start + (k - 1)] < 0x80);
                    assert(sleb_shape_ok(b, start));
                }
                break ;
            }
            if k == 8 {
                proof {
                    assert forall|kk: int| 1 <= kk <= 8 && start + kk <= b.len() implies !((
                    forall|j: int| 0 <= j < kk - 1 ==> #[trigger] b[start + j] >= 0x80)
                        && #[trigger] b[start + (kk - 1)] < 0x80) by {
                        assert(b[start + (kk - 1)] >= 0x80);
                    }
                    assert(!sleb_shape_ok(b, start));
                }
                return Err(ElfError::IntegerTooLarge);
            }
        }
        // Fold the groups back to front: the last group carries the sign.
        let last = groups[k - 1];
        proof {
            assert(last == b[start + (k - 1)]);
            assert(last < 0x80);
        }
        let low: u8 = last % 0x80;
        let mut v: i64 = if low < 0x40 {
            low as i64
        } else {
            low as i64 - 0x80
        };
        let mut j: usize = k - 1;
        proof {
            assert(sleb_at(b, start + (k - 1)) == Some::<(int, int)>((v as int, start + k)));
            lemma_pow128_concrete();
        }
        while j > 0
            invariant
                k == groups@.len(),
                k <= 8,
                j < k,
                start >= 0,
                start + k <= b.len(),
                forall|jj: int| 0 <= jj < k ==> #[trigger] groups@[jj] == b[start + jj],
                forall|jj: int| 0 <= jj < k - 1 ==> #[trigger] b[start + jj] >= 0x80,
                -0x40 * pow128((k - 1 - j) as nat) <= v < 0x40 * pow128((k - 1 - j) as nat),
                sleb_at(b, start + j) == Some::<(int, int)>((v as int, start + k)),
            decreases j,
        {
            proof {
                lemma_pow128_concrete();
                lemma_pow128_monotone((k - 1 - j) as nat, 7);
            }
            let g = groups[j - 1];
            let low2: u8 = g % 0x80;
            let ghost vold = v as int;
            assert((low2 as i64) + 0x80 * v < 0x40 * pow128((k - j) as nat) && (low2 as i64)
                + 0x80 * v >= -0x40 * pow128((k - j) as nat) && -0x8000_0000_0000_0000 <= (
            low2 as i64) + 0x80 * (v as int) < 0x8000_0000_0000_0000) by (nonlinear_arith)
                requires
                    -0x40 * pow128((k - 1 - j) as nat) <= v < 0x40 * pow128((k - 1 - j) as nat),
                    pow128((k - j) as nat) == 0x80 * pow128((k - 1 - j) as nat),
                    1 <= pow128((k - 1 - j) as nat) <= 0x2_0000_0000_0000,
                    0 <= low2 < 0x80,
            ;
            v = (low2 as i64) + 0x80 * v;
            j = j - 1;
            proof {
                assert(b[start + j] >= 0x80);
                assert(sleb_at(b, start + j) == Some::<(int, int)>(
                    ((b[start + j] - 0x80) + 0x80 * vold, start + k),
                ));
            }
        }
        Ok(v)
    }
}

/// How many bytes an architecture-width value occupies.
pub open spec fn addr_size(sixty_four_bit: bool) -> nat {
    if sixty_four_bit {
        8
    } else {
        4
    }
}

/// The concrete values of `pow256` for every width a primitive read uses.
pub proof fn lemma_pow256_concrete()
    ensures
        pow256(0) == 1,
        pow256(1) == 0x100,
        pow256(2) == 0x10000,
        pow256(3) == 0x100_0000,
        pow256(4) == 0x1_0000_0000,
        pow256(5) == 0x100_0000_0000,
        pow256(6) == 0x1_0000_0000_0000,
        pow256(7) == 0x100_0000_0000_0000,
        pow256(8) == 0x1_0000_0000_0000_0000,
{
    assert(pow256(0) == 1);
    assert(pow256(1) == 256 * pow256(0));
    assert(pow256(2) == 256 * pow256(1));
    assert(pow256(3) == 256 * pow256(2));
    assert(pow256(4) == 256 * pow256(3));
    assert(pow256(5) == 256 * pow256(4));
    assert(pow256(6) == 256 * pow256(5));
    assert(pow256(7) == 256 * pow256(6));
    assert(pow256(8) == 256 * pow256(7));
}

/// `128^n` grows with `n`.
proof fn lemma_pow128_monotone(m: nat, n: nat)
    requires
        m <= n,
    ensures
        pow128(m) <= pow128(n),
    decreases n,
{
    if m < n {
        lemma_pow128_monotone(m, (n - 1) as nat);
        lemma_pow128_positive((n - 1) as nat);
    }
}

proof fn lemma_pow128_positive(n: nat)
    ensures
        pow128(n) >= 1,
    decreases n,
{
    if n > 0 {
        lemma_pow128_positive((n - 1) as nat);
    }
}

/// `256^n` grows with `n`.
proof fn lemma_pow256_monotone(m: nat, n: nat)
    requires
        m <= n,
    ensures
        pow256(m) <= pow256(n),
    decreases n,
{
    if m < n {
        lemma_pow256_monotone(m, (n - 1) as nat);
        lemma_pow256_positive((n - 1) as nat);
    }
}

proof fn lemma_pow256_positive(n: nat)
    ensures
        pow256(n) >= 1,
    decreases n,
{
    if n > 0 {
        lemma_pow256_positive((n - 1) as nat);
    }
}

} // verus!
