//! The three coordinate spaces used to address bytes, and a contiguous range
//! type generic over them.
//!
//! The coordinates are deliberately distinct types: a position in the file on
//! disk, an address in the dumped process, and a position relative to one
//! memory mapping are never interchangeable without an explicit translation.

use vstd::prelude::*;

verus! {

/// Index into the section table.
#[derive(Copy, Clone, Debug, Eq, PartialEq, Structural)]
pub struct SectionIndex(pub u32);

/// Index into a string table.
#[derive(Copy, Clone, Debug, Eq, PartialEq, Structural)]
pub struct StringIndex(pub u32);

/// A byte position within an ELF file as stored on disk.
#[derive(Copy, Clone, Debug, Eq, PartialEq, Structural)]
pub struct Offset(pub u64);

/// The address of a byte in the process that produced a core file, or the
/// intended load address within an executable.
#[derive(Copy, Clone, Debug, Eq, PartialEq, Structural)]
pub struct VirtualAddr(pub u64);

/// A byte position within a file as it was mapped into a core's address
/// space, i.e. relative to that mapping's base.  Used to correlate a live
/// address back into an on-disk executable or library.
#[derive(Copy, Clone, Debug, Eq, PartialEq, Hash, Structural)]
pub struct RelativeAddr(pub u64);

/// A coordinate is a tagged 64-bit magnitude.  The trait lets `Bytes` carry
/// ranges in any one coordinate space without mixing the spaces up.
pub trait Coord: Sized {
    /// The magnitude of the coordinate.
    spec fn value(&self) -> u64;

    fn raw(&self) -> (r: u64)
        ensures
            r == self.value(),
    ;

    fn make(v: u64) -> (r: Self)
        ensures
            r.value() == v,
    ;
}

impl Coord for Offset {
    open spec fn value(&self) -> u64 {
        self.0
    }

    fn raw(&self) -> u64 {
        self.0
    }

    fn make(v: u64) -> Self {
        Offset(v)
    }
}

impl Coord for VirtualAddr {
    open spec fn value(&self) -> u64 {
        self.0
    }

    fn raw(&self) -> u64 {
        self.0
    }

    fn make(v: u64) -> Self {
        VirtualAddr(v)
    }
}

impl Coord for RelativeAddr {
    open spec fn value(&self) -> u64 {
        self.0
    }

    fn raw(&self) -> u64 {
        self.0
    }

    fn make(v: u64) -> Self {
        RelativeAddr(v)
    }
}

impl VirtualAddr {
    pub fn from_raw(addr: u64) -> (r: Self)
        ensures
            r.0 == addr,
    {
        VirtualAddr(addr)
    }
}

impl Offset {
    pub fn from_raw(addr: u64) -> (r: Self)
        ensures
            r.0 == addr,
    {
        Offset(addr)
    }
}

/// A range of bytes addressed in one coordinate space: the bytes at
/// `start, start + 1, ..., start + size - 1`.
///
/// Load segments carry two of these in parallel (one in `Offset` space, one
/// in `VirtualAddr` space); sections and note payloads carry one.
#[derive(Copy, Clone, Debug)]
pub struct Bytes<A> {
    pub start: A,
    pub size: u64,
}

impl<A: Coord + Copy> Bytes<A> {
    /// A well-formed range does not wrap around the top of the address space,
    /// so `start + size` is representable.
    pub open spec fn wf(&self) -> bool {
        self.start.value() + self.size <= u64::MAX
    }

    /// Whether the magnitude `x` lies inside the range.
    pub open spec fn spec_contains(&self, x: u64) -> bool {
        self.start.value() <= x < self.start.value() + self.size
    }

    pub fn from_raw(start: u64, size: u64) -> (r: Self)
        requires
            start + size <= u64::MAX,
        ensures
            r.start.value() == start,
            r.size == size,
            r.wf(),
    {
        Bytes { start: A::make(start), size }
    }

    /// True iff `start <= addr < start + size`.
    pub fn contains(&self, addr: A) -> (r: bool)
        ensures
            r == self.spec_contains(addr.value()),
    {
        let a = addr.raw();
        let s = self.start.raw();
        a >= s && a - s < self.size
    }

    /// The coordinate one past the last byte of the range; always equal to
    /// `start + size`.
    pub fn end(&self) -> (r: A)
        requires
            self.wf(),
        ensures
            r.value() == self.start.value() + self.size,
    {
        A::make(self.start.raw() + self.size)
    }
}

} // verus!
