//! Address ranges of the memory map.
use vstd::prelude::*;

verus! {

/// The half-open address range `start..end`.
#[derive(Debug, Clone, Copy, PartialEq, Eq, Structural)]
pub struct AddressRange(pub u64, pub u64);

impl AddressRange {
    pub fn new(start: u64, end: u64) -> (r: Self)
        ensures
            r == AddressRange(start, end),
    {
        AddressRange(start, end)
    }

    /// The number of addresses in the range.
    pub fn len(&self) -> (r: u64)
        requires
            self.0 <= self.1,
        ensures
            r == self.1 - self.0,
    {
        self.1 - self.0
    }

    pub fn start(&self) -> (r: u64)
        ensures
            r == self.0,
    {
        self.0
    }

    pub fn end(&self) -> (r: u64)
        ensures
            r == self.1,
    {
        self.1
    }

    pub fn contains(&self, addr: u64) -> (r: bool)
        ensures
            r == (self.0 <= addr && addr < self.1),
    {
        self.0 <= addr && addr < self.1
    }
}

} // verus!
