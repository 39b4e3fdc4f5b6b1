//! The bookkeeping of a GPU buffer: its usage, its memory properties and the
//! capacity of its current allocation.
use vstd::prelude::*;

verus! {

/// A GPU buffer's allocation record. `capacity` is always that of the last
/// allocation; a capacity of zero marks a placeholder that has to be
/// reallocated before use. Usage and memory-property flags are the raw bit
/// masks of the graphics API and never change over the buffer's life.
#[derive(Clone, Copy, Debug, PartialEq, Eq, Structural)]
pub struct Buffer {
    pub usage: u32,
    pub properties: u32,
    pub capacity: u64,
}

impl Buffer {
    /// A buffer allocated with `capacity` bytes.
    pub fn new(capacity: u64, usage: u32, properties: u32) -> (r: Self)
        ensures
            r.capacity == capacity,
            r.usage == usage,
            r.properties == properties,
    {
        Buffer { usage, properties, capacity }
    }

    /// A placeholder without memory, to be reallocated before use.
    pub fn null(usage: u32, properties: u32) -> (r: Self)
        ensures
            r.capacity == 0,
            r.usage == usage,
            r.properties == properties,
    {
        Buffer { usage, properties, capacity: 0 }
    }

    pub fn is_null(&self) -> (r: bool)
        ensures
            r == (self.capacity == 0),
    {
        self.capacity == 0
    }

    /// Replaces the allocation by one of `capacity` bytes with the same flags.
    pub fn reallocate(&mut self, capacity: u64)
        ensures
            final(self).capacity == capacity,
            final(self).usage == old(self).usage,
            final(self).properties == old(self).properties,
    {
        self.capacity = capacity;
    }

    /// Makes room for `required` bytes. The buffer is reallocated to exactly
    /// `required` bytes where it is smaller, and is never shrunk. Returns
    /// whether it was reallocated.
    pub fn grow_to(&mut self, required: u64) -> (reallocated: bool)
        ensures
            reallocated == (required > old(self).capacity),
            *final(self) == grown(*old(self), required),
    {
        if required > self.capacity {
            self.reallocate(required);
            true
        } else {
            false
        }
    }
}

/// The buffer after making room for `required` bytes.
pub open spec fn grown(b: Buffer, required: u64) -> Buffer {
    if required > b.capacity {
        Buffer { capacity: required, ..b }
    } else {
        b
    }
}

} // verus!
