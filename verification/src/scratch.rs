//! A fixed-capacity region in which one outbound packet is assembled.
//!
//! The region never grows and is reused for every packet: writing starts
//! over at its beginning, and a write that would run past its end is
//! refused as a whole.

use vstd::prelude::*;

verus! {

/// Capacity of the region in bytes: the largest packet the link carries.
pub const SCRATCH_CAPACITY: usize = 1500;

/// The bytes did not fit in what was left of the region.
#[derive(Clone, Copy, Debug, PartialEq, Eq, Structural)]
pub struct ScratchFull;

/// The region, with the position up to which it has been written.
pub struct Scratch {
    bytes: [u8; SCRATCH_CAPACITY],
    written: usize,
}

impl View for Scratch {
    type V = Seq<u8>;

    /// The bytes written so far.
    closed spec fn view(&self) -> Seq<u8> {
        self.bytes@.subrange(0, self.written as int)
    }
}

impl Scratch {
    #[verifier::type_invariant]
    spec fn within_capacity(self) -> bool {
        self.written <= SCRATCH_CAPACITY
    }

    /// An empty region.
    pub fn new() -> (scratch: Scratch)
        ensures
            scratch@ == Seq::<u8>::empty(),
    {
        Scratch { bytes: [0u8; SCRATCH_CAPACITY], written: 0 }
    }

    /// Starts over at the beginning of the region.
    pub fn clear(&mut self)
        ensures
            final(self)@ == Seq::<u8>::empty(),
    {
        self.written = 0;
    }

    /// Number of bytes written so far.
    pub fn len(&self) -> (len: usize)
        ensures
            len == self@.len(),
            len <= SCRATCH_CAPACITY,
    {
        proof {
            use_type_invariant(self);
        }
        self.written
    }

    /// Writes `data` behind what is already written, or nothing at all where
    /// it would not fit.
    pub fn append(&mut self, data: &[u8]) -> (done: Result<(), ScratchFull>)
        ensures
            old(self)@.len() + data@.len() <= SCRATCH_CAPACITY ==> done is Ok,
            old(self)@.len() + data@.len() <= SCRATCH_CAPACITY ==> final(self)@ == old(self)@
                + data@,
            old(self)@.len() + data@.len() > SCRATCH_CAPACITY ==> done is Err,
            old(self)@.len() + data@.len() > SCRATCH_CAPACITY ==> final(self)@ == old(self)@,
    {
        proof {
            use_type_invariant(&*self);
        }
        if data.len() > SCRATCH_CAPACITY - self.written {
            return Err(ScratchFull);
        }
        let start = self.written;
        let mut i: usize = 0;
        while i < data.len()
            invariant
                start + data.len() <= SCRATCH_CAPACITY,
                i <= data.len(),
                start == old(self).written,
                self.written == start,
                self.bytes@.subrange(0, start + i) == old(self).bytes@.subrange(0, start as int)
                    + data@.subrange(0, i as int),
            decreases data.len() - i,
        {
            let ghost before = self.bytes@;
            self.bytes[start + i] = data[i];
            i = i + 1;
            assert(self.bytes@.subrange(0, start + i) =~= before.subrange(0, start + i - 1).push(
                data@[i - 1],
            ));
            assert(data@.subrange(0, i as int) =~= data@.subrange(0, i - 1).push(data@[i - 1]));
        }
        self.written = start + data.len();
        proof {
            assert(data@.subrange(0, data@.len() as int) =~= data@);
        }
        Ok(())
    }

    /// The bytes written so far.
    pub fn as_slice(&self) -> (written: &[u8])
        ensures
            written@ == self@,
    {
        proof {
            use_type_invariant(self);
        }
        &self.bytes.as_slice()[0..self.written]
    }
}

} // verus!
