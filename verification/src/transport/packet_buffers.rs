//! Descriptors of packets in a shared packet memory (UMEM).

use vstd::prelude::*;

verus! {

/// The segment size of a descriptor's packet.
pub trait SegmentSize: Clone + Copy + core::fmt::Debug {}

/// A packet in the shared memory: `len` bytes at `address`.
#[derive(Clone, Copy, Debug)]
pub struct Descriptor<SegmentSize> {
    pub address: u32,
    pub len: u32,
    pub segment_size: SegmentSize,
}

impl<S> Descriptor<S> {
    /// The bytes of the packet in the shared memory `umem`.
    ///
    /// The packet must lie in the memory.
    pub fn slice<'a>(&self, umem: &'a mut [u8]) -> (r: &'a mut [u8])
        requires
            self.address + self.len <= old(umem)@.len(),
        ensures
            r@ == old(umem)@.subrange(self.address as int, self.address + self.len),
            final(umem)@ == old(umem)@.subrange(0, self.address as int) + final(r)@ + old(
                umem,
            )@.subrange(self.address + self.len, old(umem)@.len() as int),
    {
        let (_, rest) = umem.split_at_mut(self.address as usize);
        let (packet, _) = rest.split_at_mut(self.len as usize);
        packet
    }
}

} // verus!
