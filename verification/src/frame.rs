//! Physical-frame allocation: a monotonic bump allocator over one region of
//! memory that the bootloader marked usable. Every frame it hands out is
//! page-aligned; frames are never reused or freed.

use vstd::prelude::*;

verus! {

/// Size in bytes of one physical frame (and of one page).
pub const PAGE_SIZE: u64 = 4096;

/// A bump allocator over a physical region `[next, end)`.
///
/// The `offset` records the constant added to a frame's physical address to
/// obtain a virtual address the running code can dereference; it is kept so
/// that the same allocator serves both an identity-mapped and an
/// offset-mapped kernel. The allocator itself only hands out physical
/// addresses.
pub struct FrameAllocator {
    next: u64,
    end: u64,
    offset: u64,
}

impl FrameAllocator {
    /// The region is well-formed: page-aligned cursor and end.
    pub open spec fn wf(self) -> bool {
        &&& self.spec_next() % PAGE_SIZE == 0
        &&& self.spec_end() % PAGE_SIZE == 0
        &&& self.spec_next() <= self.spec_end()
    }

    pub closed spec fn spec_next(self) -> u64 {
        self.next
    }

    pub closed spec fn spec_end(self) -> u64 {
        self.end
    }

    pub closed spec fn spec_offset(self) -> u64 {
        self.offset
    }

    /// How many whole frames are still available.
    pub open spec fn frames_left(self) -> int {
        (self.spec_end() - self.spec_next()) / (PAGE_SIZE as int)
    }

    /// A new allocator over the usable region `[start, end)`.
    pub fn new(start: u64, end: u64, offset: u64) -> (r: FrameAllocator)
        requires
            start % PAGE_SIZE == 0,
            end % PAGE_SIZE == 0,
            start <= end,
        ensures
            r.wf(),
            r.spec_next() == start,
            r.spec_end() == end,
            r.spec_offset() == offset,
    {
        FrameAllocator { next: start, end, offset }
    }

    /// The physical-to-virtual translation constant this allocator was
    /// created with.
    pub fn offset(&self) -> (r: u64)
        ensures
            r == self.spec_offset(),
    {
        self.offset
    }

    /// Whether at least one more frame can be handed out.
    pub fn has_frames(&self) -> (r: bool)
        ensures
            r == (self.spec_next() < self.spec_end()),
    {
        self.next < self.end
    }

    /// Hands out the next frame: a page-aligned physical address, advanced
    /// monotonically; the backing memory is zero-filled by the party that
    /// owns it. Exhaustion of the region is fatal by design, so callers must
    /// establish that a frame is left.
    pub fn allocate(&mut self) -> (r: u64)
        requires
            old(self).wf(),
            old(self).spec_next() < old(self).spec_end(),
        ensures
            final(self).wf(),
            r == old(self).spec_next(),
            r % PAGE_SIZE == 0,
            final(self).spec_next() == r + PAGE_SIZE,
            final(self).spec_end() == old(self).spec_end(),
            final(self).spec_offset() == old(self).spec_offset(),
    {
        let r = self.next;
        self.next = self.next + PAGE_SIZE;
        r
    }
}

} // verus!
