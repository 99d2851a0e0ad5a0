//! Handle allocation.
//!
//! Handles are opaque 64-bit integers. One process-wide allocator issues
//! platform handles; each platform owns a second allocator of the same kind for
//! its response handles. An allocator never reuses a value: it counts up from
//! zero, one handle per call.

use vstd::prelude::*;

verus! {

/// Issues monotonically increasing 64-bit handles, starting at zero, never
/// reusing a value once issued.
pub struct HandleAllocator {
    next_handle: i64,
    issued_handles: Ghost<Seq<i64>>,
}

impl HandleAllocator {
    /// The handle the next allocation will return.
    pub closed spec fn next(&self) -> i64 {
        self.next_handle
    }

    /// Every handle this allocator has issued, in order of issue.
    pub closed spec fn issued(&self) -> Seq<i64> {
        self.issued_handles@
    }

    /// The allocator has issued exactly the handles `0, 1, ..., next() - 1`,
    /// in that order.
    pub closed spec fn wf(&self) -> bool {
        &&& 0 <= self.next_handle
        &&& self.issued_handles@.len() == self.next_handle as int
        &&& forall|i: int|
            0 <= i < self.issued_handles@.len() ==> self.issued_handles@[i] == i
    }

    pub fn new() -> (a: HandleAllocator)
        ensures
            a.wf(),
            a.next() == 0,
            a.issued() == Seq::<i64>::empty(),
    {
        HandleAllocator { next_handle: 0, issued_handles: Ghost(Seq::empty()) }
    }

    fn issue(&mut self) -> (h: i64)
        requires
            old(self).wf(),
            old(self).next() < i64::MAX,
        ensures
            final(self).wf(),
            0 <= h,
            h == old(self).next(),
            final(self).next() == old(self).next() + 1,
            final(self).issued() == old(self).issued().push(h),
    {
        let h = self.next_handle;
        self.next_handle = self.next_handle + 1;
        self.issued_handles = Ghost(self.issued_handles@.push(h));
        h
    }

    /// The handle the next allocation will return, without allocating.
    pub fn peek_next(&self) -> (n: i64)
        ensures
            n == self.next(),
    {
        self.next_handle
    }

    /// Issues the next process-wide platform handle.
    pub fn generate_platform_handle(&mut self) -> (h: i64)
        requires
            old(self).wf(),
            old(self).next() < i64::MAX,
        ensures
            final(self).wf(),
            0 <= h,
            h == old(self).next(),
            final(self).next() == old(self).next() + 1,
            final(self).issued() == old(self).issued().push(h),
    {
        self.issue()
    }

    /// Issues the next response handle of the platform that owns this
    /// allocator. Response handles follow the same never-reused, counting-up
    /// discipline as platform handles, but from a counter private to one
    /// platform, so distinct platforms do reuse the same response values.
    pub fn next_response_handle(&mut self) -> (h: i64)
        requires
            old(self).wf(),
            old(self).next() < i64::MAX,
        ensures
            final(self).wf(),
            0 <= h,
            h == old(self).next(),
            final(self).next() == old(self).next() + 1,
            final(self).issued() == old(self).issued().push(h),
    {
        self.issue()
    }
}

/// Law: handles issued by one allocator are strictly increasing in order of
/// issue.
pub proof fn lemma_issued_strictly_increasing(a: &HandleAllocator, i: int, j: int)
    requires
        a.wf(),
        0 <= i < j < a.issued().len(),
    ensures
        a.issued()[i] < a.issued()[j],
{
}

/// Law: handles issued by one allocator are pairwise distinct; a value is
/// never issued twice.
pub proof fn lemma_issued_pairwise_distinct(a: &HandleAllocator, i: int, j: int)
    requires
        a.wf(),
        0 <= i < a.issued().len(),
        0 <= j < a.issued().len(),
        i != j,
    ensures
        a.issued()[i] != a.issued()[j],
{
}

} // verus!
