//! Durable storage: a byte region whose size is a whole number of pages, read
//! and written at byte offsets and grown page by page.
use vstd::prelude::*;
use crate::error::PersistError;

verus! {

/// Bytes in one page of either memory tier.
pub const PAGE_SIZE: u64 = 65536;

/// Number of whole pages needed to hold `n` bytes.
pub open spec fn pages_for(n: int) -> int {
    (n + PAGE_SIZE - 1) / (PAGE_SIZE as int)
}

/// Number of whole pages in `m`.
pub open spec fn pages_of(m: Seq<u8>) -> int {
    m.len() as int / (PAGE_SIZE as int)
}

/// `m` extended with zero bytes up to `pages` pages, if it is shorter.
pub open spec fn zero_filled(m: Seq<u8>, pages: int) -> Seq<u8> {
    if pages * PAGE_SIZE <= m.len() {
        m
    } else {
        m + Seq::new((pages * PAGE_SIZE - m.len()) as nat, |i: int| 0u8)
    }
}

/// `m` with `data` written over it starting at byte `offset`.
pub open spec fn overwritten(m: Seq<u8>, offset: int, data: Seq<u8>) -> Seq<u8> {
    m.take(offset) + data + m.skip(offset + data.len())
}

/// A region of whole pages that can grow up to a page limit.
pub struct DurableMemory {
    bytes: Vec<u8>,
    max_pages: u64,
}

impl View for DurableMemory {
    type V = Seq<u8>;

    closed spec fn view(&self) -> Seq<u8> {
        self.bytes@
    }
}

impl DurableMemory {
    /// The number of pages the region may grow to.
    pub closed spec fn capacity(&self) -> nat {
        self.max_pages as nat
    }

    /// The region is whole pages, within its limit, and addressable.
    pub closed spec fn wf(&self) -> bool {
        &&& self.bytes@.len() as int % (PAGE_SIZE as int) == 0
        &&& self.bytes@.len() <= self.max_pages * PAGE_SIZE
        &&& self.max_pages * PAGE_SIZE <= usize::MAX
    }

    /// What a well-formed region looks like from outside.
    pub proof fn lemma_shape(&self)
        requires
            self.wf(),
        ensures
            self@.len() as int % (PAGE_SIZE as int) == 0,
            self@.len() <= self.capacity() * PAGE_SIZE,
            self.capacity() * PAGE_SIZE <= usize::MAX,
    {
    }

    /// An empty region that may grow to `max_pages` pages.
    pub fn new(max_pages: u64) -> (r: DurableMemory)
        requires
            max_pages * PAGE_SIZE <= usize::MAX,
        ensures
            r.wf(),
            r@ == Seq::<u8>::empty(),
            r.capacity() == max_pages,
    {
        DurableMemory { bytes: Vec::new(), max_pages }
    }

    /// The current size of the region in pages.
    pub fn page_count(&self) -> (r: u64)
        requires
            self.wf(),
        ensures
            r == pages_of(self@),
    {
        (self.bytes.len() / PAGE_SIZE as usize) as u64
    }

    /// Adds `new_pages` zeroed pages and returns the previous page count, or
    /// refuses, changing nothing, when that passes the page limit.
    pub fn grow(&mut self, new_pages: u64) -> (r: Result<u64, PersistError>)
        requires
            old(self).wf(),
        ensures
            final(self).wf(),
            final(self).capacity() == old(self).capacity(),
            pages_of(old(self)@) + new_pages <= old(self).capacity() ==> {
                &&& r == Ok::<u64, PersistError>((pages_of(old(self)@)) as u64)
                &&& final(self)@ == zero_filled(
                    old(self)@,
                    pages_of(old(self)@) + new_pages,
                )
            },
            pages_of(old(self)@) + new_pages > old(self).capacity() ==> {
                &&& r == Err::<u64, PersistError>(PersistError::OutOfMemory)
                &&& final(self)@ == old(self)@
            },
    {
        let pages = (self.bytes.len() / PAGE_SIZE as usize) as u64;
        if new_pages > self.max_pages - pages {
            return Err(PersistError::OutOfMemory);
        }
        let target: usize = ((pages + new_pages) * PAGE_SIZE) as usize;
        let ghost start = self.bytes@;
        while self.bytes.len() < target
            invariant
                start.len() <= self.bytes@.len() <= target,
                self.bytes@.take(start.len() as int) == start,
                forall|i: int| start.len() <= i < self.bytes@.len() ==> self.bytes@[i] == 0u8,
                self.max_pages == old(self).max_pages,
                start == old(self).bytes@,
            decreases target - self.bytes@.len(),
        {
            self.bytes.push(0u8);
        }
        assert(self.bytes@ =~= zero_filled(start, (pages + new_pages) as int));
        Ok(pages)
    }

    /// The `len` bytes starting at byte `offset`.
    pub fn read(&self, offset: u64, len: usize) -> (r: Vec<u8>)
        requires
            self.wf(),
            offset + len <= self@.len(),
        ensures
            r@ == self@.subrange(offset as int, offset + len),
    {
        let start = offset as usize;
        let mut out: Vec<u8> = Vec::new();
        let mut i: usize = 0;
        while i < len
            invariant
                i <= len,
                start == offset,
                offset + len <= self.bytes@.len(),
                self.bytes@.len() <= usize::MAX,
                out@ == self.bytes@.subrange(offset as int, offset + i),
            decreases len - i,
        {
            out.push(self.bytes[start + i]);
            i = i + 1;
            assert(out@ =~= self.bytes@.subrange(offset as int, offset + i));
        }
        out
    }

    /// Writes `data` over the bytes starting at byte `offset`.
    pub fn write(&mut self, offset: u64, data: &[u8])
        requires
            old(self).wf(),
            offset + data@.len() <= old(self)@.len(),
        ensures
            final(self).wf(),
            final(self).capacity() == old(self).capacity(),
            final(self)@ == overwritten(old(self)@, offset as int, data@),
    {
        let start = offset as usize;
        let mut i: usize = 0;
        while i < data.len()
            invariant
                i <= data@.len(),
                start == offset,
                offset + data@.len() <= old(self).bytes@.len(),
                old(self).bytes@.len() <= usize::MAX,
                self.max_pages == old(self).max_pages,
                self.bytes@ == overwritten(old(self).bytes@, offset as int, data@.take(i as int)),
            decreases data@.len() - i,
        {
            self.bytes.set(start + i, data[i]);
            i = i + 1;
            assert(self.bytes@ =~= overwritten(old(self).bytes@, offset as int, data@.take(i as int)));
        }
        assert(data@.take(data@.len() as int) =~= data@);
    }
}

} // verus!
