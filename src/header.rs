//! Memory usage of both tiers, in pages and in bytes.
use vstd::prelude::*;
use crate::durable::PAGE_SIZE;

verus! {

/// Page counts and byte sizes of working memory (the heap) and of durable
/// (stable) memory, and the total of both sizes.
#[derive(Clone, Copy, Debug, PartialEq, Eq, Structural)]
pub struct MemoryHeader {
    pub heap_pages: u64,
    pub heap_size: u64,
    pub stable_pages: u64,
    pub stable_size: u64,
    pub all: u64,
}

impl MemoryHeader {
    /// The report for `heap_pages` pages of working memory and
    /// `stable_pages` pages of durable memory. The total must fit in 64 bits.
    pub fn from_pages(heap_pages: u64, stable_pages: u64) -> (r: MemoryHeader)
        requires
            (heap_pages + stable_pages) * PAGE_SIZE <= u64::MAX,
        ensures
            r.heap_pages == heap_pages,
            r.stable_pages == stable_pages,
            r.heap_size == heap_pages * PAGE_SIZE,
            r.stable_size == stable_pages * PAGE_SIZE,
            r.all == r.heap_size + r.stable_size,
    {
        let heap_size = heap_pages * PAGE_SIZE;
        let stable_size = stable_pages * PAGE_SIZE;
        MemoryHeader { heap_pages, heap_size, stable_pages, stable_size, all: heap_size + stable_size }
    }
}

} // verus!
