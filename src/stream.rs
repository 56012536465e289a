//! Raw chunked copying of durable storage, page-sized chunks out and byte
//! ranges back in, unaware of any format the bytes may hold.
use vstd::prelude::*;
use crate::durable::{overwritten, pages_for, pages_of, zero_filled, DurableMemory, PAGE_SIZE};
use crate::error::PersistError;

verus! {

/// Durable storage after `data` is restored at byte `offset`: first grown
/// with zeroed pages until the range fits, then overwritten there.
pub open spec fn restored_region(m: Seq<u8>, offset: int, data: Seq<u8>) -> Seq<u8> {
    overwritten(zero_filled(m, pages_for(offset + data.len())), offset, data)
}

/// Whether `pages` pages starting at byte `offset` lie within a region of
/// `region_pages` pages.
pub open spec fn backup_in_bounds(offset: int, pages: int, region_pages: int) -> bool {
    offset + pages * PAGE_SIZE <= region_pages * PAGE_SIZE
}

/// Pages a region of `region_pages` pages must grow by to hold bytes up to `end`.
pub open spec fn extra_pages(end: int, region_pages: int) -> int {
    if pages_for(end) > region_pages {
        pages_for(end) - region_pages
    } else {
        0
    }
}

/// Validates a backup of `pages` pages at byte `offset` against a region of
/// `region_pages` pages, and gives the number of bytes to copy out.
pub fn backup_len(offset: u64, pages: usize, region_pages: u64) -> (r: Result<usize, PersistError>)
    ensures
        !backup_in_bounds(offset as int, pages as int, region_pages as int)
            ==> r == Err::<usize, PersistError>(PersistError::OutOfBounds),
        backup_in_bounds(offset as int, pages as int, region_pages as int) && pages * PAGE_SIZE
            > usize::MAX ==> r == Err::<usize, PersistError>(PersistError::OutOfMemory),
        backup_in_bounds(offset as int, pages as int, region_pages as int) && pages * PAGE_SIZE
            <= usize::MAX ==> r == Ok::<usize, PersistError>((pages * PAGE_SIZE) as usize),
{
    let want: u128 = pages as u128 * PAGE_SIZE as u128;
    assert(want <= u64::MAX as u128 * 65536) by (nonlinear_arith)
        requires
            want == pages * 65536,
            pages <= u64::MAX,
    ;
    let end: u128 = offset as u128 + want;
    let region: u128 = region_pages as u128 * PAGE_SIZE as u128;
    if end > region {
        Err(PersistError::OutOfBounds)
    } else if want > usize::MAX as u128 {
        Err(PersistError::OutOfMemory)
    } else {
        Ok(want as usize)
    }
}

/// The number of pages a region of `region_pages` pages must grow by before
/// `len` bytes can be written at byte `offset`; zero when they already fit.
pub fn growth_needed(offset: u64, len: usize, region_pages: u64) -> (r: u64)
    ensures
        r == extra_pages(offset + len, region_pages as int),
{
    let end: u128 = offset as u128 + len as u128;
    let needed: u128 = (end + (PAGE_SIZE - 1) as u128) / PAGE_SIZE as u128;
    if needed > region_pages as u128 {
        (needed - region_pages as u128) as u64
    } else {
        0
    }
}

/// Copies out the `pages` pages of durable storage that start at byte
/// `offset`. Refused, with nothing changed, when the range reaches past the
/// current allocation.
pub fn stream_backup(mem: &DurableMemory, offset: u64, pages: usize) -> (r: Result<
    Vec<u8>,
    PersistError,
>)
    requires
        mem.wf(),
    ensures
        offset + pages * PAGE_SIZE > mem@.len() ==> r == Err::<Vec<u8>, PersistError>(
            PersistError::OutOfBounds,
        ),
        offset + pages * PAGE_SIZE <= mem@.len() ==> r is Ok && r.unwrap()@ == mem@.subrange(
            offset as int,
            offset + pages * PAGE_SIZE,
        ),
{
    proof {
        mem.lemma_shape();
    }
    let region = mem.page_count();
    let len = backup_len(offset, pages, region)?;
    Ok(mem.read(offset, len))
}

/// Writes `data` into durable storage at byte `offset`, first growing the
/// region by whole zeroed pages when the range reaches past it. Refused, with
/// nothing changed, when the region cannot grow that far. Repeating the call
/// gives the same content.
pub fn stream_restore(mem: &mut DurableMemory, offset: u64, data: &[u8]) -> (r: Result<
    (),
    PersistError,
>)
    requires
        old(mem).wf(),
    ensures
        final(mem).wf(),
        final(mem).capacity() == old(mem).capacity(),
        pages_for(offset + data@.len()) <= old(mem).capacity() ==> r is Ok && final(mem)@
            == restored_region(old(mem)@, offset as int, data@),
        pages_for(offset + data@.len()) > old(mem).capacity() ==> r == Err::<(), PersistError>(
            PersistError::OutOfMemory,
        ) && final(mem)@ == old(mem)@,
{
    proof {
        mem.lemma_shape();
    }
    let extra = growth_needed(offset, data.len(), mem.page_count());
    if extra > 0 {
        mem.grow(extra)?;
    }
    proof {
        mem.lemma_shape();
    }
    mem.write(offset, data);
    Ok(())
}

/// Restoring a chunk that was just backed up from the same place leaves
/// durable storage as it was, and the restore needs no growth.
pub proof fn lemma_stream_round_trip(m: Seq<u8>, offset: int, pages: int)
    requires
        m.len() as int % (PAGE_SIZE as int) == 0,
        0 <= offset,
        0 <= pages,
        offset + pages * PAGE_SIZE <= m.len(),
    ensures
        pages_for(offset + pages * PAGE_SIZE) <= pages_of(m),
        restored_region(m, offset, m.subrange(offset, offset + pages * PAGE_SIZE)) == m,
{
    let chunk = m.subrange(offset, offset + pages * PAGE_SIZE);
    assert(pages_for(offset + pages * PAGE_SIZE) * PAGE_SIZE <= m.len());
    assert(restored_region(m, offset, chunk) =~= m);
}

} // verus!
