//! Framing of snapshot envelopes in durable storage. An envelope is the
//! encoded store, opened by a four-byte format tag (`DIDL`); a snapshot is an
//! envelope written from the first byte of durable storage.
use vstd::prelude::*;
use crate::durable::{pages_for, DurableMemory, PAGE_SIZE};
use crate::error::PersistError;
use crate::stream::{restored_region, stream_restore};

verus! {

/// Whether `b` opens with the envelope's format tag, the bytes of `DIDL`.
pub open spec fn has_envelope_tag(b: Seq<u8>) -> bool {
    &&& b.len() >= 4
    &&& b[0] == 0x44u8
    &&& b[1] == 0x49u8
    &&& b[2] == 0x44u8
    &&& b[3] == 0x4cu8
}

/// Checks the format tag of `bytes` before anything trusts the rest of them.
pub fn check_envelope(bytes: &[u8]) -> (r: Result<(), PersistError>)
    ensures
        has_envelope_tag(bytes@) ==> r is Ok,
        !has_envelope_tag(bytes@) ==> r == Err::<(), PersistError>(PersistError::BadEnvelope),
{
    if bytes.len() >= 4 && bytes[0] == 0x44u8 && bytes[1] == 0x49u8 && bytes[2] == 0x44u8
        && bytes[3] == 0x4cu8 {
        Ok(())
    } else {
        Err(PersistError::BadEnvelope)
    }
}

/// Commits `envelope` as the snapshot: it is written from the first byte of
/// durable storage, which grows by whole pages if it is too small. Bytes
/// without the format tag are refused, as is an envelope larger than durable
/// storage can grow; a refusal changes nothing.
pub fn save_snapshot(mem: &mut DurableMemory, envelope: &[u8]) -> (r: Result<(), PersistError>)
    requires
        old(mem).wf(),
    ensures
        final(mem).wf(),
        final(mem).capacity() == old(mem).capacity(),
        !has_envelope_tag(envelope@) ==> r == Err::<(), PersistError>(PersistError::BadEnvelope)
            && final(mem)@ == old(mem)@,
        has_envelope_tag(envelope@) && pages_for(envelope@.len() as int) > old(mem).capacity()
            ==> r == Err::<(), PersistError>(PersistError::OutOfMemory) && final(mem)@ == old(
            mem,
        )@,
        has_envelope_tag(envelope@) && pages_for(envelope@.len() as int) <= old(mem).capacity()
            ==> r is Ok && final(mem)@ == restored_region(old(mem)@, 0, envelope@),
{
    check_envelope(envelope)?;
    stream_restore(mem, 0, envelope)
}

/// Reads the whole of durable storage for decoding as a snapshot, after
/// checking that it opens with the format tag. Durable storage is only read,
/// so loading again gives the same bytes.
pub fn load_snapshot(mem: &DurableMemory) -> (r: Result<Vec<u8>, PersistError>)
    requires
        mem.wf(),
    ensures
        has_envelope_tag(mem@) ==> r is Ok && r.unwrap()@ == mem@,
        !has_envelope_tag(mem@) ==> r == Err::<Vec<u8>, PersistError>(PersistError::BadEnvelope),
{
    proof {
        mem.lemma_shape();
    }
    let bytes = mem.read(0, (mem.page_count() * PAGE_SIZE) as usize);
    assert(bytes@ =~= mem@);
    check_envelope(bytes.as_slice())?;
    Ok(bytes)
}

/// After a snapshot is saved, loading hands the decoder bytes that open with
/// exactly the saved envelope, so the tag check passes and decoding sees the
/// envelope as it was written.
pub proof fn lemma_snapshot_round_trip(m: Seq<u8>, envelope: Seq<u8>)
    requires
        has_envelope_tag(envelope),
    ensures
        has_envelope_tag(restored_region(m, 0, envelope)),
        restored_region(m, 0, envelope).take(envelope.len() as int) == envelope,
{
    let r = restored_region(m, 0, envelope);
    assert(r.take(envelope.len() as int) =~= envelope);
    assert(r[0] == envelope[0] && r[1] == envelope[1] && r[2] == envelope[2] && r[3]
        == envelope[3]);
}

} // verus!
