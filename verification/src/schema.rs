//! The boundary to the audio schema: whether a payload is a FlatBuffers
//! buffer that can safely be read.

use vstd::prelude::*;

verus! {

/// `flatbuffers::InvalidFlatbuffer`: the reason the FlatBuffers verifier
/// gives for turning a buffer down. Carried, never looked into.
#[verifier::external_type_specification]
#[verifier::external_body]
pub struct ExInvalidFlatbuffer(flatbuffers::InvalidFlatbuffer);

/// Whether `bytes` passes the FlatBuffers verifier as a buffer whose root is
/// a table: a root offset at position 0 that leads, inside the buffer, to a
/// table whose vtable lies inside the buffer too, all within the verifier's
/// default limits.
///
/// The answer depends on the bytes alone; nothing more is known of it here.
pub uninterp spec fn payload_well_formed(bytes: Seq<u8>) -> bool;

/// Runs the FlatBuffers verifier over `bytes`, from the root offset to the
/// root table: `flatbuffers::Verifier::new` with
/// `flatbuffers::VerifierOptions::default`, then `Verifier::get_uoffset` at
/// position 0 and `Verifier::visit_table` at the position found there.
///
/// Trusted: the call succeeds exactly on the buffers that
/// [`payload_well_formed`] names. The verifier reads within the buffer only
/// and reports what it finds as an error, whatever the bytes are.
#[verifier::external_body]
pub(crate) fn verify_root_table(bytes: &[u8]) -> (verdict: Result<(), flatbuffers::InvalidFlatbuffer>)
    ensures
        verdict.is_ok() == payload_well_formed(bytes@),
{
    let options = flatbuffers::VerifierOptions::default();
    let mut verifier = flatbuffers::Verifier::new(&options, bytes);
    let root = verifier.get_uoffset(0)?;
    verifier.visit_table(root as usize)?;
    Ok(())
}

/// Whether `payload` can be read as schema-encoded audio.
pub fn payload_is_well_formed(payload: &[u8]) -> (ok: bool)
    ensures
        ok == payload_well_formed(payload@),
{
    match verify_root_table(payload) {
        Ok(_) => true,
        Err(_) => false,
    }
}

} // verus!
