use vstd::prelude::*;

use vstd::bytes::*;

use crate::error::RustineErrorKind;
use crate::patch::delta_valid;

verus! {

/// What the external delta compressor produces for a pair of buffers. With
/// the fixed configuration used here its output is a function of the two
/// buffers alone, so the sequence gets a name rather than a transcription.
pub uninterp spec fn diff_of(base: Seq<u8>, target: Seq<u8>) -> Seq<u8>;

/// Whether the external delta compressor runs through to the end on a pair
/// of buffers: a function of the two buffers alone.
pub uninterp spec fn diff_ok(base: Seq<u8>, target: Seq<u8>) -> bool;

/// Relies on qbsdiff::Bsdiff::{new, parallel_scheme, compare}: `new` panics
/// only when the source exceeds its indexable maximum of i32::MAX bytes,
/// which the precondition rules out; `compare` under a fixed configuration
/// writes a delta determined by the two buffers alone, and fails only with
/// an error of its encoder, which it reports rather than raises. The delta
/// it writes is a fixed 32-byte header — the magic, two non-negative block
/// sizes that add up within the output, and the target length declared at
/// bytes 24 to 32 — followed by the blocks, so it passes the structural
/// acceptance check.
#[verifier::external_body]
pub fn create(base: &[u8], target: &[u8]) -> (r: Result<Vec<u8>, RustineErrorKind>)
    requires
        base@.len() <= 0x7fffffff,
    ensures
        r is Ok <==> diff_ok(base@, target@),
        r matches Ok(v) ==> ({
            &&& v@ == diff_of(base@, target@)
            &&& delta_valid(v@)
            &&& (target@.len() < 0x8000000000000000 ==> v@.subrange(24, 32)
                == spec_u64_to_le_bytes(target@.len() as u64))
        }),
        r matches Err(e) ==> e matches RustineErrorKind::DiffFailed { .. },
{
    let mut out = Vec::new();
    let bsdiff = qbsdiff::Bsdiff::new(base, target).parallel_scheme(qbsdiff::ParallelScheme::Auto);
    match bsdiff.compare(&mut out) {
        Ok(_) => Ok(out),
        Err(e) => Err(RustineErrorKind::DiffFailed { message: e.to_string() }),
    }
}

} // verus!
