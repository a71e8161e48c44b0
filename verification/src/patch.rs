use vstd::prelude::*;

use vstd::bytes::*;
use vstd::slice::*;

use crate::error::RustineErrorKind;

verus! {

/// The eight ASCII bytes `BSDIFF40`, the magic of the external delta format.
pub open spec fn bsdiff_magic_seq() -> Seq<u8> {
    seq![66u8, 83u8, 68u8, 73u8, 70u8, 70u8, 52u8, 48u8]
}

/// One 8-byte size field of the external delta header: a little-endian
/// magnitude with the sign in the top bit, where a set sign over a zero
/// magnitude reads as the smallest value rather than a negative zero.
pub open spec fn spec_sign_magnitude(s: Seq<u8>) -> int {
    let u = spec_u64_from_le_bytes(s);
    if u < 0x8000000000000000 {
        u as int
    } else if u == 0x8000000000000000 {
        -0x8000000000000000
    } else {
        -((u - 0x8000000000000000) as int)
    }
}

/// The structural acceptance condition of the external patcher's header:
/// long enough for the fixed header, the fixed magic, and compressed-block
/// sizes that are non-negative and fit inside the delta. A delta that
/// carries the magic but breaks the size bounds would drive the external
/// parser into unchecked size arithmetic, so this library decides
/// acceptance itself and never hands such a delta over.
pub open spec fn delta_valid(d: Seq<u8>) -> bool {
    &&& d.len() >= 32
    &&& d.subrange(0, 8) == bsdiff_magic_seq()
    &&& spec_sign_magnitude(d.subrange(8, 16)) >= 0
    &&& spec_sign_magnitude(d.subrange(16, 24)) >= 0
    &&& 32 + spec_sign_magnitude(d.subrange(8, 16)) + spec_sign_magnitude(d.subrange(16, 24))
        <= d.len()
}

/// What the external patcher produces when it applies a delta to a base:
/// a function of the two buffers alone.
pub uninterp spec fn patch_of(base: Seq<u8>, delta: Seq<u8>) -> Seq<u8>;

/// Whether the external patcher, given an accepted delta, runs through to
/// the end on a pair of buffers: a function of the two buffers alone.
pub uninterp spec fn patch_ok(base: Seq<u8>, delta: Seq<u8>) -> bool;

/// Whether the external patcher's structural check accepts a delta. The
/// condition is computed here, in verified code, so that unacceptable
/// deltas are turned away before the external parser sees them.
pub fn validate(delta: &[u8]) -> (r: bool)
    ensures
        r == delta_valid(delta@),
{
    let n: usize = delta.len();
    if n < 32 {
        return false;
    }
    let magic_ok: bool = *slice_index_get(delta, 0) == 66 && *slice_index_get(delta, 1) == 83
        && *slice_index_get(delta, 2) == 68 && *slice_index_get(delta, 3) == 73
        && *slice_index_get(delta, 4) == 70 && *slice_index_get(delta, 5) == 70
        && *slice_index_get(delta, 6) == 52 && *slice_index_get(delta, 7) == 48;
    proof {
        let s = delta@.subrange(0, 8);
        assert(forall|k: int| 0 <= k < 8 ==> s[k] == delta@[k]);
        if magic_ok {
            assert(s =~= bsdiff_magic_seq());
        } else {
            assert(s != bsdiff_magic_seq());
        }
    }
    if !magic_ok {
        return false;
    }
    let csize: u64 = u64_from_le_bytes(slice_subrange(delta, 8, 16));
    let dsize: u64 = u64_from_le_bytes(slice_subrange(delta, 16, 24));
    if csize >= 0x8000000000000000 || dsize >= 0x8000000000000000 {
        return false;
    }
    let limit: u64 = (n as u64) - 32;
    if csize > limit || dsize > limit - csize {
        return false;
    }
    true
}

/// Relies on qbsdiff::Bspatch::{new, apply}: under the structural
/// precondition `new` accepts the delta without reaching its unchecked
/// size arithmetic, and whether `apply` then runs through, and what it
/// writes, are functions of the base and delta alone; failures are
/// reported, not raised.
#[verifier::external_body]
pub fn apply(base: &[u8], patch_data: &[u8]) -> (r: Result<Vec<u8>, RustineErrorKind>)
    requires
        delta_valid(patch_data@),
    ensures
        r is Ok <==> patch_ok(base@, patch_data@),
        r matches Ok(v) ==> v@ == patch_of(base@, patch_data@),
        r matches Err(e) ==> e matches RustineErrorKind::PatchFailed { .. },
{
    match qbsdiff::Bspatch::new(patch_data) {
        Err(e) => Err(RustineErrorKind::PatchFailed { message: e.to_string() }),
        Ok(patcher) => {
            let mut out = Vec::new();
            match patcher.apply(base, &mut out) {
                Ok(_) => Ok(out),
                Err(e) => Err(RustineErrorKind::PatchFailed { message: e.to_string() }),
            }
        },
    }
}

} // verus!
