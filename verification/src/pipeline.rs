use vstd::prelude::*;

use crate::checksum;
use crate::checksum::{spec_hash, spec_hex};
use crate::diff;
use crate::diff::{diff_of, diff_ok};
use crate::error::RustineErrorKind;
use crate::format::{spec_deserialize, spec_serialize, PatchData, PatchView};
use crate::patch;
use crate::patch::{delta_valid, patch_of, patch_ok};
use crate::preview;
use crate::preview::{changes_view, spec_find_changes, ByteChange};

verus! {

/// What the caller asks of patch generation.
#[derive(Debug, Clone, Copy, PartialEq, Eq, Structural)]
pub struct GenerateOptions {
    /// Embed digests of the base and the target.
    pub checksum: bool,
    /// Also compute and embed the reverse delta.
    pub reverse: bool,
}

/// The container that generation assembles for a pair of buffers.
pub open spec fn spec_generated_view(base: Seq<u8>, target: Seq<u8>, opts: GenerateOptions) -> PatchView {
    PatchView {
        base_checksum: if opts.checksum {
            Some(spec_hash(base))
        } else {
            None
        },
        output_checksum: if opts.checksum {
            Some(spec_hash(target))
        } else {
            None
        },
        forward_patch: diff_of(base, target),
        reverse_patch: if opts.reverse {
            Some(diff_of(target, base))
        } else {
            None
        },
        metadata: None,
    }
}

/// Produce the encoded container for going `base` to `target`: the forward
/// delta, plus digests and a reverse delta when asked for. A failure of
/// either external diff invocation is handed through unchanged.
pub fn generate(base: &[u8], target: &[u8], opts: GenerateOptions) -> (r: Result<
    Vec<u8>,
    RustineErrorKind,
>)
    requires
        base@.len() <= 0x7fffffff,
        opts.reverse ==> target@.len() <= 0x7fffffff,
    ensures
        r is Ok <==> (diff_ok(base@, target@) && (opts.reverse ==> diff_ok(target@, base@))),
        r matches Ok(bytes) ==> bytes@ == spec_serialize(spec_generated_view(base@, target@, opts)),
        r is Ok ==> (delta_valid(diff_of(base@, target@)) && (target@.len() < 0x8000000000000000
            ==> diff_of(base@, target@).subrange(24, 32) == vstd::bytes::spec_u64_to_le_bytes(
            target@.len() as u64,
        ))),
        r matches Err(e) ==> e matches RustineErrorKind::DiffFailed { .. },
{
    let forward: Vec<u8>;
    match diff::create(base, target) {
        Ok(v) => {
            forward = v;
        },
        Err(e) => {
            return Err(e);
        },
    }
    let mut patch_data: PatchData = PatchData::new(forward);
    if opts.checksum {
        let base_hash: [u8; 32] = checksum::hash(base);
        let output_hash: [u8; 32] = checksum::hash(target);
        patch_data = patch_data.with_checksums(base_hash, output_hash);
    }
    if opts.reverse {
        let rev: Vec<u8>;
        match diff::create(target, base) {
            Ok(v) => {
                rev = v;
            },
            Err(e) => {
                return Err(e);
            },
        }
        patch_data = patch_data.with_reverse(rev);
    }
    proof {
        assert(patch_data@ == spec_generated_view(base@, target@, opts));
    }
    Ok(patch_data.serialize())
}

/// What the caller asks of patch application. Whether the result is then
/// written anywhere is the caller's business; a dry run simply does not
/// write what comes back.
#[derive(Debug, Clone, Copy, PartialEq, Eq, Structural)]
pub struct ApplyOptions {
    /// Apply the reverse delta, swapping the digest roles.
    pub reverse: bool,
    /// Check the digests the container carries, before and after applying.
    pub verify: bool,
    /// Also compute the change regions between the base and the result.
    pub with_preview: bool,
}

/// What application produces: the reconstructed buffer, and the change
/// preview when one was asked for.
#[derive(Debug)]
pub struct ApplyOutcome {
    pub output: Vec<u8>,
    pub changes: Option<Vec<ByteChange>>,
}

/// The delta that a direction selects out of a container.
pub open spec fn sel_delta(c: PatchView, reverse: bool) -> Seq<u8>
    recommends
        reverse ==> c.reverse_patch is Some,
{
    if reverse {
        c.reverse_patch->Some_0
    } else {
        c.forward_patch
    }
}

/// The digest the supplied base must match: going forward that is the base
/// digest; going in reverse the roles swap and it is the output digest.
pub open spec fn sel_pre_digest(c: PatchView, reverse: bool) -> Option<Seq<u8>> {
    if reverse {
        c.output_checksum
    } else {
        c.base_checksum
    }
}

/// The digest the produced result must match; the mirror of the above.
pub open spec fn sel_post_digest(c: PatchView, reverse: bool) -> Option<Seq<u8>> {
    if reverse {
        c.base_checksum
    } else {
        c.output_checksum
    }
}

/// Reverse application swaps the digest roles exactly: what the forward
/// direction demands of the result, the reverse direction demands of the
/// supplied base, and the other way round.
pub proof fn lemma_digest_role_swap(c: PatchView)
    ensures
        sel_pre_digest(c, true) == sel_post_digest(c, false),
        sel_post_digest(c, true) == sel_pre_digest(c, false),
        sel_pre_digest(c, false) == c.base_checksum,
        sel_post_digest(c, false) == c.output_checksum,
{
}

/// Apply a decoded container to a base buffer: select the direction, check
/// the pre-image digest before any patching, turn away a structurally
/// unacceptable delta, apply, check the post-image digest before anything
/// is handed back, and optionally preview the changes. Every stage is a
/// function of the inputs, so the contract pins the outcome of each.
pub fn apply(base: &[u8], patch_file_data: &[u8], opts: ApplyOptions) -> (r: Result<
    ApplyOutcome,
    RustineErrorKind,
>)
    ensures
        ({
            let d = spec_deserialize(patch_file_data@);
            match d {
                Err(e) => r == Err::<ApplyOutcome, RustineErrorKind>(e),
                Ok(c) => {
                    if opts.reverse && c.reverse_patch is None {
                        r == Err::<ApplyOutcome, RustineErrorKind>(
                            RustineErrorKind::MissingReversePatch,
                        )
                    } else {
                        let delta = sel_delta(c, opts.reverse);
                        let pre = sel_pre_digest(c, opts.reverse);
                        let post = sel_post_digest(c, opts.reverse);
                        if opts.verify && pre is Some && pre->Some_0 != spec_hash(base@) {
                            r matches Err(e) && checksum::is_mismatch_report(
                                e,
                                pre->Some_0,
                                spec_hash(base@),
                            )
                        } else if !delta_valid(delta) {
                            r matches Err(e) && e matches RustineErrorKind::InvalidPatch { .. }
                        } else if !patch_ok(base@, delta) {
                            r matches Err(e) && e matches RustineErrorKind::PatchFailed { .. }
                        } else if opts.verify && post is Some && post->Some_0 != spec_hash(
                            patch_of(base@, delta),
                        ) {
                            r matches Err(e) && checksum::is_mismatch_report(
                                e,
                                post->Some_0,
                                spec_hash(patch_of(base@, delta)),
                            )
                        } else {
                            r matches Ok(out) && ({
                                &&& out.output@ == patch_of(base@, delta)
                                &&& (opts.with_preview ==> (out.changes matches Some(cs)
                                    && changes_view(cs@) == spec_find_changes(base@, out.output@)))
                                &&& (!opts.with_preview ==> out.changes is None)
                            })
                        }
                    }
                },
            }
        }),
{
    let container: PatchData;
    match PatchData::deserialize(patch_file_data) {
        Ok(c) => {
            container = c;
        },
        Err(e) => {
            return Err(e);
        },
    }

    let delta_slice: &[u8];
    let pre_digest: Option<[u8; 32]>;
    let post_digest: Option<[u8; 32]>;
    if opts.reverse {
        match &container.reverse_patch {
            Some(rp) => {
                delta_slice = rp.as_slice();
            },
            None => {
                return Err(RustineErrorKind::MissingReversePatch);
            },
        }
        // reversing swaps the digest roles
        pre_digest = container.output_checksum;
        post_digest = container.base_checksum;
    } else {
        delta_slice = container.forward_patch.as_slice();
        pre_digest = container.base_checksum;
        post_digest = container.output_checksum;
    }

    if opts.verify {
        if let Some(expected) = &pre_digest {
            match checksum::verify_hash(base, expected) {
                Ok(_) => {},
                Err(e) => {
                    return Err(e);
                },
            }
        }
    }

    if !patch::validate(delta_slice) {
        return Err(
            RustineErrorKind::InvalidPatch { message: "invalid patch format".to_owned() },
        );
    }

    let output: Vec<u8>;
    match patch::apply(base, delta_slice) {
        Ok(v) => {
            output = v;
        },
        Err(e) => {
            return Err(e);
        },
    }

    if opts.verify {
        if let Some(expected) = &post_digest {
            match checksum::verify_hash(output.as_slice(), expected) {
                Ok(_) => {},
                Err(e) => {
                    return Err(e);
                },
            }
        }
    }

    let changes: Option<Vec<ByteChange>> = if opts.with_preview {
        Some(preview::find_changes(base, output.as_slice()))
    } else {
        None
    };

    Ok(ApplyOutcome { output, changes })
}

} // verus!
