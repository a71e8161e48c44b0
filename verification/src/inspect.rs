use vstd::prelude::*;

use vstd::bytes::*;
use vstd::slice::*;
use vstd::string::*;

use crate::checksum;
use crate::checksum::{magic_v1_seq, spec_hex};
use crate::error::RustineErrorKind;
use crate::format::{detect, magic_v2_seq, spec_deserialize, PatchData, PatchFormat};
use crate::patch;
use crate::patch::delta_valid;

verus! {

/// The structural facts inspection reports about a container, without
/// applying it to anything.
#[derive(Debug)]
pub struct PatchInfo {
    pub patch_size: u64,
    pub expected_output_size: u64,
    pub format_version: String,
    pub is_valid: bool,
    pub has_checksums: bool,
    pub has_reverse: bool,
    pub base_checksum: Option<String>,
    pub output_checksum: Option<String>,
}

/// The output length a forward delta declares in its own fixed-offset
/// header field, when it is long enough to carry one.
pub open spec fn spec_expected_output_size(fwd: Seq<u8>) -> u64 {
    if fwd.len() >= 32 {
        spec_u64_from_le_bytes(fwd.subrange(24, 32))
    } else {
        0u64
    }
}

/// A forward delta whose declared-size field holds the little-endian image
/// of `n` declares exactly `n`. Together with the structure the external
/// compressor guarantees of what it emits, inspection of a freshly
/// generated container reports the target's length.
pub proof fn lemma_declared_output_size(fwd: Seq<u8>, n: u64)
    requires
        fwd.len() >= 32,
        fwd.subrange(24, 32) == spec_u64_to_le_bytes(n),
    ensures
        spec_expected_output_size(fwd) == n,
{
    lemma_auto_spec_u64_to_from_le_bytes();
}

/// The name inspection reports for each wire shape.
pub open spec fn spec_version_name(d: Seq<u8>) -> Seq<char> {
    if d.len() >= 8 && d.subrange(0, 8) == magic_v2_seq() {
        "RUSTINE2"@
    } else if d.len() >= 8 && d.subrange(0, 8) == magic_v1_seq() {
        "RUSTINE1"@
    } else {
        "BSDIFF4"@
    }
}

/// Decode a container and report its structural facts: its shape, size,
/// whether the external primitive accepts its forward delta, the output
/// size that delta declares, and which optional fields it carries.
pub fn inspect(patch_file_data: &[u8]) -> (r: Result<PatchInfo, RustineErrorKind>)
    ensures
        ({
            let d = spec_deserialize(patch_file_data@);
            match d {
                Err(e) => r == Err::<PatchInfo, RustineErrorKind>(e),
                Ok(c) => {
                    &&& (!delta_valid(c.forward_patch) ==> (r matches Err(e) && e
                        matches RustineErrorKind::InvalidPatch { .. }))
                    &&& (delta_valid(c.forward_patch) ==> (r matches Ok(info) && ({
                        &&& info.patch_size == patch_file_data@.len()
                        &&& info.expected_output_size == spec_expected_output_size(c.forward_patch)
                        &&& info.format_version@ == spec_version_name(patch_file_data@)
                        &&& info.is_valid == true
                        &&& info.has_checksums == (c.base_checksum is Some || c.output_checksum
                            is Some)
                        &&& info.has_reverse == (c.reverse_patch is Some)
                        &&& (match c.base_checksum {
                            Some(h) => info.base_checksum matches Some(s) && s@ == spec_hex(h),
                            None => info.base_checksum is None,
                        })
                        &&& (match c.output_checksum {
                            Some(h) => info.output_checksum matches Some(s) && s@ == spec_hex(h),
                            None => info.output_checksum is None,
                        })
                    })))
                },
            }
        }),
{
    let container: PatchData;
    match PatchData::deserialize(patch_file_data) {
        Ok(c) => {
            container = c;
        },
        Err(e) => {
            return Err(e);
        },
    }

    let is_valid: bool = patch::validate(container.forward_patch.as_slice());
    if !is_valid {
        return Err(RustineErrorKind::InvalidPatch { message: "invalid patch format".to_owned() });
    }

    let patch_size: u64 = patch_file_data.len() as u64;
    let expected_output_size: u64 = if container.forward_patch.len() >= 32 {
        u64_from_le_bytes(slice_subrange(container.forward_patch.as_slice(), 24, 32))
    } else {
        0
    };

    let format_version: String = match detect(patch_file_data) {
        PatchFormat::Versioned => "RUSTINE2".to_owned(),
        PatchFormat::Legacy => "RUSTINE1".to_owned(),
        PatchFormat::Raw => "BSDIFF4".to_owned(),
    };

    let has_checksums: bool = container.base_checksum.is_some()
        || container.output_checksum.is_some();
    let has_reverse: bool = container.reverse_patch.is_some();

    let base_checksum: Option<String> = match &container.base_checksum {
        Some(h) => Some(checksum::hex_encode_public(h.as_slice())),
        None => None,
    };
    let output_checksum: Option<String> = match &container.output_checksum {
        Some(h) => Some(checksum::hex_encode_public(h.as_slice())),
        None => None,
    };

    Ok(PatchInfo {
        patch_size,
        expected_output_size,
        format_version,
        is_valid,
        has_checksums,
        has_reverse,
        base_checksum,
        output_checksum,
    })
}

} // verus!
