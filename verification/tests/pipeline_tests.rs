use rustine::diff;
use rustine::error::RustineErrorKind;
use rustine::format::PatchData;
use rustine::inspect::inspect;
use rustine::patch;
use rustine::pipeline::{apply, generate, ApplyOptions, GenerateOptions};

fn base_buffer() -> Vec<u8> {
    let mut v: Vec<u8> = (0..4096u32).map(|i| (i % 251) as u8).collect();
    v.extend_from_slice(b"the quick brown fox jumps over the lazy dog");
    v
}

fn target_buffer() -> Vec<u8> {
    let mut v = base_buffer();
    v[100] = 0xFF;
    v[101] = 0xFE;
    v.extend_from_slice(b" -- patched edition");
    v
}

#[test]
fn diff_then_patch_reconstructs_the_target() {
    let base = base_buffer();
    let target = target_buffer();
    let delta = diff::create(&base, &target).unwrap();
    let rebuilt = patch::apply(&base, &delta).unwrap();
    assert_eq!(rebuilt, target);
}

#[test]
fn validate_accepts_real_and_rejects_garbage() {
    let base = base_buffer();
    let target = target_buffer();
    let delta = diff::create(&base, &target).unwrap();
    assert!(patch::validate(&delta));
    assert!(!patch::validate(&[1, 2, 3, 4]));
}

#[test]
fn generate_then_apply_round_trips() {
    let base = base_buffer();
    let target = target_buffer();
    let bytes = generate(&base, &target, GenerateOptions { checksum: true, reverse: false })
        .unwrap();
    let outcome = apply(
        &base,
        &bytes,
        ApplyOptions { reverse: false, verify: true, with_preview: false },
    )
    .unwrap();
    assert_eq!(outcome.output, target);
    assert!(outcome.changes.is_none());
}

#[test]
fn generate_without_checksums_leaves_digests_out() {
    let base = base_buffer();
    let target = target_buffer();
    let bytes = generate(&base, &target, GenerateOptions { checksum: false, reverse: false })
        .unwrap();
    let container = PatchData::deserialize(&bytes).unwrap();
    assert!(container.base_checksum.is_none());
    assert!(container.output_checksum.is_none());
    assert!(container.reverse_patch.is_none());
}

#[test]
fn apply_with_preview_reports_the_changes() {
    let base = base_buffer();
    let target = target_buffer();
    let bytes = generate(&base, &target, GenerateOptions { checksum: false, reverse: false })
        .unwrap();
    let outcome = apply(
        &base,
        &bytes,
        ApplyOptions { reverse: false, verify: false, with_preview: true },
    )
    .unwrap();
    assert_eq!(outcome.output, target);
    let changes = outcome.changes.expect("preview was asked for");
    assert!(!changes.is_empty());
    assert_eq!(changes[0].offset, 100);
    assert_eq!(changes[0].old_bytes, vec![100 % 251, 101 % 251]);
    assert_eq!(changes[0].new_bytes, vec![0xFF, 0xFE]);
}

#[test]
fn corrupted_base_fails_checksum_before_patching() {
    let base = base_buffer();
    let target = target_buffer();
    let bytes = generate(&base, &target, GenerateOptions { checksum: true, reverse: false })
        .unwrap();
    let mut corrupted = base.clone();
    corrupted[7] ^= 0x01;
    let err = apply(
        &corrupted,
        &bytes,
        ApplyOptions { reverse: false, verify: true, with_preview: false },
    )
    .unwrap_err();
    assert!(matches!(err, RustineErrorKind::ChecksumMismatch { .. }));
}

#[test]
fn corrupted_base_passes_without_verify() {
    // without verify the checksums are carried but not enforced; the patch
    // primitive still works on the altered base and gives a wrong answer or
    // fails, but never a checksum error
    let base = base_buffer();
    let target = target_buffer();
    let bytes = generate(&base, &target, GenerateOptions { checksum: true, reverse: false })
        .unwrap();
    let mut corrupted = base.clone();
    corrupted[7] ^= 0x01;
    match apply(
        &corrupted,
        &bytes,
        ApplyOptions { reverse: false, verify: false, with_preview: false },
    ) {
        Ok(_) => {}
        Err(e) => assert!(!matches!(e, RustineErrorKind::ChecksumMismatch { .. })),
    }
}

#[test]
fn reverse_application_reproduces_the_base() {
    let base = base_buffer();
    let target = target_buffer();
    let bytes = generate(&base, &target, GenerateOptions { checksum: true, reverse: true })
        .unwrap();
    let outcome = apply(
        &target,
        &bytes,
        ApplyOptions { reverse: true, verify: true, with_preview: false },
    )
    .unwrap();
    assert_eq!(outcome.output, base);
}

#[test]
fn reverse_without_reverse_delta_is_refused() {
    let base = base_buffer();
    let target = target_buffer();
    let bytes = generate(&base, &target, GenerateOptions { checksum: false, reverse: false })
        .unwrap();
    let err = apply(
        &target,
        &bytes,
        ApplyOptions { reverse: true, verify: false, with_preview: false },
    )
    .unwrap_err();
    assert!(matches!(err, RustineErrorKind::MissingReversePatch));
}

#[test]
fn apply_propagates_decode_errors() {
    // the bare current magic announces a frame and then falls short of it
    let err = apply(
        &[1, 2, 3],
        b"RUSTINE2",
        ApplyOptions { reverse: false, verify: false, with_preview: false },
    )
    .unwrap_err();
    assert!(matches!(err, RustineErrorKind::CorruptedPatch { .. }));
}

#[test]
fn unframed_garbage_is_an_invalid_patch() {
    // no magic at all: the bytes decode as a bare delta, which the
    // structural check then refuses
    let err = apply(
        &[1, 2, 3],
        &[0, 1, 2],
        ApplyOptions { reverse: false, verify: false, with_preview: false },
    )
    .unwrap_err();
    assert!(matches!(err, RustineErrorKind::InvalidPatch { .. }));
}

#[test]
fn negative_size_fields_in_a_delta_header_are_rejected() {
    // the external magic with a sign-magnitude -1 as the control-block
    // size: accepted lengths must be non-negative and fit the buffer
    let mut d: Vec<u8> = Vec::new();
    d.extend_from_slice(b"BSDIFF40");
    d.extend_from_slice(&[0x01, 0, 0, 0, 0, 0, 0, 0x80]);
    d.extend_from_slice(&[0; 16]);
    assert_eq!(d.len(), 32);
    assert!(!patch::validate(&d));
    let err = inspect(&d).unwrap_err();
    assert!(matches!(err, RustineErrorKind::InvalidPatch { .. }));
    let err = apply(
        &[5, 6, 7],
        &d,
        ApplyOptions { reverse: false, verify: false, with_preview: false },
    )
    .unwrap_err();
    assert!(matches!(err, RustineErrorKind::InvalidPatch { .. }));
}

#[test]
fn oversized_size_fields_in_a_delta_header_are_rejected() {
    // sizes that do not fit the buffer, alone or combined, are refused
    let mut d: Vec<u8> = Vec::new();
    d.extend_from_slice(b"BSDIFF40");
    d.extend_from_slice(&[1, 0, 0, 0, 0, 0, 0, 0]); // csize = 1
    d.extend_from_slice(&[0; 16]);
    assert!(!patch::validate(&d)); // 32 + 1 > 32
    let mut huge: Vec<u8> = Vec::new();
    huge.extend_from_slice(b"BSDIFF40");
    huge.extend_from_slice(&[0xFF, 0xFF, 0xFF, 0xFF, 0xFF, 0xFF, 0xFF, 0x7F]);
    huge.extend_from_slice(&[0xFF, 0xFF, 0xFF, 0xFF, 0xFF, 0xFF, 0xFF, 0x7F]);
    huge.extend_from_slice(&[0; 16]);
    assert!(!patch::validate(&huge));
    let err = inspect(&huge).unwrap_err();
    assert!(matches!(err, RustineErrorKind::InvalidPatch { .. }));
}

#[test]
fn garbage_forward_delta_is_an_invalid_patch() {
    let bytes = PatchData::new(vec![1, 2, 3, 4]).serialize();
    let err = apply(
        &[5, 6, 7],
        &bytes,
        ApplyOptions { reverse: false, verify: false, with_preview: false },
    )
    .unwrap_err();
    assert!(matches!(err, RustineErrorKind::InvalidPatch { .. }));
}

#[test]
fn corrupt_delta_stream_fails_during_apply() {
    let base = base_buffer();
    let target = target_buffer();
    let mut delta = diff::create(&base, &target).unwrap();
    // keep the 32-byte header intact, wreck the compressed streams behind it
    for b in delta.iter_mut().skip(32) {
        *b ^= 0xFF;
    }
    let err = patch::apply(&base, &delta).unwrap_err();
    assert!(matches!(err, RustineErrorKind::PatchFailed { .. }));
}

#[test]
fn inspect_reports_the_container_facts() {
    let base = base_buffer();
    let target = target_buffer();
    let bytes = generate(&base, &target, GenerateOptions { checksum: true, reverse: true })
        .unwrap();
    let info = inspect(&bytes).unwrap();
    assert_eq!(info.format_version, "RUSTINE2");
    assert!(info.is_valid);
    assert!(info.has_checksums);
    assert!(info.has_reverse);
    assert_eq!(info.patch_size, bytes.len() as u64);
    assert_eq!(info.expected_output_size, target.len() as u64);
    let base_hex = info.base_checksum.expect("digest present");
    assert_eq!(base_hex.len(), 64);
    assert_eq!(base_hex, rustine::checksum::hex_encode_public(&rustine::checksum::hash(&base)));
    let output_hex = info.output_checksum.expect("digest present");
    assert_eq!(output_hex, rustine::checksum::hex_encode_public(&rustine::checksum::hash(&target)));
}

#[test]
fn inspect_reads_a_bare_delta_as_bsdiff() {
    let base = base_buffer();
    let target = target_buffer();
    let delta = diff::create(&base, &target).unwrap();
    let info = inspect(&delta).unwrap();
    assert_eq!(info.format_version, "BSDIFF4");
    assert!(info.is_valid);
    assert!(!info.has_checksums);
    assert!(!info.has_reverse);
    assert_eq!(info.expected_output_size, target.len() as u64);
}

#[test]
fn inspect_refuses_a_garbage_forward_delta() {
    let bytes = PatchData::new(vec![9, 9, 9, 9]).serialize();
    let err = inspect(&bytes).unwrap_err();
    assert!(matches!(err, RustineErrorKind::InvalidPatch { .. }));
}

#[test]
fn inspect_reports_legacy_containers() {
    let base = base_buffer();
    let target = target_buffer();
    let delta = diff::create(&base, &target).unwrap();
    let legacy = rustine::checksum::wrap_patch(
        rustine::checksum::hash(&base),
        rustine::checksum::hash(&target),
        &delta,
    );
    let info = inspect(&legacy).unwrap();
    assert_eq!(info.format_version, "RUSTINE1");
    assert!(info.has_checksums);
    assert!(!info.has_reverse);
}
