use rustine::check::can_write;
use rustine::checksum::{hash, hex_encode_public, unwrap_patch, verify_hash, wrap_patch};
use rustine::error::{CorruptField, RustineErrorKind};
use rustine::format::{detect, PatchData, PatchFormat};
use rustine::level::Level;

fn sample_container() -> PatchData {
    PatchData::new(vec![10, 20, 30, 40])
        .with_checksums([0x11; 32], [0x22; 32])
        .with_reverse(vec![9, 8, 7])
        .with_metadata(b"made by tests".to_vec())
}

#[test]
fn serialize_layout_is_exact() {
    let data = PatchData::new(vec![0xAA]).serialize();
    let mut expected: Vec<u8> = Vec::new();
    expected.extend_from_slice(b"RUSTINE2");
    expected.push(2); // version
    expected.extend_from_slice(&[0, 0, 0, 0]); // flags: nothing optional
    expected.extend_from_slice(&[1, 0, 0, 0, 0, 0, 0, 0]); // forward length
    expected.push(0xAA);
    assert_eq!(data, expected);
}

#[test]
fn serialize_sets_flags_for_each_field() {
    let bytes = sample_container().serialize();
    assert_eq!(&bytes[0..8], b"RUSTINE2");
    assert_eq!(bytes[8], 2);
    // base checksum | output checksum | reverse | metadata
    assert_eq!(bytes[9], 0x0F);
    assert_eq!(&bytes[10..13], &[0, 0, 0]);
}

#[test]
fn round_trip_plain() {
    let bytes = PatchData::new(vec![1, 2, 3]).serialize();
    let back = PatchData::deserialize(&bytes).unwrap();
    assert_eq!(back.forward_patch, vec![1, 2, 3]);
    assert!(back.base_checksum.is_none());
    assert!(back.output_checksum.is_none());
    assert!(back.reverse_patch.is_none());
    assert!(back.metadata.is_none());
}

#[test]
fn round_trip_with_checksums() {
    let bytes = PatchData::new(vec![5])
        .with_checksums([7; 32], [8; 32])
        .serialize();
    let back = PatchData::deserialize(&bytes).unwrap();
    assert_eq!(back.base_checksum, Some([7; 32]));
    assert_eq!(back.output_checksum, Some([8; 32]));
    assert_eq!(back.forward_patch, vec![5]);
    assert!(back.reverse_patch.is_none());
    assert!(back.metadata.is_none());
}

#[test]
fn round_trip_with_reverse() {
    let bytes = PatchData::new(vec![5, 6]).with_reverse(vec![6, 5]).serialize();
    let back = PatchData::deserialize(&bytes).unwrap();
    assert_eq!(back.forward_patch, vec![5, 6]);
    assert_eq!(back.reverse_patch, Some(vec![6, 5]));
    assert!(back.base_checksum.is_none());
}

#[test]
fn round_trip_with_metadata() {
    let bytes = PatchData::new(vec![1]).with_metadata(b"notes".to_vec()).serialize();
    let back = PatchData::deserialize(&bytes).unwrap();
    assert_eq!(back.metadata, Some(b"notes".to_vec()));
    assert_eq!(back.forward_patch, vec![1]);
}

#[test]
fn round_trip_every_field() {
    let bytes = sample_container().serialize();
    let back = PatchData::deserialize(&bytes).unwrap();
    assert_eq!(back.base_checksum, Some([0x11; 32]));
    assert_eq!(back.output_checksum, Some([0x22; 32]));
    assert_eq!(back.forward_patch, vec![10, 20, 30, 40]);
    assert_eq!(back.reverse_patch, Some(vec![9, 8, 7]));
    assert_eq!(back.metadata, Some(b"made by tests".to_vec()));
}

#[test]
fn round_trip_empty_forward() {
    let bytes = PatchData::new(Vec::new()).serialize();
    let back = PatchData::deserialize(&bytes).unwrap();
    assert!(back.forward_patch.is_empty());
}

#[test]
fn legacy_buffer_decodes_to_its_fields() {
    let mut buf: Vec<u8> = Vec::new();
    buf.extend_from_slice(b"RUSTINE1");
    buf.extend_from_slice(&[0xAB; 32]);
    buf.extend_from_slice(&[0xCD; 32]);
    buf.extend_from_slice(&[1, 2, 3]);
    let back = PatchData::deserialize(&buf).unwrap();
    assert_eq!(back.base_checksum, Some([0xAB; 32]));
    assert_eq!(back.output_checksum, Some([0xCD; 32]));
    assert_eq!(back.forward_patch, vec![1, 2, 3]);
    assert!(back.reverse_patch.is_none());
    assert!(back.metadata.is_none());
}

#[test]
fn legacy_buffer_exactly_header_sized() {
    let mut buf: Vec<u8> = Vec::new();
    buf.extend_from_slice(b"RUSTINE1");
    buf.extend_from_slice(&[0; 64]);
    let back = PatchData::deserialize(&buf).unwrap();
    assert!(back.forward_patch.is_empty());
}

#[test]
fn legacy_buffer_too_short_is_corrupt() {
    let mut buf: Vec<u8> = Vec::new();
    buf.extend_from_slice(b"RUSTINE1");
    buf.extend_from_slice(&[0; 30]);
    let err = PatchData::deserialize(&buf).unwrap_err();
    assert!(matches!(
        err,
        RustineErrorKind::CorruptedPatch { field: CorruptField::LegacyHeader }
    ));
    // the bare legacy magic announces the frame and nothing of its header
    let err = PatchData::deserialize(b"RUSTINE1").unwrap_err();
    assert!(matches!(
        err,
        RustineErrorKind::CorruptedPatch { field: CorruptField::LegacyHeader }
    ));
}

#[test]
fn raw_buffer_decodes_whole_input_as_forward() {
    let buf: Vec<u8> = vec![9; 20];
    let back = PatchData::deserialize(&buf).unwrap();
    assert_eq!(back.forward_patch, buf);
    assert!(back.base_checksum.is_none());
    assert!(back.output_checksum.is_none());
    assert!(back.reverse_patch.is_none());
    assert!(back.metadata.is_none());
}

#[test]
fn short_unframed_buffer_decodes_as_raw() {
    // anything that announces neither magic is a bare delta, however short
    let back = PatchData::deserialize(&[1, 2, 3]).unwrap();
    assert_eq!(back.forward_patch, vec![1, 2, 3]);
    assert!(back.base_checksum.is_none());
    let empty = PatchData::deserialize(&[]).unwrap();
    assert!(empty.forward_patch.is_empty());
}

#[test]
fn versioned_magic_without_header_is_corrupt() {
    let err = PatchData::deserialize(b"RUSTINE2").unwrap_err();
    assert!(matches!(
        err,
        RustineErrorKind::CorruptedPatch { field: CorruptField::Header }
    ));
    let err = PatchData::deserialize(b"RUSTINE2\x02\x00\x00").unwrap_err();
    assert!(matches!(
        err,
        RustineErrorKind::CorruptedPatch { field: CorruptField::Header }
    ));
}

#[test]
fn unsupported_version_is_its_own_error() {
    let mut buf = PatchData::new(vec![1]).serialize();
    buf[8] = 9;
    let err = PatchData::deserialize(&buf).unwrap_err();
    match err {
        RustineErrorKind::UnsupportedVersion { version } => assert_eq!(version, 9),
        other => panic!("expected UnsupportedVersion, got {:?}", other),
    }
}

#[test]
fn truncation_always_fails_and_names_fields() {
    let full = sample_container().serialize();
    // a cut inside the magic leaves an unframed buffer: the raw fallback
    for cut in 0..8 {
        let back = PatchData::deserialize(&full[..cut]).unwrap();
        assert_eq!(back.forward_patch, full[..cut].to_vec());
    }
    // from the magic on, every cut is a corruption error
    for cut in 8..full.len() {
        let err = PatchData::deserialize(&full[..cut])
            .err()
            .unwrap_or_else(|| panic!("decode of {} of {} bytes succeeded", cut, full.len()));
        assert!(matches!(err, RustineErrorKind::CorruptedPatch { .. }
            | RustineErrorKind::UnsupportedVersion { .. }));
    }
    // spot-check the named fields at a few boundaries:
    // header(13) | base(32) | output(32) | meta_len(4) meta(13) | fwd_len(8) fwd(4) | rev_len(8) rev(3)
    let field_of = |cut: usize| match PatchData::deserialize(&full[..cut]).unwrap_err() {
        RustineErrorKind::CorruptedPatch { field } => field,
        other => panic!("expected CorruptedPatch, got {:?}", other),
    };
    assert_eq!(field_of(8), CorruptField::Header);
    assert_eq!(field_of(12), CorruptField::Header);
    assert_eq!(field_of(13), CorruptField::BaseChecksum);
    assert_eq!(field_of(44), CorruptField::BaseChecksum);
    assert_eq!(field_of(45), CorruptField::OutputChecksum);
    assert_eq!(field_of(77), CorruptField::MetadataLength);
    assert_eq!(field_of(81), CorruptField::Metadata);
    assert_eq!(field_of(94), CorruptField::ForwardLength);
    assert_eq!(field_of(102), CorruptField::ForwardData);
    assert_eq!(field_of(106), CorruptField::ReverseLength);
    assert_eq!(field_of(114), CorruptField::ReverseData);
    assert_eq!(full.len(), 117);
}

#[test]
fn announced_checksum_missing_is_corrupt() {
    let mut buf: Vec<u8> = Vec::new();
    buf.extend_from_slice(b"RUSTINE2");
    buf.push(2);
    buf.extend_from_slice(&[0x01, 0, 0, 0]); // base checksum announced
    buf.extend_from_slice(&[0; 10]); // but only 10 bytes follow
    let err = PatchData::deserialize(&buf).unwrap_err();
    assert!(matches!(
        err,
        RustineErrorKind::CorruptedPatch { field: CorruptField::BaseChecksum }
    ));
}

#[test]
fn detect_tells_the_three_shapes_apart() {
    let versioned = PatchData::new(vec![1]).serialize();
    assert_eq!(detect(&versioned), PatchFormat::Versioned);
    let mut legacy: Vec<u8> = Vec::new();
    legacy.extend_from_slice(b"RUSTINE1");
    legacy.extend_from_slice(&[0; 64]);
    assert_eq!(detect(&legacy), PatchFormat::Legacy);
    assert_eq!(detect(&[1, 2, 3, 4, 5, 6, 7, 8, 9]), PatchFormat::Raw);
    assert_eq!(detect(&[]), PatchFormat::Raw);
}

#[test]
fn hash_is_deterministic_and_wide() {
    let a = hash(b"abc");
    let b = hash(b"abc");
    let c = hash(b"abd");
    assert_eq!(a, b);
    assert_ne!(a, c);
    assert_eq!(a.len(), 32);
    assert_eq!(&a[8..], &[0u8; 24][..]);
}

#[test]
fn hash_matches_known_value() {
    // FNV-1a (64-bit) of "abc" is 0xe71fa2190541574b, laid out little-endian.
    let a = hash(b"abc");
    assert_eq!(&a[..8], &[0x4b, 0x57, 0x41, 0x05, 0x19, 0xa2, 0x1f, 0xe7]);
}

#[test]
fn hex_encode_is_lowercase_two_digits_per_byte() {
    assert_eq!(hex_encode_public(&[0x00, 0x0f, 0xff]), "000fff");
    assert_eq!(hex_encode_public(&[]), "");
    assert_eq!(hex_encode_public(&[0xde, 0xad, 0xbe, 0xef]), "deadbeef");
}

#[test]
fn verify_hash_accepts_matching_digest() {
    let d = hash(b"payload");
    assert!(verify_hash(b"payload", &d).is_ok());
}

#[test]
fn verify_hash_reports_both_digests_in_hex() {
    let wrong = [0x5A; 32];
    let err = verify_hash(b"payload", &wrong).unwrap_err();
    match err {
        RustineErrorKind::ChecksumMismatch { expected, actual } => {
            assert_eq!(expected, "5a".repeat(32));
            assert_eq!(actual, hex_encode_public(&hash(b"payload")));
            assert_ne!(expected, actual);
        }
        other => panic!("expected ChecksumMismatch, got {:?}", other),
    }
}

#[test]
fn wrap_then_unwrap_recovers_the_parts() {
    let wrapped = wrap_patch([3; 32], [4; 32], &[7, 7, 7]);
    assert_eq!(&wrapped[0..8], b"RUSTINE1");
    let (base, output, payload) = unwrap_patch(&wrapped).unwrap();
    assert_eq!(base, Some([3; 32]));
    assert_eq!(output, Some([4; 32]));
    assert_eq!(payload, &[7, 7, 7]);
}

#[test]
fn unwrap_passes_unframed_data_through() {
    let data = [1, 2, 3, 4];
    let (base, output, payload) = unwrap_patch(&data).unwrap();
    assert!(base.is_none());
    assert!(output.is_none());
    assert_eq!(payload, &data);
}

#[test]
fn can_write_refuses_existing_without_force() {
    let err = can_write("out.bin", true, false).unwrap_err();
    match err {
        RustineErrorKind::FileExists { path } => assert_eq!(path, "out.bin"),
        other => panic!("expected FileExists, got {:?}", other),
    }
    assert!(can_write("out.bin", true, true).is_ok());
    assert!(can_write("out.bin", false, false).is_ok());
}

#[test]
fn format_module_digest_helpers_agree() {
    assert_eq!(rustine::format::hash(b"abc"), hash(b"abc"));
    assert_eq!(rustine::format::hex_encode_public(&[0xAB]), "ab");
    let d = rustine::format::hash(b"x");
    assert!(rustine::format::verify_hash(b"x", &d).is_ok());
    assert!(rustine::format::verify_hash(b"y", &d).is_err());
}

#[test]
fn level_from_flags_prefers_quiet() {
    assert_eq!(Level::from_flags(false, false), Level::Normal);
    assert_eq!(Level::from_flags(true, false), Level::Verbose);
    assert_eq!(Level::from_flags(false, true), Level::Quiet);
    assert_eq!(Level::from_flags(true, true), Level::Quiet);
    assert!(Level::Quiet.quiet());
    assert!(!Level::Verbose.quiet());
}
