use vstd::prelude::*;

use vstd::bytes::*;
use vstd::slice::*;

use crate::checksum;
use crate::checksum::magic_v1_seq;
use crate::error::{CorruptField, RustineErrorKind};

verus! {

/// The eight ASCII bytes `RUSTINE2`, the magic of the current framed revision.
pub open spec fn magic_v2_seq() -> Seq<u8> {
    seq![82u8, 85u8, 83u8, 84u8, 73u8, 78u8, 69u8, 50u8]
}

/// The single version byte this build encodes and decodes.
pub const VERSION: u8 = 2;

/// Feature flags; each bit mirrors the presence of one optional field.
pub const FLAG_BASE_CHECKSUM: u32 = 0x1;

pub const FLAG_OUTPUT_CHECKSUM: u32 = 0x2;

pub const FLAG_REVERSE_PATCH: u32 = 0x4;

pub const FLAG_METADATA: u32 = 0x8;

/// A patch container: the mandatory forward delta plus the optional
/// digests, reverse delta and metadata bytes.
#[derive(Debug)]
pub struct PatchData {
    pub base_checksum: Option<[u8; 32]>,
    pub output_checksum: Option<[u8; 32]>,
    pub forward_patch: Vec<u8>,
    pub reverse_patch: Option<Vec<u8>>,
    pub metadata: Option<Vec<u8>>,
}

/// The mathematical image of a container: each field as a plain sequence.
pub ghost struct PatchView {
    pub base_checksum: Option<Seq<u8>>,
    pub output_checksum: Option<Seq<u8>>,
    pub forward_patch: Seq<u8>,
    pub reverse_patch: Option<Seq<u8>>,
    pub metadata: Option<Seq<u8>>,
}

impl View for PatchData {
    type V = PatchView;

    open spec fn view(&self) -> PatchView {
        PatchView {
            base_checksum: match self.base_checksum {
                Some(h) => Some(h@),
                None => None,
            },
            output_checksum: match self.output_checksum {
                Some(h) => Some(h@),
                None => None,
            },
            forward_patch: self.forward_patch@,
            reverse_patch: match self.reverse_patch {
                Some(v) => Some(v@),
                None => None,
            },
            metadata: match self.metadata {
                Some(v) => Some(v@),
                None => None,
            },
        }
    }
}

impl PatchView {
    /// What every container view built from exec data satisfies: digests are
    /// 32 bytes wide, the metadata length fits its 4-byte prefix, and each
    /// delta length fits its 8-byte prefix.
    pub open spec fn wf(self) -> bool {
        &&& (self.base_checksum matches Some(h) ==> h.len() == 32)
        &&& (self.output_checksum matches Some(h) ==> h.len() == 32)
        &&& (self.metadata matches Some(m) ==> m.len() < 0x100000000)
        &&& self.forward_patch.len() < 0x10000000000000000
        &&& (self.reverse_patch matches Some(r) ==> r.len() < 0x10000000000000000)
    }
}

/// The view of a buffer taken as a bare delta: nothing but the forward payload.
pub open spec fn raw_view(d: Seq<u8>) -> PatchView {
    PatchView {
        base_checksum: None,
        output_checksum: None,
        forward_patch: d,
        reverse_patch: None,
        metadata: None,
    }
}

/// The view a legacy buffer decodes to: both digests from the fixed header,
/// the remainder as the forward delta.
pub open spec fn legacy_view(d: Seq<u8>) -> PatchView
    recommends
        d.len() >= 72,
{
    PatchView {
        base_checksum: Some(d.subrange(8, 40)),
        output_checksum: Some(d.subrange(40, 72)),
        forward_patch: d.subrange(72, d.len() as int),
        reverse_patch: None,
        metadata: None,
    }
}

/// The flag word derived from which optional fields are populated.
pub open spec fn spec_flags(v: PatchView) -> u32 {
    (if v.base_checksum is Some {
        FLAG_BASE_CHECKSUM
    } else {
        0u32
    }) | (if v.output_checksum is Some {
        FLAG_OUTPUT_CHECKSUM
    } else {
        0u32
    }) | (if v.reverse_patch is Some {
        FLAG_REVERSE_PATCH
    } else {
        0u32
    }) | (if v.metadata is Some {
        FLAG_METADATA
    } else {
        0u32
    })
}

/// Each flag bit of the derived word is set exactly when its field is present.
pub proof fn lemma_flags_bits(v: PatchView)
    ensures
        (spec_flags(v) & FLAG_BASE_CHECKSUM != 0) == (v.base_checksum is Some),
        (spec_flags(v) & FLAG_OUTPUT_CHECKSUM != 0) == (v.output_checksum is Some),
        (spec_flags(v) & FLAG_REVERSE_PATCH != 0) == (v.reverse_patch is Some),
        (spec_flags(v) & FLAG_METADATA != 0) == (v.metadata is Some),
{
    let a: u32 = if v.base_checksum is Some { FLAG_BASE_CHECKSUM } else { 0u32 };
    let b: u32 = if v.output_checksum is Some { FLAG_OUTPUT_CHECKSUM } else { 0u32 };
    let c: u32 = if v.reverse_patch is Some { FLAG_REVERSE_PATCH } else { 0u32 };
    let d: u32 = if v.metadata is Some { FLAG_METADATA } else { 0u32 };
    assert(((a | b | c | d) & 0x1u32 != 0) == (a == 0x1u32) && ((a | b | c | d) & 0x2u32 != 0)
        == (b == 0x2u32) && ((a | b | c | d) & 0x4u32 != 0) == (c == 0x4u32) && ((a | b | c | d)
        & 0x8u32 != 0) == (d == 0x8u32)) by (bit_vector)
        requires
            (a == 0u32 || a == 0x1u32) && (b == 0u32 || b == 0x2u32) && (c == 0u32 || c == 0x4u32)
                && (d == 0u32 || d == 0x8u32),
    ;
}

/// The metadata block: a 4-byte little-endian length then the bytes.
pub open spec fn spec_meta_block(m: Option<Seq<u8>>) -> Seq<u8> {
    match m {
        Some(meta) => spec_u32_to_le_bytes(meta.len() as u32) + meta,
        None => Seq::empty(),
    }
}

/// An optional digest occupies 32 bytes when present, none otherwise.
pub open spec fn spec_opt_checksum(h: Option<Seq<u8>>) -> Seq<u8> {
    match h {
        Some(x) => x,
        None => Seq::empty(),
    }
}

/// The reverse block: an 8-byte little-endian length then the bytes.
pub open spec fn spec_rev_block(r: Option<Seq<u8>>) -> Seq<u8> {
    match r {
        Some(rev) => spec_u64_to_le_bytes(rev.len() as u64) + rev,
        None => Seq::empty(),
    }
}

/// The exact byte image of a container in the current revision: magic,
/// version, flags, then each enabled field in fixed order.
pub open spec fn spec_serialize(v: PatchView) -> Seq<u8> {
    magic_v2_seq() + seq![VERSION] + spec_u32_to_le_bytes(spec_flags(v)) + spec_opt_checksum(
        v.base_checksum,
    ) + spec_opt_checksum(v.output_checksum) + spec_meta_block(v.metadata) + spec_u64_to_le_bytes(
        v.forward_patch.len() as u64,
    ) + v.forward_patch + spec_rev_block(v.reverse_patch)
}

/// Read one optional 32-byte digest at `off`.
pub open spec fn sp_read_checksum(d: Seq<u8>, off: int, present: bool, field: CorruptField) -> Result<
    (Option<Seq<u8>>, int),
    RustineErrorKind,
> {
    if !present {
        Ok((None, off))
    } else if d.len() < off + 32 {
        Err(RustineErrorKind::CorruptedPatch { field })
    } else {
        Ok((Some(d.subrange(off, off + 32)), off + 32))
    }
}

/// Read the optional length-prefixed metadata at `off`.
pub open spec fn sp_read_meta(d: Seq<u8>, off: int, present: bool) -> Result<
    (Option<Seq<u8>>, int),
    RustineErrorKind,
> {
    if !present {
        Ok((None, off))
    } else if d.len() < off + 4 {
        Err(RustineErrorKind::CorruptedPatch { field: CorruptField::MetadataLength })
    } else {
        let mlen = spec_u32_from_le_bytes(d.subrange(off, off + 4)) as int;
        if d.len() < off + 4 + mlen {
            Err(RustineErrorKind::CorruptedPatch { field: CorruptField::Metadata })
        } else {
            Ok((Some(d.subrange(off + 4, off + 4 + mlen)), off + 4 + mlen))
        }
    }
}

/// Read one length-prefixed delta at `off`.
pub open spec fn sp_read_delta(
    d: Seq<u8>,
    off: int,
    len_field: CorruptField,
    data_field: CorruptField,
) -> Result<(Seq<u8>, int), RustineErrorKind> {
    if d.len() < off + 8 {
        Err(RustineErrorKind::CorruptedPatch { field: len_field })
    } else {
        let dlen = spec_u64_from_le_bytes(d.subrange(off, off + 8)) as int;
        if d.len() < off + 8 + dlen {
            Err(RustineErrorKind::CorruptedPatch { field: data_field })
        } else {
            Ok((d.subrange(off + 8, off + 8 + dlen), off + 8 + dlen))
        }
    }
}

/// Parse everything after the versioned header, in the fixed field order.
pub open spec fn spec_parse_fields(d: Seq<u8>, flags: u32) -> Result<
    PatchView,
    RustineErrorKind,
> {
    match sp_read_checksum(d, 13, flags & FLAG_BASE_CHECKSUM != 0, CorruptField::BaseChecksum) {
        Err(e) => Err(e),
        Ok((base, off1)) => match sp_read_checksum(
            d,
            off1,
            flags & FLAG_OUTPUT_CHECKSUM != 0,
            CorruptField::OutputChecksum,
        ) {
            Err(e) => Err(e),
            Ok((output, off2)) => match sp_read_meta(d, off2, flags & FLAG_METADATA != 0) {
                Err(e) => Err(e),
                Ok((meta, off3)) => match sp_read_delta(
                    d,
                    off3,
                    CorruptField::ForwardLength,
                    CorruptField::ForwardData,
                ) {
                    Err(e) => Err(e),
                    Ok((fwd, off4)) => if flags & FLAG_REVERSE_PATCH != 0 {
                        match sp_read_delta(
                            d,
                            off4,
                            CorruptField::ReverseLength,
                            CorruptField::ReverseData,
                        ) {
                            Err(e) => Err(e),
                            Ok((rev, off5)) => Ok(
                                PatchView {
                                    base_checksum: base,
                                    output_checksum: output,
                                    forward_patch: fwd,
                                    reverse_patch: Some(rev),
                                    metadata: meta,
                                },
                            ),
                        }
                    } else {
                        Ok(
                            PatchView {
                                base_checksum: base,
                                output_checksum: output,
                                forward_patch: fwd,
                                reverse_patch: None,
                                metadata: meta,
                            },
                        )
                    },
                },
            },
        },
    }
}

/// What any byte buffer decodes to: the legacy frame, the current frame, a
/// bare delta as fallback, or a corruption error naming the short field.
/// A buffer announcing neither magic — whatever its length — is taken as a
/// bare delta; one that announces a magic and then falls short of that
/// frame's fixed header is a corruption error.
pub open spec fn spec_deserialize(d: Seq<u8>) -> Result<PatchView, RustineErrorKind> {
    if d.len() >= 8 && d.subrange(0, 8) == magic_v1_seq() {
        if d.len() < 72 {
            Err(RustineErrorKind::CorruptedPatch { field: CorruptField::LegacyHeader })
        } else {
            Ok(legacy_view(d))
        }
    } else if d.len() >= 8 && d.subrange(0, 8) == magic_v2_seq() {
        if d.len() < 13 {
            Err(RustineErrorKind::CorruptedPatch { field: CorruptField::Header })
        } else if d[8] != VERSION {
            Err(RustineErrorKind::UnsupportedVersion { version: d[8] })
        } else {
            spec_parse_fields(d, spec_u32_from_le_bytes(d.subrange(9, 13)))
        }
    } else {
        Ok(raw_view(d))
    }
}

/// The three wire shapes a buffer can take.
#[derive(Debug, Clone, Copy, PartialEq, Eq, Structural)]
pub enum PatchFormat {
    Legacy,
    Versioned,
    Raw,
}

/// Which shape a buffer's first eight bytes announce.
pub open spec fn spec_detect(d: Seq<u8>) -> PatchFormat {
    if d.len() >= 8 && d.subrange(0, 8) == magic_v1_seq() {
        PatchFormat::Legacy
    } else if d.len() >= 8 && d.subrange(0, 8) == magic_v2_seq() {
        PatchFormat::Versioned
    } else {
        PatchFormat::Raw
    }
}

/// Append the current magic to a byte vector.
pub(crate) fn extend_magic_v2(data: &mut Vec<u8>)
    ensures
        final(data)@ == old(data)@ + magic_v2_seq(),
{
    data.push(82u8);
    data.push(85u8);
    data.push(83u8);
    data.push(84u8);
    data.push(73u8);
    data.push(78u8);
    data.push(69u8);
    data.push(50u8);
    proof {
        assert(data@ =~= old(data)@ + magic_v2_seq());
    }
}

/// Whether the first eight bytes are the current magic.
pub(crate) fn is_magic_v2(data: &[u8]) -> (r: bool)
    requires
        data@.len() >= 8,
    ensures
        r == (data@.subrange(0, 8) == magic_v2_seq()),
{
    let r: bool = *slice_index_get(data, 0) == 82 && *slice_index_get(data, 1) == 85
        && *slice_index_get(data, 2) == 83 && *slice_index_get(data, 3) == 84
        && *slice_index_get(data, 4) == 73 && *slice_index_get(data, 5) == 78
        && *slice_index_get(data, 6) == 69 && *slice_index_get(data, 7) == 50;
    proof {
        let s = data@.subrange(0, 8);
        assert(forall|k: int| 0 <= k < 8 ==> s[k] == data@[k]);
        if r {
            assert(s =~= magic_v2_seq());
        } else {
            assert(s != magic_v2_seq());
        }
    }
    r
}

/// Report which wire shape a buffer announces.
pub fn detect(data: &[u8]) -> (r: PatchFormat)
    ensures
        r == spec_detect(data@),
{
    if data.len() < 8 {
        PatchFormat::Raw
    } else if checksum::is_magic_v1(data) {
        PatchFormat::Legacy
    } else if is_magic_v2(data) {
        PatchFormat::Versioned
    } else {
        PatchFormat::Raw
    }
}

impl PatchData {
    /// A container holding nothing but a forward delta.
    pub fn new(forward_patch: Vec<u8>) -> (r: Self)
        ensures
            r@ == raw_view(forward_patch@),
    {
        PatchData {
            base_checksum: None,
            output_checksum: None,
            forward_patch,
            reverse_patch: None,
            metadata: None,
        }
    }

    /// Attach both digests.
    pub fn with_checksums(self, base: [u8; 32], output: [u8; 32]) -> (r: Self)
        ensures
            r@ == (PatchView { base_checksum: Some(base@), output_checksum: Some(output@), ..self@ }),
    {
        PatchData { base_checksum: Some(base), output_checksum: Some(output), ..self }
    }

    /// Attach a reverse delta.
    pub fn with_reverse(self, reverse: Vec<u8>) -> (r: Self)
        ensures
            r@ == (PatchView { reverse_patch: Some(reverse@), ..self@ }),
    {
        PatchData { reverse_patch: Some(reverse), ..self }
    }

    /// Attach free-form metadata bytes (UTF-8 text by convention; the core
    /// never interprets them).
    pub fn with_metadata(self, metadata: Vec<u8>) -> (r: Self)
        ensures
            r@ == (PatchView { metadata: Some(metadata@), ..self@ }),
    {
        PatchData { metadata: Some(metadata), ..self }
    }

    /// Encode this container in the current revision.
    pub fn serialize(&self) -> (r: Vec<u8>)
        requires
            self@.metadata matches Some(m) ==> m.len() < 0x100000000,
        ensures
            r@ == spec_serialize(self@),
    {
        let mut data: Vec<u8> = Vec::new();
        extend_magic_v2(&mut data);
        data.push(VERSION);
        let flags: u32 = (if self.base_checksum.is_some() {
            FLAG_BASE_CHECKSUM
        } else {
            0u32
        }) | (if self.output_checksum.is_some() {
            FLAG_OUTPUT_CHECKSUM
        } else {
            0u32
        }) | (if self.reverse_patch.is_some() {
            FLAG_REVERSE_PATCH
        } else {
            0u32
        }) | (if self.metadata.is_some() {
            FLAG_METADATA
        } else {
            0u32
        });
        proof {
            assert(flags == spec_flags(self@));
        }
        let mut fb: Vec<u8> = u32_to_le_bytes(flags);
        data.append(&mut fb);
        if let Some(h) = &self.base_checksum {
            data.extend_from_slice(h.as_slice());
        }
        if let Some(h) = &self.output_checksum {
            data.extend_from_slice(h.as_slice());
        }
        if let Some(m) = &self.metadata {
            let mut lb: Vec<u8> = u32_to_le_bytes(m.len() as u32);
            data.append(&mut lb);
            data.extend_from_slice(m.as_slice());
        }
        let mut fl: Vec<u8> = u64_to_le_bytes(self.forward_patch.len() as u64);
        data.append(&mut fl);
        data.extend_from_slice(self.forward_patch.as_slice());
        if let Some(rp) = &self.reverse_patch {
            let mut rl: Vec<u8> = u64_to_le_bytes(rp.len() as u64);
            data.append(&mut rl);
            data.extend_from_slice(rp.as_slice());
        }
        proof {
            assert(data@ =~= spec_serialize(self@));
        }
        data
    }

    /// Decode a buffer in whichever of the three shapes it announces.
    pub fn deserialize(data: &[u8]) -> (r: Result<PatchData, RustineErrorKind>)
        ensures
            ({
                let s = spec_deserialize(data@);
                match r {
                    Ok(p) => s == Ok::<PatchView, RustineErrorKind>(p@),
                    Err(e) => s == Err::<PatchView, RustineErrorKind>(e),
                }
            }),
    {
        let n: usize = data.len();
        if n >= 8 && checksum::is_magic_v1(data) {
            return deserialize_v1(data);
        }
        if n < 8 || !is_magic_v2(data) {
            return Ok(PatchData::new(slice_to_vec(data)));
        }
        if n < 13 {
            return Err(RustineErrorKind::CorruptedPatch { field: CorruptField::Header });
        }
        let version: u8 = *slice_index_get(data, 8);
        if version != VERSION {
            return Err(RustineErrorKind::UnsupportedVersion { version });
        }
        let flags: u32 = u32_from_le_bytes(slice_subrange(data, 9, 13));

        let mut offset: usize = 13;

        let base_checksum: Option<[u8; 32]>;
        if flags & FLAG_BASE_CHECKSUM != 0 {
            if n - offset < 32 {
                return Err(RustineErrorKind::CorruptedPatch { field: CorruptField::BaseChecksum });
            }
            base_checksum = Some(checksum::read_arr32(data, offset));
            offset = offset + 32;
        } else {
            base_checksum = None;
        }
        proof {
            assert(sp_read_checksum(
                data@,
                13,
                flags & FLAG_BASE_CHECKSUM != 0,
                CorruptField::BaseChecksum,
            ) == Ok::<(Option<Seq<u8>>, int), RustineErrorKind>((
                match base_checksum {
                    Some(h) => Some(h@),
                    None => None,
                },
                offset as int,
            )));
        }
        let ghost off1: int = offset as int;

        let output_checksum: Option<[u8; 32]>;
        if flags & FLAG_OUTPUT_CHECKSUM != 0 {
            if n - offset < 32 {
                return Err(
                    RustineErrorKind::CorruptedPatch { field: CorruptField::OutputChecksum },
                );
            }
            output_checksum = Some(checksum::read_arr32(data, offset));
            offset = offset + 32;
        } else {
            output_checksum = None;
        }
        proof {
            assert(sp_read_checksum(
                data@,
                off1,
                flags & FLAG_OUTPUT_CHECKSUM != 0,
                CorruptField::OutputChecksum,
            ) == Ok::<(Option<Seq<u8>>, int), RustineErrorKind>((
                match output_checksum {
                    Some(h) => Some(h@),
                    None => None,
                },
                offset as int,
            )));
        }
        let ghost off2: int = offset as int;

        let metadata: Option<Vec<u8>>;
        if flags & FLAG_METADATA != 0 {
            if n - offset < 4 {
                return Err(
                    RustineErrorKind::CorruptedPatch { field: CorruptField::MetadataLength },
                );
            }
            let mlen32: u32 = u32_from_le_bytes(slice_subrange(data, offset, offset + 4));
            let mlen: usize = mlen32 as usize;
            offset = offset + 4;
            if n - offset < mlen {
                return Err(RustineErrorKind::CorruptedPatch { field: CorruptField::Metadata });
            }
            metadata = Some(slice_to_vec(slice_subrange(data, offset, offset + mlen)));
            offset = offset + mlen;
        } else {
            metadata = None;
        }
        proof {
            assert(sp_read_meta(data@, off2, flags & FLAG_METADATA != 0) == Ok::<
                (Option<Seq<u8>>, int),
                RustineErrorKind,
            >((
                match metadata {
                    Some(m) => Some(m@),
                    None => None,
                },
                offset as int,
            )));
        }
        let ghost off3: int = offset as int;

        if n - offset < 8 {
            return Err(RustineErrorKind::CorruptedPatch { field: CorruptField::ForwardLength });
        }
        let flen64: u64 = u64_from_le_bytes(slice_subrange(data, offset, offset + 8));
        offset = offset + 8;
        if ((n - offset) as u64) < flen64 {
            return Err(RustineErrorKind::CorruptedPatch { field: CorruptField::ForwardData });
        }
        let flen: usize = flen64 as usize;
        let forward_patch: Vec<u8> = slice_to_vec(slice_subrange(data, offset, offset + flen));
        offset = offset + flen;
        proof {
            assert(sp_read_delta(data@, off3, CorruptField::ForwardLength, CorruptField::ForwardData)
                == Ok::<(Seq<u8>, int), RustineErrorKind>((forward_patch@, offset as int)));
        }
        let ghost off4: int = offset as int;

        let reverse_patch: Option<Vec<u8>>;
        if flags & FLAG_REVERSE_PATCH != 0 {
            if n - offset < 8 {
                return Err(RustineErrorKind::CorruptedPatch { field: CorruptField::ReverseLength });
            }
            let rlen64: u64 = u64_from_le_bytes(slice_subrange(data, offset, offset + 8));
            offset = offset + 8;
            if ((n - offset) as u64) < rlen64 {
                return Err(RustineErrorKind::CorruptedPatch { field: CorruptField::ReverseData });
            }
            let rlen: usize = rlen64 as usize;
            reverse_patch = Some(slice_to_vec(slice_subrange(data, offset, offset + rlen)));
            offset = offset + rlen;
            proof {
                assert(sp_read_delta(
                    data@,
                    off4,
                    CorruptField::ReverseLength,
                    CorruptField::ReverseData,
                ) is Ok);
            }
        } else {
            reverse_patch = None;
        }

        let result = PatchData { base_checksum, output_checksum, forward_patch, reverse_patch, metadata };
        proof {
            assert(spec_parse_fields(data@, flags) == Ok::<PatchView, RustineErrorKind>(result@));
        }
        Ok(result)
    }
}

/// Decode the legacy frame: the fixed 72-byte header, then the forward delta.
fn deserialize_v1(data: &[u8]) -> (r: Result<PatchData, RustineErrorKind>)
    ensures
        data@.len() < 72 ==> r == Err::<PatchData, RustineErrorKind>(
            RustineErrorKind::CorruptedPatch { field: CorruptField::LegacyHeader },
        ),
        data@.len() >= 72 ==> (r matches Ok(p) && p@ == legacy_view(data@)),
{
    let n: usize = data.len();
    if n < 72 {
        return Err(RustineErrorKind::CorruptedPatch { field: CorruptField::LegacyHeader });
    }
    let base_checksum: [u8; 32] = checksum::read_arr32(data, 8);
    let output_checksum: [u8; 32] = checksum::read_arr32(data, 40);
    let forward_patch: Vec<u8> = slice_to_vec(slice_subrange(data, 72, n));
    Ok(PatchData {
        base_checksum: Some(base_checksum),
        output_checksum: Some(output_checksum),
        forward_patch,
        reverse_patch: None,
        metadata: None,
    })
}

/// Compute the 32-byte digest of `data`.
pub fn hash(data: &[u8]) -> (r: [u8; 32])
    ensures
        r@ == checksum::spec_hash(data@),
{
    checksum::hash(data)
}

/// Check `data` against an expected digest; on mismatch report both digests
/// in lowercase hex.
pub fn verify_hash(data: &[u8], expected: &[u8; 32]) -> (r: Result<(), RustineErrorKind>)
    ensures
        r is Ok <==> checksum::spec_hash(data@) == expected@,
        r matches Err(e) ==> (e matches RustineErrorKind::ChecksumMismatch {
            expected: ex,
            actual: ac,
        } && ex@ == checksum::spec_hex(expected@) && ac@ == checksum::spec_hex(
            checksum::spec_hash(data@),
        )),
{
    checksum::verify_hash(data, expected)
}

/// Lowercase hex rendering of a byte slice.
pub fn hex_encode_public(bytes: &[u8]) -> (r: String)
    ensures
        r@ == checksum::spec_hex(bytes@),
{
    checksum::hex_encode_public(bytes)
}

/// Round-trip law: decoding what the current encoder produced gives back
/// the same container, whichever optional fields are populated.
pub proof fn lemma_round_trip(v: PatchView)
    requires
        v.wf(),
    ensures
        spec_deserialize(spec_serialize(v)) == Ok::<PatchView, RustineErrorKind>(v),
{
    lemma_auto_spec_u32_to_from_le_bytes();
    lemma_auto_spec_u64_to_from_le_bytes();
    lemma_flags_bits(v);
    let f = spec_flags(v);
    let fb = spec_u32_to_le_bytes(f);
    let bb = spec_opt_checksum(v.base_checksum);
    let ob = spec_opt_checksum(v.output_checksum);
    let mb = spec_meta_block(v.metadata);
    let flb = spec_u64_to_le_bytes(v.forward_patch.len() as u64);
    let rb = spec_rev_block(v.reverse_patch);
    let s = spec_serialize(v);
    assert(s == magic_v2_seq() + seq![VERSION] + fb + bb + ob + mb + flb + v.forward_patch + rb);

    let blen: int = if v.base_checksum is Some { 32 } else { 0 };
    let olen: int = if v.output_checksum is Some { 32 } else { 0 };
    let mlen: int = match v.metadata {
        Some(m) => 4 + m.len() as int,
        None => 0,
    };
    let rlen: int = match v.reverse_patch {
        Some(r) => 8 + r.len() as int,
        None => 0,
    };
    assert(bb.len() == blen);
    assert(ob.len() == olen);
    assert(mb.len() == mlen);
    assert(rb.len() == rlen);
    let off1 = 13 + blen;
    let off2 = off1 + olen;
    let off3 = off2 + mlen;
    let off4 = off3 + 8 + v.forward_patch.len() as int;
    assert(s.len() == off4 + rlen);

    assert(s.subrange(0, 8) =~= magic_v2_seq());
    assert(magic_v1_seq()[7] == 49u8 && magic_v2_seq()[7] == 50u8);
    assert(s.subrange(0, 8) != magic_v1_seq());
    assert(s[8] == VERSION);
    assert(s.subrange(9, 13) =~= fb);
    assert(spec_u32_from_le_bytes(s.subrange(9, 13)) == f);

    if v.base_checksum is Some {
        assert(s.subrange(13, off1) =~= v.base_checksum->Some_0);
    }
    assert(sp_read_checksum(s, 13, f & FLAG_BASE_CHECKSUM != 0, CorruptField::BaseChecksum)
        == Ok::<(Option<Seq<u8>>, int), RustineErrorKind>((v.base_checksum, off1)));

    if v.output_checksum is Some {
        assert(s.subrange(off1, off2) =~= v.output_checksum->Some_0);
    }
    assert(sp_read_checksum(s, off1, f & FLAG_OUTPUT_CHECKSUM != 0, CorruptField::OutputChecksum)
        == Ok::<(Option<Seq<u8>>, int), RustineErrorKind>((v.output_checksum, off2)));

    if v.metadata is Some {
        let m = v.metadata->Some_0;
        assert(s.subrange(off2, off2 + 4) =~= spec_u32_to_le_bytes(m.len() as u32));
        assert(spec_u32_from_le_bytes(s.subrange(off2, off2 + 4)) == m.len() as u32);
        assert((m.len() as u32) as int == m.len() as int);
        assert(s.subrange(off2 + 4, off3) =~= m);
    }
    assert(sp_read_meta(s, off2, f & FLAG_METADATA != 0) == Ok::<
        (Option<Seq<u8>>, int),
        RustineErrorKind,
    >((v.metadata, off3)));

    assert(s.subrange(off3, off3 + 8) =~= flb);
    assert(spec_u64_from_le_bytes(s.subrange(off3, off3 + 8)) == v.forward_patch.len() as u64);
    assert(s.subrange(off3 + 8, off4) =~= v.forward_patch);
    assert(sp_read_delta(s, off3, CorruptField::ForwardLength, CorruptField::ForwardData) == Ok::<
        (Seq<u8>, int),
        RustineErrorKind,
    >((v.forward_patch, off4)));

    if v.reverse_patch is Some {
        let r = v.reverse_patch->Some_0;
        assert(s.subrange(off4, off4 + 8) =~= spec_u64_to_le_bytes(r.len() as u64));
        assert(spec_u64_from_le_bytes(s.subrange(off4, off4 + 8)) == r.len() as u64);
        assert(s.subrange(off4 + 8, off4 + rlen) =~= r);
        assert(sp_read_delta(s, off4, CorruptField::ReverseLength, CorruptField::ReverseData)
            == Ok::<(Seq<u8>, int), RustineErrorKind>((r, off4 + rlen)));
    }

    assert(spec_parse_fields(s, f) == Ok::<PatchView, RustineErrorKind>(v));
}

/// Legacy compatibility: any buffer carrying the legacy magic and at least
/// its fixed 72-byte header decodes to exactly its two digests and payload,
/// with no reverse delta and no metadata.
pub proof fn lemma_legacy_decode(d: Seq<u8>)
    requires
        d.len() >= 72,
        d.subrange(0, 8) == magic_v1_seq(),
    ensures
        spec_deserialize(d) == Ok::<PatchView, RustineErrorKind>(legacy_view(d)),
{
}

/// Raw fallback: a buffer announcing neither magic — of whatever length,
/// the empty buffer included — decodes to a container holding the whole
/// input as its forward delta and nothing else.
pub proof fn lemma_raw_fallback(d: Seq<u8>)
    requires
        d.len() >= 8 ==> (d.subrange(0, 8) != magic_v1_seq() && d.subrange(0, 8)
            != magic_v2_seq()),
    ensures
        spec_deserialize(d) == Ok::<PatchView, RustineErrorKind>(raw_view(d)),
{
}

/// Which field a truncation to `len` bytes cuts short, for a container
/// encoded by the current revision, once the cut keeps the whole magic.
pub open spec fn truncated_field(v: PatchView, len: int) -> CorruptField
    recommends
        8 <= len < spec_serialize(v).len(),
{
    let off1 = 13 + (if v.base_checksum is Some { 32int } else { 0 });
    let off2 = off1 + (if v.output_checksum is Some { 32int } else { 0 });
    let off3 = off2 + (match v.metadata {
        Some(m) => 4 + m.len() as int,
        None => 0,
    });
    let off4 = off3 + 8 + v.forward_patch.len() as int;
    if len < 13 {
        CorruptField::Header
    } else if len < off1 {
        CorruptField::BaseChecksum
    } else if len < off2 {
        CorruptField::OutputChecksum
    } else if len < off2 + (if v.metadata is Some { 4int } else { 0 }) {
        CorruptField::MetadataLength
    } else if len < off3 {
        CorruptField::Metadata
    } else if len < off3 + 8 {
        CorruptField::ForwardLength
    } else if len < off4 {
        CorruptField::ForwardData
    } else if len < off4 + 8 {
        CorruptField::ReverseLength
    } else {
        CorruptField::ReverseData
    }
}

/// Truncation safety: cutting an encoded container anywhere at or beyond
/// the magic, short of its full length, decodes to a corruption error
/// naming the field that was cut, never to a successful decode of wrong
/// data. A cut inside the magic itself leaves a buffer that announces no
/// frame at all, which the raw fallback takes instead.
#[verifier::spinoff_prover]
#[verifier::rlimit(100)]
pub proof fn lemma_truncation_safe(v: PatchView, len: int)
    requires
        v.wf(),
        8 <= len < spec_serialize(v).len(),
    ensures
        spec_deserialize(spec_serialize(v).take(len)) == Err::<PatchView, RustineErrorKind>(
            RustineErrorKind::CorruptedPatch { field: truncated_field(v, len) },
        ),
{
    lemma_auto_spec_u32_to_from_le_bytes();
    lemma_auto_spec_u64_to_from_le_bytes();
    lemma_flags_bits(v);
    let f = spec_flags(v);
    let fb = spec_u32_to_le_bytes(f);
    let bb = spec_opt_checksum(v.base_checksum);
    let ob = spec_opt_checksum(v.output_checksum);
    let mb = spec_meta_block(v.metadata);
    let flb = spec_u64_to_le_bytes(v.forward_patch.len() as u64);
    let rb = spec_rev_block(v.reverse_patch);
    let s = spec_serialize(v);
    assert(s == magic_v2_seq() + seq![VERSION] + fb + bb + ob + mb + flb + v.forward_patch + rb);

    let blen: int = if v.base_checksum is Some { 32 } else { 0 };
    let olen: int = if v.output_checksum is Some { 32 } else { 0 };
    let mlen: int = match v.metadata {
        Some(m) => 4 + m.len() as int,
        None => 0,
    };
    let rlen: int = match v.reverse_patch {
        Some(r) => 8 + r.len() as int,
        None => 0,
    };
    assert(bb.len() == blen);
    assert(ob.len() == olen);
    assert(mb.len() == mlen);
    assert(rb.len() == rlen);
    let off1 = 13 + blen;
    let off2 = off1 + olen;
    let off3 = off2 + mlen;
    let off4 = off3 + 8 + v.forward_patch.len() as int;
    assert(s.len() == off4 + rlen);

    let t = s.take(len);
    assert(t.len() == len);
    assert(t.subrange(0, 8) =~= s.subrange(0, 8));
    assert(s.subrange(0, 8) =~= magic_v2_seq());
    assert(magic_v1_seq()[7] == 49u8 && magic_v2_seq()[7] == 50u8);
    assert(t.subrange(0, 8) != magic_v1_seq());
    if len < 13 {
        assert(truncated_field(v, len) == CorruptField::Header);
    } else {
        assert(t[8] == s[8] && s[8] == VERSION);
        assert(t.subrange(9, 13) =~= s.subrange(9, 13));
        assert(s.subrange(9, 13) =~= fb);
        assert(spec_u32_from_le_bytes(t.subrange(9, 13)) == f);

        if len < off1 {
            // the base checksum is announced but cut short
            assert(sp_read_checksum(t, 13, f & FLAG_BASE_CHECKSUM != 0, CorruptField::BaseChecksum)
                == Err::<(Option<Seq<u8>>, int), RustineErrorKind>(
                RustineErrorKind::CorruptedPatch { field: CorruptField::BaseChecksum },
            ));
        } else {
            if v.base_checksum is Some {
                assert(t.subrange(13, off1) =~= s.subrange(13, off1));
                assert(s.subrange(13, off1) =~= v.base_checksum->Some_0);
            }
            assert(sp_read_checksum(t, 13, f & FLAG_BASE_CHECKSUM != 0, CorruptField::BaseChecksum)
                == Ok::<(Option<Seq<u8>>, int), RustineErrorKind>((v.base_checksum, off1)));
            if len < off2 {
                assert(sp_read_checksum(
                    t,
                    off1,
                    f & FLAG_OUTPUT_CHECKSUM != 0,
                    CorruptField::OutputChecksum,
                ) == Err::<(Option<Seq<u8>>, int), RustineErrorKind>(
                    RustineErrorKind::CorruptedPatch { field: CorruptField::OutputChecksum },
                ));
            } else {
                if v.output_checksum is Some {
                    assert(t.subrange(off1, off2) =~= s.subrange(off1, off2));
                    assert(s.subrange(off1, off2) =~= v.output_checksum->Some_0);
                }
                assert(sp_read_checksum(
                    t,
                    off1,
                    f & FLAG_OUTPUT_CHECKSUM != 0,
                    CorruptField::OutputChecksum,
                ) == Ok::<(Option<Seq<u8>>, int), RustineErrorKind>((v.output_checksum, off2)));
                if len < off2 + (if v.metadata is Some { 4int } else { 0 }) {
                    assert(sp_read_meta(t, off2, f & FLAG_METADATA != 0) == Err::<
                        (Option<Seq<u8>>, int),
                        RustineErrorKind,
                    >(RustineErrorKind::CorruptedPatch { field: CorruptField::MetadataLength }));
                } else if len < off3 {
                    // the length prefix is intact, the bytes are short
                    let m = v.metadata->Some_0;
                    assert(t.subrange(off2, off2 + 4) =~= s.subrange(off2, off2 + 4));
                    assert(s.subrange(off2, off2 + 4) =~= spec_u32_to_le_bytes(m.len() as u32));
                    assert(spec_u32_from_le_bytes(t.subrange(off2, off2 + 4)) == m.len() as u32);
                    assert(sp_read_meta(t, off2, f & FLAG_METADATA != 0) == Err::<
                        (Option<Seq<u8>>, int),
                        RustineErrorKind,
                    >(RustineErrorKind::CorruptedPatch { field: CorruptField::Metadata }));
                } else {
                    if v.metadata is Some {
                        let m = v.metadata->Some_0;
                        assert(t.subrange(off2, off2 + 4) =~= s.subrange(off2, off2 + 4));
                        assert(s.subrange(off2, off2 + 4) =~= spec_u32_to_le_bytes(m.len() as u32));
                        assert(spec_u32_from_le_bytes(t.subrange(off2, off2 + 4)) == m.len() as u32);
                        assert(t.subrange(off2 + 4, off3) =~= s.subrange(off2 + 4, off3));
                        assert(s.subrange(off2 + 4, off3) =~= m);
                    }
                    assert(sp_read_meta(t, off2, f & FLAG_METADATA != 0) == Ok::<
                        (Option<Seq<u8>>, int),
                        RustineErrorKind,
                    >((v.metadata, off3)));
                    if len < off3 + 8 {
                        assert(sp_read_delta(
                            t,
                            off3,
                            CorruptField::ForwardLength,
                            CorruptField::ForwardData,
                        ) == Err::<(Seq<u8>, int), RustineErrorKind>(
                            RustineErrorKind::CorruptedPatch { field: CorruptField::ForwardLength },
                        ));
                    } else {
                        assert(t.subrange(off3, off3 + 8) =~= s.subrange(off3, off3 + 8));
                        assert(s.subrange(off3, off3 + 8) =~= flb);
                        assert(spec_u64_from_le_bytes(t.subrange(off3, off3 + 8))
                            == v.forward_patch.len() as u64);
                        if len < off4 {
                            assert(sp_read_delta(
                                t,
                                off3,
                                CorruptField::ForwardLength,
                                CorruptField::ForwardData,
                            ) == Err::<(Seq<u8>, int), RustineErrorKind>(
                                RustineErrorKind::CorruptedPatch {
                                    field: CorruptField::ForwardData,
                                },
                            ));
                        } else {
                            assert(t.subrange(off3 + 8, off4) =~= s.subrange(off3 + 8, off4));
                            assert(s.subrange(off3 + 8, off4) =~= v.forward_patch);
                            assert(sp_read_delta(
                                t,
                                off3,
                                CorruptField::ForwardLength,
                                CorruptField::ForwardData,
                            ) == Ok::<(Seq<u8>, int), RustineErrorKind>((v.forward_patch, off4)));
                            // anything beyond the forward delta is the
                            // reverse block, so it must be present and short
                            assert(v.reverse_patch is Some);
                            let r = v.reverse_patch->Some_0;
                            if len < off4 + 8 {
                                assert(sp_read_delta(
                                    t,
                                    off4,
                                    CorruptField::ReverseLength,
                                    CorruptField::ReverseData,
                                ) == Err::<(Seq<u8>, int), RustineErrorKind>(
                                    RustineErrorKind::CorruptedPatch {
                                        field: CorruptField::ReverseLength,
                                    },
                                ));
                            } else {
                                assert(t.subrange(off4, off4 + 8) =~= s.subrange(off4, off4 + 8));
                                assert(s.subrange(off4, off4 + 8) =~= spec_u64_to_le_bytes(
                                    r.len() as u64,
                                ));
                                assert(spec_u64_from_le_bytes(t.subrange(off4, off4 + 8))
                                    == r.len() as u64);
                                assert(len < off4 + 8 + r.len());
                                assert(sp_read_delta(
                                    t,
                                    off4,
                                    CorruptField::ReverseLength,
                                    CorruptField::ReverseData,
                                ) == Err::<(Seq<u8>, int), RustineErrorKind>(
                                    RustineErrorKind::CorruptedPatch {
                                        field: CorruptField::ReverseData,
                                    },
                                ));
                            }
                        }
                    }
                }
            }
        }
    }
}

} // verus!
