use vstd::prelude::*;

use vstd::array::*;
use vstd::bytes::*;
use vstd::slice::*;
use vstd::string::*;

use crate::error::RustineErrorKind;

verus! {

broadcast use vstd::array::group_array_axioms;

/// The eight ASCII bytes `RUSTINE1`, the magic of the legacy framed revision.
pub open spec fn magic_v1_seq() -> Seq<u8> {
    seq![82u8, 85u8, 83u8, 84u8, 73u8, 78u8, 69u8, 49u8]
}

/// FNV-1a offset basis (64-bit).
pub const FNV_OFFSET: u64 = 0xcbf29ce484222325;

/// FNV-1a prime (64-bit).
pub const FNV_PRIME: u64 = 0x100000001b3;

/// One FNV-1a round: fold a byte into the running state.
pub open spec fn fnv1a_step(h: u64, b: u8) -> u64 {
    vstd::wrapping::u64_specs::wrapping_mul(h ^ (b as u64), FNV_PRIME)
}

/// The 64-bit FNV-1a value of a byte sequence.
pub open spec fn spec_fnv1a(s: Seq<u8>) -> u64
    decreases s.len(),
{
    if s.len() == 0 {
        FNV_OFFSET
    } else {
        fnv1a_step(spec_fnv1a(s.drop_last()), s.last())
    }
}

/// The fixed-width digest of a byte sequence: the FNV-1a value in
/// little-endian order, zero-padded to 32 bytes. The algorithm is a
/// non-cryptographic placeholder; the container format only fixes the
/// 32-byte width, so the function can be swapped without changing the
/// framing.
pub open spec fn spec_hash(s: Seq<u8>) -> Seq<u8> {
    spec_u64_to_le_bytes(spec_fnv1a(s)) + Seq::new(24, |i: int| 0u8)
}

pub proof fn lemma_spec_hash_len(s: Seq<u8>)
    ensures
        spec_hash(s).len() == 32,
{
    lemma_auto_spec_u64_to_from_le_bytes();
}

/// Compute the 32-byte digest of `data`.
pub fn hash(data: &[u8]) -> (r: [u8; 32])
    ensures
        r@ == spec_hash(data@),
{
    let n: usize = data.len();
    let mut h: u64 = FNV_OFFSET;
    let mut i: usize = 0;
    while i < n
        invariant
            i <= n,
            n == data@.len(),
            h == spec_fnv1a(data@.take(i as int)),
        decreases n - i,
    {
        let b: u8 = *slice_index_get(data, i);
        proof {
            assert(data@.take(i + 1).drop_last() =~= data@.take(i as int));
            assert(data@.take(i + 1).last() == b);
        }
        h = (h ^ (b as u64)).wrapping_mul(FNV_PRIME);
        i = i + 1;
    }
    proof {
        assert(data@.take(n as int) =~= data@);
        lemma_auto_spec_u64_to_from_le_bytes();
    }
    let le: Vec<u8> = u64_to_le_bytes(h);
    let mut out: [u8; 32] = [0u8; 32];
    let mut j: usize = 0;
    while j < 8
        invariant
            j <= 8,
            le@ == spec_u64_to_le_bytes(h),
            le@.len() == 8,
            forall|k: int| 0 <= k < j ==> out@[k] == le@[k],
            forall|k: int| j <= k < 32 ==> out@[k] == 0u8,
        decreases 8 - j,
    {
        out[j] = le[j];
        j = j + 1;
    }
    proof {
        assert(out@ =~= spec_hash(data@));
    }
    out
}

/// The lowercase hex character of a value below 16.
pub open spec fn hex_digit(n: u8) -> char {
    if n == 0 {
        '0'
    } else if n == 1 {
        '1'
    } else if n == 2 {
        '2'
    } else if n == 3 {
        '3'
    } else if n == 4 {
        '4'
    } else if n == 5 {
        '5'
    } else if n == 6 {
        '6'
    } else if n == 7 {
        '7'
    } else if n == 8 {
        '8'
    } else if n == 9 {
        '9'
    } else if n == 10 {
        'a'
    } else if n == 11 {
        'b'
    } else if n == 12 {
        'c'
    } else if n == 13 {
        'd'
    } else if n == 14 {
        'e'
    } else {
        'f'
    }
}

/// Lowercase hex rendering of a byte sequence, two characters per byte.
pub open spec fn spec_hex(s: Seq<u8>) -> Seq<char>
    decreases s.len(),
{
    if s.len() == 0 {
        Seq::empty()
    } else {
        spec_hex(s.drop_last()) + seq![hex_digit(s.last() / 16), hex_digit(s.last() % 16)]
    }
}

pub(crate) fn hex_digit_str(n: u8) -> (r: &'static str)
    requires
        n < 16,
    ensures
        r@ == seq![hex_digit(n)],
{
    if n == 0 {
        proof { reveal_strlit("0"); assert("0"@ =~= seq![hex_digit(n)]); }
        "0"
    } else if n == 1 {
        proof { reveal_strlit("1"); assert("1"@ =~= seq![hex_digit(n)]); }
        "1"
    } else if n == 2 {
        proof { reveal_strlit("2"); assert("2"@ =~= seq![hex_digit(n)]); }
        "2"
    } else if n == 3 {
        proof { reveal_strlit("3"); assert("3"@ =~= seq![hex_digit(n)]); }
        "3"
    } else if n == 4 {
        proof { reveal_strlit("4"); assert("4"@ =~= seq![hex_digit(n)]); }
        "4"
    } else if n == 5 {
        proof { reveal_strlit("5"); assert("5"@ =~= seq![hex_digit(n)]); }
        "5"
    } else if n == 6 {
        proof { reveal_strlit("6"); assert("6"@ =~= seq![hex_digit(n)]); }
        "6"
    } else if n == 7 {
        proof { reveal_strlit("7"); assert("7"@ =~= seq![hex_digit(n)]); }
        "7"
    } else if n == 8 {
        proof { reveal_strlit("8"); assert("8"@ =~= seq![hex_digit(n)]); }
        "8"
    } else if n == 9 {
        proof { reveal_strlit("9"); assert("9"@ =~= seq![hex_digit(n)]); }
        "9"
    } else if n == 10 {
        proof { reveal_strlit("a"); assert("a"@ =~= seq![hex_digit(n)]); }
        "a"
    } else if n == 11 {
        proof { reveal_strlit("b"); assert("b"@ =~= seq![hex_digit(n)]); }
        "b"
    } else if n == 12 {
        proof { reveal_strlit("c"); assert("c"@ =~= seq![hex_digit(n)]); }
        "c"
    } else if n == 13 {
        proof { reveal_strlit("d"); assert("d"@ =~= seq![hex_digit(n)]); }
        "d"
    } else if n == 14 {
        proof { reveal_strlit("e"); assert("e"@ =~= seq![hex_digit(n)]); }
        "e"
    } else {
        proof { reveal_strlit("f"); assert("f"@ =~= seq![hex_digit(n)]); }
        "f"
    }
}

fn hex_encode(bytes: &[u8]) -> (r: String)
    ensures
        r@ == spec_hex(bytes@),
{
    let n: usize = bytes.len();
    let mut s: String = String::new();
    let mut i: usize = 0;
    while i < n
        invariant
            i <= n,
            n == bytes@.len(),
            s@ == spec_hex(bytes@.take(i as int)),
        decreases n - i,
    {
        let b: u8 = *slice_index_get(bytes, i);
        s.append(hex_digit_str(b / 16));
        s.append(hex_digit_str(b % 16));
        proof {
            assert(bytes@.take(i + 1).drop_last() =~= bytes@.take(i as int));
            assert(bytes@.take(i + 1).last() == b);
        }
        i = i + 1;
    }
    proof {
        assert(bytes@.take(n as int) =~= bytes@);
    }
    s
}

/// Lowercase hex rendering of a byte slice.
pub fn hex_encode_public(bytes: &[u8]) -> (r: String)
    ensures
        r@ == spec_hex(bytes@),
{
    hex_encode(bytes)
}

/// Whether two 32-byte digests hold the same bytes.
fn bytes32_eq(a: &[u8; 32], b: &[u8; 32]) -> (r: bool)
    ensures
        r == (a@ == b@),
{
    let mut i: usize = 0;
    while i < 32
        invariant
            i <= 32,
            forall|k: int| 0 <= k < i ==> a@[k] == b@[k],
        decreases 32 - i,
    {
        if *array_index_get(a, i) != *array_index_get(b, i) {
            proof {
                assert(a@[i as int] != b@[i as int]);
            }
            return false;
        }
        i = i + 1;
    }
    proof {
        assert(a@ =~= b@);
    }
    true
}

/// Whether an error is the mismatch report for the given expected and
/// actual digests, both rendered in lowercase hex.
pub open spec fn is_mismatch_report(e: RustineErrorKind, expected: Seq<u8>, actual: Seq<u8>) -> bool {
    e matches RustineErrorKind::ChecksumMismatch { expected: ex, actual: ac } && ex@ == spec_hex(
        expected,
    ) && ac@ == spec_hex(actual)
}

/// Check `data` against an expected digest; on mismatch report both
/// digests in lowercase hex.
pub fn verify_hash(data: &[u8], expected: &[u8; 32]) -> (r: Result<(), RustineErrorKind>)
    ensures
        r is Ok <==> spec_hash(data@) == expected@,
        r matches Err(e) ==> (e matches RustineErrorKind::ChecksumMismatch { expected: ex, actual: ac }
            && ex@ == spec_hex(expected@) && ac@ == spec_hex(spec_hash(data@))),
{
    let actual: [u8; 32] = hash(data);
    if !bytes32_eq(&actual, expected) {
        return Err(RustineErrorKind::ChecksumMismatch {
            expected: hex_encode(expected.as_slice()),
            actual: hex_encode(actual.as_slice()),
        });
    }
    Ok(())
}

/// Append the legacy magic to a byte vector.
pub(crate) fn extend_magic_v1(data: &mut Vec<u8>)
    ensures
        final(data)@ == old(data)@ + magic_v1_seq(),
{
    data.push(82u8);
    data.push(85u8);
    data.push(83u8);
    data.push(84u8);
    data.push(73u8);
    data.push(78u8);
    data.push(69u8);
    data.push(49u8);
    proof {
        assert(data@ =~= old(data)@ + magic_v1_seq());
    }
}

/// Whether the first eight bytes are the legacy magic.
pub(crate) fn is_magic_v1(data: &[u8]) -> (r: bool)
    requires
        data@.len() >= 8,
    ensures
        r == (data@.subrange(0, 8) == magic_v1_seq()),
{
    let r: bool = *slice_index_get(data, 0) == 82 && *slice_index_get(data, 1) == 85
        && *slice_index_get(data, 2) == 83 && *slice_index_get(data, 3) == 84
        && *slice_index_get(data, 4) == 73 && *slice_index_get(data, 5) == 78
        && *slice_index_get(data, 6) == 69 && *slice_index_get(data, 7) == 49;
    proof {
        let s = data@.subrange(0, 8);
        assert(forall|k: int| 0 <= k < 8 ==> s[k] == data@[k]);
        if r {
            assert(s =~= magic_v1_seq());
        } else {
            assert(s != magic_v1_seq());
        }
    }
    r
}

/// Copy 32 bytes out of a slice into a fixed array.
pub(crate) fn read_arr32(data: &[u8], off: usize) -> (r: [u8; 32])
    requires
        off + 32 <= data@.len(),
    ensures
        r@ == data@.subrange(off as int, off as int + 32),
{
    let n: usize = data.len();
    let mut out: [u8; 32] = [0u8; 32];
    let mut j: usize = 0;
    while j < 32
        invariant
            j <= 32,
            n == data@.len(),
            off + 32 <= n,
            forall|k: int| 0 <= k < j ==> out@[k] == data@[off + k],
        decreases 32 - j,
    {
        out[j] = *slice_index_get(data, off + j);
        j = j + 1;
    }
    proof {
        assert(out@ =~= data@.subrange(off as int, off as int + 32));
    }
    out
}

/// Frame a delta in the legacy layout: magic, the two digests, then the
/// payload.
pub fn wrap_patch(base_hash: [u8; 32], output_hash: [u8; 32], patch_data: &[u8]) -> (r: Vec<u8>)
    ensures
        r@ == magic_v1_seq() + base_hash@ + output_hash@ + patch_data@,
{
    let mut wrapped: Vec<u8> = Vec::new();
    extend_magic_v1(&mut wrapped);
    wrapped.extend_from_slice(base_hash.as_slice());
    wrapped.extend_from_slice(output_hash.as_slice());
    wrapped.extend_from_slice(patch_data);
    proof {
        assert(wrapped@ =~= magic_v1_seq() + base_hash@ + output_hash@ + patch_data@);
    }
    wrapped
}

/// Split a legacy-framed buffer into its digests and payload; a buffer
/// without the legacy frame is handed back whole, with no digests.
pub fn unwrap_patch<'a>(data: &'a [u8]) -> (r: Result<
    (Option<[u8; 32]>, Option<[u8; 32]>, &'a [u8]),
    RustineErrorKind,
>)
    ensures
        r is Ok,
        ({
            let (b, o, p) = r->Ok_0;
            if data@.len() > 72 && data@.subrange(0, 8) == magic_v1_seq() {
                &&& b is Some
                &&& b->Some_0@ == data@.subrange(8, 40)
                &&& o is Some
                &&& o->Some_0@ == data@.subrange(40, 72)
                &&& p@ == data@.subrange(72, data@.len() as int)
            } else {
                &&& b is None
                &&& o is None
                &&& p@ == data@
            }
        }),
{
    if data.len() > 72 && is_magic_v1(data) {
        let bh: [u8; 32] = read_arr32(data, 8);
        let oh: [u8; 32] = read_arr32(data, 40);
        let rest: &[u8] = slice_subrange(data, 72, data.len());
        Ok((Some(bh), Some(oh), rest))
    } else {
        Ok((None, None, data))
    }
}

} // verus!
