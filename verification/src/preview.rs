use vstd::prelude::*;

use vstd::slice::*;
use vstd::string::*;

use crate::checksum;

verus! {

/// One contiguous span where two buffers diverge.
#[derive(Debug)]
pub struct ByteChange {
    pub offset: usize,
    pub old_bytes: Vec<u8>,
    pub new_bytes: Vec<u8>,
}

/// The mathematical image of a change region.
pub ghost struct ChangeView {
    pub offset: int,
    pub old_bytes: Seq<u8>,
    pub new_bytes: Seq<u8>,
}

impl View for ByteChange {
    type V = ChangeView;

    open spec fn view(&self) -> ChangeView {
        ChangeView { offset: self.offset as int, old_bytes: self.old_bytes@, new_bytes: self.new_bytes@ }
    }
}

/// The views of a sequence of regions.
pub open spec fn changes_view(s: Seq<ByteChange>) -> Seq<ChangeView> {
    s.map_values(|c: ByteChange| c@)
}

/// The length of the overlapping prefix of two buffers.
pub open spec fn spec_min_len(old: Seq<u8>, new: Seq<u8>) -> int {
    if old.len() <= new.len() {
        old.len() as int
    } else {
        new.len() as int
    }
}

/// Whether the scan keeps a region open at position `e`: either the bytes
/// differ here, or a one-step lookahead sees the next position differ, which
/// merges near-adjacent differences into one region.
pub open spec fn diff_cont(old: Seq<u8>, new: Seq<u8>, e: int) -> bool {
    let min = spec_min_len(old, new);
    e < min && (old[e] != new[e] || (e + 1 < min && old[e + 1] != new[e + 1]))
}

/// The first position at or after `e` where the scan closes the open region.
pub open spec fn spec_region_end(old: Seq<u8>, new: Seq<u8>, e: int) -> int
    recommends
        0 <= e <= spec_min_len(old, new),
    decreases spec_min_len(old, new) - e,
        when 0 <= e <= spec_min_len(old, new)
{
    if diff_cont(old, new, e) {
        spec_region_end(old, new, e + 1)
    } else {
        e
    }
}

pub proof fn lemma_region_end_bounds(old: Seq<u8>, new: Seq<u8>, e: int)
    requires
        0 <= e <= spec_min_len(old, new),
    ensures
        e <= spec_region_end(old, new, e) <= spec_min_len(old, new),
    decreases spec_min_len(old, new) - e,
{
    if diff_cont(old, new, e) {
        lemma_region_end_bounds(old, new, e + 1);
    }
}

/// The regions the scan emits from position `i` over the overlapping prefix.
pub open spec fn spec_scan(old: Seq<u8>, new: Seq<u8>, i: int) -> Seq<ChangeView>
    decreases spec_min_len(old, new) - i,
        when 0 <= i <= spec_min_len(old, new)
        via spec_scan_decreases
{
    let min = spec_min_len(old, new);
    if i >= min {
        Seq::empty()
    } else if old[i] == new[i] {
        spec_scan(old, new, i + 1)
    } else {
        let e = spec_region_end(old, new, i);
        seq![
            ChangeView { offset: i, old_bytes: old.subrange(i, e), new_bytes: new.subrange(i, e) },
        ] + spec_scan(old, new, e)
    }
}

#[via_fn]
proof fn spec_scan_decreases(old: Seq<u8>, new: Seq<u8>, i: int) {
    let min = spec_min_len(old, new);
    if 0 <= i < min && old[i] != new[i] {
        assert(diff_cont(old, new, i));
        lemma_region_end_bounds(old, new, i + 1);
        assert(spec_region_end(old, new, i) == spec_region_end(old, new, i + 1));
    }
}

/// The single trailing region covering whatever one buffer has beyond the
/// other, or nothing when the lengths agree.
pub open spec fn spec_trailing(old: Seq<u8>, new: Seq<u8>) -> Seq<ChangeView> {
    if old.len() == new.len() {
        Seq::empty()
    } else if new.len() > old.len() {
        seq![
            ChangeView {
                offset: old.len() as int,
                old_bytes: Seq::empty(),
                new_bytes: new.subrange(old.len() as int, new.len() as int),
            },
        ]
    } else {
        seq![
            ChangeView {
                offset: new.len() as int,
                old_bytes: old.subrange(new.len() as int, old.len() as int),
                new_bytes: Seq::empty(),
            },
        ]
    }
}

/// Every region two buffers diverge in: the scanned regions of the
/// overlapping prefix, then the trailing length difference.
pub open spec fn spec_find_changes(old: Seq<u8>, new: Seq<u8>) -> Seq<ChangeView> {
    spec_scan(old, new, 0) + spec_trailing(old, new)
}

proof fn lemma_scan_identity(x: Seq<u8>, i: int)
    requires
        0 <= i <= x.len(),
    ensures
        spec_scan(x, x, i) == Seq::<ChangeView>::empty(),
    decreases x.len() - i,
{
    if i < x.len() {
        lemma_scan_identity(x, i + 1);
    }
}

/// Comparing any buffer with itself yields no change regions.
pub proof fn lemma_find_changes_identity(x: Seq<u8>)
    ensures
        spec_find_changes(x, x) == Seq::<ChangeView>::empty(),
{
    lemma_scan_identity(x, 0);
    assert(spec_find_changes(x, x) =~= Seq::<ChangeView>::empty());
}

/// Find every region where the two buffers differ.
pub fn find_changes(old: &[u8], new: &[u8]) -> (r: Vec<ByteChange>)
    ensures
        changes_view(r@) == spec_find_changes(old@, new@),
        old@ == new@ ==> r@.len() == 0,
{
    let n_old: usize = old.len();
    let n_new: usize = new.len();
    let min: usize = if n_old < n_new {
        n_old
    } else {
        n_new
    };
    let mut changes: Vec<ByteChange> = Vec::new();
    let mut i: usize = 0;
    while i < min
        invariant
            i <= min,
            n_old == old@.len(),
            n_new == new@.len(),
            min as int == spec_min_len(old@, new@),
            changes_view(changes@) + spec_scan(old@, new@, i as int) == spec_scan(old@, new@, 0),
        decreases min - i,
    {
        if *slice_index_get(old, i) != *slice_index_get(new, i) {
            let start: usize = i;
            let mut end: usize = i;
            while end < min && (*slice_index_get(old, end) != *slice_index_get(new, end) || (end + 1
                < min && *slice_index_get(old, end + 1) != *slice_index_get(new, end + 1)))
                invariant
                    start <= end <= min,
                    n_old == old@.len(),
                    n_new == new@.len(),
                    min as int == spec_min_len(old@, new@),
                    spec_region_end(old@, new@, start as int) == spec_region_end(
                        old@,
                        new@,
                        end as int,
                    ),
                decreases min - end,
            {
                proof {
                    assert(diff_cont(old@, new@, end as int));
                }
                end = end + 1;
            }
            proof {
                assert(!diff_cont(old@, new@, end as int));
                assert(spec_region_end(old@, new@, start as int) == end as int);
            }
            let old_bytes: Vec<u8> = slice_to_vec(slice_subrange(old, start, end));
            let new_bytes: Vec<u8> = slice_to_vec(slice_subrange(new, start, end));
            let ghost prev = changes_view(changes@);
            changes.push(ByteChange { offset: start, old_bytes, new_bytes });
            proof {
                let cv = ChangeView {
                    offset: start as int,
                    old_bytes: old@.subrange(start as int, end as int),
                    new_bytes: new@.subrange(start as int, end as int),
                };
                assert(changes_view(changes@) =~= prev + seq![cv]);
                assert(spec_scan(old@, new@, start as int) == seq![cv] + spec_scan(
                    old@,
                    new@,
                    end as int,
                ));
                assert(changes_view(changes@) + spec_scan(old@, new@, end as int) =~= spec_scan(
                    old@,
                    new@,
                    0,
                ));
            }
            i = end;
        } else {
            proof {
                assert(spec_scan(old@, new@, i as int) == spec_scan(old@, new@, i + 1));
            }
            i = i + 1;
        }
    }
    if n_old != n_new {
        let ghost prev = changes_view(changes@);
        if n_new > n_old {
            changes.push(
                ByteChange {
                    offset: n_old,
                    old_bytes: Vec::new(),
                    new_bytes: slice_to_vec(slice_subrange(new, n_old, n_new)),
                },
            );
        } else {
            changes.push(
                ByteChange {
                    offset: n_new,
                    old_bytes: slice_to_vec(slice_subrange(old, n_new, n_old)),
                    new_bytes: Vec::new(),
                },
            );
        }
        proof {
            assert(changes_view(changes@) =~= prev + spec_trailing(old@, new@));
        }
    }
    proof {
        assert(changes_view(changes@) =~= spec_find_changes(old@, new@));
        if old@ == new@ {
            lemma_find_changes_identity(old@);
        }
    }
    changes
}

/// The decimal rendering of a number, most significant digit first.
pub open spec fn spec_decimal(n: u64) -> Seq<char>
    decreases n,
{
    if n < 10 {
        seq![checksum::hex_digit(n as u8)]
    } else {
        spec_decimal(n / 10) + seq![checksum::hex_digit((n % 10) as u8)]
    }
}

/// Render a number in decimal.
fn decimal_string(n: u64) -> (r: String)
    ensures
        r@ == spec_decimal(n),
    decreases n,
{
    if n < 10 {
        checksum::hex_digit_str(n as u8).to_owned()
    } else {
        let mut s: String = decimal_string(n / 10);
        s.append(checksum::hex_digit_str((n % 10) as u8));
        s
    }
}

/// What the hex renderer prints for a byte sequence: a fixed-width grouped
/// dump, a function of the bytes alone.
pub uninterp spec fn hex_dump_of(b: Seq<u8>) -> Seq<char>;

/// Relies on pretty_hex::hex_write through the Display impl of
/// pretty_hex::Hex: with a fixed configuration the rendering is a function
/// of the bytes alone, and an empty input renders as nothing.
#[verifier::external_body]
fn render_hex(bytes: &[u8]) -> (r: String)
    ensures
        r@ == hex_dump_of(bytes@),
        bytes@.len() == 0 ==> r@.len() == 0,
{
    let cfg = pretty_hex::HexConfig {
        title: false,
        width: 16,
        group: 2,
        chunk: 8,
        ..pretty_hex::HexConfig::default()
    };
    format!("{}", pretty_hex::PrettyHex::hex_conf(bytes, cfg))
}

/// Render at most `max_bytes` of a buffer as a hex dump; when the buffer is
/// longer, append how many bytes were left out.
pub fn format_hex_dump(bytes: &[u8], max_bytes: usize) -> (r: String)
    ensures
        bytes@.len() <= max_bytes ==> r@ == hex_dump_of(bytes@),
        bytes@.len() > max_bytes ==> r@ == hex_dump_of(bytes@.take(max_bytes as int)) + " ... ("@
            + spec_decimal((bytes@.len() - max_bytes) as u64) + " more bytes)"@,
{
    let n: usize = bytes.len();
    let shown_len: usize = if n < max_bytes {
        n
    } else {
        max_bytes
    };
    let shown: &[u8] = slice_subrange(bytes, 0, shown_len);
    proof {
        if n <= max_bytes {
            assert(bytes@.subrange(0, shown_len as int) =~= bytes@);
        } else {
            assert(bytes@.subrange(0, shown_len as int) =~= bytes@.take(max_bytes as int));
        }
    }
    let mut s: String = render_hex(shown);
    if n > max_bytes {
        s.append(" ... (");
        s.append(decimal_string((n - max_bytes) as u64).as_str());
        s.append(" more bytes)");
        proof {
            assert(s@ =~= hex_dump_of(bytes@.take(max_bytes as int)) + " ... ("@ + spec_decimal(
                (bytes@.len() - max_bytes) as u64,
            ) + " more bytes)"@);
        }
    }
    s
}

/// The bytes removed over a list of regions.
pub open spec fn spec_total_old(cs: Seq<ChangeView>) -> int
    decreases cs.len(),
{
    if cs.len() == 0 {
        0
    } else {
        spec_total_old(cs.drop_last()) + cs.last().old_bytes.len()
    }
}

/// The bytes added over a list of regions.
pub open spec fn spec_total_new(cs: Seq<ChangeView>) -> int
    decreases cs.len(),
{
    if cs.len() == 0 {
        0
    } else {
        spec_total_new(cs.drop_last()) + cs.last().new_bytes.len()
    }
}

proof fn lemma_total_nonneg(cs: Seq<ChangeView>)
    ensures
        spec_total_old(cs) >= 0,
        spec_total_new(cs) >= 0,
    decreases cs.len(),
{
    if cs.len() > 0 {
        lemma_total_nonneg(cs.drop_last());
    }
}

proof fn lemma_total_prefix(cs: Seq<ChangeView>, i: int)
    requires
        0 <= i <= cs.len(),
    ensures
        spec_total_old(cs.take(i)) <= spec_total_old(cs),
        spec_total_new(cs.take(i)) <= spec_total_new(cs),
        spec_total_old(cs.take(i)) >= 0,
        spec_total_new(cs.take(i)) >= 0,
    decreases cs.len() - i,
{
    lemma_total_nonneg(cs.take(i));
    if i == cs.len() {
        assert(cs.take(i) =~= cs);
    } else {
        assert(cs.take(i + 1).drop_last() =~= cs.take(i));
        lemma_total_prefix(cs, i + 1);
    }
}

/// The one-line account of a change list: how many regions, and how many
/// bytes go out and come in. An empty list reads as no changes at all.
pub open spec fn spec_summary(cs: Seq<ChangeView>) -> Seq<char>
    recommends
        cs.len() <= u64::MAX,
        spec_total_old(cs) <= u64::MAX,
        spec_total_new(cs) <= u64::MAX,
{
    if cs.len() == 0 {
        "No changes detected"@
    } else {
        spec_decimal(cs.len() as u64) + " change region"@ + (if cs.len() == 1 {
            Seq::<char>::empty()
        } else {
            "s"@
        }) + ", "@ + spec_decimal(spec_total_old(cs) as u64) + " bytes → "@ + spec_decimal(
            spec_total_new(cs) as u64,
        ) + " bytes"@
    }
}

/// Summarize a change list for reporting.
pub fn preview_summary(changes: &[ByteChange]) -> (r: String)
    requires
        changes@.len() <= u64::MAX,
        spec_total_old(changes_view(changes@)) <= u64::MAX,
        spec_total_new(changes_view(changes@)) <= u64::MAX,
    ensures
        r@ == spec_summary(changes_view(changes@)),
{
    let n: usize = changes.len();
    if n == 0 {
        return "No changes detected".to_owned();
    }
    let ghost cv = changes_view(changes@);
    let mut total_old: u64 = 0;
    let mut total_new: u64 = 0;
    let mut i: usize = 0;
    while i < n
        invariant
            i <= n,
            n == changes@.len(),
            cv == changes_view(changes@),
            spec_total_old(cv) <= u64::MAX,
            spec_total_new(cv) <= u64::MAX,
            total_old == spec_total_old(cv.take(i as int)),
            total_new == spec_total_new(cv.take(i as int)),
        decreases n - i,
    {
        let c: &ByteChange = slice_index_get(changes, i);
        proof {
            assert(cv.take(i + 1).drop_last() =~= cv.take(i as int));
            assert(cv.take(i + 1).last() == cv[i as int]);
            lemma_total_prefix(cv, i as int);
            lemma_total_prefix(cv, i + 1);
        }
        total_old = total_old + (c.old_bytes.len() as u64);
        total_new = total_new + (c.new_bytes.len() as u64);
        i = i + 1;
    }
    proof {
        assert(cv.take(n as int) =~= cv);
    }
    let mut s: String = decimal_string(n as u64);
    s.append(" change region");
    if n != 1 {
        s.append("s");
    }
    s.append(", ");
    s.append(decimal_string(total_old).as_str());
    s.append(" bytes → ");
    s.append(decimal_string(total_new).as_str());
    s.append(" bytes");
    proof {
        assert(s@ =~= spec_summary(cv));
    }
    s
}

} // verus!
