//! Laws of the Intel HEX reader.

use vstd::prelude::*;

use crate::ihex;
use crate::ihex::{DataRecord, HexErrorView, ImageView, RecordView};
use crate::text;

verus! {

/// Every record ends within the first 64 KB.
pub open spec fn all_within(records: Seq<DataRecord>) -> bool {
    forall|k: int|
        0 <= k < records.len() ==> (#[trigger] records[k]).addr + records[k].data.len() <= 0x1_0000
}

/// Some record from `k` on covers the address.
pub open spec fn covered_from(records: Seq<DataRecord>, k: int, a: int) -> bool {
    exists|j: int| k <= j < records.len() && ihex::covers(#[trigger] records[j], a)
}

proof fn lemma_within(ls: Seq<Seq<char>>, i: int, base: nat, records: Seq<DataRecord>)
    requires
        all_within(records),
    ensures
        ihex::records_from(ls, i, base, records) matches Ok(all) ==> all_within(all),
    decreases ls.len() - i,
{
    if 0 <= i < ls.len() {
        match ihex::line_says(ls[i], (i + 1) as usize, base) {
            Ok(RecordView::Nothing) => lemma_within(ls, i + 1, base, records),
            Ok(RecordView::Data(r)) => {
                assert(r.addr + r.data.len() <= 0x1_0000);
                lemma_within(ls, i + 1, base, records.push(r));
            },
            Ok(RecordView::Base(b)) => lemma_within(ls, i + 1, b, records),
            _ => {},
        }
    }
}

proof fn lemma_bounds(records: Seq<DataRecord>)
    requires
        all_within(records),
    ensures
        ihex::extent(records) <= 0x1_0000,
        forall|k: int|
            0 <= k < records.len() ==> ihex::lowest(records) <= (#[trigger] records[k]).addr
                && records[k].addr + records[k].data.len() <= ihex::extent(records),
        records.len() > 0 ==> exists|k: int|
            0 <= k < records.len() && (#[trigger] records[k]).addr == ihex::lowest(records),
    decreases records.len(),
{
    if records.len() > 0 {
        let front = records.drop_last();
        let last = records.len() - 1;
        assert forall|k: int| 0 <= k < front.len() implies (#[trigger] front[k]).addr
            + front[k].data.len() <= 0x1_0000 by {
            assert(front[k] == records[k]);
        }
        lemma_bounds(front);
        assert forall|k: int| 0 <= k < records.len() implies ihex::lowest(records) <= (
        #[trigger] records[k]).addr && records[k].addr + records[k].data.len() <= ihex::extent(
            records,
        ) by {
            if k < last {
                assert(front[k] == records[k]);
            }
        }
        if records[last].addr < ihex::lowest(front) || front.len() == 0 {
            assert(records[last].addr == ihex::lowest(records));
        } else {
            let k = choose|k: int|
                0 <= k < front.len() && (#[trigger] front[k]).addr == ihex::lowest(front);
            assert(records[k].addr == ihex::lowest(records));
        }
    }
}

proof fn lemma_gaps(records: Seq<DataRecord>, n: nat)
    ensures
        ihex::gaps_below(records, n) <= n,
        ihex::gaps_below(records, n) == 0 <==> forall|a: int|
            0 <= a < n ==> #[trigger] ihex::byte_at(records, a) is Some,
    decreases n,
{
    if n > 0 {
        lemma_gaps(records, (n - 1) as nat);
        if ihex::gaps_below(records, n) == 0 {
            assert forall|a: int| 0 <= a < n implies #[trigger] ihex::byte_at(
                records,
                a,
            ) is Some by {
                if a < n - 1 {
                }
            }
        } else if ihex::byte_at(records, n - 1) is Some {
            let a = choose|a: int| 0 <= a < n - 1 && #[trigger] ihex::byte_at(records, a) is None;
            assert(ihex::byte_at(records, a) is None);
        }
    }
}

/// An image ends behind the byte that stands highest, and its lowest address is
/// the lowest of its records'.
pub proof fn law_where_an_image_ends(records: Seq<DataRecord>)
    requires
        all_within(records),
        records.len() > 0,
    ensures
        forall|k: int|
            0 <= k < records.len() ==> (#[trigger] records[k]).addr + records[k].data.len()
                <= ihex::image_of(records).bytes.len(),
        exists|k: int|
            0 <= k < records.len() && (#[trigger] records[k]).addr + records[k].data.len()
                == ihex::image_of(records).bytes.len(),
        forall|k: int|
            0 <= k < records.len() ==> ihex::image_of(records).lowest_addr <= (
            #[trigger] records[k]).addr,
        exists|k: int|
            0 <= k < records.len() && (#[trigger] records[k]).addr == ihex::image_of(
                records,
            ).lowest_addr,
{
    lemma_bounds(records);
    lemma_highest(records);
    let k = choose|k: int|
        0 <= k < records.len() && (#[trigger] records[k]).addr == ihex::lowest(records);
    assert(records[k].addr <= 0x1_0000);
}

proof fn lemma_highest(records: Seq<DataRecord>)
    requires
        records.len() > 0,
    ensures
        exists|k: int|
            0 <= k < records.len() && (#[trigger] records[k]).addr + records[k].data.len()
                == ihex::extent(records),
    decreases records.len(),
{
    let front = records.drop_last();
    let last = records.len() - 1;
    if front.len() > 0 {
        lemma_highest(front);
        let k = choose|k: int|
            0 <= k < front.len() && (#[trigger] front[k]).addr + front[k].data.len()
                == ihex::extent(front);
        assert(records[k] == front[k]);
    } else {
        assert(ihex::extent(front) == 0);
    }
    assert(records[last] == records.last());
}

/// The addresses below `n` that no record covers.
pub open spec fn uncovered_below(records: Seq<DataRecord>, n: int) -> Set<int> {
    Set::new(|a: int| 0 <= a < n && !covered_from(records, 0, a))
}

/// As many gaps are counted as there are addresses in the image that no record
/// covers.
pub proof fn law_gaps_are_counted(records: Seq<DataRecord>)
    ensures
        ({
            let img = ihex::image_of(records);
            let gaps = uncovered_below(records, img.bytes.len() as int);
            gaps.finite() && img.gap_bytes == gaps.len()
        }),
{
    lemma_gap_count(records, ihex::extent(records));
}

proof fn lemma_gap_count(records: Seq<DataRecord>, n: nat)
    ensures
        uncovered_below(records, n as int).finite(),
        uncovered_below(records, n as int).len() == ihex::gaps_below(records, n),
    decreases n,
{
    let now = uncovered_below(records, n as int);
    if n == 0 {
        assert(now =~= Set::empty());
    } else {
        let before = uncovered_below(records, n - 1);
        lemma_gap_count(records, (n - 1) as nat);
        if covered_from(records, 0, n - 1) {
            lemma_covered(records, n - 1);
            assert(now =~= before);
        } else {
            lemma_uncovered(records, n - 1);
            assert(now =~= before.insert(n - 1));
        }
    }
}

/// An image has at least one byte and at most 64 KB, and no more gaps than
/// bytes. It starts no higher than the end of the address space.
pub proof fn law_an_image_fits(s: Seq<char>, img: ImageView)
    requires
        ihex::image_in(s) == Ok::<ImageView, HexErrorView>(img),
    ensures
        1 <= img.bytes.len() <= 0x1_0000,
        img.gap_bytes <= img.bytes.len(),
        img.lowest_addr <= img.bytes.len(),
{
    lemma_within(text::lines(s), 0, 0, seq![]);
    let records = ihex::records_from(text::lines(s), 0, 0, seq![])->Ok_0;
    lemma_bounds(records);
    lemma_gaps(records, ihex::extent(records));
    let k = choose|k: int|
        0 <= k < records.len() && (#[trigger] records[k]).addr == ihex::lowest(records);
    assert(records[k].addr <= ihex::extent(records));
}

/// The last record that covers an address has the last word on it: what comes
/// earlier is overwritten.
pub proof fn law_the_last_record_wins(records: Seq<DataRecord>, k: int, a: int)
    requires
        0 <= k < records.len(),
        ihex::covers(records[k], a),
        !covered_from(records, k + 1, a),
    ensures
        a < ihex::image_of(records).bytes.len(),
        ihex::image_of(records).bytes[a] == records[k].data[a - records[k].addr],
{
    lemma_last_word(records, k, a);
}

proof fn lemma_last_word(records: Seq<DataRecord>, k: int, a: int)
    requires
        0 <= k < records.len(),
        ihex::covers(records[k], a),
        !covered_from(records, k + 1, a),
    ensures
        a < ihex::extent(records),
        ihex::byte_at(records, a) == Some(records[k].data[a - records[k].addr]),
    decreases records.len(),
{
    let last = records.len() - 1;
    if k < last {
        let front = records.drop_last();
        assert(!ihex::covers(records[last], a));
        assert(front[k] == records[k]);
        if covered_from(front, k + 1, a) {
            let j = choose|j: int|
                k + 1 <= j < front.len() && ihex::covers(#[trigger] front[j], a);
            assert(ihex::covers(records[j], a));
        }
        lemma_last_word(front, k, a);
    }
}

/// What no record covers is `0x00`, never `0xFF`, and is counted as a gap.
pub proof fn law_gaps_are_zero(records: Seq<DataRecord>, a: int)
    requires
        0 <= a < ihex::extent(records),
        !covered_from(records, 0, a),
    ensures
        ihex::image_of(records).bytes[a] == 0x00,
        ihex::image_of(records).gap_bytes > 0,
{
    lemma_uncovered(records, a);
    lemma_gaps(records, ihex::extent(records));
    assert(ihex::byte_at(records, a) is None);
}

proof fn lemma_uncovered(records: Seq<DataRecord>, a: int)
    requires
        !covered_from(records, 0, a),
    ensures
        ihex::byte_at(records, a) is None,
    decreases records.len(),
{
    if records.len() > 0 {
        let front = records.drop_last();
        assert(!ihex::covers(records[records.len() - 1], a));
        if covered_from(front, 0, a) {
            let j = choose|j: int| 0 <= j < front.len() && ihex::covers(#[trigger] front[j], a);
            assert(ihex::covers(records[j], a));
        }
        lemma_uncovered(front, a);
    }
}

/// An image that its records cover has no gaps, and one without gaps is
/// covered.
pub proof fn law_no_gaps_means_covered(records: Seq<DataRecord>)
    ensures
        ihex::image_of(records).gap_bytes == 0 <==> forall|a: int|
            0 <= a < ihex::extent(records) ==> #[trigger] covered_from(records, 0, a),
{
    lemma_gaps(records, ihex::extent(records));
    assert forall|a: int| #[trigger] covered_from(records, 0, a) <==> ihex::byte_at(
        records,
        a,
    ) is Some by {
        if covered_from(records, 0, a) {
            lemma_covered(records, a);
        } else {
            lemma_uncovered(records, a);
        }
    }
    if ihex::image_of(records).gap_bytes == 0 {
        assert forall|a: int| 0 <= a < ihex::extent(records) implies #[trigger] covered_from(
            records,
            0,
            a,
        ) by {
            assert(ihex::byte_at(records, a) is Some);
        }
    } else {
        let a = choose|a: int|
            0 <= a < ihex::extent(records) && #[trigger] ihex::byte_at(records, a) is None;
        assert(!covered_from(records, 0, a));
    }
}

proof fn lemma_covered(records: Seq<DataRecord>, a: int)
    requires
        covered_from(records, 0, a),
    ensures
        ihex::byte_at(records, a) is Some,
    decreases records.len(),
{
    let j = choose|j: int| 0 <= j < records.len() && ihex::covers(#[trigger] records[j], a);
    if j < records.len() - 1 && !ihex::covers(records.last(), a) {
        let front = records.drop_last();
        assert(ihex::covers(front[j], a));
        lemma_covered(front, a);
    }
}

/// Nothing behind the end record is read: two files that agree up to it say
/// the same.
pub proof fn law_the_end_record_ends_the_file(
    one: Seq<Seq<char>>,
    other: Seq<Seq<char>>,
    end: int,
    i: int,
    base: nat,
    records: Seq<DataRecord>,
)
    requires
        0 <= i <= end < one.len(),
        end < other.len(),
        forall|k: int| 0 <= k <= end ==> one[k] == other[k],
        forall|line: usize, b: nat|
            #[trigger] ihex::line_says(one[end], line, b) == Ok::<RecordView, HexErrorView>(
                RecordView::End,
            ),
    ensures
        ihex::records_from(one, i, base, records) == ihex::records_from(other, i, base, records),
    decreases end - i,
{
    assert(one[i] == other[i]);
    if i < end {
        match ihex::line_says(one[i], (i + 1) as usize, base) {
            Ok(RecordView::Nothing) => law_the_end_record_ends_the_file(
                one,
                other,
                end,
                i + 1,
                base,
                records,
            ),
            Ok(RecordView::Data(r)) => law_the_end_record_ends_the_file(
                one,
                other,
                end,
                i + 1,
                base,
                records.push(r),
            ),
            Ok(RecordView::Base(b)) => law_the_end_record_ends_the_file(
                one,
                other,
                end,
                i + 1,
                b,
                records,
            ),
            _ => {},
        }
    } else {
        assert(ihex::line_says(one[end], (end + 1) as usize, base) == Ok::<
            RecordView,
            HexErrorView,
        >(RecordView::End));
    }
}

/// A record whose bytes do not add up to nothing is never accepted, whatever
/// its kind, and one of the right length is refused for that.
pub proof fn law_a_bad_sum_is_refused(b: Seq<u8>, line: usize, base: nat)
    requires
        b.len() >= 5,
        crate::frame::sum8(b) != 0,
    ensures
        ihex::record_says(b, line, base) is Err,
        b.len() == b[0] + 5 ==> ihex::record_says(b, line, base)->Err_0 is BadChecksum,
{
}

} // verus!
