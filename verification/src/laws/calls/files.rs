//! Calls of the Intel HEX reader.

use vstd::prelude::*;

use crate::ihex;
use crate::ihex::{DataRecord, HexError, Image};
use crate::laws;
use crate::laws::hexfile::Item;

verus! {

/// A file that was written is read back: each byte of the last record that
/// covers its address, `0x00` where none does; as long as the highest record
/// reaches, with the lowest address and the count of what is not covered.
pub proof fn law_parse_reads_a_file_back(
    s: &str,
    r: Result<Image, HexError>,
    ls: Seq<Seq<char>>,
    items: Seq<Item>,
    k: int,
    a: int,
)
    requires
        call_ensures(ihex::parse, (s,), r),
        s@ == laws::numbers::with_line_feeds(ls),
        items.len() < ls.len(),
        laws::hexfile::hold(ls, items),
        laws::hexfile::writes(ls[items.len() as int], laws::hexfile::record(0, 1, seq![])),
        forall|i: int| 0 <= i < ls.len() ==> laws::numbers::has_no_line_feed(#[trigger] ls[i]),
        0 <= k < laws::hexfile::placed(items).len(),
        laws::hexfile::placed(items)[k].data.len() > 0,
        0 <= a < 0x1_0000,
    ensures
        ({
            let records = laws::hexfile::placed(items);
            r matches Ok(img) && {
                &&& records[k].addr + records[k].data.len() <= img.bytes@.len()
                &&& exists|j: int|
                    0 <= j < records.len() && (#[trigger] records[j]).addr + records[j].data.len()
                        == img.bytes@.len()
                &&& img.lowest_addr <= records[k].addr
                &&& exists|j: int|
                    0 <= j < records.len() && (#[trigger] records[j]).addr == img.lowest_addr
                &&& ihex::covers(records[k], a) && !laws::image::covered_from(records, k + 1, a)
                    ==> img.bytes@[a] == records[k].data[a - records[k].addr]
                &&& a < img.bytes@.len() && !laws::image::covered_from(records, 0, a)
                    ==> img.bytes@[a] == 0x00
                &&& img.gap_bytes == laws::image::uncovered_below(
                    records,
                    img.bytes@.len() as int,
                ).len()
            }
        }),
{
    let records = laws::hexfile::placed(items);
    laws::hexfile::law_a_file_is_read_back(ls, items);
    assert(records[k].data.len() > 0);
    laws::image::law_where_an_image_ends(records);
    laws::image::law_gaps_are_counted(records);
    if ihex::covers(records[k], a) && !laws::image::covered_from(records, k + 1, a) {
        laws::image::law_the_last_record_wins(records, k, a);
    }
    if a < ihex::image_of(records).bytes.len() && !laws::image::covered_from(records, 0, a) {
        laws::image::law_gaps_are_zero(records, a);
    }
}

/// A file of one data record holds that record's bytes, all of them, from its
/// address on.
pub proof fn law_parse_reads_one_record(
    s: &str,
    r: Result<Image, HexError>,
    data: Seq<u8>,
    offset: int,
    one: Seq<char>,
    end: Seq<char>,
)
    requires
        call_ensures(ihex::parse, (s,), r),
        s@ == one + seq!['\n'] + end,
        0 <= offset,
        0 < data.len() <= 255,
        offset + data.len() <= 0x1_0000,
        laws::hexfile::writes(one, laws::hexfile::record(offset, 0, data)),
        laws::hexfile::writes(end, laws::hexfile::record(0, 1, seq![])),
        laws::numbers::has_no_line_feed(one),
        laws::numbers::has_no_line_feed(end),
    ensures
        r matches Ok(img) && {
            &&& img.bytes@.len() == offset + data.len()
            &&& forall|k: int| 0 <= k < data.len() ==> img.bytes@[offset + k] == #[trigger] data[k]
            &&& forall|k: int| 0 <= k < offset ==> #[trigger] img.bytes@[k] == 0x00
            &&& img.lowest_addr == offset
            &&& img.gap_bytes == offset
        },
{
    let ls = seq![one, end];
    let items = seq![Item::Data { offset, data }];
    let records = laws::hexfile::placed(items);
    let record = DataRecord { addr: offset as nat, data };
    assert(items.drop_last() =~= seq![]);
    assert(laws::hexfile::base_behind(items.drop_last()) == 0);
    assert(laws::hexfile::placed(items.drop_last()) =~= seq![]);
    assert(records =~= seq![record]);
    assert(ls.drop_last() =~= seq![one]);
    assert(laws::numbers::with_line_feeds(ls.drop_last()) == one);
    assert(records[0].data.len() > 0);
    laws::hexfile::law_a_file_is_read_back(ls, items);
    laws::image::law_where_an_image_ends(records);
    let img = ihex::image_of(records);
    assert forall|k: int| 0 <= k < data.len() implies img.bytes[offset + k]
        == #[trigger] data[k] by {
        assert(ihex::covers(records[0], offset + k));
        laws::image::law_the_last_record_wins(records, 0, offset + k);
    }
    assert forall|k: int| 0 <= k < offset implies #[trigger] img.bytes[k] == 0x00 by {
        assert(!laws::image::covered_from(records, 0, k));
        laws::image::law_gaps_are_zero(records, k);
    }
    laws::image::law_gaps_are_counted(records);
    let gaps = laws::image::uncovered_below(records, img.bytes.len() as int);
    assert forall|x: int| gaps.contains(x) <==> 0 <= x < offset by {
        if offset <= x < offset + data.len() {
            assert(ihex::covers(records[0], x));
        }
    }
    assert(gaps =~= vstd::set_lib::set_int_range(0, offset));
    vstd::set_lib::lemma_int_range(0, offset);
}

/// A file with a bad line is refused for the first one, under its number.
pub proof fn law_parse_names_the_first_bad_line(
    s: &str,
    r: Result<Image, HexError>,
    ls: Seq<Seq<char>>,
    items: Seq<Item>,
)
    requires
        call_ensures(ihex::parse, (s,), r),
        s@ == laws::numbers::with_line_feeds(ls),
        items.len() < ls.len() <= usize::MAX,
        laws::hexfile::hold(ls, items),
        forall|i: int| 0 <= i < ls.len() ==> laws::numbers::has_no_line_feed(#[trigger] ls[i]),
        ihex::line_says(
            ls[items.len() as int],
            (items.len() + 1) as usize,
            laws::hexfile::base_behind(items),
        ) is Err,
    ensures
        match r {
            Ok(_) => false,
            Err(HexError::BadRecord { line, .. }) => line == items.len() + 1,
            Err(HexError::BadChecksum { line, .. }) => line == items.len() + 1,
            Err(HexError::AddressTooHigh { line, .. }) => line == items.len() + 1,
            Err(_) => false,
        },
{
    let e = ihex::line_says(
        ls[items.len() as int],
        (items.len() + 1) as usize,
        laws::hexfile::base_behind(items),
    )->Err_0;
    laws::hexfile::law_a_bad_line_is_named_by_its_number(ls, items, e);
}

} // verus!
