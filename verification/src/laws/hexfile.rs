//! Laws of the Intel HEX reader: what was written is read back.

use vstd::prelude::*;

use crate::frame;
use crate::ihex;
use crate::ihex::{DataRecord, HexErrorView, ImageView, RecordView};
use crate::laws;
use crate::text;

verus! {

// -------------------------------------------------------------------- writing

/// The byte that makes the sum of a record a multiple of 256.
pub open spec fn check_byte(b: Seq<u8>) -> u8 {
    ((256 - laws::wire::total(b) % 256) % 256) as u8
}

/// The bytes of a record: how many data bytes, the offset in two bytes, the
/// kind, the data, and the check byte.
pub open spec fn record(offset: int, kind: u8, data: Seq<u8>) -> Seq<u8> {
    let front = seq![data.len() as u8, (offset / 256) as u8, (offset % 256) as u8, kind] + data;
    front.push(check_byte(front))
}

/// Digits that spell some bytes, two for each, in either case.
pub open spec fn spells(t: Seq<char>, b: Seq<u8>) -> bool {
    &&& t.len() == 2 * b.len()
    &&& laws::numbers::are_digits(t, 16)
    &&& forall|i: int|
        0 <= i < b.len() ==> #[trigger] b[i] == laws::numbers::worth(t[2 * i]) * 16
            + laws::numbers::worth(t[2 * i + 1])
}

/// A line that holds a record: a colon and the digits, with white space around
/// them or none.
pub open spec fn is_line_of(l: Seq<char>, pre: Seq<char>, t: Seq<char>, post: Seq<char>) -> bool {
    &&& l == pre + (seq![':'] + t) + post
    &&& laws::numbers::all_space(pre)
    &&& laws::numbers::all_space(post)
}

/// A line that is this record.
pub open spec fn writes(l: Seq<char>, b: Seq<u8>) -> bool {
    exists|pre: Seq<char>, t: Seq<char>, post: Seq<char>|
        #[trigger] is_line_of(l, pre, t, post) && spells(t, b)
}

// -------------------------------------------------------------------- reading

proof fn lemma_ascii_char(c: char)
    requires
        (c as int) < 128,
    ensures
        '\0' <= c <= '\u{7f}',
{
}

proof fn lemma_ascii(t: Seq<char>)
    requires
        forall|i: int| 0 <= i < t.len() ==> (#[trigger] t[i] as int) < 128,
    ensures
        vstd::utf8::encode_utf8(t) == Seq::new(t.len(), |i: int| t[i] as u8),
{
    assert forall|i: int| 0 <= i < t.len() implies '\0' <= #[trigger] t[i] <= '\u{7f}' by {
        assert((t[i] as int) < 128);
        lemma_ascii_char(t[i]);
    }
    vstd::utf8::is_ascii_chars_encode_utf8(t);
    assert(vstd::utf8::encode_utf8(t) =~= Seq::new(t.len(), |i: int| t[i] as u8));
}

proof fn lemma_no_bad_byte(b: Seq<u8>)
    requires
        forall|i: int| 0 <= i < b.len() ==> #[trigger] ihex::nibble_value(b[i]) is Some,
    ensures
        ihex::first_bad(b) is None,
    decreases b.len(),
{
    if b.len() > 0 {
        assert(ihex::nibble_value(b[0]) is Some);
        let rest = b.drop_first();
        assert forall|i: int| 0 <= i < rest.len() implies #[trigger] ihex::nibble_value(
            rest[i],
        ) is Some by {
            assert(ihex::nibble_value(b[i + 1]) is Some);
        }
        lemma_no_bad_byte(rest);
    }
}

proof fn lemma_nibble(c: char)
    requires
        laws::numbers::is_digit(c, 16),
    ensures
        (c as int) < 128,
        !text::is_space(c),
        c != '\n',
        0 <= laws::numbers::worth(c) < 16,
        ihex::nibble_value(c as u8) == Some(laws::numbers::worth(c) as nat),
{
    assert((c as u8) as char == c);
}

/// A line that is a record says what its bytes say.
proof fn lemma_a_line_says_its_record(
    l: Seq<char>,
    b: Seq<u8>,
    line: usize,
    base: nat,
)
    requires
        writes(l, b),
        b.len() >= 5,
    ensures
        ihex::line_says(l, line, base) == ihex::record_says(b, line, base),
{
    let (pre, t, post) = choose|pre: Seq<char>, t: Seq<char>, post: Seq<char>|
        #[trigger] is_line_of(l, pre, t, post) && spells(t, b);
    let core = seq![':'] + t;
    lemma_core(pre, t, post);
    assert(core.skip(1) =~= t);
    assert forall|i: int| 0 <= i < t.len() implies (#[trigger] t[i] as int) < 128 by {
        assert(laws::numbers::is_digit(t[i], 16));
        lemma_nibble(t[i]);
    }
    lemma_ascii(t);
    let body = vstd::utf8::encode_utf8(t);
    assert forall|i: int| 0 <= i < body.len() implies #[trigger] ihex::nibble_value(body[i])
        == Some(laws::numbers::worth(t[i]) as nat) by {
        assert(laws::numbers::is_digit(t[i], 16));
        lemma_nibble(t[i]);
    }
    lemma_no_bad_byte(body);
    let pairs = Seq::new(body.len() / 2, |i: int| ihex::pair_value(body[2 * i], body[2 * i + 1]));
    assert(pairs.len() == b.len());
    assert forall|i: int| 0 <= i < b.len() implies pairs[i] == b[i] by {
        assert(laws::numbers::is_digit(t[2 * i], 16) && laws::numbers::is_digit(
            t[2 * i + 1],
            16,
        ));
        lemma_nibble(t[2 * i]);
        lemma_nibble(t[2 * i + 1]);
        assert(ihex::nibble_value(body[2 * i]) is Some);
        assert(ihex::nibble_value(body[2 * i + 1]) is Some);
    }
    assert(pairs =~= b);
}

proof fn lemma_core(pre: Seq<char>, t: Seq<char>, post: Seq<char>)
    requires
        laws::numbers::all_space(pre),
        laws::numbers::all_space(post),
        laws::numbers::are_digits(t, 16),
    ensures
        text::trimmed(pre + (seq![':'] + t) + post) == seq![':'] + t,
{
    let core = seq![':'] + t;
    assert(core[0] == ':');
    if t.len() > 0 {
        assert(core.last() == t[t.len() - 1]);
        assert(laws::numbers::is_digit(t[t.len() - 1], 16));
        lemma_nibble(t[t.len() - 1]);
    }
    laws::numbers::law_trimming_takes_the_ends(pre, core, post);
}

proof fn lemma_record_adds_up(offset: int, kind: u8, data: Seq<u8>)
    requires
        0 <= offset < 0x1_0000,
        data.len() <= 255,
    ensures
        ({
            let b = record(offset, kind, data);
            &&& b.len() == data.len() + 5
            &&& b[0] == data.len()
            &&& frame::be16(b[1], b[2]) == offset
            &&& b[3] == kind
            &&& b.subrange(4, 4 + b[0]) == data
            &&& frame::sum8(b) == 0
        }),
{
    let front = seq![data.len() as u8, (offset / 256) as u8, (offset % 256) as u8, kind] + data;
    let b = record(offset, kind, data);
    assert(b.subrange(4, 4 + b[0]) =~= data);
    laws::wire::lemma_total(front);
    laws::frame::lemma_byte_sum_push(front, check_byte(front));
    let sum = laws::wire::total(front);
    assert((sum + (256 - sum % 256) % 256) % 256 == 0);
}

/// A data record that was written is read back: its bytes, all of them and in
/// order, at the address that base and offset make; unless they would reach
/// past 64 KB, which the error says.
pub proof fn law_a_data_record_is_read_back(
    l: Seq<char>,
    offset: int,
    data: Seq<u8>,
    line: usize,
    base: nat,
)
    requires
        0 <= offset < 0x1_0000,
        data.len() <= 255,
        base <= 0xF_FFF0,
        writes(l, record(offset, 0x00, data)),
    ensures
        base + offset + data.len() <= 0x1_0000 ==> ihex::line_says(l, line, base) == Ok::<
            RecordView,
            HexErrorView,
        >(RecordView::Data(DataRecord { addr: (base + offset) as nat, data })),
        base + offset + data.len() > 0x1_0000 ==> (ihex::line_says(l, line, base) matches Err(
            HexErrorView::AddressTooHigh { line: at, addr },
        ) && at == line && addr == base + offset),
{
    lemma_record_adds_up(offset, 0x00, data);
    lemma_a_line_says_its_record(l, record(offset, 0x00, data), line, base);
}

/// What the other records say: the end; a base in paragraphs of sixteen bytes;
/// a base in units of 64 KB, of which only the first can be reached; a start
/// address, which says nothing here; and nothing that is known.
pub proof fn law_what_the_other_records_say(
    l: Seq<char>,
    offset: int,
    kind: u8,
    data: Seq<u8>,
    line: usize,
    base: nat,
)
    requires
        0 <= offset < 0x1_0000,
        data.len() <= 255,
        base <= 0xF_FFF0,
        kind != 0x00,
        writes(l, record(offset, kind, data)),
    ensures
        ({
            let says = ihex::line_says(l, line, base);
            let n = data[0] * 256 + data[1];
            &&& kind == 1 ==> says == Ok::<RecordView, HexErrorView>(RecordView::End)
            &&& kind == 2 && data.len() == 2 ==> (says matches Ok(RecordView::Base(b)) && b == n
                * 16)
            &&& kind == 2 && data.len() != 2 ==> says == Err::<RecordView, HexErrorView>(
                HexErrorView::BadRecord { line, why: "bad type-02 length"@ },
            )
            &&& kind == 4 && data.len() == 2 && n == 0 ==> says == Ok::<RecordView, HexErrorView>(
                RecordView::Base(0),
            )
            &&& kind == 4 && data.len() == 2 && n != 0 ==> (says matches Err(
                HexErrorView::AddressTooHigh { line: at, addr },
            ) && at == line && addr == n * 0x1_0000)
            &&& kind == 4 && data.len() != 2 ==> says == Err::<RecordView, HexErrorView>(
                HexErrorView::BadRecord { line, why: "bad type-04 length"@ },
            )
            &&& kind == 3 || kind == 5 ==> says == Ok::<RecordView, HexErrorView>(
                RecordView::Nothing,
            )
            &&& kind > 5 ==> says == Err::<RecordView, HexErrorView>(
                HexErrorView::BadRecord {
                    line,
                    why: "unsupported record type 0x"@ + text::hex_lower(kind as nat, 2),
                },
            )
        }),
{
    lemma_record_adds_up(offset, kind, data);
    lemma_a_line_says_its_record(l, record(offset, kind, data), line, base);
}

/// What is wrong with a record whose bytes do not fit together: a count that
/// is not that of its bytes, or else a check byte that is not the one that
/// would make the sum a multiple of 256.
pub proof fn law_what_is_wrong_with_a_record(l: Seq<char>, b: Seq<u8>, line: usize, base: nat)
    requires
        writes(l, b),
        b.len() >= 5,
        b.len() != b[0] + 5 || laws::wire::total(b) % 256 != 0,
    ensures
        ({
            let says = ihex::line_says(l, line, base);
            &&& b.len() != b[0] + 5 ==> says == Err::<RecordView, HexErrorView>(
                HexErrorView::BadRecord {
                    line,
                    why: "byte count "@ + text::decimal(b[0] as nat)
                        + " disagrees with record length "@ + text::decimal(b.len()),
                },
            )
            &&& b.len() == b[0] + 5 ==> (says matches Err(
                HexErrorView::BadChecksum { line: at, computed, got },
            ) && at == line && got == b[b.len() - 1] && computed == check_byte(b.drop_last()))
        }),
{
    lemma_a_line_says_its_record(l, b, line, base);
    laws::wire::lemma_total(b);
    laws::wire::lemma_total(b.drop_last());
    let front = laws::wire::total(b.drop_last());
    assert(laws::wire::total(b) == front + b.last()) by {
        assert(b.drop_last().push(b.last()) =~= b);
    }
    lemma_what_was_owed(front as int, b.last() as int);
}

proof fn lemma_what_was_owed(front: int, got: int)
    requires
        0 <= front,
        0 <= got < 256,
    ensures
        (got + 256 - (front + got) % 256) % 256 == (256 - front % 256) % 256,
{
}

/// What is wrong with a line that is no record: it does not begin with a
/// colon, or has too few bytes behind it for a record, or half a pair.
pub proof fn law_what_is_wrong_with_a_line(
    pre: Seq<char>,
    core: Seq<char>,
    post: Seq<char>,
    line: usize,
    base: nat,
)
    requires
        laws::numbers::all_space(pre),
        laws::numbers::all_space(post),
        core.len() > 0 ==> !text::is_space(core[0]) && !text::is_space(core.last()),
    ensures
        ({
            let says = ihex::line_says(pre + core + post, line, base);
            let bytes = vstd::utf8::encode_utf8(core.skip(1)).len();
            &&& core.len() == 0 ==> says == Ok::<RecordView, HexErrorView>(RecordView::Nothing)
            &&& core.len() > 0 && core[0] != ':' ==> says == Err::<RecordView, HexErrorView>(
                HexErrorView::BadRecord {
                    line,
                    why: "no ':' start code: "@ + text::quoted_str(core),
                },
            )
            &&& core.len() > 0 && core[0] == ':' && (bytes < 10 || bytes % 2 != 0) ==> says
                == Err::<RecordView, HexErrorView>(
                HexErrorView::BadRecord { line, why: "truncated record"@ },
            )
        }),
{
    laws::numbers::law_trimming_takes_the_ends(pre, core, post);
}

/// Digits are one byte each.
pub proof fn law_digits_are_bytes(t: Seq<char>)
    requires
        laws::numbers::are_digits(t, 16),
    ensures
        vstd::utf8::encode_utf8(t).len() == t.len(),
{
    assert forall|i: int| 0 <= i < t.len() implies (#[trigger] t[i] as int) < 128 by {
        assert(laws::numbers::is_digit(t[i], 16));
        lemma_nibble(t[i]);
    }
    lemma_ascii(t);
}

/// A byte that is no digit is named: the first one of the line.
pub proof fn law_the_first_bad_byte_is_named(
    t: Seq<char>,
    good: Seq<u8>,
    bad: u8,
    rest: Seq<u8>,
    line: usize,
    base: nat,
)
    requires
        vstd::utf8::encode_utf8(t) == good + seq![bad] + rest,
        forall|i: int|
            0 <= i < good.len() ==> laws::numbers::is_digit(#[trigger] good[i] as char, 16),
        !laws::numbers::is_digit(bad as char, 16),
        good.len() + 1 + rest.len() >= 10,
        (good.len() + 1 + rest.len()) % 2 == 0,
        t.len() > 0,
        !text::is_space(t.last()),
    ensures
        ihex::line_says(seq![':'] + t, line, base) == Err::<RecordView, HexErrorView>(
            HexErrorView::BadRecord {
                line,
                why: "non-hex character "@ + text::quoted_char(bad as char),
            },
        ),
{
    let core = seq![':'] + t;
    let none = Seq::<char>::empty();
    assert(core.last() == t.last());
    laws::numbers::law_trimming_takes_the_ends(none, core, none);
    assert(none + core + none =~= core);
    assert(core.skip(1) =~= t);
    let body = vstd::utf8::encode_utf8(t);
    assert forall|i: int| 0 <= i < good.len() implies #[trigger] ihex::nibble_value(
        body[i],
    ) is Some by {
        assert(body[i] == good[i]);
        lemma_nibble(good[i] as char);
    }
    let k = good.len() as int;
    assert(body[k] == bad);
    assert(ihex::nibble_value(bad) is None);
    lemma_first_bad(body, k);
}

proof fn lemma_first_bad(b: Seq<u8>, k: int)
    requires
        0 <= k < b.len(),
        forall|i: int| 0 <= i < k ==> #[trigger] ihex::nibble_value(b[i]) is Some,
        ihex::nibble_value(b[k]) is None,
    ensures
        ihex::first_bad(b) == Some(b[k]),
    decreases k,
{
    if k > 0 {
        assert(ihex::nibble_value(b[0]) is Some);
        let rest = b.drop_first();
        assert forall|i: int| 0 <= i < k - 1 implies #[trigger] ihex::nibble_value(
            rest[i],
        ) is Some by {
            assert(ihex::nibble_value(b[i + 1]) is Some);
        }
        lemma_first_bad(rest, k - 1);
    }
}

/// A record that is accepted as data carries all of its bytes: as many as it
/// declares, each in its place, at its base and offset and within 64 KB. Its
/// bytes add up to a multiple of 256.
pub proof fn law_an_accepted_record_carries_its_bytes(b: Seq<u8>, line: usize, base: nat)
    requires
        b.len() >= 5,
        base <= 0xF_FFF0,
    ensures
        ihex::record_says(b, line, base) is Ok ==> b.len() == b[0] + 5 && laws::wire::total(b) % 256
            == 0 && b[3] <= 5,
        (ihex::record_says(b, line, base) matches Ok(RecordView::Data(r)) ==> {
            &&& b[3] == 0x00
            &&& r.data.len() == b[0]
            &&& forall|k: int| 0 <= k < b[0] ==> #[trigger] r.data[k] == b[4 + k]
            &&& r.addr == base + b[1] * 256 + b[2]
            &&& r.addr + r.data.len() <= 0x1_0000
        }),
        b.len() == b[0] + 5 && laws::wire::total(b) % 256 == 0 && b[3] == 0x00 && base + b[1] * 256
            + b[2] + b[0] <= 0x1_0000 ==> (ihex::record_says(b, line, base) matches Ok(
            RecordView::Data(_),
        )),
{
    laws::wire::lemma_total(b);
}

// ---------------------------------------------------------------- whole files

/// What a line of a file may hold besides the end record.
pub enum Item {
    Blank,
    Data { offset: int, data: Seq<u8> },
    Segment { paragraph: int },
    FirstPage,
    Start { offset: int, kind: u8, data: Seq<u8> },
}

/// A line that holds the item.
pub open spec fn holds(l: Seq<char>, item: Item) -> bool {
    match item {
        Item::Blank => laws::numbers::all_space(l),
        Item::Data { offset, data } => 0 <= offset < 0x1_0000 && data.len() <= 255 && writes(
            l,
            record(offset, 0, data),
        ),
        Item::Segment { paragraph } => 0 <= paragraph < 0x1_0000 && writes(
            l,
            record(0, 2, seq![(paragraph / 256) as u8, (paragraph % 256) as u8]),
        ),
        Item::FirstPage => writes(l, record(0, 4, seq![0u8, 0u8])),
        Item::Start { offset, kind, data } => 0 <= offset < 0x1_0000 && data.len() <= 255 && (kind
            == 3 || kind == 5) && writes(l, record(offset, kind, data)),
    }
}

/// From where the addresses of the item behind these count.
pub open spec fn base_behind(items: Seq<Item>) -> nat
    decreases items.len(),
{
    if items.len() == 0 {
        0
    } else {
        match items.last() {
            Item::Segment { paragraph } => (paragraph * 16) as nat,
            Item::FirstPage => 0,
            _ => base_behind(items.drop_last()),
        }
    }
}

/// The data of the items, each at its address.
pub open spec fn placed(items: Seq<Item>) -> Seq<DataRecord>
    decreases items.len(),
{
    if items.len() == 0 {
        seq![]
    } else {
        let before = placed(items.drop_last());
        match items.last() {
            Item::Data { offset, data } => before.push(
                DataRecord { addr: (base_behind(items.drop_last()) + offset) as nat, data },
            ),
            _ => before,
        }
    }
}

/// Lines that hold the items, with all data in the first 64 KB.
pub open spec fn hold(ls: Seq<Seq<char>>, items: Seq<Item>) -> bool {
    &&& ls.len() >= items.len()
    &&& forall|i: int| 0 <= i < items.len() ==> holds(#[trigger] ls[i], items[i])
    &&& laws::image::all_within(placed(items))
}

proof fn lemma_items_are_read(ls: Seq<Seq<char>>, items: Seq<Item>)
    requires
        hold(ls, items),
    ensures
        ihex::records_from(ls, 0, 0, seq![]) == ihex::records_from(
            ls,
            items.len() as int,
            base_behind(items),
            placed(items),
        ),
        base_behind(items) <= 0xF_FFF0,
    decreases items.len(),
{
    if items.len() > 0 {
        let front = items.drop_last();
        let k = front.len() as int;
        let base = base_behind(front);
        let records = placed(front);
        let all = placed(items);
        assert forall|i: int| 0 <= i < records.len() implies (#[trigger] records[i]).addr
            + records[i].data.len() <= 0x1_0000 by {
            assert(all[i] == records[i]);
        }
        assert forall|i: int| 0 <= i < front.len() implies holds(#[trigger] ls[i], front[i]) by {
            assert(holds(ls[i], items[i]));
        }
        lemma_items_are_read(ls, front);
        let l = ls[k];
        assert(holds(l, items[k]));
        let line = (k + 1) as usize;
        match items[k] {
            Item::Blank => {
                let none = Seq::<char>::empty();
                law_what_is_wrong_with_a_line(l, none, none, line, base);
                assert(l + none + none =~= l);
            },
            Item::Data { offset, data } => {
                assert(all[all.len() - 1].addr + all[all.len() - 1].data.len() <= 0x1_0000);
                law_a_data_record_is_read_back(l, offset, data, line, base);
            },
            Item::Segment { paragraph } => {
                law_what_the_other_records_say(
                    l,
                    0,
                    2,
                    seq![(paragraph / 256) as u8, (paragraph % 256) as u8],
                    line,
                    base,
                );
            },
            Item::FirstPage => law_what_the_other_records_say(
                l,
                0,
                4,
                seq![0u8, 0u8],
                line,
                base,
            ),
            Item::Start { offset, kind, data } => law_what_the_other_records_say(
                l,
                offset,
                kind,
                data,
                line,
                base,
            ),
        }
    }
}

proof fn lemma_something_is_left(s: Seq<char>, i: int)
    requires
        0 <= i < s.len(),
        !text::is_space(s[i]),
    ensures
        text::trimmed(s).len() > 0,
    decreases s.len(),
{
    if text::is_space(s[0]) {
        assert(s.drop_first()[i - 1] == s[i]);
        lemma_something_is_left(s.drop_first(), i - 1);
    } else if text::is_space(s.last()) {
        assert(s.drop_last()[i] == s[i]);
        lemma_something_is_left(s.drop_last(), i);
    }
}

proof fn lemma_a_line_is_in_the_text(ls: Seq<Seq<char>>, k: int, i: int) -> (at: int)
    requires
        0 <= k < ls.len(),
        0 <= i < ls[k].len(),
    ensures
        0 <= at < laws::numbers::with_line_feeds(ls).len(),
        laws::numbers::with_line_feeds(ls)[at] == ls[k][i],
    decreases ls.len(),
{
    if ls.len() == 1 {
        i
    } else if k == ls.len() - 1 {
        laws::numbers::with_line_feeds(ls.drop_last()).len() + 1 + i
    } else {
        lemma_a_line_is_in_the_text(ls.drop_last(), k, i)
    }
}

proof fn lemma_a_text_with_a_record_is_not_empty(ls: Seq<Seq<char>>, k: int, b: Seq<u8>)
    requires
        0 <= k < ls.len(),
        writes(ls[k], b),
    ensures
        text::trimmed(laws::numbers::with_line_feeds(ls)).len() > 0,
{
    let (pre, t, post) = choose|pre: Seq<char>, t: Seq<char>, post: Seq<char>|
        #[trigger] is_line_of(ls[k], pre, t, post) && spells(t, b);
    assert(ls[k][pre.len() as int] == ':');
    let at = lemma_a_line_is_in_the_text(ls, k, pre.len() as int);
    lemma_something_is_left(laws::numbers::with_line_feeds(ls), at);
}

/// A file is read back: what its records place, and nothing of what stands
/// behind the end record. One whose records hold no byte has no data.
pub proof fn law_a_file_is_read_back(ls: Seq<Seq<char>>, items: Seq<Item>)
    requires
        items.len() < ls.len(),
        hold(ls, items),
        writes(ls[items.len() as int], record(0, 1, seq![])),
        forall|i: int| 0 <= i < ls.len() ==> laws::numbers::has_no_line_feed(#[trigger] ls[i]),
    ensures
        ({
            let img = ihex::image_in(laws::numbers::with_line_feeds(ls));
            let some = exists|k: int|
                0 <= k < placed(items).len() && (#[trigger] placed(items)[k]).data.len() > 0;
            &&& some ==> img == Ok::<ImageView, HexErrorView>(ihex::image_of(placed(items)))
            &&& !some && placed(items).len() == 0 ==> img == Err::<ImageView, HexErrorView>(
                HexErrorView::NoData,
            )
        }),
{
    let n = items.len() as int;
    laws::numbers::law_lines_come_apart_again(ls);
    lemma_a_text_with_a_record_is_not_empty(ls, n, record(0, 1, seq![]));
    lemma_items_are_read(ls, items);
    law_what_the_other_records_say(
        ls[n],
        0,
        1,
        seq![],
        (n + 1) as usize,
        base_behind(items),
    );
    if placed(items).len() > 0 {
        laws::image::law_where_an_image_ends(placed(items));
    }
}

/// The first line that is wrong is what a file is refused for, under its
/// number, counted from one.
pub proof fn law_a_bad_line_is_named_by_its_number(
    ls: Seq<Seq<char>>,
    items: Seq<Item>,
    e: HexErrorView,
)
    requires
        items.len() < ls.len() <= usize::MAX,
        hold(ls, items),
        forall|i: int| 0 <= i < ls.len() ==> laws::numbers::has_no_line_feed(#[trigger] ls[i]),
        ihex::line_says(ls[items.len() as int], (items.len() + 1) as usize, base_behind(items))
            == Err::<RecordView, HexErrorView>(e),
    ensures
        ihex::image_in(laws::numbers::with_line_feeds(ls)) == Err::<ImageView, HexErrorView>(e),
        match e {
            HexErrorView::BadRecord { line, .. } => line == items.len() + 1,
            HexErrorView::BadChecksum { line, .. } => line == items.len() + 1,
            HexErrorView::AddressTooHigh { line, .. } => line == items.len() + 1,
            _ => false,
        },
{
    let n = items.len() as int;
    laws::numbers::law_lines_come_apart_again(ls);
    lemma_items_are_read(ls, items);
    let l = ls[n];
    lemma_trimmed_is_within(l);
    let i = choose|i: int| 0 <= i < l.len() && !#[trigger] text::is_space(l[i]);
    let at = lemma_a_line_is_in_the_text(ls, n, i);
    lemma_something_is_left(laws::numbers::with_line_feeds(ls), at);
}

proof fn lemma_trimmed_is_within(s: Seq<char>)
    ensures
        text::trimmed(s).len() > 0 ==> exists|i: int|
            0 <= i < s.len() && !#[trigger] text::is_space(s[i]),
    decreases s.len(),
{
    if s.len() > 0 && text::is_space(s[0]) {
        let rest = s.drop_first();
        lemma_trimmed_is_within(rest);
        if text::trimmed(rest).len() > 0 {
            let i = choose|i: int| 0 <= i < rest.len() && !#[trigger] text::is_space(rest[i]);
            assert(!text::is_space(s[i + 1]));
        }
    } else if s.len() > 0 {
        assert(!text::is_space(s[0]));
    }
}

/// A text of nothing but white space is empty.
pub proof fn law_a_blank_text_is_empty(s: Seq<char>)
    requires
        laws::numbers::all_space(s),
    ensures
        ihex::image_in(s) == Err::<ImageView, HexErrorView>(HexErrorView::Empty),
{
    let none = Seq::<char>::empty();
    laws::numbers::law_trimming_takes_the_ends(s, none, none);
    assert(s + none + none =~= s);
}

/// A file that ends without an end record is read as far as it goes.
pub proof fn law_the_end_record_may_be_left_out(ls: Seq<Seq<char>>, items: Seq<Item>)
    requires
        items.len() == ls.len(),
        hold(ls, items),
        forall|i: int| 0 <= i < ls.len() ==> laws::numbers::has_no_line_feed(#[trigger] ls[i]),
        exists|k: int|
            0 <= k < placed(items).len() && (#[trigger] placed(items)[k]).data.len() > 0,
        text::trimmed(laws::numbers::with_line_feeds(ls)).len() > 0,
    ensures
        ihex::image_in(laws::numbers::with_line_feeds(ls)) == Ok::<ImageView, HexErrorView>(
            ihex::image_of(placed(items)),
        ),
{
    if ls.len() > 0 {
        laws::numbers::law_lines_come_apart_again(ls);
    }
    lemma_items_are_read(ls, items);
    laws::image::law_where_an_image_ends(placed(items));
}

} // verus!
