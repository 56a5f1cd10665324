//! Intel HEX reader.
//!
//! **Gaps inside the image are filled with `0x00`; padding past the end of the
//! image is `0xFF`.** The two fills are different because they mean different
//! things: a gap is part of the image the linker simply had nothing to say
//! about, and the tail is erased flash being written back as erased.
//!
//! The tail fill lives in the protocol layer, where the erase region size is
//! known; only the gap fill is this module's business.

use vstd::prelude::*;

use crate::frame;
use crate::frame::{checksum, copy_bytes, join_be16};
use crate::text;
use crate::text::{
    char_digit, chars_of, debug_char, debug_str, push_decimal, push_hex_lower, split_lines,
    string_of, trim,
};

verus! {

// --------------------------------------------------------------------- model

/// A data record: some bytes and the address of the first.
pub struct DataRecord {
    pub addr: nat,
    pub data: Seq<u8>,
}

/// What one line of a file says.
pub enum RecordView {
    /// A blank line, or a record for a host debugger.
    Nothing,
    Data(DataRecord),
    /// The end of the file.
    End,
    /// What to add to the addresses that follow.
    Base(nat),
}

/// [`HexError`] with its text as a sequence.
pub enum HexErrorView {
    Empty,
    NoData,
    BadRecord { line: usize, why: Seq<char> },
    BadChecksum { line: usize, computed: u8, got: u8 },
    AddressTooHigh { line: usize, addr: u32 },
}

/// [`Image`] with its bytes as a sequence.
pub struct ImageView {
    pub bytes: Seq<u8>,
    pub lowest_addr: u32,
    pub gap_bytes: nat,
}

/// The value of a hexadecimal digit.
pub open spec fn nibble_value(b: u8) -> Option<nat> {
    text::digit_value(b as char)
}

/// The first byte that is no hexadecimal digit.
pub open spec fn first_bad(b: Seq<u8>) -> Option<u8>
    decreases b.len(),
{
    if b.len() == 0 {
        None
    } else if nibble_value(b[0]) is None {
        Some(b[0])
    } else {
        first_bad(b.drop_first())
    }
}

/// The byte that two hexadecimal digits denote.
pub open spec fn pair_value(hi: u8, lo: u8) -> u8 {
    (nibble_value(hi).unwrap_or(0) * 16 + nibble_value(lo).unwrap_or(0)) as u8
}

/// The bytes that a text of hexadecimal digits denotes, or what is wrong with
/// it.
pub open spec fn hex_pairs(b: Seq<u8>) -> Result<Seq<u8>, Seq<char>> {
    match first_bad(b) {
        Some(c) => Err("non-hex character "@ + text::quoted_char(c as char)),
        None => Ok(Seq::new(b.len() / 2, |i: int| pair_value(b[2 * i], b[2 * i + 1]))),
    }
}

pub open spec fn bad_record(line: usize, why: Seq<char>) -> HexErrorView {
    HexErrorView::BadRecord { line, why }
}

/// What the bytes of a record say, where addresses count from `base`.
pub open spec fn record_says(b: Seq<u8>, line: usize, base: nat) -> Result<
    RecordView,
    HexErrorView,
> {
    let count = b[0] as nat;
    let sum = frame::sum8(b);
    let data = b.subrange(4, 4 + b[0]);
    let addr = base + frame::be16(b[1], b[2]) as nat;
    if b.len() != count + 5 {
        Err(
            bad_record(
                line,
                "byte count "@ + text::decimal(count) + " disagrees with record length "@
                    + text::decimal(b.len()),
            ),
        )
    } else if sum != 0 {
        let got = b.last();
        Err(HexErrorView::BadChecksum { line, computed: ((got + 256 - sum) % 256) as u8, got })
    } else if b[3] == 0x00 {
        if addr + count > 0x1_0000 {
            Err(HexErrorView::AddressTooHigh { line, addr: addr as u32 })
        } else {
            Ok(RecordView::Data(DataRecord { addr, data }))
        }
    } else if b[3] == 0x01 {
        Ok(RecordView::End)
    } else if b[3] == 0x02 {
        if count != 2 {
            Err(bad_record(line, "bad type-02 length"@))
        } else {
            Ok(RecordView::Base(frame::be16(data[0], data[1]) as nat * 16))
        }
    } else if b[3] == 0x04 {
        if count != 2 {
            Err(bad_record(line, "bad type-04 length"@))
        } else if frame::be16(data[0], data[1]) != 0 {
            Err(
                HexErrorView::AddressTooHigh {
                    line,
                    addr: (frame::be16(data[0], data[1]) * 0x1_0000) as u32,
                },
            )
        } else {
            Ok(RecordView::Base(0))
        }
    } else if b[3] == 0x03 || b[3] == 0x05 {
        Ok(RecordView::Nothing)
    } else {
        Err(bad_record(line, "unsupported record type 0x"@ + text::hex_lower(b[3] as nat, 2)))
    }
}

/// What a line says: white space around it does not count.
pub open spec fn line_says(chars: Seq<char>, line: usize, base: nat) -> Result<
    RecordView,
    HexErrorView,
> {
    let s = text::trimmed(chars);
    let body = vstd::utf8::encode_utf8(s.skip(1));
    if s.len() == 0 {
        Ok(RecordView::Nothing)
    } else if s[0] != ':' {
        Err(bad_record(line, "no ':' start code: "@ + text::quoted_str(s)))
    } else if body.len() < 10 || body.len() % 2 != 0 {
        Err(bad_record(line, "truncated record"@))
    } else {
        match hex_pairs(body) {
            Err(why) => Err(bad_record(line, why)),
            Ok(b) => record_says(b, line, base),
        }
    }
}

/// The data records of the lines from `i` on, behind those already read: up to
/// the end record, or to the first line that is wrong.
pub open spec fn records_from(
    ls: Seq<Seq<char>>,
    i: int,
    base: nat,
    records: Seq<DataRecord>,
) -> Result<Seq<DataRecord>, HexErrorView>
    decreases ls.len() - i,
{
    if i < 0 || i >= ls.len() {
        Ok(records)
    } else {
        match line_says(ls[i], (i + 1) as usize, base) {
            Err(e) => Err(e),
            Ok(RecordView::Nothing) => records_from(ls, i + 1, base, records),
            Ok(RecordView::Data(r)) => records_from(ls, i + 1, base, records.push(r)),
            Ok(RecordView::End) => Ok(records),
            Ok(RecordView::Base(b)) => records_from(ls, i + 1, b, records),
        }
    }
}

/// The address behind the last byte of any record.
pub open spec fn extent(records: Seq<DataRecord>) -> nat
    decreases records.len(),
{
    if records.len() == 0 {
        0
    } else {
        let before = extent(records.drop_last());
        let end = records.last().addr + records.last().data.len();
        if end > before {
            end
        } else {
            before
        }
    }
}

/// The lowest address of any record.
pub open spec fn lowest(records: Seq<DataRecord>) -> nat
    decreases records.len(),
{
    if records.len() == 0 {
        u32::MAX as nat
    } else {
        let before = lowest(records.drop_last());
        if records.last().addr < before {
            records.last().addr
        } else {
            before
        }
    }
}

/// A record has a byte for the address.
pub open spec fn covers(r: DataRecord, a: int) -> bool {
    r.addr <= a < r.addr + r.data.len()
}

/// The byte at an address: from the last record that covers it, if any does.
pub open spec fn byte_at(records: Seq<DataRecord>, a: int) -> Option<u8>
    decreases records.len(),
{
    if records.len() == 0 {
        None
    } else if covers(records.last(), a) {
        Some(records.last().data[a - records.last().addr])
    } else {
        byte_at(records.drop_last(), a)
    }
}

/// How many addresses below `n` no record covers.
pub open spec fn gaps_below(records: Seq<DataRecord>, n: nat) -> nat
    decreases n,
{
    if n == 0 {
        0
    } else {
        gaps_below(records, (n - 1) as nat) + (if byte_at(records, n - 1) is None {
            1nat
        } else {
            0
        })
    }
}

/// The image that some records make: what they say, and `0x00` in the gaps.
pub open spec fn image_of(records: Seq<DataRecord>) -> ImageView {
    ImageView {
        bytes: Seq::new(extent(records), |a: int| byte_at(records, a).unwrap_or(0)),
        lowest_addr: lowest(records) as u32,
        gap_bytes: gaps_below(records, extent(records)),
    }
}

/// The image in a text.
pub open spec fn image_in(s: Seq<char>) -> Result<ImageView, HexErrorView> {
    if text::trimmed(s).len() == 0 {
        Err(HexErrorView::Empty)
    } else {
        match records_from(text::lines(s), 0, 0, seq![]) {
            Err(e) => Err(e),
            Ok(records) => if records.len() == 0 || extent(records) == 0 {
                Err(HexErrorView::NoData)
            } else {
                Ok(image_of(records))
            },
        }
    }
}

// ---------------------------------------------------------------------- data

/// A parsed image: contiguous bytes starting at address 0.
#[derive(Clone, Debug, PartialEq, Eq)]
pub struct Image {
    pub bytes: Vec<u8>,
    /// Lowest address any record touched. Non-zero means the image does not
    /// start at the reset vector, which is almost always a mistake here.
    pub lowest_addr: u32,
    /// Number of addresses below `bytes.len()` that no record covered.
    pub gap_bytes: usize,
}

impl View for Image {
    type V = ImageView;

    open spec fn view(&self) -> ImageView {
        ImageView {
            bytes: self.bytes@,
            lowest_addr: self.lowest_addr,
            gap_bytes: self.gap_bytes as nat,
        }
    }
}

#[derive(Clone, Debug)]
pub enum HexError {
    Empty,
    NoData,
    BadRecord { line: usize, why: String },
    BadChecksum { line: usize, computed: u8, got: u8 },
    /// The write frame's address field is four bytes, but only the low sixteen
    /// bits are known to work. Refuse rather than guess.
    AddressTooHigh { line: usize, addr: u32 },
}

impl View for HexError {
    type V = HexErrorView;

    open spec fn view(&self) -> HexErrorView {
        match self {
            HexError::Empty => HexErrorView::Empty,
            HexError::NoData => HexErrorView::NoData,
            HexError::BadRecord { line, why } => HexErrorView::BadRecord { line: *line, why: why@ },
            HexError::BadChecksum { line, computed, got } => HexErrorView::BadChecksum {
                line: *line,
                computed: *computed,
                got: *got,
            },
            HexError::AddressTooHigh { line, addr } => HexErrorView::AddressTooHigh {
                line: *line,
                addr: *addr,
            },
        }
    }
}

/// What an error says to a reader.
pub open spec fn hex_error_text(e: HexErrorView) -> Seq<char> {
    match e {
        HexErrorView::Empty => "file is empty"@,
        HexErrorView::NoData => "file contains no data records"@,
        HexErrorView::BadRecord { line, why } => "line "@ + text::decimal(line as nat) + ": "@
            + why,
        HexErrorView::BadChecksum { line, computed, got } => "line "@ + text::decimal(line as nat)
            + ": record checksum is 0x"@ + text::hex_lower(got as nat, 2) + ", computed 0x"@
            + text::hex_lower(computed as nat, 2),
        HexErrorView::AddressTooHigh { line, addr } => "line "@ + text::decimal(line as nat)
            + ": address 0x"@ + text::hex_lower(addr as nat, 8)
            + " is above 64 KB — unsupported, the protocol's behaviour there is untested"@,
    }
}

impl HexError {
    /// The error as a sentence.
    pub fn message(&self) -> (r: String)
        ensures
            r@ == hex_error_text(self@),
    {
        match self {
            HexError::Empty => "file is empty".to_owned(),
            HexError::NoData => "file contains no data records".to_owned(),
            HexError::BadRecord { line, why } => {
                let mut s: String = "line ".to_owned();
                push_decimal(&mut s, *line as u64);
                s.append(": ");
                s.append(why.as_str());
                s
            },
            HexError::BadChecksum { line, computed, got } => {
                let mut s: String = "line ".to_owned();
                push_decimal(&mut s, *line as u64);
                s.append(": record checksum is 0x");
                push_hex_lower(&mut s, *got as u64, 2);
                s.append(", computed 0x");
                push_hex_lower(&mut s, *computed as u64, 2);
                s
            },
            HexError::AddressTooHigh { line, addr } => {
                let mut s: String = "line ".to_owned();
                push_decimal(&mut s, *line as u64);
                s.append(": address 0x");
                push_hex_lower(&mut s, *addr as u64, 8);
                s.append(
                    " is above 64 KB — unsupported, the protocol's behaviour there is untested",
                );
                s
            },
        }
    }
}

// -------------------------------------------------------------------- reader

/// What one line of a file says.
enum Record {
    Nothing,
    Data { addr: u32, data: Vec<u8> },
    End,
    Base(u32),
}

impl View for Record {
    type V = RecordView;

    closed spec fn view(&self) -> RecordView {
        match self {
            Record::Nothing => RecordView::Nothing,
            Record::Data { addr, data } => RecordView::Data(
                DataRecord { addr: *addr as nat, data: data@ },
            ),
            Record::End => RecordView::End,
            Record::Base(b) => RecordView::Base(*b as nat),
        }
    }
}

/// The bytes that pairs of hexadecimal digits denote.
fn decode_hex(b: &[u8]) -> (r: Result<Vec<u8>, String>)
    requires
        b@.len() % 2 == 0,
    ensures
        match r {
            Ok(v) => hex_pairs(b@) == Ok::<Seq<u8>, Seq<char>>(v@),
            Err(e) => hex_pairs(b@) == Err::<Seq<u8>, Seq<char>>(e@),
        },
{
    let mut out: Vec<u8> = Vec::new();
    let mut i: usize = 0;
    assert(b@.skip(0) =~= b@);
    while i < b.len()
        invariant
            0 <= i <= b.len(),
            i % 2 == 0,
            b@.len() % 2 == 0,
            first_bad(b@) == first_bad(b@.skip(i as int)),
            out@ == Seq::new((i / 2) as nat, |k: int| pair_value(b@[2 * k], b@[2 * k + 1])),
        decreases b.len() - i,
    {
        proof {
            assert(b@.skip(i as int).drop_first() =~= b@.skip(i + 1));
            assert(b@.skip(i + 1).drop_first() =~= b@.skip(i + 2));
        }
        let hi: u8 = match nibble(b[i]) {
            Ok(d) => d,
            Err(e) => {
                return Err(e);
            },
        };
        assert(first_bad(b@.skip(i as int)) == first_bad(b@.skip(i + 1)));
        let lo: u8 = match nibble(b[i + 1]) {
            Ok(d) => d,
            Err(e) => {
                return Err(e);
            },
        };
        out.push(hi * 16 + lo);
        assert(out@ =~= Seq::new(
            ((i + 2) / 2) as nat,
            |k: int| pair_value(b@[2 * k], b@[2 * k + 1]),
        ));
        i = i + 2;
    }
    assert(b@.skip(i as int) =~= Seq::<u8>::empty());
    Ok(out)
}

/// The value of one hexadecimal digit.
fn nibble(c: u8) -> (r: Result<u8, String>)
    ensures
        match r {
            Ok(d) => d < 16 && nibble_value(c) == Some(d as nat),
            Err(e) => nibble_value(c) is None && e@ == "non-hex character "@ + text::quoted_char(
                c as char,
            ),
        },
{
    match char_digit(c as char) {
        Some(d) => Ok(d),
        None => {
            let mut e: String = "non-hex character ".to_owned();
            e.append(debug_char(c as char).as_str());
            Err(e)
        },
    }
}

/// Read the bytes of a record.
fn read_record(b: &Vec<u8>, line: usize, base: u32) -> (r: Result<Record, HexError>)
    requires
        b@.len() >= 5,
        base <= 0xF_FFF0,
    ensures
        match r {
            Ok(rec) => record_says(b@, line, base as nat) == Ok::<RecordView, HexErrorView>(rec@),
            Err(e) => record_says(b@, line, base as nat) == Err::<RecordView, HexErrorView>(e@),
        },
        r matches Ok(Record::Base(n)) ==> n <= 0xF_FFF0,
{
    let count: usize = b[0] as usize;
    if b.len() != count + 5 {
        let mut why: String = "byte count ".to_owned();
        push_decimal(&mut why, count as u64);
        why.append(" disagrees with record length ");
        push_decimal(&mut why, b.len() as u64);
        return Err(HexError::BadRecord { line, why });
    }
    // The checksum makes the sum of the whole record 0 mod 256.
    let sum: u8 = checksum(b);
    if sum != 0 {
        let got: u8 = b[b.len() - 1];
        let computed: u8 = ((got as u16 + 256 - sum as u16) % 256) as u8;
        return Err(HexError::BadChecksum { line, computed, got });
    }
    let offset: u32 = join_be16(b[1], b[2]) as u32;
    let rtype: u8 = b[3];
    let data: Vec<u8> = copy_bytes(vstd::slice::slice_subrange(b.as_slice(), 4, 4 + count));
    if rtype == 0x00 {
        let addr: u32 = base + offset;
        if addr as usize + count > 0x1_0000 {
            return Err(HexError::AddressTooHigh { line, addr });
        }
        Ok(Record::Data { addr, data })
    } else if rtype == 0x01 {
        Ok(Record::End)
    } else if rtype == 0x02 {
        // Extended segment address: paragraph number times 16.
        if count != 2 {
            return Err(HexError::BadRecord { line, why: "bad type-02 length".to_owned() });
        }
        Ok(Record::Base(join_be16(data[0], data[1]) as u32 * 16))
    } else if rtype == 0x04 {
        // Extended linear address: upper 16 bits.
        if count != 2 {
            return Err(HexError::BadRecord { line, why: "bad type-04 length".to_owned() });
        }
        let upper: u32 = join_be16(data[0], data[1]) as u32;
        if upper != 0 {
            return Err(HexError::AddressTooHigh { line, addr: upper * 0x1_0000 });
        }
        Ok(Record::Base(0))
    } else if rtype == 0x03 || rtype == 0x05 {
        // Start-address records carry an entry point for a host debugger;
        // irrelevant to an 8051 that always starts at 0.
        Ok(Record::Nothing)
    } else {
        let mut why: String = "unsupported record type 0x".to_owned();
        push_hex_lower(&mut why, rtype as u64, 2);
        Err(HexError::BadRecord { line, why })
    }
}

/// Read one line.
fn read_line(chars: &Vec<char>, line: usize, base: u32) -> (r: Result<Record, HexError>)
    requires
        base <= 0xF_FFF0,
    ensures
        match r {
            Ok(rec) => line_says(chars@, line, base as nat) == Ok::<RecordView, HexErrorView>(rec@),
            Err(e) => line_says(chars@, line, base as nat) == Err::<RecordView, HexErrorView>(e@),
        },
        r matches Ok(Record::Base(n)) ==> n <= 0xF_FFF0,
{
    let mut s: Vec<char> = trim(chars);
    if s.len() == 0 {
        return Ok(Record::Nothing);
    }
    if s[0] != ':' {
        let mut why: String = "no ':' start code: ".to_owned();
        why.append(debug_str(string_of(&s).as_str()).as_str());
        return Err(HexError::BadRecord { line, why });
    }
    let ghost whole = s@;
    s.remove(0);
    assert(s@ =~= whole.skip(1));
    let text: String = string_of(&s);
    let body: &[u8] = text.as_str().as_bytes();
    if body.len() < 10 || body.len() % 2 != 0 {
        return Err(HexError::BadRecord { line, why: "truncated record".to_owned() });
    }
    match decode_hex(body) {
        Err(why) => Err(HexError::BadRecord { line, why }),
        Ok(bytes) => read_record(&bytes, line, base),
    }
}

/// A record that reaches no further than `n` leaves the bytes from `n` on
/// alone.
proof fn lemma_nothing_behind_the_extent(records: Seq<DataRecord>, a: int)
    requires
        a >= extent(records),
    ensures
        byte_at(records, a) is None,
    decreases records.len(),
{
    if records.len() > 0 {
        lemma_nothing_behind_the_extent(records.drop_last(), a);
    }
}

/// Put the bytes of a record into memory.
fn place(mem: &mut Vec<Option<u8>>, addr: usize, data: &Vec<u8>, Ghost(records): Ghost<Seq<DataRecord>>)
    requires
        addr + data@.len() <= 0x1_0000,
        old(mem)@ == Seq::new(extent(records), |a: int| byte_at(records, a)),
    ensures
        ({
            let after = records.push(DataRecord { addr: addr as nat, data: data@ });
            final(mem)@ == Seq::new(extent(after), |a: int| byte_at(after, a))
        }),
{
    let ghost r = DataRecord { addr: addr as nat, data: data@ };
    let ghost after = records.push(r);
    let ghost before = mem@;
    assert(after.drop_last() =~= records);
    let end: usize = addr + data.len();
    while mem.len() < end
        invariant
            before.len() <= mem@.len(),
            before.len() == mem@.len() || mem@.len() <= end,
            forall|a: int|
                0 <= a < mem@.len() ==> #[trigger] mem@[a] == (if a < before.len() {
                    before[a]
                } else {
                    None
                }),
        decreases end - mem.len(),
    {
        mem.push(None);
    }
    let ghost grown = mem@;
    let mut i: usize = 0;
    while i < data.len()
        invariant
            0 <= i <= data@.len(),
            end == addr + data@.len(),
            end <= mem@.len(),
            mem@.len() == grown.len(),
            forall|a: int|
                0 <= a < mem@.len() ==> #[trigger] mem@[a] == (if addr <= a < addr + i {
                    Some(data@[a - addr])
                } else {
                    grown[a]
                }),
        decreases data.len() - i,
    {
        mem.set(addr + i, Some(data[i]));
        i = i + 1;
    }
    assert forall|a: int| 0 <= a < mem@.len() implies #[trigger] mem@[a] == byte_at(after, a) by {
        if a >= before.len() {
            lemma_nothing_behind_the_extent(records, a);
        }
    }
    assert(mem@ =~= Seq::new(extent(after), |a: int| byte_at(after, a)));
}

/// The bytes of a memory, with `0x00` in the gaps, and how many gaps there
/// are.
fn fill(mem: &Vec<Option<u8>>, Ghost(records): Ghost<Seq<DataRecord>>) -> (r: (Vec<u8>, usize))
    requires
        mem@ == Seq::new(extent(records), |a: int| byte_at(records, a)),
    ensures
        r.0@ == image_of(records).bytes,
        r.1 == image_of(records).gap_bytes,
{
    let mut bytes: Vec<u8> = Vec::new();
    let mut gaps: usize = 0;
    let mut i: usize = 0;
    while i < mem.len()
        invariant
            0 <= i <= mem@.len(),
            mem@ == Seq::new(extent(records), |a: int| byte_at(records, a)),
            bytes@ == image_of(records).bytes.take(i as int),
            gaps == gaps_below(records, i as nat),
            gaps <= i,
        decreases mem.len() - i,
    {
        assert(mem@[i as int] == byte_at(records, i as int));
        match mem[i] {
            Some(b) => {
                bytes.push(b);
            },
            None => {
                bytes.push(0x00);
                gaps = gaps + 1;
            },
        }
        assert(bytes@ =~= image_of(records).bytes.take(i + 1));
        i = i + 1;
    }
    assert(bytes@ =~= image_of(records).bytes);
    (bytes, gaps)
}

/// Parse Intel HEX text.
pub fn parse(text: &str) -> (r: Result<Image, HexError>)
    ensures
        match r {
            Ok(img) => image_in(text@) == Ok::<ImageView, HexErrorView>(img@),
            Err(e) => image_in(text@) == Err::<ImageView, HexErrorView>(e@),
        },
{
    let chars: Vec<char> = chars_of(text);
    if trim(&chars).len() == 0 {
        return Err(HexError::Empty);
    }
    let lines: Vec<Vec<char>> = split_lines(&chars);
    let ghost ls = text::lines(text@);
    let ghost mut records: Seq<DataRecord> = seq![];
    let mut mem: Vec<Option<u8>> = Vec::new();
    let mut base: u32 = 0;
    let mut low: u32 = u32::MAX;
    let mut saw_data: bool = false;
    let mut i: usize = 0;
    let mut ended: bool = false;
    assert(mem@ =~= Seq::new(extent(records), |a: int| byte_at(records, a)));
    while i < lines.len() && !ended
        invariant
            0 <= i <= lines@.len(),
            text::views(lines@) == ls,
            ls == text::lines(text@),
            text::trimmed(text@).len() > 0,
            base <= 0xF_FFF0,
            mem@ == Seq::new(extent(records), |a: int| byte_at(records, a)),
            low == lowest(records),
            saw_data <==> records.len() > 0,
            records_from(ls, 0, 0, seq![]) == (if ended {
                Ok::<Seq<DataRecord>, HexErrorView>(records)
            } else {
                records_from(ls, i as int, base as nat, records)
            }),
        decreases lines.len() - i,
    {
        assert(ls[i as int] == lines@[i as int]@);
        match read_line(&lines[i], i + 1, base) {
            Err(e) => {
                return Err(e);
            },
            Ok(Record::Nothing) => {},
            Ok(Record::Data { addr, data }) => {
                let ghost rec = DataRecord { addr: addr as nat, data: data@ };
                assert(addr + data@.len() <= 0x1_0000);
                place(&mut mem, addr as usize, &data, Ghost(records));
                if addr < low {
                    low = addr;
                }
                saw_data = true;
                proof {
                    assert(records.push(rec).drop_last() =~= records);
                    records = records.push(rec);
                }
            },
            Ok(Record::End) => {
                ended = true;
            },
            Ok(Record::Base(b)) => {
                base = b;
            },
        }
        i = i + 1;
    }
    if !saw_data || mem.len() == 0 {
        return Err(HexError::NoData);
    }
    let (bytes, gap_bytes): (Vec<u8>, usize) = fill(&mem, Ghost(records));
    Ok(Image { bytes, lowest_addr: low, gap_bytes })
}

} // verus!
