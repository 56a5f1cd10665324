use stcbsl::ihex::{parse, HexError};

#[test]
fn simple_image() {
    let img = parse(":03000000010203F7\n:00000001FF\n").unwrap();
    assert_eq!(img.bytes, vec![1, 2, 3]);
    assert_eq!(img.gap_bytes, 0);
}

#[test]
fn gaps_fill_with_zero() {
    let img = parse(":01000000AA55\n:0100050055A5\n:00000001FF\n").unwrap();
    assert_eq!(img.bytes, vec![0xAA, 0, 0, 0, 0, 0x55]);
    assert_eq!(img.gap_bytes, 4);
}

#[test]
fn rejects_a_bad_checksum() {
    assert!(matches!(
        parse(":03000000010203F8\n:00000001FF\n"),
        Err(HexError::BadChecksum { .. })
    ));
}

#[test]
fn rejects_high_addresses() {
    assert!(matches!(
        parse(":02000004FFFFFC\n:00000001FF\n"),
        Err(HexError::AddressTooHigh { .. })
    ));
}

/// A record with its checksum.
fn record(addr: u16, kind: u8, data: &[u8]) -> String {
    let mut b = vec![data.len() as u8, (addr >> 8) as u8, addr as u8, kind];
    b.extend_from_slice(data);
    let sum = b.iter().fold(0u8, |a, x| a.wrapping_add(*x));
    b.push(0u8.wrapping_sub(sum));
    let mut s = String::from(":");
    for x in b {
        s.push_str(&format!("{x:02X}"));
    }
    s.push('\n');
    s
}

fn error_of(text: &str) -> String {
    parse(text).unwrap_err().message()
}

#[test]
fn each_error_says_where_and_what() {
    assert_eq!(error_of(""), "file is empty");
    assert_eq!(error_of(" \n\t\r\n"), "file is empty");
    assert_eq!(error_of(":00000001FF\n"), "file contains no data records");
    assert_eq!(error_of(":0000000000\n"), "file contains no data records");
    assert_eq!(error_of("\n  junk \"x\"\n"), "line 2: no ':' start code: \"junk \\\"x\\\"\"");
    assert_eq!(error_of(":0000"), "line 1: truncated record");
    assert_eq!(error_of(":00000001FFF"), "line 1: truncated record");
    assert_eq!(error_of(":0000000G1FF0"), "line 1: non-hex character 'G'");
    assert_eq!(error_of(":000000\u{e9}01FF"), "line 1: non-hex character 'Ã'");
    assert_eq!(
        error_of(":02000000AA54"),
        "line 1: byte count 2 disagrees with record length 6"
    );
    assert_eq!(
        error_of(":03000000010203F8"),
        "line 1: record checksum is 0xf8, computed 0xf7"
    );
    assert_eq!(error_of(&record(0, 2, &[1])), "line 1: bad type-02 length");
    assert_eq!(error_of(&record(0, 4, &[1, 2, 3])), "line 1: bad type-04 length");
    assert_eq!(error_of(&record(0, 7, &[])), "line 1: unsupported record type 0x07");
    assert_eq!(
        error_of(&record(0, 4, &[0x12, 0x34])),
        "line 1: address 0x12340000 is above 64 KB — unsupported, the protocol's behaviour there is untested"
    );
}

#[test]
fn a_segment_moves_the_addresses() {
    let text = record(0, 2, &[0x00, 0x10]) + &record(0x0002, 0, &[0xAB]) + &record(0, 1, &[]);
    let img = parse(&text).unwrap();
    assert_eq!(img.bytes.len(), 0x103);
    assert_eq!(img.bytes[0x102], 0xAB);
    assert_eq!(img.lowest_addr, 0x102);
    assert_eq!(img.gap_bytes, 0x102);
    // A linear record of zero takes the segment back.
    let text = record(0, 2, &[0x00, 0x10]) + &record(0, 4, &[0, 0]) + &record(2, 0, &[0xAB]);
    assert_eq!(parse(&text).unwrap().bytes, vec![0, 0, 0xAB]);
}

#[test]
fn an_image_ends_at_64_kb() {
    let text = record(0xFFFF, 0, &[0x5A]);
    let img = parse(&text).unwrap();
    assert_eq!(img.bytes.len(), 0x1_0000);
    assert_eq!(img.bytes[0xFFFF], 0x5A);
    assert!(matches!(
        parse(&record(0xFFFF, 0, &[0x5A, 0x5B])),
        Err(HexError::AddressTooHigh { line: 1, addr: 0xFFFF })
    ));
    let far = record(0, 2, &[0xFF, 0xFF]) + &record(0xFFFF, 0, &[1]);
    assert!(matches!(parse(&far), Err(HexError::AddressTooHigh { line: 2, addr: 0x10_FFEF })));
}

#[test]
fn the_last_record_wins() {
    let text = record(0, 0, &[1, 2, 3, 4]) + &record(1, 0, &[9, 9]);
    assert_eq!(parse(&text).unwrap().bytes, vec![1, 9, 9, 4]);
    let text = record(1, 0, &[9, 9]) + &record(0, 0, &[1, 2, 3, 4]);
    assert_eq!(parse(&text).unwrap().bytes, vec![1, 2, 3, 4]);
}

#[test]
fn nothing_behind_the_end_record_is_read() {
    let text = record(0, 0, &[1]) + &record(0, 1, &[]) + "not a record\n";
    assert_eq!(parse(&text).unwrap().bytes, vec![1]);
}

#[test]
fn blank_lines_spaces_and_start_addresses_are_passed_over() {
    let text = format!(
        "\r\n  {}\r\n{}{}{}",
        record(0, 0, &[1]).trim_end(),
        record(0, 3, &[0, 0, 0, 0]),
        record(0, 5, &[0, 0, 0, 0]),
        record(1, 0, &[2]).to_lowercase()
    );
    let img = parse(&text).unwrap();
    assert_eq!(img.bytes, vec![1, 2]);
    assert_eq!(img.lowest_addr, 0);
}
