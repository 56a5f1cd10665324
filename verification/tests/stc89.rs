use stcbsl::frame::{unhex, Frame};
use stcbsl::protocol::stc89::{Stc89, WRITE_BLOCK};
use stcbsl::protocol::{Job, ProtocolError, ProtocolFamily, SessionOptions, TargetInfo};
use stcbsl::session::{Expect, Phase};

/// Both measured words.
#[test]
fn frequency_table() {
    assert_eq!(Stc89::frequency_hz(0x0A6B, 2400), 10_972_800);
    assert_eq!(Stc89::frequency_hz(0x0A79, 2400), 11_030_400);
}

#[test]
fn reload_table() {
    assert_eq!(Stc89::timer_reload(10_972_800, 115200).unwrap(), 0xFD);
    assert_eq!(Stc89::timer_reload(11_030_400, 115200).unwrap(), 0xFD);
    // Predictions, unverified on silicon.
    assert_eq!(Stc89::timer_reload(11_030_400, 19200).unwrap(), 0xEE);
    assert_eq!(Stc89::timer_reload(11_030_400, 9600).unwrap(), 0xDC);
    assert_eq!(Stc89::reload_field(0xFD), [0xFF, 0xFD]);
    assert_eq!(Stc89::reload_field(0xEE), [0xFF, 0xEE]);
}

#[test]
fn erase_block_counts() {
    assert_eq!(Stc89::erase_blocks_for(299), 2);
    assert_eq!(Stc89::erase_blocks_for(608), 4);
    assert_eq!(Stc89::erase_blocks_for(8192), 32); // whole 8 KB
    // A granularity of 256 bytes would say 3.
    assert_eq!(Stc89::erase_blocks_for(714), 4);
}

/// An all-0xFF block sums to 0x7F80 and always acks 0x80.
#[test]
fn all_ff_block_acks_0x80() {
    assert_eq!(Stc89::block_ack(&[0xFF; WRITE_BLOCK]), 0x80);
}

#[test]
fn negotiation_frames_match_the_capture() {
    assert_eq!(
        Stc89::baud_probe_frame(0xFD).encode(),
        unhex("46 b9 6a 00 0c 8f ff fd 00 06 a0 81 28 16").unwrap()
    );
    assert_eq!(
        Stc89::baud_commit_frame(0xFD).encode(),
        unhex("46 b9 6a 00 0b 8e ff fd 00 06 a0 a5 16").unwrap()
    );
    assert_eq!(
        Stc89::link_test_frame(&[0xF0, 0x02]).encode(),
        unhex("46 b9 6a 00 0c 80 00 00 36 01 f0 02 1f 16").unwrap()
    );
    assert_eq!(
        Stc89::erase_frame(0x20).encode(),
        unhex("46 b9 6a 00 0d 84 20 33 33 33 33 33 33 4d 16").unwrap()
    );
    assert_eq!(Stc89::run_frame().encode(), unhex("46 b9 6a 00 06 82 f2 16").unwrap());
}

/// The payload of a status packet: eight equal words, the version, the option
/// byte, the chip id, and an opaque rest.
fn status_payload(word: u16, id: [u8; 2], opaque: u8) -> Vec<u8> {
    let mut p = Vec::new();
    for _ in 0..8 {
        p.extend(word.to_be_bytes());
    }
    p.extend([0x66, 0x43, 0xFD]);
    p.extend(id);
    p.resize(52, opaque);
    p
}

fn target(id: [u8; 2]) -> TargetInfo {
    let f = Frame::mcu(0x00, status_payload(0x0A6B, id, 0));
    Stc89.parse_status(&f, 2400).unwrap()
}

#[test]
fn a_status_packet_says_what_the_chip_is() {
    let info = target([0xF0, 0x02]);
    assert_eq!(info.family, "stc89");
    assert_eq!(info.model, Some("STC89C52RC/LE52RC"));
    assert_eq!(info.code_flash, Some(8192));
    assert_eq!(info.eeprom_flash, Some(6144));
    assert_eq!(info.bsl_version, "6.6C");
    assert_eq!(info.measured_hz, 10_972_800);
    assert_eq!(info.freq_words, vec![0x0A6B; 8]);
    assert_eq!(info.option_bytes, vec![0xFD]);
    assert_eq!(info.raw_status, status_payload(0x0A6B, [0xF0, 0x02], 0));
    let other = target([0xF0, 0x03]);
    assert_eq!(other.model, None);
    assert_eq!(other.code_flash, None);
    assert_eq!(other.eeprom_flash, None);
}

fn status_error(f: Frame) -> String {
    Stc89.parse_status(&f, 2400).unwrap_err().message()
}

#[test]
fn each_way_to_be_no_status_has_its_error() {
    let good = status_payload(0x0A6B, [0xF0, 0x02], 0);
    assert_eq!(
        status_error(Frame::mcu(0x80, good.clone())),
        "expected the status packet, got command 0x80"
    );
    assert_eq!(
        status_error(Frame::host(0x00, good.clone())),
        "expected the status packet, got command 0x00"
    );
    assert_eq!(
        status_error(Frame::mcu(0x00, good[..51].to_vec())),
        "status payload is 51 bytes, expected 52"
    );
    let mut uneven = good.clone();
    uneven[3] = 0x6C;
    assert_eq!(
        status_error(Frame::mcu(0x00, uneven)),
        "the eight frequency words disagree ([2667, 2668, 2667, 2667, 2667, 2667, 2667, 2667]) — the handshake measurement is unreliable"
    );
    assert_eq!(
        status_error(Frame::mcu(0x00, status_payload(1, [0xF0, 0x02], 0))),
        "measured frequency 4114 Hz is out of range for this part"
    );
    assert!(matches!(
        Stc89.parse_status(&Frame::mcu(0x00, status_payload(0xFFFF, [0, 0], 0)), 2400),
        Err(ProtocolError::ImplausibleFrequency(_))
    ));
}

fn plan_error(info: &TargetInfo, job: Job, baud: u32) -> String {
    let opts = SessionOptions { transfer_baud: baud, ..SessionOptions::default() };
    Stc89.plan(info, &job, &opts).unwrap_err().message()
}

#[test]
fn each_job_that_cannot_be_done_has_its_error() {
    let known = target([0xF0, 0x02]);
    let unknown = target([0xAB, 0xCD]);
    let flash = |n: usize| Job::Flash { image: vec![0x11; n], write_options: true };
    assert_eq!(plan_error(&known, flash(0), 115200), "image contains no data");
    assert_eq!(
        plan_error(&known, flash(8193), 115200),
        "image is 8193 bytes; this part has 8192 bytes of code flash"
    );
    assert_eq!(
        plan_error(&unknown, Job::Erase { blocks: None }, 115200),
        "chip id ab cd is not in our (single-capture) table, so the flash size is unknown — pass an explicit block count"
    );
    assert_eq!(
        plan_error(&unknown, flash(65536), 115200),
        "erase block count 256 does not fit in one byte"
    );
    assert_eq!(
        plan_error(&known, Job::Erase { blocks: Some(0) }, 115200),
        "erase block count 0 does not fit in one byte"
    );
    assert_eq!(
        plan_error(&known, flash(1), 0),
        "transfer baud 0 needs timer reload 0, which is not an 8-bit value"
    );
    assert_eq!(
        plan_error(&known, flash(1), 300),
        "transfer baud 300 needs timer reload -887, which is not an 8-bit value"
    );
    assert_eq!(
        plan_error(&known, flash(1), 4_000_000),
        "transfer baud 4000000 needs timer reload 256, which is not an 8-bit value"
    );
}

#[test]
fn the_whole_erased_region_is_programmed() {
    let image: Vec<u8> = (0..299).map(|i| (i * 7) as u8).collect();
    let info = target([0xF0, 0x02]);
    let opts = SessionOptions::default();
    let job = Job::Flash { image: image.clone(), write_options: true };
    let steps = Stc89.plan(&info, &job, &opts).unwrap();
    assert_eq!(steps.len(), 13);
    assert_eq!(steps[6].frame.payload[0], 2);
    assert_eq!(
        steps[6].expect,
        Expect::AckPrefix { cmd: 0x80, payload_len: 7, prefix: vec![0xF0, 0x02] }
    );
    assert_eq!(steps[6].timeout_ms, 20_000);
    let mut programmed = Vec::new();
    for s in steps.iter().filter(|s| s.phase == Phase::Write) {
        assert_eq!(s.write_addr, Some(programmed.len() as u32));
        assert_eq!(s.frame.payload[..4], (programmed.len() as u32).to_be_bytes());
        assert_eq!(s.frame.payload[4..6], [0x00, 0x80]);
        let data = &s.frame.payload[6..];
        assert_eq!(s.expect, Expect::BlockAck { sum: Stc89::block_ack(data) });
        programmed.extend_from_slice(data);
    }
    assert_eq!(programmed.len(), 512);
    assert_eq!(programmed[..299], image[..]);
    assert!(programmed[299..].iter().all(|b| *b == 0xFF));
    assert_eq!(steps[7].label, "write block 1/4 at 0x0000");
    assert_eq!(steps[10].label, "write block 4/4 at 0x0180");
    let retunes: Vec<Option<u32>> = steps.iter().map(|s| s.retune_to).collect();
    assert_eq!(retunes[1], Some(115200));
    assert_eq!(retunes.iter().filter(|r| r.is_some()).count(), 1);
}

#[test]
fn the_family_has_its_defaults() {
    assert_eq!(Stc89.name(), "stc89");
    assert_eq!(Stc89.default_handshake_baud(), 2400);
    assert_eq!(Stc89.default_transfer_baud(), 115200);
    let o = SessionOptions::default();
    assert_eq!((o.handshake_baud, o.transfer_baud), (2400, 115200));
    assert_eq!((o.reply_timeout_ms, o.erase_timeout_ms), (2000, 20_000));
}

/// A whole-chip erase of the known chip asks for its 32 blocks.
#[test]
fn a_known_chip_is_erased_whole() {
    let steps = Stc89
        .plan(&target([0xF0, 0x02]), &Job::Erase { blocks: None }, &SessionOptions::default())
        .unwrap();
    assert_eq!(steps[6].frame, Stc89::erase_frame(0x20));
    let steps = Stc89
        .plan(&target([0xAB, 0xCD]), &Job::Erase { blocks: Some(3) }, &SessionOptions::default())
        .unwrap();
    assert_eq!(steps[6].frame, Stc89::erase_frame(3));
}
