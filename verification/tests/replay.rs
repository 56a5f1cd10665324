//! Whole sessions, with a chip that answers as one on a bench does.

use stcbsl::frame::{hex, unhex, Frame, Receiver};
use stcbsl::protocol::stc89::Stc89;
use stcbsl::protocol::{Job, ProtocolFamily, SessionOptions, TargetInfo};
use stcbsl::session::{Action, Expect, Phase, Session, SessionError, Step};

/// A status packet of the bench chip: measured frequency, version 6.6C, option
/// byte FD, chip id F0 02, and an opaque rest.
fn status_frame(word: u16, opaque: u8) -> Frame {
    let mut p = Vec::new();
    for _ in 0..8 {
        p.extend(word.to_be_bytes());
    }
    p.extend([0x66, 0x43, 0xFD, 0xF0, 0x02]);
    while p.len() < 52 {
        p.push(opaque.wrapping_mul(p.len() as u8));
    }
    Frame::mcu(0x00, p)
}

/// An image of the size of the blinking demo, with its gap.
fn blink_image() -> Vec<u8> {
    let mut image: Vec<u8> = (0..299u32).map(|i| (i * 31 + 2) as u8).collect();
    image[3..8].fill(0);
    image
}

fn hello_image() -> Vec<u8> {
    (0..608u32).map(|i| (i * 17 + 5) as u8).collect()
}

/// What the chip answers to a frame.
fn answer(request: &Frame) -> Option<Frame> {
    match request.cmd {
        0x8F | 0x8E | 0x8D => Some(Frame::mcu(request.cmd, request.payload.clone())),
        0x80 => Some(Frame::mcu(0x80, vec![])),
        0x84 => Some(Frame::mcu(0x80, unhex("f0 02 c4 2b 01 83 74").unwrap())),
        0x00 => Some(Frame::mcu(0x80, vec![Stc89::block_ack(&request.payload[6..])])),
        _ => None,
    }
}

struct Outcome {
    sent: Vec<Frame>,
    replies: usize,
    retunes: Vec<(usize, u32)>,
    session: Session,
    info: TargetInfo,
}

/// Run a session against the chip, which goes silent behind `limit` answers.
fn play(word: u16, job: Job, limit: usize) -> Outcome {
    let opts = SessionOptions::default();
    let status = status_frame(word, 1);
    assert!(Stc89.is_status_frame(&status));
    let info = Stc89.parse_status(&status, opts.handshake_baud).unwrap();
    let steps = Stc89.plan(&info, &job, &opts).unwrap();
    let mut out = Outcome {
        sent: Vec::new(),
        replies: 0,
        retunes: Vec::new(),
        session: Session::new(steps),
        info,
    };
    loop {
        match out.session.next_action() {
            Action::SetBaud(b) => out.retunes.push((out.sent.len(), b)),
            Action::Send { bytes, expect_reply, .. } => {
                let request = Frame::decode(&bytes).unwrap();
                let reply = answer(&request);
                assert_eq!(reply.is_some(), expect_reply);
                out.sent.push(request);
                if let Some(r) = reply {
                    if out.replies == limit {
                        return out;
                    }
                    out.session.on_reply(&r).unwrap();
                    out.replies += 1;
                }
            }
            Action::AwaitingReply => unreachable!(),
            Action::Finished => return out,
        }
    }
}

#[test]
fn status_packets_decode() {
    for (word, hz) in [(0x0A6B, 10_972_800), (0x0A79, 11_030_400)] {
        let info = Stc89.parse_status(&status_frame(word, 3), 2400).unwrap();
        assert_eq!(info.model, Some("STC89C52RC/LE52RC"));
        assert_eq!(info.chip_id, vec![0xF0, 0x02]);
        assert_eq!(info.bsl_version, "6.6C");
        assert_eq!(info.code_flash, Some(8 * 1024));
        assert_eq!(info.eeprom_flash, Some(6 * 1024));
        assert_eq!(info.option_bytes, vec![0xFD]);
        assert_eq!(info.measured_hz, hz);
        assert!(info.freq_words.iter().all(|w| *w == info.freq_words[0]));
        assert_eq!(Stc89::timer_reload(info.measured_hz, 115200).unwrap(), 0xFD);
    }
}

#[test]
fn opaque_region_varies_and_is_ignored() {
    let fa = status_frame(0x0A6B, 1);
    let fb = status_frame(0x0A6B, 77);
    let differing = (22..=50).filter(|i| fa.payload[*i] != fb.payload[*i]).count();
    assert!(differing > 0);
    let ia = Stc89.parse_status(&fa, 2400).unwrap();
    let ib = Stc89.parse_status(&fb, 2400).unwrap();
    assert_eq!(ia.chip_id, ib.chip_id);
    assert_eq!(ia.option_bytes, ib.option_bytes);
    assert_eq!(ia.bsl_version, ib.bsl_version);
    let job = Job::Flash { image: blink_image(), write_options: true };
    let opts = SessionOptions::default();
    let frames = |info: &TargetInfo| -> Vec<Vec<u8>> {
        Stc89.plan(info, &job, &opts).unwrap().iter().map(|s| s.frame.encode()).collect()
    };
    assert_eq!(frames(&ia), frames(&ib));
}

/// An application's output, read at the wrong rate.
fn application_noise() -> Vec<u8> {
    let values = unhex("a0 b3 e1 25 fc 4d 54 00 f8 80 c0 e0").unwrap();
    (0..152).map(|i| values[(i * 7) % values.len()]).collect()
}

#[test]
fn timeout_capture_is_all_noise_and_yields_nothing() {
    let mut rx = Receiver::new();
    for b in application_noise() {
        rx.feed(&[b]);
        assert!(rx.next_frame().is_none(), "a frame appeared out of pure noise");
    }
    assert_eq!(rx.take_discarded().len(), 152, "every noise byte must be discarded");
    assert_eq!(rx.pending(), 0);
}

#[test]
fn resyncs_on_the_preamble_after_the_timeout_capture_noise() {
    let noise = application_noise();
    assert_eq!(noise.len(), 152);
    let status = status_frame(0x0A6B, 9).encode();
    let mut rx = Receiver::new();
    let mut stream = noise.clone();
    stream.extend_from_slice(&status);
    for chunk in stream.chunks(7) {
        rx.feed(chunk);
    }
    let f = rx.next_frame().expect("frame not found").expect("frame invalid");
    assert!(Stc89.is_status_frame(&f));
    assert_eq!(f.encode(), status);
    assert_eq!(rx.take_discarded(), noise, "the application bytes, all of them");
    assert!(rx.next_frame().is_none());
}

#[test]
fn a_stray_byte_between_frames_does_not_lose_the_ack() {
    let ack = Frame::mcu(0x80, vec![0x3C]).encode();
    let mut rx = Receiver::new();
    rx.feed(&[0x00]);
    rx.feed(&ack);
    let f = rx.next_frame().unwrap().unwrap();
    assert_eq!(f.encode(), ack);
    assert_eq!(rx.take_discarded(), vec![0x00]);
}

#[test]
fn replay_info_sessions() {
    for word in [0x0A6B, 0x0A79] {
        let out = play(word, Job::Identify, usize::MAX);
        assert_eq!(out.sent.len(), 1, "only the 0x82 frame");
        assert_eq!(out.replies, 0, "0x82 is never answered");
        assert!(out.retunes.is_empty(), "no baud switch without work");
        assert!(out.session.is_finished());
        assert!(!out.session.flash_is_indeterminate());
    }
}

#[test]
fn replay_erase_sessions() {
    for word in [0x0A6B, 0x0A79] {
        let out = play(word, Job::Erase { blocks: None }, usize::MAX);
        // 8F, 8E, 4x link test, 84, 82
        assert_eq!(out.sent.len(), 8);
        assert_eq!(out.replies, 7, "everything but 0x82");
        assert!(out.session.is_finished());
        // The rate changes once two host frames have gone out.
        assert_eq!(out.retunes, vec![(2, 115200)]);
        assert!(!out.session.flash_is_indeterminate());
        assert_eq!(
            hex(&out.sent[6].encode()),
            "46 b9 6a 00 0d 84 20 33 33 33 33 33 33 4d 16"
        );
    }
}

/// The chip names itself in its answer to the erase frame; the five bytes
/// behind that may be anything.
#[test]
fn the_erase_reply_names_the_chip() {
    let before_the_erase = || {
        let mut out = play(0x0A6B, Job::Erase { blocks: Some(2) }, 6);
        assert!(out.session.is_awaiting());
        assert_eq!(out.sent.pop().unwrap(), Stc89::erase_frame(2));
        out.session
    };
    let reply = |payload: &str| Frame::mcu(0x80, unhex(payload).unwrap());
    let mut s = before_the_erase();
    assert!(matches!(
        s.on_reply(&reply("00 00 c4 2b 01 83 74")),
        Err(SessionError::WrongPayload { .. })
    ));
    assert!(s.is_awaiting());
    assert!(s.on_reply(&reply("f0 02 c4 2b 01 83 74")).is_ok());
    for tail in ["00 00 00 00 00", "ff 46 b9 16 02"] {
        assert!(before_the_erase().on_reply(&reply(&format!("f0 02 {tail}"))).is_ok());
    }
    assert!(matches!(
        before_the_erase().on_reply(&reply("f0 02")),
        Err(SessionError::WrongPayloadLen { want: 7, got: 2, .. })
    ));
}

#[test]
fn replay_flash_sessions() {
    for (word, image, blocks) in [
        (0x0A6B, blink_image(), 4usize),
        (0x0A6B, hello_image(), 8),
        (0x0A79, hello_image(), 8),
    ] {
        let out = play(word, Job::Flash { image, write_options: true }, usize::MAX);
        // 8F, 8E, 4x link, 84 (=7), N writes, 8D, 82
        assert_eq!(out.sent.len(), 9 + blocks);
        // everything but 0x82 is answered
        assert_eq!(out.replies, 8 + blocks);
        assert_eq!(out.retunes, vec![(2, 115200)]);
        assert!(out.session.is_finished());
        assert!(!out.session.flash_is_indeterminate());
    }
}

#[test]
fn the_two_hello_runs_measured_different_frequencies() {
    let job = || Job::Flash { image: hello_image(), write_options: true };
    let a = play(0x0A6B, job(), usize::MAX);
    let b = play(0x0A79, job(), usize::MAX);
    assert_ne!(a.info.measured_hz, b.info.measured_hz);
    assert_eq!(a.info.freq_words[0], 0x0A6B);
    assert_eq!(b.info.freq_words[0], 0x0A79);
    // Both round to the same reload, so every frame is the same.
    assert_eq!(a.sent, b.sent);
}

#[test]
fn replay_the_aborted_session_and_report_indeterminate_flash() {
    let out = play(0x0A6B, Job::Flash { image: blink_image(), write_options: true }, 8);
    // 8F, 8E, 4x link, 84 (=7), two of the four write blocks.
    assert_eq!(out.sent.len(), 9);
    // Only the first write was acknowledged: 7 + 1.
    assert_eq!(out.replies, 8);
    assert!(out.session.flash_is_indeterminate());
    let (at, total) = out.session.progress();
    assert!(at < total);
}

#[test]
fn options_are_only_ever_an_echo_of_what_was_read() {
    let status = status_frame(0x0A6B, 1);
    let info = Stc89.parse_status(&status, 2400).unwrap();
    let opts = SessionOptions::default();

    let flash = Stc89
        .plan(&info, &Job::Flash { image: blink_image(), write_options: true }, &opts)
        .unwrap();
    let opt_step = flash.iter().find(|s| s.phase == Phase::Options).unwrap();
    assert_eq!(opt_step.frame.payload, vec![0xFD, 0xFF, 0xFF, 0xFF]);
    assert_eq!(opt_step.frame.payload[0], info.option_bytes[0]);
    assert_eq!(
        opt_step.frame.encode(),
        unhex("46 b9 6a 00 0a 8d fd ff ff ff fb 16").unwrap()
    );

    let erase = Stc89.plan(&info, &Job::Erase { blocks: None }, &opts).unwrap();
    assert!(erase.iter().all(|s| s.phase != Phase::Options));

    let skipped = Stc89
        .plan(&info, &Job::Flash { image: blink_image(), write_options: false }, &opts)
        .unwrap();
    assert!(skipped.iter().all(|s| s.phase != Phase::Options));
}

#[test]
fn the_run_frame_expects_no_reply() {
    let status = status_frame(0x0A6B, 1);
    let info = Stc89.parse_status(&status, 2400).unwrap();
    let steps = Stc89.plan(&info, &Job::Identify, &SessionOptions::default()).unwrap();
    assert_eq!(steps.len(), 1);
    assert_eq!(steps[0].phase, Phase::Run);
    assert_eq!(steps[0].expect, Expect::Nothing);

    let mut s = Session::new(steps);
    assert!(matches!(s.next_action(), Action::Send { expect_reply: false, .. }));
    assert!(matches!(s.next_action(), Action::Finished));
}

// ------------------------------------------------------------ the state machine

fn step(phase: Phase, cmd: u8, expect: Expect) -> Step {
    Step {
        phase,
        label: String::from("a step"),
        frame: Frame::host(cmd, vec![1, 2]),
        expect,
        timeout_ms: 100,
        retune_to: None,
        write_addr: if phase == Phase::Write { Some(0x80) } else { None },
    }
}

/// Send the step and give it an answer.
fn told(expect: Expect, reply: Frame) -> Result<(), SessionError> {
    let mut s = Session::new(vec![step(Phase::Write, 0x00, expect)]);
    assert!(matches!(s.next_action(), Action::Send { expect_reply: true, .. }));
    assert!(matches!(s.next_action(), Action::AwaitingReply));
    let before = s.progress();
    let r = s.on_reply(&reply);
    if r.is_err() {
        assert_eq!(s.progress(), before);
        assert!(s.is_awaiting());
        assert!(s.flash_is_indeterminate());
    } else {
        assert!(s.is_finished());
        assert!(!s.flash_is_indeterminate());
    }
    r
}

#[test]
fn each_wrong_answer_has_its_error() {
    let text = |r: Result<(), SessionError>| r.unwrap_err().message();
    let ack = |payload: Vec<u8>| Frame::mcu(0x80, payload);
    assert_eq!(
        text(told(Expect::Echo, Frame::host(0x00, vec![1, 2]))),
        "a step: reply carries direction HostToMcu"
    );
    assert_eq!(
        text(told(Expect::Echo, Frame::mcu(0x00, vec![1, 3]))),
        format!(
            "a step: reply is not an echo of the request ({})",
            Frame::mcu(0x00, vec![1, 3]).describe()
        )
    );
    assert!(told(Expect::Echo, Frame::mcu(0x00, vec![1, 2])).is_ok());
    assert_eq!(
        text(told(Expect::Ack { cmd: 0x80, payload: vec![7] }, Frame::mcu(0x81, vec![7]))),
        "a step: expected reply command 0x80, got 0x81"
    );
    assert_eq!(
        text(told(Expect::Ack { cmd: 0x80, payload: vec![7] }, ack(vec![8, 9]))),
        "a step: expected payload [07], got [08 09]"
    );
    assert!(told(Expect::Ack { cmd: 0x80, payload: vec![7] }, ack(vec![7])).is_ok());
    assert_eq!(
        text(told(Expect::AckLen { cmd: 0x80, payload_len: 2 }, ack(vec![7]))),
        "a step: expected 2 payload bytes, got 1"
    );
    assert!(told(Expect::AckLen { cmd: 0x80, payload_len: 2 }, ack(vec![7, 7])).is_ok());
    let named = || Expect::AckPrefix { cmd: 0x80, payload_len: 3, prefix: vec![7, 8] };
    assert_eq!(
        text(told(named(), Frame::mcu(0x84, vec![7, 8, 9]))),
        "a step: expected reply command 0x80, got 0x84"
    );
    assert_eq!(
        text(told(named(), ack(vec![7, 8]))),
        "a step: expected 3 payload bytes, got 2"
    );
    assert_eq!(
        text(told(named(), ack(vec![7, 9, 8]))),
        "a step: expected payload [07 08], got [07 09 08]"
    );
    assert!(told(named(), ack(vec![7, 8, 0xFF])).is_ok());
    assert_eq!(
        text(told(Expect::BlockAck { sum: 0x3C }, ack(vec![0x3D]))),
        "block at 0x0080: MCU checksummed 0x3d, we sent 0x3c — flash is now in an INDETERMINATE state; power-cycle and reflash"
    );
    assert!(told(Expect::BlockAck { sum: 0x3C }, ack(vec![0x3C])).is_ok());
    let mut s = Session::new(vec![step(Phase::Run, 0x82, Expect::Nothing)]);
    assert_eq!(
        text(s.on_reply(&ack(vec![]))),
        "a reply arrived when none was expected"
    );
}

#[test]
fn a_session_that_writes_nothing_never_leaves_the_flash_in_doubt() {
    let mut s = Session::new(vec![
        step(Phase::Erase, 0x84, Expect::AckLen { cmd: 0x80, payload_len: 0 }),
        step(Phase::Run, 0x82, Expect::Nothing),
    ]);
    assert_eq!(s.steps().len(), 2);
    assert!(!s.flash_is_indeterminate());
    s.next_action();
    assert!(!s.flash_is_indeterminate());
    s.on_reply(&Frame::mcu(0x80, vec![])).unwrap();
    s.next_action();
    assert!(s.is_finished());
    assert!(!s.flash_is_indeterminate());
    assert!(matches!(s.next_action(), Action::Finished));
}

#[test]
fn phases_have_names() {
    let names: Vec<&str> = [
        Phase::Sync,
        Phase::Status,
        Phase::BaudProbe,
        Phase::BaudCommit,
        Phase::LinkTest,
        Phase::Erase,
        Phase::Write,
        Phase::Options,
        Phase::Run,
    ]
    .iter()
    .map(|p| p.as_str())
    .collect();
    assert_eq!(
        names,
        [
            "sync", "status", "baud_probe", "baud_commit", "link_test", "erase", "write",
            "options", "run"
        ]
    );
}
