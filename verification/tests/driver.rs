use stcbsl::driver::{
    DrainConfig, DrainMode, Error, Handshake, HandshakeAction, Report, RunAction, Runner,
};
use stcbsl::frame::{unhex, Frame, FrameError};
use stcbsl::protocol::stc89::Stc89;
use stcbsl::protocol::{Job, ProtocolError, ProtocolFamily, SessionOptions};
use stcbsl::session::{Session, SessionError};

const MS: u64 = 1_000_000;

fn status_frame() -> Frame {
    let mut p = Vec::new();
    for _ in 0..8 {
        p.extend([0x0A, 0x6B]);
    }
    p.extend([0x66, 0x43, 0xFD, 0xF0, 0x02]);
    p.resize(52, 0);
    Frame::mcu(0x00, p)
}

fn handshake(wait_ms: u64) -> Handshake {
    Handshake::new(&SessionOptions::default(), wait_ms as u128 * MS as u128)
}

#[test]
fn pulses_keep_their_cadence() {
    let mut h = handshake(1000);
    assert!(matches!(h.poll(0), HandshakeAction::Pulse(0x7F)));
    h.pulsed(MS);
    assert!(matches!(h.poll(MS), HandshakeAction::Listen));
    assert!(matches!(h.poll(31 * MS - 1), HandshakeAction::Listen));
    assert!(matches!(h.poll(31 * MS), HandshakeAction::Pulse(0x7F)));
}

#[test]
fn noise_does_not_silence_the_pulses_but_a_frame_does() {
    let mut h = handshake(10_000);
    h.pulsed(0);
    let heard = h.heard(&Stc89, &[0x00, 0xFF, 0x25], 40 * MS);
    assert!(heard.outcome.is_none());
    assert_eq!(heard.reports.len(), 1);
    assert!(matches!(&heard.reports[0], Report::Discarded(d) if d == &[0x00, 0xFF, 0x25]));
    assert!(matches!(h.poll(40 * MS), HandshakeAction::Pulse(_)));
    // Part of a frame is there: hold, until it has stalled.
    let bytes = status_frame().encode();
    assert!(h.heard(&Stc89, &bytes[..20], 50 * MS).outcome.is_none());
    assert!(matches!(h.poll(60 * MS), HandshakeAction::Listen));
    assert!(matches!(h.poll(450 * MS - 1), HandshakeAction::Listen));
    assert!(matches!(h.poll(450 * MS), HandshakeAction::Pulse(_)));
    // A read that gives nothing is no byte.
    h.heard(&Stc89, &[], 500 * MS);
    assert!(matches!(h.poll(500 * MS), HandshakeAction::Pulse(_)));
    h.heard(&Stc89, &bytes[20..30], 500 * MS);
    assert!(matches!(h.poll(501 * MS), HandshakeAction::Listen));
    let heard = h.heard(&Stc89, &bytes[30..], 502 * MS);
    assert!(matches!(&heard.reports[0], Report::Reply(f) if *f == status_frame()));
    let info = heard.outcome.unwrap().unwrap();
    assert_eq!(info.measured_hz, 10_972_800);
}

#[test]
fn the_wait_ends_and_says_how_long_it_was() {
    let mut h = handshake(250);
    h.heard(&Stc89, &[1, 2, 3], MS);
    h.heard(&Stc89, &[4, 5], 2 * MS);
    assert!(!matches!(h.poll(250 * MS - 1), HandshakeAction::Expired(_)));
    match h.poll(250 * MS) {
        HandshakeAction::Expired(e) => {
            assert!(matches!(e, Error::NoBootloader { waited_ms: 250, noise_bytes: 5 }));
            assert_eq!(
                e.message(),
                "no bootloader after 250 ms (5 bytes of non-protocol noise seen). The BSL only runs after a COLD power-on and only listens for a few hundred milliseconds: switch the board off, start this command, then switch it on. A reset button will not do it."
            );
        }
        other => panic!("{other:?}"),
    }
}

#[test]
fn other_frames_and_bad_ones_are_noted_on_the_way() {
    let mut h = handshake(1000);
    let mut stream = vec![0x11];
    stream.extend(Frame::mcu(0x80, vec![0xEE]).encode());
    let mut bad = Frame::mcu(0x81, vec![]).encode();
    bad[6] ^= 0xFF;
    stream.extend(&bad);
    stream.extend(status_frame().encode());
    assert!(h.can_hear(stream.len()));
    let heard = h.heard(&Stc89, &stream, 0);
    assert!(heard.outcome.unwrap().is_ok());
    let said: Vec<String> = heard
        .reports
        .iter()
        .map(|r| match r {
            Report::Discarded(d) => format!("discarded {}", d.len()),
            Report::Note(s) => s.clone(),
            Report::Reply(f) => format!("reply {:02x}", f.cmd),
            Report::Step { label, .. } => label.clone(),
        })
        .collect();
    assert_eq!(
        said,
        [
            "discarded 1",
            "ignoring a frame with cmd 0x80 during sync",
            "discarded 1",
            "discarding a malformed frame during sync: bad checksum: computed 0xef, got 0x10",
            "discarded 7",
            "reply 00",
        ]
    );
}

#[test]
fn a_status_packet_that_makes_no_sense_ends_the_handshake() {
    let mut h = handshake(1000);
    let mut f = status_frame();
    f.payload[1] = 0;
    let heard = h.heard(&Stc89, &f.encode(), 0);
    let e = heard.outcome.unwrap().unwrap_err();
    assert!(matches!(e, Error::Protocol(ProtocolError::InconsistentFrequency(_))));
}

// ------------------------------------------------------------------------ run

fn answer(request: &Frame) -> Vec<u8> {
    match request.cmd {
        0x8F | 0x8E | 0x8D => Frame::mcu(request.cmd, request.payload.clone()).encode(),
        0x80 => Frame::mcu(0x80, vec![]).encode(),
        0x84 => Frame::mcu(0x80, unhex("f0 02 c4 2b 01 83 74").unwrap()).encode(),
        0x00 => Frame::mcu(0x80, vec![Stc89::block_ack(&request.payload[6..])]).encode(),
        _ => Vec::new(),
    }
}

fn planned(job: &Job) -> Session {
    let opts = SessionOptions::default();
    let info = Stc89.parse_status(&status_frame(), 2400).unwrap();
    Session::new(Stc89.plan(&info, job, &opts).unwrap())
}

fn flash_job() -> Job {
    Job::Flash { image: vec![0xA5; 299], write_options: true }
}

/// What a run did, in a word each.
struct Log {
    did: Vec<String>,
    notes: Vec<String>,
    discarded: Vec<u8>,
    end: Result<(), Error>,
}

/// Run a session; `reply` gives what comes in behind the n-th frame, in the
/// reads that it takes.
fn drive(job: &Job, drain: DrainConfig, reply: impl Fn(usize, &Frame) -> Vec<Vec<u8>>) -> Log {
    let mut runner = Runner::new(planned(job), drain);
    let mut log =
        Log { did: Vec::new(), notes: Vec::new(), discarded: Vec::new(), end: Ok(()) };
    let mut frames = 0usize;
    let mut coming: Vec<Vec<u8>> = Vec::new();
    let mut now = 0u64;
    loop {
        now += 10 * MS;
        let (action, reports) = runner.next(now);
        for r in reports {
            match r {
                Report::Note(s) => log.notes.push(s),
                Report::Discarded(d) => log.discarded.extend(d),
                _ => {}
            }
        }
        match action {
            RunAction::Drain => log.did.push("drain".into()),
            RunAction::Settle(ms) => log.did.push(format!("settle {ms}")),
            RunAction::SetBaud(b) => log.did.push(format!("baud {b}")),
            RunAction::Write(bytes) => {
                let f = Frame::decode(&bytes).unwrap();
                log.did.push(format!("write {:02x}", f.cmd));
                coming = reply(frames, &f);
                coming.reverse();
                frames += 1;
            }
            RunAction::Flush => log.did.push("flush".into()),
            RunAction::Read => runner.heard(&coming.pop().unwrap_or_default()),
            RunAction::Done(end) => {
                assert!(runner.is_over());
                log.end = end;
                return log;
            }
        }
    }
}

#[test]
fn a_run_writes_the_plan_and_retunes_in_place() {
    let job = Job::Erase { blocks: None };
    let log = drive(&job, DrainConfig::default(), |_, f| vec![answer(f)]);
    assert!(log.end.is_ok());
    assert_eq!(
        log.did,
        [
            "write 8f", "flush", "write 8e", "flush", "drain", "settle 100", "baud 115200",
            "write 80", "flush", "write 80", "flush", "write 80", "flush", "write 80", "flush",
            "write 84", "flush", "write 82", "flush"
        ]
    );
    assert_eq!(log.notes, ["drained, settled 100 ms at the old baud, switched to 115200"]);
}

#[test]
fn a_switch_can_do_without_drain_and_settling() {
    let job = Job::Erase { blocks: Some(2) };
    let drain = DrainConfig { mode: DrainMode::ComputeWireTime, margin_ms: -5 };
    assert_eq!(drain.settle_ms(), 0);
    let log = drive(&job, drain, |_, f| vec![answer(f)]);
    assert!(log.end.is_ok());
    assert_eq!(log.did[..5], ["write 8f", "flush", "write 8e", "flush", "baud 115200"]);
    assert_eq!(log.notes, ["drained, settled 0 ms at the old baud, switched to 115200"]);
}

#[test]
fn a_whole_image_goes_out() {
    let log = drive(&flash_job(), DrainConfig::default(), |_, f| {
        // Byte by byte, behind a stray one.
        let mut parts = vec![vec![0x00]];
        parts.extend(answer(f).into_iter().map(|b| vec![b]));
        parts
    });
    assert!(log.end.is_ok());
    assert_eq!(log.did.iter().filter(|d| *d == "write 00").count(), 4);
    assert_eq!(log.did.last().unwrap(), "flush");
}

#[test]
fn a_damaged_frame_in_front_of_an_ack_is_passed_over() {
    let log = drive(&flash_job(), DrainConfig::default(), |n, f| {
        let mut bytes = Vec::new();
        if n == 8 {
            let mut bad = answer(f);
            let last = bad.len() - 2;
            bad[last] ^= 0x01;
            bytes.extend(bad);
        }
        bytes.extend(answer(f));
        vec![bytes]
    });
    assert!(log.end.is_ok());
    assert!(log.notes.iter().any(|s| s.starts_with("re-hunting after a bad frame: bad checksum")));
}

/// Noise, or a damaged frame, ahead of any reply and cut in any way: the run
/// does the same and ends the same, and every byte of it is told of.
#[test]
fn noise_ahead_of_a_reply_changes_nothing() {
    let quiet = drive(&flash_job(), DrainConfig::default(), |_, f| vec![answer(f)]);
    assert!(quiet.discarded.is_empty());
    let mut damaged = Frame::mcu(0x80, vec![0xEE, 0x01]).encode();
    let last = damaged.len() - 2;
    damaged[last] ^= 0x10;
    assert!(damaged[1..].iter().all(|b| *b != 0x46));
    let noises = [vec![0x00], unhex("a0 b9 b3 e1 25 16 ff").unwrap(), damaged];
    for noise in noises {
        for at in 0..12usize {
            for cut in 0..=noise.len() {
                let log = drive(&flash_job(), DrainConfig::default(), |n, f| {
                    if n != at {
                        return vec![answer(f)];
                    }
                    let mut second = noise[cut..].to_vec();
                    second.extend(answer(f));
                    vec![noise[..cut].to_vec(), second]
                });
                assert!(log.end.is_ok(), "frame {at}, cut {cut}");
                assert_eq!(log.did, quiet.did);
                assert_eq!(log.discarded, noise);
            }
        }
    }
}

/// A byte that could begin a frame is held when the noise comes: it goes with
/// the noise, as it would have gone with the reply.
#[test]
fn a_held_byte_goes_with_the_noise() {
    let held = |n: usize, f: &Frame, noise: &[u8]| {
        if n != 8 {
            return vec![answer(f)];
        }
        let mut parts = vec![vec![0x46], vec![], noise.to_vec()];
        parts.extend(answer(f).chunks(3).map(|c| c.to_vec()));
        parts
    };
    let quiet = drive(&flash_job(), DrainConfig::default(), |n, f| held(n, f, &[]));
    assert!(quiet.end.is_ok());
    assert_eq!(quiet.discarded, [0x46]);
    let noisy = drive(&flash_job(), DrainConfig::default(), |n, f| held(n, f, &[0x00, 0xB9]));
    assert!(noisy.end.is_ok());
    assert_eq!(noisy.did, quiet.did);
    assert_eq!(noisy.discarded, [0x46, 0x00, 0xB9]);
}

#[test]
fn silence_before_the_first_block_is_a_plain_timeout() {
    let log = drive(&flash_job(), DrainConfig::default(), |n, f| {
        if n == 3 {
            vec![]
        } else {
            vec![answer(f)]
        }
    });
    match log.end {
        Err(Error::Timeout { ref label, ms: 2000 }) => {
            assert_eq!(
                log.end.as_ref().unwrap_err().message(),
                format!("{label}: no reply within 2000 ms")
            );
        }
        other => panic!("{other:?}"),
    }
}

#[test]
fn silence_behind_a_block_leaves_the_flash_in_doubt() {
    let log = drive(&flash_job(), DrainConfig::default(), |n, f| {
        if n == 8 {
            vec![]
        } else {
            vec![answer(f)]
        }
    });
    let e = log.end.unwrap_err();
    assert!(matches!(&e, Error::IndeterminateFlash(inner) if matches!(**inner, Error::Timeout { .. })));
    assert!(e.message().ends_with(
        "\n  flash is in an INDETERMINATE state — part of the image was programmed. There is no read-back on this part, so the only safe move is to power-cycle and flash again."
    ));
    // Behind the last block it is not: the option frame can fail without it.
    let log = drive(&flash_job(), DrainConfig::default(), |n, f| {
        if n == 11 {
            vec![]
        } else {
            vec![answer(f)]
        }
    });
    assert!(matches!(log.end, Err(Error::Timeout { .. })));
}

#[test]
fn a_wrong_ack_ends_the_run() {
    let log = drive(&flash_job(), DrainConfig::default(), |n, f| {
        if n == 7 {
            vec![Frame::mcu(0x80, vec![0x00]).encode()]
        } else {
            vec![answer(f)]
        }
    });
    let e = log.end.unwrap_err();
    match e {
        Error::IndeterminateFlash(inner) => assert!(matches!(
            *inner,
            Error::Session(SessionError::BlockAckMismatch { addr: 0, .. })
        )),
        other => panic!("{other:?}"),
    }
}

#[test]
fn a_port_failure_says_what_it_means() {
    let mut runner = Runner::new(planned(&Job::Identify), DrainConfig::default());
    assert!(!runner.is_over());
    let (action, reports) = runner.next(0);
    assert!(matches!(action, RunAction::Write(_)));
    assert!(matches!(&reports[0], Report::Step { bytes, .. } if bytes.len() == 8));
    let e = runner.failed(String::from("gone"));
    assert_eq!(e.message(), "I/O: gone");
    assert!(runner.is_over());
    assert!(runner.session().is_finished());
}

#[test]
fn errors_read_as_what_they_hold() {
    let p = || ProtocolError::EmptyImage;
    assert_eq!(Error::from(p()).message(), p().message());
    assert_eq!(Error::Protocol(p()).message(), "image contains no data");
    assert_eq!(Error::Frame(FrameError::BadDir(0x01)).message(), "unknown direction byte 0x01");
    assert_eq!(
        Error::Session(SessionError::NotAwaiting).message(),
        "a reply arrived when none was expected"
    );
    let d = DrainConfig::default();
    assert_eq!((d.mode, d.margin_ms), (DrainMode::TcDrain, 100));
}
