use stcbsl::cli::{
    announce_wait, describe_done, describe_image, describe_plan, describe_port, explain,
    parse_args, report_target, Args, CliLog, Command, Parsed,
};
use stcbsl::driver::{DrainMode, Report};
use stcbsl::frame::Frame;
use stcbsl::ihex::parse;
use stcbsl::probe::Probe;
use stcbsl::protocol::stc89::Stc89;
use stcbsl::protocol::{Job, ProtocolFamily};

fn words(line: &str) -> Vec<String> {
    line.split_whitespace().map(String::from).collect()
}

fn args(line: &str) -> Args {
    match parse_args(&words(line)).unwrap() {
        Parsed::Args(a) => a,
        Parsed::Help => panic!("help"),
    }
}

fn refused(line: &str) -> String {
    parse_args(&words(line)).unwrap_err()
}

#[test]
fn nothing_said_means_the_defaults() {
    let a = args("");
    assert_eq!(a.port, None);
    assert_eq!((a.transfer_baud, a.handshake_baud), (115200, 2400));
    assert!(!a.parity_even);
    assert_eq!(a.wait_s, 30);
    assert_eq!(a.blocks, None);
    assert!(a.write_options);
    assert!(!a.quiet);
    assert_eq!(a.drain_mode, DrainMode::TcDrain);
    assert_eq!(a.drain_margin_ms, 0);
    assert_eq!(a.command, None);
    assert!(a.positional.is_empty());
}

#[test]
fn every_option_is_heard() {
    let a = args(
        "-q --port /dev/x --baud 19200 --handshake-baud +1200 --drain-mode wire \
         --drain-margin -7 --parity even --wait 5 --blocks 255 --skip-options write a.hex b.hex",
    );
    assert_eq!(a.port.as_deref(), Some("/dev/x"));
    assert_eq!((a.transfer_baud, a.handshake_baud), (19200, 1200));
    assert!(a.parity_even);
    assert_eq!(a.wait_s, 5);
    assert_eq!(a.blocks, Some(255));
    assert!(!a.write_options);
    assert!(a.quiet);
    assert_eq!(a.drain_mode, DrainMode::ComputeWireTime);
    assert_eq!(a.drain_margin_ms, -7);
    assert_eq!(a.command.as_deref(), Some("write"));
    assert_eq!(a.positional, ["a.hex", "b.hex"]);
    assert_eq!(a.port().unwrap(), "/dev/x");
    let o = a.session_options();
    assert_eq!((o.handshake_baud, o.transfer_baud), (1200, 19200));
    assert_eq!((o.reply_timeout_ms, o.erase_timeout_ms), (2000, 20_000));
    let d = a.drain();
    assert_eq!((d.mode, d.margin_ms), (DrainMode::ComputeWireTime, -7));
    // The last word counts.
    assert!(args("--skip-options --keep-options").write_options);
    assert_eq!(args("-p /dev/y").port.as_deref(), Some("/dev/y"));
    assert_eq!(args("--port -h").port.as_deref(), Some("-h"));
}

#[test]
fn help_is_given_when_asked_for() {
    assert!(matches!(parse_args(&words("-h")), Ok(Parsed::Help)));
    assert!(matches!(parse_args(&words("write --help --bogus")), Ok(Parsed::Help)));
    assert_eq!(refused("--bogus --help"), "unknown option \"--bogus\"");
}

#[test]
fn each_wrong_argument_has_its_message() {
    assert_eq!(refused("--port"), "--port needs a value");
    assert_eq!(refused("-p"), "--port needs a value");
    assert_eq!(refused("--wait"), "--wait needs a value");
    assert_eq!(refused("--baud 4294967296"), "--baud: not a number");
    assert_eq!(refused("--handshake-baud x"), "--handshake-baud: not a number");
    assert_eq!(
        refused("--drain-mode maybe"),
        "--drain-mode: expected tcdrain|wire, got \"maybe\""
    );
    assert_eq!(
        refused("--drain-margin 1.5"),
        "--drain-margin: not an integer (ms, may be negative)"
    );
    assert_eq!(refused("--parity odd"), "--parity: expected none|even, got \"odd\"");
    assert_eq!(refused("--wait -1"), "--wait: not a number");
    assert_eq!(refused("--blocks 256"), "--blocks: not a byte");
    assert_eq!(refused("-x"), "unknown option \"-x\"");
}

#[test]
fn commands_are_told_apart() {
    assert!(matches!(args("ports").command(), Ok(Command::Ports)));
    assert!(matches!(args("identify").command(), Ok(Command::Identify)));
    assert!(matches!(args("info").command(), Ok(Command::Identify)));
    assert!(matches!(args("erase").command(), Ok(Command::Erase { blocks: None })));
    assert!(matches!(
        args("erase --blocks 4").command(),
        Ok(Command::Erase { blocks: Some(4) })
    ));
    for verb in ["write", "flash"] {
        match args(&format!("{verb} a.hex --skip-options")).command().unwrap() {
            Command::Write { path, write_options } => {
                assert_eq!(path, "a.hex");
                assert!(!write_options);
            }
            other => panic!("{other:?}"),
        }
        assert_eq!(args(verb).command().unwrap_err(), "`write` needs a .hex file");
    }
    assert!(matches!(args("explain a.hex").command(), Ok(Command::Explain { path }) if path == "a.hex"));
    assert_eq!(args("explain").command().unwrap_err(), "`explain` needs a .hex file");
    assert_eq!(args("-q").command().unwrap_err(), "no command; try --help");
    assert_eq!(
        args("bake \"it\"").command().unwrap_err(),
        "unknown command \"bake\"; try --help"
    );
    assert_eq!(args("erase").port().unwrap_err(), "--port is required (try `stcbsl ports`)");
}

#[test]
fn an_image_is_described() {
    let img = parse(":01000000AA55\n:0100050055A5\n:00000001FF\n").unwrap();
    assert_eq!(
        describe_image("a.hex", &img),
        [
            "image: a.hex — 6 bytes",
            "  note: 4 bytes are gaps in the hex, filled with 0x00",
        ]
    );
    let img = parse(":0100050055A5\n").unwrap();
    assert_eq!(
        describe_image("b.hex", &img),
        [
            "image: b.hex — 6 bytes",
            "  note: lowest address is 0x0005, not 0 — the 8051 starts at 0x0000",
            "  note: 5 bytes are gaps in the hex, filled with 0x00",
        ]
    );
}

#[test]
fn the_block_plan_is_explained() {
    let lines = explain(&vec![0x01; 130]);
    assert_eq!(lines[0], "erase: 2 blocks x 256 B = 512 B  (rule: NN = 2 x ceil(size/512))");
    assert_eq!(lines[1], "write: 4 blocks x 128 B");
    assert_eq!(lines[2], "  0x0000  ack 0x80");
    // Two bytes of image and 126 of padding: 2 + 126 * 255 = 0x7d84.
    assert_eq!(lines[3], "  0x0080  ack 0x84");
    assert_eq!(lines[4], "  0x0100  ack 0x80   (padding)");
    assert_eq!(lines[5], "  0x0180  ack 0x80   (padding)");
    assert_eq!(lines[6], "");
    assert!(lines[7].ends_with("here: this tool never invents an option byte."));
    assert_eq!(lines.len(), 8);
}

#[test]
fn a_target_is_reported() {
    let mut p = Vec::new();
    for _ in 0..8 {
        p.extend([0x0A, 0x6B]);
    }
    p.extend([0x66, 0x43, 0xFD, 0xF0, 0x02]);
    p.resize(52, 0);
    let known = Stc89.parse_status(&Frame::mcu(0, p.clone()), 2400).unwrap();
    let mhz = format!("{:.3}", known.measured_hz as f64 / 1e6);
    assert_eq!(
        report_target(&known, 2400, &mhz),
        [
            "target:",
            "  model         STC89C52RC/LE52RC",
            "  chip id       f0 02",
            "  BSL version   6.6C",
            "  code flash    8 KB",
            "  EEPROM flash  6 KB",
            "  clock         10.973 MHz  (MEASURED by the BSL this handshake, word 0x0A6B at 2400 baud — not a stored constant, expect it to move run to run)",
            "  option byte   fd  (read only — the bit map is not known, so stcbsl only ever echoes it back)",
        ]
    );
    p[20] = 0x03;
    let unknown = Stc89.parse_status(&Frame::mcu(0, p), 2400).unwrap();
    let lines = report_target(&unknown, 2400, "1.000");
    assert_eq!(lines[1], "  model         unknown (chip id not in our table)");
    assert_eq!(lines.len(), 6);
}

#[test]
fn a_session_is_announced_and_closed() {
    assert_eq!(
        announce_wait(30, 2400, "/dev/x"),
        [
            "waiting up to 30 s for the bootloader at 2400 baud on /dev/x",
            "  >>> POWER-CYCLE THE BOARD NOW (off, then on) <<<",
        ]
    );
    assert_eq!(describe_plan(13), "plan: 13 frames");
    assert_eq!(describe_done(&Job::Identify), "done — chip released to its application");
    assert_eq!(describe_done(&Job::Erase { blocks: None }), "done — code flash erased");
    assert!(describe_done(&Job::Flash { image: vec![1], write_options: true })
        .starts_with("done — image programmed and the chip released to it.\nThere is no read-back"));
}

#[test]
fn a_blocking_port_has_a_hint() {
    assert_eq!(describe_port("/dev/ttyUSB0"), "/dev/ttyUSB0");
    assert_eq!(
        describe_port("/dev/tty.usbserial-1"),
        "/dev/tty.usbserial-1   (prefer the /dev/cu.* twin)"
    );
}

#[test]
fn reports_become_lines() {
    let mut log = CliLog::new(false);
    let step = |n: usize| Report::Step { label: String::from("probe"), bytes: vec![0xAB; n] };
    assert_eq!(log.line(&step(2)).unwrap(), "-> probe\n   ab ab");
    assert_eq!(
        log.line(&step(25)).unwrap(),
        "-> probe\n   ab ab ab ab ab ab ab ab ab ab ab ab ab ab ab ab … (25 bytes)"
    );
    assert_eq!(log.line(&step(24)).unwrap().len(), "-> probe\n   ".len() + 24 * 3 - 1);
    assert_eq!(
        log.line(&Report::Reply(Frame::mcu(0x8D, vec![1, 2]))).unwrap(),
        "<- cmd 0x8d, 2 payload bytes"
    );
    assert_eq!(log.line(&Report::Note(String::from("so"))).unwrap(), "   so");
    log.line(&Report::Discarded(vec![1, 2, 3]));
    assert_eq!(
        log.line(&Report::Discarded(vec![4])).unwrap(),
        "   discarded 1 non-protocol byte(s) [4 total] — normal if the chip is still running an app that prints"
    );
    let mut quiet = CliLog::new(true);
    assert_eq!(quiet.line(&step(2)), None);
    assert_eq!(quiet.line(&Report::Discarded(vec![1, 2, 3])), None);
    assert_eq!(quiet.noise, 3);
}

#[test]
fn a_probe_counts_and_reads() {
    let mut p = Probe::new();
    p.heard(b"xx hel");
    assert!(!p.legible());
    p.heard(b"lo there");
    assert!(p.legible());
    assert_eq!(p.describe("phase 2", 4), "phase 2: 14 bytes in 4s, legible=true");
    // A sample of 40 bytes is enough: what comes later only counts.
    let mut p = Probe::new();
    p.heard(&[0; 100]);
    p.heard(b"hello");
    assert_eq!(p.count(), 105);
    assert_eq!(p.describe("phase 1", 3), "phase 1: 105 bytes in 3s, legible=false");
}
