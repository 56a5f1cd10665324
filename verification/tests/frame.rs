use stcbsl::frame::{checksum, hex, unhex, Dir, Frame, FrameError, Receiver};

/// The shortest frame there is.
#[test]
fn worked_example_from_spec() {
    let f = Frame::host(0x82, vec![]);
    assert_eq!(f.len_field(), 6);
    assert_eq!(f.encode(), unhex("46 b9 6a 00 06 82 f2 16").unwrap());
    assert_eq!(checksum(&[0x6A, 0x00, 0x06, 0x82]), 0xF2);
}

/// Request and echo differ in checksum by exactly 2.
#[test]
fn echo_checksum_differs_by_two() {
    for (cmd, payload) in [
        (0x8Fu8, "ff fd 00 06 a0 81"),
        (0x8E, "ff fd 00 06 a0"),
        (0x8D, "fd ff ff ff"),
    ] {
        let req = Frame::host(cmd, unhex(payload).unwrap());
        let rep = Frame::mcu(cmd, unhex(payload).unwrap());
        let (a, b) = (req.encode(), rep.encode());
        let (ca, cb) = (a[a.len() - 2], b[b.len() - 2]);
        assert_eq!(ca.wrapping_sub(cb), 2, "cmd 0x{cmd:02x}");
        assert!(rep.is_echo_of(&req));
    }
}

#[test]
fn roundtrip() {
    let f = Frame::host(0x00, vec![0xAA; 134]);
    assert_eq!(f.wire_len(), 142);
    assert_eq!(Frame::decode(&f.encode()).unwrap(), f);
}

#[test]
fn receiver_discards_noise_and_finds_the_frame() {
    let good = Frame::mcu(0x80, vec![0xEE]).encode();
    let mut rx = Receiver::new();
    rx.feed(&unhex("a0 b3 e1 25 fc 4d 54 46 00 b9").unwrap());
    assert!(rx.next_frame().is_none());
    rx.feed(&good);
    let f = rx.next_frame().unwrap().unwrap();
    assert_eq!(f.cmd, 0x80);
    assert_eq!(rx.take_discarded().len(), 10);
}

#[test]
fn receiver_rehunts_after_a_bad_checksum() {
    let mut bad = Frame::mcu(0x80, vec![0xEE]).encode();
    let n = bad.len();
    bad[n - 2] ^= 0xFF;
    let good = Frame::mcu(0x80, vec![0x3C]).encode();
    let mut rx = Receiver::new();
    rx.feed(&bad);
    rx.feed(&good);
    assert!(matches!(rx.next_frame(), Some(Err(FrameError::BadChecksum { .. }))));
    let f = rx.next_frame().unwrap().unwrap();
    assert_eq!(f.payload, vec![0x3C]);
}

/// There is no escaping: a payload that holds the magic survives, and the end
/// of the frame is found from its length rather than from 0x16.
#[test]
fn payload_may_contain_magic_and_terminator() {
    let f = Frame::host(0x00, vec![0x46, 0xB9, 0x16, 0x16, 0x46, 0xB9]);
    let mut rx = Receiver::new();
    rx.feed(&f.encode());
    assert_eq!(rx.next_frame().unwrap().unwrap(), f);
    assert_eq!(rx.take_discarded().len(), 0);
}

#[test]
fn directions_have_bytes() {
    assert_eq!(Dir::HostToMcu.byte(), 0x6A);
    assert_eq!(Dir::McuToHost.byte(), 0x68);
    assert_eq!(Dir::from_byte(0x6A), Some(Dir::HostToMcu));
    assert_eq!(Dir::from_byte(0x68), Some(Dir::McuToHost));
    assert_eq!(Dir::from_byte(0x69), None);
}

fn refused(bytes: &str) -> FrameError {
    Frame::decode(&unhex(bytes).unwrap()).unwrap_err()
}

#[test]
fn each_way_to_be_no_frame_has_its_error() {
    assert_eq!(refused("46 b9 6a 00 06 82 f2"), FrameError::TooShort(7));
    assert_eq!(refused("47 b9 6a 00 06 82 f2 16"), FrameError::BadMagic([0x47, 0xB9]));
    assert_eq!(
        refused("46 b9 6a 00 07 82 f2 16"),
        FrameError::BadLength { declared: 7, actual: 6 }
    );
    assert_eq!(refused("46 b9 6a 00 06 82 f2 17"), FrameError::BadTerminator(0x17));
    assert_eq!(
        refused("46 b9 6a 00 06 82 f3 16"),
        FrameError::BadChecksum { computed: 0xF2, got: 0xF3 }
    );
    assert_eq!(refused("46 b9 6b 00 06 82 f3 16"), FrameError::BadDir(0x6B));
    assert_eq!(FrameError::TooShort(7).message(), "frame too short (7 bytes)");
    assert_eq!(FrameError::BadMagic([0x47, 0xB9]).message(), "bad magic 47 b9");
    assert_eq!(
        FrameError::BadChecksum { computed: 0xF2, got: 0x03 }.message(),
        "bad checksum: computed 0xf2, got 0x03"
    );
    assert_eq!(FrameError::BadTerminator(0x17).message(), "bad terminator 0x17 (want 0x16)");
    assert_eq!(FrameError::BadDir(0x6B).message(), "unknown direction byte 0x6b");
    assert_eq!(FrameError::ImplausibleLength(9999).message(), "implausible LEN 9999");
}

/// No byte of a frame can change unnoticed.
#[test]
fn one_changed_byte_is_caught() {
    let good = Frame::mcu(0x80, vec![0x01, 0x02, 0x03]).encode();
    for i in 0..good.len() {
        for flip in [0x01u8, 0x80, 0xFF] {
            let mut bad = good.clone();
            bad[i] ^= flip;
            assert!(Frame::decode(&bad).is_err(), "byte {i}");
        }
    }
}

#[test]
fn hex_and_back() {
    let bytes: Vec<u8> = (0..=255).collect();
    assert_eq!(unhex(&hex(&bytes)).unwrap(), bytes);
    assert_eq!(hex(&[0x00, 0x0A, 0xFF]), "00 0a ff");
    assert_eq!(hex(&[]), "");
    assert_eq!(unhex("  0A\tff\n").unwrap(), vec![0x0A, 0xFF]);
    assert_eq!(unhex("+5").unwrap(), vec![5]);
    assert!(unhex("100").is_err());
    assert!(unhex("zz").is_err());
    assert!(unhex("0x").is_err());
}

/// A frame that arrives in any two pieces comes out the same.
#[test]
fn a_cut_stream_gives_the_same_frames() {
    let mut stream = vec![0x00, 0x46, 0xB9];
    stream.extend(Frame::mcu(0x80, vec![0x46, 0xB9]).encode());
    stream.extend([0x46, 0x46]);
    stream.extend(Frame::mcu(0x84, vec![1, 2, 3]).encode());
    let mut whole = Receiver::new();
    whole.feed(&stream);
    let mut want = Vec::new();
    while let Some(f) = whole.next_frame() {
        want.push(f);
    }
    let thrown = whole.take_discarded();
    for cut in 0..=stream.len() {
        let mut rx = Receiver::new();
        let mut got = Vec::new();
        for part in [&stream[..cut], &stream[cut..]] {
            rx.feed(part);
            while let Some(f) = rx.next_frame() {
                got.push(f);
            }
        }
        assert_eq!(got, want, "cut at {cut}");
        assert_eq!(rx.take_discarded(), thrown, "cut at {cut}");
        assert_eq!(rx.pending(), whole.pending(), "cut at {cut}");
    }
}

#[test]
fn an_implausible_length_is_noise() {
    let mut rx = Receiver::new();
    rx.feed(&unhex("46 b9 68 ff ff").unwrap());
    rx.feed(&Frame::mcu(0x80, vec![]).encode());
    assert_eq!(rx.next_frame().unwrap().unwrap(), Frame::mcu(0x80, vec![]));
    assert_eq!(rx.discarded_len(), 5);
    assert_eq!(rx.take_discarded(), unhex("46 b9 68 ff ff").unwrap());
    assert_eq!(rx.discarded_len(), 0);
}

#[test]
fn half_a_frame_is_held() {
    let bytes = Frame::mcu(0x80, vec![0xEE]).encode();
    let mut rx = Receiver::new();
    rx.feed(&bytes[..6]);
    assert!(rx.next_frame().is_none());
    assert_eq!(rx.pending(), 6);
    rx.feed(&bytes[6..]);
    assert_eq!(rx.next_frame().unwrap().unwrap(), Frame::mcu(0x80, vec![0xEE]));
    assert_eq!(rx.pending(), 0);
}
