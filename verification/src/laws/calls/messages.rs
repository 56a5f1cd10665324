//! Calls that put an error into words: each says what was wanted and what
//! there was, in that order, and names the place.

use vstd::prelude::*;

use crate::driver::Error;
use crate::frame;
use crate::frame::{Dir, Frame, FrameError};
use crate::ihex::HexError;
use crate::laws;
use crate::protocol::ProtocolError;
use crate::session::{Phase, SessionError};
use crate::text;

verus! {

/// A number in sixteens, in so many digits at least.
pub open spec fn hex_digits(n: int, width: nat) -> Seq<char> {
    text::hex_lower(n as nat, width)
}

/// What is said of a bad file names the line, and then the fault.
pub proof fn law_hex_messages(line: usize, why: String, got: u8, computed: u8, addr: u32, s: String)
    ensures
        ({
            let at = "line "@ + text::decimal(line as nat) + ": "@;
            &&& call_ensures(HexError::message, (&HexError::BadRecord { line, why },), s) ==> s@
                == at + why@
            &&& call_ensures(
                HexError::message,
                (&HexError::BadChecksum { line, computed, got },),
                s,
            ) ==> s@ == at + "record checksum is 0x"@ + hex_digits(got as int, 2)
                + ", computed 0x"@ + hex_digits(computed as int, 2)
            &&& call_ensures(
                HexError::message,
                (&HexError::AddressTooHigh { line, addr },),
                s,
            ) ==> s@ == at + "address 0x"@ + hex_digits(addr as int, 8)
                + " is above 64 KB — unsupported, the protocol's behaviour there is untested"@
        }),
{
    reveal_strlit(": ");
    reveal_strlit(": record checksum is 0x");
    reveal_strlit("record checksum is 0x");
    reveal_strlit(": address 0x");
    reveal_strlit("address 0x");
    let front = "line "@ + text::decimal(line as nat);
    assert(": "@ + "record checksum is 0x"@ =~= ": record checksum is 0x"@);
    assert(": "@ + "address 0x"@ =~= ": address 0x"@);
    let g = hex_digits(got as int, 2);
    let c = hex_digits(computed as int, 2);
    assert(front + ": record checksum is 0x"@ + g + ", computed 0x"@ + c =~= front + ": "@
        + "record checksum is 0x"@ + g + ", computed 0x"@ + c);
    let a = hex_digits(addr as int, 8);
    let end = " is above 64 KB — unsupported, the protocol's behaviour there is untested"@;
    assert(front + ": address 0x"@ + a + end =~= front + ": "@ + "address 0x"@ + a + end);
}

/// What is said of a refused reply names the step, and both what was asked for
/// and what came.
pub proof fn law_session_messages(
    step: String,
    want: u8,
    got: u8,
    dir: Dir,
    f: Frame,
    asked: Vec<u8>,
    came: Vec<u8>,
    s: String,
)
    ensures
        call_ensures(
            SessionError::message,
            (&SessionError::WrongCommand { step, want, got },),
            s,
        ) ==> s@ == step@ + ": expected reply command 0x"@ + hex_digits(want as int, 2)
            + ", got 0x"@ + hex_digits(got as int, 2),
        call_ensures(
            SessionError::message,
            (&SessionError::WrongDirection { step, got: dir },),
            s,
        ) ==> s@ == step@ + ": reply carries direction "@ + (if dir == Dir::HostToMcu {
            "HostToMcu"@
        } else {
            "McuToHost"@
        }),
        call_ensures(SessionError::message, (&SessionError::NotAnEcho { step, got: f },), s)
            ==> s@ == step@ + ": reply is not an echo of the request ("@ + frame::frame_text(f@)
            + ")"@,
        call_ensures(
            SessionError::message,
            (&SessionError::WrongPayload { step, want: asked, got: came },),
            s,
        ) ==> s@ == step@ + ": expected payload ["@ + frame::hex_text(asked@) + "], got ["@
            + frame::hex_text(came@) + "]"@,
{
}

/// What is said of a reply or a sum of the wrong size or value.
pub proof fn law_block_messages(
    step: String,
    want: usize,
    got: usize,
    addr: u32,
    sum: u8,
    ack: u8,
    s: String,
)
    ensures
        call_ensures(
            SessionError::message,
            (&SessionError::WrongPayloadLen { step, want, got },),
            s,
        ) ==> s@ == step@ + ": expected "@ + text::decimal(want as nat) + " payload bytes, got "@
            + text::decimal(got as nat),
        call_ensures(
            SessionError::message,
            (&SessionError::BlockAckMismatch { addr, want: sum, got: ack },),
            s,
        ) ==> s@ == "block at 0x"@ + hex_digits(addr as int, 4) + ": MCU checksummed 0x"@
            + hex_digits(ack as int, 2) + ", we sent 0x"@ + hex_digits(sum as int, 2)
            + " — flash is now in an INDETERMINATE state; power-cycle and reflash"@,
{
}

/// What is said of a run that failed: which step had how long, how long was
/// waited and what noise there was, and what is wrong with the port.
pub proof fn law_run_messages(
    label: String,
    ms: u64,
    noise: usize,
    why: String,
    p: ProtocolError,
    e: SessionError,
    f: FrameError,
    s: String,
    inner: String,
)
    ensures
        call_ensures(Error::message, (&Error::Timeout { label, ms },), s) ==> s@ == label@
            + ": no reply within "@ + text::decimal(ms as nat) + " ms"@,
        call_ensures(
            Error::message,
            (&Error::NoBootloader { waited_ms: ms, noise_bytes: noise },),
            s,
        ) ==> s@ == "no bootloader after "@ + text::decimal(ms as nat) + " ms ("@ + text::decimal(
            noise as nat,
        )
            + " bytes of non-protocol noise seen). The BSL only runs after a COLD power-on and only listens for a few hundred milliseconds: switch the board off, start this command, then switch it on. A reset button will not do it."@,
        call_ensures(Error::message, (&Error::Io(why),), s) ==> s@ == "I/O: "@ + why@,
        call_ensures(Error::message, (&Error::Protocol(p),), s) && call_ensures(
            ProtocolError::message,
            (&p,),
            inner,
        ) ==> s@ == inner@,
        call_ensures(Error::message, (&Error::Session(e),), s) && call_ensures(
            SessionError::message,
            (&e,),
            inner,
        ) ==> s@ == inner@,
        call_ensures(Error::message, (&Error::Frame(f),), s) && call_ensures(
            FrameError::message,
            (&f,),
            inner,
        ) ==> s@ == inner@,
{
}

/// A flash that is in doubt is told of behind what went wrong.
pub proof fn law_doubt_is_told(e: Error, s: String, inner: String)
    requires
        call_ensures(Error::message, (&Error::IndeterminateFlash(Box::new(e)),), s),
        call_ensures(Error::message, (&e,), inner),
    ensures
        s@ == inner@
            + "\n  flash is in an INDETERMINATE state — part of the image was programmed. There is no read-back on this part, so the only safe move is to power-cycle and flash again."@,
{
}

/// What is said of a packet or a plan.
pub proof fn law_protocol_messages(e: ProtocolError, s: String)
    requires
        call_ensures(ProtocolError::message, (&e,), s),
    ensures
        match e {
            ProtocolError::NotAStatusFrame { cmd } => s@
                == "expected the status packet, got command 0x"@ + hex_digits(cmd as int, 2),
            ProtocolError::ShortStatus { got, want } => s@ == "status payload is "@
                + text::decimal(got as nat) + " bytes, expected "@ + text::decimal(want as nat),
            ProtocolError::InconsistentFrequency(w) => s@
                == "the eight frequency words disagree (["@ + text::comma_list(w@)
                + "]) — the handshake measurement is unreliable"@,
            ProtocolError::ImplausibleFrequency(hz) => s@ == "measured frequency "@
                + text::decimal(hz as nat) + " Hz is out of range for this part"@,
            ProtocolError::UnreachableBaud { baud, reload } => s@ == "transfer baud "@
                + text::decimal(baud as nat) + " needs timer reload "@ + text::signed_decimal(
                reload as int,
            ) + ", which is not an 8-bit value"@,
            ProtocolError::ImageTooLarge { image, capacity } => s@ == "image is "@ + text::decimal(
                image as nat,
            ) + " bytes; this part has "@ + text::decimal(capacity as nat)
                + " bytes of code flash"@,
            ProtocolError::EmptyImage => s@ == "image contains no data"@,
            ProtocolError::UnknownChipSize { chip_id } => s@ == "chip id "@ + frame::hex_text(
                chip_id@,
            )
                + " is not in our (single-capture) table, so the flash size is unknown — pass an explicit block count"@,
            ProtocolError::EraseTooLarge { blocks } => s@ == "erase block count "@ + text::decimal(
                blocks as nat,
            ) + " does not fit in one byte"@,
        },
{
}

/// A list of words has each in decimal, with a comma and a blank between each
/// two.
pub proof fn law_a_list_has_each_word(w: Seq<u16>, x: u16)
    ensures
        text::comma_list(seq![x]) == text::decimal(x as nat),
        w.len() > 0 ==> text::comma_list(w.push(x)) == text::comma_list(w) + seq![',', ' ']
            + text::decimal(x as nat),
{
    reveal_strlit(", ");
    assert(", "@ =~= seq![',', ' ']);
    assert(w.push(x).drop_last() =~= w);
}

/// What is said of a frame and of what is wrong with one.
pub proof fn law_frame_messages(e: FrameError, s: String, f: &Frame, d: String)
    requires
        call_ensures(FrameError::message, (&e,), s),
        call_ensures(Frame::describe, (f,), d),
    ensures
        d@ == "Frame { "@ + (if f.dir == Dir::HostToMcu {
            "host->mcu"@
        } else {
            "mcu->host"@
        }) + " cmd=0x"@ + hex_digits(f.cmd as int, 2) + " payload="@ + frame::hex_text(f.payload@)
            + " }"@,
        match e {
            FrameError::BadLength { declared, actual } => s@ == "bad length: declared "@
                + text::decimal(declared as nat) + ", actual "@ + text::decimal(actual as nat),
            FrameError::BadChecksum { computed, got } => s@ == "bad checksum: computed 0x"@
                + hex_digits(computed as int, 2) + ", got 0x"@ + hex_digits(got as int, 2),
            FrameError::TooShort(n) => s@ == "frame too short ("@ + text::decimal(n as nat)
                + " bytes)"@,
            FrameError::BadTerminator(t) => s@ == "bad terminator 0x"@ + hex_digits(t as int, 2)
                + " (want 0x16)"@,
            FrameError::BadDir(b) => s@ == "unknown direction byte 0x"@ + hex_digits(b as int, 2),
            FrameError::ImplausibleLength(l) => s@ == "implausible LEN "@ + text::decimal(l as nat),
            FrameError::BadMagic(m) => s@ == "bad magic "@ + hex_digits(m@[0] as int, 2) + " "@
                + hex_digits(m@[1] as int, 2),
        },
{
    laws::wire::law_what_is_said_of_a_frame(f@, e);
}

/// Each phase has a name of its own.
pub proof fn law_phase_names(p: Phase, s: &'static str)
    requires
        call_ensures(Phase::as_str, (p,), s),
    ensures
        s@ == (match p {
            Phase::Sync => "sync"@,
            Phase::Status => "status"@,
            Phase::BaudProbe => "baud_probe"@,
            Phase::BaudCommit => "baud_commit"@,
            Phase::LinkTest => "link_test"@,
            Phase::Erase => "erase"@,
            Phase::Write => "write"@,
            Phase::Options => "options"@,
            Phase::Run => "run"@,
        }),
{
}

} // verus!
