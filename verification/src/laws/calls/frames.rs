//! Calls on frames and on the receiver.

use vstd::prelude::*;

use crate::frame;
use crate::frame::{Dir, Frame, FrameError, Receiver};
use crate::laws;
use crate::text;

verus! {

// --------------------------------------------------------------------- frames

/// What is encoded has everything in its place.
pub proof fn law_encode(f: &Frame, out: Vec<u8>)
    requires
        call_ensures(Frame::encode, (f,), out),
        f.payload@.len() <= 0xFFF9,
    ensures
        ({
            let e = out@;
            let n = e.len() as int;
            &&& n == f.payload@.len() + 8
            &&& e[0] == 0x46 && e[1] == 0xB9
            &&& e[2] == (if f.dir == Dir::HostToMcu {
                0x6A
            } else {
                0x68int
            })
            &&& e[3] * 256 + e[4] == n - 2
            &&& e[5] == f.cmd
            &&& forall|i: int| 0 <= i < f.payload@.len() ==> e[6 + i] == #[trigger] f.payload@[i]
            &&& e[n - 2] == laws::wire::total(e.subrange(2, n - 2)) % 256
            &&& e[n - 1] == 0x16
        }),
{
    laws::wire::law_where_everything_stands_in_a_frame(f@);
}

/// What was encoded is decoded to the frame it was.
pub proof fn law_decode_after_encode(
    f: &Frame,
    out: Vec<u8>,
    bytes: &[u8],
    r: Result<Frame, FrameError>,
)
    requires
        call_ensures(Frame::encode, (f,), out),
        bytes@ == out@,
        call_ensures(Frame::decode, (bytes,), r),
    ensures
        r matches Ok(g) && g.dir == f.dir && g.cmd == f.cmd && g.payload@ == f.payload@,
{
    laws::frame::law_decode_undoes_encode(f@);
}

/// Bytes that are decoded add up, and are the ones that are encoded again.
pub proof fn law_encode_after_decode(
    bytes: &[u8],
    r: Result<Frame, FrameError>,
    f: &Frame,
    out: Vec<u8>,
)
    requires
        call_ensures(Frame::decode, (bytes,), r),
        r == Ok::<Frame, FrameError>(*f),
        call_ensures(Frame::encode, (f,), out),
    ensures
        out@ == bytes@,
        bytes@.len() >= 8,
        bytes@[bytes@.len() - 2] == laws::wire::total(bytes@.subrange(2, bytes@.len() - 2)) % 256,
{
    assert(frame::ok_view(r) == Ok::<frame::FrameView, FrameError>(f@));
    laws::frame::law_encode_undoes_decode(bytes@, f@);
    laws::wire::lemma_total(bytes@.subrange(2, bytes@.len() - 2));
}

/// A check byte is the low byte of the sum.
pub proof fn law_checksum(body: &[u8], c: u8)
    requires
        call_ensures(frame::checksum, (body,), c),
    ensures
        c == laws::wire::total(body@) % 256,
{
    laws::wire::lemma_total(body@);
}

/// An echo is the MCU's frame with the request's command and payload.
pub proof fn law_is_echo_of(rep: &Frame, req: &Frame, r: bool)
    requires
        call_ensures(Frame::is_echo_of, (rep, req), r),
    ensures
        r <==> rep.dir == Dir::McuToHost && req.dir == Dir::HostToMcu && rep.cmd == req.cmd
            && rep.payload@ == req.payload@,
{
}

/// The two directions have a byte each, and no other byte is one.
pub proof fn law_directions(d: Dir, b: u8, c: u8, back: Option<Dir>)
    requires
        call_ensures(Dir::byte, (d,), b),
        call_ensures(Dir::from_byte, (c,), back),
    ensures
        d == Dir::HostToMcu ==> b == 0x6A,
        d == Dir::McuToHost ==> b == 0x68,
        c == b ==> back == Some(d),
        c != 0x6A && c != 0x68 ==> back is None,
{
}

/// A frame is as long as it is said to be, and its length field is two less.
pub proof fn law_lengths(f: &Frame, n: usize, len: u16, out: Vec<u8>)
    requires
        call_ensures(Frame::wire_len, (f,), n),
        call_ensures(Frame::len_field, (f,), len),
        call_ensures(Frame::encode, (f,), out),
        f.payload@.len() <= 0xFFF9,
    ensures
        n == out@.len() == f.payload@.len() + 8,
        len == n - 2,
{
    laws::wire::law_where_everything_stands_in_a_frame(f@);
}

/// A frame has the command and the payload that it is made with.
pub proof fn law_new_frames(cmd: u8, payload: Vec<u8>, a: Frame, b: Frame)
    requires
        call_ensures(Frame::host, (cmd, payload), a),
        call_ensures(Frame::mcu, (cmd, payload), b),
    ensures
        a.dir == Dir::HostToMcu && a.cmd == cmd && a.payload@ == payload@,
        b.dir == Dir::McuToHost && b.cmd == cmd && b.payload@ == payload@,
{
}

/// What was dumped is read back.
pub proof fn law_unhex_after_hex(bytes: &[u8], s: String, t: &str, r: Result<Vec<u8>, String>)
    requires
        call_ensures(frame::hex, (bytes,), s),
        t@ == s@,
        call_ensures(frame::unhex, (t,), r),
    ensures
        r matches Ok(v) && v@ == bytes@,
{
    laws::hex::law_unhex_undoes_hex(bytes@);
}

/// A text is read word by word, each as its own byte.
pub proof fn law_unhex(s: &str, r: Result<Vec<u8>, String>)
    requires
        call_ensures(frame::unhex, (s,), r),
    ensures
        ({
            let ws = text::words(s@);
            &&& r is Ok <==> forall|i: int|
                0 <= i < ws.len() ==> laws::hex::is_a_byte(#[trigger] ws[i])
            &&& r matches Ok(v) ==> v@.len() == ws.len() && forall|i: int|
                0 <= i < ws.len() ==> v@[i] == laws::numbers::reads_as(
                    laws::numbers::without_plus(#[trigger] ws[i]),
                    16,
                )
        }),
{
    laws::hex::law_each_word_is_a_byte(text::words(s@));
}

/// A frame that was encoded is received, behind any noise without a preamble:
/// the noise is thrown away and told of, what follows is kept.
pub proof fn law_a_frame_is_received(
    rx: &mut Receiver,
    bytes: &[u8],
    fed: &mut Receiver,
    r: Option<Result<Frame, FrameError>>,
    noise: Seq<u8>,
    f: &Frame,
    out: Vec<u8>,
    tail: Seq<u8>,
)
    requires
        call_ensures(Frame::encode, (f,), out),
        f.payload@.len() <= 1018,
        laws::receiver::no_preamble(noise),
        old(rx)@.buf + bytes@ == noise + out@ + tail,
        call_ensures(Receiver::feed, (rx, bytes), ()),
        *old(fed) == *final(rx),
        call_ensures(Receiver::next_frame, (fed,), r),
    ensures
        r matches Some(Ok(g)) && g.dir == f.dir && g.cmd == f.cmd && g.payload@ == f.payload@,
        final(fed)@.buf == tail,
        final(fed)@.discarded == old(rx)@.discarded + noise,
{
    laws::receiver::law_a_frame_behind_noise_is_found(noise, f@, tail);
}

/// What has been thrown away is handed out once, and counted until then.
pub proof fn law_what_was_thrown_away(
    rx: &mut Receiver,
    before: usize,
    d: Vec<u8>,
    after: usize,
    pending: usize,
)
    requires
        call_ensures(Receiver::discarded_len, (&*old(rx),), before),
        call_ensures(Receiver::take_discarded, (rx,), d),
        call_ensures(Receiver::discarded_len, (&*final(rx),), after),
        call_ensures(Receiver::pending, (&*final(rx),), pending),
    ensures
        d@.len() == before,
        d@ == old(rx)@.discarded,
        after == 0,
        pending == old(rx)@.buf.len(),
{
}

} // verus!
