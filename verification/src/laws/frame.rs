//! Laws of the frame codec.

use vstd::prelude::*;

use crate::frame;
use crate::frame::{Dir, FrameError, FrameView};

verus! {

/// A sequence of bytes and one more behind it: the sums.
pub(crate) proof fn lemma_byte_sum_push(s: Seq<u8>, b: u8)
    ensures
        frame::byte_sum(s.push(b)) == frame::byte_sum(s) + b,
{
    assert(s.push(b).drop_last() =~= s);
}

/// The sum over two runs is the sum of the sums.
pub(crate) proof fn lemma_byte_sum_add(a: Seq<u8>, b: Seq<u8>)
    ensures
        frame::byte_sum(a + b) == frame::byte_sum(a) + frame::byte_sum(b),
    decreases b.len(),
{
    if b.len() == 0 {
        assert(a + b =~= a);
    } else {
        lemma_byte_sum_add(a, b.drop_last());
        assert((a + b).drop_last() =~= a + b.drop_last());
    }
}

/// Changing one byte changes the sum by the difference.
pub(crate) proof fn lemma_byte_sum_update(s: Seq<u8>, i: int, b: u8)
    requires
        0 <= i < s.len(),
    ensures
        frame::byte_sum(s.update(i, b)) == frame::byte_sum(s) - s[i] + b,
{
    let left = s.take(i);
    let right = s.skip(i + 1);
    assert(s =~= left.push(s[i]) + right);
    assert(s.update(i, b) =~= left.push(b) + right);
    lemma_byte_sum_add(left.push(s[i]), right);
    lemma_byte_sum_add(left.push(b), right);
    lemma_byte_sum_push(left, s[i]);
    lemma_byte_sum_push(left, b);
}

/// The parts of an encoded frame, by position.
pub(crate) proof fn lemma_encoded_parts(f: FrameView)
    ensures
        ({
            let e = f.encoded();
            let n = e.len() as int;
            &&& n == f.payload.len() + 8
            &&& e[0] == 0x46 && e[1] == 0xB9
            &&& e[2] == frame::dir_byte(f.dir)
            &&& e[3] == frame::hi8(f.len_field()) && e[4] == frame::lo8(f.len_field())
            &&& frame::be16(e[3], e[4]) == f.len_field()
            &&& e[5] == f.cmd
            &&& e.subrange(2, n - 2) == f.body()
            &&& e.subrange(6, n - 2) == f.payload
            &&& e[n - 2] == frame::sum8(f.body())
            &&& e[n - 1] == frame::TERMINATOR
        }),
{
    let e = f.encoded();
    let n = e.len() as int;
    assert(e.subrange(2, n - 2) =~= f.body());
    assert(e.subrange(6, n - 2) =~= f.payload);
}

/// Decoding gives back the frame that was encoded, whatever its payload
/// holds.
pub proof fn law_decode_undoes_encode(f: FrameView)
    ensures
        frame::decoded(f.encoded()) == Ok::<FrameView, FrameError>(f),
{
    lemma_encoded_parts(f);
}

/// Encoding gives back the bytes that were decoded: checksum, `LEN` and
/// terminator at once.
pub proof fn law_encode_undoes_decode(b: Seq<u8>, f: FrameView)
    requires
        frame::decoded(b) == Ok::<FrameView, FrameError>(f),
    ensures
        f.encoded() == b,
{
    let n = b.len() as int;
    assert(f.body() =~= b.subrange(2, n - 2));
    assert(f.encoded() =~= b);
}

/// Two frames with the same bytes on the wire are the same frame.
pub proof fn law_encoding_is_unambiguous(f: FrameView, g: FrameView)
    requires
        f.encoded() == g.encoded(),
    ensures
        f == g,
{
    law_decode_undoes_encode(f);
    law_decode_undoes_encode(g);
}

/// What has to hold of bytes for them to decode.
proof fn lemma_what_decoding_checks(b: Seq<u8>)
    requires
        b.len() >= 8,
    ensures
        frame::decoded(b) is Ok ==> {
            let n = b.len() as int;
            &&& b[0] == 0x46 && b[1] == 0xB9
            &&& b[n - 1] == frame::TERMINATOR
            &&& b[n - 2] == frame::sum8(b.subrange(2, n - 2))
        },
{
}

/// A frame with any one byte changed is no frame: one of the checks fails.
pub proof fn law_one_changed_byte_is_caught(f: FrameView, i: int, b: u8)
    requires
        0 <= i < f.encoded().len(),
        b != f.encoded()[i],
    ensures
        frame::decoded(f.encoded().update(i, b)) is Err,
{
    lemma_encoded_parts(f);
    let e = f.encoded();
    let n = e.len() as int;
    let bad = e.update(i, b);
    lemma_what_decoding_checks(bad);
    if 2 <= i < n - 2 {
        assert(bad.subrange(2, n - 2) =~= f.body().update(i - 2, b));
        assert(f.body()[i - 2] == e.subrange(2, n - 2)[i - 2]);
        lemma_byte_sum_update(f.body(), i - 2, b);
        let sum = frame::byte_sum(f.body()) as int;
        assert((sum - e[i] + b) % 256 != sum % 256) by {
            assert(-256 < b - e[i] < 256);
        }
        assert(bad[n - 2] == e[n - 2]);
    } else {
        assert(bad.subrange(2, n - 2) =~= f.body());
    }
}

/// The bytes of an echo: those of the request, but for `DIR` and a checksum
/// that is smaller by 2.
pub open spec fn echo_bytes(req: Seq<u8>) -> Seq<u8> {
    let n = req.len();
    req.update(2, frame::DIR_MCU_TO_HOST).update(n - 2, ((req[n - 2] + 254) % 256) as u8)
}

/// An MCU frame is an echo of a host frame exactly if its bytes are those of
/// the request with `DIR` swapped and the checksum adjusted for it.
pub proof fn law_an_echo_differs_in_dir_and_checksum(rep: FrameView, req: FrameView)
    requires
        req.dir == Dir::HostToMcu,
    ensures
        rep.echoes(req) <==> rep.encoded() == echo_bytes(req.encoded()),
{
    let twin = FrameView { dir: Dir::McuToHost, ..req };
    assert(twin.encoded() == echo_bytes(req.encoded())) by {
        lemma_encoded_parts(req);
        lemma_encoded_parts(twin);
        assert(twin.body() =~= req.body().update(0, frame::DIR_MCU_TO_HOST));
        lemma_byte_sum_update(req.body(), 0, frame::DIR_MCU_TO_HOST);
        assert(twin.encoded() =~= echo_bytes(req.encoded()));
    }
    if rep.encoded() == echo_bytes(req.encoded()) {
        law_encoding_is_unambiguous(rep, twin);
    }
}

/// The checksum byte of a request is by exactly 2 above that of its echo.
pub proof fn law_echo_checksum_differs_by_two(rep: FrameView, req: FrameView)
    requires
        rep.echoes(req),
    ensures
        rep.encoded().len() == req.encoded().len(),
        req.encoded()[req.encoded().len() - 2] == (rep.encoded()[rep.encoded().len() - 2] + 2)
            % 256,
{
    law_an_echo_differs_in_dir_and_checksum(rep, req);
    lemma_encoded_parts(req);
}

} // verus!
