//! Laws of the bytes on the wire: what stands where.

use vstd::prelude::*;

use crate::frame;
use crate::frame::{Dir, FrameError, FrameView};
use crate::laws;

verus! {

/// The bytes of a run added up, from the first on.
pub open spec fn total(s: Seq<u8>) -> int
    decreases s.len(),
{
    if s.len() == 0 {
        0
    } else {
        s[0] as int + total(s.drop_first())
    }
}

pub(crate) proof fn lemma_total(s: Seq<u8>)
    ensures
        total(s) == frame::byte_sum(s),
        total(s) >= 0,
    decreases s.len(),
{
    if s.len() > 0 {
        lemma_total(s.drop_first());
        let first = seq![s[0]];
        assert(s =~= first + s.drop_first());
        laws::frame::lemma_byte_sum_add(first, s.drop_first());
        assert(first.drop_last() =~= seq![]);
        assert(frame::byte_sum(first.drop_last()) == 0);
    }
}

/// The check byte of some bytes is the low byte of their sum.
pub proof fn law_the_check_byte_is_the_low_byte_of_the_sum(s: Seq<u8>)
    ensures
        frame::sum8(s) == total(s) % 256,
{
    lemma_total(s);
}

/// Where everything stands in a frame on the wire: the preamble, the
/// direction, the length of what follows the preamble, the command, the
/// payload, the check byte over all from the direction to the payload, and the
/// terminator.
pub proof fn law_where_everything_stands_in_a_frame(f: FrameView)
    requires
        f.payload.len() <= 0xFFF9,
    ensures
        ({
            let e = f.encoded();
            let n = e.len() as int;
            &&& n == f.payload.len() + 8
            &&& e[0] == 0x46
            &&& e[1] == 0xB9
            &&& e[2] == (if f.dir == Dir::HostToMcu {
                0x6A
            } else {
                0x68int
            })
            &&& e[3] * 256 + e[4] == n - 2
            &&& e[5] == f.cmd
            &&& forall|i: int| 0 <= i < f.payload.len() ==> e[6 + i] == #[trigger] f.payload[i]
            &&& e[n - 2] == total(e.subrange(2, n - 2)) % 256
            &&& e[n - 1] == 0x16
        }),
{
    let e = f.encoded();
    let n = e.len() as int;
    laws::frame::lemma_encoded_parts(f);
    lemma_total(e.subrange(2, n - 2));
    assert forall|i: int| 0 <= i < f.payload.len() implies e[6 + i] == #[trigger] f.payload[i] by {
        assert(e.subrange(6, n - 2)[i] == e[6 + i]);
    }
}

/// What decoding says of some bytes: a frame if all the parts are right, with
/// its command and payload as they stand; else the first part that is wrong,
/// with what stands there.
pub proof fn law_what_decoding_says(b: Seq<u8>)
    requires
        b.len() <= usize::MAX,
    ensures
        ({
            let n = b.len() as int;
            let len = b[3] * 256 + b[4];
            let sum = total(b.subrange(2, n - 2)) % 256;
            let magic = b[0] == 0x46 && b[1] == 0xB9;
            let length = len == (n - 2) % 0x1_0000;
            let terminated = b[n - 1] == 0x16;
            match frame::decoded(b) {
                Err(FrameError::TooShort(k)) => n < 8 && k == n,
                Err(FrameError::BadMagic(m)) => n >= 8 && !magic && m@[0] == b[0] && m@[1] == b[1],
                Err(FrameError::BadLength { declared, actual }) => n >= 8 && magic && !length
                    && declared == len && actual == (n - 2) % 0x1_0000,
                Err(FrameError::BadTerminator(t)) => n >= 8 && magic && length && t == b[n - 1]
                    && t != 0x16,
                Err(FrameError::BadChecksum { computed, got }) => n >= 8 && magic && length
                    && terminated && computed == sum && got == b[n - 2] && computed != got,
                Err(FrameError::BadDir(d)) => n >= 8 && magic && length && terminated && sum
                    == b[n - 2] && d == b[2] && d != 0x6A && d != 0x68,
                Err(FrameError::ImplausibleLength(_)) => false,
                Ok(f) => {
                    &&& n >= 8 && magic && length && terminated && sum == b[n - 2]
                    &&& b[2] == (if f.dir == Dir::HostToMcu {
                        0x6A
                    } else {
                        0x68int
                    })
                    &&& f.cmd == b[5]
                    &&& f.payload.len() == n - 8
                    &&& forall|i: int|
                        0 <= i < f.payload.len() ==> #[trigger] f.payload[i] == b[6 + i]
                },
            }
        }),
{
    if b.len() >= 8 {
        lemma_total(b.subrange(2, b.len() - 2));
    }
}

/// A frame of up to 1026 bytes is found behind any noise without a preamble,
/// with that noise thrown away and no more.
pub proof fn law_frames_up_to_1026_bytes_are_found(noise: Seq<u8>, f: FrameView, tail: Seq<u8>)
    requires
        laws::receiver::no_preamble(noise),
        f.payload.len() <= 1018,
    ensures
        ({
            let p = frame::pull(noise + f.encoded() + tail);
            &&& p.out == Some(Ok::<FrameView, FrameError>(f))
            &&& p.dropped == noise.len()
            &&& p.taken == f.payload.len() + 8
        }),
{
    laws::receiver::law_a_frame_behind_noise_is_found(noise, f, tail);
    laws::frame::lemma_encoded_parts(f);
}

/// Behind a preamble, a length that no frame can have is the end of it: the
/// preamble's first byte is noise.
pub proof fn law_a_length_that_cannot_be_is_noise(b: Seq<u8>)
    requires
        b.len() >= 5,
        b[0] == 0x46,
        b[1] == 0xB9,
        b[3] * 256 + b[4] < 6 || b[3] * 256 + b[4] > 1024,
    ensures
        frame::pull(b).dropped >= 1,
        frame::noise_len(b) >= 1,
{
}

/// A frame that is not all there yet is held, whole: nothing is handed out and
/// nothing of it thrown away.
pub proof fn law_part_of_a_frame_is_held(f: FrameView, k: int)
    requires
        f.payload.len() <= 1018,
        0 <= k < f.encoded().len(),
    ensures
        frame::pull(f.encoded().take(k)).out is None,
        frame::pull(f.encoded().take(k)).dropped == 0,
        frame::pull(f.encoded().take(k)).taken == 0,
{
    laws::frame::lemma_encoded_parts(f);
    let e = f.encoded();
    let b = e.take(k);
    assert(k > 0 ==> b[0] == 0x46);
    assert(k > 1 ==> b[1] == 0xB9);
    assert(k > 4 ==> b[3] == e[3] && b[4] == e[4]);
    assert(frame::verdict(b) is NeedMore);
    assert(b.skip(0) =~= b);
}

/// Nothing that stands from `i` on rules out that a frame starts there: the
/// preamble, and a length from 6 to 1024 behind it, as far as they are there.
pub open spec fn could_start(b: Seq<u8>, i: int) -> bool {
    &&& b[i] == 0x46
    &&& i + 1 < b.len() ==> b[i + 1] == 0xB9
    &&& i + 4 < b.len() ==> 6 <= b[i + 3] * 256 + b[i + 4] <= 1024
}

/// Where the hunt for a frame ends: at the first byte at which one could
/// start. What stands there is handed out once all of it is there, as it
/// decodes; if it does not, the byte it started at is noise too.
pub proof fn law_where_the_hunt_ends(b: Seq<u8>)
    ensures
        ({
            let k = frame::noise_len(b) as int;
            let p = frame::pull(b);
            let len = b[k + 3] * 256 + b[k + 4];
            let whole = k + 5 <= b.len() && k + len + 2 <= b.len();
            let f = frame::decoded(b.subrange(k, k + len + 2));
            &&& 0 <= k <= b.len()
            &&& forall|i: int| 0 <= i < k ==> !#[trigger] could_start(b, i)
            &&& k < b.len() ==> could_start(b, k)
            &&& !whole ==> p.out is None && p.dropped == k && p.taken == 0
            &&& whole ==> p.out == Some(f)
            &&& whole && f is Ok ==> p.dropped == k && p.taken == len + 2
            &&& whole && f is Err ==> p.dropped == k + 1 && p.taken == 0
        }),
{
    lemma_where_noise_ends(b);
    let k = frame::noise_len(b) as int;
    let rest = b.skip(k);
    if k + 5 <= b.len() {
        assert(rest[3] == b[k + 3] && rest[4] == b[k + 4]);
        let n = rest[3] * 256 + rest[4] + 2;
        if k + n <= b.len() {
            assert(rest.take(n) =~= b.subrange(k, k + n));
        }
    }
}

proof fn lemma_where_noise_ends(b: Seq<u8>)
    ensures
        ({
            let k = frame::noise_len(b) as int;
            &&& 0 <= k <= b.len()
            &&& forall|i: int| 0 <= i < k ==> !#[trigger] could_start(b, i)
            &&& k < b.len() ==> could_start(b, k)
            &&& !(frame::verdict(b.skip(k)) is Reject)
        }),
    decreases b.len(),
{
    let k = frame::noise_len(b) as int;
    if b.len() > 0 && frame::verdict(b) is Reject {
        let rest = b.drop_first();
        lemma_where_noise_ends(rest);
        assert(b.skip(k) =~= rest.skip(k - 1));
        assert forall|i: int| 0 <= i < k implies !#[trigger] could_start(b, i) by {
            if i > 0 {
                assert(!could_start(rest, i - 1));
            }
        }
        if k < b.len() {
            assert(could_start(rest, k - 1));
        }
    } else {
        assert(b.skip(0) =~= b);
    }
}

// ------------------------------------------------------------------ hex dumps

/// A dump has two digits for each byte, which read as the byte, and one blank
/// between each two.
pub proof fn law_a_dump_shows_each_byte(b: Seq<u8>, i: int)
    requires
        0 <= i < b.len(),
    ensures
        ({
            let s = frame::hex_text(b);
            &&& s.len() == 3 * b.len() - 1
            &&& laws::numbers::reads_as(s.subrange(3 * i, 3 * i + 2), 16) == b[i]
            &&& laws::numbers::are_digits(s.subrange(3 * i, 3 * i + 2), 16)
            &&& i + 1 < b.len() ==> s[3 * i + 2] == ' '
        }),
    decreases b.len(),
{
    let s = frame::hex_text(b);
    let last = b.last();
    laws::numbers::law_lower_hex_reads_as_the_number(last as nat, 2);
    let w = crate::text::hex_lower(last as nat, 2);
    laws::hex::lemma_hex_word(last);
    assert(w.len() == 2);
    assert(laws::numbers::are_digits(w, 16)) by {
        assert forall|k: int| 0 <= k < w.len() implies #[trigger] laws::numbers::is_digit(
            w[k],
            16,
        ) by {
            assert(('0' <= w[k] && w[k] <= '9') || ('a' <= w[k] && w[k] <= 'f'));
        }
    }
    if b.len() == 1 {
        assert(s.subrange(0, 2) =~= w);
    } else {
        let front = b.drop_last();
        law_a_dump_shows_each_byte(front, if i < front.len() { i } else { 0 });
        let f = frame::hex_text(front);
        assert(s =~= f.push(' ') + w);
        if i < front.len() {
            assert(s.subrange(3 * i, 3 * i + 2) =~= f.subrange(3 * i, 3 * i + 2));
        } else {
            assert(s.subrange(3 * i, 3 * i + 2) =~= w);
        }
    }
}

/// What the line about a frame and those about its faults say, and in which
/// order.
pub proof fn law_what_is_said_of_a_frame(f: FrameView, e: FrameError)
    ensures
        frame::frame_text(f) == (if f.dir == Dir::HostToMcu {
            "Frame { "@ + "host->mcu"@
        } else {
            "Frame { "@ + "mcu->host"@
        }) + " cmd=0x"@ + crate::text::hex_lower(f.cmd as nat, 2) + " payload="@ + frame::hex_text(
            f.payload,
        ) + " }"@,
        e matches FrameError::BadLength { declared, actual } ==> frame::frame_error_text(e)
            == "bad length: declared "@ + crate::text::decimal(declared as nat) + ", actual "@
            + crate::text::decimal(actual as nat),
        e matches FrameError::BadChecksum { computed, got } ==> frame::frame_error_text(e)
            == "bad checksum: computed 0x"@ + crate::text::hex_lower(computed as nat, 2)
            + ", got 0x"@ + crate::text::hex_lower(got as nat, 2),
        e matches FrameError::BadMagic(m) ==> frame::frame_error_text(e) == "bad magic "@
            + crate::text::hex_lower(m@[0] as nat, 2) + " "@ + crate::text::hex_lower(
            m@[1] as nat,
            2,
        ),
        e matches FrameError::TooShort(n) ==> frame::frame_error_text(e) == "frame too short ("@
            + crate::text::decimal(n as nat) + " bytes)"@,
        e matches FrameError::BadTerminator(t) ==> frame::frame_error_text(e)
            == "bad terminator 0x"@ + crate::text::hex_lower(t as nat, 2) + " (want 0x16)"@,
        e matches FrameError::BadDir(d) ==> frame::frame_error_text(e)
            == "unknown direction byte 0x"@ + crate::text::hex_lower(d as nat, 2),
        e matches FrameError::ImplausibleLength(l) ==> frame::frame_error_text(e)
            == "implausible LEN "@ + crate::text::decimal(l as nat),
{
}

} // verus!
