//! Laws of the resynchronising receiver.

use vstd::prelude::*;

use crate::frame;
use crate::frame::{FrameError, FrameView, Pull, Verdict};

verus! {

/// No two neighbouring bytes are the frame preamble.
pub open spec fn no_preamble(b: Seq<u8>) -> bool {
    forall|i: int, j: int|
        #![trigger b[i], b[j]]
        0 <= i && j == i + 1 && j < b.len() ==> !(b[i] == 0x46 && b[j] == 0xB9)
}

/// Every byte that is fed in comes out once and in order: thrown away, or as
/// part of a frame, or still held.
pub proof fn law_no_byte_is_lost(buf: Seq<u8>)
    ensures
        ({
            let p = frame::pull(buf);
            let used = (p.dropped + p.taken) as int;
            &&& used <= buf.len()
            &&& buf == buf.take(p.dropped as int) + (match p.out {
                Some(Ok(f)) => f.encoded(),
                _ => seq![],
            }) + buf.skip(used)
        }),
{
    frame::lemma_pull_bounds(buf);
    let p = frame::pull(buf);
    let k = p.dropped as int;
    if let Some(Ok(f)) = p.out {
        let bytes = buf.skip(k).take(p.taken as int);
        crate::laws::frame::law_encode_undoes_decode(bytes, f);
        assert(buf =~= buf.take(k) + bytes + buf.skip(k + p.taken));
    } else {
        assert(buf =~= buf.take(k) + Seq::<u8>::empty() + buf.skip(k));
    }
}

/// What the receiver has decided, later bytes do not change.
pub(crate) proof fn lemma_verdict_is_stable(a: Seq<u8>, b: Seq<u8>)
    requires
        !(frame::verdict(a) is NeedMore),
    ensures
        frame::verdict(a + b) == frame::verdict(a),
{
}

pub(crate) proof fn lemma_noise_len_extends(a: Seq<u8>, b: Seq<u8>)
    ensures
        frame::noise_len(a + b) == frame::noise_len(a) + frame::noise_len(
            a.skip(frame::noise_len(a) as int) + b,
        ),
    decreases a.len(),
{
    if a.len() > 0 && frame::verdict(a) is Reject {
        lemma_verdict_is_stable(a, b);
        lemma_noise_len_extends(a.drop_first(), b);
        assert((a + b).drop_first() =~= a.drop_first() + b);
        frame::lemma_noise_len(a.drop_first());
        let k = frame::noise_len(a.drop_first()) as int;
        assert(a.drop_first().skip(k) =~= a.skip(k + 1));
    } else {
        assert(a.skip(0) =~= a);
    }
}

/// A pull that hands something out hands out the same with more bytes behind.
pub(crate) proof fn lemma_pull_is_stable(a: Seq<u8>, b: Seq<u8>)
    requires
        frame::pull(a).out is Some,
    ensures
        frame::pull(a + b) == frame::pull(a),
{
    frame::lemma_noise_len(a);
    lemma_noise_len_extends(a, b);
    let k = frame::noise_len(a) as int;
    let rest = a.skip(k);
    lemma_verdict_is_stable(rest, b);
    assert((a + b).skip(k) =~= rest + b);
    if let Verdict::Candidate(n) = frame::verdict(rest) {
        assert((rest + b).take(n as int) =~= rest.take(n as int));
    }
}

/// A pull that hands nothing out only drops noise: the next one goes on from
/// there.
pub(crate) proof fn lemma_pull_resumes(a: Seq<u8>, b: Seq<u8>)
    requires
        frame::pull(a).out is None,
    ensures
        ({
            let k = frame::pull(a).dropped;
            let later = frame::pull(a.skip(k as int) + b);
            frame::pull(a + b) == (Pull {
                out: later.out,
                dropped: k + later.dropped,
                taken: later.taken,
            })
        }),
{
    frame::lemma_noise_len(a);
    lemma_noise_len_extends(a, b);
    let k = frame::noise_len(a) as int;
    let rest = a.skip(k);
    let more = frame::noise_len(rest + b) as int;
    frame::lemma_noise_len(rest + b);
    assert((a + b).skip(k + more) =~= (rest + b).skip(more));
}

/// All that comes out of a run of bytes: what the pulls hand out up to the
/// first that hands out nothing, the bytes thrown away on the way, and the
/// bytes still held.
pub struct Drained {
    pub outs: Seq<Result<FrameView, FrameError>>,
    pub dropped: Seq<u8>,
    pub rest: Seq<u8>,
}

pub open spec fn drained(buf: Seq<u8>) -> Drained
    decreases buf.len(),
{
    let p = frame::pull(buf);
    let next = buf.skip((p.dropped + p.taken) as int);
    match p.out {
        None => Drained { outs: seq![], dropped: buf.take(p.dropped as int), rest: next },
        Some(o) => {
            proof {
                frame::lemma_pull_bounds(buf);
            }
            let later = drained(next);
            Drained {
                outs: seq![o] + later.outs,
                dropped: buf.take(p.dropped as int) + later.dropped,
                rest: later.rest,
            }
        },
    }
}

/// What has come out of the first part and of what was left of it with the
/// second behind.
pub open spec fn joined(first: Drained, second: Drained) -> Drained {
    Drained {
        outs: first.outs + second.outs,
        dropped: first.dropped + second.dropped,
        rest: second.rest,
    }
}

/// Nothing comes out of the first part: the second goes on where it stopped.
proof fn lemma_cut_in_noise(a: Seq<u8>, b: Seq<u8>)
    requires
        frame::pull(a).out is None,
    ensures
        drained(a + b) == joined(drained(a), drained(drained(a).rest + b)),
{
    let p = frame::pull(a);
    let k = p.dropped as int;
    let next = a.skip(k);
    let q = frame::pull(next + b);
    let used = (q.dropped + q.taken) as int;
    lemma_pull_resumes(a, b);
    frame::lemma_pull_bounds(a);
    frame::lemma_pull_bounds(next + b);
    assert(drained(a).rest == next);
    assert((a + b).skip(k + used) =~= (next + b).skip(used));
    assert((a + b).take(k + q.dropped) =~= a.take(k) + (next + b).take(q.dropped as int));
    let whole = drained(a + b);
    let second = drained(next + b);
    assert(drained(a).outs + second.outs =~= second.outs);
    if q.out is Some {
        let later = drained((next + b).skip(used));
        assert((a.take(k) + (next + b).take(q.dropped as int)) + later.dropped =~= a.take(k) + ((
        next + b).take(q.dropped as int) + later.dropped));
    }
    assert(whole == joined(drained(a), second));
}

/// It does not matter how the stream is cut into reads: pulling all there is
/// after the first part, and again after the second, gives the same frames,
/// the same errors, the same discarded bytes and the same held bytes as
/// pulling once from the whole.
pub proof fn law_cutting_the_stream_changes_nothing(a: Seq<u8>, b: Seq<u8>)
    ensures
        drained(a + b) == joined(drained(a), drained(drained(a).rest + b)),
    decreases a.len(),
{
    let p = frame::pull(a);
    if let Some(o) = p.out {
        let used = (p.dropped + p.taken) as int;
        let next = a.skip(used);
        let noise = a.take(p.dropped as int);
        let second = drained(drained(a).rest + b);
        frame::lemma_pull_bounds(a);
        lemma_pull_is_stable(a, b);
        law_cutting_the_stream_changes_nothing(next, b);
        assert((a + b).skip(used) =~= next + b);
        assert((a + b).take(p.dropped as int) =~= noise);
        let later = drained(next);
        assert(drained(a).rest == later.rest);
        assert((seq![o] + later.outs) + second.outs =~= seq![o] + (later.outs + second.outs));
        assert((noise + later.dropped) + second.dropped =~= noise + (later.dropped
            + second.dropped));
    } else {
        lemma_cut_in_noise(a, b);
    }
}

/// Noise is dropped down to where it could be the start of a frame.
pub(crate) proof fn lemma_noise_is_dropped(noise: Seq<u8>, b: Seq<u8>)
    requires
        no_preamble(noise),
        b.len() == 0 || b[0] != 0xB9,
        noise.len() > 0 && noise.last() == 0x46 ==> b.len() > 0,
    ensures
        frame::noise_len(noise + b) == noise.len() + frame::noise_len(b),
    decreases noise.len(),
{
    if noise.len() == 0 {
        assert(noise + b =~= b);
    } else {
        let all = noise + b;
        assert(frame::verdict(all) is Reject) by {
            if all[0] == 0x46 {
                if noise.len() >= 2 {
                    assert(!(noise[0] == 0x46 && noise[1] == 0xB9));
                    assert(all[1] == noise[1]);
                } else {
                    assert(all[1] == b[0]);
                }
            }
        }
        assert(all.drop_first() =~= noise.drop_first() + b);
        let rest = noise.drop_first();
        assert(no_preamble(rest)) by {
            assert forall|i: int, j: int|
                #![trigger rest[i], rest[j]]
                0 <= i && j == i + 1 && j < rest.len() implies !(rest[i] == 0x46 && rest[j]
                == 0xB9) by {
                assert(rest[i] == noise[i + 1] && rest[j] == noise[j + 1]);
            }
        }
        lemma_noise_is_dropped(rest, b);
    }
}

/// A frame behind noise comes out intact, with exactly the noise thrown away
/// and what follows still held. The noise may be anything but the preamble
/// itself, and so may the payload: it may hold preambles and terminators.
pub proof fn law_a_frame_behind_noise_is_found(noise: Seq<u8>, f: FrameView, tail: Seq<u8>)
    requires
        no_preamble(noise),
        f.payload.len() + 6 <= frame::MAX_LEN_FIELD,
    ensures
        frame::pull(noise + f.encoded() + tail) == (Pull {
            out: Some(Ok::<FrameView, FrameError>(f)),
            dropped: noise.len(),
            taken: f.encoded().len(),
        }),
        (noise + f.encoded() + tail).skip((noise.len() + f.encoded().len()) as int) == tail,
        (noise + f.encoded() + tail).take(noise.len() as int) == noise,
{
    let e = f.encoded();
    let b = e + tail;
    let all = noise + e + tail;
    crate::laws::frame::lemma_encoded_parts(f);
    assert(all =~= noise + b);
    assert(b[3] == e[3] && b[4] == e[4]);
    assert(frame::verdict(b) == Verdict::Candidate(e.len()));
    lemma_noise_is_dropped(noise, b);
    assert(all.skip(noise.len() as int) =~= b);
    assert(b.take(e.len() as int) =~= e);
    crate::laws::frame::law_decode_undoes_encode(f);
    assert(all.skip((noise.len() + e.len()) as int) =~= tail);
    assert(all.take(noise.len() as int) =~= noise);
}

/// Noise that holds no preamble yields no frame, and all of it is thrown
/// away, but for a last byte that could begin a preamble: that one is kept.
pub proof fn law_noise_yields_nothing(noise: Seq<u8>)
    requires
        no_preamble(noise),
    ensures
        ({
            let kept: nat = if noise.len() > 0 && noise.last() == 0x46 {
                1
            } else {
                0
            };
            frame::pull(noise) == (Pull {
                out: None,
                dropped: (noise.len() - kept) as nat,
                taken: 0,
            })
        }),
{
    if noise.len() > 0 && noise.last() == 0x46 {
        let front = noise.drop_last();
        let last = seq![0x46u8];
        assert(no_preamble(front)) by {
            assert forall|i: int, j: int|
                #![trigger front[i], front[j]]
                0 <= i && j == i + 1 && j < front.len() implies !(front[i] == 0x46 && front[j]
                == 0xB9) by {
                assert(front[i] == noise[i] && front[j] == noise[j]);
            }
        }
        lemma_noise_is_dropped(front, last);
        assert(front + last =~= noise);
        assert(frame::verdict(last) is NeedMore);
        assert(noise.skip(noise.len() - 1) =~= last);
    } else {
        lemma_noise_is_dropped(noise, seq![]);
        assert(noise + Seq::<u8>::empty() =~= noise);
        assert(noise.skip(noise.len() as int) =~= Seq::<u8>::empty());
    }
}

/// A malformed frame costs one byte: the hunt goes on with the byte behind
/// its first, so a frame that starts inside the bad run is still found.
pub proof fn law_a_bad_frame_costs_one_byte(buf: Seq<u8>)
    requires
        frame::pull(buf).out matches Some(Err(_)),
    ensures
        frame::pull(buf).dropped == frame::noise_len(buf) + 1,
        frame::pull(buf).taken == 0,
        buf[frame::noise_len(buf) as int] == 0x46,
{
    frame::lemma_noise_len(buf);
}

} // verus!
