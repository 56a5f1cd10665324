//! Laws of the STC89 session plan.

use vstd::prelude::*;

use crate::frame;
use crate::frame::{Dir, FrameView};
use crate::laws::session::WireEvent;
use crate::protocol::stc89;
use crate::protocol::{JobView, ProtocolErrorView, SessionOptions, TargetInfoView};
use crate::session::{ExpectView, Phase, StepView};

verus! {

/// The plan of a job with work in it, by position: six steps to the new rate,
/// the erase, the programming, and the end.
pub(crate) proof fn lemma_plan_parts(
    info: TargetInfoView,
    job: JobView,
    opts: SessionOptions,
    steps: Seq<StepView>,
)
    requires
        stc89::session_for(info, job, opts) == Ok::<Seq<StepView>, ProtocolErrorView>(steps),
        !(job is Identify),
    ensures
        ({
            let reload = stc89::reload_for(info.measured_hz, opts.transfer_baud)->Ok_0;
            let blocks = stc89::blocks_for(info, job)->Ok_0;
            let prog = stc89::programming(info, job, blocks, opts);
            &&& stc89::blocks_for(info, job) is Ok
            &&& 1 <= blocks <= 0xFF
            &&& steps == (stc89::negotiation(info, reload, opts).push(
                stc89::erase_step(info, blocks, opts),
            ) + prog).push(stc89::final_step(opts))
            &&& steps.len() == 8 + prog.len()
            &&& steps[0] == stc89::probe_step(reload, opts)
            &&& steps[1] == stc89::commit_step(reload, opts)
            &&& forall|i: int| 2 <= i < 6 ==> #[trigger] steps[i] == stc89::link_step(info, i - 2, opts)
            &&& steps[6] == stc89::erase_step(info, blocks, opts)
            &&& forall|i: int| 7 <= i < 7 + prog.len() ==> #[trigger] steps[i] == prog[i - 7]
            &&& steps.last() == stc89::final_step(opts)
        }),
{
}

/// The steps of the programming part.
pub(crate) proof fn lemma_programming_parts(
    info: TargetInfoView,
    image: Seq<u8>,
    write_options: bool,
    blocks: nat,
    opts: SessionOptions,
)
    ensures
        ({
            let prog = stc89::programming(
                info,
                JobView::Flash { image, write_options },
                blocks,
                opts,
            );
            let data = stc89::padded(image, blocks * 256);
            &&& prog.len() == blocks * 2 + (if write_options {
                1int
            } else {
                0
            })
            &&& forall|i: int|
                0 <= i < blocks * 2 ==> #[trigger] prog[i] == stc89::write_step(data, i, opts)
            &&& write_options ==> prog[blocks as int * 2] == stc89::options_step(info, opts)
        }),
{
    assert(blocks * 256 / 128 == blocks * 2);
}

/// A session that only identifies the chip is one frame long, and never
/// changes the rate.
pub proof fn law_identifying_is_one_frame(info: TargetInfoView, opts: SessionOptions)
    ensures
        stc89::session_for(info, JobView::Identify, opts) == Ok::<
            Seq<StepView>,
            ProtocolErrorView,
        >(seq![stc89::final_step(opts)]),
        stc89::final_step(opts).retune_to is None,
        stc89::final_step(opts).frame.cmd == stc89::CMD_RUN,
{
}

/// Every session ends by releasing the chip, and that frame is the only one
/// that is not answered. Every frame is the host's.
pub proof fn law_only_the_last_frame_is_unanswered(
    info: TargetInfoView,
    job: JobView,
    opts: SessionOptions,
    steps: Seq<StepView>,
)
    requires
        stc89::session_for(info, job, opts) == Ok::<Seq<StepView>, ProtocolErrorView>(steps),
    ensures
        steps.len() >= 1,
        steps.last() == stc89::final_step(opts),
        forall|i: int|
            0 <= i < steps.len() ==> (#[trigger] steps[i]).answered() == (i < steps.len() - 1),
        forall|i: int|
            0 <= i < steps.len() ==> (#[trigger] steps[i]).frame.dir == Dir::HostToMcu,
{
    if !(job is Identify) {
        lemma_plan_parts(info, job, opts, steps);
        if let JobView::Flash { image, write_options } = job {
            lemma_programming_parts(
                info,
                image,
                write_options,
                stc89::blocks_for(info, job)->Ok_0,
                opts,
            );
        }
        assert forall|i: int| 0 <= i < steps.len() implies (#[trigger] steps[i]).answered() == (i
            < steps.len() - 1) && steps[i].frame.dir == Dir::HostToMcu by {
            if 2 <= i < 6 {
                assert(steps[i] == stc89::link_step(info, i - 2, opts));
            }
        }
    }
}

/// A session with work in it changes the rate exactly once: to the transfer
/// baud, behind the answer to the second frame.
pub proof fn law_the_rate_changes_once(
    info: TargetInfoView,
    job: JobView,
    opts: SessionOptions,
    steps: Seq<StepView>,
)
    requires
        stc89::session_for(info, job, opts) == Ok::<Seq<StepView>, ProtocolErrorView>(steps),
        !(job is Identify),
    ensures
        steps.len() >= 8,
        steps[1].frame.cmd == stc89::CMD_BAUD_COMMIT,
        forall|i: int|
            0 <= i < steps.len() ==> (#[trigger] steps[i]).retune_to == (if i == 1 {
                Some(opts.transfer_baud)
            } else {
                None
            }),
{
    lemma_plan_parts(info, job, opts, steps);
    if let JobView::Flash { image, write_options } = job {
        lemma_programming_parts(
            info,
            image,
            write_options,
            stc89::blocks_for(info, job)->Ok_0,
            opts,
        );
    }
    assert forall|i: int| 0 <= i < steps.len() implies (#[trigger] steps[i]).retune_to == (if i
        == 1 {
        Some(opts.transfer_baud)
    } else {
        None
    }) by {
        if 2 <= i < 6 {
            assert(steps[i] == stc89::link_step(info, i - 2, opts));
        }
    }
}

/// The frames of the steps from `from` to `to`.
pub open spec fn frames_sent(steps: Seq<StepView>, from: int, to: int) -> Seq<WireEvent> {
    Seq::new((to - from) as nat, |i: int| WireEvent::Sent(steps[from + i].frame.encoded()))
}

proof fn lemma_events_without_retune(steps: Seq<StepView>, from: int, to: int)
    requires
        0 <= from <= to <= steps.len(),
        forall|i: int| from <= i < to ==> (#[trigger] steps[i]).retune_to is None,
    ensures
        crate::laws::session::events(steps, from, to) == frames_sent(steps, from, to),
    decreases to - from,
{
    if from < to {
        lemma_events_without_retune(steps, from + 1, to);
        assert(crate::laws::session::events(steps, from, to) =~= frames_sent(steps, from, to));
    } else {
        assert(crate::laws::session::events(steps, from, to) =~= frames_sent(steps, from, to));
    }
}

/// On the wire, a session with work in it is two frames, the change of rate,
/// and the rest of the frames.
pub proof fn law_two_frames_then_the_rate_then_the_rest(
    info: TargetInfoView,
    job: JobView,
    opts: SessionOptions,
    steps: Seq<StepView>,
)
    requires
        stc89::session_for(info, job, opts) == Ok::<Seq<StepView>, ProtocolErrorView>(steps),
        !(job is Identify),
    ensures
        crate::laws::session::events(steps, 0, steps.len() as int) == frames_sent(
            steps,
            0,
            2,
        ).push(WireEvent::Retuned(opts.transfer_baud)) + frames_sent(steps, 2, steps.len() as int),
{
    law_the_rate_changes_once(info, job, opts, steps);
    let n = steps.len() as int;
    lemma_events_without_retune(steps, 2, n);
    let tail = frames_sent(steps, 2, n);
    assert(steps[0].retune_to is None);
    assert(steps[1].retune_to == Some(opts.transfer_baud));
    assert(crate::laws::session::events(steps, 1, n) == crate::laws::session::step_events(steps[1])
        + tail);
    assert(crate::laws::session::events(steps, 0, n) == crate::laws::session::step_events(steps[0])
        + crate::laws::session::events(steps, 1, n));
    assert(crate::laws::session::events(steps, 0, n) =~= frames_sent(steps, 0, 2).push(
        WireEvent::Retuned(opts.transfer_baud),
    ) + tail);
}

/// The data that the write frames of a plan carry, in order.
pub open spec fn programmed(steps: Seq<StepView>) -> Seq<u8>
    decreases steps.len(),
{
    if steps.len() == 0 {
        seq![]
    } else {
        programmed(steps.drop_last()) + (if steps.last().phase == Phase::Write {
            steps.last().frame.payload.skip(6)
        } else {
            seq![]
        })
    }
}

proof fn lemma_programmed_skips(steps: Seq<StepView>, k: int)
    requires
        0 <= k <= steps.len(),
        forall|i: int| k <= i < steps.len() ==> (#[trigger] steps[i]).phase != Phase::Write,
    ensures
        programmed(steps) == programmed(steps.take(k)),
    decreases steps.len(),
{
    if k == steps.len() {
        assert(steps.take(k) =~= steps);
    } else {
        let front = steps.drop_last();
        assert(steps.last() == steps[steps.len() - 1]);
        assert forall|i: int| k <= i < front.len() implies (#[trigger] front[i]).phase
            != Phase::Write by {
            assert(front[i] == steps[i]);
        }
        lemma_programmed_skips(front, k);
        assert(front.take(k) =~= steps.take(k));
        assert(programmed(steps) =~= programmed(front));
    }
}

proof fn lemma_programmed_blocks(
    steps: Seq<StepView>,
    first: int,
    data: Seq<u8>,
    k: int,
    opts: SessionOptions,
)
    requires
        0 <= first,
        0 <= k,
        first + k <= steps.len(),
        k * 128 <= data.len(),
        forall|i: int| 0 <= i < first ==> (#[trigger] steps[i]).phase != Phase::Write,
        forall|i: int|
            first <= i < first + k ==> #[trigger] steps[i] == stc89::write_step(
                data,
                i - first,
                opts,
            ),
    ensures
        programmed(steps.take(first + k)) == data.take(k * 128),
    decreases k,
{
    let front = steps.take(first + k);
    if k == 0 {
        assert forall|i: int| 0 <= i < front.len() implies (#[trigger] front[i]).phase
            != Phase::Write by {
            assert(front[i] == steps[i]);
        }
        lemma_programmed_skips(front, 0);
        assert(front.take(0) =~= Seq::<StepView>::empty());
        assert(programmed(front) =~= data.take(0));
    } else {
        lemma_programmed_blocks(steps, first, data, k - 1, opts);
        assert(front.drop_last() =~= steps.take(first + k - 1));
        let step = front.last();
        assert(step == steps[first + k - 1]);
        assert(step == stc89::write_step(data, k - 1, opts));
        let block = stc89::block_data(data, k - 1);
        assert(step.frame.payload.skip(6) =~= block);
        assert(programmed(front) =~= data.take(k * 128));
    }
}

/// A flash session erases a region and fills exactly that region, from
/// address 0 on and without a gap: with the image first, and `0xFF` behind it.
pub proof fn law_the_erased_region_is_filled(
    info: TargetInfoView,
    image: Seq<u8>,
    write_options: bool,
    opts: SessionOptions,
    steps: Seq<StepView>,
)
    requires
        stc89::session_for(info, JobView::Flash { image, write_options }, opts) == Ok::<
            Seq<StepView>,
            ProtocolErrorView,
        >(steps),
    ensures
        ({
            let blocks = stc89::erase_blocks(image.len());
            &&& steps[6].frame == stc89::erase(blocks as u8)
            &&& 1 <= blocks <= 0xFF
            &&& image.len() <= blocks * 256 < image.len() + 512
            &&& programmed(steps) == stc89::padded(image, blocks * 256)
            &&& programmed(steps).take(image.len() as int) == image
            &&& forall|j: int|
                image.len() <= j < programmed(steps).len() ==> #[trigger] programmed(steps)[j]
                    == 0xFF
        }),
{
    let job = JobView::Flash { image, write_options };
    let blocks = stc89::erase_blocks(image.len());
    let data = stc89::padded(image, blocks * 256);
    lemma_plan_parts(info, job, opts, steps);
    lemma_programming_parts(info, image, write_options, blocks, opts);
    let k = blocks as int * 2;
    let prog = stc89::programming(info, job, blocks, opts);
    assert forall|i: int| 0 <= i < 7 implies (#[trigger] steps[i]).phase != Phase::Write by {
        if 2 <= i < 6 {
            assert(steps[i] == stc89::link_step(info, i - 2, opts));
        }
    }
    assert forall|i: int| 7 <= i < 7 + k implies #[trigger] steps[i] == stc89::write_step(
        data,
        i - 7,
        opts,
    ) by {
        assert(steps[i] == prog[i - 7]);
    }
    lemma_programmed_blocks(steps, 7, data, k, opts);
    assert(data.take(k * 128) =~= data);
    assert forall|i: int| 7 + k <= i < steps.len() implies (#[trigger] steps[i]).phase
        != Phase::Write by {
        if i < 7 + prog.len() {
            assert(steps[i] == prog[i - 7]);
        } else {
            assert(steps[i] == steps.last());
        }
    }
    lemma_programmed_skips(steps, 7 + k);
    assert(programmed(steps).take(image.len() as int) =~= image);
}

/// Each write frame says its own address, in steps of one block from 0 on,
/// carries one block, and asks for the sum of just the bytes it carries.
pub proof fn law_each_block_is_acknowledged_by_its_sum(
    info: TargetInfoView,
    image: Seq<u8>,
    write_options: bool,
    opts: SessionOptions,
    steps: Seq<StepView>,
    i: int,
)
    requires
        stc89::session_for(info, JobView::Flash { image, write_options }, opts) == Ok::<
            Seq<StepView>,
            ProtocolErrorView,
        >(steps),
        0 <= i < 2 * stc89::erase_blocks(image.len()),
    ensures
        ({
            let step = steps[7 + i];
            let addr = (i * 128) as u32;
            &&& step.phase == Phase::Write
            &&& step.write_addr == Some(addr)
            &&& step.frame.cmd == stc89::CMD_WRITE
            &&& step.frame.payload.len() == 134
            &&& step.frame.payload.take(4) == stc89::be32(addr)
            &&& step.expect == (ExpectView::BlockAck {
                sum: frame::sum8(step.frame.payload.skip(6)),
            })
        }),
{
    let job = JobView::Flash { image, write_options };
    let blocks = stc89::erase_blocks(image.len());
    let data = stc89::padded(image, blocks * 256);
    lemma_write_block(info, image, write_options, opts, steps, i);
    lemma_plan_parts(info, job, opts, steps);
    lemma_programming_parts(info, image, write_options, blocks, opts);
    assert(steps[7 + i] == stc89::write_step(data, i, opts));
    let payload = steps[7 + i].frame.payload;
    assert(payload.take(4) =~= stc89::be32((i * 128) as u32));
}

/// The data of write block `i` stands behind its address and its count.
pub(crate) proof fn lemma_write_block(
    info: TargetInfoView,
    image: Seq<u8>,
    write_options: bool,
    opts: SessionOptions,
    steps: Seq<StepView>,
    i: int,
)
    requires
        stc89::session_for(info, JobView::Flash { image, write_options }, opts) == Ok::<
            Seq<StepView>,
            ProtocolErrorView,
        >(steps),
        0 <= i < 2 * stc89::erase_blocks(image.len()),
    ensures
        ({
            let data = stc89::padded(image, stc89::erase_blocks(image.len()) * 256);
            &&& steps[7 + i] == stc89::write_step(data, i, opts)
            &&& steps[7 + i].frame.payload.skip(6) == stc89::block_data(data, i)
        }),
{
    let job = JobView::Flash { image, write_options };
    let blocks = stc89::erase_blocks(image.len());
    let data = stc89::padded(image, blocks * 256);
    lemma_plan_parts(info, job, opts, steps);
    lemma_programming_parts(info, image, write_options, blocks, opts);
    assert(steps[7 + i] == stc89::write_step(data, i, opts));
    assert(steps[7 + i].frame.payload.skip(6) =~= stc89::block_data(data, i));
}

/// A block of nothing but `0xFF` is acknowledged with `0x80`.
pub proof fn law_an_empty_block_acks_0x80(data: Seq<u8>)
    requires
        data.len() == stc89::WRITE_BLOCK,
        forall|i: int| 0 <= i < data.len() ==> #[trigger] data[i] == 0xFF,
    ensures
        frame::sum8(data) == 0x80,
{
    lemma_sum_of_ff(data);
}

proof fn lemma_sum_of_ff(data: Seq<u8>)
    requires
        forall|i: int| 0 <= i < data.len() ==> #[trigger] data[i] == 0xFF,
    ensures
        frame::byte_sum(data) == 255 * data.len(),
    decreases data.len(),
{
    if data.len() > 0 {
        let front = data.drop_last();
        assert forall|i: int| 0 <= i < front.len() implies #[trigger] front[i] == 0xFF by {
            assert(front[i] == data[i]);
        }
        lemma_sum_of_ff(front);
    }
}

/// The option bytes are only ever written back as they were read: a frame
/// that writes options carries those that the status packet held and nothing
/// of the caller's, and it is sent only where an image is programmed and the
/// caller did not ask to skip it.
pub proof fn law_options_are_only_ever_an_echo(
    info: TargetInfoView,
    job: JobView,
    opts: SessionOptions,
    steps: Seq<StepView>,
    i: int,
)
    requires
        stc89::session_for(info, job, opts) == Ok::<Seq<StepView>, ProtocolErrorView>(steps),
        0 <= i < steps.len(),
    ensures
        steps[i].phase == Phase::Options <==> steps[i].frame.cmd == stc89::CMD_OPTIONS,
        steps[i].phase == Phase::Options <==> (job matches JobView::Flash { write_options, .. }
            && write_options && i == steps.len() - 2),
        steps[i].phase == Phase::Options ==> steps[i].frame.payload == info.option_bytes + seq![
            0xFFu8,
            0xFFu8,
            0xFFu8,
        ],
{
    if !(job is Identify) {
        lemma_plan_parts(info, job, opts, steps);
        let blocks = stc89::blocks_for(info, job)->Ok_0;
        if let JobView::Flash { image, write_options } = job {
            lemma_programming_parts(info, image, write_options, blocks, opts);
            let data = stc89::padded(image, blocks * 256);
            if 7 <= i < 7 + blocks * 2 {
                assert(steps[i] == stc89::write_step(data, i - 7, opts));
            }
        }
        if 2 <= i < 6 {
            assert(steps[i] == stc89::link_step(info, i - 2, opts));
        }
    }
}

/// The chip has to name itself in its answer to the erase frame: an answer is
/// accepted exactly if it is an ack of the right length that begins with the
/// chip id, whatever stands behind that.
pub proof fn law_the_erase_reply_names_the_chip(
    info: TargetInfoView,
    job: JobView,
    opts: SessionOptions,
    steps: Seq<StepView>,
    reply: FrameView,
)
    requires
        stc89::session_for(info, job, opts) == Ok::<Seq<StepView>, ProtocolErrorView>(steps),
        !(job is Identify),
    ensures
        steps[6].phase == Phase::Erase,
        steps[6].judge(reply) is Ok <==> {
            &&& reply.dir == Dir::McuToHost
            &&& reply.cmd == stc89::REPLY_ACK
            &&& reply.payload.len() == stc89::ERASE_REPLY_LEN
            &&& info.chip_id.is_prefix_of(reply.payload)
        },
{
    lemma_plan_parts(info, job, opts, steps);
}

/// The plan is a function of the job, the options, and four things known from
/// the status packet: the timer reload that the measured frequency rounds to,
/// the chip id, the size of the flash and the option byte. Nothing else of the
/// target enters it, so two measurements that round alike plan alike.
pub proof fn law_what_a_plan_depends_on(
    a: TargetInfoView,
    b: TargetInfoView,
    job: JobView,
    opts: SessionOptions,
)
    requires
        stc89::reload_for(a.measured_hz, opts.transfer_baud) == stc89::reload_for(
            b.measured_hz,
            opts.transfer_baud,
        ),
        a.chip_id == b.chip_id,
        a.code_flash == b.code_flash,
        a.option_bytes == b.option_bytes,
    ensures
        stc89::session_for(a, job, opts) == stc89::session_for(b, job, opts),
{
    let na = Seq::new(4, |i: int| stc89::link_step(a, i, opts));
    let nb = Seq::new(4, |i: int| stc89::link_step(b, i, opts));
    assert(na =~= nb);
}

/// The opaque region of the status packet is not looked at: two packets that
/// agree on their first 21 payload bytes say the same of the target, but for
/// the packet itself, and lead to the same sessions.
pub proof fn law_the_opaque_region_is_ignored(
    f: FrameView,
    g: FrameView,
    handshake_baud: u32,
    info: TargetInfoView,
    job: JobView,
    opts: SessionOptions,
)
    requires
        stc89::status_of(f, handshake_baud) == Ok::<TargetInfoView, ProtocolErrorView>(info),
        g.dir == f.dir,
        g.cmd == f.cmd,
        g.payload.len() >= stc89::STATUS_PAYLOAD_LEN,
        g.payload.take(21) == f.payload.take(21),
    ensures
        ({
            let other = TargetInfoView { raw_status: g.payload, ..info };
            &&& stc89::status_of(g, handshake_baud) == Ok::<TargetInfoView, ProtocolErrorView>(
                other,
            )
            &&& stc89::session_for(other, job, opts) == stc89::session_for(info, job, opts)
        }),
{
    assert(f.payload.len() >= stc89::STATUS_PAYLOAD_LEN);
    assert forall|k: int| 0 <= k < 21 implies g.payload[k] == f.payload[k] by {
        assert(g.payload.take(21)[k] == g.payload[k]);
        assert(f.payload.take(21)[k] == f.payload[k]);
    }
    let wf = stc89::freq_words(f.payload);
    let wg = stc89::freq_words(g.payload);
    assert(wf =~= wg);
    let other = TargetInfoView { raw_status: g.payload, ..info };
    law_what_a_plan_depends_on(other, info, job, opts);
}

/// A status packet that is accepted looks like one, and what it says of the
/// clock is inside the band and can be planned with.
pub proof fn law_an_accepted_status_is_a_status_frame(
    f: FrameView,
    handshake_baud: u32,
    info: TargetInfoView,
)
    requires
        stc89::status_of(f, handshake_baud) == Ok::<TargetInfoView, ProtocolErrorView>(info),
    ensures
        stc89::is_status(f),
        stc89::FREQ_MIN_HZ <= info.measured_hz <= stc89::FREQ_MAX_HZ,
        info.chip_id == f.payload.subrange(19, 21),
        info.option_bytes == f.payload.subrange(18, 19),
        info.raw_status == f.payload,
{
    assert(info.chip_id =~= f.payload.subrange(19, 21));
    assert(info.option_bytes =~= f.payload.subrange(18, 19));
}

/// On a chip whose flash size is known, nothing outside the code flash is
/// erased or written, and erasing the whole chip erases all of it.
pub proof fn law_a_known_chip_is_erased_within_its_flash(
    f: FrameView,
    handshake_baud: u32,
    info: TargetInfoView,
    job: JobView,
    cap: usize,
)
    requires
        stc89::status_of(f, handshake_baud) == Ok::<TargetInfoView, ProtocolErrorView>(info),
        info.code_flash == Some(cap),
        !(job matches JobView::Erase { blocks: Some(_) }),
        stc89::blocks_for(info, job) is Ok,
    ensures
        stc89::blocks_for(info, job)->Ok_0 * 256 <= cap,
        job == (JobView::Erase { blocks: None }) ==> stc89::blocks_for(info, job)->Ok_0 * 256
            == cap,
{
}

/// Every frame of a session that a status packet leads to is short enough for
/// the receiver on the other end: it is found, and decodes to itself.
pub proof fn law_every_planned_frame_can_be_received(
    f: FrameView,
    handshake_baud: u32,
    info: TargetInfoView,
    job: JobView,
    opts: SessionOptions,
    steps: Seq<StepView>,
    i: int,
)
    requires
        stc89::status_of(f, handshake_baud) == Ok::<TargetInfoView, ProtocolErrorView>(info),
        stc89::session_for(info, job, opts) == Ok::<Seq<StepView>, ProtocolErrorView>(steps),
        0 <= i < steps.len(),
    ensures
        steps[i].frame.payload.len() <= 134,
        frame::pull(steps[i].frame.encoded()).out == Some(
            Ok::<FrameView, frame::FrameError>(steps[i].frame),
        ),
{
    let g = steps[i].frame;
    if !(job is Identify) {
        lemma_plan_parts(info, job, opts, steps);
        let blocks = stc89::blocks_for(info, job)->Ok_0;
        if let JobView::Flash { image, write_options } = job {
            lemma_programming_parts(info, image, write_options, blocks, opts);
            let data = stc89::padded(image, blocks * 256);
            if 7 <= i < 7 + blocks * 2 {
                assert(steps[i] == stc89::write_step(data, i - 7, opts));
            }
        }
        if 2 <= i < 6 {
            assert(steps[i] == stc89::link_step(info, i - 2, opts));
        }
    }
    assert(g.payload.len() <= 134);
    crate::laws::receiver::law_a_frame_behind_noise_is_found(seq![], g, seq![]);
    assert(Seq::<u8>::empty() + g.encoded() + Seq::<u8>::empty() =~= g.encoded());
}

/// The reload is the rounded quotient: no other reload comes nearer to the
/// rate that was asked for.
pub proof fn law_the_reload_is_the_nearest(f_osc: u64, transfer_baud: u32, reload: u8)
    requires
        stc89::reload_for(f_osc, transfer_baud) == Ok::<u8, ProtocolErrorView>(reload),
    ensures
        transfer_baud > 0,
        1 <= reload,
        -(transfer_baud as int * 16) <= f_osc as int - (256 - reload) * (transfer_baud as int * 32)
            < transfer_baud as int * 16,
{
    let d = transfer_baud as int * 32;
    let num = f_osc as int + d / 2;
    let q = num / d;
    assert(q * d <= num < q * d + d) by (nonlinear_arith)
        requires
            d > 0,
            q == num / d,
    ;
    assert(256 - reload == q);
}

} // verus!
