//! Laws of the session plan, frame by frame: what each one carries, what it
//! asks for, and how long it may take.

use vstd::prelude::*;

use crate::frame::Dir;
use crate::laws;
use crate::protocol::stc89;
use crate::protocol::{JobView, ProtocolErrorView, SessionOptions, TargetInfoView};
use crate::session::{ExpectView, Phase, StepView};
use crate::text;

verus! {

/// Of all multiples of 32 times the rate, this one comes nearest to the clock;
/// of two that come equally near, it is the larger.
pub open spec fn nearest(hz: u64, baud: u32, ticks: int) -> bool {
    -(16 * baud) <= hz - ticks * (32 * baud) && hz - ticks * (32 * baud) < 16 * baud
}

/// The least number of pairs of 256-byte blocks that holds so many bytes.
pub open spec fn holds_in_pairs(blocks: int, len: int) -> bool {
    blocks % 2 == 0 && blocks * 256 >= len && (blocks - 2) * 256 < len
}

proof fn lemma_nearest(hz: u64, baud: u32)
    requires
        baud > 0,
    ensures
        nearest(hz, baud, stc89::timer_ticks(hz, baud) as int),
        stc89::timer_ticks(hz, baud) <= hz + 1,
{
    let d = baud as int * 32;
    let num = hz as int + d / 2;
    let q = num / d;
    assert(q * d <= num < q * d + d) by (nonlinear_arith)
        requires
            d > 0,
            q == num / d,
    ;
    assert(q <= hz + 1) by (nonlinear_arith)
        requires
            q * d <= num,
            num == hz as int + d / 2,
            d >= 32,
            hz >= 0,
    ;
    assert(q == stc89::timer_ticks(hz, baud));
    assert(q * d == q * (32 * baud));
}

/// The erase count of an image is the least number of pairs of blocks that
/// holds it.
pub proof fn law_an_image_is_held_in_pairs_of_blocks(len: nat)
    ensures
        holds_in_pairs(stc89::erase_blocks(len) as int, len as int),
{
}

/// A rate has a reload exactly if the clock comes nearest to it with 1 to 255
/// ticks; where it has none, the error says which reload would be needed.
pub proof fn law_when_a_rate_has_a_reload(hz: u64, baud: u32)
    ensures
        match stc89::reload_for(hz, baud) {
            Ok(r) => baud > 0 && 1 <= r && nearest(hz, baud, 256 - r),
            Err(ProtocolErrorView::UnreachableBaud { baud: b, reload }) => {
                &&& b == baud
                &&& baud == 0 ==> reload == 0
                &&& baud > 0 ==> nearest(hz, baud, 256 - reload) && (reload < 1 || reload > 255)
            },
            Err(_) => false,
        },
{
    if baud > 0 {
        lemma_nearest(hz, baud);
        let ticks = stc89::timer_ticks(hz, baud) as int;
        let b = baud as int;
        assert(ticks <= 0x800_0000_0000_0000) by (nonlinear_arith)
            requires
                -(16 * b) <= hz - ticks * (32 * b),
                b >= 1,
                hz <= 0xFFFF_FFFF_FFFF_FFFF,
        ;
    }
}

/// What the frames say that a caller can ask for, whatever the argument: the
/// reload is in both rate frames, the chip id in the link test, the count in
/// the erase frame, and address, size and data in a write frame.
pub proof fn law_what_each_frame_says(reload: u8, id: Seq<u8>, blocks: u8, addr: u32, data: Seq<u8>)
    ensures
        stc89::baud_probe(reload).payload[1] == reload,
        stc89::baud_commit(reload).payload[1] == reload,
        stc89::baud_probe(reload).payload[0] == 0xFF,
        stc89::baud_commit(reload).payload[0] == 0xFF,
        stc89::baud_probe(reload).payload.skip(2) == seq![0x00u8, 0x06u8, 0xA0u8, 0x81u8],
        stc89::baud_commit(reload).payload.skip(2) == seq![0x00u8, 0x06u8, 0xA0u8],
        stc89::link_test(id).payload.skip(4) == id,
        stc89::link_test(id).payload.take(4) == seq![0x00u8, 0x00u8, 0x36u8, 0x01u8],
        stc89::erase(blocks).payload[0] == blocks,
        stc89::erase(blocks).payload.len() == 7,
        forall|k: int| 1 <= k < 7 ==> #[trigger] stc89::erase(blocks).payload[k] == 0x33,
        stc89::baud_probe(reload).cmd == 0x8F,
        stc89::baud_commit(reload).cmd == 0x8E,
        stc89::link_test(id).cmd == 0x80,
        stc89::erase(blocks).cmd == 0x84,
        stc89::write(addr, data).cmd == 0x00,
        stc89::run().cmd == 0x82,
        stc89::run().payload.len() == 0,
        ({
            let p = stc89::write(addr, data).payload;
            &&& p.len() == 6 + data.len()
            &&& p[0] * 0x100_0000 + p[1] * 0x1_0000 + p[2] * 0x100 + p[3] == addr
            &&& p[4] * 256 + p[5] == 128
            &&& p.skip(6) == data
        }),
{
    lemma_be32(addr);
    let p = stc89::write(addr, data).payload;
    assert(p.skip(6) =~= data);
    assert(stc89::link_test(id).payload.skip(4) =~= id);
    assert(stc89::link_test(id).payload.take(4) =~= seq![0x00u8, 0x00u8, 0x36u8, 0x01u8]);
    assert(stc89::baud_probe(reload).payload.skip(2) =~= seq![0x00u8, 0x06u8, 0xA0u8, 0x81u8]);
    assert(stc89::baud_commit(reload).payload.skip(2) =~= seq![0x00u8, 0x06u8, 0xA0u8]);
}

/// The erase count of a plan is what the job asks for: as many blocks as the
/// caller says, as many as the flash holds, or the pairs that hold the image.
pub open spec fn erases(info: TargetInfoView, job: JobView, blocks: int) -> bool {
    match job {
        JobView::Identify => false,
        JobView::Erase { blocks: Some(n) } => blocks == n,
        JobView::Erase { blocks: None } => info.code_flash matches Some(cap) && blocks * 256 <= cap
            && cap < (blocks + 1) * 256,
        JobView::Flash { image, .. } => image.len() > 0 && holds_in_pairs(
            blocks,
            image.len() as int,
        ) && (info.code_flash matches Some(cap) ==> image.len() <= cap),
    }
}

/// The first two frames tell the chip the timer reload, as a negative number
/// in two bytes: that of the transfer baud that the measured clock comes
/// nearest to. Each is to be echoed within the reply timeout.
pub proof fn law_the_chip_is_told_the_reload_of_the_transfer_baud(
    info: TargetInfoView,
    job: JobView,
    opts: SessionOptions,
    steps: Seq<StepView>,
)
    requires
        stc89::session_for(info, job, opts) == Ok::<Seq<StepView>, ProtocolErrorView>(steps),
        !(job is Identify),
    ensures
        ({
            let probe = steps[0].frame;
            let commit = steps[1].frame;
            let r = probe.payload[1];
            &&& opts.transfer_baud > 0
            &&& 1 <= r
            &&& nearest(info.measured_hz, opts.transfer_baud, 256 - r)
            &&& probe.payload[0] * 256 + probe.payload[1] == 0x1_0000 - (256 - r)
            &&& probe.dir == Dir::HostToMcu && probe.cmd == 0x8F
            &&& probe.payload == seq![0xFFu8, r, 0x00u8, 0x06u8, 0xA0u8, 0x81u8]
            &&& commit.dir == Dir::HostToMcu && commit.cmd == 0x8E
            &&& commit.payload == seq![0xFFu8, r, 0x00u8, 0x06u8, 0xA0u8]
            &&& steps[0].phase == Phase::BaudProbe && steps[1].phase == Phase::BaudCommit
            &&& steps[0].expect is Echo && steps[1].expect is Echo
            &&& steps[0].timeout_ms == opts.reply_timeout_ms
            &&& steps[1].timeout_ms == opts.reply_timeout_ms
        }),
{
    laws::plan::lemma_plan_parts(info, job, opts, steps);
    lemma_nearest(info.measured_hz, opts.transfer_baud);
}

/// Then the link is tested four times, with a frame that names the chip and
/// gets an empty ack.
pub proof fn law_the_link_is_tested_four_times(
    info: TargetInfoView,
    job: JobView,
    opts: SessionOptions,
    steps: Seq<StepView>,
    i: int,
)
    requires
        stc89::session_for(info, job, opts) == Ok::<Seq<StepView>, ProtocolErrorView>(steps),
        !(job is Identify),
        0 <= i < steps.len(),
    ensures
        steps[i].phase == Phase::LinkTest <==> 2 <= i < 6,
        2 <= i < 6 ==> {
            &&& steps[i].frame.dir == Dir::HostToMcu
            &&& steps[i].frame.cmd == 0x80
            &&& steps[i].frame.payload == seq![0x00u8, 0x00u8, 0x36u8, 0x01u8] + info.chip_id
            &&& steps[i].expect == (ExpectView::Ack { cmd: 0x80, payload: seq![] })
            &&& steps[i].timeout_ms == opts.reply_timeout_ms
        },
{
    lemma_step(info, job, opts, steps, i);
}

/// Which kind of step stands where.
proof fn lemma_step(
    info: TargetInfoView,
    job: JobView,
    opts: SessionOptions,
    steps: Seq<StepView>,
    i: int,
)
    requires
        stc89::session_for(info, job, opts) == Ok::<Seq<StepView>, ProtocolErrorView>(steps),
        !(job is Identify),
        0 <= i < steps.len(),
    ensures
        ({
            let blocks = stc89::blocks_for(info, job)->Ok_0;
            let writes = steps.len() - 8 - (if job matches JobView::Flash { write_options, .. }
                && write_options {
                1int
            } else {
                0
            });
            &&& steps[6] == stc89::erase_step(info, blocks, opts)
            &&& 1 <= blocks <= 255
            &&& stc89::blocks_for(info, job) is Ok
            &&& writes == (if job is Flash {
                2 * blocks
            } else {
                0
            })
            &&& 2 <= i < 6 ==> steps[i] == stc89::link_step(info, i - 2, opts)
            &&& 7 <= i < 7 + writes ==> (job matches JobView::Flash { image, .. } && steps[i]
                == stc89::write_step(stc89::padded(image, blocks * 256), i - 7, opts))
            &&& 7 + writes <= i < steps.len() - 1 ==> steps[i] == stc89::options_step(info, opts)
            &&& i == steps.len() - 1 ==> steps[i] == stc89::final_step(opts)
            &&& i == 0 ==> steps[i].phase == Phase::BaudProbe
            &&& i == 1 ==> steps[i].phase == Phase::BaudCommit
        }),
{
    laws::plan::lemma_plan_parts(info, job, opts, steps);
    let blocks = stc89::blocks_for(info, job)->Ok_0;
    if let JobView::Flash { image, write_options } = job {
        laws::plan::lemma_programming_parts(info, image, write_options, blocks, opts);
        let prog = stc89::programming(info, job, blocks, opts);
        if 7 <= i < 7 + prog.len() {
            assert(steps[i] == prog[i - 7]);
        }
    }
    if 2 <= i < 6 {
        assert(steps[i] == stc89::link_step(info, i - 2, opts));
    }
}

/// Then the flash is erased: by as many blocks as the job asks for, in a frame
/// that says so, with a timeout of its own. The chip has to name itself in its
/// answer of seven bytes.
pub proof fn law_what_is_erased(
    info: TargetInfoView,
    job: JobView,
    opts: SessionOptions,
    steps: Seq<StepView>,
    i: int,
)
    requires
        stc89::session_for(info, job, opts) == Ok::<Seq<StepView>, ProtocolErrorView>(steps),
        !(job is Identify),
        0 <= i < steps.len(),
    ensures
        steps[i].phase == Phase::Erase <==> i == 6,
        ({
            let step = steps[6];
            let n = step.frame.payload[0];
            &&& n >= 1
            &&& erases(info, job, n as int)
            &&& step.frame.dir == Dir::HostToMcu
            &&& step.frame.cmd == 0x84
            &&& step.frame.payload.len() == 7
            &&& forall|k: int| 1 <= k < 7 ==> #[trigger] step.frame.payload[k] == 0x33
            &&& step.timeout_ms == opts.erase_timeout_ms
            &&& step.expect == (ExpectView::AckPrefix {
                cmd: 0x80,
                payload_len: 7,
                prefix: info.chip_id,
            })
        }),
{
    lemma_step(info, job, opts, steps, i);
    if let JobView::Flash { image, .. } = job {
        law_an_image_is_held_in_pairs_of_blocks(image.len());
    }
}

/// Then the region that was erased is written, block by block. Block `i` says
/// its own address, four bytes that read as `128 i`, and its own size; it
/// carries the image's bytes from there on, and `0xFF` where the image ends;
/// and it asks for the low byte of the sum of just those bytes.
pub proof fn law_what_is_written_where(
    info: TargetInfoView,
    image: Seq<u8>,
    write_options: bool,
    opts: SessionOptions,
    steps: Seq<StepView>,
    i: int,
)
    requires
        stc89::session_for(info, JobView::Flash { image, write_options }, opts) == Ok::<
            Seq<StepView>,
            ProtocolErrorView,
        >(steps),
        0 <= i < 2 * steps[6].frame.payload[0],
    ensures
        ({
            let step = steps[7 + i];
            let p = step.frame.payload;
            &&& step.phase == Phase::Write
            &&& step.frame.dir == Dir::HostToMcu
            &&& step.frame.cmd == 0x00
            &&& p.len() == 134
            &&& p[0] * 0x100_0000 + p[1] * 0x1_0000 + p[2] * 0x100 + p[3] == i * 128
            &&& step.write_addr matches Some(a) && a == i * 128
            &&& p[4] * 256 + p[5] == 128
            &&& forall|k: int|
                0 <= k < 128 ==> #[trigger] p[6 + k] == (if i * 128 + k < image.len() {
                    image[i * 128 + k]
                } else {
                    0xFFu8
                })
            &&& step.expect matches ExpectView::BlockAck { sum } && sum == laws::wire::total(
                p.skip(6),
            ) % 256
            &&& step.timeout_ms == opts.reply_timeout_ms
        }),
{
    let job = JobView::Flash { image, write_options };
    lemma_step(info, job, opts, steps, 7 + i);
    let blocks = stc89::blocks_for(info, job)->Ok_0;
    let data = stc89::padded(image, blocks * 256);
    let step = steps[7 + i];
    let p = step.frame.payload;
    assert(step == stc89::write_step(data, i, opts));
    let addr = (i * 128) as u32;
    lemma_be32(addr);
    let block = stc89::block_data(data, i);
    assert(p.skip(6) =~= block);
    laws::wire::lemma_total(block);
    assert forall|k: int| 0 <= k < 128 implies #[trigger] p[6 + k] == (if i * 128 + k
        < image.len() {
        image[i * 128 + k]
    } else {
        0xFFu8
    }) by {
        assert(p[6 + k] == block[k]);
    }
}

proof fn lemma_be32(n: u32)
    ensures
        ({
            let b = stc89::be32(n);
            b[0] * 0x100_0000 + b[1] * 0x1_0000 + b[2] * 0x100 + b[3] == n
        }),
{
}

/// No two blocks of a plan go to the same address.
pub proof fn law_no_two_blocks_go_to_one_address(
    info: TargetInfoView,
    image: Seq<u8>,
    write_options: bool,
    opts: SessionOptions,
    steps: Seq<StepView>,
    i: int,
    j: int,
)
    requires
        stc89::session_for(info, JobView::Flash { image, write_options }, opts) == Ok::<
            Seq<StepView>,
            ProtocolErrorView,
        >(steps),
        0 <= i < j < 2 * steps[6].frame.payload[0],
    ensures
        steps[7 + i].frame.payload.take(4) != steps[7 + j].frame.payload.take(4),
{
    law_what_is_written_where(info, image, write_options, opts, steps, i);
    law_what_is_written_where(info, image, write_options, opts, steps, j);
    let a = steps[7 + i].frame.payload;
    let b = steps[7 + j].frame.payload;
    if a.take(4) == b.take(4) {
        assert(a.take(4)[0] == b.take(4)[0] && a.take(4)[1] == b.take(4)[1] && a.take(4)[2]
            == b.take(4)[2] && a.take(4)[3] == b.take(4)[3]);
    }
}

/// How long a plan is, and how it ends: two blocks are written for each that
/// is erased, the option byte is written back if asked for, as it was read,
/// and the last frame lets the chip go.
pub proof fn law_how_a_plan_ends(
    info: TargetInfoView,
    job: JobView,
    opts: SessionOptions,
    steps: Seq<StepView>,
)
    requires
        stc89::session_for(info, job, opts) == Ok::<Seq<StepView>, ProtocolErrorView>(steps),
    ensures
        ({
            let n = steps.len() as int;
            let last = steps[n - 1];
            &&& last.phase == Phase::Run
            &&& last.frame.dir == Dir::HostToMcu && last.frame.cmd == 0x82
                && last.frame.payload.len() == 0
            &&& last.expect is Nothing
            &&& last.retune_to is None && last.write_addr is None
            &&& last.timeout_ms == opts.reply_timeout_ms
            &&& n == (match job {
                JobView::Identify => 1,
                JobView::Erase { .. } => 8,
                JobView::Flash { write_options, .. } => 8 + 2 * steps[6].frame.payload[0] + (
                if write_options {
                    1int
                } else {
                    0
                }),
            })
            &&& job matches JobView::Flash { write_options: true, .. } ==> {
                let step = steps[n - 2];
                &&& step.phase == Phase::Options
                &&& step.frame.dir == Dir::HostToMcu && step.frame.cmd == 0x8D
                &&& step.frame.payload.len() == info.option_bytes.len() + 3
                &&& forall|k: int|
                    0 <= k < info.option_bytes.len() ==> #[trigger] step.frame.payload[k]
                        == info.option_bytes[k]
                &&& forall|k: int|
                    info.option_bytes.len() <= k < step.frame.payload.len()
                        ==> #[trigger] step.frame.payload[k] == 0xFF
                &&& step.expect is Echo
                &&& step.timeout_ms == opts.reply_timeout_ms
            }
        }),
{
    if !(job is Identify) {
        laws::plan::lemma_plan_parts(info, job, opts, steps);
        lemma_step(info, job, opts, steps, steps.len() - 1);
        lemma_step(info, job, opts, steps, steps.len() - 2);
    }
}

/// When there is no plan, and why.
pub proof fn law_when_there_is_no_plan(
    info: TargetInfoView,
    job: JobView,
    opts: SessionOptions,
    e: ProtocolErrorView,
)
    requires
        stc89::session_for(info, job, opts) == Err::<Seq<StepView>, ProtocolErrorView>(e),
        job matches JobView::Flash { image, .. } ==> image.len() <= usize::MAX,
    ensures
        !(job is Identify),
        match e {
            ProtocolErrorView::UnreachableBaud { baud, reload } => {
                &&& baud == opts.transfer_baud
                &&& baud == 0 ==> reload == 0
                &&& baud > 0 ==> nearest(info.measured_hz, baud, 256 - reload) && (reload < 1
                    || reload > 255)
            },
            ProtocolErrorView::EmptyImage => job matches JobView::Flash { image, .. }
                && image.len() == 0,
            ProtocolErrorView::ImageTooLarge { image: n, capacity } => {
                &&& info.code_flash == Some(capacity)
                &&& job matches JobView::Flash { image, .. } && n == image.len() && n > capacity
            },
            ProtocolErrorView::UnknownChipSize { chip_id } => {
                &&& job == (JobView::Erase { blocks: None })
                &&& info.code_flash is None
                &&& chip_id == info.chip_id
            },
            ProtocolErrorView::EraseTooLarge { blocks } => {
                &&& erases(info, job, blocks as int)
                &&& blocks == 0 || blocks > 255
            },
            _ => false,
        },
{
    law_when_a_rate_has_a_reload(info.measured_hz, opts.transfer_baud);
    if let JobView::Flash { image, .. } = job {
        law_an_image_is_held_in_pairs_of_blocks(image.len());
        assert(stc89::erase_blocks(image.len()) <= usize::MAX);
    }
}

/// A rate out of reach is told of first, whatever else stands against a job
/// with work.
pub proof fn law_the_rate_is_looked_at_first(
    info: TargetInfoView,
    job: JobView,
    opts: SessionOptions,
    ticks: int,
)
    requires
        !(job is Identify),
        opts.transfer_baud == 0 || (nearest(info.measured_hz, opts.transfer_baud, ticks) && !(1
            <= ticks <= 255)),
    ensures
        stc89::session_for(info, job, opts) matches Err(
            ProtocolErrorView::UnreachableBaud { baud, .. },
        ) && baud == opts.transfer_baud,
{
    let (hz, baud) = (info.measured_hz, opts.transfer_baud);
    law_when_a_rate_has_a_reload(hz, baud);
    if baud > 0 {
        if let Ok(r) = stc89::reload_for(hz, baud) {
            let other = 256 - r;
            let b = 32 * baud as int;
            assert(ticks == other) by (nonlinear_arith)
                requires
                    b > 0,
                    -(b / 2) <= hz - ticks * b < b / 2,
                    -(b / 2) <= hz - other * b < b / 2,
            ;
        }
    }
}

/// Only a block has an address to write to.
pub proof fn law_only_blocks_have_an_address(
    info: TargetInfoView,
    job: JobView,
    opts: SessionOptions,
    steps: Seq<StepView>,
    i: int,
)
    requires
        stc89::session_for(info, job, opts) == Ok::<Seq<StepView>, ProtocolErrorView>(steps),
        !(job is Identify),
        0 <= i < steps.len(),
    ensures
        steps[i].write_addr is Some <==> steps[i].phase == Phase::Write,
{
    lemma_step(info, job, opts, steps, i);
    laws::plan::lemma_plan_parts(info, job, opts, steps);
}

/// What each step is called: what it does, and to what.
pub proof fn law_what_each_step_is_called(
    info: TargetInfoView,
    job: JobView,
    opts: SessionOptions,
    steps: Seq<StepView>,
    i: int,
)
    requires
        stc89::session_for(info, job, opts) == Ok::<Seq<StepView>, ProtocolErrorView>(steps),
        !(job is Identify),
        0 <= i < steps.len(),
    ensures
        ({
            let s = steps[i].label;
            let n = steps[6].frame.payload[0] as nat;
            let baud = text::decimal(opts.transfer_baud as nat);
            match steps[i].phase {
                Phase::BaudProbe => s == "baud probe -> "@ + baud + " baud"@,
                Phase::BaudCommit => s == "baud commit -> "@ + baud + " baud"@,
                Phase::LinkTest => s == "link test "@ + text::decimal((i - 1) as nat) + "/"@
                    + text::decimal(4),
                Phase::Erase => s == "erase "@ + text::decimal(n) + " blocks ("@ + text::decimal(
                    n * 256,
                ) + " bytes)"@,
                Phase::Write => s == "write block "@ + text::decimal((i - 6) as nat) + "/"@
                    + text::decimal(2 * n) + " at 0x"@ + text::hex_lower(
                    ((i - 7) * 128) as nat,
                    4,
                ),
                Phase::Options => s == "options (echoing the byte we read)"@,
                Phase::Run => s == "run application"@,
                _ => false,
            }
        }),
{
    lemma_step(info, job, opts, steps, i);
    laws::plan::lemma_plan_parts(info, job, opts, steps);
}

} // verus!
