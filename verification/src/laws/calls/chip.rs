//! Calls on the chip's protocol: what is read from its status packet, what
//! each frame for it says, and what a session for it is.

use vstd::prelude::*;

use crate::frame::{Dir, Frame};
use crate::laws;
use crate::protocol;
use crate::protocol::stc89;
use crate::protocol::stc89::Stc89;
use crate::protocol::{Job, ProtocolError, ProtocolFamily, SessionOptions, TargetInfo};
use crate::session::{Expect, Phase, Step};
use crate::text;

verus! {

// ----------------------------------------------------------------- arithmetic

/// The clock is the word times the rate, times twelve sevenths, rounded down.
pub proof fn law_frequency_hz(word: u16, baud: u32, hz: u64)
    requires
        call_ensures(Stc89::frequency_hz, (word, baud), hz),
    ensures
        7 * hz <= 12 * word * baud < 7 * (hz + 1),
{
    laws::status::law_the_clock_is_twelve_sevenths_of_word_times_rate(word, baud);
}

/// The reload makes the timer overflow after as many ticks as come nearest to
/// the rate, one tick being 32 clocks at it; and there is one exactly if they
/// are from 1 to 255.
pub proof fn law_timer_reload(hz: u64, baud: u32, r: Result<u8, ProtocolError>)
    requires
        call_ensures(Stc89::timer_reload, (hz, baud), r),
    ensures
        match r {
            Ok(reload) => {
                let ticks = 256 - reload;
                &&& baud > 0
                &&& 1 <= ticks <= 255
                &&& laws::steps::nearest(hz, baud, ticks)
            },
            Err(ProtocolError::UnreachableBaud { baud: b, reload }) => {
                let ticks = 256 - reload;
                &&& b == baud
                &&& baud > 0 ==> (ticks < 1 || ticks > 255) && laws::steps::nearest(
                    hz,
                    baud,
                    ticks,
                )
            },
            Err(_) => false,
        },
{
    laws::steps::law_when_a_rate_has_a_reload(hz, baud);
    if let Err(e) = r {
        assert(stc89::reload_for(hz, baud) == Err::<u8, protocol::ProtocolErrorView>(e@));
    }
}

/// An image is erased for by the least number of pairs of blocks of 256 bytes
/// that holds it.
pub proof fn law_erase_blocks_for(len: usize, n: usize)
    requires
        call_ensures(Stc89::erase_blocks_for, (len,), n),
    ensures
        n % 2 == 0,
        256 * n >= len,
        256 * n < len + 512,
{
}

// --------------------------------------------------------------------- frames

/// A write frame says its address in four bytes, its size in two, and then
/// the data: another address gives another frame.
pub proof fn law_write_frame(addr: u32, data: &[u8], f: Frame, other: u32, g: Frame)
    requires
        call_ensures(Stc89::write_frame, (addr, data), f),
        call_ensures(Stc89::write_frame, (other, data), g),
        data@.len() == 128,
    ensures
        ({
            let p = f.payload@;
            &&& f.dir == Dir::HostToMcu
            &&& f.cmd == 0x00
            &&& p.len() == 134
            &&& p[0] * 0x100_0000 + p[1] * 0x1_0000 + p[2] * 0x100 + p[3] == addr
            &&& p[4] * 256 + p[5] == data@.len()
            &&& forall|k: int| 0 <= k < 128 ==> #[trigger] p[6 + k] == data@[k]
            &&& addr != other ==> p.take(4) != g.payload@.take(4)
        }),
{
    laws::steps::law_what_each_frame_says(0, seq![], 0, addr, data@);
    laws::steps::law_what_each_frame_says(0, seq![], 0, other, data@);
    let p = f.payload@;
    let q = g.payload@;
    assert forall|k: int| 0 <= k < 128 implies #[trigger] p[6 + k] == data@[k] by {
        assert(p.skip(6)[k] == p[6 + k]);
    }
    if p.take(4) == q.take(4) {
        assert(p.take(4)[0] == p[0] && p.take(4)[1] == p[1] && p.take(4)[2] == p[2] && p.take(4)[3]
            == p[3]);
        assert(q.take(4)[0] == q[0] && q.take(4)[1] == q[1] && q.take(4)[2] == q[2] && q.take(4)[3]
            == q[3]);
    }
}

/// Both rate frames carry the reload as their second byte, which makes the
/// first two a negative number of ticks.
pub proof fn law_rate_frames(reload: u8, probe: Frame, commit: Frame, field: [u8; 2])
    requires
        call_ensures(Stc89::baud_probe_frame, (reload,), probe),
        call_ensures(Stc89::baud_commit_frame, (reload,), commit),
        call_ensures(Stc89::reload_field, (reload,), field),
    ensures
        probe.dir == Dir::HostToMcu && probe.cmd == 0x8F,
        commit.dir == Dir::HostToMcu && commit.cmd == 0x8E,
        probe.payload@[1] == reload && commit.payload@[1] == reload,
        probe.payload@ == commit.payload@.push(0x81),
        commit.payload@ == field@ + seq![0x00u8, 0x06u8, 0xA0u8],
        field@.len() == 2,
        field@[0] * 256 + field@[1] - 0x1_0000 == reload - 256,
{
    assert(commit.payload@ =~= field@ + seq![0x00u8, 0x06u8, 0xA0u8]);
    assert(probe.payload@ =~= commit.payload@.push(0x81));
}

/// The timer reload for a clock and a rate is what the rate frames carry.
pub proof fn law_the_rate_that_was_asked_for_is_told(
    hz: u64,
    baud: u32,
    reload: u8,
    probe: Frame,
    commit: Frame,
)
    requires
        call_ensures(Stc89::timer_reload, (hz, baud), Ok::<u8, ProtocolError>(reload)),
        call_ensures(Stc89::baud_probe_frame, (reload,), probe),
        call_ensures(Stc89::baud_commit_frame, (reload,), commit),
    ensures
        ({
            let ticks = 256 - probe.payload@[1];
            &&& 1 <= ticks <= 255
            &&& laws::steps::nearest(hz, baud, ticks)
            &&& commit.payload@[1] == probe.payload@[1]
        }),
{
    law_timer_reload(hz, baud, Ok::<u8, ProtocolError>(reload));
}

/// The other frames say what they are made from.
pub proof fn law_other_frames(
    id: &[u8],
    link: Frame,
    blocks: u8,
    erase: Frame,
    info: &TargetInfo,
    options: Frame,
    run: Frame,
)
    requires
        call_ensures(Stc89::link_test_frame, (id,), link),
        call_ensures(Stc89::erase_frame, (blocks,), erase),
        call_ensures(Stc89::options_frame, (info,), options),
        call_ensures(Stc89::run_frame, (), run),
    ensures
        link.dir == Dir::HostToMcu && link.cmd == 0x80,
        link.payload@ == seq![0x00u8, 0x00u8, 0x36u8, 0x01u8] + id@,
        erase.dir == Dir::HostToMcu && erase.cmd == 0x84,
        erase.payload@ == seq![blocks, 0x33u8, 0x33u8, 0x33u8, 0x33u8, 0x33u8, 0x33u8],
        options.dir == Dir::HostToMcu && options.cmd == 0x8D,
        options.payload@ == info.option_bytes@ + seq![0xFFu8, 0xFFu8, 0xFFu8],
        run.dir == Dir::HostToMcu && run.cmd == 0x82 && run.payload@.len() == 0,
{
    assert(erase.payload@ =~= seq![blocks, 0x33u8, 0x33u8, 0x33u8, 0x33u8, 0x33u8, 0x33u8]);
}

/// A block is acknowledged by the low byte of the sum of its bytes.
pub proof fn law_block_ack(data: &[u8], b: u8)
    requires
        call_ensures(Stc89::block_ack, (data,), b),
    ensures
        b == laws::wire::total(data@) % 256,
{
    laws::wire::lemma_total(data@);
}

// --------------------------------------------------------------------- status

/// What a status packet is read as, byte by byte.
pub proof fn law_parse_status(chip: &Stc89, f: &Frame, baud: u32, r: Result<
    TargetInfo,
    ProtocolError,
>)
    requires
        call_ensures(<Stc89 as ProtocolFamily>::parse_status, (chip, f, baud), r),
    ensures
        ({
            let p = f.payload@;
            let asked = f.dir == Dir::McuToHost && f.cmd == 0x00 && p.len() >= 52;
            &&& r matches Ok(info) ==> {
                &&& asked
                &&& forall|i: int|
                    0 <= i < 8 ==> #[trigger] info.freq_words@[i] == p[2 * i] * 256 + p[2 * i + 1]
                &&& forall|i: int|
                    0 <= i < 8 ==> #[trigger] info.freq_words@[i] == p[0] * 256 + p[1]
                &&& laws::status::measures(info.measured_hz as int, p[0] * 256 + p[1], baud)
                &&& 1_000_000 <= info.measured_hz <= 48_000_000
                &&& info.bsl_version@ == laws::status::short_decimal(p[16] as int / 16)
                    + seq!['.'] + laws::status::short_decimal(p[16] as int % 16) + seq![
                    p[17] as char,
                ]
                &&& info.option_bytes@ == seq![p[18]]
                &&& info.chip_id@ == seq![p[19], p[20]]
                &&& info.raw_status@ == p
                &&& info.code_flash is Some <==> p[19] == 0xF0 && p[20] == 0x02
                &&& info.code_flash is Some ==> info.code_flash == Some(8192usize)
                    && info.eeprom_flash == Some(6144usize)
            }
            &&& r matches Err(ProtocolError::NotAStatusFrame { cmd }) ==> cmd == f.cmd && !asked
            &&& r matches Err(ProtocolError::ShortStatus { got, want }) ==> got == p.len() && got
                < want && want == 52
            &&& r is Ok <==> asked && laws::status::words_agree(p) && 7 * 1_000_000 <= 12 * (p[0]
                * 256 + p[1]) * baud < 7 * 48_000_001
        }),
{
    assert(f.payload@.len() <= usize::MAX) by {
        assert(f.payload.len() == f.payload@.len());
    }
    laws::status::law_what_is_read_from_which_byte(f@, baud);
    let p = f.payload@;
    reveal_strlit(".");
    assert("."@ =~= seq!['.']);
    match r {
        Ok(info) => {
            assert(protocol::result_view(r) == Ok::<
                protocol::TargetInfoView,
                protocol::ProtocolErrorView,
            >(info@));
            assert forall|i: int| 0 <= i < 8 implies #[trigger] info.freq_words@[i] == p[0] * 256
                + p[1] by {
                assert(laws::status::word(p, i) == laws::status::word(p, 0));
            }
        },
        Err(e) => {
            assert(protocol::result_view(r) == Err::<
                protocol::TargetInfoView,
                protocol::ProtocolErrorView,
            >(e@));
        },
    }
}

/// What looks like a status packet at first sight.
pub proof fn law_is_status_frame(chip: &Stc89, f: &Frame, r: bool)
    requires
        call_ensures(<Stc89 as ProtocolFamily>::is_status_frame, (chip, f), r),
    ensures
        r <==> f.dir == Dir::McuToHost && f.cmd == 0x00 && f.payload@.len() >= 21,
{
}

// ----------------------------------------------------------------------- plan

/// The first two frames of a plan with work tell the chip the reload that the
/// measured clock and the transfer baud round to; behind the second one's
/// reply the rate changes, and only there.
pub proof fn law_plan_switches_the_rate(
    chip: &Stc89,
    info: &TargetInfo,
    job: &Job,
    opts: &SessionOptions,
    steps: Vec<Step>,
    i: int,
)
    requires
        call_ensures(
            <Stc89 as ProtocolFamily>::plan,
            (chip, info, job, opts),
            Ok::<Vec<Step>, ProtocolError>(steps),
        ),
        !(job is Identify),
        0 <= i < steps@.len(),
    ensures
        steps@.len() >= 8,
        ({
            let probe = steps@[0];
            let commit = steps@[1];
            let ticks = 256 - probe.frame.payload@[1];
            &&& probe.frame.cmd == 0x8F && commit.frame.cmd == 0x8E
            &&& 1 <= ticks <= 255
            &&& laws::steps::nearest(info.measured_hz, opts.transfer_baud, ticks)
            &&& commit.frame.payload@[1] == probe.frame.payload@[1]
            &&& commit.frame.payload@[0] == 0xFF && probe.frame.payload@[0] == 0xFF
            &&& probe.expect is Echo && commit.expect is Echo
        }),
        steps@[i].retune_to == (if i == 1 {
            Some(opts.transfer_baud)
        } else {
            None
        }),
{
    let views = text::views(steps@);
    laws::plan::law_the_rate_changes_once(info@, job@, *opts, views);
    assert(views[0] == steps@[0]@ && views[1] == steps@[1]@ && views[i] == steps@[i]@);
    laws::steps::law_the_chip_is_told_the_reload_of_the_transfer_baud(info@, job@, *opts, views);
}

/// Block `i` of a plan for an image goes to address `128 i` and to no other,
/// and carries the image's bytes from there on, filled up with `0xFF`.
pub proof fn law_plan_writes_the_image(
    chip: &Stc89,
    info: &TargetInfo,
    job: &Job,
    image: Vec<u8>,
    write_options: bool,
    opts: &SessionOptions,
    steps: Vec<Step>,
    i: int,
)
    requires
        call_ensures(
            <Stc89 as ProtocolFamily>::plan,
            (chip, info, job, opts),
            Ok::<Vec<Step>, ProtocolError>(steps),
        ),
        *job == (Job::Flash { image, write_options }),
        0 <= i < 2 * steps@[6].frame.payload@[0],
    ensures
        ({
            let blocks = steps@[6].frame.payload@[0];
            let step = steps@[7 + i];
            let p = step.frame.payload@;
            &&& steps@.len() == 8 + 2 * blocks + (if write_options {
                1int
            } else {
                0
            })
            &&& 256 * blocks >= image@.len() > 256 * (blocks - 2)
            &&& blocks % 2 == 0
            &&& step.phase == Phase::Write
            &&& step.frame.cmd == 0x00
            &&& p.len() == 134
            &&& p[0] * 0x100_0000 + p[1] * 0x1_0000 + p[2] * 0x100 + p[3] == i * 128
            &&& step.write_addr == Some((i * 128) as u32)
            &&& p[4] * 256 + p[5] == 128
            &&& forall|k: int|
                0 <= k < 128 ==> #[trigger] p[6 + k] == (if i * 128 + k < image@.len() {
                    image@[i * 128 + k]
                } else {
                    0xFFu8
                })
            &&& step.expect matches Expect::BlockAck { sum } && sum == laws::wire::total(p.skip(6))
                % 256
        }),
{
    let views = text::views(steps@);
    assert(job@ == (protocol::JobView::Flash { image: image@, write_options }));
    laws::steps::law_how_a_plan_ends(info@, job@, *opts, views);
    assert(views[6] == steps@[6]@ && views[7 + i] == steps@[7 + i]@);
    laws::steps::law_what_is_erased(info@, job@, *opts, views, 6);
    laws::steps::law_what_is_written_where(info@, image@, write_options, *opts, views, i);
}

/// What a plan with work is made of, in order: the two rate frames, four link
/// tests, one erase, the blocks, the option byte as it was read if asked for,
/// and the frame that lets the chip go, which alone is not answered. Only a
/// block has an address to write to.
pub proof fn law_plan_is_made_of(
    chip: &Stc89,
    info: &TargetInfo,
    job: &Job,
    opts: &SessionOptions,
    steps: Vec<Step>,
    i: int,
)
    requires
        call_ensures(
            <Stc89 as ProtocolFamily>::plan,
            (chip, info, job, opts),
            Ok::<Vec<Step>, ProtocolError>(steps),
        ),
        !(job is Identify),
        0 <= i < steps@.len(),
    ensures
        ({
            let n = steps@.len() as int;
            let step = steps@[i];
            let blocks = steps@[6].frame.payload@[0];
            let echoes = match job {
                Job::Flash { write_options, .. } => *write_options,
                _ => false,
            };
            &&& step.phase == (if i == 0 {
                Phase::BaudProbe
            } else if i == 1 {
                Phase::BaudCommit
            } else if i < 6 {
                Phase::LinkTest
            } else if i == 6 {
                Phase::Erase
            } else if i == n - 1 {
                Phase::Run
            } else if i == n - 2 && echoes {
                Phase::Options
            } else {
                Phase::Write
            })
            &&& job is Erase ==> n == 8
            &&& step.expect is Nothing <==> i == n - 1
            &&& step.frame.dir == Dir::HostToMcu
            &&& step.write_addr is Some <==> step.phase == Phase::Write
            &&& step.timeout_ms == (if i == 6 {
                opts.erase_timeout_ms
            } else {
                opts.reply_timeout_ms
            })
            &&& i == 6 ==> laws::steps::erases(info@, job@, blocks as int) && step.frame.cmd == 0x84
            &&& step.phase == Phase::LinkTest ==> step.frame.cmd == 0x80 && step.frame.payload@
                == seq![0x00u8, 0x00u8, 0x36u8, 0x01u8] + info.chip_id@
            &&& step.phase == Phase::Options ==> step.frame.cmd == 0x8D && step.frame.payload@
                == info.option_bytes@ + seq![0xFFu8, 0xFFu8, 0xFFu8] && step.expect is Echo
            &&& step.phase == Phase::Run ==> step.frame.cmd == 0x82 && step.frame.payload@.len()
                == 0
        }),
{
    let views = text::views(steps@);
    let n = steps@.len() as int;
    laws::steps::law_how_a_plan_ends(info@, job@, *opts, views);
    assert(views[i] == steps@[i]@ && views[6] == steps@[6]@);
    laws::steps::law_what_is_erased(info@, job@, *opts, views, i);
    laws::steps::law_the_link_is_tested_four_times(info@, job@, *opts, views, i);
    laws::steps::law_the_chip_is_told_the_reload_of_the_transfer_baud(info@, job@, *opts, views);
    laws::plan::law_only_the_last_frame_is_unanswered(info@, job@, *opts, views);
    assert(views[i].answered() == (i < n - 1));
    if let Job::Flash { image, write_options } = job {
        if 7 <= i < 7 + 2 * steps@[6].frame.payload@[0] {
            laws::steps::law_what_is_written_where(
                info@,
                image@,
                *write_options,
                *opts,
                views,
                i - 7,
            );
        }
        if *write_options && i == n - 2 {
            assert(steps@[i].frame.payload@ =~= info.option_bytes@ + seq![0xFFu8, 0xFFu8, 0xFFu8]);
        }
    }
    laws::steps::law_only_blocks_have_an_address(info@, job@, *opts, views, i);
}

/// Identifying a chip is one frame, which lets it go, and never fails.
pub proof fn law_plan_identifies(
    chip: &Stc89,
    info: &TargetInfo,
    opts: &SessionOptions,
    r: Result<Vec<Step>, ProtocolError>,
)
    requires
        call_ensures(<Stc89 as ProtocolFamily>::plan, (chip, info, &Job::Identify, opts), r),
    ensures
        r matches Ok(steps) && steps@.len() == 1 && steps@[0].frame.cmd == 0x82
            && steps@[0].frame.dir == Dir::HostToMcu && steps@[0].frame.payload@.len() == 0
            && steps@[0].expect is Nothing && steps@[0].retune_to is None && steps@[0].phase
            == Phase::Run && steps@[0].label@ == "run application"@ && steps@[0].timeout_ms
            == opts.reply_timeout_ms && steps@[0].write_addr is None,
{
    match r {
        Ok(steps) => {
            let views = text::views(steps@);
            laws::steps::law_how_a_plan_ends(info@, protocol::JobView::Identify, *opts, views);
            assert(views[0] == steps@[0]@);
        },
        Err(e) => {
            assert(stc89::session_for(info@, protocol::JobView::Identify, *opts) is Ok);
        },
    }
}

/// There is no plan only for one of five reasons, each of which says what was
/// asked for and what stands against it.
pub proof fn law_plan_fails(
    chip: &Stc89,
    info: &TargetInfo,
    job: &Job,
    opts: &SessionOptions,
    e: ProtocolError,
)
    requires
        call_ensures(
            <Stc89 as ProtocolFamily>::plan,
            (chip, info, job, opts),
            Err::<Vec<Step>, ProtocolError>(e),
        ),
    ensures
        match e {
            ProtocolError::UnreachableBaud { baud, reload } => baud == opts.transfer_baud && (baud
                > 0 ==> laws::steps::nearest(info.measured_hz, baud, 256 - reload) && (reload < 1
                || reload > 255)),
            ProtocolError::EmptyImage => job matches Job::Flash { image, .. } && image@.len() == 0,
            ProtocolError::ImageTooLarge { image: n, capacity } => info.code_flash == Some(capacity)
                && (job matches Job::Flash { image, .. } && n == image@.len()) && n > capacity,
            ProtocolError::UnknownChipSize { chip_id } => *job == (Job::Erase { blocks: None })
                && info.code_flash is None && chip_id@ == info.chip_id@,
            ProtocolError::EraseTooLarge { blocks } => laws::steps::erases(
                info@,
                job@,
                blocks as int,
            ) && (blocks == 0 || blocks > 255),
            _ => false,
        },
{
    if let Job::Flash { image, .. } = job {
        assert(image.len() == image@.len());
    }
    laws::steps::law_when_there_is_no_plan(info@, job@, *opts, e@);
}

/// The family's name and its two usual rates, which are also the usual
/// options.
pub proof fn law_what_is_usual(
    chip: &Stc89,
    name: &'static str,
    handshake: u32,
    transfer: u32,
    o: SessionOptions,
)
    requires
        call_ensures(<Stc89 as ProtocolFamily>::name, (chip,), name),
        call_ensures(<Stc89 as ProtocolFamily>::default_handshake_baud, (chip,), handshake),
        call_ensures(<Stc89 as ProtocolFamily>::default_transfer_baud, (chip,), transfer),
        call_ensures(<SessionOptions as Default>::default, (), o),
    ensures
        name@ == "stc89"@,
        handshake == 2400 == o.handshake_baud,
        transfer == 115_200 == o.transfer_baud,
        o.reply_timeout_ms == 2000,
        o.erase_timeout_ms == 20_000,
{
}

} // verus!
