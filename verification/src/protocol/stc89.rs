//! The **STC89** protocol family.

use vstd::prelude::*;

use crate::frame;
use crate::frame::{append_bytes, checksum, copy_bytes, join_be16, Dir, Frame, FrameView};
use crate::protocol::{
    Job, JobView, ProtocolError, ProtocolErrorView, ProtocolFamily, SessionOptions, TargetInfo,
    TargetInfoView,
};
use crate::session::{Expect, ExpectView, Phase, Step, StepView};
use crate::text;
use crate::text::{push_decimal, push_hex_lower};

verus! {

// ------------------------------------------------------------------ commands

/// Unsolicited status/identify packet, MCU→host. Also the write-block command,
/// host→MCU: the direction byte tells them apart.
pub const CMD_STATUS: u8 = 0x00;

/// Write one 128-byte block.
pub const CMD_WRITE: u8 = 0x00;

/// Baud probe. Echoed.
pub const CMD_BAUD_PROBE: u8 = 0x8F;

/// Baud commit. Echoed. Both ends retune afterwards.
pub const CMD_BAUD_COMMIT: u8 = 0x8E;

/// Link test at the new baud. Sent four times.
pub const CMD_LINK_TEST: u8 = 0x80;

/// Erase a number of blocks of 256 bytes.
pub const CMD_ERASE: u8 = 0x84;

/// Write the option byte. Echoed. Skippable.
pub const CMD_OPTIONS: u8 = 0x8D;

/// Leave the bootloader and run the application. **Never answered.**
pub const CMD_RUN: u8 = 0x82;

/// The MCU's generic acknowledgement command byte.
pub const REPLY_ACK: u8 = 0x80;

// ----------------------------------------------------------------- constants

/// Status frame payload length: a 60-byte frame minus 8 bytes of framing.
pub const STATUS_PAYLOAD_LEN: usize = 52;

/// The number of frequency words, which open the status payload.
pub const FREQ_WORD_COUNT: usize = 8;

/// Payload offset of the bootloader version.
pub const OFF_VERSION: usize = 16;

/// Payload offset of the option byte.
pub const OFF_OPTION: usize = 18;

/// Payload offset of the chip identity.
pub const OFF_CHIP_ID: usize = 19;

pub const CHIP_ID_LEN: usize = 2;

/// Sanity band for the measured frequency. The family is rated to 40 MHz; the
/// lower bound only catches a garbled measurement.
pub const FREQ_MIN_HZ: u64 = 1_000_000;

pub const FREQ_MAX_HZ: u64 = 48_000_000;

/// How often the link test is sent: the acks are the only proof that both
/// ends landed on the new baud.
pub const LINK_TEST_REPEATS: usize = 4;

/// The erase reply's payload is 7 bytes, e.g. `F0 02 C4 2B 01 83 74`. It
/// begins with the chip id; the other five bytes are unexplained, so the
/// length and the chip id are asserted, and the tail is not.
pub const ERASE_REPLY_LEN: usize = 7;

/// The erase unit. *Not* the write unit.
pub const ERASE_BLOCK: usize = 256;

/// Erase granularity: 512 bytes, expressed as an even number of 256-byte
/// blocks.
pub const ERASE_GRANULE: usize = 512;

/// The write unit: 128 data bytes per frame.
pub const WRITE_BLOCK: usize = 128;

/// What is known of a chip.
pub struct Chip {
    pub model: Seq<char>,
    pub code_flash: usize,
    pub eeprom_flash: usize,
}

/// The chips that have been seen on a bench. A lookup table of observations,
/// deliberately not an algorithm.
pub open spec fn known_chip(id: Seq<u8>) -> Option<Chip> {
    if id == seq![0xF0u8, 0x02u8] {
        Some(Chip { model: "STC89C52RC/LE52RC"@, code_flash: 8192, eeprom_flash: 6144 })
    } else {
        None
    }
}

// ---------------------------------------------------------------- arithmetic

/// `f_osc = word × baud × 12 / 7`: the 12 is the classic 8051 machine cycle,
/// the 7 the number of bit times that the bootloader measures.
pub open spec fn frequency(word: u16, handshake_baud: u32) -> nat {
    (word as nat * handshake_baud as nat * 12) / 7
}

/// `f_osc / (baud × 32)`, rounded to the nearest integer, halves up.
pub open spec fn timer_ticks(f_osc: u64, transfer_baud: u32) -> nat {
    let denom = transfer_baud as nat * 32;
    (f_osc as nat + denom / 2) / denom
}

/// The 8-bit timer reload for a transfer baud, if there is one.
pub open spec fn reload_for(f_osc: u64, transfer_baud: u32) -> Result<u8, ProtocolErrorView> {
    if transfer_baud == 0 {
        Err(ProtocolErrorView::UnreachableBaud { baud: 0, reload: 0 })
    } else {
        let reload = 256 - timer_ticks(f_osc, transfer_baud);
        if 1 <= reload <= 255 {
            Ok(reload as u8)
        } else {
            Err(
                ProtocolErrorView::UnreachableBaud { baud: transfer_baud, reload: reload as i64 },
            )
        }
    }
}

/// `2 × ceil(size / 512)`.
pub open spec fn erase_blocks(image_len: nat) -> nat {
    2 * ((image_len + 511) / 512)
}

/// A 32-bit number as four bytes, most significant first.
pub open spec fn be32(n: u32) -> Seq<u8> {
    seq![
        (n / 0x100_0000) as u8,
        (n / 0x1_0000 % 256) as u8,
        (n / 0x100 % 256) as u8,
        (n % 256) as u8,
    ]
}

// -------------------------------------------------------------- host frames

pub open spec fn host_frame(cmd: u8, payload: Seq<u8>) -> FrameView {
    FrameView { dir: Dir::HostToMcu, cmd, payload }
}

pub open spec fn baud_probe(reload: u8) -> FrameView {
    host_frame(CMD_BAUD_PROBE, seq![0xFFu8, reload, 0x00u8, 0x06u8, 0xA0u8, 0x81u8])
}

pub open spec fn baud_commit(reload: u8) -> FrameView {
    host_frame(CMD_BAUD_COMMIT, seq![0xFFu8, reload, 0x00u8, 0x06u8, 0xA0u8])
}

pub open spec fn link_test(chip_id: Seq<u8>) -> FrameView {
    host_frame(CMD_LINK_TEST, seq![0x00u8, 0x00u8, 0x36u8, 0x01u8] + chip_id)
}

pub open spec fn erase(blocks: u8) -> FrameView {
    host_frame(CMD_ERASE, seq![blocks, 0x33u8, 0x33u8, 0x33u8, 0x33u8, 0x33u8, 0x33u8])
}

pub open spec fn write(addr: u32, data: Seq<u8>) -> FrameView {
    host_frame(CMD_WRITE, be32(addr) + seq![0x00u8, 0x80u8] + data)
}

/// The option bytes that were read, and three `0xFF`s: never anything else.
pub open spec fn options(info: TargetInfoView) -> FrameView {
    host_frame(CMD_OPTIONS, info.option_bytes + seq![0xFFu8, 0xFFu8, 0xFFu8])
}

pub open spec fn run() -> FrameView {
    host_frame(CMD_RUN, seq![])
}

// ------------------------------------------------------------- status packet

/// The frequency words of a status payload.
pub open spec fn freq_words(p: Seq<u8>) -> Seq<u16> {
    Seq::new(FREQ_WORD_COUNT as nat, |i: int| frame::be16(p[2 * i], p[2 * i + 1]))
}

/// The version as a reader writes it: two digits of a BCD byte and a letter.
pub open spec fn version_text(bcd: u8, letter: u8) -> Seq<char> {
    (text::decimal((bcd / 16) as nat) + "."@ + text::decimal((bcd % 16) as nat)).push(
        letter as char,
    )
}

pub open spec fn is_status(f: FrameView) -> bool {
    &&& f.dir == Dir::McuToHost
    &&& f.cmd == CMD_STATUS
    &&& f.payload.len() >= OFF_CHIP_ID + CHIP_ID_LEN
}

/// What a status payload says of the target.
pub open spec fn target(p: Seq<u8>, handshake_baud: u32) -> TargetInfoView {
    let id = seq![p[19], p[20]];
    let chip = known_chip(id);
    TargetInfoView {
        family: "stc89"@,
        chip_id: id,
        model: match chip {
            Some(c) => Some(c.model),
            None => None,
        },
        code_flash: match chip {
            Some(c) => Some(c.code_flash),
            None => None,
        },
        eeprom_flash: match chip {
            Some(c) => Some(c.eeprom_flash),
            None => None,
        },
        bsl_version: version_text(p[16], p[17]),
        measured_hz: frequency(freq_words(p)[0], handshake_baud) as u64,
        freq_words: freq_words(p),
        option_bytes: seq![p[18]],
        raw_status: p,
    }
}

/// What a frame says of the target, or the first check that it fails.
pub open spec fn status_of(f: FrameView, handshake_baud: u32) -> Result<
    TargetInfoView,
    ProtocolErrorView,
> {
    let p = f.payload;
    let words = freq_words(p);
    if f.cmd != CMD_STATUS || f.dir != Dir::McuToHost {
        Err(ProtocolErrorView::NotAStatusFrame { cmd: f.cmd })
    } else if p.len() < STATUS_PAYLOAD_LEN {
        Err(ProtocolErrorView::ShortStatus { got: p.len() as usize, want: STATUS_PAYLOAD_LEN })
    } else if exists|i: int| 0 <= i < words.len() && #[trigger] words[i] != words[0] {
        Err(ProtocolErrorView::InconsistentFrequency(words))
    } else if !(FREQ_MIN_HZ <= frequency(words[0], handshake_baud) <= FREQ_MAX_HZ) {
        Err(
            ProtocolErrorView::ImplausibleFrequency(frequency(words[0], handshake_baud) as u64),
        )
    } else {
        Ok(target(p, handshake_baud))
    }
}

// ---------------------------------------------------------------------- plan

pub open spec fn plain_step(
    phase: Phase,
    label: Seq<char>,
    frame: FrameView,
    expect: ExpectView,
    timeout_ms: u64,
) -> StepView {
    StepView { phase, label, frame, expect, timeout_ms, retune_to: None, write_addr: None }
}

/// The step that asks whether the MCU can do the transfer baud.
pub open spec fn probe_step(reload: u8, opts: SessionOptions) -> StepView {
    plain_step(
        Phase::BaudProbe,
        "baud probe -> "@ + text::decimal(opts.transfer_baud as nat) + " baud"@,
        baud_probe(reload),
        ExpectView::Echo,
        opts.reply_timeout_ms,
    )
}

/// The step that commits to the transfer baud: the link is retuned once its
/// echo has come.
pub open spec fn commit_step(reload: u8, opts: SessionOptions) -> StepView {
    StepView {
        retune_to: Some(opts.transfer_baud),
        ..plain_step(
            Phase::BaudCommit,
            "baud commit -> "@ + text::decimal(opts.transfer_baud as nat) + " baud"@,
            baud_commit(reload),
            ExpectView::Echo,
            opts.reply_timeout_ms,
        )
    }
}

pub open spec fn link_step(info: TargetInfoView, i: int, opts: SessionOptions) -> StepView {
    plain_step(
        Phase::LinkTest,
        "link test "@ + text::decimal((i + 1) as nat) + "/"@ + text::decimal(
            LINK_TEST_REPEATS as nat,
        ),
        link_test(info.chip_id),
        ExpectView::Ack { cmd: REPLY_ACK, payload: seq![] },
        opts.reply_timeout_ms,
    )
}

pub open spec fn erase_step(info: TargetInfoView, blocks: nat, opts: SessionOptions) -> StepView {
    plain_step(
        Phase::Erase,
        "erase "@ + text::decimal(blocks) + " blocks ("@ + text::decimal(blocks * 256)
            + " bytes)"@,
        erase(blocks as u8),
        ExpectView::AckPrefix {
            cmd: REPLY_ACK,
            payload_len: ERASE_REPLY_LEN,
            prefix: info.chip_id,
        },
        opts.erase_timeout_ms,
    )
}

pub open spec fn options_step(info: TargetInfoView, opts: SessionOptions) -> StepView {
    plain_step(
        Phase::Options,
        "options (echoing the byte we read)"@,
        options(info),
        ExpectView::Echo,
        opts.reply_timeout_ms,
    )
}

/// The last step of every session. The MCU never answers it.
pub open spec fn final_step(opts: SessionOptions) -> StepView {
    plain_step(
        Phase::Run,
        "run application"@,
        run(),
        ExpectView::Nothing,
        opts.reply_timeout_ms,
    )
}

/// An image filled up with `0xFF` to the size of a region.
pub open spec fn padded(image: Seq<u8>, region: nat) -> Seq<u8> {
    Seq::new(
        region,
        |j: int|
            if j < image.len() {
                image[j]
            } else {
                0xFFu8
            },
    )
}

/// The data of write block `i`.
pub open spec fn block_data(data: Seq<u8>, i: int) -> Seq<u8> {
    data.subrange(i * 128, i * 128 + 128)
}

/// The step that programs block `i` of `data`.
pub open spec fn write_step(data: Seq<u8>, i: int, opts: SessionOptions) -> StepView {
    let addr = (i * 128) as u32;
    StepView {
        write_addr: Some(addr),
        ..plain_step(
            Phase::Write,
            "write block "@ + text::decimal((i + 1) as nat) + "/"@ + text::decimal(
                data.len() / 128,
            ) + " at 0x"@ + text::hex_lower(addr as nat, 4),
            write(addr, block_data(data, i)),
            ExpectView::BlockAck { sum: frame::sum8(block_data(data, i)) },
            opts.reply_timeout_ms,
        )
    }
}

/// The steps that program a region, block after block.
pub open spec fn write_steps(data: Seq<u8>, opts: SessionOptions) -> Seq<StepView> {
    Seq::new(data.len() / 128, |i: int| write_step(data, i, opts))
}

/// How many erase blocks a job needs, before it is known whether so many can
/// be asked for.
pub open spec fn blocks_wanted(info: TargetInfoView, job: JobView) -> Result<
    nat,
    ProtocolErrorView,
> {
    match job {
        JobView::Identify => Ok(0),
        JobView::Erase { blocks: Some(n) } => Ok(n as nat),
        JobView::Erase { blocks: None } => match info.code_flash {
            Some(cap) => Ok(cap as nat / 256),
            None => Err(ProtocolErrorView::UnknownChipSize { chip_id: info.chip_id }),
        },
        JobView::Flash { image, .. } => if image.len() == 0 {
            Err(ProtocolErrorView::EmptyImage)
        } else if info.code_flash matches Some(cap) && image.len() > cap {
            Err(
                ProtocolErrorView::ImageTooLarge {
                    image: image.len() as usize,
                    capacity: info.code_flash.unwrap(),
                },
            )
        } else {
            Ok(erase_blocks(image.len()))
        },
    }
}

/// How many erase blocks a job asks for.
pub open spec fn blocks_for(info: TargetInfoView, job: JobView) -> Result<nat, ProtocolErrorView> {
    match blocks_wanted(info, job) {
        Err(e) => Err(e),
        Ok(blocks) => if blocks == 0 || blocks > 0xFF {
            Err(ProtocolErrorView::EraseTooLarge { blocks: blocks as usize })
        } else {
            Ok(blocks)
        },
    }
}

/// The steps up to the transfer baud, and the proof that both ends are on it.
pub open spec fn negotiation(info: TargetInfoView, reload: u8, opts: SessionOptions) -> Seq<
    StepView,
> {
    seq![
        probe_step(reload, opts),
        commit_step(reload, opts),
        link_step(info, 0, opts),
        link_step(info, 1, opts),
        link_step(info, 2, opts),
        link_step(info, 3, opts),
    ]
}

/// The steps that program an image, and echo the option byte if asked to.
pub open spec fn programming(info: TargetInfoView, job: JobView, blocks: nat, opts: SessionOptions) -> Seq<
    StepView,
> {
    match job {
        JobView::Flash { image, write_options } => write_steps(
            padded(image, blocks * 256),
            opts,
        ) + (if write_options {
            seq![options_step(info, opts)]
        } else {
            seq![]
        }),
        _ => seq![],
    }
}

/// The session for a job.
pub open spec fn session_for(info: TargetInfoView, job: JobView, opts: SessionOptions) -> Result<
    Seq<StepView>,
    ProtocolErrorView,
> {
    if job is Identify {
        Ok(seq![final_step(opts)])
    } else {
        match reload_for(info.measured_hz, opts.transfer_baud) {
            Err(e) => Err(e),
            Ok(reload) => match blocks_for(info, job) {
                Err(e) => Err(e),
                Ok(blocks) => Ok(
                    (negotiation(info, reload, opts).push(erase_step(info, blocks, opts)) + programming(
                        info,
                        job,
                        blocks,
                        opts,
                    )).push(final_step(opts)),
                ),
            },
        }
    }
}

// -------------------------------------------------------------------- family

/// The STC89 family.
pub struct Stc89;

/// A view is added where its value is.
proof fn lemma_views_push<T: View>(s: Seq<T>, t: T)
    ensures
        text::views(s.push(t)) == text::views(s).push(t@),
{
    assert(text::views(s.push(t)) =~= text::views(s).push(t@));
}

/// Put a step at the end of a plan.
fn push_step(steps: &mut Vec<Step>, step: Step)
    ensures
        text::views(final(steps)@) == text::views(old(steps)@).push(step@),
{
    proof {
        lemma_views_push(steps@, step);
    }
    steps.push(step);
}

impl Stc89 {
    /// `f_osc = word × baud × 12 / 7`, in exact integer arithmetic.
    pub fn frequency_hz(word: u16, handshake_baud: u32) -> (hz: u64)
        ensures
            hz == frequency(word, handshake_baud),
    {
        assert(word as nat * handshake_baud as nat <= 0xFFFF * 0xFFFF_FFFF) by (nonlinear_arith)
            requires
                word <= 0xFFFF,
                handshake_baud <= 0xFFFF_FFFF,
        ;
        (word as u64 * handshake_baud as u64 * 12) / 7
    }

    /// `reload = round(256 − f_osc / (baud × 32))`, as an 8-bit timer reload.
    pub fn timer_reload(f_osc: u64, transfer_baud: u32) -> (r: Result<u8, ProtocolError>)
        ensures
            match r {
                Ok(reload) => reload_for(f_osc, transfer_baud) == Ok::<u8, ProtocolErrorView>(
                    reload,
                ),
                Err(e) => reload_for(f_osc, transfer_baud) == Err::<u8, ProtocolErrorView>(e@),
            },
    {
        let denom: u128 = transfer_baud as u128 * 32;
        if denom == 0 {
            return Err(ProtocolError::UnreachableBaud { baud: transfer_baud, reload: 0 });
        }
        // round(f / denom) in integer arithmetic
        let num: u128 = f_osc as u128 + denom / 2;
        let ticks: u128 = num / denom;
        assert(ticks <= num / 32) by (nonlinear_arith)
            requires
                ticks == num / denom,
                denom >= 32,
        ;
        let reload: i64 = 256i64 - ticks as i64;
        if reload < 1 || reload > 255 {
            return Err(ProtocolError::UnreachableBaud { baud: transfer_baud, reload });
        }
        Ok(reload as u8)
    }

    /// The 16-bit big-endian two's-complement form the baud frames carry: an
    /// 8-bit reload of `0xFD` appears on the wire as `FF FD`, i.e. −3.
    pub fn reload_field(reload: u8) -> (r: [u8; 2])
        ensures
            r@ == seq![0xFFu8, reload],
            frame::be16(r@[0], r@[1]) == 0x1_0000 - (256 - reload),
    {
        let v: u16 = (0x1_0000i32 - (256 - reload as i32)) as u16;
        let r: [u8; 2] = [(v / 256) as u8, (v % 256) as u8];
        assert(r@ =~= seq![0xFFu8, reload]);
        r
    }

    /// `2 × ceil(size / 512)` erase blocks.
    pub fn erase_blocks_for(image_len: usize) -> (n: usize)
        ensures
            n == erase_blocks(image_len as nat),
    {
        let whole: usize = image_len / ERASE_GRANULE;
        if image_len % ERASE_GRANULE == 0 {
            2 * whole
        } else {
            2 * (whole + 1)
        }
    }

    pub fn baud_probe_frame(reload: u8) -> (f: Frame)
        ensures
            f@ == baud_probe(reload),
    {
        let r: [u8; 2] = Self::reload_field(reload);
        let mut p: Vec<u8> = Vec::new();
        p.push(r[0]);
        p.push(r[1]);
        p.push(0x00);
        p.push(0x06);
        p.push(0xA0);
        p.push(0x81);
        assert(p@ =~= baud_probe(reload).payload);
        Frame::host(CMD_BAUD_PROBE, p)
    }

    pub fn baud_commit_frame(reload: u8) -> (f: Frame)
        ensures
            f@ == baud_commit(reload),
    {
        let r: [u8; 2] = Self::reload_field(reload);
        let mut p: Vec<u8> = Vec::new();
        p.push(r[0]);
        p.push(r[1]);
        p.push(0x00);
        p.push(0x06);
        p.push(0xA0);
        assert(p@ =~= baud_commit(reload).payload);
        Frame::host(CMD_BAUD_COMMIT, p)
    }

    pub fn link_test_frame(chip_id: &[u8]) -> (f: Frame)
        ensures
            f@ == link_test(chip_id@),
    {
        let mut p: Vec<u8> = Vec::new();
        p.push(0x00);
        p.push(0x00);
        p.push(0x36);
        p.push(0x01);
        assert(p@ =~= seq![0x00u8, 0x00u8, 0x36u8, 0x01u8]);
        append_bytes(&mut p, chip_id);
        Frame::host(CMD_LINK_TEST, p)
    }

    pub fn erase_frame(blocks: u8) -> (f: Frame)
        ensures
            f@ == erase(blocks),
    {
        let mut p: Vec<u8> = Vec::new();
        p.push(blocks);
        p.push(0x33);
        p.push(0x33);
        p.push(0x33);
        p.push(0x33);
        p.push(0x33);
        p.push(0x33);
        assert(p@ =~= erase(blocks).payload);
        Frame::host(CMD_ERASE, p)
    }

    /// One write block. `data` must be exactly [`WRITE_BLOCK`] bytes.
    pub fn write_frame(addr: u32, data: &[u8]) -> (f: Frame)
        requires
            data@.len() == WRITE_BLOCK,
        ensures
            f@ == write(addr, data@),
    {
        let mut p: Vec<u8> = Vec::new();
        p.push((addr / 0x100_0000) as u8);
        p.push((addr / 0x1_0000 % 256) as u8);
        p.push((addr / 0x100 % 256) as u8);
        p.push((addr % 256) as u8);
        let count: u16 = data.len() as u16;
        p.push((count / 256) as u8);
        p.push((count % 256) as u8);
        assert(p@ =~= be32(addr) + seq![0x00u8, 0x80u8]);
        append_bytes(&mut p, data);
        Frame::host(CMD_WRITE, p)
    }

    /// The per-block ack byte: the low byte of the sum of the data bytes.
    pub fn block_ack(data: &[u8]) -> (b: u8)
        ensures
            b == frame::sum8(data@),
    {
        checksum(data)
    }

    /// The options frame. Takes the [`TargetInfo`] and not a byte, on purpose:
    /// there is no way to ask for an option value that was not first read off
    /// the wire.
    pub fn options_frame(info: &TargetInfo) -> (f: Frame)
        ensures
            f@ == options(info@),
    {
        let mut p: Vec<u8> = copy_bytes(&info.option_bytes);
        p.push(0xFF);
        p.push(0xFF);
        p.push(0xFF);
        assert(p@ =~= options(info@).payload);
        Frame::host(CMD_OPTIONS, p)
    }

    /// The frame that releases the chip to its application.
    pub fn run_frame() -> (f: Frame)
        ensures
            f@ == run(),
    {
        let p: Vec<u8> = Vec::new();
        assert(p@ =~= run().payload);
        Frame::host(CMD_RUN, p)
    }

    /// The frequency words of a status payload.
    fn read_words(p: &Vec<u8>) -> (w: Vec<u16>)
        requires
            p@.len() >= STATUS_PAYLOAD_LEN,
        ensures
            w@ == freq_words(p@),
    {
        let mut words: Vec<u16> = Vec::new();
        let mut i: usize = 0;
        while i < FREQ_WORD_COUNT
            invariant
                p@.len() >= STATUS_PAYLOAD_LEN,
                0 <= i <= FREQ_WORD_COUNT,
                words@ == freq_words(p@).take(i as int),
            decreases FREQ_WORD_COUNT - i,
        {
            words.push(join_be16(p[i * 2], p[i * 2 + 1]));
            assert(words@ =~= freq_words(p@).take(i + 1));
            i = i + 1;
        }
        assert(words@ =~= freq_words(p@));
        words
    }

    /// The version as a reader writes it.
    fn read_version(bcd: u8, letter: u8) -> (s: String)
        ensures
            s@ == version_text(bcd, letter),
    {
        let mut s: String = String::new();
        push_decimal(&mut s, (bcd / 16) as u64);
        s.append(".");
        push_decimal(&mut s, (bcd % 16) as u64);
        s.push(letter as char);
        assert(s@ =~= version_text(bcd, letter));
        s
    }

    /// How many erase blocks a job asks for.
    fn count_blocks(info: &TargetInfo, job: &Job) -> (r: Result<usize, ProtocolError>)
        requires
            !(job@ is Identify),
        ensures
            match r {
                Ok(n) => blocks_for(info@, job@) == Ok::<nat, ProtocolErrorView>(n as nat),
                Err(e) => blocks_for(info@, job@) == Err::<nat, ProtocolErrorView>(e@),
            },
    {
        let blocks: usize = match job {
            Job::Identify => 0,
            Job::Erase { blocks: Some(n) } => *n as usize,
            Job::Erase { blocks: None } => match info.code_flash {
                Some(cap) => cap / ERASE_BLOCK,
                None => {
                    return Err(
                        ProtocolError::UnknownChipSize { chip_id: copy_bytes(&info.chip_id) },
                    );
                },
            },
            Job::Flash { image, .. } => {
                if image.len() == 0 {
                    return Err(ProtocolError::EmptyImage);
                }
                if let Some(cap) = info.code_flash {
                    if image.len() > cap {
                        return Err(
                            ProtocolError::ImageTooLarge { image: image.len(), capacity: cap },
                        );
                    }
                }
                Stc89::erase_blocks_for(image.len())
            },
        };
        if blocks == 0 || blocks > 0xFF {
            return Err(ProtocolError::EraseTooLarge { blocks });
        }
        Ok(blocks)
    }

    /// Add the steps up to the transfer baud.
    fn push_negotiation(
        steps: &mut Vec<Step>,
        info: &TargetInfo,
        reload: u8,
        opts: &SessionOptions,
    )
        requires
            old(steps)@.len() == 0,
        ensures
            text::views(final(steps)@) == negotiation(info@, reload, *opts),
    {
        let mut probe_label: String = "baud probe -> ".to_owned();
        push_decimal(&mut probe_label, opts.transfer_baud as u64);
        probe_label.append(" baud");
        push_step(
            steps,
            Step {
                phase: Phase::BaudProbe,
                label: probe_label,
                frame: Stc89::baud_probe_frame(reload),
                expect: Expect::Echo,
                timeout_ms: opts.reply_timeout_ms,
                retune_to: None,
                write_addr: None,
            },
        );
        let mut commit_label: String = "baud commit -> ".to_owned();
        push_decimal(&mut commit_label, opts.transfer_baud as u64);
        commit_label.append(" baud");
        push_step(
            steps,
            Step {
                phase: Phase::BaudCommit,
                label: commit_label,
                frame: Stc89::baud_commit_frame(reload),
                expect: Expect::Echo,
                timeout_ms: opts.reply_timeout_ms,
                retune_to: Some(opts.transfer_baud),
                write_addr: None,
            },
        );
        let ghost whole = negotiation(info@, reload, *opts);
        assert(text::views(steps@) =~= whole.take(2));
        let mut i: usize = 0;
        while i < LINK_TEST_REPEATS
            invariant
                0 <= i <= LINK_TEST_REPEATS,
                whole == negotiation(info@, reload, *opts),
                text::views(steps@) == whole.take(i + 2),
            decreases LINK_TEST_REPEATS - i,
        {
            let mut label: String = "link test ".to_owned();
            push_decimal(&mut label, (i + 1) as u64);
            label.append("/");
            push_decimal(&mut label, LINK_TEST_REPEATS as u64);
            let ack: Vec<u8> = Vec::new();
            let step: Step = Step {
                phase: Phase::LinkTest,
                label,
                frame: Stc89::link_test_frame(&info.chip_id),
                expect: Expect::Ack { cmd: REPLY_ACK, payload: ack },
                timeout_ms: opts.reply_timeout_ms,
                retune_to: None,
                write_addr: None,
            };
            assert(step@.expect->Ack_payload =~= Seq::<u8>::empty());
            assert(step@ == link_step(info@, i as int, *opts));
            assert(whole[i + 2] == link_step(info@, i as int, *opts));
            push_step(steps, step);
            assert(text::views(steps@) =~= whole.take(i + 3));
            i = i + 1;
        }
        assert(whole.take(6) =~= whole);
    }

    /// Add the steps that program `data`.
    fn push_writes(steps: &mut Vec<Step>, data: &Vec<u8>, opts: &SessionOptions)
        requires
            data@.len() % 128 == 0,
            data@.len() <= 0x1_0000,
        ensures
            text::views(final(steps)@) == text::views(old(steps)@) + write_steps(data@, *opts),
    {
        let total: usize = data.len() / WRITE_BLOCK;
        let ghost before = text::views(steps@);
        let ghost whole = write_steps(data@, *opts);
        let mut i: usize = 0;
        assert(before + whole.take(0) =~= before);
        while i < total
            invariant
                0 <= i <= total,
                total == data@.len() / 128,
                data@.len() <= 0x1_0000,
                whole == write_steps(data@, *opts),
                text::views(steps@) == before + whole.take(i as int),
            decreases total - i,
        {
            let offset: usize = i * WRITE_BLOCK;
            let chunk: &[u8] = vstd::slice::slice_subrange(
                data.as_slice(),
                offset,
                offset + WRITE_BLOCK,
            );
            assert(chunk@ == block_data(data@, i as int));
            let addr: u32 = offset as u32;
            let mut label: String = "write block ".to_owned();
            push_decimal(&mut label, (i + 1) as u64);
            label.append("/");
            push_decimal(&mut label, total as u64);
            label.append(" at 0x");
            push_hex_lower(&mut label, addr as u64, 4);
            let step: Step = Step {
                phase: Phase::Write,
                label,
                frame: Stc89::write_frame(addr, chunk),
                expect: Expect::BlockAck { sum: Stc89::block_ack(chunk) },
                timeout_ms: opts.reply_timeout_ms,
                retune_to: None,
                write_addr: Some(addr),
            };
            assert(step@ == write_step(data@, i as int, *opts));
            push_step(steps, step);
            assert(text::views(steps@) =~= before + whole.take(i + 1));
            i = i + 1;
        }
        assert(whole.take(total as int) =~= whole);
    }

    /// An image filled up with `0xFF` to the size of a region.
    pub(crate) fn pad(image: &Vec<u8>, region: usize) -> (data: Vec<u8>)
        requires
            image@.len() <= region,
        ensures
            data@ == padded(image@, region as nat),
    {
        let mut data: Vec<u8> = copy_bytes(image);
        data.resize(region, 0xFF);
        proof {
            let front = data@.subrange(0, image@.len() as int);
            if image@.len() < region {
                assert(front == image@);
                assert forall|j: int| 0 <= j < image@.len() implies data@[j] == image@[j] by {
                    assert(front[j] == data@[j]);
                }
            }
            assert(data@ =~= padded(image@, region as nat));
        }
        data
    }
}

/// The last step of every session.
fn run_step(opts: &SessionOptions) -> (s: Step)
    ensures
        s@ == final_step(*opts),
{
    Step {
        phase: Phase::Run,
        label: "run application".to_owned(),
        frame: Stc89::run_frame(),
        // The MCU never answers this. Waiting here reports a false failure on
        // a perfectly successful flash.
        expect: Expect::Nothing,
        timeout_ms: opts.reply_timeout_ms,
        retune_to: None,
        write_addr: None,
    }
}

impl ProtocolFamily for Stc89 {
    open spec fn status_frame(&self, f: FrameView) -> bool {
        is_status(f)
    }

    open spec fn status(&self, f: FrameView, handshake_baud: u32) -> Result<
        TargetInfoView,
        ProtocolErrorView,
    > {
        status_of(f, handshake_baud)
    }

    open spec fn session(&self, info: TargetInfoView, job: JobView, opts: SessionOptions) -> Result<
        Seq<StepView>,
        ProtocolErrorView,
    > {
        session_for(info, job, opts)
    }

    fn name(&self) -> (s: &'static str)
        ensures
            s@ == "stc89"@,
    {
        "stc89"
    }

    fn default_handshake_baud(&self) -> (b: u32)
        ensures
            b == 2400,
    {
        2400
    }

    fn default_transfer_baud(&self) -> (b: u32)
        ensures
            b == 115200,
    {
        115200
    }

    fn is_status_frame(&self, frame: &Frame) -> (r: bool) {
        frame.dir == Dir::McuToHost && frame.cmd == CMD_STATUS && frame.payload.len() >= OFF_CHIP_ID
            + CHIP_ID_LEN
    }

    fn parse_status(&self, frame: &Frame, handshake_baud: u32) -> (r: Result<
        TargetInfo,
        ProtocolError,
    >) {
        if frame.cmd != CMD_STATUS || frame.dir != Dir::McuToHost {
            return Err(ProtocolError::NotAStatusFrame { cmd: frame.cmd });
        }
        let p: &Vec<u8> = &frame.payload;
        if p.len() < STATUS_PAYLOAD_LEN {
            return Err(ProtocolError::ShortStatus { got: p.len(), want: STATUS_PAYLOAD_LEN });
        }
        let words: Vec<u16> = Self::read_words(p);
        let mut i: usize = 0;
        while i < words.len()
            invariant
                0 <= i <= words@.len(),
                words@ == freq_words(p@),
                p@ == frame@.payload,
                p@.len() >= STATUS_PAYLOAD_LEN,
                frame@.cmd == CMD_STATUS,
                frame@.dir == Dir::McuToHost,
                forall|k: int| 0 <= k < i ==> #[trigger] words@[k] == words@[0],
            decreases words.len() - i,
        {
            if words[i] != words[0] {
                assert(freq_words(frame@.payload)[i as int] != freq_words(frame@.payload)[0]);
                return Err(ProtocolError::InconsistentFrequency(words));
            }
            i = i + 1;
        }
        let hz: u64 = Self::frequency_hz(words[0], handshake_baud);
        if hz < FREQ_MIN_HZ || hz > FREQ_MAX_HZ {
            return Err(ProtocolError::ImplausibleFrequency(hz));
        }
        let bsl_version: String = Self::read_version(p[OFF_VERSION], p[OFF_VERSION + 1]);
        let mut chip_id: Vec<u8> = Vec::new();
        chip_id.push(p[OFF_CHIP_ID]);
        chip_id.push(p[OFF_CHIP_ID + 1]);
        let ghost id = seq![p@[19], p@[20]];
        assert(chip_id@ =~= id);
        let known: bool = chip_id[0] == 0xF0 && chip_id[1] == 0x02;
        assert(known <==> id == seq![0xF0u8, 0x02u8]) by {
            if known {
                assert(id =~= seq![0xF0u8, 0x02u8]);
            } else {
                assert(id[0] != seq![0xF0u8, 0x02u8][0] || id[1] != seq![0xF0u8, 0x02u8][1]);
            }
        }
        // The one byte the host is allowed to write back, and only verbatim.
        let mut option_bytes: Vec<u8> = Vec::new();
        option_bytes.push(p[OFF_OPTION]);
        assert(option_bytes@ =~= seq![p@[18]]);
        Ok(
            TargetInfo {
                family: "stc89",
                chip_id,
                model: if known {
                    Some("STC89C52RC/LE52RC")
                } else {
                    None
                },
                code_flash: if known {
                    Some(8192)
                } else {
                    None
                },
                eeprom_flash: if known {
                    Some(6144)
                } else {
                    None
                },
                bsl_version,
                measured_hz: hz,
                freq_words: words,
                option_bytes,
                raw_status: copy_bytes(p),
            },
        )
    }

    fn plan(&self, info: &TargetInfo, job: &Job, opts: &SessionOptions) -> (r: Result<
        Vec<Step>,
        ProtocolError,
    >) {
        let mut steps: Vec<Step> = Vec::new();
        // A session without work never switches baud.
        if let Job::Identify = job {
            push_step(&mut steps, run_step(opts));
            assert(text::views(steps@) =~= seq![final_step(*opts)]);
            return Ok(steps);
        }
        // Negotiate from the *measured* frequency.
        let reload: u8 = match Stc89::timer_reload(info.measured_hz, opts.transfer_baud) {
            Ok(reload) => reload,
            Err(e) => {
                return Err(e);
            },
        };
        let blocks: usize = match Self::count_blocks(info, job) {
            Ok(blocks) => blocks,
            Err(e) => {
                return Err(e);
            },
        };
        Self::push_negotiation(&mut steps, info, reload, opts);
        let mut label: String = "erase ".to_owned();
        push_decimal(&mut label, blocks as u64);
        label.append(" blocks (");
        push_decimal(&mut label, (blocks * ERASE_BLOCK) as u64);
        label.append(" bytes)");
        push_step(
            &mut steps,
            Step {
                phase: Phase::Erase,
                label,
                frame: Stc89::erase_frame(blocks as u8),
                expect: Expect::AckPrefix {
                    cmd: REPLY_ACK,
                    payload_len: ERASE_REPLY_LEN,
                    prefix: copy_bytes(&info.chip_id),
                },
                timeout_ms: opts.erase_timeout_ms,
                retune_to: None,
                write_addr: None,
            },
        );
        let ghost before = text::views(steps@);
        assert(before == negotiation(info@, reload, *opts).push(
            erase_step(info@, blocks as nat, *opts),
        ));
        if let Job::Flash { image, write_options } = job {
            // Erase a region, then fill the whole erased region.
            let data: Vec<u8> = Self::pad(image, blocks * ERASE_BLOCK);
            Self::push_writes(&mut steps, &data, opts);
            // The erase-only sessions go straight from erase to the end.
            if *write_options {
                push_step(
                    &mut steps,
                    Step {
                        phase: Phase::Options,
                        label: "options (echoing the byte we read)".to_owned(),
                        frame: Stc89::options_frame(info),
                        expect: Expect::Echo,
                        timeout_ms: opts.reply_timeout_ms,
                        retune_to: None,
                        write_addr: None,
                    },
                );
            }
        }
        assert(text::views(steps@) =~= before + programming(info@, job@, blocks as nat, *opts));
        push_step(&mut steps, run_step(opts));
        Ok(steps)
    }
}

} // verus!
