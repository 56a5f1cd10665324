//! Laws of what is printed.

use vstd::prelude::*;

use crate::cli;
use crate::driver::ReportView;
use crate::frame;
use crate::frame::FrameView;
use crate::ihex::ImageView;
use crate::laws;
use crate::probe;
use crate::probe::ProbeView;
use crate::protocol::stc89;
use crate::protocol::TargetInfoView;
use crate::text;

verus! {

// --------------------------------------------------------------------- images

/// What is said of an image: how many bytes it has; where it starts, but only
/// if that is not at zero; and how many gaps it has, but only if it has any.
pub proof fn law_what_is_said_of_an_image(path: Seq<char>, img: ImageView)
    ensures
        ({
            let lines = cli::image_lines(path, img);
            let starts_late = img.lowest_addr > 0;
            let has_gaps = img.gap_bytes > 0;
            &&& lines.len() == 1 + (if starts_late {
                1int
            } else {
                0
            }) + (if has_gaps {
                1int
            } else {
                0
            })
            &&& lines[0] == "image: "@ + path + " — "@ + text::decimal(img.bytes.len())
                + " bytes"@
            &&& starts_late ==> lines[1] == "  note: lowest address is 0x"@ + text::hex_lower(
                img.lowest_addr as nat,
                4,
            ) + ", not 0 — the 8051 starts at 0x0000"@
            &&& has_gaps ==> lines.last() == "  note: "@ + text::decimal(img.gap_bytes)
                + " bytes are gaps in the hex, filled with 0x00"@
        }),
{
}

/// The `i`th block of 128 bytes of an image, filled up with `0xFF`.
pub open spec fn block(image: Seq<u8>, i: int) -> Seq<u8> {
    Seq::new(
        128,
        |k: int|
            if i * 128 + k < image.len() {
                image[i * 128 + k]
            } else {
                0xFFu8
            },
    )
}

/// What is explained of an image: how many blocks are erased, the least number
/// of pairs that holds it; how many are written, twice as many; and of each
/// the address, the low byte of the sum of its bytes, and whether all of them
/// are `0xFF`.
pub proof fn law_what_is_explained(image: Seq<u8>, n: int, i: int)
    requires
        laws::steps::holds_in_pairs(n, image.len() as int),
        0 <= i < 2 * n,
    ensures
        ({
            let lines = cli::explain_lines(image);
            let bytes = block(image, i);
            &&& lines.len() == 2 * n + 4
            &&& lines[2 * n + 2].len() == 0
            &&& lines[0] == "erase: "@ + text::decimal(n as nat) + " blocks x 256 B = "@
                + text::decimal((n * 256) as nat) + " B  (rule: NN = 2 x ceil(size/512))"@
            &&& lines[1] == "write: "@ + text::decimal((2 * n) as nat) + " blocks x 128 B"@
            &&& lines[2 + i] == "  0x"@ + text::hex_lower((i * 128) as nat, 4) + "  ack 0x"@
                + text::hex_lower((laws::wire::total(bytes) % 256) as nat, 2) + (if forall|k: int|
                0 <= k < 128 ==> bytes[k] == 0xFF {
                "   (padding)"@
            } else {
                ""@
            })
        }),
{
    laws::steps::law_an_image_is_held_in_pairs_of_blocks(image.len());
    reveal_strlit("");
    let region = cli::region_for(image);
    assert(stc89::erase_blocks(image.len()) == n);
    let data = stc89::padded(image, region);
    let bytes = stc89::block_data(data, i);
    assert(bytes =~= block(image, i));
    laws::wire::lemma_total(bytes);
    assert(cli::explain_lines(image)[2 + i] == cli::block_line(data, i));
    assert(cli::is_padding(bytes) <==> forall|k: int| 0 <= k < 128 ==> bytes[k] == 0xFF);
}

// ------------------------------------------------------------------- the chip

/// What is said of a chip: its model, or that it is unknown; its id, version,
/// clock and option byte; and the two sizes in units of 1024 bytes, but only
/// if both are known.
pub proof fn law_what_is_said_of_a_chip(info: TargetInfoView, baud: u32, mhz: Seq<char>)
    requires
        info.freq_words.len() > 0,
    ensures
        ({
            let lines = cli::target_lines(info, baud, mhz);
            let n = lines.len() as int;
            &&& n == (if info.code_flash is Some && info.eeprom_flash is Some {
                8int
            } else {
                6
            })
            &&& lines[0] == "target:"@
            &&& info.model is Some ==> lines[1] == "  model         "@ + info.model->Some_0
            &&& info.model is None ==> lines[1] == "  model         "@
                + "unknown (chip id not in our table)"@
            &&& lines[2] == "  chip id       "@ + frame::hex_text(info.chip_id)
            &&& lines[3] == "  BSL version   "@ + info.bsl_version
            &&& n == 8 ==> lines[4] == "  code flash    "@ + text::decimal(
                (info.code_flash->Some_0 / 1024) as nat,
            ) + " KB"@
            &&& n == 8 ==> lines[5] == "  EEPROM flash  "@ + text::decimal(
                (info.eeprom_flash->Some_0 / 1024) as nat,
            ) + " KB"@
            &&& lines[n - 2] == "  clock         "@ + mhz
                + " MHz  (MEASURED by the BSL this handshake, word 0x"@ + text::hex_upper(
                info.freq_words.first() as nat,
                4,
            ) + " at "@ + text::decimal(baud as nat)
                + " baud — not a stored constant, expect it to move run to run)"@
            &&& lines[n - 1] == "  option byte   "@ + frame::hex_text(info.option_bytes)
                + "  (read only — the bit map is not known, so stcbsl only ever echoes it back)"@
        }),
{
}

// ---------------------------------------------------------------- the session

/// What is said of a frame that goes out: its name and its bytes, all of them
/// up to 24, and of more than that the first sixteen and how many there are.
pub proof fn law_a_long_frame_is_cut_short(label: Seq<char>, bytes: Seq<u8>, noise: nat)
    ensures
        ({
            let said = cli::report_text(ReportView::Step { label, bytes }, noise);
            &&& bytes.len() <= 24 ==> said == "-> "@ + label + "\n   "@ + frame::hex_text(bytes)
            &&& bytes.len() >= 25 ==> said == "-> "@ + label + "\n   "@ + frame::hex_text(
                bytes.subrange(0, 16),
            ) + " … ("@ + text::decimal(bytes.len()) + " bytes)"@
        }),
{
    if bytes.len() >= 25 {
        assert(bytes.take(16) =~= bytes.subrange(0, 16));
    }
}

/// What is said of a frame that came in: its command and how many bytes it
/// carries. Of noise: how many bytes this time, and how many in all.
pub proof fn law_what_is_said_of_what_comes_in(
    f: FrameView,
    msg: Seq<char>,
    d: Seq<u8>,
    noise: nat,
)
    ensures
        cli::report_text(ReportView::Reply(f), noise) == "<- cmd 0x"@ + text::hex_lower(
            f.cmd as nat,
            2,
        ) + ", "@ + text::decimal(f.payload.len()) + " payload bytes"@,
        cli::report_text(ReportView::Note(msg), noise) == "   "@ + msg,
        cli::report_text(ReportView::Discarded(d), noise) == "   discarded "@ + text::decimal(
            d.len(),
        ) + " non-protocol byte(s) ["@ + text::decimal(noise)
            + " total] — normal if the chip is still running an app that prints"@,
        cli::noise_in(ReportView::Discarded(d)) == d.len(),
        cli::noise_in(ReportView::Reply(f)) == 0,
        cli::noise_in(ReportView::Note(msg)) == 0,
        cli::noise_in(ReportView::Step { label: msg, bytes: d }) == 0,
{
}

/// What is said before the wait: for how long, at which rate and where.
pub proof fn law_what_is_said_before_the_wait(wait_s: u64, baud: u32, port: Seq<char>)
    ensures
        cli::waiting_lines(wait_s, baud, port).len() == 2,
        cli::waiting_lines(wait_s, baud, port)[0] == "waiting up to "@ + text::decimal(
            wait_s as nat,
        ) + " s for the bootloader at "@ + text::decimal(baud as nat) + " baud on "@ + port,
{
}

// ------------------------------------------------------------------ the probe

/// Every byte is counted, however they come; and while fewer than 40 are kept,
/// the first 40 of what comes are kept behind them, in order.
pub proof fn law_what_a_probe_keeps(p: ProbeView, bytes: Seq<u8>)
    ensures
        ({
            let q = p.heard(bytes);
            let more = if bytes.len() < 40 {
                bytes.len() as int
            } else {
                40
            };
            &&& q.count == p.count + bytes.len()
            &&& p.sample.len() >= 40 ==> q.sample == p.sample
            &&& p.sample.len() < 40 ==> {
                &&& q.sample.len() == p.sample.len() + more
                &&& q.sample.take(p.sample.len() as int) == p.sample
                &&& forall|k: int| 0 <= k < more ==> #[trigger] bytes[k] == q.sample[p.sample.len()
                    + k]
            }
        }),
{
    assert(p.sample.len() < 40 ==> p.heard(bytes).sample.take(p.sample.len() as int) =~= p.sample);
}

/// A sample reads exactly if the bytes of `hello` stand in it, one behind the
/// other.
pub proof fn law_when_a_sample_reads(p: ProbeView)
    ensures
        p.legible() <==> exists|i: int|
            0 <= i <= p.sample.len() - 5 && #[trigger] p.sample[i] == 'h' as u8 && p.sample[i + 1]
                == 'e' as u8 && p.sample[i + 2] == 'l' as u8 && p.sample[i + 3] == 'l' as u8
                && p.sample[i + 4] == 'o' as u8,
{
    let s = p.sample;
    if p.legible() {
        let i = choose|i: int| probe::hello_at(s, i);
        let w = s.subrange(i, i + 5);
        assert(w[0] == 0x68 && w[1] == 0x65 && w[2] == 0x6C && w[3] == 0x6C && w[4] == 0x6F);
        assert(s[i] == 'h' as u8);
    }
    if exists|i: int|
        0 <= i <= s.len() - 5 && #[trigger] s[i] == 'h' as u8 && s[i + 1] == 'e' as u8 && s[i + 2]
            == 'l' as u8 && s[i + 3] == 'l' as u8 && s[i + 4] == 'o' as u8 {
        let i = choose|i: int|
            0 <= i <= s.len() - 5 && #[trigger] s[i] == 'h' as u8 && s[i + 1] == 'e' as u8 && s[i
                + 2] == 'l' as u8 && s[i + 3] == 'l' as u8 && s[i + 4] == 'o' as u8;
        assert(s.subrange(i, i + 5) =~= probe::hello());
        assert(probe::hello_at(s, i));
    }
}

} // verus!
