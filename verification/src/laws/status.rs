//! Laws of the status packet: what is read from which byte.

use vstd::prelude::*;

use crate::frame::{Dir, FrameView};
use crate::protocol::stc89;
use crate::protocol::ProtocolErrorView;

verus! {

/// Word `i` of a status payload, most significant byte first.
pub open spec fn word(p: Seq<u8>, i: int) -> int {
    p[2 * i] * 256 + p[2 * i + 1]
}

/// The eight words agree.
pub open spec fn words_agree(p: Seq<u8>) -> bool {
    forall|i: int| 0 <= i < 8 ==> #[trigger] word(p, i) == word(p, 0)
}

/// A clock that ticks `hz` times a second makes the bootloader measure this
/// word at this rate: seven bit times, twelve ticks to a count, rounded down.
pub open spec fn measures(hz: int, w: int, baud: u32) -> bool {
    7 * hz <= 12 * w * baud && 12 * w * baud < 7 * (hz + 1)
}

/// The digits of a number below sixteen, in decimal.
pub open spec fn short_decimal(n: int) -> Seq<char> {
    if n < 10 {
        seq![('0' as int + n) as char]
    } else {
        seq!['1', ('0' as int + n - 10) as char]
    }
}

/// The measured clock is the word times the rate, times twelve sevenths.
pub proof fn law_the_clock_is_twelve_sevenths_of_word_times_rate(w: u16, baud: u32)
    ensures
        measures(stc89::frequency(w, baud) as int, w as int, baud),
{
    let f = stc89::frequency(w, baud) as int;
    let x = w as int * baud as int * 12;
    assert(x == 12 * (w as int) * (baud as int)) by (nonlinear_arith)
        requires
            x == w as int * baud as int * 12,
    ;
    assert(f == x / 7);
}

/// What counts as a status packet at first sight: a frame of the MCU with
/// command zero that reaches at least to the chip id.
pub proof fn law_what_looks_like_a_status_packet(f: FrameView)
    ensures
        stc89::is_status(f) <==> f.dir == Dir::McuToHost && f.cmd == 0 && f.payload.len() >= 21,
{
}

/// What an accepted packet says, byte by byte, and what makes one accepted.
pub proof fn law_what_is_read_from_which_byte(f: FrameView, baud: u32)
    requires
        f.payload.len() <= usize::MAX,
    ensures
        ({
            let p = f.payload;
            match stc89::status_of(f, baud) {
                Ok(info) => {
                    &&& f.cmd == 0 && f.dir == Dir::McuToHost && p.len() >= 52
                    &&& words_agree(p)
                    &&& 1_000_000 <= info.measured_hz <= 48_000_000
                    &&& measures(info.measured_hz as int, word(p, 0), baud)
                    &&& info.freq_words.len() == 8
                    &&& forall|i: int| 0 <= i < 8 ==> #[trigger] info.freq_words[i] == word(p, i)
                    &&& info.bsl_version == short_decimal(p[16] as int / 16) + "."@
                        + short_decimal(p[16] as int % 16) + seq![p[17] as char]
                    &&& info.option_bytes == seq![p[18]]
                    &&& info.chip_id == seq![p[19], p[20]]
                    &&& info.raw_status == p
                    &&& info.family == "stc89"@
                    &&& p[19] == 0xF0 && p[20] == 0x02 ==> info.model == Some(
                        "STC89C52RC/LE52RC"@,
                    ) && info.code_flash == Some(8192usize) && info.eeprom_flash == Some(
                        6144usize,
                    )
                    &&& !(p[19] == 0xF0 && p[20] == 0x02) ==> info.model is None
                        && info.code_flash is None && info.eeprom_flash is None
                },
                Err(ProtocolErrorView::NotAStatusFrame { cmd }) => cmd == f.cmd && (f.cmd != 0
                    || f.dir == Dir::HostToMcu),
                Err(ProtocolErrorView::ShortStatus { got, want }) => f.cmd == 0 && f.dir
                    == Dir::McuToHost && got == p.len() && got < 52 && want == 52,
                Err(ProtocolErrorView::InconsistentFrequency(w)) => {
                    &&& f.cmd == 0 && f.dir == Dir::McuToHost && p.len() >= 52
                    &&& !words_agree(p)
                    &&& w.len() == 8
                    &&& forall|i: int| 0 <= i < 8 ==> #[trigger] w[i] == word(p, i)
                },
                Err(ProtocolErrorView::ImplausibleFrequency(hz)) => {
                    &&& f.cmd == 0 && f.dir == Dir::McuToHost && p.len() >= 52
                    &&& words_agree(p)
                    &&& measures(hz as int, word(p, 0), baud)
                    &&& hz < 1_000_000 || hz > 48_000_000
                },
                Err(_) => false,
            }
        }),
{
    let p = f.payload;
    let words = stc89::freq_words(p);
    assert(forall|i: int| 0 <= i < 8 ==> #[trigger] words[i] == word(p, i));
    law_the_clock_is_twelve_sevenths_of_word_times_rate(words[0], baud);
    assert(word(p, 0) == words[0]);
    let w = words[0] as int;
    let b = baud as int;
    assert(12 * w * b <= 12 * 65535 * 4294967295) by (nonlinear_arith)
        requires
            0 <= w <= 65535,
            0 <= b <= 4294967295,
    ;
    if words_agree(p) {
        assert forall|i: int| 0 <= i < words.len() implies #[trigger] words[i] == words[0] by {
            assert(word(p, i) == word(p, 0));
        }
    } else {
        let i = choose|i: int| 0 <= i < 8 && #[trigger] word(p, i) != word(p, 0);
        assert(words[i] != words[0]);
    }
    if let Ok(info) = stc89::status_of(f, baud) {
        lemma_short_decimal(p[16] as int / 16);
        lemma_short_decimal(p[16] as int % 16);
        assert(info.bsl_version =~= short_decimal(p[16] as int / 16) + "."@ + short_decimal(
            p[16] as int % 16,
        ) + seq![p[17] as char]);
        if info.chip_id == seq![0xF0u8, 0x02u8] {
            assert(info.chip_id[0] == 0xF0 && info.chip_id[1] == 0x02);
        } else {
            if p[19] == 0xF0 && p[20] == 0x02 {
                assert(info.chip_id =~= seq![0xF0u8, 0x02u8]);
            }
        }
    }
}

proof fn lemma_short_decimal(n: int)
    requires
        0 <= n < 16,
    ensures
        crate::text::decimal(n as nat) == short_decimal(n),
{
    if n >= 10 {
        assert(n / 10 == 1);
        assert(crate::text::decimal(1) == seq!['1']);
        assert(crate::text::decimal(n as nat) =~= short_decimal(n));
    }
}

} // verus!
