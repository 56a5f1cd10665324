//! Laws of the command line: what each word of it does.

use vstd::prelude::*;

use crate::cli;
use crate::cli::{ArgsView, CommandView, ParsedView};
use crate::driver::DrainMode;
use crate::laws;
use crate::text;

verus! {

proof fn lemma_options_differ()
    ensures
        "-p"@ != "--port"@,
        "-p"@ != "--baud"@,
        "-p"@ != "--handshake-baud"@,
        "-p"@ != "--drain-mode"@,
        "-p"@ != "--drain-margin"@,
        "-p"@ != "--parity"@,
        "-p"@ != "--wait"@,
        "-p"@ != "--blocks"@,
        "-p"@ != "-q"@,
        "-p"@ != "--quiet"@,
        "-p"@ != "--keep-options"@,
        "-p"@ != "--skip-options"@,
        "-p"@ != "-h"@,
        "-p"@ != "--help"@,
        "--port"@ != "--baud"@,
        "--port"@ != "--handshake-baud"@,
        "--port"@ != "--drain-mode"@,
        "--port"@ != "--drain-margin"@,
        "--port"@ != "--parity"@,
        "--port"@ != "--wait"@,
        "--port"@ != "--blocks"@,
        "--port"@ != "-q"@,
        "--port"@ != "--quiet"@,
        "--port"@ != "--keep-options"@,
        "--port"@ != "--skip-options"@,
        "--port"@ != "-h"@,
        "--port"@ != "--help"@,
        "--baud"@ != "--handshake-baud"@,
        "--baud"@ != "--drain-mode"@,
        "--baud"@ != "--drain-margin"@,
        "--baud"@ != "--parity"@,
        "--baud"@ != "--wait"@,
        "--baud"@ != "--blocks"@,
        "--baud"@ != "-q"@,
        "--baud"@ != "--quiet"@,
        "--baud"@ != "--keep-options"@,
        "--baud"@ != "--skip-options"@,
        "--baud"@ != "-h"@,
        "--baud"@ != "--help"@,
        "--handshake-baud"@ != "--drain-mode"@,
        "--handshake-baud"@ != "--drain-margin"@,
        "--handshake-baud"@ != "--parity"@,
        "--handshake-baud"@ != "--wait"@,
        "--handshake-baud"@ != "--blocks"@,
        "--handshake-baud"@ != "-q"@,
        "--handshake-baud"@ != "--quiet"@,
        "--handshake-baud"@ != "--keep-options"@,
        "--handshake-baud"@ != "--skip-options"@,
        "--handshake-baud"@ != "-h"@,
        "--handshake-baud"@ != "--help"@,
        "--drain-mode"@ != "--drain-margin"@,
        "--drain-mode"@ != "--parity"@,
        "--drain-mode"@ != "--wait"@,
        "--drain-mode"@ != "--blocks"@,
        "--drain-mode"@ != "-q"@,
        "--drain-mode"@ != "--quiet"@,
        "--drain-mode"@ != "--keep-options"@,
        "--drain-mode"@ != "--skip-options"@,
        "--drain-mode"@ != "-h"@,
        "--drain-mode"@ != "--help"@,
        "--drain-margin"@ != "--parity"@,
        "--drain-margin"@ != "--wait"@,
        "--drain-margin"@ != "--blocks"@,
        "--drain-margin"@ != "-q"@,
        "--drain-margin"@ != "--quiet"@,
        "--drain-margin"@ != "--keep-options"@,
        "--drain-margin"@ != "--skip-options"@,
        "--drain-margin"@ != "-h"@,
        "--drain-margin"@ != "--help"@,
        "--parity"@ != "--wait"@,
        "--parity"@ != "--blocks"@,
        "--parity"@ != "-q"@,
        "--parity"@ != "--quiet"@,
        "--parity"@ != "--keep-options"@,
        "--parity"@ != "--skip-options"@,
        "--parity"@ != "-h"@,
        "--parity"@ != "--help"@,
        "--wait"@ != "--blocks"@,
        "--wait"@ != "-q"@,
        "--wait"@ != "--quiet"@,
        "--wait"@ != "--keep-options"@,
        "--wait"@ != "--skip-options"@,
        "--wait"@ != "-h"@,
        "--wait"@ != "--help"@,
        "--blocks"@ != "-q"@,
        "--blocks"@ != "--quiet"@,
        "--blocks"@ != "--keep-options"@,
        "--blocks"@ != "--skip-options"@,
        "--blocks"@ != "-h"@,
        "--blocks"@ != "--help"@,
        "-q"@ != "--quiet"@,
        "-q"@ != "--keep-options"@,
        "-q"@ != "--skip-options"@,
        "-q"@ != "-h"@,
        "-q"@ != "--help"@,
        "--quiet"@ != "--keep-options"@,
        "--quiet"@ != "--skip-options"@,
        "--quiet"@ != "-h"@,
        "--quiet"@ != "--help"@,
        "--keep-options"@ != "--skip-options"@,
        "--keep-options"@ != "-h"@,
        "--keep-options"@ != "--help"@,
        "--skip-options"@ != "-h"@,
        "--skip-options"@ != "--help"@,
        "-h"@ != "--help"@,
{
    reveal_strlit("-p");
    reveal_strlit("--port");
    reveal_strlit("--baud");
    reveal_strlit("--handshake-baud");
    reveal_strlit("--drain-mode");
    reveal_strlit("--drain-margin");
    reveal_strlit("--parity");
    reveal_strlit("--wait");
    reveal_strlit("--blocks");
    reveal_strlit("-q");
    reveal_strlit("--quiet");
    reveal_strlit("--keep-options");
    reveal_strlit("--skip-options");
    reveal_strlit("-h");
    reveal_strlit("--help");
    assert("-p"@.len() != "--port"@.len());
    assert("-p"@.len() != "--baud"@.len());
    assert("-p"@.len() != "--handshake-baud"@.len());
    assert("-p"@.len() != "--drain-mode"@.len());
    assert("-p"@.len() != "--drain-margin"@.len());
    assert("-p"@.len() != "--parity"@.len());
    assert("-p"@.len() != "--wait"@.len());
    assert("-p"@.len() != "--blocks"@.len());
    assert("-p"@[1] != "-q"@[1]);
    assert("-p"@.len() != "--quiet"@.len());
    assert("-p"@.len() != "--keep-options"@.len());
    assert("-p"@.len() != "--skip-options"@.len());
    assert("-p"@[1] != "-h"@[1]);
    assert("-p"@.len() != "--help"@.len());
    assert("--port"@[2] != "--baud"@[2]);
    assert("--port"@.len() != "--handshake-baud"@.len());
    assert("--port"@.len() != "--drain-mode"@.len());
    assert("--port"@.len() != "--drain-margin"@.len());
    assert("--port"@.len() != "--parity"@.len());
    assert("--port"@[2] != "--wait"@[2]);
    assert("--port"@.len() != "--blocks"@.len());
    assert("--port"@.len() != "-q"@.len());
    assert("--port"@.len() != "--quiet"@.len());
    assert("--port"@.len() != "--keep-options"@.len());
    assert("--port"@.len() != "--skip-options"@.len());
    assert("--port"@.len() != "-h"@.len());
    assert("--port"@[2] != "--help"@[2]);
    assert("--baud"@.len() != "--handshake-baud"@.len());
    assert("--baud"@.len() != "--drain-mode"@.len());
    assert("--baud"@.len() != "--drain-margin"@.len());
    assert("--baud"@.len() != "--parity"@.len());
    assert("--baud"@[2] != "--wait"@[2]);
    assert("--baud"@.len() != "--blocks"@.len());
    assert("--baud"@.len() != "-q"@.len());
    assert("--baud"@.len() != "--quiet"@.len());
    assert("--baud"@.len() != "--keep-options"@.len());
    assert("--baud"@.len() != "--skip-options"@.len());
    assert("--baud"@.len() != "-h"@.len());
    assert("--baud"@[2] != "--help"@[2]);
    assert("--handshake-baud"@.len() != "--drain-mode"@.len());
    assert("--handshake-baud"@.len() != "--drain-margin"@.len());
    assert("--handshake-baud"@.len() != "--parity"@.len());
    assert("--handshake-baud"@.len() != "--wait"@.len());
    assert("--handshake-baud"@.len() != "--blocks"@.len());
    assert("--handshake-baud"@.len() != "-q"@.len());
    assert("--handshake-baud"@.len() != "--quiet"@.len());
    assert("--handshake-baud"@.len() != "--keep-options"@.len());
    assert("--handshake-baud"@.len() != "--skip-options"@.len());
    assert("--handshake-baud"@.len() != "-h"@.len());
    assert("--handshake-baud"@.len() != "--help"@.len());
    assert("--drain-mode"@.len() != "--drain-margin"@.len());
    assert("--drain-mode"@.len() != "--parity"@.len());
    assert("--drain-mode"@.len() != "--wait"@.len());
    assert("--drain-mode"@.len() != "--blocks"@.len());
    assert("--drain-mode"@.len() != "-q"@.len());
    assert("--drain-mode"@.len() != "--quiet"@.len());
    assert("--drain-mode"@.len() != "--keep-options"@.len());
    assert("--drain-mode"@.len() != "--skip-options"@.len());
    assert("--drain-mode"@.len() != "-h"@.len());
    assert("--drain-mode"@.len() != "--help"@.len());
    assert("--drain-margin"@.len() != "--parity"@.len());
    assert("--drain-margin"@.len() != "--wait"@.len());
    assert("--drain-margin"@.len() != "--blocks"@.len());
    assert("--drain-margin"@.len() != "-q"@.len());
    assert("--drain-margin"@.len() != "--quiet"@.len());
    assert("--drain-margin"@[2] != "--keep-options"@[2]);
    assert("--drain-margin"@[2] != "--skip-options"@[2]);
    assert("--drain-margin"@.len() != "-h"@.len());
    assert("--drain-margin"@.len() != "--help"@.len());
    assert("--parity"@.len() != "--wait"@.len());
    assert("--parity"@[2] != "--blocks"@[2]);
    assert("--parity"@.len() != "-q"@.len());
    assert("--parity"@.len() != "--quiet"@.len());
    assert("--parity"@.len() != "--keep-options"@.len());
    assert("--parity"@.len() != "--skip-options"@.len());
    assert("--parity"@.len() != "-h"@.len());
    assert("--parity"@.len() != "--help"@.len());
    assert("--wait"@.len() != "--blocks"@.len());
    assert("--wait"@.len() != "-q"@.len());
    assert("--wait"@.len() != "--quiet"@.len());
    assert("--wait"@.len() != "--keep-options"@.len());
    assert("--wait"@.len() != "--skip-options"@.len());
    assert("--wait"@.len() != "-h"@.len());
    assert("--wait"@[2] != "--help"@[2]);
    assert("--blocks"@.len() != "-q"@.len());
    assert("--blocks"@.len() != "--quiet"@.len());
    assert("--blocks"@.len() != "--keep-options"@.len());
    assert("--blocks"@.len() != "--skip-options"@.len());
    assert("--blocks"@.len() != "-h"@.len());
    assert("--blocks"@.len() != "--help"@.len());
    assert("-q"@.len() != "--quiet"@.len());
    assert("-q"@.len() != "--keep-options"@.len());
    assert("-q"@.len() != "--skip-options"@.len());
    assert("-q"@[1] != "-h"@[1]);
    assert("-q"@.len() != "--help"@.len());
    assert("--quiet"@.len() != "--keep-options"@.len());
    assert("--quiet"@.len() != "--skip-options"@.len());
    assert("--quiet"@.len() != "-h"@.len());
    assert("--quiet"@.len() != "--help"@.len());
    assert("--keep-options"@[2] != "--skip-options"@[2]);
    assert("--keep-options"@.len() != "-h"@.len());
    assert("--keep-options"@.len() != "--help"@.len());
    assert("--skip-options"@.len() != "-h"@.len());
    assert("--skip-options"@.len() != "--help"@.len());
    assert("-h"@.len() != "--help"@.len());
}

proof fn lemma_options_begin_with_a_dash()
    ensures
        "-p"@.len() > 0 && "-p"@[0] == '-',
        "--port"@.len() > 0 && "--port"@[0] == '-',
        "--baud"@.len() > 0 && "--baud"@[0] == '-',
        "--handshake-baud"@.len() > 0 && "--handshake-baud"@[0] == '-',
        "--drain-mode"@.len() > 0 && "--drain-mode"@[0] == '-',
        "--drain-margin"@.len() > 0 && "--drain-margin"@[0] == '-',
        "--parity"@.len() > 0 && "--parity"@[0] == '-',
        "--wait"@.len() > 0 && "--wait"@[0] == '-',
        "--blocks"@.len() > 0 && "--blocks"@[0] == '-',
        "-q"@.len() > 0 && "-q"@[0] == '-',
        "--quiet"@.len() > 0 && "--quiet"@[0] == '-',
        "--keep-options"@.len() > 0 && "--keep-options"@[0] == '-',
        "--skip-options"@.len() > 0 && "--skip-options"@[0] == '-',
        "-h"@.len() > 0 && "-h"@[0] == '-',
        "--help"@.len() > 0 && "--help"@[0] == '-',
{
    reveal_strlit("-p");
    reveal_strlit("--port");
    reveal_strlit("--baud");
    reveal_strlit("--handshake-baud");
    reveal_strlit("--drain-mode");
    reveal_strlit("--drain-margin");
    reveal_strlit("--parity");
    reveal_strlit("--wait");
    reveal_strlit("--blocks");
    reveal_strlit("-q");
    reveal_strlit("--quiet");
    reveal_strlit("--keep-options");
    reveal_strlit("--skip-options");
    reveal_strlit("-h");
    reveal_strlit("--help");
}

proof fn lemma_commands_differ()
    ensures
        "ports"@ != "explain"@,
        "ports"@ != "identify"@,
        "ports"@ != "info"@,
        "ports"@ != "erase"@,
        "ports"@ != "write"@,
        "ports"@ != "flash"@,
        "explain"@ != "identify"@,
        "explain"@ != "info"@,
        "explain"@ != "erase"@,
        "explain"@ != "write"@,
        "explain"@ != "flash"@,
        "identify"@ != "info"@,
        "identify"@ != "erase"@,
        "identify"@ != "write"@,
        "identify"@ != "flash"@,
        "info"@ != "erase"@,
        "info"@ != "write"@,
        "info"@ != "flash"@,
        "erase"@ != "write"@,
        "erase"@ != "flash"@,
        "write"@ != "flash"@,
{
    reveal_strlit("ports");
    reveal_strlit("explain");
    reveal_strlit("identify");
    reveal_strlit("info");
    reveal_strlit("erase");
    reveal_strlit("write");
    reveal_strlit("flash");
    assert("ports"@.len() != "explain"@.len());
    assert("ports"@.len() != "identify"@.len());
    assert("ports"@.len() != "info"@.len());
    assert("ports"@[0] != "erase"@[0]);
    assert("ports"@[0] != "write"@[0]);
    assert("ports"@[0] != "flash"@[0]);
    assert("explain"@.len() != "identify"@.len());
    assert("explain"@.len() != "info"@.len());
    assert("explain"@.len() != "erase"@.len());
    assert("explain"@.len() != "write"@.len());
    assert("explain"@.len() != "flash"@.len());
    assert("identify"@.len() != "info"@.len());
    assert("identify"@.len() != "erase"@.len());
    assert("identify"@.len() != "write"@.len());
    assert("identify"@.len() != "flash"@.len());
    assert("info"@.len() != "erase"@.len());
    assert("info"@.len() != "write"@.len());
    assert("info"@.len() != "flash"@.len());
    assert("erase"@[0] != "write"@[0]);
    assert("erase"@[0] != "flash"@[0]);
    assert("write"@[0] != "flash"@[0]);
}

/// With nothing said: 115200 baud behind a handshake at 2400, no parity, half a
/// minute to wait, the option byte written back, the wire drained with nothing
/// added, and something printed.
pub proof fn law_what_holds_where_nothing_is_said()
    ensures
        cli::parsed_from(seq![], 0, cli::default_args()) matches Ok(ParsedView::Args(a)) && {
            &&& a.port is None
            &&& a.transfer_baud == 115_200
            &&& a.handshake_baud == 2400
            &&& !a.parity_even
            &&& a.wait_s == 30
            &&& a.blocks is None
            &&& a.write_options
            &&& !a.quiet
            &&& a.drain_mode == DrainMode::TcDrain
            &&& a.drain_margin_ms == 0
            &&& a.command is None
            &&& a.positional.len() == 0
        },
{
}

/// A text that is a number: at least one decimal digit, with a plus sign in
/// front or none.
pub open spec fn is_number(v: Seq<char>) -> bool {
    laws::numbers::without_plus(v).len() > 0 && laws::numbers::are_digits(
        laws::numbers::without_plus(v),
        10,
    )
}

/// What such a text reads as.
pub open spec fn number(v: Seq<char>) -> int {
    laws::numbers::reads_as(laws::numbers::without_plus(v), 10)
}

/// Each option with a number sets its own value to what the number reads as,
/// and nothing else; what is no number, or too large for it, is refused.
pub proof fn law_what_an_option_with_a_number_does(a: ArgsView, v: Seq<char>)
    ensures
        cli::with_value(a, "--baud"@, v) == (if is_number(v) && number(v) <= 0xFFFF_FFFF {
            Ok(ArgsView { transfer_baud: number(v) as u32, ..a })
        } else {
            Err("--baud: not a number"@)
        }),
        cli::with_value(a, "--handshake-baud"@, v) == (if is_number(v) && number(v)
            <= 0xFFFF_FFFF {
            Ok(ArgsView { handshake_baud: number(v) as u32, ..a })
        } else {
            Err("--handshake-baud: not a number"@)
        }),
        cli::with_value(a, "--wait"@, v) == (if is_number(v) && number(v)
            <= 0xFFFF_FFFF_FFFF_FFFF {
            Ok(ArgsView { wait_s: number(v) as u64, ..a })
        } else {
            Err("--wait: not a number"@)
        }),
        cli::with_value(a, "--blocks"@, v) == (if is_number(v) && number(v) <= 255 {
            Ok(ArgsView { blocks: Some(number(v) as u8), ..a })
        } else {
            Err("--blocks: not a byte"@)
        }),
{
    lemma_options_differ();
    laws::numbers::law_a_number_is_read_as_it_is_written(v, 10, 0xFFFF_FFFF);
    laws::numbers::law_a_number_is_read_as_it_is_written(v, 10, 0xFFFF_FFFF_FFFF_FFFF);
    laws::numbers::law_a_number_is_read_as_it_is_written(v, 10, 255);
}

/// A rate that was written is taken as it is.
pub proof fn law_a_written_rate_is_taken(a: ArgsView, baud: u32)
    ensures
        cli::with_value(a, "--baud"@, text::decimal(baud as nat)) == Ok::<ArgsView, Seq<char>>(
            ArgsView { transfer_baud: baud, ..a },
        ),
        cli::with_value(a, "--handshake-baud"@, text::decimal(baud as nat)) == Ok::<
            ArgsView,
            Seq<char>,
        >(ArgsView { handshake_baud: baud, ..a }),
{
    lemma_options_differ();
    laws::numbers::law_a_written_number_is_read_back(baud as nat, 0xFFFF_FFFF);
}

/// What a text with a sign in front, or none, reads as.
pub open spec fn integer(v: Seq<char>) -> int {
    if v.len() > 1 && v[0] == '-' {
        -laws::numbers::reads_as(v.skip(1), 10)
    } else {
        number(v)
    }
}

/// A text that is an integer of 64 bits.
pub open spec fn is_integer(v: Seq<char>) -> bool {
    (if v.len() > 1 && v[0] == '-' {
        laws::numbers::are_digits(v.skip(1), 10)
    } else {
        is_number(v)
    }) && i64::MIN <= integer(v) <= i64::MAX
}

/// The margin may be negative: an integer of 64 bits is taken as it reads, and
/// one that was written as what it was.
pub proof fn law_what_the_margin_does(a: ArgsView, v: Seq<char>, i: i64)
    ensures
        cli::with_value(a, "--drain-margin"@, v) == (if is_integer(v) {
            Ok(ArgsView { drain_margin_ms: integer(v) as i64, ..a })
        } else {
            Err("--drain-margin: not an integer (ms, may be negative)"@)
        }),
        cli::with_value(a, "--drain-margin"@, text::signed_decimal(i as int)) == Ok::<
            ArgsView,
            Seq<char>,
        >(ArgsView { drain_margin_ms: i, ..a }),
{
    lemma_options_differ();
    laws::numbers::law_an_integer_is_read_as_it_is_written(v);
    laws::numbers::law_a_written_integer_is_read_back(i as int);
}

/// Each option with a word sets its own value, and nothing else. A port is
/// taken as it is; parity and mode are one of two words.
pub proof fn law_what_an_option_with_a_word_does(a: ArgsView, v: Seq<char>)
    ensures
        cli::with_value(a, "--port"@, v) == Ok::<ArgsView, Seq<char>>(
            ArgsView { port: Some(v), ..a },
        ),
        cli::with_value(a, "--parity"@, "none"@) == Ok::<ArgsView, Seq<char>>(
            ArgsView { parity_even: false, ..a },
        ),
        cli::with_value(a, "--parity"@, "even"@) == Ok::<ArgsView, Seq<char>>(
            ArgsView { parity_even: true, ..a },
        ),
        v != "none"@ && v != "even"@ ==> cli::with_value(a, "--parity"@, v) is Err,
        cli::with_value(a, "--drain-mode"@, "tcdrain"@) == Ok::<ArgsView, Seq<char>>(
            ArgsView { drain_mode: DrainMode::TcDrain, ..a },
        ),
        cli::with_value(a, "--drain-mode"@, "wire"@) == Ok::<ArgsView, Seq<char>>(
            ArgsView { drain_mode: DrainMode::ComputeWireTime, ..a },
        ),
        v != "tcdrain"@ && v != "wire"@ ==> cli::with_value(a, "--drain-mode"@, v) is Err,
{
    lemma_options_differ();
    reveal_strlit("none");
    reveal_strlit("even");
    reveal_strlit("tcdrain");
    reveal_strlit("wire");
    assert("none"@[0] != "even"@[0]);
    assert("tcdrain"@.len() != "wire"@.len());
}

/// A word that is one of the options with a value.
pub open spec fn takes_a_value(w: Seq<char>) -> bool {
    w == "-p"@ || w == "--port"@ || w == "--baud"@ || w == "--handshake-baud"@ || w
        == "--drain-mode"@ || w == "--drain-margin"@ || w == "--parity"@ || w == "--wait"@ || w
        == "--blocks"@
}

/// A word that asks for the usage text.
pub open spec fn asks_for_help(w: Seq<char>) -> bool {
    w == "-h"@ || w == "--help"@
}

/// A word that is a switch.
pub open spec fn is_a_switch(w: Seq<char>) -> bool {
    w == "-q"@ || w == "--quiet"@ || w == "--keep-options"@ || w == "--skip-options"@
}

proof fn lemma_only_what_is_left_counts(
    one: Seq<Seq<char>>,
    i: int,
    other: Seq<Seq<char>>,
    j: int,
    a: ArgsView,
)
    requires
        0 <= i <= one.len(),
        0 <= j <= other.len(),
        one.len() - i == other.len() - j,
        forall|k: int| i <= k < one.len() ==> #[trigger] one[k] == other[k - i + j],
    ensures
        cli::parsed_from(one, i, a) == cli::parsed_from(other, j, a),
    decreases one.len() - i,
{
    if i < one.len() {
        assert(one[i] == other[i - i + j]);
        match cli::valued_option(one[i]) {
            Some(option) => if i + 1 < one.len() {
                assert(one[i + 1] == other[i + 1 - i + j]);
                match cli::with_value(a, option, one[i + 1]) {
                    Ok(b) => lemma_only_what_is_left_counts(one, i + 2, other, j + 2, b),
                    Err(_) => {},
                }
            },
            None => match cli::with_plain(a, one[i]) {
                Ok(b) => lemma_only_what_is_left_counts(one, i + 1, other, j + 1, b),
                Err(_) => {},
            },
        }
    }
}

/// An option takes the word behind it, whatever that is, and what follows is
/// read on top; without a word behind it, it is refused. `-p` is `--port`.
pub proof fn law_an_option_takes_the_next_word(
    w: Seq<char>,
    v: Seq<char>,
    rest: Seq<Seq<char>>,
    a: ArgsView,
)
    requires
        takes_a_value(w),
    ensures
        ({
            let option = if w == "-p"@ {
                "--port"@
            } else {
                w
            };
            &&& cli::parsed_from(seq![w, v] + rest, 0, a) == (match cli::with_value(a, option, v) {
                Ok(b) => cli::parsed_from(rest, 0, b),
                Err(e) => Err(e),
            })
            &&& cli::parsed_from(seq![w], 0, a) == Err::<ParsedView, Seq<char>>(
                option + " needs a value"@,
            )
        }),
{
    lemma_options_differ();
    let all = seq![w, v] + rest;
    assert(all[0] == w && all[1] == v);
    let option = cli::valued_option(w)->Some_0;
    match cli::with_value(a, option, v) {
        Ok(b) => lemma_only_what_is_left_counts(all, 2, rest, 0, b),
        Err(_) => {},
    }
}

/// A switch sets its own value, and nothing else.
pub proof fn law_what_a_switch_does(w: Seq<char>, rest: Seq<Seq<char>>, a: ArgsView)
    requires
        is_a_switch(w),
    ensures
        cli::parsed_from(seq![w] + rest, 0, a) == (if w == "--keep-options"@ {
            cli::parsed_from(rest, 0, ArgsView { write_options: true, ..a })
        } else if w == "--skip-options"@ {
            cli::parsed_from(rest, 0, ArgsView { write_options: false, ..a })
        } else {
            cli::parsed_from(rest, 0, ArgsView { quiet: true, ..a })
        }),
{
    lemma_options_differ();
    let all = seq![w] + rest;
    assert(all[0] == w);
    lemma_only_what_is_left_counts(all, 1, rest, 0, cli::with_plain(a, w)->Ok_0);
}

/// Help is given as soon as it is asked for, whatever follows.
pub proof fn law_help_is_given(w: Seq<char>, rest: Seq<Seq<char>>, a: ArgsView)
    requires
        asks_for_help(w),
    ensures
        cli::parsed_from(seq![w] + rest, 0, a) == Ok::<ParsedView, Seq<char>>(ParsedView::Help),
{
    assert((seq![w] + rest)[0] == w);
}

/// A word with no dash in front is none of the options.
pub proof fn law_a_word_without_a_dash_is_no_option(w: Seq<char>)
    requires
        w.len() > 0 ==> w[0] != '-',
    ensures
        !takes_a_value(w),
        !asks_for_help(w),
        !is_a_switch(w),
{
    lemma_options_begin_with_a_dash();
}

/// A word with no dash in front is the command, if there is none yet, and
/// else one more file. One with a dash that is none of the options is refused.
pub proof fn law_what_any_other_word_does(w: Seq<char>, rest: Seq<Seq<char>>, a: ArgsView)
    requires
        !takes_a_value(w),
        !asks_for_help(w),
        !is_a_switch(w),
    ensures
        cli::parsed_from(seq![w] + rest, 0, a) == (if w.len() > 0 && w[0] == '-' {
            Err("unknown option "@ + text::quoted_str(w))
        } else if a.command is None {
            cli::parsed_from(rest, 0, ArgsView { command: Some(w), ..a })
        } else {
            cli::parsed_from(rest, 0, ArgsView { positional: a.positional.push(w), ..a })
        }),
{
    lemma_options_begin_with_a_dash();
    let all = seq![w] + rest;
    assert(all[0] == w);
    match cli::with_plain(a, w) {
        Ok(b) => lemma_only_what_is_left_counts(all, 1, rest, 0, b),
        Err(_) => {},
    }
}

/// What each command asks for: the first file behind `write`, `flash` and
/// `explain`, which they cannot do without; the count with `erase`; nothing
/// with the others. Any other word is refused, and so is none.
pub proof fn law_what_is_asked_for(a: ArgsView, c: Seq<char>)
    requires
        a.command == Some(c),
    ensures
        c == "ports"@ ==> cli::commanded(a) == Ok::<CommandView, Seq<char>>(CommandView::Ports),
        c == "identify"@ || c == "info"@ ==> cli::commanded(a) == Ok::<CommandView, Seq<char>>(
            CommandView::Identify,
        ),
        c == "erase"@ ==> cli::commanded(a) == Ok::<CommandView, Seq<char>>(
            CommandView::Erase { blocks: a.blocks },
        ),
        c == "explain"@ ==> cli::commanded(a) == (if a.positional.len() > 0 {
            Ok(CommandView::Explain { path: a.positional.first() })
        } else {
            Err("`explain` needs a .hex file"@)
        }),
        c == "write"@ || c == "flash"@ ==> cli::commanded(a) == (if a.positional.len() > 0 {
            Ok(
                CommandView::Write {
                    path: a.positional.first(),
                    write_options: a.write_options,
                },
            )
        } else {
            Err("`write` needs a .hex file"@)
        }),
        cli::commanded(a) is Ok ==> c == "ports"@ || c == "identify"@ || c == "info"@ || c
            == "erase"@ || c == "explain"@ || c == "write"@ || c == "flash"@,
        cli::commanded(ArgsView { command: None, ..a }) == Err::<CommandView, Seq<char>>(
            "no command; try --help"@,
        ),
{
    lemma_commands_differ();
}

} // verus!
