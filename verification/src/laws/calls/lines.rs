//! Calls on the command line, and on what is printed.

use vstd::prelude::*;

use crate::cli;
use crate::cli::{Args, ArgsView, CliLog, Command, CommandView, Parsed, ParsedView};
use crate::driver::{DrainConfig, DrainMode, Report};
use crate::frame;
use crate::ihex::Image;
use crate::laws;
use crate::probe::Probe;
use crate::protocol::{SessionOptions, TargetInfo};
use crate::text;

verus! {

// ---------------------------------------------------------------- command line

/// With no arguments the defaults hold.
pub proof fn law_parse_args_of_nothing(argv: &Vec<String>, r: Result<Parsed, String>)
    requires
        call_ensures(cli::parse_args, (argv,), r),
        argv@.len() == 0,
    ensures
        r matches Ok(Parsed::Args(a)) && {
            &&& a.port is None && a.blocks is None && a.command is None
            &&& a.transfer_baud == 115_200 && a.handshake_baud == 2400
            &&& !a.parity_even && !a.quiet && a.write_options
            &&& a.wait_s == 30
            &&& a.drain_mode == DrainMode::TcDrain && a.drain_margin_ms == 0
            &&& a.positional@.len() == 0
        },
{
    assert(text::views(argv@) =~= seq![]);
    match r {
        Ok(p) => {
            assert(p@ == ParsedView::Args(cli::default_args()));
            match p {
                Parsed::Args(a) => {
                    assert(a@ == cli::default_args());
                    assert(text::views(a.positional@).len() == 0);
                },
                Parsed::Help => {},
            }
        },
        Err(_) => {},
    }
}

/// A file to write, at a rate, through a port: what is said is what is read,
/// and all else is as usual.
pub proof fn law_parse_args_of_a_write(
    argv: &Vec<String>,
    r: Result<Parsed, String>,
    port: Seq<char>,
    baud: u32,
    path: Seq<char>,
)
    requires
        call_ensures(cli::parse_args, (argv,), r),
        text::views(argv@) == seq![
            "--port"@,
            port,
            "--baud"@,
            text::decimal(baud as nat),
            "write"@,
            path,
        ],
        path.len() > 0,
        path[0] != '-',
    ensures
        r matches Ok(Parsed::Args(a)) && a@ == (ArgsView {
            port: Some(port),
            transfer_baud: baud,
            command: Some("write"@),
            positional: seq![path],
            ..cli::default_args()
        }) && cli::commanded(a@) == Ok::<CommandView, Seq<char>>(
            CommandView::Write { path, write_options: true },
        ),
{
    let digits = text::decimal(baud as nat);
    let all = text::views(argv@);
    let a0 = cli::default_args();
    let a1 = ArgsView { port: Some(port), ..a0 };
    let a2 = ArgsView { transfer_baud: baud, ..a1 };
    let a3 = ArgsView { command: Some("write"@), ..a2 };
    let a4 = ArgsView { positional: a3.positional.push(path), ..a3 };
    let r1 = seq!["--baud"@, digits, "write"@, path];
    let r2 = seq!["write"@, path];
    let r3 = seq![path];
    let none = Seq::<Seq<char>>::empty();
    reveal_strlit("-p");
    reveal_strlit("--port");
    reveal_strlit("--baud");
    assert("-p"@.len() == 2 && "--port"@.len() == 6 && "--baud"@.len() == 6);
    laws::words::law_an_option_takes_the_next_word("--port"@, port, r1, a0);
    laws::words::law_what_an_option_with_a_word_does(a0, port);
    assert(seq!["--port"@, port] + r1 =~= all);
    laws::words::law_an_option_takes_the_next_word("--baud"@, digits, r2, a1);
    laws::words::law_a_written_rate_is_taken(a1, baud);
    assert(seq!["--baud"@, digits] + r2 =~= r1);
    reveal_strlit("write");
    laws::words::law_a_word_without_a_dash_is_no_option("write"@);
    laws::words::law_a_word_without_a_dash_is_no_option(path);
    laws::words::law_what_any_other_word_does("write"@, r3, a2);
    assert(seq!["write"@] + r3 =~= r2);
    laws::words::law_what_any_other_word_does(path, none, a3);
    assert(seq![path] + none =~= r3);
    assert(cli::parsed_from(none, 0, a4) == Ok::<ParsedView, Seq<char>>(ParsedView::Args(a4)));
    assert(a4.positional =~= seq![path]);
    laws::words::law_what_is_asked_for(a4, "write"@);
    match r {
        Ok(p) => {
            assert(p@ == ParsedView::Args(a4));
        },
        Err(_) => {},
    }
}

/// What the arguments say of the session, of the switch and of the port is
/// handed on as it is, with the usual timeouts.
pub proof fn law_what_the_arguments_say(
    a: &Args,
    o: SessionOptions,
    d: DrainConfig,
    port: Result<String, String>,
)
    requires
        call_ensures(Args::session_options, (a,), o),
        call_ensures(Args::drain, (a,), d),
        call_ensures(Args::port, (a,), port),
    ensures
        o.handshake_baud == a.handshake_baud,
        o.transfer_baud == a.transfer_baud,
        o.reply_timeout_ms == 2000,
        o.erase_timeout_ms == 20_000,
        d.mode == a.drain_mode,
        d.margin_ms == a.drain_margin_ms,
        match a.port {
            Some(p) => port matches Ok(q) && q@ == p@,
            None => port is Err,
        },
{
}

/// What is asked for: the first file, and only with the commands that need
/// one.
pub proof fn law_command(a: &Args, r: Result<Command, String>)
    requires
        call_ensures(Args::command, (a,), r),
    ensures
        match r {
            Ok(Command::Write { path, write_options }) => {
                &&& a.positional@.len() > 0
                &&& path@ == a.positional@[0]@
                &&& write_options == a.write_options
                &&& a.command matches Some(c) && (c@ == "write"@ || c@ == "flash"@)
            },
            Ok(Command::Explain { path }) => {
                &&& a.positional@.len() > 0
                &&& path@ == a.positional@[0]@
                &&& a.command matches Some(c) && c@ == "explain"@
            },
            Ok(Command::Erase { blocks }) => blocks == a.blocks && (a.command matches Some(c)
                && c@ == "erase"@),
            Ok(Command::Identify) => a.command matches Some(c) && (c@ == "identify"@ || c@
                == "info"@),
            Ok(Command::Ports) => a.command matches Some(c) && c@ == "ports"@,
            Err(_) => match a.command {
                None => true,
                Some(c) => ((c@ == "write"@ || c@ == "flash"@ || c@ == "explain"@)
                    && a.positional@.len() == 0) || (c@ != "write"@ && c@ != "flash"@ && c@
                    != "explain"@ && c@ != "erase"@ && c@ != "identify"@ && c@ != "info"@ && c@
                    != "ports"@),
            },
        },
{
    match a.command {
        Some(c) => laws::words::law_what_is_asked_for(a@, c@),
        None => {},
    }
    if a.positional@.len() > 0 {
        assert(a@.positional[0] == a.positional@[0]@);
    }
    match r {
        Ok(c) => {
            assert(cli::commanded(a@) == Ok::<CommandView, Seq<char>>(c@));
        },
        Err(e) => {
            assert(cli::commanded(a@) == Err::<CommandView, Seq<char>>(e@));
        },
    }
}

// ---------------------------------------------------------------------- lines

/// What `explain` says of block `i`: where it goes, and what its bytes, filled
/// up with `0xFF`, add up to.
pub proof fn law_explain(image: &Vec<u8>, lines: Vec<String>, n: int, i: int)
    requires
        call_ensures(cli::explain, (image,), lines),
        laws::steps::holds_in_pairs(n, image@.len() as int),
        0 <= i < 2 * n,
    ensures
        lines@.len() == 2 * n + 4,
        lines@[2 + i]@ == "  0x"@ + text::hex_lower((i * 128) as nat, 4) + "  ack 0x"@
            + text::hex_lower(
            (laws::wire::total(laws::printed::block(image@, i)) % 256) as nat,
            2,
        ) + (if forall|k: int|
            0 <= k < 128 ==> laws::printed::block(image@, i)[k] == 0xFF {
            "   (padding)"@
        } else {
            ""@
        }),
{
    laws::printed::law_what_is_explained(image@, n, i);
    let views = text::views(lines@);
    assert(views.len() == lines@.len());
    assert(views[2 + i] == lines@[2 + i]@);
}

/// What is said of an image names its size, and its gaps if there are any.
pub proof fn law_describe_image(path: &str, img: &Image, lines: Vec<String>)
    requires
        call_ensures(cli::describe_image, (path, img), lines),
    ensures
        lines@.len() == 1 + (if img.lowest_addr > 0 {
            1int
        } else {
            0
        }) + (if img.gap_bytes > 0 {
            1int
        } else {
            0
        }),
        lines@[0]@ == "image: "@ + path@ + " — "@ + text::decimal(img.bytes@.len()) + " bytes"@,
        img.gap_bytes > 0 ==> lines@.last()@ == "  note: "@ + text::decimal(img.gap_bytes as nat)
            + " bytes are gaps in the hex, filled with 0x00"@,
{
    laws::printed::law_what_is_said_of_an_image(path@, img@);
    let views = text::views(lines@);
    assert(views.len() == lines@.len());
    assert(views[0] == lines@[0]@);
    assert(views[views.len() - 1] == lines@[lines@.len() - 1]@);
}

/// What is said of a chip names its id, its version, its clock and its option
/// byte.
pub proof fn law_report_target(info: &TargetInfo, baud: u32, mhz: &str, lines: Vec<String>)
    requires
        call_ensures(cli::report_target, (info, baud, mhz), lines),
        info.freq_words@.len() > 0,
    ensures
        ({
            let n = lines@.len() as int;
            &&& n == (if info.code_flash is Some && info.eeprom_flash is Some {
                8int
            } else {
                6
            })
            &&& lines@[2]@ == "  chip id       "@ + frame::hex_text(info.chip_id@)
            &&& lines@[3]@ == "  BSL version   "@ + info.bsl_version@
            &&& n == 8 ==> lines@[4]@ == "  code flash    "@ + text::decimal(
                (info.code_flash->Some_0 / 1024) as nat,
            ) + " KB"@
            &&& lines@[n - 1]@ == "  option byte   "@ + frame::hex_text(info.option_bytes@)
                + "  (read only — the bit map is not known, so stcbsl only ever echoes it back)"@
        }),
{
    laws::printed::law_what_is_said_of_a_chip(info@, baud, mhz@);
    let views = text::views(lines@);
    let n = lines@.len() as int;
    assert(views.len() == n);
    assert(views[2] == lines@[2]@ && views[3] == lines@[3]@ && views[n - 1] == lines@[n - 1]@);
    if n == 8 {
        assert(views[4] == lines@[4]@);
    }
}

/// The log says nothing when quiet, and counts the noise either way.
pub proof fn law_log_line(log: &mut CliLog, r: &Report, s: Option<String>)
    requires
        call_ensures(CliLog::line, (log, r), s),
    ensures
        s is None <==> old(log).quiet,
        final(log).quiet == old(log).quiet,
        final(log).noise == old(log).noise + (match r {
            Report::Discarded(d) => d@.len() as int,
            _ => 0,
        }),
        s matches Some(t) ==> match r {
            Report::Step { label, bytes } => bytes@.len() <= 24 ==> t@ == "-> "@ + label@
                + "\n   "@ + frame::hex_text(bytes@),
            Report::Reply(f) => t@ == "<- cmd 0x"@ + text::hex_lower(f.cmd as nat, 2) + ", "@
                + text::decimal(f.payload@.len()) + " payload bytes"@,
            Report::Note(msg) => t@ == "   "@ + msg@,
            Report::Discarded(d) => t@ == "   discarded "@ + text::decimal(d@.len())
                + " non-protocol byte(s) ["@ + text::decimal(final(log).noise as nat)
                + " total] — normal if the chip is still running an app that prints"@,
        },
{
    match s {
        Some(t) => {
            assert(t@ == cli::report_text(r@, final(log).noise as nat));
        },
        None => {},
    }
}

/// A port is named, and one that blocks on carrier detect has its twin pointed
/// out; a plan is told by its length.
pub proof fn law_ports_and_plans(port: &str, s: String, n: usize, plan: String)
    requires
        call_ensures(cli::describe_port, (port,), s),
        call_ensures(cli::describe_plan, (n,), plan),
    ensures
        s@.take(port@.len() as int) == port@,
        s@ == port@ <==> forall|a: Seq<char>, b: Seq<char>|
            #[trigger] (a + "/dev/tty."@ + b) != port@,
        plan@ == "plan: "@ + text::decimal(n as nat) + " frames"@,
{
    reveal_strlit("   (prefer the /dev/cu.* twin)");
    reveal_strlit("");
    let needle = "/dev/tty."@;
    assert(s@.take(port@.len() as int) =~= port@);
    if text::contains_text(port@, needle) {
        laws::numbers::law_what_is_found_stands_there(port@, needle);
        assert(s@.len() > port@.len());
        let (a, b) = choose|a: Seq<char>, b: Seq<char>| port@ == #[trigger] (a + needle + b);
        assert(a + needle + b == port@);
    } else {
        assert(s@ =~= port@);
        assert forall|a: Seq<char>, b: Seq<char>| #[trigger] (a + needle + b) != port@ by {
            laws::numbers::law_a_text_is_found_where_it_stands(a, needle, b);
        }
    }
}

/// What is said before the wait names its length, the rate and the port.
pub proof fn law_announce_wait(wait_s: u64, baud: u32, port: &str, lines: Vec<String>)
    requires
        call_ensures(cli::announce_wait, (wait_s, baud, port), lines),
    ensures
        lines@.len() == 2,
        lines@[0]@ == "waiting up to "@ + text::decimal(wait_s as nat)
            + " s for the bootloader at "@ + text::decimal(baud as nat) + " baud on "@ + port@,
{
    let views = text::views(lines@);
    assert(views.len() == lines@.len());
    assert(views[0] == lines@[0]@);
}

// ---------------------------------------------------------------------- probe

/// A probe counts every byte, and says how many.
pub proof fn law_probe(
    fresh: Probe,
    p: &mut Probe,
    bytes: &[u8],
    n: usize,
    label: &str,
    secs: u64,
    s: String,
    reads: bool,
)
    requires
        call_ensures(Probe::new, (), fresh),
        call_ensures(Probe::heard, (p, bytes), ()),
        call_ensures(Probe::count, (&*final(p),), n),
        call_ensures(Probe::legible, (&*final(p),), reads),
        call_ensures(Probe::describe, (&*final(p), label, secs), s),
    ensures
        fresh@.count == 0 && fresh@.sample.len() == 0,
        n == old(p)@.count + bytes@.len(),
        reads <==> final(p)@.legible(),
        s@ == label@ + ": "@ + text::decimal(n as nat) + " bytes in "@ + text::decimal(secs as nat)
            + "s, legible="@ + (if reads {
            "true"@
        } else {
            "false"@
        }),
        old(p)@.sample.len() < 40 && bytes@.len() < 40 ==> final(p)@.sample == old(p)@.sample
            + bytes@,
        old(p)@.sample.len() >= 40 ==> final(p)@.sample == old(p)@.sample,
{
}

} // verus!
