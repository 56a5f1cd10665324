//! What the command line means, and what is printed.
//!
//! Nothing here reads a file, opens a port or prints: the functions take what
//! was read and give what is to be said.

use vstd::prelude::*;

use crate::driver::{DrainConfig, DrainMode, Report, ReportView};
use crate::frame;
use crate::frame::hex;
use crate::ihex::{Image, ImageView};
use crate::protocol::stc89;
use crate::protocol::stc89::{Stc89, ERASE_BLOCK, WRITE_BLOCK};
use crate::protocol::{Job, JobView, SessionOptions, TargetInfo, TargetInfoView};
use crate::text;
use crate::text::{
    chars_of, debug_str, has_text, parse_signed, parse_unsigned, push_decimal, push_hex_lower,
    push_hex_upper, same_str,
};

verus! {

pub const USAGE: &'static str = "stcbsl — clean-room STC serial bootloader flasher (STC89 family)

USAGE:
  stcbsl [OPTIONS] <COMMAND>

COMMANDS:
  identify                  handshake, report what the chip says, let it run
  erase [--blocks N]        erase code flash (whole chip unless --blocks)
  write <FILE.hex>          erase what the image needs, program it, let it run
  flash <FILE.hex>          alias for `write`
  explain <FILE.hex>        offline: show the block plan for an image; no port
  ports                     list serial ports on this machine

OPTIONS:
  -p, --port <DEV>          serial device, e.g. /dev/cu.usbserial-1110
      --baud <N>            transfer baud                 [default 115200]
      --handshake-baud <N>  handshake baud                [default 2400]
      --parity <none|even>  wire parity                   [default none]
      --wait <SECONDS>      how long to pulse for the BSL [default 30]
      --drain-mode <M>      at the baud switch: tcdrain (tcdrain(2) the idle
                            wire first) | wire (skip it)  [default tcdrain]
      --drain-margin <MS>   settle ms after the switch, before the first 0x80
                            link test                     [default 0]
      --blocks <N>          erase block count (256 B each), `erase` only
      --keep-options        write the option byte back (default for `write`)
      --skip-options        do not send the option frame at all
  -q, --quiet               only print the outcome
  -h, --help                this text

THE ONE THING TO KNOW:
  The bootloader runs only after a COLD power-on and listens for a few
  hundred milliseconds. So: switch the board OFF, start this command, then
  switch it ON. A reset button does not work; DTR autoreset does not work on
  these boards, and this tool deliberately does not pretend otherwise.

  Every retry is a power cycle.
";

// ------------------------------------------------------------------ arguments

/// What the command line says.
#[derive(Debug)]
pub struct Args {
    pub port: Option<String>,
    pub transfer_baud: u32,
    pub handshake_baud: u32,
    pub parity_even: bool,
    pub wait_s: u64,
    pub blocks: Option<u8>,
    pub write_options: bool,
    pub quiet: bool,
    pub drain_mode: DrainMode,
    pub drain_margin_ms: i64,
    pub command: Option<String>,
    pub positional: Vec<String>,
}

/// [`Args`] with its texts as sequences.
pub struct ArgsView {
    pub port: Option<Seq<char>>,
    pub transfer_baud: u32,
    pub handshake_baud: u32,
    pub parity_even: bool,
    pub wait_s: u64,
    pub blocks: Option<u8>,
    pub write_options: bool,
    pub quiet: bool,
    pub drain_mode: DrainMode,
    pub drain_margin_ms: i64,
    pub command: Option<Seq<char>>,
    pub positional: Seq<Seq<char>>,
}

/// A text that may be missing, as a sequence.
pub open spec fn some_text(s: Option<String>) -> Option<Seq<char>> {
    match s {
        Some(t) => Some(t@),
        None => None,
    }
}

impl View for Args {
    type V = ArgsView;

    open spec fn view(&self) -> ArgsView {
        ArgsView {
            port: some_text(self.port),
            transfer_baud: self.transfer_baud,
            handshake_baud: self.handshake_baud,
            parity_even: self.parity_even,
            wait_s: self.wait_s,
            blocks: self.blocks,
            write_options: self.write_options,
            quiet: self.quiet,
            drain_mode: self.drain_mode,
            drain_margin_ms: self.drain_margin_ms,
            command: some_text(self.command),
            positional: text::views(self.positional@),
        }
    }
}

/// What holds where the command line says nothing.
pub open spec fn default_args() -> ArgsView {
    ArgsView {
        port: None,
        transfer_baud: 115200,
        handshake_baud: 2400,
        parity_even: false,
        wait_s: 30,
        blocks: None,
        write_options: true,
        quiet: false,
        drain_mode: DrainMode::TcDrain,
        drain_margin_ms: 0,
        command: None,
        positional: seq![],
    }
}

/// The option that an argument names, where it is one that takes a value.
pub open spec fn valued_option(arg: Seq<char>) -> Option<Seq<char>> {
    if arg == "-p"@ {
        Some("--port"@)
    } else if arg == "--port"@ || arg == "--baud"@ || arg == "--handshake-baud"@ || arg
        == "--drain-mode"@ || arg == "--drain-margin"@ || arg == "--parity"@ || arg == "--wait"@
        || arg == "--blocks"@ {
        Some(arg)
    } else {
        None
    }
}

/// The arguments with an option set to a value, or what is wrong with it.
pub open spec fn with_value(a: ArgsView, option: Seq<char>, v: Seq<char>) -> Result<
    ArgsView,
    Seq<char>,
> {
    if option == "--port"@ {
        Ok(ArgsView { port: Some(v), ..a })
    } else if option == "--baud"@ {
        match text::parsed_unsigned(v, 10, u32::MAX as nat) {
            Some(n) => Ok(ArgsView { transfer_baud: n as u32, ..a }),
            None => Err("--baud: not a number"@),
        }
    } else if option == "--handshake-baud"@ {
        match text::parsed_unsigned(v, 10, u32::MAX as nat) {
            Some(n) => Ok(ArgsView { handshake_baud: n as u32, ..a }),
            None => Err("--handshake-baud: not a number"@),
        }
    } else if option == "--drain-mode"@ {
        if v == "tcdrain"@ {
            Ok(ArgsView { drain_mode: DrainMode::TcDrain, ..a })
        } else if v == "wire"@ {
            Ok(ArgsView { drain_mode: DrainMode::ComputeWireTime, ..a })
        } else {
            Err("--drain-mode: expected tcdrain|wire, got "@ + text::quoted_str(v))
        }
    } else if option == "--drain-margin"@ {
        match text::parsed_signed(v) {
            Some(n) => Ok(ArgsView { drain_margin_ms: n as i64, ..a }),
            None => Err("--drain-margin: not an integer (ms, may be negative)"@),
        }
    } else if option == "--parity"@ {
        if v == "none"@ {
            Ok(ArgsView { parity_even: false, ..a })
        } else if v == "even"@ {
            Ok(ArgsView { parity_even: true, ..a })
        } else {
            Err("--parity: expected none|even, got "@ + text::quoted_str(v))
        }
    } else if option == "--wait"@ {
        match text::parsed_unsigned(v, 10, u64::MAX as nat) {
            Some(n) => Ok(ArgsView { wait_s: n as u64, ..a }),
            None => Err("--wait: not a number"@),
        }
    } else {
        match text::parsed_unsigned(v, 10, u8::MAX as nat) {
            Some(n) => Ok(ArgsView { blocks: Some(n as u8), ..a }),
            None => Err("--blocks: not a byte"@),
        }
    }
}

/// The arguments with one more that takes no value, or what is wrong with it.
pub open spec fn with_plain(a: ArgsView, arg: Seq<char>) -> Result<ArgsView, Seq<char>> {
    if arg == "-q"@ || arg == "--quiet"@ {
        Ok(ArgsView { quiet: true, ..a })
    } else if arg == "--keep-options"@ {
        Ok(ArgsView { write_options: true, ..a })
    } else if arg == "--skip-options"@ {
        Ok(ArgsView { write_options: false, ..a })
    } else if arg.len() > 0 && arg[0] == '-' {
        Err("unknown option "@ + text::quoted_str(arg))
    } else if a.command is None {
        Ok(ArgsView { command: Some(arg), ..a })
    } else {
        Ok(ArgsView { positional: a.positional.push(arg), ..a })
    }
}

/// The command line either asks for the usage text, or says something.
pub enum ParsedView {
    Help,
    Args(ArgsView),
}

/// What the arguments from `i` on say, on top of those before: up to the first
/// that is wrong, or that asks for help.
pub open spec fn parsed_from(argv: Seq<Seq<char>>, i: int, a: ArgsView) -> Result<
    ParsedView,
    Seq<char>,
>
    decreases argv.len() - i,
{
    if i < 0 || i >= argv.len() {
        Ok(ParsedView::Args(a))
    } else if argv[i] == "-h"@ || argv[i] == "--help"@ {
        Ok(ParsedView::Help)
    } else {
        match valued_option(argv[i]) {
            Some(option) => if i + 1 >= argv.len() {
                Err(option + " needs a value"@)
            } else {
                match with_value(a, option, argv[i + 1]) {
                    Ok(b) => parsed_from(argv, i + 2, b),
                    Err(e) => Err(e),
                }
            },
            None => match with_plain(a, argv[i]) {
                Ok(b) => parsed_from(argv, i + 1, b),
                Err(e) => Err(e),
            },
        }
    }
}

/// [`ParsedView`] with real arguments.
#[derive(Debug)]
pub enum Parsed {
    Help,
    Args(Args),
}

impl View for Parsed {
    type V = ParsedView;

    open spec fn view(&self) -> ParsedView {
        match self {
            Parsed::Help => ParsedView::Help,
            Parsed::Args(a) => ParsedView::Args(a@),
        }
    }
}

fn defaults() -> (a: Args)
    ensures
        a@ == default_args(),
{
    let a = Args {
        port: None,
        transfer_baud: 115200,
        handshake_baud: 2400,
        parity_even: false,
        wait_s: 30,
        blocks: None,
        write_options: true,
        quiet: false,
        drain_mode: DrainMode::TcDrain,
        drain_margin_ms: 0,
        command: None,
        positional: Vec::new(),
    };
    assert(text::views(a.positional@) =~= seq![]);
    a
}

/// The option that an argument names, where it is one that takes a value.
fn option_with_value(arg: &str) -> (r: Option<&str>)
    ensures
        match r {
            Some(s) => valued_option(arg@) == Some(s@),
            None => valued_option(arg@) is None,
        },
{
    if same_str(arg, "-p") {
        Some("--port")
    } else if same_str(arg, "--port") || same_str(arg, "--baud") || same_str(
        arg,
        "--handshake-baud",
    ) || same_str(arg, "--drain-mode") || same_str(arg, "--drain-margin") || same_str(
        arg,
        "--parity",
    ) || same_str(arg, "--wait") || same_str(arg, "--blocks") {
        Some(arg)
    } else {
        None
    }
}

/// A message with a text quoted at its end.
fn quoting(prefix: &str, s: &str) -> (r: String)
    ensures
        r@ == prefix@ + text::quoted_str(s@),
{
    let mut m: String = prefix.to_owned();
    m.append(debug_str(s).as_str());
    m
}

/// Set an option to a value.
fn set_option(a: &mut Args, option: &str, v: &String) -> (r: Result<(), String>)
    ensures
        match r {
            Ok(()) => with_value(old(a)@, option@, v@) == Ok::<ArgsView, Seq<char>>(final(a)@),
            Err(e) => with_value(old(a)@, option@, v@) == Err::<ArgsView, Seq<char>>(e@),
        },
{
    if same_str(option, "--port") {
        a.port = Some(v.clone());
        return Ok(());
    }
    let chars: Vec<char> = chars_of(v.as_str());
    if same_str(option, "--baud") {
        match parse_unsigned(&chars, 10, u32::MAX as u64) {
            Some(n) => {
                a.transfer_baud = n as u32;
                Ok(())
            },
            None => Err("--baud: not a number".to_owned()),
        }
    } else if same_str(option, "--handshake-baud") {
        match parse_unsigned(&chars, 10, u32::MAX as u64) {
            Some(n) => {
                a.handshake_baud = n as u32;
                Ok(())
            },
            None => Err("--handshake-baud: not a number".to_owned()),
        }
    } else if same_str(option, "--drain-mode") {
        if same_str(v.as_str(), "tcdrain") {
            a.drain_mode = DrainMode::TcDrain;
            Ok(())
        } else if same_str(v.as_str(), "wire") {
            a.drain_mode = DrainMode::ComputeWireTime;
            Ok(())
        } else {
            Err(quoting("--drain-mode: expected tcdrain|wire, got ", v.as_str()))
        }
    } else if same_str(option, "--drain-margin") {
        match parse_signed(&chars) {
            Some(n) => {
                a.drain_margin_ms = n;
                Ok(())
            },
            None => Err("--drain-margin: not an integer (ms, may be negative)".to_owned()),
        }
    } else if same_str(option, "--parity") {
        if same_str(v.as_str(), "none") {
            a.parity_even = false;
            Ok(())
        } else if same_str(v.as_str(), "even") {
            a.parity_even = true;
            Ok(())
        } else {
            Err(quoting("--parity: expected none|even, got ", v.as_str()))
        }
    } else if same_str(option, "--wait") {
        match parse_unsigned(&chars, 10, u64::MAX) {
            Some(n) => {
                a.wait_s = n;
                Ok(())
            },
            None => Err("--wait: not a number".to_owned()),
        }
    } else {
        match parse_unsigned(&chars, 10, u8::MAX as u64) {
            Some(n) => {
                a.blocks = Some(n as u8);
                Ok(())
            },
            None => Err("--blocks: not a byte".to_owned()),
        }
    }
}

/// Take an argument that has no value behind it.
fn take_plain(a: &mut Args, arg: &String) -> (r: Result<(), String>)
    ensures
        match r {
            Ok(()) => with_plain(old(a)@, arg@) == Ok::<ArgsView, Seq<char>>(final(a)@),
            Err(e) => with_plain(old(a)@, arg@) == Err::<ArgsView, Seq<char>>(e@),
        },
{
    if same_str(arg.as_str(), "-q") || same_str(arg.as_str(), "--quiet") {
        a.quiet = true;
        return Ok(());
    }
    if same_str(arg.as_str(), "--keep-options") {
        a.write_options = true;
        return Ok(());
    }
    if same_str(arg.as_str(), "--skip-options") {
        a.write_options = false;
        return Ok(());
    }
    let chars: Vec<char> = chars_of(arg.as_str());
    if chars.len() > 0 && chars[0] == '-' {
        return Err(quoting("unknown option ", arg.as_str()));
    }
    if a.command.is_none() {
        a.command = Some(arg.clone());
    } else {
        let ghost before = a.positional@;
        a.positional.push(arg.clone());
        assert(text::views(a.positional@) =~= text::views(before).push(arg@));
    }
    Ok(())
}

/// Read the command line.
pub fn parse_args(argv: &Vec<String>) -> (r: Result<Parsed, String>)
    ensures
        match r {
            Ok(p) => parsed_from(text::views(argv@), 0, default_args()) == Ok::<
                ParsedView,
                Seq<char>,
            >(p@),
            Err(e) => parsed_from(text::views(argv@), 0, default_args()) == Err::<
                ParsedView,
                Seq<char>,
            >(e@),
        },
{
    let ghost words = text::views(argv@);
    let mut a: Args = defaults();
    let mut i: usize = 0;
    while i < argv.len()
        invariant
            0 <= i <= argv@.len(),
            words == text::views(argv@),
            parsed_from(words, 0, default_args()) == parsed_from(words, i as int, a@),
        decreases argv.len() - i,
    {
        let arg: &String = &argv[i];
        assert(words[i as int] == arg@);
        if same_str(arg.as_str(), "-h") || same_str(arg.as_str(), "--help") {
            return Ok(Parsed::Help);
        }
        match option_with_value(arg.as_str()) {
            Some(option) => {
                if argv.len() - i < 2 {
                    let mut e: String = option.to_owned();
                    e.append(" needs a value");
                    return Err(e);
                }
                assert(words[i + 1] == argv@[i + 1]@);
                match set_option(&mut a, option, &argv[i + 1]) {
                    Ok(()) => {},
                    Err(e) => {
                        return Err(e);
                    },
                }
                i = i + 2;
            },
            None => {
                match take_plain(&mut a, arg) {
                    Ok(()) => {},
                    Err(e) => {
                        return Err(e);
                    },
                }
                i = i + 1;
            },
        }
    }
    Ok(Parsed::Args(a))
}

// ------------------------------------------------------------------- commands

/// What is to be done.
#[derive(Debug)]
pub enum Command {
    Ports,
    Explain { path: String },
    Identify,
    Erase { blocks: Option<u8> },
    Write { path: String, write_options: bool },
}

/// [`Command`] with its texts as sequences.
pub enum CommandView {
    Ports,
    Explain { path: Seq<char> },
    Identify,
    Erase { blocks: Option<u8> },
    Write { path: Seq<char>, write_options: bool },
}

impl View for Command {
    type V = CommandView;

    open spec fn view(&self) -> CommandView {
        match self {
            Command::Ports => CommandView::Ports,
            Command::Explain { path } => CommandView::Explain { path: path@ },
            Command::Identify => CommandView::Identify,
            Command::Erase { blocks } => CommandView::Erase { blocks: *blocks },
            Command::Write { path, write_options } => CommandView::Write {
                path: path@,
                write_options: *write_options,
            },
        }
    }
}

/// What some arguments ask for.
pub open spec fn commanded(a: ArgsView) -> Result<CommandView, Seq<char>> {
    match a.command {
        None => Err("no command; try --help"@),
        Some(c) => if c == "ports"@ {
            Ok(CommandView::Ports)
        } else if c == "explain"@ {
            if a.positional.len() == 0 {
                Err("`explain` needs a .hex file"@)
            } else {
                Ok(CommandView::Explain { path: a.positional[0] })
            }
        } else if c == "identify"@ || c == "info"@ {
            Ok(CommandView::Identify)
        } else if c == "erase"@ {
            Ok(CommandView::Erase { blocks: a.blocks })
        } else if c == "write"@ || c == "flash"@ {
            if a.positional.len() == 0 {
                Err("`write` needs a .hex file"@)
            } else {
                Ok(CommandView::Write { path: a.positional[0], write_options: a.write_options })
            }
        } else {
            Err("unknown command "@ + text::quoted_str(c) + "; try --help"@)
        },
    }
}

impl Args {
    /// What is asked for.
    pub fn command(&self) -> (r: Result<Command, String>)
        ensures
            match r {
                Ok(c) => commanded(self@) == Ok::<CommandView, Seq<char>>(c@),
                Err(e) => commanded(self@) == Err::<CommandView, Seq<char>>(e@),
            },
    {
        let c: &String = match &self.command {
            None => {
                return Err("no command; try --help".to_owned());
            },
            Some(c) => c,
        };
        let c: &str = c.as_str();
        if same_str(c, "ports") {
            Ok(Command::Ports)
        } else if same_str(c, "explain") {
            if self.positional.len() == 0 {
                Err("`explain` needs a .hex file".to_owned())
            } else {
                assert(self@.positional[0] == self.positional@[0]@);
                Ok(Command::Explain { path: self.positional[0].clone() })
            }
        } else if same_str(c, "identify") || same_str(c, "info") {
            Ok(Command::Identify)
        } else if same_str(c, "erase") {
            Ok(Command::Erase { blocks: self.blocks })
        } else if same_str(c, "write") || same_str(c, "flash") {
            if self.positional.len() == 0 {
                Err("`write` needs a .hex file".to_owned())
            } else {
                assert(self@.positional[0] == self.positional@[0]@);
                Ok(
                    Command::Write {
                        path: self.positional[0].clone(),
                        write_options: self.write_options,
                    },
                )
            }
        } else {
            let mut e: String = quoting("unknown command ", c);
            e.append("; try --help");
            Err(e)
        }
    }

    /// The port to open.
    pub fn port(&self) -> (r: Result<String, String>)
        ensures
            match (r, self@.port) {
                (Ok(p), Some(q)) => p@ == q,
                (Err(e), None) => e@ == "--port is required (try `stcbsl ports`)"@,
                _ => false,
            },
    {
        match &self.port {
            Some(p) => Ok(p.clone()),
            None => Err("--port is required (try `stcbsl ports`)".to_owned()),
        }
    }

    /// The session options: the two rates as asked, the timeouts as usual.
    pub fn session_options(&self) -> (o: SessionOptions)
        ensures
            o == (SessionOptions {
                handshake_baud: self.handshake_baud,
                transfer_baud: self.transfer_baud,
                reply_timeout_ms: 2000,
                erase_timeout_ms: 20_000,
            }),
    {
        let usual: SessionOptions = SessionOptions::default();
        SessionOptions {
            handshake_baud: self.handshake_baud,
            transfer_baud: self.transfer_baud,
            reply_timeout_ms: usual.reply_timeout_ms,
            erase_timeout_ms: usual.erase_timeout_ms,
        }
    }

    /// How a baud switch is handled.
    pub fn drain(&self) -> (d: DrainConfig)
        ensures
            d == (DrainConfig { mode: self.drain_mode, margin_ms: self.drain_margin_ms }),
    {
        DrainConfig { mode: self.drain_mode, margin_ms: self.drain_margin_ms }
    }
}

// ------------------------------------------------------------------ the image

/// What is said of an image that was read.
pub open spec fn image_lines(path: Seq<char>, img: ImageView) -> Seq<Seq<char>> {
    let first = seq!["image: "@ + path + " — "@ + text::decimal(img.bytes.len()) + " bytes"@];
    let offset = if img.lowest_addr != 0 {
        seq![
            "  note: lowest address is 0x"@ + text::hex_lower(img.lowest_addr as nat, 4)
                + ", not 0 — the 8051 starts at 0x0000"@,
        ]
    } else {
        seq![]
    };
    let gaps = if img.gap_bytes > 0 {
        seq![
            "  note: "@ + text::decimal(img.gap_bytes)
                + " bytes are gaps in the hex, filled with 0x00"@,
        ]
    } else {
        seq![]
    };
    first + offset + gaps
}

/// Add a line.
fn line(lines: &mut Vec<String>, s: String)
    ensures
        text::views(final(lines)@) == text::views(old(lines)@).push(s@),
{
    lines.push(s);
    assert(text::views(lines@) =~= text::views(old(lines)@).push(s@));
}

/// What is said of an image that was read.
pub fn describe_image(path: &str, img: &Image) -> (lines: Vec<String>)
    ensures
        text::views(lines@) == image_lines(path@, img@),
{
    let mut lines: Vec<String> = Vec::new();
    assert(text::views(lines@) =~= seq![]);
    let mut s: String = "image: ".to_owned();
    s.append(path);
    s.append(" — ");
    push_decimal(&mut s, img.bytes.len() as u64);
    s.append(" bytes");
    line(&mut lines, s);
    if img.lowest_addr != 0 {
        let mut s: String = "  note: lowest address is 0x".to_owned();
        push_hex_lower(&mut s, img.lowest_addr as u64, 4);
        s.append(", not 0 — the 8051 starts at 0x0000");
        line(&mut lines, s);
    }
    if img.gap_bytes > 0 {
        let mut s: String = "  note: ".to_owned();
        push_decimal(&mut s, img.gap_bytes as u64);
        s.append(" bytes are gaps in the hex, filled with 0x00");
        line(&mut lines, s);
    }
    assert(text::views(lines@) =~= image_lines(path@, img@));
    lines
}

/// Every byte of a block is erased flash.
pub open spec fn is_padding(block: Seq<u8>) -> bool {
    forall|j: int| 0 <= j < block.len() ==> block[j] == 0xFF
}

/// What is said of block `i`: where it goes, what the chip should answer, and
/// whether it is padding.
pub open spec fn block_line(data: Seq<u8>, i: int) -> Seq<char> {
    let block = stc89::block_data(data, i);
    "  0x"@ + text::hex_lower((i * 128) as nat, 4) + "  ack 0x"@ + text::hex_lower(
        frame::sum8(block) as nat,
        2,
    ) + (if is_padding(block) {
        "   (padding)"@
    } else {
        ""@
    })
}

/// The size of the region that is erased for an image.
pub open spec fn region_for(image: Seq<u8>) -> nat {
    stc89::erase_blocks(image.len()) * 256
}

/// What would be programmed where, and what each block should ack.
pub open spec fn explain_lines(image: Seq<u8>) -> Seq<Seq<char>> {
    let region = region_for(image);
    let data = stc89::padded(image, region);
    seq![
        "erase: "@ + text::decimal(stc89::erase_blocks(image.len())) + " blocks x 256 B = "@
            + text::decimal(region) + " B  (rule: NN = 2 x ceil(size/512))"@,
        "write: "@ + text::decimal(region / 128) + " blocks x 128 B"@,
    ] + Seq::new(region / 128, |i: int| block_line(data, i)) + seq![
        ""@,
        "The baud, link-test and option frames depend on the live status packet\n(measured frequency, chip id, current option byte), so they are not shown\nhere: this tool never invents an option byte."@,
    ]
}

fn all_ff(block: &[u8]) -> (r: bool)
    ensures
        r == is_padding(block@),
{
    let mut i: usize = 0;
    while i < block.len()
        invariant
            0 <= i <= block@.len(),
            forall|j: int| 0 <= j < i ==> block@[j] == 0xFF,
        decreases block.len() - i,
    {
        if block[i] != 0xFF {
            return false;
        }
        i = i + 1;
    }
    true
}

/// What would be programmed where, and what each block should ack. Needs no
/// port and no chip, so it is the cheap way to sanity-check an image before a
/// bench session.
pub fn explain(image: &Vec<u8>) -> (lines: Vec<String>)
    requires
        region_for(image@) <= usize::MAX,
    ensures
        text::views(lines@) == explain_lines(image@),
{
    let blocks: usize = Stc89::erase_blocks_for(image.len());
    let region: usize = blocks * ERASE_BLOCK;
    let data: Vec<u8> = Stc89::pad(image, region);
    let mut lines: Vec<String> = Vec::new();
    assert(text::views(lines@) =~= seq![]);
    let mut s: String = "erase: ".to_owned();
    push_decimal(&mut s, blocks as u64);
    s.append(" blocks x 256 B = ");
    push_decimal(&mut s, region as u64);
    s.append(" B  (rule: NN = 2 x ceil(size/512))");
    line(&mut lines, s);
    let total: usize = region / WRITE_BLOCK;
    let mut s: String = "write: ".to_owned();
    push_decimal(&mut s, total as u64);
    s.append(" blocks x 128 B");
    line(&mut lines, s);
    let ghost head = text::views(lines@);
    let ghost rows = Seq::new(total as nat, |k: int| block_line(data@, k));
    let mut i: usize = 0;
    assert(head + rows.take(0) =~= head);
    while i < total
        invariant
            0 <= i <= total,
            total * 128 <= data@.len(),
            data@.len() <= usize::MAX,
            rows == Seq::new(total as nat, |k: int| block_line(data@, k)),
            text::views(lines@) == head + rows.take(i as int),
        decreases total - i,
    {
        let addr: usize = i * WRITE_BLOCK;
        let chunk: &[u8] = vstd::slice::slice_subrange(data.as_slice(), addr, addr + WRITE_BLOCK);
        assert(chunk@ == stc89::block_data(data@, i as int));
        let mut s: String = "  0x".to_owned();
        push_hex_lower(&mut s, addr as u64, 4);
        s.append("  ack 0x");
        push_hex_lower(&mut s, Stc89::block_ack(chunk) as u64, 2);
        if all_ff(chunk) {
            s.append("   (padding)");
        } else {
            s.append("");
        }
        assert(s@ == rows[i as int]);
        line(&mut lines, s);
        assert(rows.take(i + 1) =~= rows.take(i as int).push(rows[i as int]));
        assert(text::views(lines@) =~= head + rows.take(i + 1));
        i = i + 1;
    }
    assert(rows.take(total as int) =~= rows);
    line(&mut lines, "".to_owned());
    line(
        &mut lines,
        "The baud, link-test and option frames depend on the live status packet\n(measured frequency, chip id, current option byte), so they are not shown\nhere: this tool never invents an option byte.".to_owned(),
    );
    assert(text::views(lines@) =~= explain_lines(image@));
    lines
}

// ---------------------------------------------------------------- the session

/// What is said before the wait for the bootloader.
pub open spec fn waiting_lines(wait_s: u64, baud: u32, port: Seq<char>) -> Seq<Seq<char>> {
    seq![
        "waiting up to "@ + text::decimal(wait_s as nat) + " s for the bootloader at "@
            + text::decimal(baud as nat) + " baud on "@ + port,
        "  >>> POWER-CYCLE THE BOARD NOW (off, then on) <<<"@,
    ]
}

pub fn announce_wait(wait_s: u64, baud: u32, port: &str) -> (lines: Vec<String>)
    ensures
        text::views(lines@) == waiting_lines(wait_s, baud, port@),
{
    let mut lines: Vec<String> = Vec::new();
    assert(text::views(lines@) =~= seq![]);
    let mut s: String = "waiting up to ".to_owned();
    push_decimal(&mut s, wait_s);
    s.append(" s for the bootloader at ");
    push_decimal(&mut s, baud as u64);
    s.append(" baud on ");
    s.append(port);
    line(&mut lines, s);
    line(&mut lines, "  >>> POWER-CYCLE THE BOARD NOW (off, then on) <<<".to_owned());
    assert(text::views(lines@) =~= waiting_lines(wait_s, baud, port@));
    lines
}

/// What is said of the chip that answered. `mhz` is the measured frequency in
/// megahertz, as text.
pub open spec fn target_lines(info: TargetInfoView, baud: u32, mhz: Seq<char>) -> Seq<Seq<char>> {
    let model = match info.model {
        Some(m) => m,
        None => "unknown (chip id not in our table)"@,
    };
    let sizes = match (info.code_flash, info.eeprom_flash) {
        (Some(c), Some(e)) => seq![
            "  code flash    "@ + text::decimal((c / 1024) as nat) + " KB"@,
            "  EEPROM flash  "@ + text::decimal((e / 1024) as nat) + " KB"@,
        ],
        _ => seq![],
    };
    seq![
        "target:"@,
        "  model         "@ + model,
        "  chip id       "@ + frame::hex_text(info.chip_id),
        "  BSL version   "@ + info.bsl_version,
    ] + sizes + seq![
        "  clock         "@ + mhz
            + " MHz  (MEASURED by the BSL this handshake, word 0x"@ + text::hex_upper(
            info.freq_words[0] as nat,
            4,
        ) + " at "@ + text::decimal(baud as nat)
            + " baud — not a stored constant, expect it to move run to run)"@,
        "  option byte   "@ + frame::hex_text(info.option_bytes)
            + "  (read only — the bit map is not known, so stcbsl only ever echoes it back)"@,
    ]
}

/// Say what the chip said. The frequency is a property of the handshake, not
/// of the board, and is reported as such.
pub fn report_target(info: &TargetInfo, baud: u32, mhz: &str) -> (lines: Vec<String>)
    requires
        info@.freq_words.len() > 0,
    ensures
        text::views(lines@) == target_lines(info@, baud, mhz@),
{
    let mut lines: Vec<String> = Vec::new();
    assert(text::views(lines@) =~= seq![]);
    line(&mut lines, "target:".to_owned());
    let mut s: String = "  model         ".to_owned();
    match info.model {
        Some(m) => s.append(m),
        None => s.append("unknown (chip id not in our table)"),
    }
    line(&mut lines, s);
    let mut s: String = "  chip id       ".to_owned();
    s.append(hex(&info.chip_id).as_str());
    line(&mut lines, s);
    let mut s: String = "  BSL version   ".to_owned();
    s.append(info.bsl_version.as_str());
    line(&mut lines, s);
    if let (Some(c), Some(e)) = (info.code_flash, info.eeprom_flash) {
        let mut s: String = "  code flash    ".to_owned();
        push_decimal(&mut s, (c / 1024) as u64);
        s.append(" KB");
        line(&mut lines, s);
        let mut s: String = "  EEPROM flash  ".to_owned();
        push_decimal(&mut s, (e / 1024) as u64);
        s.append(" KB");
        line(&mut lines, s);
    }
    let mut s: String = "  clock         ".to_owned();
    s.append(mhz);
    s.append(" MHz  (MEASURED by the BSL this handshake, word 0x");
    push_hex_upper(&mut s, info.freq_words[0] as u64, 4);
    s.append(" at ");
    push_decimal(&mut s, baud as u64);
    s.append(" baud — not a stored constant, expect it to move run to run)");
    line(&mut lines, s);
    let mut s: String = "  option byte   ".to_owned();
    s.append(hex(&info.option_bytes).as_str());
    s.append("  (read only — the bit map is not known, so stcbsl only ever echoes it back)");
    line(&mut lines, s);
    assert(text::views(lines@) =~= target_lines(info@, baud, mhz@));
    lines
}

pub fn describe_plan(frames: usize) -> (s: String)
    ensures
        s@ == "plan: "@ + text::decimal(frames as nat) + " frames"@,
{
    let mut s: String = "plan: ".to_owned();
    push_decimal(&mut s, frames as u64);
    s.append(" frames");
    s
}

/// What is said when a job is done.
pub open spec fn done_text(job: JobView) -> Seq<char> {
    match job {
        JobView::Identify => "done — chip released to its application"@,
        JobView::Erase { .. } => "done — code flash erased"@,
        JobView::Flash { .. } =>
            "done — image programmed and the chip released to it.\nThere is no read-back on this part, so 'programmed' means every block's\nchecksum was acknowledged by the MCU, not that the flash was read back."@,
    }
}

pub fn describe_done(job: &Job) -> (s: String)
    ensures
        s@ == done_text(job@),
{
    match job {
        Job::Identify => "done — chip released to its application".to_owned(),
        Job::Erase { .. } => "done — code flash erased".to_owned(),
        Job::Flash { .. } =>
            "done — image programmed and the chip released to it.\nThere is no read-back on this part, so 'programmed' means every block's\nchecksum was acknowledged by the MCU, not that the flash was read back.".to_owned(),
    }
}

/// A port in the list of ports. `/dev/tty.*` blocks on carrier detect, so its
/// twin is the one to use.
pub fn describe_port(port: &str) -> (s: String)
    ensures
        s@ == port@ + (if text::contains_text(port@, "/dev/tty."@) {
            "   (prefer the /dev/cu.* twin)"@
        } else {
            ""@
        }),
{
    let mut s: String = port.to_owned();
    if has_text(port, "/dev/tty.") {
        s.append("   (prefer the /dev/cu.* twin)");
    } else {
        s.append("");
    }
    s
}

/// Turns the driver's reports into lines, and counts the noise.
#[derive(Debug)]
pub struct CliLog {
    pub quiet: bool,
    pub noise: usize,
}

/// The line for a report, where `noise` bytes have been thrown away with it.
pub open spec fn report_text(r: ReportView, noise: nat) -> Seq<char> {
    match r {
        ReportView::Step { label, bytes } => if bytes.len() > 24 {
            "-> "@ + label + "\n   "@ + frame::hex_text(bytes.take(16)) + " … ("@ + text::decimal(
                bytes.len(),
            ) + " bytes)"@
        } else {
            "-> "@ + label + "\n   "@ + frame::hex_text(bytes)
        },
        ReportView::Reply(f) => "<- cmd 0x"@ + text::hex_lower(f.cmd as nat, 2) + ", "@
            + text::decimal(f.payload.len()) + " payload bytes"@,
        ReportView::Note(msg) => "   "@ + msg,
        ReportView::Discarded(d) => "   discarded "@ + text::decimal(d.len())
            + " non-protocol byte(s) ["@ + text::decimal(noise)
            + " total] — normal if the chip is still running an app that prints"@,
    }
}

/// The bytes that a report tells of as thrown away.
pub open spec fn noise_in(r: ReportView) -> nat {
    match r {
        ReportView::Discarded(d) => d.len(),
        _ => 0,
    }
}

impl CliLog {
    pub fn new(quiet: bool) -> (l: CliLog)
        ensures
            l == (CliLog { quiet, noise: 0 }),
    {
        CliLog { quiet, noise: 0 }
    }

    /// The line to print for a report, unless all is to be quiet. Noise is
    /// counted either way.
    pub fn line(&mut self, r: &Report) -> (s: Option<String>)
        requires
            old(self).noise + noise_in(r@) <= usize::MAX,
        ensures
            final(self).quiet == old(self).quiet,
            final(self).noise == old(self).noise + noise_in(r@),
            match s {
                None => old(self).quiet,
                Some(t) => !old(self).quiet && t@ == report_text(r@, final(self).noise as nat),
            },
    {
        if let Report::Discarded(d) = r {
            self.noise = self.noise + d.len();
        }
        if self.quiet {
            return None;
        }
        match r {
            Report::Step { label, bytes } => {
                let mut s: String = "-> ".to_owned();
                s.append(label.as_str());
                s.append("\n   ");
                if bytes.len() > 24 {
                    let head: &[u8] = vstd::slice::slice_subrange(bytes.as_slice(), 0, 16);
                    assert(head@ =~= bytes@.take(16));
                    s.append(hex(head).as_str());
                    s.append(" … (");
                    push_decimal(&mut s, bytes.len() as u64);
                    s.append(" bytes)");
                } else {
                    s.append(hex(bytes).as_str());
                }
                Some(s)
            },
            Report::Reply(f) => {
                let mut s: String = "<- cmd 0x".to_owned();
                push_hex_lower(&mut s, f.cmd as u64, 2);
                s.append(", ");
                push_decimal(&mut s, f.payload.len() as u64);
                s.append(" payload bytes");
                Some(s)
            },
            Report::Note(msg) => {
                let mut s: String = "   ".to_owned();
                s.append(msg.as_str());
                Some(s)
            },
            Report::Discarded(d) => {
                let mut s: String = "   discarded ".to_owned();
                push_decimal(&mut s, d.len() as u64);
                s.append(" non-protocol byte(s) [");
                push_decimal(&mut s, self.noise as u64);
                s.append(" total] — normal if the chip is still running an app that prints");
                Some(s)
            },
        }
    }
}

} // verus!
