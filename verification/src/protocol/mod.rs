//! Protocol families.
//!
//! The bootloaders of other chip families are *different protocol
//! generations, not dialects*: nothing of one family may be assumed of
//! another, least of all the width of the checksum, because a guess that is
//! wrong there corrupts flash silently. Hence a trait rather than a family
//! enum with shared helpers.

use vstd::prelude::*;

use crate::frame;
use crate::frame::{hex, Frame, FrameView};
use crate::session::{Step, StepView};
use crate::text;
use crate::text::{push_comma_list, push_decimal, push_hex_lower, push_signed};

pub mod stc89;

verus! {

/// What the caller wants done in this session.
#[derive(Clone, Debug)]
pub enum Job {
    /// Handshake, report, release the chip to its application. No baud
    /// switch: the switch belongs to the work, not to the session.
    Identify,
    /// Erase code flash. `blocks` in the family's erase-block unit; `None`
    /// means "the whole code flash", which requires a known chip.
    Erase { blocks: Option<u8> },
    /// Erase exactly as much as the image needs, then program it.
    Flash {
        image: Vec<u8>,
        /// Echo the option byte back after programming. See
        /// [`TargetInfo::option_bytes`] for why this can only ever be an echo.
        write_options: bool,
    },
}

/// [`Job`] with its image as a sequence.
pub enum JobView {
    Identify,
    Erase { blocks: Option<u8> },
    Flash { image: Seq<u8>, write_options: bool },
}

impl View for Job {
    type V = JobView;

    open spec fn view(&self) -> JobView {
        match self {
            Job::Identify => JobView::Identify,
            Job::Erase { blocks } => JobView::Erase { blocks: *blocks },
            Job::Flash { image, write_options } => JobView::Flash {
                image: image@,
                write_options: *write_options,
            },
        }
    }
}

/// Knobs that are host policy rather than protocol.
#[derive(Clone, Copy, Debug)]
pub struct SessionOptions {
    pub handshake_baud: u32,
    pub transfer_baud: u32,
    /// Per-command reply timeout: generous, order of seconds.
    pub reply_timeout_ms: u64,
    /// Erase gets its own, much longer, timeout.
    pub erase_timeout_ms: u64,
}

impl Default for SessionOptions {
    fn default() -> (o: SessionOptions)
        ensures
            o == (SessionOptions {
                handshake_baud: 2400,
                transfer_baud: 115200,
                reply_timeout_ms: 2000,
                erase_timeout_ms: 20_000,
            }),
    {
        SessionOptions {
            handshake_baud: 2400,
            transfer_baud: 115200,
            reply_timeout_ms: 2000,
            erase_timeout_ms: 20_000,
        }
    }
}

/// Everything the host learned from the unsolicited status packet.
///
/// What is *not* here: any interpretation of the option byte's bits, and
/// anything from the opaque region of the status packet.
#[derive(Clone, Debug)]
pub struct TargetInfo {
    pub family: &'static str,
    /// Chip identity bytes, e.g. `F0 02`. Echoed back by the link test and by
    /// the erase reply.
    pub chip_id: Vec<u8>,
    /// Model name, if this chip id is one that is known.
    pub model: Option<&'static str>,
    pub code_flash: Option<usize>,
    pub eeprom_flash: Option<usize>,
    /// e.g. "6.6C": BCD major.minor plus an ASCII letter.
    pub bsl_version: String,
    /// The frequency the **BSL measured during this handshake**. It is a
    /// property of the handshake, not of the board: the same crystal reports
    /// different values in different sessions. Never report it as "the crystal
    /// frequency" without saying it was measured.
    pub measured_hz: u64,
    /// The raw frequency words, all eight of them, as received.
    pub freq_words: Vec<u16>,
    /// The option byte(s) exactly as read from the wire.
    ///
    /// The meaning of the bits is not known, and one of this part's options
    /// can make a board unflashable without a wiring change. So the only value
    /// that is ever written is the one that was read: no function of this
    /// crate takes an option byte as an argument.
    pub option_bytes: Vec<u8>,
    /// The status frame's payload verbatim. Part of it is opaque and varies
    /// from session to session; nothing here validates or identifies on it.
    pub raw_status: Vec<u8>,
}

/// [`TargetInfo`] with its text and bytes as sequences.
pub struct TargetInfoView {
    pub family: Seq<char>,
    pub chip_id: Seq<u8>,
    pub model: Option<Seq<char>>,
    pub code_flash: Option<usize>,
    pub eeprom_flash: Option<usize>,
    pub bsl_version: Seq<char>,
    pub measured_hz: u64,
    pub freq_words: Seq<u16>,
    pub option_bytes: Seq<u8>,
    pub raw_status: Seq<u8>,
}

impl View for TargetInfo {
    type V = TargetInfoView;

    open spec fn view(&self) -> TargetInfoView {
        TargetInfoView {
            family: self.family@,
            chip_id: self.chip_id@,
            model: match self.model {
                Some(m) => Some(m@),
                None => None,
            },
            code_flash: self.code_flash,
            eeprom_flash: self.eeprom_flash,
            bsl_version: self.bsl_version@,
            measured_hz: self.measured_hz,
            freq_words: self.freq_words@,
            option_bytes: self.option_bytes@,
            raw_status: self.raw_status@,
        }
    }
}

#[derive(Clone, Debug)]
pub enum ProtocolError {
    NotAStatusFrame { cmd: u8 },
    ShortStatus { got: usize, want: usize },
    /// The eight frequency words disagree with each other.
    InconsistentFrequency(Vec<u16>),
    /// The derived frequency is outside anything this part could be running
    /// at, so the reload we would compute from it is not trustworthy.
    ImplausibleFrequency(u64),
    /// The transfer baud does not yield a usable 8-bit timer reload.
    UnreachableBaud { baud: u32, reload: i64 },
    ImageTooLarge { image: usize, capacity: usize },
    EmptyImage,
    /// `Job::Erase { blocks: None }` against a chip whose flash size is not
    /// known.
    UnknownChipSize { chip_id: Vec<u8> },
    EraseTooLarge { blocks: usize },
}

/// [`ProtocolError`] with its bytes as sequences.
pub enum ProtocolErrorView {
    NotAStatusFrame { cmd: u8 },
    ShortStatus { got: usize, want: usize },
    InconsistentFrequency(Seq<u16>),
    ImplausibleFrequency(u64),
    UnreachableBaud { baud: u32, reload: i64 },
    ImageTooLarge { image: usize, capacity: usize },
    EmptyImage,
    UnknownChipSize { chip_id: Seq<u8> },
    EraseTooLarge { blocks: usize },
}

impl View for ProtocolError {
    type V = ProtocolErrorView;

    open spec fn view(&self) -> ProtocolErrorView {
        match self {
            ProtocolError::NotAStatusFrame { cmd } => ProtocolErrorView::NotAStatusFrame {
                cmd: *cmd,
            },
            ProtocolError::ShortStatus { got, want } => ProtocolErrorView::ShortStatus {
                got: *got,
                want: *want,
            },
            ProtocolError::InconsistentFrequency(w) => ProtocolErrorView::InconsistentFrequency(
                w@,
            ),
            ProtocolError::ImplausibleFrequency(hz) => ProtocolErrorView::ImplausibleFrequency(
                *hz,
            ),
            ProtocolError::UnreachableBaud { baud, reload } => ProtocolErrorView::UnreachableBaud {
                baud: *baud,
                reload: *reload,
            },
            ProtocolError::ImageTooLarge { image, capacity } => ProtocolErrorView::ImageTooLarge {
                image: *image,
                capacity: *capacity,
            },
            ProtocolError::EmptyImage => ProtocolErrorView::EmptyImage,
            ProtocolError::UnknownChipSize { chip_id } => ProtocolErrorView::UnknownChipSize {
                chip_id: chip_id@,
            },
            ProtocolError::EraseTooLarge { blocks } => ProtocolErrorView::EraseTooLarge {
                blocks: *blocks,
            },
        }
    }
}

/// What a protocol error says to a reader.
pub open spec fn protocol_error_text(e: ProtocolErrorView) -> Seq<char> {
    match e {
        ProtocolErrorView::NotAStatusFrame { cmd } =>
            "expected the status packet, got command 0x"@ + text::hex_lower(cmd as nat, 2),
        ProtocolErrorView::ShortStatus { got, want } => "status payload is "@ + text::decimal(
            got as nat,
        ) + " bytes, expected "@ + text::decimal(want as nat),
        ProtocolErrorView::InconsistentFrequency(w) => "the eight frequency words disagree (["@
            + text::comma_list(w) + "]) — the handshake measurement is unreliable"@,
        ProtocolErrorView::ImplausibleFrequency(hz) => "measured frequency "@ + text::decimal(
            hz as nat,
        ) + " Hz is out of range for this part"@,
        ProtocolErrorView::UnreachableBaud { baud, reload } => "transfer baud "@ + text::decimal(
            baud as nat,
        ) + " needs timer reload "@ + text::signed_decimal(reload as int)
            + ", which is not an 8-bit value"@,
        ProtocolErrorView::ImageTooLarge { image, capacity } => "image is "@ + text::decimal(
            image as nat,
        ) + " bytes; this part has "@ + text::decimal(capacity as nat) + " bytes of code flash"@,
        ProtocolErrorView::EmptyImage => "image contains no data"@,
        ProtocolErrorView::UnknownChipSize { chip_id } => "chip id "@ + frame::hex_text(chip_id)
            + " is not in our (single-capture) table, so the flash size is unknown — pass an explicit block count"@,
        ProtocolErrorView::EraseTooLarge { blocks } => "erase block count "@ + text::decimal(
            blocks as nat,
        ) + " does not fit in one byte"@,
    }
}

impl ProtocolError {
    /// The error as a sentence.
    pub fn message(&self) -> (r: String)
        ensures
            r@ == protocol_error_text(self@),
    {
        match self {
            ProtocolError::NotAStatusFrame { cmd } => {
                let mut s: String = "expected the status packet, got command 0x".to_owned();
                push_hex_lower(&mut s, *cmd as u64, 2);
                s
            },
            ProtocolError::ShortStatus { got, want } => {
                let mut s: String = "status payload is ".to_owned();
                push_decimal(&mut s, *got as u64);
                s.append(" bytes, expected ");
                push_decimal(&mut s, *want as u64);
                s
            },
            ProtocolError::InconsistentFrequency(w) => {
                let mut s: String = "the eight frequency words disagree ([".to_owned();
                push_comma_list(&mut s, w);
                s.append("]) — the handshake measurement is unreliable");
                s
            },
            ProtocolError::ImplausibleFrequency(hz) => {
                let mut s: String = "measured frequency ".to_owned();
                push_decimal(&mut s, *hz);
                s.append(" Hz is out of range for this part");
                s
            },
            ProtocolError::UnreachableBaud { baud, reload } => {
                let mut s: String = "transfer baud ".to_owned();
                push_decimal(&mut s, *baud as u64);
                s.append(" needs timer reload ");
                push_signed(&mut s, *reload);
                s.append(", which is not an 8-bit value");
                s
            },
            ProtocolError::ImageTooLarge { image, capacity } => {
                let mut s: String = "image is ".to_owned();
                push_decimal(&mut s, *image as u64);
                s.append(" bytes; this part has ");
                push_decimal(&mut s, *capacity as u64);
                s.append(" bytes of code flash");
                s
            },
            ProtocolError::EmptyImage => "image contains no data".to_owned(),
            ProtocolError::UnknownChipSize { chip_id } => {
                let mut s: String = "chip id ".to_owned();
                s.append(hex(chip_id).as_str());
                s.append(
                    " is not in our (single-capture) table, so the flash size is unknown — pass an explicit block count",
                );
                s
            },
            ProtocolError::EraseTooLarge { blocks } => {
                let mut s: String = "erase block count ".to_owned();
                push_decimal(&mut s, *blocks as u64);
                s.append(" does not fit in one byte");
                s
            },
        }
    }
}

/// A result with the views of its value and its error.
pub open spec fn result_view<T: View, E: View>(r: Result<T, E>) -> Result<T::V, E::V> {
    match r {
        Ok(t) => Ok(t@),
        Err(e) => Err(e@),
    }
}

/// One generation of the serial bootloader protocol.
///
/// A family says what it takes for a status packet, what it reads from one,
/// and which session follows: each is a function of what the host was told.
pub trait ProtocolFamily {
    /// The frames that this family takes for the status packet.
    spec fn status_frame(&self, f: FrameView) -> bool;

    /// What a status frame says, or why it says nothing.
    spec fn status(&self, f: FrameView, handshake_baud: u32) -> Result<
        TargetInfoView,
        ProtocolErrorView,
    >;

    /// The session for a job, or why there is none.
    spec fn session(&self, info: TargetInfoView, job: JobView, opts: SessionOptions) -> Result<
        Seq<StepView>,
        ProtocolErrorView,
    >;

    fn name(&self) -> &'static str;

    /// The baud the handshake runs at before any negotiation.
    fn default_handshake_baud(&self) -> u32;

    /// The transfer baud used when there is work to do.
    fn default_transfer_baud(&self) -> u32;

    /// Does this frame look like the unsolicited status packet that opens
    /// every successful session?
    fn is_status_frame(&self, frame: &Frame) -> (r: bool)
        ensures
            r == self.status_frame(frame@),
    ;

    fn parse_status(&self, frame: &Frame, handshake_baud: u32) -> (r: Result<
        TargetInfo,
        ProtocolError,
    >)
        ensures
            result_view(r) == self.status(frame@, handshake_baud),
    ;

    /// Compute the entire session up front.
    fn plan(&self, info: &TargetInfo, job: &Job, opts: &SessionOptions) -> (r: Result<
        Vec<Step>,
        ProtocolError,
    >)
        ensures
            match r {
                Ok(steps) => self.session(info@, job@, *opts) == Ok::<
                    Seq<StepView>,
                    ProtocolErrorView,
                >(text::views(steps@)),
                Err(e) => self.session(info@, job@, *opts) == Err::<
                    Seq<StepView>,
                    ProtocolErrorView,
                >(e@),
            },
    ;
}

} // verus!
