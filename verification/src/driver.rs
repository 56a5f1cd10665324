//! The driver's decisions: what to do to the wire next, and when to give up.
//!
//! The two machines here know no clock and no port. They say what to do, are
//! told what came of it and at what time, and say what to do next; whoever
//! holds the port runs the loop. They have no protocol knowledge of their own
//! either:
//!
//! * they hunt for `46 B9` on every read, in every phase;
//! * they retune the baud **in place**, the port stays open;
//! * they wait for no reply to a frame that has none;
//! * on any abort after the first write block they report the flash as
//!   indeterminate.
//!
//! Times are nanoseconds since the machine's owner started to count.

use vstd::prelude::*;

use crate::frame;
use crate::frame::{Frame, FrameError, FrameView, Receiver, ReceiverView};
use crate::protocol;
use crate::protocol::{
    ProtocolError, ProtocolErrorView, ProtocolFamily, SessionOptions, TargetInfo, TargetInfoView,
};
use crate::session;
use crate::session::{Action, ActionView, Session, SessionError, SessionErrorView, SessionView};
use crate::text;
use crate::text::{push_decimal, push_hex_lower};

verus! {

/// How the driver handles a baud switch: the wire is drained, then there is a
/// pause, then the rate is changed. Draining is essential, since a switch on a
/// half-sent frame corrupts its tail.
#[derive(Clone, Copy, Debug)]
pub struct DrainConfig {
    pub mode: DrainMode,
    /// Milliseconds to wait after the drain and before the baud switch: a
    /// fixed window of idling at the old baud. Negative is clamped to zero.
    pub margin_ms: i64,
}

#[derive(Clone, Copy, Debug, PartialEq, Eq, Structural)]
pub enum DrainMode {
    /// Block until the frame has physically left the wire.
    TcDrain,
    /// Skip that and rely on a flush alone: a fallback for adapters where
    /// draining misbehaves.
    ComputeWireTime,
}

impl Default for DrainConfig {
    fn default() -> (d: DrainConfig)
        ensures
            d == (DrainConfig { mode: DrainMode::TcDrain, margin_ms: 100 }),
    {
        DrainConfig { mode: DrainMode::TcDrain, margin_ms: 100 }
    }
}

/// The pause before a baud switch, in milliseconds.
pub open spec fn settle_ms(d: DrainConfig) -> u64 {
    if d.margin_ms > 0 {
        d.margin_ms as u64
    } else {
        0
    }
}

impl DrainConfig {
    /// The pause before a baud switch, in milliseconds.
    pub fn settle_ms(&self) -> (ms: u64)
        ensures
            ms == settle_ms(*self),
    {
        if self.margin_ms > 0 {
            self.margin_ms as u64
        } else {
            0
        }
    }
}

// --------------------------------------------------------------------- errors

#[derive(Debug)]
pub enum Error {
    /// The port failed, in the words of the system.
    Io(String),
    Protocol(ProtocolError),
    Session(SessionError),
    Frame(FrameError),
    /// No reply within the step's timeout.
    Timeout { label: String, ms: u64 },
    /// The BSL never appeared. The retry unit is a **power cycle**, not a
    /// resend.
    NoBootloader { waited_ms: u64, noise_bytes: usize },
    /// Aborted after at least one write block went out.
    IndeterminateFlash(Box<Error>),
}

/// [`Error`] with its texts as sequences.
pub enum ErrorView {
    Io(Seq<char>),
    Protocol(ProtocolErrorView),
    Session(SessionErrorView),
    Frame(FrameError),
    Timeout { label: Seq<char>, ms: u64 },
    NoBootloader { waited_ms: u64, noise_bytes: usize },
    IndeterminateFlash(Box<ErrorView>),
}

impl Error {
    pub open spec fn as_view(&self) -> ErrorView
        decreases self,
    {
        match self {
            Error::Io(s) => ErrorView::Io(s@),
            Error::Protocol(e) => ErrorView::Protocol(e@),
            Error::Session(e) => ErrorView::Session(e@),
            Error::Frame(e) => ErrorView::Frame(*e),
            Error::Timeout { label, ms } => ErrorView::Timeout { label: label@, ms: *ms },
            Error::NoBootloader { waited_ms, noise_bytes } => ErrorView::NoBootloader {
                waited_ms: *waited_ms,
                noise_bytes: *noise_bytes,
            },
            Error::IndeterminateFlash(inner) => ErrorView::IndeterminateFlash(
                Box::new(inner.as_view()),
            ),
        }
    }
}

impl View for Error {
    type V = ErrorView;

    open spec fn view(&self) -> ErrorView {
        self.as_view()
    }
}

/// What an error says to a reader.
pub open spec fn error_text(e: ErrorView) -> Seq<char>
    decreases e,
{
    match e {
        ErrorView::Io(s) => "I/O: "@ + s,
        ErrorView::Protocol(p) => protocol::protocol_error_text(p),
        ErrorView::Session(s) => session::session_error_text(s),
        ErrorView::Frame(f) => frame::frame_error_text(f),
        ErrorView::Timeout { label, ms } => label + ": no reply within "@ + text::decimal(
            ms as nat,
        ) + " ms"@,
        ErrorView::NoBootloader { waited_ms, noise_bytes } => "no bootloader after "@
            + text::decimal(waited_ms as nat) + " ms ("@ + text::decimal(noise_bytes as nat)
            + " bytes of non-protocol noise seen). The BSL only runs after a COLD power-on and only listens for a few hundred milliseconds: switch the board off, start this command, then switch it on. A reset button will not do it."@,
        ErrorView::IndeterminateFlash(inner) => error_text(*inner)
            + "\n  flash is in an INDETERMINATE state — part of the image was programmed. There is no read-back on this part, so the only safe move is to power-cycle and flash again."@,
    }
}

impl Error {
    /// The error as a sentence.
    pub fn message(&self) -> (r: String)
        ensures
            r@ == error_text(self@),
        decreases self,
    {
        match self {
            Error::Io(e) => {
                let mut s: String = "I/O: ".to_owned();
                s.append(e.as_str());
                s
            },
            Error::Protocol(e) => e.message(),
            Error::Session(e) => e.message(),
            Error::Frame(e) => e.message(),
            Error::Timeout { label, ms } => {
                let mut s: String = label.clone();
                s.append(": no reply within ");
                push_decimal(&mut s, *ms);
                s.append(" ms");
                s
            },
            Error::NoBootloader { waited_ms, noise_bytes } => {
                let mut s: String = "no bootloader after ".to_owned();
                push_decimal(&mut s, *waited_ms);
                s.append(" ms (");
                push_decimal(&mut s, *noise_bytes as u64);
                s.append(
                    " bytes of non-protocol noise seen). The BSL only runs after a COLD power-on and only listens for a few hundred milliseconds: switch the board off, start this command, then switch it on. A reset button will not do it.",
                );
                s
            },
            Error::IndeterminateFlash(inner) => {
                let mut s: String = inner.message();
                s.append(
                    "\n  flash is in an INDETERMINATE state — part of the image was programmed. There is no read-back on this part, so the only safe move is to power-cycle and flash again.",
                );
                s
            },
        }
    }
}

impl From<ProtocolError> for Error {
    fn from(e: ProtocolError) -> (r: Error) {
        Error::Protocol(e)
    }
}

impl vstd::std_specs::convert::FromSpecImpl<ProtocolError> for Error {
    open spec fn obeys_from_spec() -> bool {
        true
    }

    open spec fn from_spec(e: ProtocolError) -> Error {
        Error::Protocol(e)
    }
}

/// An error of a session, with the state of the flash said.
pub open spec fn wrapped(s: SessionView, e: ErrorView) -> ErrorView {
    if s.flash_is_indeterminate() {
        ErrorView::IndeterminateFlash(Box::new(e))
    } else {
        e
    }
}

/// Say of an error whether it leaves the flash in doubt.
fn wrap(session: &Session, e: Error) -> (r: Error)
    requires
        session.wf(),
    ensures
        r@ == wrapped(session@, e@),
{
    if session.flash_is_indeterminate() {
        Error::IndeterminateFlash(Box::new(e))
    } else {
        e
    }
}

// -------------------------------------------------------------------- reports

/// Something worth telling whoever watches.
#[derive(Debug)]
pub enum Report {
    /// A frame is about to go out.
    Step { label: String, bytes: Vec<u8> },
    /// A frame came in.
    Reply(Frame),
    Note(String),
    /// Bytes came in that belong to no frame.
    Discarded(Vec<u8>),
}

/// [`Report`] with its text and bytes as sequences.
pub enum ReportView {
    Step { label: Seq<char>, bytes: Seq<u8> },
    Reply(FrameView),
    Note(Seq<char>),
    Discarded(Seq<u8>),
}

impl View for Report {
    type V = ReportView;

    open spec fn view(&self) -> ReportView {
        match self {
            Report::Step { label, bytes } => ReportView::Step { label: label@, bytes: bytes@ },
            Report::Reply(f) => ReportView::Reply(f@),
            Report::Note(s) => ReportView::Note(s@),
            Report::Discarded(b) => ReportView::Discarded(b@),
        }
    }
}

/// What is said of thrown-away bytes: nothing where there are none.
pub open spec fn discard_report(d: Seq<u8>) -> Seq<ReportView> {
    if d.len() == 0 {
        seq![]
    } else {
        seq![ReportView::Discarded(d)]
    }
}

/// Add a report.
fn report(reports: &mut Vec<Report>, r: Report)
    ensures
        text::views(final(reports)@) == text::views(old(reports)@).push(r@),
{
    reports.push(r);
    assert(text::views(reports@) =~= text::views(old(reports)@).push(r@));
}

/// Report the bytes that the receiver has thrown away, and say how many.
fn report_discarded(rx: &mut Receiver, reports: &mut Vec<Report>) -> (n: usize)
    ensures
        final(rx)@ == (ReceiverView { discarded: seq![], ..old(rx)@ }),
        text::views(final(reports)@) == text::views(old(reports)@) + discard_report(
            old(rx)@.discarded,
        ),
        n == old(rx)@.discarded.len(),
{
    let ghost before = text::views(reports@);
    let d: Vec<u8> = rx.take_discarded();
    let n: usize = d.len();
    if n > 0 {
        report(reports, Report::Discarded(d));
    }
    assert(text::views(reports@) =~= before + discard_report(old(rx)@.discarded));
    n
}

// ------------------------------------------------------------------ handshake

/// The sync byte. `0b01111111`: LSB-first that is a start bit, seven ones and
/// a zero, one clean isolated edge pair per byte, which is what makes it a
/// bit-time reference.
pub const SYNC_BYTE: u8 = 0x7F;

/// The sync byte goes out on a fixed cadence: 30 ms.
pub const PULSE_EVERY: u64 = 30_000_000;

/// A frame that is half there and has not moved for this long is not one: 400
/// ms.
pub const PARTIAL_STALL: u64 = 400_000_000;

/// How long ago `then` was.
pub open spec fn since(now: u64, then: u64) -> u64 {
    if now >= then {
        (now - then) as u64
    } else {
        0
    }
}

fn elapsed(now: u64, then: u64) -> (d: u64)
    ensures
        d == since(now, then),
{
    if now >= then {
        now - then
    } else {
        0
    }
}

/// What to do while waiting for the bootloader.
#[derive(Debug)]
pub enum HandshakeAction {
    /// Send this byte and say when, then read.
    Pulse(u8),
    /// Read.
    Listen,
    /// The time is up.
    Expired(Error),
}

/// [`HandshakeAction`] with its error as a view.
pub enum HandshakeActionView {
    Pulse(u8),
    Listen,
    Expired(ErrorView),
}

impl View for HandshakeAction {
    type V = HandshakeActionView;

    open spec fn view(&self) -> HandshakeActionView {
        match self {
            HandshakeAction::Pulse(b) => HandshakeActionView::Pulse(*b),
            HandshakeAction::Listen => HandshakeActionView::Listen,
            HandshakeAction::Expired(e) => HandshakeActionView::Expired(e@),
        }
    }
}

/// What a handshake knows: what came in, how many bytes of it were noise, and
/// when the last pulse went out and the last byte came in.
pub struct HandshakeView {
    pub rx: ReceiverView,
    pub noise: nat,
    pub last_pulse: Option<u64>,
    pub last_byte: u64,
    pub baud: u32,
    pub wait: u128,
}

/// What comes of the bytes that came in.
pub struct Heard {
    pub reports: Vec<Report>,
    /// What the status packet said, once there is one.
    pub outcome: Option<Result<TargetInfo, Error>>,
}

/// [`Heard`] with its contents as views, and the receiver and the count of
/// noise behind it.
pub struct HeardView {
    pub reports: Seq<ReportView>,
    pub outcome: Option<Result<TargetInfoView, ErrorView>>,
    pub rx: ReceiverView,
    pub noise: nat,
}

/// The error of a protocol as an error of the driver.
pub open spec fn status_outcome(r: Result<TargetInfoView, ProtocolErrorView>) -> Result<
    TargetInfoView,
    ErrorView,
> {
    match r {
        Ok(info) => Ok(info),
        Err(e) => Err(ErrorView::Protocol(e)),
    }
}

pub open spec fn ignoring_note(cmd: u8) -> Seq<char> {
    "ignoring a frame with cmd 0x"@ + text::hex_lower(cmd as nat, 2) + " during sync"@
}

pub open spec fn malformed_note(e: FrameError) -> Seq<char> {
    "discarding a malformed frame during sync: "@ + frame::frame_error_text(e)
}

/// What comes of the bytes a receiver holds: frames are pulled until one is
/// the status packet or no more are there.
pub open spec fn listened<F: ProtocolFamily>(family: &F, baud: u32, rx: ReceiverView) -> HeardView
    decreases rx.buf.len(),
{
    let p = frame::pull(rx.buf);
    let after = rx.pulled();
    let clean = ReceiverView { discarded: seq![], ..after };
    let said = discard_report(after.discarded);
    proof {
        frame::lemma_pull_bounds(rx.buf);
    }
    match p.out {
        None => HeardView {
            reports: said,
            outcome: None,
            rx: clean,
            noise: after.discarded.len(),
        },
        Some(Ok(f)) => if family.status_frame(f) {
            HeardView {
                reports: said.push(ReportView::Reply(f)),
                outcome: Some(status_outcome(family.status(f, baud))),
                rx: clean,
                noise: after.discarded.len(),
            }
        } else {
            let rest = listened(family, baud, clean);
            HeardView {
                reports: said.push(ReportView::Note(ignoring_note(f.cmd))) + rest.reports,
                noise: after.discarded.len() + rest.noise,
                ..rest
            }
        },
        Some(Err(e)) => {
            let rest = listened(family, baud, clean);
            HeardView {
                reports: said.push(ReportView::Note(malformed_note(e))) + rest.reports,
                noise: after.discarded.len() + rest.noise,
                ..rest
            }
        },
    }
}

impl HandshakeView {
    /// A handshake at its start.
    pub open spec fn start(baud: u32, wait: u128) -> HandshakeView {
        HandshakeView {
            rx: ReceiverView { buf: seq![], discarded: seq![] },
            noise: 0,
            last_pulse: None,
            last_byte: 0,
            baud,
            wait,
        }
    }

    /// A frame is arriving: part of one is there, and it is still moving.
    pub open spec fn mid_frame(self, now: u64) -> bool {
        self.rx.buf.len() > 0 && since(now, self.last_byte) < PARTIAL_STALL
    }

    /// A pulse is due.
    pub open spec fn pulse_due(self, now: u64) -> bool {
        match self.last_pulse {
            None => true,
            Some(t) => since(now, t) >= PULSE_EVERY,
        }
    }

    /// The whole milliseconds of the wait.
    pub open spec fn waited_ms(self) -> u64 {
        ((self.wait / 1_000_000) % 0x1_0000_0000_0000_0000) as u64
    }

    /// What to do at a time.
    pub open spec fn action(self, now: u64) -> HandshakeActionView {
        if now >= self.wait {
            HandshakeActionView::Expired(
                ErrorView::NoBootloader {
                    waited_ms: self.waited_ms(),
                    noise_bytes: self.noise as usize,
                },
            )
        } else if !self.mid_frame(now) && self.pulse_due(now) {
            HandshakeActionView::Pulse(SYNC_BYTE)
        } else {
            HandshakeActionView::Listen
        }
    }

    /// The receiver with more bytes in it.
    pub open spec fn fed(self, bytes: Seq<u8>) -> ReceiverView {
        ReceiverView { buf: self.rx.buf + bytes, ..self.rx }
    }

    /// The handshake after some bytes, of which there may be none.
    pub open spec fn after<F: ProtocolFamily>(
        self,
        family: &F,
        bytes: Seq<u8>,
        now: u64,
    ) -> HandshakeView {
        let heard = listened(family, self.baud, self.fed(bytes));
        HandshakeView {
            rx: heard.rx,
            noise: self.noise + heard.noise,
            last_byte: if bytes.len() > 0 {
                now
            } else {
                self.last_byte
            },
            ..self
        }
    }
}

/// The wait for the bootloader: pulse the sync byte at the handshake baud and
/// wait for the unsolicited status packet, discarding everything that is not
/// part of a frame.
///
/// This is a **race, not a handshake**: the bootloader listens for a few
/// hundred milliseconds after a cold power-on and jumps to the application, so
/// the host must already be transmitting before power is applied.
///
/// Pulses go out on a fixed cadence and are held only while a real frame is
/// in flight, that is while one is accumulating and still advancing. A pulse
/// in every round would send strays across the status packet, which the
/// bootloader reads as a fresh sync. A latch on the first byte would be worse:
/// a running application's chatter would stop the pulses before the cold
/// cycle.
pub struct Handshake {
    rx: Receiver,
    noise: usize,
    last_pulse: Option<u64>,
    last_byte: u64,
    baud: u32,
    wait: u128,
}

impl View for Handshake {
    type V = HandshakeView;

    closed spec fn view(&self) -> HandshakeView {
        HandshakeView {
            rx: self.rx@,
            noise: self.noise as nat,
            last_pulse: self.last_pulse,
            last_byte: self.last_byte,
            baud: self.baud,
            wait: self.wait,
        }
    }
}

impl Handshake {
    /// Start waiting, for `wait` nanoseconds.
    pub fn new(opts: &SessionOptions, wait: u128) -> (h: Handshake)
        ensures
            h@ == HandshakeView::start(opts.handshake_baud, wait),
    {
        Handshake {
            rx: Receiver::new(),
            noise: 0,
            last_pulse: None,
            last_byte: 0,
            baud: opts.handshake_baud,
            wait,
        }
    }

    /// What to do now.
    pub fn poll(&self, now: u64) -> (a: HandshakeAction)
        ensures
            a@ == self@.action(now),
    {
        if now as u128 >= self.wait {
            let ms: u128 = (self.wait / 1_000_000) % 0x1_0000_0000_0000_0000;
            return HandshakeAction::Expired(
                Error::NoBootloader { waited_ms: ms as u64, noise_bytes: self.noise },
            );
        }
        let mid_frame: bool = self.rx.pending() > 0 && elapsed(now, self.last_byte)
            < PARTIAL_STALL;
        let due: bool = match self.last_pulse {
            None => true,
            Some(t) => elapsed(now, t) >= PULSE_EVERY,
        };
        if !mid_frame && due {
            HandshakeAction::Pulse(SYNC_BYTE)
        } else {
            HandshakeAction::Listen
        }
    }

    /// A pulse went out.
    pub fn pulsed(&mut self, now: u64)
        ensures
            final(self)@ == (HandshakeView { last_pulse: Some(now), ..old(self)@ }),
    {
        self.last_pulse = Some(now);
    }

    /// Is there room to count `n` more bytes?
    pub fn can_hear(&self, n: usize) -> (r: bool)
        ensures
            r == (self@.noise + self@.rx.buf.len() + self@.rx.discarded.len() + n <= usize::MAX),
    {
        let free: usize = usize::MAX - self.noise;
        let pending: usize = self.rx.pending();
        let discarded: usize = self.rx.discarded_len();
        pending <= free && discarded <= free - pending && n <= free - pending - discarded
    }

    /// Take what a read gave, which may be nothing.
    pub fn heard<F: ProtocolFamily>(&mut self, family: &F, bytes: &[u8], now: u64) -> (h: Heard)
        requires
            old(self)@.noise + old(self)@.rx.buf.len() + old(self)@.rx.discarded.len()
                + bytes@.len() <= usize::MAX,
        ensures
            final(self)@ == old(self)@.after(family, bytes@, now),
            ({
                let want = listened(family, old(self)@.baud, old(self)@.fed(bytes@));
                &&& text::views(h.reports@) == want.reports
                &&& match h.outcome {
                    None => want.outcome is None,
                    Some(r) => want.outcome == Some(protocol::result_view(r)),
                }
            }),
    {
        if bytes.len() > 0 {
            self.last_byte = now;
        }
        self.rx.feed(bytes);
        let ghost whole = listened(family, self.baud, self.rx@);
        let ghost noise0 = self.noise as nat;
        let mut reports: Vec<Report> = Vec::new();
        assert(text::views(reports@) =~= seq![]);
        assert(whole.reports =~= text::views(reports@) + whole.reports);
        loop
            invariant
                whole.outcome == listened(family, self.baud, self.rx@).outcome,
                whole.rx == listened(family, self.baud, self.rx@).rx,
                noise0 + whole.noise == self.noise + listened(family, self.baud, self.rx@).noise,
                whole.reports == text::views(reports@) + listened(
                    family,
                    self.baud,
                    self.rx@,
                ).reports,
                self.noise + self.rx@.buf.len() + self.rx@.discarded.len() <= usize::MAX,
                whole == listened(family, old(self)@.baud, old(self)@.fed(bytes@)),
                noise0 == old(self)@.noise,
                self@ == (HandshakeView {
                    rx: self@.rx,
                    noise: self@.noise,
                    last_byte: old(self)@.after(family, bytes@, now).last_byte,
                    ..old(self)@
                }),
            decreases self.rx@.buf.len(),
        {
            let ghost here = self.rx@;
            let ghost reports0 = text::views(reports@);
            proof {
                frame::lemma_pull_bounds(here.buf);
            }
            let pulled: Option<Result<Frame, FrameError>> = self.rx.next_frame();
            let n: usize = report_discarded(&mut self.rx, &mut reports);
            self.noise = self.noise + n;
            let ghost said = discard_report(here.pulled().discarded);
            match pulled {
                None => {
                    return Heard { reports, outcome: None };
                },
                Some(Ok(f)) => {
                    if family.is_status_frame(&f) {
                        let outcome: Result<TargetInfo, Error> = match family.parse_status(
                            &f,
                            self.baud,
                        ) {
                            Ok(info) => Ok(info),
                            Err(e) => Err(Error::Protocol(e)),
                        };
                        report(&mut reports, Report::Reply(f));
                        assert(text::views(reports@) =~= whole.reports);
                        return Heard { reports, outcome: Some(outcome) };
                    }
                    let mut note: String = "ignoring a frame with cmd 0x".to_owned();
                    push_hex_lower(&mut note, f.cmd as u64, 2);
                    note.append(" during sync");
                    report(&mut reports, Report::Note(note));
                    proof {
                        let rest = listened(family, self.baud, self.rx@).reports;
                        let mine = ReportView::Note(ignoring_note(f.cmd));
                        assert(whole.reports == reports0 + (said.push(mine) + rest));
                        assert(text::views(reports@) + rest =~= whole.reports);
                    }
                },
                Some(Err(e)) => {
                    let mut note: String = "discarding a malformed frame during sync: ".to_owned();
                    note.append(e.message().as_str());
                    report(&mut reports, Report::Note(note));
                    proof {
                        let rest = listened(family, self.baud, self.rx@).reports;
                        let mine = ReportView::Note(malformed_note(e));
                        assert(whole.reports == reports0 + (said.push(mine) + rest));
                        assert(text::views(reports@) + rest =~= whole.reports);
                    }
                },
            }
        }
    }
}

// ------------------------------------------------------------------------ run

/// What to do to the wire next.
#[derive(Debug)]
pub enum RunAction {
    /// Block until every byte written has left the wire.
    Drain,
    /// Wait, for so many milliseconds.
    Settle(u64),
    /// Change the line rate without closing the port.
    SetBaud(u32),
    Write(Vec<u8>),
    Flush,
    /// Read what is there, and hand it to [`Runner::heard`].
    Read,
    /// The run is over.
    Done(Result<(), Error>),
}

/// [`RunAction`] with its contents as views.
pub enum RunActionView {
    Drain,
    Settle(u64),
    SetBaud(u32),
    Write(Seq<u8>),
    Flush,
    Read,
    Done(Result<(), ErrorView>),
}

impl View for RunAction {
    type V = RunActionView;

    open spec fn view(&self) -> RunActionView {
        match self {
            RunAction::Drain => RunActionView::Drain,
            RunAction::Settle(ms) => RunActionView::Settle(*ms),
            RunAction::SetBaud(b) => RunActionView::SetBaud(*b),
            RunAction::Write(bytes) => RunActionView::Write(bytes@),
            RunAction::Flush => RunActionView::Flush,
            RunAction::Read => RunActionView::Read,
            RunAction::Done(Ok(())) => RunActionView::Done(Ok(())),
            RunAction::Done(Err(e)) => RunActionView::Done(Err(e@)),
        }
    }
}

/// What a run was last told to do.
pub enum StageView {
    /// Nothing that is still to be followed up.
    Ready,
    /// The wire is being drained for a switch to this rate.
    Draining(u32),
    /// The line is idling at the old rate.
    Settling(u32),
    /// The rate is being changed.
    Tuning(u32),
    /// A frame is being written.
    Writing { label: Seq<char>, ms: u64 },
    /// The frame is being flushed.
    Flushing { label: Seq<char>, ms: u64 },
    /// The reply to a frame is awaited.
    Listening { label: Seq<char>, ms: u64, deadline: u128 },
    Over,
}

/// Where a run stands.
pub struct RunnerView {
    pub session: SessionView,
    pub drain: DrainConfig,
    pub rx: ReceiverView,
    pub stage: StageView,
}

/// What to do next, what to tell of it, and where the run stands with it.
pub struct Turn {
    pub action: RunActionView,
    pub reports: Seq<ReportView>,
    pub runner: RunnerView,
}

pub open spec fn empty_receiver() -> ReceiverView {
    ReceiverView { buf: seq![], discarded: seq![] }
}

pub open spec fn switched_note(settle: u64, baud: u32) -> Seq<char> {
    "drained, settled "@ + text::decimal(settle as nat) + " ms at the old baud, switched to "@
        + text::decimal(baud as nat)
}

pub open spec fn rehunting_note(e: FrameError) -> Seq<char> {
    "re-hunting after a bad frame: "@ + frame::frame_error_text(e)
}

/// What waiting for a reply comes to.
pub enum Awaited {
    Frame(FrameView),
    NeedMore,
}

/// The next good frame that a receiver holds, what is to be told on the way to
/// it, and the receiver behind it: bad frames are passed over.
pub open spec fn awaited(rx: ReceiverView) -> (Awaited, Seq<ReportView>, ReceiverView)
    decreases rx.buf.len(),
{
    let after = rx.pulled();
    let clean = ReceiverView { discarded: seq![], ..after };
    let said = discard_report(after.discarded);
    proof {
        frame::lemma_pull_bounds(rx.buf);
    }
    match frame::pull(rx.buf).out {
        None => (Awaited::NeedMore, seq![], after),
        Some(Ok(f)) => (Awaited::Frame(f), said, clean),
        Some(Err(e)) => {
            let rest = awaited(clean);
            (rest.0, said.push(ReportView::Note(rehunting_note(e))) + rest.1, rest.2)
        },
    }
}

impl RunnerView {
    pub open spec fn start(session: SessionView, drain: DrainConfig) -> RunnerView {
        RunnerView { session, drain, rx: empty_receiver(), stage: StageView::Ready }
    }

    /// A reply is outstanding exactly while one is listened for, or while the
    /// frame it answers is on its way.
    pub open spec fn wf(self) -> bool {
        &&& self.session.wf()
        &&& match self.stage {
            StageView::Writing { .. } | StageView::Flushing { .. } | StageView::Over => true,
            StageView::Listening { .. } => self.session.awaiting,
            _ => !self.session.awaiting,
        }
    }

    /// Ask the session what comes next, once `reports` have been told.
    pub open spec fn asked(self, reports: Seq<ReportView>) -> Turn {
        let session = self.session.acted();
        match self.session.action() {
            ActionView::SetBaud(b) => if self.drain.mode == DrainMode::TcDrain {
                Turn {
                    action: RunActionView::Drain,
                    reports,
                    runner: RunnerView { session, stage: StageView::Draining(b), ..self },
                }
            } else {
                (RunnerView { session, ..self }).settled_or_tuned(b, reports)
            },
            ActionView::Send { label, bytes, timeout_ms, .. } => Turn {
                action: RunActionView::Write(bytes),
                reports: reports.push(ReportView::Step { label, bytes }),
                runner: RunnerView {
                    session,
                    stage: StageView::Writing { label, ms: timeout_ms },
                    ..self
                },
            },
            _ => Turn {
                action: RunActionView::Done(Ok(())),
                reports,
                runner: RunnerView { session, stage: StageView::Over, ..self },
            },
        }
    }

    /// Idle at the old rate, if that is asked for, before changing it.
    pub open spec fn settled_or_tuned(self, baud: u32, reports: Seq<ReportView>) -> Turn {
        if settle_ms(self.drain) > 0 {
            Turn {
                action: RunActionView::Settle(settle_ms(self.drain)),
                reports,
                runner: RunnerView { stage: StageView::Settling(baud), ..self },
            }
        } else {
            self.tuned(baud, reports)
        }
    }

    pub open spec fn tuned(self, baud: u32, reports: Seq<ReportView>) -> Turn {
        Turn {
            action: RunActionView::SetBaud(baud),
            reports,
            runner: RunnerView { stage: StageView::Tuning(baud), ..self },
        }
    }

    /// The run gives up.
    pub open spec fn failed(self, e: ErrorView, reports: Seq<ReportView>) -> Turn {
        Turn {
            action: RunActionView::Done(Err(wrapped(self.session, e))),
            reports,
            runner: RunnerView { stage: StageView::Over, ..self },
        }
    }

    /// See whether the reply is there, whether it is the right one, and
    /// whether there is time left to wait for it.
    pub open spec fn listened(self, label: Seq<char>, ms: u64, deadline: u128, now: u64) -> Turn {
        let (got, reports, rx) = awaited(self.rx);
        let next = RunnerView { rx, ..self };
        match got {
            Awaited::NeedMore => if now >= deadline {
                next.failed(ErrorView::Timeout { label, ms }, reports)
            } else {
                Turn {
                    action: RunActionView::Read,
                    reports,
                    runner: RunnerView {
                        stage: StageView::Listening { label, ms, deadline },
                        ..next
                    },
                }
            },
            Awaited::Frame(f) => {
                let told = reports.push(ReportView::Reply(f));
                match self.session.judge(f) {
                    Err(e) => next.failed(ErrorView::Session(e), told),
                    Ok(()) => (RunnerView { session: self.session.replied(f), ..next }).asked(told),
                }
            },
        }
    }

    /// What to do next, once what the last turn asked for is done. A run that
    /// is over has no next turn.
    pub open spec fn turn(self, now: u64) -> Turn {
        match self.stage {
            StageView::Ready => self.asked(seq![]),
            StageView::Draining(b) => self.settled_or_tuned(b, seq![]),
            StageView::Settling(b) => self.tuned(b, seq![]),
            StageView::Tuning(b) => (RunnerView { rx: empty_receiver(), ..self }).asked(
                seq![ReportView::Note(switched_note(settle_ms(self.drain), b))],
            ),
            StageView::Writing { label, ms } => Turn {
                action: RunActionView::Flush,
                reports: seq![],
                runner: RunnerView { stage: StageView::Flushing { label, ms }, ..self },
            },
            StageView::Flushing { label, ms } => if self.session.awaiting {
                self.listened(label, ms, (now + ms * 1_000_000) as u128, now)
            } else {
                self.asked(seq![])
            },
            StageView::Listening { label, ms, deadline } => self.listened(label, ms, deadline, now),
            StageView::Over => Turn {
                action: RunActionView::Done(Ok(())),
                reports: seq![],
                runner: self,
            },
        }
    }
}

/// What a run was last told to do.
enum Stage {
    Ready,
    Draining(u32),
    Settling(u32),
    Tuning(u32),
    Writing { label: String, ms: u64 },
    Flushing { label: String, ms: u64 },
    Listening { label: String, ms: u64, deadline: u128 },
    Over,
}

impl View for Stage {
    type V = StageView;

    closed spec fn view(&self) -> StageView {
        match self {
            Stage::Ready => StageView::Ready,
            Stage::Draining(b) => StageView::Draining(*b),
            Stage::Settling(b) => StageView::Settling(*b),
            Stage::Tuning(b) => StageView::Tuning(*b),
            Stage::Writing { label, ms } => StageView::Writing { label: label@, ms: *ms },
            Stage::Flushing { label, ms } => StageView::Flushing { label: label@, ms: *ms },
            Stage::Listening { label, ms, deadline } => StageView::Listening {
                label: label@,
                ms: *ms,
                deadline: *deadline,
            },
            Stage::Over => StageView::Over,
        }
    }
}

/// A planned session being run to completion.
///
/// Do what [`Runner::next`] says and call it again; where it fails, call
/// [`Runner::failed`] instead. What a read gives goes to [`Runner::heard`]
/// first.
pub struct Runner {
    session: Session,
    drain: DrainConfig,
    rx: Receiver,
    stage: Stage,
}

impl View for Runner {
    type V = RunnerView;

    closed spec fn view(&self) -> RunnerView {
        RunnerView {
            session: self.session@,
            drain: self.drain,
            rx: self.rx@,
            stage: self.stage@,
        }
    }
}

impl Runner {
    pub closed spec fn wf(&self) -> bool {
        self.session.wf() && self@.wf()
    }

    /// Start a run of a session that awaits no reply.
    pub fn new(session: Session, drain: DrainConfig) -> (r: Runner)
        requires
            session.wf(),
            !session@.awaiting,
        ensures
            r.wf(),
            r@ == RunnerView::start(session@, drain),
    {
        proof {
            session.lemma_wf();
        }
        Runner { session, drain, rx: Receiver::new(), stage: Stage::Ready }
    }

    /// The session being run.
    pub fn session(&self) -> (s: &Session)
        requires
            self.wf(),
        ensures
            s.wf(),
            s@ == self@.session,
    {
        &self.session
    }

    /// The run has come to its end, good or bad.
    pub fn is_over(&self) -> (r: bool)
        ensures
            r == (self@.stage is Over),
    {
        match self.stage {
            Stage::Over => true,
            _ => false,
        }
    }

    /// Take in what a read gave, which may be nothing.
    pub fn heard(&mut self, bytes: &[u8])
        requires
            old(self).wf(),
        ensures
            final(self).wf(),
            final(self)@ == (RunnerView {
                rx: ReceiverView { buf: old(self)@.rx.buf + bytes@, ..old(self)@.rx },
                ..old(self)@
            }),
    {
        self.rx.feed(bytes);
    }

    /// The port failed, in the words of the system: say what that means, and
    /// end the run.
    pub fn failed(&mut self, why: String) -> (e: Error)
        requires
            old(self).wf(),
        ensures
            final(self).wf(),
            e@ == wrapped(old(self)@.session, ErrorView::Io(why@)),
            final(self)@ == (RunnerView { stage: StageView::Over, ..old(self)@ }),
    {
        self.stage = Stage::Over;
        wrap(&self.session, Error::Io(why))
    }

    /// What to do next, once what was last asked for is done, and what to tell
    /// of it.
    pub fn next(&mut self, now: u64) -> (t: (RunAction, Vec<Report>))
        requires
            old(self).wf(),
            !(old(self)@.stage is Over),
        ensures
            final(self).wf(),
            t.0@ == old(self)@.turn(now).action,
            text::views(t.1@) == old(self)@.turn(now).reports,
            final(self)@ == old(self)@.turn(now).runner,
    {
        let mut reports: Vec<Report> = Vec::new();
        assert(text::views(reports@) =~= seq![]);
        let mut stage: Stage = Stage::Over;
        std::mem::swap(&mut stage, &mut self.stage);
        match stage {
            Stage::Ready => self.ask(reports),
            Stage::Draining(b) => self.settle_or_tune(b, reports),
            Stage::Settling(b) => self.tune(b, reports),
            Stage::Tuning(b) => {
                self.rx = Receiver::new();
                let mut note: String = "drained, settled ".to_owned();
                push_decimal(&mut note, self.drain.settle_ms());
                note.append(" ms at the old baud, switched to ");
                push_decimal(&mut note, b as u64);
                report(&mut reports, Report::Note(note));
                assert(text::views(reports@) =~= old(self)@.turn(now).reports.take(1));
                self.ask(reports)
            },
            Stage::Writing { label, ms } => {
                self.stage = Stage::Flushing { label, ms };
                (RunAction::Flush, reports)
            },
            Stage::Flushing { label, ms } => {
                if self.session.is_awaiting() {
                    let deadline: u128 = now as u128 + ms as u128 * 1_000_000;
                    self.listen(label, ms, deadline, now)
                } else {
                    self.ask(reports)
                }
            },
            Stage::Listening { label, ms, deadline } => self.listen(label, ms, deadline, now),
            Stage::Over => (RunAction::Done(Ok(())), reports),
        }
    }

    fn ask(&mut self, reports: Vec<Report>) -> (t: (RunAction, Vec<Report>))
        requires
            old(self).session.wf(),
            !old(self)@.session.awaiting,
        ensures
            final(self).wf(),
            ({
                let turn = old(self)@.asked(text::views(reports@));
                &&& t.0@ == turn.action
                &&& text::views(t.1@) == turn.reports
                &&& final(self)@ == turn.runner
            }),
    {
        let mut reports = reports;
        proof {
            self.session.lemma_wf();
        }
        let action: Action = self.session.next_action();
        proof {
            self.session.lemma_wf();
        }
        match action {
            Action::Finished | Action::AwaitingReply => {
                self.stage = Stage::Over;
                (RunAction::Done(Ok(())), reports)
            },
            Action::SetBaud(b) => {
                if self.drain.mode == DrainMode::TcDrain {
                    self.stage = Stage::Draining(b);
                    (RunAction::Drain, reports)
                } else {
                    self.settle_or_tune(b, reports)
                }
            },
            Action::Send { label, bytes, timeout_ms, .. } => {
                report(
                    &mut reports,
                    Report::Step { label: label.clone(), bytes: crate::frame::copy_bytes(&bytes) },
                );
                self.stage = Stage::Writing { label, ms: timeout_ms };
                (RunAction::Write(bytes), reports)
            },
        }
    }

    fn settle_or_tune(&mut self, baud: u32, reports: Vec<Report>) -> (t: (RunAction, Vec<Report>))
        requires
            old(self).session.wf(),
            old(self)@.session.wf(),
            !old(self)@.session.awaiting,
        ensures
            final(self).wf(),
            ({
                let turn = old(self)@.settled_or_tuned(baud, text::views(reports@));
                &&& t.0@ == turn.action
                &&& text::views(t.1@) == turn.reports
                &&& final(self)@ == turn.runner
            }),
    {
        let ms: u64 = self.drain.settle_ms();
        if ms > 0 {
            self.stage = Stage::Settling(baud);
            (RunAction::Settle(ms), reports)
        } else {
            self.tune(baud, reports)
        }
    }

    fn tune(&mut self, baud: u32, reports: Vec<Report>) -> (t: (RunAction, Vec<Report>))
        requires
            old(self).session.wf(),
            old(self)@.session.wf(),
            !old(self)@.session.awaiting,
        ensures
            final(self).wf(),
            ({
                let turn = old(self)@.tuned(baud, text::views(reports@));
                &&& t.0@ == turn.action
                &&& text::views(t.1@) == turn.reports
                &&& final(self)@ == turn.runner
            }),
    {
        self.stage = Stage::Tuning(baud);
        (RunAction::SetBaud(baud), reports)
    }

    /// Pull frames until a good one is there or more bytes are needed.
    fn await_frame(&mut self, reports: &mut Vec<Report>) -> (got: Option<Frame>)
        ensures
            ({
                let want = awaited(old(self)@.rx);
                &&& match got {
                    Some(f) => want.0 == Awaited::Frame(f@),
                    None => want.0 is NeedMore,
                }
                &&& text::views(final(reports)@) == text::views(old(reports)@) + want.1
                &&& final(self)@ == RunnerView { rx: want.2, ..old(self)@ }
                &&& final(self).session == old(self).session
            }),
    {
        let ghost want = awaited(self.rx@);
        let ghost before = text::views(reports@);
        assert(before + want.1 =~= text::views(reports@) + want.1);
        loop
            invariant
                want == awaited(old(self)@.rx),
                before == text::views(old(reports)@),
                awaited(self.rx@).0 == want.0,
                awaited(self.rx@).2 == want.2,
                before + want.1 == text::views(reports@) + awaited(self.rx@).1,
                self@ == (RunnerView { rx: self@.rx, ..old(self)@ }),
                self.session == old(self).session,
            decreases self.rx@.buf.len(),
        {
            let ghost here = self.rx@;
            let ghost reports0 = text::views(reports@);
            proof {
                frame::lemma_pull_bounds(here.buf);
            }
            let pulled: Option<Result<Frame, FrameError>> = self.rx.next_frame();
            match pulled {
                None => {
                    assert(text::views(reports@) =~= before + want.1);
                    return None;
                },
                Some(Ok(f)) => {
                    report_discarded(&mut self.rx, reports);
                    return Some(f);
                },
                Some(Err(e)) => {
                    report_discarded(&mut self.rx, reports);
                    let mut note: String = "re-hunting after a bad frame: ".to_owned();
                    note.append(e.message().as_str());
                    report(reports, Report::Note(note));
                    proof {
                        let said = discard_report(here.pulled().discarded);
                        let mine = ReportView::Note(rehunting_note(e));
                        let rest = awaited(self.rx@).1;
                        assert(awaited(here).1 == said.push(mine) + rest);
                        assert(text::views(reports@) + rest =~= reports0 + awaited(here).1);
                    }
                },
            }
        }
    }

    fn listen(&mut self, label: String, ms: u64, deadline: u128, now: u64) -> (t: (
        RunAction,
        Vec<Report>,
    ))
        requires
            old(self).session.wf(),
            old(self)@.session.awaiting,
        ensures
            final(self).wf(),
            ({
                let turn = old(self)@.listened(label@, ms, deadline, now);
                &&& t.0@ == turn.action
                &&& text::views(t.1@) == turn.reports
                &&& final(self)@ == turn.runner
            }),
    {
        proof {
            self.session.lemma_wf();
        }
        let mut reports: Vec<Report> = Vec::new();
        let got: Option<Frame> = self.await_frame(&mut reports);
        let ghost told = awaited(old(self)@.rx).1;
        assert(text::views(reports@) =~= told);
        match got {
            None => {
                if now as u128 >= deadline {
                    self.stage = Stage::Over;
                    let e: Error = wrap(&self.session, Error::Timeout { label, ms });
                    (RunAction::Done(Err(e)), reports)
                } else {
                    self.stage = Stage::Listening { label, ms, deadline };
                    (RunAction::Read, reports)
                }
            },
            Some(f) => {
                let verdict: Result<(), SessionError> = self.session.on_reply(&f);
                proof {
                    self.session.lemma_wf();
                }
                report(&mut reports, Report::Reply(f));
                match verdict {
                    Err(e) => {
                        self.stage = Stage::Over;
                        let e: Error = wrap(&self.session, Error::Session(e));
                        (RunAction::Done(Err(e)), reports)
                    },
                    Ok(()) => self.ask(reports),
                }
            },
        }
    }
}

} // verus!
