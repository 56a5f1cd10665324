//! The session state machine, expressed as **data**.
//!
//! Every host frame is a function of the image and the status packet, so a
//! session is a `Vec<Step>` computed up front from those two, and running it
//! is a loop with no protocol knowledge in it. The same `Vec<Step>` is either
//! handed to a serial port or compared byte for byte against a recording. No
//! I/O appears anywhere in this module.

use vstd::prelude::*;

use crate::frame;
use crate::frame::{copy_bytes, hex, same_bytes, Dir, Frame, FrameView};
use crate::protocol::stc89::REPLY_ACK;
use crate::text;
use crate::text::{push_decimal, push_hex_lower};

verus! {

/// Session phase.
#[derive(Clone, Copy, PartialEq, Eq, Debug, Structural)]
pub enum Phase {
    Sync,
    Status,
    BaudProbe,
    BaudCommit,
    LinkTest,
    Erase,
    Write,
    Options,
    Run,
}

/// The name of a phase.
pub open spec fn phase_name(p: Phase) -> Seq<char> {
    match p {
        Phase::Sync => "sync"@,
        Phase::Status => "status"@,
        Phase::BaudProbe => "baud_probe"@,
        Phase::BaudCommit => "baud_commit"@,
        Phase::LinkTest => "link_test"@,
        Phase::Erase => "erase"@,
        Phase::Write => "write"@,
        Phase::Options => "options"@,
        Phase::Run => "run"@,
    }
}

impl Phase {
    pub fn as_str(self) -> (s: &'static str)
        ensures
            s@ == phase_name(self),
    {
        match self {
            Phase::Sync => "sync",
            Phase::Status => "status",
            Phase::BaudProbe => "baud_probe",
            Phase::BaudCommit => "baud_commit",
            Phase::LinkTest => "link_test",
            Phase::Erase => "erase",
            Phase::Write => "write",
            Phase::Options => "options",
            Phase::Run => "run",
        }
    }
}

// --------------------------------------------------------------------- model

/// [`Expect`] with its bytes as a sequence.
pub enum ExpectView {
    Nothing,
    Echo,
    Ack { cmd: u8, payload: Seq<u8> },
    AckLen { cmd: u8, payload_len: usize },
    AckPrefix { cmd: u8, payload_len: usize, prefix: Seq<u8> },
    BlockAck { sum: u8 },
}

/// [`Step`] with its text and bytes as sequences.
pub struct StepView {
    pub phase: Phase,
    pub label: Seq<char>,
    pub frame: FrameView,
    pub expect: ExpectView,
    pub timeout_ms: u64,
    pub retune_to: Option<u32>,
    pub write_addr: Option<u32>,
}

/// [`Action`] with its text and bytes as sequences.
pub enum ActionView {
    Send {
        index: usize,
        label: Seq<char>,
        phase: Phase,
        bytes: Seq<u8>,
        expect_reply: bool,
        timeout_ms: u64,
    },
    SetBaud(u32),
    AwaitingReply,
    Finished,
}

/// [`SessionError`] with its text and bytes as sequences.
pub enum SessionErrorView {
    NotAwaiting,
    WrongCommand { step: Seq<char>, want: u8, got: u8 },
    WrongDirection { step: Seq<char>, got: Dir },
    NotAnEcho { step: Seq<char>, got: FrameView },
    WrongPayload { step: Seq<char>, want: Seq<u8>, got: Seq<u8> },
    WrongPayloadLen { step: Seq<char>, want: usize, got: usize },
    BlockAckMismatch { addr: u32, want: u8, got: u8 },
}

/// Where a session stands: the steps below `at` are done, and `awaiting` says
/// whether step `at` has been sent.
pub struct SessionView {
    pub steps: Seq<StepView>,
    pub at: nat,
    pub awaiting: bool,
    pub retune: Option<u32>,
}

impl StepView {
    /// Does the MCU answer this step?
    pub open spec fn answered(self) -> bool {
        !(self.expect is Nothing)
    }

    /// Is `reply` the answer this step asks for, and if not, why?
    pub open spec fn judge(self, reply: FrameView) -> Result<(), SessionErrorView> {
        if reply.dir != Dir::McuToHost {
            Err(SessionErrorView::WrongDirection { step: self.label, got: reply.dir })
        } else {
            match self.expect {
                ExpectView::Nothing => Err(SessionErrorView::NotAwaiting),
                ExpectView::Echo => if reply.echoes(self.frame) {
                    Ok(())
                } else {
                    Err(SessionErrorView::NotAnEcho { step: self.label, got: reply })
                },
                ExpectView::Ack { cmd, payload } => if reply.cmd != cmd {
                    Err(
                        SessionErrorView::WrongCommand {
                            step: self.label,
                            want: cmd,
                            got: reply.cmd,
                        },
                    )
                } else if reply.payload != payload {
                    Err(
                        SessionErrorView::WrongPayload {
                            step: self.label,
                            want: payload,
                            got: reply.payload,
                        },
                    )
                } else {
                    Ok(())
                },
                ExpectView::AckLen { cmd, payload_len } => if reply.cmd != cmd {
                    Err(
                        SessionErrorView::WrongCommand {
                            step: self.label,
                            want: cmd,
                            got: reply.cmd,
                        },
                    )
                } else if reply.payload.len() != payload_len {
                    Err(
                        SessionErrorView::WrongPayloadLen {
                            step: self.label,
                            want: payload_len,
                            got: reply.payload.len() as usize,
                        },
                    )
                } else {
                    Ok(())
                },
                ExpectView::AckPrefix { cmd, payload_len, prefix } => if reply.cmd != cmd {
                    Err(
                        SessionErrorView::WrongCommand {
                            step: self.label,
                            want: cmd,
                            got: reply.cmd,
                        },
                    )
                } else if reply.payload.len() != payload_len {
                    Err(
                        SessionErrorView::WrongPayloadLen {
                            step: self.label,
                            want: payload_len,
                            got: reply.payload.len() as usize,
                        },
                    )
                } else if !prefix.is_prefix_of(reply.payload) {
                    Err(
                        SessionErrorView::WrongPayload {
                            step: self.label,
                            want: prefix,
                            got: reply.payload,
                        },
                    )
                } else {
                    Ok(())
                },
                ExpectView::BlockAck { sum } => if reply.cmd != REPLY_ACK {
                    Err(
                        SessionErrorView::WrongCommand {
                            step: self.label,
                            want: REPLY_ACK,
                            got: reply.cmd,
                        },
                    )
                } else if reply.payload.len() != 1 {
                    Err(
                        SessionErrorView::WrongPayloadLen {
                            step: self.label,
                            want: 1,
                            got: reply.payload.len() as usize,
                        },
                    )
                } else if reply.payload[0] != sum {
                    Err(
                        SessionErrorView::BlockAckMismatch {
                            addr: match self.write_addr {
                                Some(a) => a,
                                None => 0,
                            },
                            want: sum,
                            got: reply.payload[0],
                        },
                    )
                } else {
                    Ok(())
                },
            }
        }
    }
}

/// Step `i` programs a block.
pub open spec fn is_write(steps: Seq<StepView>, i: int) -> bool {
    0 <= i < steps.len() && steps[i].phase == Phase::Write
}

/// A write block is among the steps below `at`, or is step `at` and sent.
pub open spec fn some_write_sent(steps: Seq<StepView>, at: nat, awaiting: bool) -> bool {
    exists|i: int| #[trigger] is_write(steps, i) && (i < at || (i == at && awaiting))
}

/// Every write block is among the steps below `at`.
pub open spec fn all_writes_below(steps: Seq<StepView>, at: nat) -> bool {
    forall|i: int| #[trigger] is_write(steps, i) ==> i < at
}

/// There is a write block.
pub open spec fn some_write(steps: Seq<StepView>) -> bool {
    exists|i: int| #[trigger] is_write(steps, i)
}

impl SessionView {
    /// A session at its start.
    pub open spec fn start(steps: Seq<StepView>) -> SessionView {
        SessionView { steps, at: 0, awaiting: false, retune: None }
    }

    /// A step that is awaiting its answer is one that is answered, and no
    /// change of rate is outstanding while it is.
    pub open spec fn wf(self) -> bool {
        &&& self.at <= self.steps.len()
        &&& self.awaiting ==> self.at < self.steps.len() && self.steps[self.at as int].answered()
            && self.retune is None
    }

    /// The session with its current step done.
    pub open spec fn advanced(self) -> SessionView {
        SessionView {
            at: self.at + 1,
            awaiting: false,
            retune: self.steps[self.at as int].retune_to,
            ..self
        }
    }

    /// What the driver has to do next.
    pub open spec fn action(self) -> ActionView {
        if self.awaiting {
            ActionView::AwaitingReply
        } else if let Some(baud) = self.retune {
            ActionView::SetBaud(baud)
        } else if self.at >= self.steps.len() {
            ActionView::Finished
        } else {
            let step = self.steps[self.at as int];
            ActionView::Send {
                index: self.at as usize,
                label: step.label,
                phase: step.phase,
                bytes: step.frame.encoded(),
                expect_reply: step.answered(),
                timeout_ms: step.timeout_ms,
            }
        }
    }

    /// The session once the driver has been told.
    pub open spec fn acted(self) -> SessionView {
        if self.awaiting {
            self
        } else if self.retune is Some {
            SessionView { retune: None, ..self }
        } else if self.at >= self.steps.len() {
            self
        } else if self.steps[self.at as int].answered() {
            SessionView { awaiting: true, ..self }
        } else {
            self.advanced()
        }
    }

    /// What is said to a reply.
    pub open spec fn judge(self, reply: FrameView) -> Result<(), SessionErrorView> {
        if !self.awaiting {
            Err(SessionErrorView::NotAwaiting)
        } else {
            self.steps[self.at as int].judge(reply)
        }
    }

    /// The session after a reply: one step on if it was the right one, and
    /// unchanged if not.
    pub open spec fn replied(self, reply: FrameView) -> SessionView {
        if self.judge(reply) is Ok {
            self.advanced()
        } else {
            self
        }
    }

    /// A write block has gone out.
    pub open spec fn write_sent(self) -> bool {
        some_write_sent(self.steps, self.at, self.awaiting)
    }

    /// Every write block has been acknowledged.
    pub open spec fn writes_acknowledged(self) -> bool {
        all_writes_below(self.steps, self.at)
    }

    /// At least one write block has gone out and the last one has not been
    /// acknowledged.
    pub open spec fn flash_is_indeterminate(self) -> bool {
        self.write_sent() && !self.writes_acknowledged()
    }

    pub open spec fn finished(self) -> bool {
        self.at >= self.steps.len() && !self.awaiting
    }
}

// ---------------------------------------------------------------------- data

/// What the MCU is expected to answer with.
#[derive(PartialEq, Eq, Debug)]
pub enum Expect {
    /// No reply, ever: a host that waits for one here reports a false failure
    /// on a perfectly successful flash.
    Nothing,
    /// The request echoed back with `DIR` swapped.
    Echo,
    /// A reply whose payload must match exactly.
    Ack { cmd: u8, payload: Vec<u8> },
    /// A reply whose payload length is fixed but whose content is not
    /// asserted.
    AckLen { cmd: u8, payload_len: usize },
    /// A reply whose payload length is fixed, and which begins with known
    /// bytes; what follows them is not asserted.
    AckPrefix { cmd: u8, payload_len: usize, prefix: Vec<u8> },
    /// The per-block ack: one payload byte equal to the low byte of the sum
    /// of the data bytes just sent. The only per-block integrity signal the
    /// protocol offers.
    BlockAck { sum: u8 },
}

impl View for Expect {
    type V = ExpectView;

    open spec fn view(&self) -> ExpectView {
        match self {
            Expect::Nothing => ExpectView::Nothing,
            Expect::Echo => ExpectView::Echo,
            Expect::Ack { cmd, payload } => ExpectView::Ack { cmd: *cmd, payload: payload@ },
            Expect::AckLen { cmd, payload_len } => ExpectView::AckLen {
                cmd: *cmd,
                payload_len: *payload_len,
            },
            Expect::AckPrefix { cmd, payload_len, prefix } => ExpectView::AckPrefix {
                cmd: *cmd,
                payload_len: *payload_len,
                prefix: prefix@,
            },
            Expect::BlockAck { sum } => ExpectView::BlockAck { sum: *sum },
        }
    }
}

impl Clone for Expect {
    fn clone(&self) -> (e: Expect)
        ensures
            e@ == self@,
    {
        match self {
            Expect::Nothing => Expect::Nothing,
            Expect::Echo => Expect::Echo,
            Expect::Ack { cmd, payload } => Expect::Ack { cmd: *cmd, payload: copy_bytes(payload) },
            Expect::AckLen { cmd, payload_len } => Expect::AckLen {
                cmd: *cmd,
                payload_len: *payload_len,
            },
            Expect::AckPrefix { cmd, payload_len, prefix } => Expect::AckPrefix {
                cmd: *cmd,
                payload_len: *payload_len,
                prefix: copy_bytes(prefix),
            },
            Expect::BlockAck { sum } => Expect::BlockAck { sum: *sum },
        }
    }
}

/// One request in the session.
#[derive(Debug)]
pub struct Step {
    pub phase: Phase,
    pub label: String,
    pub frame: Frame,
    pub expect: Expect,
    pub timeout_ms: u64,
    /// Retune the link to this baud once this step's reply has been accepted,
    /// before the next frame goes out: in place, on the open port, with the
    /// receiver resynchronising on the preamble.
    pub retune_to: Option<u32>,
    /// Byte offset this step programs, for error reporting.
    pub write_addr: Option<u32>,
}

impl View for Step {
    type V = StepView;

    open spec fn view(&self) -> StepView {
        StepView {
            phase: self.phase,
            label: self.label@,
            frame: self.frame@,
            expect: self.expect@,
            timeout_ms: self.timeout_ms,
            retune_to: self.retune_to,
            write_addr: self.write_addr,
        }
    }
}

impl Clone for Step {
    fn clone(&self) -> (s: Step)
        ensures
            s@ == self@,
    {
        Step {
            phase: self.phase,
            label: self.label.clone(),
            frame: self.frame.clone(),
            expect: self.expect.clone(),
            timeout_ms: self.timeout_ms,
            retune_to: self.retune_to,
            write_addr: self.write_addr,
        }
    }
}

/// What the driver should do next.
#[derive(Clone, Debug)]
pub enum Action {
    Send {
        index: usize,
        label: String,
        phase: Phase,
        bytes: Vec<u8>,
        expect_reply: bool,
        timeout_ms: u64,
    },
    /// Change the port's baud rate in place. Do **not** close and reopen:
    /// bytes are lost across the gap.
    SetBaud(u32),
    /// A reply to the previous `Send` is outstanding.
    AwaitingReply,
    Finished,
}

impl View for Action {
    type V = ActionView;

    open spec fn view(&self) -> ActionView {
        match self {
            Action::Send { index, label, phase, bytes, expect_reply, timeout_ms } =>
                ActionView::Send {
                index: *index,
                label: label@,
                phase: *phase,
                bytes: bytes@,
                expect_reply: *expect_reply,
                timeout_ms: *timeout_ms,
            },
            Action::SetBaud(b) => ActionView::SetBaud(*b),
            Action::AwaitingReply => ActionView::AwaitingReply,
            Action::Finished => ActionView::Finished,
        }
    }
}

#[derive(Clone, Debug)]
pub enum SessionError {
    NotAwaiting,
    WrongCommand { step: String, want: u8, got: u8 },
    WrongDirection { step: String, got: Dir },
    NotAnEcho { step: String, got: Frame },
    WrongPayload { step: String, want: Vec<u8>, got: Vec<u8> },
    WrongPayloadLen { step: String, want: usize, got: usize },
    /// The MCU's own checksum of the block disagrees with ours.
    BlockAckMismatch { addr: u32, want: u8, got: u8 },
}

impl View for SessionError {
    type V = SessionErrorView;

    open spec fn view(&self) -> SessionErrorView {
        match self {
            SessionError::NotAwaiting => SessionErrorView::NotAwaiting,
            SessionError::WrongCommand { step, want, got } => SessionErrorView::WrongCommand {
                step: step@,
                want: *want,
                got: *got,
            },
            SessionError::WrongDirection { step, got } => SessionErrorView::WrongDirection {
                step: step@,
                got: *got,
            },
            SessionError::NotAnEcho { step, got } => SessionErrorView::NotAnEcho {
                step: step@,
                got: got@,
            },
            SessionError::WrongPayload { step, want, got } => SessionErrorView::WrongPayload {
                step: step@,
                want: want@,
                got: got@,
            },
            SessionError::WrongPayloadLen { step, want, got } => SessionErrorView::WrongPayloadLen {
                step: step@,
                want: *want,
                got: *got,
            },
            SessionError::BlockAckMismatch { addr, want, got } =>
                SessionErrorView::BlockAckMismatch { addr: *addr, want: *want, got: *got },
        }
    }
}

/// The name of a direction.
pub open spec fn dir_name(d: Dir) -> Seq<char> {
    match d {
        Dir::HostToMcu => "HostToMcu"@,
        Dir::McuToHost => "McuToHost"@,
    }
}

/// What a session error says to a reader.
pub open spec fn session_error_text(e: SessionErrorView) -> Seq<char> {
    match e {
        SessionErrorView::NotAwaiting => "a reply arrived when none was expected"@,
        SessionErrorView::WrongCommand { step, want, got } => step
            + ": expected reply command 0x"@ + text::hex_lower(want as nat, 2) + ", got 0x"@
            + text::hex_lower(got as nat, 2),
        SessionErrorView::WrongDirection { step, got } => step + ": reply carries direction "@
            + dir_name(got),
        SessionErrorView::NotAnEcho { step, got } => step
            + ": reply is not an echo of the request ("@ + frame::frame_text(got) + ")"@,
        SessionErrorView::WrongPayload { step, want, got } => step + ": expected payload ["@
            + frame::hex_text(want) + "], got ["@ + frame::hex_text(got) + "]"@,
        SessionErrorView::WrongPayloadLen { step, want, got } => step + ": expected "@
            + text::decimal(want as nat) + " payload bytes, got "@ + text::decimal(got as nat),
        SessionErrorView::BlockAckMismatch { addr, want, got } => "block at 0x"@
            + text::hex_lower(addr as nat, 4) + ": MCU checksummed 0x"@ + text::hex_lower(
            got as nat,
            2,
        ) + ", we sent 0x"@ + text::hex_lower(want as nat, 2)
            + " — flash is now in an INDETERMINATE state; power-cycle and reflash"@,
    }
}

impl SessionError {
    /// The error as a sentence.
    pub fn message(&self) -> (r: String)
        ensures
            r@ == session_error_text(self@),
    {
        match self {
            SessionError::NotAwaiting => "a reply arrived when none was expected".to_owned(),
            SessionError::WrongCommand { step, want, got } => {
                let mut s: String = step.clone();
                s.append(": expected reply command 0x");
                push_hex_lower(&mut s, *want as u64, 2);
                s.append(", got 0x");
                push_hex_lower(&mut s, *got as u64, 2);
                s
            },
            SessionError::WrongDirection { step, got } => {
                let mut s: String = step.clone();
                s.append(": reply carries direction ");
                match got {
                    Dir::HostToMcu => s.append("HostToMcu"),
                    Dir::McuToHost => s.append("McuToHost"),
                }
                s
            },
            SessionError::NotAnEcho { step, got } => {
                let mut s: String = step.clone();
                s.append(": reply is not an echo of the request (");
                s.append(got.describe().as_str());
                s.append(")");
                s
            },
            SessionError::WrongPayload { step, want, got } => {
                let mut s: String = step.clone();
                s.append(": expected payload [");
                s.append(hex(want).as_str());
                s.append("], got [");
                s.append(hex(got).as_str());
                s.append("]");
                s
            },
            SessionError::WrongPayloadLen { step, want, got } => {
                let mut s: String = step.clone();
                s.append(": expected ");
                push_decimal(&mut s, *want as u64);
                s.append(" payload bytes, got ");
                push_decimal(&mut s, *got as u64);
                s
            },
            SessionError::BlockAckMismatch { addr, want, got } => {
                let mut s: String = "block at 0x".to_owned();
                push_hex_lower(&mut s, *addr as u64, 4);
                s.append(": MCU checksummed 0x");
                push_hex_lower(&mut s, *got as u64, 2);
                s.append(", we sent 0x");
                push_hex_lower(&mut s, *want as u64, 2);
                s.append(" — flash is now in an INDETERMINATE state; power-cycle and reflash");
                s
            },
        }
    }
}

// ------------------------------------------------------------------- session

/// A planned session being executed.
///
/// Call [`Session::next_action`]; if it returns `Send` with `expect_reply`,
/// feed the next valid frame to [`Session::on_reply`] before asking for
/// another action.
pub struct Session {
    steps: Vec<Step>,
    at: usize,
    awaiting: bool,
    retune_pending: Option<u32>,
    writes_started: bool,
    writes_finished: bool,
}

impl View for Session {
    type V = SessionView;

    closed spec fn view(&self) -> SessionView {
        SessionView {
            steps: text::views(self.steps@),
            at: self.at as nat,
            awaiting: self.awaiting,
            retune: self.retune_pending,
        }
    }
}

impl Session {
    /// The session stands where a session can stand, and its two flags say
    /// how far the write blocks have come.
    pub closed spec fn wf(&self) -> bool {
        &&& self@.wf()
        &&& self.writes_started == self@.write_sent()
        &&& self.writes_finished == (self@.writes_acknowledged() && some_write(self@.steps))
    }

    /// A well-formed session stands where a session can stand.
    pub proof fn lemma_wf(&self)
        requires
            self.wf(),
        ensures
            self@.wf(),
            self@.steps.len() <= usize::MAX,
    {
        assert(self.steps.len() == self.steps@.len());
    }

    pub fn new(steps: Vec<Step>) -> (s: Session)
        ensures
            s.wf(),
            s@ == SessionView::start(text::views(steps@)),
    {
        Session {
            steps,
            at: 0,
            awaiting: false,
            retune_pending: None,
            writes_started: false,
            writes_finished: false,
        }
    }

    pub fn steps(&self) -> (steps: &[Step])
        ensures
            text::views(steps@) == self@.steps,
    {
        self.steps.as_slice()
    }

    pub fn next_action(&mut self) -> (a: Action)
        requires
            old(self).wf(),
        ensures
            final(self).wf(),
            a@ == old(self)@.action(),
            final(self)@ == old(self)@.acted(),
    {
        if self.awaiting {
            return Action::AwaitingReply;
        }
        if let Some(baud) = self.retune_pending {
            self.retune_pending = None;
            return Action::SetBaud(baud);
        }
        if self.at >= self.steps.len() {
            return Action::Finished;
        }
        let ghost before = self@;
        let step: &Step = &self.steps[self.at];
        assert(before.steps[before.at as int] == step@);
        let expect_reply: bool = match step.expect {
            Expect::Nothing => false,
            _ => true,
        };
        let is_write_step: bool = step.phase == Phase::Write;
        let action: Action = Action::Send {
            index: self.at,
            label: step.label.clone(),
            phase: step.phase,
            bytes: step.frame.encode(),
            expect_reply,
            timeout_ms: step.timeout_ms,
        };
        if is_write_step {
            self.writes_started = true;
        }
        if expect_reply {
            self.awaiting = true;
            proof {
                assert(self@ == before.acted());
                lemma_sent(before);
            }
        } else {
            self.advance();
        }
        action
    }

    /// Go on to the next step.
    fn advance(&mut self)
        requires
            old(self)@.wf(),
            old(self)@.at < old(self)@.steps.len(),
            old(self).writes_started == (old(self)@.write_sent() || is_write(
                old(self)@.steps,
                old(self)@.at as int,
            )),
            old(self).writes_finished == (old(self)@.writes_acknowledged() && some_write(
                old(self)@.steps,
            )),
        ensures
            final(self).wf(),
            final(self)@ == old(self)@.advanced(),
    {
        let ghost before = self@;
        let count: usize = self.steps.len();
        let retune: Option<u32> = self.steps[self.at].retune_to;
        let is_write_step: bool = self.steps[self.at].phase == Phase::Write;
        assert(before.steps[before.at as int] == self.steps@[self.at as int]@);
        self.retune_pending = retune;
        if is_write_step {
            assert(is_write(before.steps, before.at as int));
            let mut last_write: usize = self.at;
            let mut i: usize = self.at + 1;
            while i < count
                invariant
                    count == self.steps@.len(),
                    self.at < count,
                    self.at + 1 <= i <= self.steps@.len(),
                    before.steps == text::views(self.steps@),
                    self.at <= last_write < i,
                    is_write(before.steps, last_write as int),
                    forall|k: int| last_write < k < i ==> !#[trigger] is_write(before.steps, k),
                decreases count - i,
            {
                assert(before.steps[i as int] == self.steps@[i as int]@);
                if self.steps[i].phase == Phase::Write {
                    last_write = i;
                }
                i = i + 1;
            }
            if self.at == last_write {
                self.writes_finished = true;
            }
        }
        self.at = self.at + 1;
        self.awaiting = false;
        assert(self@ == before.advanced());
        assert(self@.write_sent() == self.writes_started) by {
            if before.write_sent() {
                let i = choose|i: int| #[trigger]
                    is_write(before.steps, i) && (i < before.at || (i == before.at
                        && before.awaiting));
                assert(is_write(self@.steps, i) && i < self@.at);
            }
            if is_write(before.steps, before.at as int) {
                assert(is_write(self@.steps, before.at as int) && before.at < self@.at);
            }
        }
    }

    /// Take the answer to the frame that was sent last.
    pub fn on_reply(&mut self, reply: &Frame) -> (r: Result<(), SessionError>)
        requires
            old(self).wf(),
        ensures
            final(self).wf(),
            final(self)@ == old(self)@.replied(reply@),
            match r {
                Ok(()) => old(self)@.judge(reply@) is Ok,
                Err(e) => old(self)@.judge(reply@) == Err::<(), SessionErrorView>(e@),
            },
    {
        if !self.awaiting {
            return Err(SessionError::NotAwaiting);
        }
        let ghost before = self@;
        let step: &Step = &self.steps[self.at];
        assert(before.steps[before.at as int] == step@);
        if reply.dir != Dir::McuToHost {
            return Err(
                SessionError::WrongDirection { step: step.label.clone(), got: reply.dir },
            );
        }
        match &step.expect {
            Expect::Nothing => {
                return Err(SessionError::NotAwaiting);
            },
            Expect::Echo => {
                if !reply.is_echo_of(&step.frame) {
                    return Err(
                        SessionError::NotAnEcho { step: step.label.clone(), got: reply.clone() },
                    );
                }
            },
            Expect::Ack { cmd, payload } => {
                if reply.cmd != *cmd {
                    return Err(
                        SessionError::WrongCommand {
                            step: step.label.clone(),
                            want: *cmd,
                            got: reply.cmd,
                        },
                    );
                }
                if !same_bytes(&reply.payload, payload) {
                    return Err(
                        SessionError::WrongPayload {
                            step: step.label.clone(),
                            want: copy_bytes(payload),
                            got: copy_bytes(&reply.payload),
                        },
                    );
                }
            },
            Expect::AckLen { cmd, payload_len } => {
                if reply.cmd != *cmd {
                    return Err(
                        SessionError::WrongCommand {
                            step: step.label.clone(),
                            want: *cmd,
                            got: reply.cmd,
                        },
                    );
                }
                if reply.payload.len() != *payload_len {
                    return Err(
                        SessionError::WrongPayloadLen {
                            step: step.label.clone(),
                            want: *payload_len,
                            got: reply.payload.len(),
                        },
                    );
                }
            },
            Expect::AckPrefix { cmd, payload_len, prefix } => {
                if reply.cmd != *cmd {
                    return Err(
                        SessionError::WrongCommand {
                            step: step.label.clone(),
                            want: *cmd,
                            got: reply.cmd,
                        },
                    );
                }
                if reply.payload.len() != *payload_len {
                    return Err(
                        SessionError::WrongPayloadLen {
                            step: step.label.clone(),
                            want: *payload_len,
                            got: reply.payload.len(),
                        },
                    );
                }
                if !begins_with(&reply.payload, prefix) {
                    return Err(
                        SessionError::WrongPayload {
                            step: step.label.clone(),
                            want: copy_bytes(prefix),
                            got: copy_bytes(&reply.payload),
                        },
                    );
                }
            },
            Expect::BlockAck { sum } => {
                if reply.cmd != REPLY_ACK {
                    return Err(
                        SessionError::WrongCommand {
                            step: step.label.clone(),
                            want: REPLY_ACK,
                            got: reply.cmd,
                        },
                    );
                }
                if reply.payload.len() != 1 {
                    return Err(
                        SessionError::WrongPayloadLen {
                            step: step.label.clone(),
                            want: 1,
                            got: reply.payload.len(),
                        },
                    );
                }
                if reply.payload[0] != *sum {
                    return Err(
                        SessionError::BlockAckMismatch {
                            addr: match step.write_addr {
                                Some(a) => a,
                                None => 0,
                            },
                            want: *sum,
                            got: reply.payload[0],
                        },
                    );
                }
            },
        }
        proof {
            if is_write(before.steps, before.at as int) {
                assert(before.write_sent());
            }
        }
        self.advance();
        Ok(())
    }

    /// True once at least one write block has gone out and the last one has
    /// not been acknowledged.
    ///
    /// A half-written flash is not a recoverable state. There is no read-back,
    /// so any abort in this window can only honestly be reported as
    /// indeterminate.
    pub fn flash_is_indeterminate(&self) -> (r: bool)
        requires
            self.wf(),
        ensures
            r == self@.flash_is_indeterminate(),
    {
        self.writes_started && !self.writes_finished
    }

    /// A reply to the frame that was sent last is outstanding.
    pub fn is_awaiting(&self) -> (r: bool)
        ensures
            r == self@.awaiting,
    {
        self.awaiting
    }

    pub fn is_finished(&self) -> (r: bool)
        requires
            self.wf(),
        ensures
            r == self@.finished(),
    {
        self.at >= self.steps.len() && !self.awaiting
    }

    /// How many steps are done, and how many there are.
    pub fn progress(&self) -> (p: (usize, usize))
        requires
            self.wf(),
        ensures
            p.0 == self@.at,
            p.1 == self@.steps.len(),
    {
        (self.at, self.steps.len())
    }
}

/// Do some bytes begin with others?
fn begins_with(bytes: &Vec<u8>, prefix: &Vec<u8>) -> (r: bool)
    ensures
        r == prefix@.is_prefix_of(bytes@),
{
    if prefix.len() > bytes.len() {
        return false;
    }
    let mut i: usize = 0;
    while i < prefix.len()
        invariant
            prefix@.len() <= bytes@.len(),
            0 <= i <= prefix@.len(),
            forall|k: int| 0 <= k < i ==> prefix@[k] == bytes@[k],
        decreases prefix.len() - i,
    {
        if prefix[i] != bytes[i] {
            assert(bytes@.subrange(0, prefix@.len() as int)[i as int] == bytes@[i as int]);
            return false;
        }
        i = i + 1;
    }
    assert(bytes@.subrange(0, prefix@.len() as int) =~= prefix@);
    true
}

/// Sending the current step sends a write block exactly if it is one.
proof fn lemma_sent(s: SessionView)
    requires
        s.wf(),
        !s.awaiting,
        s.at < s.steps.len(),
    ensures
        (SessionView { awaiting: true, ..s }).write_sent() == (s.write_sent() || is_write(
            s.steps,
            s.at as int,
        )),
        (SessionView { awaiting: true, ..s }).writes_acknowledged() == s.writes_acknowledged(),
{
    let t = SessionView { awaiting: true, ..s };
    if s.write_sent() {
        let i = choose|i: int| #[trigger]
            is_write(s.steps, i) && (i < s.at || (i == s.at && s.awaiting));
        assert(is_write(t.steps, i) && i < t.at);
    }
    if is_write(s.steps, s.at as int) {
        assert(is_write(t.steps, s.at as int));
    }
}

} // verus!
