//! Calls on a session, on a handshake and on a run.

use vstd::prelude::*;

use crate::driver;
use crate::driver::{
    DrainConfig, DrainMode, Error, ErrorView, Handshake, HandshakeAction, Heard, Report, RunAction,
    RunActionView, Runner,
};
use crate::frame::{Dir, Frame, FrameView};
use crate::laws;
use crate::protocol::stc89::Stc89;
use crate::protocol::{ProtocolFamily, SessionOptions};
use crate::session::{Action, ExpectView, Session, SessionError, SessionErrorView, Step};
use crate::text;

verus! {

// -------------------------------------------------------------------- session

/// A new session has done nothing, and its first action is its first step.
pub proof fn law_a_session_starts(steps: Vec<Step>, s: &mut Session, a: Action)
    requires
        call_ensures(Session::new, (steps,), *old(s)),
        call_ensures(Session::next_action, (s,), a),
        steps@.len() > 0,
    ensures
        a matches Action::Send { index, label, phase, bytes, expect_reply, timeout_ms } && {
            let step = steps@[0];
            &&& index == 0
            &&& label@ == step.label@
            &&& phase == step.phase
            &&& bytes@ == step.frame@.encoded()
            &&& expect_reply <==> !(step.expect is Nothing)
            &&& timeout_ms == step.timeout_ms
        },
{
    let views = text::views(steps@);
    assert(views[0] == steps@[0]@);
    assert(a@ == old(s)@.action());
}

/// What a session does next, and where it stands behind it.
pub proof fn law_next_action(s: &mut Session, a: Action)
    requires
        old(s)@.wf(),
        old(s)@.steps.len() <= usize::MAX,
        call_ensures(Session::next_action, (s,), a),
    ensures
        final(s)@.steps == old(s)@.steps,
        a is AwaitingReply <==> old(s)@.awaiting,
        a is AwaitingReply || a is Finished ==> final(s)@ == old(s)@,
        a is Finished <==> !old(s)@.awaiting && old(s)@.retune is None && old(s)@.at
            == old(s)@.steps.len(),
        a matches Action::SetBaud(b) ==> old(s)@.retune == Some(b) && final(s)@.retune is None
            && final(s)@.at == old(s)@.at,
        a matches Action::Send { index, label, phase, bytes, expect_reply, timeout_ms } ==> {
            let step = old(s)@.steps[old(s)@.at as int];
            &&& index == old(s)@.at
            &&& label@ == step.label
            &&& phase == step.phase
            &&& bytes@ == step.frame.encoded()
            &&& expect_reply <==> !(step.expect is Nothing)
            &&& timeout_ms == step.timeout_ms
            &&& final(s)@.awaiting == expect_reply
            &&& expect_reply ==> final(s)@.at == old(s)@.at
            &&& !expect_reply ==> final(s)@.at == old(s)@.at + 1
        },
{
    laws::session::law_what_a_session_does_next(old(s)@);
    assert(a@ == old(s)@.action());
}

/// Which reply is taken, and what it does; one that is refused changes
/// nothing.
pub proof fn law_on_reply(s: &mut Session, reply: &Frame, r: Result<(), SessionError>)
    requires
        old(s)@.wf(),
        call_ensures(Session::on_reply, (s, reply), r),
    ensures
        ({
            let step = old(s)@.steps[old(s)@.at as int];
            let p = reply.payload@;
            &&& r is Err ==> final(s)@ == old(s)@
            &&& r is Ok ==> old(s)@.awaiting && reply.dir == Dir::McuToHost && final(s)@.at
                == old(s)@.at + 1 && !final(s)@.awaiting && final(s)@.retune == step.retune_to
                && final(s)@.steps == old(s)@.steps
            &&& !old(s)@.awaiting ==> (r matches Err(SessionError::NotAwaiting))
            &&& old(s)@.awaiting && reply.dir == Dir::McuToHost ==> match step.expect {
                ExpectView::Nothing => r is Err,
                ExpectView::Echo => r is Ok <==> step.frame.dir == Dir::HostToMcu && reply.cmd
                    == step.frame.cmd && p == step.frame.payload,
                ExpectView::Ack { cmd, payload } => r is Ok <==> reply.cmd == cmd && p == payload,
                ExpectView::AckLen { cmd, payload_len } => r is Ok <==> reply.cmd == cmd && p.len()
                    == payload_len,
                ExpectView::AckPrefix { cmd, payload_len, prefix } => r is Ok <==> reply.cmd == cmd
                    && p.len() == payload_len && prefix.len() <= p.len() && (forall|i: int|
                    0 <= i < prefix.len() ==> p[i] == #[trigger] prefix[i]),
                ExpectView::BlockAck { sum } => r is Ok <==> reply.cmd == 0x80 && p == seq![sum],
            }
        }),
{
    if old(s)@.awaiting {
        laws::session::law_which_replies_a_step_takes(
            old(s)@.steps[old(s)@.at as int],
            reply@,
        );
    }
    if let Err(e) = r {
        assert(old(s)@.judge(reply@) == Err::<(), SessionErrorView>(e@));
    }
}

/// How far a session has come, and whether the flash is in doubt.
pub proof fn law_where_a_session_stands(
    s: &Session,
    awaits: bool,
    ends: bool,
    p: (usize, usize),
    doubt: bool,
)
    requires
        s@.wf(),
        call_ensures(Session::is_awaiting, (s,), awaits),
        call_ensures(Session::is_finished, (s,), ends),
        call_ensures(Session::progress, (s,), p),
        call_ensures(Session::flash_is_indeterminate, (s,), doubt),
    ensures
        awaits == s@.awaiting,
        ends <==> p.0 == p.1,
        p.0 == s@.at,
        p.1 == s@.steps.len(),
        doubt <==> {
            &&& exists|i: int|
                0 <= i < s@.steps.len() && (#[trigger] s@.steps[i]).phase
                    == crate::session::Phase::Write && (i < s@.at || (i == s@.at && s@.awaiting))
            &&& exists|j: int|
                s@.at <= j < s@.steps.len() && (#[trigger] s@.steps[j]).phase
                    == crate::session::Phase::Write
        },
{
    laws::session::law_when_the_flash_is_in_doubt(s@);
}

// ------------------------------------------------------------------------ run

/// A reply has the step's own time to come, counted from the flush of its
/// frame: a run that stands ready writes the frame, flushes it, and reads
/// until the timeout's milliseconds, a million nanoseconds each, are up; then
/// it gives up and says so.
pub proof fn law_next_waits_as_long_as_the_step_says(
    one: &mut Runner,
    t1: u64,
    r1: (RunAction, Vec<Report>),
    two: &mut Runner,
    t2: u64,
    r2: (RunAction, Vec<Report>),
    fed: &mut Runner,
    first: &[u8],
    three: &mut Runner,
    flush: u64,
    r3: (RunAction, Vec<Report>),
    again: &mut Runner,
    more: &[u8],
    four: &mut Runner,
    now: u64,
    r4: (RunAction, Vec<Report>),
)
    requires
        old(one)@.wf(),
        old(one)@.stage is Ready,
        old(one)@.session.retune is None,
        old(one)@.session.at < old(one)@.session.steps.len(),
        old(one)@.session.steps[old(one)@.session.at as int].answered(),
        call_ensures(Runner::next, (one, t1), r1),
        *old(two) == *final(one),
        call_ensures(Runner::next, (two, t2), r2),
        *old(fed) == *final(two),
        call_ensures(Runner::heard, (fed, first), ()),
        *old(three) == *final(fed),
        call_ensures(Runner::next, (three, flush), r3),
        *old(again) == *final(three),
        call_ensures(Runner::heard, (again, more), ()),
        *old(four) == *final(again),
        call_ensures(Runner::next, (four, now), r4),
        driver::awaited(old(three)@.rx).0 is NeedMore,
        driver::awaited(old(four)@.rx).0 is NeedMore,
    ensures
        ({
            let step = old(one)@.session.steps[old(one)@.session.at as int];
            let deadline = flush + step.timeout_ms * 1_000_000;
            &&& r1.0 matches RunAction::Write(bytes) && bytes@ == step.frame.encoded()
            &&& r2.0 is Flush
            &&& step.timeout_ms > 0 ==> r3.0 is Read
            &&& step.timeout_ms == 0 ==> r3.0 is Done
            &&& step.timeout_ms > 0 && now < deadline ==> r4.0 is Read
            &&& step.timeout_ms > 0 && now >= deadline ==> r4.0@ == RunActionView::Done(
                Err(
                    driver::wrapped(
                        old(one)@.session.acted(),
                        ErrorView::Timeout { label: step.label, ms: step.timeout_ms },
                    ),
                ),
            )
        }),
{
    let v = old(one)@;
    laws::timing::law_a_reply_has_the_time_of_its_step(v, t1, t2, first@, flush, more@, now);
    assert(final(one)@ == v.turn(t1).runner);
    assert(final(two)@ == laws::timing::flushed(v, t1, t2));
    assert(final(fed)@ == laws::driver::fed(final(two)@, first@));
    assert(final(again)@ == laws::driver::fed(final(three)@, more@));
}

/// A change of rate is drained first where that is asked for, idles for the
/// margin where that is more than nothing, and then is made; and what came at
/// the old rate is dropped behind it.
pub proof fn law_next_switches_with_care(
    one: &mut Runner,
    t1: u64,
    r1: (RunAction, Vec<Report>),
    two: &mut Runner,
    t2: u64,
    r2: (RunAction, Vec<Report>),
    three: &mut Runner,
    t3: u64,
    r3: (RunAction, Vec<Report>),
    four: &mut Runner,
    t4: u64,
    r4: (RunAction, Vec<Report>),
    baud: u32,
)
    requires
        old(one)@.wf(),
        old(one)@.stage is Ready,
        old(one)@.session.retune == Some(baud),
        old(one)@.drain.mode == DrainMode::TcDrain,
        old(one)@.drain.margin_ms > 0,
        call_ensures(Runner::next, (one, t1), r1),
        *old(two) == *final(one),
        call_ensures(Runner::next, (two, t2), r2),
        *old(three) == *final(two),
        call_ensures(Runner::next, (three, t3), r3),
        *old(four) == *final(three),
        call_ensures(Runner::next, (four, t4), r4),
    ensures
        r1.0 is Drain,
        r2.0 matches RunAction::Settle(ms) && ms == old(one)@.drain.margin_ms,
        r3.0 matches RunAction::SetBaud(b) && b == baud,
        final(four)@.rx.buf.len() == 0,
        final(three)@.session.retune is None,
{
    let v = old(one)@;
    assert(final(one)@ == v.turn(t1).runner);
    assert(final(two)@ == final(one)@.turn(t2).runner);
    assert(final(three)@ == final(two)@.turn(t3).runner);
    assert(final(four)@ == final(three)@.turn(t4).runner);
    assert(r1.0@ == v.turn(t1).action);
    assert(r2.0@ == final(one)@.turn(t2).action);
    assert(r3.0@ == final(two)@.turn(t3).action);
}

/// Without a drain and without a margin, a change of rate is made at once.
pub proof fn law_next_switches_at_once(
    one: &mut Runner,
    now: u64,
    r: (RunAction, Vec<Report>),
    baud: u32,
)
    requires
        old(one)@.wf(),
        old(one)@.stage is Ready,
        old(one)@.session.retune == Some(baud),
        call_ensures(Runner::next, (one, now), r),
    ensures
        ({
            let d = old(one)@.drain;
            &&& d.mode == DrainMode::TcDrain ==> r.0 is Drain
            &&& d.mode != DrainMode::TcDrain && d.margin_ms > 0 ==> r.0 == RunAction::Settle(
                d.margin_ms as u64,
            )
            &&& d.mode != DrainMode::TcDrain && d.margin_ms <= 0 ==> r.0 == RunAction::SetBaud(baud)
        }),
{
    assert(r.0@ == old(one)@.turn(now).action);
}

/// A port that fails ends the run, and the error says what failed and whether
/// the flash is in doubt for it.
pub proof fn law_failed(run: &mut Runner, why: String, e: Error, over: bool)
    requires
        call_ensures(Runner::failed, (run, why), e),
        call_ensures(Runner::is_over, (&*final(run),), over),
    ensures
        over,
        final(run)@.session == old(run)@.session,
        !old(run)@.session.flash_is_indeterminate() ==> e@ == ErrorView::Io(why@),
        old(run)@.session.flash_is_indeterminate() ==> e@ == ErrorView::IndeterminateFlash(
            Box::new(ErrorView::Io(why@)),
        ),
{
}

/// How long the line idles: the margin, or not at all where it is negative.
pub proof fn law_settle_ms(d: &DrainConfig, ms: u64)
    requires
        call_ensures(DrainConfig::settle_ms, (d,), ms),
    ensures
        d.margin_ms >= 0 ==> ms == d.margin_ms,
        d.margin_ms < 0 ==> ms == 0,
{
}

// ------------------------------------------------------------------ handshake

/// When the handshake sends its sync byte, when it listens, and when it gives
/// up: until the wait is up, the first time at once, and from then on every
/// thirty milliseconds, but not into a frame that has moved within the last
/// four hundred.
pub proof fn law_poll(h: &Handshake, now: u64, a: HandshakeAction)
    requires
        call_ensures(Handshake::poll, (h, now), a),
        h@.noise <= usize::MAX,
    ensures
        ({
            let due = match h@.last_pulse {
                Some(t) => now >= t + 30_000_000,
                None => true,
            };
            let arriving = h@.rx.buf.len() > 0 && now < h@.last_byte + 400_000_000;
            &&& a is Expired <==> now >= h@.wait
            &&& now < h@.wait && due && !arriving ==> a == HandshakeAction::Pulse(0x7F)
            &&& now < h@.wait && (!due || arriving) ==> a is Listen
            &&& a matches HandshakeAction::Expired(e) ==> e@ == (ErrorView::NoBootloader {
                waited_ms: (h@.wait / 1_000_000 % 0x1_0000_0000_0000_0000) as u64,
                noise_bytes: h@.noise as usize,
            })
        }),
{
    assert(a@ == h@.action(now));
}

/// What a handshake that has just sent its byte remembers, and what it starts
/// with.
pub proof fn law_pulsed(
    opts: &SessionOptions,
    wait: u128,
    h: &mut Handshake,
    now: u64,
    n: usize,
    room: bool,
)
    requires
        call_ensures(Handshake::new, (opts, wait), *old(h)),
        call_ensures(Handshake::pulsed, (h, now), ()),
        call_ensures(Handshake::can_hear, (&*final(h), n), room),
    ensures
        old(h)@.last_pulse is None,
        final(h)@.last_pulse == Some(now),
        final(h)@.baud == opts.handshake_baud,
        final(h)@.wait == wait,
        final(h)@.noise == 0,
        final(h)@.rx.buf.len() == 0,
        room,
{
}

/// A status packet is recognised behind any noise without a preamble: the
/// noise is told of and counted, the packet is told of, and what it says is
/// what the handshake comes to.
pub proof fn law_heard(
    h: &mut Handshake,
    chip: &Stc89,
    bytes: &[u8],
    now: u64,
    got: Heard,
    noise: Seq<u8>,
    f: FrameView,
    tail: Seq<u8>,
)
    requires
        call_ensures(Handshake::heard, (h, chip, bytes, now), got),
        old(h)@.rx.discarded.len() == 0,
        old(h)@.rx.buf + bytes@ == noise + f.encoded() + tail,
        laws::receiver::no_preamble(noise),
        f.payload.len() <= 1018,
        f.dir == Dir::McuToHost,
        f.cmd == 0x00,
        f.payload.len() >= 21,
    ensures
        got.outcome matches Some(r) && (match r {
            Ok(info) => chip.status(f, old(h)@.baud) matches Ok(i) && info@ == i,
            Err(e) => chip.status(f, old(h)@.baud) matches Err(p) && e@ == ErrorView::Protocol(p),
        }),
        final(h)@.noise == old(h)@.noise + noise.len(),
        final(h)@.rx.buf == tail,
        final(h)@.last_byte == (if bytes@.len() > 0 {
            now
        } else {
            old(h)@.last_byte
        }),
        got.reports@.len() == (if noise.len() > 0 {
            2int
        } else {
            1
        }),
        got.reports@.last()@ == driver::ReportView::Reply(f),
        noise.len() > 0 ==> got.reports@[0]@ == driver::ReportView::Discarded(noise),
{
    laws::driver::law_the_status_is_found_behind_noise(chip, old(h)@.baud, noise, f, tail);
    assert(old(h)@.rx.discarded =~= seq![]);
    let views = text::views(got.reports@);
    let n = got.reports@.len() as int;
    assert(views.len() == n);
    assert(views[n - 1] == got.reports@[n - 1]@);
    assert(views[0] == got.reports@[0]@);
}

} // verus!
