//! Laws of the driver's clock: what waits for how long. Times are in
//! nanoseconds, timeouts in milliseconds.

use vstd::prelude::*;

use crate::driver;
use crate::driver::{
    ErrorView, HandshakeActionView, HandshakeView, ReportView, RunActionView, RunnerView,
};
use crate::frame;
use crate::frame::{FrameError, FrameView, ReceiverView};
use crate::laws;
use crate::protocol::ProtocolFamily;
use crate::text;

verus! {

/// What a wait that has run out comes to.
pub open spec fn timed_out(v: RunnerView) -> RunActionView {
    let step = v.session.steps[v.session.at as int];
    RunActionView::Done(
        Err(
            driver::wrapped(
                v.session,
                ErrorView::Timeout { label: step.label, ms: step.timeout_ms },
            ),
        ),
    )
}

/// A run that stands ready to send an answered step, and has just written and
/// flushed it.
pub open spec fn flushed(v: RunnerView, t0: u64, t1: u64) -> RunnerView {
    v.turn(t0).runner.turn(t1).runner
}

/// A reply has the step's own time to come, from the flush of its frame on:
/// its timeout in milliseconds, at a million nanoseconds each. Until that is
/// up, a turn without a whole frame asks for more to read; from that on it
/// gives up, and says how long the step's timeout was.
pub proof fn law_a_reply_has_the_time_of_its_step(
    v: RunnerView,
    t0: u64,
    t1: u64,
    first: Seq<u8>,
    flush: u64,
    more: Seq<u8>,
    now: u64,
)
    requires
        v.wf(),
        v.stage is Ready,
        v.session.retune is None,
        v.session.at < v.session.steps.len(),
        v.session.steps[v.session.at as int].answered(),
    ensures
        ({
            let step = v.session.steps[v.session.at as int];
            let ms = step.timeout_ms as int;
            let sent = flushed(v, t0, t1);
            let a = laws::driver::fed(sent, first).turn(flush);
            let b = laws::driver::fed(a.runner, more).turn(now);
            &&& v.turn(t0).action == RunActionView::Write(step.frame.encoded())
            &&& v.turn(t0).runner.turn(t1).action is Flush
            &&& sent.session.awaiting
            &&& driver::awaited(laws::driver::fed(sent, first).rx).0 is NeedMore ==> {
                &&& ms > 0 ==> a.action is Read
                &&& ms == 0 ==> a.action == timed_out(sent)
            }
            &&& driver::awaited(laws::driver::fed(sent, first).rx).0 is NeedMore && ms > 0
                && driver::awaited(laws::driver::fed(a.runner, more).rx).0 is NeedMore ==> {
                &&& now < flush + ms * 1_000_000 ==> b.action is Read && b.runner.stage
                    == a.runner.stage
                &&& now >= flush + ms * 1_000_000 ==> b.action == timed_out(sent)
            }
        }),
{
    let step = v.session.steps[v.session.at as int];
    let sent = flushed(v, t0, t1);
    assert(v.turn(t0).runner.session == v.session.acted());
    assert(flush + step.timeout_ms * 1_000_000 <= u128::MAX);
}

/// A frame that is awaited does not wait: a turn that has it takes it, whatever
/// the time is.
pub proof fn law_a_reply_that_is_there_is_taken(
    v: RunnerView,
    label: Seq<char>,
    ms: u64,
    deadline: u128,
    now: u64,
)
    requires
        driver::awaited(v.rx).0 is Frame,
    ensures
        ({
            let f = driver::awaited(v.rx).0->Frame_0;
            let t = v.listened(label, ms, deadline, now);
            let failed = t.action is Done && t.action->Done_0 is Err;
            &&& failed <==> v.session.judge(f) is Err
            &&& v.session.judge(f) is Ok ==> t.runner.session.at > v.session.at
        }),
{
}

/// What a run that stands ready does: behind the last step it has ended well;
/// before it, where no change of rate is due, it tells of the next step and
/// writes its frame.
pub proof fn law_what_a_ready_run_does(v: RunnerView, now: u64)
    requires
        v.wf(),
        v.stage is Ready,
        v.session.retune is None,
    ensures
        ({
            let t = v.turn(now);
            let step = v.session.steps[v.session.at as int];
            let bytes = step.frame.encoded();
            &&& v.session.at == v.session.steps.len() ==> t.action == RunActionView::Done(Ok(()))
                && t.reports.len() == 0
            &&& v.session.at < v.session.steps.len() ==> t.action == RunActionView::Write(bytes)
                && t.reports == seq![ReportView::Step { label: step.label, bytes }]
        }),
{
}

/// Whatever is written is flushed next. Behind that a step that is not
/// answered is done, and the run goes on as one that stands ready.
pub proof fn law_what_is_written_is_flushed(v: RunnerView, t0: u64, t1: u64, t2: u64)
    requires
        v.wf(),
        !(v.stage is Over),
        v.turn(t0).action is Write,
    ensures
        ({
            let written = v.turn(t0).runner;
            let flush = written.turn(t1);
            let ready = RunnerView { stage: driver::StageView::Ready, ..flush.runner };
            &&& flush.action is Flush
            &&& flush.reports.len() == 0
            &&& flush.runner.session == written.session
            &&& flush.runner.rx == written.rx
            &&& !written.session.awaiting ==> flush.runner.turn(t2).action == ready.turn(t2).action
                && flush.runner.turn(t2).reports == ready.turn(t2).reports
                && flush.runner.turn(t2).runner.session == ready.turn(t2).runner.session
        }),
{
    assert(v.turn(t0).runner.stage is Writing);
}

/// A reply that is taken leaves the run ready: it goes on as one that stands
/// there, behind telling of the reply.
pub proof fn law_a_taken_reply_leaves_the_run_ready(
    v: RunnerView,
    label: Seq<char>,
    ms: u64,
    deadline: u128,
    now: u64,
)
    requires
        driver::awaited(v.rx).0 is Frame,
        v.session.judge(driver::awaited(v.rx).0->Frame_0) is Ok,
    ensures
        ({
            let f = driver::awaited(v.rx).0->Frame_0;
            let ready = RunnerView {
                stage: driver::StageView::Ready,
                session: v.session.replied(f),
                rx: driver::awaited(v.rx).2,
                ..v
            };
            let t = v.listened(label, ms, deadline, now);
            let told = driver::awaited(v.rx).1.push(ReportView::Reply(f));
            &&& t.action == ready.turn(now).action
            &&& t.runner.session == ready.turn(now).runner.session
            &&& t.reports == told + ready.turn(now).reports
        }),
{
    let f = driver::awaited(v.rx).0->Frame_0;
    let told = driver::awaited(v.rx).1.push(ReportView::Reply(f));
    let ready = RunnerView {
        stage: driver::StageView::Ready,
        session: v.session.replied(f),
        rx: driver::awaited(v.rx).2,
        ..v
    };
    assert(v.listened(label, ms, deadline, now).reports =~= told + ready.turn(now).reports);
}

/// A reply that is refused ends the run, with the session's reason.
pub proof fn law_a_refused_reply_ends_the_run(
    v: RunnerView,
    label: Seq<char>,
    ms: u64,
    deadline: u128,
    now: u64,
)
    requires
        driver::awaited(v.rx).0 is Frame,
        v.session.judge(driver::awaited(v.rx).0->Frame_0) is Err,
    ensures
        ({
            let e = v.session.judge(driver::awaited(v.rx).0->Frame_0)->Err_0;
            let t = v.listened(label, ms, deadline, now);
            &&& t.runner.stage is Over
            &&& !v.session.flash_is_indeterminate() ==> t.action == RunActionView::Done(
                Err(ErrorView::Session(e)),
            )
            &&& v.session.flash_is_indeterminate() ==> t.action == RunActionView::Done(
                Err(ErrorView::IndeterminateFlash(Box::new(ErrorView::Session(e)))),
            )
        }),
{
}

/// Whatever is written is told first, under its step's name, as it is.
pub proof fn law_what_is_written_is_told(v: RunnerView, now: u64, bytes: Seq<u8>)
    requires
        v.wf(),
        v.turn(now).action == RunActionView::Write(bytes),
    ensures
        ({
            let reports = v.turn(now).reports;
            &&& reports.len() > 0
            &&& reports.last() matches ReportView::Step { label, bytes: told } && told == bytes
        }),
{
}

/// A reply that ends a wait is told.
pub proof fn law_what_is_received_is_told(
    v: RunnerView,
    label: Seq<char>,
    ms: u64,
    deadline: u128,
    now: u64,
)
    requires
        driver::awaited(v.rx).0 is Frame,
    ensures
        ({
            let f = driver::awaited(v.rx).0->Frame_0;
            let r = v.listened(label, ms, deadline, now).reports;
            let k = driver::awaited(v.rx).1.len() as int;
            &&& r.len() > k
            &&& r[k] == ReportView::Reply(f)
            &&& forall|i: int|
                0 <= i < k ==> #[trigger] r[i] == driver::awaited(v.rx).1[i]
        }),
{
}

/// How long the line idles before a switch: the margin, or not at all where it
/// is negative.
pub proof fn law_a_negative_margin_is_none(d: driver::DrainConfig)
    ensures
        d.margin_ms >= 0 ==> driver::settle_ms(d) == d.margin_ms,
        d.margin_ms < 0 ==> driver::settle_ms(d) == 0,
{
}

// ------------------------------------------------------------------ handshake

/// The sync byte `0x7F` goes out at once, and from then on every thirty
/// milliseconds.
pub proof fn law_a_pulse_every_thirty_milliseconds(h: HandshakeView, now: u64)
    requires
        now < h.wait,
        h.rx.buf.len() == 0,
    ensures
        h.last_pulse is None ==> h.action(now) == HandshakeActionView::Pulse(0x7F),
        h.last_pulse matches Some(t) ==> now >= t ==> {
            &&& now - t >= 30_000_000 ==> h.action(now) == HandshakeActionView::Pulse(0x7F)
            &&& now - t < 30_000_000 ==> h.action(now) is Listen
        },
{
}

/// Part of a frame holds the pulses for four hundred milliseconds from the
/// last byte on, and no longer.
pub proof fn law_part_of_a_frame_holds_the_pulses(h: HandshakeView, now: u64)
    requires
        now < h.wait,
        h.rx.buf.len() > 0,
        now >= h.last_byte,
        h.last_pulse matches Some(t) ==> now >= t + 30_000_000,
    ensures
        now - h.last_byte < 400_000_000 ==> h.action(now) is Listen,
        now - h.last_byte >= 400_000_000 ==> h.action(now) == HandshakeActionView::Pulse(0x7F),
{
}

/// The last byte is the last one that came, and a read that brings none does
/// not count.
pub proof fn law_only_a_byte_counts_as_a_byte<F: ProtocolFamily>(
    h: HandshakeView,
    family: &F,
    bytes: Seq<u8>,
    now: u64,
)
    ensures
        bytes.len() > 0 ==> h.after(family, bytes, now).last_byte == now,
        bytes.len() == 0 ==> h.after(family, bytes, now).last_byte == h.last_byte,
        h.after(family, bytes, now).last_pulse == h.last_pulse,
        h.after(family, bytes, now).wait == h.wait,
        h.after(family, bytes, now).baud == h.baud,
{
}

/// The count of noise never shrinks, and grows by what was told of.
pub proof fn law_noise_adds_up<F: ProtocolFamily>(
    h: HandshakeView,
    family: &F,
    bytes: Seq<u8>,
    now: u64,
)
    ensures
        h.after(family, bytes, now).noise == h.noise + laws::driver::told(
            driver::listened(family, h.baud, h.fed(bytes)).reports,
        ).len(),
{
    laws::driver::law_noise_is_what_was_thrown_away(family, h.baud, h.fed(bytes));
}

/// A handshake starts with nothing heard, nothing sent, and the rate and the
/// time that it was given.
pub proof fn law_how_a_handshake_starts(baud: u32, wait: u128)
    ensures
        ({
            let h = HandshakeView::start(baud, wait);
            &&& h.noise == 0 && h.rx.buf.len() == 0 && h.rx.discarded.len() == 0
            &&& h.last_pulse is None
            &&& h.baud == baud && h.wait == wait
        }),
{
}

/// A frame that is no status packet is noted, by its command, and passed over:
/// what stands behind it is heard as if it had come alone.
pub proof fn law_another_frame_is_passed_over<F: ProtocolFamily>(
    family: &F,
    baud: u32,
    noise: Seq<u8>,
    f: FrameView,
    tail: Seq<u8>,
)
    requires
        laws::receiver::no_preamble(noise),
        f.payload.len() <= 1018,
        !family.status_frame(f),
    ensures
        ({
            let none = Seq::<u8>::empty();
            let all = driver::listened(
                family,
                baud,
                ReceiverView { buf: noise + f.encoded() + tail, discarded: none },
            );
            let rest = driver::listened(family, baud, ReceiverView { buf: tail, discarded: none });
            let told = if noise.len() > 0 {
                seq![ReportView::Discarded(noise)]
            } else {
                seq![]
            };
            let note = "ignoring a frame with cmd 0x"@ + text::hex_lower(f.cmd as nat, 2)
                + " during sync"@;
            &&& all.outcome == rest.outcome
            &&& all.rx == rest.rx
            &&& all.noise == noise.len() + rest.noise
            &&& all.reports == told.push(ReportView::Note(note)) + rest.reports
        }),
{
    let none = Seq::<u8>::empty();
    let rx = ReceiverView { buf: noise + f.encoded() + tail, discarded: none };
    laws::receiver::law_a_frame_behind_noise_is_found(noise, f, tail);
    assert(rx.pulled().discarded =~= noise);
    assert(rx.pulled().buf =~= tail);
}

/// A frame that is damaged is noted, with its fault, and passed over byte by
/// byte: in the handshake and in a run.
pub proof fn law_a_damaged_frame_is_noted<F: ProtocolFamily>(
    family: &F,
    baud: u32,
    rx: ReceiverView,
    e: FrameError,
)
    requires
        frame::pull(rx.buf).out == Some(Err::<FrameView, FrameError>(e)),
    ensures
        ({
            let p = frame::pull(rx.buf);
            let noise = rx.discarded + rx.buf.take(p.dropped as int);
            let rest = ReceiverView {
                buf: rx.buf.skip((p.dropped + p.taken) as int),
                discarded: seq![],
            };
            let told = if noise.len() > 0 {
                seq![ReportView::Discarded(noise)]
            } else {
                seq![]
            };
            let fault = frame::frame_error_text(e);
            let heard = driver::listened(family, baud, rx);
            let waited = driver::awaited(rx);
            &&& heard.reports == told.push(
                ReportView::Note("discarding a malformed frame during sync: "@ + fault),
            ) + driver::listened(family, baud, rest).reports
            &&& heard.outcome == driver::listened(family, baud, rest).outcome
            &&& heard.noise == noise.len() + driver::listened(family, baud, rest).noise
            &&& waited.0 == driver::awaited(rest).0
            &&& waited.1 == told.push(
                ReportView::Note("re-hunting after a bad frame: "@ + fault),
            ) + driver::awaited(rest).1
            &&& waited.2 == driver::awaited(rest).2
        }),
{
}

/// A change of rate that was made is noted, with the rate and the time that
/// the line had idled, ahead of whatever is told next.
pub proof fn law_a_switch_is_noted(v: RunnerView, baud: u32, now: u64)
    requires
        v.wf(),
        v.stage == driver::StageView::Tuning(baud),
    ensures
        ({
            let settled = if v.drain.margin_ms > 0 {
                v.drain.margin_ms as int
            } else {
                0
            };
            let t = v.turn(now);
            &&& t.reports.len() > 0
            &&& t.reports[0] == ReportView::Note(
                "drained, settled "@ + text::decimal(settled as nat)
                    + " ms at the old baud, switched to "@ + text::decimal(baud as nat),
            )
            &&& t.runner.rx.buf.len() == 0 && t.runner.rx.discarded.len() == 0
        }),
{
}

} // verus!
