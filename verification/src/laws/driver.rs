//! Laws of the handshake and of the run of a session.

use vstd::prelude::*;

use crate::driver;
use crate::driver::{
    ErrorView, HandshakeActionView, HandshakeView, HeardView, ReportView, RunActionView, RunnerView,
    StageView, PARTIAL_STALL, PULSE_EVERY,
};
use crate::frame;
use crate::frame::{FrameView, ReceiverView};
use crate::laws;
use crate::laws::session::WireEvent;
use crate::protocol::ProtocolFamily;
use crate::session::StepView;

verus! {

// ------------------------------------------------------------------ handshake

/// Two pulses are never closer than the cadence.
pub proof fn law_pulses_keep_their_distance(h: HandshakeView, then: u64, now: u64)
    requires
        h.last_pulse == Some(then),
        h.action(now) is Pulse,
    ensures
        now >= then + PULSE_EVERY,
{
}

/// No pulse goes out into a frame that is arriving.
pub proof fn law_no_pulse_into_a_frame(h: HandshakeView, now: u64)
    requires
        h.mid_frame(now),
    ensures
        !(h.action(now) is Pulse),
{
}

/// Noise does not silence the pulses: with no part of a frame held, or with
/// one that has stalled, they go on at their cadence until the time is up.
pub proof fn law_pulses_go_on_through_noise(h: HandshakeView, now: u64)
    requires
        now < h.wait,
        h.rx.buf.len() == 0 || now >= h.last_byte + PARTIAL_STALL,
        h.last_pulse matches Some(t) ==> now >= t + PULSE_EVERY,
    ensures
        h.action(now) == HandshakeActionView::Pulse(driver::SYNC_BYTE),
{
}

/// The wait ends at its time, not before, and says how long it was.
pub proof fn law_the_wait_ends_at_its_time(h: HandshakeView, now: u64)
    requires
        h.wait / 1_000_000 <= u64::MAX,
        h.noise <= usize::MAX,
    ensures
        h.action(now) is Expired <==> now >= h.wait,
        now >= h.wait ==> h.action(now) == HandshakeActionView::Expired(
            ErrorView::NoBootloader {
                waited_ms: (h.wait / 1_000_000) as u64,
                noise_bytes: h.noise as usize,
            },
        ),
{
    let ms = h.wait / 1_000_000;
    assert(ms % 0x1_0000_0000_0000_0000 == ms) by (nonlinear_arith)
        requires
            ms <= u64::MAX,
    ;
}

/// The bytes that some reports tell of as thrown away, in order.
pub open spec fn told(reports: Seq<ReportView>) -> Seq<u8>
    decreases reports.len(),
{
    if reports.len() == 0 {
        seq![]
    } else {
        told(reports.drop_last()) + (match reports.last() {
            ReportView::Discarded(d) => d,
            _ => seq![],
        })
    }
}

pub(crate) proof fn lemma_told_splits(a: Seq<ReportView>, b: Seq<ReportView>)
    ensures
        told(a + b) == told(a) + told(b),
    decreases b.len(),
{
    if b.len() == 0 {
        assert(a + b =~= a);
        assert(told(a) + told(b) =~= told(a));
    } else {
        assert((a + b).drop_last() =~= a + b.drop_last());
        lemma_told_splits(a, b.drop_last());
        assert(told(a + b) =~= told(a) + told(b));
    }
}

pub(crate) proof fn lemma_told_one(d: Seq<u8>)
    ensures
        told(driver::discard_report(d)) == d,
{
    let r = driver::discard_report(d);
    if d.len() > 0 {
        assert(r.drop_last() =~= Seq::<ReportView>::empty());
        assert(told(r.drop_last()) == Seq::<u8>::empty());
    }
    assert(told(r) =~= d);
}

/// A report that is not of thrown-away bytes tells of none.
pub(crate) proof fn lemma_told_push(a: Seq<ReportView>, r: ReportView)
    requires
        !(r is Discarded),
    ensures
        told(a.push(r)) == told(a),
{
    assert(a.push(r).drop_last() =~= a);
    assert(told(a.push(r)) =~= told(a));
}

/// The count of noise is the number of bytes that were reported as thrown
/// away.
pub proof fn law_noise_is_what_was_thrown_away<F: ProtocolFamily>(
    family: &F,
    baud: u32,
    rx: ReceiverView,
)
    ensures
        driver::listened(family, baud, rx).noise == told(
            driver::listened(family, baud, rx).reports,
        ).len(),
    decreases rx.buf.len(),
{
    frame::lemma_pull_bounds(rx.buf);
    let after = rx.pulled();
    let clean = ReceiverView { discarded: seq![], ..after };
    let said = driver::discard_report(after.discarded);
    lemma_told_one(after.discarded);
    match frame::pull(rx.buf).out {
        None => {},
        Some(Ok(f)) => {
            if family.status_frame(f) {
                lemma_told_push(said, ReportView::Reply(f));
            } else {
                let note = ReportView::Note(driver::ignoring_note(f.cmd));
                let r = said.push(note);
                lemma_told_push(said, note);
                law_noise_is_what_was_thrown_away(family, baud, clean);
                lemma_told_splits(r, driver::listened(family, baud, clean).reports);
            }
        },
        Some(Err(e)) => {
            let note = ReportView::Note(driver::malformed_note(e));
            let r = said.push(note);
            lemma_told_push(said, note);
            law_noise_is_what_was_thrown_away(family, baud, clean);
            lemma_told_splits(r, driver::listened(family, baud, clean).reports);
        },
    }
}

/// The status packet is recognised behind any noise that holds no preamble,
/// and what it says is what the handshake comes to.
pub proof fn law_the_status_is_found_behind_noise<F: ProtocolFamily>(
    family: &F,
    baud: u32,
    noise: Seq<u8>,
    f: FrameView,
    tail: Seq<u8>,
)
    requires
        laws::receiver::no_preamble(noise),
        f.payload.len() + 6 <= frame::MAX_LEN_FIELD,
        family.status_frame(f),
    ensures
        driver::listened(
            family,
            baud,
            ReceiverView { buf: noise + f.encoded() + tail, discarded: seq![] },
        ) == (HeardView {
            reports: driver::discard_report(noise).push(ReportView::Reply(f)),
            outcome: Some(driver::status_outcome(family.status(f, baud))),
            rx: ReceiverView { buf: tail, discarded: seq![] },
            noise: noise.len(),
        }),
{
    let rx = ReceiverView { buf: noise + f.encoded() + tail, discarded: seq![] };
    laws::receiver::law_a_frame_behind_noise_is_found(noise, f, tail);
    assert(rx.pulled().discarded =~= noise);
    assert(rx.pulled().buf =~= tail);
}

/// Noise alone tells the handshake nothing.
pub proof fn law_noise_is_no_status<F: ProtocolFamily>(family: &F, baud: u32, noise: Seq<u8>)
    requires
        laws::receiver::no_preamble(noise),
    ensures
        driver::listened(
            family,
            baud,
            ReceiverView { buf: noise, discarded: seq![] },
        ).outcome is None,
{
    laws::receiver::law_noise_yields_nothing(noise);
}

/// A receiver that holds some bytes and has thrown away none.
pub open spec fn holding(buf: Seq<u8>) -> ReceiverView {
    ReceiverView { buf, discarded: seq![] }
}

/// A frame, or what fails to be one, that is not the status packet.
pub open spec fn goes_past<F: ProtocolFamily>(
    family: &F,
    out: Option<Result<FrameView, frame::FrameError>>,
) -> bool {
    match out {
        None => false,
        Some(Ok(f)) => !family.status_frame(f),
        Some(Err(_)) => true,
    }
}

/// What the first pull of a handshake comes to.
#[verifier::spinoff_prover]
#[verifier::rlimit(60)]
proof fn lemma_first_pull<F: ProtocolFamily>(family: &F, baud: u32, a: Seq<u8>)
    ensures
        ({
            let p = frame::pull(a);
            let noise = a.take(p.dropped as int);
            let next = holding(a.skip((p.dropped + p.taken) as int));
            let l = driver::listened(family, baud, holding(a));
            let rest = driver::listened(family, baud, next);
            &&& p.dropped + p.taken <= a.len()
            &&& goes_past(family, p.out) ==> {
                &&& p.dropped + p.taken > 0
                &&& l.outcome == rest.outcome
                &&& l.rx == rest.rx
                &&& l.noise == p.dropped + rest.noise
                &&& told(l.reports) == noise + told(rest.reports)
            }
            &&& !goes_past(family, p.out) ==> {
                &&& l.rx == next
                &&& l.noise == p.dropped
                &&& told(l.reports) == noise
                &&& l.outcome == (match p.out {
                    Some(Ok(f)) => Some(driver::status_outcome(family.status(f, baud))),
                    _ => None,
                })
            }
        }),
{
    frame::lemma_pull_bounds(a);
    let p = frame::pull(a);
    let noise = a.take(p.dropped as int);
    let next = holding(a.skip((p.dropped + p.taken) as int));
    let rest = driver::listened(family, baud, next);
    assert(holding(a).pulled().discarded =~= noise);
    let said = driver::discard_report(noise);
    lemma_told_one(noise);
    match p.out {
        None => {},
        Some(Ok(f)) => {
            let note = ReportView::Note(driver::ignoring_note(f.cmd));
            lemma_told_push(said, note);
            lemma_told_push(said, ReportView::Reply(f));
            lemma_told_splits(said.push(note), rest.reports);
        },
        Some(Err(e)) => {
            let note = ReportView::Note(driver::malformed_note(e));
            lemma_told_push(said, note);
            lemma_told_splits(said.push(note), rest.reports);
        },
    }
}

/// The first part ends in noise: the second goes on where it stopped.
#[verifier::spinoff_prover]
#[verifier::rlimit(60)]
proof fn lemma_handshake_cut_in_noise<F: ProtocolFamily>(
    family: &F,
    baud: u32,
    a: Seq<u8>,
    b: Seq<u8>,
)
    requires
        frame::pull(a).out is None,
    ensures
        ({
            let first = driver::listened(family, baud, holding(a));
            let second = driver::listened(family, baud, holding(first.rx.buf + b));
            let whole = driver::listened(family, baud, holding(a + b));
            &&& first.rx == holding(first.rx.buf)
            &&& whole.outcome == second.outcome
            &&& whole.rx == second.rx
            &&& told(whole.reports) == told(first.reports) + told(second.reports)
            &&& whole.noise == first.noise + second.noise
        }),
{
    let k = frame::pull(a).dropped as int;
    let next = a.skip(k);
    let q = frame::pull(next + b);
    let more = (q.dropped + q.taken) as int;
    lemma_first_pull(family, baud, a);
    lemma_first_pull(family, baud, next + b);
    lemma_first_pull(family, baud, a + b);
    laws::receiver::lemma_pull_resumes(a, b);
    assert(frame::pull(a).taken == 0);
    assert((a + b).skip(k + more) =~= (next + b).skip(more));
    let whole_noise = (a + b).take(k + q.dropped);
    assert(whole_noise =~= a.take(k) + (next + b).take(q.dropped as int));
    let rest = driver::listened(family, baud, holding((next + b).skip(more)));
    assert(whole_noise + told(rest.reports) =~= a.take(k) + ((next + b).take(q.dropped as int)
        + told(rest.reports)));
}

/// It does not matter how the stream is cut into reads: while the status
/// packet has not come, hearing a first part and a second comes to the same as
/// hearing both at once, down to the bytes that are told of as thrown away.
#[verifier::spinoff_prover]
#[verifier::rlimit(60)]
pub proof fn law_a_handshake_is_the_same_however_it_is_cut<F: ProtocolFamily>(
    family: &F,
    baud: u32,
    a: Seq<u8>,
    b: Seq<u8>,
)
    requires
        driver::listened(family, baud, holding(a)).outcome is None,
    ensures
        ({
            let first = driver::listened(family, baud, holding(a));
            let second = driver::listened(family, baud, holding(first.rx.buf + b));
            let whole = driver::listened(family, baud, holding(a + b));
            &&& first.rx == holding(first.rx.buf)
            &&& whole.outcome == second.outcome
            &&& whole.rx == second.rx
            &&& told(whole.reports) == told(first.reports) + told(second.reports)
            &&& whole.noise == first.noise + second.noise
        }),
    decreases a.len(),
{
    let p = frame::pull(a);
    lemma_first_pull(family, baud, a);
    if p.out is None {
        lemma_handshake_cut_in_noise(family, baud, a, b);
    } else {
        let k = p.dropped as int;
        let used = (p.dropped + p.taken) as int;
        let next = a.skip(used);
        lemma_first_pull(family, baud, a + b);
        laws::receiver::lemma_pull_is_stable(a, b);
        assert((a + b).skip(used) =~= next + b);
        assert((a + b).take(k) =~= a.take(k));
        law_a_handshake_is_the_same_however_it_is_cut(family, baud, next, b);
        let first = driver::listened(family, baud, holding(next));
        let second = driver::listened(family, baud, holding(first.rx.buf + b));
        assert(a.take(k) + (told(first.reports) + told(second.reports)) =~= (a.take(k) + told(
            first.reports,
        )) + told(second.reports));
    }
}

// ------------------------------------------------------------------------ run

/// What a turn does to the wire.
pub open spec fn wire_event(a: RunActionView) -> Seq<WireEvent> {
    match a {
        RunActionView::Write(bytes) => seq![WireEvent::Sent(bytes)],
        RunActionView::SetBaud(b) => seq![WireEvent::Retuned(b)],
        _ => seq![],
    }
}

/// The step before the current one asks for a change to this rate.
pub open spec fn asked_to_retune(v: RunnerView, baud: u32) -> bool {
    v.session.at > 0 && v.session.steps[v.session.at - 1].retune_to == Some(baud)
}

/// A change of rate that is outstanding is the one that the step before asks
/// for.
pub open spec fn consistent(v: RunnerView) -> bool {
    &&& v.wf()
    &&& v.session.retune matches Some(b) ==> asked_to_retune(v, b)
    &&& match v.stage {
        StageView::Draining(b) | StageView::Settling(b) => v.session.retune is None
            && asked_to_retune(v, b),
        StageView::Tuning(_) => v.session.retune is None,
        _ => true,
    }
}

/// The rate is still to be changed.
pub open spec fn retune_outstanding(v: RunnerView) -> bool {
    v.session.retune is Some || v.stage is Draining || v.stage is Settling
}

/// What the wire has seen of the plan when a run stands where it stands.
pub open spec fn seen(v: RunnerView) -> Seq<WireEvent> {
    let steps = v.session.steps;
    let at = v.session.at as int;
    if retune_outstanding(v) {
        laws::session::events(steps, 0, at - 1).push(
            WireEvent::Sent(steps[at - 1].frame.encoded()),
        )
    } else if v.session.awaiting {
        laws::session::events(steps, 0, at).push(WireEvent::Sent(steps[at].frame.encoded()))
    } else {
        laws::session::events(steps, 0, at)
    }
}

proof fn lemma_events_split(steps: Seq<StepView>, from: int, mid: int, to: int)
    requires
        from <= mid <= to,
    ensures
        laws::session::events(steps, from, to) == laws::session::events(steps, from, mid)
            + laws::session::events(steps, mid, to),
    decreases mid - from,
{
    if from == mid {
        assert(laws::session::events(steps, from, mid) =~= seq![]);
        assert(laws::session::events(steps, from, to) =~= laws::session::events(steps, from, mid)
            + laws::session::events(steps, mid, to));
    } else {
        lemma_events_split(steps, from + 1, mid, to);
        assert(laws::session::events(steps, from, to) =~= laws::session::events(steps, from, mid)
            + laws::session::events(steps, mid, to));
    }
}

/// The events of the steps up to one more.
proof fn lemma_events_next(steps: Seq<StepView>, at: int)
    requires
        0 <= at < steps.len(),
    ensures
        laws::session::events(steps, 0, at + 1) == laws::session::events(steps, 0, at)
            + laws::session::step_events(steps[at]),
{
    lemma_events_split(steps, 0, at, at + 1);
    assert(laws::session::events(steps, at + 1, at + 1) =~= seq![]);
    assert(laws::session::events(steps, at, at + 1) =~= laws::session::step_events(steps[at]));
}

/// Asking the session for more, from a run that has nothing left to follow up.
proof fn lemma_asked(v: RunnerView, reports: Seq<ReportView>)
    requires
        v.session.wf(),
        !v.session.awaiting,
        v.session.retune matches Some(b) ==> asked_to_retune(v, b),
    ensures
        ({
            let r = RunnerView { stage: StageView::Ready, ..v };
            let t = v.asked(reports);
            &&& consistent(t.runner)
            &&& seen(t.runner) == seen(r) + wire_event(t.action)
            &&& t.runner.session.steps == v.session.steps
            &&& !(t.action is Read)
            &&& !(t.action matches RunActionView::Done(Err(_)))
            &&& t.action is Done <==> t.runner.stage is Over
            &&& t.action is Done ==> seen(t.runner) == laws::session::events(
                v.session.steps,
                0,
                v.session.steps.len() as int,
            )
        }),
{
    let r = RunnerView { stage: StageView::Ready, ..v };
    let t = v.asked(reports);
    let steps = v.session.steps;
    let at = v.session.at as int;
    if v.session.retune is Some {
        lemma_events_next(steps, at - 1);
        let before = laws::session::events(steps, 0, at - 1);
        let sent = WireEvent::Sent(steps[at - 1].frame.encoded());
        assert(laws::session::events(steps, 0, at) =~= before.push(sent).push(
            WireEvent::Retuned(v.session.retune->Some_0),
        ));
        assert(seen(t.runner) =~= seen(r) + wire_event(t.action));
    } else if at < steps.len() {
        lemma_events_next(steps, at);
        let before = laws::session::events(steps, 0, at);
        let sent = WireEvent::Sent(steps[at].frame.encoded());
        assert(before.push(sent) =~= before + seq![sent]);
        assert(seen(t.runner) =~= seen(r) + wire_event(t.action));
    } else {
        assert(seen(t.runner) =~= seen(r) + wire_event(t.action));
    }
}

/// Each turn of a run does to the wire exactly what the plan says comes next:
/// the bytes that are written are the planned frames, in order, and the rate
/// changes in place where a step asks for it. A run that ends well has done
/// the whole plan.
pub proof fn law_a_turn_follows_the_plan(v: RunnerView, now: u64)
    requires
        consistent(v),
        !(v.stage is Over),
    ensures
        consistent(v.turn(now).runner),
        v.turn(now).runner.session.steps == v.session.steps,
        seen(v.turn(now).runner) == seen(v) + wire_event(v.turn(now).action),
        v.turn(now).action is Done <==> v.turn(now).runner.stage is Over,
        v.turn(now).action == RunActionView::Done(Ok(())) ==> seen(v.turn(now).runner)
            == laws::session::events(v.session.steps, 0, v.session.steps.len() as int),
{
    let t = v.turn(now);
    let steps = v.session.steps;
    let at = v.session.at as int;
    match v.stage {
        StageView::Ready => lemma_asked(v, seq![]),
        StageView::Tuning(b) => {
            let u = RunnerView { rx: driver::empty_receiver(), ..v };
            lemma_asked(
                u,
                seq![
                    ReportView::Note(driver::switched_note(driver::settle_ms(v.drain), b)),
                ],
            );
        },
        StageView::Draining(b) | StageView::Settling(b) => {
            lemma_events_next(steps, at - 1);
            let before = laws::session::events(steps, 0, at - 1);
            let sent = WireEvent::Sent(steps[at - 1].frame.encoded());
            assert(laws::session::events(steps, 0, at) =~= before.push(sent).push(
                WireEvent::Retuned(b),
            ));
            assert(seen(t.runner) =~= seen(v) + wire_event(t.action));
        },
        StageView::Writing { .. } => {
            assert(seen(t.runner) =~= seen(v) + wire_event(t.action));
        },
        StageView::Flushing { label, ms } => {
            if v.session.awaiting {
                lemma_listened(v, label, ms, (now + ms * 1_000_000) as u128, now);
            } else {
                lemma_asked(v, seq![]);
            }
        },
        StageView::Listening { label, ms, deadline } => {
            lemma_listened(v, label, ms, deadline, now);
        },
        StageView::Over => {},
    }
}

/// Waiting for a reply does nothing to the wire, and an accepted reply leads
/// on to the next step.
proof fn lemma_listened(v: RunnerView, label: Seq<char>, ms: u64, deadline: u128, now: u64)
    requires
        v.session.wf(),
        v.session.awaiting,
        v.stage is Flushing || v.stage is Listening,
    ensures
        ({
            let t = v.listened(label, ms, deadline, now);
            &&& consistent(t.runner)
            &&& t.runner.session.steps == v.session.steps
            &&& seen(t.runner) == seen(v) + wire_event(t.action)
            &&& t.action is Done <==> t.runner.stage is Over
            &&& t.action == RunActionView::Done(Ok(())) ==> seen(t.runner)
                == laws::session::events(v.session.steps, 0, v.session.steps.len() as int)
        }),
{
    let t = v.listened(label, ms, deadline, now);
    let (got, reports, rx) = driver::awaited(v.rx);
    let next = RunnerView { rx, ..v };
    let steps = v.session.steps;
    let at = v.session.at as int;
    if let driver::Awaited::Frame(f) = got {
        if v.session.judge(f) is Ok {
            let u = RunnerView { session: v.session.replied(f), ..next };
            let told = reports.push(ReportView::Reply(f));
            lemma_asked(u, told);
            lemma_events_next(steps, at);
            let r = RunnerView { stage: StageView::Ready, ..u };
            let sent = WireEvent::Sent(steps[at].frame.encoded());
            let before = laws::session::events(steps, 0, at);
            if steps[at].retune_to is None {
                assert(before.push(sent) =~= before + seq![sent]);
            }
            assert(seen(r) =~= seen(v));
        } else {
            assert(seen(t.runner) =~= seen(v) + wire_event(t.action));
        }
    } else {
        assert(seen(t.runner) =~= seen(v) + wire_event(t.action));
    }
}

/// What a run is given for one turn: the bytes that were read, and the time.
pub struct Input {
    pub bytes: Seq<u8>,
    pub now: u64,
}

/// The run with more bytes in.
pub open spec fn fed(v: RunnerView, bytes: Seq<u8>) -> RunnerView {
    RunnerView { rx: ReceiverView { buf: v.rx.buf + bytes, ..v.rx }, ..v }
}

/// One turn of a run.
#[verifier::opaque]
pub open spec fn taken(v: RunnerView, i: Input) -> driver::Turn {
    fed(v, i.bytes).turn(i.now)
}

/// Where a run stands after its first `n` turns, where the port does not fail.
pub open spec fn after_turns(v: RunnerView, inputs: Seq<Input>, n: nat) -> RunnerView
    decreases n,
{
    if n == 0 {
        v
    } else {
        let before = after_turns(v, inputs, (n - 1) as nat);
        taken(before, inputs[n - 1]).runner
    }
}

/// What the wire has seen in the first `n` turns.
pub open spec fn wire_after(v: RunnerView, inputs: Seq<Input>, n: nat) -> Seq<WireEvent>
    decreases n,
{
    if n == 0 {
        seq![]
    } else {
        let before = after_turns(v, inputs, (n - 1) as nat);
        wire_after(v, inputs, (n - 1) as nat) + wire_event(taken(before, inputs[n - 1]).action)
    }
}

/// The last of the first `n` turns.
pub open spec fn last_action(v: RunnerView, inputs: Seq<Input>, n: nat) -> RunActionView {
    let before = after_turns(v, inputs, (n - 1) as nat);
    taken(before, inputs[n - 1]).action
}

/// Whatever comes in, and whenever: the wire sees the planned frames and rate
/// changes in order, none twice and none that is not planned; and a run that
/// ends well has put all of them on it.
pub proof fn law_a_run_is_its_plan(
    steps: Seq<StepView>,
    drain: driver::DrainConfig,
    inputs: Seq<Input>,
    n: nat,
)
    requires
        n <= inputs.len(),
        forall|k: nat|
            k < n ==> !((#[trigger] after_turns(
                RunnerView::start(crate::session::SessionView::start(steps), drain),
                inputs,
                k,
            )).stage is Over),
    ensures
        ({
            let v = RunnerView::start(crate::session::SessionView::start(steps), drain);
            let plan = laws::session::events(steps, 0, steps.len() as int);
            &&& wire_after(v, inputs, n).is_prefix_of(plan)
            &&& n > 0 && last_action(v, inputs, n) == RunActionView::Done(Ok(())) ==> wire_after(
                v,
                inputs,
                n,
            ) == plan
        }),
{
    let v = RunnerView::start(crate::session::SessionView::start(steps), drain);
    lemma_turns(steps, drain, inputs, n);
    let w = after_turns(v, inputs, n);
    lemma_seen_is_a_prefix(w);
}

proof fn lemma_turns(
    steps: Seq<StepView>,
    drain: driver::DrainConfig,
    inputs: Seq<Input>,
    n: nat,
)
    requires
        n <= inputs.len(),
        forall|k: nat|
            k < n ==> !((#[trigger] after_turns(
                RunnerView::start(crate::session::SessionView::start(steps), drain),
                inputs,
                k,
            )).stage is Over),
    ensures
        ({
            let v = RunnerView::start(crate::session::SessionView::start(steps), drain);
            let w = after_turns(v, inputs, n);
            &&& consistent(w)
            &&& w.session.steps == steps
            &&& seen(w) == wire_after(v, inputs, n)
            &&& n > 0 && last_action(v, inputs, n) == RunActionView::Done(Ok(())) ==> seen(w)
                == laws::session::events(steps, 0, steps.len() as int)
        }),
    decreases n,
{
    let v = RunnerView::start(crate::session::SessionView::start(steps), drain);
    if n == 0 {
        assert(laws::session::events(steps, 0, 0) =~= seq![]);
    } else {
        let m = (n - 1) as nat;
        lemma_turns(steps, drain, inputs, m);
        let before = after_turns(v, inputs, m);
        let u = fed(before, inputs[n - 1].bytes);
        reveal(taken);
        assert(consistent(u));
        assert(seen(u) == seen(before));
        law_a_turn_follows_the_plan(u, inputs[n - 1].now);
    }
}

proof fn lemma_seen_is_a_prefix(v: RunnerView)
    requires
        consistent(v),
    ensures
        seen(v).is_prefix_of(
            laws::session::events(v.session.steps, 0, v.session.steps.len() as int),
        ),
{
    let steps = v.session.steps;
    let at = v.session.at as int;
    let n = steps.len() as int;
    lemma_events_split(steps, 0, at, n);
    if retune_outstanding(v) {
        lemma_events_next(steps, at - 1);
    } else if v.session.awaiting {
        lemma_events_split(steps, 0, at + 1, n);
        lemma_events_next(steps, at);
    }
}

/// A run reads only while a reply is outstanding, and only the reply to a
/// step that has one: behind the last frame, which has none, it is over.
pub proof fn law_only_replies_are_waited_for(v: RunnerView, now: u64)
    requires
        v.wf(),
        !(v.stage is Over),
        v.turn(now).action is Read,
    ensures
        v.turn(now).runner.session == v.session,
        v.session.awaiting,
        v.session.steps[v.session.at as int].answered(),
{
}

/// A run that fails says that the flash is in doubt exactly if it is.
pub proof fn law_a_failure_tells_of_the_flash(v: RunnerView, now: u64, e: ErrorView)
    requires
        v.wf(),
        !(v.stage is Over),
        v.turn(now).action == RunActionView::Done(Err(e)),
    ensures
        e is IndeterminateFlash <==> v.session.flash_is_indeterminate(),
        v.turn(now).runner.session == v.session,
{
}

/// So does a failure of the port.
pub proof fn law_a_port_failure_tells_of_the_flash(v: RunnerView, why: Seq<char>)
    ensures
        driver::wrapped(v.session, ErrorView::Io(why)) is IndeterminateFlash
            <==> v.session.flash_is_indeterminate(),
{
}

/// Nothing but a wrong reply ends the wait for one before its time.
pub proof fn law_a_reply_has_its_time(
    v: RunnerView,
    label: Seq<char>,
    ms: u64,
    deadline: u128,
    now: u64,
)
    requires
        v.wf(),
        v.stage == (StageView::Listening { label, ms, deadline }),
        now < deadline,
        driver::awaited(v.rx).0 is NeedMore,
    ensures
        v.turn(now).action is Read,
        v.turn(now).runner.stage == v.stage,
        v.turn(now).runner.session == v.session,
{
}

/// A frame that is damaged is passed over: the wait goes on as if the bytes
/// behind its first had come alone.
pub proof fn law_a_bad_frame_is_passed_over(
    v: RunnerView,
    label: Seq<char>,
    ms: u64,
    deadline: u128,
    now: u64,
)
    requires
        frame::pull(v.rx.buf).out matches Some(Err(_)),
    ensures
        ({
            let rest = RunnerView {
                rx: ReceiverView { discarded: seq![], ..v.rx.pulled() },
                ..v
            };
            let t = v.listened(label, ms, deadline, now);
            let u = rest.listened(label, ms, deadline, now);
            t.action == u.action && t.runner == u.runner
        }),
{
}

/// Stray bytes in front of a reply do not cost the session: the reply is
/// found and the run goes on.
pub proof fn law_a_reply_is_found_behind_noise(
    v: RunnerView,
    label: Seq<char>,
    ms: u64,
    deadline: u128,
    now: u64,
    noise: Seq<u8>,
    f: FrameView,
    tail: Seq<u8>,
)
    requires
        v.rx == (ReceiverView { buf: noise + f.encoded() + tail, discarded: seq![] }),
        laws::receiver::no_preamble(noise),
        f.payload.len() + 6 <= frame::MAX_LEN_FIELD,
        v.session.judge(f) is Ok,
    ensures
        v.listened(label, ms, deadline, now) == (RunnerView {
            session: v.session.replied(f),
            rx: ReceiverView { buf: tail, discarded: seq![] },
            ..v
        }).asked(driver::discard_report(noise).push(ReportView::Reply(f))),
{
    laws::receiver::law_a_frame_behind_noise_is_found(noise, f, tail);
    assert(v.rx.pulled().discarded =~= noise);
    assert(v.rx.pulled().buf =~= tail);
}

/// What a switch of rate takes: a drain if that is asked for, a pause if that
/// is asked for, and the switch.
pub open spec fn switch_actions(drain: driver::DrainConfig, baud: u32) -> Seq<RunActionView> {
    (if drain.mode == driver::DrainMode::TcDrain {
        seq![RunActionView::Drain]
    } else {
        seq![]
    }) + (if drain.margin_ms > 0 {
        seq![RunActionView::Settle(drain.margin_ms as u64)]
    } else {
        seq![]
    }) + seq![RunActionView::SetBaud(baud)]
}

/// A switch of rate comes with its precautions: it is drained first if and
/// only if that is asked for, it idles if and only if that is asked for, and
/// what was received at the old rate is dropped behind it.
pub proof fn law_a_switch_is_drained_and_settled(
    v: RunnerView,
    baud: u32,
    inputs: Seq<Input>,
    k: int,
)
    requires
        v.wf(),
        v.stage is Ready,
        v.session.retune == Some(baud),
        0 <= k < switch_actions(v.drain, baud).len(),
    ensures
        last_action(v, inputs, (k + 1) as nat) == switch_actions(v.drain, baud)[k],
        after_turns(v, inputs, switch_actions(v.drain, baud).len() + 1).rx.buf.len() == 0,
{
    reveal(taken);
    let s0 = fed(v, inputs[0].bytes);
    let one = after_turns(v, inputs, 1);
    assert(after_turns(v, inputs, 0) == v);
    assert(one == s0.turn(inputs[0].now).runner);
    let settles = v.drain.margin_ms > 0;
    if v.drain.mode == driver::DrainMode::TcDrain {
        assert(one.stage == StageView::Draining(baud) && one.drain == v.drain);
        lemma_settle_and_tune(v, baud, inputs, 1);
        if settles {
            assert(after_turns(v, inputs, 2).stage == StageView::Settling(baud));
        }
    } else if settles {
        assert(one.stage == StageView::Settling(baud) && one.drain == v.drain);
        lemma_tune(v, baud, inputs, 1);
    } else {
        assert(one.stage == StageView::Tuning(baud) && one.drain == v.drain);
        lemma_tuned(v, baud, inputs, 1);
    }
}

/// Behind the switch nothing of what came before is held.
proof fn lemma_tuned(v: RunnerView, baud: u32, inputs: Seq<Input>, n: nat)
    requires
        after_turns(v, inputs, n).stage == StageView::Tuning(baud),
    ensures
        after_turns(v, inputs, n + 1).rx.buf.len() == 0,
{
    reveal(taken);
    let c = after_turns(v, inputs, n);
    let u = RunnerView { rx: driver::empty_receiver(), ..fed(c, inputs[n as int].bytes) };
    let told_first = seq![
        ReportView::Note(driver::switched_note(driver::settle_ms(c.drain), baud)),
    ];
    assert(after_turns(v, inputs, n + 1) == u.asked(told_first).runner);
    assert(u.asked(told_first).runner.rx == u.rx);
}

/// Behind the pause comes the switch.
proof fn lemma_tune(v: RunnerView, baud: u32, inputs: Seq<Input>, n: nat)
    requires
        after_turns(v, inputs, n).stage == StageView::Settling(baud),
    ensures
        last_action(v, inputs, n + 1) == RunActionView::SetBaud(baud),
        after_turns(v, inputs, n + 1).stage == StageView::Tuning(baud),
        after_turns(v, inputs, n + 2).rx.buf.len() == 0,
{
    reveal(taken);
    lemma_tuned(v, baud, inputs, n + 1);
}

/// Behind the drain comes the pause, if there is one, and the switch.
proof fn lemma_settle_and_tune(v: RunnerView, baud: u32, inputs: Seq<Input>, n: nat)
    requires
        after_turns(v, inputs, n).stage == StageView::Draining(baud),
    ensures
        ({
            let margin = after_turns(v, inputs, n).drain.margin_ms;
            &&& margin > 0 ==> {
                &&& last_action(v, inputs, n + 1) == RunActionView::Settle(margin as u64)
                &&& last_action(v, inputs, n + 2) == RunActionView::SetBaud(baud)
                &&& after_turns(v, inputs, n + 1).stage == StageView::Settling(baud)
                &&& after_turns(v, inputs, n + 3).rx.buf.len() == 0
            }
            &&& margin <= 0 ==> {
                &&& last_action(v, inputs, n + 1) == RunActionView::SetBaud(baud)
                &&& after_turns(v, inputs, n + 2).rx.buf.len() == 0
            }
        }),
{
    reveal(taken);
    let c = after_turns(v, inputs, n);
    let t = fed(c, inputs[n as int].bytes).turn(inputs[n as int].now);
    assert(after_turns(v, inputs, n + 1) == t.runner);
    if c.drain.margin_ms > 0 {
        assert(t.runner.stage == StageView::Settling(baud));
        lemma_tune(v, baud, inputs, n + 1);
    } else {
        assert(t.runner.stage == StageView::Tuning(baud));
        lemma_tuned(v, baud, inputs, n + 1);
    }
}

} // verus!
