//! Laws of the session state machine.

use vstd::prelude::*;

use crate::frame::{Dir, FrameView};
use crate::session;
use crate::session::{ActionView, ExpectView, Phase, SessionErrorView, SessionView, StepView};

verus! {

/// What a session does to the wire.
pub enum WireEvent {
    Sent(Seq<u8>),
    Retuned(u32),
}

/// What step `i` does to the wire: its frame goes out, and behind its reply
/// the rate changes if the step says so.
pub open spec fn step_events(step: StepView) -> Seq<WireEvent> {
    match step.retune_to {
        Some(b) => seq![WireEvent::Sent(step.frame.encoded()), WireEvent::Retuned(b)],
        None => seq![WireEvent::Sent(step.frame.encoded())],
    }
}

/// What the steps from `from` to `to` do to the wire, in order.
pub open spec fn events(steps: Seq<StepView>, from: int, to: int) -> Seq<WireEvent>
    decreases to - from,
{
    if from >= to {
        seq![]
    } else {
        step_events(steps[from]) + events(steps, from + 1, to)
    }
}

/// How far a session is from its end.
pub open spec fn distance(s: SessionView) -> int {
    4 * (s.steps.len() - s.at) + (if s.retune is Some {
        2int
    } else {
        0
    }) - (if s.awaiting {
        1int
    } else {
        0
    })
}

/// Each action and each accepted reply keeps a session well-formed, and
/// brings it nearer to its end.
pub proof fn law_a_session_only_moves_on(s: SessionView, reply: FrameView)
    requires
        s.wf(),
    ensures
        s.acted().wf(),
        s.replied(reply).wf(),
        s.acted().steps == s.steps,
        s.replied(reply).steps == s.steps,
        0 <= distance(s),
        !(s.action() is AwaitingReply) && !(s.action() is Finished) ==> distance(s.acted())
            < distance(s),
        s.judge(reply) is Ok ==> distance(s.replied(reply)) < distance(s),
        s.at <= s.acted().at <= s.at + 1,
        s.at <= s.replied(reply).at <= s.at + 1,
{
}

/// What a session does to the wire from state `s` on, where the MCU answers
/// step `i` with `replies[i]`; it ends with the last step, or where a reply
/// is refused.
pub open spec fn driven(s: SessionView, replies: Seq<FrameView>) -> Seq<WireEvent>
    decreases distance(s),
    when s.wf()
{
    match s.action() {
        ActionView::Finished => seq![],
        ActionView::SetBaud(b) => seq![WireEvent::Retuned(b)] + driven(s.acted(), replies),
        ActionView::Send { bytes, .. } => seq![WireEvent::Sent(bytes)] + driven(
            s.acted(),
            replies,
        ),
        ActionView::AwaitingReply => {
            let reply = replies[s.at as int];
            if s.judge(reply) is Ok {
                driven(s.replied(reply), replies)
            } else {
                seq![]
            }
        },
    }
}

/// A session that has done its steps below `at` and stands ready for the next.
pub open spec fn ready(steps: Seq<StepView>, at: nat) -> SessionView {
    SessionView { steps, at, awaiting: false, retune: None }
}

/// The answers to the steps below `k` are the ones that were asked for.
pub open spec fn answered_up_to(steps: Seq<StepView>, replies: Seq<FrameView>, k: int) -> bool {
    forall|i: int|
        0 <= i < k && (#[trigger] steps[i]).answered() ==> steps[i].judge(replies[i]) is Ok
}

/// One step that is answered as it asks does exactly its own events, and
/// leaves the session ready for the next.
proof fn lemma_one_step(steps: Seq<StepView>, i: int, replies: Seq<FrameView>)
    requires
        0 <= i < steps.len(),
        steps[i].answered() ==> steps[i].judge(replies[i]) is Ok,
    ensures
        driven(ready(steps, i as nat), replies) == step_events(steps[i]) + driven(
            ready(steps, (i + 1) as nat),
            replies,
        ),
{
    let s0 = ready(steps, i as nat);
    let s1 = s0.acted();
    let next = ready(steps, (i + 1) as nat);
    let sent = seq![WireEvent::Sent(steps[i].frame.encoded())];
    let s2 = if steps[i].answered() {
        s1.replied(replies[i])
    } else {
        s1
    };
    assert(s2 == SessionView { retune: steps[i].retune_to, ..next });
    assert(driven(s0, replies) == sent + driven(s1, replies));
    assert(driven(s1, replies) == driven(s2, replies));
    match steps[i].retune_to {
        Some(b) => {
            assert(s2.acted() == next);
            assert(driven(s2, replies) == seq![WireEvent::Retuned(b)] + driven(next, replies));
            assert(driven(s0, replies) =~= step_events(steps[i]) + driven(next, replies));
        },
        None => {
            assert(s2 == next);
        },
    }
}

proof fn lemma_run_up_to(steps: Seq<StepView>, i: int, k: int, replies: Seq<FrameView>)
    requires
        0 <= i <= k <= steps.len(),
        answered_up_to(steps, replies, k),
    ensures
        driven(ready(steps, i as nat), replies) == events(steps, i, k) + driven(
            ready(steps, k as nat),
            replies,
        ),
    decreases k - i,
{
    if i < k {
        lemma_one_step(steps, i, replies);
        lemma_run_up_to(steps, i + 1, k, replies);
        assert(events(steps, i, k) + driven(ready(steps, k as nat), replies) =~= step_events(
            steps[i],
        ) + (events(steps, i + 1, k) + driven(ready(steps, k as nat), replies)));
    } else {
        assert(events(steps, i, k) + driven(ready(steps, k as nat), replies) =~= driven(
            ready(steps, k as nat),
            replies,
        ));
    }
}

/// A session whose every frame is answered as planned puts exactly the
/// planned frames on the wire, in order and once each, and changes the rate
/// exactly where a step says so.
pub proof fn law_a_session_is_its_plan(steps: Seq<StepView>, replies: Seq<FrameView>)
    requires
        answered_up_to(steps, replies, steps.len() as int),
    ensures
        driven(SessionView::start(steps), replies) == events(steps, 0, steps.len() as int),
{
    let n = steps.len() as int;
    lemma_run_up_to(steps, 0, n, replies);
    assert(driven(ready(steps, n as nat), replies) == Seq::<WireEvent>::empty());
    assert(driven(SessionView::start(steps), replies) =~= events(steps, 0, n));
}

/// Nothing goes out behind a refused reply: the wire has seen the plan up to
/// the frame that was answered wrongly, and no more.
pub proof fn law_nothing_follows_a_refused_reply(
    steps: Seq<StepView>,
    replies: Seq<FrameView>,
    k: int,
)
    requires
        0 <= k < steps.len(),
        answered_up_to(steps, replies, k),
        steps[k].answered(),
        steps[k].judge(replies[k]) is Err,
    ensures
        driven(SessionView::start(steps), replies) == events(steps, 0, k).push(
            WireEvent::Sent(steps[k].frame.encoded()),
        ),
{
    lemma_run_up_to(steps, 0, k, replies);
    let s = ready(steps, k as nat);
    assert(s.action() is Send);
    assert(driven(s.acted(), replies) == Seq::<WireEvent>::empty());
    assert(driven(s, replies) =~= seq![WireEvent::Sent(steps[k].frame.encoded())]);
    assert(driven(SessionView::start(steps), replies) =~= events(steps, 0, k).push(
        WireEvent::Sent(steps[k].frame.encoded()),
    ));
}

/// A refused reply leaves the session where it was.
pub proof fn law_a_refused_reply_changes_nothing(s: SessionView, reply: FrameView)
    requires
        s.judge(reply) is Err,
    ensures
        s.replied(reply) == s,
{
}

/// A finished session stays finished and asks for nothing more.
pub proof fn law_finished_is_final(s: SessionView)
    requires
        s.wf(),
        s.action() is Finished,
    ensures
        s.acted() == s,
        s.finished(),
{
}

/// The flash is in doubt from the first write block sent to the last one
/// acknowledged: sending a block opens the window, nothing but the answer to
/// the last block closes it, and once closed it stays closed.
pub proof fn law_the_flash_is_in_doubt_while_blocks_are_out(s: SessionView, reply: FrameView)
    requires
        s.wf(),
    ensures
        s.steps == s.acted().steps,
        !s.awaiting && s.retune is None && session::is_write(s.steps, s.at as int)
            && s.steps[s.at as int].answered() ==> s.acted().flash_is_indeterminate(),
        s.flash_is_indeterminate() && s.judge(reply) is Ok && !s.replied(
            reply,
        ).flash_is_indeterminate() ==> session::is_write(s.steps, s.at as int),
        s.writes_acknowledged() ==> s.acted().writes_acknowledged() && s.replied(
            reply,
        ).writes_acknowledged(),
{
    let t = s.acted();
    let u = s.replied(reply);
    if !s.awaiting && s.retune is None && session::is_write(s.steps, s.at as int)
        && s.steps[s.at as int].answered() {
        assert(session::is_write(t.steps, s.at as int));
    }
    if s.flash_is_indeterminate() && s.judge(reply) is Ok && !u.flash_is_indeterminate() {
        let i = choose|i: int| #[trigger]
            session::is_write(s.steps, i) && (i < s.at || (i == s.at && s.awaiting));
        assert(session::is_write(u.steps, i) && i < u.at);
        assert(u.write_sent());
        let j = choose|j: int| #[trigger] session::is_write(s.steps, j) && !(j < s.at);
        assert(session::is_write(u.steps, j));
        assert(j < u.at);
        assert(j == s.at);
    }
}

/// A session without write blocks never leaves the flash in doubt.
pub proof fn law_without_writes_the_flash_is_never_in_doubt(s: SessionView)
    requires
        !session::some_write(s.steps),
    ensures
        !s.flash_is_indeterminate(),
{
}

/// Which replies a step takes: only frames of the MCU; for an echo, the
/// request's own command and payload; for an answer, the command and the
/// payload that were asked for, or its length, or how it begins; for a block,
/// command 0x80 with the one byte of the block's sum. A step that is not
/// answered takes none.
pub proof fn law_which_replies_a_step_takes(step: StepView, reply: FrameView)
    ensures
        step.judge(reply) is Ok ==> reply.dir == Dir::McuToHost,
        step.expect is Nothing ==> step.judge(reply) is Err,
        step.expect is Echo ==> (step.judge(reply) is Ok <==> reply.dir == Dir::McuToHost
            && step.frame.dir == Dir::HostToMcu && reply.cmd == step.frame.cmd && reply.payload
            == step.frame.payload),
        step.expect matches ExpectView::Ack { cmd, payload } ==> (step.judge(reply) is Ok
            <==> reply.dir == Dir::McuToHost && reply.cmd == cmd && reply.payload == payload),
        step.expect matches ExpectView::AckLen { cmd, payload_len } ==> (step.judge(reply) is Ok
            <==> reply.dir == Dir::McuToHost && reply.cmd == cmd && reply.payload.len()
            == payload_len),
        step.expect matches ExpectView::AckPrefix { cmd, payload_len, prefix } ==> (step.judge(
            reply,
        ) is Ok <==> reply.dir == Dir::McuToHost && reply.cmd == cmd && reply.payload.len()
            == payload_len && prefix.len() <= payload_len && forall|i: int|
            0 <= i < prefix.len() ==> reply.payload[i] == #[trigger] prefix[i]),
        step.expect matches ExpectView::BlockAck { sum } ==> (step.judge(reply) is Ok
            <==> reply.dir == Dir::McuToHost && reply.cmd == 0x80 && reply.payload == seq![sum]),
{
    match step.expect {
        ExpectView::AckPrefix { cmd, payload_len, prefix } => {
            if prefix.len() <= reply.payload.len() {
                let front = reply.payload.subrange(0, prefix.len() as int);
                if forall|i: int|
                    0 <= i < prefix.len() ==> reply.payload[i] == #[trigger] prefix[i] {
                    assert(front =~= prefix);
                }
                if prefix.is_prefix_of(reply.payload) {
                    assert forall|i: int| 0 <= i < prefix.len() implies reply.payload[i]
                        == #[trigger] prefix[i] by {
                        assert(front[i] == prefix[i]);
                    }
                }
            }
        },
        ExpectView::BlockAck { sum } => {
            if reply.payload.len() == 1 {
                assert(reply.payload =~= seq![reply.payload[0]]);
            }
        },
        _ => {},
    }
}

/// Why a reply is refused: each error holds what was asked for and what came
/// instead, and the two differ. What is looked at first is the direction, then
/// the command, then the length, and then what the reply carries.
pub proof fn law_why_a_reply_is_refused(step: StepView, reply: FrameView)
    requires
        step.judge(reply) is Err,
        reply.payload.len() <= usize::MAX,
    ensures
        !(step.judge(reply)->Err_0 is WrongDirection) ==> reply.dir == Dir::McuToHost,
        match step.judge(reply)->Err_0 {
            SessionErrorView::NotAwaiting => step.expect is Nothing,
            SessionErrorView::WrongDirection { step: label, got } => label == step.label && got
                == reply.dir && got == Dir::HostToMcu,
            SessionErrorView::NotAnEcho { step: label, got } => label == step.label && got
                == reply && step.expect is Echo,
            SessionErrorView::WrongCommand { step: label, want, got } => label == step.label && got
                == reply.cmd && want != got && match step.expect {
                ExpectView::Ack { cmd, .. } => want == cmd,
                ExpectView::AckLen { cmd, .. } => want == cmd,
                ExpectView::AckPrefix { cmd, .. } => want == cmd,
                ExpectView::BlockAck { .. } => want == 0x80,
                _ => false,
            },
            SessionErrorView::WrongPayloadLen { step: label, want, got } => label == step.label
                && got == reply.payload.len() && want != got && match step.expect {
                ExpectView::AckLen { cmd, payload_len } => reply.cmd == cmd && want == payload_len,
                ExpectView::AckPrefix { cmd, payload_len, .. } => reply.cmd == cmd && want
                    == payload_len,
                ExpectView::BlockAck { .. } => reply.cmd == 0x80 && want == 1,
                _ => false,
            },
            SessionErrorView::WrongPayload { step: label, want, got } => label == step.label && got
                == reply.payload && want != got && match step.expect {
                ExpectView::Ack { cmd, payload } => reply.cmd == cmd && want == payload,
                ExpectView::AckPrefix { cmd, payload_len, prefix } => reply.cmd == cmd && got.len()
                    == payload_len && want == prefix,
                _ => false,
            },
            SessionErrorView::BlockAckMismatch { addr, want, got } => reply.cmd == 0x80
                && reply.payload == seq![got] && want != got && step.expect == (
            ExpectView::BlockAck { sum: want }) && (step.write_addr is Some ==> addr
                == step.write_addr->Some_0) && (step.write_addr is None ==> addr == 0),
        },
{
    match step.judge(reply)->Err_0 {
        SessionErrorView::BlockAckMismatch { addr, want, got } => {
            assert(reply.payload =~= seq![got]);
        },
        SessionErrorView::WrongPayload { step: label, want, got } => {
            if want == got {
                assert(got.subrange(0, got.len() as int) =~= want);
            }
        },
        _ => {},
    }
}

/// What a session does next: it waits where it awaits a reply; else a change
/// of rate that is due comes first; else the next step goes out, with its
/// frame, its name and its time; and behind the last it is finished. Nothing
/// is sent twice: the step that went out is either awaited or done.
pub proof fn law_what_a_session_does_next(s: SessionView)
    requires
        s.wf(),
        s.steps.len() <= usize::MAX,
    ensures
        s.awaiting <==> s.action() is AwaitingReply,
        !s.awaiting && s.retune is Some <==> s.action() is SetBaud,
        s.action() matches ActionView::SetBaud(b) ==> Some(b) == s.retune && s.acted().retune
            is None && s.acted().at == s.at && !s.acted().awaiting,
        s.action() is Finished <==> !s.awaiting && s.retune is None && s.at == s.steps.len(),
        s.action() matches ActionView::Send {
            index,
            label,
            phase,
            bytes,
            expect_reply,
            timeout_ms,
        } ==> {
            let step = s.steps[s.at as int];
            &&& index == s.at
            &&& s.at < s.steps.len()
            &&& label == step.label
            &&& phase == step.phase
            &&& bytes == step.frame.encoded()
            &&& expect_reply <==> step.expect != ExpectView::Nothing
            &&& timeout_ms == step.timeout_ms
            &&& s.acted().awaiting == expect_reply
            &&& s.acted().at == (if expect_reply {
                s.at
            } else {
                s.at + 1
            })
            &&& s.acted().retune == (if expect_reply {
                None
            } else {
                step.retune_to
            })
        },
{
}

/// A reply that is taken ends the wait for its step, and has the rate changed
/// where the step says so. Where none is awaited, none is taken.
pub proof fn law_what_a_reply_does(s: SessionView, reply: FrameView)
    requires
        s.wf(),
    ensures
        s.judge(reply) is Ok ==> {
            &&& s.awaiting
            &&& s.steps[s.at as int].judge(reply) is Ok
            &&& s.replied(reply).at == s.at + 1
            &&& !s.replied(reply).awaiting
            &&& s.replied(reply).retune == s.steps[s.at as int].retune_to
        },
        s.awaiting ==> s.judge(reply) == s.steps[s.at as int].judge(reply),
        !s.awaiting ==> s.judge(reply) == Err::<(), SessionErrorView>(
            SessionErrorView::NotAwaiting,
        ),
{
}

/// When the flash is in doubt: a write step has gone out, and there is one
/// that has not been acknowledged.
pub proof fn law_when_the_flash_is_in_doubt(s: SessionView)
    requires
        s.wf(),
    ensures
        s.flash_is_indeterminate() <==> {
            &&& exists|i: int|
                0 <= i < s.steps.len() && (#[trigger] s.steps[i]).phase == Phase::Write && (i < s.at
                    || (i == s.at && s.awaiting))
            &&& exists|j: int|
                s.at <= j < s.steps.len() && (#[trigger] s.steps[j]).phase == Phase::Write
        },
        s.finished() <==> s.at == s.steps.len(),
{
    if s.flash_is_indeterminate() {
        let i = choose|i: int| #[trigger]
            session::is_write(s.steps, i) && (i < s.at || (i == s.at && s.awaiting));
        assert(s.steps[i].phase == Phase::Write);
        let j = choose|j: int| #[trigger] session::is_write(s.steps, j) && !(j < s.at);
        assert(s.steps[j].phase == Phase::Write);
    }
    if exists|i: int|
        0 <= i < s.steps.len() && (#[trigger] s.steps[i]).phase == Phase::Write && (i < s.at || (i
            == s.at && s.awaiting)) {
        let i = choose|i: int|
            0 <= i < s.steps.len() && (#[trigger] s.steps[i]).phase == Phase::Write && (i < s.at
                || (i == s.at && s.awaiting));
        assert(session::is_write(s.steps, i));
        if exists|j: int|
            s.at <= j < s.steps.len() && (#[trigger] s.steps[j]).phase == Phase::Write {
            let j = choose|j: int|
                s.at <= j < s.steps.len() && (#[trigger] s.steps[j]).phase == Phase::Write;
            assert(session::is_write(s.steps, j));
        }
    }
}

} // verus!
