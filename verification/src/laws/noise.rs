//! Laws of the wait for a reply: noise does not matter.

use vstd::prelude::*;

use crate::driver;
use crate::driver::{Awaited, ReportView, RunnerView, StageView};
use crate::frame;
use crate::frame::{ReceiverView, Verdict};
use crate::laws;
use crate::laws::driver::Input;

verus! {

// ------------------------------------------------------------------- one wait

/// What the first pull of a wait comes to.
proof fn lemma_first_pull(rx: ReceiverView)
    ensures
        ({
            let p = frame::pull(rx.buf);
            let thrown = rx.discarded + rx.buf.take(p.dropped as int);
            let next = rx.buf.skip((p.dropped + p.taken) as int);
            let rest = driver::awaited(laws::driver::holding(next));
            &&& p.dropped + p.taken <= rx.buf.len()
            &&& p.out is Some ==> p.dropped + p.taken > 0
            &&& driver::awaited(rx) == match p.out {
                None => (
                    Awaited::NeedMore,
                    seq![],
                    ReceiverView { buf: next, discarded: thrown },
                ),
                Some(Ok(f)) => (
                    Awaited::Frame(f),
                    driver::discard_report(thrown),
                    laws::driver::holding(next),
                ),
                Some(Err(e)) => (
                    rest.0,
                    driver::discard_report(thrown).push(
                        ReportView::Note(driver::rehunting_note(e)),
                    ) + rest.1,
                    rest.2,
                ),
            }
        }),
{
    frame::lemma_pull_bounds(rx.buf);
}

/// The first part ends in noise: the second goes on where it stopped.
#[verifier::spinoff_prover]
#[verifier::rlimit(60)]
proof fn lemma_reply_cut_in_noise(rx: ReceiverView, b: Seq<u8>)
    requires
        frame::pull(rx.buf).out is None,
    ensures
        ({
            let first = driver::awaited(rx);
            let second = driver::awaited(ReceiverView { buf: first.2.buf + b, ..first.2 });
            let whole = driver::awaited(ReceiverView { buf: rx.buf + b, ..rx });
            &&& whole.0 == second.0
            &&& whole.1 == first.1 + second.1
            &&& whole.2 == second.2
        }),
{
    let a = rx.buf;
    let k = frame::pull(a).dropped as int;
    let next = a.skip(k);
    let q = frame::pull(next + b);
    let more = (q.dropped + q.taken) as int;
    let all = ReceiverView { buf: a + b, ..rx };
    lemma_first_pull(rx);
    assert(frame::pull(a).taken == 0);
    let first = driver::awaited(rx);
    let rest = ReceiverView { buf: next + b, ..first.2 };
    lemma_first_pull(rest);
    lemma_first_pull(all);
    laws::receiver::lemma_pull_resumes(a, b);
    assert((a + b).skip(k + more) =~= (next + b).skip(more));
    assert(rx.discarded + (a + b).take(k + q.dropped) =~= (rx.discarded + a.take(k)) + (next
        + b).take(q.dropped as int));
    let second = driver::awaited(rest);
    assert(first.1 + second.1 =~= second.1);
}

/// A reply is the same however the reads cut it: what is missing after a
/// first part is found when the second has come, and what is told over both
/// is what would have been told over the whole.
#[verifier::spinoff_prover]
#[verifier::rlimit(60)]
pub proof fn law_a_reply_is_the_same_however_it_is_cut(rx: ReceiverView, b: Seq<u8>)
    requires
        driver::awaited(rx).0 is NeedMore,
    ensures
        ({
            let first = driver::awaited(rx);
            let second = driver::awaited(ReceiverView { buf: first.2.buf + b, ..first.2 });
            let whole = driver::awaited(ReceiverView { buf: rx.buf + b, ..rx });
            &&& whole.0 == second.0
            &&& whole.1 == first.1 + second.1
            &&& whole.2 == second.2
        }),
    decreases rx.buf.len(),
{
    let a = rx.buf;
    let p = frame::pull(a);
    if let Some(Err(e)) = p.out {
        let used = (p.dropped + p.taken) as int;
        let clean = laws::driver::holding(a.skip(used));
        lemma_first_pull(rx);
        lemma_first_pull(ReceiverView { buf: a + b, ..rx });
        laws::receiver::lemma_pull_is_stable(a, b);
        assert((a + b).skip(used) =~= clean.buf + b);
        assert((a + b).take(p.dropped as int) =~= a.take(p.dropped as int));
        law_a_reply_is_the_same_however_it_is_cut(clean, b);
        let head = driver::discard_report(rx.discarded + a.take(p.dropped as int)).push(
            ReportView::Note(driver::rehunting_note(e)),
        );
        let first = driver::awaited(clean);
        let second = driver::awaited(ReceiverView { buf: first.2.buf + b, ..first.2 });
        assert(head + (first.1 + second.1) =~= (head + first.1) + second.1);
    } else {
        lemma_first_pull(rx);
        lemma_reply_cut_in_noise(rx, b);
    }
}

/// What a wait throws away, told of or still to be told.
pub open spec fn thrown(rx: ReceiverView) -> Seq<u8> {
    laws::driver::told(driver::awaited(rx).1) + driver::awaited(rx).2.discarded
}

/// What was thrown away before a wait is only told of in it: the wait itself
/// goes the same way.
proof fn lemma_thrown_before(rx: ReceiverView)
    ensures
        ({
            let got = driver::awaited(rx);
            let alone = driver::awaited(laws::driver::holding(rx.buf));
            &&& got.0 == alone.0
            &&& got.2.buf == alone.2.buf
            &&& got.0 is Frame ==> got.2 == laws::driver::holding(got.2.buf)
            &&& thrown(rx) == rx.discarded + thrown(laws::driver::holding(rx.buf))
        }),
    decreases rx.buf.len(),
{
    let p = frame::pull(rx.buf);
    let noise = rx.buf.take(p.dropped as int);
    let alone = laws::driver::holding(rx.buf);
    lemma_first_pull(rx);
    lemma_first_pull(alone);
    assert(alone.discarded + noise =~= noise);
    laws::driver::lemma_told_one(rx.discarded + noise);
    laws::driver::lemma_told_one(noise);
    match p.out {
        None => {
            assert(laws::driver::told(Seq::<ReportView>::empty()) =~= seq![]);
            assert(thrown(rx) =~= rx.discarded + thrown(alone));
        },
        Some(Ok(_)) => {
            assert(thrown(rx) =~= rx.discarded + thrown(alone));
        },
        Some(Err(e)) => {
            let next = laws::driver::holding(rx.buf.skip((p.dropped + p.taken) as int));
            let rest = driver::awaited(next);
            let note = ReportView::Note(driver::rehunting_note(e));
            let long = driver::discard_report(rx.discarded + noise);
            let short = driver::discard_report(noise);
            laws::driver::lemma_told_push(long, note);
            laws::driver::lemma_told_push(short, note);
            laws::driver::lemma_told_splits(long.push(note), rest.1);
            laws::driver::lemma_told_splits(short.push(note), rest.1);
            lemma_thrown_before(next);
            assert(thrown(rx) =~= rx.discarded + thrown(alone));
        },
    }
}

/// Every byte of a wait is accounted for, in order: told of as thrown away or
/// still to be told of, part of the reply, or held.
pub proof fn law_a_wait_loses_no_byte(rx: ReceiverView)
    ensures
        rx.discarded + rx.buf == thrown(rx) + (match driver::awaited(rx).0 {
            Awaited::Frame(f) => f.encoded(),
            Awaited::NeedMore => seq![],
        }) + driver::awaited(rx).2.buf,
    decreases rx.buf.len(),
{
    let p = frame::pull(rx.buf);
    let noise = rx.buf.take(p.dropped as int);
    let next = laws::driver::holding(rx.buf.skip((p.dropped + p.taken) as int));
    lemma_first_pull(rx);
    laws::receiver::law_no_byte_is_lost(rx.buf);
    laws::driver::lemma_told_one(rx.discarded + noise);
    let got = driver::awaited(rx);
    match p.out {
        None => {
            assert(laws::driver::told(Seq::<ReportView>::empty()) =~= seq![]);
            assert(rx.discarded + rx.buf =~= thrown(rx) + Seq::<u8>::empty() + got.2.buf);
        },
        Some(Ok(f)) => {
            assert(rx.discarded + rx.buf =~= thrown(rx) + f.encoded() + got.2.buf);
        },
        Some(Err(e)) => {
            let note = ReportView::Note(driver::rehunting_note(e));
            let said = driver::discard_report(rx.discarded + noise);
            laws::driver::lemma_told_push(said, note);
            laws::driver::lemma_told_splits(said.push(note), driver::awaited(next).1);
            law_a_wait_loses_no_byte(next);
            assert(thrown(rx) =~= (rx.discarded + noise) + thrown(next));
            let reply: Seq<u8> = match got.0 {
                Awaited::Frame(f) => f.encoded(),
                Awaited::NeedMore => seq![],
            };
            assert(next.discarded + next.buf =~= next.buf);
            assert(rx.discarded + rx.buf =~= (rx.discarded + noise) + next.buf);
            assert(rx.discarded + rx.buf =~= thrown(rx) + reply + got.2.buf);
        },
    }
}

/// A reply that is there is there with more behind it, too.
proof fn lemma_a_reply_stays(rx: ReceiverView, b: Seq<u8>)
    requires
        driver::awaited(rx).0 is Frame,
    ensures
        driver::awaited(ReceiverView { buf: rx.buf + b, ..rx }).0 is Frame,
    decreases rx.buf.len(),
{
    let a = rx.buf;
    let p = frame::pull(a);
    lemma_first_pull(rx);
    lemma_first_pull(ReceiverView { buf: a + b, ..rx });
    laws::receiver::lemma_pull_is_stable(a, b);
    if p.out matches Some(Err(_)) {
        let used = (p.dropped + p.taken) as int;
        let next = laws::driver::holding(a.skip(used));
        assert((a + b).skip(used) =~= next.buf + b);
        lemma_a_reply_stays(next, b);
    }
}

/// Bytes that a wait passes over without a trace: no reply is in them, and
/// none of them could begin one.
pub open spec fn passed_over(noise: Seq<u8>) -> bool {
    let got = driver::awaited(laws::driver::holding(noise));
    got.0 is NeedMore && got.2.buf.len() == 0
}

/// What is passed over is thrown away, all of it and in order.
proof fn lemma_all_thrown(noise: Seq<u8>)
    requires
        passed_over(noise),
    ensures
        thrown(laws::driver::holding(noise)) == noise,
{
    let rx = laws::driver::holding(noise);
    law_a_wait_loses_no_byte(rx);
    assert(rx.discarded + rx.buf =~= noise);
    assert(thrown(rx) + Seq::<u8>::empty() + driver::awaited(rx).2.buf =~= thrown(rx));
}

/// Noise is passed over if it holds no preamble and does not end on the first
/// byte of one; so is noise without that byte.
pub proof fn law_noise_is_passed_over(noise: Seq<u8>)
    requires
        laws::receiver::no_preamble(noise),
        noise.len() > 0 ==> noise.last() != 0x46,
    ensures
        passed_over(noise),
{
    laws::receiver::law_noise_yields_nothing(noise);
    lemma_first_pull(laws::driver::holding(noise));
}

/// A whole frame that is damaged is passed over, if no other byte of it could
/// begin a frame.
pub proof fn law_a_damaged_frame_is_passed_over(bad: Seq<u8>)
    requires
        frame::verdict(bad) == Verdict::Candidate(bad.len()),
        frame::decoded(bad) is Err,
        forall|i: int| 0 < i < bad.len() ==> bad[i] != 0x46,
    ensures
        passed_over(bad),
{
    let rest = bad.skip(1);
    assert(bad.skip(0) =~= bad);
    assert(bad.take(bad.len() as int) =~= bad);
    lemma_first_pull(laws::driver::holding(bad));
    assert(laws::receiver::no_preamble(rest)) by {
        assert forall|i: int, j: int|
            #![trigger rest[i], rest[j]]
            0 <= i && j == i + 1 && j < rest.len() implies !(rest[i] == 0x46 && rest[j]
            == 0xB9) by {
            assert(rest[i] == bad[i + 1]);
        }
    }
    law_noise_is_passed_over(rest);
}

/// Held bytes that what comes next shows to be noise: the wait comes to what it
/// would without them, and they are thrown away.
pub open spec fn shown_to_be_noise(held: Seq<u8>, b: Seq<u8>) -> bool {
    let one = laws::driver::holding(held + b);
    let other = laws::driver::holding(b);
    &&& driver::awaited(one).0 == driver::awaited(other).0
    &&& driver::awaited(one).2.buf == driver::awaited(other).2.buf
    &&& thrown(one) == held + thrown(other)
}

/// Where nothing is held there is nothing to show.
pub proof fn law_nothing_held_is_noise(b: Seq<u8>)
    ensures
        shown_to_be_noise(seq![], b),
{
    let none = Seq::<u8>::empty();
    assert(none + b =~= b);
    let t = thrown(laws::driver::holding(b));
    assert(none + t =~= t);
}

/// Held bytes without a preamble are shown to be noise by any byte behind them
/// that does not complete one: a held `0x46` by a reply, for one.
pub proof fn law_held_noise_is_shown_to_be_noise(held: Seq<u8>, b: Seq<u8>)
    requires
        laws::receiver::no_preamble(held),
        b.len() > 0,
        b[0] != 0xB9,
    ensures
        shown_to_be_noise(held, b),
{
    let one = laws::driver::holding(held + b);
    let other = laws::driver::holding(b);
    let k = held.len() as int;
    let p = frame::pull(b);
    laws::receiver::lemma_noise_is_dropped(held, b);
    frame::lemma_noise_len(b);
    let n = frame::noise_len(b) as int;
    assert((held + b).skip(k + n) =~= b.skip(n));
    assert(frame::pull(held + b) == frame::Pull { dropped: held.len() + p.dropped, ..p });
    lemma_first_pull(one);
    lemma_first_pull(other);
    let used = (p.dropped + p.taken) as int;
    let dropped = b.take(p.dropped as int);
    assert((held + b).skip(k + used) =~= b.skip(used));
    assert((held + b).take(k + p.dropped) =~= held + dropped);
    assert(one.discarded + (held + dropped) =~= held + dropped);
    assert(other.discarded + dropped =~= dropped);
    lemma_thrown_in_one_pull(one);
    lemma_thrown_in_one_pull(other);
    let rest = thrown(laws::driver::holding(b.skip(used)));
    assert((held + dropped) + rest =~= held + (dropped + rest));
}

/// Held bytes without a preamble go with the noise that comes behind them,
/// unless its first byte completes one.
pub proof fn law_held_noise_goes_with_the_noise(held: Seq<u8>, noise: Seq<u8>)
    requires
        laws::receiver::no_preamble(held),
        noise.len() > 0,
        noise[0] != 0xB9,
        passed_over(noise),
    ensures
        passed_over(held + noise),
{
    law_held_noise_is_shown_to_be_noise(held, noise);
}

/// What a wait throws away with its first pull, and then.
proof fn lemma_thrown_in_one_pull(rx: ReceiverView)
    ensures
        ({
            let p = frame::pull(rx.buf);
            let first = rx.discarded + rx.buf.take(p.dropped as int);
            let next = laws::driver::holding(rx.buf.skip((p.dropped + p.taken) as int));
            thrown(rx) == (if p.out matches Some(Err(_)) {
                first + thrown(next)
            } else {
                first
            })
        }),
{
    let p = frame::pull(rx.buf);
    let first = rx.discarded + rx.buf.take(p.dropped as int);
    let next = laws::driver::holding(rx.buf.skip((p.dropped + p.taken) as int));
    lemma_first_pull(rx);
    laws::driver::lemma_told_one(first);
    match p.out {
        None => {
            assert(laws::driver::told(Seq::<ReportView>::empty()) =~= seq![]);
            assert(thrown(rx) =~= first);
        },
        Some(Ok(_)) => {
            assert(thrown(rx) =~= first);
        },
        Some(Err(e)) => {
            let note = ReportView::Note(driver::rehunting_note(e));
            let said = driver::discard_report(first);
            laws::driver::lemma_told_push(said, note);
            laws::driver::lemma_told_splits(said.push(note), driver::awaited(next).1);
            assert(thrown(rx) =~= first + thrown(next));
        },
    }
}

// ------------------------------------------------------------------- two runs

/// Two runs stand alike: they differ at most in what they have thrown away and
/// not told of yet.
pub open spec fn alike(v: RunnerView, w: RunnerView) -> bool {
    &&& v.session == w.session
    &&& v.drain == w.drain
    &&& v.stage == w.stage
    &&& v.rx.buf == w.rx.buf
}

/// Asking the session for more neither receives nor throws away.
proof fn lemma_asking(v: RunnerView, reports: Seq<ReportView>)
    ensures
        v.asked(reports).runner.rx == v.rx,
        v.asked(reports).runner.session.at >= v.session.at,
        laws::driver::told(v.asked(reports).reports) == laws::driver::told(reports),
{
    if let crate::session::ActionView::Send { label, bytes, .. } = v.session.action() {
        laws::driver::lemma_told_push(reports, ReportView::Step { label, bytes });
    }
}

/// A turn of a wait does what the wait comes to.
proof fn lemma_waiting_turn(at: RunnerView, i: Input)
    requires
        at.stage is Listening,
    ensures
        ({
            let v = laws::driver::fed(at, i.bytes);
            let now = i.now;
            let t = laws::driver::taken(at, i);
            let got = driver::awaited(v.rx);
            &&& t.runner.rx == got.2
            &&& laws::driver::told(t.reports) == laws::driver::told(got.1)
            &&& got.0 is NeedMore ==> {
                &&& t.reports == got.1
                &&& t.runner.session == v.session
                &&& t.runner.stage == v.stage || t.runner.stage is Over
                &&& now < v.stage->deadline ==> t.action is Read && t.runner.stage == v.stage
                    && t.runner.drain == v.drain
            }
            &&& got.0 is Frame ==> {
                ||| t.runner.session.at > v.session.at
                ||| t.runner.session == v.session && t.runner.stage is Over
            }
        }),
{
    reveal(laws::driver::taken);
    let v = laws::driver::fed(at, i.bytes);
    let (got, reports, rx) = driver::awaited(v.rx);
    if let Awaited::Frame(f) = got {
        let reply = reports.push(ReportView::Reply(f));
        laws::driver::lemma_told_push(reports, ReportView::Reply(f));
        lemma_asking(RunnerView { session: v.session.replied(f), rx, ..v }, reply);
    }
}

/// The wait of two runs that stand alike goes alike.
proof fn lemma_waits_go_alike(
    v: RunnerView,
    w: RunnerView,
    label: Seq<char>,
    ms: u64,
    deadline: u128,
    now: u64,
)
    requires
        v.session == w.session,
        v.drain == w.drain,
        driver::awaited(v.rx).0 == driver::awaited(w.rx).0,
        driver::awaited(v.rx).2.buf == driver::awaited(w.rx).2.buf,
        driver::awaited(v.rx).0 is Frame ==> driver::awaited(v.rx).2 == driver::awaited(w.rx).2,
    ensures
        ({
            let t = v.listened(label, ms, deadline, now);
            let u = w.listened(label, ms, deadline, now);
            &&& t.action == u.action
            &&& alike(t.runner, u.runner)
        }),
{
    let (got, reports, rx) = driver::awaited(v.rx);
    if let Awaited::Frame(f) = got {
        let more = driver::awaited(w.rx).1;
        let a = RunnerView { session: v.session.replied(f), rx, ..v };
        let b = RunnerView { session: v.session.replied(f), rx, ..w };
        lemma_asking_alike(
            a,
            b,
            reports.push(ReportView::Reply(f)),
            more.push(ReportView::Reply(f)),
        );
    }
}

/// Two runs that ask the same session are told the same to do.
proof fn lemma_asking_alike(
    a: RunnerView,
    b: RunnerView,
    one: Seq<ReportView>,
    other: Seq<ReportView>,
)
    requires
        a.session == b.session,
        a.drain == b.drain,
        a.rx.buf == b.rx.buf,
    ensures
        a.asked(one).action == b.asked(other).action,
        alike(a.asked(one).runner, b.asked(other).runner),
{
}

/// Runs that stand alike do the same and still stand alike.
proof fn lemma_turns_go_alike(one: RunnerView, other: RunnerView, i: Input)
    requires
        alike(one, other),
    ensures
        laws::driver::taken(one, i).action == laws::driver::taken(other, i).action,
        alike(laws::driver::taken(one, i).runner, laws::driver::taken(other, i).runner),
{
    reveal(laws::driver::taken);
    let v = laws::driver::fed(one, i.bytes);
    let w = laws::driver::fed(other, i.bytes);
    let now = i.now;
    lemma_thrown_before(v.rx);
    lemma_thrown_before(w.rx);
    match v.stage {
        StageView::Flushing { label, ms } => {
            if v.session.awaiting {
                lemma_waits_go_alike(v, w, label, ms, (now + ms * 1_000_000) as u128, now);
            } else {
                lemma_asking_alike(v, w, seq![], seq![]);
            }
        },
        StageView::Listening { label, ms, deadline } => {
            lemma_waits_go_alike(v, w, label, ms, deadline, now);
        },
        StageView::Ready => lemma_asking_alike(v, w, seq![], seq![]),
        StageView::Tuning(b) => {
            let note = seq![
                ReportView::Note(driver::switched_note(driver::settle_ms(v.drain), b)),
            ];
            lemma_asking_alike(
                RunnerView { rx: driver::empty_receiver(), ..v },
                RunnerView { rx: driver::empty_receiver(), ..w },
                note,
                note,
            );
        },
        _ => {},
    }
}

/// The bytes that a run has told of as thrown away in its first `n` turns.
pub open spec fn told_after(v: RunnerView, inputs: Seq<Input>, n: nat) -> Seq<u8>
    decreases n,
{
    if n == 0 {
        seq![]
    } else {
        let before = laws::driver::after_turns(v, inputs, (n - 1) as nat);
        told_after(v, inputs, (n - 1) as nat) + laws::driver::told(
            laws::driver::taken(before, inputs[n - 1]).reports,
        )
    }
}

/// The bytes that a run has thrown away in its first `n` turns, told of or
/// still to be told.
pub open spec fn thrown_after(v: RunnerView, inputs: Seq<Input>, n: nat) -> Seq<u8> {
    told_after(v, inputs, n) + laws::driver::after_turns(v, inputs, n).rx.discarded
}

/// The bytes of some reads, one read behind the other.
pub open spec fn bytes_of(reads: Seq<Input>) -> Seq<u8>
    decreases reads.len(),
{
    if reads.len() == 0 {
        seq![]
    } else {
        bytes_of(reads.drop_last()) + reads.last().bytes
    }
}

/// Runs with the same first inputs go the same way.
proof fn lemma_same_start(v: RunnerView, one: Seq<Input>, other: Seq<Input>, n: nat)
    requires
        forall|k: int| 0 <= k < n ==> one[k] == other[k],
    ensures
        laws::driver::after_turns(v, one, n) == laws::driver::after_turns(v, other, n),
        laws::driver::wire_after(v, one, n) == laws::driver::wire_after(v, other, n),
        told_after(v, one, n) == told_after(v, other, n),
    decreases n,
{
    if n > 0 {
        lemma_same_start(v, one, other, (n - 1) as nat);
        assert(one[n - 1] == other[n - 1]);
    }
}

/// The reads of a wait that a run stands in: the reply is not there before the
/// last of them, and until that one there is time left.
pub open spec fn one_wait(at: RunnerView, reads: Seq<Input>) -> bool {
    &&& at.stage is Listening
    &&& reads.len() > 0
    &&& forall|i: int|
        0 <= i < reads.len() - 1 ==> (#[trigger] reads[i]).now < at.stage->deadline
    &&& driver::awaited(laws::driver::holding(at.rx.buf + bytes_of(reads.drop_last()))).0
        is NeedMore
}

/// The `k`-th read of a wait comes to what all the bytes of it up to that one
/// would have come to at once.
#[verifier::spinoff_prover]
#[verifier::rlimit(60)]
proof fn lemma_kth_read(v: RunnerView, inputs: Seq<Input>, j: nat, reads: Seq<Input>, k: nat)
    requires
        0 < k <= reads.len(),
        forall|i: int| 0 <= i < k ==> inputs[j + i] == #[trigger] reads[i],
        one_wait(laws::driver::after_turns(v, inputs, j), reads.take(k as int)),
    ensures
        ({
            let at = laws::driver::after_turns(v, inputs, j);
            let w = laws::driver::after_turns(v, inputs, (j + k - 1) as nat);
            let got = driver::awaited(laws::driver::fed(w, reads[k - 1].bytes).rx);
            let whole = driver::awaited(
                ReceiverView { buf: at.rx.buf + bytes_of(reads.take(k as int)), ..at.rx },
            );
            &&& w.stage == at.stage
            &&& w.session == at.session
            &&& w.drain == at.drain
            &&& got.0 == whole.0
            &&& got.2 == whole.2
            &&& told_after(v, inputs, (j + k - 1) as nat) + laws::driver::told(got.1)
                == told_after(v, inputs, j) + laws::driver::told(whole.1)
            &&& laws::driver::wire_after(v, inputs, (j + k - 1) as nat)
                == laws::driver::wire_after(v, inputs, j)
        }),
    decreases k,
{
    let at = laws::driver::after_turns(v, inputs, j);
    let held = at.rx.buf;
    let x = reads[k - 1].bytes;
    let m = (k - 1) as nat;
    let before = bytes_of(reads.take(m as int));
    assert(reads.take(k as int).drop_last() =~= reads.take(m as int));
    assert(bytes_of(reads.take(k as int)) == before + x);
    assert(held + (before + x) =~= (held + before) + x);
    if m == 0 {
        assert(before =~= seq![]);
        assert(held + before =~= held);
    } else {
        let last = reads[m - 1];
        let earlier = bytes_of(reads.take(m - 1));
        assert(reads.take(m as int).drop_last() =~= reads.take(m - 1));
        assert(before == earlier + last.bytes);
        assert(held + before =~= (held + earlier) + last.bytes);
        if driver::awaited(laws::driver::holding(held + earlier)).0 is Frame {
            lemma_a_reply_stays(laws::driver::holding(held + earlier), last.bytes);
        }
        assert forall|i: int| 0 <= i < m - 1 implies (#[trigger] reads.take(m as int)[i]).now
            < at.stage->deadline by {
            assert(reads.take(k as int)[i] == reads[i]);
        }
        lemma_kth_read(v, inputs, j, reads, m);
        let u = laws::driver::after_turns(v, inputs, (j + m - 1) as nat);
        let first = ReceiverView { buf: held + before, ..at.rx };
        lemma_thrown_before(first);
        lemma_waiting_turn(u, last);
        assert(reads.take(k as int)[m - 1] == last);
        assert(inputs[j + m - 1] == last);
        let w = laws::driver::after_turns(v, inputs, j + m);
        assert(w == laws::driver::taken(u, last).runner);
        assert(laws::driver::wire_after(v, inputs, j + m) =~= laws::driver::wire_after(
            v,
            inputs,
            j,
        ));
        law_a_reply_is_the_same_however_it_is_cut(first, x);
        let got = driver::awaited(laws::driver::fed(w, x).rx);
        let whole = driver::awaited(ReceiverView { buf: (held + before) + x, ..at.rx });
        laws::driver::lemma_told_splits(driver::awaited(first).1, got.1);
        assert(told_after(v, inputs, j + m) == told_after(v, inputs, j) + laws::driver::told(
            driver::awaited(first).1,
        ));
        assert(told_after(v, inputs, j + m) + laws::driver::told(got.1) =~= told_after(
            v,
            inputs,
            j,
        ) + laws::driver::told(whole.1));
    }
}

/// What a wait comes to with noise in it, as against without: the same, with
/// the noise thrown away.
#[verifier::spinoff_prover]
#[verifier::rlimit(60)]
proof fn lemma_wait_behind_noise(d: Seq<u8>, held: Seq<u8>, noise: Seq<u8>, b: Seq<u8>)
    requires
        passed_over(held + noise),
        shown_to_be_noise(held, b),
    ensures
        ({
            let quiet = ReceiverView { buf: held + b, discarded: d };
            let noisy = ReceiverView { buf: held + (noise + b), discarded: d };
            let one = driver::awaited(quiet);
            let other = driver::awaited(noisy);
            let t = thrown(laws::driver::holding(b));
            &&& one.0 == other.0
            &&& one.2.buf == other.2.buf
            &&& one.0 is Frame ==> one.2 == other.2 && one.2.discarded.len() == 0
            &&& thrown(quiet) == d + held + t
            &&& thrown(noisy) == d + held + noise + t
        }),
{
    let t = thrown(laws::driver::holding(b));
    let quiet = ReceiverView { buf: held + b, discarded: d };
    lemma_thrown_before(quiet);
    assert(d + (held + t) =~= d + held + t);
    let full = ReceiverView { buf: held + noise, discarded: d };
    lemma_thrown_before(full);
    lemma_all_thrown(held + noise);
    law_a_reply_is_the_same_however_it_is_cut(full, b);
    let f = driver::awaited(full);
    assert(f.2.buf + b =~= b);
    let behind = ReceiverView { buf: b, discarded: f.2.discarded };
    let g = driver::awaited(behind);
    lemma_thrown_before(behind);
    assert((held + noise) + b =~= held + (noise + b));
    let noisy = ReceiverView { buf: held + (noise + b), discarded: d };
    laws::driver::lemma_told_splits(f.1, g.1);
    assert(thrown(noisy) =~= laws::driver::told(f.1) + thrown(behind));
    assert(laws::driver::told(f.1) + (f.2.discarded + t) =~= thrown(full) + t);
    assert(d + (held + noise) + t =~= d + held + noise + t);
}

/// One text is another with something put in behind a common beginning.
pub open spec fn with_inserted(
    long: Seq<u8>,
    short: Seq<u8>,
    start: Seq<u8>,
    more: Seq<u8>,
) -> bool {
    start.is_prefix_of(short) && long == start + more + short.skip(start.len() as int)
}

proof fn lemma_inserted(start: Seq<u8>, more: Seq<u8>, t: Seq<u8>)
    ensures
        with_inserted(start + more + t, start + t, start, more),
{
    assert((start + t).subrange(0, start.len() as int) =~= start);
    assert((start + t).skip(start.len() as int) =~= t);
}

proof fn lemma_inserted_grows(
    long: Seq<u8>,
    short: Seq<u8>,
    start: Seq<u8>,
    more: Seq<u8>,
    t: Seq<u8>,
)
    requires
        with_inserted(long, short, start, more),
    ensures
        with_inserted(long + t, short + t, start, more),
{
    let e = short.skip(start.len() as int);
    assert(short =~= start + e);
    assert(short + t =~= start + (e + t));
    assert(long + t =~= start + more + (e + t));
    lemma_inserted(start, more, e + t);
}

/// Where a quiet run after `n` turns and a noisy one after `m` stand to each
/// other, when the session stood at step `then` before the noise: they have
/// done the same; and once the wait that had the noise in it has its reply,
/// they stand equal, with the noise told of behind `start`. Until that, it is
/// thrown away.
pub open spec fn go_together(
    v: RunnerView,
    quiet: Seq<Input>,
    n: nat,
    noisy: Seq<Input>,
    m: nat,
    then: nat,
    start: Seq<u8>,
    noise: Seq<u8>,
) -> bool {
    let a = laws::driver::after_turns(v, quiet, n);
    let b = laws::driver::after_turns(v, noisy, m);
    &&& alike(a, b)
    &&& laws::driver::wire_after(v, noisy, m) == laws::driver::wire_after(v, quiet, n)
    &&& laws::driver::last_action(v, noisy, m) == laws::driver::last_action(v, quiet, n)
    &&& a.session.at > then ==> {
        &&& a == b
        &&& with_inserted(told_after(v, noisy, m), told_after(v, quiet, n), start, noise)
    }
    &&& a.session.at <= then ==> {
        &&& a.session.at == then
        &&& a.stage is Listening || a.stage is Over
        &&& with_inserted(thrown_after(v, noisy, m), thrown_after(v, quiet, n), start, noise)
    }
}

/// Two waits that come to the same go alike.
proof fn lemma_these_go_alike(one: RunnerView, other: RunnerView, i: Input, k: Input)
    requires
        one.stage is Listening,
        one.stage == other.stage,
        one.session == other.session,
        one.drain == other.drain,
        i.now == k.now,
        ({
            let v = laws::driver::fed(one, i.bytes);
            let w = laws::driver::fed(other, k.bytes);
            &&& driver::awaited(v.rx).0 == driver::awaited(w.rx).0
            &&& driver::awaited(v.rx).2.buf == driver::awaited(w.rx).2.buf
            &&& driver::awaited(v.rx).0 is Frame ==> driver::awaited(v.rx).2
                == driver::awaited(w.rx).2
        }),
    ensures
        laws::driver::taken(one, i).action == laws::driver::taken(other, k).action,
        alike(laws::driver::taken(one, i).runner, laws::driver::taken(other, k).runner),
{
    reveal(laws::driver::taken);
    if let StageView::Listening { label, ms, deadline } = one.stage {
        lemma_waits_go_alike(
            laws::driver::fed(one, i.bytes),
            laws::driver::fed(other, k.bytes),
            label,
            ms,
            deadline,
            i.now,
        );
    }
}

/// The two runs behind the reads of the wait that has the noise in it.
#[verifier::spinoff_prover]
#[verifier::rlimit(60)]
proof fn lemma_behind_the_noisy_wait(
    v: RunnerView,
    one: Seq<Input>,
    other: Seq<Input>,
    j: nat,
    quiet: Seq<Input>,
    noisy: Seq<Input>,
    noise: Seq<u8>,
)
    requires
        forall|i: int| 0 <= i < j ==> one[i] == other[i],
        forall|i: int| 0 <= i < quiet.len() ==> one[j + i] == #[trigger] quiet[i],
        forall|i: int| 0 <= i < noisy.len() ==> other[j + i] == #[trigger] noisy[i],
        one_wait(laws::driver::after_turns(v, one, j), quiet),
        one_wait(laws::driver::after_turns(v, one, j), noisy),
        quiet.last().now == noisy.last().now,
        bytes_of(noisy) == noise + bytes_of(quiet),
        passed_over(laws::driver::after_turns(v, one, j).rx.buf + noise),
        shown_to_be_noise(laws::driver::after_turns(v, one, j).rx.buf, bytes_of(quiet)),
    ensures
        go_together(
            v,
            one,
            j + quiet.len(),
            other,
            j + noisy.len(),
            laws::driver::after_turns(v, one, j).session.at,
            thrown_after(v, one, j) + laws::driver::after_turns(v, one, j).rx.buf,
            noise,
        ),
{
    let at = laws::driver::after_turns(v, one, j);
    let d = at.rx.discarded;
    let held = at.rx.buf;
    let b = bytes_of(quiet);
    let kq = quiet.len();
    let kn = noisy.len();
    lemma_same_start(v, one, other, j);
    assert(quiet.take(kq as int) =~= quiet);
    assert(noisy.take(kn as int) =~= noisy);
    lemma_kth_read(v, one, j, quiet, kq);
    lemma_kth_read(v, other, j, noisy, kn);
    lemma_wait_behind_noise(d, held, noise, b);
    let quiet_rx = ReceiverView { buf: held + b, discarded: d };
    let noisy_rx = ReceiverView { buf: held + (noise + b), discarded: d };
    assert(quiet_rx == ReceiverView { buf: held + b, ..at.rx });
    assert(noisy_rx == ReceiverView { buf: held + (noise + b), ..at.rx });
    let n1 = (j + kq - 1) as nat;
    let n2 = (j + kn - 1) as nat;
    let w1 = laws::driver::after_turns(v, one, n1);
    let w2 = laws::driver::after_turns(v, other, n2);
    let i1 = quiet[kq - 1];
    let i2 = noisy[kn - 1];
    assert(one[j + (kq - 1)] == i1);
    assert(other[j + (kn - 1)] == i2);
    lemma_waiting_turn(w1, i1);
    lemma_waiting_turn(w2, i2);
    lemma_these_go_alike(w1, w2, i1, i2);
    let t1 = laws::driver::taken(w1, i1);
    let t2 = laws::driver::taken(w2, i2);
    assert(laws::driver::after_turns(v, one, n1 + 1) == t1.runner);
    assert(laws::driver::after_turns(v, other, n2 + 1) == t2.runner);
    let start = thrown_after(v, one, j) + held;
    let t = thrown(laws::driver::holding(b));
    let told_then = told_after(v, one, j);
    let short = thrown_after(v, one, n1 + 1);
    let long = thrown_after(v, other, n2 + 1);
    assert(short =~= told_then + thrown(quiet_rx));
    assert(told_then + (d + held + t) =~= start + t);
    assert(long =~= told_then + thrown(noisy_rx));
    assert(told_then + (d + held + noise + t) =~= start + noise + t);
    lemma_inserted(start, noise, t);
    if t1.runner.session.at > at.session.at {
        assert(t1.runner.rx.discarded =~= seq![]);
        assert(short =~= told_after(v, one, n1 + 1));
        assert(long =~= told_after(v, other, n2 + 1));
    }
}

/// A session never goes back.
proof fn lemma_a_turn_never_goes_back(at: RunnerView, i: Input)
    ensures
        laws::driver::taken(at, i).runner.session.at >= at.session.at,
{
    reveal(laws::driver::taken);
    let v = laws::driver::fed(at, i.bytes);
    lemma_asking(v, seq![]);
    match v.stage {
        StageView::Tuning(b) => lemma_asking(
            RunnerView { rx: driver::empty_receiver(), ..v },
            seq![ReportView::Note(driver::switched_note(driver::settle_ms(v.drain), b))],
        ),
        StageView::Flushing { .. } | StageView::Listening { .. } => {
            let (got, reports, rx) = driver::awaited(v.rx);
            if let Awaited::Frame(f) = got {
                lemma_asking(
                    RunnerView { session: v.session.replied(f), rx, ..v },
                    reports.push(ReportView::Reply(f)),
                );
            }
        },
        _ => {},
    }
}

/// One more turn together.
#[verifier::spinoff_prover]
#[verifier::rlimit(60)]
proof fn lemma_one_turn_together(
    v: RunnerView,
    quiet: Seq<Input>,
    n: nat,
    noisy: Seq<Input>,
    m: nat,
    then: nat,
    start: Seq<u8>,
    noise: Seq<u8>,
)
    requires
        go_together(v, quiet, n, noisy, m, then, start, noise),
        noisy[m as int] == quiet[n as int],
        !(laws::driver::after_turns(v, quiet, n).stage is Over),
    ensures
        go_together(v, quiet, n + 1, noisy, m + 1, then, start, noise),
{
    let a = laws::driver::after_turns(v, quiet, n);
    let b = laws::driver::after_turns(v, noisy, m);
    let input = quiet[n as int];
    let one = laws::driver::fed(a, input.bytes);
    let other = laws::driver::fed(b, input.bytes);
    lemma_turns_go_alike(a, b, input);
    lemma_a_turn_never_goes_back(a, input);
    let t1 = laws::driver::taken(a, input);
    let t2 = laws::driver::taken(b, input);
    assert(laws::driver::after_turns(v, quiet, n + 1) == t1.runner);
    assert(laws::driver::after_turns(v, noisy, m + 1) == t2.runner);
    if a.session.at > then {
        lemma_inserted_grows(
            told_after(v, noisy, m),
            told_after(v, quiet, n),
            start,
            noise,
            laws::driver::told(t1.reports),
        );
    } else {
        lemma_waiting_turn(a, input);
        lemma_waiting_turn(b, input);
        lemma_thrown_before(one.rx);
        lemma_thrown_before(other.rx);
        let t = thrown(laws::driver::holding(one.rx.buf));
        let short = thrown_after(v, quiet, n + 1);
        let long = thrown_after(v, noisy, m + 1);
        assert(short =~= told_after(v, quiet, n) + thrown(one.rx));
        assert(short =~= thrown_after(v, quiet, n) + t);
        assert(long =~= told_after(v, noisy, m) + thrown(other.rx));
        assert(long =~= thrown_after(v, noisy, m) + t);
        lemma_inserted_grows(thrown_after(v, noisy, m), thrown_after(v, quiet, n), start, noise, t);
        if t1.runner.session.at > then {
            assert(t1.runner.rx.discarded =~= seq![]);
            assert(t2.runner.rx.discarded =~= seq![]);
            assert(short =~= told_after(v, quiet, n + 1));
            assert(long =~= told_after(v, noisy, m + 1));
        }
    }
}

/// From there on the two go together.
#[verifier::spinoff_prover]
proof fn lemma_together(
    v: RunnerView,
    quiet: Seq<Input>,
    n: nat,
    noisy: Seq<Input>,
    m: nat,
    then: nat,
    start: Seq<u8>,
    noise: Seq<u8>,
    k: nat,
)
    requires
        go_together(v, quiet, n, noisy, m, then, start, noise),
        forall|i: int| 0 <= i < k ==> noisy[m + i] == #[trigger] quiet[n + i],
        forall|i: nat|
            i < n + k ==> !((#[trigger] laws::driver::after_turns(v, quiet, i)).stage is Over),
    ensures
        go_together(v, quiet, n + k, noisy, m + k, then, start, noise),
    decreases k,
{
    if k > 0 {
        let i = (k - 1) as nat;
        lemma_together(v, quiet, n, noisy, m, then, start, noise, i);
        assert(noisy[m + (k - 1)] == quiet[n + (k - 1)]);
        lemma_one_turn_together(v, quiet, n + i, noisy, m + i, then, start, noise);
    }
}

/// Noise and damaged frames are never fatal. Take two runs that differ only in
/// the reads of one wait: those of the second bring the same bytes with noise
/// ahead of them, cut as they may be. The noise is passed over, together with
/// what the run holds when it comes; and what the run holds would be thrown
/// away without it, too. After every turn behind that wait the two have put the
/// same on the wire and are told the same to do, so they come to the same end.
/// Once the wait has its reply they stand equal, and what the second run has
/// told of as thrown away is what the first has, with the noise in it, all of
/// it and in order.
pub proof fn law_noise_ahead_of_a_reply_changes_nothing(
    v: RunnerView,
    head: Seq<Input>,
    quiet: Seq<Input>,
    noisy: Seq<Input>,
    rest: Seq<Input>,
    noise: Seq<u8>,
    k: nat,
)
    requires
        k <= rest.len(),
        one_wait(laws::driver::after_turns(v, head, head.len()), quiet),
        one_wait(laws::driver::after_turns(v, head, head.len()), noisy),
        quiet.last().now == noisy.last().now,
        bytes_of(noisy) == noise + bytes_of(quiet),
        passed_over(laws::driver::after_turns(v, head, head.len()).rx.buf + noise),
        shown_to_be_noise(
            laws::driver::after_turns(v, head, head.len()).rx.buf,
            bytes_of(quiet),
        ),
        forall|i: nat|
            i < head.len() + quiet.len() + k ==> !((#[trigger] laws::driver::after_turns(
                v,
                head + quiet + rest,
                i,
            )).stage is Over),
    ensures
        ({
            let at = laws::driver::after_turns(v, head, head.len());
            let one = head + quiet + rest;
            let other = head + noisy + rest;
            let n = head.len() + quiet.len() + k;
            let m = head.len() + noisy.len() + k;
            let a = laws::driver::after_turns(v, one, n);
            let b = laws::driver::after_turns(v, other, m);
            &&& laws::driver::last_action(v, other, m) == laws::driver::last_action(v, one, n)
            &&& laws::driver::wire_after(v, other, m) == laws::driver::wire_after(v, one, n)
            &&& alike(a, b)
            &&& a.session.at > at.session.at ==> {
                &&& a == b
                &&& with_inserted(
                    told_after(v, other, m),
                    told_after(v, one, n),
                    thrown_after(v, head, head.len()) + at.rx.buf,
                    noise,
                )
            }
        }),
{
    let one = head + quiet + rest;
    let other = head + noisy + rest;
    let j = head.len();
    let n = j + quiet.len();
    let m = j + noisy.len();
    lemma_same_start(v, head, one, j);
    assert forall|i: int| 0 <= i < quiet.len() implies one[j + i] == #[trigger] quiet[i] by {}
    assert forall|i: int| 0 <= i < noisy.len() implies other[j + i] == #[trigger] noisy[i] by {}
    lemma_behind_the_noisy_wait(v, one, other, j, quiet, noisy, noise);
    assert forall|i: int| 0 <= i < k implies other[m + i] == #[trigger] one[n + i] by {
        assert(one[n + i] == rest[i]);
        assert(other[m + i] == rest[i]);
    }
    let at = laws::driver::after_turns(v, one, j);
    lemma_together(
        v,
        one,
        n,
        other,
        m,
        at.session.at,
        thrown_after(v, one, j) + at.rx.buf,
        noise,
        k,
    );
}

} // verus!
