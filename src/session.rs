use vstd::prelude::*;

use crate::dispatch::{
    AccountRecord, Action, DispatchError, DispatchView, Event, Notification, Phase,
    PROGRESS_INTERVAL, next, notification_of,
};

verus! {

/// The state after `events`, from state `s`, and the actions they produced,
/// in order.
pub open spec fn run<'a>(s: DispatchView, events: Seq<Event<'a>>) -> (DispatchView, Seq<Action<'a>>)
    decreases events.len(),
{
    if events.len() == 0 {
        (s, Seq::empty())
    } else {
        let before = run(s, events.drop_last());
        let step = next(before.0, events.last());
        (step.0, before.1.push(step.1))
    }
}

/// A run that has not started, reporting at `slot`.
pub open spec fn fresh(slot: u64) -> DispatchView {
    DispatchView { phase: Phase::Idle, count: 0, slot }
}

/// The events of records that each resolve and are accepted by the observer.
pub open spec fn record_events<'a>(rs: Seq<AccountRecord<'a>>) -> Seq<Event<'a>>
    decreases rs.len(),
{
    if rs.len() == 0 {
        Seq::empty()
    } else {
        record_events(rs.drop_last()) + seq![Event::Resolved(rs.last()), Event::Notified]
    }
}

/// A whole run without failure: the observer accepts notifications, every
/// record resolves and is accepted, and then the records end.
pub open spec fn clean_session<'a>(rs: Seq<AccountRecord<'a>>) -> Seq<Event<'a>> {
    seq![Event::Started { notifications_enabled: true }] + record_events(rs) + seq![Event::Exhausted]
}

/// The notifications among `acts`, in order.
pub open spec fn notified_in<'a>(acts: Seq<Action<'a>>) -> Seq<Notification<'a>> {
    acts.filter_map(
        |a: Action<'a>|
            match a {
                Action::Notify(n) => Some(n),
                _ => None,
            },
    )
}

/// The counts shown as progress among `acts`, in order.
pub open spec fn progress_in<'a>(acts: Seq<Action<'a>>) -> Seq<u64> {
    acts.filter_map(
        |a: Action<'a>|
            match a {
                Action::ShowProgress(c) => Some(c),
                _ => None,
            },
    )
}

/// The final counts among `acts`, one for each time the display was closed.
pub open spec fn finished_in<'a>(acts: Seq<Action<'a>>) -> Seq<u64> {
    acts.filter_map(
        |a: Action<'a>|
            match a {
                Action::Finish(c) => Some(c),
                _ => None,
            },
    )
}

/// The errors among `acts` that stopped the run.
pub open spec fn aborted_in<'a>(acts: Seq<Action<'a>>) -> Seq<DispatchError> {
    acts.filter_map(
        |a: Action<'a>|
            match a {
                Action::Abort(e) => Some(e),
                _ => None,
            },
    )
}

/// The multiples of the progress interval in `lo + 1 ..= hi`, ascending.
pub open spec fn progress_marks(lo: nat, hi: nat) -> Seq<u64>
    decreases hi,
{
    if hi <= lo {
        Seq::empty()
    } else if hi % (PROGRESS_INTERVAL as nat) == 0 {
        progress_marks(lo, (hi - 1) as nat).push(hi as u64)
    } else {
        progress_marks(lo, (hi - 1) as nat)
    }
}

/// The notifications for `rs`, in order, at `slot`.
pub open spec fn notifications_for<'a>(rs: Seq<AccountRecord<'a>>, slot: u64) -> Seq<Notification<'a>> {
    rs.map_values(|r: AccountRecord<'a>| notification_of(r, slot))
}

proof fn lemma_filter_map_append<A, B>(x: Seq<A>, y: Seq<A>, f: spec_fn(A) -> Option<B>)
    ensures
        (x + y).filter_map(f) == x.filter_map(f) + y.filter_map(f),
    decreases y.len(),
{
    if y.len() == 0 {
        assert(x + y =~= x);
        assert(x.filter_map(f) + y.filter_map(f) =~= x.filter_map(f));
    } else {
        lemma_filter_map_append(x, y.drop_last(), f);
        assert((x + y).drop_last() =~= x + y.drop_last());
        assert((x + y).last() == y.last());
        match f(y.last()) {
            Some(b) => {
                assert(x.filter_map(f) + (y.drop_last().filter_map(f) + seq![b]) =~= (
                x.filter_map(f) + y.drop_last().filter_map(f)) + seq![b]);
            },
            None => {},
        }
    }
}

proof fn lemma_filter_map_push<A, B>(x: Seq<A>, a: A, f: spec_fn(A) -> Option<B>)
    ensures
        x.push(a).filter_map(f) == match f(a) {
            Some(b) => x.filter_map(f).push(b),
            None => x.filter_map(f),
        },
{
    assert(x.push(a).drop_last() =~= x);
    match f(a) {
        Some(b) => {
            assert(x.filter_map(f) + seq![b] =~= x.filter_map(f).push(b));
        },
        None => {},
    }
}

/// Running `x` and then `y` is running `x + y`.
proof fn lemma_run_append<'a>(s: DispatchView, x: Seq<Event<'a>>, y: Seq<Event<'a>>)
    ensures
        run(s, x + y) == (run(run(s, x).0, y).0, run(s, x).1 + run(run(s, x).0, y).1),
    decreases y.len(),
{
    let mid = run(s, x).0;
    if y.len() == 0 {
        assert(x + y =~= x);
        assert(run(s, x).1 + run(mid, y).1 =~= run(s, x).1);
    } else {
        lemma_run_append(s, x, y.drop_last());
        assert((x + y).drop_last() =~= x + y.drop_last());
        assert((x + y).last() == y.last());
        let before = run(mid, y.drop_last());
        let step = next(before.0, y.last());
        assert((run(s, x).1 + before.1).push(step.1) =~= run(s, x).1 + before.1.push(step.1));
    }
}

proof fn lemma_extractions_append<'a>(x: Seq<Action<'a>>, y: Seq<Action<'a>>)
    ensures
        notified_in(x + y) == notified_in(x) + notified_in(y),
        progress_in(x + y) == progress_in(x) + progress_in(y),
        finished_in(x + y) == finished_in(x) + finished_in(y),
        aborted_in(x + y) == aborted_in(x) + aborted_in(y),
{
    lemma_filter_map_append(
        x,
        y,
        |a: Action<'a>|
            match a {
                Action::Notify(n) => Some(n),
                _ => None,
            },
    );
    lemma_filter_map_append(
        x,
        y,
        |a: Action<'a>|
            match a {
                Action::ShowProgress(c) => Some(c),
                _ => None,
            },
    );
    lemma_filter_map_append(
        x,
        y,
        |a: Action<'a>|
            match a {
                Action::Finish(c) => Some(c),
                _ => None,
            },
    );
    lemma_filter_map_append(
        x,
        y,
        |a: Action<'a>|
            match a {
                Action::Abort(e) => Some(e),
                _ => None,
            },
    );
}

proof fn lemma_extractions_push<'a>(x: Seq<Action<'a>>, a: Action<'a>)
    ensures
        notified_in(x.push(a)) == match a {
            Action::Notify(n) => notified_in(x).push(n),
            _ => notified_in(x),
        },
        progress_in(x.push(a)) == match a {
            Action::ShowProgress(c) => progress_in(x).push(c),
            _ => progress_in(x),
        },
        finished_in(x.push(a)) == match a {
            Action::Finish(c) => finished_in(x).push(c),
            _ => finished_in(x),
        },
        aborted_in(x.push(a)) == match a {
            Action::Abort(e) => aborted_in(x).push(e),
            _ => aborted_in(x),
        },
{
    lemma_filter_map_push(
        x,
        a,
        |a: Action<'a>|
            match a {
                Action::Notify(n) => Some(n),
                _ => None,
            },
    );
    lemma_filter_map_push(
        x,
        a,
        |a: Action<'a>|
            match a {
                Action::ShowProgress(c) => Some(c),
                _ => None,
            },
    );
    lemma_filter_map_push(
        x,
        a,
        |a: Action<'a>|
            match a {
                Action::Finish(c) => Some(c),
                _ => None,
            },
    );
    lemma_filter_map_push(
        x,
        a,
        |a: Action<'a>|
            match a {
                Action::Abort(e) => Some(e),
                _ => None,
            },
    );
}

proof fn lemma_extractions_empty<'a>(x: Seq<Action<'a>>)
    requires
        x.len() == 0,
    ensures
        notified_in(x) == Seq::<Notification<'a>>::empty(),
        progress_in(x) == Seq::<u64>::empty(),
        finished_in(x) == Seq::<u64>::empty(),
        aborted_in(x) == Seq::<DispatchError>::empty(),
{
}

/// Two steps of a run: the state after `e1` then `e2`, and their actions.
proof fn lemma_run_two<'a>(s: DispatchView, e1: Event<'a>, e2: Event<'a>)
    ensures
        run(s, seq![e1, e2]) == (
            next(next(s, e1).0, e2).0,
            seq![next(s, e1).1, next(next(s, e1).0, e2).1],
        ),
{
    let es = seq![e1, e2];
    lemma_run_one(s, e1);
    assert(es.drop_last() =~= seq![e1]);
    assert(seq![e1].drop_last() =~= Seq::<Event<'a>>::empty());
    let first = run(s, seq![e1]);
    assert(first.1.push(next(first.0, e2).1) =~= seq![next(s, e1).1, next(next(s, e1).0, e2).1]);
}

/// One step of a run.
proof fn lemma_run_one<'a>(s: DispatchView, e: Event<'a>)
    ensures
        run(s, seq![e]) == (next(s, e).0, seq![next(s, e).1]),
{
    assert(seq![e].drop_last() =~= Seq::<Event<'a>>::empty());
    assert(run(s, Seq::<Event<'a>>::empty()) == (s, Seq::<Action<'a>>::empty()));
    assert(Seq::<Action<'a>>::empty().push(next(s, e).1) =~= seq![next(s, e).1]);
}

/// Records that resolve and are accepted are each notified once, in order,
/// and the count grows by one for each of them.
proof fn lemma_records<'a>(s: DispatchView, rs: Seq<AccountRecord<'a>>)
    requires
        s.phase == Phase::Streaming,
        s.count + rs.len() <= u64::MAX,
    ensures
        run(s, record_events(rs)).0 == (DispatchView {
            phase: Phase::Streaming,
            count: (s.count + rs.len()) as u64,
            slot: s.slot,
        }),
        notified_in(run(s, record_events(rs)).1) == notifications_for(rs, s.slot),
        progress_in(run(s, record_events(rs)).1) == progress_marks(
            s.count as nat,
            (s.count + rs.len()) as nat,
        ),
        finished_in(run(s, record_events(rs)).1) == Seq::<u64>::empty(),
        aborted_in(run(s, record_events(rs)).1) == Seq::<DispatchError>::empty(),
    decreases rs.len(),
{
    if rs.len() == 0 {
        assert(record_events(rs) =~= Seq::<Event<'a>>::empty());
        lemma_extractions_empty(run(s, record_events(rs)).1);
        assert(notifications_for(rs, s.slot) =~= Seq::<Notification<'a>>::empty());
    } else {
        let init = rs.drop_last();
        let r = rs.last();
        lemma_records(s, init);
        let x = record_events(init);
        let tail = seq![Event::Resolved(r), Event::Notified];
        lemma_run_append(s, x, tail);
        let mid = run(s, x).0;
        lemma_run_two(mid, Event::Resolved(r), Event::Notified);
        let acts = run(mid, tail).1;
        lemma_extractions_append(run(s, x).1, acts);
        assert(acts == Seq::<Action<'a>>::empty().push(acts[0]).push(acts[1]));
        lemma_extractions_empty(Seq::<Action<'a>>::empty());
        lemma_extractions_push(Seq::<Action<'a>>::empty(), acts[0]);
        lemma_extractions_push(Seq::<Action<'a>>::empty().push(acts[0]), acts[1]);
        assert(notifications_for(rs, s.slot) =~= notifications_for(init, s.slot).push(
            notification_of(r, s.slot),
        ));
        assert(Seq::<Notification<'a>>::empty().push(notification_of(r, s.slot)) =~= seq![
            notification_of(r, s.slot),
        ]);
        let hi = (s.count + rs.len()) as nat;
        if hi % (PROGRESS_INTERVAL as nat) == 0 {
            assert(Seq::<u64>::empty().push(hi as u64) =~= seq![hi as u64]);
            assert(progress_marks(s.count as nat, (hi - 1) as nat) + seq![hi as u64] =~= progress_marks(
                s.count as nat,
                (hi - 1) as nat,
            ).push(hi as u64));
        } else {
            assert(progress_marks(s.count as nat, (hi - 1) as nat) + Seq::<u64>::empty() =~= progress_marks(
                s.count as nat,
                (hi - 1) as nat,
            ));
        }
        assert(Seq::<u64>::empty() + Seq::<u64>::empty() =~= Seq::<u64>::empty());
        assert(Seq::<DispatchError>::empty() + Seq::<DispatchError>::empty()
            =~= Seq::<DispatchError>::empty());
    }
}

/// A run that has completed or failed takes no further part: every later
/// event is ignored.
proof fn lemma_terminal<'a>(s: DispatchView, es: Seq<Event<'a>>)
    requires
        s.phase == Phase::Completed || s.phase == Phase::Failed,
    ensures
        run(s, es).0 == s,
        notified_in(run(s, es).1) == Seq::<Notification<'a>>::empty(),
        progress_in(run(s, es).1) == Seq::<u64>::empty(),
        finished_in(run(s, es).1) == Seq::<u64>::empty(),
        aborted_in(run(s, es).1) == Seq::<DispatchError>::empty(),
    decreases es.len(),
{
    if es.len() == 0 {
        lemma_extractions_empty(run(s, es).1);
    } else {
        lemma_terminal(s, es.drop_last());
        lemma_extractions_push(run(s, es.drop_last()).1, Action::Ignore);
    }
}

proof fn lemma_extractions_one<'a>(a: Action<'a>)
    ensures
        notified_in(seq![a]) == match a {
            Action::Notify(n) => seq![n],
            _ => Seq::<Notification<'a>>::empty(),
        },
        progress_in(seq![a]) == match a {
            Action::ShowProgress(c) => seq![c],
            _ => Seq::<u64>::empty(),
        },
        finished_in(seq![a]) == match a {
            Action::Finish(c) => seq![c],
            _ => Seq::<u64>::empty(),
        },
        aborted_in(seq![a]) == match a {
            Action::Abort(e) => seq![e],
            _ => Seq::<DispatchError>::empty(),
        },
{
    assert(seq![a] =~= Seq::<Action<'a>>::empty().push(a));
    lemma_extractions_empty(Seq::<Action<'a>>::empty());
    lemma_extractions_push(Seq::<Action<'a>>::empty(), a);
    assert(Seq::<Notification<'a>>::empty().push(a->Notify_0) =~= seq![a->Notify_0]);
    assert(Seq::<u64>::empty().push(a->ShowProgress_0) =~= seq![a->ShowProgress_0]);
    assert(Seq::<u64>::empty().push(a->Finish_0) =~= seq![a->Finish_0]);
    assert(Seq::<DispatchError>::empty().push(a->Abort_0) =~= seq![a->Abort_0]);
}

/// The start of a run whose observer accepts notifications, followed by
/// records that each resolve and are accepted.
pub open spec fn streamed<'a>(ok: Seq<AccountRecord<'a>>) -> Seq<Event<'a>> {
    seq![Event::Started { notifications_enabled: true }] + record_events(ok)
}

proof fn lemma_streamed<'a>(slot: u64, ok: Seq<AccountRecord<'a>>)
    requires
        ok.len() <= u64::MAX,
    ensures
        run(fresh(slot), streamed(ok)).0 == (DispatchView {
            phase: Phase::Streaming,
            count: ok.len() as u64,
            slot,
        }),
        notified_in(run(fresh(slot), streamed(ok)).1) == notifications_for(ok, slot),
        progress_in(run(fresh(slot), streamed(ok)).1) == progress_marks(0, ok.len()),
        finished_in(run(fresh(slot), streamed(ok)).1) == Seq::<u64>::empty(),
        aborted_in(run(fresh(slot), streamed(ok)).1) == Seq::<DispatchError>::empty(),
{
    let start = seq![Event::Started { notifications_enabled: true }];
    lemma_run_append(fresh(slot), start, record_events(ok));
    lemma_run_one(fresh(slot), Event::Started { notifications_enabled: true });
    let s1 = run(fresh(slot), start).0;
    lemma_records(s1, ok);
    lemma_extractions_one(Action::Pull);
    lemma_extractions_append(run(fresh(slot), start).1, run(s1, record_events(ok)).1);
    assert(Seq::<Notification<'a>>::empty() + notifications_for(ok, slot) =~= notifications_for(ok, slot));
    assert(Seq::<u64>::empty() + progress_marks(0, ok.len()) =~= progress_marks(0, ok.len()));
    assert(Seq::<u64>::empty() + Seq::<u64>::empty() =~= Seq::<u64>::empty());
    assert(Seq::<DispatchError>::empty() + Seq::<DispatchError>::empty()
        =~= Seq::<DispatchError>::empty());
}

proof fn lemma_clean_session<'a>(slot: u64, rs: Seq<AccountRecord<'a>>)
    requires
        rs.len() <= u64::MAX,
    ensures
        run(fresh(slot), clean_session(rs)).0 == (DispatchView {
            phase: Phase::Completed,
            count: rs.len() as u64,
            slot,
        }),
        run(fresh(slot), clean_session(rs)).1.len() > 0,
        run(fresh(slot), clean_session(rs)).1.last() == Action::<'a>::Finish(rs.len() as u64),
        notified_in(run(fresh(slot), clean_session(rs)).1) == notifications_for(rs, slot),
        progress_in(run(fresh(slot), clean_session(rs)).1) == progress_marks(0, rs.len()),
        finished_in(run(fresh(slot), clean_session(rs)).1) == seq![rs.len() as u64],
        aborted_in(run(fresh(slot), clean_session(rs)).1) == Seq::<DispatchError>::empty(),
{
    let pre = streamed(rs);
    let end = seq![Event::Exhausted];
    assert(clean_session(rs) =~= pre + end);
    lemma_streamed(slot, rs);
    lemma_run_append(fresh(slot), pre, end);
    let s1 = run(fresh(slot), pre).0;
    lemma_run_one(s1, Event::Exhausted);
    let fin = Action::<'a>::Finish(rs.len() as u64);
    lemma_extractions_one(fin);
    lemma_extractions_append(run(fresh(slot), pre).1, seq![fin]);
    assert(notifications_for(rs, slot) + Seq::<Notification<'a>>::empty() =~= notifications_for(rs, slot));
    assert(progress_marks(0, rs.len()) + Seq::<u64>::empty() =~= progress_marks(0, rs.len()));
    assert(Seq::<u64>::empty() + seq![rs.len() as u64] =~= seq![rs.len() as u64]);
    assert(Seq::<DispatchError>::empty() + Seq::<DispatchError>::empty()
        =~= Seq::<DispatchError>::empty());
}

/// In a run where nothing fails, each record is notified exactly once, in the
/// order the loader produced it: every field is carried over as it is, no
/// transaction signature is given, and each notification is at the run's slot
/// and outside the startup phase. The run then completes with the count of
/// records.
pub proof fn lemma_every_record_notified<'a>(slot: u64, rs: Seq<AccountRecord<'a>>)
    requires
        rs.len() <= u64::MAX,
    ensures
        run(fresh(slot), clean_session(rs)).0.phase == Phase::Completed,
        run(fresh(slot), clean_session(rs)).0.count == rs.len(),
        notified_in(run(fresh(slot), clean_session(rs)).1) == notifications_for(rs, slot),
        notified_in(run(fresh(slot), clean_session(rs)).1).len() == rs.len(),
        forall|i: int|
            0 <= i < rs.len() ==> {
                let n = #[trigger] notified_in(run(fresh(slot), clean_session(rs)).1)[i];
                &&& n.account.pubkey@ == rs[i].pubkey@
                &&& n.account.lamports == rs[i].lamports
                &&& n.account.owner@ == rs[i].owner@
                &&& n.account.executable == rs[i].executable
                &&& n.account.rent_epoch == rs[i].rent_epoch
                &&& n.account.data@ == rs[i].data@
                &&& n.account.write_version == rs[i].write_version
                &&& n.account.txn_signature is None
                &&& n.slot == slot
                &&& !n.is_startup
            },
{
    lemma_clean_session(slot, rs);
}

/// In a run where nothing fails, progress is shown at each multiple of the
/// interval up to the number of records, ascending, and the display is closed
/// exactly once, by the last action, with that number. With no records only
/// the closing happens.
pub proof fn lemma_progress_cadence<'a>(slot: u64, rs: Seq<AccountRecord<'a>>)
    requires
        rs.len() <= u64::MAX,
    ensures
        progress_in(run(fresh(slot), clean_session(rs)).1) == progress_marks(0, rs.len()),
        progress_in(run(fresh(slot), clean_session(rs)).1).len() == rs.len()
            / (PROGRESS_INTERVAL as nat),
        forall|k: int|
            0 <= k < progress_in(run(fresh(slot), clean_session(rs)).1).len() ==> #[trigger] progress_in(
                run(fresh(slot), clean_session(rs)).1,
            )[k] == (k + 1) * PROGRESS_INTERVAL,
        finished_in(run(fresh(slot), clean_session(rs)).1) == seq![rs.len() as u64],
        run(fresh(slot), clean_session(rs)).1.last() == Action::<'a>::Finish(rs.len() as u64),
{
    lemma_clean_session(slot, rs);
    lemma_progress_marks(rs.len());
}

/// The marks up to `n` are the multiples of the interval, one for each.
proof fn lemma_progress_marks(n: nat)
    requires
        n <= u64::MAX,
    ensures
        progress_marks(0, n).len() == n / (PROGRESS_INTERVAL as nat),
        forall|k: int|
            0 <= k < progress_marks(0, n).len() ==> #[trigger] progress_marks(0, n)[k] == (k + 1)
                * PROGRESS_INTERVAL,
    decreases n,
{
    if n > 0 {
        lemma_progress_marks((n - 1) as nat);
    }
}

/// When the observer does not accept account notifications, the run fails at
/// once, and nothing that follows gets a notification out of it.
pub proof fn lemma_disabled_notifies_nothing<'a>(slot: u64, rest: Seq<Event<'a>>)
    ensures
        run(fresh(slot), seq![Event::Started { notifications_enabled: false }] + rest).0.phase
            == Phase::Failed,
        run(fresh(slot), seq![Event::Started { notifications_enabled: false }] + rest).1[0]
            == Action::<'a>::Abort(DispatchError::NotificationsDisabled),
        notified_in(run(fresh(slot), seq![Event::Started { notifications_enabled: false }] + rest).1)
            == Seq::<Notification<'a>>::empty(),
        aborted_in(run(fresh(slot), seq![Event::Started { notifications_enabled: false }] + rest).1)
            == seq![DispatchError::NotificationsDisabled],
{
    let start = seq![Event::Started { notifications_enabled: false }];
    lemma_run_append(fresh(slot), start, rest);
    lemma_run_one(fresh(slot), Event::Started { notifications_enabled: false });
    let s1 = run(fresh(slot), start).0;
    lemma_terminal(s1, rest);
    let abort = Action::<'a>::Abort(DispatchError::NotificationsDisabled);
    lemma_extractions_one(abort);
    lemma_extractions_append(seq![abort], run(s1, rest).1);
    assert(Seq::<Notification<'a>>::empty() + Seq::<Notification<'a>>::empty()
        =~= Seq::<Notification<'a>>::empty());
    assert(seq![DispatchError::NotificationsDisabled] + Seq::<DispatchError>::empty()
        =~= seq![DispatchError::NotificationsDisabled]);
}

/// When a record fails to resolve, the records before it have been notified,
/// each once and in order, and no notification follows: the run fails on
/// that error, whatever comes after.
pub proof fn lemma_resolve_failure_stops<'a>(
    slot: u64,
    ok: Seq<AccountRecord<'a>>,
    rest: Seq<Event<'a>>,
)
    requires
        ok.len() <= u64::MAX,
    ensures
        run(fresh(slot), streamed(ok) + seq![Event::ResolveFailed] + rest).0.phase == Phase::Failed,
        notified_in(run(fresh(slot), streamed(ok) + seq![Event::ResolveFailed] + rest).1)
            == notifications_for(ok, slot),
        notified_in(run(fresh(slot), streamed(ok) + seq![Event::ResolveFailed] + rest).1).len()
            == ok.len(),
        aborted_in(run(fresh(slot), streamed(ok) + seq![Event::ResolveFailed] + rest).1)
            == seq![DispatchError::ResolveFailed],
        finished_in(run(fresh(slot), streamed(ok) + seq![Event::ResolveFailed] + rest).1)
            == Seq::<u64>::empty(),
{
    lemma_failure_after(slot, ok, seq![Event::ResolveFailed], rest);
}

/// When the observer refuses a notification, the records before it have been
/// notified, each once and in order, then the refused one, and no
/// notification follows: the run fails on that error, whatever comes after.
pub proof fn lemma_notify_failure_stops<'a>(
    slot: u64,
    ok: Seq<AccountRecord<'a>>,
    refused: AccountRecord<'a>,
    rest: Seq<Event<'a>>,
)
    requires
        ok.len() <= u64::MAX,
    ensures
        run(
            fresh(slot),
            streamed(ok) + seq![Event::Resolved(refused), Event::NotifyFailed] + rest,
        ).0.phase == Phase::Failed,
        notified_in(
            run(
                fresh(slot),
                streamed(ok) + seq![Event::Resolved(refused), Event::NotifyFailed] + rest,
            ).1,
        ) == notifications_for(ok, slot).push(notification_of(refused, slot)),
        aborted_in(
            run(
                fresh(slot),
                streamed(ok) + seq![Event::Resolved(refused), Event::NotifyFailed] + rest,
            ).1,
        ) == seq![DispatchError::NotifyFailed],
        finished_in(
            run(
                fresh(slot),
                streamed(ok) + seq![Event::Resolved(refused), Event::NotifyFailed] + rest,
            ).1,
        ) == Seq::<u64>::empty(),
{
    lemma_failure_after(slot, ok, seq![Event::Resolved(refused), Event::NotifyFailed], rest);
}

proof fn lemma_failure_after<'a>(
    slot: u64,
    ok: Seq<AccountRecord<'a>>,
    failing: Seq<Event<'a>>,
    rest: Seq<Event<'a>>,
)
    requires
        ok.len() <= u64::MAX,
        failing == seq![Event::<'a>::ResolveFailed] || (failing.len() == 2 && failing[0] is Resolved
            && failing[1] == Event::<'a>::NotifyFailed),
    ensures
        run(fresh(slot), streamed(ok) + failing + rest).0.phase == Phase::Failed,
        notified_in(run(fresh(slot), streamed(ok) + failing + rest).1) == if failing.len() == 1 {
            notifications_for(ok, slot)
        } else {
            notifications_for(ok, slot).push(notification_of(failing[0]->Resolved_0, slot))
        },
        aborted_in(run(fresh(slot), streamed(ok) + failing + rest).1) == if failing.len() == 1 {
            seq![DispatchError::ResolveFailed]
        } else {
            seq![DispatchError::NotifyFailed]
        },
        finished_in(run(fresh(slot), streamed(ok) + failing + rest).1) == Seq::<u64>::empty(),
{
    let pre = streamed(ok);
    lemma_streamed(slot, ok);
    lemma_run_append(fresh(slot), pre + failing, rest);
    lemma_run_append(fresh(slot), pre, failing);
    let s1 = run(fresh(slot), pre).0;
    let s2 = run(s1, failing).0;
    let fa = run(s1, failing).1;
    if failing.len() == 1 {
        assert(failing == seq![Event::<'a>::ResolveFailed]);
        lemma_run_one(s1, Event::ResolveFailed);
        lemma_extractions_one(fa[0]);
        assert(fa == seq![fa[0]]);
    } else {
        assert(failing == seq![failing[0], failing[1]]);
        lemma_run_two(s1, failing[0], failing[1]);
        assert(fa == seq![fa[0]] + seq![fa[1]]);
        lemma_extractions_one(fa[0]);
        lemma_extractions_one(fa[1]);
        lemma_extractions_append(seq![fa[0]], seq![fa[1]]);
        assert(seq![notification_of(failing[0]->Resolved_0, slot)] + Seq::<Notification<'a>>::empty()
            =~= seq![notification_of(failing[0]->Resolved_0, slot)]);
        assert(Seq::<DispatchError>::empty() + seq![DispatchError::NotifyFailed]
            =~= seq![DispatchError::NotifyFailed]);
        assert(notifications_for(ok, slot) + seq![notification_of(failing[0]->Resolved_0, slot)]
            =~= notifications_for(ok, slot).push(notification_of(failing[0]->Resolved_0, slot)));
    }
    lemma_terminal(s2, rest);
    lemma_extractions_append(run(fresh(slot), pre).1, fa);
    lemma_extractions_append(run(fresh(slot), pre + failing).1, run(s2, rest).1);
    assert(notifications_for(ok, slot) + Seq::<Notification<'a>>::empty() =~= notifications_for(ok, slot));
    assert(Seq::<DispatchError>::empty() + seq![DispatchError::ResolveFailed] =~= seq![DispatchError::ResolveFailed]);
    assert(seq![DispatchError::ResolveFailed] + Seq::<DispatchError>::empty() =~= seq![DispatchError::ResolveFailed]);
    assert(seq![DispatchError::NotifyFailed] + Seq::<DispatchError>::empty() =~= seq![DispatchError::NotifyFailed]);
    assert(Seq::<u64>::empty() + Seq::<u64>::empty() =~= Seq::<u64>::empty());
    let n2 = notifications_for(ok, slot).push(notification_of(failing[0]->Resolved_0, slot));
    assert(n2 + Seq::<Notification<'a>>::empty() =~= n2);
}

/// A run keeps nothing from an earlier one: running the same records again
/// notifies every one of them again, so two runs deliver each notification
/// twice, with no deduplication.
pub proof fn lemma_rerun_notifies_again<'a>(slot: u64, rs: Seq<AccountRecord<'a>>)
    requires
        rs.len() <= u64::MAX,
    ensures
        notified_in(run(fresh(slot), clean_session(rs)).1) + notified_in(
            run(fresh(slot), clean_session(rs)).1,
        ) == notifications_for(rs, slot) + notifications_for(rs, slot),
        (notified_in(run(fresh(slot), clean_session(rs)).1) + notified_in(
            run(fresh(slot), clean_session(rs)).1,
        )).len() == 2 * rs.len(),
{
    lemma_clean_session(slot, rs);
}

} // verus!
