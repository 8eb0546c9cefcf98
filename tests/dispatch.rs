use snapshot_dispatch::{
    AccountDispatcher, AccountRecord, Action, DispatchError, Event, Notification, Phase,
    PROGRESS_INTERVAL,
};

fn record<'a>(key: &'a [u8], owner: &'a [u8], data: &'a [u8], n: u64) -> AccountRecord<'a> {
    AccountRecord {
        pubkey: key,
        lamports: 1000 + n,
        owner,
        executable: n % 2 == 1,
        rent_epoch: 300 + n,
        data,
        write_version: 7000 + n,
    }
}

/// Drives one run: each entry is a record that resolves (`Some`) or one that
/// fails to (`None`); `refuse_at` is the index of a notification the observer
/// refuses. Returns the notifications sent, the progress counts shown, the
/// final counts, the error and the dispatcher.
fn drive<'a>(
    slot: u64,
    enabled: bool,
    records: &[Option<AccountRecord<'a>>],
    refuse_at: Option<usize>,
) -> (Vec<Notification<'a>>, Vec<u64>, Vec<u64>, Option<DispatchError>, AccountDispatcher) {
    let mut d = AccountDispatcher::new(slot);
    let mut sent = Vec::new();
    let mut shown = Vec::new();
    let mut finished = Vec::new();
    match d.step(Event::Started { notifications_enabled: enabled }) {
        Action::Abort(e) => return (sent, shown, finished, Some(e), d),
        Action::Pull => {}
        other => panic!("unexpected {:?}", other),
    }
    for r in records {
        let event = match r {
            Some(rec) => Event::Resolved(*rec),
            None => Event::ResolveFailed,
        };
        match d.step(event) {
            Action::Notify(n) => {
                let refused = refuse_at == Some(sent.len());
                sent.push(n);
                let answer = if refused { Event::NotifyFailed } else { Event::Notified };
                match d.step(answer) {
                    Action::Pull => {}
                    Action::ShowProgress(c) => shown.push(c),
                    Action::Abort(e) => return (sent, shown, finished, Some(e), d),
                    other => panic!("unexpected {:?}", other),
                }
            }
            Action::Abort(e) => return (sent, shown, finished, Some(e), d),
            other => panic!("unexpected {:?}", other),
        }
    }
    match d.step(Event::Exhausted) {
        Action::Finish(c) => finished.push(c),
        other => panic!("unexpected {:?}", other),
    }
    (sent, shown, finished, None, d)
}

#[test]
fn every_record_is_notified_in_order_with_its_fields() {
    let keys = [[1u8; 32], [2u8; 32], [3u8; 32]];
    let owners = [[9u8; 32], [8u8; 32], [7u8; 32]];
    let datas: [&[u8]; 3] = [&[], &[0xde, 0xad], &[5, 6, 7, 8]];
    let records: Vec<Option<AccountRecord>> =
        (0..3).map(|i| Some(record(&keys[i], &owners[i], datas[i], i as u64))).collect();
    let (sent, _, finished, err, d) = drive(42, true, &records, None);
    assert_eq!(err, None);
    assert_eq!(sent.len(), 3);
    for (i, n) in sent.iter().enumerate() {
        assert_eq!(n.account.pubkey, &keys[i][..]);
        assert_eq!(n.account.lamports, 1000 + i as u64);
        assert_eq!(n.account.owner, &owners[i][..]);
        assert_eq!(n.account.executable, i % 2 == 1);
        assert_eq!(n.account.rent_epoch, 300 + i as u64);
        assert_eq!(n.account.data, datas[i]);
        assert_eq!(n.account.write_version, 7000 + i as u64);
        assert!(n.account.txn_signature.is_none());
        assert_eq!(n.slot, 42);
        assert!(!n.is_startup);
    }
    assert_eq!(finished, vec![3]);
    assert_eq!(d.phase(), Phase::Completed);
    assert_eq!(d.count(), 3);
}

#[test]
fn progress_is_shown_every_interval_and_finished_once() {
    let key = [4u8; 32];
    let records: Vec<Option<AccountRecord>> =
        (0..2049u64).map(|i| Some(record(&key, &key, &[], i))).collect();
    let (sent, shown, finished, err, _) = drive(0, true, &records, None);
    assert_eq!(err, None);
    assert_eq!(sent.len(), 2049);
    assert_eq!(PROGRESS_INTERVAL, 1024);
    assert_eq!(shown, vec![1024, 2048]);
    assert_eq!(finished, vec![2049]);
}

#[test]
fn progress_below_one_interval_shows_only_the_final_count() {
    let key = [4u8; 32];
    let records: Vec<Option<AccountRecord>> =
        (0..1023u64).map(|i| Some(record(&key, &key, &[], i))).collect();
    let (_, shown, finished, _, _) = drive(0, true, &records, None);
    assert!(shown.is_empty());
    assert_eq!(finished, vec![1023]);
}

#[test]
fn empty_snapshot_only_finishes() {
    let (sent, shown, finished, err, d) = drive(0, true, &[], None);
    assert!(sent.is_empty());
    assert!(shown.is_empty());
    assert_eq!(finished, vec![0]);
    assert_eq!(err, None);
    assert_eq!(d.phase(), Phase::Completed);
}

#[test]
fn disabled_notifications_fail_before_any_record() {
    let key = [1u8; 32];
    let records = vec![Some(record(&key, &key, &[1], 0))];
    let (sent, _, finished, err, d) = drive(0, false, &records, None);
    assert!(sent.is_empty());
    assert!(finished.is_empty());
    assert_eq!(err, Some(DispatchError::NotificationsDisabled));
    assert_eq!(d.phase(), Phase::Failed);
}

#[test]
fn failed_run_ignores_later_records() {
    let key = [1u8; 32];
    let mut d = AccountDispatcher::new(0);
    assert!(matches!(
        d.step(Event::Started { notifications_enabled: false }),
        Action::Abort(DispatchError::NotificationsDisabled)
    ));
    assert!(matches!(d.step(Event::Resolved(record(&key, &key, &[], 0))), Action::Ignore));
    assert!(matches!(d.step(Event::Exhausted), Action::Ignore));
    assert_eq!(d.phase(), Phase::Failed);
    assert_eq!(d.count(), 0);
}

#[test]
fn resolve_failure_stops_after_earlier_records() {
    let key = [1u8; 32];
    let records = vec![
        Some(record(&key, &key, &[1], 0)),
        Some(record(&key, &key, &[2], 1)),
        None,
        Some(record(&key, &key, &[3], 2)),
    ];
    let (sent, _, finished, err, d) = drive(0, true, &records, None);
    assert_eq!(sent.len(), 2);
    assert_eq!(sent[0].account.data, &[1u8][..]);
    assert_eq!(sent[1].account.data, &[2u8][..]);
    assert!(finished.is_empty());
    assert_eq!(err, Some(DispatchError::ResolveFailed));
    assert_eq!(d.phase(), Phase::Failed);
    assert_eq!(d.count(), 2);
}

#[test]
fn first_record_failing_sends_nothing() {
    let key = [1u8; 32];
    let records = vec![None, Some(record(&key, &key, &[3], 2))];
    let (sent, _, _, err, _) = drive(0, true, &records, None);
    assert!(sent.is_empty());
    assert_eq!(err, Some(DispatchError::ResolveFailed));
}

#[test]
fn refused_notification_stops_the_run() {
    let key = [1u8; 32];
    let records: Vec<Option<AccountRecord>> =
        (0..5u64).map(|i| Some(record(&key, &key, &[], i))).collect();
    let (sent, _, finished, err, d) = drive(0, true, &records, Some(1));
    assert_eq!(sent.len(), 2);
    assert!(finished.is_empty());
    assert_eq!(err, Some(DispatchError::NotifyFailed));
    assert_eq!(d.phase(), Phase::Failed);
    assert_eq!(d.count(), 1);
}

#[test]
fn rerun_notifies_every_record_again() {
    // Expected: a run keeps no state from an earlier one, so running the same
    // snapshot twice notifies each account twice, with no deduplication.
    let key = [6u8; 32];
    let datas: [[u8; 1]; 4] = [[0], [1], [2], [3]];
    let records: Vec<Option<AccountRecord>> =
        (0..4usize).map(|i| Some(record(&key, &key, &datas[i], i as u64))).collect();
    let (first, _, _, _, _) = drive(3, true, &records, None);
    let (second, _, _, _, _) = drive(3, true, &records, None);
    assert_eq!(first.len(), 4);
    assert_eq!(second.len(), 4);
    for (a, b) in first.iter().zip(second.iter()) {
        assert_eq!(a.account.data, b.account.data);
        assert_eq!(a.account.write_version, b.account.write_version);
    }
}

#[test]
fn out_of_order_events_are_ignored() {
    let key = [1u8; 32];
    let mut d = AccountDispatcher::new(5);
    assert!(matches!(d.step(Event::Resolved(record(&key, &key, &[], 0))), Action::Ignore));
    assert!(matches!(d.step(Event::Notified), Action::Ignore));
    assert_eq!(d.phase(), Phase::Idle);
    assert!(matches!(d.step(Event::Started { notifications_enabled: true }), Action::Pull));
    assert!(matches!(d.step(Event::Notified), Action::Ignore));
    assert!(matches!(d.step(Event::Resolved(record(&key, &key, &[], 0))), Action::Notify(_)));
    assert!(matches!(d.step(Event::Exhausted), Action::Ignore));
    assert_eq!(d.phase(), Phase::Notifying);
    assert!(matches!(d.step(Event::Notified), Action::Pull));
    assert!(matches!(d.step(Event::Exhausted), Action::Finish(1)));
    assert!(matches!(d.step(Event::Started { notifications_enabled: true }), Action::Ignore));
    assert_eq!(d.slot(), 5);
}

#[test]
fn account_update_carries_fields_without_signature() {
    let key = [7u8; 32];
    let owner = [8u8; 32];
    let r = record(&key, &owner, &[1, 2, 3], 1);
    let u = snapshot_dispatch::dispatch::account_update(r);
    assert_eq!(u.pubkey, &key[..]);
    assert_eq!(u.owner, &owner[..]);
    assert_eq!(u.data, &[1u8, 2, 3][..]);
    assert_eq!(u.lamports, 1001);
    assert_eq!(u.rent_epoch, 301);
    assert_eq!(u.write_version, 7001);
    assert!(u.executable);
    assert!(u.txn_signature.is_none());
}
