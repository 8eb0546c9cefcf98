use vstd::prelude::*;

verus! {

/// Every this many notified accounts the progress display is updated.
pub const PROGRESS_INTERVAL: u64 = 1024;

/// One decoded snapshot account, borrowed from the loader's storage for the
/// duration of one iteration step.
#[derive(Clone, Copy, Debug)]
pub struct AccountRecord<'a> {
    pub pubkey: &'a [u8],
    pub lamports: u64,
    pub owner: &'a [u8],
    pub executable: bool,
    pub rent_epoch: u64,
    pub data: &'a [u8],
    pub write_version: u64,
}

/// The account payload of an update notification, in the observer's shape.
#[derive(Clone, Copy, Debug)]
pub struct AccountUpdate<'a> {
    pub pubkey: &'a [u8],
    pub lamports: u64,
    pub owner: &'a [u8],
    pub executable: bool,
    pub rent_epoch: u64,
    pub data: &'a [u8],
    pub write_version: u64,
    /// The signature of the transaction that wrote the account, where known.
    pub txn_signature: Option<&'a [u8]>,
}

/// One update notification: the account, the slot it is reported at, and
/// whether it is sent during the observer's startup phase.
#[derive(Clone, Copy, Debug)]
pub struct Notification<'a> {
    pub account: AccountUpdate<'a>,
    pub slot: u64,
    pub is_startup: bool,
}

/// Why a run stopped.
#[derive(Clone, Copy, Debug, PartialEq, Eq, Structural)]
pub enum DispatchError {
    /// The observer does not accept account notifications.
    NotificationsDisabled,
    /// A record of the snapshot could not be resolved.
    ResolveFailed,
    /// The observer refused a notification.
    NotifyFailed,
    /// The account counter would pass `u64::MAX`.
    CountOverflow,
}

/// Where a run stands.
#[derive(Clone, Copy, Debug, PartialEq, Eq, Structural)]
pub enum Phase {
    /// Not started: the observer's capability has not been reported yet.
    Idle,
    /// Waiting for the next record, or for the end of the records.
    Streaming,
    /// A notification was handed out; waiting for the observer's answer.
    Notifying,
    /// Every record was notified. Terminal.
    Completed,
    /// The run stopped on an error. Terminal.
    Failed,
}

/// What the driver of a run reports to the dispatcher.
#[derive(Clone, Copy, Debug)]
pub enum Event<'a> {
    /// The observer was asked whether it accepts account notifications.
    Started { notifications_enabled: bool },
    /// The loader produced the next record.
    Resolved(AccountRecord<'a>),
    /// The loader failed to produce the next record.
    ResolveFailed,
    /// The observer accepted the last notification.
    Notified,
    /// The observer refused the last notification.
    NotifyFailed,
    /// The loader has no more records.
    Exhausted,
}

/// What the dispatcher asks the driver to do next.
#[derive(Clone, Copy, Debug)]
pub enum Action<'a> {
    /// Hand this notification to the observer and report its answer.
    Notify(Notification<'a>),
    /// Pull the next record from the loader.
    Pull,
    /// Show this account count on the display, then pull the next record.
    ShowProgress(u64),
    /// Close the display, showing this final count; the run is done.
    Finish(u64),
    /// Stop the run with this error.
    Abort(DispatchError),
    /// The event does not fit the phase of the run; nothing changed.
    Ignore,
}

/// What an `AccountDispatcher` holds, as plain values.
#[derive(Clone, Copy, Debug, PartialEq, Eq, Structural)]
pub struct DispatchView {
    pub phase: Phase,
    /// The accounts notified so far.
    pub count: u64,
    /// The slot that every notification of this run is reported at.
    pub slot: u64,
}

/// The payload for a record: each field carried over as it is, with no
/// transaction signature, since a snapshot account has none.
pub open spec fn update_of<'a>(r: AccountRecord<'a>) -> AccountUpdate<'a> {
    AccountUpdate {
        pubkey: r.pubkey,
        lamports: r.lamports,
        owner: r.owner,
        executable: r.executable,
        rent_epoch: r.rent_epoch,
        data: r.data,
        write_version: r.write_version,
        txn_signature: None,
    }
}

/// The notification for a record, at `slot` and outside the startup phase.
pub open spec fn notification_of<'a>(r: AccountRecord<'a>, slot: u64) -> Notification<'a> {
    Notification { account: update_of(r), slot, is_startup: false }
}

/// The state of a run with `phase` and `count`, keeping the slot of `s`.
pub open spec fn with_phase(s: DispatchView, phase: Phase, count: u64) -> DispatchView {
    DispatchView { phase, count, slot: s.slot }
}

/// One step of a run: the next state and the action for event `e` in state `s`.
pub open spec fn next<'a>(s: DispatchView, e: Event<'a>) -> (DispatchView, Action<'a>) {
    match s.phase {
        Phase::Idle => match e {
            Event::Started { notifications_enabled } => if notifications_enabled {
                (with_phase(s, Phase::Streaming, s.count), Action::Pull)
            } else {
                (
                    with_phase(s, Phase::Failed, s.count),
                    Action::Abort(DispatchError::NotificationsDisabled),
                )
            },
            _ => (s, Action::Ignore),
        },
        Phase::Streaming => match e {
            Event::Resolved(r) => (
                with_phase(s, Phase::Notifying, s.count),
                Action::Notify(notification_of(r, s.slot)),
            ),
            Event::ResolveFailed => (
                with_phase(s, Phase::Failed, s.count),
                Action::Abort(DispatchError::ResolveFailed),
            ),
            Event::Exhausted => (with_phase(s, Phase::Completed, s.count), Action::Finish(s.count)),
            _ => (s, Action::Ignore),
        },
        Phase::Notifying => match e {
            Event::Notified => if s.count < u64::MAX {
                let c = (s.count + 1) as u64;
                (
                    with_phase(s, Phase::Streaming, c),
                    if c % PROGRESS_INTERVAL == 0 {
                        Action::ShowProgress(c)
                    } else {
                        Action::Pull
                    },
                )
            } else {
                (
                    with_phase(s, Phase::Failed, s.count),
                    Action::Abort(DispatchError::CountOverflow),
                )
            },
            Event::NotifyFailed => (
                with_phase(s, Phase::Failed, s.count),
                Action::Abort(DispatchError::NotifyFailed),
            ),
            _ => (s, Action::Ignore),
        },
        Phase::Completed => (s, Action::Ignore),
        Phase::Failed => (s, Action::Ignore),
    }
}

/// Builds the payload for a record.
pub fn account_update<'a>(r: AccountRecord<'a>) -> (u: AccountUpdate<'a>)
    ensures
        u == update_of(r),
{
    AccountUpdate {
        pubkey: r.pubkey,
        lamports: r.lamports,
        owner: r.owner,
        executable: r.executable,
        rent_epoch: r.rent_epoch,
        data: r.data,
        write_version: r.write_version,
        txn_signature: None,
    }
}

/// The decisions of one run: which notification to send for each record,
/// when to show progress, and when the run ends.
///
/// The driver pulls records and talks to the observer; after each such step
/// it reports the outcome with `step` and performs the action returned.
pub struct AccountDispatcher {
    phase: Phase,
    count: u64,
    slot: u64,
}

impl View for AccountDispatcher {
    type V = DispatchView;

    closed spec fn view(&self) -> DispatchView {
        DispatchView { phase: self.phase, count: self.count, slot: self.slot }
    }
}

impl AccountDispatcher {
    /// A run that has not started, whose notifications are reported at `slot`.
    ///
    /// The snapshot loader does not tell which slot the accounts belong to,
    /// so the driver chooses it.
    pub fn new(slot: u64) -> (d: AccountDispatcher)
        ensures
            d@ == (DispatchView { phase: Phase::Idle, count: 0, slot }),
    {
        AccountDispatcher { phase: Phase::Idle, count: 0, slot }
    }

    /// Takes in one event and returns what the driver must do next.
    pub fn step<'a>(&mut self, e: Event<'a>) -> (a: Action<'a>)
        ensures
            (final(self)@, a) == next(old(self)@, e),
    {
        match self.phase {
            Phase::Idle => match e {
                Event::Started { notifications_enabled } => {
                    if notifications_enabled {
                        self.phase = Phase::Streaming;
                        Action::Pull
                    } else {
                        self.phase = Phase::Failed;
                        Action::Abort(DispatchError::NotificationsDisabled)
                    }
                },
                _ => Action::Ignore,
            },
            Phase::Streaming => match e {
                Event::Resolved(r) => {
                    self.phase = Phase::Notifying;
                    Action::Notify(
                        Notification { account: account_update(r), slot: self.slot, is_startup: false },
                    )
                },
                Event::ResolveFailed => {
                    self.phase = Phase::Failed;
                    Action::Abort(DispatchError::ResolveFailed)
                },
                Event::Exhausted => {
                    self.phase = Phase::Completed;
                    Action::Finish(self.count)
                },
                _ => Action::Ignore,
            },
            Phase::Notifying => match e {
                Event::Notified => {
                    if self.count < u64::MAX {
                        self.count = self.count + 1;
                        self.phase = Phase::Streaming;
                        if self.count % PROGRESS_INTERVAL == 0 {
                            Action::ShowProgress(self.count)
                        } else {
                            Action::Pull
                        }
                    } else {
                        self.phase = Phase::Failed;
                        Action::Abort(DispatchError::CountOverflow)
                    }
                },
                Event::NotifyFailed => {
                    self.phase = Phase::Failed;
                    Action::Abort(DispatchError::NotifyFailed)
                },
                _ => Action::Ignore,
            },
            Phase::Completed => Action::Ignore,
            Phase::Failed => Action::Ignore,
        }
    }

    /// Where the run stands.
    pub fn phase(&self) -> (r: Phase)
        ensures
            r == self@.phase,
    {
        self.phase
    }

    /// The accounts notified so far.
    pub fn count(&self) -> (r: u64)
        ensures
            r == self@.count,
    {
        self.count
    }

    /// The slot that notifications are reported at.
    pub fn slot(&self) -> (r: u64)
        ensures
            r == self@.slot,
    {
        self.slot
    }
}

} // verus!
