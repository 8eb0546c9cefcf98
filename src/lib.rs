//! Streams decoded snapshot accounts into an account-update observer.
//!
//! The library holds the decisions of the pipeline: how the bytes read from a
//! manifest stream are counted for its progress display (`progress`), and how
//! each account record turns into an update notification, when progress is
//! shown and when a run stops (`dispatch`). `session` models whole runs as
//! sequences of events and states what holds of them. The reading, the
//! display and the observer itself are driven by the caller, which hands the
//! outcome of each outside step back to these types.

pub mod dispatch;
pub mod progress;
pub mod session;

pub use dispatch::{
    AccountDispatcher, AccountRecord, AccountUpdate, Action, DispatchError, DispatchView, Event,
    Notification, Phase, PROGRESS_INTERVAL,
};
pub use progress::{ProgressView, ReadProgress};
