use vstd::prelude::*;

use crate::reconcile::Outcome;
use crate::record::RecordContent;
use crate::state::{map_of_entries, StateEntry, StateMap};

verus! {

/// The session's time to live, in seconds.
pub const SESSION_TTL_SECS: u64 = 30;

/// How long the registry may hold a watch open, in seconds.
pub const WATCH_WAIT_SECS: u64 = 100;

/// The delay before another acquire while the lock is held elsewhere, in
/// seconds.
pub const LOCK_RETRY_SECS: u64 = 5;

/// The short delay between reconciliation cycles, in seconds.
pub const CYCLE_PAUSE_SECS: u64 = 1;

/// How often to renew a session with time to live `ttl_secs`: half of it,
/// so strictly within it.
pub fn renewal_interval_secs(ttl_secs: u64) -> (r: u64)
    requires
        ttl_secs >= 2,
    ensures
        0 < r < ttl_secs,
        r == ttl_secs / 2,
{
    ttl_secs / 2
}

/// The registry's answer to an acquire of the lock key for a session.
#[derive(Clone, Copy, Debug, PartialEq, Eq, Structural)]
pub enum AcquireAnswer {
    /// The registry answered `true` (acquired) or `false` (held elsewhere).
    Granted(bool),
    /// The registry refused the request with this status (an invalid
    /// session, for one).
    Refused(u16),
    /// The registry could not be reached.
    Unreachable,
}

/// Why the lock cannot be had.
#[derive(Clone, Copy, Debug, PartialEq, Eq, Structural)]
pub enum LockError {
    Refused(u16),
    Unreachable,
}

/// What to do after an acquire.
#[derive(Clone, Copy, Debug, PartialEq, Eq, Structural)]
pub enum LockDecision {
    /// The session holds the lock.
    Acquired,
    /// The lock is held elsewhere: try again after this many seconds.
    RetryAfter(u64),
    /// Give up: the failure is not one that waiting mends.
    Fatal(LockError),
}

/// The decision on an acquire's answer.
pub open spec fn lock_decision(a: AcquireAnswer) -> LockDecision {
    match a {
        AcquireAnswer::Granted(true) => LockDecision::Acquired,
        AcquireAnswer::Granted(false) => LockDecision::RetryAfter(LOCK_RETRY_SECS),
        AcquireAnswer::Refused(s) => LockDecision::Fatal(LockError::Refused(s)),
        AcquireAnswer::Unreachable => LockDecision::Fatal(LockError::Unreachable),
    }
}

/// Decides on the registry's answer to an acquire: retry while the lock is
/// held elsewhere, stop on any other failure.
pub fn on_acquire_answer(a: AcquireAnswer) -> (r: LockDecision)
    ensures
        r == lock_decision(a),
{
    match a {
        AcquireAnswer::Granted(true) => LockDecision::Acquired,
        AcquireAnswer::Granted(false) => LockDecision::RetryAfter(LOCK_RETRY_SECS),
        AcquireAnswer::Refused(s) => LockDecision::Fatal(LockError::Refused(s)),
        AcquireAnswer::Unreachable => LockDecision::Fatal(LockError::Unreachable),
    }
}

/// The registry's acquire, as its contract states it: the lock key is
/// granted to `session` when no live session holds it or `session` itself
/// does.
pub open spec fn registry_grants(holder: Option<Seq<char>>, session: Seq<char>) -> bool {
    match holder {
        Some(h) => h == session,
        None => true,
    }
}

/// Lock exclusivity: while one session holds a live lock, the registry
/// answers another session's acquire with `false`, which this client takes
/// as "held elsewhere" and retries; a session is reported to hold the lock
/// only on the registry's `true`.
pub proof fn lemma_second_session_never_acquires(holder: Seq<char>, other: Seq<char>)
    requires
        holder != other,
    ensures
        !registry_grants(Some(holder), other),
        lock_decision(AcquireAnswer::Granted(registry_grants(Some(holder), other)))
            != LockDecision::Acquired,
        forall|a: AcquireAnswer|
            lock_decision(a) == LockDecision::Acquired ==> a == AcquireAnswer::Granted(true),
{
}

/// The index and wait of a blocking watch.
#[derive(Clone, Copy, Debug, PartialEq, Eq, Structural)]
pub struct WatchQuery {
    pub index: u64,
    pub wait_secs: u64,
}

/// The blocking query for a watch: none on the first call, which answers at
/// once; after that the last index seen, held for at most the watch wait.
pub fn watch_query(index: Option<u64>) -> (r: Option<WatchQuery>)
    ensures
        match index {
            None => r.is_none(),
            Some(i) => r == Some(WatchQuery { index: i, wait_secs: WATCH_WAIT_SECS }),
        },
{
    match index {
        None => None,
        Some(i) => Some(WatchQuery { index: i, wait_secs: WATCH_WAIT_SECS }),
    }
}

/// What a read of the persisted state gave.
pub enum KvRead {
    /// The key holds these entries.
    Found(Vec<StateEntry>),
    /// The key does not exist.
    Missing,
    /// The read failed.
    Failed,
}

/// The outcome of loading the persisted state: a missing key is an empty
/// state, not an error.
pub fn load_outcome(read: KvRead) -> (r: Outcome)
    ensures
        match read {
            KvRead::Found(e) => r matches Outcome::Loaded(m) && m@ == map_of_entries(e@),
            KvRead::Missing => r matches Outcome::Loaded(m) && m@ == Map::<
                Seq<char>,
                RecordContent,
            >::empty(),
            KvRead::Failed => r is LoadFailed,
        },
{
    match read {
        KvRead::Found(e) => Outcome::Loaded(StateMap::from_entries(e)),
        KvRead::Missing => Outcome::Loaded(StateMap::new()),
        KvRead::Failed => Outcome::LoadFailed,
    }
}

} // verus!
