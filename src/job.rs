//! Batch price-sync jobs guarded by a distributed lease: acquire-if-absent
//! with a lifetime, then list and sync the instruments, then release.
use vstd::prelude::*;

verus! {

/// Lifetime of a job lease, in seconds: longer than a job's worst-case run.
pub const JOB_LOCK_TTL_SECS: u64 = 3600;

/// How a job run ended.
#[derive(Clone, Copy, Debug, PartialEq, Eq, Structural)]
pub enum JobOutcome {
    /// Another instance holds the lease: a normal skip, not an error.
    LockUnavailable,
    /// Every instrument was tried; `failed` of them failed.
    Completed { failed: usize },
}

/// Where a job run stands.
#[derive(Clone, Copy, Debug, PartialEq, Eq, Structural)]
pub enum JobState {
    /// About to take the lease: set its key only if the key is absent.
    Acquiring,
    /// Holding the lease; about to list the instruments to sync.
    Listing,
    /// Holding the lease; instrument `next` of `total` is being synced.
    Syncing { next: usize, total: usize, failed: usize },
    /// All instruments tried; about to delete the key.
    Releasing { failed: usize },
    /// Over.
    Finished { outcome: JobOutcome },
}

/// What the outside world reports back to the job.
#[derive(Clone, Copy, Debug, PartialEq, Eq, Structural)]
pub enum JobEvent {
    /// The set-if-absent of the lease key ran: whether this run set it.
    LockAcquired { acquired: bool },
    /// The instruments to sync were listed: how many there are.
    InstrumentsListed { total: usize },
    /// The current instrument's sync ended, with success or not.
    InstrumentSynced { ok: bool },
    /// The lease key was deleted.
    LockReleased,
}

/// What the job asks the outside world to do next.
#[derive(Clone, Copy, Debug, PartialEq, Eq, Structural)]
pub enum JobAction {
    /// Set the lease key with this lifetime, in one step, only if it is
    /// absent (`SET key value NX EX ttl`), and report whether it was set.
    TryAcquireLock { ttl_secs: u64 },
    /// List the instruments to sync, from the store.
    ListInstruments,
    /// Sync instrument number `index` of the listing.
    SyncInstrument { index: usize },
    /// Delete the lease key.
    ReleaseLock,
    /// Stop with this outcome.
    Stop { outcome: JobOutcome },
}

/// The shared store's set-if-absent on a key that is `present` or not:
/// whether the key is present afterwards, and whether this call set it.
pub open spec fn spec_try_acquire(present: bool) -> (bool, bool) {
    (true, !present)
}

/// The action that starts (or resumes) a job in state `s`.
pub open spec fn spec_action_for(s: JobState) -> JobAction {
    match s {
        JobState::Acquiring => JobAction::TryAcquireLock { ttl_secs: JOB_LOCK_TTL_SECS },
        JobState::Listing => JobAction::ListInstruments,
        JobState::Syncing { next, total, failed } => JobAction::SyncInstrument { index: next },
        JobState::Releasing { failed } => JobAction::ReleaseLock,
        JobState::Finished { outcome } => JobAction::Stop { outcome },
    }
}

/// State after `event` in state `s`; an event that does not fit the state
/// leaves it unchanged.
pub open spec fn spec_job_next(s: JobState, event: JobEvent) -> JobState {
    match (s, event) {
        (JobState::Acquiring, JobEvent::LockAcquired { acquired }) => if acquired {
            JobState::Listing
        } else {
            JobState::Finished { outcome: JobOutcome::LockUnavailable }
        },
        (JobState::Listing, JobEvent::InstrumentsListed { total }) => if total == 0 {
            JobState::Releasing { failed: 0 }
        } else {
            JobState::Syncing { next: 0, total, failed: 0 }
        },
        (JobState::Syncing { next, total, failed }, JobEvent::InstrumentSynced { ok }) => {
            let f = if ok { failed } else { (failed + 1) as usize };
            if next + 1 >= total {
                JobState::Releasing { failed: f }
            } else {
                JobState::Syncing { next: (next + 1) as usize, total, failed: f }
            }
        },
        (JobState::Releasing { failed }, JobEvent::LockReleased) => JobState::Finished {
            outcome: JobOutcome::Completed { failed },
        },
        _ => s,
    }
}

/// States a run can reach: a sync position lies below the count listed, and
/// no more instruments failed than were tried.
pub open spec fn job_state_wf(s: JobState) -> bool {
    match s {
        JobState::Syncing { next, total, failed } => next < total && failed <= next,
        _ => true,
    }
}

/// The action to take in state `s`.
pub fn action_for(s: JobState) -> (r: JobAction)
    ensures
        r == spec_action_for(s),
{
    match s {
        JobState::Acquiring => JobAction::TryAcquireLock { ttl_secs: JOB_LOCK_TTL_SECS },
        JobState::Listing => JobAction::ListInstruments,
        JobState::Syncing { next, total: _, failed: _ } => JobAction::SyncInstrument { index: next },
        JobState::Releasing { failed: _ } => JobAction::ReleaseLock,
        JobState::Finished { outcome } => JobAction::Stop { outcome },
    }
}

/// Moves a job run on by one event: a lease that this run did not set ends
/// the run as `LockUnavailable`; once the lease is held the instruments are
/// listed; a failed instrument is counted and the run goes on to the next;
/// after the last instrument the lease is released.
pub fn job_step(s: JobState, event: JobEvent) -> (r: (JobState, JobAction))
    requires
        job_state_wf(s),
    ensures
        r.0 == spec_job_next(s, event),
        r.1 == spec_action_for(r.0),
        job_state_wf(r.0),
{
    let next = match (s, event) {
        (JobState::Acquiring, JobEvent::LockAcquired { acquired }) => {
            if acquired {
                JobState::Listing
            } else {
                JobState::Finished { outcome: JobOutcome::LockUnavailable }
            }
        },
        (JobState::Listing, JobEvent::InstrumentsListed { total }) => {
            if total == 0 {
                JobState::Releasing { failed: 0 }
            } else {
                JobState::Syncing { next: 0, total, failed: 0 }
            }
        },
        (JobState::Syncing { next, total, failed }, JobEvent::InstrumentSynced { ok }) => {
            let f = if ok { failed } else { failed + 1 };
            if next + 1 >= total {
                JobState::Releasing { failed: f }
            } else {
                JobState::Syncing { next: next + 1, total, failed: f }
            }
        },
        (JobState::Releasing { failed }, JobEvent::LockReleased) => {
            JobState::Finished { outcome: JobOutcome::Completed { failed } }
        },
        _ => s,
    };
    (next, action_for(next))
}

/// The actions a run takes from state `s` as `events` arrive one by one.
pub open spec fn spec_run_actions(s: JobState, events: Seq<JobEvent>) -> Seq<JobAction>
    decreases events.len(),
{
    if events.len() == 0 {
        Seq::empty()
    } else {
        let n = spec_job_next(s, events[0]);
        seq![spec_action_for(n)] + spec_run_actions(n, events.drop_first())
    }
}

/// An action that reads or writes the store or fetches from a source.
pub open spec fn is_store_work(a: JobAction) -> bool {
    a is ListInstruments || a is SyncInstrument
}

/// The run does store or fetch work at some point.
pub open spec fn does_store_work(actions: Seq<JobAction>) -> bool {
    exists|k: int| 0 <= k < actions.len() && is_store_work(#[trigger] actions[k])
}

proof fn lemma_finished_stays(outcome: JobOutcome, events: Seq<JobEvent>)
    ensures
        forall|k: int| 0 <= k < spec_run_actions(JobState::Finished { outcome }, events).len() ==>
            #[trigger] spec_run_actions(JobState::Finished { outcome }, events)[k] == (JobAction::Stop { outcome }),
    decreases events.len(),
{
    if events.len() > 0 {
        lemma_finished_stays(outcome, events.drop_first());
    }
}

/// A run lists or syncs instruments only after a set-if-absent of the lease
/// key reported that this run set it; when it reports the key was already
/// there, the run observes `LockUnavailable` and, whatever is reported
/// afterwards, does no store or fetch work, nor deletes the holder's key.
pub proof fn lemma_store_work_needs_acquired_lock(events: Seq<JobEvent>)
    ensures
        does_store_work(spec_run_actions(JobState::Acquiring, events)) ==>
            exists|k: int| 0 <= k < events.len() && #[trigger] events[k] == (JobEvent::LockAcquired { acquired: true }),
        events.len() > 0 && events[0] == (JobEvent::LockAcquired { acquired: false }) ==>
            forall|k: int| 0 <= k < spec_run_actions(JobState::Acquiring, events).len() ==>
                #[trigger] spec_run_actions(JobState::Acquiring, events)[k]
                    == (JobAction::Stop { outcome: JobOutcome::LockUnavailable }),
    decreases events.len(),
{
    if events.len() == 0 {
        return;
    }
    let rest = events.drop_first();
    let all = spec_run_actions(JobState::Acquiring, events);
    let n = spec_job_next(JobState::Acquiring, events[0]);
    let tail = spec_run_actions(n, rest);
    assert(all == seq![spec_action_for(n)] + tail);
    if events[0] == (JobEvent::LockAcquired { acquired: false }) {
        lemma_finished_stays(JobOutcome::LockUnavailable, rest);
        assert forall|k: int| 0 <= k < all.len() implies #[trigger] all[k]
            == (JobAction::Stop { outcome: JobOutcome::LockUnavailable }) by {
            if k > 0 {
                assert(all[k] == tail[k - 1]);
            }
        }
        assert(!does_store_work(all));
    } else if !(events[0] is LockAcquired) {
        lemma_store_work_needs_acquired_lock(rest);
        if does_store_work(all) {
            let k = choose|k: int| 0 <= k < all.len() && is_store_work(#[trigger] all[k]);
            assert(k > 0);
            assert(tail[k - 1] == all[k]);
            assert(does_store_work(tail));
            let j = choose|j: int| 0 <= j < rest.len() && #[trigger] rest[j] == (JobEvent::LockAcquired { acquired: true });
            assert(events[j + 1] == rest[j]);
        }
    } else {
        assert(events[0] == (JobEvent::LockAcquired { acquired: true }));
    }
}

/// Two runs whose set-if-absent calls on one lease key come one after the
/// other, with no release or expiry between, cannot both set the key: at
/// most one of them ever lists or syncs instruments.
pub proof fn lemma_one_holder_at_a_time(present: bool, events1: Seq<JobEvent>, events2: Seq<JobEvent>)
    requires
        events1.len() > 0,
        events2.len() > 0,
        events1[0] == (JobEvent::LockAcquired { acquired: spec_try_acquire(present).1 }),
        events2[0] == (JobEvent::LockAcquired { acquired: spec_try_acquire(spec_try_acquire(present).0).1 }),
    ensures
        !(does_store_work(spec_run_actions(JobState::Acquiring, events1))
            && does_store_work(spec_run_actions(JobState::Acquiring, events2))),
{
    lemma_store_work_needs_acquired_lock(events1);
    lemma_store_work_needs_acquired_lock(events2);
    let a2 = spec_run_actions(JobState::Acquiring, events2);
    if does_store_work(a2) {
        let k = choose|k: int| 0 <= k < a2.len() && is_store_work(#[trigger] a2[k]);
        assert(a2[k] == (JobAction::Stop { outcome: JobOutcome::LockUnavailable }));
    }
}

/// The batch job that syncs the daily prices of every fund.
pub struct SyncFundPriceJob;

impl SyncFundPriceJob {
    /// Name of its lease key.
    pub fn lock_key() -> (r: &'static str)
        ensures
            r@ == "Sync:Fund:Price"@,
    {
        "Sync:Fund:Price"
    }
}

/// The batch job that syncs the daily prices of every index's constituents.
pub struct SyncAllIndexStockPriceJob;

impl SyncAllIndexStockPriceJob {
    /// Name of its lease key.
    pub fn lock_key() -> (r: &'static str)
        ensures
            r@ == "Sync:Index:Price"@,
    {
        "Sync:Index:Price"
    }
}

} // verus!
