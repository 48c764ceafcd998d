use vstd::prelude::*;
use crate::dataset::{Dataset, LoadError};
use crate::kind::DatasetKind;

verus! {

/// Failure of the transport edge while bringing a remote resource to disk.
#[derive(Clone, Copy, PartialEq, Eq, Structural, Debug)]
pub enum FetchError {
    /// The remote answered with a non-success status.
    Http(u16),
    /// The filesystem failed while writing or renaming the file.
    Io,
}

/// What the transport edge reports for one dataset kind before loading.
#[derive(Clone, Copy, PartialEq, Eq, Structural, Debug)]
pub enum FetchOutcome {
    /// The local file already existed: nothing was downloaded.
    AlreadyPresent,
    /// The file was downloaded to the temp directory and renamed into place.
    Fetched,
    /// The fetch failed; no file was renamed into place.
    Failed(FetchError),
}

/// Why a refresh cycle carries no dataset for one kind.
#[derive(Clone, Copy, PartialEq, Eq, Structural, Debug)]
pub enum AbsenceReason {
    FetchFailed(FetchError),
    LoadFailed(LoadError),
}

/// What one refresh cycle produced for one dataset kind: a newly loaded
/// dataset, or an absence marker carrying the reason. Produced once per
/// cycle and consumed by the atomic publish step.
pub enum RefreshResult {
    Loaded(Dataset),
    Absent(AbsenceReason),
}

impl RefreshResult {
    /// The dataset this result carries into the published set, if any.
    pub open spec fn spec_dataset(self) -> Option<Dataset> {
        match self {
            RefreshResult::Loaded(d) => Some(d),
            RefreshResult::Absent(_) => None,
        }
    }
}

/// Whether a refresh must fetch the remote resource for a kind.
pub open spec fn spec_fetch_needed(present: bool) -> bool {
    !present
}

/// Decides whether the transport edge must fetch the remote resource: only
/// when the local file is absent. A present file is never re-downloaded;
/// refresh fills gaps, it does not check freshness against the remote.
pub fn fetch_needed(present: bool) -> (r: bool)
    ensures
        r == spec_fetch_needed(present),
{
    !present
}

/// Law: refresh is idempotent on the transport. Once the local file is in
/// place — in particular right after a fetch renamed it there — the fetch
/// decision of every later cycle is negative, so no second network request
/// is ever issued for that path.
pub proof fn lemma_fetch_idempotent(present: bool)
    ensures
        present ==> !spec_fetch_needed(present),
{
}

/// What the edge found when it read the local file's bytes back.
#[derive(Debug)]
pub enum FileRead {
    /// The file does not exist.
    Missing,
    /// The file exists but could not be read.
    Unreadable,
    /// The file's bytes, whole.
    Contents(Vec<u8>),
}

/// Classifies the status of a remote answer: any non-success status is a
/// fetch failure carrying that status.
pub fn status_to_fetch(status: u16) -> (r: Result<(), FetchError>)
    ensures
        (r is Ok) <==> (200 <= status < 300),
        !(200 <= status < 300) ==> r == Result::<(), FetchError>::Err(FetchError::Http(status)),
{
    if 200 <= status && status < 300 {
        Ok(())
    } else {
        Err(FetchError::Http(status))
    }
}

/// Whether a refresh cycle may proceed: only with both the storage root and
/// the temp directory in place. A directory failure aborts the whole cycle —
/// no partial refresh — and the next interval tries again.
pub fn cycle_ready(db_dir_ok: bool, tmp_dir_ok: bool) -> (r: bool)
    ensures
        r == (db_dir_ok && tmp_dir_ok),
{
    db_dir_ok && tmp_dir_ok
}

/// One dataset kind's tail of a refresh cycle, after the transport edge has
/// reported its fetch outcome and read the local file's bytes back: a failed
/// fetch is recorded as absence without looking at the file; a missing or
/// unreadable file as a load failure; valid bytes load, and exactly they.
pub fn acquire_dataset(fetch: FetchOutcome, file: FileRead) -> (r: RefreshResult)
    ensures
        fetch matches FetchOutcome::Failed(e) ==> r == RefreshResult::Absent(
            AbsenceReason::FetchFailed(e),
        ),
        !(fetch is Failed) && file is Missing ==> r == RefreshResult::Absent(
            AbsenceReason::LoadFailed(LoadError::NotFound),
        ),
        !(fetch is Failed) && file is Unreadable ==> r == RefreshResult::Absent(
            AbsenceReason::LoadFailed(LoadError::Corrupt),
        ),
        file matches FileRead::Contents(b) && !(fetch is Failed) && crate::dataset::valid_image(
            b@,
        ) ==> r is Loaded,
        file matches FileRead::Contents(b) && !(fetch is Failed) && !crate::dataset::valid_image(
            b@,
        ) ==> r == RefreshResult::Absent(AbsenceReason::LoadFailed(LoadError::Corrupt)),
{
    match fetch {
        FetchOutcome::Failed(e) => RefreshResult::Absent(AbsenceReason::FetchFailed(e)),
        _ => match file {
            FileRead::Missing => RefreshResult::Absent(
                AbsenceReason::LoadFailed(LoadError::NotFound),
            ),
            FileRead::Unreadable => RefreshResult::Absent(
                AbsenceReason::LoadFailed(LoadError::Corrupt),
            ),
            FileRead::Contents(b) => match Dataset::from_bytes(b) {
                Ok(d) => RefreshResult::Loaded(d),
                Err(e) => RefreshResult::Absent(AbsenceReason::LoadFailed(e)),
            },
        },
    }
}

/// The refresh scheduler's two states: waiting for the timer, or running a
/// cycle. There is no terminal state; the loop runs for the process lifetime.
#[derive(Clone, Copy, PartialEq, Eq, Structural, Debug)]
pub enum SchedulerState {
    Idle,
    Refreshing,
}

/// What the driving loop tells the scheduler.
#[derive(Clone, Copy, PartialEq, Eq, Structural, Debug)]
pub enum SchedulerEvent {
    /// The process has just started.
    Startup,
    /// The armed interval timer expired.
    TimerExpired,
    /// The running refresh cycle finished (well or badly).
    CycleComplete,
}

/// What the driving loop must do next.
#[derive(Clone, Copy, PartialEq, Eq, Structural, Debug)]
pub enum SchedulerAction {
    /// Run one refresh cycle, then report CycleComplete.
    BeginCycle,
    /// Arm the interval timer for this many seconds, then report TimerExpired.
    ArmTimer(u64),
    /// Nothing: the event does not apply to the current state.
    Hold,
}

/// The scheduler's transition function: on startup enter Refreshing at once;
/// on completion enter Idle and arm the timer for the refresh interval; on
/// timer expiry enter Refreshing again. An event that does not apply to the
/// current state changes nothing.
pub fn scheduler_step(state: SchedulerState, event: SchedulerEvent, interval_secs: u64) -> (r: (
    SchedulerState,
    SchedulerAction,
))
    ensures
        event == SchedulerEvent::Startup ==> r == ((
            SchedulerState::Refreshing,
            SchedulerAction::BeginCycle,
        )),
        event == SchedulerEvent::TimerExpired && state == SchedulerState::Idle ==> r == ((
            SchedulerState::Refreshing,
            SchedulerAction::BeginCycle,
        )),
        event == SchedulerEvent::CycleComplete && state == SchedulerState::Refreshing ==> r == ((
            SchedulerState::Idle,
            SchedulerAction::ArmTimer(interval_secs),
        )),
        event == SchedulerEvent::TimerExpired && state == SchedulerState::Refreshing ==> r == ((
            state,
            SchedulerAction::Hold,
        )),
        event == SchedulerEvent::CycleComplete && state == SchedulerState::Idle ==> r == ((
            state,
            SchedulerAction::Hold,
        )),
{
    match event {
        SchedulerEvent::Startup => (SchedulerState::Refreshing, SchedulerAction::BeginCycle),
        SchedulerEvent::TimerExpired => match state {
            SchedulerState::Idle => (SchedulerState::Refreshing, SchedulerAction::BeginCycle),
            SchedulerState::Refreshing => (state, SchedulerAction::Hold),
        },
        SchedulerEvent::CycleComplete => match state {
            SchedulerState::Refreshing => (
                SchedulerState::Idle,
                SchedulerAction::ArmTimer(interval_secs),
            ),
            SchedulerState::Idle => (state, SchedulerAction::Hold),
        },
    }
}

} // verus!
