//! The run as a state machine: one phase per step of the deploy, one event
//! per outcome the surrounding program reports back. The machine fixes the
//! order of the steps, that a failed build stops everything before the
//! archive is touched, and that the archive file is removed after every
//! upload outcome.

use vstd::prelude::*;

verus! {

/// How one upload attempt ended.
#[derive(Clone, Copy, Debug, PartialEq, Eq, Structural)]
pub enum UploadOutcome {
    /// The endpoint answered with a status in the successful range.
    Accepted,
    /// The endpoint answered with a status outside the successful range.
    Rejected(u16),
    /// The request never completed: connection, name resolution, or timeout.
    TransportFailed,
}

/// The step the run is about to perform, or how it ended.
#[derive(Clone, Copy, Debug, PartialEq, Eq, Structural)]
pub enum Phase {
    /// Running the build command.
    Building,
    /// Building the archive from the output directory.
    Archiving,
    /// Sending the archive to the configured domain.
    Uploading,
    /// Removing the local archive file.
    RemovingArchive,
    /// Writing the settings back to the config file.
    PersistingConfig,
    /// Adding the config file to `.gitignore` where one exists.
    UpdatingGitignore,
    /// Every step ran.
    Finished,
    /// A step failed and the run ended early.
    Stopped,
}

/// What the surrounding program reports after performing a phase's work.
#[derive(Clone, Copy, Debug, PartialEq, Eq, Structural)]
pub enum Event {
    /// The build command ran; `true` means it exited successfully.
    BuildFinished(bool),
    /// The archive step ran; `true` means the archive bytes were produced.
    ArchiveBuilt(bool),
    /// The upload attempt ended, one way or another.
    UploadFinished(UploadOutcome),
    /// Removing the archive file ran; `true` means the file is gone.
    ArchiveRemoved(bool),
    /// Writing the config file ran; `true` means it was written.
    ConfigPersisted(bool),
    /// The `.gitignore` step ran; `true` means it ended without an error.
    GitignoreUpdated(bool),
}

/// A status code in the conventional successful range.
pub open spec fn success_status(code: u16) -> bool {
    200 <= code <= 299
}

/// The phase that follows `p` once `e` is reported. An event that does not
/// belong to the phase stops the run.
pub open spec fn next_phase_spec(p: Phase, e: Event) -> Phase {
    match (p, e) {
        (Phase::Building, Event::BuildFinished(ok)) => if ok {
            Phase::Archiving
        } else {
            Phase::Stopped
        },
        (Phase::Archiving, Event::ArchiveBuilt(ok)) => if ok {
            Phase::Uploading
        } else {
            Phase::Stopped
        },
        (Phase::Uploading, Event::UploadFinished(_)) => Phase::RemovingArchive,
        (Phase::RemovingArchive, Event::ArchiveRemoved(_)) => Phase::PersistingConfig,
        (Phase::PersistingConfig, Event::ConfigPersisted(ok)) => if ok {
            Phase::UpdatingGitignore
        } else {
            Phase::Stopped
        },
        (Phase::UpdatingGitignore, Event::GitignoreUpdated(ok)) => if ok {
            Phase::Finished
        } else {
            Phase::Stopped
        },
        _ => Phase::Stopped,
    }
}

/// The phase reached from the start of a run after the given events.
pub open spec fn phase_after(events: Seq<Event>) -> Phase
    decreases events.len(),
{
    if events.len() == 0 {
        Phase::Building
    } else {
        next_phase_spec(phase_after(events.drop_last()), events.last())
    }
}

/// Steps the machine: the phase that follows `p` once `e` is reported.
pub fn next_phase(p: Phase, e: Event) -> (r: Phase)
    ensures
        r == next_phase_spec(p, e),
{
    match (p, e) {
        (Phase::Building, Event::BuildFinished(ok)) => if ok {
            Phase::Archiving
        } else {
            Phase::Stopped
        },
        (Phase::Archiving, Event::ArchiveBuilt(ok)) => if ok {
            Phase::Uploading
        } else {
            Phase::Stopped
        },
        (Phase::Uploading, Event::UploadFinished(_)) => Phase::RemovingArchive,
        (Phase::RemovingArchive, Event::ArchiveRemoved(_)) => Phase::PersistingConfig,
        (Phase::PersistingConfig, Event::ConfigPersisted(ok)) => if ok {
            Phase::UpdatingGitignore
        } else {
            Phase::Stopped
        },
        (Phase::UpdatingGitignore, Event::GitignoreUpdated(ok)) => if ok {
            Phase::Finished
        } else {
            Phase::Stopped
        },
        _ => Phase::Stopped,
    }
}

/// The build step's event: where a command is set, its run's own success
/// decides; no command set counts as a successful build.
pub fn build_event(command: &Option<String>, run_ok: bool) -> (e: Event)
    ensures
        e == Event::BuildFinished(command is None || run_ok),
{
    match command {
        Some(_) => Event::BuildFinished(run_ok),
        None => Event::BuildFinished(true),
    }
}

/// A status code in the conventional successful range.
pub fn is_success_status(code: u16) -> (r: bool)
    ensures
        r == success_status(code),
{
    200 <= code && code <= 299
}

/// The outcome a response's status code stands for.
pub fn classify_status(code: u16) -> (r: UploadOutcome)
    ensures
        success_status(code) ==> r == UploadOutcome::Accepted,
        !success_status(code) ==> r == UploadOutcome::Rejected(code),
{
    if is_success_status(code) {
        UploadOutcome::Accepted
    } else {
        UploadOutcome::Rejected(code)
    }
}

/// Whatever the upload's outcome — accepted, rejected with any status, or a
/// transport failure — the step that follows is removing the archive file.
pub proof fn lemma_upload_always_removes_archive(o: UploadOutcome)
    ensures
        next_phase_spec(Phase::Uploading, Event::UploadFinished(o)) == Phase::RemovingArchive,
{
}

/// Once a run is stopped, no later event restarts it.
pub proof fn lemma_stopped_is_final(e: Event)
    ensures
        next_phase_spec(Phase::Stopped, e) == Phase::Stopped,
{
}

/// A build that exits with failure stops the run at once: after the failure
/// event, every later point of the run is stopped, so the archive step, the
/// upload, and the rewrite of the config file are never reached.
pub proof fn lemma_build_failure_stops_run(events: Seq<Event>, i: int)
    requires
        events.len() > 0,
        events[0] == Event::BuildFinished(false),
        1 <= i <= events.len(),
    ensures
        phase_after(events.take(i)) == Phase::Stopped,
    decreases i,
{
    if i == 1 {
        assert(events.take(1).drop_last() =~= Seq::<Event>::empty());
        assert(events.take(1).last() == Event::BuildFinished(false));
    } else {
        lemma_build_failure_stops_run(events, i - 1);
        assert(events.take(i).drop_last() =~= events.take(i - 1));
    }
}

} // verus!
