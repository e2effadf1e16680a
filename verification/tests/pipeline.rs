use uploader::pipeline::build_event;
use uploader::pipeline::classify_status;
use uploader::pipeline::is_success_status;
use uploader::pipeline::next_phase;
use uploader::pipeline::Event;
use uploader::pipeline::Phase;
use uploader::pipeline::UploadOutcome;

#[test]
fn successful_statuses_are_the_conventional_range() {
    assert!(!is_success_status(199));
    assert!(is_success_status(200));
    assert!(is_success_status(204));
    assert!(is_success_status(299));
    assert!(!is_success_status(300));
    assert!(!is_success_status(404));
    assert!(!is_success_status(500));
}

#[test]
fn statuses_classify_into_outcomes() {
    assert_eq!(classify_status(201), UploadOutcome::Accepted);
    assert_eq!(classify_status(404), UploadOutcome::Rejected(404));
    assert_eq!(classify_status(500), UploadOutcome::Rejected(500));
}

#[test]
fn happy_path_runs_every_step_in_order() {
    let mut p = Phase::Building;
    p = next_phase(p, Event::BuildFinished(true));
    assert_eq!(p, Phase::Archiving);
    p = next_phase(p, Event::ArchiveBuilt(true));
    assert_eq!(p, Phase::Uploading);
    p = next_phase(p, Event::UploadFinished(UploadOutcome::Accepted));
    assert_eq!(p, Phase::RemovingArchive);
    p = next_phase(p, Event::ArchiveRemoved(true));
    assert_eq!(p, Phase::PersistingConfig);
    p = next_phase(p, Event::ConfigPersisted(true));
    assert_eq!(p, Phase::UpdatingGitignore);
    p = next_phase(p, Event::GitignoreUpdated(true));
    assert_eq!(p, Phase::Finished);
}

#[test]
fn failed_build_stops_the_run() {
    let p = next_phase(Phase::Building, Event::BuildFinished(false));
    assert_eq!(p, Phase::Stopped);
    assert_eq!(next_phase(p, Event::ArchiveBuilt(true)), Phase::Stopped);
    assert_eq!(
        next_phase(p, Event::UploadFinished(UploadOutcome::Accepted)),
        Phase::Stopped
    );
    assert_eq!(next_phase(p, Event::ConfigPersisted(true)), Phase::Stopped);
}

#[test]
fn every_upload_outcome_leads_to_archive_removal() {
    for outcome in [
        UploadOutcome::Accepted,
        UploadOutcome::Rejected(404),
        UploadOutcome::Rejected(500),
        UploadOutcome::TransportFailed,
    ] {
        assert_eq!(
            next_phase(Phase::Uploading, Event::UploadFinished(outcome)),
            Phase::RemovingArchive
        );
    }
}

#[test]
fn failed_archive_removal_still_persists_config() {
    let p = next_phase(Phase::RemovingArchive, Event::ArchiveRemoved(false));
    assert_eq!(p, Phase::PersistingConfig);
}

#[test]
fn missing_archive_stops_the_run() {
    assert_eq!(next_phase(Phase::Archiving, Event::ArchiveBuilt(false)), Phase::Stopped);
}

#[test]
fn missing_build_command_counts_as_success() {
    assert_eq!(build_event(&None, false), Event::BuildFinished(true));
    assert_eq!(
        build_event(&Some(String::from("make")), false),
        Event::BuildFinished(false)
    );
    assert_eq!(
        build_event(&Some(String::from("make")), true),
        Event::BuildFinished(true)
    );
}
