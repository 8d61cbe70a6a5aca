use hls_rs::jobs::{Action, Event, JobStatus, Orchestrator, PlaylistStatus};

#[test]
fn fresh_jobs_are_pending() {
    let jobs = Orchestrator::new(3);
    assert_eq!(jobs.len(), 3);
    for i in 0..3 {
        assert_eq!(jobs.status(i), Some(JobStatus::Pending));
    }
    assert_eq!(jobs.status(3), None);
    assert_eq!(jobs.next(), Action::Launch(0));
}

#[test]
fn every_job_is_launched_before_any_is_awaited() {
    let mut jobs = Orchestrator::new(3);
    let mut actions = Vec::new();
    for _ in 0..3 {
        let action = jobs.next();
        actions.push(action);
        match action {
            Action::Launch(i) => assert!(jobs.record(Event::Launched(i))),
            other => panic!("unexpected {:?}", other),
        }
    }
    assert_eq!(actions, vec![Action::Launch(0), Action::Launch(1), Action::Launch(2)]);
    assert_eq!(jobs.next(), Action::WritePlaylist);
    assert!(jobs.record(Event::PlaylistWritten(true)));
    assert_eq!(jobs.playlist(), PlaylistStatus::Written);
    assert_eq!(jobs.next(), Action::Wait(0));
    assert!(jobs.record(Event::Exited(0, true)));
    assert_eq!(jobs.next(), Action::Wait(1));
    assert!(jobs.record(Event::Exited(1, true)));
    assert_eq!(jobs.next(), Action::Wait(2));
    assert!(jobs.record(Event::Exited(2, true)));
    assert_eq!(jobs.next(), Action::Finish { failed: false });
    for i in 0..3 {
        assert_eq!(jobs.status(i), Some(JobStatus::Succeeded));
    }
}

#[test]
fn a_failed_job_does_not_stop_the_others() {
    let mut jobs = Orchestrator::new(3);
    for i in 0..3 {
        assert!(jobs.record(Event::Launched(i)));
    }
    assert!(jobs.record(Event::PlaylistWritten(true)));
    assert!(jobs.record(Event::Exited(0, false)));
    assert_eq!(jobs.status(0), Some(JobStatus::Failed));
    assert_eq!(jobs.status(1), Some(JobStatus::Running));
    assert_eq!(jobs.status(2), Some(JobStatus::Running));
    assert_eq!(jobs.next(), Action::Wait(1));
    assert!(jobs.record(Event::Exited(1, true)));
    assert_eq!(jobs.next(), Action::Wait(2));
    assert!(jobs.record(Event::Exited(2, true)));
    assert_eq!(jobs.next(), Action::Finish { failed: true });
    assert_eq!(jobs.status(1), Some(JobStatus::Succeeded));
    assert_eq!(jobs.status(2), Some(JobStatus::Succeeded));
}

#[test]
fn a_failed_launch_concerns_its_job_only() {
    let mut jobs = Orchestrator::new(3);
    assert!(jobs.record(Event::Launched(0)));
    assert_eq!(jobs.next(), Action::Launch(1));
    assert!(jobs.record(Event::LaunchFailed(1)));
    assert_eq!(jobs.next(), Action::Launch(2));
    assert!(jobs.record(Event::Launched(2)));
    assert_eq!(jobs.status(1), Some(JobStatus::LaunchFailed));
    assert_eq!(jobs.next(), Action::WritePlaylist);
    assert!(jobs.record(Event::PlaylistWritten(true)));
    assert_eq!(jobs.next(), Action::Wait(0));
    assert!(jobs.record(Event::Exited(0, true)));
    assert_eq!(jobs.next(), Action::Wait(2));
    assert!(jobs.record(Event::Exited(2, true)));
    assert_eq!(jobs.next(), Action::Finish { failed: true });
}

#[test]
fn jobs_may_exit_in_any_order() {
    let mut jobs = Orchestrator::new(2);
    assert!(jobs.record(Event::Launched(0)));
    assert!(jobs.record(Event::Launched(1)));
    assert!(jobs.record(Event::Exited(1, true)));
    assert_eq!(jobs.next(), Action::WritePlaylist);
    assert!(jobs.record(Event::PlaylistWritten(true)));
    assert_eq!(jobs.next(), Action::Wait(0));
    assert!(jobs.record(Event::Exited(0, true)));
    assert_eq!(jobs.next(), Action::Finish { failed: false });
}

#[test]
fn events_that_do_not_fit_change_nothing() {
    let mut jobs = Orchestrator::new(2);
    assert!(!jobs.record(Event::Exited(0, true)));
    assert!(!jobs.record(Event::Launched(2)));
    assert!(!jobs.record(Event::LaunchFailed(usize::MAX)));
    assert_eq!(jobs.status(0), Some(JobStatus::Pending));
    assert_eq!(jobs.status(1), Some(JobStatus::Pending));
    assert!(jobs.record(Event::Launched(0)));
    assert!(!jobs.record(Event::Launched(0)));
    assert!(!jobs.record(Event::LaunchFailed(0)));
    assert_eq!(jobs.status(0), Some(JobStatus::Running));
    assert!(jobs.record(Event::Exited(0, false)));
    assert!(!jobs.record(Event::Exited(0, true)));
    assert_eq!(jobs.status(0), Some(JobStatus::Failed));
}

#[test]
fn no_jobs_leave_the_playlist_to_write() {
    let mut jobs = Orchestrator::new(0);
    assert_eq!(jobs.len(), 0);
    assert_eq!(jobs.next(), Action::WritePlaylist);
    assert!(jobs.record(Event::PlaylistWritten(true)));
    assert_eq!(jobs.next(), Action::Finish { failed: false });
}

#[test]
fn the_playlist_is_written_once() {
    let mut jobs = Orchestrator::new(1);
    assert_eq!(jobs.playlist(), PlaylistStatus::Pending);
    assert!(jobs.record(Event::Launched(0)));
    assert_eq!(jobs.next(), Action::WritePlaylist);
    assert!(jobs.record(Event::PlaylistWritten(true)));
    assert!(!jobs.record(Event::PlaylistWritten(true)));
    assert!(!jobs.record(Event::PlaylistWritten(false)));
    assert_eq!(jobs.playlist(), PlaylistStatus::Written);
    assert_eq!(jobs.next(), Action::Wait(0));
    assert!(jobs.record(Event::Exited(0, true)));
    assert_eq!(jobs.next(), Action::Finish { failed: false });
}

#[test]
fn a_playlist_that_cannot_be_written_fails_the_run() {
    let mut jobs = Orchestrator::new(1);
    assert!(jobs.record(Event::Launched(0)));
    assert!(jobs.record(Event::PlaylistWritten(false)));
    assert_eq!(jobs.playlist(), PlaylistStatus::Failed);
    assert_eq!(jobs.next(), Action::Wait(0));
    assert!(jobs.record(Event::Exited(0, true)));
    assert_eq!(jobs.next(), Action::Finish { failed: true });
}

#[test]
fn a_run_of_three_takes_seven_steps() {
    let mut jobs = Orchestrator::new(3);
    let mut steps = 0;
    loop {
        let event = match jobs.next() {
            Action::Launch(i) => Event::Launched(i),
            Action::WritePlaylist => Event::PlaylistWritten(true),
            Action::Wait(i) => Event::Exited(i, i != 1),
            Action::Finish { failed } => {
                assert!(failed);
                break;
            }
        };
        assert!(jobs.record(event));
        steps += 1;
        assert!(steps <= 7);
    }
    assert_eq!(steps, 7);
    assert_eq!(jobs.status(0), Some(JobStatus::Succeeded));
    assert_eq!(jobs.status(1), Some(JobStatus::Failed));
    assert_eq!(jobs.status(2), Some(JobStatus::Succeeded));
}
