use open_editor_lib::jobs::{JobManager, JobStatus};
use open_editor_lib::project::FIXED_ONE;

#[test]
fn cancellation_flags_a_running_job_and_names_its_process() {
    let mut jobs = JobManager::new();
    let (record, context) = jobs.create("test".into(), None).unwrap();
    assert_eq!(record.status, JobStatus::Queued);
    assert_eq!(record.message, "Queued");
    assert_eq!(record.progress, 0);
    context.running(&mut jobs, "Sleeping".into(), FIXED_ONE / 10);
    context.register_process(&mut jobs, Some(4242));
    let (cancelling, process) = jobs.cancel(record.id).unwrap();
    assert_eq!(process, Some(4242));
    assert_eq!(cancelling.status, JobStatus::Cancelling);
    assert_eq!(cancelling.message, "Cancelling…");
    assert!(context.is_cancelled(&jobs));
    context.finish_cancelled(&mut jobs);
    let finished = jobs.get(record.id).unwrap();
    assert_eq!(finished.status, JobStatus::Cancelled);
    assert_eq!(finished.status.label(), "cancelled");
    assert_eq!(finished.message, "Cancelled");
}

#[test]
fn cancelling_a_finished_job_changes_nothing() {
    let mut jobs = JobManager::new();
    let (record, context) = jobs.create_with(7, "proxy".into(), Some(9), "t0".into());
    assert_eq!(record.created_at, "t0");
    assert_eq!(record.asset_id, Some(9));
    context.complete(&mut jobs, "{\"path\":\"p.mp4\"}".into());
    let (after, process) = jobs.cancel(7).unwrap();
    assert_eq!(process, None);
    assert_eq!(after.status, JobStatus::Completed);
    assert_eq!(after.progress, FIXED_ONE);
    assert_eq!(after.message, "Complete");
    assert_eq!(after.result.as_deref(), Some("{\"path\":\"p.mp4\"}"));
    assert!(!context.is_cancelled(&jobs));
}

#[test]
fn unknown_jobs() {
    let mut jobs = JobManager::new();
    assert_eq!(jobs.cancel(1).unwrap_err(), "job does not exist");
    assert!(jobs.get(1).is_none());
    let (_, context) = jobs.create_with(2, "x".into(), None, "t".into());
    let ghost_context = open_editor_lib::jobs::JobContext { id: 3 };
    assert!(ghost_context.running(&mut jobs, "m".into(), 0).is_none());
    assert!(!ghost_context.is_cancelled(&jobs));
    assert!(context.running(&mut jobs, "m".into(), 0).is_some());
}

#[test]
fn progress_is_clamped_and_failure_recorded() {
    let mut jobs = JobManager::new();
    let (_, context) = jobs.create_with(5, "analysis".into(), None, "t".into());
    let r = context.running(&mut jobs, "Halfway".into(), 3 * FIXED_ONE).unwrap();
    assert_eq!(r.progress, FIXED_ONE);
    assert_eq!(r.status.label(), "running");
    let r = context.running(&mut jobs, "Back".into(), -5).unwrap();
    assert_eq!(r.progress, 0);
    let r = context.fail(&mut jobs, "boom".into()).unwrap();
    assert_eq!(r.status, JobStatus::Failed);
    assert_eq!(r.error.as_deref(), Some("boom"));
    assert_eq!(r.message, "Failed");
}

#[test]
fn created_jobs_get_version_four_identifiers() {
    let mut jobs = JobManager::new();
    let (first, context) = jobs.create("proxy".into(), Some(3)).unwrap();
    let (second, _) = jobs.create("analysis".into(), None).unwrap();
    assert_eq!((first.id >> 76) & 0xf, 4);
    assert_eq!((second.id >> 76) & 0xf, 4);
    assert_eq!(context.id, first.id);
    assert_ne!(first.id, second.id);
    assert_eq!(first.created_at, first.updated_at);
    assert_eq!(jobs.get(first.id).unwrap().kind, "proxy");
}

#[test]
fn the_cancellation_flag_is_never_cleared() {
    let mut jobs = JobManager::new();
    let (record, context) = jobs.create_with(11, "export".into(), None, "t0".into());
    let copy = context;
    assert!(!context.is_cancelled(&jobs));
    jobs.cancel(record.id).unwrap();
    assert!(context.is_cancelled(&jobs) && copy.is_cancelled(&jobs));
    context.running(&mut jobs, "Still going".into(), FIXED_ONE / 2);
    context.register_process(&mut jobs, None);
    jobs.cancel(record.id).unwrap();
    context.complete(&mut jobs, "{}".into());
    jobs.create_with(12, "proxy".into(), None, "t1".into());
    let (other, _) = jobs.create("proxy".into(), None).unwrap();
    assert_ne!(other.id, record.id);
    context.fail(&mut jobs, "late".into());
    assert!(context.is_cancelled(&jobs) && copy.is_cancelled(&jobs));
}

#[test]
fn the_flag_is_clear_until_a_cancellation_succeeds() {
    let mut jobs = JobManager::new();
    let (record, context) = jobs.create_with(21, "proxy".into(), None, "t0".into());
    assert!(!context.is_cancelled(&jobs));
    context.running(&mut jobs, "Working".into(), FIXED_ONE / 4);
    context.register_process(&mut jobs, Some(7));
    assert!(!context.is_cancelled(&jobs));
    context.complete(&mut jobs, "{}".into());
    jobs.cancel(record.id).unwrap();
    assert!(!context.is_cancelled(&jobs));
}
