use ffserve::models::{Job, State};
use ffserve::registry::JobRegistry;

fn job(id: u128) -> Job {
    Job::new(id, format!("https://x/{id}.mp4"), format!("https://y/{id}"))
}

#[test]
fn a_new_registry_is_empty() {
    let jobs = JobRegistry::new();
    assert_eq!(jobs.len(), 0);
    assert!(!jobs.contains(1));
    assert_eq!(jobs.get(1), None);
    assert!(jobs.ids().is_empty());
    assert!(jobs.snapshot_all().is_empty());
}

#[test]
fn insert_files_a_job_under_its_identifier() {
    let mut jobs = JobRegistry::new();
    jobs.insert(job(7));
    assert_eq!(jobs.len(), 1);
    assert!(jobs.contains(7));
    assert!(!jobs.contains(8));
    assert_eq!(jobs.get(7), Some(job(7)));
}

#[test]
fn insert_replaces_a_job_of_the_same_identifier() {
    let mut jobs = JobRegistry::new();
    jobs.insert(job(7));
    let mut other = job(7);
    other.dest_url = "https://z/elsewhere".to_owned();
    jobs.insert(other.clone());
    assert_eq!(jobs.len(), 1);
    assert_eq!(jobs.get(7), Some(other));
}

#[test]
fn remove_takes_the_job_out() {
    let mut jobs = JobRegistry::new();
    jobs.insert(job(1));
    jobs.insert(job(2));
    assert_eq!(jobs.remove(1), Some(job(1)));
    assert_eq!(jobs.remove(1), None);
    assert_eq!(jobs.len(), 1);
    assert!(jobs.contains(2));
}

#[test]
fn update_state_to_processing_leaves_the_completion_time() {
    let mut jobs = JobRegistry::new();
    jobs.insert(job(1));
    let updated = jobs.update_state(1, State::Processing, None, 500).unwrap();
    assert_eq!(updated.state, State::Processing);
    assert_eq!(updated.completed_at, None);
    assert_eq!(updated.error_message, None);
    assert_eq!(jobs.get(1), Some(updated));
}

#[test]
fn update_state_to_done_stamps_the_completion_time() {
    let mut jobs = JobRegistry::new();
    jobs.insert(job(1));
    jobs.update_state(1, State::Processing, None, 500);
    let updated = jobs.update_state(1, State::Done, None, 900).unwrap();
    assert_eq!(updated.state, State::Done);
    assert_eq!(updated.completed_at, Some(900));
    assert_eq!(updated.error_message, None);
    assert_eq!(updated.source_url, job(1).source_url);
    assert_eq!(updated.dest_url, job(1).dest_url);
    assert_eq!(jobs.get(1), Some(updated));
}

#[test]
fn update_state_to_error_stamps_the_time_and_keeps_the_message() {
    let mut jobs = JobRegistry::new();
    jobs.insert(job(1));
    let updated = jobs.update_state(1, State::Error, Some("upload failed".to_owned()), 77).unwrap();
    assert_eq!(updated.state, State::Error);
    assert_eq!(updated.completed_at, Some(77));
    assert_eq!(updated.error_message, Some("upload failed".to_owned()));
}

#[test]
fn update_state_to_a_transient_state_neither_sets_nor_clears_the_time() {
    let mut jobs = JobRegistry::new();
    jobs.insert(job(1));
    assert_eq!(jobs.update_state(1, State::Waiting, None, 5).unwrap().completed_at, None);
    jobs.update_state(1, State::Done, None, 10);
    assert_eq!(jobs.update_state(1, State::Waiting, None, 20).unwrap().completed_at, Some(10));
    assert_eq!(jobs.update_state(1, State::Processing, None, 30).unwrap().completed_at, Some(10));
    assert_eq!(jobs.update_state(1, State::Error, None, 40).unwrap().completed_at, Some(40));
}

#[test]
fn update_state_replaces_the_message() {
    let mut jobs = JobRegistry::new();
    jobs.insert(job(1));
    jobs.update_state(1, State::Error, Some("first".to_owned()), 1);
    let updated = jobs.update_state(1, State::Done, None, 2).unwrap();
    assert_eq!(updated.error_message, None);
}

#[test]
fn update_state_of_an_unknown_job_changes_nothing() {
    let mut jobs = JobRegistry::new();
    jobs.insert(job(1));
    assert_eq!(jobs.update_state(2, State::Done, None, 9), None);
    assert_eq!(jobs.len(), 1);
    assert_eq!(jobs.get(1), Some(job(1)));
}

#[test]
fn ids_names_every_job_once() {
    let mut jobs = JobRegistry::new();
    for id in [5u128, 3, 9, 3] {
        jobs.insert(job(id));
    }
    let mut ids = jobs.ids();
    ids.sort();
    assert_eq!(ids, vec![3, 5, 9]);
}

#[test]
fn snapshot_all_copies_every_job_once() {
    let mut jobs = JobRegistry::new();
    for id in [5u128, 3, 9] {
        jobs.insert(job(id));
    }
    jobs.update_state(3, State::Processing, None, 1);
    let mut listed = jobs.snapshot_all();
    listed.sort_by_key(|job| job.id);
    assert_eq!(listed.len(), 3);
    assert_eq!(listed[0], jobs.get(3).unwrap());
    assert_eq!(listed[0].state, State::Processing);
    assert_eq!(listed[1], job(5));
    assert_eq!(listed[2], job(9));
}

#[test]
fn state_tells_where_a_job_stands() {
    let mut jobs = JobRegistry::new();
    jobs.insert(job(1));
    assert_eq!(jobs.state(1), Some(State::Waiting));
    jobs.update_state(1, State::Error, Some("x".to_owned()), 3);
    assert_eq!(jobs.state(1), Some(State::Error));
    assert_eq!(jobs.state(2), None);
}
