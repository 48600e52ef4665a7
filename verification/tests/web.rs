use ffserve::command::{IoError, Metadata};
use ffserve::config::{Config, VideoOrientation};
use ffserve::models::{Job, State};
use ffserve::queue::WorkQueue;
use ffserve::registry::JobRegistry;
use ffserve::web::{
    expired_at, get_port, status, submit, validate_video_metadata, ErrorResponse, ErrorType,
    JobState, Submission, SubmitResponse, NANOS_PER_SECOND,
};

const ID: u128 = 0xa1a2a3a4b1b2c1c2d1d2d3d4d5d6d7d8;

fn video(width: u32, height: u32, duration: u64) -> Result<Metadata, IoError> {
    Ok(Metadata { width, height, duration })
}

fn policy(length: Option<u64>, orientation: Option<VideoOrientation>) -> Config {
    Config {
        ffmpeg_arguments_pass_1: "-i $INPUT",
        ffmpeg_arguments_pass_2: None,
        maximum_video_length: length,
        require_orientation: orientation,
        expire_completed_jobs_after: 3600,
    }
}

fn passes(width: u32, height: u32, duration: u64) -> Result<Metadata, (ErrorType, String)> {
    Ok(Metadata { width, height, duration })
}

fn rejection(kind: ErrorType, description: &str) -> Result<Metadata, (ErrorType, String)> {
    Err((kind, description.to_owned()))
}

fn ended(id: u128, state: State, at: u64) -> Job {
    let mut job = Job::new(id, "s".to_owned(), "d".to_owned());
    job.state = state;
    job.completed_at = Some(at);
    if state == State::Error {
        job.error_message = Some("ffmpeg pass 1 failed\n\nboom".to_owned());
    }
    job
}

#[test]
fn the_stock_configuration_is_as_documented() {
    let config = Config::stock();
    assert_eq!(config.maximum_video_length, Some(120));
    assert_eq!(config.require_orientation, Some(VideoOrientation::Landscape));
    assert_eq!(config.expire_completed_jobs_after, 3600);
    assert!(config.ffmpeg_arguments_pass_1.starts_with("-i $INPUT -vf scale=1280x720 "));
    assert!(config.ffmpeg_arguments_pass_1.ends_with(" -pass 1 -an -f null /dev/null"));
    assert!(config.ffmpeg_arguments_pass_2.unwrap().ends_with(" -pass 2 -c:a libopus -y $OUTPUT"));
}

#[test]
fn a_failed_probe_makes_an_invalid_video() {
    let probed = Err(IoError { message: "no duration found".to_owned() });
    assert_eq!(
        validate_video_metadata(probed, &Config::stock()),
        rejection(ErrorType::InvalidVideo, "Supplied file is not in a recognised video format")
    );
}

#[test]
fn a_video_over_the_limit_is_too_long() {
    assert_eq!(
        validate_video_metadata(video(1280, 720, 150), &Config::stock()),
        rejection(ErrorType::VideoTooLong, "Video duration is greater than 120 seconds")
    );
    assert_eq!(
        validate_video_metadata(video(1280, 720, 121), &Config::stock()),
        rejection(ErrorType::VideoTooLong, "Video duration is greater than 120 seconds")
    );
    assert_eq!(
        validate_video_metadata(video(1, 1, 8), &policy(Some(7), None)),
        rejection(ErrorType::VideoTooLong, "Video duration is greater than 7 seconds")
    );
}

#[test]
fn a_video_at_the_limit_passes() {
    assert_eq!(validate_video_metadata(video(1280, 720, 120), &Config::stock()), passes(1280, 720, 120));
    assert_eq!(validate_video_metadata(video(1280, 720, 0), &policy(Some(0), None)), passes(1280, 720, 0));
}

#[test]
fn the_length_is_judged_before_the_orientation() {
    assert_eq!(
        validate_video_metadata(video(720, 1280, 150), &Config::stock()),
        rejection(ErrorType::VideoTooLong, "Video duration is greater than 120 seconds")
    );
}

#[test]
fn a_portrait_video_fails_a_landscape_policy() {
    assert_eq!(
        validate_video_metadata(video(720, 1280, 30), &Config::stock()),
        rejection(
            ErrorType::IncorrectOrientation,
            "Video is in portrait orientation, only landscape videos are accepted"
        )
    );
    assert_eq!(validate_video_metadata(video(1280, 720, 30), &Config::stock()), passes(1280, 720, 30));
}

#[test]
fn a_landscape_video_fails_a_portrait_policy() {
    let config = policy(None, Some(VideoOrientation::Portrait));
    assert_eq!(
        validate_video_metadata(video(1280, 720, 30), &config),
        rejection(
            ErrorType::IncorrectOrientation,
            "Video is in landscape orientation, only portrait videos are accepted"
        )
    );
    assert_eq!(validate_video_metadata(video(720, 1280, 30), &config), passes(720, 1280, 30));
}

#[test]
fn a_square_video_has_either_orientation() {
    let landscape = policy(None, Some(VideoOrientation::Landscape));
    let portrait = policy(None, Some(VideoOrientation::Portrait));
    assert_eq!(validate_video_metadata(video(500, 500, 30), &landscape), passes(500, 500, 30));
    assert_eq!(validate_video_metadata(video(500, 500, 30), &portrait), passes(500, 500, 30));
}

#[test]
fn without_a_policy_every_probed_video_passes() {
    let config = policy(None, None);
    assert_eq!(validate_video_metadata(video(1, 9999, u64::MAX), &config), passes(1, 9999, u64::MAX));
}

#[test]
fn error_types_have_their_names() {
    assert_eq!(ErrorType::InvalidVideo.to_string(), "InvalidVideo");
    assert_eq!(ErrorType::VideoTooLong.to_string(), "VideoTooLong");
    assert_eq!(ErrorType::IncorrectOrientation.to_string(), "IncorrectOrientation");
}

#[test]
fn submit_registers_and_queues_a_video_that_passes() {
    let mut jobs = JobRegistry::new();
    let mut queue = WorkQueue::new(4);
    let outcome = submit(
        &mut jobs,
        &mut queue,
        ID,
        "https://x/ok.mp4".to_owned(),
        "https://y/out".to_owned(),
        video(1280, 720, 30),
        &Config::stock(),
    );
    assert_eq!(
        outcome,
        Submission::Accepted(SubmitResponse {
            id: "a1a2a3a4-b1b2-c1c2-d1d2-d3d4d5d6d7d8".to_owned(),
            metadata: Metadata { width: 1280, height: 720, duration: 30 },
        })
    );
    assert_eq!(outcome.status_code(), 200);
    assert_eq!(
        jobs.get(ID),
        Some(Job::new(ID, "https://x/ok.mp4".to_owned(), "https://y/out".to_owned()))
    );
    assert_eq!(jobs.len(), 1);
    assert_eq!(queue.pop(), Some(ID));
    assert_eq!(queue.pop(), None);
}

#[test]
fn submit_leaves_no_trace_of_a_video_that_is_turned_down() {
    let mut jobs = JobRegistry::new();
    let mut queue = WorkQueue::new(4);
    jobs.insert(Job::new(1, "s".to_owned(), "d".to_owned()));
    queue.push(1);
    let outcome = submit(
        &mut jobs,
        &mut queue,
        ID,
        "https://x/ok.mp4".to_owned(),
        "https://y/out".to_owned(),
        video(1280, 720, 150),
        &Config::stock(),
    );
    assert_eq!(
        outcome,
        Submission::Rejected(ErrorResponse {
            error: ErrorType::VideoTooLong,
            description: "Video duration is greater than 120 seconds".to_owned(),
        })
    );
    assert_eq!(outcome.status_code(), 400);
    assert_eq!(jobs.len(), 1);
    assert!(!jobs.contains(ID));
    assert_eq!(queue.len(), 1);
}

#[test]
fn submit_turns_down_an_invalid_video() {
    let mut jobs = JobRegistry::new();
    let mut queue = WorkQueue::new(4);
    let outcome = submit(
        &mut jobs,
        &mut queue,
        ID,
        "s".to_owned(),
        "d".to_owned(),
        Err(IoError { message: "invalid encoding".to_owned() }),
        &Config::stock(),
    );
    assert_eq!(
        outcome,
        Submission::Rejected(ErrorResponse {
            error: ErrorType::InvalidVideo,
            description: "Supplied file is not in a recognised video format".to_owned(),
        })
    );
    assert_eq!(jobs.len(), 0);
    assert_eq!(queue.len(), 0);
}

#[test]
fn submit_stalls_on_a_full_queue_and_goes_through_once_there_is_room() {
    let mut jobs = JobRegistry::new();
    let mut queue = WorkQueue::new(2);
    let config = Config::stock();
    for id in [1u128, 2] {
        let outcome =
            submit(&mut jobs, &mut queue, id, "s".to_owned(), "d".to_owned(), video(1280, 720, 30), &config);
        assert_eq!(outcome.status_code(), 200);
    }
    let stalled =
        submit(&mut jobs, &mut queue, 3, "s".to_owned(), "d".to_owned(), video(1280, 720, 30), &config);
    assert_eq!(stalled, Submission::Busy);
    assert_eq!(jobs.len(), 2);
    assert!(!jobs.contains(3));
    assert_eq!(queue.len(), 2);
    assert_eq!(queue.pop(), Some(1));
    let retried =
        submit(&mut jobs, &mut queue, 3, "s".to_owned(), "d".to_owned(), video(1280, 720, 30), &config);
    assert_eq!(retried.status_code(), 200);
    assert!(jobs.contains(3));
    assert_eq!(queue.pop(), Some(2));
    assert_eq!(queue.pop(), Some(3));
}

#[test]
fn submit_turns_a_bad_video_down_even_when_the_queue_is_full() {
    let mut jobs = JobRegistry::new();
    let mut queue = WorkQueue::new(0);
    let outcome =
        submit(&mut jobs, &mut queue, 3, "s".to_owned(), "d".to_owned(), video(720, 1280, 30), &Config::stock());
    assert_eq!(outcome.status_code(), 400);
}

#[test]
fn submit_fails_when_the_worker_has_stopped() {
    let mut jobs = JobRegistry::new();
    let mut queue = WorkQueue::new(2);
    queue.close();
    let outcome =
        submit(&mut jobs, &mut queue, 3, "s".to_owned(), "d".to_owned(), video(1280, 720, 30), &Config::stock());
    assert_eq!(outcome, Submission::Failed);
    assert_eq!(outcome.status_code(), 500);
    assert_eq!(jobs.len(), 0);
    assert_eq!(queue.len(), 0);
}

#[test]
fn get_port_reads_a_port_number() {
    assert_eq!(get_port(Some("8080".to_owned())), 8080);
    assert_eq!(get_port(Some("0".to_owned())), 0);
    assert_eq!(get_port(Some("65535".to_owned())), 65535);
    assert_eq!(get_port(Some("+81".to_owned())), 81);
}

#[test]
fn get_port_falls_back_to_the_default() {
    assert_eq!(get_port(None), 3600);
    assert_eq!(get_port(Some(String::new())), 3600);
    assert_eq!(get_port(Some("65536".to_owned())), 3600);
    assert_eq!(get_port(Some("-1".to_owned())), 3600);
    assert_eq!(get_port(Some("http".to_owned())), 3600);
    assert_eq!(get_port(Some(" 80".to_owned())), 3600);
}

#[test]
fn a_job_expires_once_more_than_the_retention_has_passed() {
    let hour = 3600 * NANOS_PER_SECOND;
    let job = ended(1, State::Done, 1_000);
    assert!(!expired_at(&job, 1_000, 3600));
    assert!(!expired_at(&job, 1_000 + hour, 3600));
    assert!(expired_at(&job, 1_001 + hour, 3600));
    assert!(!expired_at(&job, 0, 3600));
    assert!(expired_at(&job, 1_001, 0));
    assert!(!expired_at(&job, 1_000, 0));
    assert!(!expired_at(&job, u64::MAX, u64::MAX));
}

#[test]
fn only_a_job_that_has_ended_expires() {
    let mut job = Job::new(1, "s".to_owned(), "d".to_owned());
    assert!(!expired_at(&job, u64::MAX, 0));
    job.state = State::Processing;
    job.completed_at = Some(0);
    assert!(!expired_at(&job, u64::MAX, 0));
    job.state = State::Error;
    assert!(expired_at(&job, u64::MAX, 0));
}

#[test]
fn status_lists_the_jobs_that_remain_and_names_those_that_expired() {
    let hour = 3600 * NANOS_PER_SECOND;
    let mut jobs = JobRegistry::new();
    jobs.insert(Job::new(1, "s".to_owned(), "d".to_owned()));
    jobs.insert(ended(2, State::Done, 10));
    jobs.insert(ended(3, State::Error, 5_000));
    jobs.insert(ended(ID, State::Error, 20));
    let report = status(&mut jobs, 4_000 + hour, &Config::stock());

    let mut expired = report.expired.clone();
    expired.sort();
    assert_eq!(expired, vec![2, ID]);
    assert_eq!(jobs.len(), 2);
    assert!(jobs.contains(1));
    assert!(jobs.contains(3));
    assert!(!jobs.contains(2));
    assert!(!jobs.contains(ID));

    let mut shown = report.response.jobs.clone();
    shown.sort_by_key(|entry| entry.id.clone());
    assert_eq!(
        shown,
        vec![
            JobState {
                id: "00000000-0000-0000-0000-000000000001".to_owned(),
                state: "Waiting".to_owned(),
                error_message: None,
            },
            JobState {
                id: "00000000-0000-0000-0000-000000000003".to_owned(),
                state: "Error".to_owned(),
                error_message: Some("ffmpeg pass 1 failed\n\nboom".to_owned()),
            },
        ]
    );

    assert_eq!(report.artifacts.len(), 4);
    for (i, id) in report.expired.iter().enumerate() {
        let name = uuid::Uuid::from_u128(*id).to_string();
        assert_eq!(report.artifacts[2 * i], name);
        assert_eq!(report.artifacts[2 * i + 1], format!("{name}.webm"));
    }
}

#[test]
fn status_of_an_empty_registry_is_empty() {
    let mut jobs = JobRegistry::new();
    let report = status(&mut jobs, 0, &Config::stock());
    assert!(report.response.jobs.is_empty());
    assert!(report.expired.is_empty());
    assert!(report.artifacts.is_empty());
}

#[test]
fn a_second_status_query_finds_nothing_more_to_sweep() {
    let mut jobs = JobRegistry::new();
    jobs.insert(ended(2, State::Done, 0));
    let now = 3601 * NANOS_PER_SECOND;
    let first = status(&mut jobs, now, &Config::stock());
    assert_eq!(first.expired, vec![2]);
    assert!(first.response.jobs.is_empty());
    let second = status(&mut jobs, now, &Config::stock());
    assert!(second.expired.is_empty());
    assert!(second.response.jobs.is_empty());
}

#[test]
fn submit_turns_down_an_identifier_that_is_taken() {
    let mut jobs = JobRegistry::new();
    let mut queue = WorkQueue::new(4);
    let config = Config::stock();
    let first =
        submit(&mut jobs, &mut queue, ID, "s".to_owned(), "d".to_owned(), video(1280, 720, 30), &config);
    assert_eq!(first.status_code(), 200);
    assert_eq!(queue.pop(), Some(ID));
    jobs.update_state(ID, State::Processing, None, 5);
    let before = jobs.get(ID).unwrap();

    let again = submit(
        &mut jobs,
        &mut queue,
        ID,
        "other".to_owned(),
        "elsewhere".to_owned(),
        video(1280, 720, 30),
        &config,
    );
    assert_eq!(again, Submission::Taken);
    assert_eq!(again.status_code(), 500);
    assert_eq!(jobs.len(), 1);
    assert_eq!(jobs.get(ID).unwrap(), before);
    assert_eq!(queue.len(), 0);

    let bad = submit(&mut jobs, &mut queue, ID, "s".to_owned(), "d".to_owned(), video(720, 1280, 30), &config);
    assert_eq!(bad, Submission::Taken);
    assert_eq!(jobs.get(ID).unwrap(), before);
}

#[test]
fn an_accepted_submission_adds_one_job() {
    let mut jobs = JobRegistry::new();
    let mut queue = WorkQueue::new(4);
    let config = Config::stock();
    for (count, id) in [11u128, 12, 13].into_iter().enumerate() {
        assert!(!jobs.contains(id));
        let outcome =
            submit(&mut jobs, &mut queue, id, "s".to_owned(), "d".to_owned(), video(1280, 720, 30), &config);
        assert_eq!(outcome.status_code(), 200);
        assert_eq!(jobs.len(), count + 1);
        assert_eq!(jobs.get(id).unwrap().state, State::Waiting);
    }
}
