//! What the server answers: the verdict on a submitted video, the admission
//! of its job, and the status report with its sweep of expired jobs.

use crate::command::{IoError, Metadata};
use crate::config::{Config, VideoOrientation};
use crate::models::{
    build_path, id_string, id_text, lemma_id_text_is_injective, path_of, FileType, Job, JobView,
    State,
};
use crate::queue::{Push, WorkQueue};
use crate::models::{clone_text, text_view};
use crate::registry::{is_snapshot, job_views, keyed, JobRegistry};
use crate::text::{decimal, decimal_text, parse_decimal, parsed_decimal, texts};
use vstd::prelude::*;

verus! {

/// Why a video was turned down.
#[derive(Clone, Copy, Debug, PartialEq, Eq, Structural)]
pub enum ErrorType {
    InvalidVideo,
    VideoTooLong,
    IncorrectOrientation,
}

impl ErrorType {
    /// The reason's name as answers show it.
    pub open spec fn name(self) -> Seq<char> {
        match self {
            ErrorType::InvalidVideo => "InvalidVideo"@,
            ErrorType::VideoTooLong => "VideoTooLong"@,
            ErrorType::IncorrectOrientation => "IncorrectOrientation"@,
        }
    }

    /// The reason's name as answers show it.
    pub fn to_string(&self) -> (text: String)
        ensures
            text@ == self.name(),
    {
        match self {
            ErrorType::InvalidVideo => "InvalidVideo".to_owned(),
            ErrorType::VideoTooLong => "VideoTooLong".to_owned(),
            ErrorType::IncorrectOrientation => "IncorrectOrientation".to_owned(),
        }
    }
}

/// The answer to a submission that was turned down.
#[derive(Clone, Debug, PartialEq, Eq)]
pub struct ErrorResponse {
    pub error: ErrorType,
    pub description: String,
}

/// The answer to a submission that was accepted.
#[derive(Clone, Debug, PartialEq, Eq)]
pub struct SubmitResponse {
    pub id: String,
    pub metadata: Metadata,
}

/// The port that the server listens on when none is set.
pub const DEFAULT_PORT: u16 = 3600;

/// The description of a video that runs longer than `max` seconds.
pub open spec fn too_long_text(max: u64) -> Seq<char> {
    "Video duration is greater than "@ + decimal(max as nat) + " seconds"@
}

/// The verdict on a probed video under a policy: the metadata of a video that
/// passes, or the reason and its description for one that does not.
///
/// A failed probe makes an invalid video. The length is judged before the
/// orientation. A square video has either orientation.
pub open spec fn verdict(probed: Result<Metadata, IoError>, config: Config) -> Result<
    Metadata,
    (ErrorType, Seq<char>),
> {
    match probed {
        Err(_) => Err(
            (ErrorType::InvalidVideo, "Supplied file is not in a recognised video format"@),
        ),
        Ok(metadata) => if config.maximum_video_length matches Some(max) && metadata.duration
            > max {
            Err((ErrorType::VideoTooLong, too_long_text(config.maximum_video_length->0)))
        } else if config.require_orientation == Some(VideoOrientation::Landscape)
            && metadata.height > metadata.width {
            Err(
                (
                    ErrorType::IncorrectOrientation,
                    "Video is in portrait orientation, only landscape videos are accepted"@,
                ),
            )
        } else if config.require_orientation == Some(VideoOrientation::Portrait)
            && metadata.height < metadata.width {
            Err(
                (
                    ErrorType::IncorrectOrientation,
                    "Video is in landscape orientation, only portrait videos are accepted"@,
                ),
            )
        } else {
            Ok(metadata)
        },
    }
}

/// `result` is the verdict `expected`, descriptions compared as text.
pub open spec fn is_verdict(
    result: Result<Metadata, (ErrorType, String)>,
    expected: Result<Metadata, (ErrorType, Seq<char>)>,
) -> bool {
    match (result, expected) {
        (Ok(found), Ok(metadata)) => found == metadata,
        (Err((kind, description)), Err((reason, text))) => kind == reason && description@ == text,
        _ => false,
    }
}

/// Judges a probed video under the policy of `config`.
///
/// `probed` is what the probe of the downloaded file gave.
pub fn validate_video_metadata(probed: Result<Metadata, IoError>, config: &Config) -> (result:
    Result<Metadata, (ErrorType, String)>)
    ensures
        is_verdict(result, verdict(probed, *config)),
{
    let metadata = match probed {
        Ok(metadata) => metadata,
        Err(_) => {
            return Err(
                (
                    ErrorType::InvalidVideo,
                    "Supplied file is not in a recognised video format".to_owned(),
                ),
            );
        },
    };
    if let Some(max_length) = config.maximum_video_length {
        if metadata.duration > max_length {
            let mut description = "Video duration is greater than ".to_owned();
            let seconds = decimal_text(max_length);
            description.append(seconds.as_str());
            description.append(" seconds");
            return Err((ErrorType::VideoTooLong, description));
        }
    }
    match config.require_orientation {
        Some(VideoOrientation::Landscape) => {
            if metadata.height > metadata.width {
                return Err(
                    (
                        ErrorType::IncorrectOrientation,
                        "Video is in portrait orientation, only landscape videos are accepted".to_owned(),
                    ),
                );
            }
        },
        Some(VideoOrientation::Portrait) => {
            if metadata.height < metadata.width {
                return Err(
                    (
                        ErrorType::IncorrectOrientation,
                        "Video is in landscape orientation, only portrait videos are accepted".to_owned(),
                    ),
                );
            }
        },
        None => {},
    }
    Ok(metadata)
}

/// Under a landscape policy a video that is higher than wide is turned down
/// for its orientation, and one that is at least as wide as high, a square
/// one included, passes. The same holds with the sides exchanged under a
/// portrait policy. The video is taken to be short enough.
pub proof fn lemma_orientation_policy(metadata: Metadata, config: Config)
    requires
        config.maximum_video_length matches Some(max) ==> metadata.duration <= max,
    ensures
        config.require_orientation == Some(VideoOrientation::Landscape) ==> (if metadata.height
            > metadata.width {
            verdict(Ok(metadata), config) matches Err((reason, _)) && reason
                == ErrorType::IncorrectOrientation
        } else {
            verdict(Ok(metadata), config) == Ok::<Metadata, (ErrorType, Seq<char>)>(metadata)
        }),
        config.require_orientation == Some(VideoOrientation::Portrait) ==> (if metadata.height
            < metadata.width {
            verdict(Ok(metadata), config) matches Err((reason, _)) && reason
                == ErrorType::IncorrectOrientation
        } else {
            verdict(Ok(metadata), config) == Ok::<Metadata, (ErrorType, Seq<char>)>(metadata)
        }),
        config.require_orientation is None ==> verdict(Ok(metadata), config) == Ok::<
            Metadata,
            (ErrorType, Seq<char>),
        >(metadata),
{
}

/// How a submission ended.
#[derive(Clone, Debug, PartialEq, Eq)]
pub enum Submission {
    /// The job is registered as waiting and its identifier is queued.
    Accepted(SubmitResponse),
    /// The video does not meet the policy. No job exists.
    Rejected(ErrorResponse),
    /// The video passes, but the queue is full. Nothing has changed: the
    /// caller waits until the worker has taken an identifier and submits again.
    Busy,
    /// The video passes, but the worker has stopped. Nothing has changed and
    /// the server cannot go on.
    Failed,
    /// A job is registered under the identifier already. Nothing has changed,
    /// and the file stored under the identifier is that job's: the caller
    /// draws another identifier.
    Taken,
}

impl Submission {
    /// The HTTP status that goes with the outcome, for the outcomes that are
    /// answered at once: 200, 400 and 500.
    pub open spec fn status(self) -> u16 {
        match self {
            Submission::Accepted(_) => 200,
            Submission::Rejected(_) => 400,
            _ => 500,
        }
    }

    /// The HTTP status that goes with the outcome.
    pub fn status_code(&self) -> (code: u16)
        ensures
            code == self.status(),
    {
        match self {
            Submission::Accepted(_) => 200,
            Submission::Rejected(_) => 400,
            _ => 500,
        }
    }
}

/// Whether a submission leads to a job: no job is registered under its
/// identifier, the video passes the policy, and the queue is open and has
/// room.
pub open spec fn admitted(
    jobs: Map<u128, JobView>,
    id: u128,
    probed: Result<Metadata, IoError>,
    config: Config,
    queue: WorkQueue,
) -> bool {
    &&& !jobs.contains_key(id)
    &&& verdict(probed, config) is Ok
    &&& !queue.shut()
    &&& queue@.len() < queue.limit()
}

/// The registry after a submission: with the new job, waiting, where the
/// submission is admitted, and as before where it is not.
pub open spec fn registered(
    jobs: Map<u128, JobView>,
    id: u128,
    source_url: Seq<char>,
    dest_url: Seq<char>,
    probed: Result<Metadata, IoError>,
    config: Config,
    queue: WorkQueue,
) -> Map<u128, JobView> {
    if admitted(jobs, id, probed, config, queue) {
        jobs.insert(id, JobView::fresh(id, source_url, dest_url))
    } else {
        jobs
    }
}

/// A video that runs longer than the policy allows is turned down as too
/// long, whatever its orientation and whatever the state of the queue, and so
/// never leads to a job: the registry stays as it is.
pub proof fn lemma_too_long_is_rejected(
    jobs: Map<u128, JobView>,
    id: u128,
    source_url: Seq<char>,
    dest_url: Seq<char>,
    metadata: Metadata,
    config: Config,
    queue: WorkQueue,
)
    requires
        config.maximum_video_length matches Some(max) && metadata.duration > max,
    ensures
        verdict(Ok(metadata), config) matches Err((reason, _)) && reason == ErrorType::VideoTooLong,
        !admitted(jobs, id, Ok(metadata), config, queue),
        registered(jobs, id, source_url, dest_url, Ok(metadata), config, queue) == jobs,
{
}

/// A video that passes while the queue is open and full leads to no job yet:
/// the submission stalls and the registry stays as it is.
pub proof fn lemma_full_queue_stalls(
    jobs: Map<u128, JobView>,
    id: u128,
    source_url: Seq<char>,
    dest_url: Seq<char>,
    probed: Result<Metadata, IoError>,
    config: Config,
    queue: WorkQueue,
)
    requires
        queue@.len() >= queue.limit(),
    ensures
        !admitted(jobs, id, probed, config, queue),
        registered(jobs, id, source_url, dest_url, probed, config, queue) == jobs,
{
}

/// A submission that is admitted adds exactly one job, a new one that waits:
/// no job was registered under its identifier before, every other record
/// stays, and the registry has grown by one.
pub proof fn lemma_admission_adds_one_job(
    jobs: Map<u128, JobView>,
    id: u128,
    source_url: Seq<char>,
    dest_url: Seq<char>,
    probed: Result<Metadata, IoError>,
    config: Config,
    queue: WorkQueue,
)
    requires
        jobs.dom().finite(),
        admitted(jobs, id, probed, config, queue),
    ensures
        !jobs.contains_key(id),
        registered(jobs, id, source_url, dest_url, probed, config, queue) == jobs.insert(
            id,
            JobView::fresh(id, source_url, dest_url),
        ),
        registered(jobs, id, source_url, dest_url, probed, config, queue)[id].state
            == State::Waiting,
        registered(jobs, id, source_url, dest_url, probed, config, queue).len() == jobs.len() + 1,
        forall|other: u128|
            #![trigger jobs[other]]
            jobs.contains_key(other) ==> registered(
                jobs,
                id,
                source_url,
                dest_url,
                probed,
                config,
                queue,
            )[other] == jobs[other],
{
}

/// Decides on a submission and, where it is admitted, registers its job as
/// waiting and queues its identifier.
///
/// `id` is the identifier that the caller drew for this submission and under
/// which it stored the download; `probed` is what the probe of that file gave.
/// An identifier under which a job is registered is turned down before the
/// video is looked at. A video that is turned down leaves registry and queue
/// untouched, and so does one that passes while the queue is full or closed.
pub fn submit(
    jobs: &mut JobRegistry,
    queue: &mut WorkQueue,
    id: u128,
    source_url: String,
    dest_url: String,
    probed: Result<Metadata, IoError>,
    config: &Config,
) -> (outcome: Submission)
    ensures
        if old(jobs)@.contains_key(id) {
            outcome == Submission::Taken
        } else {
            match verdict(probed, *config) {
                Err((reason, text)) => outcome matches Submission::Rejected(answer) && answer.error
                    == reason && answer.description@ == text,
                Ok(metadata) => if old(queue).shut() {
                    outcome == Submission::Failed
                } else if old(queue)@.len() >= old(queue).limit() {
                    outcome == Submission::Busy
                } else {
                    outcome matches Submission::Accepted(answer) && answer.id@ == id_text(id)
                        && answer.metadata == metadata
                },
            }
        },
        outcome is Accepted <==> admitted(old(jobs)@, id, probed, *config, *old(queue)),
        outcome is Accepted ==> !old(jobs)@.contains_key(id) && final(jobs)@.len() == old(
            jobs,
        )@.len() + 1,
        final(jobs)@ == registered(
            old(jobs)@,
            id,
            source_url@,
            dest_url@,
            probed,
            *config,
            *old(queue),
        ),
        final(queue).holds(
            *old(queue),
            if admitted(old(jobs)@, id, probed, *config, *old(queue)) {
                old(queue)@.push(id)
            } else {
                old(queue)@
            },
        ),
        keyed(final(jobs)@),
{
    if jobs.contains(id) {
        return Submission::Taken;
    }
    let metadata = match validate_video_metadata(probed, config) {
        Ok(metadata) => metadata,
        Err((error, description)) => {
            return Submission::Rejected(ErrorResponse { error, description });
        },
    };
    if queue.is_closed() {
        return Submission::Failed;
    }
    if queue.is_full() {
        return Submission::Busy;
    }
    jobs.insert(Job::new(id, source_url, dest_url));
    let pushed = queue.push(id);
    assert(pushed == Push::Queued);
    Submission::Accepted(SubmitResponse { id: id_string(id), metadata })
}

/// The port to listen on: the number that `value` writes where it is one that
/// fits a port, and [`DEFAULT_PORT`] otherwise.
pub open spec fn port_of(value: Option<String>) -> u16 {
    match value {
        Some(text) => match parsed_decimal(text@, 65535) {
            Some(port) => port as u16,
            None => DEFAULT_PORT,
        },
        None => DEFAULT_PORT,
    }
}

/// The port to listen on, from the value of the `PORT` setting if there is
/// one.
pub fn get_port(value: Option<String>) -> (port: u16)
    ensures
        port == port_of(value),
{
    match value {
        Some(text) => match parse_decimal(text.as_str(), 65535) {
            Some(port) => port as u16,
            None => DEFAULT_PORT,
        },
        None => DEFAULT_PORT,
    }
}

/// Nanoseconds in one second: the clock counts the former, the
/// configuration the latter.
pub const NANOS_PER_SECOND: u64 = 1_000_000_000;

/// One job in a status report.
#[derive(Clone, Debug, PartialEq, Eq)]
pub struct JobState {
    pub id: String,
    pub state: String,
    pub error_message: Option<String>,
}

/// An entry of a status report as contracts speak of it.
pub ghost struct JobStateView {
    pub id: Seq<char>,
    pub state: Seq<char>,
    pub error_message: Option<Seq<char>>,
}

impl View for JobState {
    type V = JobStateView;

    open spec fn view(&self) -> JobStateView {
        JobStateView {
            id: self.id@,
            state: self.state@,
            error_message: text_view(self.error_message),
        }
    }
}

/// The answer to a status query.
#[derive(Clone, Debug, PartialEq, Eq)]
pub struct StatusResponse {
    pub jobs: Vec<JobState>,
}

/// A status query's answer together with what its sweep took away.
#[derive(Clone, Debug, PartialEq, Eq)]
pub struct StatusReport {
    /// The jobs that remain.
    pub response: StatusResponse,
    /// The identifiers of the jobs that the sweep removed.
    pub expired: Vec<u128>,
    /// The files of the removed jobs, for the caller to delete: for each
    /// removed job its input file, then its output file.
    pub artifacts: Vec<String>,
}

/// The entry that shows `job` in a status report.
pub open spec fn entry_of(job: JobView) -> JobStateView {
    JobStateView {
        id: id_text(job.id),
        state: job.state.name(),
        error_message: job.error_message,
    }
}

/// The entries as contracts speak of them.
pub open spec fn entries(jobs: Seq<JobState>) -> Seq<JobStateView> {
    Seq::new(jobs.len(), |i: int| jobs[i]@)
}

/// The time that has passed at `now` since `since`, both readings of the same
/// monotonic clock; none where the clock reads less than before.
pub open spec fn elapsed(now: u64, since: u64) -> nat {
    if now >= since {
        (now - since) as nat
    } else {
        0
    }
}

/// Whether a job is due for removal at `now`: it has ended, and more than
/// `retention` seconds have passed since.
pub open spec fn is_expired(job: JobView, now: u64, retention: u64) -> bool {
    &&& job.state.is_terminal()
    &&& job.completed_at matches Some(at) && elapsed(now, at) > retention * NANOS_PER_SECOND
}

/// The registry after a sweep: the jobs that are not due for removal.
pub open spec fn swept(jobs: Map<u128, JobView>, now: u64, retention: u64) -> Map<u128, JobView> {
    Map::new(
        |id: u128| jobs.contains_key(id) && !is_expired(jobs[id], now, retention),
        |id: u128| jobs[id],
    )
}

/// A job that ended at `at` is gone after a sweep at `now` if more than the
/// retention has passed since, and is still there, its record unchanged, if
/// not.
pub proof fn lemma_sweep_takes_the_expired(
    jobs: Map<u128, JobView>,
    id: u128,
    at: u64,
    now: u64,
    retention: u64,
)
    requires
        jobs.contains_key(id),
        jobs[id].state.is_terminal(),
        jobs[id].completed_at == Some(at),
    ensures
        now >= at && now - at > retention * NANOS_PER_SECOND ==> !swept(
            jobs,
            now,
            retention,
        ).contains_key(id),
        now < at || now - at <= retention * NANOS_PER_SECOND ==> swept(
            jobs,
            now,
            retention,
        ).contains_key(id) && swept(jobs, now, retention)[id] == jobs[id],
{
}

/// A job that has not ended outlasts every sweep.
pub proof fn lemma_sweep_keeps_the_unfinished(
    jobs: Map<u128, JobView>,
    id: u128,
    now: u64,
    retention: u64,
)
    requires
        jobs.contains_key(id),
        !jobs[id].state.is_terminal(),
    ensures
        swept(jobs, now, retention).contains_key(id),
        swept(jobs, now, retention)[id] == jobs[id],
{
}

/// `shown` has one entry for every job of `jobs` and no other. The order is
/// left open.
pub open spec fn is_listing(shown: Seq<JobStateView>, jobs: Map<u128, JobView>) -> bool {
    exists|listed: Seq<JobView>|
        {
            &&& #[trigger] is_snapshot(listed, jobs)
            &&& shown == Seq::new(listed.len(), |i: int| entry_of(listed[i]))
        }
}

/// A status answer names the registered jobs and no others: a job is
/// registered exactly if an entry carries its identifier, and that entry is
/// the job's own.
pub proof fn lemma_listing_names_the_jobs(
    shown: Seq<JobStateView>,
    jobs: Map<u128, JobView>,
    id: u128,
)
    requires
        is_listing(shown, jobs),
        keyed(jobs),
    ensures
        jobs.contains_key(id) <==> exists|i: int|
            0 <= i < shown.len() && (#[trigger] shown[i]).id == id_text(id),
        forall|i: int|
            0 <= i < shown.len() && (#[trigger] shown[i]).id == id_text(id) ==> shown[i]
                == entry_of(jobs[id]),
{
    let listed = choose|listed: Seq<JobView>|
        {
            &&& #[trigger] is_snapshot(listed, jobs)
            &&& shown == Seq::new(listed.len(), |i: int| entry_of(listed[i]))
        };
    assert forall|i: int|
        0 <= i < shown.len() && (#[trigger] shown[i]).id == id_text(id) implies listed[i].id == id
        && shown[i] == entry_of(jobs[id]) by {
        assert(shown[i] == entry_of(listed[i]));
        lemma_id_text_is_injective(listed[i].id, id);
        assert(jobs.contains_key(listed[i].id));
    }
    if jobs.contains_key(id) {
        let i = choose|i: int| 0 <= i < listed.len() && #[trigger] listed[i] == jobs[id];
        assert(shown[i] == entry_of(listed[i]));
        assert(shown[i].id == id_text(id));
    }
    if exists|i: int| 0 <= i < shown.len() && (#[trigger] shown[i]).id == id_text(id) {
        let i = choose|i: int| 0 <= i < shown.len() && (#[trigger] shown[i]).id == id_text(id);
        assert(listed[i].id == id);
        assert(jobs.contains_key(listed[i].id));
    }
}

/// For each job of `expired`, in order, its input file and then its output
/// file.
pub open spec fn artifacts_of(expired: Seq<u128>) -> Seq<Seq<char>> {
    Seq::new(
        2 * expired.len(),
        |i: int|
            if i % 2 == 0 {
                path_of(expired[i / 2], FileType::Input)
            } else {
                path_of(expired[i / 2], FileType::Output)
            },
    )
}

/// `jobs` without the records of the identifiers in `gone`.
pub open spec fn without(jobs: Map<u128, JobView>, gone: Seq<u128>) -> Map<u128, JobView> {
    Map::new(|id: u128| jobs.contains_key(id) && !gone.contains(id), |id: u128| jobs[id])
}

/// Whether a job is due for removal at `now`.
pub fn expired_at(job: &Job, now: u64, retention: u64) -> (due: bool)
    ensures
        due == is_expired(job@, now, retention),
{
    if !job.state.terminal() {
        return false;
    }
    match job.completed_at {
        Some(at) => {
            if now < at {
                false
            } else {
                let passed: u128 = (now - at) as u128;
                assert(retention * NANOS_PER_SECOND <= u64::MAX * NANOS_PER_SECOND)
                    by (nonlinear_arith)
                    requires
                        retention <= u64::MAX,
                ;
                let window: u128 = (retention as u128) * (NANOS_PER_SECOND as u128);
                passed > window
            }
        },
        None => false,
    }
}

/// Answers a status query at time `now` and sweeps the registry.
///
/// Every job that ended more than the configured retention before `now` is
/// removed from the registry and named in the report with its files. All other
/// jobs stay and are listed in the answer.
pub fn status(jobs: &mut JobRegistry, now: u64, config: &Config) -> (report: StatusReport)
    ensures
        final(jobs)@ == swept(old(jobs)@, now, config.expire_completed_jobs_after),
        is_listing(entries(report.response.jobs@), final(jobs)@),
        report.expired@.no_duplicates(),
        forall|id: u128|
            report.expired@.contains(id) <==> old(jobs)@.contains_key(id) && is_expired(
                old(jobs)@[id],
                now,
                config.expire_completed_jobs_after,
            ),
        texts(report.artifacts@) == artifacts_of(report.expired@),
        keyed(final(jobs)@),
{
    let retention = config.expire_completed_jobs_after;
    let listed = jobs.snapshot_all();
    let ghost before = jobs@;
    let ghost all = job_views(listed@);
    let mut shown: Vec<JobState> = Vec::new();
    let mut expired: Vec<u128> = Vec::new();
    let mut artifacts: Vec<String> = Vec::new();
    let ghost mut kept: Seq<JobView> = Seq::empty();
    let ghost mut kept_from: Seq<int> = Seq::empty();
    let ghost mut expired_from: Seq<int> = Seq::empty();
    let mut i: usize = 0;
    while i < listed.len()
        invariant
            i <= listed.len(),
            jobs@ == before,
            all == job_views(listed@),
            is_snapshot(all, before),
            kept.len() + expired.len() == i,
            shown.len() == kept.len(),
            kept_from.len() == kept.len(),
            forall|k: int| 0 <= k < kept.len() ==> (#[trigger] shown[k])@ == entry_of(kept[k]),
            forall|k: int|
                0 <= k < kept.len() ==> 0 <= #[trigger] kept_from[k] < i && kept[k]
                    == all[kept_from[k]] && !is_expired(kept[k], now, retention),
            forall|a: int, b: int|
                0 <= a < b < kept.len() ==> #[trigger] kept_from[a] < #[trigger] kept_from[b],
            forall|j: int|
                0 <= j < i && !is_expired(#[trigger] all[j], now, retention) ==> exists|k: int|
                    0 <= k < kept.len() && #[trigger] kept_from[k] == j,
            expired_from.len() == expired.len(),
            forall|k: int|
                0 <= k < expired.len() ==> 0 <= #[trigger] expired_from[k] < i && expired[k]
                    == all[expired_from[k]].id && is_expired(
                    all[expired_from[k]],
                    now,
                    retention,
                ),
            forall|a: int, b: int|
                0 <= a < b < expired.len() ==> #[trigger] expired_from[a]
                    < #[trigger] expired_from[b],
            forall|j: int|
                0 <= j < i && is_expired(#[trigger] all[j], now, retention) ==> exists|k: int|
                    0 <= k < expired.len() && #[trigger] expired_from[k] == j,
            texts(artifacts@) == artifacts_of(expired@),
        decreases listed.len() - i,
    {
        let job = &listed[i];
        let id = job.id;
        assert(all[i as int] == job@);
        if expired_at(job, now, retention) {
            let ghost earlier = expired@;
            let ghost earlier_from = expired_from;
            let ghost earlier_artifacts = artifacts@;
            expired.push(id);
            artifacts.push(build_path(id, FileType::Input));
            artifacts.push(build_path(id, FileType::Output));
            proof {
                expired_from = expired_from.push(i as int);
                assert(texts(artifacts@) =~= artifacts_of(expired@)) by {
                    assert(texts(earlier_artifacts).len() == artifacts_of(earlier).len());
                    assert(earlier_artifacts.len() == 2 * earlier.len());
                    assert forall|n: int| 0 <= n < 2 * expired@.len() implies texts(
                        artifacts@,
                    )[n] == artifacts_of(expired@)[n] by {
                        if n < 2 * earlier.len() {
                            assert(artifacts@[n] == earlier_artifacts[n]);
                            assert(texts(earlier_artifacts)[n] == artifacts_of(earlier)[n]);
                            assert(expired@[n / 2] == earlier[n / 2]);
                        }
                    }
                }
                assert forall|j: int|
                    0 <= j < i + 1 && is_expired(#[trigger] all[j], now, retention) implies exists|
                    k: int,
                | 0 <= k < expired.len() && #[trigger] expired_from[k] == j by {
                    if j < i {
                        let k = choose|k: int|
                            0 <= k < earlier_from.len() && #[trigger] earlier_from[k] == j;
                        assert(expired_from[k] == j);
                    } else {
                        assert(expired_from[expired.len() - 1] == j);
                    }
                }
            }
        } else {
            let entry = JobState {
                id: id_string(id),
                state: job.state.to_string(),
                error_message: clone_text(&job.error_message),
            };
            shown.push(entry);
            let ghost earlier_from = kept_from;
            proof {
                kept = kept.push(all[i as int]);
                kept_from = kept_from.push(i as int);
                assert forall|j: int|
                    0 <= j < i + 1 && !is_expired(#[trigger] all[j], now, retention) implies exists|
                    k: int,
                | 0 <= k < kept.len() && #[trigger] kept_from[k] == j by {
                    if j < i {
                        let k = choose|k: int|
                            0 <= k < earlier_from.len() && #[trigger] earlier_from[k] == j;
                        assert(kept_from[k] == j);
                    } else {
                        assert(kept_from[kept.len() - 1] == j);
                    }
                }
            }
        }
        i = i + 1;
    }
    proof {
        assert forall|a: int, b: int| 0 <= a < b < expired.len() implies expired[a]
            != expired[b] by {
            assert(expired_from[a] < expired_from[b]);
            assert(all[expired_from[a]].id != all[expired_from[b]].id);
        }
        assert forall|id: u128|
            expired@.contains(id) <==> before.contains_key(id) && is_expired(
                before[id],
                now,
                retention,
            ) by {
            if expired@.contains(id) {
                let k = choose|k: int| 0 <= k < expired@.len() && expired@[k] == id;
                assert(before.contains_key(all[expired_from[k]].id));
            }
            if before.contains_key(id) && is_expired(before[id], now, retention) {
                let j = choose|j: int| 0 <= j < all.len() && #[trigger] all[j] == before[id];
                assert(is_expired(all[j], now, retention));
                let k = choose|k: int| 0 <= k < expired.len() && #[trigger] expired_from[k] == j;
                assert(expired@[k] == id);
            }
        }
    }
    let mut n: usize = 0;
    while n < expired.len()
        invariant
            n <= expired.len(),
            keyed(jobs@),
            jobs@ == without(before, expired@.take(n as int)),
            jobs@.dom().finite(),
            jobs@.len() + n == before.len(),
            expired@.no_duplicates(),
            forall|id: u128| expired@.contains(id) ==> before.contains_key(id),
        decreases expired.len() - n,
    {
        let ghost earlier = jobs@;
        proof {
            let id = expired[n as int];
            assert(expired@.contains(id));
            assert(!expired@.take(n as int).contains(id)) by {
                if expired@.take(n as int).contains(id) {
                    let k = choose|k: int| 0 <= k < n && expired@.take(n as int)[k] == id;
                    assert(expired@[k] == expired@[n as int]);
                }
            }
            earlier.lemma_remove_key_len(id);
        }
        jobs.remove(expired[n]);
        proof {
            let gone = expired@.take(n as int);
            let more = expired@.take(n + 1);
            assert forall|id: u128| more.contains(id) <==> gone.contains(id) || id
                == expired[n as int] by {
                if more.contains(id) {
                    let k = choose|k: int| 0 <= k < more.len() && more[k] == id;
                    if k < n {
                        assert(gone[k] == id);
                    }
                }
                if gone.contains(id) {
                    let k = choose|k: int| 0 <= k < gone.len() && gone[k] == id;
                    assert(more[k] == id);
                }
                assert(more[n as int] == expired[n as int]);
            }
            assert(jobs@ =~= without(before, more));
        }
        n = n + 1;
    }
    proof {
        assert(expired@.take(expired@.len() as int) =~= expired@);
        assert(jobs@ =~= swept(before, now, retention));
        let after = jobs@;
        assert(is_snapshot(kept, after)) by {
            assert forall|k: int| 0 <= k < kept.len() implies after.contains_key(
                #[trigger] kept[k].id,
            ) && after[kept[k].id] == kept[k] by {
                assert(before.contains_key(all[kept_from[k]].id));
            }
            assert forall|a: int, b: int| 0 <= a < b < kept.len() implies (#[trigger] kept[a]).id
                != (#[trigger] kept[b]).id by {
                assert(kept_from[a] < kept_from[b]);
                assert(all[kept_from[a]].id != all[kept_from[b]].id);
            }
            assert forall|id: u128| after.contains_key(id) implies exists|k: int|
                0 <= k < kept.len() && #[trigger] kept[k] == after[id] by {
                let j = choose|j: int| 0 <= j < all.len() && #[trigger] all[j] == before[id];
                assert(!is_expired(all[j], now, retention));
                let k = choose|k: int| 0 <= k < kept.len() && #[trigger] kept_from[k] == j;
                assert(kept[k] == after[id]);
            }
        }
        assert(entries(shown@) =~= Seq::new(kept.len(), |i: int| entry_of(kept[i])));
    }
    StatusReport { response: StatusResponse { jobs: shown }, expired, artifacts }
}

} // verus!
