//! The worker: one job at a time from the queue through the encoder passes
//! and the upload to its end.
//!
//! The worker's loop belongs to the caller, who runs the encoder and sends the
//! result. Each function here takes what the last step outside gave and says
//! what is to be done next; the job's record is moved on the way.

use crate::command::{judged, run_command, IoError, Output};
use crate::config::Config;
use crate::models::{build_path, path_of, FileType, Job, JobView, State};
use crate::registry::{keyed, with_state, JobRegistry};
use crate::text::{split, split_on_space, texts};
use vstd::prelude::*;

verus! {

/// The program that runs an encoder pass.
pub const ENCODER: &'static str = "ffmpeg";

/// The token of an argument template that stands for a job's input file.
pub const INPUT_TOKEN: &'static str = "$INPUT";

/// The token of an argument template that stands for a job's output file.
pub const OUTPUT_TOKEN: &'static str = "$OUTPUT";

/// One of the two encoder passes.
#[derive(Clone, Copy, Debug, PartialEq, Eq, Structural)]
pub enum Pass {
    First,
    Second,
}

impl Pass {
    /// The name of the pass in failure descriptions.
    pub open spec fn descriptor(self) -> Seq<char> {
        match self {
            Pass::First => "ffmpeg pass 1"@,
            Pass::Second => "ffmpeg pass 2"@,
        }
    }

    /// The name of the pass in failure descriptions.
    pub fn name(&self) -> (name: &'static str)
        ensures
            name@ == self.descriptor(),
    {
        match self {
            Pass::First => "ffmpeg pass 1",
            Pass::Second => "ffmpeg pass 2",
        }
    }
}

/// A job whose encoder pass is under way.
#[derive(Clone, Debug, PartialEq, Eq)]
pub struct Encoding {
    pub job: Job,
    pub pass: Pass,
}

/// A job whose result is being sent to its destination.
#[derive(Clone, Debug, PartialEq, Eq)]
pub struct Uploading {
    pub job: Job,
}

/// What the worker is to do next.
#[derive(Clone, Debug, PartialEq, Eq)]
pub enum Step {
    /// Take the next identifier from the queue, waiting for one if need be,
    /// and hand it to [`processor`].
    Receive,
    /// Run [`ENCODER`] with these arguments and hand what it left behind to
    /// [`transcode`], together with `work`.
    Run { work: Encoding, arguments: Vec<String> },
    /// Send the file `path` to the job's destination and hand the outcome to
    /// [`upload`], together with `sending`.
    Upload { sending: Uploading, path: String },
    /// Nothing more will come: end the loop.
    Stop,
}

/// A result with its error's text wrapped as an error of this library.
pub fn error_to_io_error<T>(result: Result<T, String>) -> (mapped: Result<T, IoError>)
    ensures
        match result {
            Ok(value) => mapped == Ok::<T, IoError>(value),
            Err(text) => mapped matches Err(error) && error.message@ == text@,
        },
{
    match result {
        Ok(value) => Ok(value),
        Err(text) => Err(IoError { message: text }),
    }
}

/// What a token of an argument template becomes for the job `id`: the job's
/// input file for [`INPUT_TOKEN`], its output file for [`OUTPUT_TOKEN`], and
/// itself otherwise.
pub open spec fn resolved(id: u128, token: Seq<char>) -> Seq<char> {
    if token == INPUT_TOKEN@ {
        path_of(id, FileType::Input)
    } else if token == OUTPUT_TOKEN@ {
        path_of(id, FileType::Output)
    } else {
        token
    }
}

/// The arguments that a template gives for the job `id`: the template's tokens
/// between single spaces, each resolved.
pub open spec fn arguments_of(id: u128, template: Seq<char>) -> Seq<Seq<char>> {
    Seq::new(split(template).len(), |i: int| resolved(id, split(template)[i]))
}

/// The encoder's arguments for one job from an argument template.
pub fn build_arguments(id: u128, arguments: &str) -> (resolved: Vec<String>)
    ensures
        texts(resolved@) == arguments_of(id, arguments@),
{
    let tokens = split_on_space(arguments);
    let input = INPUT_TOKEN.to_owned();
    let output = OUTPUT_TOKEN.to_owned();
    let mut list: Vec<String> = Vec::new();
    let mut i: usize = 0;
    while i < tokens.len()
        invariant
            i <= tokens.len(),
            input@ == INPUT_TOKEN@,
            output@ == OUTPUT_TOKEN@,
            texts(tokens@) == split(arguments@),
            list.len() == i,
            forall|k: int| 0 <= k < i ==> (#[trigger] list[k])@ == resolved(id, tokens[k]@),
        decreases tokens.len() - i,
    {
        let token = &tokens[i];
        let argument = if *token == input {
            build_path(id, FileType::Input)
        } else if *token == output {
            build_path(id, FileType::Output)
        } else {
            token.clone()
        };
        list.push(argument);
        i = i + 1;
    }
    proof {
        assert forall|k: int| 0 <= k < list.len() implies texts(list@)[k] == arguments_of(
            id,
            arguments@,
        )[k] by {
            assert(texts(tokens@)[k] == tokens[k]@);
        }
        assert(texts(tokens@).len() == tokens.len());
        assert(texts(list@) =~= arguments_of(id, arguments@));
    }
    list
}

/// `step` runs the encoder for `job` in pass `pass` with the arguments that
/// `template` gives.
pub open spec fn runs(step: Step, job: JobView, pass: Pass, template: Seq<char>) -> bool {
    step matches Step::Run { work, arguments } && work.job@ == job && work.pass == pass && texts(
        arguments@,
    ) == arguments_of(job.id, template)
}

/// `step` sends the output file of `job` to its destination.
pub open spec fn uploads(step: Step, job: JobView) -> bool {
    step matches Step::Upload { sending, path } && sending.job@ == job && path@ == path_of(
        job.id,
        FileType::Output,
    )
}

/// Whether the worker starts on the identifier `id` that the queue gave: a
/// job is registered under it and has not ended.
pub open spec fn starts(jobs: Map<u128, JobView>, id: u128) -> bool {
    jobs.contains_key(id) && !jobs[id].state.is_terminal()
}

/// The registry after the worker has taken the identifier `id` at time `now`:
/// the job has moved to `Processing` where the worker starts on it, and
/// nothing has changed where it does not.
pub open spec fn started(jobs: Map<u128, JobView>, id: u128, now: u64) -> Map<u128, JobView> {
    if starts(jobs, id) {
        with_state(jobs, id, State::Processing, None, now)
    } else {
        jobs
    }
}

/// A job that has ended is never taken up again: its record stays as it is,
/// state, message and completion time, whenever its identifier reaches the
/// worker. So does every other record.
pub proof fn lemma_finished_job_is_passed_over(jobs: Map<u128, JobView>, id: u128, now: u64)
    requires
        jobs.contains_key(id),
        jobs[id].state.is_terminal(),
    ensures
        !starts(jobs, id),
        started(jobs, id, now) == jobs,
{
}

/// Takes the identifier `id` that the queue gave.
///
/// Where a job is registered under it and has not ended, the job's record
/// moves to `Processing` and the first encoder pass is to be run. An
/// identifier without a record is passed over, and so is one whose job has
/// ended in `Done` or `Error`: the registry stays as it is and the worker
/// takes the next identifier.
pub fn process_job(id: u128, jobs: &mut JobRegistry, config: &Config, now: u64) -> (step: Step)
    ensures
        final(jobs)@ == started(old(jobs)@, id, now),
        old(jobs)@.contains_key(id) && old(jobs)@[id].state.is_terminal() ==> final(jobs)@ == old(
            jobs,
        )@ && step == Step::Receive,
        if starts(old(jobs)@, id) {
            runs(step, final(jobs)@[id], Pass::First, config.ffmpeg_arguments_pass_1@)
        } else {
            step == Step::Receive
        },
        step matches Step::Run { work, .. } ==> work.job.id == id,
        keyed(final(jobs)@),
{
    match jobs.state(id) {
        Some(state) => {
            if state.terminal() {
                return Step::Receive;
            }
        },
        None => {
            return Step::Receive;
        },
    }
    match jobs.update_state(id, State::Processing, None, now) {
        Some(job) => {
            let arguments = build_arguments(job.id, config.ffmpeg_arguments_pass_1);
            Step::Run { work: Encoding { job, pass: Pass::First }, arguments }
        },
        None => Step::Receive,
    }
}

/// Takes what the queue gave: an identifier goes to [`process_job`], and
/// where the queue gave none because nothing more will come, the worker
/// stops.
pub fn processor(received: Option<u128>, jobs: &mut JobRegistry, config: &Config, now: u64) -> (step:
    Step)
    ensures
        match received {
            Some(id) => {
                &&& final(jobs)@ == started(old(jobs)@, id, now)
                &&& old(jobs)@.contains_key(id) && old(jobs)@[id].state.is_terminal()
                    ==> final(jobs)@ == old(jobs)@ && step == Step::Receive
                &&& if starts(old(jobs)@, id) {
                    runs(step, final(jobs)@[id], Pass::First, config.ffmpeg_arguments_pass_1@)
                } else {
                    step == Step::Receive
                }
            },
            None => final(jobs)@ == old(jobs)@ && step == Step::Stop,
        },
        received matches Some(id) ==> (step matches Step::Run { work, .. } ==> work.job.id == id),
        keyed(final(jobs)@),
{
    match received {
        Some(id) => process_job(id, jobs, config, now),
        None => {
            proof {
                use_type_invariant(&*jobs);
            }
            Step::Stop
        },
    }
}

/// The registry after the job `id` has ended with `result`: in `Done` without
/// a message, or in `Error` with the error's description.
pub open spec fn ended(
    jobs: Map<u128, JobView>,
    id: u128,
    result: Result<(), Seq<char>>,
    now: u64,
) -> Map<u128, JobView> {
    match result {
        Ok(_) => with_state(jobs, id, State::Done, None, now),
        Err(message) => with_state(jobs, id, State::Error, Some(message), now),
    }
}

/// The result with its error, if any, as the text that describes it.
pub open spec fn described(result: Result<(), IoError>) -> Result<(), Seq<char>> {
    match result {
        Ok(_) => Ok(()),
        Err(error) => Err(error.message@),
    }
}

/// Ends the job `id`: its record moves to `Done`, or to `Error` with the
/// error's description, and the worker takes the next identifier. A job that
/// is no longer registered stays gone.
pub fn finish_job(id: u128, result: Result<(), IoError>, jobs: &mut JobRegistry, now: u64) -> (step:
    Step)
    ensures
        final(jobs)@ == ended(old(jobs)@, id, described(result), now),
        keyed(final(jobs)@),
        step == Step::Receive,
{
    match result {
        Ok(_) => {
            jobs.update_state(id, State::Done, None, now);
        },
        Err(error) => {
            jobs.update_state(id, State::Error, Some(error.message), now);
        },
    }
    Step::Receive
}

/// Takes what an attempt to send a job's result gave, `Ok` or the reason why
/// it failed, and ends the job accordingly.
pub fn upload(sending: Uploading, sent: Result<(), String>, jobs: &mut JobRegistry, now: u64)
    -> (step: Step)
    ensures
        final(jobs)@ == ended(
            old(jobs)@,
            sending.job.id,
            match sent {
                Ok(_) => Ok(()),
                Err(reason) => Err(reason@),
            },
            now,
        ),
        keyed(final(jobs)@),
        step == Step::Receive,
{
    finish_job(sending.job.id, error_to_io_error(sent), jobs, now)
}

/// Takes what a run of the encoder left behind and moves the job on.
///
/// `launched` is the encoder's output, or the reason why it could not be
/// started. After a pass that succeeded comes the second pass, where this was
/// the first and a second is configured, and the upload otherwise. A pass that
/// failed ends the job in `Error` with the failure's description, which names
/// the pass; nothing is uploaded then.
pub fn transcode(
    work: Encoding,
    launched: Result<Output, String>,
    jobs: &mut JobRegistry,
    config: &Config,
    now: u64,
) -> (step: Step)
    ensures
        match judged(launched, work.pass.descriptor()) {
            Ok(_) => {
                &&& final(jobs)@ == old(jobs)@
                &&& if work.pass == Pass::First && config.ffmpeg_arguments_pass_2 is Some {
                    runs(step, work.job@, Pass::Second, config.ffmpeg_arguments_pass_2->0@)
                } else {
                    uploads(step, work.job@)
                }
            },
            Err(message) => {
                &&& final(jobs)@ == ended(old(jobs)@, work.job.id, Err(message), now)
                &&& step == Step::Receive
            },
        },
        keyed(final(jobs)@),
{
    proof {
        use_type_invariant(&*jobs);
    }
    match run_command(launched, work.pass.name()) {
        Ok(_) => {
            let second = match work.pass {
                Pass::First => config.ffmpeg_arguments_pass_2,
                Pass::Second => None,
            };
            match second {
                Some(template) => {
                    let arguments = build_arguments(work.job.id, template);
                    Step::Run { work: Encoding { job: work.job, pass: Pass::Second }, arguments }
                },
                None => {
                    let path = build_path(work.job.id, FileType::Output);
                    Step::Upload { sending: Uploading { job: work.job }, path }
                },
            }
        },
        Err(error) => finish_job(work.job.id, Err(error), jobs, now),
    }
}

} // verus!
