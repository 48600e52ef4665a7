//! The life of a job, stated over the whole engine: registry, queue and the
//! job that the worker has in hand.
//!
//! The functions of the other modules each change one part. This module says
//! what holds of all parts together, whichever of them is called next.

use crate::models::{JobView, State};
use crate::command::{IoError, Metadata};
use crate::config::Config;
use crate::processor::{ended, started, starts};
use crate::queue::WorkQueue;
use crate::registry::{keyed, with_state};
use crate::web::{registered, swept};
use vstd::prelude::*;

verus! {

/// The engine's state as the laws speak of it.
pub ghost struct Engine {
    /// The registry.
    pub jobs: Map<u128, JobView>,
    /// The queue, oldest identifier first.
    pub queue: Seq<u128>,
    /// The job that the worker has in hand.
    pub current: Option<u128>,
}

/// One thing that can happen to the engine.
pub ghost enum Move {
    /// A video passes while the queue has room, and its job is registered and
    /// queued unless a job is registered under its identifier already
    /// ([`crate::web::submit`]).
    Submit { id: u128, source_url: Seq<char>, dest_url: Seq<char> },
    /// The idle worker takes the oldest identifier from the queue and starts
    /// on it ([`crate::queue::WorkQueue::pop`], then
    /// [`crate::processor::processor`]).
    Receive { now: u64 },
    /// The job in hand ends in `state` ([`crate::processor::transcode`] after a
    /// failed pass, [`crate::processor::upload`]).
    End { state: State, error_message: Option<Seq<char>>, now: u64 },
    /// A status query sweeps the registry ([`crate::web::status`]).
    Sweep { now: u64, retention: u64 },
}

/// The one order in which a job's states follow each other: from `Waiting` to
/// `Processing`, and from there to `Done` or `Error`.
pub open spec fn follows(before: State, after: State) -> bool {
    ||| before == State::Waiting && after == State::Processing
    ||| before == State::Processing && after.is_terminal()
}

/// Between two registries no job has left that order: a job of both has kept
/// its state or taken the next one, a new job is waiting, and a job that is
/// gone had ended.
pub open spec fn advances(before: Map<u128, JobView>, after: Map<u128, JobView>) -> bool {
    &&& forall|id: u128|
        #![trigger after[id]]
        before.contains_key(id) && after.contains_key(id) ==> after[id].state == before[id].state
            || follows(before[id].state, after[id].state)
    &&& forall|id: u128|
        #![trigger after[id]]
        !before.contains_key(id) && after.contains_key(id) ==> after[id].state == State::Waiting
    &&& forall|id: u128|
        #![trigger before[id]]
        before.contains_key(id) && !after.contains_key(id) ==> before[id].state.is_terminal()
}

impl Engine {
    /// The engine of a server that has just started.
    pub open spec fn initial() -> Engine {
        Engine { jobs: Map::empty(), queue: Seq::empty(), current: None }
    }

    /// What holds of the engine at all times: every record is filed under its
    /// identifier and is consistent, every queued identifier is queued once
    /// and belongs to a waiting job, and the job in hand is in `Processing`.
    pub open spec fn sound(self) -> bool {
        &&& keyed(self.jobs)
        &&& forall|id: u128| #[trigger] self.jobs.contains_key(id) ==> self.jobs[id].consistent()
        &&& self.queue.no_duplicates()
        &&& forall|i: int|
            0 <= i < self.queue.len() ==> self.jobs.contains_key(#[trigger] self.queue[i])
                && self.jobs[self.queue[i]].state == State::Waiting
        &&& self.current matches Some(id) ==> self.jobs.contains_key(id) && self.jobs[id].state
            == State::Processing
    }

    /// Whether `step` can happen now: the worker takes from a queue that is
    /// not empty and only while it has no job in hand, and a job that ends is
    /// in hand and ends in `Done` without a message or in `Error` with one. A
    /// submission and a sweep can happen at any time.
    pub open spec fn admits(self, step: Move) -> bool {
        match step {
            Move::Submit { .. } => true,
            Move::Receive { .. } => self.current is None && self.queue.len() > 0,
            Move::End { state, error_message, .. } => {
                &&& self.current is Some
                &&& state.is_terminal()
                &&& error_message is Some <==> state == State::Error
            },
            Move::Sweep { .. } => true,
        }
    }

    /// The engine after `step`.
    pub open spec fn after(self, step: Move) -> Engine {
        match step {
            Move::Submit { id, source_url, dest_url } => if self.jobs.contains_key(id) {
                self
            } else {
                Engine {
                    jobs: self.jobs.insert(id, JobView::fresh(id, source_url, dest_url)),
                    queue: self.queue.push(id),
                    ..self
                }
            },
            Move::Receive { now } => Engine {
                jobs: started(self.jobs, self.queue[0], now),
                queue: self.queue.skip(1),
                current: if starts(self.jobs, self.queue[0]) {
                    Some(self.queue[0])
                } else {
                    None
                },
            },
            Move::End { state, error_message, now } => Engine {
                jobs: with_state(self.jobs, self.current->0, state, error_message, now),
                current: None,
                ..self
            },
            Move::Sweep { now, retention } => Engine {
                jobs: swept(self.jobs, now, retention),
                ..self
            },
        }
    }

    /// The engine after the steps of `steps`, one after the other.
    pub open spec fn after_all(self, steps: Seq<Move>) -> Engine
        decreases steps.len(),
    {
        if steps.len() == 0 {
            self
        } else {
            self.after_all(steps.drop_last()).after(steps.last())
        }
    }

    /// Whether the steps of `steps` can happen one after the other.
    pub open spec fn admits_all(self, steps: Seq<Move>) -> bool
        decreases steps.len(),
    {
        if steps.len() == 0 {
            true
        } else {
            self.admits_all(steps.drop_last()) && self.after_all(steps.drop_last()).admits(
                steps.last(),
            )
        }
    }
}

/// Whatever registry they find, a submission, the worker's taking of an
/// identifier and a sweep never take a job out of the order of its states.
/// The end of a job keeps the order if the job is in `Processing`, as the job
/// in the worker's hand is.
pub proof fn lemma_calls_keep_order(
    jobs: Map<u128, JobView>,
    id: u128,
    source_url: Seq<char>,
    dest_url: Seq<char>,
    probed: Result<Metadata, IoError>,
    config: Config,
    queue: WorkQueue,
    result: Result<(), Seq<char>>,
    now: u64,
    retention: u64,
)
    ensures
        advances(jobs, registered(jobs, id, source_url, dest_url, probed, config, queue)),
        advances(jobs, started(jobs, id, now)),
        advances(jobs, swept(jobs, now, retention)),
        jobs.contains_key(id) ==> jobs[id].state == State::Processing ==> advances(
            jobs,
            ended(jobs, id, result, now),
        ),
{
}

/// Whatever happens to a sound engine, it stays sound and no job leaves the
/// order of its states: a job starts as `Waiting`, goes on to `Processing`
/// and from there to `Done` or `Error`, skips none of these and returns to
/// none, and only a job that has ended is ever removed.
pub proof fn lemma_step_keeps_order(engine: Engine, step: Move)
    requires
        engine.sound(),
        engine.admits(step),
    ensures
        engine.after(step).sound(),
        advances(engine.jobs, engine.after(step).jobs),
{
    let next = engine.after(step);
    match step {
        Move::Submit { id, source_url, dest_url } => {
            assert forall|i: int| 0 <= i < next.queue.len() implies next.jobs.contains_key(
                #[trigger] next.queue[i],
            ) && next.jobs[next.queue[i]].state == State::Waiting by {
                if i < engine.queue.len() {
                    assert(engine.jobs.contains_key(engine.queue[i]));
                }
            }
            assert forall|i: int, j: int|
                0 <= i < next.queue.len() && 0 <= j < next.queue.len() && i != j implies next.queue[i]
                != next.queue[j] by {
                if i < engine.queue.len() {
                    assert(engine.jobs.contains_key(engine.queue[i]));
                }
                if j < engine.queue.len() {
                    assert(engine.jobs.contains_key(engine.queue[j]));
                }
            }
        },
        Move::Receive { now } => {
            let id = engine.queue[0];
            assert(engine.jobs.contains_key(id));
            assert forall|i: int| 0 <= i < next.queue.len() implies next.jobs.contains_key(
                #[trigger] next.queue[i],
            ) && next.jobs[next.queue[i]].state == State::Waiting by {
                assert(next.queue[i] == engine.queue[i + 1]);
                assert(engine.jobs.contains_key(engine.queue[i + 1]));
            }
            assert forall|i: int, j: int|
                0 <= i < next.queue.len() && 0 <= j < next.queue.len() && i != j implies next.queue[i]
                != next.queue[j] by {
                assert(next.queue[i] == engine.queue[i + 1]);
                assert(next.queue[j] == engine.queue[j + 1]);
            }
        },
        Move::End { state, error_message, now } => {
            let id = engine.current->0;
            assert forall|i: int| 0 <= i < next.queue.len() implies next.jobs.contains_key(
                #[trigger] next.queue[i],
            ) && next.jobs[next.queue[i]].state == State::Waiting by {
                assert(engine.jobs.contains_key(engine.queue[i]));
            }
        },
        Move::Sweep { now, retention } => {
            assert forall|i: int| 0 <= i < next.queue.len() implies next.jobs.contains_key(
                #[trigger] next.queue[i],
            ) && next.jobs[next.queue[i]].state == State::Waiting by {
                assert(engine.jobs.contains_key(engine.queue[i]));
            }
        },
    }
}

/// The order of a job's states holds over any number of steps: an engine that
/// started empty is sound after steps that could happen one after the other,
/// and between any step and the next no job has left the order.
pub proof fn lemma_engine_stays_sound(steps: Seq<Move>)
    requires
        Engine::initial().admits_all(steps),
    ensures
        Engine::initial().after_all(steps).sound(),
        forall|n: int|
            0 <= n < steps.len() ==> advances(
                Engine::initial().after_all(#[trigger] steps.take(n)).jobs,
                Engine::initial().after_all(steps.take(n + 1)).jobs,
            ),
    decreases steps.len(),
{
    if steps.len() > 0 {
        let shorter = steps.drop_last();
        lemma_engine_stays_sound(shorter);
        let before = Engine::initial().after_all(shorter);
        lemma_step_keeps_order(before, steps.last());
        assert forall|n: int| 0 <= n < steps.len() implies advances(
            Engine::initial().after_all(#[trigger] steps.take(n)).jobs,
            Engine::initial().after_all(steps.take(n + 1)).jobs,
        ) by {
            if n < steps.len() - 1 {
                assert(shorter.take(n) =~= steps.take(n));
                assert(shorter.take(n + 1) =~= steps.take(n + 1));
            } else {
                assert(steps.take(n) =~= shorter);
                assert(steps.take(n + 1) =~= steps);
            }
        }
    }
}

} // verus!
