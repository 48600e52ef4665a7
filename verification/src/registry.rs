//! The job registry: every job that is waiting, in work or recently finished,
//! by its identifier.

use crate::models::{Job, JobView, State};
use std::collections::HashMap;
use vstd::prelude::*;
use vstd::std_specs::iter::IteratorSpec;

verus! {

broadcast use vstd::std_specs::hash::group_hash_axioms;

/// The jobs that the server knows of, one record per identifier.
///
/// Every change goes through a `&mut` borrow, so no reader ever sees a record
/// half-written. A server that shares the registry between threads keeps it
/// behind one lock and holds the lock for one call at a time.
pub struct JobRegistry {
    jobs: HashMap<u128, Job>,
}

impl View for JobRegistry {
    type V = Map<u128, JobView>;

    closed spec fn view(&self) -> Map<u128, JobView> {
        Map::new(|id: u128| self.jobs@.contains_key(id), |id: u128| self.jobs@[id]@)
    }
}

/// `listed` holds every record of `jobs` once, each under its own identifier,
/// and nothing else. The order is left open.
pub open spec fn is_snapshot(listed: Seq<JobView>, jobs: Map<u128, JobView>) -> bool {
    &&& listed.len() == jobs.len()
    &&& forall|i: int|
        0 <= i < listed.len() ==> jobs.contains_key(#[trigger] listed[i].id) && jobs[listed[i].id]
            == listed[i]
    &&& forall|i: int, j: int|
        0 <= i < j < listed.len() ==> (#[trigger] listed[i]).id != (#[trigger] listed[j]).id
    &&& forall|id: u128|
        jobs.contains_key(id) ==> exists|i: int| 0 <= i < listed.len() && #[trigger] listed[i] == jobs[id]
}

/// Every record of `jobs` is filed under its own identifier.
pub open spec fn keyed(jobs: Map<u128, JobView>) -> bool {
    forall|id: u128| #[trigger] jobs.contains_key(id) ==> jobs[id].id == id
}

/// `jobs` after the job `id` has moved to `new_state` at time `now`; the same
/// `jobs` where no such job is registered.
pub open spec fn with_state(
    jobs: Map<u128, JobView>,
    id: u128,
    new_state: State,
    error_message: Option<Seq<char>>,
    now: u64,
) -> Map<u128, JobView> {
    if jobs.contains_key(id) {
        jobs.insert(id, jobs[id].moved(new_state, error_message, now))
    } else {
        jobs
    }
}

/// The records of `jobs` as contracts speak of them.
pub open spec fn job_views(jobs: Seq<Job>) -> Seq<JobView> {
    Seq::new(jobs.len(), |i: int| jobs[i]@)
}

impl JobRegistry {
    /// What holds of every registry: each record is filed under its own
    /// identifier.
    #[verifier::type_invariant]
    pub open spec fn filed_by_id(self) -> bool {
        keyed(self@)
    }

    /// The invariant in terms of the map itself.
    proof fn lemma_stored_by_id(&self)
        requires
            keyed(self@),
        ensures
            forall|k: u128| #[trigger] self.jobs@.contains_key(k) ==> self.jobs@[k]@.id == k,
    {
        assert forall|k: u128| #[trigger] self.jobs@.contains_key(k) implies self.jobs@[k]@.id
            == k by {
            assert(self@.contains_key(k));
        }
    }

    /// The state of the job with this identifier.
    pub fn state(&self, id: u128) -> (state: Option<State>)
        ensures
            match state {
                Some(found) => self@.contains_key(id) && found == self@[id].state,
                None => !self@.contains_key(id),
            },
            keyed(self@),
    {
        proof {
            use_type_invariant(self);
        }
        match self.jobs.get(&id) {
            Some(job) => Some(job.state),
            None => None,
        }
    }

    /// A registry without jobs.
    pub fn new() -> (registry: JobRegistry)
        ensures
            registry@ == Map::<u128, JobView>::empty(),
            keyed(registry@),
    {
        let registry = JobRegistry { jobs: HashMap::new() };
        assert(registry@ =~= Map::<u128, JobView>::empty());
        registry
    }

    /// The number of jobs.
    pub fn len(&self) -> (count: usize)
        ensures
            count == self@.len(),
            self@.dom().finite(),
            keyed(self@),
    {
        proof {
            use_type_invariant(self);
        }
        assert(self@.dom() =~= self.jobs@.dom());
        self.jobs.len()
    }

    /// Whether a job with this identifier is registered.
    pub fn contains(&self, id: u128) -> (found: bool)
        ensures
            found == self@.contains_key(id),
            self@.dom().finite(),
            keyed(self@),
    {
        proof {
            use_type_invariant(self);
        }
        assert(self@.dom() =~= self.jobs@.dom());
        self.jobs.contains_key(&id)
    }

    /// Files the job under its identifier, in place of any record that was
    /// there.
    pub fn insert(&mut self, job: Job)
        ensures
            final(self)@ == old(self)@.insert(job.id, job@),
            keyed(final(self)@),
    {
        proof {
            use_type_invariant(&*self);
            self.lemma_stored_by_id();
        }
        let ghost before = self@;
        let ghost record = job@;
        let id = job.id;
        let mut jobs: HashMap<u128, Job> = HashMap::new();
        std::mem::swap(&mut self.jobs, &mut jobs);
        jobs.insert(id, job);
        assert(forall|k: u128| #[trigger] jobs@.contains_key(k) ==> jobs@[k]@.id == k);
        std::mem::swap(&mut self.jobs, &mut jobs);
        assert(self@ =~= before.insert(id, record));
    }

    /// A copy of the job with this identifier.
    pub fn get(&self, id: u128) -> (found: Option<Job>)
        ensures
            match found {
                Some(job) => self@.contains_key(id) && job@ == self@[id],
                None => !self@.contains_key(id),
            },
            keyed(self@),
    {
        proof {
            use_type_invariant(self);
        }
        match self.jobs.get(&id) {
            Some(job) => Some(job.clone()),
            None => None,
        }
    }

    /// Moves a job to `new_state` and returns the record as it then stands,
    /// or `None` for an identifier that is not registered.
    ///
    /// State and message are replaced in one step. `now`, the clock's reading
    /// in nanoseconds, becomes the completion time when `new_state` is `Done`
    /// or `Error`; otherwise the completion time stays as it was.
    pub fn update_state(
        &mut self,
        id: u128,
        new_state: State,
        error_message: Option<String>,
        now: u64,
    ) -> (updated: Option<Job>)
        ensures
            final(self)@ == with_state(
                old(self)@,
                id,
                new_state,
                crate::models::text_view(error_message),
                now,
            ),
            match updated {
                Some(job) => {
                    &&& old(self)@.contains_key(id)
                    &&& job@ == old(self)@[id].moved(
                        new_state,
                        crate::models::text_view(error_message),
                        now,
                    )
                    &&& final(self)@ == old(self)@.insert(id, job@)
                },
                None => !old(self)@.contains_key(id) && final(self)@ == old(self)@,
            },
            keyed(final(self)@),
    {
        proof {
            use_type_invariant(&*self);
            self.lemma_stored_by_id();
        }
        let ghost before = self@;
        let mut jobs: HashMap<u128, Job> = HashMap::new();
        std::mem::swap(&mut self.jobs, &mut jobs);
        let updated = match jobs.remove(&id) {
            Some(mut job) => {
                if new_state.terminal() {
                    job.completed_at = Some(now);
                }
                job.state = new_state;
                job.error_message = error_message;
                let copy = job.clone();
                jobs.insert(id, job);
                Some(copy)
            },
            None => None,
        };
        assert(forall|k: u128| #[trigger] jobs@.contains_key(k) ==> jobs@[k]@.id == k);
        std::mem::swap(&mut self.jobs, &mut jobs);
        proof {
            if updated is Some {
                assert(self@ =~= before.insert(id, updated->0@));
            } else {
                assert(self@ =~= before);
            }
        }
        updated
    }

    /// Takes the job with this identifier out of the registry.
    pub fn remove(&mut self, id: u128) -> (removed: Option<Job>)
        ensures
            final(self)@ == old(self)@.remove(id),
            match removed {
                Some(job) => old(self)@.contains_key(id) && job@ == old(self)@[id],
                None => !old(self)@.contains_key(id),
            },
            keyed(final(self)@),
    {
        proof {
            use_type_invariant(&*self);
            self.lemma_stored_by_id();
        }
        let ghost before = self@;
        let mut jobs: HashMap<u128, Job> = HashMap::new();
        std::mem::swap(&mut self.jobs, &mut jobs);
        let removed = jobs.remove(&id);
        assert(forall|k: u128| #[trigger] jobs@.contains_key(k) ==> jobs@[k]@.id == k);
        std::mem::swap(&mut self.jobs, &mut jobs);
        assert(self@ =~= before.remove(id));
        removed
    }

    /// The identifiers of all jobs, each once, in no particular order.
    pub fn ids(&self) -> (ids: Vec<u128>)
        ensures
            ids@.no_duplicates(),
            ids@.to_set() == self@.dom(),
            ids@.len() == self@.len(),
            self@.dom().finite(),
            keyed(self@),
    {
        proof {
            use_type_invariant(self);
        }
        let mut ids: Vec<u128> = Vec::new();
        assert(self@.dom() =~= self.jobs@.dom());
        let ghost keys = self.jobs.keys().remaining().unref();
        for id in it: self.jobs.keys()
            invariant
                it.seq().unref() == keys,
                ids@ == keys.take(it.index()),
        {
            ids.push(*id);
            assert(keys.take(it.index() + 1) =~= keys.take(it.index()).push(*id));
        }
        assert(ids@ =~= keys);
        assert(keys.no_duplicates()) by {
            let refs = self.jobs.keys().remaining();
            assert forall|i: int, j: int| 0 <= i < keys.len() && 0 <= j < keys.len() && i != j implies keys[i] != keys[j] by {
                assert(refs[i] != refs[j]);
            }
        }
        ids
    }

    /// Copies of all jobs, each once, in no particular order.
    pub fn snapshot_all(&self) -> (listed: Vec<Job>)
        ensures
            is_snapshot(job_views(listed@), self@),
            self@.dom().finite(),
            keyed(self@),
    {
        let ids = self.ids();
        let mut listed: Vec<Job> = Vec::new();
        let mut i: usize = 0;
        while i < ids.len()
            invariant
                i <= ids.len(),
                listed.len() == i,
                ids@.len() == self@.len(),
                keyed(self@),
                ids@.to_set() == self@.dom(),
                forall|j: int| 0 <= j < i ==> (#[trigger] listed[j])@ == self@[ids[j]],
            decreases ids.len() - i,
        {
            assert(ids@.to_set().contains(ids[i as int]));
            match self.get(ids[i]) {
                Some(job) => {
                    listed.push(job);
                },
                None => {
                    assert(false);
                },
            }
            i = i + 1;
        }
        proof {
            let views = job_views(listed@);
            assert forall|id: u128| self@.contains_key(id) implies exists|k: int|
                0 <= k < views.len() && #[trigger] views[k] == self@[id] by {
                assert(ids@.to_set().contains(id));
                let k = choose|k: int| 0 <= k < ids.len() && ids[k] == id;
                assert(views[k] == self@[id]);
            }
        }
        listed
    }
}

} // verus!
