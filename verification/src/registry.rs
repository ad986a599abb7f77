//! The registry of in-flight and completed jobs: one entry per identifier,
//! kept in insertion order, with subscribers owed one notification per
//! committed mutation. The caller performs the fan-out with the returned
//! subscriber list, after the mutation, never before.

use vstd::prelude::*;

use crate::model::{RcloneJob, RcloneJobStatus};

verus! {

/// Identifiers never repeat within the sequence.
pub open spec fn unique_uuids(jobs: Seq<RcloneJob>) -> bool {
    forall|i: int, j: int| 0 <= i < j < jobs.len() ==> jobs[i].uuid != jobs[j].uuid
}

/// The identifier-to-job mapping a sequence denotes; later entries win,
/// though a well-formed registry never repeats an identifier.
pub open spec fn jobs_as_map(jobs: Seq<RcloneJob>) -> Map<u128, RcloneJob>
    decreases jobs.len(),
{
    if jobs.len() == 0 {
        Map::<u128, RcloneJob>::empty()
    } else {
        jobs_as_map(jobs.drop_last()).insert(jobs.last().uuid, jobs.last())
    }
}

/// The job with its status replaced and every other field kept.
pub open spec fn with_status(j: RcloneJob, status: RcloneJobStatus) -> RcloneJob {
    RcloneJob { status, ..j }
}

pub open spec fn is_ongoing(j: RcloneJob) -> bool {
    j.status is Ongoing
}

pub open spec fn is_failed(j: RcloneJob) -> bool {
    j.status is Failed
}

proof fn lemma_jobs_as_map_dom(jobs: Seq<RcloneJob>, u: u128)
    ensures
        jobs_as_map(jobs).dom().contains(u) == (exists|i: int|
            0 <= i < jobs.len() && jobs[i].uuid == u),
    decreases jobs.len(),
{
    if jobs.len() == 0 {
    } else {
        lemma_jobs_as_map_dom(jobs.drop_last(), u);
        if jobs.last().uuid == u {
            assert(jobs[jobs.len() - 1].uuid == u);
        } else {
            if jobs_as_map(jobs).dom().contains(u) {
                let w = choose|i: int|
                    0 <= i < jobs.drop_last().len() && jobs.drop_last()[i].uuid == u;
                assert(jobs[w].uuid == u);
            }
            if exists|i: int| 0 <= i < jobs.len() && jobs[i].uuid == u {
                let w = choose|i: int| 0 <= i < jobs.len() && jobs[i].uuid == u;
                assert(w < jobs.len() - 1);
                assert(jobs.drop_last()[w].uuid == u);
            }
        }
    }
}

proof fn lemma_jobs_as_map_at(jobs: Seq<RcloneJob>, i: int)
    requires
        unique_uuids(jobs),
        0 <= i < jobs.len(),
    ensures
        jobs_as_map(jobs).dom().contains(jobs[i].uuid),
        jobs_as_map(jobs)[jobs[i].uuid] == jobs[i],
    decreases jobs.len(),
{
    if i == jobs.len() - 1 {
    } else {
        assert(unique_uuids(jobs.drop_last())) by {
            assert forall|a: int, b: int|
                0 <= a < b < jobs.drop_last().len() implies jobs.drop_last()[a].uuid
                != jobs.drop_last()[b].uuid by {
                assert(jobs.drop_last()[a] == jobs[a]);
                assert(jobs.drop_last()[b] == jobs[b]);
            }
        }
        assert(jobs.drop_last()[i] == jobs[i]);
        lemma_jobs_as_map_at(jobs.drop_last(), i);
        assert(jobs.last().uuid != jobs[i].uuid);
    }
}

proof fn lemma_jobs_as_map_remove(jobs: Seq<RcloneJob>, i: int)
    requires
        unique_uuids(jobs),
        0 <= i < jobs.len(),
    ensures
        jobs_as_map(jobs.remove(i)) == jobs_as_map(jobs).remove(jobs[i].uuid),
    decreases jobs.len(),
{
    let u = jobs[i].uuid;
    if i == jobs.len() - 1 {
        assert(jobs.remove(i) =~= jobs.drop_last());
        lemma_jobs_as_map_dom(jobs.drop_last(), u);
        assert(!jobs_as_map(jobs.drop_last()).dom().contains(u)) by {
            if exists|k: int|
                0 <= k < jobs.drop_last().len() && jobs.drop_last()[k].uuid == u {
                let w = choose|k: int|
                    0 <= k < jobs.drop_last().len() && jobs.drop_last()[k].uuid == u;
                assert(jobs[w].uuid == u);
            }
        }
        assert(jobs_as_map(jobs.remove(i)) =~= jobs_as_map(jobs).remove(u));
    } else {
        assert(unique_uuids(jobs.drop_last())) by {
            assert forall|a: int, b: int|
                0 <= a < b < jobs.drop_last().len() implies jobs.drop_last()[a].uuid
                != jobs.drop_last()[b].uuid by {
                assert(jobs.drop_last()[a] == jobs[a]);
                assert(jobs.drop_last()[b] == jobs[b]);
            }
        }
        assert(jobs.drop_last()[i] == jobs[i]);
        lemma_jobs_as_map_remove(jobs.drop_last(), i);
        assert(jobs.remove(i).drop_last() =~= jobs.drop_last().remove(i));
        assert(jobs.remove(i).last() == jobs.last());
        assert(jobs.last().uuid != u);
        assert(jobs_as_map(jobs.remove(i)) == jobs_as_map(jobs.drop_last().remove(i)).insert(
            jobs.last().uuid,
            jobs.last(),
        ));
        assert(jobs_as_map(jobs.drop_last()).remove(u).insert(jobs.last().uuid, jobs.last())
            =~= jobs_as_map(jobs.drop_last()).insert(jobs.last().uuid, jobs.last()).remove(u));
    }
}

proof fn lemma_jobs_as_map_insert_at(jobs: Seq<RcloneJob>, i: int, job: RcloneJob)
    requires
        0 <= i <= jobs.len(),
        forall|k: int| 0 <= k < jobs.len() ==> #[trigger] jobs[k].uuid != job.uuid,
    ensures
        jobs_as_map(jobs.insert(i, job)) == jobs_as_map(jobs).insert(job.uuid, job),
    decreases jobs.len(),
{
    if i == jobs.len() {
        assert(jobs.insert(i, job) =~= jobs.push(job));
        assert(jobs.push(job).drop_last() =~= jobs);
    } else {
        assert(jobs.insert(i, job).drop_last() =~= jobs.drop_last().insert(i, job));
        assert(jobs.insert(i, job).last() == jobs.last());
        assert forall|k: int|
            0 <= k < jobs.drop_last().len() implies #[trigger] jobs.drop_last()[k].uuid
            != job.uuid by {
            assert(jobs.drop_last()[k] == jobs[k]);
        }
        lemma_jobs_as_map_insert_at(jobs.drop_last(), i, job);
        assert(jobs[jobs.len() - 1].uuid != job.uuid);
        assert(jobs_as_map(jobs.drop_last()).insert(job.uuid, job).insert(
            jobs.last().uuid,
            jobs.last(),
        ) =~= jobs_as_map(jobs.drop_last()).insert(jobs.last().uuid, jobs.last()).insert(
            job.uuid,
            job,
        ));
    }
}

/// Every element a filter keeps was in the original sequence.
proof fn lemma_filter_elem_of(jobs: Seq<RcloneJob>, pred: spec_fn(RcloneJob) -> bool)
    ensures
        forall|k: int|
            0 <= k < jobs.filter(pred).len() ==> jobs.contains(#[trigger] jobs.filter(pred)[k]),
    decreases jobs.len(),
{
    reveal(Seq::filter);
    if jobs.len() == 0 {
    } else {
        lemma_filter_elem_of(jobs.drop_last(), pred);
        let f = jobs.filter(pred);
        let fdl = jobs.drop_last().filter(pred);
        assert forall|k: int| 0 <= k < f.len() implies jobs.contains(#[trigger] f[k]) by {
            if pred(jobs.last()) && k == f.len() - 1 {
                assert(f[k] == jobs.last());
                assert(jobs[jobs.len() - 1] == jobs.last());
            } else {
                assert(f[k] == fdl[k]);
                assert(jobs.drop_last().contains(fdl[k]));
                let w = choose|l: int|
                    0 <= l < jobs.drop_last().len() && jobs.drop_last()[l] == fdl[k];
                assert(jobs[w] == fdl[k]);
            }
        }
    }
}

/// Filtering keeps identifiers unique.
proof fn lemma_filter_unique(jobs: Seq<RcloneJob>, pred: spec_fn(RcloneJob) -> bool)
    requires
        unique_uuids(jobs),
    ensures
        unique_uuids(jobs.filter(pred)),
    decreases jobs.len(),
{
    reveal(Seq::filter);
    if jobs.len() == 0 {
    } else {
        assert(unique_uuids(jobs.drop_last())) by {
            assert forall|a: int, b: int|
                0 <= a < b < jobs.drop_last().len() implies jobs.drop_last()[a].uuid
                != jobs.drop_last()[b].uuid by {
                assert(jobs.drop_last()[a] == jobs[a]);
                assert(jobs.drop_last()[b] == jobs[b]);
            }
        }
        lemma_filter_unique(jobs.drop_last(), pred);
        lemma_filter_elem_of(jobs.drop_last(), pred);
        let f = jobs.filter(pred);
        let fdl = jobs.drop_last().filter(pred);
        if pred(jobs.last()) {
            assert forall|a: int, b: int|
                0 <= a < b < f.len() implies f[a].uuid != f[b].uuid by {
                if b == f.len() - 1 {
                    assert(f[a] == fdl[a]);
                    assert(f[b] == jobs.last());
                    assert(jobs.drop_last().contains(fdl[a]));
                    let w = choose|l: int|
                        0 <= l < jobs.drop_last().len() && jobs.drop_last()[l] == fdl[a];
                    assert(jobs[w] == fdl[a]);
                    assert(jobs[w].uuid != jobs[jobs.len() - 1].uuid);
                } else {
                    assert(f[a] == fdl[a]);
                    assert(f[b] == fdl[b]);
                }
            }
        }
    }
}

/// The registry: jobs in insertion order, the subscribers to notify on
/// each mutation, and a count of committed mutations. One notification
/// round is owed per mutation; the count of both is the same number.
pub struct JobRegistry {
    jobs: Vec<RcloneJob>,
    subscribers: Vec<u64>,
    mutation_count: u64,
}

impl JobRegistry {
    pub closed spec fn jobs_seq(&self) -> Seq<RcloneJob> {
        self.jobs@
    }

    pub closed spec fn subscribers_seq(&self) -> Seq<u64> {
        self.subscribers@
    }

    pub closed spec fn mutations(&self) -> int {
        self.mutation_count as int
    }

    pub open spec fn wf(&self) -> bool {
        unique_uuids(self.jobs_seq())
    }

    /// The mapping the registry holds, for stating what `get` returns.
    pub open spec fn job_map(&self) -> Map<u128, RcloneJob> {
        jobs_as_map(self.jobs_seq())
    }

    pub fn new() -> (r: Self)
        ensures
            r.wf(),
            r.jobs_seq() == Seq::<RcloneJob>::empty(),
            r.subscribers_seq() == Seq::<u64>::empty(),
            r.mutations() == 0,
    {
        JobRegistry { jobs: Vec::new(), subscribers: Vec::new(), mutation_count: 0 }
    }

    /// Registers one more observer; registration itself notifies nobody.
    pub fn subscribe(&mut self, subscriber: u64)
        ensures
            final(self).subscribers_seq() == old(self).subscribers_seq().push(subscriber),
            final(self).jobs_seq() == old(self).jobs_seq(),
            final(self).mutations() == old(self).mutations(),
    {
        self.subscribers.push(subscriber);
    }

    fn find_index(&self, uuid: u128) -> (r: Option<usize>)
        ensures
            match r {
                Some(i) => i < self.jobs_seq().len() && self.jobs_seq()[i as int].uuid == uuid,
                None => forall|i: int|
                    0 <= i < self.jobs_seq().len() ==> self.jobs_seq()[i].uuid != uuid,
            },
    {
        let mut i: usize = 0;
        while i < self.jobs.len()
            invariant
                i <= self.jobs@.len(),
                forall|j: int| 0 <= j < i ==> self.jobs@[j].uuid != uuid,
            decreases self.jobs@.len() - i,
        {
            if self.jobs[i].uuid == uuid {
                return Some(i);
            }
            i += 1;
        }
        None
    }

    fn notify_list(&self) -> (r: Vec<u64>)
        ensures
            r@ == self.subscribers_seq(),
    {
        let mut out: Vec<u64> = Vec::new();
        let mut i: usize = 0;
        while i < self.subscribers.len()
            invariant
                i <= self.subscribers@.len(),
                out@ == self.subscribers@.take(i as int),
            decreases self.subscribers@.len() - i,
        {
            out.push(self.subscribers[i]);
            proof {
                assert(out@ =~= self.subscribers@.take(i + 1));
            }
            i += 1;
        }
        proof {
            assert(self.subscribers@.take(self.subscribers@.len() as int)
                =~= self.subscribers@);
        }
        out
    }

    /// Stores the job under its identifier, replacing any entry already
    /// held under it. The returned list is the subscribers each owed one
    /// notification for this mutation.
    pub fn insert(&mut self, job: RcloneJob) -> (notify: Vec<u64>)
        requires
            old(self).wf(),
            old(self).mutations() < u64::MAX,
        ensures
            final(self).wf(),
            final(self).job_map() == old(self).job_map().insert(job.uuid, job),
            (forall|k: int|
                0 <= k < old(self).jobs_seq().len() ==> #[trigger] old(self).jobs_seq()[k].uuid
                    != job.uuid) ==> final(self).jobs_seq() == old(self).jobs_seq().push(job),
            final(self).subscribers_seq() == old(self).subscribers_seq(),
            final(self).mutations() == old(self).mutations() + 1,
            notify@ == old(self).subscribers_seq(),
    {
        let ghost jobs0 = self.jobs@;
        match self.find_index(job.uuid) {
            Some(i) => {
                proof {
                    lemma_jobs_as_map_remove(jobs0, i as int);
                }
                let _replaced = self.jobs.remove(i);
                proof {
                    assert(unique_uuids(self.jobs@)) by {
                        assert forall|a: int, b: int|
                            0 <= a < b < self.jobs@.len() implies self.jobs@[a].uuid
                            != self.jobs@[b].uuid by {
                            assert(self.jobs@[a] == if a < i { jobs0[a] } else { jobs0[a + 1] });
                            assert(self.jobs@[b] == if b < i { jobs0[b] } else { jobs0[b + 1] });
                        }
                    }
                    assert(forall|k: int|
                        0 <= k < self.jobs@.len() ==> #[trigger] self.jobs@[k].uuid != job.uuid)
                        by {
                        assert forall|k: int|
                            0 <= k < self.jobs@.len() implies #[trigger] self.jobs@[k].uuid
                            != job.uuid by {
                            assert(self.jobs@[k] == if k < i { jobs0[k] } else { jobs0[k + 1] });
                        }
                    }
                }
                let ghost jobs1 = self.jobs@;
                self.jobs.push(job);
                proof {
                    assert(self.jobs@.drop_last() =~= jobs1);
                    assert(self.jobs@.last() == job);
                    assert(jobs_as_map(self.jobs@) =~= jobs_as_map(jobs0).insert(
                        job.uuid,
                        job,
                    ));
                }
            },
            None => {
                self.jobs.push(job);
                proof {
                    assert(self.jobs@.drop_last() =~= jobs0);
                    assert(self.jobs@.last() == job);
                }
            },
        }
        self.mutation_count = self.mutation_count + 1;
        self.notify_list()
    }

    /// Drops the entry under the identifier, when one is held; a miss
    /// still counts and notifies as a mutation, because observers watch
    /// the registry as a whole, not individual entries.
    pub fn remove(&mut self, uuid: u128) -> (notify: Vec<u64>)
        requires
            old(self).wf(),
            old(self).mutations() < u64::MAX,
        ensures
            final(self).wf(),
            final(self).job_map() == old(self).job_map().remove(uuid),
            final(self).subscribers_seq() == old(self).subscribers_seq(),
            final(self).mutations() == old(self).mutations() + 1,
            notify@ == old(self).subscribers_seq(),
    {
        let ghost jobs0 = self.jobs@;
        match self.find_index(uuid) {
            Some(i) => {
                proof {
                    lemma_jobs_as_map_remove(jobs0, i as int);
                }
                let _removed = self.jobs.remove(i);
                proof {
                    assert(unique_uuids(self.jobs@)) by {
                        assert forall|a: int, b: int|
                            0 <= a < b < self.jobs@.len() implies self.jobs@[a].uuid
                            != self.jobs@[b].uuid by {
                            assert(self.jobs@[a] == if a < i { jobs0[a] } else { jobs0[a + 1] });
                            assert(self.jobs@[b] == if b < i { jobs0[b] } else { jobs0[b + 1] });
                        }
                    }
                }
            },
            None => {
                proof {
                    lemma_jobs_as_map_dom(jobs0, uuid);
                    assert(jobs_as_map(jobs0) =~= jobs_as_map(jobs0).remove(uuid));
                }
            },
        }
        self.mutation_count = self.mutation_count + 1;
        self.notify_list()
    }

    /// The job held under the identifier, when one is.
    pub fn get(&self, uuid: u128) -> (r: Option<&RcloneJob>)
        requires
            self.wf(),
        ensures
            match r {
                Some(j) => self.job_map().dom().contains(uuid) && *j == self.job_map()[uuid]
                    && j.uuid == uuid,
                None => !self.job_map().dom().contains(uuid),
            },
    {
        match self.find_index(uuid) {
            Some(i) => {
                proof {
                    lemma_jobs_as_map_at(self.jobs@, i as int);
                }
                Some(&self.jobs[i])
            },
            None => {
                proof {
                    lemma_jobs_as_map_dom(self.jobs@, uuid);
                }
                None
            },
        }
    }

    /// A view of all entries, in insertion order.
    pub fn iterate(&self) -> (r: &Vec<RcloneJob>)
        ensures
            r@ == self.jobs_seq(),
    {
        &self.jobs
    }

    /// Replaces the whole collection; used for bulk clearing.
    pub fn replace_all(&mut self, jobs: Vec<RcloneJob>) -> (notify: Vec<u64>)
        requires
            old(self).wf(),
            unique_uuids(jobs@),
            old(self).mutations() < u64::MAX,
        ensures
            final(self).wf(),
            final(self).jobs_seq() == jobs@,
            final(self).subscribers_seq() == old(self).subscribers_seq(),
            final(self).mutations() == old(self).mutations() + 1,
            notify@ == old(self).subscribers_seq(),
    {
        self.jobs = jobs;
        self.mutation_count = self.mutation_count + 1;
        self.notify_list()
    }

    /// Applies one status transition to the job under the identifier,
    /// keeping it in its place in the insertion order. The first component
    /// reports whether the job was found; a miss changes no entry but
    /// still counts and notifies as a mutation.
    pub fn update_status(&mut self, uuid: u128, status: RcloneJobStatus) -> (r: (bool, Vec<u64>))
        requires
            old(self).wf(),
            old(self).mutations() < u64::MAX,
        ensures
            final(self).wf(),
            final(self).subscribers_seq() == old(self).subscribers_seq(),
            final(self).mutations() == old(self).mutations() + 1,
            r.1@ == old(self).subscribers_seq(),
            r.0 == old(self).job_map().dom().contains(uuid),
            r.0 ==> final(self).job_map() == old(self).job_map().insert(
                uuid,
                with_status(old(self).job_map()[uuid], status),
            ),
            r.0 ==> final(self).jobs_seq().len() == old(self).jobs_seq().len(),
            r.0 ==> (forall|k: int|
                0 <= k < old(self).jobs_seq().len() ==> #[trigger] final(self).jobs_seq()[k] == (
                if old(self).jobs_seq()[k].uuid == uuid {
                    with_status(old(self).jobs_seq()[k], status)
                } else {
                    old(self).jobs_seq()[k]
                })),
            !r.0 ==> final(self).job_map() == old(self).job_map(),
            !r.0 ==> final(self).jobs_seq() == old(self).jobs_seq(),
    {
        let ghost jobs0 = self.jobs@;
        let found: bool;
        match self.find_index(uuid) {
            Some(i) => {
                proof {
                    lemma_jobs_as_map_at(jobs0, i as int);
                    lemma_jobs_as_map_remove(jobs0, i as int);
                }
                let mut job = self.jobs.remove(i);
                job.set_status(status);
                proof {
                    assert(unique_uuids(self.jobs@)) by {
                        assert forall|a: int, b: int|
                            0 <= a < b < self.jobs@.len() implies self.jobs@[a].uuid
                            != self.jobs@[b].uuid by {
                            assert(self.jobs@[a] == if a < i { jobs0[a] } else { jobs0[a + 1] });
                            assert(self.jobs@[b] == if b < i { jobs0[b] } else { jobs0[b + 1] });
                        }
                    }
                    assert(forall|k: int|
                        0 <= k < self.jobs@.len() ==> #[trigger] self.jobs@[k].uuid != uuid) by {
                        assert forall|k: int|
                            0 <= k < self.jobs@.len() implies #[trigger] self.jobs@[k].uuid
                            != uuid by {
                            assert(self.jobs@[k] == if k < i { jobs0[k] } else { jobs0[k + 1] });
                        }
                    }
                    assert(job == with_status(jobs0[i as int], status));
                }
                let ghost jobs1 = self.jobs@;
                let ghost updated = job;
                self.jobs.insert(i, job);
                proof {
                    lemma_jobs_as_map_insert_at(jobs1, i as int, updated);
                    assert(self.jobs@ =~= jobs0.update(i as int, updated));
                    assert(unique_uuids(self.jobs@)) by {
                        assert forall|a: int, b: int|
                            0 <= a < b < self.jobs@.len() implies self.jobs@[a].uuid
                            != self.jobs@[b].uuid by {
                            assert(jobs0[a].uuid != jobs0[b].uuid);
                        }
                    }
                    assert(jobs_as_map(self.jobs@) =~= jobs_as_map(jobs0).insert(
                        uuid,
                        with_status(jobs_as_map(jobs0)[uuid], status),
                    ));
                    assert forall|k: int|
                        0 <= k < jobs0.len() implies #[trigger] self.jobs@[k] == (
                    if jobs0[k].uuid == uuid {
                        with_status(jobs0[k], status)
                    } else {
                        jobs0[k]
                    }) by {
                        if k != i {
                            assert(jobs0[k].uuid != uuid);
                        }
                    }
                }
                found = true;
            },
            None => {
                proof {
                    lemma_jobs_as_map_dom(jobs0, uuid);
                }
                found = false;
            },
        }
        self.mutation_count = self.mutation_count + 1;
        let notify = self.notify_list();
        (found, notify)
    }
}

/// A snapshot of the jobs still running, in registry order.
pub fn get_ongoing_jobs(registry: &JobRegistry) -> (r: Vec<RcloneJob>)
    ensures
        r@ == registry.jobs_seq().filter(|j: RcloneJob| is_ongoing(j)),
{
    let jobs = registry.iterate();
    let mut out: Vec<RcloneJob> = Vec::new();
    let mut i: usize = 0;
    proof {
        reveal(Seq::filter);
    }
    while i < jobs.len()
        invariant
            i <= jobs@.len(),
            jobs@ == registry.jobs_seq(),
            out@ == jobs@.take(i as int).filter(|j: RcloneJob| is_ongoing(j)),
        decreases jobs@.len() - i,
    {
        proof {
            reveal(Seq::filter);
            assert(jobs@.take(i + 1).drop_last() =~= jobs@.take(i as int));
            assert(jobs@.take(i + 1).last() == jobs@[i as int]);
        }
        let job = &jobs[i];
        match job.status {
            RcloneJobStatus::Ongoing => {
                out.push(job.clone());
            },
            _ => {},
        }
        i += 1;
    }
    proof {
        assert(jobs@.take(jobs@.len() as int) =~= jobs@);
    }
    out
}

/// Whether any job has failed.
pub fn has_failed_jobs(registry: &JobRegistry) -> (r: bool)
    ensures
        r == (exists|i: int|
            0 <= i < registry.jobs_seq().len() && is_failed(
                #[trigger] registry.jobs_seq()[i],
            )),
{
    let jobs = registry.iterate();
    let mut i: usize = 0;
    while i < jobs.len()
        invariant
            i <= jobs@.len(),
            jobs@ == registry.jobs_seq(),
            forall|j: int| 0 <= j < i ==> !is_failed(#[trigger] jobs@[j]),
        decreases jobs@.len() - i,
    {
        match jobs[i].status {
            RcloneJobStatus::Failed(_) => {
                proof {
                    assert(is_failed(jobs@[i as int]));
                }
                return true;
            },
            _ => {},
        }
        i += 1;
    }
    false
}

/// Drops every terminated job, keeping the ongoing ones in order. The
/// snapshot-then-replace shape tolerates a job finishing in between: a
/// newly terminal job merely survives until the next clearing.
pub fn clean_non_ongoing_jobs(registry: &mut JobRegistry) -> (notify: Vec<u64>)
    requires
        old(registry).wf(),
        old(registry).mutations() < u64::MAX,
    ensures
        final(registry).wf(),
        final(registry).jobs_seq() == old(registry).jobs_seq().filter(
            |j: RcloneJob| is_ongoing(j),
        ),
        final(registry).subscribers_seq() == old(registry).subscribers_seq(),
        final(registry).mutations() == old(registry).mutations() + 1,
        notify@ == old(registry).subscribers_seq(),
{
    let kept = get_ongoing_jobs(registry);
    proof {
        lemma_filter_unique(registry.jobs_seq(), |j: RcloneJob| is_ongoing(j));
    }
    registry.replace_all(kept)
}

} // verus!
