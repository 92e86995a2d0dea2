//! The job registry: which scheduled job serves which monitored entity.
//!
//! The scheduler hands out a `JobId` for every job it takes. The registry
//! remembers, for each monitor or event, the one job that is live for it.

use vstd::prelude::*;
use crate::incident::Timestamp;

verus! {

/// The identity that the scheduler gave a job: the 128 bits of its UUID.
#[derive(Copy, Clone, Debug, PartialEq, Eq, Structural)]
pub struct JobId {
    pub bits: u128,
}

/// Why a registry operation was refused.
#[derive(Copy, Clone, Debug, PartialEq, Eq, Structural)]
pub enum JobError {
    /// The entity already has a live job.
    AlreadyExists,
    /// The entity has no job.
    NotFound,
}

/// What the registry needs to know of a job's record.
pub trait JobMetadata: Sized {
    /// The id of the monitor or event that the job serves.
    spec fn entity(&self) -> Seq<char>;

    /// The scheduler's identity of the job.
    spec fn handle(&self) -> JobId;

    fn entity_id(&self) -> (res: &String)
        ensures
            res@ == self.entity(),
    ;

    fn job_id(&self) -> (res: JobId)
        ensures
            res == self.handle(),
    ;
}

/// The record of a monitor's recurring probe job.
#[derive(Debug)]
pub struct MonitorJobMetadata {
    pub id: JobId,
    pub cron_expr: String,
    pub monitor_id: String,
    pub created_at: Timestamp,
}

/// The record of an event's one-shot completion job.
#[derive(Debug)]
pub struct EventJobMetadata {
    pub id: JobId,
    pub event_id: String,
    pub created_at: Timestamp,
}

impl Clone for MonitorJobMetadata {
    fn clone(&self) -> (res: Self)
        ensures
            res == *self,
    {
        MonitorJobMetadata {
            id: self.id,
            cron_expr: self.cron_expr.clone(),
            monitor_id: self.monitor_id.clone(),
            created_at: self.created_at,
        }
    }
}

impl Clone for EventJobMetadata {
    fn clone(&self) -> (res: Self)
        ensures
            res == *self,
    {
        EventJobMetadata {
            id: self.id,
            event_id: self.event_id.clone(),
            created_at: self.created_at,
        }
    }
}

impl JobMetadata for MonitorJobMetadata {
    open spec fn entity(&self) -> Seq<char> {
        self.monitor_id@
    }

    open spec fn handle(&self) -> JobId {
        self.id
    }

    fn entity_id(&self) -> (res: &String) {
        &self.monitor_id
    }

    fn job_id(&self) -> (res: JobId) {
        self.id
    }
}

impl JobMetadata for EventJobMetadata {
    open spec fn entity(&self) -> Seq<char> {
        self.event_id@
    }

    open spec fn handle(&self) -> JobId {
        self.id
    }

    fn entity_id(&self) -> (res: &String) {
        &self.event_id
    }

    fn job_id(&self) -> (res: JobId) {
        self.id
    }
}

/// No two records serve the same entity.
pub open spec fn one_job_per_entity<M: JobMetadata>(s: Seq<M>) -> bool {
    forall|i: int, j: int|
        0 <= i < s.len() && 0 <= j < s.len() && i != j ==> s[i].entity() != s[j].entity()
}

/// Some record serves `entity`.
pub open spec fn has_job<M: JobMetadata>(s: Seq<M>, entity: Seq<char>) -> bool {
    exists|i: int| 0 <= i < s.len() && (#[trigger] s[i]).entity() == entity
}

/// The position of a record that serves `entity`, where there is one.
pub open spec fn job_index<M: JobMetadata>(s: Seq<M>, entity: Seq<char>) -> int {
    choose|i: int| 0 <= i < s.len() && (#[trigger] s[i]).entity() == entity
}

/// The handle of the job that serves `entity`, if any.
pub open spec fn handle_of<M: JobMetadata>(s: Seq<M>, entity: Seq<char>) -> Option<JobId> {
    if has_job(s, entity) {
        Some(s[job_index(s, entity)].handle())
    } else {
        None
    }
}

/// How many records serve `entity`.
pub open spec fn job_count<M: JobMetadata>(s: Seq<M>, entity: Seq<char>) -> nat
    decreases s.len(),
{
    if s.len() == 0 {
        0
    } else {
        job_count(s.drop_last(), entity) + if s.last().entity() == entity {
            1nat
        } else {
            0nat
        }
    }
}

/// The records without the one that serves `entity`.
pub open spec fn without<M: JobMetadata>(s: Seq<M>, entity: Seq<char>) -> Seq<M> {
    if has_job(s, entity) {
        s.remove(job_index(s, entity))
    } else {
        s
    }
}

/// Picks the records of all jobs but `id`.
pub open spec fn not_job<M: JobMetadata>(id: JobId) -> spec_fn(M) -> bool {
    |m: M| m.handle() != id
}

/// One call on the registry.
pub enum JobOp<M> {
    /// Register a job for an entity that has none.
    Create(M),
    /// Put a job in the place of the entity's job.
    Replace(M),
    /// Drop the entity's job.
    Remove(Seq<char>),
    /// Drop the jobs with this handle.
    Cancel(JobId),
    /// Drop every job.
    Clear,
}

/// The records after one call.
pub open spec fn apply_op<M: JobMetadata>(s: Seq<M>, op: JobOp<M>) -> Seq<M> {
    match op {
        JobOp::Create(job) => if has_job(s, job.entity()) {
            s
        } else {
            s.push(job)
        },
        JobOp::Replace(job) => without(s, job.entity()).push(job),
        JobOp::Remove(entity) => without(s, entity),
        JobOp::Cancel(id) => s.filter(not_job(id)),
        JobOp::Clear => Seq::empty(),
    }
}

/// The records after a sequence of calls, the first of them on `s`.
pub open spec fn apply_ops<M: JobMetadata>(s: Seq<M>, ops: Seq<JobOp<M>>) -> Seq<M>
    decreases ops.len(),
{
    if ops.len() == 0 {
        s
    } else {
        apply_op(apply_ops(s, ops.drop_last()), ops.last())
    }
}

/// With one job per entity, the record of an entity stands at one position.
pub proof fn lemma_job_unique<M: JobMetadata>(s: Seq<M>, entity: Seq<char>, i: int)
    requires
        one_job_per_entity(s),
        0 <= i < s.len(),
        s[i].entity() == entity,
    ensures
        has_job(s, entity),
        job_index(s, entity) == i,
        handle_of(s, entity) == Some(s[i].handle()),
{
    assert(has_job(s, entity));
    let j = job_index(s, entity);
    assert(0 <= j < s.len() && s[j].entity() == entity);
}

/// Dropping an entity's record leaves no record for it and keeps the rest.
pub proof fn lemma_without<M: JobMetadata>(s: Seq<M>, entity: Seq<char>)
    requires
        one_job_per_entity(s),
    ensures
        one_job_per_entity(without(s, entity)),
        !has_job(without(s, entity), entity),
        forall|other: Seq<char>|
            other != entity ==> handle_of(without(s, entity), other) == handle_of(s, other),
{
    let r = without(s, entity);
    if has_job(s, entity) {
        let i = job_index(s, entity);
        assert forall|a: int, b: int| 0 <= a < r.len() && 0 <= b < r.len() && a != b implies r[a].entity()
            != r[b].entity() by {
            let a0 = if a < i { a } else { a + 1 };
            let b0 = if b < i { b } else { b + 1 };
            assert(r[a] == s[a0] && r[b] == s[b0]);
        }
        assert forall|k: int| 0 <= k < r.len() implies (#[trigger] r[k]).entity() != entity by {
            let k0 = if k < i { k } else { k + 1 };
            assert(r[k] == s[k0]);
        }
        assert forall|other: Seq<char>| other != entity implies handle_of(r, other) == handle_of(
            s,
            other,
        ) by {
            if has_job(s, other) {
                let j = job_index(s, other);
                let j1 = if j < i { j } else { j - 1 };
                assert(r[j1] == s[j]);
                lemma_job_unique(r, other, j1);
            } else if has_job(r, other) {
                let k = job_index(r, other);
                let k0 = if k < i { k } else { k + 1 };
                assert(r[k] == s[k0]);
                assert(has_job(s, other));
            }
        }
    }
}

/// Adding a record for an entity that has none keeps one job per entity.
pub proof fn lemma_push_job<M: JobMetadata>(s: Seq<M>, job: M)
    requires
        one_job_per_entity(s),
        !has_job(s, job.entity()),
    ensures
        one_job_per_entity(s.push(job)),
        handle_of(s.push(job), job.entity()) == Some(job.handle()),
        forall|other: Seq<char>|
            other != job.entity() ==> handle_of(s.push(job), other) == handle_of(s, other),
{
    let r = s.push(job);
    assert forall|a: int, b: int| 0 <= a < r.len() && 0 <= b < r.len() && a != b implies r[a].entity()
        != r[b].entity() by {
        if a < s.len() {
            assert(r[a] == s[a]);
        }
        if b < s.len() {
            assert(r[b] == s[b]);
        }
    }
    lemma_job_unique(r, job.entity(), s.len() as int);
    assert forall|other: Seq<char>| other != job.entity() implies handle_of(r, other)
        == handle_of(s, other) by {
        if has_job(s, other) {
            let j = job_index(s, other);
            assert(r[j] == s[j]);
            lemma_job_unique(r, other, j);
        } else if has_job(r, other) {
            let k = job_index(r, other);
            assert(r[k] == s[k]);
            assert(has_job(s, other));
        }
    }
}

/// Dropping the jobs with one handle keeps one job per entity.
pub proof fn lemma_cancel<M: JobMetadata>(s: Seq<M>, id: JobId)
    requires
        one_job_per_entity(s),
    ensures
        one_job_per_entity(s.filter(not_job(id))),
    decreases s.len(),
{
    reveal(Seq::filter);
    if s.len() > 0 {
        let head = s.drop_last();
        assert forall|i: int, j: int|
            0 <= i < head.len() && 0 <= j < head.len() && i != j implies head[i].entity()
            != head[j].entity() by {
            assert(head[i] == s[i] && head[j] == s[j]);
        }
        lemma_cancel(head, id);
        let kept = head.filter(not_job(id));
        if not_job::<M>(id)(s.last()) {
            assert forall|k: int| 0 <= k < kept.len() implies (#[trigger] kept[k]).entity()
                != s.last().entity() by {
                assert(kept.contains(kept[k]));
                head.lemma_filter_contains_rev(not_job(id), kept[k]);
                let j = choose|j: int| 0 <= j < head.len() && head[j] == kept[k];
                assert(s[j] == head[j]);
                assert(s[s.len() - 1] == s.last());
            }
            assert(!has_job(kept, s.last().entity()));
            lemma_push_job(kept, s.last());
        }
    }
}

/// Every call keeps one job per entity.
pub proof fn lemma_apply_op<M: JobMetadata>(s: Seq<M>, op: JobOp<M>)
    requires
        one_job_per_entity(s),
    ensures
        one_job_per_entity(apply_op(s, op)),
{
    match op {
        JobOp::Create(job) => {
            if !has_job(s, job.entity()) {
                lemma_push_job(s, job);
            }
        },
        JobOp::Replace(job) => {
            lemma_without(s, job.entity());
            lemma_push_job(without(s, job.entity()), job);
        },
        JobOp::Remove(entity) => {
            lemma_without(s, entity);
        },
        JobOp::Cancel(id) => {
            lemma_cancel(s, id);
        },
        JobOp::Clear => {},
    }
}

/// With one job per entity, no entity is served by more than one record.
pub proof fn lemma_count_at_most_one<M: JobMetadata>(s: Seq<M>, entity: Seq<char>)
    requires
        one_job_per_entity(s),
    ensures
        job_count(s, entity) <= 1,
        job_count(s, entity) == 1 <==> has_job(s, entity),
    decreases s.len(),
{
    if s.len() > 0 {
        let head = s.drop_last();
        assert forall|i: int, j: int|
            0 <= i < head.len() && 0 <= j < head.len() && i != j implies head[i].entity()
            != head[j].entity() by {
            assert(head[i] == s[i] && head[j] == s[j]);
        }
        lemma_count_at_most_one(head, entity);
        if has_job(head, entity) {
            let j = job_index(head, entity);
            assert(s[j] == head[j]);
            assert(has_job(s, entity));
            assert(s[s.len() - 1] == s.last());
        } else if s.last().entity() == entity {
            assert(s[s.len() - 1] == s.last());
            assert(has_job(s, entity));
        } else if has_job(s, entity) {
            let k = job_index(s, entity);
            assert(k < head.len());
            assert(head[k] == s[k]);
        }
    }
}

/// Whatever calls are made on an empty registry, in whatever order, each
/// entity ends up with no job or with one, never with more.
pub proof fn at_most_one_job_per_entity<M: JobMetadata>(ops: Seq<JobOp<M>>, entity: Seq<char>)
    ensures
        one_job_per_entity(apply_ops(Seq::<M>::empty(), ops)),
        job_count(apply_ops(Seq::<M>::empty(), ops), entity) <= 1,
    decreases ops.len(),
{
    if ops.len() > 0 {
        at_most_one_job_per_entity(ops.drop_last(), entity);
        lemma_apply_op(apply_ops(Seq::<M>::empty(), ops.drop_last()), ops.last());
    }
    lemma_count_at_most_one(apply_ops(Seq::<M>::empty(), ops), entity);
}

/// Taking out a record that a filter would drop does not change what the
/// filter gives.
proof fn lemma_filter_remove<A>(s: Seq<A>, pred: spec_fn(A) -> bool, i: int)
    requires
        0 <= i < s.len(),
        !pred(s[i]),
    ensures
        s.remove(i).filter(pred) == s.filter(pred),
{
    let head = s.take(i);
    let tail = s.skip(i + 1);
    assert(s == head.push(s[i]) + tail);
    assert(s.remove(i) == head + tail);
    Seq::filter_distributes_over_add(head.push(s[i]), tail, pred);
    Seq::filter_distributes_over_add(head, tail, pred);
    head.lemma_filter_push(s[i], pred);
}

/// The live jobs, at most one per monitored entity.
#[derive(Debug)]
pub struct JobRegistry<M: JobMetadata> {
    jobs: Vec<M>,
}

impl<M: JobMetadata> View for JobRegistry<M> {
    type V = Seq<M>;

    closed spec fn view(&self) -> Seq<M> {
        self.jobs@
    }
}

impl<M: JobMetadata> JobRegistry<M> {
    /// Every entity has at most one live job.
    pub open spec fn wf(&self) -> bool {
        one_job_per_entity(self@)
    }

    /// A registry without jobs.
    pub fn new() -> (res: Self)
        ensures
            res@ == Seq::<M>::empty(),
            res.wf(),
    {
        JobRegistry { jobs: Vec::new() }
    }

    /// The number of live jobs.
    pub fn len(&self) -> (res: usize)
        ensures
            res == self@.len(),
    {
        self.jobs.len()
    }

    /// The records of the live jobs, oldest first.
    pub fn entries(&self) -> (res: &Vec<M>)
        ensures
            res@ == self@,
    {
        &self.jobs
    }

    fn position(&self, entity: &String) -> (res: Option<usize>)
        requires
            self.wf(),
        ensures
            res.is_some() == has_job(self@, entity@),
            res matches Some(i) ==> i == job_index(self@, entity@) && i < self@.len(),
    {
        let mut i: usize = 0;
        while i < self.jobs.len()
            invariant
                self.wf(),
                i <= self.jobs.len(),
                forall|k: int| 0 <= k < i ==> self.jobs@[k].entity() != entity@,
            decreases self.jobs.len() - i,
        {
            if *self.jobs[i].entity_id() == *entity {
                proof {
                    lemma_job_unique(self@, entity@, i as int);
                }
                return Some(i);
            }
            i += 1;
        }
        None
    }

    /// The handle of the entity's job, or `NotFound`.
    pub fn find(&self, entity: &String) -> (res: Result<JobId, JobError>)
        requires
            self.wf(),
        ensures
            match handle_of(self@, entity@) {
                Some(id) => res == Ok::<JobId, JobError>(id),
                None => res == Err::<JobId, JobError>(JobError::NotFound),
            },
    {
        match self.position(entity) {
            Some(i) => Ok(self.jobs[i].job_id()),
            None => Err(JobError::NotFound),
        }
    }

    /// Registers `job` for its entity and returns its handle. An entity that
    /// already has a job keeps it, and the call reports `AlreadyExists`.
    pub fn create(&mut self, job: M) -> (res: Result<JobId, JobError>)
        requires
            old(self).wf(),
        ensures
            final(self).wf(),
            final(self)@ == apply_op(old(self)@, JobOp::Create(job)),
            has_job(old(self)@, job.entity()) ==> res == Err::<JobId, JobError>(
                JobError::AlreadyExists,
            ),
            !has_job(old(self)@, job.entity()) ==> res == Ok::<JobId, JobError>(job.handle())
                && handle_of(final(self)@, job.entity()) == Some(job.handle()),
    {
        match self.position(job.entity_id()) {
            Some(_) => Err(JobError::AlreadyExists),
            None => {
                proof {
                    lemma_push_job(self@, job);
                }
                let id = job.job_id();
                self.jobs.push(job);
                Ok(id)
            },
        }
    }

    /// Drops the entity's job and returns its handle, so that the caller can
    /// cancel it. An entity without a job is reported as `NotFound`.
    pub fn remove(&mut self, entity: &String) -> (res: Result<JobId, JobError>)
        requires
            old(self).wf(),
        ensures
            final(self).wf(),
            final(self)@ == apply_op(old(self)@, JobOp::Remove(entity@)),
            !has_job(final(self)@, entity@),
            match handle_of(old(self)@, entity@) {
                Some(id) => res == Ok::<JobId, JobError>(id),
                None => res == Err::<JobId, JobError>(JobError::NotFound),
            },
    {
        proof {
            lemma_without(self@, entity@);
        }
        match self.position(entity) {
            Some(i) => {
                let job = self.jobs.remove(i);
                Ok(job.job_id())
            },
            None => Err(JobError::NotFound),
        }
    }

    /// Puts `job` in the place of its entity's job, in one step. Returns the
    /// handle of the job that was replaced, which the caller has to cancel,
    /// or `None` where the entity had no job before.
    pub fn replace(&mut self, job: M) -> (res: Option<JobId>)
        requires
            old(self).wf(),
        ensures
            final(self).wf(),
            final(self)@ == apply_op(old(self)@, JobOp::Replace(job)),
            res == handle_of(old(self)@, job.entity()),
            handle_of(final(self)@, job.entity()) == Some(job.handle()),
    {
        proof {
            lemma_without(self@, job.entity());
            lemma_push_job(without(self@, job.entity()), job);
        }
        let replaced = match self.position(job.entity_id()) {
            Some(i) => {
                let previous = self.jobs.remove(i);
                Some(previous.job_id())
            },
            None => None,
        };
        self.jobs.push(job);
        replaced
    }

    /// The handles of all live jobs, oldest first.
    pub fn handles(&self) -> (res: Vec<JobId>)
        ensures
            res@ == self@.map_values(|m: M| m.handle()),
    {
        let mut out: Vec<JobId> = Vec::new();
        let mut i: usize = 0;
        while i < self.jobs.len()
            invariant
                i <= self.jobs.len(),
                out@ == self.jobs@.take(i as int).map_values(|m: M| m.handle()),
            decreases self.jobs.len() - i,
        {
            proof {
                assert(self.jobs@.take(i + 1) == self.jobs@.take(i as int).push(self.jobs@[i as int]));
            }
            out.push(self.jobs[i].job_id());
            i += 1;
        }
        proof {
            assert(self.jobs@.take(i as int) == self.jobs@);
        }
        out
    }
}

/// Drops every record of the job `job_id` from the registry.
pub fn remove_job<M: JobMetadata>(job_id: JobId, registry: &mut JobRegistry<M>)
    requires
        old(registry).wf(),
    ensures
        final(registry).wf(),
        final(registry)@ == apply_op(old(registry)@, JobOp::Cancel(job_id)),
{
    proof {
        lemma_cancel(registry@, job_id);
        reveal(Seq::filter);
        assert(registry@.take(0).len() == 0);
    }
    let mut i: usize = 0;
    while i < registry.jobs.len()
        invariant
            i <= registry.jobs.len(),
            registry.jobs@.take(i as int).filter(not_job(job_id)) == registry.jobs@.take(i as int),
            registry.jobs@.filter(not_job(job_id)) == old(registry)@.filter(not_job(job_id)),
        decreases registry.jobs.len() - i,
    {
        if registry.jobs[i].job_id() == job_id {
            proof {
                lemma_filter_remove(registry.jobs@, not_job(job_id), i as int);
                assert(registry.jobs@.remove(i as int).take(i as int) == registry.jobs@.take(i as int));
            }
            registry.jobs.remove(i);
        } else {
            proof {
                assert(registry.jobs@.take(i + 1) == registry.jobs@.take(i as int).push(
                    registry.jobs@[i as int],
                ));
                registry.jobs@.take(i as int).lemma_filter_push(
                    registry.jobs@[i as int],
                    not_job(job_id),
                );
            }
            i += 1;
        }
    }
    proof {
        assert(registry.jobs@.take(i as int) == registry.jobs@);
    }
}

/// Empties the registry and returns the handles of the jobs it held, oldest
/// first, for the caller to cancel.
pub fn clear_jobs<M: JobMetadata>(registry: &mut JobRegistry<M>) -> (res: Vec<JobId>)
    ensures
        final(registry).wf(),
        final(registry)@ == apply_op(old(registry)@, JobOp::Clear),
        res@ == old(registry)@.map_values(|m: M| m.handle()),
{
    let handles = registry.handles();
    registry.jobs = Vec::new();
    handles
}

} // verus!
