//! Cancelling a job group: the group first, then the jobs of its projects that are in progress.
//!
//! Each step names the one thing that is wanted next, and is resumed with the reply to it.

use vstd::prelude::*;

use crate::error::Error;
use crate::messages::{
    Job, JobGet, JobGroup, JobGroupAudit, JobGroupCancel, JobGroupGet, JobGroupOperation,
    JobGroupProject, JobGroupProjectState, JobState, NetOk,
};
use crate::repeated::{projects, projects_as_slice};

verus! {

/// The jobs of the projects that are in progress, in the order of the projects.
pub open spec fn jobs_in_progress(projects: Seq<JobGroupProject>) -> Seq<u64> {
    projects.filter(
        |project: JobGroupProject| project.state == JobGroupProjectState::InProgress,
    ).map_values(|project: JobGroupProject| project.job_id)
}

/// The job with its state set, and nothing else changed.
pub open spec fn cancel_pending(job: Job) -> Job {
    Job { state: JobState::CancelPending, ..job }
}

/// Records that `msg` had the job group `group_id` cancelled.
pub open spec fn cancellation_entry(group_id: u64, msg: JobGroupCancel) -> JobGroupAudit {
    JobGroupAudit {
        group_id,
        operation: JobGroupOperation::JobGroupOpCancel,
        trigger: msg.trigger,
        requester_id: msg.requester_id,
        requester_name: msg.requester_name,
    }
}

/// A job group whose cancellation is under way. The jobs in `pending` have yet to be dealt
/// with, the first of them next.
#[verifier::ext_equal]
pub struct SweepView {
    pub msg: JobGroupCancel,
    pub group_id: u64,
    pub pending: Seq<u64>,
}

/// What a cancellation needs next, or what it is answered.
#[verifier::ext_equal]
pub enum CancelStepView {
    GetJobGroup(JobGroupCancel),
    CancelJobGroup(SweepView),
    GetJob(SweepView),
    UpdateJob(SweepView, Job),
    CreateAuditEntry(JobGroupCancel, u64),
    NotifyWork,
    Done(Result<NetOk, Error>),
}

/// The job group was looked up.
pub open spec fn after_group(msg: JobGroupCancel, found: Result<Option<JobGroup>, Error>) -> CancelStepView {
    match found {
        Ok(Some(group)) => CancelStepView::CancelJobGroup(
            SweepView {
                msg,
                group_id: group.id,
                pending: jobs_in_progress(projects(group.projects)),
            },
        ),
        Ok(None) => CancelStepView::Done(Err(Error::NotFound)),
        Err(_) => CancelStepView::Done(Err(Error::System)),
    }
}

/// The workers were notified.
pub open spec fn after_notify(notified: Result<(), Error>) -> CancelStepView {
    match notified {
        Ok(_) => CancelStepView::Done(Ok(NetOk {  })),
        Err(err) => CancelStepView::Done(Err(err)),
    }
}

impl SweepView {
    /// The sweep with the job at hand dealt with.
    pub open spec fn rest(self) -> SweepView {
        SweepView { pending: self.pending.drop_first(), ..self }
    }

    /// Goes on to the next job, or to the audit entry once there is none.
    pub open spec fn next(self) -> CancelStepView {
        if self.pending.len() == 0 {
            CancelStepView::CreateAuditEntry(self.msg, self.group_id)
        } else {
            CancelStepView::GetJob(self)
        }
    }

    /// The job group was cancelled.
    pub open spec fn after_cancel(self, cancelled: Result<(), Error>) -> CancelStepView {
        match cancelled {
            Ok(_) => self.next(),
            Err(err) => CancelStepView::Done(Err(err)),
        }
    }

    /// The job at hand was looked up. One that does not exist is passed over.
    pub open spec fn after_job(self, found: Result<Option<Job>, Error>) -> CancelStepView {
        match found {
            Ok(Some(job)) => CancelStepView::UpdateJob(self, cancel_pending(job)),
            Ok(None) => self.rest().next(),
            Err(err) => CancelStepView::Done(Err(err)),
        }
    }

    /// The job at hand was updated.
    pub open spec fn after_update(self, updated: Result<(), Error>) -> CancelStepView {
        match updated {
            Ok(_) => self.rest().next(),
            Err(err) => CancelStepView::Done(Err(err)),
        }
    }
}

struct Sweep {
    msg: JobGroupCancel,
    group_id: u64,
    jobs: Vec<u64>,
    index: usize,
}

impl Sweep {
    spec fn view(&self) -> SweepView {
        SweepView { msg: self.msg, group_id: self.group_id, pending: self.jobs@.skip(self.index as int) }
    }

    fn next(self) -> (step: CancelStep)
        requires
            self.index <= self.jobs@.len(),
        ensures
            step@ == self@.next(),
    {
        if self.index < self.jobs.len() {
            CancelStep::GetJob(CancelGetJob { sweep: self })
        } else {
            CancelStep::CreateAuditEntry(
                CancelAuditEntry { msg: self.msg, group_id: self.group_id },
            )
        }
    }

    fn pass(self) -> (step: CancelStep)
        requires
            self.index < self.jobs.len(),
        ensures
            step@ == self@.rest().next(),
    {
        let mut sweep = self;
        sweep.index = sweep.index + 1;
        assert(sweep@ =~= self@.rest());
        sweep.next()
    }
}

/// Waits for the job group.
pub struct CancelGetGroup {
    msg: JobGroupCancel,
}

/// Waits for the job group to be cancelled.
pub struct CancelGroup {
    sweep: Sweep,
}

/// Waits for a job that is in progress.
pub struct CancelGetJob {
    sweep: Sweep,
}

/// Waits for a job to be updated.
pub struct CancelUpdateJob {
    sweep: Sweep,
    job: Job,
}

/// Waits for the audit entry to be stored.
pub struct CancelAuditEntry {
    msg: JobGroupCancel,
    group_id: u64,
}

/// Waits for the workers to be notified.
pub struct CancelNotifyWork {}

/// What a cancellation needs next, or what it is answered.
pub enum CancelStep {
    GetJobGroup(CancelGetGroup),
    CancelJobGroup(CancelGroup),
    GetJob(CancelGetJob),
    UpdateJob(CancelUpdateJob),
    CreateAuditEntry(CancelAuditEntry),
    NotifyWork(CancelNotifyWork),
    Done(Result<NetOk, Error>),
}

impl View for CancelGetGroup {
    type V = JobGroupCancel;

    closed spec fn view(&self) -> JobGroupCancel {
        self.msg
    }
}

impl View for CancelGroup {
    type V = SweepView;

    closed spec fn view(&self) -> SweepView {
        self.sweep.view()
    }
}

impl View for CancelGetJob {
    type V = SweepView;

    closed spec fn view(&self) -> SweepView {
        self.sweep.view()
    }
}

impl View for CancelUpdateJob {
    type V = (SweepView, Job);

    closed spec fn view(&self) -> (SweepView, Job) {
        (self.sweep.view(), self.job)
    }
}

impl View for CancelAuditEntry {
    type V = (JobGroupCancel, u64);

    closed spec fn view(&self) -> (JobGroupCancel, u64) {
        (self.msg, self.group_id)
    }
}

impl View for CancelStep {
    type V = CancelStepView;

    open spec fn view(&self) -> CancelStepView {
        match self {
            CancelStep::GetJobGroup(step) => CancelStepView::GetJobGroup(step@),
            CancelStep::CancelJobGroup(step) => CancelStepView::CancelJobGroup(step@),
            CancelStep::GetJob(step) => CancelStepView::GetJob(step@),
            CancelStep::UpdateJob(step) => CancelStepView::UpdateJob(step@.0, step@.1),
            CancelStep::CreateAuditEntry(step) => CancelStepView::CreateAuditEntry(step@.0, step@.1),
            CancelStep::NotifyWork(_) => CancelStepView::NotifyWork,
            CancelStep::Done(reply) => CancelStepView::Done(*reply),
        }
    }
}

/// Starts to cancel a job group: the group has to be looked up.
pub fn job_group_cancel(msg: JobGroupCancel) -> (step: CancelStep)
    ensures
        step@ == CancelStepView::GetJobGroup(msg),
{
    CancelStep::GetJobGroup(CancelGetGroup { msg })
}

fn collect_jobs(projects: &[JobGroupProject]) -> (jobs: Vec<u64>)
    ensures
        jobs@ == jobs_in_progress(projects@),
{
    let mut jobs: Vec<u64> = Vec::new();
    let mut i: usize = 0;
    assert(projects@.take(0) =~= Seq::empty());
    assert(jobs@ =~= jobs_in_progress(projects@.take(0))) by {
        reveal(Seq::filter);
    }
    while i < projects.len()
        invariant
            i <= projects@.len(),
            jobs@ == jobs_in_progress(projects@.take(i as int)),
        decreases projects@.len() - i,
    {
        if projects[i].state == JobGroupProjectState::InProgress {
            jobs.push(projects[i].job_id);
        }
        proof {
            let seen = projects@.take(i + 1);
            reveal(Seq::filter);
            assert(seen.drop_last() =~= projects@.take(i as int));
            assert(jobs@ =~= jobs_in_progress(seen));
        }
        i = i + 1;
    }
    assert(projects@.take(i as int) =~= projects@);
    jobs
}

impl CancelGetGroup {
    /// The job group to look up, with its projects.
    pub fn query(&self) -> (query: JobGroupGet)
        ensures
            query == (JobGroupGet { group_id: self@.group_id, include_projects: true }),
    {
        JobGroupGet { group_id: self.msg.group_id, include_projects: true }
    }

    /// Goes on with the job group that was found.
    pub fn resume(self, found: Result<Option<JobGroup>, Error>) -> (step: CancelStep)
        ensures
            step@ == after_group(self@, found),
    {
        match found {
            Ok(Some(group)) => {
                let jobs = collect_jobs(projects_as_slice(&group.projects));
                let sweep = Sweep { msg: self.msg, group_id: group.id, jobs, index: 0 };
                assert(sweep@.pending =~= jobs@);
                CancelStep::CancelJobGroup(CancelGroup { sweep })
            },
            Ok(None) => CancelStep::Done(Err(Error::NotFound)),
            Err(_) => CancelStep::Done(Err(Error::System)),
        }
    }
}

impl CancelGroup {
    #[verifier::type_invariant]
    spec fn in_range(self) -> bool {
        self.sweep.index <= self.sweep.jobs.len()
    }

    /// The job group to cancel, with those of its projects that have not started.
    pub fn group_id(&self) -> (id: u64)
        ensures
            id == self@.group_id,
    {
        self.sweep.group_id
    }

    /// Goes on to the jobs that are in progress.
    pub fn resume(self, cancelled: Result<(), Error>) -> (step: CancelStep)
        ensures
            step@ == self@.after_cancel(cancelled),
    {
        proof {
            use_type_invariant(&self);
        }
        match cancelled {
            Ok(_) => self.sweep.next(),
            Err(err) => CancelStep::Done(Err(err)),
        }
    }
}

impl CancelGetJob {
    #[verifier::type_invariant]
    spec fn in_range(self) -> bool {
        self.sweep.index < self.sweep.jobs.len()
    }

    /// The job to look up.
    pub fn query(&self) -> (query: JobGet)
        ensures
            query.id == self@.pending[0],
    {
        proof {
            use_type_invariant(self);
        }
        JobGet { id: self.sweep.jobs[self.sweep.index] }
    }

    /// Has the job cancelled, or passes it over if there is none.
    pub fn resume(self, found: Result<Option<Job>, Error>) -> (step: CancelStep)
        ensures
            step@ == self@.after_job(found),
    {
        proof {
            use_type_invariant(&self);
        }
        match found {
            Ok(Some(job)) => {
                let mut job = job;
                job.state = JobState::CancelPending;
                CancelStep::UpdateJob(CancelUpdateJob { sweep: self.sweep, job })
            },
            Ok(None) => self.sweep.pass(),
            Err(err) => CancelStep::Done(Err(err)),
        }
    }
}

impl CancelUpdateJob {
    #[verifier::type_invariant]
    spec fn in_range(self) -> bool {
        self.sweep.index < self.sweep.jobs.len()
    }

    /// The job as it is to be stored.
    pub fn job(&self) -> (job: &Job)
        ensures
            *job == self@.1,
    {
        &self.job
    }

    /// Goes on to the next job.
    pub fn resume(self, updated: Result<(), Error>) -> (step: CancelStep)
        ensures
            step@ == self@.0.after_update(updated),
    {
        proof {
            use_type_invariant(&self);
        }
        match updated {
            Ok(_) => self.sweep.pass(),
            Err(err) => CancelStep::Done(Err(err)),
        }
    }
}

impl CancelAuditEntry {
    /// The entry to store.
    pub fn entry(&self) -> (entry: JobGroupAudit)
        ensures
            entry == cancellation_entry(self@.1, self@.0),
    {
        JobGroupAudit {
            group_id: self.group_id,
            operation: JobGroupOperation::JobGroupOpCancel,
            trigger: self.msg.trigger,
            requester_id: self.msg.requester_id,
            requester_name: self.msg.requester_name.clone(),
        }
    }

    /// Goes on, whether or not the entry was stored.
    pub fn resume(self, _stored: Result<(), Error>) -> (step: CancelStep)
        ensures
            step@ == CancelStepView::NotifyWork,
    {
        CancelStep::NotifyWork(CancelNotifyWork {  })
    }
}

impl CancelNotifyWork {
    /// Answers the request.
    pub fn resume(self, notified: Result<(), Error>) -> (step: CancelStep)
        ensures
            step@ == after_notify(notified),
    {
        match notified {
            Ok(_) => CancelStep::Done(Ok(NetOk {  })),
            Err(err) => CancelStep::Done(Err(err)),
        }
    }
}

} // verus!
