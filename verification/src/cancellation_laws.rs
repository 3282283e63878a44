//! What holds of requests to cancel a job group, stated on the calls that answer them, on what
//! the outside replies, and on what comes out.

use vstd::prelude::*;

use crate::cancel::{
    after_notify, cancel_pending, job_group_cancel, jobs_in_progress, CancelAuditEntry, CancelGetGroup,
    CancelGetJob, CancelGroup, CancelNotifyWork, CancelStep, CancelStepView, CancelUpdateJob, SweepView,
};
use crate::cancel_laws::{
    at_hand, cancel_answer, cancel_run, cancel_turn, cancel_turns, cancellation_is_answered, sweep_error,
    sweep_from, swept_jobs, CancelReplies,
};
use crate::error::Error;
use crate::messages::{
    Job, JobGet, JobGroup, JobGroupAudit, JobGroupCancel, JobGroupGet, JobGroupOperation,
    JobGroupProject, JobState, NetOk,
};
use crate::repeated::projects;

verus! {

/// What the outside has to say to a request: the job group of an id, with its projects or
/// without; whether a job group is cancelled; the job of an id; whether a job is updated and an
/// audit entry stored; and whether the workers are notified.
pub struct CancelWorld {
    pub group: spec_fn(u64, bool) -> Result<Option<JobGroup>, Error>,
    pub cancel: spec_fn(u64) -> Result<(), Error>,
    pub job: spec_fn(u64) -> Result<Option<Job>, Error>,
    pub update: spec_fn(Job) -> Result<(), Error>,
    pub audited: spec_fn(JobGroupAudit) -> Result<(), Error>,
    pub notified: Result<(), Error>,
}

/// The step comes of the one before it, which was resumed with what the outside has to say to
/// what it asked.
pub open spec fn cancel_follows(step: CancelStep, next: CancelStep, world: CancelWorld) -> bool {
    match step {
        CancelStep::GetJobGroup(waiting) => exists|query: JobGroupGet|
            {
                &&& #[trigger] call_ensures(CancelGetGroup::query, (&waiting,), query)
                &&& call_ensures(
                    CancelGetGroup::resume,
                    (waiting, (world.group)(query.group_id, query.include_projects)),
                    next,
                )
            },
        CancelStep::CancelJobGroup(waiting) => exists|group_id: u64|
            {
                &&& #[trigger] call_ensures(CancelGroup::group_id, (&waiting,), group_id)
                &&& call_ensures(CancelGroup::resume, (waiting, (world.cancel)(group_id)), next)
            },
        CancelStep::GetJob(waiting) => exists|query: JobGet|
            {
                &&& #[trigger] call_ensures(CancelGetJob::query, (&waiting,), query)
                &&& call_ensures(CancelGetJob::resume, (waiting, (world.job)(query.id)), next)
            },
        CancelStep::UpdateJob(waiting) => exists|job: Job|
            {
                &&& #[trigger] call_ensures(CancelUpdateJob::job, (&waiting,), &job)
                &&& call_ensures(CancelUpdateJob::resume, (waiting, (world.update)(job)), next)
            },
        CancelStep::CreateAuditEntry(waiting) => exists|entry: JobGroupAudit|
            {
                &&& #[trigger] call_ensures(CancelAuditEntry::entry, (&waiting,), entry)
                &&& call_ensures(CancelAuditEntry::resume, (waiting, (world.audited)(entry)), next)
            },
        CancelStep::NotifyWork(waiting) => call_ensures(
            CancelNotifyWork::resume,
            (waiting, world.notified),
            next,
        ),
        CancelStep::Done(_) => false,
    }
}

/// The step behind the one at `at` follows it.
pub open spec fn cancel_follows_at(steps: Seq<CancelStep>, at: int, world: CancelWorld) -> bool {
    cancel_follows(steps[at], steps[at + 1], world)
}

/// The request is served by the given steps, one after the other.
pub open spec fn cancel_served(
    msg: JobGroupCancel,
    world: CancelWorld,
    steps: Seq<CancelStep>,
) -> bool {
    &&& 0 < steps.len()
    &&& call_ensures(job_group_cancel, (msg,), steps[0])
    &&& forall|at: int| 0 <= at < steps.len() - 1 ==> #[trigger] cancel_follows_at(steps, at, world)
}

/// The job group that the request is about, if there is one.
pub open spec fn group_found(msg: JobGroupCancel, world: CancelWorld, group: JobGroup) -> bool {
    (world.group)(msg.group_id, true) == Ok::<Option<JobGroup>, Error>(Some(group))
}

/// The job with its state set to cancel, and all else as it was.
pub open spec fn set_to_cancel(job: Job) -> Job {
    Job { id: job.id, state: JobState::CancelPending, is_archived: job.is_archived, details: job.details }
}

/// What a job that is to be cancelled meets with, if it fails.
pub open spec fn failure_of(world: CancelWorld, job_id: u64) -> Option<Error> {
    match (world.job)(job_id) {
        Err(err) => Some(err),
        Ok(None) => None,
        Ok(Some(job)) => match (world.update)(set_to_cancel(job)) {
            Ok(_) => None,
            Err(err) => Some(err),
        },
    }
}

/// The step looks up the job of that id.
pub open spec fn looks_up(step: CancelStep, job_id: u64) -> bool {
    match step {
        CancelStep::GetJob(waiting) => exists|query: JobGet| #[trigger]
            call_ensures(CancelGetJob::query, (&waiting,), query) && query.id == job_id,
        _ => false,
    }
}

/// The step stores that job.
pub open spec fn stores(step: CancelStep, job: Job) -> bool {
    match step {
        CancelStep::UpdateJob(waiting) => call_ensures(CancelUpdateJob::job, (&waiting,), &job),
        _ => false,
    }
}

/// The jobs in progress are those of the projects that are in progress, each once for each such
/// project, in the order of the projects: `at` tells which project each of them is of.
pub proof fn jobs_in_progress_are_of_projects_in_progress(of: Seq<JobGroupProject>) -> (at: Seq<int>)
    ensures
        at.len() == jobs_in_progress(of).len(),
        forall|k: int|
            0 <= k < at.len() ==> {
                &&& 0 <= #[trigger] at[k] < of.len()
                &&& of[at[k]].state is InProgress
                &&& of[at[k]].job_id == jobs_in_progress(of)[k]
            },
        forall|k: int, l: int| 0 <= k < l < at.len() ==> #[trigger] at[k] < #[trigger] at[l],
        forall|i: int| 0 <= i < of.len() && (#[trigger] of[i]).state is InProgress ==> at.contains(i),
    decreases of.len(),
{
    reveal(Seq::filter);
    if of.len() == 0 {
        assert(jobs_in_progress(of) =~= Seq::empty());
        Seq::empty()
    } else {
        let init = of.drop_last();
        let before = jobs_in_progress_are_of_projects_in_progress(init);
        let last = of.len() - 1;
        assert forall|i: int| 0 <= i < last implies #[trigger] init[i] == of[i] by {}
        if of.last().state is InProgress {
            let at = before.push(last);
            assert(jobs_in_progress(of) =~= jobs_in_progress(init).push(of.last().job_id));
            assert forall|k: int| 0 <= k < at.len() implies {
                &&& 0 <= #[trigger] at[k] < of.len()
                &&& of[at[k]].state is InProgress
                &&& of[at[k]].job_id == jobs_in_progress(of)[k]
            } by {
                if k < before.len() {
                    assert(at[k] == before[k]);
                    assert(init[before[k]] == of[before[k]]);
                }
            }
            assert forall|i: int|
                0 <= i < of.len() && (#[trigger] of[i]).state is InProgress implies at.contains(i) by {
                if i == last {
                    assert(at[before.len() as int] == i);
                } else {
                    assert(init[i] == of[i]);
                    let k = choose|k: int| 0 <= k < before.len() && before[k] == i;
                    assert(at[k] == i);
                }
            }
            at
        } else {
            assert(jobs_in_progress(of) =~= jobs_in_progress(init));
            assert forall|i: int|
                0 <= i < of.len() && (#[trigger] of[i]).state is InProgress implies before.contains(i) by {
                assert(init[i] == of[i]);
            }
            before
        }
    }
}

spec fn replies_of(msg: JobGroupCancel, world: CancelWorld) -> CancelReplies {
    let group = (world.group)(msg.group_id, true);
    let jobs = jobs_in_progress(projects(group->Ok_0->0.projects));
    CancelReplies {
        group,
        cancelled: (world.cancel)(group->Ok_0->0.id),
        jobs: Seq::new(jobs.len(), |i: int| (world.job)(jobs[i])),
        updates: Seq::new(
            jobs.len(),
            |i: int|
                match (world.job)(jobs[i]) {
                    Ok(Some(job)) => (world.update)(cancel_pending(job)),
                    _ => Ok(()),
                },
        ),
        notified: world.notified,
    }
}

spec fn sweeps_on(sweep: SweepView, msg: JobGroupCancel, world: CancelWorld) -> bool {
    let replies = replies_of(msg, world);
    &&& replies.group is Ok
    &&& replies.group->Ok_0 is Some
    &&& 0 <= at_hand(sweep, replies) < swept_jobs(replies).len()
    &&& sweep == sweep_from(msg, replies, at_hand(sweep, replies))
}

spec fn on_track(step: CancelStepView, msg: JobGroupCancel, world: CancelWorld) -> bool {
    let replies = replies_of(msg, world);
    match step {
        CancelStepView::GetJobGroup(m) => m == msg,
        CancelStepView::CancelJobGroup(sweep) => {
            &&& replies.group is Ok
            &&& replies.group->Ok_0 is Some
            &&& sweep == sweep_from(msg, replies, 0)
        },
        CancelStepView::GetJob(sweep) => sweeps_on(sweep, msg, world),
        CancelStepView::UpdateJob(sweep, job) => {
            &&& sweeps_on(sweep, msg, world)
            &&& replies.jobs[at_hand(sweep, replies)] matches Ok(Some(found))
            &&& job == cancel_pending(found)
        },
        CancelStepView::CreateAuditEntry(m, group_id) => {
            &&& m == msg
            &&& replies.group is Ok
            &&& replies.group->Ok_0 is Some
            &&& group_id == replies.group->Ok_0->0.id
        },
        CancelStepView::NotifyWork => true,
        CancelStepView::Done(_) => true,
    }
}

proof fn next_is_on_track(msg: JobGroupCancel, world: CancelWorld, from: int)
    requires
        replies_of(msg, world).group is Ok,
        replies_of(msg, world).group->Ok_0 is Some,
        0 <= from <= swept_jobs(replies_of(msg, world)).len(),
    ensures
        on_track(sweep_from(msg, replies_of(msg, world), from).next(), msg, world),
{
    let replies = replies_of(msg, world);
    let sweep = sweep_from(msg, replies, from);
    assert(at_hand(sweep, replies) == from);
}

proof fn cancel_turn_stays_on_track(step: CancelStepView, msg: JobGroupCancel, world: CancelWorld)
    requires
        on_track(step, msg, world),
    ensures
        on_track(cancel_turn(step, replies_of(msg, world)), msg, world),
{
    let replies = replies_of(msg, world);
    match step {
        CancelStepView::GetJobGroup(_) => {
            assert(swept_jobs(replies).skip(0) =~= swept_jobs(replies));
        },
        CancelStepView::CancelJobGroup(_) => {
            next_is_on_track(msg, world, 0);
        },
        CancelStepView::GetJob(sweep) => {
            let here = at_hand(sweep, replies);
            assert(sweep.rest() =~= sweep_from(msg, replies, here + 1));
            next_is_on_track(msg, world, here + 1);
        },
        CancelStepView::UpdateJob(sweep, _) => {
            let here = at_hand(sweep, replies);
            assert(sweep.rest() =~= sweep_from(msg, replies, here + 1));
            next_is_on_track(msg, world, here + 1);
        },
        _ => {},
    }
}

proof fn follows_turns(step: CancelStep, next: CancelStep, msg: JobGroupCancel, world: CancelWorld)
    requires
        cancel_follows(step, next, world),
        on_track(step@, msg, world),
    ensures
        next@ == cancel_turn(step@, replies_of(msg, world)),
{
    let replies = replies_of(msg, world);
    match step {
        CancelStep::GetJob(waiting) => {
            let here = at_hand(waiting@, replies);
            assert(waiting@.pending[0] == swept_jobs(replies)[here]);
            assert(replies.jobs[here] == (world.job)(swept_jobs(replies)[here]));
        },
        CancelStep::UpdateJob(waiting) => {
            let here = at_hand(waiting@.0, replies);
            assert(replies.jobs[here] == (world.job)(swept_jobs(replies)[here]));
            assert(replies.updates[here] == (world.update)(waiting@.1));
        },
        _ => {},
    }
}

proof fn cancel_run_extends(step: CancelStepView, replies: CancelReplies, turns: nat)
    ensures
        cancel_run(step, replies, turns + 1) == cancel_turn(
            cancel_run(step, replies, turns),
            replies,
        ),
    decreases turns,
{
    reveal_with_fuel(cancel_run, 2);
    if turns > 0 {
        cancel_run_extends(cancel_turn(step, replies), replies, (turns - 1) as nat);
    }
}

proof fn cancel_run_joins(step: CancelStepView, replies: CancelReplies, first: nat, more: nat)
    ensures
        cancel_run(step, replies, first + more) == cancel_run(
            cancel_run(step, replies, first),
            replies,
            more,
        ),
    decreases first,
{
    if first > 0 {
        cancel_run_joins(cancel_turn(step, replies), replies, (first - 1) as nat, more);
    }
}

proof fn cancel_run_rests(answer: Result<NetOk, Error>, replies: CancelReplies, turns: nat)
    ensures
        cancel_run(CancelStepView::Done(answer), replies, turns) == CancelStepView::Done(answer),
    decreases turns,
{
    if turns > 0 {
        cancel_run_rests(answer, replies, (turns - 1) as nat);
    }
}

proof fn steps_run(msg: JobGroupCancel, world: CancelWorld, steps: Seq<CancelStep>, at: int)
    requires
        cancel_served(msg, world, steps),
        0 <= at < steps.len(),
    ensures
        steps[at]@ == cancel_run(
            CancelStepView::GetJobGroup(msg),
            replies_of(msg, world),
            at as nat,
        ),
        on_track(steps[at]@, msg, world),
    decreases at,
{
    if at > 0 {
        let replies = replies_of(msg, world);
        steps_run(msg, world, steps, at - 1);
        cancel_run_extends(CancelStepView::GetJobGroup(msg), replies, (at - 1) as nat);
        cancel_turn_stays_on_track(steps[at - 1]@, msg, world);
        assert(cancel_follows_at(steps, at - 1, world));
        follows_turns(steps[at - 1], steps[at], msg, world);
    }
}

/// A job is looked up only if it is that of a project of the group that is in progress.
pub proof fn only_jobs_in_progress_are_looked_up(
    msg: JobGroupCancel,
    world: CancelWorld,
    steps: Seq<CancelStep>,
    at: int,
    waiting: CancelGetJob,
    query: JobGet,
    group: JobGroup,
)
    requires
        cancel_served(msg, world, steps),
        group_found(msg, world, group),
        0 <= at < steps.len(),
        steps[at] == CancelStep::GetJob(waiting),
        call_ensures(CancelGetJob::query, (&waiting,), query),
    ensures
        exists|i: int|
            {
                &&& 0 <= i < projects(group.projects).len()
                &&& (#[trigger] projects(group.projects)[i]).state is InProgress
                &&& projects(group.projects)[i].job_id == query.id
            },
{
    let replies = replies_of(msg, world);
    steps_run(msg, world, steps, at);
    let of = jobs_in_progress_are_of_projects_in_progress(projects(group.projects));
    let here = at_hand(waiting@, replies);
    assert(waiting@.pending[0] == swept_jobs(replies)[here]);
    let i = of[here];
    assert(projects(group.projects)[i].job_id == query.id);
}

/// A job is stored only right after it was found, with its state set to cancel and all else as it
/// was found.
pub proof fn jobs_are_stored_as_found_but_for_their_state(
    msg: JobGroupCancel,
    world: CancelWorld,
    steps: Seq<CancelStep>,
    at: int,
    job: Job,
) -> (job_id: u64)
    requires
        cancel_served(msg, world, steps),
        0 <= at < steps.len(),
        stores(steps[at], job),
    ensures
        at > 0,
        looks_up(steps[at - 1], job_id),
        (world.job)(job_id) matches Ok(Some(found)) && {
            &&& job.state is CancelPending
            &&& job.id == found.id
            &&& job.is_archived == found.is_archived
            &&& job.details@ == found.details@
        },
{
    let replies = replies_of(msg, world);
    steps_run(msg, world, steps, at);
    steps_run(msg, world, steps, at - 1);
    assert(cancel_follows_at(steps, at - 1, world));
    follows_turns(steps[at - 1], steps[at], msg, world);
    match steps[at - 1] {
        CancelStep::GetJob(waiting) => {
            let query = choose|query: JobGet|
                {
                    &&& #[trigger] call_ensures(CancelGetJob::query, (&waiting,), query)
                    &&& call_ensures(
                        CancelGetJob::resume,
                        (waiting, (world.job)(query.id)),
                        steps[at],
                    )
                };
            query.id
        },
        CancelStep::UpdateJob(waiting) => {
            assert(false);
            0
        },
        _ => {
            assert(false);
            0
        },
    }
}

/// Every job that is looked up and found is stored right after, unless the cancellation ends
/// there for now; one that is not found is passed over.
pub proof fn found_jobs_are_stored(
    msg: JobGroupCancel,
    world: CancelWorld,
    steps: Seq<CancelStep>,
    at: int,
    waiting: CancelGetJob,
    query: JobGet,
)
    requires
        cancel_served(msg, world, steps),
        0 <= at < steps.len() - 1,
        steps[at] == CancelStep::GetJob(waiting),
        call_ensures(CancelGetJob::query, (&waiting,), query),
    ensures
        (world.job)(query.id) matches Ok(Some(_)) <==> steps[at + 1] is UpdateJob,
        (world.job)(query.id) matches Err(err) ==> steps[at + 1] == CancelStep::Done(Err(err)),
{
    steps_run(msg, world, steps, at);
    assert(cancel_follows_at(steps, at, world));
    follows_turns(steps[at], steps[at + 1], msg, world);
    let replies = replies_of(msg, world);
    let here = at_hand(waiting@, replies);
    assert(waiting@.pending[0] == swept_jobs(replies)[here]);
    assert(replies.jobs[here] == (world.job)(swept_jobs(replies)[here]));
}

/// A cancellation that has come past the jobs has looked up each of the first `upto`.
proof fn passed_jobs_were_looked_up(
    msg: JobGroupCancel,
    world: CancelWorld,
    steps: Seq<CancelStep>,
    at: int,
    k: int,
) -> (earlier: int)
    requires
        cancel_served(msg, world, steps),
        0 <= at < steps.len(),
        0 <= k < swept_jobs(replies_of(msg, world)).len(),
        match steps[at]@ {
            CancelStepView::GetJob(sweep) => k < at_hand(sweep, replies_of(msg, world)),
            CancelStepView::UpdateJob(sweep, _) => k < at_hand(sweep, replies_of(msg, world)),
            CancelStepView::CreateAuditEntry(_, _) => true,
            CancelStepView::NotifyWork => true,
            _ => false,
        },
    ensures
        0 <= earlier < at,
        looks_up(steps[earlier], swept_jobs(replies_of(msg, world))[k]),
    decreases at,
{
    let replies = replies_of(msg, world);
    steps_run(msg, world, steps, at);
    if at == 0 {
        assert(false);
    }
    steps_run(msg, world, steps, at - 1);
    assert(cancel_follows_at(steps, at - 1, world));
    follows_turns(steps[at - 1], steps[at], msg, world);
    match steps[at - 1] {
        CancelStep::GetJob(waiting) => {
            let sweep = waiting@;
            let here = at_hand(sweep, replies);
            assert(sweep.rest() =~= sweep_from(msg, replies, here + 1));
            assert(at_hand(sweep_from(msg, replies, here + 1), replies) == here + 1);
            if here == k {
                let query = choose|query: JobGet|
                    {
                        &&& #[trigger] call_ensures(CancelGetJob::query, (&waiting,), query)
                        &&& call_ensures(
                            CancelGetJob::resume,
                            (waiting, (world.job)(query.id)),
                            steps[at],
                        )
                    };
                assert(sweep.pending[0] == swept_jobs(replies)[here]);
                assert(looks_up(steps[at - 1], swept_jobs(replies)[k]));
                at - 1
            } else {
                passed_jobs_were_looked_up(msg, world, steps, at - 1, k)
            }
        },
        CancelStep::UpdateJob(waiting) => {
            let sweep = waiting@.0;
            let here = at_hand(sweep, replies);
            assert(sweep.rest() =~= sweep_from(msg, replies, here + 1));
            assert(at_hand(sweep_from(msg, replies, here + 1), replies) == here + 1);
            if here == k {
                update_follows_lookup(msg, world, steps, at - 1)
            } else {
                passed_jobs_were_looked_up(msg, world, steps, at - 1, k)
            }
        },
        CancelStep::CancelJobGroup(_) => {
            let first = sweep_from(msg, replies, 0);
            assert(at_hand(first, replies) == 0);
            assert(false);
            0
        },
        _ => passed_jobs_were_looked_up(msg, world, steps, at - 1, k),
    }
}

proof fn update_follows_lookup(
    msg: JobGroupCancel,
    world: CancelWorld,
    steps: Seq<CancelStep>,
    at: int,
) -> (earlier: int)
    requires
        cancel_served(msg, world, steps),
        0 <= at < steps.len(),
        steps[at]@ is UpdateJob,
    ensures
        earlier == at - 1,
        0 <= earlier,
        looks_up(
            steps[earlier],
            swept_jobs(replies_of(msg, world))[at_hand(
                steps[at]@->UpdateJob_0,
                replies_of(msg, world),
            )],
        ),
{
    let replies = replies_of(msg, world);
    steps_run(msg, world, steps, at);
    if at == 0 {
        assert(false);
    }
    steps_run(msg, world, steps, at - 1);
    assert(cancel_follows_at(steps, at - 1, world));
    follows_turns(steps[at - 1], steps[at], msg, world);
    match steps[at - 1] {
        CancelStep::GetJob(waiting) => {
            let sweep = waiting@;
            let here = at_hand(sweep, replies);
            let query = choose|query: JobGet|
                {
                    &&& #[trigger] call_ensures(CancelGetJob::query, (&waiting,), query)
                    &&& call_ensures(
                        CancelGetJob::resume,
                        (waiting, (world.job)(query.id)),
                        steps[at],
                    )
                };
            assert(sweep.pending[0] == swept_jobs(replies)[here]);
            assert(sweep.rest() =~= sweep_from(msg, replies, here + 1));
            assert(looks_up(steps[at - 1], swept_jobs(replies)[here]));
        },
        _ => {
            assert(false);
        },
    }
    at - 1
}

/// A cancellation that succeeds has looked up the job of every project that was in progress.
pub proof fn every_job_in_progress_is_looked_up(
    msg: JobGroupCancel,
    world: CancelWorld,
    steps: Seq<CancelStep>,
    group: JobGroup,
    i: int,
) -> (at: int)
    requires
        cancel_served(msg, world, steps),
        group_found(msg, world, group),
        steps.last() == CancelStep::Done(Ok(NetOk {  })),
        0 <= i < projects(group.projects).len(),
        projects(group.projects)[i].state is InProgress,
    ensures
        0 <= at < steps.len(),
        looks_up(steps[at], projects(group.projects)[i].job_id),
{
    let replies = replies_of(msg, world);
    let last = steps.len() - 1;
    steps_run(msg, world, steps, last);
    if last == 0 {
        assert(false);
    }
    steps_run(msg, world, steps, last - 1);
    assert(cancel_follows_at(steps, last - 1, world));
    follows_turns(steps[last - 1], steps[last], msg, world);
    assert(steps[last - 1]@ is NotifyWork);
    let of = jobs_in_progress_are_of_projects_in_progress(projects(group.projects));
    assert(of.contains(i));
    let k = choose|k: int| 0 <= k < of.len() && of[k] == i;
    assert(of[k] == i);
    passed_jobs_were_looked_up(msg, world, steps, last - 1, k)
}

/// Jobs are looked up in the order of their projects: of two that are looked up one after the
/// other, the first is of an earlier project.
pub proof fn jobs_are_looked_up_in_order(
    msg: JobGroupCancel,
    world: CancelWorld,
    steps: Seq<CancelStep>,
    group: JobGroup,
    earlier: (int, CancelGetJob, JobGet),
    later: (int, CancelGetJob, JobGet),
)
    requires
        cancel_served(msg, world, steps),
        group_found(msg, world, group),
        0 <= earlier.0 < later.0 < steps.len(),
        steps[earlier.0] == CancelStep::GetJob(earlier.1),
        steps[later.0] == CancelStep::GetJob(later.1),
        call_ensures(CancelGetJob::query, (&earlier.1,), earlier.2),
        call_ensures(CancelGetJob::query, (&later.1,), later.2),
    ensures
        exists|i: int, j: int|
            {
                &&& 0 <= i < j < projects(group.projects).len()
                &&& (#[trigger] projects(group.projects)[i]).state is InProgress
                &&& (#[trigger] projects(group.projects)[j]).state is InProgress
                &&& projects(group.projects)[i].job_id == earlier.2.id
                &&& projects(group.projects)[j].job_id == later.2.id
            },
{
    let replies = replies_of(msg, world);
    steps_run(msg, world, steps, earlier.0);
    steps_run(msg, world, steps, later.0);
    let of = jobs_in_progress_are_of_projects_in_progress(projects(group.projects));
    let k = at_hand(earlier.1@, replies);
    let l = at_hand(later.1@, replies);
    hands_ascend(msg, world, steps, earlier.0, later.0);
    assert(earlier.1@.pending[0] == swept_jobs(replies)[k]);
    assert(later.1@.pending[0] == swept_jobs(replies)[l]);
    assert(of[k] < of[l]);
    assert(projects(group.projects)[of[k]].job_id == earlier.2.id);
    assert(projects(group.projects)[of[l]].job_id == later.2.id);
}

spec fn hand(step: CancelStepView, replies: CancelReplies) -> int {
    match step {
        CancelStepView::GetJob(sweep) => 2 * at_hand(sweep, replies),
        CancelStepView::UpdateJob(sweep, _) => 2 * at_hand(sweep, replies) + 1,
        CancelStepView::GetJobGroup(_) => -2,
        CancelStepView::CancelJobGroup(_) => -1,
        CancelStepView::CreateAuditEntry(_, _) => 2 * swept_jobs(replies).len() as int,
        CancelStepView::NotifyWork => 2 * swept_jobs(replies).len() as int + 1,
        CancelStepView::Done(_) => 2 * swept_jobs(replies).len() as int + 2,
    }
}

proof fn hands_ascend(
    msg: JobGroupCancel,
    world: CancelWorld,
    steps: Seq<CancelStep>,
    earlier: int,
    later: int,
)
    requires
        cancel_served(msg, world, steps),
        0 <= earlier < later < steps.len(),
    ensures
        hand(steps[earlier]@, replies_of(msg, world)) < hand(
            steps[later]@,
            replies_of(msg, world),
        ),
    decreases later - earlier,
{
    let replies = replies_of(msg, world);
    steps_run(msg, world, steps, later - 1);
    steps_run(msg, world, steps, later);
    assert(cancel_follows_at(steps, later - 1, world));
    follows_turns(steps[later - 1], steps[later], msg, world);
    match steps[later - 1]@ {
        CancelStepView::GetJob(sweep) => {
            let here = at_hand(sweep, replies);
            assert(sweep.rest() =~= sweep_from(msg, replies, here + 1));
            assert(at_hand(sweep_from(msg, replies, here + 1), replies) == here + 1);
        },
        CancelStepView::UpdateJob(sweep, _) => {
            let here = at_hand(sweep, replies);
            assert(sweep.rest() =~= sweep_from(msg, replies, here + 1));
            assert(at_hand(sweep_from(msg, replies, here + 1), replies) == here + 1);
        },
        CancelStepView::CancelJobGroup(_) => {
            assert(at_hand(sweep_from(msg, replies, 0), replies) == 0);
        },
        _ => {},
    }
    if earlier < later - 1 {
        hands_ascend(msg, world, steps, earlier, later - 1);
    }
}

/// How far a cancellation is with a step. While jobs are dealt with it stays where it is.
pub open spec fn progress(step: CancelStep) -> int {
    match step {
        CancelStep::GetJobGroup(_) => 0,
        CancelStep::CancelJobGroup(_) => 1,
        CancelStep::GetJob(_) => 2,
        CancelStep::UpdateJob(_) => 2,
        CancelStep::CreateAuditEntry(_) => 3,
        CancelStep::NotifyWork(_) => 4,
        CancelStep::Done(_) => 5,
    }
}

/// The job group is looked up first, then cancelled, then its jobs are dealt with, then the audit
/// entry is stored and then the workers are notified; each of these once, but for the jobs.
pub proof fn cancellation_goes_in_order(
    msg: JobGroupCancel,
    world: CancelWorld,
    steps: Seq<CancelStep>,
    earlier: int,
    later: int,
)
    requires
        cancel_served(msg, world, steps),
        0 <= earlier < later < steps.len(),
    ensures
        steps[0] is GetJobGroup,
        progress(steps[earlier]) < progress(steps[later]) || (progress(steps[earlier]) == 2
            && progress(steps[later]) == 2),
{
    steps_run(msg, world, steps, earlier);
    steps_run(msg, world, steps, later);
    hands_ascend(msg, world, steps, earlier, later);
}

/// A cancellation that succeeds stored the audit entry and notified the workers right before it
/// was answered, and had the job group cancelled right after it was found.
pub proof fn successful_cancellation_went_all_the_way(
    msg: JobGroupCancel,
    world: CancelWorld,
    steps: Seq<CancelStep>,
)
    requires
        cancel_served(msg, world, steps),
        steps.last() == CancelStep::Done(Ok(NetOk {  })),
    ensures
        steps.len() >= 5,
        steps[1] is CancelJobGroup,
        steps[steps.len() - 3] is CreateAuditEntry,
        steps[steps.len() - 2] is NotifyWork,
{
    let last = steps.len() - 1;
    steps_run(msg, world, steps, 0);
    steps_run(msg, world, steps, last);
    if last == 0 {
        assert(false);
    }
    steps_run(msg, world, steps, last - 1);
    assert(cancel_follows_at(steps, last - 1, world));
    follows_turns(steps[last - 1], steps[last], msg, world);
    assert(steps[last - 1] is NotifyWork);
    steps_run(msg, world, steps, last - 2);
    assert(cancel_follows_at(steps, last - 2, world));
    follows_turns(steps[last - 2], steps[last - 1], msg, world);
    assert(steps[last - 2] is CreateAuditEntry);
    assert(cancel_follows_at(steps, 0, world));
    follows_turns(steps[0], steps[1], msg, world);
    assert(steps[1] is CancelJobGroup || steps[1] is Done);
    if steps[1] is Done {
        if 1 < last {
            assert(cancel_follows_at(steps, 1, world));
        }
    }
}

/// The audit entry records the cancellation of the group that was found, and who asked for it.
pub proof fn cancellation_is_recorded(
    msg: JobGroupCancel,
    world: CancelWorld,
    steps: Seq<CancelStep>,
    at: int,
    waiting: CancelAuditEntry,
    entry: JobGroupAudit,
    group: JobGroup,
)
    requires
        cancel_served(msg, world, steps),
        group_found(msg, world, group),
        0 <= at < steps.len(),
        steps[at] == CancelStep::CreateAuditEntry(waiting),
        call_ensures(CancelAuditEntry::entry, (&waiting,), entry),
    ensures
        entry.group_id == group.id,
        entry.operation is JobGroupOpCancel,
        entry.trigger == msg.trigger,
        entry.requester_id == msg.requester_id,
        entry.requester_name@ == msg.requester_name@,
{
    steps_run(msg, world, steps, at);
}

proof fn answer_is_due(
    msg: JobGroupCancel,
    world: CancelWorld,
    steps: Seq<CancelStep>,
    reply: Result<NetOk, Error>,
)
    requires
        cancel_served(msg, world, steps),
        steps.last() == CancelStep::Done(reply),
    ensures
        reply == cancel_answer(replies_of(msg, world)),
{
    let start = CancelStepView::GetJobGroup(msg);
    let replies = replies_of(msg, world);
    let last = (steps.len() - 1) as nat;
    let full = cancel_turns(replies);
    steps_run(msg, world, steps, last as int);
    cancellation_is_answered(msg, replies);
    cancel_run_joins(start, replies, last, full);
    cancel_run_joins(start, replies, full, last);
    cancel_run_rests(reply, replies, full);
    cancel_run_rests(cancel_answer(replies), replies, last);
}

/// A job group that is not found, that cannot be looked up, or that cannot be cancelled is
/// answered so, and none of its jobs is dealt with.
pub proof fn group_that_is_not_cancelled_is_answered(
    msg: JobGroupCancel,
    world: CancelWorld,
    steps: Seq<CancelStep>,
    reply: Result<NetOk, Error>,
)
    requires
        cancel_served(msg, world, steps),
        steps.last() == CancelStep::Done(reply),
    ensures
        match (world.group)(msg.group_id, true) {
            Err(_) => reply == Err::<NetOk, Error>(Error::System) && steps.len() == 2,
            Ok(None) => reply == Err::<NetOk, Error>(Error::NotFound) && steps.len() == 2,
            Ok(Some(group)) => match (world.cancel)(group.id) {
                Err(err) => reply == Err::<NetOk, Error>(err) && steps.len() == 3,
                Ok(_) => true,
            },
        },
{
    answer_is_due(msg, world, steps, reply);
    steps_run(msg, world, steps, 0);
    assert(cancel_follows_at(steps, 0, world));
    follows_turns(steps[0], steps[1], msg, world);
    if steps.len() > 2 {
        steps_run(msg, world, steps, 1);
        assert(cancel_follows_at(steps, 1, world));
        follows_turns(steps[1], steps[2], msg, world);
        if steps.len() > 3 {
            assert(cancel_follows_at(steps, 2, world));
        }
    }
}

spec fn failure_from(world: CancelWorld, jobs: Seq<u64>, from: int) -> Option<Error>
    decreases jobs.len() - from,
{
    if from >= jobs.len() {
        None
    } else if failure_of(world, jobs[from]) is Some {
        failure_of(world, jobs[from])
    } else {
        failure_from(world, jobs, from + 1)
    }
}

proof fn sweep_error_is_failure(msg: JobGroupCancel, world: CancelWorld, from: int)
    requires
        0 <= from,
    ensures
        sweep_error(replies_of(msg, world), from) == failure_from(
            world,
            swept_jobs(replies_of(msg, world)),
            from,
        ),
    decreases swept_jobs(replies_of(msg, world)).len() - from,
{
    let replies = replies_of(msg, world);
    let jobs = swept_jobs(replies);
    if from < jobs.len() {
        sweep_error_is_failure(msg, world, from + 1);
        assert(replies.jobs[from] == (world.job)(jobs[from]));
        if let Ok(Some(job)) = (world.job)(jobs[from]) {
            assert(cancel_pending(job) == set_to_cancel(job));
        }
    }
}

proof fn first_failure_of(world: CancelWorld, jobs: Seq<u64>, from: int) -> (at: int)
    requires
        0 <= from <= jobs.len(),
    ensures
        from <= at <= jobs.len(),
        forall|k: int| from <= k < at ==> failure_of(world, #[trigger] jobs[k]) is None,
        at < jobs.len() ==> failure_of(world, jobs[at]) is Some && failure_from(world, jobs, from)
            == failure_of(world, jobs[at]),
        at == jobs.len() ==> failure_from(world, jobs, from) is None,
    decreases jobs.len() - from,
{
    if from < jobs.len() && failure_of(world, jobs[from]) is None {
        first_failure_of(world, jobs, from + 1)
    } else {
        from
    }
}

/// A job group that is cancelled is answered with success if and only if no job of a project in
/// progress fails, in its lookup or its update, and the workers are notified; else with the error
/// of the first such job in the order of the projects or, if none fails, of the notification. The
/// audit entry has no bearing on the answer.
pub proof fn cancellation_request_is_answered(
    msg: JobGroupCancel,
    world: CancelWorld,
    steps: Seq<CancelStep>,
    group: JobGroup,
    reply: Result<NetOk, Error>,
)
    requires
        cancel_served(msg, world, steps),
        steps.last() == CancelStep::Done(reply),
        group_found(msg, world, group),
        (world.cancel)(group.id) is Ok,
    ensures
        reply is Ok <==> world.notified is Ok && forall|i: int|
            0 <= i < projects(group.projects).len() && (#[trigger] projects(group.projects)[i]).state is InProgress
                ==> failure_of(world, projects(group.projects)[i].job_id) is None,
        forall|i: int|
            {
                &&& 0 <= i < projects(group.projects).len()
                &&& (#[trigger] projects(group.projects)[i]).state is InProgress
                &&& failure_of(world, projects(group.projects)[i].job_id) is Some
                &&& forall|j: int|
                    0 <= j < i && (#[trigger] projects(group.projects)[j]).state is InProgress
                        ==> failure_of(world, projects(group.projects)[j].job_id) is None
            } ==> reply == Err::<NetOk, Error>(
                failure_of(world, projects(group.projects)[i].job_id)->0,
            ),
        (forall|i: int|
            0 <= i < projects(group.projects).len() && (#[trigger] projects(group.projects)[i]).state is InProgress
                ==> failure_of(world, projects(group.projects)[i].job_id) is None) ==> (
        world.notified matches Err(err) ==> reply == Err::<NetOk, Error>(err)),
{
    let replies = replies_of(msg, world);
    let all = projects(group.projects);
    let jobs = swept_jobs(replies);
    answer_is_due(msg, world, steps, reply);
    sweep_error_is_failure(msg, world, 0);
    let of = jobs_in_progress_are_of_projects_in_progress(all);
    let at = first_failure_of(world, jobs, 0);
    if at == jobs.len() {
        assert forall|i: int|
            0 <= i < all.len() && (#[trigger] all[i]).state is InProgress implies failure_of(
            world,
            all[i].job_id,
        ) is None by {
            assert(of.contains(i));
            let k = choose|k: int| 0 <= k < of.len() && of[k] == i;
            assert(of[k] == i);
            assert(failure_of(world, jobs[k]) is None);
        }
    } else {
        assert(0 <= of[at] < all.len());
        assert(all[of[at]].state is InProgress);
        assert(failure_of(world, all[of[at]].job_id) is Some);
        assert forall|i: int|
            {
                &&& 0 <= i < all.len()
                &&& (#[trigger] all[i]).state is InProgress
                &&& failure_of(world, all[i].job_id) is Some
                &&& forall|j: int|
                    0 <= j < i && (#[trigger] all[j]).state is InProgress ==> failure_of(
                        world,
                        all[j].job_id,
                    ) is None
            } implies i == of[at] by {
            assert(of.contains(i));
            let k = choose|k: int| 0 <= k < of.len() && of[k] == i;
            assert(of[k] == i);
            if k < at {
                assert(failure_of(world, jobs[k]) is None);
            }
            if at < k {
                assert(of[at] < of[k]);
                assert(all[of[at]].state is InProgress);
            }
        }
    }
}

} // verus!
