//! What holds of the cancellation of a job group from the request to the answer, whatever the
//! datastore and the workers reply.

use vstd::prelude::*;

use crate::cancel::{
    after_group, after_notify, cancel_pending, cancellation_entry, jobs_in_progress, CancelStepView,
    SweepView,
};
use crate::error::Error;
use crate::messages::{
    Job, JobGet, JobGroup, JobGroupAudit, JobGroupCancel, JobGroupGet, NetOk,
};
use crate::repeated::projects;

verus! {

/// The replies that one request meets with, each to be had only if it is asked for. `jobs` and
/// `updates` hold those on the jobs in progress, one for each.
pub struct CancelReplies {
    pub group: Result<Option<JobGroup>, Error>,
    pub cancelled: Result<(), Error>,
    pub jobs: Seq<Result<Option<Job>, Error>>,
    pub updates: Seq<Result<(), Error>>,
    pub notified: Result<(), Error>,
}

/// What a cancellation asks of the outside.
pub enum CancelCall {
    GetJobGroup(JobGroupGet),
    CancelJobGroup(u64),
    GetJob(JobGet),
    UpdateJob(Job),
    CreateAuditEntry(JobGroupAudit),
    NotifyWork,
}

/// The jobs that are in progress when the job group is looked up.
pub open spec fn swept_jobs(replies: CancelReplies) -> Seq<u64> {
    jobs_in_progress(projects(replies.group->Ok_0->0.projects))
}

/// Which of the jobs in progress is at hand.
pub open spec fn at_hand(sweep: SweepView, replies: CancelReplies) -> int {
    swept_jobs(replies).len() - sweep.pending.len()
}

/// One turn: the step is resumed with the reply to what it asks for.
pub open spec fn cancel_turn(step: CancelStepView, replies: CancelReplies) -> CancelStepView {
    match step {
        CancelStepView::GetJobGroup(msg) => after_group(msg, replies.group),
        CancelStepView::CancelJobGroup(sweep) => sweep.after_cancel(replies.cancelled),
        CancelStepView::GetJob(sweep) => sweep.after_job(replies.jobs[at_hand(sweep, replies)]),
        CancelStepView::UpdateJob(sweep, _) => sweep.after_update(
            replies.updates[at_hand(sweep, replies)],
        ),
        CancelStepView::CreateAuditEntry(_, _) => CancelStepView::NotifyWork,
        CancelStepView::NotifyWork => after_notify(replies.notified),
        CancelStepView::Done(_) => step,
    }
}

/// A number of turns.
pub open spec fn cancel_run(step: CancelStepView, replies: CancelReplies, turns: nat) -> CancelStepView
    decreases turns,
{
    if turns == 0 {
        step
    } else {
        cancel_run(cancel_turn(step, replies), replies, (turns - 1) as nat)
    }
}

/// What a step asks of the outside: one thing, and nothing once the request is answered.
pub open spec fn asked(step: CancelStepView) -> Seq<CancelCall> {
    match step {
        CancelStepView::GetJobGroup(msg) => seq![
            CancelCall::GetJobGroup(
                JobGroupGet { group_id: msg.group_id, include_projects: true },
            ),
        ],
        CancelStepView::CancelJobGroup(sweep) => seq![CancelCall::CancelJobGroup(sweep.group_id)],
        CancelStepView::GetJob(sweep) => seq![CancelCall::GetJob(JobGet { id: sweep.pending[0] })],
        CancelStepView::UpdateJob(_, job) => seq![CancelCall::UpdateJob(job)],
        CancelStepView::CreateAuditEntry(msg, group_id) => seq![
            CancelCall::CreateAuditEntry(cancellation_entry(group_id, msg)),
        ],
        CancelStepView::NotifyWork => seq![CancelCall::NotifyWork],
        CancelStepView::Done(_) => Seq::empty(),
    }
}

/// What is asked of the outside over a number of turns, in order.
pub open spec fn cancel_calls(step: CancelStepView, replies: CancelReplies, turns: nat) -> Seq<CancelCall>
    decreases turns,
{
    if turns == 0 {
        Seq::empty()
    } else {
        asked(step) + cancel_calls(cancel_turn(step, replies), replies, (turns - 1) as nat)
    }
}

/// The error that the jobs from the one at `from` on meet with first, if any.
pub open spec fn sweep_error(replies: CancelReplies, from: int) -> Option<Error>
    decreases swept_jobs(replies).len() - from,
{
    if from >= swept_jobs(replies).len() {
        None
    } else {
        match (replies.jobs[from], replies.updates[from]) {
            (Err(err), _) => Some(err),
            (Ok(Some(_)), Err(err)) => Some(err),
            _ => sweep_error(replies, from + 1),
        }
    }
}

/// What a request is answered.
pub open spec fn cancel_answer(replies: CancelReplies) -> Result<NetOk, Error> {
    match replies.group {
        Err(_) => Err(Error::System),
        Ok(None) => Err(Error::NotFound),
        Ok(Some(_)) => match (replies.cancelled, sweep_error(replies, 0), replies.notified) {
            (Err(err), _, _) => Err(err),
            (_, Some(err), _) => Err(err),
            (_, _, Err(err)) => Err(err),
            _ => Ok(NetOk {  }),
        },
    }
}

/// What is asked about the jobs from the one at `from` on: each is looked up and, if it exists,
/// stored again with its state set. After the first failure nothing more is asked.
pub open spec fn sweep_calls(replies: CancelReplies, from: int) -> Seq<CancelCall>
    decreases swept_jobs(replies).len() - from,
{
    let jobs = swept_jobs(replies);
    if from >= jobs.len() {
        Seq::empty()
    } else {
        let get = CancelCall::GetJob(JobGet { id: jobs[from] });
        match (replies.jobs[from], replies.updates[from]) {
            (Err(_), _) => seq![get],
            (Ok(None), _) => seq![get] + sweep_calls(replies, from + 1),
            (Ok(Some(job)), Err(_)) => seq![get, CancelCall::UpdateJob(cancel_pending(job))],
            (Ok(Some(job)), Ok(_)) => seq![get, CancelCall::UpdateJob(cancel_pending(job))]
                + sweep_calls(replies, from + 1),
        }
    }
}

/// What is asked once all jobs are dealt with.
pub open spec fn closing_calls(msg: JobGroupCancel, group_id: u64) -> Seq<CancelCall> {
    seq![
        CancelCall::CreateAuditEntry(cancellation_entry(group_id, msg)),
        CancelCall::NotifyWork,
    ]
}

/// What is asked from the job at `from` on: about the jobs and, if none of them met with an
/// error, for the audit entry and that the workers be notified.
pub open spec fn calls_from(msg: JobGroupCancel, replies: CancelReplies, from: int) -> Seq<CancelCall> {
    match sweep_error(replies, from) {
        Some(_) => sweep_calls(replies, from),
        None => sweep_calls(replies, from) + closing_calls(msg, replies.group->Ok_0->0.id),
    }
}

/// What a request asks of the outside by the time it is answered.
pub open spec fn due_calls(msg: JobGroupCancel, replies: CancelReplies) -> Seq<CancelCall> {
    let get = CancelCall::GetJobGroup(
        JobGroupGet { group_id: msg.group_id, include_projects: true },
    );
    match (replies.group, replies.cancelled) {
        (Ok(Some(group)), Ok(_)) => seq![get, CancelCall::CancelJobGroup(group.id)] + calls_from(
            msg,
            replies,
            0,
        ),
        (Ok(Some(group)), Err(_)) => seq![get, CancelCall::CancelJobGroup(group.id)],
        _ => seq![get],
    }
}

/// The turns that a cancellation takes at most.
pub open spec fn cancel_turns(replies: CancelReplies) -> nat {
    (4 + 2 * swept_jobs(replies).len()) as nat
}

proof fn cancel_run_done(answer: Result<NetOk, Error>, replies: CancelReplies, turns: nat)
    ensures
        cancel_run(CancelStepView::Done(answer), replies, turns) == CancelStepView::Done(answer),
        cancel_calls(CancelStepView::Done(answer), replies, turns) == Seq::<CancelCall>::empty(),
    decreases turns,
{
    if turns > 0 {
        cancel_run_done(answer, replies, (turns - 1) as nat);
        assert(cancel_calls(CancelStepView::Done(answer), replies, turns) =~= Seq::empty());
    }
}

/// The sweep over the jobs of a group, with those before `from` dealt with.
pub open spec fn sweep_from(msg: JobGroupCancel, replies: CancelReplies, from: int) -> SweepView {
    SweepView {
        msg,
        group_id: replies.group->Ok_0->0.id,
        pending: swept_jobs(replies).skip(from),
    }
}

proof fn cancel_run_sweeps(msg: JobGroupCancel, replies: CancelReplies, from: int, turns: nat)
    requires
        0 <= from <= swept_jobs(replies).len(),
        turns >= 2 + 2 * (swept_jobs(replies).len() - from),
    ensures
        ({
            let step = sweep_from(msg, replies, from).next();
            &&& cancel_run(step, replies, turns) == match sweep_error(replies, from) {
                Some(err) => CancelStepView::Done(Err(err)),
                None => after_notify(replies.notified),
            }
            &&& cancel_calls(step, replies, turns) == calls_from(msg, replies, from)
        }),
    decreases swept_jobs(replies).len() - from,
{
    let jobs = swept_jobs(replies);
    let sweep = sweep_from(msg, replies, from);
    let group_id = replies.group->Ok_0->0.id;
    let step = sweep.next();
    reveal_with_fuel(cancel_run, 3);
    reveal_with_fuel(cancel_calls, 3);
    if from == jobs.len() {
        assert(step == CancelStepView::CreateAuditEntry(msg, group_id));
        let answer = after_notify(replies.notified)->Done_0;
        cancel_run_done(answer, replies, (turns - 2) as nat);
    } else {
        assert(step == CancelStepView::GetJob(sweep));
        assert(at_hand(sweep, replies) == from);
        assert(sweep.rest() =~= sweep_from(msg, replies, from + 1));
        let next = sweep_from(msg, replies, from + 1).next();
        match replies.jobs[from] {
            Err(err) => {
                cancel_run_done(Err(err), replies, (turns - 1) as nat);
            },
            Ok(None) => {
                cancel_run_sweeps(msg, replies, from + 1, (turns - 1) as nat);
                assert(cancel_calls(step, replies, turns) =~= asked(step) + cancel_calls(
                    next,
                    replies,
                    (turns - 1) as nat,
                ));
            },
            Ok(Some(job)) => {
                let update = CancelStepView::UpdateJob(sweep, cancel_pending(job));
                match replies.updates[from] {
                    Err(err) => {
                        cancel_run_done(Err(err), replies, (turns - 2) as nat);
                    },
                    Ok(_) => {
                        cancel_run_sweeps(msg, replies, from + 1, (turns - 2) as nat);
                        assert(cancel_calls(step, replies, turns) =~= asked(step) + asked(update)
                            + cancel_calls(next, replies, (turns - 2) as nat));
                    },
                }
            },
        }
    }
    assert(cancel_calls(step, replies, turns) =~= calls_from(msg, replies, from));
}

proof fn cancel_run_starts(msg: JobGroupCancel, replies: CancelReplies, turns: nat)
    requires
        turns >= 2,
        replies.group is Ok,
        replies.group->Ok_0 is Some,
        replies.cancelled is Ok,
    ensures
        ({
            let start = CancelStepView::GetJobGroup(msg);
            let next = sweep_from(msg, replies, 0).next();
            &&& cancel_run(start, replies, turns) == cancel_run(next, replies, (turns - 2) as nat)
            &&& cancel_calls(start, replies, turns) == seq![
                CancelCall::GetJobGroup(
                    JobGroupGet { group_id: msg.group_id, include_projects: true },
                ),
                CancelCall::CancelJobGroup(replies.group->Ok_0->0.id),
            ] + cancel_calls(next, replies, (turns - 2) as nat)
        }),
{
    reveal_with_fuel(cancel_run, 3);
    reveal_with_fuel(cancel_calls, 3);
    let start = CancelStepView::GetJobGroup(msg);
    let sweep = sweep_from(msg, replies, 0);
    assert(swept_jobs(replies).skip(0) =~= swept_jobs(replies));
    assert(cancel_turn(start, replies) == CancelStepView::CancelJobGroup(sweep));
    let next = sweep.next();
    assert(cancel_calls(start, replies, turns) =~= asked(start) + asked(
        CancelStepView::CancelJobGroup(sweep),
    ) + cancel_calls(next, replies, (turns - 2) as nat));
}

proof fn cancellation_runs(msg: JobGroupCancel, replies: CancelReplies)
    ensures
        ({
            let start = CancelStepView::GetJobGroup(msg);
            let turns = cancel_turns(replies);
            &&& cancel_run(start, replies, turns) == CancelStepView::Done(cancel_answer(replies))
            &&& cancel_calls(start, replies, turns) == due_calls(msg, replies)
        }),
{
    let start = CancelStepView::GetJobGroup(msg);
    let turns = cancel_turns(replies);
    reveal_with_fuel(cancel_run, 3);
    reveal_with_fuel(cancel_calls, 3);
    match (replies.group, replies.cancelled) {
        (Ok(Some(_)), Ok(_)) => {
            cancel_run_starts(msg, replies, turns);
            cancel_run_sweeps(msg, replies, 0, (turns - 2) as nat);
        },
        (Ok(Some(_)), Err(err)) => {
            cancel_run_done(Err(err), replies, (turns - 2) as nat);
        },
        (Ok(None), _) => {
            cancel_run_done(Err(Error::NotFound), replies, (turns - 1) as nat);
        },
        (Err(_), _) => {
            cancel_run_done(Err(Error::System), replies, (turns - 1) as nat);
        },
    }
    assert(cancel_calls(start, replies, turns) =~= due_calls(msg, replies));
}

/// Every request is answered, within four turns and two for each job in progress; and the answer
/// is what the replies call for. The first failure ends the cancellation, but for that of the
/// audit entry, which has no bearing on it.
pub proof fn cancellation_is_answered(msg: JobGroupCancel, replies: CancelReplies)
    ensures
        cancel_run(CancelStepView::GetJobGroup(msg), replies, cancel_turns(replies))
            == CancelStepView::Done(cancel_answer(replies)),
{
    cancellation_runs(msg, replies);
}

/// By the time it is answered, every request has asked for just what is due, in order. After a
/// job group that is not found, a cancellation that fails, or a job that cannot be looked up or
/// updated, nothing more is asked; the workers are notified last, after the audit entry.
pub proof fn cancellation_asks_for_what_is_due(msg: JobGroupCancel, replies: CancelReplies)
    ensures
        cancel_calls(CancelStepView::GetJobGroup(msg), replies, cancel_turns(replies)) == due_calls(
            msg,
            replies,
        ),
{
    cancellation_runs(msg, replies);
}

/// A cancellation that succeeds has asked for just this, in this order: the job group with its
/// projects, that it be cancelled, each job in progress and that it be cancelled, one audit
/// entry, and that the workers be notified.
pub proof fn successful_cancellation_asks_for(msg: JobGroupCancel, replies: CancelReplies)
    requires
        cancel_answer(replies) is Ok,
    ensures
        ({
            let group_id = replies.group->Ok_0->0.id;
            cancel_calls(CancelStepView::GetJobGroup(msg), replies, cancel_turns(replies)) == seq![
                CancelCall::GetJobGroup(
                    JobGroupGet { group_id: msg.group_id, include_projects: true },
                ),
                CancelCall::CancelJobGroup(group_id),
            ] + (sweep_calls(replies, 0) + closing_calls(msg, group_id))
        }),
{
    cancellation_runs(msg, replies);
}

spec fn sweeps(sweep: SweepView, msg: JobGroupCancel, replies: CancelReplies) -> bool {
    &&& replies.group is Ok
    &&& replies.group->Ok_0 is Some
    &&& 0 <= at_hand(sweep, replies) <= swept_jobs(replies).len()
    &&& sweep == sweep_from(msg, replies, at_hand(sweep, replies))
}

spec fn on_course(step: CancelStepView, msg: JobGroupCancel, replies: CancelReplies) -> bool {
    match step {
        CancelStepView::GetJobGroup(m) => m == msg,
        CancelStepView::CancelJobGroup(sweep) => sweeps(sweep, msg, replies),
        CancelStepView::GetJob(sweep) => {
            &&& sweeps(sweep, msg, replies)
            &&& replies.cancelled is Ok
            &&& sweep.pending.len() > 0
        },
        CancelStepView::UpdateJob(sweep, job) => {
            &&& sweeps(sweep, msg, replies)
            &&& replies.cancelled is Ok
            &&& sweep.pending.len() > 0
            &&& replies.jobs[at_hand(sweep, replies)] matches Ok(Some(found))
            &&& job == cancel_pending(found)
        },
        _ => true,
    }
}

proof fn next_stays_on_course(sweep: SweepView, msg: JobGroupCancel, replies: CancelReplies)
    requires
        sweeps(sweep, msg, replies),
        sweep.pending.len() > 0,
        replies.cancelled is Ok,
    ensures
        on_course(sweep.rest().next(), msg, replies),
{
    assert(sweep.rest() =~= sweep_from(msg, replies, at_hand(sweep, replies) + 1));
}

proof fn cancel_run_stays_on_course(
    step: CancelStepView,
    msg: JobGroupCancel,
    replies: CancelReplies,
    turns: nat,
)
    requires
        on_course(step, msg, replies),
    ensures
        on_course(cancel_run(step, replies, turns), msg, replies),
    decreases turns,
{
    if turns > 0 {
        match step {
            CancelStepView::GetJobGroup(_) => {
                if replies.group is Ok && replies.group->Ok_0 is Some {
                    assert(swept_jobs(replies).skip(0) =~= swept_jobs(replies));
                }
            },
            CancelStepView::GetJob(sweep) => {
                next_stays_on_course(sweep, msg, replies);
            },
            CancelStepView::UpdateJob(sweep, _) => {
                next_stays_on_course(sweep, msg, replies);
            },
            _ => {},
        }
        cancel_run_stays_on_course(cancel_turn(step, replies), msg, replies, (turns - 1) as nat);
    }
}

/// At no point is a job touched but one that was in progress in a job group that has been
/// cancelled; and all that is changed of it is its state, which is set to cancel.
pub proof fn only_jobs_in_progress_are_cancelled(
    msg: JobGroupCancel,
    replies: CancelReplies,
    turns: nat,
    job: Job,
)
    requires
        asked(cancel_run(CancelStepView::GetJobGroup(msg), replies, turns)).contains(
            CancelCall::UpdateJob(job),
        ),
    ensures
        replies.cancelled is Ok,
        exists|i: int|
            0 <= i < swept_jobs(replies).len() && ((#[trigger] replies.jobs[i]) matches Ok(Some(found))
                && job == cancel_pending(found)),
{
    let start = CancelStepView::GetJobGroup(msg);
    let step = cancel_run(start, replies, turns);
    cancel_run_stays_on_course(start, msg, replies, turns);
    let k = choose|k: int| 0 <= k < asked(step).len() && asked(step)[k] == CancelCall::UpdateJob(job);
    assert(asked(step)[k] == CancelCall::UpdateJob(job));
    match step {
        CancelStepView::UpdateJob(sweep, _) => {
            let i = at_hand(sweep, replies);
            assert(replies.jobs[i] matches Ok(Some(found)) && job == cancel_pending(found));
        },
        _ => {},
    }
}

} // verus!
