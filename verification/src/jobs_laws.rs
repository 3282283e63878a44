//! What holds of requests for jobs, their logs and job groups, stated on the calls that answer
//! them and on what comes out.

use vstd::prelude::*;

use crate::error::Error;
use crate::groups::{job_group_get, job_group_origin_get};
use crate::jobs::{get_log_content, job_get, job_log_get, LogArchive, LogFile, LogJob, LogStep};
use crate::messages::{Job, JobGet, JobGroup, JobGroupOriginResponse, JobLog, JobLogGet};
use crate::repeated::texts;

verus! {

/// A job that is found is answered as it is; one that is not, or that could not be looked up, is
/// not answered.
pub proof fn job_request_is_answered(found: Result<Option<Job>, Error>, reply: Result<Job, Error>)
    requires
        call_ensures(job_get, (found,), reply),
    ensures
        found matches Ok(Some(job)) ==> reply == Ok::<Job, Error>(job),
        found matches Ok(None) ==> reply == Err::<Job, Error>(Error::NotFound),
        found is Err ==> reply == Err::<Job, Error>(Error::System),
{
}

/// A job group that is found is answered as it is; whatever else the datastore says, there is no
/// such group.
pub proof fn job_group_request_is_answered(
    found: Result<Option<JobGroup>, Error>,
    reply: Result<JobGroup, Error>,
)
    requires
        call_ensures(job_group_get, (found,), reply),
    ensures
        found matches Ok(Some(group)) ==> reply == Ok::<JobGroup, Error>(group),
        found matches Ok(None) ==> reply == Err::<JobGroup, Error>(Error::NotFound),
        found is Err ==> reply == Err::<JobGroup, Error>(Error::NotFound),
{
}

/// The job groups of an origin are answered as they are found, and not at all if the datastore
/// fails.
pub proof fn origin_request_is_answered(
    found: Result<JobGroupOriginResponse, Error>,
    reply: Result<JobGroupOriginResponse, Error>,
)
    requires
        call_ensures(job_group_origin_get, (found,), reply),
    ensures
        found matches Ok(groups) ==> reply == Ok::<JobGroupOriginResponse, Error>(groups),
        found is Err ==> reply == Err::<JobGroupOriginResponse, Error>(Error::System),
{
}

/// The content of a log file past an offset: as many lines as there are past it, each of them the
/// line that stands there.
pub proof fn content_is_what_stands_past_the_offset(
    file: Option<Vec<Option<String>>>,
    offset: u64,
    content: Option<Vec<String>>,
)
    requires
        call_ensures(get_log_content, (file, offset), content),
    ensures
        file is None <==> content is None,
        file matches Some(lines) ==> {
            &&& content->0.len() == if offset < lines.len() {
                lines.len() - offset
            } else {
                0
            }
            &&& forall|i: int|
                0 <= i < content->0.len() ==> #[trigger] content->0[i]@ == lines[offset + i]->0@
        },
{
    if let Some(lines) = file {
        let texts = content->0.deep_view();
        assert(content->0.len() == texts.len());
        assert forall|i: int| 0 <= i < content->0.len() implies #[trigger] content->0[i]@
            == lines[offset + i]->0@ by {
            assert(texts[i] == content->0[i]@);
        }
    }
}

/// What the outside has to say to a request for a log: the job of an id, the archived log of a
/// job, and the log file of a job.
pub struct LogWorld {
    pub job: spec_fn(u64) -> Result<Option<Job>, Error>,
    pub archive: spec_fn(u64) -> Result<Vec<String>, Error>,
    pub file: spec_fn(u64) -> Option<Vec<Option<String>>>,
}

/// The step comes of the one before it, which was resumed with what the outside has to say to
/// what it asked.
pub open spec fn log_follows(step: LogStep, next: LogStep, world: LogWorld) -> bool {
    match step {
        LogStep::GetJob(waiting) => exists|query: JobGet|
            {
                &&& #[trigger] call_ensures(LogJob::query, (&waiting,), query)
                &&& call_ensures(LogJob::resume, (waiting, (world.job)(query.id)), next)
            },
        LogStep::RetrieveArchive(waiting) => exists|job_id: u64|
            {
                &&& #[trigger] call_ensures(LogArchive::job_id, (&waiting,), job_id)
                &&& call_ensures(LogArchive::resume, (waiting, (world.archive)(job_id)), next)
            },
        LogStep::ReadFile(waiting) => exists|job_id: u64|
            {
                &&& #[trigger] call_ensures(LogFile::job_id, (&waiting,), job_id)
                &&& call_ensures(LogFile::resume, (waiting, (world.file)(job_id)), next)
            },
        LogStep::Done(_) => false,
    }
}

/// The request is served by the given steps, one after the other.
pub open spec fn log_served(msg: JobLogGet, world: LogWorld, steps: Seq<LogStep>) -> bool {
    &&& 0 < steps.len()
    &&& call_ensures(job_log_get, (msg,), steps[0])
    &&& 1 < steps.len() ==> log_follows(steps[0], steps[1], world)
    &&& 2 < steps.len() ==> log_follows(steps[1], steps[2], world)
    &&& 3 < steps.len() ==> log_follows(steps[2], steps[3], world)
}

/// A request for a log takes two replies at most.
pub proof fn log_request_takes_two_replies(msg: JobLogGet, world: LogWorld, steps: Seq<LogStep>)
    requires
        log_served(msg, world, steps),
    ensures
        steps.len() <= 3,
        steps.len() == 3 ==> steps[2] is Done,
        steps[0] !is Done,
{
}

/// A step that waits for lines tells from which line on they are wanted: from that of the request.
pub proof fn log_steps_tell_the_start(msg: JobLogGet, world: LogWorld, steps: Seq<LogStep>, start: u64)
    requires
        log_served(msg, world, steps),
        steps.len() == 2,
        match steps[1] {
            LogStep::RetrieveArchive(waiting) => call_ensures(LogArchive::start, (&waiting,), start),
            LogStep::ReadFile(waiting) => call_ensures(LogFile::start, (&waiting,), start),
            _ => false,
        },
    ensures
        start == msg.start,
{
}

/// The content of an answer: as many lines as there are from `start` on, each of them the one
/// that stands there.
pub open spec fn is_rest_of(content: Seq<Seq<char>>, lines: Seq<Seq<char>>, start: u64) -> bool {
    &&& content.len() == if start < lines.len() {
        lines.len() - start
    } else {
        0
    }
    &&& forall|i: int| 0 <= i < content.len() ==> #[trigger] content[i] == lines[start + i]
}

proof fn last_log_step(msg: JobLogGet, world: LogWorld, steps: Seq<LogStep>)
    requires
        log_served(msg, world, steps),
        steps.last() is Done,
    ensures
        steps.len() == 2 || steps.len() == 3,
{
}

/// A job that does not exist, or that cannot be looked up, has no log to answer with.
pub proof fn log_of_no_job(
    msg: JobLogGet,
    world: LogWorld,
    steps: Seq<LogStep>,
    reply: Result<JobLog, Error>,
)
    requires
        log_served(msg, world, steps),
        steps.last() == LogStep::Done(reply),
    ensures
        (world.job)(msg.id) matches Ok(None) ==> reply == Err::<JobLog, Error>(Error::NotFound),
        (world.job)(msg.id) is Err ==> reply == Err::<JobLog, Error>(Error::System),
{
    last_log_step(msg, world, steps);
}

/// The log of an archived job is complete: it stops with the last line of the archive, and holds
/// what the archive holds from the wanted line on. If the archive fails, there is no log.
pub proof fn archived_log_is_complete(
    msg: JobLogGet,
    world: LogWorld,
    steps: Seq<LogStep>,
    job: Job,
    reply: Result<JobLog, Error>,
)
    requires
        log_served(msg, world, steps),
        steps.last() == LogStep::Done(reply),
        (world.job)(msg.id) == Ok::<Option<Job>, Error>(Some(job)),
        job.is_archived,
    ensures
        match (world.archive)(job.id) {
            Ok(lines) => {
                &&& reply is Ok
                &&& reply->Ok_0.is_complete
                &&& reply->Ok_0.start == msg.start
                &&& reply->Ok_0.stop == lines.len()
                &&& is_rest_of(
                    texts(reply->Ok_0.content),
                    Seq::new(lines.len() as nat, |i: int| lines[i]@),
                    msg.start,
                )
            },
            Err(_) => reply == Err::<JobLog, Error>(Error::NotFound),
        },
{
    last_log_step(msg, world, steps);
    if let Ok(lines) = (world.archive)(job.id) {
        assert(lines.deep_view() =~= Seq::new(lines.len() as nat, |i: int| lines[i]@));
    }
}

/// The log of a job that is not archived is never complete: it holds what the file holds from
/// the wanted line on and stops as many lines further. Without a file it is empty.
pub proof fn running_log_is_not_complete(
    msg: JobLogGet,
    world: LogWorld,
    steps: Seq<LogStep>,
    job: Job,
    reply: Result<JobLog, Error>,
)
    requires
        log_served(msg, world, steps),
        steps.last() == LogStep::Done(reply),
        (world.job)(msg.id) == Ok::<Option<Job>, Error>(Some(job)),
        !job.is_archived,
    ensures
        reply is Ok,
        !reply->Ok_0.is_complete,
        match (world.file)(msg.id) {
            Some(lines) => {
                &&& reply->Ok_0.start == msg.start
                &&& reply->Ok_0.stop == msg.start + texts(reply->Ok_0.content).len()
                &&& is_rest_of(
                    texts(reply->Ok_0.content),
                    Seq::new(lines.len() as nat, |i: int| lines[i]->0@),
                    msg.start,
                )
            },
            None => {
                &&& reply->Ok_0.start == 0
                &&& reply->Ok_0.stop == 0
                &&& texts(reply->Ok_0.content).len() == 0
            },
        },
{
    last_log_step(msg, world, steps);
}

/// Two reads of one archived log agree: of two that start at different lines, the later one
/// holds what the earlier one holds from there on, and both stop at the same line.
pub proof fn archived_reads_agree(
    earlier: LogArchive,
    later: LogArchive,
    starts: (u64, u64),
    lines: Vec<String>,
    logs: (JobLog, JobLog),
)
    requires
        call_ensures(LogArchive::start, (&earlier,), starts.0),
        call_ensures(LogArchive::start, (&later,), starts.1),
        starts.0 <= starts.1 <= lines.len(),
        call_ensures(LogArchive::resume, (earlier, Ok(lines)), LogStep::Done(Ok(logs.0))),
        call_ensures(LogArchive::resume, (later, Ok(lines)), LogStep::Done(Ok(logs.1))),
    ensures
        texts(logs.1.content) == texts(logs.0.content).skip(starts.1 - starts.0),
        logs.0.stop == logs.1.stop,
        logs.0.is_complete && logs.1.is_complete,
{
    assert(texts(logs.1.content) =~= texts(logs.0.content).skip(starts.1 - starts.0));
}

} // verus!
