//! Single jobs and their logs.
//!
//! The log of a job is read in three steps, each of which names what is wanted next and is
//! resumed with the reply to it.

use vstd::prelude::*;

use crate::error::Error;
use crate::messages::{Job, JobGet, JobLog, JobLogGet, JobLogView};
use crate::repeated::{texts_from_vec, texts_new};

verus! {

/// Answers a request for a job from what the datastore has to say of it.
pub fn job_get(found: Result<Option<Job>, Error>) -> (reply: Result<Job, Error>)
    ensures
        reply == match found {
            Ok(Some(job)) => Ok::<Job, Error>(job),
            Ok(None) => Err(Error::NotFound),
            Err(_) => Err(Error::System),
        },
{
    match found {
        Ok(Some(job)) => Ok(job),
        Ok(None) => Err(Error::NotFound),
        Err(_) => Err(Error::System),
    }
}

/// The lines from the one at `start` on.
pub open spec fn lines_past<T>(lines: Seq<T>, start: int) -> Seq<T> {
    if start < lines.len() {
        lines.skip(start)
    } else {
        Seq::empty()
    }
}

/// Every line from the one at `start` on could be decoded.
pub open spec fn decoded_past(lines: Seq<Option<String>>, start: int) -> bool {
    forall|i: int| start <= i < lines.len() ==> (#[trigger] lines[i]) is Some
}

/// The texts of lines that could be decoded.
pub open spec fn decoded(lines: Seq<Option<String>>) -> Seq<Seq<char>> {
    lines.map_values(|line: Option<String>| line->0@)
}

/// The rest of a log that is archived, and so is complete.
pub open spec fn archived_log(start: int, lines: Seq<Seq<char>>) -> JobLogView {
    JobLogView {
        start,
        stop: lines.len() as int,
        is_complete: true,
        content: lines_past(lines, start),
    }
}

/// The rest of a log that is still being written.
pub open spec fn running_log(start: int, lines: Seq<Seq<char>>) -> JobLogView {
    JobLogView {
        start,
        stop: start + lines_past(lines, start).len(),
        is_complete: false,
        content: lines_past(lines, start),
    }
}

/// The log of a job that has none, or none yet.
pub open spec fn empty_log() -> JobLogView {
    JobLogView { start: 0, stop: 0, is_complete: false, content: Seq::empty() }
}

/// The lines of a log file past `offset`. `file` holds the file's lines, `None` for one that is
/// not valid text, and is itself `None` where there is no such file: then the job has no log
/// yet, or never had one.
pub fn get_log_content(file: Option<Vec<Option<String>>>, offset: u64) -> (content: Option<Vec<String>>)
    requires
        file matches Some(lines) ==> decoded_past(lines@, offset as int),
    ensures
        match file {
            Some(lines) => {
                &&& content is Some
                &&& content->0.deep_view() == decoded(lines_past(lines@, offset as int))
            },
            None => content is None,
        },
{
    let lines = match file {
        Some(lines) => lines,
        None => return None,
    };
    let mut content: Vec<String> = Vec::new();
    if offset < lines.len() as u64 {
        let mut i: usize = offset as usize;
        while i < lines.len()
            invariant
                offset <= i <= lines@.len(),
                decoded_past(lines@, offset as int),
                content.deep_view() =~= decoded(lines@.subrange(offset as int, i as int)),
            decreases lines@.len() - i,
        {
            assert(lines@[i as int] is Some);
            let ghost before = content.deep_view();
            if let Some(line) = &lines[i] {
                content.push(line.clone());
            }
            assert(content.deep_view() =~= before.push(lines@[i as int]->0@));
            i = i + 1;
        }
        assert(lines@.subrange(offset as int, i as int) =~= lines@.skip(offset as int));
    }
    assert(content.deep_view() =~= decoded(lines_past(lines@, offset as int)));
    Some(content)
}

/// What the answer to a request for a log needs next, or what it is answered.
pub enum LogStepView {
    GetJob(JobLogGet),
    RetrieveArchive(JobLogGet, u64),
    ReadFile(JobLogGet),
    Done(Result<JobLogView, Error>),
}

/// The job was looked up. The log of an archived job is with the archive, that of another one
/// in a file.
pub open spec fn after_job(msg: JobLogGet, found: Result<Option<Job>, Error>) -> LogStepView {
    match found {
        Ok(Some(job)) => if job.is_archived {
            LogStepView::RetrieveArchive(msg, job.id)
        } else {
            LogStepView::ReadFile(msg)
        },
        Ok(None) => LogStepView::Done(Err(Error::NotFound)),
        Err(_) => LogStepView::Done(Err(Error::System)),
    }
}

/// The archive was asked for the log.
pub open spec fn after_archive(msg: JobLogGet, lines: Result<Vec<String>, Error>) -> LogStepView {
    match lines {
        Ok(lines) => LogStepView::Done(Ok(archived_log(msg.start as int, lines.deep_view()))),
        Err(_) => LogStepView::Done(Err(Error::NotFound)),
    }
}

/// The log file was read, if there is one.
pub open spec fn after_file(msg: JobLogGet, file: Option<Vec<Option<String>>>) -> LogStepView {
    match file {
        Some(lines) => LogStepView::Done(Ok(running_log(msg.start as int, decoded(lines@)))),
        None => LogStepView::Done(Ok(empty_log())),
    }
}

/// Waits for the lookup of the job.
pub struct LogJob {
    msg: JobLogGet,
}

/// Waits for the archived log of the job.
pub struct LogArchive {
    msg: JobLogGet,
    job_id: u64,
}

/// Waits for the log file of the job.
pub struct LogFile {
    msg: JobLogGet,
}

/// What the answer to a request for a log needs next, or what it is answered.
pub enum LogStep {
    GetJob(LogJob),
    RetrieveArchive(LogArchive),
    ReadFile(LogFile),
    Done(Result<JobLog, Error>),
}

impl View for LogJob {
    type V = JobLogGet;

    closed spec fn view(&self) -> JobLogGet {
        self.msg
    }
}

impl View for LogArchive {
    type V = (JobLogGet, u64);

    closed spec fn view(&self) -> (JobLogGet, u64) {
        (self.msg, self.job_id)
    }
}

impl View for LogFile {
    type V = JobLogGet;

    closed spec fn view(&self) -> JobLogGet {
        self.msg
    }
}

impl View for LogStep {
    type V = LogStepView;

    open spec fn view(&self) -> LogStepView {
        match self {
            LogStep::GetJob(step) => LogStepView::GetJob(step@),
            LogStep::RetrieveArchive(step) => LogStepView::RetrieveArchive(step@.0, step@.1),
            LogStep::ReadFile(step) => LogStepView::ReadFile(step@),
            LogStep::Done(Ok(log)) => LogStepView::Done(Ok(log@)),
            LogStep::Done(Err(err)) => LogStepView::Done(Err(*err)),
        }
    }
}

/// Starts to answer a request for the log of a job: the job has to be looked up.
pub fn job_log_get(msg: JobLogGet) -> (step: LogStep)
    ensures
        step@ == LogStepView::GetJob(msg),
{
    LogStep::GetJob(LogJob { msg })
}

impl LogJob {
    /// The job to look up.
    pub fn query(&self) -> (query: JobGet)
        ensures
            query.id == self@.id,
    {
        JobGet { id: self.msg.id }
    }

    /// Goes on to where the log of the job is kept.
    pub fn resume(self, found: Result<Option<Job>, Error>) -> (step: LogStep)
        ensures
            step@ == after_job(self@, found),
    {
        match found {
            Ok(Some(job)) => if job.is_archived {
                LogStep::RetrieveArchive(LogArchive { msg: self.msg, job_id: job.id })
            } else {
                LogStep::ReadFile(LogFile { msg: self.msg })
            },
            Ok(None) => LogStep::Done(Err(Error::NotFound)),
            Err(_) => LogStep::Done(Err(Error::System)),
        }
    }
}

impl LogArchive {
    /// The job whose log is wanted.
    pub fn job_id(&self) -> (id: u64)
        ensures
            id == self@.1,
    {
        self.job_id
    }

    /// The first line that is wanted.
    pub fn start(&self) -> (start: u64)
        ensures
            start == self@.0.start,
    {
        self.msg.start
    }

    /// Answers with the rest of the log. An archive that holds no line has none past its first.
    pub fn resume(self, lines: Result<Vec<String>, Error>) -> (step: LogStep)
        requires
            lines matches Ok(lines) ==> lines@.len() > 0 || self@.0.start == 0,
        ensures
            step@ == after_archive(self@.0, lines),
    {
        let mut lines = match lines {
            Ok(lines) => lines,
            Err(_) => return LogStep::Done(Err(Error::NotFound)),
        };
        let ghost all = lines.deep_view();
        let start: u64 = self.msg.start;
        let num_lines: u64 = lines.len() as u64;
        let segment = if start >= num_lines {
            Vec::new()
        } else {
            lines.split_off(start as usize)
        };
        assert(segment.deep_view() =~= lines_past(all, start as int));
        LogStep::Done(
            Ok(
                JobLog {
                    start,
                    stop: num_lines,
                    is_complete: true,
                    content: texts_from_vec(segment),
                },
            ),
        )
    }
}

impl LogFile {
    /// The job whose log file is wanted.
    pub fn job_id(&self) -> (id: u64)
        ensures
            id == self@.id,
    {
        self.msg.id
    }

    /// The first line that is wanted.
    pub fn start(&self) -> (start: u64)
        ensures
            start == self@.start,
    {
        self.msg.start
    }

    /// Answers with the rest of the log, or with an empty one where there is no file.
    pub fn resume(self, file: Option<Vec<Option<String>>>) -> (step: LogStep)
        requires
            file matches Some(lines) ==> decoded_past(lines@, self@.start as int),
        ensures
            step@ == after_file(self@, file),
    {
        let start: u64 = self.msg.start;
        match get_log_content(file, start) {
            Some(content) => {
                proof {
                    let lines = file->0;
                    assert(decoded(lines_past(lines@, start as int)) =~= lines_past(
                        decoded(lines@),
                        start as int,
                    ));
                    assert(lines.len() <= u64::MAX);
                }
                let num_lines: u64 = content.len() as u64;
                LogStep::Done(
                    Ok(
                        JobLog {
                            start,
                            stop: start + num_lines,
                            is_complete: false,
                            content: texts_from_vec(content),
                        },
                    ),
                )
            },
            None => {
                let log = JobLog { start: 0, stop: 0, is_complete: false, content: texts_new() };
                assert(log@ =~= empty_log());
                LogStep::Done(Ok(log))
            },
        }
    }
}

/// A log that is still being written can be followed: what was read up to where a read stopped,
/// and what a later read gives from there on, are together what the later read gives from the
/// start of the first. It does not matter whether the later read finds the log still growing
/// or archived.
pub proof fn log_can_be_followed(lines: Seq<Seq<char>>, more: Seq<Seq<char>>, start: int)
    requires
        0 <= start,
    ensures
        ({
            let first = running_log(start, lines);
            let all = lines + more;
            &&& first.content + running_log(first.stop, all).content == running_log(start, all).content
            &&& first.content + archived_log(first.stop, all).content == archived_log(start, all).content
            &&& running_log(first.stop, all).stop == running_log(start, all).stop
        }),
{
    let first = running_log(start, lines);
    let all = lines + more;
    assert(first.content + lines_past(all, first.stop) =~= lines_past(all, start));
}

/// A read from the first line on gives the whole log.
pub proof fn log_from_the_start_is_whole(lines: Seq<Seq<char>>)
    ensures
        archived_log(0, lines).content == lines,
        running_log(0, lines).content == lines,
        running_log(0, lines).stop == lines.len(),
{
    assert(lines_past(lines, 0) =~= lines);
}

/// The replies that one request for a log meets with, each to be had only if it is asked for.
pub struct LogReplies {
    pub job: Result<Option<Job>, Error>,
    pub archive: Result<Vec<String>, Error>,
    pub file: Option<Vec<Option<String>>>,
}

/// One turn: the step is resumed with the reply to what it asks for.
pub open spec fn log_turn(step: LogStepView, replies: LogReplies) -> LogStepView {
    match step {
        LogStepView::GetJob(msg) => after_job(msg, replies.job),
        LogStepView::RetrieveArchive(msg, _) => after_archive(msg, replies.archive),
        LogStepView::ReadFile(msg) => after_file(msg, replies.file),
        LogStepView::Done(_) => step,
    }
}

/// What a request for a log is answered.
pub open spec fn log_answer(msg: JobLogGet, replies: LogReplies) -> Result<JobLogView, Error> {
    match replies.job {
        Ok(Some(job)) if job.is_archived => match replies.archive {
            Ok(lines) => Ok(archived_log(msg.start as int, lines.deep_view())),
            Err(_) => Err(Error::NotFound),
        },
        Ok(Some(_)) => match replies.file {
            Some(lines) => Ok(running_log(msg.start as int, decoded(lines@))),
            None => Ok(empty_log()),
        },
        Ok(None) => Err(Error::NotFound),
        Err(_) => Err(Error::System),
    }
}

/// Every request for a log is answered within two turns, if the steps admit the replies: an
/// archive without lines is asked from the first one on only, and the lines of a file can be
/// decoded from the wanted one on.
pub proof fn log_request_is_answered(msg: JobLogGet, replies: LogReplies)
    requires
        replies.job matches Ok(Some(job)) && job.is_archived ==> (replies.archive matches Ok(lines)
            ==> lines@.len() > 0 || msg.start == 0),
        replies.job matches Ok(Some(job)) && !job.is_archived ==> (replies.file matches Some(lines)
            ==> decoded_past(lines@, msg.start as int)),
    ensures
        log_turn(log_turn(LogStepView::GetJob(msg), replies), replies) == LogStepView::Done(
            log_answer(msg, replies),
        ),
{
}

} // verus!
