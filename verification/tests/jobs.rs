use builder_jobsrv::error::Error;
use builder_jobsrv::jobs::{get_log_content, job_get, job_log_get, LogStep};
use builder_jobsrv::messages::{Job, JobLog, JobLogGet, JobState};

fn job(id: u64, is_archived: bool) -> Job {
    Job { id, state: JobState::Complete, is_archived, details: vec![7, 8] }
}

fn lines(texts: &[&str]) -> Vec<String> {
    texts.iter().map(|s| s.to_string()).collect()
}

fn file(texts: &[&str]) -> Vec<Option<String>> {
    texts.iter().map(|s| Some(s.to_string())).collect()
}

fn archived(start: u64, texts: &[&str]) -> JobLog {
    let step = match job_log_get(JobLogGet { id: 5, start }) {
        LogStep::GetJob(step) => step,
        _ => panic!("the job comes first"),
    };
    assert_eq!(step.query().id, 5);
    let step = match step.resume(Ok(Some(job(9, true)))) {
        LogStep::RetrieveArchive(step) => step,
        _ => panic!("an archived job's log is with the archive"),
    };
    assert_eq!(step.job_id(), 9);
    assert_eq!(step.start(), start);
    match step.resume(Ok(lines(texts))) {
        LogStep::Done(Ok(log)) => log,
        _ => panic!("the archive has the log"),
    }
}

fn running(start: u64, content: Option<Vec<Option<String>>>) -> JobLog {
    let step = match job_log_get(JobLogGet { id: 5, start }) {
        LogStep::GetJob(step) => step,
        _ => panic!("the job comes first"),
    };
    let step = match step.resume(Ok(Some(job(9, false)))) {
        LogStep::ReadFile(step) => step,
        _ => panic!("a running job's log is in a file"),
    };
    assert_eq!(step.job_id(), 5);
    assert_eq!(step.start(), start);
    match step.resume(content) {
        LogStep::Done(Ok(log)) => log,
        _ => panic!("a log file is always answered"),
    }
}

#[test]
fn job_is_returned_as_found() {
    let found = job_get(Ok(Some(job(3, false)))).unwrap();
    assert_eq!(found.id, 3);
    assert_eq!(found.details, vec![7, 8]);
}

#[test]
fn missing_job_is_not_found() {
    assert!(matches!(job_get(Ok(None)), Err(Error::NotFound)));
}

#[test]
fn job_lookup_failure_is_a_system_error() {
    assert!(matches!(job_get(Err(Error::Other("down".to_string()))), Err(Error::System)));
}

#[test]
fn log_of_missing_job_is_not_found() {
    if let LogStep::GetJob(step) = job_log_get(JobLogGet { id: 1, start: 0 }) {
        assert!(matches!(step.resume(Ok(None)), LogStep::Done(Err(Error::NotFound))));
    } else {
        panic!("the job comes first");
    }
}

#[test]
fn log_job_lookup_failure_is_a_system_error() {
    if let LogStep::GetJob(step) = job_log_get(JobLogGet { id: 1, start: 0 }) {
        let reply = step.resume(Err(Error::Other("down".to_string())));
        assert!(matches!(reply, LogStep::Done(Err(Error::System))));
    } else {
        panic!("the job comes first");
    }
}

#[test]
fn archive_failure_is_not_found() {
    let errors = vec![
        Error::CaughtPanic("archive".to_string(), "no store".to_string()),
        Error::Other("denied".to_string()),
    ];
    for err in errors {
        if let LogStep::GetJob(step) = job_log_get(JobLogGet { id: 1, start: 0 }) {
            if let LogStep::RetrieveArchive(step) = step.resume(Ok(Some(job(1, true)))) {
                assert!(matches!(step.resume(Err(err)), LogStep::Done(Err(Error::NotFound))));
            } else {
                panic!("an archived job's log is with the archive");
            }
        }
    }
}

#[test]
fn archived_log_from_the_middle() {
    let log = archived(1, &["a", "b", "c"]);
    assert_eq!(log.content.to_vec(), lines(&["b", "c"]));
    assert_eq!((log.start, log.stop, log.is_complete), (1, 3, true));
}

#[test]
fn archived_log_past_its_end_is_empty() {
    let log = archived(3, &["a", "b", "c"]);
    assert!(log.content.is_empty());
    assert_eq!((log.start, log.stop, log.is_complete), (3, 3, true));
    let log = archived(u64::MAX, &["a"]);
    assert!(log.content.is_empty());
    assert_eq!((log.start, log.stop), (u64::MAX, 1));
}

#[test]
fn archived_log_without_lines() {
    let log = archived(0, &[]);
    assert!(log.content.is_empty());
    assert_eq!((log.start, log.stop, log.is_complete), (0, 0, true));
}

#[test]
fn running_log_from_the_middle() {
    let log = running(2, Some(file(&["a", "b", "c", "d"])));
    assert_eq!(log.content.to_vec(), lines(&["c", "d"]));
    assert_eq!((log.start, log.stop, log.is_complete), (2, 4, false));
}

#[test]
fn running_log_past_its_end_stops_where_it_starts() {
    let log = running(6, Some(file(&["a", "b"])));
    assert!(log.content.is_empty());
    assert_eq!((log.start, log.stop, log.is_complete), (6, 6, false));
    let log = running(u64::MAX, Some(file(&["a", "b"])));
    assert_eq!((log.start, log.stop), (u64::MAX, u64::MAX));
}

#[test]
fn missing_log_file_gives_an_empty_log() {
    let log = running(4, None);
    assert!(log.content.is_empty());
    assert_eq!((log.start, log.stop, log.is_complete), (0, 0, false));
}

#[test]
fn undecoded_lines_before_the_offset_do_not_matter() {
    let content = vec![None, Some("b".to_string()), Some("c".to_string())];
    assert_eq!(get_log_content(Some(content), 1), Some(lines(&["b", "c"])));
}

#[test]
fn no_file_has_no_content() {
    assert_eq!(get_log_content(None, 0), None);
}

#[test]
fn whole_log_is_read_from_the_start() {
    assert_eq!(archived(0, &["a", "b"]).content.to_vec(), lines(&["a", "b"]));
    assert_eq!(running(0, Some(file(&["a", "b"]))).content.to_vec(), lines(&["a", "b"]));
}

#[test]
fn log_is_followed_without_gap_or_repeat() {
    let first = running(1, Some(file(&["a", "b", "c"])));
    let mut read = first.content.to_vec();
    let second = running(first.stop, Some(file(&["a", "b", "c", "d", "e"])));
    read.extend(second.content.to_vec());
    let last = archived(second.stop, &["a", "b", "c", "d", "e", "f"]);
    read.extend(last.content.to_vec());
    assert_eq!(read, lines(&["b", "c", "d", "e", "f"]));
    assert!(last.is_complete);
}
