use builder_jobsrv::cancel::{job_group_cancel, CancelStep};
use builder_jobsrv::error::Error;
use builder_jobsrv::messages::{
    Job, JobGroup, JobGroupCancel, JobGroupOperation, JobGroupProject, JobGroupProjectState,
    JobGroupState, JobGroupTrigger, JobState,
};
use protobuf::RepeatedField;

struct World {
    group: Result<Option<JobGroup>, Error>,
    fail_cancel: bool,
    missing_job: u64,
    failing_job: u64,
    failing_update: u64,
    fail_audit: bool,
    fail_notify: bool,
}

fn world() -> World {
    World {
        group: Ok(Some(group())),
        fail_cancel: false,
        missing_job: 0,
        failing_job: 0,
        failing_update: 0,
        fail_audit: false,
        fail_notify: false,
    }
}

fn project(state: JobGroupProjectState, job_id: u64) -> JobGroupProject {
    JobGroupProject { state, job_id, details: vec![] }
}

fn group() -> JobGroup {
    JobGroup {
        id: 77,
        state: JobGroupState::GroupDispatching,
        projects: RepeatedField::from_vec(vec![
            project(JobGroupProjectState::Success, 1),
            project(JobGroupProjectState::InProgress, 2),
            project(JobGroupProjectState::NotStarted, 3),
            project(JobGroupProjectState::InProgress, 4),
        ]),
        target: "x86_64-linux".to_string(),
        details: vec![],
    }
}

fn other() -> Error {
    Error::Other("down".to_string())
}

fn run(world: World) -> (Vec<String>, Result<(), Error>) {
    let msg = JobGroupCancel {
        group_id: 70,
        trigger: JobGroupTrigger::BuilderUI,
        requester_id: 12,
        requester_name: "mia".to_string(),
    };
    let mut group = Some(world.group);
    let mut calls = Vec::new();
    let mut step = job_group_cancel(msg);
    loop {
        step = match step {
            CancelStep::GetJobGroup(step) => {
                let query = step.query();
                calls.push(format!("get group {} {}", query.group_id, query.include_projects));
                step.resume(group.take().unwrap())
            }
            CancelStep::CancelJobGroup(step) => {
                calls.push(format!("cancel {}", step.group_id()));
                step.resume(if world.fail_cancel { Err(other()) } else { Ok(()) })
            }
            CancelStep::GetJob(step) => {
                let id = step.query().id;
                calls.push(format!("get job {}", id));
                if id == world.failing_job {
                    step.resume(Err(other()))
                } else if id == world.missing_job {
                    step.resume(Ok(None))
                } else {
                    let job = Job {
                        id,
                        state: JobState::Processing,
                        is_archived: true,
                        details: vec![5],
                    };
                    step.resume(Ok(Some(job)))
                }
            }
            CancelStep::UpdateJob(step) => {
                let id = {
                    let job = step.job();
                    assert_eq!(job.state, JobState::CancelPending);
                    assert_eq!((job.is_archived, &job.details), (true, &vec![5]));
                    job.id
                };
                calls.push(format!("update {}", id));
                step.resume(if id == world.failing_update { Err(other()) } else { Ok(()) })
            }
            CancelStep::CreateAuditEntry(step) => {
                let entry = step.entry();
                assert_eq!(entry.operation, JobGroupOperation::JobGroupOpCancel);
                assert_eq!(entry.trigger, JobGroupTrigger::BuilderUI);
                assert_eq!((entry.requester_id, entry.requester_name.as_str()), (12, "mia"));
                calls.push(format!("audit {}", entry.group_id));
                step.resume(if world.fail_audit { Err(other()) } else { Ok(()) })
            }
            CancelStep::NotifyWork(step) => {
                calls.push("notify".to_string());
                step.resume(if world.fail_notify { Err(other()) } else { Ok(()) })
            }
            CancelStep::Done(reply) => return (calls, reply.map(|_| ())),
        };
    }
}

#[test]
fn jobs_in_progress_are_cancelled() {
    let (calls, reply) = run(world());
    assert!(reply.is_ok());
    assert_eq!(
        calls,
        vec![
            "get group 70 true",
            "cancel 77",
            "get job 2",
            "update 2",
            "get job 4",
            "update 4",
            "audit 77",
            "notify"
        ]
    );
}

#[test]
fn missing_job_is_passed_over() {
    let (calls, reply) = run(World { missing_job: 2, ..world() });
    assert!(reply.is_ok());
    assert_eq!(
        calls,
        vec!["get group 70 true", "cancel 77", "get job 2", "get job 4", "update 4", "audit 77", "notify"]
    );
}

#[test]
fn group_without_projects_is_cancelled() {
    let empty = JobGroup { projects: RepeatedField::new(), ..group() };
    let (calls, reply) = run(World { group: Ok(Some(empty)), ..world() });
    assert!(reply.is_ok());
    assert_eq!(calls, vec!["get group 70 true", "cancel 77", "audit 77", "notify"]);
}

#[test]
fn cancelled_group_must_exist() {
    let (calls, reply) = run(World { group: Ok(None), ..world() });
    assert!(matches!(reply, Err(Error::NotFound)));
    assert_eq!(calls, vec!["get group 70 true"]);
}

#[test]
fn cancelled_group_lookup_failure_is_a_system_error() {
    let (calls, reply) = run(World { group: Err(other()), ..world() });
    assert!(matches!(reply, Err(Error::System)));
    assert_eq!(calls, vec!["get group 70 true"]);
}

#[test]
fn failure_to_cancel_the_group_ends_it() {
    let (calls, reply) = run(World { fail_cancel: true, ..world() });
    assert!(matches!(reply, Err(Error::Other(_))));
    assert_eq!(calls, vec!["get group 70 true", "cancel 77"]);
}

#[test]
fn failure_to_get_a_job_ends_it() {
    let (calls, reply) = run(World { failing_job: 4, ..world() });
    assert!(matches!(reply, Err(Error::Other(_))));
    assert_eq!(calls, vec!["get group 70 true", "cancel 77", "get job 2", "update 2", "get job 4"]);
}

#[test]
fn failure_to_update_a_job_ends_it() {
    let (calls, reply) = run(World { failing_update: 2, ..world() });
    assert!(matches!(reply, Err(Error::Other(_))));
    assert_eq!(calls, vec!["get group 70 true", "cancel 77", "get job 2", "update 2"]);
}

#[test]
fn failure_to_audit_is_no_hindrance() {
    let (calls, reply) = run(World { fail_audit: true, ..world() });
    assert!(reply.is_ok());
    assert_eq!(calls.last().unwrap(), "notify");
}

#[test]
fn failure_to_notify_is_reported() {
    let (calls, reply) = run(World { fail_notify: true, ..world() });
    assert!(matches!(reply, Err(Error::Other(_))));
    assert_eq!(calls.last().unwrap(), "notify");
}
