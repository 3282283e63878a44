use builder_jobsrv::error::Error;
use builder_jobsrv::groups::{job_group_get, job_group_origin_get};
use builder_jobsrv::messages::{JobGroup, JobGroupOriginResponse, JobGroupState};
use protobuf::RepeatedField;

fn group(id: u64) -> JobGroup {
    JobGroup {
        id,
        state: JobGroupState::GroupPending,
        projects: RepeatedField::new(),
        target: "x86_64-linux".to_string(),
        details: vec![],
    }
}

#[test]
fn group_is_returned_as_found() {
    assert_eq!(job_group_get(Ok(Some(group(4)))).unwrap().id, 4);
}

#[test]
fn missing_group_is_not_found() {
    assert!(matches!(job_group_get(Ok(None)), Err(Error::NotFound)));
}

#[test]
fn group_lookup_failure_is_not_found() {
    assert!(matches!(job_group_get(Err(Error::System)), Err(Error::NotFound)));
}

#[test]
fn origin_groups_are_returned_as_found() {
    let reply = job_group_origin_get(Ok(JobGroupOriginResponse { details: vec![1, 2] }));
    assert_eq!(reply.unwrap().details, vec![1, 2]);
}

#[test]
fn origin_lookup_failure_is_a_system_error() {
    let reply = job_group_origin_get(Err(Error::Other("down".to_string())));
    assert!(matches!(reply, Err(Error::System)));
}
