use builder_jobsrv::audit::add_job_group_audit_entry;
use builder_jobsrv::create_new::{insert_job_graph_entries, job_group_create_new, NewStep};
use builder_jobsrv::error::Error;
use builder_jobsrv::messages::{
    Group, JobGroup, JobGroupOperation, JobGroupSpec, JobGroupState, JobGroupTrigger,
    PackageBuildManifest, PackageTarget, Project,
};
use protobuf::RepeatedField;

fn spec(package_only: bool, trigger: JobGroupTrigger) -> JobGroupSpec {
    JobGroupSpec {
        origin: "core".to_string(),
        package: "glibc".to_string(),
        target: "x86_64-linux".to_string(),
        deps_only: false,
        origin_only: false,
        package_only,
        trigger,
        requester_id: 31,
        requester_name: "mia".to_string(),
        details: vec![5, 1],
    }
}

fn row(id: i64) -> Group {
    let job_group = JobGroup {
        id: 90,
        state: JobGroupState::GroupQueued,
        projects: RepeatedField::new(),
        target: "x86_64-linux".to_string(),
        details: vec![6],
    };
    Group { id, job_group }
}

fn run(
    msg: JobGroupSpec,
    auto_build: bool,
    created: Result<Group, diesel::result::Error>,
    manifest: Result<PackageBuildManifest, Error>,
) -> (Vec<String>, Result<JobGroup, Error>) {
    run_with(msg, auto_build, Ok(()), created, manifest)
}

fn run_with(
    msg: JobGroupSpec,
    auto_build: bool,
    connected: Result<(), String>,
    created: Result<Group, diesel::result::Error>,
    manifest: Result<PackageBuildManifest, Error>,
) -> (Vec<String>, Result<JobGroup, Error>) {
    let mut connected = Some(connected);
    let mut created = Some(created);
    let mut manifest = Some(manifest);
    let mut calls = Vec::new();
    let target = PackageTarget { name: "x86_64-linux".to_string() };
    let mut step = job_group_create_new(msg, target, false);
    loop {
        step = match step {
            NewStep::GetProject(step) => {
                let query = step.query();
                calls.push(format!("project {} {}", query.name, query.target));
                step.resume(Ok(Project { auto_build }))
            }
            NewStep::Connect(step) => step.resume(connected.take().unwrap()),
            NewStep::CreateGroup(step) => {
                let new = step.new_group();
                calls.push(format!("create {} {} {}", new.group_state, new.project_name, new.target));
                step.resume(created.take().unwrap())
            }
            NewStep::ComputeBuild(step) => {
                let query = step.query();
                calls.push(format!("build {} {}", query.package, query.target));
                step.resume(manifest.take().unwrap())
            }
            NewStep::CreateAuditEntry(step) => {
                calls.push(format!("audit {}", step.entry().group_id));
                step.resume(Err(Error::System))
            }
            NewStep::Done(reply) => return (calls, reply),
        };
    }
}

fn manifest() -> PackageBuildManifest {
    PackageBuildManifest { details: vec![] }
}

#[test]
fn manifest_is_computed_for_the_package() {
    let (calls, reply) = run(spec(false, JobGroupTrigger::Upload), true, Ok(row(90)), Ok(manifest()));
    assert_eq!(reply.unwrap().id, 90);
    assert_eq!(
        calls,
        vec![
            "project core/glibc x86_64-linux",
            "create Queued core/glibc x86_64-linux",
            "build core/glibc x86_64-linux",
            "audit 90"
        ]
    );
}

#[test]
fn package_alone_needs_no_manifest() {
    let (calls, reply) = run(spec(true, JobGroupTrigger::Upload), true, Ok(row(-1)), Err(Error::System));
    assert!(reply.is_ok());
    assert_eq!(calls[2..], ["audit 18446744073709551615"]);
}

#[test]
fn manifest_needs_leave_to_build() {
    let msg = spec(false, JobGroupTrigger::Webhook);
    let (calls, reply) = run(msg, false, Ok(row(1)), Ok(manifest()));
    assert!(matches!(reply, Err(Error::NotFound)));
    assert_eq!(calls.len(), 1);
    let msg = spec(false, JobGroupTrigger::HabClient);
    let (_, reply) = run(msg, false, Ok(row(1)), Ok(manifest()));
    assert!(reply.is_ok());
}

#[test]
fn insertion_failure_is_reported() {
    let failed = diesel::result::Error::RollbackTransaction;
    let (calls, reply) =
        run(spec(false, JobGroupTrigger::Upload), true, Err(failed), Ok(manifest()));
    assert!(matches!(
        reply,
        Err(Error::DieselError(diesel::result::Error::RollbackTransaction))
    ));
    assert_eq!(calls[1..], ["create Queued core/glibc x86_64-linux"]);
}

#[test]
fn nothing_is_inserted_without_a_connection() {
    let msg = spec(false, JobGroupTrigger::Upload);
    let connected = Err("pool".to_string());
    let (calls, reply) = run_with(msg, true, connected, Ok(row(1)), Ok(manifest()));
    match reply {
        Err(Error::Db(err)) => assert_eq!(err, "pool"),
        _ => panic!("no connection, no answer"),
    }
    assert_eq!(calls, vec!["project core/glibc x86_64-linux"]);
}

#[test]
fn manifest_failure_is_reported() {
    let (calls, reply) =
        run(spec(false, JobGroupTrigger::Upload), true, Ok(row(1)), Err(Error::System));
    assert!(matches!(reply, Err(Error::System)));
    assert_eq!(calls.len(), 3);
}

#[test]
fn manifest_entries_are_accepted() {
    assert!(insert_job_graph_entries(&manifest()).is_ok());
}

#[test]
fn creation_is_recorded() {
    let entry = add_job_group_audit_entry(5, &spec(false, JobGroupTrigger::Upload));
    assert_eq!(entry.group_id, 5);
    assert_eq!(entry.operation, JobGroupOperation::JobGroupOpCreate);
    assert_eq!(entry.trigger, JobGroupTrigger::Upload);
    assert_eq!((entry.requester_id, entry.requester_name.as_str()), (31, "mia"));
}
