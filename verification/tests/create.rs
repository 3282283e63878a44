use builder_jobsrv::create::{job_group_create, job_group_create_old, CreateStep, Resolution};
use builder_jobsrv::error::{Error, LookupError, QueryError};
use builder_jobsrv::messages::{
    Group, JobGroup, JobGroupOperation, JobGroupSpec, JobGroupState, JobGroupTrigger,
    PackageTarget, Project,
};
use protobuf::RepeatedField;

struct World {
    target: Option<&'static str>,
    graph: bool,
    resolved: bool,
    unbuildable: Vec<&'static str>,
    rdeps: Option<Vec<&'static str>>,
    queued: Option<Result<Group, LookupError>>,
    created: Result<(), Error>,
    notified: Result<(), Error>,
    audited: Result<(), Error>,
}

fn world() -> World {
    World {
        target: Some("x86_64-linux"),
        graph: true,
        resolved: true,
        unbuildable: vec![],
        rdeps: Some(vec!["core/a", "core/b"]),
        queued: None,
        created: Ok(()),
        notified: Ok(()),
        audited: Ok(()),
    }
}

fn spec() -> JobGroupSpec {
    JobGroupSpec {
        origin: "core".to_string(),
        package: "glibc".to_string(),
        target: "x86_64-linux".to_string(),
        deps_only: false,
        origin_only: false,
        package_only: false,
        trigger: JobGroupTrigger::Upload,
        requester_id: 31,
        requester_name: "mia".to_string(),
        details: vec![5, 1],
    }
}

fn target(name: &str) -> PackageTarget {
    PackageTarget { name: name.to_string() }
}

fn group(id: u64) -> JobGroup {
    JobGroup {
        id,
        state: JobGroupState::GroupQueued,
        projects: RepeatedField::new(),
        target: "x86_64-linux".to_string(),
        details: vec![6],
    }
}

fn listed(names: Vec<&str>) -> Vec<(String, String)> {
    names.iter().map(|n| (n.to_string(), format!("{}/1/2", n))).collect()
}

fn run(msg: JobGroupSpec, world: World) -> (Vec<String>, Result<JobGroup, Error>) {
    drive(job_group_create(msg, false), world)
}

fn drive(start: CreateStep, world: World) -> (Vec<String>, Result<JobGroup, Error>) {
    let build_targets = vec![target("x86_64-windows"), target("x86_64-linux")];
    let mut queued = world.queued;
    let mut created = Some(world.created);
    let mut notified = Some(world.notified);
    let mut audited = Some(world.audited);
    let mut calls = Vec::new();
    let mut step = start;
    loop {
        step = match step {
            CreateStep::ParseTarget(step) => {
                assert_eq!(step.target(), "x86_64-linux");
                step.resume(world.target.map(target), &build_targets)
            }
            CreateStep::ResolveProject(step) => {
                let query = step.query();
                assert_eq!((query.name.as_str(), query.target.as_str()), ("core/glibc", "x86_64-linux"));
                step.resume(if !world.graph {
                    Resolution::NoGraph
                } else if !world.resolved {
                    Resolution::Unresolved
                } else {
                    Resolution::Resolved("core/glibc/2/3".to_string())
                })
            }
            CreateStep::GetProject(step) => {
                let query = step.query();
                calls.push(format!("project {} {}", query.name, query.target));
                let auto_build = !world.unbuildable.contains(&query.name.as_str());
                step.resume(Ok(Project { auto_build }))
            }
            CreateStep::GetRdeps(step) => {
                let query = step.query();
                assert_eq!(query.target, "x86_64-linux");
                calls.push(format!("rdeps {}", query.name));
                step.resume(world.rdeps.clone().map(listed))
            }
            CreateStep::VetProject(step) => {
                let query = step.query();
                calls.push(format!("vet {} {}", query.name, query.target));
                let auto_build = !world.unbuildable.contains(&query.name.as_str());
                step.resume(Ok(Project { auto_build }))
            }
            CreateStep::VetRdeps(step) => {
                let query = step.query();
                assert_eq!(query.target, "x86_64-linux");
                calls.push(format!("vet rdeps {}", query.name));
                step.resume(Some(listed(vec!["core/b"])))
            }
            CreateStep::GetQueued(step) => {
                let query = step.query();
                calls.push(format!("queued {} {}", query.project_name, query.target));
                let none = Err(LookupError::Query(QueryError::NotFound));
                step.resume(queued.take().unwrap_or(none))
            }
            CreateStep::CreateJobGroup(step) => {
                assert_eq!(step.msg().requester_id, 31);
                assert_eq!(step.msg().details, vec![5, 1]);
                let projects: Vec<String> =
                    step.projects().iter().map(|p| format!("{}={}", p.0, p.1)).collect();
                calls.push(format!("create {}", projects.join(",")));
                step.resume(created.take().unwrap().map(|_| group(90)))
            }
            CreateStep::NotifyScheduler(step) => {
                calls.push("notify".to_string());
                step.resume(notified.take().unwrap())
            }
            CreateStep::CreateAuditEntry(step) => {
                let entry = step.entry();
                assert_eq!(entry.operation, JobGroupOperation::JobGroupOpCreate);
                assert_eq!(entry.trigger, JobGroupTrigger::Upload);
                assert_eq!((entry.requester_id, entry.requester_name.as_str()), (31, "mia"));
                calls.push(format!("audit {}", entry.group_id));
                step.resume(audited.take().unwrap())
            }
            CreateStep::Done(reply) => return (calls, reply),
        };
    }
}

#[test]
fn group_is_created_for_the_package_and_its_dependents() {
    let (calls, reply) = run(spec(), world());
    assert_eq!(reply.unwrap().id, 90);
    assert_eq!(
        calls,
        vec![
            "project core/glibc x86_64-linux",
            "rdeps core/glibc",
            "vet core/a x86_64-linux",
            "vet core/b x86_64-linux",
            "queued core/glibc x86_64-linux",
            "create core/glibc=core/glibc/2/3,core/a=core/a/1/2,core/b=core/b/1/2",
            "notify",
            "audit 90"
        ]
    );
}

#[test]
fn malformed_target_is_refused() {
    let (calls, reply) = run(spec(), World { target: None, ..world() });
    assert!(matches!(reply, Err(Error::NotFound)));
    assert!(calls.is_empty());
}

#[test]
fn unsupported_target_is_refused() {
    let (calls, reply) = run(spec(), World { target: Some("x86_64-darwin"), ..world() });
    assert!(matches!(reply, Err(Error::NotFound)));
    assert!(calls.is_empty());
}

#[test]
fn target_without_graph_is_refused() {
    let (calls, reply) = run(spec(), World { graph: false, ..world() });
    assert!(matches!(reply, Err(Error::NotFound)));
    assert!(calls.is_empty());
}

#[test]
fn unbuildable_project_is_refused() {
    let (calls, reply) = run(spec(), World { unbuildable: vec!["core/glibc"], ..world() });
    assert!(matches!(reply, Err(Error::NotFound)));
    assert_eq!(calls, vec!["project core/glibc x86_64-linux"]);
}

#[test]
fn unbuildable_project_may_be_asked_for_by_hand() {
    for trigger in [JobGroupTrigger::HabClient, JobGroupTrigger::BuilderUI] {
        let msg = JobGroupSpec { trigger, package_only: true, ..spec() };
        let mut step = job_group_create_old(msg, target("x86_64-linux"), false);
        loop {
            step = match step {
                CreateStep::ResolveProject(step) => step.resume(Resolution::Unresolved),
                CreateStep::GetProject(step) => step.resume(Ok(Project { auto_build: false })),
                CreateStep::GetQueued(_) => break,
                _ => panic!("the request is not refused"),
            };
        }
    }
    for trigger in [JobGroupTrigger::Unknown, JobGroupTrigger::Webhook] {
        let msg = JobGroupSpec { trigger, ..spec() };
        let (_, reply) = run(msg, World { unbuildable: vec!["core/glibc"], ..world() });
        assert!(matches!(reply, Err(Error::NotFound)));
    }
}

#[test]
fn package_that_was_never_uploaded_has_no_ident() {
    let msg = JobGroupSpec { package_only: true, ..spec() };
    let (calls, _) = run(msg, World { resolved: false, ..world() });
    assert_eq!(calls[2], "create core/glibc=");
}

#[test]
fn package_only_builds_the_package_alone() {
    let msg = JobGroupSpec { package_only: true, deps_only: true, ..spec() };
    let (calls, reply) = run(msg, world());
    assert!(reply.is_ok());
    assert_eq!(
        calls,
        vec![
            "project core/glibc x86_64-linux",
            "queued core/glibc x86_64-linux",
            "create core/glibc=core/glibc/2/3",
            "notify",
            "audit 90"
        ]
    );
}

#[test]
fn deps_only_leaves_the_package_out() {
    let msg = JobGroupSpec { deps_only: true, ..spec() };
    let (calls, _) = run(msg, world());
    assert!(calls.contains(&"create core/a=core/a/1/2,core/b=core/b/1/2".to_string()));
}

#[test]
fn dependents_of_unbuildable_projects_are_not_built() {
    let (calls, _) = run(spec(), World { unbuildable: vec!["core/a"], ..world() });
    assert_eq!(
        calls[2..5],
        ["vet core/a x86_64-linux", "vet rdeps core/a", "queued core/glibc x86_64-linux"]
    );
    assert_eq!(calls[5], "create core/glibc=core/glibc/2/3");
}

#[test]
fn nothing_to_build_completes_at_once() {
    for rdeps in [None, Some(vec![])] {
        let msg = JobGroupSpec { deps_only: true, ..spec() };
        let (calls, reply) = run(msg, World { rdeps, ..world() });
        let group = reply.unwrap();
        assert_eq!((group.id, group.state), (0, JobGroupState::GroupComplete));
        assert!(group.projects.is_empty());
        assert_eq!((group.target.as_str(), group.details.len()), ("x86_64-linux", 0));
        assert_eq!(calls, vec!["project core/glibc x86_64-linux", "rdeps core/glibc"]);
    }
}

#[test]
fn queued_group_is_taken() {
    let queued = Some(Ok(Group { id: 8, job_group: group(8) }));
    let (calls, reply) = run(spec(), World { queued, ..world() });
    assert_eq!(reply.unwrap().id, 8);
    assert_eq!(calls[4..], ["queued core/glibc x86_64-linux", "notify", "audit 8"]);
}

#[test]
fn queue_lookup_failure_is_reported() {
    let failed = QueryError::Failed(diesel::result::Error::RollbackTransaction);
    let queued = Some(Err(LookupError::Query(failed)));
    let (calls, reply) = run(spec(), World { queued, ..world() });
    assert!(matches!(
        reply,
        Err(Error::DieselError(diesel::result::Error::RollbackTransaction))
    ));
    assert_eq!(calls.last().unwrap(), "queued core/glibc x86_64-linux");
}

#[test]
fn queue_lookup_needs_a_connection() {
    let queued = Some(Err(LookupError::Connection("pool".to_string())));
    let (_, reply) = run(spec(), World { queued, ..world() });
    match reply {
        Err(Error::Db(err)) => assert_eq!(err, "pool"),
        _ => panic!("no connection, no answer"),
    }
}

#[test]
fn creation_failure_is_reported() {
    let (calls, reply) = run(spec(), World { created: Err(Error::System), ..world() });
    assert!(matches!(reply, Err(Error::System)));
    assert!(!calls.contains(&"notify".to_string()));
}

#[test]
fn notification_failure_is_reported() {
    let (calls, reply) = run(spec(), World { notified: Err(Error::System), ..world() });
    assert!(matches!(reply, Err(Error::System)));
    assert_eq!(calls.last().unwrap(), "notify");
}

#[test]
fn audit_failure_is_no_hindrance() {
    let (_, reply) = run(spec(), World { audited: Err(Error::System), ..world() });
    assert_eq!(reply.unwrap().id, 90);
}

fn changes(calls: &[String]) -> Vec<&str> {
    calls
        .iter()
        .map(|call| call.as_str())
        .filter(|call| {
            call.starts_with("create") || call.starts_with("notify") || call.starts_with("audit")
        })
        .collect()
}

#[test]
fn creation_changes_each_thing_once_and_in_order() {
    let msg = JobGroupSpec { package_only: true, ..spec() };
    let (calls, _) = run(msg, world());
    assert_eq!(changes(&calls), ["create core/glibc=core/glibc/2/3", "notify", "audit 90"]);
    let queued = Some(Ok(Group { id: 8, job_group: group(8) }));
    let (calls, _) = run(spec(), World { queued, ..world() });
    assert_eq!(changes(&calls), ["notify", "audit 8"]);
    let (calls, _) = run(spec(), World { unbuildable: vec!["core/glibc"], ..world() });
    assert!(changes(&calls).is_empty());
}

#[test]
fn legacy_projects_are_looked_up_for_linux() {
    let msg = JobGroupSpec { target: "x86_64-windows".to_string(), ..spec() };
    let step = job_group_create_old(msg, target("x86_64-windows"), true);
    let step = match step {
        CreateStep::ResolveProject(step) => step.resume(Resolution::Unresolved),
        _ => panic!("the graph comes first"),
    };
    let step = match step {
        CreateStep::GetProject(step) => {
            assert_eq!(step.query().target, "x86_64-linux");
            step.resume(Ok(Project { auto_build: true }))
        }
        _ => panic!("the project is looked up"),
    };
    let step = match step {
        CreateStep::GetRdeps(step) => {
            assert_eq!(step.query().target, "x86_64-windows");
            step.resume(Some(listed(vec!["core/a"])))
        }
        _ => panic!("the dependents are looked up"),
    };
    match step {
        CreateStep::VetProject(step) => assert_eq!(step.query().target, "x86_64-linux"),
        _ => panic!("the dependents are vetted"),
    };
}
