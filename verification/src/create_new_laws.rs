//! What holds of requests that are answered with a build manifest in mind, stated on the calls
//! that answer them, on what the outside replies, and on what comes out.

use diesel::result::Error as DieselFailure;
use vstd::prelude::*;

use crate::create_new::{
    insert_job_graph_entries, job_group_create_new, BuildQuery, NewAuditEntry, NewComputeBuild,
    NewConnect, NewCreateGroup, NewGetProject, NewStep, NewStepView,
};
use crate::create::project_name;
use crate::creation_laws::{package_name, same_group};
use crate::error::{Error, LookupError};
use crate::messages::{
    Group, JobGroup, JobGroupAudit, JobGroupOperation, JobGroupSpec, JobGroupTrigger, NewGroup,
    PackageBuildManifest, PackageTarget, Project,
};
use crate::projects::ProjectQuery;

verus! {

/// The entries of a manifest are accepted, whatever it holds.
pub proof fn manifest_entries_are_accepted(
    manifest: PackageBuildManifest,
    stored: Result<(), Error>,
)
    requires
        call_ensures(insert_job_graph_entries, (&manifest,), stored),
    ensures
        stored is Ok,
{
}

/// What the outside has to say to a request: the project row of a name and a target; whether
/// there is a database connection; the row of a job group that is inserted with a state, a
/// project and a target; the manifest of a package and a target; and whether an audit entry is
/// stored.
pub struct NewWorld {
    pub project: spec_fn(Seq<char>, Seq<char>) -> Result<Project, LookupError>,
    pub connected: Result<(), String>,
    pub insert: spec_fn(Seq<char>, Seq<char>, Seq<char>) -> Result<Group, DieselFailure>,
    pub build: spec_fn(Seq<char>, Seq<char>) -> Result<PackageBuildManifest, Error>,
    pub audited: spec_fn(JobGroupAudit) -> Result<(), Error>,
}

/// The step comes of the one before it, which was resumed with what the outside has to say to
/// what it asked.
pub open spec fn new_follows(step: NewStep, next: NewStep, world: NewWorld) -> bool {
    match step {
        NewStep::GetProject(waiting) => exists|query: ProjectQuery|
            {
                &&& #[trigger] call_ensures(NewGetProject::query, (&waiting,), query)
                &&& call_ensures(
                    NewGetProject::resume,
                    (waiting, (world.project)(query.name@, query.target@)),
                    next,
                )
            },
        NewStep::Connect(waiting) => call_ensures(
            NewConnect::resume,
            (waiting, world.connected),
            next,
        ),
        NewStep::CreateGroup(waiting) => exists|row: NewGroup|
            {
                &&& #[trigger] call_ensures(NewCreateGroup::new_group, (&waiting,), row)
                &&& call_ensures(
                    NewCreateGroup::resume,
                    (waiting, (world.insert)(row.group_state@, row.project_name@, row.target@)),
                    next,
                )
            },
        NewStep::ComputeBuild(waiting) => exists|query: BuildQuery|
            {
                &&& #[trigger] call_ensures(NewComputeBuild::query, (&waiting,), query)
                &&& call_ensures(
                    NewComputeBuild::resume,
                    (waiting, (world.build)(query.package@, query.target@)),
                    next,
                )
            },
        NewStep::CreateAuditEntry(waiting) => exists|entry: JobGroupAudit|
            {
                &&& #[trigger] call_ensures(NewAuditEntry::entry, (&waiting,), entry)
                &&& call_ensures(NewAuditEntry::resume, (waiting, (world.audited)(entry)), next)
            },
        NewStep::Done(_) => false,
    }
}

/// The request is served by the given steps, one after the other.
pub open spec fn new_served(
    msg: JobGroupSpec,
    target: PackageTarget,
    legacy_project: bool,
    world: NewWorld,
    steps: Seq<NewStep>,
) -> bool {
    &&& 0 < steps.len()
    &&& call_ensures(job_group_create_new, (msg, target, legacy_project), steps[0])
    &&& 1 < steps.len() ==> new_follows(steps[0], steps[1], world)
    &&& 2 < steps.len() ==> new_follows(steps[1], steps[2], world)
    &&& 3 < steps.len() ==> new_follows(steps[2], steps[3], world)
    &&& 4 < steps.len() ==> new_follows(steps[3], steps[4], world)
    &&& 5 < steps.len() ==> new_follows(steps[4], steps[5], world)
    &&& 6 < steps.len() ==> new_follows(steps[5], steps[6], world)
}

/// The project is found and marked for automatic builds.
pub open spec fn may_build(
    msg: JobGroupSpec,
    target: PackageTarget,
    legacy_project: bool,
    world: NewWorld,
) -> bool {
    let looked_up = if legacy_project {
        "x86_64-linux"@
    } else {
        target.name@
    };
    match (world.project)(package_name(msg), looked_up) {
        Ok(project) => project.auto_build,
        Err(_) => false,
    }
}

/// A request takes five replies at most: the project, a connection, the insertion, the manifest
/// unless only the package is wanted, and the audit entry, in this order.
pub proof fn steps_come_in_this_order(
    msg: JobGroupSpec,
    target: PackageTarget,
    legacy_project: bool,
    world: NewWorld,
    steps: Seq<NewStep>,
)
    requires
        new_served(msg, target, legacy_project, world, steps),
    ensures
        steps.len() <= 6,
        steps[0] is GetProject,
        1 < steps.len() ==> steps[1] is Connect || steps[1] is Done,
        2 < steps.len() ==> steps[2] is CreateGroup || steps[2] is Done,
        3 < steps.len() ==> steps[3] is ComputeBuild || steps[3] is CreateAuditEntry || steps[3] is Done,
        3 < steps.len() && steps[3] is ComputeBuild ==> !msg.package_only,
        3 < steps.len() && steps[3] is CreateAuditEntry ==> msg.package_only,
        4 < steps.len() ==> steps[4] is CreateAuditEntry || steps[4] is Done,
        steps.len() == 6 ==> steps[5] is Done,
{
}

/// A project that may not be built has to be asked for by hand. Without a connection nothing is
/// inserted. Else a queued job group is inserted for the package and the target, a manifest is
/// computed unless only the package is wanted, and the request is answered with the group;
/// whatever fails on the way is what it is answered.
pub proof fn new_request_is_answered(
    msg: JobGroupSpec,
    target: PackageTarget,
    legacy_project: bool,
    world: NewWorld,
    steps: Seq<NewStep>,
    reply: Result<JobGroup, Error>,
)
    requires
        new_served(msg, target, legacy_project, world, steps),
        steps.last() == NewStep::Done(reply),
    ensures
        if !may_build(msg, target, legacy_project, world) && msg.trigger !is HabClient
            && msg.trigger !is BuilderUI {
            reply == Err::<JobGroup, Error>(Error::NotFound) && steps.len() == 2
        } else {
            match world.connected {
                Err(err) => reply == Err::<JobGroup, Error>(Error::Db(err)) && steps.len() == 3,
                Ok(_) => match (world.insert)("Queued"@, package_name(msg), target.name@) {
                    Err(err) => reply == Err::<JobGroup, Error>(Error::DieselError(err)),
                    Ok(row) => match (world.build)(package_name(msg), target.name@) {
                        Err(err) if !msg.package_only => reply == Err::<JobGroup, Error>(err),
                        _ => reply is Ok && same_group(reply->Ok_0, row.job_group),
                    },
                },
            }
        },
{
    assert(project_name(msg) =~= package_name(msg));
    steps_come_in_this_order(msg, target, legacy_project, world, steps);
}

/// The audit entry records the creation of the group that was inserted, and who asked for it.
pub proof fn insertion_is_recorded(
    msg: JobGroupSpec,
    target: PackageTarget,
    legacy_project: bool,
    world: NewWorld,
    steps: Seq<NewStep>,
    waiting: NewAuditEntry,
    entry: JobGroupAudit,
)
    requires
        new_served(msg, target, legacy_project, world, steps),
        steps.last() == NewStep::CreateAuditEntry(waiting),
        call_ensures(NewAuditEntry::entry, (&waiting,), entry),
    ensures
        (world.insert)("Queued"@, package_name(msg), target.name@) matches Ok(row) && entry.group_id
            == row.id as u64,
        entry.operation is JobGroupOpCreate,
        entry.trigger == msg.trigger,
        entry.requester_id == msg.requester_id,
        entry.requester_name@ == msg.requester_name@,
{
    assert(project_name(msg) =~= package_name(msg));
    steps_come_in_this_order(msg, target, legacy_project, world, steps);
}

} // verus!
