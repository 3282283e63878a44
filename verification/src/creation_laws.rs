//! What holds of requests to create a job group, stated on the calls that answer them, on what
//! the outside replies, and on what comes out.

use vstd::prelude::*;

use crate::audit::add_job_group_audit_entry;
use crate::create::{
    job_group_create, project_name, CreateAuditEntry, CreateJobGroup, CreateStep, CreateStepView,
    GetProject, GetQueued, GetRdeps, NotifyScheduler, OrderView, ParseTarget, QueuedQuery, Resolution,
    ResolveProject, VetOrderProject, VetOrderRdeps,
};
use crate::create_laws::{
    candidates, create_answer, create_run, create_turn, create_turns, creation_changes_what_is_called_for,
    creation_is_answered, ordered_projects, CreateReplies,
};
use crate::error::{Error, LookupError, QueryError};
use crate::messages::{
    Group, JobGroup, JobGroupAudit, JobGroupOperation, JobGroupSpec, JobGroupState, JobGroupTrigger,
    JobGroupView, PackageTarget, Project,
};
use crate::projects::{
    buildable, listed, lookup_target, vet_turn, vetting_start, GraphQuery, Listed, ProjectQuery,
    Verdict, VetStepView, VettingView,
};
use crate::repeated::projects;
use crate::selection_laws::{
    goes_in, is_of_origin, is_placed, is_placed_step, is_ruling, picked, picked_holds,
    selection_is_what_goes_in, verdicts_of, vet_turn_stays_placed, vetting_starts_placed, VetWorld,
};

verus! {

/// An audit entry records what was done, to which job group, and who asked for it.
pub proof fn creation_is_recorded(group_id: u64, msg: JobGroupSpec, entry: JobGroupAudit)
    requires
        call_ensures(add_job_group_audit_entry, (group_id, &msg), entry),
    ensures
        entry.group_id == group_id,
        entry.operation is JobGroupOpCreate,
        entry.trigger == msg.trigger,
        entry.requester_id == msg.requester_id,
        entry.requester_name@ == msg.requester_name@,
{
}

/// What the outside has to say to a request: how a target is parsed and what is built for; what
/// the graph of a target knows of a project; project rows and reverse dependencies; the queued
/// job group of a project and a target; the job group that is created for a request and its
/// projects; and whether the scheduler is notified and the audit entry is stored.
pub struct CreateWorld<'a> {
    pub parse: spec_fn(Seq<char>) -> Option<PackageTarget>,
    pub build_targets: &'a [PackageTarget],
    pub resolve: spec_fn(Seq<char>, Seq<char>) -> Resolution,
    pub vet: VetWorld,
    pub queued: spec_fn(Seq<char>, Seq<char>) -> Result<Group, LookupError>,
    pub create: spec_fn(JobGroupSpec, Seq<Listed>) -> Result<JobGroup, Error>,
    pub notified: Result<(), Error>,
    pub audited: spec_fn(JobGroupAudit) -> Result<(), Error>,
}

/// The step comes of the one before it, which was resumed with what the outside has to say to
/// what it asked.
pub open spec fn create_follows(step: CreateStep, next: CreateStep, world: CreateWorld<'_>) -> bool {
    match step {
        CreateStep::ParseTarget(waiting) => exists|text: String|
            {
                &&& #[trigger] call_ensures(ParseTarget::target, (&waiting,), &text)
                &&& call_ensures(
                    ParseTarget::resume,
                    (waiting, (world.parse)(text@), world.build_targets),
                    next,
                )
            },
        CreateStep::ResolveProject(waiting) => exists|query: GraphQuery|
            {
                &&& #[trigger] call_ensures(ResolveProject::query, (&waiting,), query)
                &&& call_ensures(
                    ResolveProject::resume,
                    (waiting, (world.resolve)(query.name@, query.target@)),
                    next,
                )
            },
        CreateStep::GetProject(waiting) => exists|query: ProjectQuery|
            {
                &&& #[trigger] call_ensures(GetProject::query, (&waiting,), query)
                &&& call_ensures(
                    GetProject::resume,
                    (waiting, (world.vet.project)(query.name@, query.target@)),
                    next,
                )
            },
        CreateStep::GetRdeps(waiting) => exists|query: GraphQuery|
            {
                &&& #[trigger] call_ensures(GetRdeps::query, (&waiting,), query)
                &&& call_ensures(
                    GetRdeps::resume,
                    (waiting, (world.vet.rdeps)(query.name@, query.target@)),
                    next,
                )
            },
        CreateStep::VetProject(waiting) => exists|query: ProjectQuery|
            {
                &&& #[trigger] call_ensures(VetOrderProject::query, (&waiting,), query)
                &&& call_ensures(
                    VetOrderProject::resume,
                    (waiting, (world.vet.project)(query.name@, query.target@)),
                    next,
                )
            },
        CreateStep::VetRdeps(waiting) => exists|query: GraphQuery|
            {
                &&& #[trigger] call_ensures(VetOrderRdeps::query, (&waiting,), query)
                &&& call_ensures(
                    VetOrderRdeps::resume,
                    (waiting, (world.vet.rdeps)(query.name@, query.target@)),
                    next,
                )
            },
        CreateStep::GetQueued(waiting) => exists|query: QueuedQuery|
            {
                &&& #[trigger] call_ensures(GetQueued::query, (&waiting,), query)
                &&& call_ensures(
                    GetQueued::resume,
                    (waiting, (world.queued)(query.project_name@, query.target@)),
                    next,
                )
            },
        CreateStep::CreateJobGroup(waiting) => exists|msg: JobGroupSpec, ordered: Vec<(String, String)>|
            {
                &&& #[trigger] call_ensures(CreateJobGroup::msg, (&waiting,), &msg)
                &&& #[trigger] call_ensures(CreateJobGroup::projects, (&waiting,), &ordered)
                &&& call_ensures(
                    CreateJobGroup::resume,
                    (waiting, (world.create)(msg, ordered.deep_view())),
                    next,
                )
            },
        CreateStep::NotifyScheduler(waiting) => call_ensures(
            NotifyScheduler::resume,
            (waiting, world.notified),
            next,
        ),
        CreateStep::CreateAuditEntry(waiting) => exists|entry: JobGroupAudit|
            {
                &&& #[trigger] call_ensures(CreateAuditEntry::entry, (&waiting,), entry)
                &&& call_ensures(
                    CreateAuditEntry::resume,
                    (waiting, (world.audited)(entry)),
                    next,
                )
            },
        CreateStep::Done(_) => false,
    }
}

/// The step behind the one at `at` follows it.
pub open spec fn create_follows_at(steps: Seq<CreateStep>, at: int, world: CreateWorld<'_>) -> bool {
    create_follows(steps[at], steps[at + 1], world)
}

/// The request is served by the given steps, one after the other.
pub open spec fn create_served(
    msg: JobGroupSpec,
    legacy_project: bool,
    world: CreateWorld<'_>,
    steps: Seq<CreateStep>,
) -> bool {
    &&& 0 < steps.len()
    &&& call_ensures(job_group_create, (msg, legacy_project), steps[0])
    &&& forall|at: int| 0 <= at < steps.len() - 1 ==> #[trigger] create_follows_at(steps, at, world)
}

/// The short name of the wanted package.
pub open spec fn package_name(msg: JobGroupSpec) -> Seq<char> {
    msg.origin@ + seq!['/'] + msg.package@
}

/// The ident under which the wanted package is built, which is empty if the graph has none.
pub open spec fn package_ident(msg: JobGroupSpec, world: CreateWorld<'_>) -> Seq<char> {
    match (world.resolve)(package_name(msg), msg.target@) {
        Resolution::Resolved(ident) => ident@,
        _ => Seq::empty(),
    }
}

/// The target of the request is one that is built for.
pub open spec fn target_is_built_for(msg: JobGroupSpec, world: CreateWorld<'_>) -> bool {
    match (world.parse)(msg.target@) {
        Some(target) => exists|i: int|
            0 <= i < world.build_targets.len() && (#[trigger] world.build_targets[i]).name@
                == target.name@,
        None => false,
    }
}

/// The wanted package may be built without being asked for by hand.
pub open spec fn package_auto_builds(
    msg: JobGroupSpec,
    legacy_project: bool,
    world: CreateWorld<'_>,
) -> bool {
    let target = if legacy_project {
        "x86_64-linux"@
    } else {
        (world.parse)(msg.target@)->0.name@
    };
    match (world.vet.project)(package_name(msg), target) {
        Ok(project) => project.auto_build,
        Err(_) => false,
    }
}

/// The request is not refused.
pub open spec fn is_accepted(
    msg: JobGroupSpec,
    legacy_project: bool,
    world: CreateWorld<'_>,
) -> bool {
    &&& target_is_built_for(msg, world)
    &&& (world.resolve)(package_name(msg), msg.target@) !is NoGraph
    &&& package_auto_builds(msg, legacy_project, world) || msg.trigger is HabClient
        || msg.trigger is BuilderUI
}

/// What depends on the package and goes in with it.
pub open spec fn dependents_going_in(
    msg: JobGroupSpec,
    legacy_project: bool,
    world: CreateWorld<'_>,
    ruled: Seq<bool>,
) -> Seq<Listed> {
    match (world.vet.rdeps)(package_name(msg), msg.target@) {
        Some(rdeps) => picked(
            rdeps@,
            |i: int| goes_in(msg, legacy_project, rdeps@, world.vet, ruled, i),
            rdeps.len() as int,
        ),
        None => Seq::empty(),
    }
}

/// `ordered` is what the request wants built: just the package, just what depends on it, or both
/// with the package first.
pub open spec fn is_order(
    msg: JobGroupSpec,
    legacy_project: bool,
    world: CreateWorld<'_>,
    ordered: Seq<Listed>,
    ruled: Seq<bool>,
) -> bool {
    let package = seq![(package_name(msg), package_ident(msg, world))];
    let rest = dependents_going_in(msg, legacy_project, world, ruled);
    &&& (world.vet.rdeps)(package_name(msg), msg.target@) matches Some(rdeps) ==> is_ruling(
        msg,
        legacy_project,
        rdeps@,
        world.vet,
        ruled,
    )
    &&& msg.package_only ==> ordered == package
    &&& !msg.package_only && !msg.deps_only ==> ordered == package + rest
    &&& !msg.package_only && msg.deps_only ==> ordered == rest
}

/// The two job groups tell the same.
pub open spec fn same_group(a: JobGroup, b: JobGroup) -> bool {
    &&& a.id == b.id
    &&& a.state == b.state
    &&& projects(a.projects) == projects(b.projects)
    &&& a.target@ == b.target@
    &&& a.details@ == b.details@
}

spec fn replies_before(
    msg: JobGroupSpec,
    legacy_project: bool,
    world: CreateWorld<'_>,
) -> CreateReplies {
    let name = project_name(msg);
    let target = (world.parse)(msg.target@);
    let rdeps = listed((world.vet.rdeps)(name, msg.target@));
    CreateReplies {
        target,
        build_targets: world.build_targets@,
        resolution: (world.resolve)(name, msg.target@),
        project: (world.vet.project)(name, lookup_target(target->0.name@, legacy_project)),
        rdeps,
        verdicts: match rdeps {
            Some(rdeps) => verdicts_of(msg, legacy_project, rdeps, world.vet),
            None => Seq::empty(),
        },
        queued: (world.queued)(name, msg.target@),
        created: Err(Error::System),
        notified: world.notified,
    }
}

spec fn replies_of(
    msg: JobGroupSpec,
    legacy_project: bool,
    world: CreateWorld<'_>,
) -> CreateReplies {
    let before = replies_before(msg, legacy_project, world);
    let ordered = ordered_projects(msg, legacy_project, before);
    CreateReplies { created: (world.create)(msg, ordered), ..before }
}

spec fn is_ours(
    order: OrderView,
    msg: JobGroupSpec,
    legacy_project: bool,
    world: CreateWorld<'_>,
) -> bool {
    order == (OrderView {
        msg,
        legacy_project,
        target: (world.parse)(msg.target@)->0.name@,
    })
}

spec fn is_our_vetting(
    step: VetStepView,
    msg: JobGroupSpec,
    legacy_project: bool,
    world: CreateWorld<'_>,
) -> bool {
    let rdeps = listed((world.vet.rdeps)(project_name(msg), msg.target@));
    &&& rdeps is Some
    &&& exists|root: Seq<Listed>| #[trigger]
        is_placed_step(step, vetting_start(msg, legacy_project, rdeps->0, root))
}

spec fn on_track(
    step: CreateStepView,
    msg: JobGroupSpec,
    legacy_project: bool,
    world: CreateWorld<'_>,
) -> bool {
    match step {
        CreateStepView::ParseTarget(m, l) => m == msg && l == legacy_project,
        CreateStepView::ResolveProject(order) => is_ours(order, msg, legacy_project, world),
        CreateStepView::GetProject(order, _) => is_ours(order, msg, legacy_project, world),
        CreateStepView::GetRdeps(order, _) => is_ours(order, msg, legacy_project, world),
        CreateStepView::VetProject(order, vetting) => {
            &&& is_ours(order, msg, legacy_project, world)
            &&& is_our_vetting(VetStepView::GetProject(vetting), msg, legacy_project, world)
        },
        CreateStepView::VetRdeps(order, vetting) => {
            &&& is_ours(order, msg, legacy_project, world)
            &&& is_our_vetting(VetStepView::GetRdeps(vetting), msg, legacy_project, world)
        },
        CreateStepView::GetQueued(order, _) => is_ours(order, msg, legacy_project, world),
        CreateStepView::CreateJobGroup(order, _) => is_ours(order, msg, legacy_project, world),
        CreateStepView::NotifyScheduler(order, _) => is_ours(order, msg, legacy_project, world),
        CreateStepView::CreateAuditEntry(order, _) => is_ours(order, msg, legacy_project, world),
        CreateStepView::Done(_) => true,
    }
}

proof fn create_turn_stays_on_track(
    step: CreateStepView,
    msg: JobGroupSpec,
    legacy_project: bool,
    world: CreateWorld<'_>,
)
    requires
        on_track(step, msg, legacy_project, world),
    ensures
        on_track(
            create_turn(step, replies_of(msg, legacy_project, world)),
            msg,
            legacy_project,
            world,
        ),
{
    let replies = replies_of(msg, legacy_project, world);
    match step {
        CreateStepView::GetRdeps(_, root) => {
            if let Some(rdeps) = replies.rdeps {
                let start = vetting_start(msg, legacy_project, rdeps, root);
                vetting_starts_placed(start);
                assert(is_placed_step(start.scan(), start));
            }
        },
        CreateStepView::VetProject(_, vetting) => {
            vetting_stays_ours(VetStepView::GetProject(vetting), msg, legacy_project, world);
        },
        CreateStepView::VetRdeps(_, vetting) => {
            vetting_stays_ours(VetStepView::GetRdeps(vetting), msg, legacy_project, world);
        },
        _ => {},
    }
}

proof fn vetting_stays_ours(
    step: VetStepView,
    msg: JobGroupSpec,
    legacy_project: bool,
    world: CreateWorld<'_>,
)
    requires
        is_our_vetting(step, msg, legacy_project, world),
    ensures
        is_our_vetting(
            vet_turn(step, replies_of(msg, legacy_project, world).verdicts),
            msg,
            legacy_project,
            world,
        ),
{
    let verdicts = replies_of(msg, legacy_project, world).verdicts;
    let rdeps = listed((world.vet.rdeps)(project_name(msg), msg.target@))->0;
    let root = choose|root: Seq<Listed>| #[trigger]
        is_placed_step(step, vetting_start(msg, legacy_project, rdeps, root));
    let start = vetting_start(msg, legacy_project, rdeps, root);
    vet_turn_stays_placed(step, start, verdicts);
    assert(is_placed_step(vet_turn(step, verdicts), start));
}

proof fn create_run_extends(step: CreateStepView, replies: CreateReplies, turns: nat)
    ensures
        create_run(step, replies, turns + 1) == create_turn(
            create_run(step, replies, turns),
            replies,
        ),
    decreases turns,
{
    reveal_with_fuel(create_run, 2);
    if turns > 0 {
        create_run_extends(create_turn(step, replies), replies, (turns - 1) as nat);
    }
}

proof fn create_run_joins(step: CreateStepView, replies: CreateReplies, first: nat, more: nat)
    ensures
        create_run(step, replies, first + more) == create_run(
            create_run(step, replies, first),
            replies,
            more,
        ),
    decreases first,
{
    if first > 0 {
        create_run_joins(create_turn(step, replies), replies, (first - 1) as nat, more);
    }
}

proof fn create_run_rests(answer: Result<JobGroupView, Error>, replies: CreateReplies, turns: nat)
    ensures
        create_run(CreateStepView::Done(answer), replies, turns) == CreateStepView::Done(answer),
    decreases turns,
{
    if turns > 0 {
        create_run_rests(answer, replies, (turns - 1) as nat);
    }
}

/// One call: the step comes of a turn of the one before it.
proof fn follows_turns(
    step: CreateStep,
    next: CreateStep,
    msg: JobGroupSpec,
    legacy_project: bool,
    world: CreateWorld<'_>,
)
    requires
        create_follows(step, next, world),
        on_track(step@, msg, legacy_project, world),
        step@ matches CreateStepView::CreateJobGroup(_, ordered) ==> ordered == ordered_projects(
            msg,
            legacy_project,
            replies_before(msg, legacy_project, world),
        ),
    ensures
        next@ == create_turn(step@, replies_of(msg, legacy_project, world)),
{
    let replies = replies_of(msg, legacy_project, world);
    match step {
        CreateStep::VetProject(waiting) => {
            let query = choose|query: ProjectQuery|
                {
                    &&& #[trigger] call_ensures(VetOrderProject::query, (&waiting,), query)
                    &&& call_ensures(
                        VetOrderProject::resume,
                        (waiting, (world.vet.project)(query.name@, query.target@)),
                        next,
                    )
                };
            assert(replies.verdicts[waiting@.1.index].buildable == buildable(
                (world.vet.project)(query.name@, query.target@),
            ));
        },
        CreateStep::VetRdeps(waiting) => {
            let query = choose|query: GraphQuery|
                {
                    &&& #[trigger] call_ensures(VetOrderRdeps::query, (&waiting,), query)
                    &&& call_ensures(
                        VetOrderRdeps::resume,
                        (waiting, (world.vet.rdeps)(query.name@, query.target@)),
                        next,
                    )
                };
            assert(replies.verdicts[waiting@.1.index].rdeps == listed(
                (world.vet.rdeps)(query.name@, query.target@),
            ));
        },
        _ => {},
    }
}

proof fn ordered_either_way(msg: JobGroupSpec, legacy_project: bool, world: CreateWorld<'_>)
    ensures
        ordered_projects(msg, legacy_project, replies_of(msg, legacy_project, world))
            == ordered_projects(msg, legacy_project, replies_before(msg, legacy_project, world)),
{
}

proof fn steps_run(
    msg: JobGroupSpec,
    legacy_project: bool,
    world: CreateWorld<'_>,
    steps: Seq<CreateStep>,
    at: int,
)
    requires
        create_served(msg, legacy_project, world, steps),
        0 <= at < steps.len(),
    ensures
        steps[at]@ == create_run(
            CreateStepView::ParseTarget(msg, legacy_project),
            replies_of(msg, legacy_project, world),
            at as nat,
        ),
        on_track(steps[at]@, msg, legacy_project, world),
    decreases at,
{
    let start = CreateStepView::ParseTarget(msg, legacy_project);
    let replies = replies_of(msg, legacy_project, world);
    if at > 0 {
        steps_run(msg, legacy_project, world, steps, at - 1);
        create_run_extends(start, replies, (at - 1) as nat);
        creation_changes_what_is_called_for(msg, legacy_project, replies, (at - 1) as nat);
        ordered_either_way(msg, legacy_project, world);
        create_turn_stays_on_track(steps[at - 1]@, msg, legacy_project, world);
        assert(create_follows_at(steps, at - 1, world));
        follows_turns(steps[at - 1], steps[at], msg, legacy_project, world);
    }
}

proof fn ordered_is_order(
    msg: JobGroupSpec,
    legacy_project: bool,
    world: CreateWorld<'_>,
) -> (ruled: Seq<bool>)
    ensures
        is_order(
            msg,
            legacy_project,
            world,
            ordered_projects(msg, legacy_project, replies_of(msg, legacy_project, world)),
            ruled,
        ),
{
    let replies = replies_of(msg, legacy_project, world);
    let ordered = ordered_projects(msg, legacy_project, replies);
    let name = project_name(msg);
    assert(name =~= package_name(msg));
    let package = seq![(package_name(msg), package_ident(msg, world))];
    match (world.vet.rdeps)(package_name(msg), msg.target@) {
        Some(rdeps) => {
            let root = if !msg.deps_only || msg.package_only {
                package
            } else {
                Seq::empty()
            };
            let ruled = selection_is_what_goes_in(msg, legacy_project, rdeps, root, world.vet);
            let rest = dependents_going_in(msg, legacy_project, world, ruled);
            assert(rdeps.deep_view().len() == rdeps.len());
            if !msg.package_only {
                assert(ordered == root + rest);
                if msg.deps_only {
                    assert(root + rest =~= rest);
                }
            }
            ruled
        },
        None => {
            let ruled = Seq::empty();
            assert(package + dependents_going_in(msg, legacy_project, world, ruled) =~= package);
            ruled
        },
    }
}

/// A job group is created only for a request that is not refused, if none is queued for its
/// package and target; and it is created with what the request wants built.
pub proof fn job_group_is_created_for_what_is_wanted(
    msg: JobGroupSpec,
    legacy_project: bool,
    world: CreateWorld<'_>,
    steps: Seq<CreateStep>,
    at: int,
    waiting: CreateJobGroup,
    ordered: Vec<(String, String)>,
) -> (ruled: Seq<bool>)
    requires
        create_served(msg, legacy_project, world, steps),
        0 <= at < steps.len(),
        steps[at] == CreateStep::CreateJobGroup(waiting),
        call_ensures(CreateJobGroup::projects, (&waiting,), &ordered),
    ensures
        is_accepted(msg, legacy_project, world),
        (world.queued)(package_name(msg), msg.target@) == Err::<Group, LookupError>(
            LookupError::Query(QueryError::NotFound),
        ),
        ordered.len() > 0,
        is_order(msg, legacy_project, world, ordered.deep_view(), ruled),
{
    let replies = replies_of(msg, legacy_project, world);
    steps_run(msg, legacy_project, world, steps, at);
    creation_changes_what_is_called_for(msg, legacy_project, replies, at as nat);
    accepted_is_accepted(msg, legacy_project, world);
    assert(project_name(msg) =~= package_name(msg));
    assert(ordered.deep_view().len() == ordered.len());
    ordered_is_order(msg, legacy_project, world)
}

proof fn accepted_is_accepted(msg: JobGroupSpec, legacy_project: bool, world: CreateWorld<'_>)
    ensures
        is_accepted(msg, legacy_project, world) <==> crate::create_laws::accepted(
            msg,
            replies_of(msg, legacy_project, world),
        ),
{
    assert(project_name(msg) =~= package_name(msg));
    let replies = replies_of(msg, legacy_project, world);
    if let Some(target) = replies.target {
        if target_is_built_for(msg, world) {
            let i = choose|i: int|
                0 <= i < world.build_targets.len() && (#[trigger] world.build_targets[i]).name@
                    == target.name@;
            assert(replies.build_targets[i].name@ == target.name@);
        }
        if crate::create::supported(replies.build_targets, target.name@) {
            let i = choose|i: int|
                0 <= i < replies.build_targets.len() && (#[trigger] replies.build_targets[i]).name@
                    == target.name@;
            assert(world.build_targets[i].name@ == target.name@);
        }
    }
}

/// A job group that is created for a request that does not want dependents only starts with the
/// wanted package, under the ident that the graph has for it; for one that wants the package only
/// it holds nothing else.
pub proof fn wanted_package_comes_first(
    msg: JobGroupSpec,
    legacy_project: bool,
    world: CreateWorld<'_>,
    steps: Seq<CreateStep>,
    at: int,
    waiting: CreateJobGroup,
    ordered: Vec<(String, String)>,
)
    requires
        create_served(msg, legacy_project, world, steps),
        0 <= at < steps.len(),
        steps[at] == CreateStep::CreateJobGroup(waiting),
        call_ensures(CreateJobGroup::projects, (&waiting,), &ordered),
        !msg.deps_only || msg.package_only,
    ensures
        ordered.len() > 0,
        ordered[0].0@ == msg.origin@ + seq!['/'] + msg.package@,
        match (world.resolve)(msg.origin@ + seq!['/'] + msg.package@, msg.target@) {
            Resolution::Resolved(ident) => ordered[0].1@ == ident@,
            _ => ordered[0].1@.len() == 0,
        },
        msg.package_only ==> ordered.len() == 1,
{
    let ruled = job_group_is_created_for_what_is_wanted(
        msg,
        legacy_project,
        world,
        steps,
        at,
        waiting,
        ordered,
    );
    assert(ordered.deep_view()[0] == (package_name(msg), package_ident(msg, world)));
    assert(ordered.deep_view().len() == ordered.len());
}

/// A job group is created for the request itself, whole as it came.
pub proof fn job_group_is_created_for_the_request(
    msg: JobGroupSpec,
    legacy_project: bool,
    world: CreateWorld<'_>,
    steps: Seq<CreateStep>,
    at: int,
    waiting: CreateJobGroup,
    request: JobGroupSpec,
)
    requires
        create_served(msg, legacy_project, world, steps),
        0 <= at < steps.len(),
        steps[at] == CreateStep::CreateJobGroup(waiting),
        call_ensures(CreateJobGroup::msg, (&waiting,), &request),
    ensures
        request == msg,
{
    steps_run(msg, legacy_project, world, steps, at);
}

/// A project that a job group is created with, other than the wanted package itself, is listed as
/// depending on it and may be built; and, if the request wants one origin only, whatever else it
/// wants, it has that origin before its first slash. If the request wants dependents only, none
/// of the projects stands for the package itself.
pub proof fn other_projects_are_wanted_dependents(
    msg: JobGroupSpec,
    legacy_project: bool,
    world: CreateWorld<'_>,
    steps: Seq<CreateStep>,
    at: int,
    waiting: CreateJobGroup,
    ordered: Vec<(String, String)>,
    n: int,
)
    requires
        create_served(msg, legacy_project, world, steps),
        0 <= at < steps.len(),
        steps[at] == CreateStep::CreateJobGroup(waiting),
        call_ensures(CreateJobGroup::projects, (&waiting,), &ordered),
        0 <= n < ordered.len(),
        n > 0 || (msg.deps_only && !msg.package_only),
    ensures
        msg.origin_only ==> is_of_origin(ordered[n].0@, msg.origin@),
        crate::selection_laws::auto_builds(msg, legacy_project, world.vet, ordered[n].0@),
        match (world.vet.rdeps)(msg.origin@ + seq!['/'] + msg.package@, msg.target@) {
            Some(rdeps) => exists|i: int|
                0 <= i < rdeps.len() && (#[trigger] rdeps[i]).0@ == ordered[n].0@ && rdeps[i].1@
                    == ordered[n].1@,
            None => false,
        },
{
    let ruled = job_group_is_created_for_what_is_wanted(
        msg,
        legacy_project,
        world,
        steps,
        at,
        waiting,
        ordered,
    );
    let rest = dependents_going_in(msg, legacy_project, world, ruled);
    let project = ordered.deep_view()[n];
    assert(ordered.deep_view().len() == ordered.len());
    assert(rest.contains(project)) by {
        if msg.deps_only {
            assert(rest[n] == project);
        } else {
            assert(rest[n - 1] == project);
        }
    }
    match (world.vet.rdeps)(package_name(msg), msg.target@) {
        Some(rdeps) => {
            let pick = |i: int| goes_in(msg, legacy_project, rdeps@, world.vet, ruled, i);
            assert(rest == picked(rdeps@, pick, rdeps.len() as int));
            picked_holds(rdeps@, pick, rdeps.len() as int, project);
            let i = choose|i: int|
                0 <= i < rdeps.len() && #[trigger] pick(i) && rdeps@[i].0@ == project.0
                    && rdeps@[i].1@ == project.1;
            assert(goes_in(msg, legacy_project, rdeps@, world.vet, ruled, i));
            assert(rdeps[i].0@ == ordered[n].0@);
        },
        None => {},
    }
}

/// A request that is refused is answered so; one that leaves nothing to build is answered with a
/// job group that is complete and empty; and any other with the job group that is queued or, if
/// none is, with the one that is created, once the scheduler was notified. Whatever fails on the
/// way is what it is answered.
pub proof fn creation_request_is_answered(
    msg: JobGroupSpec,
    legacy_project: bool,
    world: CreateWorld<'_>,
    steps: Seq<CreateStep>,
    reply: Result<JobGroup, Error>,
) -> (order: (Seq<Listed>, Seq<bool>))
    requires
        create_served(msg, legacy_project, world, steps),
        steps.last() == CreateStep::Done(reply),
    ensures
        is_order(msg, legacy_project, world, order.0, order.1),
        !is_accepted(msg, legacy_project, world) ==> reply == Err::<JobGroup, Error>(Error::NotFound),
        is_accepted(msg, legacy_project, world) && order.0.len() == 0 ==> {
            &&& reply matches Ok(group)
            &&& group.id == 0
            &&& group.state is GroupComplete
            &&& projects(group.projects).len() == 0
            &&& group.target@ == msg.target@
            &&& group.details@.len() == 0
        },
        is_accepted(msg, legacy_project, world) && order.0.len() > 0 ==> match (world.queued)(
            package_name(msg),
            msg.target@,
        ) {
            Ok(row) => match world.notified {
                Ok(_) => reply is Ok && same_group(reply->Ok_0, row.job_group),
                Err(err) => reply == Err::<JobGroup, Error>(err),
            },
            Err(LookupError::Query(QueryError::NotFound)) => match (
                (world.create)(msg, order.0),
                world.notified,
            ) {
                (Ok(group), Ok(_)) => reply is Ok && same_group(reply->Ok_0, group),
                (Ok(_), Err(err)) => reply == Err::<JobGroup, Error>(err),
                (Err(err), _) => reply == Err::<JobGroup, Error>(err),
            },
            Err(LookupError::Query(QueryError::Failed(err))) => reply == Err::<JobGroup, Error>(
                Error::DieselError(err),
            ),
            Err(LookupError::Connection(err)) => reply == Err::<JobGroup, Error>(Error::Db(err)),
        },
{
    let start = CreateStepView::ParseTarget(msg, legacy_project);
    let replies = replies_of(msg, legacy_project, world);
    let ordered = ordered_projects(msg, legacy_project, replies);
    let last = (steps.len() - 1) as nat;
    let full = create_turns(replies);
    steps_run(msg, legacy_project, world, steps, last as int);
    creation_is_answered(msg, legacy_project, replies);
    let answer = create_answer(msg, legacy_project, replies);
    create_run_joins(start, replies, last, full);
    create_run_joins(start, replies, full, last);
    create_run_rests(steps.last()@->Done_0, replies, full);
    create_run_rests(answer, replies, last);
    assert(steps.last()@ == CreateStepView::Done(answer));
    accepted_is_accepted(msg, legacy_project, world);
    ordered_either_way(msg, legacy_project, world);
    assert(project_name(msg) =~= package_name(msg));
    let ruled = ordered_is_order(msg, legacy_project, world);
    (ordered, ruled)
}

/// Nothing is changed outside for a request that is refused or that leaves nothing to build: a
/// job group is created, the scheduler notified and an audit entry stored only for one that is
/// accepted and wants something built.
pub proof fn only_accepted_requests_change_anything(
    msg: JobGroupSpec,
    legacy_project: bool,
    world: CreateWorld<'_>,
    steps: Seq<CreateStep>,
    at: int,
) -> (order: (Seq<Listed>, Seq<bool>))
    requires
        create_served(msg, legacy_project, world, steps),
        0 <= at < steps.len(),
        steps[at] is CreateJobGroup || steps[at] is NotifyScheduler || steps[at] is CreateAuditEntry,
    ensures
        is_accepted(msg, legacy_project, world),
        is_order(msg, legacy_project, world, order.0, order.1),
        order.0.len() > 0,
        steps[at] is CreateAuditEntry ==> world.notified is Ok,
{
    let replies = replies_of(msg, legacy_project, world);
    steps_run(msg, legacy_project, world, steps, at);
    creation_changes_what_is_called_for(msg, legacy_project, replies, at as nat);
    accepted_is_accepted(msg, legacy_project, world);
    let ruled = ordered_is_order(msg, legacy_project, world);
    (ordered_projects(msg, legacy_project, replies), ruled)
}

/// How far a creation is with a step. While dependents are vetted it stays where it is.
pub open spec fn progress(step: CreateStep) -> int {
    match step {
        CreateStep::ParseTarget(_) => 0,
        CreateStep::ResolveProject(_) => 1,
        CreateStep::GetProject(_) => 2,
        CreateStep::GetRdeps(_) => 3,
        CreateStep::VetProject(_) => 4,
        CreateStep::VetRdeps(_) => 4,
        CreateStep::GetQueued(_) => 5,
        CreateStep::CreateJobGroup(_) => 6,
        CreateStep::NotifyScheduler(_) => 7,
        CreateStep::CreateAuditEntry(_) => 8,
        CreateStep::Done(_) => 9,
    }
}

/// Each thing is asked once at most, but for what vetting asks, and in order; so no job group is
/// created twice, no scheduler notified twice, and no audit entry stored twice.
pub proof fn nothing_is_asked_twice(
    msg: JobGroupSpec,
    legacy_project: bool,
    world: CreateWorld<'_>,
    steps: Seq<CreateStep>,
    earlier: int,
    later: int,
)
    requires
        create_served(msg, legacy_project, world, steps),
        0 <= earlier < later < steps.len(),
    ensures
        progress(steps[earlier]) < progress(steps[later]) || (progress(steps[earlier]) == 4
            && progress(steps[later]) == 4),
    decreases later - earlier,
{
    assert(create_follows_at(steps, later - 1, world));
    steps_run(msg, legacy_project, world, steps, later - 1);
    steps_run(msg, legacy_project, world, steps, later);
    let replies = replies_of(msg, legacy_project, world);
    creation_changes_what_is_called_for(msg, legacy_project, replies, (later - 1) as nat);
    ordered_either_way(msg, legacy_project, world);
    follows_turns(steps[later - 1], steps[later], msg, legacy_project, world);
    if earlier < later - 1 {
        nothing_is_asked_twice(msg, legacy_project, world, steps, earlier, later - 1);
    }
}

/// A creation first has its target parsed; a job group is created right after the queue was
/// looked at; the scheduler is notified right after that or right after a job group was created;
/// an audit entry is stored right after the scheduler was notified; and a request is answered
/// with a job group right after the audit entry, unless that group is the empty one.
pub proof fn changes_come_one_after_the_other(
    msg: JobGroupSpec,
    legacy_project: bool,
    world: CreateWorld<'_>,
    steps: Seq<CreateStep>,
    at: int,
)
    requires
        create_served(msg, legacy_project, world, steps),
        0 < at < steps.len(),
    ensures
        steps[0] is ParseTarget,
        steps[at] is CreateJobGroup ==> steps[at - 1] is GetQueued,
        steps[at] is NotifyScheduler ==> steps[at - 1] is GetQueued || steps[at - 1] is CreateJobGroup,
        steps[at] is CreateAuditEntry ==> steps[at - 1] is NotifyScheduler,
        steps[at] matches CreateStep::Done(Ok(group)) ==> steps[at - 1] is CreateAuditEntry || (
        group.state is GroupComplete && group.id == 0 && projects(group.projects).len() == 0),
        steps[at - 1] is CreateAuditEntry ==> steps[at] is Done && steps[at]->Done_0 is Ok,
{
    assert(create_follows_at(steps, at - 1, world));
    steps_run(msg, legacy_project, world, steps, at - 1);
    let replies = replies_of(msg, legacy_project, world);
    creation_changes_what_is_called_for(msg, legacy_project, replies, (at - 1) as nat);
    ordered_either_way(msg, legacy_project, world);
    follows_turns(steps[at - 1], steps[at], msg, legacy_project, world);
}

/// The audit entry records the creation of the job group that the request is answered with, and
/// who made the request.
pub proof fn audit_entry_records_the_request(
    msg: JobGroupSpec,
    legacy_project: bool,
    world: CreateWorld<'_>,
    steps: Seq<CreateStep>,
    waiting: CreateAuditEntry,
    entry: JobGroupAudit,
    group: JobGroup,
)
    requires
        create_served(msg, legacy_project, world, steps),
        steps.len() >= 2,
        steps[steps.len() - 2] == CreateStep::CreateAuditEntry(waiting),
        steps.last() == CreateStep::Done(Ok(group)),
        call_ensures(CreateAuditEntry::entry, (&waiting,), entry),
    ensures
        entry.group_id == group.id,
        entry.operation is JobGroupOpCreate,
        entry.trigger == msg.trigger,
        entry.requester_id == msg.requester_id,
        entry.requester_name@ == msg.requester_name@,
{
    let at = steps.len() - 2;
    steps_run(msg, legacy_project, world, steps, at);
    assert(create_follows_at(steps, at, world));
}

} // verus!
