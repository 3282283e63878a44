//! What holds of the creation of a job group from the request to the answer, whatever the graph,
//! the database and the scheduler reply.

use vstd::prelude::*;

use crate::audit::creation_entry;
use crate::create::{
    after_target, by_hand, complete_group, project_name, root_ident, root_projects, supported,
    CreateStepView, OrderView, Resolution,
};
use crate::error::{Error, LookupError, QueryError};
use crate::messages::{
    Group, JobGroup, JobGroupAudit, JobGroupSpec, JobGroupView, PackageTarget, Project,
};
use crate::projects::{
    buildable, selection, vet_run, vet_run_done, vet_turn, vetting_ends_with_selection, vetting_start,
    Listed, Verdict, VetStepView,
};

verus! {

/// The replies that one request meets with, each to be had only if it is asked for.
pub struct CreateReplies {
    pub target: Option<PackageTarget>,
    pub build_targets: Seq<PackageTarget>,
    pub resolution: Resolution,
    pub project: Result<Project, LookupError>,
    pub rdeps: Option<Seq<Listed>>,
    pub verdicts: Seq<Verdict>,
    pub queued: Result<Group, LookupError>,
    pub created: Result<JobGroup, Error>,
    pub notified: Result<(), Error>,
}

/// One turn: the step is resumed with the reply to what it asks for.
pub open spec fn create_turn(step: CreateStepView, replies: CreateReplies) -> CreateStepView {
    match step {
        CreateStepView::ParseTarget(msg, legacy_project) => after_target(
            msg,
            legacy_project,
            replies.target,
            replies.build_targets,
        ),
        CreateStepView::ResolveProject(order) => order.after_resolve(replies.resolution),
        CreateStepView::GetProject(order, ident) => order.after_project(
            ident,
            buildable(replies.project),
        ),
        CreateStepView::GetRdeps(order, projects) => order.after_rdeps(projects, replies.rdeps),
        CreateStepView::VetProject(order, vetting) => order.vetted(
            vet_turn(VetStepView::GetProject(vetting), replies.verdicts),
        ),
        CreateStepView::VetRdeps(order, vetting) => order.vetted(
            vet_turn(VetStepView::GetRdeps(vetting), replies.verdicts),
        ),
        CreateStepView::GetQueued(order, projects) => order.after_queued(projects, replies.queued),
        CreateStepView::CreateJobGroup(order, _) => order.after_create(replies.created),
        CreateStepView::NotifyScheduler(order, group) => order.after_notify(group, replies.notified),
        CreateStepView::CreateAuditEntry(_, group) => CreateStepView::Done(Ok(group)),
        CreateStepView::Done(_) => step,
    }
}

/// A number of turns.
pub open spec fn create_run(step: CreateStepView, replies: CreateReplies, turns: nat) -> CreateStepView
    decreases turns,
{
    if turns == 0 {
        step
    } else {
        create_run(create_turn(step, replies), replies, (turns - 1) as nat)
    }
}

/// What a creation asks to be changed outside.
pub enum CreateChange {
    CreateJobGroup(JobGroupSpec, Seq<Listed>),
    NotifyScheduler,
    CreateAuditEntry(JobGroupAudit),
}

/// What a step asks to be changed outside, if anything.
pub open spec fn changed(step: CreateStepView) -> Seq<CreateChange> {
    match step {
        CreateStepView::CreateJobGroup(order, projects) => seq![
            CreateChange::CreateJobGroup(order.msg, projects),
        ],
        CreateStepView::NotifyScheduler(_, _) => seq![CreateChange::NotifyScheduler],
        CreateStepView::CreateAuditEntry(order, group) => seq![
            CreateChange::CreateAuditEntry(creation_entry(group.id, order.msg)),
        ],
        _ => Seq::empty(),
    }
}

/// What is asked to be changed outside over a number of turns, in order.
pub open spec fn create_changes(
    step: CreateStepView,
    replies: CreateReplies,
    turns: nat,
) -> Seq<CreateChange>
    decreases turns,
{
    if turns == 0 {
        Seq::empty()
    } else {
        changed(step) + create_changes(create_turn(step, replies), replies, (turns - 1) as nat)
    }
}

/// The request is not refused: its target is built for and has a graph, and the project is
/// built automatically or was asked for by hand.
pub open spec fn accepted(msg: JobGroupSpec, replies: CreateReplies) -> bool {
    &&& replies.target is Some
    &&& supported(replies.build_targets, replies.target->0.name@)
    &&& !(replies.resolution is NoGraph)
    &&& buildable(replies.project) || by_hand(msg.trigger)
}

/// The projects of the job group: the package itself, unless only what depends on it is wanted,
/// and, unless only the package is wanted, the selection among what depends on it.
pub open spec fn ordered_projects(
    msg: JobGroupSpec,
    legacy_project: bool,
    replies: CreateReplies,
) -> Seq<Listed> {
    let root = root_projects(msg, root_ident(replies.resolution));
    match replies.rdeps {
        Some(rdeps) if !msg.package_only => selection(
            vetting_start(msg, legacy_project, rdeps, root),
            replies.verdicts,
            rdeps.len() as int,
        ),
        _ => root,
    }
}

/// The job group that is queued already or, where none is, the one that is created.
pub open spec fn queued_or_created(replies: CreateReplies) -> Result<JobGroupView, Error> {
    match replies.queued {
        Ok(group) => Ok(group.job_group@),
        Err(LookupError::Query(QueryError::NotFound)) => match replies.created {
            Ok(group) => Ok(group@),
            Err(err) => Err(err),
        },
        Err(LookupError::Query(QueryError::Failed(err))) => Err(Error::DieselError(err)),
        Err(LookupError::Connection(err)) => Err(Error::Db(err)),
    }
}

/// What a request is answered.
pub open spec fn create_answer(
    msg: JobGroupSpec,
    legacy_project: bool,
    replies: CreateReplies,
) -> Result<JobGroupView, Error> {
    if !accepted(msg, replies) {
        Err(Error::NotFound)
    } else if ordered_projects(msg, legacy_project, replies).len() == 0 {
        Ok(complete_group(msg))
    } else {
        match (queued_or_created(replies), replies.notified) {
            (Ok(group), Ok(_)) => Ok(group),
            (Err(err), _) => Err(err),
            (_, Err(err)) => Err(err),
        }
    }
}

/// The turns that a creation takes at most.
pub open spec fn create_turns(replies: CreateReplies) -> nat {
    (8 + 2 * candidates(replies)) as nat
}

/// What is asked to be changed for a job group with the given projects: that one be created if
/// none is queued, that the scheduler be notified once there is the one or the other, and then,
/// unless that failed, that an audit entry be stored.
pub open spec fn changes_for(
    msg: JobGroupSpec,
    projects: Seq<Listed>,
    replies: CreateReplies,
) -> Seq<CreateChange> {
    let created = if replies.queued == Err::<Group, LookupError>(
        LookupError::Query(QueryError::NotFound),
    ) {
        seq![CreateChange::CreateJobGroup(msg, projects)]
    } else {
        Seq::empty()
    };
    if projects.len() == 0 {
        Seq::empty()
    } else {
        match (queued_or_created(replies), replies.notified) {
            (Err(_), _) => created,
            (Ok(_), Err(_)) => created + seq![CreateChange::NotifyScheduler],
            (Ok(group), Ok(_)) => created + seq![
                CreateChange::NotifyScheduler,
                CreateChange::CreateAuditEntry(creation_entry(group.id, msg)),
            ],
        }
    }
}

/// What a request asks to be changed by the time it is answered.
pub open spec fn due_changes(
    msg: JobGroupSpec,
    legacy_project: bool,
    replies: CreateReplies,
) -> Seq<CreateChange> {
    if accepted(msg, replies) {
        changes_for(msg, ordered_projects(msg, legacy_project, replies), replies)
    } else {
        Seq::empty()
    }
}

/// The number of packages that the graph lists as depending on the package.
pub open spec fn candidates(replies: CreateReplies) -> nat {
    match replies.rdeps {
        Some(rdeps) => rdeps.len(),
        None => 0,
    }
}

proof fn create_run_splits(step: CreateStepView, replies: CreateReplies, first: nat, then_more: nat)
    ensures
        create_run(create_run(step, replies, first), replies, then_more) == create_run(
            step,
            replies,
            first + then_more,
        ),
        create_changes(step, replies, first + then_more) == create_changes(step, replies, first)
            + create_changes(create_run(step, replies, first), replies, then_more),
    decreases first,
{
    if first > 0 {
        create_run_splits(create_turn(step, replies), replies, (first - 1) as nat, then_more);
    }
    assert(create_changes(step, replies, first + then_more) =~= create_changes(step, replies, first)
        + create_changes(create_run(step, replies, first), replies, then_more));
}

proof fn create_run_done(answer: Result<JobGroupView, Error>, replies: CreateReplies, turns: nat)
    ensures
        create_run(CreateStepView::Done(answer), replies, turns) == CreateStepView::Done(answer),
        create_changes(CreateStepView::Done(answer), replies, turns) == Seq::<CreateChange>::empty(),
    decreases turns,
{
    if turns > 0 {
        create_run_done(answer, replies, (turns - 1) as nat);
    }
    assert(create_changes(CreateStepView::Done(answer), replies, turns) =~= Seq::empty());
}

/// A vetting that ends within `turns` turns leaves the creation with its projects after no more,
/// and changes nothing.
proof fn create_run_vets(
    order: OrderView,
    step: VetStepView,
    projects: Seq<Listed>,
    replies: CreateReplies,
    turns: nat,
) -> (used: nat)
    requires
        vet_run(step, replies.verdicts, turns) == VetStepView::Done(projects),
    ensures
        used <= turns,
        create_run(order.vetted(step), replies, used) == order.assembled(projects),
        create_changes(order.vetted(step), replies, used) == Seq::<CreateChange>::empty(),
    decreases turns,
{
    match step {
        VetStepView::Done(early) => {
            vet_run_done(early, replies.verdicts, turns);
            0
        },
        _ => {
            let rest = create_run_vets(
                order,
                vet_turn(step, replies.verdicts),
                projects,
                replies,
                (turns - 1) as nat,
            );
            assert(create_turn(order.vetted(step), replies) == order.vetted(
                vet_turn(step, replies.verdicts),
            ));
            assert(create_changes(order.vetted(step), replies, rest + 1) =~= Seq::empty());
            rest + 1
        },
    }
}

/// From its projects on, the creation ends within four turns.
proof fn create_run_assembled(
    order: OrderView,
    projects: Seq<Listed>,
    replies: CreateReplies,
    turns: nat,
)
    requires
        turns >= 4,
    ensures
        create_run(order.assembled(projects), replies, turns) == CreateStepView::Done(
            if projects.len() == 0 {
                Ok(complete_group(order.msg))
            } else {
                match (queued_or_created(replies), replies.notified) {
                    (Ok(group), Ok(_)) => Ok(group),
                    (Err(err), _) => Err(err),
                    (_, Err(err)) => Err(err),
                }
            },
        ),
        create_changes(order.assembled(projects), replies, turns) == changes_for(
            order.msg,
            projects,
            replies,
        ),
{
    let step = order.assembled(projects);
    reveal_with_fuel(create_run, 5);
    reveal_with_fuel(create_changes, 5);
    let last = create_run(step, replies, 4);
    assert(last is Done);
    assert(create_changes(step, replies, 4) =~= changes_for(order.msg, projects, replies));
    create_run_splits(step, replies, 4, (turns - 4) as nat);
    create_run_done(last->Done_0, replies, (turns - 4) as nat);
    assert(create_changes(step, replies, turns) =~= changes_for(order.msg, projects, replies));
}

proof fn creation_runs(msg: JobGroupSpec, legacy_project: bool, replies: CreateReplies)
    ensures
        ({
            let start = CreateStepView::ParseTarget(msg, legacy_project);
            let turns = create_turns(replies);
            &&& create_run(start, replies, turns) == CreateStepView::Done(
                create_answer(msg, legacy_project, replies),
            )
            &&& create_changes(start, replies, turns) == due_changes(msg, legacy_project, replies)
        }),
{
    let start = CreateStepView::ParseTarget(msg, legacy_project);
    let total = create_turns(replies);
    let due = due_changes(msg, legacy_project, replies);
    reveal_with_fuel(create_run, 5);
    reveal_with_fuel(create_changes, 5);
    if !accepted(msg, replies) {
        let refused = create_run(start, replies, 3);
        assert(refused == CreateStepView::Done(Err(Error::NotFound)));
        assert(create_changes(start, replies, 3) =~= Seq::empty());
        create_run_splits(start, replies, 3, (total - 3) as nat);
        create_run_done(Err(Error::NotFound), replies, (total - 3) as nat);
    } else {
        let order = OrderView { msg, legacy_project, target: replies.target->0.name@ };
        let root = root_projects(msg, root_ident(replies.resolution));
        let projects = ordered_projects(msg, legacy_project, replies);
        if msg.package_only {
            assert(create_run(start, replies, 3) == order.assembled(root));
            assert(create_changes(start, replies, 3) =~= Seq::empty());
            create_run_splits(start, replies, 3, (total - 3) as nat);
            create_run_assembled(order, root, replies, (total - 3) as nat);
        } else {
            let after_rdeps = create_run(start, replies, 4);
            assert(after_rdeps == order.after_rdeps(root, replies.rdeps));
            assert(create_changes(start, replies, 4) =~= Seq::empty());
            create_run_splits(start, replies, 4, (total - 4) as nat);
            match replies.rdeps {
                Some(rdeps) => {
                    let vetting = vetting_start(msg, legacy_project, rdeps, root);
                    vetting_ends_with_selection(msg, legacy_project, rdeps, root, replies.verdicts);
                    let used = create_run_vets(
                        order,
                        vetting.scan(),
                        projects,
                        replies,
                        (2 * rdeps.len()) as nat,
                    );
                    create_run_splits(after_rdeps, replies, used, (total - 4 - used) as nat);
                    create_run_assembled(order, projects, replies, (total - 4 - used) as nat);
                    assert(create_changes(after_rdeps, replies, (total - 4) as nat) =~= due);
                },
                None => {
                    create_run_assembled(order, root, replies, (total - 4) as nat);
                },
            }
        }
    }
    assert(create_changes(start, replies, total) =~= due);
}

/// Every request is answered, within eight turns and two for each package that depends on the
/// one it is about; and the answer is what the replies call for.
pub proof fn creation_is_answered(msg: JobGroupSpec, legacy_project: bool, replies: CreateReplies)
    ensures
        create_run(
            CreateStepView::ParseTarget(msg, legacy_project),
            replies,
            create_turns(replies),
        ) == CreateStepView::Done(create_answer(msg, legacy_project, replies)),
{
    creation_runs(msg, legacy_project, replies);
}

/// By the time it is answered, every request has asked for just the changes that are due, each
/// in one turn, in this order: that a job group be created if there is something to build and
/// none is queued, that the scheduler be notified once there is a job group, and that an audit
/// entry be stored once it was notified. A request that is refused, or that leaves nothing to
/// build, asks for no change.
pub proof fn creation_changes_what_is_due(
    msg: JobGroupSpec,
    legacy_project: bool,
    replies: CreateReplies,
)
    ensures
        create_changes(
            CreateStepView::ParseTarget(msg, legacy_project),
            replies,
            create_turns(replies),
        ) == due_changes(msg, legacy_project, replies),
{
    creation_runs(msg, legacy_project, replies);
}

/// A request with something to build that is answered with a job group has notified the
/// scheduler in just one turn, and then stored just one audit entry, for that group. If the
/// group was queued already, it has changed nothing else; if not, it has first created the
/// group, in just one turn, with the projects that were ordered.
pub proof fn successful_creation_changes(
    msg: JobGroupSpec,
    legacy_project: bool,
    replies: CreateReplies,
    group: JobGroupView,
)
    requires
        ordered_projects(msg, legacy_project, replies).len() > 0,
        create_answer(msg, legacy_project, replies) == Ok::<JobGroupView, Error>(group),
    ensures
        ({
            let changes = create_changes(
                CreateStepView::ParseTarget(msg, legacy_project),
                replies,
                create_turns(replies),
            );
            let ending = seq![
                CreateChange::NotifyScheduler,
                CreateChange::CreateAuditEntry(creation_entry(group.id, msg)),
            ];
            let projects = ordered_projects(msg, legacy_project, replies);
            match replies.queued {
                Ok(queued) => group == queued.job_group@ && changes == ending,
                Err(_) => {
                    &&& replies.created matches Ok(created) && group == created@
                    &&& changes == seq![CreateChange::CreateJobGroup(msg, projects)] + ending
                },
            }
        }),
{
    creation_runs(msg, legacy_project, replies);
    let ending = seq![
        CreateChange::NotifyScheduler,
        CreateChange::CreateAuditEntry(creation_entry(group.id, msg)),
    ];
    if replies.queued is Ok {
        assert(due_changes(msg, legacy_project, replies) =~= ending);
    }
}

proof fn vet_run_extends(step: VetStepView, verdicts: Seq<Verdict>, turns: nat)
    ensures
        vet_turn(vet_run(step, verdicts, turns), verdicts) == vet_run(step, verdicts, turns + 1),
    decreases turns,
{
    if turns > 0 {
        vet_run_extends(vet_turn(step, verdicts), verdicts, (turns - 1) as nat);
    } else {
        reveal_with_fuel(vet_run, 2);
    }
}

proof fn vet_run_splits(step: VetStepView, verdicts: Seq<Verdict>, first: nat, then_more: nat)
    ensures
        vet_run(vet_run(step, verdicts, first), verdicts, then_more) == vet_run(
            step,
            verdicts,
            first + then_more,
        ),
    decreases first,
{
    if first > 0 {
        vet_run_splits(vet_turn(step, verdicts), verdicts, (first - 1) as nat, then_more);
    }
}

spec fn is_order(order: OrderView, msg: JobGroupSpec, legacy_project: bool, replies: CreateReplies) -> bool {
    order == (OrderView { msg, legacy_project, target: replies.target->0.name@ })
}

spec fn is_vetting(
    step: VetStepView,
    msg: JobGroupSpec,
    legacy_project: bool,
    replies: CreateReplies,
) -> bool {
    let root = root_projects(msg, root_ident(replies.resolution));
    let start = vetting_start(msg, legacy_project, replies.rdeps->0, root).scan();
    &&& accepted(msg, replies)
    &&& !msg.package_only
    &&& replies.rdeps is Some
    &&& exists|turns: nat| #[trigger] vet_run(start, replies.verdicts, turns) == step
}

spec fn on_course(
    step: CreateStepView,
    msg: JobGroupSpec,
    legacy_project: bool,
    replies: CreateReplies,
) -> bool {
    let projects = ordered_projects(msg, legacy_project, replies);
    match step {
        CreateStepView::ParseTarget(m, l) => m == msg && l == legacy_project,
        CreateStepView::ResolveProject(order) => {
            &&& is_order(order, msg, legacy_project, replies)
            &&& replies.target is Some
            &&& supported(replies.build_targets, replies.target->0.name@)
        },
        CreateStepView::GetProject(order, ident) => {
            &&& is_order(order, msg, legacy_project, replies)
            &&& replies.target is Some
            &&& supported(replies.build_targets, replies.target->0.name@)
            &&& !(replies.resolution is NoGraph)
            &&& ident == root_ident(replies.resolution)
        },
        CreateStepView::GetRdeps(order, root) => {
            &&& is_order(order, msg, legacy_project, replies)
            &&& accepted(msg, replies)
            &&& !msg.package_only
            &&& root == root_projects(msg, root_ident(replies.resolution))
        },
        CreateStepView::VetProject(order, vetting) => {
            &&& is_order(order, msg, legacy_project, replies)
            &&& is_vetting(VetStepView::GetProject(vetting), msg, legacy_project, replies)
        },
        CreateStepView::VetRdeps(order, vetting) => {
            &&& is_order(order, msg, legacy_project, replies)
            &&& is_vetting(VetStepView::GetRdeps(vetting), msg, legacy_project, replies)
        },
        CreateStepView::GetQueued(order, queued) => {
            &&& is_order(order, msg, legacy_project, replies)
            &&& accepted(msg, replies)
            &&& queued == projects && projects.len() > 0
        },
        _ => called_for(step, msg, legacy_project, replies),
    }
}

/// What a step changes outside, if anything, is called for: a job group is created only for an
/// accepted request with something to build and none queued, and with the projects that were
/// ordered; the scheduler is notified only of a job group that was queued or created, and the
/// audit entry is written only after that; and an answer is the one that is due.
pub open spec fn called_for(
    step: CreateStepView,
    msg: JobGroupSpec,
    legacy_project: bool,
    replies: CreateReplies,
) -> bool {
    let projects = ordered_projects(msg, legacy_project, replies);
    match step {
        CreateStepView::CreateJobGroup(order, created) => {
            &&& accepted(msg, replies)
            &&& order.msg == msg
            &&& created == projects && projects.len() > 0
            &&& replies.queued == Err::<Group, LookupError>(LookupError::Query(QueryError::NotFound))
        },
        CreateStepView::NotifyScheduler(order, group) => {
            &&& accepted(msg, replies)
            &&& order.msg == msg
            &&& projects.len() > 0
            &&& queued_or_created(replies) == Ok::<JobGroupView, Error>(group)
        },
        CreateStepView::CreateAuditEntry(order, group) => {
            &&& accepted(msg, replies)
            &&& order.msg == msg
            &&& projects.len() > 0
            &&& queued_or_created(replies) == Ok::<JobGroupView, Error>(group)
            &&& replies.notified is Ok
        },
        CreateStepView::Done(answer) => answer == create_answer(msg, legacy_project, replies),
        _ => true,
    }
}

proof fn vetting_stays_on_course(
    order: OrderView,
    step: VetStepView,
    msg: JobGroupSpec,
    legacy_project: bool,
    replies: CreateReplies,
)
    requires
        is_order(order, msg, legacy_project, replies),
        is_vetting(step, msg, legacy_project, replies),
    ensures
        on_course(order.vetted(step), msg, legacy_project, replies),
{
    let root = root_projects(msg, root_ident(replies.resolution));
    let rdeps = replies.rdeps->0;
    let start = vetting_start(msg, legacy_project, rdeps, root).scan();
    let turns = choose|turns: nat| #[trigger] vet_run(start, replies.verdicts, turns) == step;
    if let VetStepView::Done(projects) = step {
        let full = (2 * rdeps.len()) as nat;
        vetting_ends_with_selection(msg, legacy_project, rdeps, root, replies.verdicts);
        vet_run_splits(start, replies.verdicts, turns, full);
        vet_run_splits(start, replies.verdicts, full, turns);
        vet_run_done(projects, replies.verdicts, full);
        vet_run_done(ordered_projects(msg, legacy_project, replies), replies.verdicts, turns);
        assert(projects == ordered_projects(msg, legacy_project, replies));
    }
}

proof fn create_turn_stays_on_course(
    step: CreateStepView,
    msg: JobGroupSpec,
    legacy_project: bool,
    replies: CreateReplies,
)
    requires
        on_course(step, msg, legacy_project, replies),
    ensures
        on_course(create_turn(step, replies), msg, legacy_project, replies),
{
    match step {
        CreateStepView::GetRdeps(order, root) => {
            if let Some(rdeps) = replies.rdeps {
                let start = vetting_start(msg, legacy_project, rdeps, root).scan();
                assert(vet_run(start, replies.verdicts, 0) == start);
                vetting_stays_on_course(order, start, msg, legacy_project, replies);
            }
        },
        CreateStepView::VetProject(order, vetting) => {
            vet_turn_stays_vetting(VetStepView::GetProject(vetting), msg, legacy_project, replies);
            let next = vet_turn(VetStepView::GetProject(vetting), replies.verdicts);
            vetting_stays_on_course(order, next, msg, legacy_project, replies);
        },
        CreateStepView::VetRdeps(order, vetting) => {
            vet_turn_stays_vetting(VetStepView::GetRdeps(vetting), msg, legacy_project, replies);
            let next = vet_turn(VetStepView::GetRdeps(vetting), replies.verdicts);
            vetting_stays_on_course(order, next, msg, legacy_project, replies);
        },
        _ => {},
    }
}

proof fn vet_turn_stays_vetting(
    step: VetStepView,
    msg: JobGroupSpec,
    legacy_project: bool,
    replies: CreateReplies,
)
    requires
        is_vetting(step, msg, legacy_project, replies),
    ensures
        is_vetting(vet_turn(step, replies.verdicts), msg, legacy_project, replies),
{
    let root = root_projects(msg, root_ident(replies.resolution));
    let start = vetting_start(msg, legacy_project, replies.rdeps->0, root).scan();
    let turns = choose|turns: nat| #[trigger] vet_run(start, replies.verdicts, turns) == step;
    vet_run_extends(start, replies.verdicts, turns);
}

proof fn create_run_stays_on_course(
    step: CreateStepView,
    msg: JobGroupSpec,
    legacy_project: bool,
    replies: CreateReplies,
    turns: nat,
)
    requires
        on_course(step, msg, legacy_project, replies),
    ensures
        on_course(create_run(step, replies, turns), msg, legacy_project, replies),
    decreases turns,
{
    if turns > 0 {
        create_turn_stays_on_course(step, msg, legacy_project, replies);
        create_run_stays_on_course(
            create_turn(step, replies),
            msg,
            legacy_project,
            replies,
            (turns - 1) as nat,
        );
    }
}

/// At no point does the creation of a job group change anything that is not called for.
pub proof fn creation_changes_what_is_called_for(
    msg: JobGroupSpec,
    legacy_project: bool,
    replies: CreateReplies,
    turns: nat,
)
    ensures
        called_for(
            create_run(CreateStepView::ParseTarget(msg, legacy_project), replies, turns),
            msg,
            legacy_project,
            replies,
        ),
{
    let start = CreateStepView::ParseTarget(msg, legacy_project);
    create_run_stays_on_course(start, msg, legacy_project, replies, turns);
}

/// A request for the package alone orders the package and nothing else.
pub proof fn package_only_orders_the_package(
    msg: JobGroupSpec,
    legacy_project: bool,
    replies: CreateReplies,
)
    requires
        msg.package_only,
    ensures
        ordered_projects(msg, legacy_project, replies) == seq![
            (project_name(msg), root_ident(replies.resolution)),
        ],
{
}

} // verus!
