//! Creating a job group with a build manifest. A group is created for every request that is not
//! refused, whether or not one is queued already.
//!
//! Each step names the one thing that is wanted next, and is resumed with the reply to it.

use diesel::result::Error as DieselFailure;
use vstd::prelude::*;

use crate::audit::{add_job_group_audit_entry, creation_entry};
use crate::create::{by_hand, project_name, OrderView};
use crate::error::{Error, LookupError};
use crate::messages::{
    Group, JobGroup, JobGroupAudit, JobGroupSpec, JobGroupTrigger, JobGroupView, NewGroup,
    PackageBuildManifest, PackageTarget, Project,
};
use crate::projects::{buildable, is_project_buildable, lookup_target, project_query, ProjectQuery};
use crate::text::short_ident;

verus! {

/// Names the package whose build is to be computed, and what it is built for.
#[derive(Debug)]
pub struct BuildQuery {
    pub package: String,
    pub target: String,
}

/// What the creation of a job group needs next, or what it is answered.
pub enum NewStepView {
    GetProject(OrderView),
    Connect(OrderView),
    CreateGroup(OrderView),
    ComputeBuild(OrderView, Group),
    CreateAuditEntry(OrderView, Group),
    Done(Result<JobGroupView, Error>),
}

/// The project was looked up. One that is not built automatically has to be asked for by hand.
pub open spec fn new_after_project(order: OrderView, buildable: bool) -> NewStepView {
    if !buildable && !by_hand(order.msg.trigger) {
        NewStepView::Done(Err(Error::NotFound))
    } else {
        NewStepView::Connect(order)
    }
}

/// A database connection was asked for.
pub open spec fn new_after_connect(order: OrderView, connected: Result<(), String>) -> NewStepView {
    match connected {
        Ok(_) => NewStepView::CreateGroup(order),
        Err(err) => NewStepView::Done(Err(Error::Db(err))),
    }
}

/// The job group was created. A request for the package alone has nothing to compute.
pub open spec fn new_after_group(
    order: OrderView,
    created: Result<Group, DieselFailure>,
) -> NewStepView {
    match created {
        Ok(group) => if order.msg.package_only {
            NewStepView::CreateAuditEntry(order, group)
        } else {
            NewStepView::ComputeBuild(order, group)
        },
        Err(err) => NewStepView::Done(Err(Error::DieselError(err))),
    }
}

/// The build manifest was computed.
pub open spec fn new_after_build(
    order: OrderView,
    group: Group,
    manifest: Result<PackageBuildManifest, Error>,
) -> NewStepView {
    match manifest {
        Ok(_) => NewStepView::CreateAuditEntry(order, group),
        Err(err) => NewStepView::Done(Err(err)),
    }
}

struct NewOrder {
    msg: JobGroupSpec,
    legacy_project: bool,
    target: PackageTarget,
}

impl NewOrder {
    spec fn view(&self) -> OrderView {
        OrderView { msg: self.msg, legacy_project: self.legacy_project, target: self.target.name@ }
    }

    fn project_name(&self) -> (name: String)
        ensures
            name@ == project_name(self.msg),
    {
        short_ident(&self.msg.origin, &self.msg.package)
    }

    fn manifested(self, group: Group, manifest: PackageBuildManifest) -> (step: NewStep)
        ensures
            step@ == NewStepView::CreateAuditEntry(self@, group),
    {
        match insert_job_graph_entries(&manifest) {
            Ok(_) => NewStep::CreateAuditEntry(NewAuditEntry { order: self, group }),
            Err(err) => NewStep::Done(Err(err)),
        }
    }
}

/// Waits for the lookup of the project.
pub struct NewGetProject {
    order: NewOrder,
}

/// Waits for a database connection.
pub struct NewConnect {
    order: NewOrder,
}

/// Waits for the job group to be inserted.
pub struct NewCreateGroup {
    order: NewOrder,
}

/// Waits for the build manifest of the package.
pub struct NewComputeBuild {
    order: NewOrder,
    group: Group,
}

/// Waits for the audit entry to be stored.
pub struct NewAuditEntry {
    order: NewOrder,
    group: Group,
}

/// What the creation of a job group needs next, or what it is answered.
pub enum NewStep {
    GetProject(NewGetProject),
    Connect(NewConnect),
    CreateGroup(NewCreateGroup),
    ComputeBuild(NewComputeBuild),
    CreateAuditEntry(NewAuditEntry),
    Done(Result<JobGroup, Error>),
}

impl View for NewGetProject {
    type V = OrderView;

    closed spec fn view(&self) -> OrderView {
        self.order.view()
    }
}

impl View for NewConnect {
    type V = OrderView;

    closed spec fn view(&self) -> OrderView {
        self.order.view()
    }
}

impl View for NewCreateGroup {
    type V = OrderView;

    closed spec fn view(&self) -> OrderView {
        self.order.view()
    }
}

impl View for NewComputeBuild {
    type V = (OrderView, Group);

    closed spec fn view(&self) -> (OrderView, Group) {
        (self.order.view(), self.group)
    }
}

impl View for NewAuditEntry {
    type V = (OrderView, Group);

    closed spec fn view(&self) -> (OrderView, Group) {
        (self.order.view(), self.group)
    }
}

impl View for NewStep {
    type V = NewStepView;

    open spec fn view(&self) -> NewStepView {
        match self {
            NewStep::GetProject(step) => NewStepView::GetProject(step@),
            NewStep::Connect(step) => NewStepView::Connect(step@),
            NewStep::CreateGroup(step) => NewStepView::CreateGroup(step@),
            NewStep::ComputeBuild(step) => NewStepView::ComputeBuild(step@.0, step@.1),
            NewStep::CreateAuditEntry(step) => NewStepView::CreateAuditEntry(step@.0, step@.1),
            NewStep::Done(Ok(group)) => NewStepView::Done(Ok(group@)),
            NewStep::Done(Err(err)) => NewStepView::Done(Err(*err)),
        }
    }
}

/// Starts to create a job group for a request whose target was accepted: the project has to be
/// looked up.
pub fn job_group_create_new(msg: JobGroupSpec, target: PackageTarget, legacy_project: bool) -> (step:
    NewStep)
    ensures
        step@ == NewStepView::GetProject(OrderView { msg, legacy_project, target: target.name@ }),
{
    NewStep::GetProject(NewGetProject { order: NewOrder { msg, legacy_project, target } })
}

/// Stores the entries of a build manifest. There is nothing to store yet.
pub fn insert_job_graph_entries(_manifest: &PackageBuildManifest) -> (stored: Result<(), Error>)
    ensures
        stored == Ok::<(), Error>(()),
{
    Ok(())
}

impl NewGetProject {
    /// The project to look up.
    pub fn query(&self) -> (query: ProjectQuery)
        ensures
            query.name@ == project_name(self@.msg),
            query.target@ == lookup_target(self@.target, self@.legacy_project),
    {
        project_query(
            &self.order.project_name(),
            &self.order.target.name,
            self.order.legacy_project,
        )
    }

    /// Refuses a project that is not built automatically, unless it is asked for by hand.
    pub fn resume(self, lookup: Result<Project, LookupError>) -> (step: NewStep)
        ensures
            step@ == new_after_project(self@, buildable(lookup)),
    {
        if !is_project_buildable(&lookup) {
            match self.order.msg.trigger {
                JobGroupTrigger::HabClient | JobGroupTrigger::BuilderUI => (),
                _ => return NewStep::Done(Err(Error::NotFound)),
            }
        }
        NewStep::Connect(NewConnect { order: self.order })
    }
}

impl NewConnect {
    /// Goes on to the insertion, or gives up for want of a connection.
    pub fn resume(self, connected: Result<(), String>) -> (step: NewStep)
        ensures
            step@ == new_after_connect(self@, connected),
    {
        match connected {
            Ok(_) => NewStep::CreateGroup(NewCreateGroup { order: self.order }),
            Err(err) => NewStep::Done(Err(Error::Db(err))),
        }
    }
}

impl NewCreateGroup {
    /// The job group to insert.
    pub fn new_group(&self) -> (new_group: NewGroup)
        ensures
            new_group.group_state@ == "Queued"@,
            new_group.project_name@ == project_name(self@.msg),
            new_group.target@ == self@.target,
    {
        NewGroup {
            group_state: "Queued".to_owned(),
            project_name: self.order.project_name(),
            target: self.order.target.name.clone(),
        }
    }

    /// Goes on with the job group that was inserted.
    pub fn resume(self, created: Result<Group, DieselFailure>) -> (step: NewStep)
        ensures
            step@ == new_after_group(self@, created),
    {
        match created {
            Ok(group) => if self.order.msg.package_only {
                self.order.manifested(group, PackageBuildManifest { details: Vec::new() })
            } else {
                NewStep::ComputeBuild(NewComputeBuild { order: self.order, group })
            },
            Err(err) => NewStep::Done(Err(Error::DieselError(err))),
        }
    }
}

impl NewComputeBuild {
    /// The package whose build is to be computed.
    pub fn query(&self) -> (query: BuildQuery)
        ensures
            query.package@ == project_name(self@.0.msg),
            query.target@ == self@.0.target,
    {
        BuildQuery {
            package: self.order.project_name(),
            target: self.order.target.name.clone(),
        }
    }

    /// Goes on once the manifest is there.
    pub fn resume(self, manifest: Result<PackageBuildManifest, Error>) -> (step: NewStep)
        ensures
            step@ == new_after_build(self@.0, self@.1, manifest),
    {
        match manifest {
            Ok(manifest) => self.order.manifested(self.group, manifest),
            Err(err) => NewStep::Done(Err(err)),
        }
    }
}

impl NewAuditEntry {
    /// The entry to store.
    pub fn entry(&self) -> (entry: JobGroupAudit)
        ensures
            entry == creation_entry(self@.1.id as u64, self@.0.msg),
    {
        add_job_group_audit_entry(self.group.id as u64, &self.order.msg)
    }

    /// Answers with the job group, whether or not the entry was stored.
    pub fn resume(self, _stored: Result<(), Error>) -> (step: NewStep)
        ensures
            step@ == NewStepView::Done(Ok(self@.1.job_group@)),
    {
        NewStep::Done(Ok(self.group.job_group))
    }
}

/// The replies that one request meets with, each to be had only if it is asked for.
pub struct NewReplies {
    pub project: Result<Project, LookupError>,
    pub connected: Result<(), String>,
    pub created: Result<Group, DieselFailure>,
    pub manifest: Result<PackageBuildManifest, Error>,
}

/// One turn: the step is resumed with the reply to what it asks for.
pub open spec fn new_turn(step: NewStepView, replies: NewReplies) -> NewStepView {
    match step {
        NewStepView::GetProject(order) => new_after_project(order, buildable(replies.project)),
        NewStepView::Connect(order) => new_after_connect(order, replies.connected),
        NewStepView::CreateGroup(order) => new_after_group(order, replies.created),
        NewStepView::ComputeBuild(order, group) => new_after_build(order, group, replies.manifest),
        NewStepView::CreateAuditEntry(_, group) => NewStepView::Done(Ok(group.job_group@)),
        NewStepView::Done(_) => step,
    }
}

/// What a request is answered.
pub open spec fn new_answer(msg: JobGroupSpec, replies: NewReplies) -> Result<JobGroupView, Error> {
    if !buildable(replies.project) && !by_hand(msg.trigger) {
        Err(Error::NotFound)
    } else {
        match (replies.connected, replies.created, replies.manifest) {
            (Err(err), _, _) => Err(Error::Db(err)),
            (_, Err(err), _) => Err(Error::DieselError(err)),
            (_, Ok(_), Err(err)) if !msg.package_only => Err(err),
            (_, Ok(group), _) => Ok(group.job_group@),
        }
    }
}

/// A number of turns.
pub open spec fn new_run(step: NewStepView, replies: NewReplies, turns: nat) -> NewStepView
    decreases turns,
{
    if turns == 0 {
        step
    } else {
        new_run(new_turn(step, replies), replies, (turns - 1) as nat)
    }
}

/// Every request is answered within five turns, and the answer is what the replies call for.
pub proof fn new_creation_is_answered(order: OrderView, replies: NewReplies)
    ensures
        new_run(NewStepView::GetProject(order), replies, 5) == NewStepView::Done(
            new_answer(order.msg, replies),
        ),
{
    reveal_with_fuel(new_run, 6);
}

/// What a creation asks to be changed outside.
pub enum NewChange {
    /// That a job group be inserted, with its state, the name of its project and its target.
    CreateGroup(Seq<char>, Seq<char>, Seq<char>),
    /// That an audit entry be stored.
    CreateAuditEntry(JobGroupAudit),
}

/// What a step asks to be changed outside, if anything.
pub open spec fn new_changed(step: NewStepView) -> Seq<NewChange> {
    match step {
        NewStepView::CreateGroup(order) => seq![
            NewChange::CreateGroup("Queued"@, project_name(order.msg), order.target),
        ],
        NewStepView::CreateAuditEntry(order, group) => seq![
            NewChange::CreateAuditEntry(creation_entry(group.id as u64, order.msg)),
        ],
        _ => Seq::empty(),
    }
}

/// What is asked to be changed outside over a number of turns, in order.
pub open spec fn new_changes(step: NewStepView, replies: NewReplies, turns: nat) -> Seq<NewChange>
    decreases turns,
{
    if turns == 0 {
        Seq::empty()
    } else {
        new_changed(step) + new_changes(new_turn(step, replies), replies, (turns - 1) as nat)
    }
}

/// What a request asks to be changed by the time it is answered: nothing, if it is refused or
/// there is no database connection; else that a job group be inserted and, if the request is
/// answered with that group, that an audit entry be stored for it.
pub open spec fn new_due_changes(order: OrderView, replies: NewReplies) -> Seq<NewChange> {
    let insertion = NewChange::CreateGroup("Queued"@, project_name(order.msg), order.target);
    if !buildable(replies.project) && !by_hand(order.msg.trigger) {
        Seq::empty()
    } else if replies.connected is Err {
        Seq::empty()
    } else if new_answer(order.msg, replies) is Err {
        seq![insertion]
    } else {
        let id = replies.created->Ok_0.id as u64;
        seq![insertion, NewChange::CreateAuditEntry(creation_entry(id, order.msg))]
    }
}

/// By the time it is answered, a request has asked for just the changes that are due, each in
/// one turn. Whether an insertion that was asked for was done is for the reply to say.
pub proof fn new_creation_changes_what_is_due(order: OrderView, replies: NewReplies)
    ensures
        new_changes(NewStepView::GetProject(order), replies, 5) == new_due_changes(order, replies),
{
    reveal_with_fuel(new_changes, 6);
    assert(new_changes(NewStepView::GetProject(order), replies, 5) =~= new_due_changes(
        order,
        replies,
    ));
}

} // verus!
