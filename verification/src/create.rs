//! Creating a job group: what is asked of the graph, of the database and of the scheduler, and
//! what the request is answered.
//!
//! Each step names the one thing that is wanted next, and is resumed with the reply to it.

use vstd::prelude::*;

use crate::audit::{add_job_group_audit_entry, creation_entry};
use crate::error::{Error, LookupError, QueryError};
use crate::messages::{
    Group, JobGroup, JobGroupAudit, JobGroupProject, JobGroupSpec, JobGroupState,
    JobGroupTrigger, JobGroupView, PackageTarget, Project,
};
use crate::projects::{
    buildable, is_project_buildable, listed, lookup_target, populate_build_projects, project_query,
    vetting_start, GraphQuery, Listed, ProjectQuery, VetProject, VetRdeps, VetStep, VetStepView,
    VettingView,
};
use crate::repeated::projects_new;
use crate::text::{short_ident, short_name};

verus! {

/// What the graph of a target knows of a project.
#[derive(Debug)]
pub enum Resolution {
    /// There is no graph for the target.
    NoGraph,
    /// The graph does not hold the project. A package that was never uploaded is not in it.
    Unresolved,
    /// The full ident of the project's latest package.
    Resolved(String),
}

/// Names the queued job group that is looked up.
#[derive(Debug)]
pub struct QueuedQuery {
    pub project_name: String,
    pub target: String,
}

/// The short name of the package that a request is about.
pub open spec fn project_name(msg: JobGroupSpec) -> Seq<char> {
    short_name(msg.origin@, msg.package@)
}

/// The target is among those that are built for.
pub open spec fn supported(build_targets: Seq<PackageTarget>, target: Seq<char>) -> bool {
    exists|i: int| 0 <= i < build_targets.len() && (#[trigger] build_targets[i]).name@ == target
}

/// The request was made by hand, so it needs no leave to build automatically.
pub open spec fn by_hand(trigger: JobGroupTrigger) -> bool {
    trigger == JobGroupTrigger::HabClient || trigger == JobGroupTrigger::BuilderUI
}

/// The full ident under which the package itself goes into the job group. It is empty for a
/// package that the graph does not hold.
pub open spec fn root_ident(resolution: Resolution) -> Seq<char> {
    match resolution {
        Resolution::Resolved(ident) => ident@,
        _ => Seq::empty(),
    }
}

/// The package itself, unless only what depends on it is to be built.
pub open spec fn root_projects(msg: JobGroupSpec, ident: Seq<char>) -> Seq<Listed> {
    if !msg.deps_only || msg.package_only {
        seq![(project_name(msg), ident)]
    } else {
        Seq::empty()
    }
}

/// The job group of a request that leaves nothing to build.
pub open spec fn complete_group(msg: JobGroupSpec) -> JobGroupView {
    JobGroupView {
        id: 0,
        state: JobGroupState::GroupComplete,
        projects: Seq::<JobGroupProject>::empty(),
        target: msg.target@,
        details: Seq::empty(),
    }
}

/// A request whose target was accepted.
pub struct OrderView {
    pub msg: JobGroupSpec,
    pub legacy_project: bool,
    pub target: Seq<char>,
}

/// What the creation of a job group needs next, or what it is answered.
pub enum CreateStepView {
    ParseTarget(JobGroupSpec, bool),
    ResolveProject(OrderView),
    GetProject(OrderView, Seq<char>),
    GetRdeps(OrderView, Seq<Listed>),
    VetProject(OrderView, VettingView),
    VetRdeps(OrderView, VettingView),
    GetQueued(OrderView, Seq<Listed>),
    CreateJobGroup(OrderView, Seq<Listed>),
    NotifyScheduler(OrderView, JobGroupView),
    CreateAuditEntry(OrderView, JobGroupView),
    Done(Result<JobGroupView, Error>),
}

/// The target was parsed. One that is malformed, or that is not built for, is refused.
pub open spec fn after_target(
    msg: JobGroupSpec,
    legacy_project: bool,
    target: Option<PackageTarget>,
    build_targets: Seq<PackageTarget>,
) -> CreateStepView {
    match target {
        Some(target) if supported(build_targets, target.name@) => CreateStepView::ResolveProject(
            OrderView { msg, legacy_project, target: target.name@ },
        ),
        _ => CreateStepView::Done(Err(Error::NotFound)),
    }
}

impl OrderView {
    /// The project was looked for in the graph.
    pub open spec fn after_resolve(self, resolution: Resolution) -> CreateStepView {
        match resolution {
            Resolution::NoGraph => CreateStepView::Done(Err(Error::NotFound)),
            _ => CreateStepView::GetProject(self, root_ident(resolution)),
        }
    }

    /// The project was looked up. One that is not built automatically has to be asked for by
    /// hand.
    pub open spec fn after_project(self, ident: Seq<char>, buildable: bool) -> CreateStepView {
        if !buildable && !by_hand(self.msg.trigger) {
            CreateStepView::Done(Err(Error::NotFound))
        } else if self.msg.package_only {
            self.assembled(root_projects(self.msg, ident))
        } else {
            CreateStepView::GetRdeps(self, root_projects(self.msg, ident))
        }
    }

    /// What depends on the package is known.
    pub open spec fn after_rdeps(self, projects: Seq<Listed>, rdeps: Option<Seq<Listed>>) -> CreateStepView {
        match rdeps {
            Some(rdeps) => self.vetted(
                vetting_start(self.msg, self.legacy_project, rdeps, projects).scan(),
            ),
            None => self.assembled(projects),
        }
    }

    /// The vetting of what depends on the package goes on, or has ended.
    pub open spec fn vetted(self, step: VetStepView) -> CreateStepView {
        match step {
            VetStepView::GetProject(vetting) => CreateStepView::VetProject(self, vetting),
            VetStepView::GetRdeps(vetting) => CreateStepView::VetRdeps(self, vetting),
            VetStepView::Done(projects) => self.assembled(projects),
        }
    }

    /// The projects of the job group are known.
    pub open spec fn assembled(self, projects: Seq<Listed>) -> CreateStepView {
        if projects.len() == 0 {
            CreateStepView::Done(Ok(complete_group(self.msg)))
        } else {
            CreateStepView::GetQueued(self, projects)
        }
    }

    /// The queue was looked at: it holds at most one job group per project and target, and one
    /// that is there already is taken.
    pub open spec fn after_queued(
        self,
        projects: Seq<Listed>,
        queued: Result<Group, LookupError>,
    ) -> CreateStepView {
        match queued {
            Ok(group) => CreateStepView::NotifyScheduler(self, group.job_group@),
            Err(LookupError::Query(QueryError::NotFound)) => CreateStepView::CreateJobGroup(self, projects),
            Err(LookupError::Query(QueryError::Failed(err))) => CreateStepView::Done(
                Err(Error::DieselError(err)),
            ),
            Err(LookupError::Connection(err)) => CreateStepView::Done(Err(Error::Db(err))),
        }
    }

    /// The job group was created.
    pub open spec fn after_create(self, created: Result<JobGroup, Error>) -> CreateStepView {
        match created {
            Ok(group) => CreateStepView::NotifyScheduler(self, group@),
            Err(err) => CreateStepView::Done(Err(err)),
        }
    }

    /// The scheduler was notified.
    pub open spec fn after_notify(self, group: JobGroupView, notified: Result<(), Error>) -> CreateStepView {
        match notified {
            Ok(_) => CreateStepView::CreateAuditEntry(self, group),
            Err(err) => CreateStepView::Done(Err(err)),
        }
    }
}

struct Order {
    msg: JobGroupSpec,
    legacy_project: bool,
    target: PackageTarget,
}

impl Order {
    spec fn view(&self) -> OrderView {
        OrderView { msg: self.msg, legacy_project: self.legacy_project, target: self.target.name@ }
    }

    fn assembled(self, projects: Vec<(String, String)>) -> (step: CreateStep)
        ensures
            step@ == self@.assembled(projects.deep_view()),
    {
        if projects.len() == 0 {
            let group = JobGroup {
                id: 0,
                state: JobGroupState::GroupComplete,
                projects: projects_new(),
                target: self.msg.target.clone(),
                details: Vec::new(),
            };
            assert(group@ =~= complete_group(self.msg));
            CreateStep::Done(Ok(group))
        } else {
            CreateStep::GetQueued(GetQueued { order: self, projects })
        }
    }

    fn vetted(self, step: VetStep) -> (next: CreateStep)
        ensures
            next@ == self@.vetted(step@),
    {
        match step {
            VetStep::GetProject(step) => CreateStep::VetProject(VetOrderProject { order: self, step }),
            VetStep::GetRdeps(step) => CreateStep::VetRdeps(VetOrderRdeps { order: self, step }),
            VetStep::Done(projects) => self.assembled(projects),
        }
    }

    fn project_name(&self) -> (name: String)
        ensures
            name@ == project_name(self.msg),
    {
        short_ident(&self.msg.origin, &self.msg.package)
    }
}

/// Waits for the target of the request to be parsed.
pub struct ParseTarget {
    msg: JobGroupSpec,
    legacy_project: bool,
}

/// Waits for the project to be found in the graph.
pub struct ResolveProject {
    order: Order,
}

/// Waits for the lookup of the project.
pub struct GetProject {
    order: Order,
    ident: String,
}

/// Waits for what depends on the package.
pub struct GetRdeps {
    order: Order,
    projects: Vec<(String, String)>,
}

/// Waits for the lookup of a project that depends on the package.
pub struct VetOrderProject {
    order: Order,
    step: VetProject,
}

/// Waits for what depends on a project that may not be built.
pub struct VetOrderRdeps {
    order: Order,
    step: VetRdeps,
}

/// Waits for the queued job group of the project.
pub struct GetQueued {
    order: Order,
    projects: Vec<(String, String)>,
}

/// Waits for the job group to be created.
pub struct CreateJobGroup {
    order: Order,
    projects: Vec<(String, String)>,
}

/// Waits for the scheduler to be notified.
pub struct NotifyScheduler {
    order: Order,
    group: JobGroup,
}

/// Waits for the audit entry to be stored.
pub struct CreateAuditEntry {
    order: Order,
    group: JobGroup,
}

/// What the creation of a job group needs next, or what it is answered.
pub enum CreateStep {
    ParseTarget(ParseTarget),
    ResolveProject(ResolveProject),
    GetProject(GetProject),
    GetRdeps(GetRdeps),
    VetProject(VetOrderProject),
    VetRdeps(VetOrderRdeps),
    GetQueued(GetQueued),
    CreateJobGroup(CreateJobGroup),
    NotifyScheduler(NotifyScheduler),
    CreateAuditEntry(CreateAuditEntry),
    Done(Result<JobGroup, Error>),
}

impl View for ParseTarget {
    type V = (JobGroupSpec, bool);

    closed spec fn view(&self) -> (JobGroupSpec, bool) {
        (self.msg, self.legacy_project)
    }
}

impl View for ResolveProject {
    type V = OrderView;

    closed spec fn view(&self) -> OrderView {
        self.order.view()
    }
}

impl View for GetProject {
    type V = (OrderView, Seq<char>);

    closed spec fn view(&self) -> (OrderView, Seq<char>) {
        (self.order.view(), self.ident@)
    }
}

impl View for GetRdeps {
    type V = (OrderView, Seq<Listed>);

    closed spec fn view(&self) -> (OrderView, Seq<Listed>) {
        (self.order.view(), self.projects.deep_view())
    }
}

impl View for VetOrderProject {
    type V = (OrderView, VettingView);

    closed spec fn view(&self) -> (OrderView, VettingView) {
        (self.order.view(), self.step@)
    }
}

impl View for VetOrderRdeps {
    type V = (OrderView, VettingView);

    closed spec fn view(&self) -> (OrderView, VettingView) {
        (self.order.view(), self.step@)
    }
}

impl View for GetQueued {
    type V = (OrderView, Seq<Listed>);

    closed spec fn view(&self) -> (OrderView, Seq<Listed>) {
        (self.order.view(), self.projects.deep_view())
    }
}

impl View for CreateJobGroup {
    type V = (OrderView, Seq<Listed>);

    closed spec fn view(&self) -> (OrderView, Seq<Listed>) {
        (self.order.view(), self.projects.deep_view())
    }
}

impl View for NotifyScheduler {
    type V = (OrderView, JobGroupView);

    closed spec fn view(&self) -> (OrderView, JobGroupView) {
        (self.order.view(), self.group@)
    }
}

impl View for CreateAuditEntry {
    type V = (OrderView, JobGroupView);

    closed spec fn view(&self) -> (OrderView, JobGroupView) {
        (self.order.view(), self.group@)
    }
}

impl View for CreateStep {
    type V = CreateStepView;

    open spec fn view(&self) -> CreateStepView {
        match self {
            CreateStep::ParseTarget(s) => CreateStepView::ParseTarget(s@.0, s@.1),
            CreateStep::ResolveProject(s) => CreateStepView::ResolveProject(s@),
            CreateStep::GetProject(s) => CreateStepView::GetProject(s@.0, s@.1),
            CreateStep::GetRdeps(s) => CreateStepView::GetRdeps(s@.0, s@.1),
            CreateStep::VetProject(s) => CreateStepView::VetProject(s@.0, s@.1),
            CreateStep::VetRdeps(s) => CreateStepView::VetRdeps(s@.0, s@.1),
            CreateStep::GetQueued(s) => CreateStepView::GetQueued(s@.0, s@.1),
            CreateStep::CreateJobGroup(s) => CreateStepView::CreateJobGroup(s@.0, s@.1),
            CreateStep::NotifyScheduler(s) => CreateStepView::NotifyScheduler(s@.0, s@.1),
            CreateStep::CreateAuditEntry(s) => CreateStepView::CreateAuditEntry(s@.0, s@.1),
            CreateStep::Done(Ok(group)) => CreateStepView::Done(Ok(group@)),
            CreateStep::Done(Err(err)) => CreateStepView::Done(Err(*err)),
        }
    }
}

/// Starts to create a job group: the target of the request has to be parsed.
pub fn job_group_create(msg: JobGroupSpec, legacy_project: bool) -> (step: CreateStep)
    ensures
        step@ == CreateStepView::ParseTarget(msg, legacy_project),
{
    CreateStep::ParseTarget(ParseTarget { msg, legacy_project })
}

/// Goes on with a request whose target was accepted: the project has to be found in the graph.
pub fn job_group_create_old(msg: JobGroupSpec, target: PackageTarget, legacy_project: bool) -> (step:
    CreateStep)
    ensures
        step@ == CreateStepView::ResolveProject(
            OrderView { msg, legacy_project, target: target.name@ },
        ),
{
    CreateStep::ResolveProject(ResolveProject { order: Order { msg, legacy_project, target } })
}

fn is_supported(build_targets: &[PackageTarget], target: &PackageTarget) -> (b: bool)
    ensures
        b == supported(build_targets@, target.name@),
{
    let mut i: usize = 0;
    while i < build_targets.len()
        invariant
            i <= build_targets@.len(),
            forall|j: int| 0 <= j < i ==> (#[trigger] build_targets@[j]).name@ != target.name@,
        decreases build_targets@.len() - i,
    {
        if build_targets[i].name == target.name {
            return true;
        }
        i = i + 1;
    }
    false
}

impl ParseTarget {
    /// The text to parse.
    pub fn target(&self) -> (target: &String)
        ensures
            *target == self@.0.target,
    {
        &self.msg.target
    }

    /// Refuses a target that is malformed, `None`, or that is not among `build_targets`.
    pub fn resume(self, target: Option<PackageTarget>, build_targets: &[PackageTarget]) -> (step: CreateStep)
        ensures
            step@ == after_target(self@.0, self@.1, target, build_targets@),
    {
        match target {
            Some(target) => {
                if is_supported(build_targets, &target) {
                    job_group_create_old(self.msg, target, self.legacy_project)
                } else {
                    CreateStep::Done(Err(Error::NotFound))
                }
            },
            None => CreateStep::Done(Err(Error::NotFound)),
        }
    }
}

impl ResolveProject {
    /// The project to find in the graph.
    pub fn query(&self) -> (query: GraphQuery)
        ensures
            query.name@ == project_name(self@.msg),
            query.target@ == self@.msg.target@,
    {
        GraphQuery { target: self.order.msg.target.clone(), name: self.order.project_name() }
    }

    /// Refuses a target that has no graph. A project that the graph does not hold is no
    /// hindrance.
    pub fn resume(self, resolution: Resolution) -> (step: CreateStep)
        ensures
            step@ == self@.after_resolve(resolution),
    {
        let ident = match resolution {
            Resolution::NoGraph => return CreateStep::Done(Err(Error::NotFound)),
            Resolution::Unresolved => String::new(),
            Resolution::Resolved(ident) => ident,
        };
        CreateStep::GetProject(GetProject { order: self.order, ident })
    }
}

impl GetProject {
    /// The project to look up.
    pub fn query(&self) -> (query: ProjectQuery)
        ensures
            query.name@ == project_name(self@.0.msg),
            query.target@ == lookup_target(self@.0.target, self@.0.legacy_project),
    {
        project_query(
            &self.order.project_name(),
            &self.order.target.name,
            self.order.legacy_project,
        )
    }

    /// Refuses a project that is not built automatically, unless it is asked for by hand.
    pub fn resume(self, lookup: Result<Project, LookupError>) -> (step: CreateStep)
        ensures
            step@ == self@.0.after_project(self@.1, buildable(lookup)),
    {
        let order = self.order;
        if !is_project_buildable(&lookup) {
            match order.msg.trigger {
                JobGroupTrigger::HabClient | JobGroupTrigger::BuilderUI => (),
                _ => return CreateStep::Done(Err(Error::NotFound)),
            }
        }
        let mut projects: Vec<(String, String)> = Vec::new();
        let ghost ident = self.ident@;
        if !order.msg.deps_only || order.msg.package_only {
            projects.push((order.project_name(), self.ident));
        }
        assert(projects.deep_view() =~= root_projects(order.msg, ident));
        if order.msg.package_only {
            order.assembled(projects)
        } else {
            CreateStep::GetRdeps(GetRdeps { order, projects })
        }
    }
}

impl GetRdeps {
    /// The package whose reverse dependencies are wanted.
    pub fn query(&self) -> (query: GraphQuery)
        ensures
            query.name@ == project_name(self@.0.msg),
            query.target@ == self@.0.msg.target@,
    {
        GraphQuery { target: self.order.msg.target.clone(), name: self.order.project_name() }
    }

    /// Starts to vet what depends on the package.
    pub fn resume(self, rdeps: Option<Vec<(String, String)>>) -> (step: CreateStep)
        ensures
            step@ == self@.0.after_rdeps(self@.1, listed(rdeps)),
    {
        let order = self.order;
        match rdeps {
            Some(rdeps) => {
                let step = populate_build_projects(
                    &order.msg,
                    order.legacy_project,
                    rdeps,
                    self.projects,
                );
                order.vetted(step)
            },
            None => order.assembled(self.projects),
        }
    }
}

impl VetOrderProject {
    /// The project to look up.
    pub fn query(&self) -> (query: ProjectQuery)
        ensures
            query.name@ == self@.1.name(),
            query.target@ == lookup_target(self@.1.target, self@.1.legacy_project),
    {
        self.step.query()
    }

    /// Goes on with the vetting.
    pub fn resume(self, lookup: Result<Project, LookupError>) -> (step: CreateStep)
        ensures
            step@ == self@.0.vetted(self@.1.after_project(buildable(lookup))),
    {
        let step = self.step.resume(lookup);
        self.order.vetted(step)
    }
}

impl VetOrderRdeps {
    /// The package whose reverse dependencies are wanted.
    pub fn query(&self) -> (query: GraphQuery)
        ensures
            query.name@ == self@.1.name(),
            query.target@ == self@.1.target,
    {
        self.step.query()
    }

    /// Goes on with the vetting.
    pub fn resume(self, rdeps: Option<Vec<(String, String)>>) -> (step: CreateStep)
        ensures
            step@ == self@.0.vetted(self@.1.after_rdeps(listed(rdeps))),
    {
        let step = self.step.resume(rdeps);
        self.order.vetted(step)
    }
}

impl GetQueued {
    /// The queued job group to look up.
    pub fn query(&self) -> (query: QueuedQuery)
        ensures
            query.project_name@ == project_name(self@.0.msg),
            query.target@ == self@.0.msg.target@,
    {
        QueuedQuery {
            project_name: self.order.project_name(),
            target: self.order.msg.target.clone(),
        }
    }

    /// Takes the job group that is queued already, or asks for a new one.
    pub fn resume(self, queued: Result<Group, LookupError>) -> (step: CreateStep)
        ensures
            step@ == self@.0.after_queued(self@.1, queued),
    {
        match queued {
            Ok(group) => CreateStep::NotifyScheduler(
                NotifyScheduler { order: self.order, group: group.job_group },
            ),
            Err(LookupError::Query(QueryError::NotFound)) => CreateStep::CreateJobGroup(
                CreateJobGroup { order: self.order, projects: self.projects },
            ),
            Err(LookupError::Query(QueryError::Failed(err))) => CreateStep::Done(
                Err(Error::DieselError(err)),
            ),
            Err(LookupError::Connection(err)) => CreateStep::Done(Err(Error::Db(err))),
        }
    }
}

impl CreateJobGroup {
    /// The request that the job group is created for.
    pub fn msg(&self) -> (msg: &JobGroupSpec)
        ensures
            *msg == self@.0.msg,
    {
        &self.order.msg
    }

    /// The projects that the job group is created with, each with its short name and full
    /// ident.
    pub fn projects(&self) -> (projects: &Vec<(String, String)>)
        ensures
            projects.deep_view() == self@.1,
    {
        &self.projects
    }

    /// Goes on with the job group that was created.
    pub fn resume(self, created: Result<JobGroup, Error>) -> (step: CreateStep)
        ensures
            step@ == self@.0.after_create(created),
    {
        match created {
            Ok(group) => CreateStep::NotifyScheduler(NotifyScheduler { order: self.order, group }),
            Err(err) => CreateStep::Done(Err(err)),
        }
    }
}

impl NotifyScheduler {
    /// Goes on once the scheduler was notified.
    pub fn resume(self, notified: Result<(), Error>) -> (step: CreateStep)
        ensures
            step@ == self@.0.after_notify(self@.1, notified),
    {
        match notified {
            Ok(_) => CreateStep::CreateAuditEntry(
                CreateAuditEntry { order: self.order, group: self.group },
            ),
            Err(err) => CreateStep::Done(Err(err)),
        }
    }
}

impl CreateAuditEntry {
    /// The entry to store.
    pub fn entry(&self) -> (entry: JobGroupAudit)
        ensures
            entry == creation_entry(self@.1.id, self@.0.msg),
    {
        add_job_group_audit_entry(self.group.id, &self.order.msg)
    }

    /// Answers with the job group, whether or not the entry was stored.
    pub fn resume(self, _stored: Result<(), Error>) -> (step: CreateStep)
        ensures
            step@ == CreateStepView::Done(Ok(self@.1)),
    {
        CreateStep::Done(Ok(self.group))
    }
}

} // verus!
