//! The messages that the handlers read and answer, and the rows they look up.
//!
//! A message holds as plain fields what a handler reads or sets. Whatever else it carries on
//! the wire travels with it unread, as `details`.

use protobuf::RepeatedField;
use vstd::prelude::*;

use crate::repeated::{groups, projects, texts};

verus! {

/// Where a build job stands.
#[derive(Clone, Copy, Debug, PartialEq, Eq, Structural)]
pub enum JobState {
    Pending,
    Processing,
    Complete,
    Rejected,
    Failed,
    Dispatched,
    CancelPending,
    CancelProcessing,
    CancelComplete,
}

/// Where a job group stands.
#[derive(Clone, Copy, Debug, PartialEq, Eq, Structural)]
pub enum JobGroupState {
    GroupPending,
    GroupDispatching,
    GroupComplete,
    GroupFailed,
    GroupQueued,
    GroupCanceled,
}

/// Where one project of a job group stands.
#[derive(Clone, Copy, Debug, PartialEq, Eq, Structural)]
pub enum JobGroupProjectState {
    NotStarted,
    InProgress,
    Success,
    Failure,
    Skipped,
    Canceled,
}

/// What set off a request on a job group.
#[derive(Clone, Copy, Debug, PartialEq, Eq, Structural)]
pub enum JobGroupTrigger {
    Unknown,
    BuilderUI,
    HabClient,
    Upload,
    Webhook,
}

/// What an audit entry records of a job group.
#[derive(Clone, Copy, Debug, PartialEq, Eq, Structural)]
pub enum JobGroupOperation {
    JobGroupOpCreate,
    JobGroupOpCancel,
}

/// Asks for one job.
#[derive(Debug)]
pub struct JobGet {
    pub id: u64,
}

/// A build job.
#[derive(Debug)]
pub struct Job {
    pub id: u64,
    pub state: JobState,
    pub is_archived: bool,
    pub details: Vec<u8>,
}

/// Asks for the log of a job, from line `start` on.
#[derive(Debug)]
pub struct JobLogGet {
    pub id: u64,
    pub start: u64,
}

/// A stretch of a job's log: the lines from `start` up to `stop`.
#[derive(Debug)]
pub struct JobLog {
    pub start: u64,
    pub stop: u64,
    pub is_complete: bool,
    pub content: RepeatedField<String>,
}

/// Asks for one job group.
#[derive(Debug)]
pub struct JobGroupGet {
    pub group_id: u64,
    pub include_projects: bool,
}

/// Asks for a job group to be cancelled.
#[derive(Debug)]
pub struct JobGroupCancel {
    pub group_id: u64,
    pub trigger: JobGroupTrigger,
    pub requester_id: u64,
    pub requester_name: String,
}

/// Asks for a package, and what depends on it, to be built.
#[derive(Debug)]
pub struct JobGroupSpec {
    pub origin: String,
    pub package: String,
    pub target: String,
    pub deps_only: bool,
    pub origin_only: bool,
    pub package_only: bool,
    pub trigger: JobGroupTrigger,
    pub requester_id: u64,
    pub requester_name: String,
    pub details: Vec<u8>,
}

/// One project of a job group. `job_id` is the job that builds it, once it is in progress.
#[derive(Debug)]
pub struct JobGroupProject {
    pub state: JobGroupProjectState,
    pub job_id: u64,
    pub details: Vec<u8>,
}

/// A set of projects that are built together.
#[derive(Debug)]
pub struct JobGroup {
    pub id: u64,
    pub state: JobGroupState,
    pub projects: RepeatedField<JobGroupProject>,
    pub target: String,
    pub details: Vec<u8>,
}

/// The job groups of an origin.
#[derive(Debug)]
pub struct JobGroupOriginResponse {
    pub details: Vec<u8>,
}

/// Records who did what to a job group.
#[derive(Debug)]
pub struct JobGroupAudit {
    pub group_id: u64,
    pub operation: JobGroupOperation,
    pub trigger: JobGroupTrigger,
    pub requester_id: u64,
    pub requester_name: String,
}

/// Asks what depends on a package.
#[derive(Debug)]
pub struct JobGraphPackageReverseDependenciesGet {
    pub origin: String,
    pub name: String,
    pub target: String,
}

/// The packages that depend on a package.
#[derive(Debug)]
pub struct JobGraphPackageReverseDependencies {
    pub origin: String,
    pub name: String,
    pub rdeps: RepeatedField<String>,
}

/// Asks what depends on a package, in the groups in which it would be built.
#[derive(Debug)]
pub struct JobGraphPackageReverseDependenciesGroupedGet {
    pub origin: String,
    pub name: String,
    pub target: String,
}

/// Packages that can be built side by side.
#[derive(Debug)]
pub struct JobGraphPackageReverseDependencyGroup {
    pub group_id: u64,
    pub idents: RepeatedField<String>,
}

/// The packages that depend on a package, in build order.
#[derive(Debug)]
pub struct JobGraphPackageReverseDependenciesGrouped {
    pub origin: String,
    pub name: String,
    pub rdeps: RepeatedField<JobGraphPackageReverseDependencyGroup>,
}

/// A package as it was uploaded.
#[derive(Debug)]
pub struct OriginPackage {
    pub target: String,
    pub details: Vec<u8>,
}

/// The answer to a request that has no more to report than its success.
#[derive(Debug)]
pub struct NetOk {}

/// The platform that a package is built for.
#[derive(Debug)]
pub struct PackageTarget {
    pub name: String,
}

/// A project row. `auto_build` tells whether it may be built without being asked for by hand.
#[derive(Debug)]
pub struct Project {
    pub auto_build: bool,
}

/// A package that another one is built with.
#[derive(Debug)]
pub struct PackageDep {
    pub origin: String,
    pub name: String,
}

/// Who may see a package.
#[derive(Clone, Copy, Debug, PartialEq, Eq, Structural)]
pub enum PackageVisibility {
    Public,
    Private,
    Hidden,
}

/// A job group row, with the message that stands for it.
#[derive(Debug)]
pub struct Group {
    pub id: i64,
    pub job_group: JobGroup,
}

/// A job group row that is to be inserted.
#[derive(Debug)]
pub struct NewGroup {
    pub group_state: String,
    pub project_name: String,
    pub target: String,
}

/// The packages that a job group is to build, and in what order.
#[derive(Debug)]
pub struct PackageBuildManifest {
    pub details: Vec<u8>,
}

/// What a job group tells.
#[verifier::ext_equal]
pub struct JobGroupView {
    pub id: u64,
    pub state: JobGroupState,
    pub projects: Seq<JobGroupProject>,
    pub target: Seq<char>,
    pub details: Seq<u8>,
}

impl View for JobGroup {
    type V = JobGroupView;

    open spec fn view(&self) -> JobGroupView {
        JobGroupView {
            id: self.id,
            state: self.state,
            projects: projects(self.projects),
            target: self.target@,
            details: self.details@,
        }
    }
}

/// What a build group tells.
#[verifier::ext_equal]
pub struct BuildGroupView {
    pub group_id: int,
    pub idents: Seq<Seq<char>>,
}

impl View for JobGraphPackageReverseDependencyGroup {
    type V = BuildGroupView;

    open spec fn view(&self) -> BuildGroupView {
        BuildGroupView { group_id: self.group_id as int, idents: texts(self.idents) }
    }
}

/// What the build groups of a list tell.
pub open spec fn build_groups(
    groups: Seq<JobGraphPackageReverseDependencyGroup>,
) -> Seq<BuildGroupView> {
    groups.map_values(|group: JobGraphPackageReverseDependencyGroup| group@)
}

/// What the answer with the build groups tells.
#[verifier::ext_equal]
pub struct GroupedView {
    pub origin: Seq<char>,
    pub name: Seq<char>,
    pub rdeps: Seq<BuildGroupView>,
}

impl View for JobGraphPackageReverseDependenciesGrouped {
    type V = GroupedView;

    open spec fn view(&self) -> GroupedView {
        GroupedView {
            origin: self.origin@,
            name: self.name@,
            rdeps: build_groups(groups(self.rdeps)),
        }
    }
}

/// What a stretch of a job's log tells.
#[verifier::ext_equal]
pub struct JobLogView {
    pub start: int,
    pub stop: int,
    pub is_complete: bool,
    pub content: Seq<Seq<char>>,
}

impl View for JobLog {
    type V = JobLogView;

    open spec fn view(&self) -> JobLogView {
        JobLogView {
            start: self.start as int,
            stop: self.stop as int,
            is_complete: self.is_complete,
            content: texts(self.content),
        }
    }
}

} // verus!
