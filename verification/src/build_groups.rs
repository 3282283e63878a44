//! The build groups of what depends on a package: which packages can be built side by side, and
//! which have to wait for others.
//!
//! Each step names the one thing that is wanted next, and is resumed with the reply to it.

use protobuf::RepeatedField;
use vstd::hash_set::StringHashSet;
use vstd::prelude::*;

use crate::error::Error;
use crate::graph::{names_of, rdeps_found, GraphRdeps};
use crate::messages::{
    build_groups, BuildGroupView, GroupedView, JobGraphPackageReverseDependenciesGrouped,
    JobGraphPackageReverseDependenciesGroupedGet, JobGraphPackageReverseDependencyGroup, PackageDep,
    PackageVisibility,
};
use crate::projects::Listed;
use crate::repeated::{groups, groups_from_vec, groups_new, texts_from_vec};
use crate::text::{short_ident, short_name};

verus! {

/// Names the package row that is looked up, and whose packages may be seen.
#[derive(Debug)]
pub struct PackageQuery {
    pub ident: String,
    pub visibility: Vec<PackageVisibility>,
    pub target: String,
}

/// The short names of the packages that another one is built with.
pub open spec fn dep_names(deps: Seq<PackageDep>) -> Seq<Seq<char>> {
    deps.map_values(|dep: PackageDep| short_name(dep.origin@, dep.name@))
}

/// What the lookup of a package tells of its dependencies.
pub open spec fn needs_of(deps: Result<Vec<PackageDep>, Error>) -> Result<Seq<Seq<char>>, Error> {
    match deps {
        Ok(deps) => Ok(dep_names(deps@)),
        Err(err) => Err(err),
    }
}

/// How far a grouping has come: the packages before `index` are placed. `closed` holds the
/// groups that are complete, `in_progress` the one that is being filled, and `satisfied` the
/// package that all depend on and whatever the complete groups build.
#[verifier::ext_equal]
pub struct GroupingView {
    pub target: Seq<char>,
    pub rdeps: Seq<Listed>,
    pub index: int,
    pub closed: Seq<BuildGroupView>,
    pub in_progress: Seq<Seq<char>>,
    pub satisfied: Set<Seq<char>>,
}

/// What a grouping needs next, or the groups it arrived at.
#[verifier::ext_equal]
pub enum GroupsStepView {
    Connect(GroupingView),
    GetPackage(GroupingView),
    Done(Result<Seq<BuildGroupView>, Error>),
}

/// The grouping of what depends on `root`, with the first package placed, if there is one.
pub open spec fn grouping_start(root: Seq<char>, target: Seq<char>, rdeps: Seq<Listed>) -> GroupingView {
    GroupingView {
        target,
        rdeps,
        index: 1,
        closed: Seq::empty(),
        in_progress: if rdeps.len() > 0 {
            seq![rdeps[0].0]
        } else {
            Seq::empty()
        },
        satisfied: set![root],
    }
}

impl GroupingView {
    /// A package that has to be built in an earlier group and is not.
    pub open spec fn is_missing(self, name: Seq<char>) -> bool {
        names_of(self.rdeps).contains(name) && !self.satisfied.contains(name)
    }

    /// Nothing that a package needs has yet to be built.
    pub open spec fn can_dispatch(self, needs: Seq<Seq<char>>) -> bool {
        forall|i: int| 0 <= i < needs.len() ==> !self.is_missing(#[trigger] needs[i])
    }

    /// The group that is being filled, complete.
    pub open spec fn current(self) -> BuildGroupView {
        BuildGroupView { group_id: self.closed.len() as int, idents: self.in_progress }
    }

    /// The grouping with the group that is being filled completed, and the next one empty.
    pub open spec fn ended(self) -> GroupingView {
        GroupingView {
            closed: self.closed.push(self.current()),
            in_progress: Seq::empty(),
            satisfied: self.satisfied.union(self.in_progress.to_set()),
            ..self
        }
    }

    /// The grouping with the package at hand in the group that is being filled.
    pub open spec fn joined(self) -> GroupingView {
        GroupingView {
            in_progress: self.in_progress.push(self.rdeps[self.index].0),
            index: self.index + 1,
            ..self
        }
    }

    /// The grouping with the package at hand placed: in the group that is being filled, or,
    /// where something that it needs has yet to be built, in a new one.
    pub open spec fn placed(self, needs: Seq<Seq<char>>) -> GroupingView {
        if self.can_dispatch(needs) {
            self.joined()
        } else {
            self.ended().joined()
        }
    }

    /// All groups, the one that is being filled among them.
    pub open spec fn finished(self) -> Seq<BuildGroupView> {
        if self.in_progress.len() == 0 {
            self.closed
        } else {
            self.closed.push(self.current())
        }
    }

    /// Goes on to the next package, if there is one.
    pub open spec fn next(self) -> GroupsStepView {
        if self.index < self.rdeps.len() {
            GroupsStepView::GetPackage(self)
        } else {
            GroupsStepView::Done(Ok(self.finished()))
        }
    }

    /// A database connection was asked for.
    pub open spec fn after_connect(self, connected: Result<(), String>) -> GroupsStepView {
        match connected {
            Ok(_) => self.next(),
            Err(err) => GroupsStepView::Done(Err(Error::Db(err))),
        }
    }

    /// The package at hand was looked up.
    pub open spec fn after_package(self, needs: Result<Seq<Seq<char>>, Error>) -> GroupsStepView {
        match needs {
            Ok(needs) => self.placed(needs).next(),
            Err(err) => GroupsStepView::Done(Err(err)),
        }
    }
}

struct Grouping {
    target: String,
    rdeps: Vec<(String, String)>,
    index: usize,
    closed: Vec<JobGraphPackageReverseDependencyGroup>,
    in_progress: Vec<String>,
    satisfied: StringHashSet,
}

impl Grouping {
    spec fn view(&self) -> GroupingView {
        GroupingView {
            target: self.target@,
            rdeps: self.rdeps.deep_view(),
            index: self.index as int,
            closed: build_groups(self.closed@),
            in_progress: self.in_progress.deep_view(),
            satisfied: self.satisfied@,
        }
    }

    fn is_listed(&self, name: &String) -> (b: bool)
        ensures
            b == names_of(self@.rdeps).contains(name@),
    {
        let ghost names = names_of(self@.rdeps);
        let mut i: usize = 0;
        while i < self.rdeps.len()
            invariant
                i <= self.rdeps@.len(),
                names == names_of(self@.rdeps),
                forall|j: int| 0 <= j < i ==> #[trigger] names[j] != name@,
            decreases self.rdeps@.len() - i,
        {
            assert(names[i as int] == self.rdeps@[i as int].0@);
            if self.rdeps[i].0 == *name {
                return true;
            }
            i = i + 1;
        }
        false
    }

    fn can_dispatch(&self, deps: &Vec<PackageDep>) -> (b: bool)
        ensures
            b == self@.can_dispatch(dep_names(deps@)),
    {
        let ghost needs = dep_names(deps@);
        let mut i: usize = 0;
        while i < deps.len()
            invariant
                i <= deps@.len(),
                needs == dep_names(deps@),
                forall|j: int| 0 <= j < i ==> !self@.is_missing(#[trigger] needs[j]),
            decreases deps@.len() - i,
        {
            let name = short_ident(&deps[i].origin, &deps[i].name);
            assert(needs[i as int] == name@);
            if self.is_listed(&name) && !self.satisfied.contains(name.as_str()) {
                return false;
            }
            i = i + 1;
        }
        true
    }

    fn end_group(self) -> (grouping: Grouping)
        ensures
            grouping@ == self@.ended(),
    {
        let mut grouping = self;
        let mut i: usize = 0;
        while i < grouping.in_progress.len()
            invariant
                i <= grouping.in_progress@.len(),
                grouping@ =~= (GroupingView {
                    satisfied: self@.satisfied.union(self@.in_progress.take(i as int).to_set()),
                    ..self@
                }),
            decreases grouping.in_progress@.len() - i,
        {
            grouping.satisfied.insert(grouping.in_progress[i].clone());
            proof {
                let names = self@.in_progress;
                assert(names.take(i + 1) =~= names.take(i as int).push(names[i as int]));
                push_to_set(names.take(i as int), names[i as int]);
            }
            i = i + 1;
        }
        assert(self@.in_progress.take(i as int) =~= self@.in_progress);
        let group = JobGraphPackageReverseDependencyGroup {
            group_id: grouping.closed.len() as u64,
            idents: texts_from_vec(grouping.in_progress),
        };
        assert(group@ =~= self@.current());
        grouping.closed.push(group);
        grouping.in_progress = Vec::new();
        assert(grouping@ =~= self@.ended());
        grouping
    }

    fn finish(self) -> (closed: Vec<JobGraphPackageReverseDependencyGroup>)
        ensures
            build_groups(closed@) == self@.finished(),
    {
        let mut closed = self.closed;
        if self.in_progress.len() > 0 {
            let group = JobGraphPackageReverseDependencyGroup {
                group_id: closed.len() as u64,
                idents: texts_from_vec(self.in_progress),
            };
            assert(group@ =~= self@.current());
            closed.push(group);
        }
        assert(build_groups(closed@) =~= self@.finished());
        closed
    }

    fn next(self) -> (step: GroupsStep)
        ensures
            step@ == self@.next(),
    {
        if self.index < self.rdeps.len() {
            GroupsStep::GetPackage(GroupsPackage { grouping: self })
        } else {
            GroupsStep::Done(Ok(self.finish()))
        }
    }
}

proof fn push_to_set(names: Seq<Seq<char>>, last: Seq<char>)
    ensures
        names.push(last).to_set() == names.to_set().insert(last),
{
    let all = names.push(last);
    assert forall|name: Seq<char>| names.to_set().insert(last).contains(name) implies all.to_set().contains(
        name,
    ) by {
        if name == last {
            assert(all[names.len() as int] == name);
        } else {
            let i = choose|i: int| 0 <= i < names.len() && names[i] == name;
            assert(all[i] == name);
        }
    }
    assert(all.to_set() =~= names.to_set().insert(last));
}

/// A grouping that waits for a database connection.
pub struct GroupsConnect {
    grouping: Grouping,
}

/// A grouping that waits for the lookup of a package.
pub struct GroupsPackage {
    grouping: Grouping,
}

/// What a grouping needs next, or the groups it arrived at.
pub enum GroupsStep {
    Connect(GroupsConnect),
    GetPackage(GroupsPackage),
    Done(Result<Vec<JobGraphPackageReverseDependencyGroup>, Error>),
}

impl View for GroupsConnect {
    type V = GroupingView;

    closed spec fn view(&self) -> GroupingView {
        self.grouping.view()
    }
}

impl View for GroupsPackage {
    type V = GroupingView;

    closed spec fn view(&self) -> GroupingView {
        self.grouping.view()
    }
}

impl View for GroupsStep {
    type V = GroupsStepView;

    open spec fn view(&self) -> GroupsStepView {
        match self {
            GroupsStep::Connect(step) => GroupsStepView::Connect(step@),
            GroupsStep::GetPackage(step) => GroupsStepView::GetPackage(step@),
            GroupsStep::Done(Ok(closed)) => GroupsStepView::Done(Ok(build_groups(closed@))),
            GroupsStep::Done(Err(err)) => GroupsStepView::Done(Err(*err)),
        }
    }
}

/// Starts to group what depends on `root_ident`: a database connection is needed.
pub fn compute_rdep_build_groups(
    root_ident: String,
    target: String,
    rdeps: Vec<(String, String)>,
) -> (step: GroupsStep)
    ensures
        step@ == GroupsStepView::Connect(grouping_start(root_ident@, target@, rdeps.deep_view())),
{
    let ghost root = root_ident@;
    let mut satisfied = StringHashSet::new();
    satisfied.insert(root_ident);
    let mut in_progress: Vec<String> = Vec::new();
    if rdeps.len() > 0 {
        in_progress.push(rdeps[0].0.clone());
    }
    let grouping = Grouping {
        target,
        rdeps,
        index: 1,
        closed: Vec::new(),
        in_progress,
        satisfied,
    };
    assert(grouping@ =~= grouping_start(root, target@, rdeps.deep_view()));
    GroupsStep::Connect(GroupsConnect { grouping })
}

impl GroupsConnect {
    /// Goes on to the second package, or gives up for want of a connection. With a connection
    /// there has to be something to group.
    pub fn resume(self, connected: Result<(), String>) -> (step: GroupsStep)
        requires
            connected is Ok ==> self@.rdeps.len() > 0,
        ensures
            step@ == self@.after_connect(connected),
    {
        match connected {
            Ok(_) => self.grouping.next(),
            Err(err) => GroupsStep::Done(Err(Error::Db(err))),
        }
    }
}

impl GroupsPackage {
    #[verifier::type_invariant]
    spec fn in_range(self) -> bool {
        self.grouping.index < self.grouping.rdeps.len()
    }

    /// The package to look up.
    pub fn query(&self) -> (query: PackageQuery)
        ensures
            query.ident@ == self@.rdeps[self@.index].1,
            query.visibility@ == seq![
                PackageVisibility::Public,
                PackageVisibility::Private,
                PackageVisibility::Hidden,
            ],
            query.target@ == self@.target,
    {
        proof {
            use_type_invariant(self);
        }
        PackageQuery {
            ident: self.grouping.rdeps[self.grouping.index].1.clone(),
            visibility: vec![
                PackageVisibility::Public,
                PackageVisibility::Private,
                PackageVisibility::Hidden,
            ],
            target: self.grouping.target.clone(),
        }
    }

    /// Places the package, given what it is built with.
    pub fn resume(self, deps: Result<Vec<PackageDep>, Error>) -> (step: GroupsStep)
        ensures
            step@ == self@.after_package(needs_of(deps)),
    {
        proof {
            use_type_invariant(&self);
        }
        let deps = match deps {
            Ok(deps) => deps,
            Err(err) => return GroupsStep::Done(Err(err)),
        };
        let mut grouping = self.grouping;
        if !grouping.can_dispatch(&deps) {
            grouping = grouping.end_group();
        }
        let ghost ended = grouping@;
        grouping.in_progress.push(grouping.rdeps[grouping.index].0.clone());
        grouping.index = grouping.index + 1;
        assert(grouping@ =~= ended.joined());
        grouping.next()
    }
}

/// What the answer with the build groups needs next, or what the request is answered.
#[verifier::ext_equal]
pub enum GroupedStepView {
    Connect(JobGraphPackageReverseDependenciesGroupedGet, GroupingView),
    GetPackage(JobGraphPackageReverseDependenciesGroupedGet, GroupingView),
    Done(Result<GroupedView, Error>),
}

/// The answer that holds the given build groups.
pub open spec fn grouped_answer(
    msg: JobGraphPackageReverseDependenciesGroupedGet,
    rdeps: Seq<BuildGroupView>,
) -> GroupedView {
    GroupedView { origin: msg.origin@, name: msg.name@, rdeps }
}

/// The grouping goes on, or has ended.
pub open spec fn grouped(
    msg: JobGraphPackageReverseDependenciesGroupedGet,
    step: GroupsStepView,
) -> GroupedStepView {
    match step {
        GroupsStepView::Connect(grouping) => GroupedStepView::Connect(msg, grouping),
        GroupsStepView::GetPackage(grouping) => GroupedStepView::GetPackage(msg, grouping),
        GroupsStepView::Done(Ok(rdeps)) => GroupedStepView::Done(Ok(grouped_answer(msg, rdeps))),
        GroupsStepView::Done(Err(err)) => GroupedStepView::Done(Err(err)),
    }
}

/// What depends on the package is known.
pub open spec fn grouped_start(
    msg: JobGraphPackageReverseDependenciesGroupedGet,
    found: Option<Seq<Listed>>,
) -> GroupedStepView {
    match found {
        None => GroupedStepView::Done(Err(Error::NotFound)),
        Some(rdeps) => if rdeps.len() == 0 {
            GroupedStepView::Done(Ok(grouped_answer(msg, Seq::empty())))
        } else {
            grouped(
                msg,
                GroupsStepView::Connect(
                    grouping_start(short_name(msg.origin@, msg.name@), msg.target@, rdeps),
                ),
            )
        },
    }
}

/// An answer that waits for a database connection.
pub struct GroupedConnect {
    msg: JobGraphPackageReverseDependenciesGroupedGet,
    step: GroupsConnect,
}

/// An answer that waits for the lookup of a package.
pub struct GroupedPackage {
    msg: JobGraphPackageReverseDependenciesGroupedGet,
    step: GroupsPackage,
}

/// What the answer with the build groups needs next, or what the request is answered.
pub enum GroupedStep {
    Connect(GroupedConnect),
    GetPackage(GroupedPackage),
    Done(Result<JobGraphPackageReverseDependenciesGrouped, Error>),
}

impl View for GroupedConnect {
    type V = (JobGraphPackageReverseDependenciesGroupedGet, GroupingView);

    closed spec fn view(&self) -> (JobGraphPackageReverseDependenciesGroupedGet, GroupingView) {
        (self.msg, self.step@)
    }
}

impl View for GroupedPackage {
    type V = (JobGraphPackageReverseDependenciesGroupedGet, GroupingView);

    closed spec fn view(&self) -> (JobGraphPackageReverseDependenciesGroupedGet, GroupingView) {
        (self.msg, self.step@)
    }
}

impl View for GroupedStep {
    type V = GroupedStepView;

    open spec fn view(&self) -> GroupedStepView {
        match self {
            GroupedStep::Connect(step) => GroupedStepView::Connect(step@.0, step@.1),
            GroupedStep::GetPackage(step) => GroupedStepView::GetPackage(step@.0, step@.1),
            GroupedStep::Done(Ok(answer)) => GroupedStepView::Done(Ok(answer@)),
            GroupedStep::Done(Err(err)) => GroupedStepView::Done(Err(*err)),
        }
    }
}

fn answer_with(
    msg: JobGraphPackageReverseDependenciesGroupedGet,
    rdeps: RepeatedField<JobGraphPackageReverseDependencyGroup>,
) -> (step: GroupedStep)
    ensures
        step@ == GroupedStepView::Done(Ok(grouped_answer(msg, build_groups(groups(rdeps))))),
{
    GroupedStep::Done(
        Ok(JobGraphPackageReverseDependenciesGrouped { origin: msg.origin, name: msg.name, rdeps }),
    )
}

fn go_on(msg: JobGraphPackageReverseDependenciesGroupedGet, step: GroupsStep) -> (next: GroupedStep)
    requires
        step@ matches GroupsStepView::Connect(grouping) ==> grouping.rdeps.len() > 0,
    ensures
        next@ == grouped(msg, step@),
{
    match step {
        GroupsStep::Connect(step) => GroupedStep::Connect(GroupedConnect { msg, step }),
        GroupsStep::GetPackage(step) => GroupedStep::GetPackage(GroupedPackage { msg, step }),
        GroupsStep::Done(Ok(closed)) => answer_with(msg, groups_from_vec(closed)),
        GroupsStep::Done(Err(err)) => GroupedStep::Done(Err(err)),
    }
}

/// Starts to answer what depends on a package, in the groups in which it would be built.
pub fn job_graph_package_reverse_dependencies_grouped_get(
    msg: JobGraphPackageReverseDependenciesGroupedGet,
    found: GraphRdeps,
) -> (step: GroupedStep)
    ensures
        step@ == grouped_start(msg, rdeps_found(found)),
{
    assert(build_groups(Seq::empty()) =~= Seq::<BuildGroupView>::empty());
    match found {
        GraphRdeps::NoGraph => GroupedStep::Done(Err(Error::NotFound)),
        GraphRdeps::Unlisted => answer_with(msg, groups_new()),
        GraphRdeps::Listed(rdeps) => if rdeps.len() == 0 {
            answer_with(msg, groups_new())
        } else {
            let root_ident = short_ident(&msg.origin, &msg.name);
            let target = msg.target.clone();
            go_on(msg, compute_rdep_build_groups(root_ident, target, rdeps))
        },
    }
}

impl GroupedConnect {
    #[verifier::type_invariant]
    spec fn has_packages(self) -> bool {
        self.step@.rdeps.len() > 0
    }

    /// Goes on with the grouping.
    pub fn resume(self, connected: Result<(), String>) -> (step: GroupedStep)
        ensures
            step@ == grouped(self@.0, self@.1.after_connect(connected)),
    {
        proof {
            use_type_invariant(&self);
        }
        go_on(self.msg, self.step.resume(connected))
    }
}

impl GroupedPackage {
    /// The package to look up.
    pub fn query(&self) -> (query: PackageQuery)
        ensures
            query.ident@ == self@.1.rdeps[self@.1.index].1,
            query.visibility@ == seq![
                PackageVisibility::Public,
                PackageVisibility::Private,
                PackageVisibility::Hidden,
            ],
            query.target@ == self@.1.target,
    {
        self.step.query()
    }

    /// Goes on with the grouping.
    pub fn resume(self, deps: Result<Vec<PackageDep>, Error>) -> (step: GroupedStep)
        ensures
            step@ == grouped(self@.0, self@.1.after_package(needs_of(deps))),
    {
        go_on(self.msg, self.step.resume(deps))
    }
}

} // verus!
