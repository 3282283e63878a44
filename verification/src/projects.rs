//! Which projects may be built, and which reverse dependencies a job group takes in.
//!
//! Vetting a list of candidates takes turns with the outside: each step names what is to be
//! looked up next, and is resumed with what was found.

use vstd::hash_set::StringHashSet;
use vstd::prelude::*;

use crate::error::LookupError;
use crate::messages::{JobGroupSpec, Project};
use crate::text::{origin_of, origin_part};

verus! {

/// A package as the graph lists it: its short name and its full ident.
pub type Listed = (Seq<char>, Seq<char>);

/// Names the project row that is to be looked up.
#[derive(Debug)]
pub struct ProjectQuery {
    pub name: String,
    pub target: String,
}

/// Names the package that the graph of `target` is asked about.
#[derive(Debug)]
pub struct GraphQuery {
    pub target: String,
    pub name: String,
}

/// The target under which a project is looked up. Legacy projects are kept under one target
/// only, whatever they are built for.
pub open spec fn lookup_target(target: Seq<char>, legacy_project: bool) -> Seq<char> {
    if legacy_project {
        "x86_64-linux"@
    } else {
        target
    }
}

/// A project may be built if it was found and is marked for automatic builds.
pub open spec fn buildable(lookup: Result<Project, LookupError>) -> bool {
    lookup matches Ok(project) && project.auto_build
}

/// The query by which a project is looked up.
pub fn project_query(name: &String, target: &String, legacy_project: bool) -> (query: ProjectQuery)
    ensures
        query.name@ == name@,
        query.target@ == lookup_target(target@, legacy_project),
{
    let target = if legacy_project {
        "x86_64-linux".to_owned()
    } else {
        target.clone()
    };
    ProjectQuery { name: name.clone(), target }
}

/// Tells from the lookup of a project whether it may be built. A project that is unknown, or
/// that could not be looked up, may not.
pub fn is_project_buildable(lookup: &Result<Project, LookupError>) -> (b: bool)
    ensures
        b == buildable(*lookup),
{
    match lookup {
        Ok(project) => project.auto_build,
        Err(_) => false,
    }
}

/// The short names of a list of packages.
pub open spec fn short_names(listed: Seq<Listed>) -> Set<Seq<char>> {
    Set::new(|name: Seq<char>| exists|i: int| 0 <= i < listed.len() && (#[trigger] listed[i]).0 == name)
}

proof fn short_names_push(listed: Seq<Listed>, last: Listed)
    ensures
        short_names(listed.push(last)) == short_names(listed).insert(last.0),
{
    assert forall|name: Seq<char>| short_names(listed).insert(last.0).contains(name) implies short_names(
        listed.push(last),
    ).contains(name) by {
        if name == last.0 {
            assert(listed.push(last)[listed.len() as int].0 == name);
        } else {
            let i = choose|i: int| 0 <= i < listed.len() && (#[trigger] listed[i]).0 == name;
            assert(listed.push(last)[i].0 == name);
        }
    }
    assert(short_names(listed.push(last)) =~= short_names(listed).insert(last.0));
}

/// The short names among an answer of the graph, which may know of no package at all.
pub open spec fn dependents(rdeps: Option<Seq<Listed>>) -> Set<Seq<char>> {
    match rdeps {
        Some(listed) => short_names(listed),
        None => Set::empty(),
    }
}

/// What an answer of the graph lists.
pub open spec fn listed(rdeps: Option<Vec<(String, String)>>) -> Option<Seq<Listed>> {
    match rdeps {
        Some(rdeps) => Some(rdeps.deep_view()),
        None => None,
    }
}

/// How far a vetting has come: the candidates before `index` are decided, `excluded` holds the
/// names that were ruled out, and `projects` what the job group takes in so far.
#[verifier::ext_equal]
pub struct VettingView {
    pub origin_only: bool,
    pub origin: Seq<char>,
    pub target: Seq<char>,
    pub legacy_project: bool,
    pub rdeps: Seq<Listed>,
    pub index: int,
    pub excluded: Set<Seq<char>>,
    pub projects: Seq<Listed>,
}

/// What a vetting needs next.
#[verifier::ext_equal]
pub enum VetStepView {
    GetProject(VettingView),
    GetRdeps(VettingView),
    Done(Seq<Listed>),
}

impl VettingView {
    /// The short name of the candidate at hand.
    pub open spec fn name(self) -> Seq<char> {
        self.rdeps[self.index].0
    }

    /// The vetting with the candidate at hand decided.
    pub open spec fn passed(self) -> VettingView {
        VettingView { index: self.index + 1, ..self }
    }

    /// The vetting with further names ruled out.
    pub open spec fn without(self, names: Set<Seq<char>>) -> VettingView {
        VettingView { excluded: self.excluded.union(names), ..self }
    }

    /// The vetting with the candidate at hand taken in, unless only one origin is asked for and
    /// it is of another.
    pub open spec fn admitted(self) -> VettingView {
        if !self.origin_only || origin_part(self.name()) == self.origin {
            VettingView { projects: self.projects.push(self.rdeps[self.index]), ..self }
        } else {
            self
        }
    }

    /// Goes on to the next candidate that is not ruled out.
    pub open spec fn scan(self) -> VetStepView
        decreases self.rdeps.len() - self.index,
    {
        if self.index >= self.rdeps.len() {
            VetStepView::Done(self.projects)
        } else if self.excluded.contains(self.name()) {
            self.passed().scan()
        } else {
            VetStepView::GetProject(self)
        }
    }

    /// The candidate at hand was looked up. One that may not be built is ruled out, and so is
    /// what depends on it.
    pub open spec fn after_project(self, buildable: bool) -> VetStepView {
        if buildable {
            self.admitted().passed().scan()
        } else {
            VetStepView::GetRdeps(self.without(set![self.name()]))
        }
    }

    /// What depends on the candidate at hand is known.
    pub open spec fn after_rdeps(self, rdeps: Option<Seq<Listed>>) -> VetStepView {
        self.without(dependents(rdeps)).passed().scan()
    }
}

struct Vetting {
    origin_only: bool,
    origin: String,
    target: String,
    legacy_project: bool,
    rdeps: Vec<(String, String)>,
    index: usize,
    excluded: StringHashSet,
    projects: Vec<(String, String)>,
}

impl Vetting {
    spec fn view(&self) -> VettingView {
        VettingView {
            origin_only: self.origin_only,
            origin: self.origin@,
            target: self.target@,
            legacy_project: self.legacy_project,
            rdeps: self.rdeps.deep_view(),
            index: self.index as int,
            excluded: self.excluded@,
            projects: self.projects.deep_view(),
        }
    }

    fn scan(self) -> (step: VetStep)
        requires
            self.index <= self.rdeps@.len(),
        ensures
            step@ == self@.scan(),
    {
        let mut vetting = self;
        while vetting.index < vetting.rdeps.len() && vetting.excluded.contains(
            vetting.rdeps[vetting.index].0.as_str(),
        )
            invariant
                vetting.index <= vetting.rdeps@.len(),
                vetting@.scan() == self@.scan(),
            decreases vetting.rdeps@.len() - vetting.index,
        {
            vetting.index = vetting.index + 1;
        }
        if vetting.index < vetting.rdeps.len() {
            VetStep::GetProject(VetProject { vetting })
        } else {
            VetStep::Done(vetting.projects)
        }
    }
}

/// A vetting that waits for the lookup of a candidate.
pub struct VetProject {
    vetting: Vetting,
}

/// A vetting that waits for what depends on a candidate that may not be built.
pub struct VetRdeps {
    vetting: Vetting,
}

/// What a vetting needs next, or the projects that the job group takes in.
pub enum VetStep {
    GetProject(VetProject),
    GetRdeps(VetRdeps),
    Done(Vec<(String, String)>),
}

impl View for VetProject {
    type V = VettingView;

    closed spec fn view(&self) -> VettingView {
        self.vetting.view()
    }
}

impl View for VetRdeps {
    type V = VettingView;

    closed spec fn view(&self) -> VettingView {
        self.vetting.view()
    }
}

impl View for VetStep {
    type V = VetStepView;

    open spec fn view(&self) -> VetStepView {
        match self {
            VetStep::GetProject(step) => VetStepView::GetProject(step@),
            VetStep::GetRdeps(step) => VetStepView::GetRdeps(step@),
            VetStep::Done(projects) => VetStepView::Done(projects.deep_view()),
        }
    }
}

impl VetProject {
    #[verifier::type_invariant]
    spec fn in_range(self) -> bool {
        self.vetting.index < self.vetting.rdeps.len()
    }

    /// The project to look up.
    pub fn query(&self) -> (query: ProjectQuery)
        ensures
            query.name@ == self@.name(),
            query.target@ == lookup_target(self@.target, self@.legacy_project),
    {
        proof {
            use_type_invariant(self);
        }
        project_query(
            &self.vetting.rdeps[self.vetting.index].0,
            &self.vetting.target,
            self.vetting.legacy_project,
        )
    }

    /// Decides on the candidate, or asks for what depends on it.
    pub fn resume(self, lookup: Result<Project, LookupError>) -> (step: VetStep)
        ensures
            step@ == self@.after_project(buildable(lookup)),
    {
        proof {
            use_type_invariant(&self);
        }
        let mut vetting = self.vetting;
        let ghost start = vetting@;
        let name = vetting.rdeps[vetting.index].0.clone();
        if !is_project_buildable(&lookup) {
            vetting.excluded.insert(name);
            assert(vetting@ =~= start.without(set![start.name()]));
            return VetStep::GetRdeps(VetRdeps { vetting });
        }
        if !vetting.origin_only || origin_of(&name) == vetting.origin {
            let ident = vetting.rdeps[vetting.index].1.clone();
            vetting.projects.push((name, ident));
        }
        assert(vetting@ =~= start.admitted());
        vetting.index = vetting.index + 1;
        vetting.scan()
    }
}

impl VetRdeps {
    #[verifier::type_invariant]
    spec fn in_range(self) -> bool {
        self.vetting.index < self.vetting.rdeps.len()
    }

    /// The package whose reverse dependencies are wanted.
    pub fn query(&self) -> (query: GraphQuery)
        ensures
            query.name@ == self@.name(),
            query.target@ == self@.target,
    {
        proof {
            use_type_invariant(self);
        }
        GraphQuery {
            target: self.vetting.target.clone(),
            name: self.vetting.rdeps[self.vetting.index].0.clone(),
        }
    }

    /// Rules out what depends on the candidate.
    pub fn resume(self, rdeps: Option<Vec<(String, String)>>) -> (step: VetStep)
        ensures
            step@ == self@.after_rdeps(listed(rdeps)),
    {
        proof {
            use_type_invariant(&self);
        }
        let mut vetting = self.vetting;
        let ghost start = vetting@;
        if let Some(rdeps) = rdeps {
            let mut i: usize = 0;
            while i < rdeps.len()
                invariant
                    i <= rdeps@.len(),
                    vetting@ =~= start.without(short_names(rdeps.deep_view().take(i as int))),
                    vetting.index < vetting.rdeps.len(),
                decreases rdeps@.len() - i,
            {
                vetting.excluded.insert(rdeps[i].0.clone());
                proof {
                    let names = rdeps.deep_view();
                    assert(names.take(i + 1) =~= names.take(i as int).push(names[i as int]));
                    short_names_push(names.take(i as int), names[i as int]);
                }
                i = i + 1;
            }
            assert(rdeps.deep_view().take(i as int) =~= rdeps.deep_view());
        }
        assert(vetting@ =~= start.without(dependents(listed(rdeps))));
        vetting.index = vetting.index + 1;
        vetting.scan()
    }
}

/// The vetting of `rdeps` for a request, before any candidate was looked at.
pub open spec fn vetting_start(
    msg: JobGroupSpec,
    legacy_project: bool,
    rdeps: Seq<Listed>,
    projects: Seq<Listed>,
) -> VettingView {
    VettingView {
        origin_only: msg.origin_only,
        origin: msg.origin@,
        target: msg.target@,
        legacy_project,
        rdeps,
        index: 0,
        excluded: Set::empty(),
        projects,
    }
}

/// Starts to vet the reverse dependencies of a package. Those that may be built, and that
/// depend on none that may not, are added to `projects`.
pub fn populate_build_projects(
    msg: &JobGroupSpec,
    legacy_project: bool,
    rdeps: Vec<(String, String)>,
    projects: Vec<(String, String)>,
) -> (step: VetStep)
    ensures
        step@ == vetting_start(*msg, legacy_project, rdeps.deep_view(), projects.deep_view()).scan(),
{
    let vetting = Vetting {
        origin_only: msg.origin_only,
        origin: msg.origin.clone(),
        target: msg.target.clone(),
        legacy_project,
        rdeps,
        index: 0,
        excluded: StringHashSet::new(),
        projects,
    };
    vetting.scan()
}

/// What the outside has to say on one candidate: whether it may be built and, if it is asked,
/// what depends on it.
pub struct Verdict {
    pub buildable: bool,
    pub rdeps: Option<Seq<Listed>>,
}

/// One turn of a vetting, with the candidate at hand answered by its verdict.
pub open spec fn vet_turn(step: VetStepView, verdicts: Seq<Verdict>) -> VetStepView {
    match step {
        VetStepView::GetProject(vetting) => vetting.after_project(verdicts[vetting.index].buildable),
        VetStepView::GetRdeps(vetting) => vetting.after_rdeps(verdicts[vetting.index].rdeps),
        VetStepView::Done(_) => step,
    }
}

/// A number of turns of a vetting.
pub open spec fn vet_run(step: VetStepView, verdicts: Seq<Verdict>, turns: nat) -> VetStepView
    decreases turns,
{
    if turns == 0 {
        step
    } else {
        vet_run(vet_turn(step, verdicts), verdicts, (turns - 1) as nat)
    }
}

/// The names that the candidates before `upto` rule out. A candidate that is itself ruled out
/// is not looked up and rules out nothing.
pub open spec fn ruled_out(rdeps: Seq<Listed>, verdicts: Seq<Verdict>, upto: int) -> Set<Seq<char>>
    decreases upto,
{
    if upto <= 0 {
        Set::empty()
    } else {
        let before = ruled_out(rdeps, verdicts, upto - 1);
        let name = rdeps[upto - 1].0;
        let verdict = verdicts[upto - 1];
        if before.contains(name) || verdict.buildable {
            before
        } else {
            before.insert(name).union(dependents(verdict.rdeps))
        }
    }
}

/// The candidate at `index` is taken in: nothing before it rules it out, it may be built, and
/// it is of the origin asked for, if only one is.
pub open spec fn taken_in(start: VettingView, verdicts: Seq<Verdict>, index: int) -> bool {
    let name = start.rdeps[index].0;
    &&& !ruled_out(start.rdeps, verdicts, index).contains(name)
    &&& verdicts[index].buildable
    &&& !start.origin_only || origin_part(name) == start.origin
}

/// The projects that a job group takes in: those it started with and, of the candidates before
/// `upto`, those that are taken in, in their order.
pub open spec fn selection(start: VettingView, verdicts: Seq<Verdict>, upto: int) -> Seq<Listed>
    decreases upto,
{
    if upto <= 0 {
        start.projects
    } else if taken_in(start, verdicts, upto - 1) {
        selection(start, verdicts, upto - 1).push(start.rdeps[upto - 1])
    } else {
        selection(start, verdicts, upto - 1)
    }
}

spec fn vetting_at(start: VettingView, verdicts: Seq<Verdict>, index: int) -> VettingView {
    VettingView {
        index,
        excluded: ruled_out(start.rdeps, verdicts, index),
        projects: selection(start, verdicts, index),
        ..start
    }
}

/// A vetting that has ended stays as it is.
pub proof fn vet_run_done(projects: Seq<Listed>, verdicts: Seq<Verdict>, turns: nat)
    ensures
        vet_run(VetStepView::Done(projects), verdicts, turns) == VetStepView::Done(projects),
    decreases turns,
{
    if turns > 0 {
        vet_run_done(projects, verdicts, (turns - 1) as nat);
    }
}

proof fn vet_run_from(start: VettingView, verdicts: Seq<Verdict>, index: int, turns: nat)
    requires
        0 <= index <= start.rdeps.len(),
        turns >= 2 * (start.rdeps.len() - index),
    ensures
        vet_run(vetting_at(start, verdicts, index).scan(), verdicts, turns) == VetStepView::Done(
            selection(start, verdicts, start.rdeps.len() as int),
        ),
    decreases start.rdeps.len() - index,
{
    let here = vetting_at(start, verdicts, index);
    if index == start.rdeps.len() {
        vet_run_done(here.projects, verdicts, turns);
    } else {
        let next = vetting_at(start, verdicts, index + 1);
        let verdict = verdicts[index];
        if here.excluded.contains(here.name()) {
            assert(next =~= here.passed());
            vet_run_from(start, verdicts, index + 1, turns);
        } else if verdict.buildable {
            assert(next =~= here.admitted().passed());
            vet_run_from(start, verdicts, index + 1, (turns - 1) as nat);
        } else {
            let asked = here.without(set![here.name()]);
            assert(next =~= asked.without(dependents(verdict.rdeps)).passed());
            vet_run_from(start, verdicts, index + 1, (turns - 2) as nat);
            assert(vet_run(VetStepView::GetRdeps(asked), verdicts, (turns - 1) as nat) == vet_run(
                next.scan(),
                verdicts,
                (turns - 2) as nat,
            ));
        }
    }
}

/// Whatever the outside answers, a vetting comes to its end within two turns per candidate,
/// and ends with the selection among its candidates.
pub proof fn vetting_ends_with_selection(
    msg: JobGroupSpec,
    legacy_project: bool,
    rdeps: Seq<Listed>,
    projects: Seq<Listed>,
    verdicts: Seq<Verdict>,
)
    ensures
        ({
            let start = vetting_start(msg, legacy_project, rdeps, projects);
            vet_run(start.scan(), verdicts, (2 * rdeps.len()) as nat) == VetStepView::Done(
                selection(start, verdicts, rdeps.len() as int),
            )
        }),
{
    let start = vetting_start(msg, legacy_project, rdeps, projects);
    assert(vetting_at(start, verdicts, 0) =~= start);
    vet_run_from(start, verdicts, 0, (2 * rdeps.len()) as nat);
}

proof fn ruled_out_grows(rdeps: Seq<Listed>, verdicts: Seq<Verdict>, earlier: int, later: int)
    requires
        0 <= earlier <= later,
    ensures
        ruled_out(rdeps, verdicts, earlier).subset_of(ruled_out(rdeps, verdicts, later)),
    decreases later - earlier,
{
    if earlier < later {
        ruled_out_grows(rdeps, verdicts, earlier, later - 1);
    }
}

/// A candidate that was looked up and may not be built keeps itself, and all that depends on
/// it, out of the rest of the selection.
pub proof fn dependents_of_unbuildable_stay_out(
    start: VettingView,
    verdicts: Seq<Verdict>,
    index: int,
    later: int,
)
    requires
        0 <= index <= later,
        !ruled_out(start.rdeps, verdicts, index).contains(start.rdeps[index].0),
        !verdicts[index].buildable,
        ({
            let name = start.rdeps[later].0;
            name == start.rdeps[index].0 || dependents(verdicts[index].rdeps).contains(name)
        }),
    ensures
        !taken_in(start, verdicts, later),
{
    if index < later {
        ruled_out_grows(start.rdeps, verdicts, index + 1, later);
    }
}

/// What the outside lists as depending on the candidates comes from one graph: `graph` maps a
/// short name to those of all packages that depend on it, directly or by way of others.
pub open spec fn from_transitive_graph(
    rdeps: Seq<Listed>,
    verdicts: Seq<Verdict>,
    graph: spec_fn(Seq<char>) -> Set<Seq<char>>,
) -> bool {
    &&& forall|i: int|
        0 <= i < rdeps.len() && !(#[trigger] verdicts[i]).buildable ==> dependents(verdicts[i].rdeps)
            == graph(rdeps[i].0)
    &&& forall|a: Seq<char>, b: Seq<char>, c: Seq<char>|
        (#[trigger] graph(a).contains(b)) && (#[trigger] graph(b).contains(c)) ==> graph(a).contains(c)
}

/// The candidate at `index` may not be built, and is of that name or lists it as depending on it.
pub open spec fn keeps_out(
    rdeps: Seq<Listed>,
    verdicts: Seq<Verdict>,
    index: int,
    name: Seq<char>,
) -> bool {
    &&& !verdicts[index].buildable
    &&& name == rdeps[index].0 || dependents(verdicts[index].rdeps).contains(name)
}

proof fn ruled_out_by_unbuildable(
    rdeps: Seq<Listed>,
    verdicts: Seq<Verdict>,
    graph: spec_fn(Seq<char>) -> Set<Seq<char>>,
    upto: int,
    name: Seq<char>,
)
    requires
        from_transitive_graph(rdeps, verdicts, graph),
        0 <= upto <= rdeps.len(),
    ensures
        ruled_out(rdeps, verdicts, upto).contains(name) <==> exists|i: int|
            0 <= i < upto && #[trigger] keeps_out(rdeps, verdicts, i, name),
    decreases upto,
{
    if upto > 0 {
        let last = upto - 1;
        let last_name = rdeps[last].0;
        ruled_out_by_unbuildable(rdeps, verdicts, graph, last, name);
        ruled_out_by_unbuildable(rdeps, verdicts, graph, last, last_name);
        let before = ruled_out(rdeps, verdicts, last);
        let all = ruled_out(rdeps, verdicts, upto);
        if all.contains(name) && !before.contains(name) {
            assert(keeps_out(rdeps, verdicts, last, name));
        }
        if exists|i: int| 0 <= i < upto && #[trigger] keeps_out(rdeps, verdicts, i, name) {
            let i = choose|i: int| 0 <= i < upto && #[trigger] keeps_out(rdeps, verdicts, i, name);
            if i == last && before.contains(last_name) {
                let j = choose|j: int|
                    0 <= j < last && #[trigger] keeps_out(rdeps, verdicts, j, last_name);
                assert(dependents(verdicts[j].rdeps) == graph(rdeps[j].0));
                assert(dependents(verdicts[last].rdeps) == graph(last_name));
                assert(keeps_out(rdeps, verdicts, j, name));
            }
            assert(all.contains(name));
        }
    }
}

/// Where the graph lists all that depends on a package, directly or by way of others, a
/// candidate is taken in if and only if it may be built, it is of the origin asked for, if only
/// one is, and no candidate before it that may not be built bears its name or lists it as
/// depending on it.
pub proof fn taken_in_unless_an_unbuildable_keeps_it_out(
    start: VettingView,
    verdicts: Seq<Verdict>,
    graph: spec_fn(Seq<char>) -> Set<Seq<char>>,
    index: int,
)
    requires
        from_transitive_graph(start.rdeps, verdicts, graph),
        0 <= index < start.rdeps.len(),
    ensures
        ({
            let name = start.rdeps[index].0;
            taken_in(start, verdicts, index) <==> {
                &&& verdicts[index].buildable
                &&& !start.origin_only || origin_part(name) == start.origin
                &&& forall|i: int|
                    0 <= i < index ==> !#[trigger] keeps_out(start.rdeps, verdicts, i, name)
            }
        }),
{
    ruled_out_by_unbuildable(start.rdeps, verdicts, graph, index, start.rdeps[index].0);
}

/// If only one origin is wanted, a selection adds projects of that origin only.
pub proof fn selection_keeps_to_the_origin(
    start: VettingView,
    verdicts: Seq<Verdict>,
    upto: int,
    project: Listed,
)
    requires
        0 <= upto <= start.rdeps.len(),
        start.origin_only,
        selection(start, verdicts, upto).contains(project),
    ensures
        start.projects.contains(project) || origin_part(project.0) == start.origin,
{
    selection_holds_candidates(start, verdicts, upto, project);
}

/// What a selection adds to the projects it started with are candidates that are taken in.
pub proof fn selection_holds_candidates(
    start: VettingView,
    verdicts: Seq<Verdict>,
    upto: int,
    project: Listed,
)
    requires
        0 <= upto <= start.rdeps.len(),
    ensures
        selection(start, verdicts, upto).contains(project) <==> start.projects.contains(project)
            || exists|index: int|
            0 <= index < upto && #[trigger] taken_in(start, verdicts, index) && start.rdeps[index] == project,
    decreases upto,
{
    if upto > 0 {
        selection_holds_candidates(start, verdicts, upto - 1, project);
        let before = selection(start, verdicts, upto - 1);
        let last = start.rdeps[upto - 1];
        if taken_in(start, verdicts, upto - 1) {
            let all = before.push(last);
            if before.contains(project) {
                let i = choose|i: int| 0 <= i < before.len() && before[i] == project;
                assert(all[i] == project);
            }
            if last == project {
                assert(all[before.len() as int] == project);
            }
            if all.contains(project) {
                let i = choose|i: int| 0 <= i < all.len() && all[i] == project;
                if i < before.len() {
                    assert(before[i] == project);
                }
            }
        }
    }
}

} // verus!
