//! What holds of the projects that a job group takes in, stated on the calls that select them, on
//! what the outside replies, and on the projects that come out.

use vstd::prelude::*;

use crate::error::LookupError;
use crate::messages::{JobGroupSpec, Project};
use crate::projects::{
    buildable, dependents, is_project_buildable, listed, lookup_target, populate_build_projects,
    project_query, ruled_out, selection, short_names, taken_in, vet_run, vet_run_done, vet_turn,
    vetting_ends_with_selection, vetting_start, GraphQuery, Listed, ProjectQuery, Verdict, VetProject,
    VetRdeps, VetStep, VetStepView, VettingView,
};
use crate::text::{origin_part, origin_part_ends_at_the_first_slash};

verus! {

/// A project may be built if and only if it was found and is marked for automatic builds.
pub proof fn only_marked_projects_may_be_built(lookup: Result<Project, LookupError>, b: bool)
    requires
        call_ensures(is_project_buildable, (&lookup,), b),
    ensures
        lookup matches Ok(project) ==> b == project.auto_build,
        lookup is Err ==> !b,
{
}

/// A project is looked up by its own name, for the wanted target, or, if it is a legacy project,
/// for 64-bit Linux.
pub proof fn projects_are_looked_up_by_name(
    name: String,
    target: String,
    legacy_project: bool,
    query: ProjectQuery,
)
    requires
        call_ensures(project_query, (&name, &target, legacy_project), query),
    ensures
        query.name@ == name@,
        !legacy_project ==> query.target@ == target@,
        legacy_project ==> query.target@ == "x86_64-linux"@,
{
}

/// What the outside has to say while candidates are vetted: the project row of a name and a
/// target, and what the graph of a target lists as depending on a name.
pub struct VetWorld {
    pub project: spec_fn(Seq<char>, Seq<char>) -> Result<Project, LookupError>,
    pub rdeps: spec_fn(Seq<char>, Seq<char>) -> Option<Vec<(String, String)>>,
}

/// The step comes of the one before it, which was resumed with what the outside has to say to
/// what it asked.
pub open spec fn vet_follows(step: VetStep, next: VetStep, world: VetWorld) -> bool {
    match step {
        VetStep::GetProject(waiting) => exists|query: ProjectQuery|
            {
                &&& #[trigger] call_ensures(VetProject::query, (&waiting,), query)
                &&& call_ensures(
                    VetProject::resume,
                    (waiting, (world.project)(query.name@, query.target@)),
                    next,
                )
            },
        VetStep::GetRdeps(waiting) => exists|query: GraphQuery|
            {
                &&& #[trigger] call_ensures(VetRdeps::query, (&waiting,), query)
                &&& call_ensures(
                    VetRdeps::resume,
                    (waiting, (world.rdeps)(query.name@, query.target@)),
                    next,
                )
            },
        VetStep::Done(_) => false,
    }
}

/// The step behind the one at `at` follows it.
pub open spec fn vet_follows_at(steps: Seq<VetStep>, at: int, world: VetWorld) -> bool {
    vet_follows(steps[at], steps[at + 1], world)
}

/// The candidates are vetted in the given steps, one after the other.
pub open spec fn vetted_in(
    msg: JobGroupSpec,
    legacy_project: bool,
    rdeps: Vec<(String, String)>,
    projects: Vec<(String, String)>,
    world: VetWorld,
    steps: Seq<VetStep>,
) -> bool {
    &&& 0 < steps.len()
    &&& call_ensures(populate_build_projects, (&msg, legacy_project, rdeps, projects), steps[0])
    &&& forall|at: int| 0 <= at < steps.len() - 1 ==> #[trigger] vet_follows_at(steps, at, world)
}

/// The project of that name is found and marked for automatic builds.
pub open spec fn auto_builds(
    msg: JobGroupSpec,
    legacy_project: bool,
    world: VetWorld,
    name: Seq<char>,
) -> bool {
    let target = if legacy_project {
        "x86_64-linux"@
    } else {
        msg.target@
    };
    match (world.project)(name, target) {
        Ok(project) => project.auto_build,
        Err(_) => false,
    }
}

/// The graph of the wanted target lists `name` as depending on `on`.
pub open spec fn depends_on(msg: JobGroupSpec, world: VetWorld, on: Seq<char>, name: Seq<char>) -> bool {
    match (world.rdeps)(on, msg.target@) {
        Some(rdeps) => exists|i: int| 0 <= i < rdeps.len() && #[trigger] rdeps[i].0@ == name,
        None => false,
    }
}

/// The name has that origin: it is all that stands before the first slash.
pub open spec fn is_of_origin(name: Seq<char>, origin: Seq<char>) -> bool {
    &&& !origin.contains('/')
    &&& origin.is_prefix_of(name)
    &&& name == origin || name[origin.len() as int] == '/'
}

/// The candidate at `by` rules out that name: it is itself not ruled out, it may not be built,
/// and it is of that name or the name depends on it.
pub open spec fn rules_out(
    msg: JobGroupSpec,
    legacy_project: bool,
    rdeps: Seq<(String, String)>,
    world: VetWorld,
    ruled: Seq<bool>,
    by: int,
    name: Seq<char>,
) -> bool {
    &&& !ruled[by]
    &&& !auto_builds(msg, legacy_project, world, rdeps[by].0@)
    &&& name == rdeps[by].0@ || depends_on(msg, world, rdeps[by].0@, name)
}

/// `ruled` tells of each candidate whether one before it rules it out.
pub open spec fn is_ruling(
    msg: JobGroupSpec,
    legacy_project: bool,
    rdeps: Seq<(String, String)>,
    world: VetWorld,
    ruled: Seq<bool>,
) -> bool {
    &&& ruled.len() == rdeps.len()
    &&& forall|i: int|
        0 <= i < rdeps.len() ==> (#[trigger] ruled[i] <==> exists|by: int|
            0 <= by < i && #[trigger] rules_out(
                msg,
                legacy_project,
                rdeps,
                world,
                ruled,
                by,
                rdeps[i].0@,
            ))
}

/// The candidate at `i` goes into the job group: it is not ruled out, it may be built, and it is
/// of the wanted origin, if only one is wanted.
pub open spec fn goes_in(
    msg: JobGroupSpec,
    legacy_project: bool,
    rdeps: Seq<(String, String)>,
    world: VetWorld,
    ruled: Seq<bool>,
    i: int,
) -> bool {
    &&& !ruled[i]
    &&& auto_builds(msg, legacy_project, world, rdeps[i].0@)
    &&& msg.origin_only ==> is_of_origin(rdeps[i].0@, msg.origin@)
}

/// Of the packages before `upto`, those that are picked, in their order.
pub open spec fn picked(
    rdeps: Seq<(String, String)>,
    pick: spec_fn(int) -> bool,
    upto: int,
) -> Seq<Listed>
    decreases upto,
{
    if upto <= 0 {
        Seq::empty()
    } else if pick(upto - 1) {
        picked(rdeps, pick, upto - 1).push((rdeps[upto - 1].0@, rdeps[upto - 1].1@))
    } else {
        picked(rdeps, pick, upto - 1)
    }
}

/// What the outside says on each candidate.
pub open spec fn verdicts_of(
    msg: JobGroupSpec,
    legacy_project: bool,
    rdeps: Seq<Listed>,
    world: VetWorld,
) -> Seq<Verdict> {
    Seq::new(
        rdeps.len(),
        |i: int|
            Verdict {
                buildable: buildable(
                    (world.project)(rdeps[i].0, lookup_target(msg.target@, legacy_project)),
                ),
                rdeps: listed((world.rdeps)(rdeps[i].0, msg.target@)),
            },
    )
}

/// A vetting that is under way, of the same candidates and for the same request.
pub open spec fn is_placed(vetting: VettingView, start: VettingView) -> bool {
    &&& vetting.origin_only == start.origin_only
    &&& vetting.origin == start.origin
    &&& vetting.target == start.target
    &&& vetting.legacy_project == start.legacy_project
    &&& vetting.rdeps == start.rdeps
    &&& 0 <= vetting.index <= start.rdeps.len()
}

/// The step waits for a candidate of the list, or has ended.
pub open spec fn is_placed_step(step: VetStepView, start: VettingView) -> bool {
    match step {
        VetStepView::GetProject(vetting) => is_placed(vetting, start) && vetting.index
            < start.rdeps.len(),
        VetStepView::GetRdeps(vetting) => is_placed(vetting, start) && vetting.index
            < start.rdeps.len(),
        VetStepView::Done(_) => true,
    }
}

proof fn scan_stays_placed(vetting: VettingView, start: VettingView)
    requires
        is_placed(vetting, start),
    ensures
        is_placed_step(vetting.scan(), start),
    decreases start.rdeps.len() - vetting.index,
{
    if vetting.index < vetting.rdeps.len() && vetting.excluded.contains(vetting.name()) {
        scan_stays_placed(vetting.passed(), start);
    }
}

/// A turn of a vetting goes on to a candidate of the same list.
pub proof fn vet_turn_stays_placed(step: VetStepView, start: VettingView, verdicts: Seq<Verdict>)
    requires
        is_placed_step(step, start),
    ensures
        is_placed_step(vet_turn(step, verdicts), start),
{
    match step {
        VetStepView::GetProject(vetting) => {
            let verdict = verdicts[vetting.index];
            if verdict.buildable {
                scan_stays_placed(vetting.admitted().passed(), start);
            }
        },
        VetStepView::GetRdeps(vetting) => {
            let verdict = verdicts[vetting.index];
            scan_stays_placed(vetting.without(dependents(verdict.rdeps)).passed(), start);
        },
        VetStepView::Done(_) => {},
    }
}

/// A vetting starts at a candidate of its list.
pub proof fn vetting_starts_placed(start: VettingView)
    requires
        start.index == 0,
    ensures
        is_placed_step(start.scan(), start),
{
    scan_stays_placed(start, start);
}

proof fn vet_run_extends(step: VetStepView, verdicts: Seq<Verdict>, turns: nat)
    ensures
        vet_run(step, verdicts, turns + 1) == vet_turn(vet_run(step, verdicts, turns), verdicts),
    decreases turns,
{
    reveal_with_fuel(vet_run, 2);
    if turns > 0 {
        vet_run_extends(vet_turn(step, verdicts), verdicts, (turns - 1) as nat);
    }
}

proof fn vet_run_splits(step: VetStepView, verdicts: Seq<Verdict>, first: nat, more: nat)
    ensures
        vet_run(step, verdicts, first + more) == vet_run(
            vet_run(step, verdicts, first),
            verdicts,
            more,
        ),
    decreases first,
{
    if first > 0 {
        vet_run_splits(vet_turn(step, verdicts), verdicts, (first - 1) as nat, more);
    }
}

proof fn steps_run(
    msg: JobGroupSpec,
    legacy_project: bool,
    rdeps: Vec<(String, String)>,
    projects: Vec<(String, String)>,
    world: VetWorld,
    steps: Seq<VetStep>,
    at: int,
)
    requires
        vetted_in(msg, legacy_project, rdeps, projects, world, steps),
        0 <= at < steps.len(),
    ensures
        ({
            let start = vetting_start(
                msg,
                legacy_project,
                rdeps.deep_view(),
                projects.deep_view(),
            );
            let verdicts = verdicts_of(msg, legacy_project, rdeps.deep_view(), world);
            &&& steps[at]@ == vet_run(start.scan(), verdicts, at as nat)
            &&& is_placed_step(steps[at]@, start)
        }),
    decreases at,
{
    let start = vetting_start(msg, legacy_project, rdeps.deep_view(), projects.deep_view());
    let verdicts = verdicts_of(msg, legacy_project, rdeps.deep_view(), world);
    if at == 0 {
        vetting_starts_placed(start);
    } else {
        steps_run(msg, legacy_project, rdeps, projects, world, steps, at - 1);
        vet_run_extends(start.scan(), verdicts, (at - 1) as nat);
        vet_turn_stays_placed(steps[at - 1]@, start, verdicts);
        assert(vet_follows_at(steps, at - 1, world));
        match steps[at - 1] {
            VetStep::GetProject(waiting) => {
                let query = choose|query: ProjectQuery|
                    {
                        &&& #[trigger] call_ensures(VetProject::query, (&waiting,), query)
                        &&& call_ensures(
                            VetProject::resume,
                            (waiting, (world.project)(query.name@, query.target@)),
                            steps[at],
                        )
                    };
                assert(verdicts[waiting@.index].buildable == buildable(
                    (world.project)(query.name@, query.target@),
                ));
            },
            VetStep::GetRdeps(waiting) => {
                let query = choose|query: GraphQuery|
                    {
                        &&& #[trigger] call_ensures(VetRdeps::query, (&waiting,), query)
                        &&& call_ensures(
                            VetRdeps::resume,
                            (waiting, (world.rdeps)(query.name@, query.target@)),
                            steps[at],
                        )
                    };
                assert(verdicts[waiting@.index].rdeps == listed(
                    (world.rdeps)(query.name@, query.target@),
                ));
            },
            VetStep::Done(_) => {},
        }
    }
}

proof fn origin_is_unique(name: Seq<char>, origin: Seq<char>)
    ensures
        origin_part(name) == origin <==> is_of_origin(name, origin),
{
    origin_part_ends_at_the_first_slash(name);
    let part = origin_part(name);
    if is_of_origin(name, origin) {
        if part.len() < origin.len() {
            assert(name[part.len() as int] == '/');
            assert(origin[part.len() as int] == name[part.len() as int]);
            assert(origin.contains('/'));
        }
        if origin.len() < part.len() {
            assert(name[origin.len() as int] == '/');
            assert(part[origin.len() as int] == name[origin.len() as int]);
            assert(part.contains('/'));
        }
        assert(part =~= origin);
    }
}

spec fn ruling(rdeps: Seq<Listed>, verdicts: Seq<Verdict>) -> Seq<bool> {
    Seq::new(rdeps.len(), |i: int| ruled_out(rdeps, verdicts, i).contains(rdeps[i].0))
}

proof fn ruled_out_is_rules_out(
    msg: JobGroupSpec,
    legacy_project: bool,
    rdeps: Vec<(String, String)>,
    world: VetWorld,
    upto: int,
    name: Seq<char>,
)
    requires
        0 <= upto <= rdeps.len(),
    ensures
        ({
            let verdicts = verdicts_of(msg, legacy_project, rdeps.deep_view(), world);
            let ruled = ruling(rdeps.deep_view(), verdicts);
            ruled_out(rdeps.deep_view(), verdicts, upto).contains(name) <==> exists|by: int|
                0 <= by < upto && #[trigger] rules_out(
                    msg,
                    legacy_project,
                    rdeps@,
                    world,
                    ruled,
                    by,
                    name,
                )
        }),
    decreases upto,
{
    let names = rdeps.deep_view();
    let verdicts = verdicts_of(msg, legacy_project, names, world);
    let ruled = ruling(names, verdicts);
    if upto > 0 {
        let last = upto - 1;
        ruled_out_is_rules_out(msg, legacy_project, rdeps, world, last, name);
        verdict_tells(msg, legacy_project, rdeps, world, last, name);
        assert(names[last].0 == rdeps@[last].0@);
        let all = ruled_out(names, verdicts, upto);
        if all.contains(name) && !ruled_out(names, verdicts, last).contains(name) {
            assert(rules_out(msg, legacy_project, rdeps@, world, ruled, last, name));
        }
        if exists|by: int|
            0 <= by < upto && #[trigger] rules_out(
                msg,
                legacy_project,
                rdeps@,
                world,
                ruled,
                by,
                name,
            ) {
            let by = choose|by: int|
                0 <= by < upto && #[trigger] rules_out(
                    msg,
                    legacy_project,
                    rdeps@,
                    world,
                    ruled,
                    by,
                    name,
                );
            if by < last {
                assert(ruled_out(names, verdicts, last).contains(name));
            }
            assert(all.contains(name));
        }
    }
}

proof fn verdict_tells(
    msg: JobGroupSpec,
    legacy_project: bool,
    rdeps: Vec<(String, String)>,
    world: VetWorld,
    at: int,
    name: Seq<char>,
)
    requires
        0 <= at < rdeps.len(),
    ensures
        ({
            let verdict = verdicts_of(msg, legacy_project, rdeps.deep_view(), world)[at];
            &&& verdict.buildable == auto_builds(msg, legacy_project, world, rdeps@[at].0@)
            &&& dependents(verdict.rdeps).contains(name) <==> depends_on(
                msg,
                world,
                rdeps@[at].0@,
                name,
            )
        }),
{
    let verdict = verdicts_of(msg, legacy_project, rdeps.deep_view(), world)[at];
    assert(rdeps.deep_view()[at].0 == rdeps@[at].0@);
    if let Some(found) = (world.rdeps)(rdeps@[at].0@, msg.target@) {
        let names = found.deep_view();
        assert(verdict.rdeps == Some(names));
        if depends_on(msg, world, rdeps@[at].0@, name) {
            let i = choose|i: int| 0 <= i < found.len() && #[trigger] found[i].0@ == name;
            assert(names[i].0 == name);
        }
        if short_names(names).contains(name) {
            let i = choose|i: int| 0 <= i < names.len() && (#[trigger] names[i]).0 == name;
            assert(found[i].0@ == name);
        }
    }
}

/// A selection is what it started with and the candidates that go in, in their order.
pub proof fn selection_is_what_goes_in(
    msg: JobGroupSpec,
    legacy_project: bool,
    rdeps: Vec<(String, String)>,
    projects: Seq<Listed>,
    world: VetWorld,
) -> (ruled: Seq<bool>)
    ensures
        is_ruling(msg, legacy_project, rdeps@, world, ruled),
        selection(
            vetting_start(msg, legacy_project, rdeps.deep_view(), projects),
            verdicts_of(msg, legacy_project, rdeps.deep_view(), world),
            rdeps.len() as int,
        ) == projects + picked(
            rdeps@,
            |i: int| goes_in(msg, legacy_project, rdeps@, world, ruled, i),
            rdeps.len() as int,
        ),
{
    let verdicts = verdicts_of(msg, legacy_project, rdeps.deep_view(), world);
    let ruled = ruling(rdeps.deep_view(), verdicts);
    assert forall|i: int| 0 <= i < rdeps.len() implies (#[trigger] ruled[i] <==> exists|by: int|
        0 <= by < i && #[trigger] rules_out(
            msg,
            legacy_project,
            rdeps@,
            world,
            ruled,
            by,
            rdeps@[i].0@,
        )) by {
        ruled_out_is_rules_out(msg, legacy_project, rdeps, world, i, rdeps@[i].0@);
        assert(rdeps.deep_view()[i].0 == rdeps@[i].0@);
    }
    selection_upto(msg, legacy_project, rdeps, projects, world, rdeps.len() as int);
    ruled
}

proof fn selection_upto(
    msg: JobGroupSpec,
    legacy_project: bool,
    rdeps: Vec<(String, String)>,
    projects: Seq<Listed>,
    world: VetWorld,
    upto: int,
)
    requires
        0 <= upto <= rdeps.len(),
    ensures
        ({
            let verdicts = verdicts_of(msg, legacy_project, rdeps.deep_view(), world);
            let ruled = ruling(rdeps.deep_view(), verdicts);
            selection(
                vetting_start(msg, legacy_project, rdeps.deep_view(), projects),
                verdicts,
                upto,
            ) == projects + picked(
                rdeps@,
                |i: int| goes_in(msg, legacy_project, rdeps@, world, ruled, i),
                upto,
            )
        }),
    decreases upto,
{
    let names = rdeps.deep_view();
    let verdicts = verdicts_of(msg, legacy_project, names, world);
    let ruled = ruling(names, verdicts);
    let start = vetting_start(msg, legacy_project, names, projects);
    let pick = |i: int| goes_in(msg, legacy_project, rdeps@, world, ruled, i);
    if upto > 0 {
        let last = upto - 1;
        selection_upto(msg, legacy_project, rdeps, projects, world, last);
        verdict_tells(msg, legacy_project, rdeps, world, last, rdeps@[last].0@);
        assert(names[last].0 == rdeps@[last].0@ && names[last].1 == rdeps@[last].1@);
        origin_is_unique(rdeps@[last].0@, msg.origin@);
        assert(taken_in(start, verdicts, last) == pick(last));
    }
    assert(selection(start, verdicts, upto) =~= projects + picked(rdeps@, pick, upto));
}

/// Whatever the outside says, the projects that come out are those that went in at first, and
/// behind them the candidates that are not ruled out, may be built, and are of the wanted origin,
/// if only one is wanted, each under its short name and full ident and in the order in which
/// they are listed.
pub proof fn candidates_go_in_unless_ruled_out(
    msg: JobGroupSpec,
    legacy_project: bool,
    rdeps: Vec<(String, String)>,
    projects: Vec<(String, String)>,
    world: VetWorld,
    steps: Seq<VetStep>,
    result: Vec<(String, String)>,
) -> (ruled: Seq<bool>)
    requires
        vetted_in(msg, legacy_project, rdeps, projects, world, steps),
        steps.last() == VetStep::Done(result),
    ensures
        is_ruling(msg, legacy_project, rdeps@, world, ruled),
        result.deep_view() == projects.deep_view() + picked(
            rdeps@,
            |i: int| goes_in(msg, legacy_project, rdeps@, world, ruled, i),
            rdeps.len() as int,
        ),
{
    let start = vetting_start(msg, legacy_project, rdeps.deep_view(), projects.deep_view());
    let verdicts = verdicts_of(msg, legacy_project, rdeps.deep_view(), world);
    let last = (steps.len() - 1) as nat;
    let full = (2 * rdeps.deep_view().len()) as nat;
    steps_run(msg, legacy_project, rdeps, projects, world, steps, last as int);
    vetting_ends_with_selection(
        msg,
        legacy_project,
        rdeps.deep_view(),
        projects.deep_view(),
        verdicts,
    );
    let end = selection(start, verdicts, rdeps.len() as int);
    vet_run_splits(start.scan(), verdicts, last, full);
    vet_run_splits(start.scan(), verdicts, full, last);
    vet_run_done(result.deep_view(), verdicts, full);
    vet_run_done(end, verdicts, last);
    selection_is_what_goes_in(msg, legacy_project, rdeps, projects.deep_view(), world)
}

/// What is picked are picked packages, and every picked package is there.
pub proof fn picked_holds(
    rdeps: Seq<(String, String)>,
    pick: spec_fn(int) -> bool,
    upto: int,
    project: Listed,
)
    requires
        0 <= upto <= rdeps.len(),
    ensures
        picked(rdeps, pick, upto).contains(project) <==> exists|i: int|
            0 <= i < upto && #[trigger] pick(i) && rdeps[i].0@ == project.0 && rdeps[i].1@
                == project.1,
    decreases upto,
{
    if upto > 0 {
        let last = upto - 1;
        picked_holds(rdeps, pick, last, project);
        let before = picked(rdeps, pick, last);
        let all = picked(rdeps, pick, upto);
        let newest = (rdeps[last].0@, rdeps[last].1@);
        if pick(last) {
            assert(all == before.push(newest));
            assert(all[before.len() as int] == newest);
        }
        if before.contains(project) {
            let i = choose|i: int| 0 <= i < before.len() && before[i] == project;
            assert(all[i] == project);
        }
        if all.contains(project) {
            let i = choose|i: int| 0 <= i < all.len() && all[i] == project;
            if i < before.len() {
                assert(before[i] == project);
            }
        }
    }
}

/// For a request that wants one origin only, whatever else it wants, no project of another origin
/// is added: each that is added has the wanted origin before its first slash, may be built, and
/// is listed.
pub proof fn added_projects_are_wanted(
    msg: JobGroupSpec,
    legacy_project: bool,
    rdeps: Vec<(String, String)>,
    projects: Vec<(String, String)>,
    world: VetWorld,
    steps: Seq<VetStep>,
    result: Vec<(String, String)>,
    at: int,
)
    requires
        vetted_in(msg, legacy_project, rdeps, projects, world, steps),
        steps.last() == VetStep::Done(result),
        projects.len() <= at < result.len(),
    ensures
        msg.origin_only ==> is_of_origin(result[at].0@, msg.origin@),
        auto_builds(msg, legacy_project, world, result[at].0@),
        exists|i: int|
            0 <= i < rdeps.len() && (#[trigger] rdeps[i]).0@ == result[at].0@ && rdeps[i].1@
                == result[at].1@,
{
    let ruled = candidates_go_in_unless_ruled_out(
        msg,
        legacy_project,
        rdeps,
        projects,
        world,
        steps,
        result,
    );
    let pick = |i: int| goes_in(msg, legacy_project, rdeps@, world, ruled, i);
    let added = picked(rdeps@, pick, rdeps.len() as int);
    let project = result.deep_view()[at];
    assert(result.deep_view() == projects.deep_view() + added);
    assert(result.deep_view().len() == result.len());
    assert(projects.deep_view().len() == projects.len());
    assert(project == added[at - projects.len()]);
    assert(added.contains(project));
    picked_holds(rdeps@, pick, rdeps.len() as int, project);
    let i = choose|i: int|
        0 <= i < rdeps.len() && #[trigger] pick(i) && rdeps@[i].0@ == project.0 && rdeps@[i].1@
            == project.1;
    assert(goes_in(msg, legacy_project, rdeps@, world, ruled, i));
    assert(rdeps[i].0@ == result[at].0@);
}

spec fn keeps_book(step: VetStepView, start: VettingView, verdicts: Seq<Verdict>) -> bool {
    match step {
        VetStepView::GetProject(vetting) => {
            &&& is_placed_step(step, start)
            &&& vetting.excluded == ruled_out(start.rdeps, verdicts, vetting.index)
            &&& !vetting.excluded.contains(vetting.name())
        },
        VetStepView::GetRdeps(vetting) => {
            let before = ruled_out(start.rdeps, verdicts, vetting.index);
            &&& is_placed_step(step, start)
            &&& vetting.excluded == before.union(set![vetting.name()])
            &&& !before.contains(vetting.name())
            &&& !verdicts[vetting.index].buildable
        },
        VetStepView::Done(_) => true,
    }
}

proof fn scan_keeps_book(vetting: VettingView, start: VettingView, verdicts: Seq<Verdict>)
    requires
        is_placed(vetting, start),
        vetting.excluded == ruled_out(start.rdeps, verdicts, vetting.index),
    ensures
        keeps_book(vetting.scan(), start, verdicts),
        match vetting.scan() {
            VetStepView::GetProject(next) => vetting.index <= next.index,
            VetStepView::GetRdeps(_) => false,
            VetStepView::Done(_) => true,
        },
    decreases start.rdeps.len() - vetting.index,
{
    if vetting.index < vetting.rdeps.len() && vetting.excluded.contains(vetting.name()) {
        scan_keeps_book(vetting.passed(), start, verdicts);
    }
}

spec fn hand(step: VetStepView, start: VettingView) -> int {
    match step {
        VetStepView::GetProject(vetting) => 2 * vetting.index,
        VetStepView::GetRdeps(vetting) => 2 * vetting.index + 1,
        VetStepView::Done(_) => 2 * start.rdeps.len() as int,
    }
}

proof fn vet_turn_keeps_book(step: VetStepView, start: VettingView, verdicts: Seq<Verdict>)
    requires
        keeps_book(step, start, verdicts),
        step !is Done,
    ensures
        keeps_book(vet_turn(step, verdicts), start, verdicts),
        hand(step, start) < hand(vet_turn(step, verdicts), start),
{
    match step {
        VetStepView::GetProject(vetting) => {
            if verdicts[vetting.index].buildable {
                scan_keeps_book(vetting.admitted().passed(), start, verdicts);
            }
        },
        VetStepView::GetRdeps(vetting) => {
            let verdict = verdicts[vetting.index];
            let next = vetting.without(dependents(verdict.rdeps)).passed();
            assert(next.excluded =~= ruled_out(start.rdeps, verdicts, next.index));
            scan_keeps_book(next, start, verdicts);
        },
        VetStepView::Done(_) => {},
    }
}

proof fn steps_keep_book(
    msg: JobGroupSpec,
    legacy_project: bool,
    rdeps: Vec<(String, String)>,
    projects: Vec<(String, String)>,
    world: VetWorld,
    steps: Seq<VetStep>,
    at: int,
)
    requires
        vetted_in(msg, legacy_project, rdeps, projects, world, steps),
        0 <= at < steps.len(),
    ensures
        keeps_book(
            steps[at]@,
            vetting_start(msg, legacy_project, rdeps.deep_view(), projects.deep_view()),
            verdicts_of(msg, legacy_project, rdeps.deep_view(), world),
        ),
    decreases at,
{
    let start = vetting_start(msg, legacy_project, rdeps.deep_view(), projects.deep_view());
    let verdicts = verdicts_of(msg, legacy_project, rdeps.deep_view(), world);
    if at == 0 {
        scan_keeps_book(start, start, verdicts);
    } else {
        steps_keep_book(msg, legacy_project, rdeps, projects, world, steps, at - 1);
        steps_run(msg, legacy_project, rdeps, projects, world, steps, at - 1);
        steps_run(msg, legacy_project, rdeps, projects, world, steps, at);
        vet_run_extends(start.scan(), verdicts, (at - 1) as nat);
        assert(vet_follows_at(steps, at - 1, world));
        vet_turn_keeps_book(steps[at - 1]@, start, verdicts);
    }
}

proof fn hands_ascend(
    msg: JobGroupSpec,
    legacy_project: bool,
    rdeps: Vec<(String, String)>,
    projects: Vec<(String, String)>,
    world: VetWorld,
    steps: Seq<VetStep>,
    earlier: int,
    later: int,
)
    requires
        vetted_in(msg, legacy_project, rdeps, projects, world, steps),
        0 <= earlier < later < steps.len(),
    ensures
        ({
            let start = vetting_start(
                msg,
                legacy_project,
                rdeps.deep_view(),
                projects.deep_view(),
            );
            hand(steps[earlier]@, start) < hand(steps[later]@, start)
        }),
    decreases later - earlier,
{
    let start = vetting_start(msg, legacy_project, rdeps.deep_view(), projects.deep_view());
    let verdicts = verdicts_of(msg, legacy_project, rdeps.deep_view(), world);
    steps_keep_book(msg, legacy_project, rdeps, projects, world, steps, later - 1);
    steps_run(msg, legacy_project, rdeps, projects, world, steps, later - 1);
    steps_run(msg, legacy_project, rdeps, projects, world, steps, later);
    vet_run_extends(start.scan(), verdicts, (later - 1) as nat);
    assert(vet_follows_at(steps, later - 1, world));
    vet_turn_keeps_book(steps[later - 1]@, start, verdicts);
    if earlier < later - 1 {
        hands_ascend(msg, legacy_project, rdeps, projects, world, steps, earlier, later - 1);
    }
}

/// Only candidates that nothing before them rules out are looked up; and the graph is asked what
/// depends on a candidate only if it was looked up and may not be built.
pub proof fn ruled_out_candidates_are_not_looked_up(
    msg: JobGroupSpec,
    legacy_project: bool,
    rdeps: Vec<(String, String)>,
    projects: Vec<(String, String)>,
    world: VetWorld,
    steps: Seq<VetStep>,
    at: int,
) -> (of: (int, Seq<bool>))
    requires
        vetted_in(msg, legacy_project, rdeps, projects, world, steps),
        0 <= at < steps.len(),
        steps[at] !is Done,
    ensures
        0 <= of.0 < rdeps.len(),
        is_ruling(msg, legacy_project, rdeps@, world, of.1),
        !of.1[of.0],
        forall|waiting: VetProject, query: ProjectQuery|
            steps[at] == VetStep::GetProject(waiting) && #[trigger] call_ensures(
                VetProject::query,
                (&waiting,),
                query,
            ) ==> query.name@ == rdeps[of.0].0@,
        forall|waiting: VetRdeps, query: GraphQuery|
            steps[at] == VetStep::GetRdeps(waiting) && #[trigger] call_ensures(
                VetRdeps::query,
                (&waiting,),
                query,
            ) ==> query.name@ == rdeps[of.0].0@ && query.target@ == msg.target@,
        steps[at] is GetRdeps ==> !auto_builds(msg, legacy_project, world, rdeps[of.0].0@),
{
    let names = rdeps.deep_view();
    let verdicts = verdicts_of(msg, legacy_project, names, world);
    steps_keep_book(msg, legacy_project, rdeps, projects, world, steps, at);
    steps_run(msg, legacy_project, rdeps, projects, world, steps, at);
    let ruled = selection_is_what_goes_in(msg, legacy_project, rdeps, projects.deep_view(), world);
    let index = match steps[at]@ {
        VetStepView::GetProject(vetting) => vetting.index,
        VetStepView::GetRdeps(vetting) => vetting.index,
        VetStepView::Done(_) => 0,
    };
    assert(names[index].0 == rdeps@[index].0@);
    rulings_agree(msg, legacy_project, rdeps@, world, ruled, ruling(names, verdicts), index, rdeps);
    verdict_tells(msg, legacy_project, rdeps, world, index, rdeps@[index].0@);
    (index, ruled)
}

proof fn rulings_agree(
    msg: JobGroupSpec,
    legacy_project: bool,
    listed: Seq<(String, String)>,
    world: VetWorld,
    ruled: Seq<bool>,
    other: Seq<bool>,
    upto: int,
    rdeps: Vec<(String, String)>,
)
    requires
        listed == rdeps@,
        is_ruling(msg, legacy_project, listed, world, ruled),
        other == ruling(
            rdeps.deep_view(),
            verdicts_of(msg, legacy_project, rdeps.deep_view(), world),
        ),
        0 <= upto < listed.len(),
    ensures
        ruled[upto] == other[upto],
    decreases upto,
{
    let name = listed[upto].0@;
    assert forall|by: int| 0 <= by < upto implies ruled[by] == other[by] by {
        rulings_agree(msg, legacy_project, listed, world, ruled, other, by, rdeps);
    }
    ruled_out_is_rules_out(msg, legacy_project, rdeps, world, upto, name);
    assert(rdeps.deep_view()[upto].0 == name);
    assert forall|by: int| 0 <= by < upto implies #[trigger] rules_out(
        msg,
        legacy_project,
        listed,
        world,
        ruled,
        by,
        name,
    ) == rules_out(msg, legacy_project, listed, world, other, by, name) by {
        assert(ruled[by] == other[by]);
    }
    if other[upto] {
        let by = choose|by: int|
            0 <= by < upto && #[trigger] rules_out(
                msg,
                legacy_project,
                listed,
                world,
                other,
                by,
                name,
            );
        assert(rules_out(msg, legacy_project, listed, world, ruled, by, name));
    }
    if ruled[upto] {
        let by = choose|by: int|
            0 <= by < upto && #[trigger] rules_out(
                msg,
                legacy_project,
                listed,
                world,
                ruled,
                by,
                name,
            );
        assert(rules_out(msg, legacy_project, listed, world, other, by, name));
    }
}

/// There is one ruling only: which candidates are ruled out does not depend on how it is found.
pub proof fn ruling_is_unique(
    msg: JobGroupSpec,
    legacy_project: bool,
    rdeps: Vec<(String, String)>,
    world: VetWorld,
    one: Seq<bool>,
    other: Seq<bool>,
)
    requires
        is_ruling(msg, legacy_project, rdeps@, world, one),
        is_ruling(msg, legacy_project, rdeps@, world, other),
    ensures
        one == other,
{
    let found = ruling(
        rdeps.deep_view(),
        verdicts_of(msg, legacy_project, rdeps.deep_view(), world),
    );
    assert forall|i: int| 0 <= i < one.len() implies one[i] == other[i] by {
        rulings_agree(msg, legacy_project, rdeps@, world, one, found, i, rdeps);
        rulings_agree(msg, legacy_project, rdeps@, world, other, found, i, rdeps);
    }
    assert(one =~= other);
}

/// Candidates are looked up in the order in which they are listed, and none of them twice: of two
/// that are looked up one after the other, the first is listed before the second.
pub proof fn candidates_are_looked_up_in_order(
    msg: JobGroupSpec,
    legacy_project: bool,
    rdeps: Vec<(String, String)>,
    projects: Vec<(String, String)>,
    world: VetWorld,
    steps: Seq<VetStep>,
    earlier: (int, VetProject, ProjectQuery),
    later: (int, VetProject, ProjectQuery),
)
    requires
        vetted_in(msg, legacy_project, rdeps, projects, world, steps),
        0 <= earlier.0 < later.0 < steps.len(),
        steps[earlier.0] == VetStep::GetProject(earlier.1),
        steps[later.0] == VetStep::GetProject(later.1),
        call_ensures(VetProject::query, (&earlier.1,), earlier.2),
        call_ensures(VetProject::query, (&later.1,), later.2),
    ensures
        exists|i: int, j: int|
            0 <= i < j < rdeps.len() && (#[trigger] rdeps[i]).0@ == earlier.2.name@ && (
            #[trigger] rdeps[j]).0@ == later.2.name@,
{
    steps_run(msg, legacy_project, rdeps, projects, world, steps, earlier.0);
    steps_run(msg, legacy_project, rdeps, projects, world, steps, later.0);
    hands_ascend(msg, legacy_project, rdeps, projects, world, steps, earlier.0, later.0);
    let i = earlier.1@.index;
    let j = later.1@.index;
    assert(rdeps.deep_view()[i].0 == rdeps[i].0@);
    assert(rdeps.deep_view()[j].0 == rdeps[j].0@);
}

} // verus!
