//! What holds of the build groups that a request is answered with, stated on the calls that
//! answer it, on the package rows that are looked up, and on the groups that come out.

use vstd::prelude::*;

use crate::build_groups::{
    compute_rdep_build_groups, grouped_start, grouping_start,
    job_graph_package_reverse_dependencies_grouped_get, needs_of, GroupedConnect, GroupedPackage,
    GroupedStep, GroupedStepView, GroupingView, GroupsConnect, GroupsStep, PackageQuery,
};
use crate::build_groups_laws::{
    final_groups, first_error, grouped_reply, grouped_request_is_answered, grouped_run, grouped_turn,
    grouping_at, Lookup,
};
use crate::error::Error;
use crate::graph::{names_of, rdeps_found, GraphRdeps};
use crate::messages::{
    build_groups, BuildGroupView, GroupedView, JobGraphPackageReverseDependenciesGrouped,
    JobGraphPackageReverseDependenciesGroupedGet, JobGraphPackageReverseDependencyGroup, PackageDep,
    PackageVisibility,
};
use crate::projects::Listed;
use crate::repeated::{groups, texts};
use crate::text::short_name;

verus! {

/// What the outside has to say to a request: whether there is a database connection, and what
/// the package of an ident is built with for a target.
pub struct GroupedWorld {
    pub connected: Result<(), String>,
    pub deps: spec_fn(Seq<char>, Seq<char>) -> Result<Vec<PackageDep>, Error>,
}

/// The step comes of the one before it, which was resumed with what the outside has to say to
/// what it asked.
pub open spec fn grouped_follows(step: GroupedStep, next: GroupedStep, world: GroupedWorld) -> bool {
    match step {
        GroupedStep::Connect(waiting) => call_ensures(
            GroupedConnect::resume,
            (waiting, world.connected),
            next,
        ),
        GroupedStep::GetPackage(waiting) => exists|query: PackageQuery|
            {
                &&& #[trigger] call_ensures(GroupedPackage::query, (&waiting,), query)
                &&& call_ensures(
                    GroupedPackage::resume,
                    (waiting, (world.deps)(query.ident@, query.target@)),
                    next,
                )
            },
        GroupedStep::Done(_) => false,
    }
}

/// The step behind the one at `at` follows it.
pub open spec fn grouped_follows_at(steps: Seq<GroupedStep>, at: int, world: GroupedWorld) -> bool {
    grouped_follows(steps[at], steps[at + 1], world)
}

/// The request is served by the given steps, one after the other.
pub open spec fn grouped_served(
    msg: JobGraphPackageReverseDependenciesGroupedGet,
    found: GraphRdeps,
    world: GroupedWorld,
    steps: Seq<GroupedStep>,
) -> bool {
    &&& 0 < steps.len()
    &&& call_ensures(
        job_graph_package_reverse_dependencies_grouped_get,
        (msg, found),
        steps[0],
    )
    &&& forall|at: int| 0 <= at < steps.len() - 1 ==> #[trigger] grouped_follows_at(steps, at, world)
}

/// The short name of a package that another one is built with.
pub open spec fn dep_name(dep: PackageDep) -> Seq<char> {
    dep.origin@ + seq!['/'] + dep.name@
}

/// Of the packages listed before `upto`, one is of that name.
pub open spec fn listed_before(rdeps: Seq<(String, String)>, upto: int, name: Seq<char>) -> bool {
    exists|i: int| 0 <= i < upto && #[trigger] rdeps[i].0@ == name
}

/// A package that is built with `deps` has to wait for another that is listed: for one that is
/// neither the package that all depend on nor listed before `upto`.
pub open spec fn has_to_wait(
    deps: Seq<PackageDep>,
    rdeps: Seq<(String, String)>,
    root: Seq<char>,
    upto: int,
) -> bool {
    exists|d: int|
        {
            &&& 0 <= d < deps.len()
            &&& listed_before(rdeps, rdeps.len() as int, #[trigger] dep_name(deps[d]))
            &&& dep_name(deps[d]) != root
            &&& !listed_before(rdeps, upto, dep_name(deps[d]))
        }
}

/// Where the group that starts with `starts[k]` ends: where the next one starts, or at `len`.
pub open spec fn end_of(starts: Seq<int>, k: int, len: int) -> int {
    if k + 1 < starts.len() {
        starts[k + 1]
    } else {
        len
    }
}

/// The package at `at`, with the row that is looked up for it, has to wait for another that is
/// not listed before `upto`.
pub open spec fn waits(
    msg: JobGraphPackageReverseDependenciesGroupedGet,
    rdeps: Seq<(String, String)>,
    world: GroupedWorld,
    at: int,
    upto: int,
) -> bool {
    has_to_wait(
        (world.deps)(rdeps[at].1@, msg.target@)->Ok_0@,
        rdeps,
        msg.origin@ + seq!['/'] + msg.name@,
        upto,
    )
}

/// The group bears the number `k`, and holds the short names of the packages from `starts[k]` up
/// to where the next group starts, in their order.
pub open spec fn is_stretch(
    group: JobGraphPackageReverseDependencyGroup,
    k: int,
    starts: Seq<int>,
    rdeps: Seq<(String, String)>,
) -> bool {
    let end = end_of(starts, k, rdeps.len() as int);
    &&& 0 <= starts[k] < end <= rdeps.len()
    &&& group.group_id == k
    &&& texts(group.idents).len() == end - starts[k]
    &&& forall|i: int|
        starts[k] <= i < end ==> texts(group.idents)[i - starts[k]] == #[trigger] rdeps[i].0@
}

spec fn lookups_of(rdeps: Seq<Listed>, target: Seq<char>, world: GroupedWorld) -> Seq<Lookup> {
    Seq::new(rdeps.len(), |i: int| needs_of((world.deps)(rdeps[i].1, target)))
}

spec fn on_list(
    step: GroupedStepView,
    msg: JobGraphPackageReverseDependenciesGroupedGet,
    rdeps: Seq<Listed>,
) -> bool {
    match step {
        GroupedStepView::Connect(m, grouping) => {
            &&& m == msg
            &&& grouping == grouping_start(short_name(msg.origin@, msg.name@), msg.target@, rdeps)
        },
        GroupedStepView::GetPackage(m, grouping) => {
            &&& m == msg
            &&& grouping.rdeps == rdeps
            &&& grouping.target == msg.target@
            &&& 0 <= grouping.index < rdeps.len()
        },
        GroupedStepView::Done(_) => true,
    }
}

proof fn grouped_run_extends(
    step: GroupedStepView,
    connected: Result<(), String>,
    lookups: Seq<Lookup>,
    turns: nat,
)
    ensures
        grouped_run(step, connected, lookups, turns + 1) == grouped_turn(
            grouped_run(step, connected, lookups, turns),
            connected,
            lookups,
        ),
    decreases turns,
{
    reveal_with_fuel(grouped_run, 2);
    if turns > 0 {
        grouped_run_extends(
            grouped_turn(step, connected, lookups),
            connected,
            lookups,
            (turns - 1) as nat,
        );
    }
}

proof fn grouped_run_done(
    end: Result<GroupedView, Error>,
    connected: Result<(), String>,
    lookups: Seq<Lookup>,
    turns: nat,
)
    ensures
        grouped_run(GroupedStepView::Done(end), connected, lookups, turns) == GroupedStepView::Done(
            end,
        ),
    decreases turns,
{
    if turns > 0 {
        grouped_run_done(end, connected, lookups, (turns - 1) as nat);
    }
}

proof fn grouped_run_splits(
    step: GroupedStepView,
    connected: Result<(), String>,
    lookups: Seq<Lookup>,
    first: nat,
    more: nat,
)
    ensures
        grouped_run(step, connected, lookups, first + more) == grouped_run(
            grouped_run(step, connected, lookups, first),
            connected,
            lookups,
            more,
        ),
    decreases first,
{
    if first > 0 {
        grouped_run_splits(
            grouped_turn(step, connected, lookups),
            connected,
            lookups,
            (first - 1) as nat,
            more,
        );
    }
}

proof fn steps_run(
    msg: JobGraphPackageReverseDependenciesGroupedGet,
    found: GraphRdeps,
    world: GroupedWorld,
    steps: Seq<GroupedStep>,
    rdeps: Seq<Listed>,
    at: int,
)
    requires
        grouped_served(msg, found, world, steps),
        rdeps_found(found) == Some(rdeps),
        0 <= at < steps.len(),
    ensures
        steps[at]@ == grouped_run(
            grouped_start(msg, Some(rdeps)),
            world.connected,
            lookups_of(rdeps, msg.target@, world),
            at as nat,
        ),
        on_list(steps[at]@, msg, rdeps),
        steps[at]@ matches GroupedStepView::GetPackage(_, grouping) ==> grouping.index == at,
        steps[at]@ is Connect ==> at == 0,
    decreases at,
{
    let lookups = lookups_of(rdeps, msg.target@, world);
    let start = grouped_start(msg, Some(rdeps));
    if at > 0 {
        steps_run(msg, found, world, steps, rdeps, at - 1);
        grouped_run_extends(start, world.connected, lookups, (at - 1) as nat);
        assert(grouped_follows_at(steps, at - 1, world));
        let before = steps[at - 1];
        match before {
            GroupedStep::GetPackage(waiting) => {
                let query = choose|query: PackageQuery|
                    {
                        &&& #[trigger] call_ensures(GroupedPackage::query, (&waiting,), query)
                        &&& call_ensures(
                            GroupedPackage::resume,
                            (waiting, (world.deps)(query.ident@, query.target@)),
                            steps[at],
                        )
                    };
                let index = waiting@.1.index;
                assert(lookups[index] == needs_of((world.deps)(query.ident@, query.target@)));
            },
            _ => {},
        }
    }
}

/// The last of the steps holds the answer that the replies call for.
proof fn served_with(
    msg: JobGraphPackageReverseDependenciesGroupedGet,
    found: GraphRdeps,
    world: GroupedWorld,
    steps: Seq<GroupedStep>,
    rdeps: Seq<Listed>,
)
    requires
        grouped_served(msg, found, world, steps),
        rdeps_found(found) == Some(rdeps),
        steps.last() is Done,
    ensures
        steps.last()@ == GroupedStepView::Done(
            grouped_reply(msg, Some(rdeps), world.connected, lookups_of(rdeps, msg.target@, world)),
        ),
{
    let lookups = lookups_of(rdeps, msg.target@, world);
    let start = grouped_start(msg, Some(rdeps));
    let last = (steps.len() - 1) as nat;
    steps_run(msg, found, world, steps, rdeps, last as int);
    grouped_request_is_answered(msg, Some(rdeps), world.connected, lookups);
    let reply = grouped_reply(msg, Some(rdeps), world.connected, lookups);
    grouped_run_splits(start, world.connected, lookups, last, rdeps.len());
    grouped_run_splits(start, world.connected, lookups, rdeps.len(), last);
    grouped_run_done(steps.last()@->Done_0, world.connected, lookups, rdeps.len());
    grouped_run_done(reply, world.connected, lookups, last);
}

/// Without a graph the request is refused, and where nothing is listed it is answered with no
/// group; either way nothing is asked.
pub proof fn request_without_packages_is_answered_at_once(
    msg: JobGraphPackageReverseDependenciesGroupedGet,
    found: GraphRdeps,
    first: GroupedStep,
)
    requires
        call_ensures(
            job_graph_package_reverse_dependencies_grouped_get,
            (msg, found),
            first,
        ),
    ensures
        found is NoGraph ==> first == GroupedStep::Done(Err(Error::NotFound)),
        found is Unlisted || (found matches GraphRdeps::Listed(rdeps) && rdeps.len() == 0) ==> {
            &&& first matches GroupedStep::Done(Ok(answer))
            &&& answer.origin@ == msg.origin@
            &&& answer.name@ == msg.name@
            &&& groups(answer.rdeps).len() == 0
        },
        found matches GraphRdeps::Listed(rdeps) && rdeps.len() > 0 ==> first is Connect,
{
    match found {
        GraphRdeps::Listed(rdeps) => {
            assert(rdeps.deep_view().len() == rdeps.len());
        },
        _ => {},
    }
    if let GroupedStep::Done(Ok(answer)) = first {
        let told = build_groups(groups(answer.rdeps));
        assert(told.len() == groups(answer.rdeps).len());
    }
}

/// The packages are looked up one after the other, from the second on, each by its full ident and
/// for the wanted target; the first one is not looked up, and none is looked up twice.
pub proof fn packages_are_looked_up_in_turn(
    msg: JobGraphPackageReverseDependenciesGroupedGet,
    rdeps: Vec<(String, String)>,
    world: GroupedWorld,
    steps: Seq<GroupedStep>,
    at: int,
    waiting: GroupedPackage,
    query: PackageQuery,
)
    requires
        grouped_served(msg, GraphRdeps::Listed(rdeps), world, steps),
        0 <= at < steps.len(),
        steps[at] == GroupedStep::GetPackage(waiting),
        call_ensures(GroupedPackage::query, (&waiting,), query),
    ensures
        1 <= at < rdeps.len(),
        query.ident@ == rdeps[at].1@,
        query.target@ == msg.target@,
{
    let listed = rdeps.deep_view();
    steps_run(msg, GraphRdeps::Listed(rdeps), world, steps, listed, at);
    if at == 0 {
        request_without_packages_is_answered_at_once(msg, GraphRdeps::Listed(rdeps), steps[0]);
    }
    assert(listed[at].1 == rdeps[at].1@);
}

/// A grouping that is asked for by itself first needs a connection, and fails without one.
pub proof fn grouping_alone_needs_a_connection(
    root_ident: String,
    target: String,
    rdeps: Vec<(String, String)>,
    first: GroupsStep,
    waiting: GroupsConnect,
    err: String,
    next: GroupsStep,
)
    requires
        call_ensures(compute_rdep_build_groups, (root_ident, target, rdeps), first),
        first is Connect ==> {
            &&& first == GroupsStep::Connect(waiting)
            &&& call_ensures(GroupsConnect::resume, (waiting, Err(err)), next)
        },
    ensures
        first is Connect,
        next == GroupsStep::Done(Err(Error::Db(err))),
{
}

/// Every package is looked up whoever may see it.
pub proof fn packages_are_looked_up_whoever_may_see_them(waiting: GroupedPackage, query: PackageQuery)
    requires
        call_ensures(GroupedPackage::query, (&waiting,), query),
    ensures
        forall|visibility: PackageVisibility| #[trigger] query.visibility@.contains(visibility),
        query.visibility.len() == 3,
{
    assert forall|visibility: PackageVisibility| #[trigger] query.visibility@.contains(visibility) by {
        match visibility {
            PackageVisibility::Public => {
                assert(query.visibility@[0] == visibility);
            },
            PackageVisibility::Private => {
                assert(query.visibility@[1] == visibility);
            },
            PackageVisibility::Hidden => {
                assert(query.visibility@[2] == visibility);
            },
        }
    }
}

/// A request about listed packages fails if there is no connection, or if one of them from the
/// second on cannot be looked up, with the error of the first of these; and only so.
pub proof fn request_fails_with_the_first_error(
    msg: JobGraphPackageReverseDependenciesGroupedGet,
    rdeps: Vec<(String, String)>,
    world: GroupedWorld,
    steps: Seq<GroupedStep>,
    reply: Result<JobGraphPackageReverseDependenciesGrouped, Error>,
)
    requires
        rdeps.len() > 0,
        grouped_served(msg, GraphRdeps::Listed(rdeps), world, steps),
        steps.last() == GroupedStep::Done(reply),
    ensures
        world.connected matches Err(err) ==> reply == Err::<
            JobGraphPackageReverseDependenciesGrouped,
            Error,
        >(Error::Db(err)),
        reply is Ok <==> world.connected is Ok && forall|i: int|
            1 <= i < rdeps.len() ==> (#[trigger] (world.deps)(rdeps[i].1@, msg.target@)) is Ok,
        forall|i: int|
            {
                &&& world.connected is Ok
                &&& 1 <= i < rdeps.len()
                &&& (#[trigger] (world.deps)(rdeps[i].1@, msg.target@)) is Err
                &&& forall|j: int|
                    1 <= j < i ==> (#[trigger] (world.deps)(rdeps[j].1@, msg.target@)) is Ok
            } ==> reply == Err::<JobGraphPackageReverseDependenciesGrouped, Error>(
                (world.deps)(rdeps[i].1@, msg.target@)->Err_0,
            ),
{
    let listed = rdeps.deep_view();
    let lookups = lookups_of(listed, msg.target@, world);
    let len = rdeps.len() as int;
    served_with(msg, GraphRdeps::Listed(rdeps), world, steps, listed);
    assert forall|i: int| 0 <= i < len implies #[trigger] lookups[i] == needs_of(
        (world.deps)(rdeps[i].1@, msg.target@),
    ) by {
        assert(listed[i].1 == rdeps[i].1@);
    }
    let at = first_failing(lookups, 1, len);
    if at == len {
        assert forall|i: int| 1 <= i < rdeps.len() implies (#[trigger] (world.deps)(
            rdeps[i].1@,
            msg.target@,
        )) is Ok by {
            assert(lookups[i] is Ok);
        }
    } else {
        assert(lookups[at] is Err);
        assert((world.deps)(rdeps[at].1@, msg.target@) is Err);
        assert forall|i: int|
            {
                &&& 1 <= i < rdeps.len()
                &&& (#[trigger] (world.deps)(rdeps[i].1@, msg.target@)) is Err
                &&& forall|j: int|
                    1 <= j < i ==> (#[trigger] (world.deps)(rdeps[j].1@, msg.target@)) is Ok
            } implies i == at by {
            assert(lookups[i] is Err);
            if at < i {
                assert((world.deps)(rdeps[at].1@, msg.target@) is Ok);
            }
        }
    }
}

proof fn first_failing(lookups: Seq<Lookup>, from: int, upto: int) -> (at: int)
    requires
        from <= upto,
    ensures
        from <= at <= upto,
        forall|i: int| from <= i < at ==> (#[trigger] lookups[i]) is Ok,
        at == upto ==> first_error(lookups, from, upto) is None,
        at < upto ==> lookups[at] is Err && first_error(lookups, from, upto) == Some(
            lookups[at]->Err_0,
        ),
    decreases upto - from,
{
    if from < upto && lookups[from] is Ok {
        first_failing(lookups, from + 1, upto)
    } else {
        from
    }
}

spec fn needs_wait(needs: Seq<Seq<char>>, names: Seq<Seq<char>>, root: Seq<char>, upto: int) -> bool {
    exists|d: int|
        {
            &&& 0 <= d < needs.len()
            &&& names.contains(#[trigger] needs[d])
            &&& needs[d] != root
            &&& !names.take(upto).contains(needs[d])
        }
}

spec fn is_closed_at(
    group: BuildGroupView,
    k: int,
    starts: Seq<int>,
    root: Seq<char>,
    names: Seq<Seq<char>>,
    lookups: Seq<Lookup>,
    upto: int,
) -> bool {
    &&& 0 <= starts[k] < starts[k + 1] < upto
    &&& group.group_id == k
    &&& group.idents == names.subrange(starts[k], starts[k + 1])
    &&& needs_wait(lookups[starts[k + 1]]->Ok_0, names, root, starts[k])
}

spec fn is_cut(
    grouping: GroupingView,
    starts: Seq<int>,
    root: Seq<char>,
    rdeps: Seq<Listed>,
    lookups: Seq<Lookup>,
    upto: int,
) -> bool {
    let names = names_of(rdeps);
    &&& grouping.rdeps == rdeps
    &&& grouping.index == upto
    &&& starts.len() == grouping.closed.len() + 1
    &&& starts[0] == 0
    &&& 0 <= starts.last() < upto
    &&& grouping.in_progress == names.subrange(starts.last(), upto)
    &&& forall|name: Seq<char>| #[trigger]
        grouping.satisfied.contains(name) <==> name == root || names.take(starts.last()).contains(name)
    &&& forall|k: int|
        0 <= k < grouping.closed.len() ==> #[trigger] is_closed_at(
            grouping.closed[k],
            k,
            starts,
            root,
            names,
            lookups,
            upto,
        )
    &&& forall|k: int, i: int|
        0 <= k < starts.len() && starts[k] < i < end_of(starts, k, upto) ==> !needs_wait(
            (#[trigger] lookups[i])->Ok_0,
            names,
            root,
            #[trigger] starts[k],
        )
}

proof fn take_and_range(names: Seq<Seq<char>>, at: int, upto: int, name: Seq<char>)
    requires
        0 <= at <= upto <= names.len(),
    ensures
        names.take(upto).contains(name) <==> names.take(at).contains(name) || names.subrange(
            at,
            upto,
        ).contains(name),
{
    if names.take(upto).contains(name) {
        let i = choose|i: int| 0 <= i < upto && names.take(upto)[i] == name;
        if i < at {
            assert(names.take(at)[i] == name);
        } else {
            assert(names.subrange(at, upto)[i - at] == name);
        }
    }
    if names.take(at).contains(name) {
        let i = choose|i: int| 0 <= i < at && names.take(at)[i] == name;
        assert(names.take(upto)[i] == name);
    }
    if names.subrange(at, upto).contains(name) {
        let i = choose|i: int| 0 <= i < upto - at && names.subrange(at, upto)[i] == name;
        assert(names.take(upto)[at + i] == name);
    }
}

proof fn dispatch_is_no_wait(
    grouping: GroupingView,
    starts: Seq<int>,
    root: Seq<char>,
    rdeps: Seq<Listed>,
    lookups: Seq<Lookup>,
    upto: int,
    needs: Seq<Seq<char>>,
)
    requires
        is_cut(grouping, starts, root, rdeps, lookups, upto),
    ensures
        grouping.can_dispatch(needs) <==> !needs_wait(needs, names_of(rdeps), root, starts.last()),
{
    let names = names_of(rdeps);
    assert forall|d: int| 0 <= d < needs.len() implies (grouping.is_missing(#[trigger] needs[d]) <==> {
        &&& names.contains(needs[d])
        &&& needs[d] != root
        &&& !names.take(starts.last()).contains(needs[d])
    }) by {
        assert(grouping.satisfied.contains(needs[d]) <==> needs[d] == root || names.take(
            starts.last(),
        ).contains(needs[d]));
    }
}

proof fn grouping_is_cut(
    root: Seq<char>,
    target: Seq<char>,
    rdeps: Seq<Listed>,
    lookups: Seq<Lookup>,
    upto: int,
) -> (starts: Seq<int>)
    requires
        1 <= upto <= rdeps.len(),
    ensures
        is_cut(
            grouping_at(grouping_start(root, target, rdeps), lookups, upto),
            starts,
            root,
            rdeps,
            lookups,
            upto,
        ),
    decreases upto,
{
    let start = grouping_start(root, target, rdeps);
    let names = names_of(rdeps);
    if upto == 1 {
        let starts = seq![0int];
        assert(start.in_progress =~= names.subrange(0, 1));
        assert(names.take(0) =~= Seq::empty());
        assert(is_cut(grouping_at(start, lookups, 1), starts, root, rdeps, lookups, 1));
        starts
    } else {
        let last = upto - 1;
        let before = grouping_at(start, lookups, last);
        let old_starts = grouping_is_cut(root, target, rdeps, lookups, last);
        let needs = lookups[last]->Ok_0;
        let after = grouping_at(start, lookups, upto);
        dispatch_is_no_wait(before, old_starts, root, rdeps, lookups, last, needs);
        let begin = old_starts.last();
        if before.can_dispatch(needs) {
            assert(after.in_progress =~= names.subrange(begin, upto));
            assert forall|k: int, i: int|
                0 <= k < old_starts.len() && old_starts[k] < i < end_of(
                    old_starts,
                    k,
                    upto,
                ) implies !needs_wait(
                (#[trigger] lookups[i])->Ok_0,
                names,
                root,
                #[trigger] old_starts[k],
            ) by {
                if i == last {
                    if k + 1 < old_starts.len() {
                        assert(old_starts[k + 1] < last) by {
                            assert(is_closed_at(
                                before.closed[k],
                                k,
                                old_starts,
                                root,
                                names,
                                lookups,
                                last,
                            ));
                        }
                    }
                    assert(old_starts[k] == begin);
                } else {
                    assert(i < end_of(old_starts, k, last));
                }
            }
            assert forall|k: int| 0 <= k < after.closed.len() implies #[trigger] is_closed_at(
                after.closed[k],
                k,
                old_starts,
                root,
                names,
                lookups,
                upto,
            ) by {
                assert(is_closed_at(before.closed[k], k, old_starts, root, names, lookups, last));
            }
            old_starts
        } else {
            let starts = old_starts.push(last);
            assert(after.in_progress =~= names.subrange(last, upto));
            assert forall|name: Seq<char>| #[trigger]
                after.satisfied.contains(name) <==> name == root || names.take(last).contains(name) by {
                take_and_range(names, begin, last, name);
                assert(before.satisfied.contains(name) <==> name == root || names.take(
                    begin,
                ).contains(name));
                assert(before.in_progress.to_set().contains(name)
                    <==> before.in_progress.contains(name));
            }
            assert forall|k: int| 0 <= k < after.closed.len() implies #[trigger] is_closed_at(
                after.closed[k],
                k,
                starts,
                root,
                names,
                lookups,
                upto,
            ) by {
                assert(starts[k] == old_starts[k]);
                if k + 1 < old_starts.len() {
                    assert(is_closed_at(
                        before.closed[k],
                        k,
                        old_starts,
                        root,
                        names,
                        lookups,
                        last,
                    ));
                    assert(starts[k + 1] == old_starts[k + 1]);
                    assert(after.closed[k] == before.closed[k]);
                } else {
                    assert(starts[k + 1] == last);
                    assert(after.closed[k] == before.current());
                }
            }
            assert forall|k: int, i: int|
                0 <= k < starts.len() && starts[k] < i < end_of(starts, k, upto) implies !needs_wait(
                (#[trigger] lookups[i])->Ok_0,
                names,
                root,
                #[trigger] starts[k],
            ) by {
                if k < old_starts.len() {
                    assert(starts[k] == old_starts[k]);
                    assert(i < end_of(old_starts, k, last));
                }
            }
            starts
        }
    }
}

proof fn wait_in_rows(
    deps: Vec<PackageDep>,
    rdeps: Vec<(String, String)>,
    root: Seq<char>,
    upto: int,
)
    requires
        0 <= upto <= rdeps.len(),
    ensures
        needs_wait(needs_of(Ok(deps))->Ok_0, names_of(rdeps.deep_view()), root, upto) <==> has_to_wait(
            deps@,
            rdeps@,
            root,
            upto,
        ),
{
    let needs = needs_of(Ok(deps))->Ok_0;
    let names = names_of(rdeps.deep_view());
    assert(needs.len() == deps.len());
    assert forall|d: int| 0 <= d < deps.len() implies #[trigger] needs[d] == dep_name(deps[d]) by {
        assert(needs[d] =~= dep_name(deps[d]));
    }
    assert forall|i: int| 0 <= i < rdeps.len() implies #[trigger] names[i] == rdeps[i].0@ by {}
    assert forall|name: Seq<char>, end: int|
        0 <= end <= rdeps.len() implies (#[trigger] names.take(end).contains(name)
        <==> listed_before(rdeps@, end, name)) by {
        if names.take(end).contains(name) {
            let i = choose|i: int| 0 <= i < end && names.take(end)[i] == name;
            assert(rdeps@[i].0@ == name);
        }
        if listed_before(rdeps@, end, name) {
            let i = choose|i: int| 0 <= i < end && #[trigger] rdeps@[i].0@ == name;
            assert(names.take(end)[i] == name);
        }
    }
    assert(names.take(rdeps.len() as int) =~= names);
    if needs_wait(needs, names, root, upto) {
        let d = choose|d: int|
            {
                &&& 0 <= d < needs.len()
                &&& names.contains(#[trigger] needs[d])
                &&& needs[d] != root
                &&& !names.take(upto).contains(needs[d])
            };
        assert(needs[d] == dep_name(deps[d]));
        assert(names.take(rdeps.len() as int).contains(needs[d]));
    }
    if has_to_wait(deps@, rdeps@, root, upto) {
        let d = choose|d: int|
            {
                &&& 0 <= d < deps.len()
                &&& listed_before(rdeps@, rdeps.len() as int, #[trigger] dep_name(deps[d]))
                &&& dep_name(deps[d]) != root
                &&& !listed_before(rdeps@, upto, dep_name(deps[d]))
            };
        assert(needs[d] == dep_name(deps[d]));
        assert(names.take(rdeps.len() as int).contains(needs[d]));
        assert(!names.take(upto).contains(needs[d]));
    }
}

/// The groups that a request is answered with cut the list of packages into stretches, in order
/// and without gap, where `starts` tells where each of them starts. A package stays in a stretch
/// only if, of all it is built with, it has to wait for nothing that is not listed before the
/// stretch; and a new stretch starts only with a package that would have had to wait in the one
/// before it.
pub proof fn groups_cut_the_list_where_a_package_has_to_wait(
    msg: JobGraphPackageReverseDependenciesGroupedGet,
    rdeps: Vec<(String, String)>,
    world: GroupedWorld,
    steps: Seq<GroupedStep>,
    answer: JobGraphPackageReverseDependenciesGrouped,
) -> (starts: Seq<int>)
    requires
        rdeps.len() > 0,
        grouped_served(msg, GraphRdeps::Listed(rdeps), world, steps),
        steps.last() == GroupedStep::Done(Ok(answer)),
    ensures
        answer.origin@ == msg.origin@,
        answer.name@ == msg.name@,
        starts.len() == groups(answer.rdeps).len(),
        starts[0] == 0,
        forall|k: int|
            0 <= k < starts.len() ==> #[trigger] is_stretch(
                groups(answer.rdeps)[k],
                k,
                starts,
                rdeps@,
            ),
        forall|k: int, i: int|
            0 <= k < starts.len() && starts[k] < i < end_of(starts, k, rdeps.len() as int)
                ==> !#[trigger] waits(msg, rdeps@, world, i, starts[k]),
        forall|k: int|
            0 <= k < starts.len() - 1 ==> #[trigger] waits(
                msg,
                rdeps@,
                world,
                end_of(starts, k, rdeps.len() as int),
                starts[k],
            ),
{
    let listed = rdeps.deep_view();
    let names = names_of(listed);
    let lookups = lookups_of(listed, msg.target@, world);
    let len = rdeps.len() as int;
    let root = short_name(msg.origin@, msg.name@);
    assert(root =~= msg.origin@ + seq!['/'] + msg.name@);
    request_fails_with_the_first_error(msg, rdeps, world, steps, Ok(answer));
    served_with(msg, GraphRdeps::Listed(rdeps), world, steps, listed);
    let starts = grouping_is_cut(root, msg.target@, listed, lookups, len);
    let start = grouping_start(root, msg.target@, listed);
    let last = grouping_at(start, lookups, len);
    let told = build_groups(groups(answer.rdeps));
    assert(told == final_groups(start, lookups));
    assert(told.len() == starts.len());
    assert forall|i: int| 0 <= i < len implies #[trigger] lookups[i] == needs_of(
        (world.deps)(rdeps[i].1@, msg.target@),
    ) by {
        assert(listed[i].1 == rdeps[i].1@);
    }
    assert forall|k: int| 0 <= k < starts.len() implies #[trigger] is_stretch(
        groups(answer.rdeps)[k],
        k,
        starts,
        rdeps@,
    ) by {
        let end = end_of(starts, k, len);
        let group = groups(answer.rdeps)[k];
        if k < last.closed.len() {
            assert(is_closed_at(last.closed[k], k, starts, root, names, lookups, len));
        }
        assert(told[k] == group@);
        assert(texts(group.idents) == names.subrange(starts[k], end));
        assert forall|i: int| starts[k] <= i < end implies texts(group.idents)[i - starts[k]]
            == #[trigger] rdeps[i].0@ by {
            assert(names[i] == rdeps[i].0@);
        }
    }
    assert forall|k: int, i: int|
        0 <= k < starts.len() && starts[k] < i < end_of(
            starts,
            k,
            rdeps.len() as int,
        ) implies !#[trigger] waits(msg, rdeps@, world, i, starts[k]) by {
        assert(is_stretch(groups(answer.rdeps)[k], k, starts, rdeps@));
        assert((world.deps)(rdeps[i].1@, msg.target@) is Ok);
        assert(!needs_wait(lookups[i]->Ok_0, names, root, starts[k]));
        wait_in_rows((world.deps)(rdeps[i].1@, msg.target@)->Ok_0, rdeps, root, starts[k]);
    }
    assert forall|k: int| 0 <= k < starts.len() - 1 implies #[trigger] waits(
        msg,
        rdeps@,
        world,
        end_of(starts, k, rdeps.len() as int),
        starts[k],
    ) by {
        let i = starts[k + 1];
        assert(is_closed_at(last.closed[k], k, starts, root, names, lookups, len));
        assert((world.deps)(rdeps[i].1@, msg.target@) is Ok);
        wait_in_rows((world.deps)(rdeps[i].1@, msg.target@)->Ok_0, rdeps, root, starts[k]);
    }
    starts
}

/// Of packages that are listed in build order, each is in a later group than every listed package
/// that it is built with, but for the one that all depend on: of the packages that one in group
/// `k` is built with, those that are listed are in a group before `k`.
pub proof fn what_a_package_is_built_with_is_in_an_earlier_group(
    msg: JobGraphPackageReverseDependenciesGroupedGet,
    rdeps: Vec<(String, String)>,
    world: GroupedWorld,
    steps: Seq<GroupedStep>,
    answer: JobGraphPackageReverseDependenciesGrouped,
    k: int,
    position: int,
    deps: Vec<PackageDep>,
    d: int,
) -> (earlier: (int, int))
    requires
        rdeps.len() > 0,
        grouped_served(msg, GraphRdeps::Listed(rdeps), world, steps),
        steps.last() == GroupedStep::Done(Ok(answer)),
        forall|i: int, j: int|
            0 <= i < j < rdeps.len() ==> (#[trigger] rdeps[i]).0@ != (#[trigger] rdeps[j]).0@,
        forall|i: int, e: int|
            1 <= i < rdeps.len() && 0 <= e < (world.deps)(
                (#[trigger] rdeps[i]).1@,
                msg.target@,
            )->Ok_0.len() ==> {
                let name = #[trigger] dep_name((world.deps)(rdeps[i].1@, msg.target@)->Ok_0[e]);
                ||| name == msg.origin@ + seq!['/'] + msg.name@
                ||| listed_before(rdeps@, i, name)
                ||| !listed_before(rdeps@, rdeps.len() as int, name)
            },
        0 <= k < groups(answer.rdeps).len(),
        0 <= position < texts(groups(answer.rdeps)[k].idents).len(),
        k > 0 || position > 0,
        exists|i: int|
            {
                &&& 0 <= i < rdeps.len()
                &&& (#[trigger] rdeps[i]).0@ == texts(groups(answer.rdeps)[k].idents)[position]
                &&& (world.deps)(rdeps[i].1@, msg.target@) == Ok::<Vec<PackageDep>, Error>(deps)
            },
        0 <= d < deps.len(),
        listed_before(rdeps@, rdeps.len() as int, dep_name(deps[d])),
        dep_name(deps[d]) != msg.origin@ + seq!['/'] + msg.name@,
    ensures
        0 <= earlier.0 < k,
        0 <= earlier.1 < texts(groups(answer.rdeps)[earlier.0].idents).len(),
        texts(groups(answer.rdeps)[earlier.0].idents)[earlier.1] == dep_name(deps[d]),
{
    let len = rdeps.len() as int;
    let starts = groups_cut_the_list_where_a_package_has_to_wait(msg, rdeps, world, steps, answer);
    let root = msg.origin@ + seq!['/'] + msg.name@;
    let end = end_of(starts, k, len);
    assert forall|m: int| 0 <= m < starts.len() implies starts[m] < #[trigger] end_of(
        starts,
        m,
        len,
    ) by {
        assert(is_stretch(groups(answer.rdeps)[m], m, starts, rdeps@));
    }
    assert(is_stretch(groups(answer.rdeps)[k], k, starts, rdeps@));
    let here = starts[k] + position;
    assert(texts(groups(answer.rdeps)[k].idents)[here - starts[k]] == rdeps[here].0@);
    let i = choose|i: int|
        {
            &&& 0 <= i < rdeps.len()
            &&& (#[trigger] rdeps[i]).0@ == texts(groups(answer.rdeps)[k].idents)[position]
            &&& (world.deps)(rdeps[i].1@, msg.target@) == Ok::<Vec<PackageDep>, Error>(deps)
        };
    assert(i == here) by {
        if i < here {
            assert(rdeps[i].0@ != rdeps[here].0@);
        }
        if here < i {
            assert(rdeps[here].0@ != rdeps[i].0@);
        }
    }
    let name = dep_name(deps[d]);
    if k > 0 {
        starts_ascend(starts, len, 0, k);
    }
    assert(name == dep_name((world.deps)(rdeps[i].1@, msg.target@)->Ok_0[d]));
    assert(listed_before(rdeps@, i, name));
    if i > starts[k] {
        assert(!waits(msg, rdeps@, world, i, starts[k]));
        assert(listed_before(rdeps@, starts[k], name));
    }
    let j = choose|j: int| 0 <= j < starts[k] && #[trigger] rdeps@[j].0@ == name;
    let m = stretch_of(starts, len, j, k);
    assert(is_stretch(groups(answer.rdeps)[m], m, starts, rdeps@));
    assert(texts(groups(answer.rdeps)[m].idents)[j - starts[m]] == rdeps[j].0@);
    (m, j - starts[m])
}

proof fn starts_ascend(starts: Seq<int>, len: int, a: int, b: int)
    requires
        forall|k: int| 0 <= k < starts.len() ==> starts[k] < #[trigger] end_of(starts, k, len),
        0 <= a < b < starts.len(),
    ensures
        starts[a] < starts[b],
    decreases b - a,
{
    assert(starts[a] < end_of(starts, a, len));
    if a + 1 < b {
        starts_ascend(starts, len, a + 1, b);
    }
}

proof fn stretch_of(starts: Seq<int>, len: int, j: int, before: int) -> (m: int)
    requires
        forall|k: int| 0 <= k < starts.len() ==> starts[k] < #[trigger] end_of(starts, k, len),
        starts.len() > 0,
        starts[0] == 0,
        0 <= before < starts.len(),
        0 <= j < starts[before],
    ensures
        0 <= m < before,
        starts[m] <= j < end_of(starts, m, len),
    decreases before,
{
    assert(starts[before - 1] < end_of(starts, before - 1, len));
    if starts[before - 1] <= j {
        before - 1
    } else {
        stretch_of(starts, len, j, before - 1)
    }
}

} // verus!
