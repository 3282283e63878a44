//! What holds of the build groups that a grouping arrives at.

use vstd::prelude::*;

use crate::build_groups::{
    grouped, grouped_answer, grouped_start, grouping_start, GroupedStepView, GroupingView,
    GroupsStepView,
};
use crate::error::Error;
use crate::graph::names_of;
use crate::messages::{BuildGroupView, GroupedView, JobGraphPackageReverseDependenciesGroupedGet};
use crate::projects::Listed;
use crate::text::short_name;

verus! {

/// What the lookup of a package tells of what it is built with.
pub type Lookup = Result<Seq<Seq<char>>, Error>;

/// One turn of a grouping, with the package at hand answered by its lookup.
pub open spec fn groups_turn(
    step: GroupsStepView,
    connected: Result<(), String>,
    lookups: Seq<Lookup>,
) -> GroupsStepView {
    match step {
        GroupsStepView::Connect(grouping) => grouping.after_connect(connected),
        GroupsStepView::GetPackage(grouping) => grouping.after_package(lookups[grouping.index]),
        GroupsStepView::Done(_) => step,
    }
}

/// A number of turns of a grouping.
pub open spec fn groups_run(
    step: GroupsStepView,
    connected: Result<(), String>,
    lookups: Seq<Lookup>,
    turns: nat,
) -> GroupsStepView
    decreases turns,
{
    if turns == 0 {
        step
    } else {
        groups_run(groups_turn(step, connected, lookups), connected, lookups, (turns - 1) as nat)
    }
}

/// The packages from the second up to `upto` were looked up with success.
pub open spec fn looked_up(lookups: Seq<Lookup>, upto: int) -> bool {
    forall|i: int| 1 <= i < upto ==> (#[trigger] lookups[i]) is Ok
}

/// The grouping with the packages before `upto` placed.
pub open spec fn grouping_at(start: GroupingView, lookups: Seq<Lookup>, upto: int) -> GroupingView
    decreases upto,
{
    if upto <= 1 {
        start
    } else {
        grouping_at(start, lookups, upto - 1).placed(lookups[upto - 1]->Ok_0)
    }
}

/// The groups that a grouping arrives at.
pub open spec fn final_groups(start: GroupingView, lookups: Seq<Lookup>) -> Seq<BuildGroupView> {
    grouping_at(start, lookups, start.rdeps.len() as int).finished()
}

/// The group that the package at `index` is placed in.
pub open spec fn placed_in(start: GroupingView, lookups: Seq<Lookup>, index: int) -> int {
    grouping_at(start, lookups, index + 1).closed.len() as int
}

/// The packages of a list of groups, one group after the other.
pub open spec fn all_idents(groups: Seq<BuildGroupView>) -> Seq<Seq<char>>
    decreases groups.len(),
{
    if groups.len() == 0 {
        Seq::empty()
    } else {
        all_idents(groups.drop_last()) + groups.last().idents
    }
}

/// A package is built in one of the groups before `upto`.
pub open spec fn built_before(groups: Seq<BuildGroupView>, upto: int, name: Seq<char>) -> bool {
    exists|k: int| 0 <= k < upto && (#[trigger] groups[k]).idents.contains(name)
}

/// The packages are listed in build order: what one of them is built with is the package that
/// all depend on, or stands before it, or is not listed at all.
pub open spec fn in_build_order(root: Seq<char>, rdeps: Seq<Listed>, lookups: Seq<Lookup>) -> bool {
    let names = names_of(rdeps);
    forall|i: int, d: int|
        1 <= i < rdeps.len() && 0 <= d < lookups[i]->Ok_0.len() ==> {
            let need = #[trigger] lookups[i]->Ok_0[d];
            need == root || !names.contains(need) || names.take(i).contains(need)
        }
}

spec fn is_grouping_of(grouping: GroupingView, root: Seq<char>, rdeps: Seq<Listed>, upto: int) -> bool {
    &&& grouping.rdeps == rdeps
    &&& grouping.index == upto
    &&& grouping.in_progress.len() > 0
    &&& all_idents(grouping.closed) + grouping.in_progress == names_of(rdeps).take(upto)
    &&& forall|k: int|
        0 <= k < grouping.closed.len() ==> (#[trigger] grouping.closed[k]).group_id == k
            && grouping.closed[k].idents.len() > 0
    &&& forall|name: Seq<char>| #[trigger]
        grouping.satisfied.contains(name) <==> name == root || built_before(
            grouping.closed,
            grouping.closed.len() as int,
            name,
        )
}

proof fn all_idents_holds(groups: Seq<BuildGroupView>, name: Seq<char>)
    ensures
        all_idents(groups).contains(name) <==> built_before(groups, groups.len() as int, name),
    decreases groups.len(),
{
    if groups.len() > 0 {
        let init = groups.drop_last();
        let last = groups.last().idents;
        let all = all_idents(init) + last;
        all_idents_holds(init, name);
        if built_before(groups, groups.len() as int, name) {
            let k = choose|k: int| 0 <= k < groups.len() && (#[trigger] groups[k]).idents.contains(name);
            if k == groups.len() - 1 {
                let i = choose|i: int| 0 <= i < last.len() && last[i] == name;
                assert(all[all_idents(init).len() + i] == name);
            } else {
                assert(init[k].idents.contains(name));
                let i = choose|i: int| 0 <= i < all_idents(init).len() && all_idents(init)[i] == name;
                assert(all[i] == name);
            }
        }
        if all.contains(name) {
            let i = choose|i: int| 0 <= i < all.len() && all[i] == name;
            if i < all_idents(init).len() {
                assert(all_idents(init)[i] == name);
                let k = choose|k: int| 0 <= k < init.len() && (#[trigger] init[k]).idents.contains(name);
                assert(groups[k].idents.contains(name));
            } else {
                assert(last[i - all_idents(init).len()] == name);
                assert(groups[groups.len() - 1].idents.contains(name));
            }
        }
    }
}

proof fn built_before_push(groups: Seq<BuildGroupView>, group: BuildGroupView, name: Seq<char>)
    ensures
        built_before(groups.push(group), groups.len() as int + 1, name) <==> built_before(
            groups,
            groups.len() as int,
            name,
        ) || group.idents.contains(name),
{
    let all = groups.push(group);
    if built_before(groups, groups.len() as int, name) {
        let k = choose|k: int| 0 <= k < groups.len() && (#[trigger] groups[k]).idents.contains(name);
        assert(all[k].idents.contains(name));
    }
    if group.idents.contains(name) {
        assert(all[groups.len() as int].idents.contains(name));
    }
    if built_before(all, groups.len() as int + 1, name) {
        let k = choose|k: int| 0 <= k < all.len() && (#[trigger] all[k]).idents.contains(name);
        if k < groups.len() {
            assert(groups[k].idents.contains(name));
        }
    }
}

proof fn ended_keeps(grouping: GroupingView, root: Seq<char>, rdeps: Seq<Listed>, upto: int)
    requires
        is_grouping_of(grouping, root, rdeps, upto),
    ensures
        ({
            let ended = grouping.ended();
            &&& all_idents(ended.closed) == names_of(rdeps).take(upto)
            &&& forall|k: int|
                0 <= k < ended.closed.len() ==> (#[trigger] ended.closed[k]).group_id == k
                    && ended.closed[k].idents.len() > 0
            &&& forall|name: Seq<char>| #[trigger]
                ended.satisfied.contains(name) <==> name == root || built_before(
                    ended.closed,
                    ended.closed.len() as int,
                    name,
                )
        }),
{
    let ended = grouping.ended();
    assert(ended.closed.drop_last() =~= grouping.closed);
    assert forall|name: Seq<char>| #[trigger]
        ended.satisfied.contains(name) <==> name == root || built_before(
            ended.closed,
            ended.closed.len() as int,
            name,
        ) by {
        built_before_push(grouping.closed, grouping.current(), name);
        assert(grouping.satisfied.contains(name) <==> name == root || built_before(
            grouping.closed,
            grouping.closed.len() as int,
            name,
        ));
    }
}

proof fn grouping_at_is_grouping(
    root: Seq<char>,
    target: Seq<char>,
    rdeps: Seq<Listed>,
    lookups: Seq<Lookup>,
    upto: int,
)
    requires
        1 <= upto <= rdeps.len(),
    ensures
        is_grouping_of(
            grouping_at(grouping_start(root, target, rdeps), lookups, upto),
            root,
            rdeps,
            upto,
        ),
    decreases upto,
{
    let start = grouping_start(root, target, rdeps);
    let names = names_of(rdeps);
    if upto == 1 {
        assert(all_idents(start.closed) + start.in_progress =~= names.take(1));
    } else {
        let before = grouping_at(start, lookups, upto - 1);
        let needs = lookups[upto - 1]->Ok_0;
        grouping_at_is_grouping(root, target, rdeps, lookups, upto - 1);
        assert(names.take(upto) =~= names.take(upto - 1).push(names[upto - 1]));
        if !before.can_dispatch(needs) {
            ended_keeps(before, root, rdeps, upto - 1);
        }
        let after = before.placed(needs);
        assert(all_idents(after.closed) + after.in_progress =~= names.take(upto));
    }
}

/// The groups together hold the packages in the order in which they are listed, each once; none
/// of them is empty, and each bears the number of those before it.
pub proof fn groups_partition_in_order(
    root: Seq<char>,
    target: Seq<char>,
    rdeps: Seq<Listed>,
    lookups: Seq<Lookup>,
)
    requires
        rdeps.len() > 0,
    ensures
        ({
            let groups = final_groups(grouping_start(root, target, rdeps), lookups);
            &&& all_idents(groups) == names_of(rdeps)
            &&& forall|k: int|
                0 <= k < groups.len() ==> (#[trigger] groups[k]).group_id == k && groups[k].idents.len()
                    > 0
        }),
{
    let start = grouping_start(root, target, rdeps);
    let last = grouping_at(start, lookups, rdeps.len() as int);
    grouping_at_is_grouping(root, target, rdeps, lookups, rdeps.len() as int);
    assert(last.finished().drop_last() =~= last.closed);
    assert(names_of(rdeps).take(rdeps.len() as int) =~= names_of(rdeps));
}

/// What is placed stays placed: later groups are only appended, and a group only grows.
proof fn grouping_grows(
    root: Seq<char>,
    target: Seq<char>,
    rdeps: Seq<Listed>,
    lookups: Seq<Lookup>,
    earlier: int,
    later: int,
)
    requires
        1 <= earlier <= later <= rdeps.len(),
    ensures
        ({
            let start = grouping_start(root, target, rdeps);
            let before = grouping_at(start, lookups, earlier);
            let after = grouping_at(start, lookups, later);
            let open = before.closed.len() as int;
            &&& open < after.finished().len()
            &&& forall|k: int| 0 <= k < open ==> #[trigger] after.finished()[k] == before.closed[k]
            &&& before.in_progress.is_prefix_of(after.finished()[open].idents)
        }),
    decreases later - earlier,
{
    let start = grouping_start(root, target, rdeps);
    let before = grouping_at(start, lookups, earlier);
    grouping_at_is_grouping(root, target, rdeps, lookups, earlier);
    if earlier == later {
        assert(before.in_progress.is_prefix_of(before.in_progress));
    } else {
        let middle = grouping_at(start, lookups, earlier + 1);
        let after = grouping_at(start, lookups, later);
        let open = before.closed.len() as int;
        grouping_grows(root, target, rdeps, lookups, earlier + 1, later);
        if before.can_dispatch(lookups[earlier]->Ok_0) {
            assert(before.in_progress.is_prefix_of(middle.in_progress));
            assert forall|i: int| 0 <= i < before.in_progress.len() implies before.in_progress[i]
                == after.finished()[open].idents[i] by {
                assert(middle.in_progress[i] == after.finished()[open].idents[i]);
            }
        } else {
            assert(middle.closed[open] == before.current());
            assert(after.finished()[open] == middle.closed[open]);
            assert forall|k: int| 0 <= k < open implies #[trigger] after.finished()[k]
                == before.closed[k] by {
                assert(middle.closed[k] == before.closed[k]);
            }
        }
    }
}

/// Each package is in the group that it is placed in.
pub proof fn packages_are_where_they_are_placed(
    root: Seq<char>,
    target: Seq<char>,
    rdeps: Seq<Listed>,
    lookups: Seq<Lookup>,
    index: int,
)
    requires
        0 <= index < rdeps.len(),
    ensures
        ({
            let start = grouping_start(root, target, rdeps);
            let groups = final_groups(start, lookups);
            let k = placed_in(start, lookups, index);
            &&& 0 <= k < groups.len()
            &&& groups[k].idents.contains(rdeps[index].0)
        }),
{
    let start = grouping_start(root, target, rdeps);
    let groups = final_groups(start, lookups);
    let here = grouping_at(start, lookups, index + 1);
    let k = placed_in(start, lookups, index);
    grouping_grows(root, target, rdeps, lookups, index + 1, rdeps.len() as int);
    let at = here.in_progress.len() - 1;
    if index > 0 {
        assert(here.in_progress[at] == rdeps[index].0) by {
            grouping_at_is_grouping(root, target, rdeps, lookups, index);
        }
    }
    assert(groups[k].idents[at] == here.in_progress[at]);
}

/// Of packages that are listed in build order, each is placed after all that it is built with:
/// what it needs of the list is the package that all depend on, or is built in an earlier group.
pub proof fn groups_respect_dependencies(
    root: Seq<char>,
    target: Seq<char>,
    rdeps: Seq<Listed>,
    lookups: Seq<Lookup>,
    index: int,
    need: Seq<char>,
)
    requires
        in_build_order(root, rdeps, lookups),
        1 <= index < rdeps.len(),
        lookups[index]->Ok_0.contains(need),
        names_of(rdeps).contains(need),
    ensures
        ({
            let start = grouping_start(root, target, rdeps);
            let groups = final_groups(start, lookups);
            need == root || built_before(groups, placed_in(start, lookups, index), need)
        }),
{
    let start = grouping_start(root, target, rdeps);
    let groups = final_groups(start, lookups);
    let before = grouping_at(start, lookups, index);
    let after = grouping_at(start, lookups, index + 1);
    let needs = lookups[index]->Ok_0;
    let d = choose|d: int| 0 <= d < needs.len() && needs[d] == need;
    grouping_at_is_grouping(root, target, rdeps, lookups, index);
    grouping_at_is_grouping(root, target, rdeps, lookups, index + 1);
    grouping_grows(root, target, rdeps, lookups, index + 1, rdeps.len() as int);
    assert(need == lookups[index]->Ok_0[d]);
    if need != root {
        if before.can_dispatch(needs) {
            assert(!before.is_missing(needs[d]));
        } else {
            ended_keeps(before, root, rdeps, index);
            all_idents_holds(before.ended().closed, need);
            assert(names_of(rdeps).take(index).contains(need));
        }
        assert(built_before(after.closed, after.closed.len() as int, need));
        let k = choose|k: int|
            0 <= k < after.closed.len() && (#[trigger] after.closed[k]).idents.contains(need);
        assert(groups[k] == after.closed[k]);
    }
}

/// A package is placed with the one listed before it, or in the next group; and in the next one
/// only if it needs a listed package that no group before the other's builds.
pub proof fn groups_split_only_where_they_must(
    root: Seq<char>,
    target: Seq<char>,
    rdeps: Seq<Listed>,
    lookups: Seq<Lookup>,
    index: int,
)
    requires
        1 <= index < rdeps.len(),
    ensures
        ({
            let start = grouping_start(root, target, rdeps);
            let groups = final_groups(start, lookups);
            let previous = placed_in(start, lookups, index - 1);
            let here = placed_in(start, lookups, index);
            &&& here == previous || here == previous + 1
            &&& here == previous + 1 ==> exists|need: Seq<char>| #[trigger]
                lookups[index]->Ok_0.contains(need) && names_of(rdeps).contains(need) && need != root
                    && !built_before(groups, previous, need)
        }),
{
    let start = grouping_start(root, target, rdeps);
    let groups = final_groups(start, lookups);
    let before = grouping_at(start, lookups, index);
    let needs = lookups[index]->Ok_0;
    grouping_at_is_grouping(root, target, rdeps, lookups, index);
    grouping_grows(root, target, rdeps, lookups, index, rdeps.len() as int);
    if !before.can_dispatch(needs) {
        let d = choose|d: int| 0 <= d < needs.len() && before.is_missing(#[trigger] needs[d]);
        let need = needs[d];
        assert(needs.contains(need));
        assert(!before.satisfied.contains(need));
        if built_before(groups, before.closed.len() as int, need) {
            let k = choose|k: int|
                0 <= k < before.closed.len() && (#[trigger] groups[k]).idents.contains(need);
            assert(before.closed[k].idents.contains(need));
        }
    }
}

proof fn groups_run_from(
    start: GroupingView,
    connected: Result<(), String>,
    lookups: Seq<Lookup>,
    index: int,
)
    requires
        1 <= index <= start.rdeps.len(),
        start.index == 1,
        looked_up(lookups, index),
    ensures
        ({
            let at = grouping_at(start, lookups, index);
            at.index == index && at.rdeps == start.rdeps
        }),
        connected is Ok ==> groups_run(
            GroupsStepView::Connect(start),
            connected,
            lookups,
            index as nat,
        ) == grouping_at(start, lookups, index).next(),
    decreases index,
{
    reveal_with_fuel(groups_run, 2);
    if index > 1 {
        groups_run_from(start, connected, lookups, index - 1);
        assert(lookups[index - 1] is Ok);
        groups_run_extends(
            GroupsStepView::Connect(start),
            connected,
            lookups,
            (index - 1) as nat,
        );
    }
}

proof fn groups_run_extends(
    step: GroupsStepView,
    connected: Result<(), String>,
    lookups: Seq<Lookup>,
    turns: nat,
)
    ensures
        groups_run(step, connected, lookups, turns + 1) == groups_turn(
            groups_run(step, connected, lookups, turns),
            connected,
            lookups,
        ),
    decreases turns,
{
    reveal_with_fuel(groups_run, 2);
    if turns > 0 {
        groups_run_extends(
            groups_turn(step, connected, lookups),
            connected,
            lookups,
            (turns - 1) as nat,
        );
    }
}

/// A grouping whose every lookup succeeds arrives at its groups, in one turn per package.
pub proof fn grouping_ends_with_groups(
    root: Seq<char>,
    target: Seq<char>,
    rdeps: Seq<Listed>,
    connected: Result<(), String>,
    lookups: Seq<Lookup>,
)
    requires
        rdeps.len() > 0,
        connected is Ok,
        looked_up(lookups, rdeps.len() as int),
    ensures
        ({
            let start = grouping_start(root, target, rdeps);
            groups_run(GroupsStepView::Connect(start), connected, lookups, rdeps.len())
                == GroupsStepView::Done(Ok(final_groups(start, lookups)))
        }),
{
    let start = grouping_start(root, target, rdeps);
    groups_run_from(start, connected, lookups, rdeps.len() as int);
}

/// The first lookup that fails ends a grouping with its error.
pub proof fn grouping_ends_with_first_error(
    root: Seq<char>,
    target: Seq<char>,
    rdeps: Seq<Listed>,
    connected: Result<(), String>,
    lookups: Seq<Lookup>,
    index: int,
)
    requires
        1 <= index < rdeps.len(),
        connected is Ok,
        looked_up(lookups, index),
        lookups[index] is Err,
    ensures
        ({
            let start = grouping_start(root, target, rdeps);
            groups_run(GroupsStepView::Connect(start), connected, lookups, (index + 1) as nat)
                == GroupsStepView::Done(Err(lookups[index]->Err_0))
        }),
{
    let start = grouping_start(root, target, rdeps);
    groups_run_from(start, connected, lookups, index);
    groups_run_extends(GroupsStepView::Connect(start), connected, lookups, index as nat);
}

/// One turn of the answer with the build groups.
pub open spec fn grouped_turn(
    step: GroupedStepView,
    connected: Result<(), String>,
    lookups: Seq<Lookup>,
) -> GroupedStepView {
    match step {
        GroupedStepView::Connect(msg, grouping) => grouped(msg, grouping.after_connect(connected)),
        GroupedStepView::GetPackage(msg, grouping) => grouped(
            msg,
            grouping.after_package(lookups[grouping.index]),
        ),
        GroupedStepView::Done(_) => step,
    }
}

/// A number of turns of the answer with the build groups.
pub open spec fn grouped_run(
    step: GroupedStepView,
    connected: Result<(), String>,
    lookups: Seq<Lookup>,
    turns: nat,
) -> GroupedStepView
    decreases turns,
{
    if turns == 0 {
        step
    } else {
        grouped_run(grouped_turn(step, connected, lookups), connected, lookups, (turns - 1) as nat)
    }
}

/// The answer goes turn by turn with the grouping that it waits for.
pub proof fn answer_follows_grouping(
    msg: JobGraphPackageReverseDependenciesGroupedGet,
    step: GroupsStepView,
    connected: Result<(), String>,
    lookups: Seq<Lookup>,
    turns: nat,
)
    ensures
        grouped_run(grouped(msg, step), connected, lookups, turns) == grouped(
            msg,
            groups_run(step, connected, lookups, turns),
        ),
    decreases turns,
{
    if turns > 0 {
        let next = groups_turn(step, connected, lookups);
        assert(grouped_turn(grouped(msg, step), connected, lookups) == grouped(msg, next));
        answer_follows_grouping(msg, next, connected, lookups, (turns - 1) as nat);
    }
}

/// The error of the first lookup that fails, of those from the one at `from` up to `upto`.
pub open spec fn first_error(lookups: Seq<Lookup>, from: int, upto: int) -> Option<Error>
    decreases upto - from,
{
    if from >= upto {
        None
    } else {
        match lookups[from] {
            Ok(_) => first_error(lookups, from + 1, upto),
            Err(err) => Some(err),
        }
    }
}

/// What a request is answered: `found` is what the graph lists, if there is a graph.
pub open spec fn grouped_reply(
    msg: JobGraphPackageReverseDependenciesGroupedGet,
    found: Option<Seq<Listed>>,
    connected: Result<(), String>,
    lookups: Seq<Lookup>,
) -> Result<GroupedView, Error> {
    match found {
        None => Err(Error::NotFound),
        Some(rdeps) => if rdeps.len() == 0 {
            Ok(grouped_answer(msg, Seq::empty()))
        } else {
            let start = grouping_start(short_name(msg.origin@, msg.name@), msg.target@, rdeps);
            match (connected, first_error(lookups, 1, rdeps.len() as int)) {
                (Err(err), _) => Err(Error::Db(err)),
                (_, Some(err)) => Err(err),
                _ => Ok(grouped_answer(msg, final_groups(start, lookups))),
            }
        },
    }
}

/// Where the first lookup fails, or `upto` if none does.
proof fn first_failure(lookups: Seq<Lookup>, from: int, upto: int) -> (at: int)
    requires
        from <= upto,
    ensures
        from <= at <= upto,
        forall|i: int| from <= i < at ==> (#[trigger] lookups[i]) is Ok,
        at == upto ==> first_error(lookups, from, upto) is None,
        at < upto ==> lookups[at] is Err && first_error(lookups, from, upto) == Some(
            lookups[at]->Err_0,
        ),
    decreases upto - from,
{
    if from < upto && lookups[from] is Ok {
        first_failure(lookups, from + 1, upto)
    } else {
        from
    }
}

proof fn groups_run_done(
    end: Result<Seq<BuildGroupView>, Error>,
    connected: Result<(), String>,
    lookups: Seq<Lookup>,
    turns: nat,
)
    ensures
        groups_run(GroupsStepView::Done(end), connected, lookups, turns) == GroupsStepView::Done(end),
    decreases turns,
{
    if turns > 0 {
        groups_run_done(end, connected, lookups, (turns - 1) as nat);
    }
}

/// A run that has ended is where it ends after any further turns.
proof fn groups_run_stays(
    step: GroupsStepView,
    connected: Result<(), String>,
    lookups: Seq<Lookup>,
    turns: nat,
    more: nat,
)
    requires
        groups_run(step, connected, lookups, turns) is Done,
        turns <= more,
    ensures
        groups_run(step, connected, lookups, more) == groups_run(step, connected, lookups, turns),
    decreases turns,
{
    if turns == 0 {
        groups_run_done(step->Done_0, connected, lookups, more);
    } else {
        let next = groups_turn(step, connected, lookups);
        groups_run_stays(next, connected, lookups, (turns - 1) as nat, (more - 1) as nat);
    }
}

/// Every request is answered, within one turn for each package that the graph lists; and the
/// answer is what the replies call for.
pub proof fn grouped_request_is_answered(
    msg: JobGraphPackageReverseDependenciesGroupedGet,
    found: Option<Seq<Listed>>,
    connected: Result<(), String>,
    lookups: Seq<Lookup>,
)
    ensures
        grouped_run(
            grouped_start(msg, found),
            connected,
            lookups,
            match found {
                Some(rdeps) => rdeps.len(),
                None => 0,
            },
        ) == GroupedStepView::Done(grouped_reply(msg, found, connected, lookups)),
{
    if let Some(rdeps) = found {
        if rdeps.len() > 0 {
            let root = short_name(msg.origin@, msg.name@);
            let start = grouping_start(root, msg.target@, rdeps);
            let step = GroupsStepView::Connect(start);
            answer_follows_grouping(msg, step, connected, lookups, rdeps.len());
            let at = first_failure(lookups, 1, rdeps.len() as int);
            if connected is Err {
                reveal_with_fuel(groups_run, 2);
                groups_run_stays(step, connected, lookups, 1, rdeps.len());
            } else if at < rdeps.len() {
                grouping_ends_with_first_error(root, msg.target@, rdeps, connected, lookups, at);
                groups_run_stays(step, connected, lookups, (at + 1) as nat, rdeps.len());
            } else {
                grouping_ends_with_groups(root, msg.target@, rdeps, connected, lookups);
            }
        }
    }
}

} // verus!
