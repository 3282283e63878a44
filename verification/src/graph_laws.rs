//! What holds of requests to the package graph, stated on the calls that answer them and on what
//! comes out.

use vstd::prelude::*;

use crate::error::Error;
use crate::graph::{
    extension_query, job_graph_package_create, job_graph_package_precreate,
    job_graph_package_reverse_dependencies_get, names_of, reverse_dependencies_query, CheckGraph,
    ExtendGraph, ExtensionQuery, GraphRdeps, PackageCreateStep, PackagePrecreateStep,
};
use crate::messages::{
    JobGraphPackageReverseDependencies, JobGraphPackageReverseDependenciesGet, NetOk, OriginPackage,
};
use crate::projects::GraphQuery;
use crate::repeated::texts;
use crate::text::{sorted_texts_ascend, text_le};

verus! {

/// The graph of the wanted target is asked, for the origin and the name joined by a slash.
pub proof fn graph_is_asked_about_the_package(
    origin: String,
    name: String,
    target: String,
    query: GraphQuery,
)
    requires
        call_ensures(reverse_dependencies_query, (&origin, &name, &target), query),
    ensures
        query.target@ == target@,
        query.name@ == origin@ + seq!['/'] + name@,
{
    assert(query.name@ =~= origin@ + seq!['/'] + name@);
}

/// Without a graph the request is refused; any other is answered, about the package that it
/// names.
pub proof fn only_a_missing_graph_is_refused(
    msg: JobGraphPackageReverseDependenciesGet,
    found: GraphRdeps,
    reply: Result<JobGraphPackageReverseDependencies, Error>,
)
    requires
        call_ensures(job_graph_package_reverse_dependencies_get, (msg, found), reply),
    ensures
        found is NoGraph ==> reply == Err::<JobGraphPackageReverseDependencies, Error>(
            Error::NotFound,
        ),
        found !is NoGraph ==> {
            &&& reply is Ok
            &&& reply->Ok_0.origin@ == msg.origin@
            &&& reply->Ok_0.name@ == msg.name@
        },
        found is Unlisted ==> texts(reply->Ok_0.rdeps).len() == 0,
{
    if found is Unlisted {
        broadcast use vstd::seq_lib::group_to_multiset_ensures;

        let names = texts(reply->Ok_0.rdeps);
        assert(names.len() == names.to_multiset().len());
        assert(names_of(Seq::empty()).len() == 0);
    }
}

/// The answer holds the short name of each listed package, as often as it is listed, and none of
/// the full idents; and no name stands before a lesser one.
pub proof fn short_names_are_answered_in_order(
    msg: JobGraphPackageReverseDependenciesGet,
    rdeps: Vec<(String, String)>,
    reply: Result<JobGraphPackageReverseDependencies, Error>,
)
    requires
        call_ensures(
            job_graph_package_reverse_dependencies_get,
            (msg, GraphRdeps::Listed(rdeps)),
            reply,
        ),
    ensures
        ({
            let answered = texts(reply->Ok_0.rdeps);
            let short = Seq::new(rdeps.len() as nat, |i: int| rdeps[i].0@);
            &&& answered.len() == rdeps.len()
            &&& answered.to_multiset() == short.to_multiset()
            &&& forall|i: int, j: int|
                0 <= i < j < answered.len() ==> text_le(#[trigger] answered[i], #[trigger] answered[j])
        }),
{
    broadcast use vstd::seq_lib::group_to_multiset_ensures;

    let answered = texts(reply->Ok_0.rdeps);
    let short = Seq::new(rdeps.len() as nat, |i: int| rdeps[i].0@);
    assert(names_of(rdeps.deep_view()) =~= short);
    assert(answered.to_multiset().len() == answered.len());
    assert(short.to_multiset().len() == short.len());
    sorted_texts_ascend(answered);
}

/// Every listed package is in the answer, and nothing else is.
pub proof fn answer_holds_just_what_is_listed(
    msg: JobGraphPackageReverseDependenciesGet,
    rdeps: Vec<(String, String)>,
    reply: Result<JobGraphPackageReverseDependencies, Error>,
    name: Seq<char>,
)
    requires
        call_ensures(
            job_graph_package_reverse_dependencies_get,
            (msg, GraphRdeps::Listed(rdeps)),
            reply,
        ),
    ensures
        texts(reply->Ok_0.rdeps).contains(name) <==> exists|i: int|
            0 <= i < rdeps.len() && #[trigger] rdeps[i].0@ == name,
{
    broadcast use vstd::seq_lib::group_to_multiset_ensures;

    short_names_are_answered_in_order(msg, rdeps, reply);
    let answered = texts(reply->Ok_0.rdeps);
    let short = Seq::new(rdeps.len() as nat, |i: int| rdeps[i].0@);
    assert(answered.contains(name) <==> answered.to_multiset().count(name) > 0);
    assert(short.contains(name) <==> short.to_multiset().count(name) > 0);
    if short.contains(name) {
        let i = choose|i: int| 0 <= i < short.len() && short[i] == name;
        assert(rdeps[i].0@ == name);
    }
    if exists|i: int| 0 <= i < rdeps.len() && #[trigger] rdeps[i].0@ == name {
        let i = choose|i: int| 0 <= i < rdeps.len() && #[trigger] rdeps[i].0@ == name;
        assert(short[i] == name);
    }
}

/// A package goes to the graph of its own target, whole and with the given flag.
pub proof fn package_goes_to_its_own_target(
    package: OriginPackage,
    build_deps: bool,
    query: ExtensionQuery<'_>,
)
    requires
        call_ensures(extension_query, (&package, build_deps), query),
    ensures
        query.target@ == package.target@,
        *query.package == package,
        query.build_deps == build_deps,
{
}

/// A package that is added goes to the graph of its own target, once, and the answer is that
/// same package; without such a graph it is refused.
pub proof fn added_package_is_answered(
    package: OriginPackage,
    build_deps: bool,
    first: PackageCreateStep,
    waiting: ExtendGraph,
    query: ExtensionQuery<'_>,
    extended: Option<(usize, usize)>,
    next: PackageCreateStep,
)
    requires
        call_ensures(job_graph_package_create, (package, build_deps), first),
        first is Extend ==> {
            &&& first == PackageCreateStep::Extend(waiting)
            &&& call_ensures(ExtendGraph::query, (&waiting,), query)
            &&& call_ensures(ExtendGraph::resume, (waiting, extended), next)
        },
    ensures
        first is Extend,
        query.target@ == package.target@,
        *query.package == package,
        query.build_deps == build_deps,
        extended is Some ==> next == PackageCreateStep::Done(Ok(package)),
        extended is None ==> next == PackageCreateStep::Done(Err(Error::NotFound)),
{
}

/// Before a package is added, the graph of its own target is asked, once. It may be added if and
/// only if there is such a graph and the graph can take it.
pub proof fn package_may_be_added_if_the_graph_can_take_it(
    package: OriginPackage,
    build_deps: bool,
    first: PackagePrecreateStep,
    waiting: CheckGraph,
    query: ExtensionQuery<'_>,
    can_extend: Option<bool>,
    next: PackagePrecreateStep,
)
    requires
        call_ensures(job_graph_package_precreate, (package, build_deps), first),
        first is CheckExtend ==> {
            &&& first == PackagePrecreateStep::CheckExtend(waiting)
            &&& call_ensures(CheckGraph::query, (&waiting,), query)
            &&& call_ensures(CheckGraph::resume, (waiting, can_extend), next)
        },
    ensures
        first is CheckExtend,
        query.target@ == package.target@,
        *query.package == package,
        query.build_deps == build_deps,
        next == PackagePrecreateStep::Done(Ok(NetOk {  })) <==> can_extend == Some(true),
        can_extend == Some(false) ==> next == PackagePrecreateStep::Done(Err(Error::Conflict)),
        can_extend is None ==> next == PackagePrecreateStep::Done(Err(Error::NotFound)),
{
}

} // verus!
