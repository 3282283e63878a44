//! Requests to the package graph: what depends on a package, and packages that are added.
//!
//! A package is added, or checked, in a step that names the graph and what is handed to it, and
//! is resumed with the graph's reply.

use vstd::prelude::*;

use crate::error::Error;
use crate::messages::{
    JobGraphPackageReverseDependencies, JobGraphPackageReverseDependenciesGet, NetOk, OriginPackage,
};
use crate::projects::{GraphQuery, Listed};
use crate::repeated::{texts, texts_new, texts_push, texts_sort};
use crate::text::{short_ident, short_name, sorted_texts, text_le, text_order_is_total};

verus! {

/// What the graph of a target lists as depending on a package.
#[derive(Debug)]
pub enum GraphRdeps {
    /// There is no graph for the target.
    NoGraph,
    /// The graph does not know the package.
    Unlisted,
    /// Each package that depends on it, with its short name and its full ident.
    Listed(Vec<(String, String)>),
}

/// The packages that an answer of the graph lists, if there is a graph.
pub open spec fn rdeps_found(found: GraphRdeps) -> Option<Seq<Listed>> {
    match found {
        GraphRdeps::NoGraph => None,
        GraphRdeps::Unlisted => Some(Seq::empty()),
        GraphRdeps::Listed(rdeps) => Some(rdeps.deep_view()),
    }
}

/// The short names of a list of packages, in its order.
pub open spec fn names_of(listed: Seq<Listed>) -> Seq<Seq<char>> {
    listed.map_values(|package: Listed| package.0)
}

/// The query that asks the graph of a target what depends on a package.
pub fn reverse_dependencies_query(origin: &String, name: &String, target: &String) -> (query: GraphQuery)
    ensures
        query.name@ == short_name(origin@, name@),
        query.target@ == target@,
{
    GraphQuery { target: target.clone(), name: short_ident(origin, name) }
}

/// Answers what depends on a package: the short names that the graph lists, in ascending order.
pub fn job_graph_package_reverse_dependencies_get(
    msg: JobGraphPackageReverseDependenciesGet,
    found: GraphRdeps,
) -> (reply: Result<JobGraphPackageReverseDependencies, Error>)
    ensures
        match rdeps_found(found) {
            None => reply == Err::<JobGraphPackageReverseDependencies, Error>(Error::NotFound),
            Some(listed) => {
                &&& reply is Ok
                &&& reply->Ok_0.origin == msg.origin
                &&& reply->Ok_0.name == msg.name
                &&& sorted_texts(texts(reply->Ok_0.rdeps))
                &&& texts(reply->Ok_0.rdeps).to_multiset() == names_of(listed).to_multiset()
            },
        },
{
    let mut short_deps = texts_new();
    match found {
        GraphRdeps::NoGraph => return Err(Error::NotFound),
        GraphRdeps::Unlisted => (),
        GraphRdeps::Listed(rdeps) => {
            let mut i: usize = 0;
            while i < rdeps.len()
                invariant
                    i <= rdeps@.len(),
                    texts(short_deps) =~= names_of(rdeps.deep_view().take(i as int)),
                decreases rdeps@.len() - i,
            {
                texts_push(&mut short_deps, rdeps[i].0.clone());
                i = i + 1;
            }
            assert(rdeps.deep_view().take(i as int) =~= rdeps.deep_view());
            texts_sort(&mut short_deps);
        },
    }
    assert(names_of(Seq::<Listed>::empty()) =~= Seq::<Seq<char>>::empty());
    Ok(
        JobGraphPackageReverseDependencies {
            origin: msg.origin,
            name: msg.name,
            rdeps: short_deps,
        },
    )
}

/// Names the graph that is to take a package, or to tell whether it can: the one of `target`.
/// `build_deps` tells whether what the package is built with counts as well.
#[derive(Debug)]
pub struct ExtensionQuery<'a> {
    pub target: String,
    pub package: &'a OriginPackage,
    pub build_deps: bool,
}

/// What is handed to a graph along with a package.
pub struct ExtensionView {
    pub target: Seq<char>,
    pub package: OriginPackage,
    pub build_deps: bool,
}

impl<'a> View for ExtensionQuery<'a> {
    type V = ExtensionView;

    open spec fn view(&self) -> ExtensionView {
        ExtensionView {
            target: self.target@,
            package: *self.package,
            build_deps: self.build_deps,
        }
    }
}

/// A package goes to the graph of its own target.
pub open spec fn extension(package: OriginPackage, build_deps: bool) -> ExtensionView {
    ExtensionView { target: package.target@, package, build_deps }
}

/// The query that has the graph of a package's own target take the package, or check it.
pub fn extension_query(package: &OriginPackage, build_deps: bool) -> (query: ExtensionQuery<'_>)
    ensures
        query.target@ == package.target@,
        *query.package == *package,
        query.build_deps == build_deps,
        query@ == extension(*package, build_deps),
{
    ExtensionQuery { target: package.target.clone(), package, build_deps }
}

/// What the answer to a package that is added needs next, or what it is answered.
pub enum PackageCreateStepView {
    Extend(OriginPackage, bool),
    Done(Result<OriginPackage, Error>),
}

/// What the answer to a package that is to be added needs next, or what it is answered.
pub enum PackagePrecreateStepView {
    CheckExtend(OriginPackage, bool),
    Done(Result<NetOk, Error>),
}

/// The graph was extended, if there is one: `extended` counts its nodes and edges.
pub open spec fn after_extend(
    package: OriginPackage,
    extended: Option<(usize, usize)>,
) -> PackageCreateStepView {
    PackageCreateStepView::Done(
        match extended {
            Some(_) => Ok(package),
            None => Err(Error::NotFound),
        },
    )
}

/// The graph, if there is one, has told whether it can safely take the package.
pub open spec fn after_check(can_extend: Option<bool>) -> PackagePrecreateStepView {
    PackagePrecreateStepView::Done(
        match can_extend {
            Some(true) => Ok(NetOk {  }),
            Some(false) => Err(Error::Conflict),
            None => Err(Error::NotFound),
        },
    )
}

/// Waits for the graph to take a package.
pub struct ExtendGraph {
    package: OriginPackage,
    build_deps: bool,
}

/// Waits for the graph to tell whether it can take a package.
pub struct CheckGraph {
    package: OriginPackage,
    build_deps: bool,
}

/// What the answer to a package that is added needs next, or what it is answered.
pub enum PackageCreateStep {
    Extend(ExtendGraph),
    Done(Result<OriginPackage, Error>),
}

/// What the answer to a package that is to be added needs next, or what it is answered.
pub enum PackagePrecreateStep {
    CheckExtend(CheckGraph),
    Done(Result<NetOk, Error>),
}

impl View for ExtendGraph {
    type V = (OriginPackage, bool);

    closed spec fn view(&self) -> (OriginPackage, bool) {
        (self.package, self.build_deps)
    }
}

impl View for CheckGraph {
    type V = (OriginPackage, bool);

    closed spec fn view(&self) -> (OriginPackage, bool) {
        (self.package, self.build_deps)
    }
}

impl View for PackageCreateStep {
    type V = PackageCreateStepView;

    open spec fn view(&self) -> PackageCreateStepView {
        match self {
            PackageCreateStep::Extend(step) => PackageCreateStepView::Extend(step@.0, step@.1),
            PackageCreateStep::Done(reply) => PackageCreateStepView::Done(*reply),
        }
    }
}

impl View for PackagePrecreateStep {
    type V = PackagePrecreateStepView;

    open spec fn view(&self) -> PackagePrecreateStepView {
        match self {
            PackagePrecreateStep::CheckExtend(step) => PackagePrecreateStepView::CheckExtend(
                step@.0,
                step@.1,
            ),
            PackagePrecreateStep::Done(reply) => PackagePrecreateStepView::Done(*reply),
        }
    }
}

/// Starts to add a package: the graph of its target has to take it.
pub fn job_graph_package_create(package: OriginPackage, build_deps: bool) -> (step:
    PackageCreateStep)
    ensures
        step@ == PackageCreateStepView::Extend(package, build_deps),
{
    PackageCreateStep::Extend(ExtendGraph { package, build_deps })
}

/// Starts to tell whether a package may be added: the graph of its target has to be asked. It is
/// not extended.
pub fn job_graph_package_precreate(package: OriginPackage, build_deps: bool) -> (step:
    PackagePrecreateStep)
    ensures
        step@ == PackagePrecreateStepView::CheckExtend(package, build_deps),
{
    PackagePrecreateStep::CheckExtend(CheckGraph { package, build_deps })
}

impl ExtendGraph {
    /// The graph to extend, and with what.
    pub fn query(&self) -> (query: ExtensionQuery<'_>)
        ensures
            query@ == extension(self@.0, self@.1),
    {
        extension_query(&self.package, self.build_deps)
    }

    /// Answers with the package itself, or, where there is no such graph, with a refusal.
    pub fn resume(self, extended: Option<(usize, usize)>) -> (step: PackageCreateStep)
        ensures
            step@ == after_extend(self@.0, extended),
    {
        match extended {
            Some(_) => PackageCreateStep::Done(Ok(self.package)),
            None => PackageCreateStep::Done(Err(Error::NotFound)),
        }
    }
}

impl CheckGraph {
    /// The graph to ask, and about what.
    pub fn query(&self) -> (query: ExtensionQuery<'_>)
        ensures
            query@ == extension(self@.0, self@.1),
    {
        extension_query(&self.package, self.build_deps)
    }

    /// Answers whether the package may be added. Without a graph it may not.
    pub fn resume(self, can_extend: Option<bool>) -> (step: PackagePrecreateStep)
        ensures
            step@ == after_check(can_extend),
    {
        match can_extend {
            Some(true) => PackagePrecreateStep::Done(Ok(NetOk {  })),
            Some(false) => PackagePrecreateStep::Done(Err(Error::Conflict)),
            None => PackagePrecreateStep::Done(Err(Error::NotFound)),
        }
    }
}

/// What is asked of a graph about a package.
pub enum GraphCall {
    Extend(ExtensionView),
    CheckExtend(ExtensionView),
}

/// What is asked of the graphs over a number of turns while a package is added, in order.
pub open spec fn package_create_calls(
    step: PackageCreateStepView,
    extended: Option<(usize, usize)>,
    turns: nat,
) -> Seq<GraphCall>
    decreases turns,
{
    match step {
        PackageCreateStepView::Extend(package, build_deps) if turns > 0 => seq![
            GraphCall::Extend(extension(package, build_deps)),
        ] + package_create_calls(after_extend(package, extended), extended, (turns - 1) as nat),
        _ => Seq::empty(),
    }
}

/// What is asked of the graphs over a number of turns before a package is added, in order.
pub open spec fn package_precreate_calls(
    step: PackagePrecreateStepView,
    can_extend: Option<bool>,
    turns: nat,
) -> Seq<GraphCall>
    decreases turns,
{
    match step {
        PackagePrecreateStepView::CheckExtend(package, build_deps) if turns > 0 => seq![
            GraphCall::CheckExtend(extension(package, build_deps)),
        ] + package_precreate_calls(after_check(can_extend), can_extend, (turns - 1) as nat),
        _ => Seq::empty(),
    }
}

/// A package that is added goes to the graph of its own target, just once.
pub proof fn creation_extends_the_graph_once(
    package: OriginPackage,
    build_deps: bool,
    extended: Option<(usize, usize)>,
    turns: nat,
)
    requires
        turns > 0,
    ensures
        package_create_calls(
            PackageCreateStepView::Extend(package, build_deps),
            extended,
            turns,
        ) == seq![GraphCall::Extend(extension(package, build_deps))],
{
    reveal_with_fuel(package_create_calls, 2);
    assert(package_create_calls(
        PackageCreateStepView::Extend(package, build_deps),
        extended,
        turns,
    ) =~= seq![GraphCall::Extend(extension(package, build_deps))]);
}

/// Before a package is added, the graph of its own target is checked, just once, and no graph is
/// extended.
pub proof fn precreation_only_checks(
    package: OriginPackage,
    build_deps: bool,
    can_extend: Option<bool>,
    turns: nat,
)
    requires
        turns > 0,
    ensures
        package_precreate_calls(
            PackagePrecreateStepView::CheckExtend(package, build_deps),
            can_extend,
            turns,
        ) == seq![GraphCall::CheckExtend(extension(package, build_deps))],
{
    reveal_with_fuel(package_precreate_calls, 2);
    assert(package_precreate_calls(
        PackagePrecreateStepView::CheckExtend(package, build_deps),
        can_extend,
        turns,
    ) =~= seq![GraphCall::CheckExtend(extension(package, build_deps))]);
}

/// The answer depends on which packages the graph lists, not on the order in which it lists
/// them: there is just one list in ascending order that holds their names, each as often.
pub proof fn answer_does_not_depend_on_order(
    listed: Seq<Listed>,
    names: Seq<Seq<char>>,
    listed_otherwise: Seq<Listed>,
    others: Seq<Seq<char>>,
)
    requires
        names_of(listed).to_multiset() == names_of(listed_otherwise).to_multiset(),
        sorted_texts(names),
        names.to_multiset() == names_of(listed).to_multiset(),
        sorted_texts(others),
        others.to_multiset() == names_of(listed_otherwise).to_multiset(),
    ensures
        names == others,
{
    text_order_is_total();
    vstd::seq_lib::lemma_sorted_unique(
        names,
        others,
        |a: Seq<char>, b: Seq<char>| text_le(a, b),
    );
}

} // verus!
