use builder_jobsrv::build_groups::{
    compute_rdep_build_groups, job_graph_package_reverse_dependencies_grouped_get, GroupedStep,
    GroupsStep,
};
use builder_jobsrv::error::Error;
use builder_jobsrv::graph::GraphRdeps;
use builder_jobsrv::messages::{
    JobGraphPackageReverseDependenciesGroupedGet, PackageDep, PackageVisibility,
};

type Groups = Vec<(u64, Vec<String>)>;

fn msg() -> JobGraphPackageReverseDependenciesGroupedGet {
    JobGraphPackageReverseDependenciesGroupedGet {
        origin: "o".to_string(),
        name: "root".to_string(),
        target: "x86_64-linux".to_string(),
    }
}

fn listed(names: &[&str]) -> Vec<(String, String)> {
    names.iter().map(|n| (format!("o/{}", n), format!("o/{}/1/2", n))).collect()
}

fn deps(names: &[&str]) -> Vec<PackageDep> {
    names.iter().map(|n| PackageDep { origin: "o".to_string(), name: n.to_string() }).collect()
}

fn grouped(found: GraphRdeps, needs: &[(&str, &[&str])], failing: &str) -> Result<Groups, Error> {
    let mut step = job_graph_package_reverse_dependencies_grouped_get(msg(), found);
    loop {
        step = match step {
            GroupedStep::Connect(step) => step.resume(Ok(())),
            GroupedStep::GetPackage(step) => {
                let query = step.query();
                assert_eq!(query.target, "x86_64-linux");
                assert_eq!(
                    query.visibility,
                    vec![
                        PackageVisibility::Public,
                        PackageVisibility::Private,
                        PackageVisibility::Hidden
                    ]
                );
                if query.ident == format!("o/{}/1/2", failing) {
                    step.resume(Err(Error::DieselError(diesel::result::Error::NotFound)))
                } else {
                    let need = needs.iter().find(|n| query.ident == format!("o/{}/1/2", n.0));
                    step.resume(Ok(deps(need.map(|n| n.1).unwrap_or(&[]))))
                }
            }
            GroupedStep::Done(reply) => {
                let reply = reply?;
                assert_eq!((reply.origin.as_str(), reply.name.as_str()), ("o", "root"));
                return Ok(reply.rdeps.iter().map(|g| (g.group_id, g.idents.to_vec())).collect());
            }
        };
    }
}

fn group(id: u64, names: &[&str]) -> (u64, Vec<String>) {
    (id, names.iter().map(|n| format!("o/{}", n)).collect())
}

#[test]
fn independent_packages_share_a_group() {
    let found = GraphRdeps::Listed(listed(&["a", "b", "c"]));
    let groups = grouped(found, &[("b", &["root"]), ("c", &["root", "elsewhere"])], "").unwrap();
    assert_eq!(groups, vec![group(0, &["a", "b", "c"])]);
}

#[test]
fn dependent_packages_wait() {
    let found = GraphRdeps::Listed(listed(&["a", "b", "c", "d", "e"]));
    let needs: &[(&str, &[&str])] =
        &[("b", &["root"]), ("c", &["a"]), ("d", &["b"]), ("e", &["c", "root"])];
    let groups = grouped(found, needs, "").unwrap();
    assert_eq!(
        groups,
        vec![group(0, &["a", "b"]), group(1, &["c", "d"]), group(2, &["e"])]
    );
}

#[test]
fn groups_hold_every_package_in_order() {
    let names = ["p", "q", "r", "s"];
    let found = GraphRdeps::Listed(listed(&names));
    let needs: &[(&str, &[&str])] = &[("q", &["p"]), ("r", &["q"]), ("s", &["p"])];
    let groups = grouped(found, needs, "").unwrap();
    let all: Vec<String> = groups.iter().flat_map(|g| g.1.clone()).collect();
    let expected: Vec<String> = names.iter().map(|n| format!("o/{}", n)).collect();
    assert_eq!(all, expected);
    let ids: Vec<u64> = groups.iter().map(|g| g.0).collect();
    assert_eq!(ids, vec![0, 1, 2]);
}

#[test]
fn single_package_is_one_group() {
    let groups = grouped(GraphRdeps::Listed(listed(&["a"])), &[], "").unwrap();
    assert_eq!(groups, vec![group(0, &["a"])]);
}

#[test]
fn nothing_listed_gives_no_groups() {
    assert!(grouped(GraphRdeps::Listed(vec![]), &[], "").unwrap().is_empty());
    assert!(grouped(GraphRdeps::Unlisted, &[], "").unwrap().is_empty());
}

#[test]
fn no_graph_gives_no_answer() {
    assert!(matches!(grouped(GraphRdeps::NoGraph, &[], ""), Err(Error::NotFound)));
}

#[test]
fn first_failing_lookup_is_reported() {
    let found = GraphRdeps::Listed(listed(&["a", "b", "c"]));
    let reply = grouped(found, &[], "b");
    assert!(matches!(reply, Err(Error::DieselError(diesel::result::Error::NotFound))));
}

#[test]
fn grouping_needs_a_connection() {
    let found = GraphRdeps::Listed(listed(&["a"]));
    match job_graph_package_reverse_dependencies_grouped_get(msg(), found) {
        GroupedStep::Connect(step) => match step.resume(Err("pool".to_string())) {
            GroupedStep::Done(Err(Error::Db(err))) => assert_eq!(err, "pool"),
            _ => panic!("no connection, no answer"),
        },
        _ => panic!("the connection comes first"),
    }
}

#[test]
fn groups_can_be_computed_alone() {
    let step = compute_rdep_build_groups(
        "o/root".to_string(),
        "x86_64-linux".to_string(),
        listed(&["a", "b"]),
    );
    let step = match step {
        GroupsStep::Connect(step) => step.resume(Ok(())),
        _ => panic!("the connection comes first"),
    };
    let step = match step {
        GroupsStep::GetPackage(step) => {
            assert_eq!(step.query().ident, "o/b/1/2");
            step.resume(Ok(deps(&["a"])))
        }
        _ => panic!("the second package is looked up"),
    };
    match step {
        GroupsStep::Done(Ok(groups)) => {
            assert_eq!(groups.len(), 2);
            assert_eq!(groups[1].group_id, 1);
            assert_eq!(groups[1].idents.to_vec(), vec!["o/b"]);
        }
        _ => panic!("both packages are placed"),
    }
}

#[test]
fn connection_is_needed_even_for_nothing() {
    let step = compute_rdep_build_groups(
        "o/root".to_string(),
        "x86_64-linux".to_string(),
        listed(&[]),
    );
    let step = match step {
        GroupsStep::Connect(step) => step.resume(Err("pool".to_string())),
        _ => panic!("the connection comes first"),
    };
    match step {
        GroupsStep::Done(Err(Error::Db(err))) => assert_eq!(err, "pool"),
        _ => panic!("no connection, no groups"),
    }
}
