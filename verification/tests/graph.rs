use builder_jobsrv::error::Error;
use builder_jobsrv::graph::{
    extension_query, job_graph_package_create, job_graph_package_precreate,
    job_graph_package_reverse_dependencies_get, reverse_dependencies_query, GraphRdeps,
    PackageCreateStep, PackagePrecreateStep,
};
use builder_jobsrv::messages::{JobGraphPackageReverseDependenciesGet, NetOk, OriginPackage};

fn msg() -> JobGraphPackageReverseDependenciesGet {
    JobGraphPackageReverseDependenciesGet {
        origin: "core".to_string(),
        name: "glibc".to_string(),
        target: "x86_64-linux".to_string(),
    }
}

fn listed(names: &[&str]) -> GraphRdeps {
    let rdeps = names.iter().map(|n| (n.to_string(), format!("{}/1.0/2020", n))).collect();
    GraphRdeps::Listed(rdeps)
}

fn rdeps(names: &[&str]) -> Vec<String> {
    let reply = job_graph_package_reverse_dependencies_get(msg(), listed(names)).unwrap();
    assert_eq!((reply.origin.as_str(), reply.name.as_str()), ("core", "glibc"));
    reply.rdeps.to_vec()
}

fn package() -> OriginPackage {
    OriginPackage { target: "x86_64-linux".to_string(), details: vec![3] }
}

#[test]
fn graph_is_asked_for_the_short_name() {
    let msg = msg();
    let query = reverse_dependencies_query(&msg.origin, &msg.name, &msg.target);
    assert_eq!(query.name, "core/glibc");
    assert_eq!(query.target, "x86_64-linux");
}

#[test]
fn reverse_dependencies_are_sorted_short_names() {
    assert_eq!(
        rdeps(&["core/redis", "core/bash", "acme/tool", "core/Zed", "core/bash-static"]),
        vec!["acme/tool", "core/Zed", "core/bash", "core/bash-static", "core/redis"]
    );
}

#[test]
fn repeated_names_stay() {
    assert_eq!(rdeps(&["b/b", "a/a", "b/b"]), vec!["a/a", "b/b", "b/b"]);
}

#[test]
fn order_of_listing_does_not_matter() {
    assert_eq!(rdeps(&["c/c", "a/a", "b/b"]), rdeps(&["b/b", "c/c", "a/a"]));
}

#[test]
fn names_are_ordered_by_code_point() {
    assert_eq!(rdeps(&["\u{1f980}", "\u{ffff}", "z"]), vec!["z", "\u{ffff}", "\u{1f980}"]);
}

#[test]
fn package_without_reverse_dependencies() {
    assert!(rdeps(&[]).is_empty());
    let reply = job_graph_package_reverse_dependencies_get(msg(), GraphRdeps::Unlisted).unwrap();
    assert!(reply.rdeps.is_empty());
    assert_eq!((reply.origin.as_str(), reply.name.as_str()), ("core", "glibc"));
}

#[test]
fn target_without_graph_is_not_found() {
    let reply = job_graph_package_reverse_dependencies_get(msg(), GraphRdeps::NoGraph);
    assert!(matches!(reply, Err(Error::NotFound)));
}

fn create(extended: Option<(usize, usize)>) -> Result<OriginPackage, Error> {
    let step = match job_graph_package_create(package(), true) {
        PackageCreateStep::Extend(step) => step,
        PackageCreateStep::Done(_) => panic!("the graph comes first"),
    };
    let query = step.query();
    assert_eq!((query.target.as_str(), query.build_deps), ("x86_64-linux", true));
    assert_eq!(query.package.details, vec![3]);
    match step.resume(extended) {
        PackageCreateStep::Done(reply) => reply,
        PackageCreateStep::Extend(_) => panic!("the graph is extended once"),
    }
}

fn precreate(can_extend: Option<bool>) -> Result<NetOk, Error> {
    let step = match job_graph_package_precreate(package(), false) {
        PackagePrecreateStep::CheckExtend(step) => step,
        PackagePrecreateStep::Done(_) => panic!("the graph comes first"),
    };
    let query = step.query();
    assert_eq!((query.target.as_str(), query.build_deps), ("x86_64-linux", false));
    assert_eq!(query.package.details, vec![3]);
    match step.resume(can_extend) {
        PackagePrecreateStep::Done(reply) => reply,
        PackagePrecreateStep::CheckExtend(_) => panic!("the graph is checked once"),
    }
}

#[test]
fn package_goes_to_the_graph_of_its_own_target() {
    let mut package = package();
    package.target = "x86_64-windows".to_string();
    let query = extension_query(&package, true);
    assert_eq!((query.target.as_str(), query.build_deps), ("x86_64-windows", true));
    assert_eq!(query.package.details, vec![3]);
    assert!(!extension_query(&package, false).build_deps);
}

#[test]
fn created_package_is_answered_with_itself() {
    let reply = create(Some((4, 9))).unwrap();
    assert_eq!((reply.target.as_str(), reply.details), ("x86_64-linux", vec![3]));
}

#[test]
fn package_is_not_created_without_graph() {
    assert!(matches!(create(None), Err(Error::NotFound)));
}

#[test]
fn precreate_tells_whether_the_graph_can_be_extended() {
    assert!(precreate(Some(true)).is_ok());
    assert!(matches!(precreate(Some(false)), Err(Error::Conflict)));
    assert!(matches!(precreate(None), Err(Error::NotFound)));
}
