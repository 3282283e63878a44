use builder_jobsrv::error::{LookupError, QueryError};
use builder_jobsrv::messages::{JobGroupSpec, JobGroupTrigger, Project};
use builder_jobsrv::projects::{
    is_project_buildable, populate_build_projects, project_query, VetStep,
};

fn spec(origin_only: bool) -> JobGroupSpec {
    JobGroupSpec {
        origin: "core".to_string(),
        package: "glibc".to_string(),
        target: "x86_64-windows".to_string(),
        deps_only: false,
        origin_only,
        package_only: false,
        trigger: JobGroupTrigger::Upload,
        requester_id: 1,
        requester_name: "mia".to_string(),
        details: vec![5, 1],
    }
}

fn listed(names: &[&str]) -> Vec<(String, String)> {
    names.iter().map(|n| (n.to_string(), format!("{}/1/2", n))).collect()
}

fn vet(
    origin_only: bool,
    names: &[&str],
    unbuildable: &[(&str, Option<&[&str]>)],
) -> (Vec<String>, Vec<String>) {
    let start = listed(&["core/glibc"]);
    let mut asked = Vec::new();
    let mut step = populate_build_projects(&spec(origin_only), false, listed(names), start);
    loop {
        step = match step {
            VetStep::GetProject(step) => {
                let query = step.query();
                assert_eq!(query.target, "x86_64-windows");
                let auto_build = !unbuildable.iter().any(|u| u.0 == query.name);
                asked.push(query.name);
                step.resume(Ok(Project { auto_build }))
            }
            VetStep::GetRdeps(step) => {
                let query = step.query();
                assert_eq!(query.target, "x86_64-windows");
                let found = unbuildable.iter().find(|u| u.0 == query.name).unwrap();
                step.resume(found.1.map(listed))
            }
            VetStep::Done(projects) => {
                for project in &projects {
                    assert_eq!(project.1, format!("{}/1/2", project.0));
                }
                return (asked, projects.into_iter().map(|p| p.0).collect());
            }
        };
    }
}

#[test]
fn project_is_buildable_if_marked_for_automatic_builds() {
    assert!(is_project_buildable(&Ok(Project { auto_build: true })));
    assert!(!is_project_buildable(&Ok(Project { auto_build: false })));
}

#[test]
fn project_that_cannot_be_looked_up_is_not_buildable() {
    assert!(!is_project_buildable(&Err(LookupError::Connection("pool".to_string()))));
    assert!(!is_project_buildable(&Err(LookupError::Query(QueryError::NotFound))));
    let failed = QueryError::Failed(diesel::result::Error::RollbackTransaction);
    assert!(!is_project_buildable(&Err(LookupError::Query(failed))));
}

#[test]
fn legacy_projects_are_looked_up_under_one_target() {
    let name = "core/glibc".to_string();
    let target = "x86_64-windows".to_string();
    let query = project_query(&name, &target, true);
    assert_eq!((query.name.as_str(), query.target.as_str()), ("core/glibc", "x86_64-linux"));
    let query = project_query(&name, &target, false);
    assert_eq!((query.name.as_str(), query.target.as_str()), ("core/glibc", "x86_64-windows"));
}

#[test]
fn buildable_candidates_are_added_in_order() {
    let (asked, projects) = vet(false, &["core/a", "acme/b"], &[]);
    assert_eq!(asked, vec!["core/a", "acme/b"]);
    assert_eq!(projects, vec!["core/glibc", "core/a", "acme/b"]);
}

#[test]
fn dependents_of_an_unbuildable_candidate_are_left_out() {
    let (asked, projects) = vet(
        false,
        &["core/a", "core/b", "core/c", "core/d"],
        &[("core/a", Some(&["core/c", "core/x"]))],
    );
    assert_eq!(asked, vec!["core/a", "core/b", "core/d"]);
    assert_eq!(projects, vec!["core/glibc", "core/b", "core/d"]);
}

#[test]
fn unbuildable_candidate_is_looked_up_once() {
    let (asked, projects) = vet(false, &["core/a", "core/a", "core/b"], &[("core/a", None)]);
    assert_eq!(asked, vec!["core/a", "core/b"]);
    assert_eq!(projects, vec!["core/glibc", "core/b"]);
}

#[test]
fn earlier_candidates_stay_in() {
    let (_, projects) = vet(false, &["core/c", "core/a"], &[("core/a", Some(&["core/c"]))]);
    assert_eq!(projects, vec!["core/glibc", "core/c"]);
}

#[test]
fn other_origins_are_left_out_if_only_one_is_wanted() {
    let (asked, projects) = vet(true, &["core/a", "acme/b", "core2/c", "core"], &[]);
    assert_eq!(asked, vec!["core/a", "acme/b", "core2/c", "core"]);
    assert_eq!(projects, vec!["core/glibc", "core/a", "core"]);
}

#[test]
fn no_candidates_leave_the_projects_as_they_are() {
    let (asked, projects) = vet(false, &[], &[]);
    assert!(asked.is_empty());
    assert_eq!(projects, vec!["core/glibc"]);
}

#[test]
fn unbuildable_candidates_keep_out_all_that_depends_on_them() {
    // core/b depends on core/a, and core/c on core/b: the graph lists both under core/a.
    let (asked, projects) = vet(
        false,
        &["core/a", "core/b", "core/c", "core/d"],
        &[("core/a", Some(&["core/b", "core/c"])), ("core/b", Some(&["core/c"]))],
    );
    assert_eq!(asked, vec!["core/a", "core/d"]);
    assert_eq!(projects, vec!["core/glibc", "core/d"]);
}
