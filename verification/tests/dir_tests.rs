use cage::create_project::create_project;
use cage::paths::{find_project, find_project_in, project_candidates, project_from_answers, project_probe_paths};

#[test]
fn find_project_walks_up_directory_tree() {
    let on_disk = vec!["examples/hello".to_string()];
    assert_eq!(find_project_in("examples/hello", &on_disk).unwrap(), "examples/hello");
    assert_eq!(find_project_in("examples/hello/pods", &on_disk).unwrap(), "examples/hello");
    assert!(find_project_in("examples", &on_disk).is_err());
}

#[test]
fn find_project_reports_where_it_started() {
    let err = find_project("no/such/place/anywhere").unwrap_err();
    assert_eq!(
        err,
        "could not find conductor project in no/such/place/anywhere or any directory above it"
    );
}

#[test]
fn candidates_run_from_the_start_to_the_root() {
    assert_eq!(
        project_candidates("a/b/c"),
        vec!["a/b/c".to_string(), "a/b".to_string(), "a".to_string(), "".to_string()]
    );
}

#[test]
fn create_project_default() {
    let entries = create_project("/work", "test_project");
    let paths: Vec<&str> = entries.iter().map(|(p, _)| p.as_str()).collect();
    assert_eq!(paths[0], "/work/test_project");
    assert!(paths.contains(&"/work/test_project/pods/common.env"));
    assert!(paths.contains(&"/work/test_project/pods/test_project.yml"));
    assert!(paths.contains(&"/work/test_project/pods/overrides/development/common.env"));
    assert!(paths.contains(&"/work/test_project/pods/overrides/production/common.env"));
    assert!(paths.contains(&"/work/test_project/pods/overrides/test/common.env"));
    let dev = entries.iter().find(|(p, _)| p == "/work/test_project/pods/overrides/development/common.env").unwrap();
    assert_eq!(dev.1.as_deref(), Some("DATABASE_URL=postgres://postgres@db:5432/test_project_development"));
    assert_eq!(entries.iter().filter(|(_, c)| c.is_none()).count(), 6);
}

#[test]
fn probes_look_for_pods_in_each_candidate() {
    assert_eq!(
        project_probe_paths("a/b"),
        vec!["a/b/pods".to_string(), "a/pods".to_string(), "pods".to_string()]
    );
}

#[test]
fn answers_pick_the_nearest_project() {
    let answers = vec![false, true, false, false];
    assert_eq!(project_from_answers("examples/hello/pods", &answers).unwrap(), "examples/hello");
    let answers = vec![false, true, true, false];
    assert_eq!(project_from_answers("examples/hello/pods", &answers).unwrap(), "examples/hello");
    let none = vec![false, false, false];
    assert_eq!(
        project_from_answers("examples/hello", &none).unwrap_err(),
        "could not find conductor project in examples/hello or any directory above it"
    );
}
