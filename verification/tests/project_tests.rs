use cage::act_on::ActOn;
use cage::args::{Command, Exec, Logs, Pull, Run, Test, Up, Empty};
use cage::compose::{Build, Context, File, Service};
use cage::errors::Error;
use cage::ovr::Override;
use cage::plan::{pull_outcome, Plan, Step};
use cage::text::decimal_count;
use cage::pod::{Pod, PodConfig, PodType, Script, ServiceConfig};
use cage::project::{PodOrService, Project};
use cage::strmap::StrMap;

fn s(v: &str) -> String {
    v.to_owned()
}

fn texts(v: &[&str]) -> Vec<String> {
    v.iter().map(|x| x.to_string()).collect()
}

fn service(build: Option<&str>, labels: &[(&str, &str)]) -> Service {
    let mut svc = Service::empty();
    if let Some(url) = build {
        svc.build = Some(Build { context: Context::GitUrl(s(url)) });
    }
    for (k, v) in labels {
        svc.labels.insert(s(k), s(v));
    }
    svc
}

fn file(services: Vec<(&str, Service)>) -> File {
    let mut f = File::empty();
    for (name, svc) in services {
        f.services.insert(s(name), svc);
    }
    f
}

fn targets() -> Vec<Override> {
    vec![Override::new("development"), Override::new("production"), Override::new("test")]
}

fn pod(name: &str, config: PodConfig, base: File, target_files: Vec<File>) -> Pod {
    Pod::new("pods", name, &targets(), config, base, target_files).unwrap()
}

fn empty_targets() -> Vec<File> {
    vec![File::empty(), File::empty(), File::empty()]
}

/// The `hello` example: one pod, `frontend`, with a web server and a proxy.
fn hello() -> Project {
    let frontend = pod(
        "frontend",
        PodConfig::default(),
        file(vec![
            ("web", service(Some("https://github.com/docker/dockercloud-hello-world.git"), &[])),
            (
                "proxy",
                service(
                    Some("https://github.com/faradayio/node_hello.git"),
                    &[("io.fdy.cage.test", "echo 'All tests passed'")],
                ),
            ),
        ]),
        vec![file(vec![("proxy", Service::empty())]), File::empty(), File::empty()],
    );
    Project::new("hello", "examples/hello", "examples/hello/src", "out", targets(), vec![frontend]).unwrap()
}

/// The `rails_hello` example: a database, a web front end, and a task pod.
fn rails_hello() -> Project {
    let mut db_config = PodConfig::default();
    db_config.enable_in_targets = Some(texts(&["development", "test"]));
    let db = pod("db", db_config, file(vec![("db", service(None, &[]))]), empty_targets());
    let mut front_config = PodConfig::default();
    front_config.run_on_init = vec![texts(&["rake", "db:create"]), texts(&["rake", "db:migrate"])];
    let frontend = pod(
        "frontend",
        front_config,
        file(vec![("web", service(Some("https://github.com/faradayio/rails_hello.git"), &[]))]),
        empty_targets(),
    );
    let mut rake_config = PodConfig::default();
    rake_config.pod_type = Some(PodType::Task);
    let mut scripts = StrMap::new();
    scripts.insert(s("routes"), Script { commands: vec![texts(&["rake", "routes"])] });
    let mut services = StrMap::new();
    services.insert(s("rake"), ServiceConfig { scripts });
    rake_config.services = services;
    let rake = pod(
        "rake",
        rake_config,
        file(vec![("rake", service(Some("https://github.com/faradayio/rails_hello.git"), &[]))]),
        empty_targets(),
    );
    Project::new("rails_hello", "examples/rails_hello", "examples/rails_hello/src", "out", targets(), vec![db, frontend, rake])
        .unwrap()
}

fn run_cmds(plan: &Plan) -> Vec<Vec<String>> {
    plan.steps
        .iter()
        .filter_map(|st| match st {
            Step::Run(c) => Some(c.clone()),
            _ => None,
        })
        .collect()
}

fn compose(proj: &str, pod: &str, rest: &[&str]) -> Vec<String> {
    let mut v = texts(&["docker-compose", "-p", proj, "-f"]);
    v.push(format!("out/pods/{}.yml", pod));
    v.extend(texts(rest));
    v
}

#[test]
fn runs_docker_compose_on_all_pods() {
    let proj = rails_hello();
    let plan = proj.compose("stop", &ActOn::All, &Empty);
    assert!(plan.error.is_none());
    assert_eq!(
        run_cmds(&plan),
        vec![
            compose("railshello", "db", &["stop"]),
            compose("railshello", "frontend", &["stop"]),
            compose("railshello", "rake", &["stop"]),
        ]
    );
}

#[test]
fn runs_docker_compose_on_named_pods_and_services() {
    let proj = rails_hello();
    let act_on = ActOn::Named(texts(&["db", "web"]));
    let plan = proj.compose("stop", &act_on, &Empty);
    assert!(plan.error.is_none());
    assert_eq!(
        run_cmds(&plan),
        vec![compose("railshello", "db", &["stop"]), compose("railshello", "frontend", &["stop", "web"])]
    );
}

#[test]
fn compose_stops_at_an_unknown_name() {
    let proj = rails_hello();
    let act_on = ActOn::Named(texts(&["db", "nosuch", "web"]));
    let plan = proj.compose("stop", &act_on, &Empty);
    assert_eq!(run_cmds(&plan), vec![compose("railshello", "db", &["stop"])]);
    match plan.error {
        Some(Error::UnknownPodOrService(n)) => assert_eq!(n, "nosuch"),
        other => panic!("unexpected {:?}", other),
    }
}

#[test]
fn invokes_docker_exec() {
    let proj = hello();
    let command = Command::new("true");
    let mut opts = Exec::default();
    opts.process.allocate_tty = false;
    let cmd = proj.exec("web", &command, &opts).unwrap();
    assert_eq!(cmd, compose("hello", "frontend", &["exec", "-T", "web", "true"]));
}

#[test]
fn runs_shells() {
    let proj = hello();
    let cmd = proj.shell("web", &Exec::default()).unwrap();
    assert_eq!(cmd, compose("hello", "frontend", &["exec", "web", "sh"]));
}

#[test]
fn shell_refuses_detached_mode() {
    let proj = hello();
    let mut opts = Exec::default();
    opts.process.detached = true;
    match proj.shell("web", &opts) {
        Err(Error::Message(m)) => assert_eq!(m, "Can't run shell in detached mode"),
        other => panic!("unexpected {:?}", other),
    }
    let mut opts = Exec::default();
    opts.process.allocate_tty = false;
    match proj.shell("web", &opts) {
        Err(Error::Message(m)) => assert_eq!(m, "Can't run shell without a TTY"),
        other => panic!("unexpected {:?}", other),
    }
}

#[test]
fn runs_docker_compose_logs() {
    let proj = rails_hello();
    let plan = proj.logs(&ActOn::Named(texts(&["frontend"])), &Logs::default());
    assert!(plan.error.is_none());
    assert_eq!(run_cmds(&plan), vec![compose("railshello", "frontend", &["logs"])]);
}

#[test]
fn errors_when_act_on_specifies_multiple_containers() {
    let proj = rails_hello();
    let plan = proj.logs(&ActOn::All, &Logs::default());
    assert!(plan.error.is_some());
    assert!(plan.steps.is_empty());
}

#[test]
fn fails_on_a_multi_service_pod() {
    let proj = hello();
    assert!(proj.run("frontend", None, &Run::default()).is_err());
}

#[test]
fn runs_a_single_service_pod() {
    let proj = rails_hello();
    let cmd = Command::new("db:migrate");
    let mut opts = Run::default();
    opts.process.allocate_tty = false;
    let line = proj.run("rake", Some(&cmd), &opts).unwrap();
    assert_eq!(line, compose("railshello", "rake", &["run", "-T", "rake", "db:migrate"]));
}

#[test]
fn runs_tests() {
    let mut proj = hello();
    proj.set_current_target_name("test").unwrap();
    let (steps, container_name) = proj.test("frontend/proxy", None, &Test::default()).unwrap();
    assert!(container_name.starts_with("proxy_"));
    let plan = Plan { steps, error: None };
    assert_eq!(
        run_cmds(&plan),
        vec![
            compose(
                "hellotest",
                "frontend",
                &["run", "--name", &container_name, "--no-deps", "proxy", "echo", "All tests passed"]
            ),
            texts(&["docker", "rm", &container_name]),
        ]
    );
}

#[test]
fn runs_tests_with_custom_command() {
    let mut proj = hello();
    proj.set_current_target_name("test").unwrap();
    let cmd = Command::new("rspec").with_args(&texts(&["-t", "foo"]));
    let (steps, container_name) = proj.test("proxy", Some(&cmd), &Test::default()).unwrap();
    let plan = Plan { steps, error: None };
    assert_eq!(
        run_cmds(&plan),
        vec![
            compose(
                "hellotest",
                "frontend",
                &["run", "--name", &container_name, "--no-deps", "proxy", "rspec", "-t", "foo"]
            ),
            texts(&["docker", "rm", &container_name]),
        ]
    );
}

#[test]
fn runs_tests_and_extracts_output() {
    let mut proj = hello();
    proj.set_current_target_name("test").unwrap();
    let cmd = Command::new("mkdir").with_args(&texts(&["./test_output"]));
    let opts = Test { export_test_output: true };
    let (steps, container_name) = proj.test("proxy", Some(&cmd), &opts).unwrap();
    assert!(matches!(&steps[1], Step::EnsureAbsent(p) if p == "examples/hello/test_output"));
    let plan = Plan { steps, error: None };
    assert_eq!(
        run_cmds(&plan),
        vec![
            compose(
                "hellotest",
                "frontend",
                &["run", "--name", &container_name, "--no-deps", "proxy", "mkdir", "./test_output"]
            ),
            vec![s("docker"), s("cp"), format!("{}:./test_output", container_name), s("examples/hello/test_output")],
            texts(&["docker", "rm", &container_name]),
        ]
    );
}

#[test]
fn test_container_names_carry_the_given_number() {
    let mut proj = hello();
    proj.set_current_target_name("test").unwrap();
    let (_, name) = proj.test_with_suffix("proxy", None, &Test::default(), 4711).unwrap();
    assert_eq!(name, "proxy_4711");
    let (_, name) = proj.test_with_suffix("proxy", None, &Test::default(), 0).unwrap();
    assert_eq!(name, "proxy_0");
}

#[test]
fn test_without_a_test_label_fails() {
    let mut proj = hello();
    proj.set_current_target_name("test").unwrap();
    match proj.test_with_suffix("web", None, &Test::default(), 1) {
        Err(Error::Message(m)) => assert_eq!(m, "specify a value for the label io.fdy.cage.test to run tests"),
        other => panic!("unexpected {:?}", other),
    }
}

#[test]
fn runs_scripts_on_all_services() {
    let proj = rails_hello();
    let plan = proj.run_script(&ActOn::All, "routes", &Run::default());
    assert!(plan.error.is_none());
    assert_eq!(run_cmds(&plan), vec![compose("railshello", "rake", &["run", "rake", "rake", "routes"])]);
}

#[test]
fn script_runs_carry_the_run_options() {
    let proj = rails_hello();
    let mut opts = Run::default();
    opts.no_deps = true;
    let plan = proj.run_script(&ActOn::All, "routes", &opts);
    assert!(plan.error.is_none());
    assert_eq!(run_cmds(&plan), vec![compose("railshello", "rake", &["run", "--no-deps", "rake", "rake", "routes"])]);
}

#[test]
fn one_word_script_items_run_that_word() {
    let mut rake_config = PodConfig::default();
    let mut scripts = StrMap::new();
    scripts.insert(s("check"), Script { commands: vec![texts(&["true"]), texts(&["rake", "check"])] });
    let mut services = StrMap::new();
    services.insert(s("rake"), ServiceConfig { scripts });
    rake_config.services = services;
    let rake = pod("rake", rake_config, file(vec![("rake", service(None, &[]))]), empty_targets());
    let proj = Project::new("p", "p", "p/src", "out", targets(), vec![rake]).unwrap();
    let plan = proj.run_script(&ActOn::All, "check", &Run::default());
    assert!(plan.error.is_none());
    assert_eq!(
        run_cmds(&plan),
        vec![compose("p", "rake", &["run", "rake", "true"]), compose("p", "rake", &["run", "rake", "rake", "check"])]
    );
}

#[test]
fn runs_docker_compose_up_honors_enable_in_targets() {
    let mut proj = rails_hello();
    proj.set_current_target_name("production").unwrap();
    let plan = proj.up(&ActOn::All, &Up::default());
    assert!(plan.error.is_none());
    assert_eq!(run_cmds(&plan), vec![compose("railshello", "frontend", &["up", "-d"])]);
}

#[test]
fn runs_docker_compose_up_with_quiet_mode() {
    let mut proj = rails_hello();
    proj.set_quiet(true);
    proj.set_current_target_name("production").unwrap();
    let plan = proj.up(&ActOn::All, &Up::default());
    assert_eq!(
        run_cmds(&plan),
        vec![compose("railshello", "frontend", &["--progress", "quiet", "up", "-d"])]
    );
}

#[test]
fn up_with_init_waits_then_runs_init_commands() {
    let proj = rails_hello();
    let plan = proj.up(&ActOn::AllExceptTasks, &Up::new(true));
    assert!(plan.error.is_none());
    assert!(matches!(plan.steps[2], Step::AwaitListening(1)));
    assert_eq!(
        run_cmds(&plan),
        vec![
            compose("railshello", "db", &["up", "-d"]),
            compose("railshello", "frontend", &["up", "-d"]),
            compose("railshello", "rake", &["run", "rake", "db:create"]),
            compose("railshello", "rake", &["run", "rake", "db:migrate"]),
        ]
    );
}

#[test]
fn runs_docker_compose_pull_on_all_pods() {
    let proj = hello();
    let pulls = proj.pull(&ActOn::All, &Pull { quiet: true }).unwrap();
    assert_eq!(pulls.len(), 1);
    assert_eq!(pulls[0].0, "frontend");
    assert_eq!(pulls[0].1, compose("hello", "frontend", &["pull", "--quiet"]));
}

#[test]
fn pull_fails_before_pulling_on_an_unknown_name() {
    let proj = hello();
    assert!(proj.pull(&ActOn::Named(texts(&["web", "nosuch"])), &Pull::default()).is_err());
    let pulls = proj.pull(&ActOn::Named(texts(&["web"])), &Pull::default()).unwrap();
    assert_eq!(pulls[0].0, "frontend/web");
}

#[test]
fn name_defaults_to_project_dir_but_can_be_overridden() {
    let mut proj = hello();
    assert_eq!(proj.name(), "hello");
    proj.set_name("hi");
    assert_eq!(proj.name(), "hi");
}

#[test]
fn pods_are_loaded() {
    let proj = rails_hello();
    let names: Vec<&str> = proj.pods().iter().map(|p| p.name()).collect();
    assert_eq!(names, ["db", "frontend", "rake"]);
}

#[test]
fn unknown_targets_are_refused() {
    let mut proj = hello();
    match proj.set_current_target_name("staging") {
        Err(Error::UnknownTarget(n)) => assert_eq!(n, "staging"),
        other => panic!("unexpected {:?}", other),
    }
    assert_eq!(proj.current_target().name(), "development");
    assert!(Project::new("x", "r", "s", "o", vec![Override::new("test")], vec![]).is_err());
}

#[test]
fn compose_name_strips_punctuation_and_marks_tests() {
    let mut proj = rails_hello();
    assert_eq!(proj.compose_name(), "railshello");
    proj.set_current_target_name("test").unwrap();
    assert_eq!(proj.compose_name(), "railshellotest");
    assert_eq!(proj.output_pods_dir(), "out/pods");
}

#[test]
fn names_resolve_to_pods_then_services() {
    let proj = rails_hello();
    assert!(matches!(proj.pod_or_service_or_err("db"), Ok(PodOrService::Pod(0))));
    match proj.pod_or_service_or_err("frontend/web") {
        Ok(PodOrService::Service(1, n)) => assert_eq!(n, "web"),
        other => panic!("unexpected {:?}", other),
    }
    match proj.service_or_err("nosuch") {
        Err(Error::UnknownService(n)) => assert_eq!(n, "nosuch"),
        other => panic!("unexpected {:?}", other),
    }
}

#[test]
fn a_short_name_in_two_pods_is_ambiguous() {
    let a = pod("a", PodConfig::default(), file(vec![("web", Service::empty())]), empty_targets());
    let b = pod("b", PodConfig::default(), file(vec![("web", Service::empty())]), empty_targets());
    let proj = Project::new("p", "r", "s", "o", targets(), vec![a, b]).unwrap();
    match proj.service_or_err("web") {
        Err(Error::Message(m)) => assert_eq!(m, "The short service name 'web' appears in more than one pod"),
        other => panic!("unexpected {:?}", other),
    }
    assert!(matches!(proj.service_or_err("b/web"), Ok((1, _))));
}

#[test]
fn pod_type_returns_type_of_pod() {
    let proj = rails_hello();
    assert_eq!(proj.pod("frontend").unwrap().pod_type(), PodType::Service);
    assert_eq!(proj.pod("rake").unwrap().pod_type(), PodType::Task);
}

#[test]
fn pods_are_normalized_on_load() {
    let proj = hello();
    let frontend = proj.pod("frontend").unwrap();
    let web = frontend.file().services.get("web").unwrap();
    assert_eq!(web.env_files, texts(&["common.env"]));
    let production = proj.target("production").unwrap();
    let web_target = frontend.target_file(production).unwrap().services.get("web").unwrap();
    assert_eq!(web_target.env_files, texts(&["targets/production/common.env"]));
    assert_eq!(frontend.target_rel_path(production).unwrap(), "targets/production/frontend.yml");
}

#[test]
fn target_files_may_not_add_services() {
    let result = Pod::new(
        "pods",
        "frontend",
        &targets(),
        PodConfig::default(),
        file(vec![("web", Service::empty())]),
        vec![file(vec![("extra", Service::empty())]), File::empty(), File::empty()],
    );
    match result {
        Err(Error::ServicesAddedInTarget { base, target, names }) => {
            assert_eq!(base, "frontend.yml");
            assert_eq!(target, "targets/development/frontend.yml");
            assert_eq!(names, texts(&["extra"]));
        }
        other => panic!("unexpected {:?}", other.map(|p| p.name().to_owned())),
    }
}

#[test]
fn merged_labels_take_the_target_value() {
    let frontend = pod(
        "frontend",
        PodConfig::default(),
        file(vec![("web", service(None, &[("a", "base"), ("b", "base")]))]),
        vec![file(vec![("web", service(None, &[("b", "dev")]))]), File::empty(), File::empty()],
    );
    let dev = Override::new("development");
    let labels = frontend.merged_labels(&dev, "web").unwrap();
    assert_eq!(labels.get("a").unwrap(), "base");
    assert_eq!(labels.get("b").unwrap(), "dev");
    assert!(matches!(frontend.merged_labels(&Override::new("staging"), "web"), Err(Error::Message(_))));
    assert!(matches!(frontend.merged_labels(&dev, "db"), Err(Error::UnknownService(_))));
}

#[test]
fn runs_docker_compose_build_on_all_pods() {
    let proj = hello();
    let plan = proj.compose("build", &ActOn::All, &Empty);
    assert!(plan.error.is_none());
    assert_eq!(run_cmds(&plan), vec![compose("hello", "frontend", &["build"])]);
}

#[test]
fn runs_docker_compose_stop_on_all_pods() {
    let proj = hello();
    let plan = proj.compose("stop", &ActOn::AllExceptTasks, &Empty);
    assert!(plan.error.is_none());
    assert_eq!(run_cmds(&plan), vec![compose("hello", "frontend", &["stop"])]);
}

#[test]
fn overrides_are_loaded() {
    let proj = hello();
    let names: Vec<&str> = proj.targets().iter().map(|o| o.name()).collect();
    assert_eq!(names, ["development", "production", "test"]);
}

#[test]
fn new_from_example_uses_example_and_target() {
    let proj = hello();
    assert_eq!(proj.root_dir(), "examples/hello");
    assert_eq!(proj.src_dir(), "examples/hello/src");
    assert_eq!(proj.current_target().name(), "development");
    assert_eq!(proj.output_pods_dir(), "out/pods");
}

#[test]
fn can_merge_base_file_and_target() {
    let base_proxy = service(None, &[("io.fdy.cage.shell", "/bin/sh"), ("io.fdy.cage.srcdir", "/src")]);
    let target_proxy = service(None, &[("io.fdy.cage.srcdir", "/usr/src/app")]);
    let frontend = pod(
        "frontend",
        PodConfig::default(),
        file(vec![("proxy", base_proxy)]),
        vec![file(vec![("proxy", target_proxy)]), File::empty(), File::empty()],
    );
    let labels = frontend.merged_labels(&Override::new("development"), "proxy").unwrap();
    assert_eq!(labels.get("io.fdy.cage.shell").map(|v| v.as_str()), Some("/bin/sh"));
    assert_eq!(labels.get("io.fdy.cage.srcdir").map(|v| v.as_str()), Some("/usr/src/app"));
    let development = Override::new("development");
    let base_envs = &frontend.file().services.get("proxy").unwrap().env_files;
    let target_envs = &frontend.target_file(&development).unwrap().services.get("proxy").unwrap().env_files;
    assert_eq!(base_envs.len() + target_envs.len(), 2);
    assert!(frontend.merged_labels(&Override::new("staging"), "proxy").is_err());
}

#[test]
fn every_name_keeps_its_outcome() {
    let proj = rails_hello();
    let found = proj.pods_or_services(&ActOn::Named(texts(&["db", "unknown", "web"])));
    assert_eq!(found.len(), 3);
    assert!(matches!(found[0], Ok(PodOrService::Pod(0))));
    assert!(matches!(&found[1], Err(Error::UnknownPodOrService(n)) if n == "unknown"));
    assert!(matches!(&found[2], Ok(PodOrService::Service(1, s)) if s == "web"));
    assert_eq!(proj.pods_or_services(&ActOn::AllExceptTasks).len(), 2);
}

#[test]
fn target_files_get_their_own_common_env() {
    let mut web = Service::empty();
    web.env_files.push(s("web.env"));
    let frontend = pod(
        "frontend",
        PodConfig::default(),
        file(vec![("web", Service::empty()), ("proxy", Service::empty())]),
        vec![file(vec![("web", web)]), File::empty(), File::empty()],
    );
    let dev = frontend.target_file(&Override::new("development")).unwrap();
    assert_eq!(dev.services.get("web").unwrap().env_files, texts(&["targets/development/common.env", "web.env"]));
    assert_eq!(dev.services.get("proxy").unwrap().env_files, texts(&["targets/development/common.env"]));
    assert_eq!(frontend.file().services.get("proxy").unwrap().env_files, texts(&["common.env"]));
}

#[test]
fn overrides_compare_by_name() {
    assert!(Override::new("production") == Override::new("production"));
    assert!(Override::new("production") != Override::new("test"));
    assert!(Override::new("development") < Override::new("production"));
    let mut sorted = vec![Override::new("test"), Override::new("development"), Override::new("production")];
    sorted.sort();
    let names: Vec<&str> = sorted.iter().map(|o| o.name()).collect();
    assert_eq!(names, ["development", "production", "test"]);
}

#[test]
fn pull_outcome_counts_the_failures() {
    assert!(pull_outcome(&vec![]).is_ok());
    assert!(pull_outcome(&vec![true, true]).is_ok());
    match pull_outcome(&vec![true, false, false]) {
        Err(Error::Message(m)) => assert_eq!(m, "2 pull(s) failed"),
        other => panic!("unexpected {:?}", other),
    }
    match pull_outcome(&vec![false]) {
        Err(Error::Message(m)) => assert_eq!(m, "1 pull(s) failed"),
        other => panic!("unexpected {:?}", other),
    }
}

#[test]
fn counts_are_written_in_decimal() {
    assert_eq!(decimal_count(0), "0");
    assert_eq!(decimal_count(7), "7");
    assert_eq!(decimal_count(1203), "1203");
}
