use cage::cmd::{OsCommandRunner, TestCommandBuilder};
use cage::cli::{all_versions, to_acts_on, to_exec_command, to_exec_options, to_logs_options, to_process_options, to_rm_options, to_run_options, to_test_options, Cli, Commands};
use cage::act_on::ActOn;
use cage::args::ToArgs;

fn words(v: &[&str]) -> Vec<String> {
    v.iter().map(|s| s.to_string()).collect()
}

#[test]
fn test_command_builder_logs_commands() {
    let mut builder = TestCommandBuilder::new();
    builder.build("git");
    builder.args(&words(&["clone", "https://github.com/torvalds/linux"]));
    builder.build("echo");
    builder.arg("a");
    builder.arg("b");
    assert_eq!(
        builder.cmds(),
        &vec![words(&["git", "clone", "https://github.com/torvalds/linux"]), words(&["echo", "a", "b"])]
    );
}

#[test]
fn test_command_builder_records_whole_lines() {
    let mut builder = TestCommandBuilder::new();
    builder.record_all(&vec![words(&["a"]), words(&["b", "c"])]);
    builder.record(&words(&["d"]));
    assert_eq!(builder.cmds().len(), 3);
    assert_eq!(builder.cmds()[1], words(&["b", "c"]));
    let _runner = OsCommandRunner::new();
}

fn cli(command: Commands, target: Option<&str>) -> Cli {
    Cli { project_name: None, target: target.map(|t| t.to_owned()), default_tags: None, command }
}

#[test]
fn target_defaults_depend_on_the_command() {
    let t = cli(Commands::Test { export_test_output: false, service: "web".to_owned(), command: vec![] }, None);
    assert_eq!(t.target_name(), "test");
    assert_eq!(t.subcommand_name(), "test");
    let s = cli(Commands::Status { pod_or_service: vec![] }, None);
    assert_eq!(s.target_name(), "development");
    let p = cli(Commands::Status { pod_or_service: vec![] }, Some("production"));
    assert_eq!(p.target_name(), "production");
    assert!(p.should_output_project());
    assert!(!cli(Commands::Export { dir: "x".to_owned() }, None).should_output_project());
    assert!(!cli(Commands::Sysinfo, None).needs_project());
    assert_eq!(cli(Commands::RunScript { no_deps: false, script_name: "x".to_owned(), pod_or_service: vec![] }, None).subcommand_name(), "run-script");
}

#[test]
fn acts_on_follows_the_names_given() {
    assert!(matches!(to_acts_on(&vec![], true), ActOn::All));
    assert!(matches!(to_acts_on(&vec![], false), ActOn::AllExceptTasks));
    match to_acts_on(&words(&["db"]), false) {
        ActOn::Named(n) => assert_eq!(n, words(&["db"])),
        _ => panic!("expected names"),
    }
}

#[test]
fn options_come_from_the_command_line() {
    let p = to_process_options(true, &Some("root".to_owned()), true);
    assert_eq!(p.to_args(), words(&["-d", "--user", "root", "-T"]));
    let e = to_exec_options(false, &None, false, true);
    assert_eq!(e.to_args(), words(&["--privileged"]));
    let r = to_run_options(false, &None, false, &Some("/e.sh".to_owned()), &words(&["A", "1", "B", "2", "A", "3", "C"]), true);
    assert_eq!(r.to_args(), words(&["-e", "A=3", "-e", "B=2", "--entrypoint", "/e.sh", "--no-deps"]));
    assert!(to_test_options(true).export_test_output);
    assert_eq!(to_logs_options(true, &Some("5".to_owned())).to_args(), words(&["-f", "--tail=5"]));
    assert_eq!(to_rm_options(true, false).to_args(), words(&["-f"]));
}

#[test]
fn exec_command_splits_words() {
    assert!(to_exec_command(&vec![]).is_none());
    let c = to_exec_command(&words(&["rspec", "-t", "foo"])).unwrap();
    assert_eq!(c.to_args(), words(&["rspec", "-t", "foo"]));
}

#[test]
fn versions_of_the_tools_are_asked_for() {
    assert_eq!(
        all_versions(),
        vec![words(&["docker", "--version"]), words(&["docker-compose", "--version"]), words(&["git", "--version"])]
    );
}

#[test]
fn test_command_runner_logs_commands() {
    let mut runner = TestCommandBuilder::new();
    runner.record(&words(&["git", "clone", "https://github.com/torvalds/linux"]));
    runner.build("echo");
    runner.arg("a");
    runner.arg("b");
    assert_eq!(
        runner.cmds(),
        &vec![words(&["git", "clone", "https://github.com/torvalds/linux"]), words(&["echo", "a", "b"])]
    );
}
