use cage::args::{Command, Exec, Kill, Logs, Process, Ps, Pull, Rm, Run, ToArgs, Up, Empty};
use cage::exec;

fn owned(v: &[&str]) -> Vec<String> {
    v.iter().map(|s| s.to_string()).collect()
}

#[test]
fn cmd_command_to_args_converts_to_arguments() {
    assert_eq!(Command::new("foo").to_args(), owned(&["foo"]));
    assert_eq!(
        Command::new("foo").with_args(&owned(&["--opt"])).to_args(),
        owned(&["foo", "--opt"])
    );
}

#[test]
fn process_options_to_args_returns_empty_for_default_opts() {
    assert_eq!(Process::default().to_args(), Vec::<String>::new());
}

#[test]
fn process_options_to_args_returns_appropriate_flags() {
    let opts = Process { detached: true, user: Some("root".to_owned()), allocate_tty: false };
    assert_eq!(opts.to_args(), owned(&["-d", "--user", "root", "-T"]));
}

#[test]
fn exec_options_to_args_returns_appropriate_flags() {
    let mut opts = Exec::default();
    opts.process.detached = true;
    opts.privileged = true;
    assert_eq!(opts.to_args(), owned(&["-d", "--privileged"]));
}

#[test]
fn run_options_to_args_returns_appropriate_flags() {
    let mut opts = Run::default();
    opts.process.detached = true;
    opts.environment.insert("FOO".to_owned(), "foo".to_owned());
    opts.entrypoint = Some("/helper.sh".to_owned());
    assert_eq!(opts.to_args(), owned(&["-d", "-e", "FOO=foo", "--entrypoint", "/helper.sh"]));
}

#[test]
fn kill_options_to_args_returns_appropriate_flags() {
    let mut opts = Kill::default();
    opts.signal = Some("FOO".to_owned());
    assert_eq!(opts.to_args(), owned(&["-s FOO"]));
}

#[test]
fn logs_options_to_args_returns_appropriate_flags() {
    let mut opts = Logs::default();
    opts.follow = true;
    opts.number = Some("12".to_owned());
    assert_eq!(opts.to_args(), owned(&["-f", "--tail=12"]));
}

#[test]
fn ps_options_to_args_returns_appropriate_flags() {
    let mut opts = Ps::default();
    opts.only_ids = true;
    assert_eq!(opts.to_args(), owned(&["-q"]));
}

#[test]
fn rm_options_to_args_returns_appropriate_flags() {
    let mut opts = Rm::default();
    opts.force = true;
    opts.remove_volumes = true;
    assert_eq!(opts.to_args(), owned(&["-f", "-v"]));
}

#[test]
fn options_to_args_returns_empty_for_default_opts() {
    assert_eq!(exec::Options::default().to_args(), Vec::<String>::new());
}

#[test]
fn options_to_args_returns_appropriate_flags() {
    let opts = exec::Options {
        detached: true,
        privileged: true,
        user: Some("root".to_owned()),
        allocate_tty: false,
    };
    assert_eq!(opts.to_args(), owned(&["-d", "--privileged", "--user", "root", "-T"]));
}

#[test]
fn exec_command_to_args_converts_to_arguments() {
    assert_eq!(exec::Command::new("foo").to_args(), owned(&["foo"]));
    assert_eq!(
        exec::Command::new("foo").with_args(&owned(&["--opt"])).to_args(),
        owned(&["foo", "--", "--opt"])
    );
}

#[test]
fn pull_quiet_flag() {
    assert_eq!(Pull { quiet: true }.to_args(), owned(&["--quiet"]));
    assert_eq!(Pull { quiet: false }.to_args(), Vec::<String>::new());
}

#[test]
fn up_runs_detached() {
    assert_eq!(Up::new(true).to_args(), owned(&["-d"]));
    assert_eq!(Empty.to_args(), Vec::<String>::new());
}

#[test]
fn command_from_ordered_vec_splits_first_word() {
    assert!(Command::from_ordered_vec(Vec::new()).is_none());
    let c = Command::from_ordered_vec(owned(&["rake", "db:migrate"])).unwrap();
    assert_eq!(c.to_args(), owned(&["rake", "db:migrate"]));
}
