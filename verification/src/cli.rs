//! The command line: what the user asked for, and the decisions taken from
//! it before any work is done (which target to use, whether the project's
//! files are written out first, and the options handed to each command).

use vstd::prelude::*;

use crate::act_on::{ActOn, ActOnSources};
use crate::errors::Error;
use crate::sources::Sources;
use crate::args::{push_str, Command, Exec, Logs, Process, Rm, Run, Test, ToArgs};
use crate::compose::label_text;
use crate::strmap::{has_key, StrMap};
use crate::text::{concat2, concat3, copy_str, copy_strings};
use crate::project::Project;
use crate::runtime_state::{idle_pods, RuntimeState};

verus! {

/// Shells for which completion scripts can be generated.
#[derive(Debug, Clone, Copy, PartialEq, Eq, Structural)]
pub enum Shell {
    /// GNU bash.
    Bash,
    /// The fish shell.
    Fish,
}

/// `source` subcommands.
#[derive(Debug, Clone)]
pub enum SourceCommands {
    /// List all known source tree aliases and URLs.
    Ls,
    /// Clone a source tree by its alias.
    Clone { alias: String },
    /// Mount source trees into the containers that use them.
    Mount { aliases: Vec<String>, all: bool },
    /// Unmount source trees.
    Unmount { aliases: Vec<String>, all: bool },
}

/// `generate` subcommands.
#[derive(Debug, Clone)]
pub enum GenerateCommands {
    /// Generate shell autocompletion support.
    Completion { shell: Shell },
    /// Generate `config/secrets.yml`.
    Secrets,
    /// Generate `config/vault.yml`.
    Vault,
}

/// The subcommands.
#[derive(Debug, Clone)]
pub enum Commands {
    /// Print information about the system.
    Sysinfo,
    /// Create a directory containing a new project.
    New { name: String },
    /// Print out the status of the current project.
    Status { pod_or_service: Vec<String> },
    /// Build images.
    Build { pod_or_service: Vec<String> },
    /// Pull images.
    Pull { quiet: bool, pod_or_service: Vec<String> },
    /// Run the project.
    Up { init: bool, pod_or_service: Vec<String> },
    /// Restart services.
    Restart { pod_or_service: Vec<String> },
    /// Stop containers.
    Stop { pod_or_service: Vec<String> },
    /// Remove containers.
    Rm { force: bool, remove_volumes: bool, pod_or_service: Vec<String> },
    /// Run a one-shot task.
    Run {
        detached: bool,
        user: Option<String>,
        no_allocate_tty: bool,
        entrypoint: Option<String>,
        environment: Vec<String>,
        service: String,
        command: Vec<String>,
    },
    /// Run a named script.
    RunScript { no_deps: bool, script_name: String, pod_or_service: Vec<String> },
    /// Run a command inside an existing container.
    Exec {
        detached: bool,
        user: Option<String>,
        no_allocate_tty: bool,
        privileged: bool,
        service: String,
        command: Vec<String>,
    },
    /// Open a shell inside a running container.
    Shell { detached: bool, user: Option<String>, no_allocate_tty: bool, privileged: bool, service: String },
    /// Run the tests of a service.
    Test { export_test_output: bool, service: String, command: Vec<String> },
    /// Display logs.
    Logs { follow: bool, number: Option<String>, pod_or_service: Vec<String> },
    /// Work with source trees.
    Source { command: SourceCommands },
    /// Generate files.
    Generate { command: GenerateCommands },
    /// Export the project as flattened files.
    Export { dir: String },
}

/// The parsed command line.
#[derive(Debug, Clone)]
pub struct Cli {
    /// The project name, if given.
    pub project_name: Option<String>,
    /// The target, if given.
    pub target: Option<String>,
    /// A file of default image tags, if given.
    pub default_tags: Option<String>,
    /// The subcommand.
    pub command: Commands,
}

/// The target a command line uses when none is given: `test` for the
/// `test` command, `development` otherwise.
pub open spec fn default_target_name(command: Commands) -> Seq<char> {
    if command is Test {
        "test"@
    } else {
        "development"@
    }
}

/// The name of each subcommand.
pub open spec fn subcommand_name_spec(command: Commands) -> Seq<char> {
    match command {
        Commands::Sysinfo => "sysinfo"@,
        Commands::New { .. } => "new"@,
        Commands::Status { .. } => "status"@,
        Commands::Build { .. } => "build"@,
        Commands::Pull { .. } => "pull"@,
        Commands::Up { .. } => "up"@,
        Commands::Restart { .. } => "restart"@,
        Commands::Stop { .. } => "stop"@,
        Commands::Rm { .. } => "rm"@,
        Commands::Run { .. } => "run"@,
        Commands::RunScript { .. } => "run-script"@,
        Commands::Exec { .. } => "exec"@,
        Commands::Shell { .. } => "shell"@,
        Commands::Test { .. } => "test"@,
        Commands::Source { .. } => "source"@,
        Commands::Generate { .. } => "generate"@,
        Commands::Logs { .. } => "logs"@,
        Commands::Export { .. } => "export"@,
    }
}

impl Cli {
    /// Should the project's files be written out before the command runs?
    /// Every command but `export` needs them.
    pub fn should_output_project(&self) -> (r: bool)
        ensures
            r == !(self.command is Export),
    {
        match self.command {
            Commands::Export { .. } => false,
            _ => true,
        }
    }

    /// The target to use: the one given, or the default for the command.
    pub fn target_name(&self) -> (r: &str)
        ensures
            r@ == match self.target {
                Some(t) => t@,
                None => default_target_name(self.command),
            },
    {
        proof {
            reveal_strlit("test");
            reveal_strlit("development");
        }
        match &self.target {
            Some(t) => t.as_str(),
            None => match self.command {
                Commands::Test { .. } => "test",
                _ => "development",
            },
        }
    }

    /// Does the command work on a project?  `sysinfo` and `new` do not.
    pub fn needs_project(&self) -> (r: bool)
        ensures
            r == !(self.command is Sysinfo || self.command is New),
    {
        match self.command {
            Commands::Sysinfo => false,
            Commands::New { .. } => false,
            _ => true,
        }
    }

    /// The name of the subcommand, as handed to the code that writes out
    /// the project's files.
    pub fn subcommand_name(&self) -> (r: &'static str)
        ensures
            r@ == subcommand_name_spec(self.command),
    {
        match self.command {
            Commands::Sysinfo => "sysinfo",
            Commands::New { .. } => "new",
            Commands::Status { .. } => "status",
            Commands::Build { .. } => "build",
            Commands::Pull { .. } => "pull",
            Commands::Up { .. } => "up",
            Commands::Restart { .. } => "restart",
            Commands::Stop { .. } => "stop",
            Commands::Rm { .. } => "rm",
            Commands::Run { .. } => "run",
            Commands::RunScript { .. } => "run-script",
            Commands::Exec { .. } => "exec",
            Commands::Shell { .. } => "shell",
            Commands::Test { .. } => "test",
            Commands::Source { .. } => "source",
            Commands::Generate { .. } => "generate",
            Commands::Logs { .. } => "logs",
            Commands::Export { .. } => "export",
        }
    }
}

/// The pods or services named on the command line: all of them when none
/// are named (leaving out tasks unless `include_tasks`).
pub fn to_acts_on(pod_or_service: &Vec<String>, include_tasks: bool) -> (r: ActOn)
    ensures
        pod_or_service@.len() == 0 && include_tasks ==> r is All,
        pod_or_service@.len() == 0 && !include_tasks ==> r is AllExceptTasks,
        pod_or_service@.len() > 0 ==> (r matches ActOn::Named(names) && names.deep_view() == pod_or_service.deep_view()),
{
    if pod_or_service.len() == 0 {
        if include_tasks {
            ActOn::All
        } else {
            ActOn::AllExceptTasks
        }
    } else {
        ActOn::Named(copy_strings(pod_or_service))
    }
}

/// The source trees named on the command line: all of them with `--all`,
/// otherwise the aliases given, each of which must name a tree; the first
/// that names none is the error.
pub fn to_acts_on_sources(aliases: &Vec<String>, all: bool, sources: &Sources) -> (r: Result<ActOnSources, Error>)
    requires
        all || aliases@.len() > 0,
    ensures
        all ==> r matches Ok(ActOnSources::All),
        !all ==> match r {
            Ok(a) => (a matches ActOnSources::Named(names) && names.deep_view() == aliases.deep_view())
                && forall|i: int| 0 <= i < aliases@.len() ==> has_key(sources.trees_view(), #[trigger] aliases.deep_view()[i]),
            Err(e) => exists|i: int| 0 <= i < aliases@.len() && !has_key(sources.trees_view(), #[trigger] aliases.deep_view()[i])
                && (forall|j: int| 0 <= j < i ==> has_key(sources.trees_view(), #[trigger] aliases.deep_view()[j]))
                && (e matches Error::UnknownSource(a) && a@ == aliases.deep_view()[i]),
        },
{
    if all {
        return Ok(ActOnSources::All);
    }
    let mut i: usize = 0;
    while i < aliases.len()
        invariant
            !all,
            i <= aliases@.len(),
            forall|j: int| 0 <= j < i ==> has_key(sources.trees_view(), #[trigger] aliases.deep_view()[j]),
        decreases aliases@.len() - i,
    {
        assert(aliases.deep_view()[i as int] == aliases[i as int]@);
        match sources.find_by_alias(aliases[i].as_str()) {
            Some(_) => {},
            None => {
                return Err(Error::UnknownSource(copy_str(aliases[i].as_str())));
            },
        }
        i = i + 1;
    }
    Ok(ActOnSources::Named(copy_strings(aliases)))
}

/// A copy of an optional string.
fn copy_opt(s: &Option<String>) -> (r: Option<String>)
    ensures
        match *s {
            Some(v) => r matches Some(c) && c@ == v@,
            None => r is None,
        },
{
    match s {
        Some(v) => Some(copy_str(v.as_str())),
        None => None,
    }
}

/// `user_opt` is a copy of `user`.
pub open spec fn same_opt(a: Option<String>, b: Option<String>) -> bool {
    match b {
        Some(v) => a matches Some(c) && c@ == v@,
        None => a is None,
    }
}

/// Process options from the command line.
pub fn to_process_options(detached: bool, user: &Option<String>, no_allocate_tty: bool) -> (r: Process)
    ensures
        r.detached == detached,
        same_opt(r.user, *user),
        r.allocate_tty == !no_allocate_tty,
{
    let mut opts = Process::default();
    opts.detached = detached;
    opts.user = copy_opt(user);
    opts.allocate_tty = !no_allocate_tty;
    opts
}

/// `exec` options from the command line.
pub fn to_exec_options(detached: bool, user: &Option<String>, no_allocate_tty: bool, privileged: bool) -> (r: Exec)
    ensures
        r.process.detached == detached,
        same_opt(r.process.user, *user),
        r.process.allocate_tty == !no_allocate_tty,
        r.privileged == privileged,
{
    let mut opts = Exec::default();
    opts.process = to_process_options(detached, user, no_allocate_tty);
    opts.privileged = privileged;
    opts
}

/// The value given to `key` by the first `n` of the `KEY VAL` pairs of
/// `env`, the last one winning.
pub open spec fn pair_value(env: Seq<Seq<char>>, n: int, key: Seq<char>) -> Option<Seq<char>>
    decreases n,
{
    if n <= 0 {
        None
    } else if env[2 * (n - 1)] == key {
        Some(env[2 * (n - 1) + 1])
    } else {
        pair_value(env, n - 1, key)
    }
}

/// `run` options from the command line.  `environment` holds `KEY VAL`
/// pairs in turn; a trailing unpaired word is ignored.
pub fn to_run_options(
    detached: bool,
    user: &Option<String>,
    no_allocate_tty: bool,
    entrypoint: &Option<String>,
    environment: &Vec<String>,
    no_deps: bool,
) -> (r: Run)
    ensures
        r.process.detached == detached,
        same_opt(r.process.user, *user),
        r.process.allocate_tty == !no_allocate_tty,
        same_opt(r.entrypoint, *entrypoint),
        r.no_deps == no_deps,
        forall|k: Seq<char>| #[trigger] label_text(r.environment@, k) == pair_value(
            environment.deep_view(),
            (environment@.len() / 2) as int,
            k,
        ),
{
    let mut opts = Run::default();
    opts.process = to_process_options(detached, user, no_allocate_tty);
    opts.entrypoint = copy_opt(entrypoint);
    let ghost ev = environment.deep_view();
    let mut env_map: StrMap<String> = StrMap::new();
    let total = environment.len();
    let npairs = total / 2;
    let mut i: usize = 0;
    while i < npairs
        invariant
            npairs == environment@.len() / 2,
            total == environment@.len(),
            ev == environment.deep_view(),
            i <= npairs,
            forall|k: Seq<char>| #[trigger] label_text(env_map@, k) == pair_value(ev, i as int, k),
        decreases npairs - i,
    {
        assert(2 * i + 1 < environment@.len()) by (nonlinear_arith)
            requires
                i < npairs,
                npairs == environment@.len() / 2,
        ;
        let key = copy_str(environment[2 * i].as_str());
        let val = copy_str(environment[2 * i + 1].as_str());
        let ghost kv = key@;
        let ghost before = env_map@;
        assert(kv == ev[2 * i as int]);
        assert(val@ == ev[2 * i + 1]);
        env_map.insert(key, val);
        assert forall|k: Seq<char>| #[trigger] label_text(env_map@, k) == pair_value(ev, i + 1, k) by {
            assert(label_text(before, k) == pair_value(ev, i as int, k));
            if k != kv {
                assert(crate::strmap::lookup(env_map@, k) == crate::strmap::lookup(before, k));
            }
        }
        i = i + 1;
    }
    opts.environment = env_map;
    opts.no_deps = no_deps;
    opts
}

/// `test` options from the command line.
pub fn to_test_options(export_test_output: bool) -> (r: Test)
    ensures
        r.export_test_output == export_test_output,
{
    Test { export_test_output }
}

/// `logs` options from the command line.
pub fn to_logs_options(follow: bool, number: &Option<String>) -> (r: Logs)
    ensures
        r.follow == follow,
        same_opt(r.number, *number),
{
    let mut opts = Logs::default();
    opts.follow = follow;
    opts.number = copy_opt(number);
    opts
}

/// `rm` options from the command line.
pub fn to_rm_options(force: bool, remove_volumes: bool) -> (r: Rm)
    ensures
        r.force == force,
        r.remove_volumes == remove_volumes,
{
    let mut opts = Rm::default();
    opts.force = force;
    opts.remove_volumes = remove_volumes;
    opts
}

/// The command given on the command line: none if no words were given,
/// otherwise the first word with the rest as its arguments.
pub fn to_exec_command(command: &Vec<String>) -> (r: Option<Command>)
    ensures
        command@.len() == 0 <==> r is None,
        r matches Some(c) ==> c.arg_list() == command.deep_view(),
{
    if command.len() == 0 {
        None
    } else {
        let copy = copy_strings(command);
        assert(copy@.len() == copy.deep_view().len());
        let c = Command::from_ordered_vec(copy);
        assert(c matches Some(cmd) ==> cmd.arg_list() =~= command.deep_view());
        c
    }
}

/// The commands that print the versions of the tools we use.
pub fn all_versions() -> (r: Vec<Vec<String>>)
    ensures
        r.deep_view() == seq![
            seq!["docker"@, "--version"@],
            seq!["docker-compose"@, "--version"@],
            seq!["git"@, "--version"@],
        ],
{
    let mut r: Vec<Vec<String>> = Vec::new();
    let mut a: Vec<String> = Vec::new();
    push_str(&mut a, "docker");
    push_str(&mut a, "--version");
    let mut b: Vec<String> = Vec::new();
    push_str(&mut b, "docker-compose");
    push_str(&mut b, "--version");
    let mut c: Vec<String> = Vec::new();
    push_str(&mut c, "git");
    push_str(&mut c, "--version");
    let ghost (av, bv, cv) = (a.deep_view(), b.deep_view(), c.deep_view());
    assert(av =~= seq!["docker"@, "--version"@]);
    assert(bv =~= seq!["docker-compose"@, "--version"@]);
    assert(cv =~= seq!["git"@, "--version"@]);
    r.push(a);
    r.push(b);
    r.push(c);
    assert(r.deep_view() =~= seq![av, bv, cv]);
    r
}


/// `names` joined with `sep` between them.
pub open spec fn join(names: Seq<Seq<char>>, sep: Seq<char>) -> Seq<char>
    decreases names.len(),
{
    if names.len() == 0 {
        Seq::empty()
    } else if names.len() == 1 {
        names[0]
    } else {
        join(names.drop_last(), sep) + sep + names.last()
    }
}

/// The names of the pods at positions `idx` among `pods`.
pub open spec fn pod_names_at(pods: Seq<crate::pod::Pod>, idx: Seq<int>) -> Seq<Seq<char>> {
    idx.map_values(|i: int| pods[i].name_view())
}

/// The warning for pods that should be running but are not.
pub open spec fn idle_warning(names: Seq<Seq<char>>, target: Seq<char>) -> Seq<char> {
    "You might want to start the following pods first: "@ + join(names, ", "@) + " (see `cage --target="@ + target
        + " up` or `cage --target="@ + target + " status`)"@
}

/// The warning to show before running a command when some enabled
/// service pods are not running, if any are.
pub fn warn_if_pods_are_enabled_but_not_running(project: &Project, state: &RuntimeState) -> (r: Option<String>)
    ensures
        idle_pods(project.pods_view(), project.current_target_view(), state@).len() == 0 <==> r is None,
        r matches Some(w) ==> w@ == idle_warning(
            pod_names_at(project.pods_view(), idle_pods(project.pods_view(), project.current_target_view(), state@)),
            project.current_target_view(),
        ),
{
    let idle = project.enabled_pods_that_are_not_running(state);
    let ghost iv = idle@.map_values(|i: usize| i as int);
    if idle.len() == 0 {
        return None;
    }
    proof {
        lemma_idle_pods_bounds(project.pods_view(), project.current_target_view(), state@);
    }
    let ghost names = pod_names_at(project.pods_view(), iv);
    let mut joined = String::new();
    let mut i: usize = 0;
    while i < idle.len()
        invariant
            iv == idle@.map_values(|i: usize| i as int),
            iv == idle_pods(project.pods_view(), project.current_target_view(), state@),
            names == pod_names_at(project.pods_view(), iv),
            forall|j: int| 0 <= j < iv.len() ==> 0 <= #[trigger] iv[j] < project.pods_view().len(),
            i <= idle@.len(),
            joined@ == join(names.take(i as int), ", "@),
        decreases idle@.len() - i,
    {
        assert(names.take(i + 1).drop_last() =~= names.take(i as int));
        assert(names.take(i + 1).last() == names[i as int]);
        assert(iv[i as int] == idle@[i as int] as int);
        let name = project.pods()[idle[i]].name();
        assert(name@ == names[i as int]);
        if i > 0 {
            joined.append(", ");
        }
        joined.append(name);
        assert(names.take(i + 1).len() == i + 1);
        if i == 0 {
            assert(joined@ =~= join(names.take(1), ", "@));
        } else {
            assert(joined@ =~= join(names.take(i + 1), ", "@));
        }
        i = i + 1;
    }
    assert(names.take(idle@.len() as int) =~= names);
    let t = project.current_target().name();
    let mut w = concat2("You might want to start the following pods first: ", joined.as_str());
    w.append(" (see `cage --target=");
    w.append(t);
    w.append(" up` or `cage --target=");
    w.append(t);
    w.append(" status`)");
    Some(w)
}

/// The positions of idle pods are positions of pods.
proof fn lemma_idle_pods_bounds(pods: Seq<crate::pod::Pod>, target: Seq<char>, entries: Seq<(Seq<char>, (bool, crate::runtime_state::ContainerStatus))>)
    ensures
        forall|j: int| 0 <= j < idle_pods(pods, target, entries).len() ==> 0 <= #[trigger] idle_pods(pods, target, entries)[j] < pods.len(),
    decreases pods.len(),
{
    if pods.len() > 0 {
        lemma_idle_pods_bounds(pods.drop_last(), target, entries);
        let prev = idle_pods(pods.drop_last(), target, entries);
        if crate::runtime_state::pod_should_run_but_does_not(pods.last(), target, entries) {
            assert(idle_pods(pods, target, entries) == prev.push(pods.len() - 1));
        } else {
            assert(idle_pods(pods, target, entries) == prev);
        }
    }
}

} // verus!
