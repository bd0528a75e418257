//! Arguments that we pass to `docker-compose` and other command-line
//! tools: the options of each subcommand and the commands we ask
//! `docker-compose` to `exec` or `run`.

use vstd::prelude::*;

use crate::strmap::{keys_sorted, StrMap};
use crate::text::{concat2, concat3, copy_str, copy_strings, extend_strings};

verus! {

/// Append a copy of `s` to `out`.
pub fn push_str(out: &mut Vec<String>, s: &str)
    ensures
        final(out).deep_view() == old(out).deep_view().push(s@),
{
    out.push(copy_str(s));
    assert(final(out).deep_view() =~= old(out).deep_view().push(s@));
}

/// Append `s` itself to `out`.
pub fn push_string(out: &mut Vec<String>, s: String)
    ensures
        final(out).deep_view() == old(out).deep_view().push(s@),
{
    let ghost sv = s@;
    out.push(s);
    assert(final(out).deep_view() =~= old(out).deep_view().push(sv));
}

/// The words for a flag that is present only when `on` holds.
pub open spec fn flag_if(on: bool, flag: Seq<char>) -> Seq<Seq<char>> {
    if on {
        seq![flag]
    } else {
        Seq::empty()
    }
}

/// Types which can be converted to command-line arguments.
pub trait ToArgs {
    /// The arguments, as character sequences.
    spec fn arg_list(&self) -> Seq<Seq<char>>;

    /// Convert to arguments suitable for a command runner.
    fn to_args(&self) -> (r: Vec<String>)
        ensures
            r.deep_view() == self.arg_list(),
    ;
}

/// An empty set of options, used for `docker-compose` subcommands which
/// don't need any.
#[derive(Debug, Clone, Copy)]
pub struct Empty;

impl ToArgs for Empty {
    open spec fn arg_list(&self) -> Seq<Seq<char>> {
        Seq::empty()
    }

    fn to_args(&self) -> (r: Vec<String>) {
        let r: Vec<String> = Vec::new();
        assert(r.deep_view() =~= Seq::<Seq<char>>::empty());
        r
    }
}

/// Command-line flags for `docker-compose up`.
#[derive(Debug, Clone)]
pub struct Up {
    /// Should we initialize each pod after we start it up?
    pub init: bool,
}

impl Up {
    /// Create new `Up` options.
    pub fn new(init: bool) -> (r: Up)
        ensures
            r.init == init,
    {
        Up { init }
    }
}

impl Default for Up {
    fn default() -> (r: Up)
        ensures
            !r.init,
    {
        Up { init: false }
    }
}

impl ToArgs for Up {
    /// We always pass `-d`, because we need to detach from each pod to
    /// launch the next.
    open spec fn arg_list(&self) -> Seq<Seq<char>> {
        seq!["-d"@]
    }

    fn to_args(&self) -> (r: Vec<String>) {
        let mut r: Vec<String> = Vec::new();
        push_str(&mut r, "-d");
        assert(r.deep_view() =~= seq!["-d"@]);
        r
    }
}

/// Command-line flags which can be passed to `docker-compose exec` and `run`.
#[derive(Debug, Clone)]
pub struct Process {
    /// Should we execute this command in the background?
    pub detached: bool,
    /// An optional user as whom we should run the command.
    pub user: Option<String>,
    /// Should we allocate a TTY when executing the command?
    pub allocate_tty: bool,
}

impl Default for Process {
    fn default() -> (r: Process)
        ensures
            !r.detached,
            r.user is None,
            r.allocate_tty,
    {
        Process { detached: false, user: None, allocate_tty: true }
    }
}

/// The words for an optional `--user` flag.
pub open spec fn user_args(user: Option<String>) -> Seq<Seq<char>> {
    match user {
        Some(u) => seq!["--user"@, u@],
        None => Seq::empty(),
    }
}

impl ToArgs for Process {
    open spec fn arg_list(&self) -> Seq<Seq<char>> {
        flag_if(self.detached, "-d"@) + user_args(self.user) + flag_if(!self.allocate_tty, "-T"@)
    }

    fn to_args(&self) -> (r: Vec<String>) {
        let mut args: Vec<String> = Vec::new();
        if self.detached {
            push_str(&mut args, "-d");
        }
        let ghost a1 = args.deep_view();
        assert(a1 =~= flag_if(self.detached, "-d"@));
        if let Some(user) = &self.user {
            push_str(&mut args, "--user");
            push_str(&mut args, user.as_str());
        }
        let ghost a2 = args.deep_view();
        assert(a2 =~= a1 + user_args(self.user));
        if !self.allocate_tty {
            push_str(&mut args, "-T");
        }
        assert(args.deep_view() =~= a2 + flag_if(!self.allocate_tty, "-T"@));
        args
    }
}

/// Options for `docker-compose exec`.
#[derive(Debug, Clone)]
pub struct Exec {
    /// The options shared with `run`.
    pub process: Process,
    /// Should we run this command with elevated privileges?
    pub privileged: bool,
}

impl Default for Exec {
    fn default() -> (r: Exec)
        ensures
            !r.process.detached,
            r.process.user is None,
            r.process.allocate_tty,
            !r.privileged,
    {
        Exec { process: Process::default(), privileged: false }
    }
}

impl ToArgs for Exec {
    open spec fn arg_list(&self) -> Seq<Seq<char>> {
        self.process.arg_list() + flag_if(self.privileged, "--privileged"@)
    }

    fn to_args(&self) -> (r: Vec<String>) {
        let mut args = self.process.to_args();
        let ghost a1 = args.deep_view();
        if self.privileged {
            push_str(&mut args, "--privileged");
        }
        assert(args.deep_view() =~= a1 + flag_if(self.privileged, "--privileged"@));
        args
    }
}

/// The `-e VAR=VAL` words for each environment entry, in key order.
pub open spec fn env_args(env: Seq<(Seq<char>, String)>) -> Seq<Seq<char>>
    decreases env.len(),
{
    if env.len() == 0 {
        Seq::empty()
    } else {
        env_args(env.drop_last()) + seq!["-e"@, env.last().0 + "="@ + env.last().1@]
    }
}

/// The words for an optional `--entrypoint` flag.
pub open spec fn entrypoint_args(entrypoint: Option<String>) -> Seq<Seq<char>> {
    match entrypoint {
        Some(e) => seq!["--entrypoint"@, e@],
        None => Seq::empty(),
    }
}

/// Options for `docker-compose run`.
#[derive(Debug, Clone)]
pub struct Run {
    /// The options shared with `exec`.
    pub process: Process,
    /// Extra environment variables to pass in.
    pub environment: StrMap<String>,
    /// Override the container's entrypoint.  Specify `Some("".to_owned())`
    /// to reset the entrypoint to the default.
    pub entrypoint: Option<String>,
    /// Don't start linked services when running the specified service.
    pub no_deps: bool,
}

impl Default for Run {
    fn default() -> (r: Run)
        ensures
            !r.process.detached,
            r.process.user is None,
            r.process.allocate_tty,
            r.environment@.len() == 0,
            r.entrypoint is None,
            !r.no_deps,
    {
        Run { process: Process::default(), environment: StrMap::new(), entrypoint: None, no_deps: false }
    }
}

impl ToArgs for Run {
    open spec fn arg_list(&self) -> Seq<Seq<char>> {
        self.process.arg_list() + env_args(self.environment@) + entrypoint_args(self.entrypoint)
            + flag_if(self.no_deps, "--no-deps"@)
    }

    fn to_args(&self) -> (r: Vec<String>) {
        let mut args = self.process.to_args();
        let ghost a1 = args.deep_view();
        let n = self.environment.len();
        let mut i: usize = 0;
        while i < n
            invariant
                n == self.environment@.len(),
                i <= n,
                args.deep_view() == a1 + env_args(self.environment@.take(i as int)),
            decreases n - i,
        {
            let (var, val) = self.environment.entry(i);
            push_str(&mut args, "-e");
            push_string(&mut args, concat3(var.as_str(), "=", val.as_str()));
            assert(self.environment@.take(i + 1).drop_last() =~= self.environment@.take(i as int));
            assert(args.deep_view() =~= a1 + env_args(self.environment@.take(i + 1)));
            i = i + 1;
        }
        assert(self.environment@.take(n as int) =~= self.environment@);
        let ghost a2 = args.deep_view();
        if let Some(entrypoint) = &self.entrypoint {
            push_str(&mut args, "--entrypoint");
            push_str(&mut args, entrypoint.as_str());
        }
        let ghost a3 = args.deep_view();
        assert(a3 =~= a2 + entrypoint_args(self.entrypoint));
        if self.no_deps {
            push_str(&mut args, "--no-deps");
        }
        assert(args.deep_view() =~= a3 + flag_if(self.no_deps, "--no-deps"@));
        args
    }
}

/// Command-line flags for `docker-compose kill`.
#[derive(Debug, Clone)]
pub struct Kill {
    /// The signal to deliver, if specified.
    pub signal: Option<String>,
}

impl Default for Kill {
    fn default() -> (r: Kill)
        ensures
            r.signal is None,
    {
        Kill { signal: None }
    }
}

impl ToArgs for Kill {
    /// The signal is passed as the single word `-s SIGNAL`.
    open spec fn arg_list(&self) -> Seq<Seq<char>> {
        match self.signal {
            Some(s) => seq!["-s "@ + s@],
            None => Seq::empty(),
        }
    }

    fn to_args(&self) -> (r: Vec<String>) {
        let mut args: Vec<String> = Vec::new();
        if let Some(signal) = &self.signal {
            push_string(&mut args, concat2("-s ", signal.as_str()));
        }
        assert(args.deep_view() =~= self.arg_list());
        args
    }
}

/// Command-line flags for `docker-compose logs`.
#[derive(Debug, Clone)]
pub struct Logs {
    /// Whether to interactively display logs as they're output.
    pub follow: bool,
    /// Number of lines from end of log output to display.
    pub number: Option<String>,
}

impl Default for Logs {
    fn default() -> (r: Logs)
        ensures
            !r.follow,
            r.number is None,
    {
        Logs { follow: false, number: None }
    }
}

impl ToArgs for Logs {
    open spec fn arg_list(&self) -> Seq<Seq<char>> {
        flag_if(self.follow, "-f"@) + match self.number {
            Some(n) => seq!["--tail="@ + n@],
            None => Seq::empty(),
        }
    }

    fn to_args(&self) -> (r: Vec<String>) {
        let mut args: Vec<String> = Vec::new();
        if self.follow {
            push_str(&mut args, "-f");
        }
        let ghost a1 = args.deep_view();
        if let Some(number) = &self.number {
            push_string(&mut args, concat2("--tail=", number.as_str()));
        }
        assert(args.deep_view() =~= self.arg_list());
        args
    }
}

/// Command-line flags for `docker-compose ps`.
#[derive(Debug, Clone)]
pub struct Ps {
    /// Only show ids.
    pub only_ids: bool,
}

impl Default for Ps {
    fn default() -> (r: Ps)
        ensures
            !r.only_ids,
    {
        Ps { only_ids: false }
    }
}

impl ToArgs for Ps {
    open spec fn arg_list(&self) -> Seq<Seq<char>> {
        flag_if(self.only_ids, "-q"@)
    }

    fn to_args(&self) -> (r: Vec<String>) {
        let mut args: Vec<String> = Vec::new();
        if self.only_ids {
            push_str(&mut args, "-q");
        }
        assert(args.deep_view() =~= self.arg_list());
        args
    }
}

/// Command-line flags for `docker-compose rm`.
#[derive(Debug, Clone)]
pub struct Rm {
    /// Delete containers without confirmation.
    pub force: bool,
    /// Delete any anonymous volumes attached to containers.
    pub remove_volumes: bool,
}

impl Default for Rm {
    fn default() -> (r: Rm)
        ensures
            !r.force,
            !r.remove_volumes,
    {
        Rm { force: false, remove_volumes: false }
    }
}

impl ToArgs for Rm {
    open spec fn arg_list(&self) -> Seq<Seq<char>> {
        flag_if(self.force, "-f"@) + flag_if(self.remove_volumes, "-v"@)
    }

    fn to_args(&self) -> (r: Vec<String>) {
        let mut args: Vec<String> = Vec::new();
        if self.force {
            push_str(&mut args, "-f");
        }
        let ghost a1 = args.deep_view();
        if self.remove_volumes {
            push_str(&mut args, "-v");
        }
        assert(args.deep_view() =~= self.arg_list());
        args
    }
}

/// Command-line flags for `docker-compose pull`.
#[derive(Debug, Clone)]
pub struct Pull {
    /// Don't show download progress.
    pub quiet: bool,
}

impl Default for Pull {
    fn default() -> (r: Pull)
        ensures
            !r.quiet,
    {
        Pull { quiet: false }
    }
}

impl ToArgs for Pull {
    open spec fn arg_list(&self) -> Seq<Seq<char>> {
        flag_if(self.quiet, "--quiet"@)
    }

    fn to_args(&self) -> (r: Vec<String>) {
        let mut args: Vec<String> = Vec::new();
        if self.quiet {
            push_str(&mut args, "--quiet");
        }
        assert(args.deep_view() =~= self.arg_list());
        args
    }
}

/// Options for running a service's tests.
#[derive(Debug, Clone)]
pub struct Test {
    /// Copy the container's `./test_output` into the project's
    /// `test_output` directory afterwards.
    pub export_test_output: bool,
}

impl Default for Test {
    fn default() -> (r: Test)
        ensures
            !r.export_test_output,
    {
        Test { export_test_output: false }
    }
}

/// A command which we want `docker-compose` to `exec` or `run` for us.
#[derive(Debug, Clone)]
pub struct Command {
    /// The command to execute.
    pub command: String,
    /// The arguments to pass to the command.
    pub args: Vec<String>,
}

impl Command {
    /// Create a new `Command` with no arguments.
    pub fn new(command: &str) -> (r: Command)
        ensures
            r.command@ == command@,
            r.args@.len() == 0,
    {
        Command { command: copy_str(command), args: Vec::new() }
    }

    /// Create a `Command` from a list whose first item is the command and
    /// whose remaining items are its arguments; `None` for an empty list.
    pub fn from_ordered_vec(list: Vec<String>) -> (r: Option<Command>)
        ensures
            list@.len() == 0 <==> r is None,
            r matches Some(c) ==> c.command@ == list@[0]@ && c.args.deep_view()
                == list.deep_view().drop_first(),
    {
        if list.len() == 0 {
            return None;
        }
        let command = list[0].clone();
        let mut args: Vec<String> = Vec::new();
        let mut i: usize = 1;
        while i < list.len()
            invariant
                1 <= i <= list.len(),
                args.deep_view() == list.deep_view().subrange(1, i as int),
            decreases list.len() - i,
        {
            push_str(&mut args, list[i].as_str());
            assert(args.deep_view() =~= list.deep_view().subrange(1, i + 1));
            i = i + 1;
        }
        assert(list.deep_view().drop_first() =~= list.deep_view().subrange(1, list.len() as int));
        Some(Command { command, args })
    }

    /// Replace the arguments of this command, returning it.
    pub fn with_args(self, args: &Vec<String>) -> (r: Command)
        ensures
            r.command@ == self.command@,
            r.args.deep_view() == args.deep_view(),
    {
        Command { command: self.command, args: copy_strings(args) }
    }
}

impl ToArgs for Command {
    /// The command followed by its arguments.
    open spec fn arg_list(&self) -> Seq<Seq<char>> {
        seq![self.command@] + self.args.deep_view()
    }

    fn to_args(&self) -> (r: Vec<String>) {
        let mut result: Vec<String> = Vec::new();
        push_str(&mut result, self.command.as_str());
        extend_strings(&mut result, &self.args);
        assert(result.deep_view() =~= seq![self.command@] + self.args.deep_view());
        result
    }
}

} // verus!
