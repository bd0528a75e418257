//! Options and commands for `docker-compose exec`, in the form where the
//! command's own arguments follow a `--` separator.

use vstd::prelude::*;

use crate::args::{flag_if, push_str, user_args, ToArgs};
use crate::text::{copy_str, copy_strings, extend_strings};

verus! {

/// Command-line flags which can be passed to `docker-compose exec`.
#[derive(Debug, Clone)]
pub struct Options {
    /// Should we execute this command in the background?
    pub detached: bool,
    /// Should we run this command with elevated privileges?
    pub privileged: bool,
    /// An optional user as whom we should run the command.
    pub user: Option<String>,
    /// Should we allocate a TTY when executing the command?
    pub allocate_tty: bool,
}

impl Default for Options {
    fn default() -> (r: Options)
        ensures
            !r.detached,
            !r.privileged,
            r.user is None,
            r.allocate_tty,
    {
        Options { detached: false, privileged: false, user: None, allocate_tty: true }
    }
}

impl ToArgs for Options {
    open spec fn arg_list(&self) -> Seq<Seq<char>> {
        flag_if(self.detached, "-d"@) + flag_if(self.privileged, "--privileged"@) + user_args(self.user)
            + flag_if(!self.allocate_tty, "-T"@)
    }

    fn to_args(&self) -> (r: Vec<String>) {
        let mut args: Vec<String> = Vec::new();
        if self.detached {
            push_str(&mut args, "-d");
        }
        let ghost a1 = args.deep_view();
        if self.privileged {
            push_str(&mut args, "--privileged");
        }
        let ghost a2 = args.deep_view();
        assert(a2 =~= a1 + flag_if(self.privileged, "--privileged"@));
        if let Some(user) = &self.user {
            push_str(&mut args, "--user");
            push_str(&mut args, user.as_str());
        }
        let ghost a3 = args.deep_view();
        assert(a3 =~= a2 + user_args(self.user));
        if !self.allocate_tty {
            push_str(&mut args, "-T");
        }
        assert(args.deep_view() =~= a3 + flag_if(!self.allocate_tty, "-T"@));
        assert(a1 =~= flag_if(self.detached, "-d"@));
        args
    }
}

/// A command which can be executed inside a container.
#[derive(Debug, Clone)]
pub struct Command {
    /// The command to execute.
    pub command: String,
    /// The arguments to pass to the command.
    pub args: Vec<String>,
}

impl Command {
    /// Create a new `Command` with no arguments.
    pub fn new(command: &str) -> (r: Command)
        ensures
            r.command@ == command@,
            r.args@.len() == 0,
    {
        Command { command: copy_str(command), args: Vec::new() }
    }

    /// Replace the arguments of this command, returning it.
    pub fn with_args(self, args: &Vec<String>) -> (r: Command)
        ensures
            r.command@ == self.command@,
            r.args.deep_view() == args.deep_view(),
    {
        Command { command: self.command, args: copy_strings(args) }
    }
}

impl ToArgs for Command {
    /// The command, then `--` and the arguments when there are any.
    open spec fn arg_list(&self) -> Seq<Seq<char>> {
        if self.args@.len() == 0 {
            seq![self.command@]
        } else {
            seq![self.command@, "--"@] + self.args.deep_view()
        }
    }

    fn to_args(&self) -> (r: Vec<String>) {
        let mut result: Vec<String> = Vec::new();
        push_str(&mut result, self.command.as_str());
        if self.args.len() > 0 {
            push_str(&mut result, "--");
            extend_strings(&mut result, &self.args);
            assert(result.deep_view() =~= seq![self.command@, "--"@] + self.args.deep_view());
        } else {
            assert(result.deep_view() =~= seq![self.command@]);
        }
        result
    }
}

} // verus!
