//! Building command lines.  The library decides which commands to run, as
//! lists of words; a runner turns them into processes, or, in tests,
//! records them.

use vstd::prelude::*;

use crate::text::{copy_str, copy_strings};

verus! {

/// Runs commands as operating-system processes.  It holds nothing: the
/// program that uses the library runs the command lines it is handed.
#[derive(Debug, Clone, Copy)]
pub struct OsCommandRunner;

impl OsCommandRunner {
    /// Create a new `OsCommandRunner`.
    pub fn new() -> (r: OsCommandRunner)
        ensures
            r == OsCommandRunner,
    {
        OsCommandRunner
    }
}

/// Builds operating-system commands.  Like `OsCommandRunner`, it holds
/// nothing of its own.
#[derive(Debug, Clone, Copy)]
pub struct OsCommandBuilder;

/// Records the commands it is asked to build instead of running them.
#[derive(Debug)]
pub struct TestCommandBuilder {
    /// Each command built so far: the program, then its arguments.
    cmds: Vec<Vec<String>>,
}

impl View for TestCommandBuilder {
    type V = Seq<Seq<Seq<char>>>;

    /// The commands recorded so far, in order.
    closed spec fn view(&self) -> Seq<Seq<Seq<char>>> {
        self.cmds.deep_view()
    }
}

impl TestCommandBuilder {
    /// Create a new `TestCommandBuilder` with nothing recorded.
    pub fn new() -> (r: TestCommandBuilder)
        ensures
            r@ == Seq::<Seq<Seq<char>>>::empty(),
    {
        let r = TestCommandBuilder { cmds: Vec::new() };
        assert(r@ =~= Seq::<Seq<Seq<char>>>::empty());
        r
    }

    /// Start a new command running `program`.
    pub fn build(&mut self, program: &str)
        ensures
            final(self)@ == old(self)@.push(seq![program@]),
    {
        let ghost before = self@;
        let mut cmd: Vec<String> = Vec::new();
        cmd.push(copy_str(program));
        assert(cmd.deep_view() =~= seq![program@]);
        self.cmds.push(cmd);
        assert(self@ =~= before.push(seq![program@]));
    }

    /// Add an argument to the command built last.
    pub fn arg(&mut self, arg: &str)
        requires
            old(self)@.len() > 0,
        ensures
            final(self)@ == old(self)@.update(old(self)@.len() - 1, old(self)@.last().push(arg@)),
    {
        let ghost before = self@;
        let n = self.cmds.len();
        let mut last = self.cmds.pop().unwrap();
        let ghost lv = last.deep_view();
        last.push(copy_str(arg));
        assert(last.deep_view() =~= lv.push(arg@));
        self.cmds.push(last);
        assert(self@ =~= before.update(n - 1, before.last().push(arg@)));
    }

    /// Add several arguments to the command built last.
    pub fn args(&mut self, args: &Vec<String>)
        requires
            old(self)@.len() > 0,
        ensures
            final(self)@ == old(self)@.update(old(self)@.len() - 1, old(self)@.last() + args.deep_view()),
    {
        let ghost before = self@;
        let mut i: usize = 0;
        while i < args.len()
            invariant
                i <= args@.len(),
                before.len() > 0,
                self@ == before.update(before.len() - 1, before.last() + args.deep_view().take(i as int)),
            decreases args@.len() - i,
        {
            let ghost cur = self@;
            self.arg(args[i].as_str());
            assert(before.last() + args.deep_view().take(i + 1) =~= (before.last() + args.deep_view().take(
                i as int,
            )).push(args.deep_view()[i as int]));
            assert(self@ =~= before.update(before.len() - 1, before.last() + args.deep_view().take(i + 1)));
            i = i + 1;
        }
        assert(args.deep_view().take(args@.len() as int) =~= args.deep_view());
    }

    /// Record a whole command line at once.
    pub fn record(&mut self, cmd: &Vec<String>)
        ensures
            final(self)@ == old(self)@.push(cmd.deep_view()),
    {
        let ghost before = self@;
        self.cmds.push(copy_strings(cmd));
        assert(self@ =~= before.push(cmd.deep_view()));
    }

    /// Record several command lines, in order.
    pub fn record_all(&mut self, cmds: &Vec<Vec<String>>)
        ensures
            final(self)@ == old(self)@ + cmds.deep_view(),
    {
        let ghost before = self@;
        let mut i: usize = 0;
        while i < cmds.len()
            invariant
                i <= cmds@.len(),
                self@ == before + cmds.deep_view().take(i as int),
            decreases cmds@.len() - i,
        {
            self.record(&cmds[i]);
            assert(before + cmds.deep_view().take(i + 1) =~= (before + cmds.deep_view().take(i as int)).push(
                cmds.deep_view()[i as int],
            ));
            i = i + 1;
        }
        assert(cmds.deep_view().take(cmds@.len() as int) =~= cmds.deep_view());
    }

    /// Access the list of commands built.
    pub fn cmds(&self) -> (r: &Vec<Vec<String>>)
        ensures
            r.deep_view() == self@,
    {
        &self.cmds
    }
}

} // verus!
