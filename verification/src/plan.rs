//! What a command does to a project, as a plan: the steps to carry out in
//! order (mostly command lines to run), and the error to report after them,
//! if any.  The program that uses the library carries the steps out and
//! stops at the first that fails.

use vstd::prelude::*;

use crate::act_on::ActOn;
use crate::args::{push_str, push_string, Command, Exec, Pull, Run, Test, ToArgs, Up};
use crate::compose::{label_shell, label_test, label_text, shell_words, File, Service};
use crate::errors::Error;
use crate::ovr::{admits, opt_strings_view};
use crate::paths::path_join;
use crate::pod::{merged_label, target_file_for, Pod};
use crate::strmap::lookup;
use crate::project::{
    is_task, act_on_error, act_on_items, ambiguous_message, pos_view, resolve_error, resolved_prefix, service_matches,
    service_part, PodOrService, Project,
};
use crate::text::{concat2, concat3, copy_str, copy_strings, decimal, decimal_count, decimal_string, extend_strings};
use crate::paths::join_path;
use crate::strmap::has_key;

verus! {

/// One step of a plan, as a value.
pub enum StepV {
    /// Run this command line.
    Run(Seq<Seq<char>>),
    /// Wait until every service of the pod at this position listens on its
    /// ports.
    Await(int),
    /// Make sure the parent of this path exists and the path itself does
    /// not.
    EnsureAbsent(Seq<char>),
}

/// One step of a plan.
#[derive(Debug, Clone)]
pub enum Step {
    /// Run this command line: the program, then its arguments.
    Run(Vec<String>),
    /// Wait until every service of the pod at this position in the project
    /// is listening on all its ports.
    AwaitListening(usize),
    /// Create the parent directory of this path if needed, and fail with
    /// `Error::OutputDirectoryExists` if the path exists.
    EnsureAbsent(String),
}

/// The value of a step.
pub open spec fn step_view(s: Step) -> StepV {
    match s {
        Step::Run(cmd) => StepV::Run(cmd.deep_view()),
        Step::AwaitListening(i) => StepV::Await(i as int),
        Step::EnsureAbsent(p) => StepV::EnsureAbsent(p@),
    }
}

/// Why a plan stops.
pub enum FaultV {
    /// A name on the command line that is neither a pod nor a service.
    Unresolved(Seq<char>),
    /// A service name that names no single service.
    NoService(Seq<char>),
    /// An empty command among a pod's `run_on_init` commands.
    EmptyInit(Seq<char>),
    /// An empty command in a script.
    EmptyScript,
    /// A command that needs exactly one pod or service got something else.
    SingleName,
}

/// What a plan would do at some point: a step, or stop with a fault.
pub enum OutcomeV {
    /// Carry out a step.
    Do(StepV),
    /// Stop.
    Fail(FaultV),
}

/// The steps before the first fault.
pub open spec fn plan_steps(os: Seq<OutcomeV>) -> Seq<StepV>
    decreases os.len(),
{
    if os.len() == 0 {
        Seq::empty()
    } else {
        match os[0] {
            OutcomeV::Do(s) => seq![s] + plan_steps(os.drop_first()),
            OutcomeV::Fail(_) => Seq::empty(),
        }
    }
}

/// The first fault, if any.
pub open spec fn plan_fault(os: Seq<OutcomeV>) -> Option<FaultV>
    decreases os.len(),
{
    if os.len() == 0 {
        None
    } else {
        match os[0] {
            OutcomeV::Do(_) => plan_fault(os.drop_first()),
            OutcomeV::Fail(f) => Some(f),
        }
    }
}

/// The error for a service name that names no single service.
pub open spec fn service_error(pods: Seq<Pod>, name: Seq<char>, e: Error) -> bool {
    if service_matches(pods, name).len() == 0 {
        e matches Error::UnknownService(n) && n@ == name
    } else {
        e matches Error::Message(m) && m@ == ambiguous_message(name)
    }
}

/// The message for an empty `run_on_init` command of pod `pod`.
pub open spec fn empty_init_message(pod: Seq<char>) -> Seq<char> {
    "all `run_on_init` items for '"@ + pod + "' must have at least one value"@
}

/// `e` is the error that reports fault `f`.
pub open spec fn fault_matches(pods: Seq<Pod>, f: FaultV, e: Error) -> bool {
    match f {
        FaultV::Unresolved(name) => resolve_error(pods, name, e),
        FaultV::NoService(name) => service_error(pods, name, e),
        FaultV::EmptyInit(pod) => e matches Error::Message(m) && m@ == empty_init_message(pod),
        FaultV::EmptyScript => e matches Error::Message(m) && m@ == "all items in script must have at least one value"@,
        FaultV::SingleName => e matches Error::Message(m) && m@ == "You may only specify a single service or pod"@,
    }
}

/// The steps to carry out, in order, then the error to report, if any.
#[derive(Debug)]
pub struct Plan {
    /// The steps, in order.
    pub steps: Vec<Step>,
    /// The error to report once the steps are done.
    pub error: Option<Error>,
}

/// `p` carries out the outcomes `os` up to the first fault, and reports it.
pub open spec fn plan_is(p: Plan, pods: Seq<Pod>, os: Seq<OutcomeV>) -> bool {
    &&& p.steps@.map_values(|s: Step| step_view(s)) == plan_steps(os)
    &&& match plan_fault(os) {
        Some(f) => p.error matches Some(e) && fault_matches(pods, f, e),
        None => p.error is None,
    }
}

/// Running the outcomes `a` and then `b`: `b` counts only if `a` has no
/// fault.
pub proof fn lemma_plan_append(a: Seq<OutcomeV>, b: Seq<OutcomeV>)
    ensures
        plan_fault(a) is None ==> plan_steps(a + b) == plan_steps(a) + plan_steps(b) && plan_fault(a + b) == plan_fault(b),
        plan_fault(a) is Some ==> plan_steps(a + b) == plan_steps(a) && plan_fault(a + b) == plan_fault(a),
    decreases a.len(),
{
    if a.len() > 0 {
        lemma_plan_append(a.drop_first(), b);
        assert((a + b).drop_first() =~= a.drop_first() + b);
        assert((a + b)[0] == a[0]);
        match a[0] {
            OutcomeV::Do(s) => {
                assert(seq![s] + (plan_steps(a.drop_first()) + plan_steps(b)) =~= seq![s] + plan_steps(a.drop_first())
                    + plan_steps(b));
            },
            OutcomeV::Fail(_) => {},
        }
    } else {
        assert(a + b =~= b);
    }
}

/// A single step.
pub proof fn lemma_plan_single(s: StepV)
    ensures
        plan_steps(seq![OutcomeV::Do(s)]) == seq![s],
        plan_fault(seq![OutcomeV::Do(s)]) is None,
{
    let os = seq![OutcomeV::Do(s)];
    assert(os.drop_first() =~= Seq::<OutcomeV>::empty());
    assert(plan_steps(os.drop_first()) == Seq::<StepV>::empty());
    assert(plan_fault(os.drop_first()) is None);
    assert(seq![s] + Seq::<StepV>::empty() =~= seq![s]);
}

/// A single fault.
pub proof fn lemma_plan_fail(f: FaultV)
    ensures
        plan_steps(seq![OutcomeV::Fail(f)]) == Seq::<StepV>::empty(),
        plan_fault(seq![OutcomeV::Fail(f)]) == Some(f),
{
}

/// The optional service name as words.
pub open spec fn opt_word(w: Option<Seq<char>>) -> Seq<Seq<char>> {
    match w {
        Some(s) => seq![s],
        None => Seq::empty(),
    }
}

/// The `-p` and `-f` arguments that describe pod `pod` of `proj` to
/// `docker-compose`, and `--progress quiet` in quiet mode.
pub open spec fn compose_args_spec(proj: Project, pod: Pod) -> Seq<Seq<char>> {
    seq!["-p"@, proj.compose_name_view(), "-f"@, path_join(proj.output_pods_dir_view(), pod.rel_path_view())] + if proj.quiet_view() {
        seq!["--progress"@, "quiet"@]
    } else {
        Seq::empty()
    }
}

/// The `docker-compose` command line that runs `command` with `opts` on
/// pod `i`, or on one of its services.
pub open spec fn compose_cmd(proj: Project, i: int, command: Seq<char>, opts: Seq<Seq<char>>, svc: Option<Seq<char>>) -> Seq<Seq<char>> {
    seq!["docker-compose"@] + compose_args_spec(proj, proj.pods_view()[i]) + seq![command] + opts + opt_word(svc)
}

/// Is `pod` enabled in the target named `target`?
pub open spec fn pod_enabled(pod: Pod, target: Seq<char>) -> bool {
    admits(opt_strings_view(pod.config_view().enable_in_targets), target)
}

/// What `compose` does for one pod or service: run the command when the
/// pod is enabled in the current target.
pub open spec fn compose_item(proj: Project, item: (int, Option<Seq<char>>), command: Seq<char>, opts: Seq<Seq<char>>) -> Seq<OutcomeV> {
    if pod_enabled(proj.pods_view()[item.0], proj.current_target_view()) {
        seq![OutcomeV::Do(StepV::Run(compose_cmd(proj, item.0, command, opts, item.1)))]
    } else {
        Seq::empty()
    }
}

/// What `compose` does for each pod or service in turn.
pub open spec fn compose_items(proj: Project, items: Seq<(int, Option<Seq<char>>)>, command: Seq<char>, opts: Seq<Seq<char>>) -> Seq<OutcomeV>
    decreases items.len(),
{
    if items.len() == 0 {
        Seq::empty()
    } else {
        compose_items(proj, items.drop_last(), command, opts) + compose_item(proj, items.last(), command, opts)
    }
}

/// The fault of the first name of `act_on` that does not resolve, if any.
pub open spec fn act_on_fault(pods: Seq<Pod>, act_on: ActOn) -> Seq<OutcomeV> {
    match act_on {
        ActOn::Named(names) => {
            let k = resolved_prefix(pods, names.deep_view()).len();
            if k < names.deep_view().len() {
                seq![OutcomeV::Fail(FaultV::Unresolved(names.deep_view()[k as int]))]
            } else {
                Seq::empty()
            }
        },
        _ => Seq::empty(),
    }
}

/// What `compose` does: the command for each designated pod or service
/// that is enabled, then the fault of a name that does not resolve.
pub open spec fn compose_outcomes(proj: Project, act_on: ActOn, command: Seq<char>, opts: Seq<Seq<char>>) -> Seq<OutcomeV> {
    compose_items(proj, act_on_items(proj.pods_view(), act_on), command, opts) + act_on_fault(proj.pods_view(), act_on)
}

/// The `docker-compose` command line that runs `verb` (`run` or `exec`)
/// for the service `service` names, when it names a single service.
pub open spec fn service_cmd(proj: Project, verb: Seq<char>, service: Seq<char>, opts: Seq<Seq<char>>, cmd: Seq<Seq<char>>) -> Option<Seq<Seq<char>>> {
    let m = service_matches(proj.pods_view(), service);
    if m.len() == 1 {
        Some(
            seq!["docker-compose"@] + compose_args_spec(proj, proj.pods_view()[m[0]]) + seq![verb] + opts + seq![
                service_part(service),
            ] + cmd,
        )
    } else {
        None
    }
}

/// What running `cmd` in the service named `service` does.
pub open spec fn run_outcome(proj: Project, service: Seq<char>, opts: Seq<Seq<char>>, cmd: Seq<Seq<char>>) -> OutcomeV {
    match service_cmd(proj, "run"@, service, opts, cmd) {
        Some(c) => OutcomeV::Do(StepV::Run(c)),
        None => OutcomeV::Fail(FaultV::NoService(service)),
    }
}

impl Project {
    /// The `-p` and `-f` arguments that describe `pod` to `docker-compose`,
    /// followed by `--progress quiet` in quiet mode.
    pub fn compose_args(&self, pod: &Pod) -> (r: Vec<String>)
        ensures
            r.deep_view() == compose_args_spec(*self, *pod),
    {
        let mut r: Vec<String> = Vec::new();
        push_str(&mut r, "-p");
        push_string(&mut r, self.compose_name());
        push_str(&mut r, "-f");
        push_string(&mut r, crate::paths::join_path(self.output_pods_dir().as_str(), pod.rel_path()));
        if self.quiet() {
            push_str(&mut r, "--progress");
            push_str(&mut r, "quiet");
        }
        assert(r.deep_view() =~= compose_args_spec(*self, *pod));
        r
    }

    /// The command line that runs `command` with the options `opts` on pod
    /// `i`, or on its service `svc`.
    fn compose_command(&self, i: usize, command: &str, opts: &Vec<String>, svc: Option<&str>) -> (r: Vec<String>)
        requires
            i < self.pods_view().len(),
        ensures
            r.deep_view() == compose_cmd(
                *self,
                i as int,
                command@,
                opts.deep_view(),
                match svc {
                    Some(s) => Some(s@),
                    None => None,
                },
            ),
    {
        let mut r: Vec<String> = Vec::new();
        push_str(&mut r, "docker-compose");
        let ghost r0 = r.deep_view();
        let cargs = self.compose_args(&self.pods()[i]);
        extend_strings(&mut r, &cargs);
        push_str(&mut r, command);
        let ghost r1 = r.deep_view();
        extend_strings(&mut r, opts);
        let ghost r2 = r.deep_view();
        if let Some(s) = svc {
            push_str(&mut r, s);
        }
        assert(r.deep_view() =~= compose_cmd(
            *self,
            i as int,
            command@,
            opts.deep_view(),
            match svc {
                Some(s) => Some(s@),
                None => None,
            },
        ));
        r
    }

    /// Run a `docker-compose` command on each designated pod or service
    /// that is enabled in the current target.
    pub fn compose<O: ToArgs>(&self, command: &str, act_on: &ActOn, opts: &O) -> (r: Plan)
        ensures
            plan_is(r, self.pods_view(), compose_outcomes(*self, *act_on, command@, opts.arg_list())),
    {
        let (items, err) = self.designated(act_on);
        let opt_args = opts.to_args();
        let ghost iv = items@.map_values(|p: PodOrService| pos_view(p));
        let ghost ov = opt_args.deep_view();
        let mut steps: Vec<Step> = Vec::new();
        let mut i: usize = 0;
        while i < items.len()
            invariant
                i <= items@.len(),
                iv == items@.map_values(|p: PodOrService| pos_view(p)),
                ov == opt_args.deep_view(),
                forall|j: int| 0 <= j < items@.len() ==> #[trigger] pos_view(items@[j]).0 < self.pods_view().len(),
                steps@.map_values(|s: Step| step_view(s)) == plan_steps(compose_items(*self, iv.take(i as int), command@, ov)),
                plan_fault(compose_items(*self, iv.take(i as int), command@, ov)) is None,
            decreases items@.len() - i,
        {
            let ghost prev = compose_items(*self, iv.take(i as int), command@, ov);
            assert(iv.take(i + 1).drop_last() =~= iv.take(i as int));
            assert(iv.take(i + 1).last() == pos_view(items@[i as int]));
            assert(pos_view(items@[i as int]).0 < self.pods_view().len());
            let ghost item = compose_item(*self, pos_view(items@[i as int]), command@, ov);
            proof {
                lemma_plan_append(prev, item);
            }
            let ghost before = steps@.map_values(|s: Step| step_view(s));
            let (p, svc): (usize, Option<&str>) = match &items[i] {
                PodOrService::Pod(p) => (*p, None),
                PodOrService::Service(p, s) => (*p, Some(s.as_str())),
            };
            if self.pods()[p].enabled_in(self.current_target()) {
                let cmd = self.compose_command(p, command, &opt_args, svc);
                let ghost cv = cmd.deep_view();
                steps.push(Step::Run(cmd));
                proof {
                    lemma_plan_single(StepV::Run(cv));
                }
                assert(steps@.map_values(|s: Step| step_view(s)) =~= before + seq![StepV::Run(cv)]);
            } else {
                assert(item =~= Seq::<OutcomeV>::empty());
                assert(plan_steps(item) =~= Seq::<StepV>::empty());
                assert(steps@.map_values(|s: Step| step_view(s)) =~= before + plan_steps(item));
            }
            i = i + 1;
        }
        assert(iv.take(items@.len() as int) =~= iv);
        let ghost done = compose_items(*self, iv, command@, ov);
        let ghost tail = act_on_fault(self.pods_view(), *act_on);
        proof {
            lemma_plan_append(done, tail);
            match act_on {
                ActOn::Named(names) => {
                    let k = resolved_prefix(self.pods_view(), names.deep_view()).len();
                    if k < names.deep_view().len() {
                        lemma_plan_fail(FaultV::Unresolved(names.deep_view()[k as int]));
                    }
                },
                _ => {},
            }
            assert(steps@.map_values(|s: Step| step_view(s)) =~= plan_steps(done) + plan_steps(tail));
        }
        Plan { steps, error: err }
    }

    /// The command line that runs `command` with `opts` (`run` or `exec`)
    /// in the service `service` names.
    fn service_command(&self, verb: &str, service: &str, opts: &Vec<String>, command: &Vec<String>) -> (r: Result<Vec<String>, Error>)
        ensures
            match r {
                Ok(c) => service_cmd(*self, verb@, service@, opts.deep_view(), command.deep_view()) == Some(c.deep_view()),
                Err(e) => service_cmd(*self, verb@, service@, opts.deep_view(), command.deep_view()) is None
                    && service_error(self.pods_view(), service@, e),
            },
    {
        match self.service_or_err(service) {
            Ok(found) => {
                proof {
                    crate::project::lemma_service_matches_bounds(self.pods_view(), service@);
                }
                let (p, svc) = found;
                let mut r: Vec<String> = Vec::new();
                push_str(&mut r, "docker-compose");
                let cargs = self.compose_args(&self.pods()[p]);
                extend_strings(&mut r, &cargs);
                push_str(&mut r, verb);
                extend_strings(&mut r, opts);
                push_string(&mut r, svc);
                extend_strings(&mut r, command);
                assert(r.deep_view() =~= service_cmd(*self, verb@, service@, opts.deep_view(), command.deep_view())->0);
                Ok(r)
            },
            Err(e) => Err(e),
        }
    }

    /// The command line that runs a one-shot container for `service`,
    /// running `command` if given (otherwise the image's default).
    pub fn run(&self, service: &str, command: Option<&Command>, opts: &Run) -> (r: Result<Vec<String>, Error>)
        ensures
            match r {
                Ok(c) => service_cmd(
                    *self,
                    "run"@,
                    service@,
                    opts.arg_list(),
                    match command {
                        Some(c) => c.arg_list(),
                        None => Seq::empty(),
                    },
                ) == Some(c.deep_view()),
                Err(e) => service_cmd(
                    *self,
                    "run"@,
                    service@,
                    opts.arg_list(),
                    match command {
                        Some(c) => c.arg_list(),
                        None => Seq::empty(),
                    },
                ) is None && service_error(self.pods_view(), service@, e),
            },
    {
        let cmd_args: Vec<String> = match command {
            Some(c) => c.to_args(),
            None => Vec::new(),
        };
        assert(cmd_args.deep_view() =~= match command {
            Some(c) => c.arg_list(),
            None => Seq::empty(),
        });
        let opt_args = opts.to_args();
        self.service_command("run", service, &opt_args, &cmd_args)
    }

    /// The command line that runs `command` inside the running container
    /// of `service`.
    pub fn exec(&self, service: &str, command: &Command, opts: &Exec) -> (r: Result<Vec<String>, Error>)
        ensures
            match r {
                Ok(c) => service_cmd(*self, "exec"@, service@, opts.arg_list(), command.arg_list()) == Some(c.deep_view()),
                Err(e) => service_cmd(*self, "exec"@, service@, opts.arg_list(), command.arg_list()) is None
                    && service_error(self.pods_view(), service@, e),
            },
    {
        let cmd_args = command.to_args();
        let opt_args = opts.to_args();
        self.service_command("exec", service, &opt_args, &cmd_args)
    }

    /// Show the logs of exactly one named pod or service.
    pub fn logs<O: ToArgs>(&self, act_on: &ActOn, opts: &O) -> (r: Plan)
        ensures
            (act_on matches ActOn::Named(names) && names@.len() == 1) ==> plan_is(
                r,
                self.pods_view(),
                compose_outcomes(*self, *act_on, "logs"@, opts.arg_list()),
            ),
            !(act_on matches ActOn::Named(names) && names@.len() == 1) ==> plan_is(
                r,
                self.pods_view(),
                seq![OutcomeV::Fail(FaultV::SingleName)],
            ),
    {
        let single = match act_on {
            ActOn::Named(names) => names.len() == 1,
            _ => false,
        };
        if single {
            self.compose("logs", act_on, opts)
        } else {
            proof {
                lemma_plan_fail(FaultV::SingleName);
            }
            let steps: Vec<Step> = Vec::new();
            assert(steps@.map_values(|s: Step| step_view(s)) =~= Seq::<StepV>::empty());
            Plan { steps, error: Some(Error::msg("You may only specify a single service or pod")) }
        }
    }
}


/// The outcomes of each item in turn.
pub open spec fn flatten(
    items: Seq<(int, Option<Seq<char>>)>,
    f: spec_fn((int, Option<Seq<char>>)) -> Seq<OutcomeV>,
) -> Seq<OutcomeV>
    decreases items.len(),
{
    if items.len() == 0 {
        Seq::empty()
    } else {
        flatten(items.drop_last(), f) + f(items.last())
    }
}

/// Once the items so far have a fault, later items change nothing.
pub proof fn lemma_flatten_stops(
    items: Seq<(int, Option<Seq<char>>)>,
    f: spec_fn((int, Option<Seq<char>>)) -> Seq<OutcomeV>,
    n: int,
    m: int,
)
    requires
        0 <= n <= m <= items.len(),
        plan_fault(flatten(items.take(n), f)) is Some,
    ensures
        plan_steps(flatten(items.take(m), f)) == plan_steps(flatten(items.take(n), f)),
        plan_fault(flatten(items.take(m), f)) == plan_fault(flatten(items.take(n), f)),
    decreases m - n,
{
    if m > n {
        lemma_flatten_stops(items, f, n, m - 1);
        assert(items.take(m).drop_last() =~= items.take(m - 1));
        lemma_plan_append(flatten(items.take(m - 1), f), f(items.take(m).last()));
    }
}

/// One more item.
pub proof fn lemma_flatten_step(
    items: Seq<(int, Option<Seq<char>>)>,
    f: spec_fn((int, Option<Seq<char>>)) -> Seq<OutcomeV>,
    i: int,
)
    requires
        0 <= i < items.len(),
    ensures
        flatten(items.take(i + 1), f) == flatten(items.take(i), f) + f(items[i]),
{
    assert(items.take(i + 1).drop_last() =~= items.take(i));
    assert(items.take(i + 1).last() == items[i]);
}

/// The items of `up`: those whose pod is not a task.
pub open spec fn up_filter(pods: Seq<Pod>, items: Seq<(int, Option<Seq<char>>)>) -> Seq<(int, Option<Seq<char>>)>
    decreases items.len(),
{
    if items.len() == 0 {
        Seq::empty()
    } else if is_task(pods[items.last().0]) {
        up_filter(pods, items.drop_last())
    } else {
        up_filter(pods, items.drop_last()).push(items.last())
    }
}

/// What one `run_on_init` command of the pod named `pod` does: a service
/// name, then the command and its arguments, if any.
pub open spec fn init_cmd_outcome(proj: Project, pod: Seq<char>, c: Seq<Seq<char>>) -> OutcomeV {
    if c.len() == 0 {
        OutcomeV::Fail(FaultV::EmptyInit(pod))
    } else {
        run_outcome(proj, c[0], Seq::empty(), c.skip(1))
    }
}

/// What a list of `run_on_init` commands does, in order.
pub open spec fn init_cmds_outcomes(proj: Project, pod: Seq<char>, cmds: Seq<Seq<Seq<char>>>) -> Seq<OutcomeV>
    decreases cmds.len(),
{
    if cmds.len() == 0 {
        Seq::empty()
    } else {
        init_cmds_outcomes(proj, pod, cmds.drop_last()).push(init_cmd_outcome(proj, pod, cmds.last()))
    }
}

/// What initializing pod `i` does: nothing without `run_on_init`
/// commands; otherwise wait for its services to listen, then run them.
pub open spec fn init_outcomes(proj: Project, i: int) -> Seq<OutcomeV> {
    let pod = proj.pods_view()[i];
    let cmds = pod.config_view().run_on_init.deep_view();
    if cmds.len() == 0 {
        Seq::empty()
    } else {
        seq![OutcomeV::Do(StepV::Await(i))] + init_cmds_outcomes(proj, pod.name_view(), cmds)
    }
}

/// What `up` does for one item: bring it up, then initialize a whole pod
/// if asked to.
pub open spec fn up_item(proj: Project, item: (int, Option<Seq<char>>), opts: Seq<Seq<char>>, init: bool) -> Seq<OutcomeV> {
    compose_item(proj, item, "up"@, opts) + if init && item.1 is None {
        init_outcomes(proj, item.0)
    } else {
        Seq::empty()
    }
}

/// `up_item` as a function of the item.
pub open spec fn up_fn(proj: Project, opts: Seq<Seq<char>>, init: bool) -> spec_fn((int, Option<Seq<char>>)) -> Seq<OutcomeV> {
    |it: (int, Option<Seq<char>>)| up_item(proj, it, opts, init)
}

/// What `up` does.
pub open spec fn up_outcomes(proj: Project, act_on: ActOn, opts: Up) -> Seq<OutcomeV> {
    flatten(
        up_filter(proj.pods_view(), act_on_items(proj.pods_view(), act_on)),
        up_fn(proj, opts.arg_list(), opts.init),
    ) + act_on_fault(proj.pods_view(), act_on)
}

/// A copy of a pod-or-service.
fn copy_pos(p: &PodOrService) -> (r: PodOrService)
    ensures
        pos_view(r) == pos_view(*p),
{
    match p {
        PodOrService::Pod(i) => PodOrService::Pod(*i),
        PodOrService::Service(i, s) => PodOrService::Service(*i, copy_str(s.as_str())),
    }
}

/// Append `cmd`, as a step, to `steps`.
fn push_run(steps: &mut Vec<Step>, cmd: Vec<String>)
    ensures
        final(steps)@.map_values(|s: Step| step_view(s)) == old(steps)@.map_values(|s: Step| step_view(s)).push(
            StepV::Run(cmd.deep_view()),
        ),
{
    let ghost before = steps@.map_values(|s: Step| step_view(s));
    let ghost cv = cmd.deep_view();
    steps.push(Step::Run(cmd));
    assert(steps@.map_values(|s: Step| step_view(s)) =~= before.push(StepV::Run(cv)));
}

/// The elements of `v` from position `k` on.
fn strings_from(v: &Vec<String>, k: usize) -> (r: Vec<String>)
    requires
        k <= v@.len(),
    ensures
        r.deep_view() == v.deep_view().skip(k as int),
{
    let mut out: Vec<String> = Vec::new();
    let mut i: usize = k;
    while i < v.len()
        invariant
            k <= i <= v@.len(),
            out.deep_view() == v.deep_view().subrange(k as int, i as int),
        decreases v@.len() - i,
    {
        push_str(&mut out, v[i].as_str());
        assert(out.deep_view() =~= v.deep_view().subrange(k as int, i + 1));
        i = i + 1;
    }
    assert(v.deep_view().skip(k as int) =~= v.deep_view().subrange(k as int, v@.len() as int));
    out
}

impl Project {
    /// Add the step of one `run_on_init` command of the pod named `pod` to
    /// `steps`; the error that stops it, if any, is returned.
    fn init_cmd_steps(&self, pod: &str, c: &Vec<String>, steps: &mut Vec<Step>) -> (r: Option<Error>)
        ensures
            final(steps)@.map_values(|s: Step| step_view(s)) == old(steps)@.map_values(|s: Step| step_view(s))
                + plan_steps(seq![init_cmd_outcome(*self, pod@, c.deep_view())]),
            match plan_fault(seq![init_cmd_outcome(*self, pod@, c.deep_view())]) {
                Some(f) => r matches Some(e) && fault_matches(self.pods_view(), f, e),
                None => r is None,
            },
    {
        let ghost o = init_cmd_outcome(*self, pod@, c.deep_view());
        let ghost start = steps@.map_values(|s: Step| step_view(s));
        if c.len() == 0 {
            proof {
                lemma_plan_fail(FaultV::EmptyInit(pod@));
            }
            assert(steps@.map_values(|s: Step| step_view(s)) =~= start + plan_steps(seq![o]));
            return Some(Error::Message(concat3("all `run_on_init` items for '", pod, "' must have at least one value")));
        }
        let words = strings_from(c, 1);
        let none: Vec<String> = Vec::new();
        assert(none.deep_view() =~= Seq::<Seq<char>>::empty());
        assert(c[0]@ == c.deep_view()[0]);
        match self.service_command("run", c[0].as_str(), &none, &words) {
            Ok(cmd) => {
                let ghost cmdv = cmd.deep_view();
                push_run(steps, cmd);
                proof {
                    lemma_plan_single(StepV::Run(cmdv));
                }
                assert(steps@.map_values(|s: Step| step_view(s)) =~= start + plan_steps(seq![o]));
                None
            },
            Err(e) => {
                proof {
                    lemma_plan_fail(FaultV::NoService(c.deep_view()[0]));
                }
                assert(steps@.map_values(|s: Step| step_view(s)) =~= start + plan_steps(seq![o]));
                Some(e)
            },
        }
    }

    /// Add the steps that initialize pod `i` to `steps`; the error that
    /// stops them, if any, is returned.
    fn init_steps(&self, i: usize, steps: &mut Vec<Step>) -> (r: Option<Error>)
        requires
            i < self.pods_view().len(),
        ensures
            final(steps)@.map_values(|s: Step| step_view(s)) == old(steps)@.map_values(|s: Step| step_view(s))
                + plan_steps(init_outcomes(*self, i as int)),
            match plan_fault(init_outcomes(*self, i as int)) {
                Some(f) => r matches Some(e) && fault_matches(self.pods_view(), f, e),
                None => r is None,
            },
    {
        let pod = &self.pods()[i];
        let cmds = pod.run_on_init();
        let ghost cv = cmds.deep_view();
        let ghost name = pod.name_view();
        let ghost start = steps@.map_values(|s: Step| step_view(s));
        if cmds.len() == 0 {
            assert(plan_steps(Seq::<OutcomeV>::empty()) =~= Seq::<StepV>::empty());
            assert(steps@.map_values(|s: Step| step_view(s)) =~= start + Seq::<StepV>::empty());
            return None;
        }
        let ghost head = seq![OutcomeV::Do(StepV::Await(i as int))];
        proof {
            lemma_plan_single(StepV::Await(i as int));
        }
        steps.push(Step::AwaitListening(i));
        assert(steps@.map_values(|s: Step| step_view(s)) =~= start + plan_steps(head));
        assert(init_outcomes(*self, i as int) == head + init_cmds_outcomes(*self, name, cv));
        let mut k: usize = 0;
        while k < cmds.len()
            invariant
                cv == cmds.deep_view(),
                name == pod.name_view(),
                init_outcomes(*self, i as int) == head + init_cmds_outcomes(*self, name, cv),
                start == old(steps)@.map_values(|s: Step| step_view(s)),
                k <= cmds@.len(),
                plan_fault(head) is None,
                plan_fault(init_cmds_outcomes(*self, name, cv.take(k as int))) is None,
                steps@.map_values(|s: Step| step_view(s)) == start + plan_steps(head) + plan_steps(
                    init_cmds_outcomes(*self, name, cv.take(k as int)),
                ),
            decreases cmds@.len() - k,
        {
            let ghost prev = init_cmds_outcomes(*self, name, cv.take(k as int));
            assert(cv.take(k + 1).drop_last() =~= cv.take(k as int));
            assert(cv.take(k + 1).last() == cv[k as int]);
            assert(cmds[k as int].deep_view() == cv[k as int]);
            let ghost o = init_cmd_outcome(*self, name, cv[k as int]);
            assert(init_cmds_outcomes(*self, name, cv.take(k + 1)) =~= prev + seq![o]);
            proof {
                lemma_plan_append(prev, seq![o]);
            }
            let ghost mid = steps@.map_values(|s: Step| step_view(s));
            let failure = self.init_cmd_steps(pod.name(), &cmds[k], steps);
            assert(steps@.map_values(|s: Step| step_view(s)) =~= start + plan_steps(head) + plan_steps(
                init_cmds_outcomes(*self, name, cv.take(k + 1)),
            ));
            if failure.is_some() {
                proof {
                    lemma_init_cmds_stop(*self, name, cv, k as int + 1, cv.len() as int);
                    assert(cv.take(cv.len() as int) =~= cv);
                    lemma_plan_append(head, init_cmds_outcomes(*self, name, cv));
                    assert(steps@.map_values(|s: Step| step_view(s)) =~= start + plan_steps(init_outcomes(*self, i as int)));
                }
                return failure;
            }
            k = k + 1;
        }
        proof {
            assert(cv.take(cv.len() as int) =~= cv);
            lemma_plan_append(head, init_cmds_outcomes(*self, name, cv));
            assert(steps@.map_values(|s: Step| step_view(s)) =~= start + plan_steps(init_outcomes(*self, i as int)));
        }
        None
    }

    /// Add the steps `up` takes for one pod or service to `steps`; the
    /// error that stops them, if any, is returned.
    fn up_item_steps(&self, item: &PodOrService, opt_args: &Vec<String>, init: bool, steps: &mut Vec<Step>) -> (r: Option<Error>)
        requires
            pos_view(*item).0 < self.pods_view().len(),
        ensures
            final(steps)@.map_values(|s: Step| step_view(s)) == old(steps)@.map_values(|s: Step| step_view(s))
                + plan_steps(up_item(*self, pos_view(*item), opt_args.deep_view(), init)),
            match plan_fault(up_item(*self, pos_view(*item), opt_args.deep_view(), init)) {
                Some(f) => r matches Some(e) && fault_matches(self.pods_view(), f, e),
                None => r is None,
            },
    {
        let ghost it = pos_view(*item);
        let ghost ov = opt_args.deep_view();
        let ghost cpart = compose_item(*self, it, "up"@, ov);
        let ghost ipart = if init && it.1 is None {
            init_outcomes(*self, it.0)
        } else {
            Seq::<OutcomeV>::empty()
        };
        let ghost start = steps@.map_values(|s: Step| step_view(s));
        let (p, svc): (usize, Option<&str>) = match item {
            PodOrService::Pod(p) => (*p, None),
            PodOrService::Service(p, s) => (*p, Some(s.as_str())),
        };
        if self.pods()[p].enabled_in(self.current_target()) {
            let cmd = self.compose_command(p, "up", opt_args, svc);
            let ghost cv = cmd.deep_view();
            push_run(steps, cmd);
            proof {
                lemma_plan_single(StepV::Run(cv));
            }
        } else {
            assert(cpart =~= Seq::<OutcomeV>::empty());
        }
        assert(plan_fault(cpart) is None);
        assert(steps@.map_values(|s: Step| step_view(s)) =~= start + plan_steps(cpart));
        let ghost mid = steps@.map_values(|s: Step| step_view(s));
        proof {
            lemma_plan_append(cpart, ipart);
        }
        if init && svc.is_none() {
            let r = self.init_steps(p, steps);
            assert(steps@.map_values(|s: Step| step_view(s)) =~= start + plan_steps(cpart + ipart));
            r
        } else {
            assert(plan_steps(ipart) =~= Seq::<StepV>::empty());
            assert(steps@.map_values(|s: Step| step_view(s)) =~= start + plan_steps(cpart + ipart));
            None
        }
    }

    /// Bring up each designated pod or service that is not a task, and
    /// initialize whole pods when `opts.init` asks for it.
    pub fn up(&self, act_on: &ActOn, opts: &Up) -> (r: Plan)
        ensures
            plan_is(r, self.pods_view(), up_outcomes(*self, *act_on, *opts)),
    {
        let (all_items, err) = self.designated(act_on);
        let ghost av = all_items@.map_values(|p: PodOrService| pos_view(p));
        let mut items: Vec<PodOrService> = Vec::new();
        let mut j: usize = 0;
        while j < all_items.len()
            invariant
                j <= all_items@.len(),
                av == all_items@.map_values(|p: PodOrService| pos_view(p)),
                forall|x: int| 0 <= x < all_items@.len() ==> #[trigger] pos_view(all_items@[x]).0 < self.pods_view().len(),
                forall|x: int| 0 <= x < items@.len() ==> #[trigger] pos_view(items@[x]).0 < self.pods_view().len(),
                items@.map_values(|p: PodOrService| pos_view(p)) == up_filter(self.pods_view(), av.take(j as int)),
            decreases all_items@.len() - j,
        {
            assert(av.take(j + 1).drop_last() =~= av.take(j as int));
            assert(av.take(j + 1).last() == pos_view(all_items@[j as int]));
            assert(pos_view(all_items@[j as int]).0 < self.pods_view().len());
            let p = match &all_items[j] {
                PodOrService::Pod(p) => *p,
                PodOrService::Service(p, _) => *p,
            };
            assert(p as int == pos_view(all_items@[j as int]).0);
            let ghost before = items@.map_values(|p: PodOrService| pos_view(p));
            if self.pods()[p].pod_type() != crate::pod::PodType::Task {
                items.push(copy_pos(&all_items[j]));
                assert(items@.map_values(|p: PodOrService| pos_view(p)) =~= before.push(pos_view(all_items@[j as int])));
            }
            j = j + 1;
        }
        assert(av.take(all_items@.len() as int) =~= av);
        let opt_args = opts.to_args();
        let ghost ov = opt_args.deep_view();
        let ghost f = up_fn(*self, ov, opts.init);
        let ghost iv = items@.map_values(|p: PodOrService| pos_view(p));
        let mut steps: Vec<Step> = Vec::new();
        let mut i: usize = 0;
        while i < items.len()
            invariant
                i <= items@.len(),
                iv == items@.map_values(|p: PodOrService| pos_view(p)),
                iv == up_filter(self.pods_view(), act_on_items(self.pods_view(), *act_on)),
                ov == opt_args.deep_view(),
                ov == opts.arg_list(),
                f == up_fn(*self, ov, opts.init),
                forall|x: int| 0 <= x < items@.len() ==> #[trigger] pos_view(items@[x]).0 < self.pods_view().len(),
                steps@.map_values(|s: Step| step_view(s)) == plan_steps(flatten(iv.take(i as int), f)),
                plan_fault(flatten(iv.take(i as int), f)) is None,
            decreases items@.len() - i,
        {
            let ghost prev = flatten(iv.take(i as int), f);
            let ghost it = pos_view(items@[i as int]);
            proof {
                lemma_flatten_step(iv, f, i as int);
                lemma_plan_append(prev, f(it));
            }
            assert(f(it) == up_item(*self, it, ov, opts.init));
            let failure = self.up_item_steps(&items[i], &opt_args, opts.init, &mut steps);
            if let Some(e) = failure {
                proof {
                    lemma_flatten_stops(iv, f, i as int + 1, iv.len() as int);
                    assert(iv.take(iv.len() as int) =~= iv);
                    lemma_plan_append(flatten(iv, f), act_on_fault(self.pods_view(), *act_on));
                    assert(steps@.map_values(|s: Step| step_view(s)) =~= plan_steps(flatten(iv.take(i + 1), f)));
                }
                return Plan { steps, error: Some(e) };
            }
            assert(steps@.map_values(|s: Step| step_view(s)) =~= plan_steps(flatten(iv.take(i + 1), f)));
            i = i + 1;
        }
        assert(iv.take(items@.len() as int) =~= iv);
        let ghost done = flatten(iv, f);
        let ghost tail = act_on_fault(self.pods_view(), *act_on);
        proof {
            lemma_plan_append(done, tail);
            match act_on {
                ActOn::Named(names) => {
                    let k = resolved_prefix(self.pods_view(), names.deep_view()).len();
                    if k < names.deep_view().len() {
                        lemma_plan_fail(FaultV::Unresolved(names.deep_view()[k as int]));
                    }
                },
                _ => {},
            }
            assert(steps@.map_values(|s: Step| step_view(s)) =~= plan_steps(done) + plan_steps(tail));
        }
        Plan { steps, error: err }
    }
}

/// Once a `run_on_init` command faults, later commands change nothing.
proof fn lemma_init_cmds_stop(proj: Project, pod: Seq<char>, cmds: Seq<Seq<Seq<char>>>, n: int, m: int)
    requires
        0 < n <= m <= cmds.len(),
        plan_fault(init_cmds_outcomes(proj, pod, cmds.take(n))) is Some,
    ensures
        plan_steps(init_cmds_outcomes(proj, pod, cmds.take(m))) == plan_steps(init_cmds_outcomes(proj, pod, cmds.take(n))),
        plan_fault(init_cmds_outcomes(proj, pod, cmds.take(m))) == plan_fault(init_cmds_outcomes(proj, pod, cmds.take(n))),
    decreases m - n,
{
    if m > n {
        lemma_init_cmds_stop(proj, pod, cmds, n, m - 1);
        let prev = init_cmds_outcomes(proj, pod, cmds.take(m - 1));
        assert(cmds.take(m).drop_last() =~= cmds.take(m - 1));
        let o = init_cmd_outcome(proj, pod, cmds.take(m).last());
        assert(prev.push(o) =~= prev + seq![o]);
        lemma_plan_append(prev, seq![o]);
    }
}


/// The outcomes `g(0)`, ..., `g(n - 1)`, in turn.
pub open spec fn concat_upto(n: int, g: spec_fn(int) -> Seq<OutcomeV>) -> Seq<OutcomeV>
    decreases n,
{
    if n <= 0 {
        Seq::empty()
    } else {
        concat_upto(n - 1, g) + g(n - 1)
    }
}

/// Once the outcomes so far have a fault, later ones change nothing.
pub proof fn lemma_concat_stops(g: spec_fn(int) -> Seq<OutcomeV>, n: int, m: int)
    requires
        0 <= n <= m,
        plan_fault(concat_upto(n, g)) is Some,
    ensures
        plan_steps(concat_upto(m, g)) == plan_steps(concat_upto(n, g)),
        plan_fault(concat_upto(m, g)) == plan_fault(concat_upto(n, g)),
    decreases m - n,
{
    if m > n {
        lemma_concat_stops(g, n, m - 1);
        lemma_plan_append(concat_upto(m - 1, g), g(m - 1));
    }
}

/// The commands of script `script` for service `service` of `pod`; none
/// when either is not configured.
pub open spec fn script_cmds(pod: Pod, service: Seq<char>, script: Seq<char>) -> Seq<Seq<Seq<char>>> {
    match lookup(pod.config_view().services@, service) {
        Some(sc) => match lookup(sc.scripts@, script) {
            Some(sp) => sp.commands.deep_view(),
            None => Seq::empty(),
        },
        None => Seq::empty(),
    }
}

/// What one script command does for `service`: run its first word with
/// the rest as arguments, with the run options `opts`; an empty command is
/// a fault.
pub open spec fn script_cmd_outcome(proj: Project, service: Seq<char>, opts: Seq<Seq<char>>, c: Seq<Seq<char>>) -> OutcomeV {
    if c.len() == 0 {
        OutcomeV::Fail(FaultV::EmptyScript)
    } else {
        run_outcome(proj, service, opts, c)
    }
}

/// What running script `script` for `service` of `pod` does.
pub open spec fn service_script_outcomes(proj: Project, pod: Pod, service: Seq<char>, script: Seq<char>, opts: Seq<Seq<char>>) -> Seq<OutcomeV> {
    let cmds = script_cmds(pod, service, script);
    concat_upto(cmds.len() as int, |k: int| seq![script_cmd_outcome(proj, service, opts, cmds[k])])
}

/// What running script `script` for each of the services `names` of `pod`
/// does.
pub open spec fn services_script_outcomes(proj: Project, pod: Pod, names: Seq<Seq<char>>, script: Seq<char>, opts: Seq<Seq<char>>) -> Seq<OutcomeV> {
    concat_upto(names.len() as int, |k: int| service_script_outcomes(proj, pod, names[k], script, opts))
}

/// What `run_script` does for one pod or service: nothing if its pod is
/// disabled; otherwise run the script for the service, or for every
/// service of the pod.
pub open spec fn run_script_item(proj: Project, item: (int, Option<Seq<char>>), script: Seq<char>, opts: Seq<Seq<char>>) -> Seq<OutcomeV> {
    let pod = proj.pods_view()[item.0];
    if !pod_enabled(pod, proj.current_target_view()) {
        Seq::empty()
    } else {
        match item.1 {
            None => services_script_outcomes(proj, pod, pod.service_names_view(), script, opts),
            Some(s) => service_script_outcomes(proj, pod, s, script, opts),
        }
    }
}

/// `run_script_item` as a function of the item.
pub open spec fn run_script_fn(proj: Project, script: Seq<char>, opts: Seq<Seq<char>>) -> spec_fn((int, Option<Seq<char>>)) -> Seq<OutcomeV> {
    |it: (int, Option<Seq<char>>)| run_script_item(proj, it, script, opts)
}

/// What `run_script` does.
pub open spec fn run_script_outcomes(proj: Project, act_on: ActOn, script: Seq<char>, opts: Seq<Seq<char>>) -> Seq<OutcomeV> {
    flatten(act_on_items(proj.pods_view(), act_on), run_script_fn(proj, script, opts)) + act_on_fault(proj.pods_view(), act_on)
}

/// `s` runs, with `docker-compose run` and the options `opts`, a command in
/// some service.
pub open spec fn is_run_with(proj: Project, opts: Seq<Seq<char>>, s: StepV) -> bool {
    s matches StepV::Run(cmd) && exists|svc: Seq<char>, c: Seq<Seq<char>>| #[trigger] service_cmd(proj, "run"@, svc, opts, c) == Some(cmd)
}

/// Every outcome of `os` is a fault or a step `is_run_with`.
pub open spec fn all_run_with(proj: Project, opts: Seq<Seq<char>>, os: Seq<OutcomeV>) -> bool {
    forall|i: int| 0 <= i < os.len() ==> ((#[trigger] os[i]) is Fail || (os[i] matches OutcomeV::Do(s) && is_run_with(proj, opts, s)))
}

/// The steps of outcomes that are all `is_run_with` are too.
proof fn lemma_steps_run_with(proj: Project, opts: Seq<Seq<char>>, os: Seq<OutcomeV>)
    requires
        all_run_with(proj, opts, os),
    ensures
        forall|k: int| 0 <= k < plan_steps(os).len() ==> is_run_with(proj, opts, #[trigger] plan_steps(os)[k]),
    decreases os.len(),
{
    if os.len() > 0 {
        assert(all_run_with(proj, opts, os.drop_first())) by {
            assert forall|i: int| 0 <= i < os.drop_first().len() implies ((#[trigger] os.drop_first()[i]) is Fail || (os.drop_first()[i] matches OutcomeV::Do(s) && is_run_with(proj, opts, s))) by {
                assert(os.drop_first()[i] == os[i + 1]);
            }
        }
        lemma_steps_run_with(proj, opts, os.drop_first());
        let o = os[0];
        match o {
            OutcomeV::Do(s) => {
                let rest = plan_steps(os.drop_first());
                assert(plan_steps(os) == seq![s] + rest);
                assert forall|k: int| 0 <= k < plan_steps(os).len() implies is_run_with(proj, opts, #[trigger] plan_steps(os)[k]) by {
                    if k == 0 {
                        assert(plan_steps(os)[k] == s);
                    } else {
                        assert(plan_steps(os)[k] == rest[k - 1]);
                    }
                }
            },
            OutcomeV::Fail(_) => {
                assert(plan_steps(os).len() == 0);
            },
        }
    }
}

/// Joining outcomes keeps `all_run_with`.
proof fn lemma_run_with_append(proj: Project, opts: Seq<Seq<char>>, a: Seq<OutcomeV>, b: Seq<OutcomeV>)
    requires
        all_run_with(proj, opts, a),
        all_run_with(proj, opts, b),
    ensures
        all_run_with(proj, opts, a + b),
{
    assert forall|i: int| 0 <= i < (a + b).len() implies ((#[trigger] (a + b)[i]) is Fail || ((a + b)[i] matches OutcomeV::Do(s) && is_run_with(proj, opts, s))) by {
        if i < a.len() {
            assert((a + b)[i] == a[i]);
        } else {
            assert((a + b)[i] == b[i - a.len()]);
        }
    }
}

/// `concat_upto` of parts that are all `all_run_with` is too.
proof fn lemma_run_with_concat(proj: Project, opts: Seq<Seq<char>>, n: int, g: spec_fn(int) -> Seq<OutcomeV>)
    requires
        forall|k: int| 0 <= k < n ==> all_run_with(proj, opts, #[trigger] g(k)),
    ensures
        all_run_with(proj, opts, concat_upto(n, g)),
    decreases n,
{
    if n > 0 {
        lemma_run_with_concat(proj, opts, n - 1, g);
        lemma_run_with_append(proj, opts, concat_upto(n - 1, g), g(n - 1));
    }
}

/// `flatten` of parts that are all `all_run_with` is too.
proof fn lemma_run_with_flatten(
    proj: Project,
    opts: Seq<Seq<char>>,
    items: Seq<(int, Option<Seq<char>>)>,
    f: spec_fn((int, Option<Seq<char>>)) -> Seq<OutcomeV>,
)
    requires
        forall|k: int| 0 <= k < items.len() ==> all_run_with(proj, opts, #[trigger] f(items[k])),
    ensures
        all_run_with(proj, opts, flatten(items, f)),
    decreases items.len(),
{
    if items.len() > 0 {
        assert forall|k: int| 0 <= k < items.drop_last().len() implies all_run_with(proj, opts, #[trigger] f(items.drop_last()[k])) by {
            assert(items.drop_last()[k] == items[k]);
            assert(all_run_with(proj, opts, f(items[k])));
        }
        lemma_run_with_flatten(proj, opts, items.drop_last(), f);
        assert(all_run_with(proj, opts, f(items[items.len() - 1])));
        lemma_run_with_append(proj, opts, flatten(items.drop_last(), f), f(items.last()));
    }
}

/// The commands of a script for one service are all runs with `opts`.
proof fn lemma_service_script_run_with(proj: Project, pod: Pod, service: Seq<char>, script: Seq<char>, opts: Seq<Seq<char>>)
    ensures
        all_run_with(proj, opts, service_script_outcomes(proj, pod, service, script, opts)),
{
    let cmds = script_cmds(pod, service, script);
    let g = |k: int| seq![script_cmd_outcome(proj, service, opts, cmds[k])];
    assert forall|k: int| 0 <= k < cmds.len() implies all_run_with(proj, opts, #[trigger] g(k)) by {
        let o = script_cmd_outcome(proj, service, opts, cmds[k]);
        assert(g(k)[0] == o);
        if cmds[k].len() > 0 {
            if let Some(c) = service_cmd(proj, "run"@, service, opts, cmds[k]) {
                assert(is_run_with(proj, opts, StepV::Run(c)));
            }
        }
    }
    lemma_run_with_concat(proj, opts, cmds.len() as int, g);
}

/// Every step that `run_script` runs is a `docker-compose run` with the
/// caller's run options: the options reach each command of the script.
pub proof fn lemma_script_runs_carry_options(proj: Project, act_on: ActOn, script: Seq<char>, opts: Seq<Seq<char>>)
    requires
        forall|j: int| 0 <= j < act_on_items(proj.pods_view(), act_on).len() ==> #[trigger] act_on_items(proj.pods_view(), act_on)[j].0 < proj.pods_view().len(),
    ensures
        forall|k: int| 0 <= k < plan_steps(run_script_outcomes(proj, act_on, script, opts)).len() ==> is_run_with(
            proj,
            opts,
            #[trigger] plan_steps(run_script_outcomes(proj, act_on, script, opts))[k],
        ),
{
    let items = act_on_items(proj.pods_view(), act_on);
    let f = run_script_fn(proj, script, opts);
    assert forall|k: int| 0 <= k < items.len() implies all_run_with(proj, opts, #[trigger] f(items[k])) by {
        let it = items[k];
        let pod = proj.pods_view()[it.0];
        assert(f(it) == run_script_item(proj, it, script, opts));
        if pod_enabled(pod, proj.current_target_view()) {
            match it.1 {
                None => {
                    let names = pod.service_names_view();
                    let g = |j: int| service_script_outcomes(proj, pod, names[j], script, opts);
                    assert forall|j: int| 0 <= j < names.len() implies all_run_with(proj, opts, #[trigger] g(j)) by {
                        lemma_service_script_run_with(proj, pod, names[j], script, opts);
                    }
                    lemma_run_with_concat(proj, opts, names.len() as int, g);
                },
                Some(s) => {
                    lemma_service_script_run_with(proj, pod, s, script, opts);
                },
            }
        }
    }
    lemma_run_with_flatten(proj, opts, items, f);
    let tail = act_on_fault(proj.pods_view(), act_on);
    assert(all_run_with(proj, opts, tail));
    lemma_run_with_append(proj, opts, flatten(items, f), tail);
    lemma_steps_run_with(proj, opts, run_script_outcomes(proj, act_on, script, opts));
}

/// The commands of a script, if configured.
fn find_script<'a>(pod: &'a Pod, service: &str, script: &str) -> (r: Option<&'a Vec<Vec<String>>>)
    ensures
        match r {
            Some(c) => c.deep_view() == script_cmds(*pod, service@, script@),
            None => script_cmds(*pod, service@, script@).len() == 0,
        },
{
    match pod.config().services.get(service) {
        Some(sc) => match sc.scripts.get(script) {
            Some(sp) => Some(&sp.commands),
            None => None,
        },
        None => None,
    }
}

impl Project {
    /// Add the step of one script command for `service` to `steps`; the
    /// error that stops it, if any, is returned.
    fn script_cmd_steps(&self, service: &str, opts: &Vec<String>, c: &Vec<String>, steps: &mut Vec<Step>) -> (r: Option<Error>)
        ensures
            final(steps)@.map_values(|s: Step| step_view(s)) == old(steps)@.map_values(|s: Step| step_view(s))
                + plan_steps(seq![script_cmd_outcome(*self, service@, opts.deep_view(), c.deep_view())]),
            match plan_fault(seq![script_cmd_outcome(*self, service@, opts.deep_view(), c.deep_view())]) {
                Some(f) => r matches Some(e) && fault_matches(self.pods_view(), f, e),
                None => r is None,
            },
    {
        let ghost o = script_cmd_outcome(*self, service@, opts.deep_view(), c.deep_view());
        let ghost start = steps@.map_values(|s: Step| step_view(s));
        if c.len() == 0 {
            proof {
                lemma_plan_fail(FaultV::EmptyScript);
            }
            assert(steps@.map_values(|s: Step| step_view(s)) =~= start + plan_steps(seq![o]));
            return Some(Error::msg("all items in script must have at least one value"));
        }
        match self.service_command("run", service, opts, c) {
            Ok(cmd) => {
                let ghost cmdv = cmd.deep_view();
                push_run(steps, cmd);
                proof {
                    lemma_plan_single(StepV::Run(cmdv));
                }
                assert(steps@.map_values(|s: Step| step_view(s)) =~= start + plan_steps(seq![o]));
                None
            },
            Err(e) => {
                proof {
                    lemma_plan_fail(FaultV::NoService(service@));
                }
                assert(steps@.map_values(|s: Step| step_view(s)) =~= start + plan_steps(seq![o]));
                Some(e)
            },
        }
    }

    /// Add the steps of script `script` for `service` of pod `p` to `steps`;
    /// the error that stops them, if any, is returned.
    fn service_script_steps(&self, p: usize, service: &str, script: &str, opts: &Vec<String>, steps: &mut Vec<Step>) -> (r: Option<Error>)
        requires
            p < self.pods_view().len(),
        ensures
            final(steps)@.map_values(|s: Step| step_view(s)) == old(steps)@.map_values(|s: Step| step_view(s))
                + plan_steps(service_script_outcomes(*self, self.pods_view()[p as int], service@, script@, opts.deep_view())),
            match plan_fault(service_script_outcomes(*self, self.pods_view()[p as int], service@, script@, opts.deep_view())) {
                Some(f) => r matches Some(e) && fault_matches(self.pods_view(), f, e),
                None => r is None,
            },
    {
        let pod = &self.pods()[p];
        let ghost cv = script_cmds(*pod, service@, script@);
        let ghost g = |k: int| seq![script_cmd_outcome(*self, service@, opts.deep_view(), cv[k])];
        let ghost start = steps@.map_values(|s: Step| step_view(s));
        assert(service_script_outcomes(*self, *pod, service@, script@, opts.deep_view()) == concat_upto(cv.len() as int, g));
        match find_script(pod, service, script) {
            None => {
                assert(concat_upto(0, g) =~= Seq::<OutcomeV>::empty());
                assert(plan_steps(Seq::<OutcomeV>::empty()) =~= Seq::<StepV>::empty());
                assert(steps@.map_values(|s: Step| step_view(s)) =~= start + Seq::<StepV>::empty());
                None
            },
            Some(cmds) => {
                let mut k: usize = 0;
                while k < cmds.len()
                    invariant
                        cv == cmds.deep_view(),
                        g == (|k: int| seq![script_cmd_outcome(*self, service@, opts.deep_view(), cv[k])]),
                        service_script_outcomes(*self, *pod, service@, script@, opts.deep_view()) == concat_upto(cv.len() as int, g),
                        pod == self.pods_view()[p as int],
                        start == old(steps)@.map_values(|s: Step| step_view(s)),
                        k <= cmds@.len(),
                        plan_fault(concat_upto(k as int, g)) is None,
                        steps@.map_values(|s: Step| step_view(s)) == start + plan_steps(concat_upto(k as int, g)),
                    decreases cmds@.len() - k,
                {
                    let ghost prev = concat_upto(k as int, g);
                    assert(cmds[k as int].deep_view() == cv[k as int]);
                    assert(concat_upto(k + 1, g) == prev + g(k as int));
                    proof {
                        lemma_plan_append(prev, g(k as int));
                    }
                    let failure = self.script_cmd_steps(service, opts, &cmds[k], steps);
                    assert(steps@.map_values(|s: Step| step_view(s)) =~= start + plan_steps(concat_upto(k + 1, g)));
                    if failure.is_some() {
                        proof {
                            lemma_concat_stops(g, k + 1, cv.len() as int);
                        }
                        return failure;
                    }
                    k = k + 1;
                }
                None
            },
        }
    }

    /// Add the steps of `run_script` for one pod or service to `steps`; the
    /// error that stops them, if any, is returned.
    fn run_script_item_steps(&self, item: &PodOrService, script: &str, opts: &Vec<String>, steps: &mut Vec<Step>) -> (r: Option<Error>)
        requires
            pos_view(*item).0 < self.pods_view().len(),
        ensures
            final(steps)@.map_values(|s: Step| step_view(s)) == old(steps)@.map_values(|s: Step| step_view(s))
                + plan_steps(run_script_item(*self, pos_view(*item), script@, opts.deep_view())),
            match plan_fault(run_script_item(*self, pos_view(*item), script@, opts.deep_view())) {
                Some(f) => r matches Some(e) && fault_matches(self.pods_view(), f, e),
                None => r is None,
            },
    {
        let ghost start = steps@.map_values(|s: Step| step_view(s));
        let (p, svc): (usize, Option<&str>) = match item {
            PodOrService::Pod(p) => (*p, None),
            PodOrService::Service(p, s) => (*p, Some(s.as_str())),
        };
        let pod = &self.pods()[p];
        if !pod.enabled_in(self.current_target()) {
            assert(plan_steps(Seq::<OutcomeV>::empty()) =~= Seq::<StepV>::empty());
            assert(steps@.map_values(|s: Step| step_view(s)) =~= start + Seq::<StepV>::empty());
            return None;
        }
        match svc {
            Some(s) => self.service_script_steps(p, s, script, opts, steps),
            None => {
                let names = pod.service_names();
                let ghost nv = names.deep_view();
                let ghost g = |k: int| service_script_outcomes(*self, *pod, nv[k], script@, opts.deep_view());
                assert(run_script_item(*self, pos_view(*item), script@, opts.deep_view()) == concat_upto(nv.len() as int, g));
                let mut k: usize = 0;
                while k < names.len()
                    invariant
                        p < self.pods_view().len(),
                        pod == self.pods_view()[p as int],
                        nv == names.deep_view(),
                        g == (|k: int| service_script_outcomes(*self, *pod, nv[k], script@, opts.deep_view())),
                        run_script_item(*self, pos_view(*item), script@, opts.deep_view()) == concat_upto(nv.len() as int, g),
                        start == old(steps)@.map_values(|s: Step| step_view(s)),
                        k <= names@.len(),
                        plan_fault(concat_upto(k as int, g)) is None,
                        steps@.map_values(|s: Step| step_view(s)) == start + plan_steps(concat_upto(k as int, g)),
                    decreases names@.len() - k,
                {
                    let ghost prev = concat_upto(k as int, g);
                    assert(names[k as int]@ == nv[k as int]);
                    assert(concat_upto(k + 1, g) == prev + g(k as int));
                    proof {
                        lemma_plan_append(prev, g(k as int));
                    }
                    let failure = self.service_script_steps(p, names[k].as_str(), script, opts, steps);
                    assert(steps@.map_values(|s: Step| step_view(s)) =~= start + plan_steps(concat_upto(k + 1, g)));
                    if failure.is_some() {
                        proof {
                            lemma_concat_stops(g, k + 1, nv.len() as int);
                        }
                        return failure;
                    }
                    k = k + 1;
                }
                None
            },
        }
    }

    /// Run the named script for each designated pod or service whose pod
    /// is enabled: for a pod, for each of its services in turn.  Each
    /// command of the script is run with `docker-compose run` and the run
    /// options `opts`.
    pub fn run_script(&self, act_on: &ActOn, script: &str, opts: &Run) -> (r: Plan)
        ensures
            plan_is(r, self.pods_view(), run_script_outcomes(*self, *act_on, script@, opts.arg_list())),
            forall|k: int| 0 <= k < r.steps@.len() ==> is_run_with(*self, opts.arg_list(), step_view(#[trigger] r.steps@[k])),
    {
        let r = self.script_plan(act_on, script, opts);
        proof {
            lemma_script_runs_carry_options(*self, *act_on, script@, opts.arg_list());
            let all_steps = plan_steps(run_script_outcomes(*self, *act_on, script@, opts.arg_list()));
            assert forall|k: int| 0 <= k < r.steps@.len() implies is_run_with(*self, opts.arg_list(), step_view(#[trigger] r.steps@[k])) by {
                assert(r.steps@.map_values(|s: Step| step_view(s))[k] == step_view(r.steps@[k]));
                assert(all_steps[k] == step_view(r.steps@[k]));
            }
        }
        r
    }

    /// The plan of `run_script`.
    fn script_plan(&self, act_on: &ActOn, script: &str, opts: &Run) -> (r: Plan)
        ensures
            plan_is(r, self.pods_view(), run_script_outcomes(*self, *act_on, script@, opts.arg_list())),
            forall|j: int| 0 <= j < act_on_items(self.pods_view(), *act_on).len() ==> #[trigger] act_on_items(self.pods_view(), *act_on)[j].0
                < self.pods_view().len(),
    {
        let opt_args = opts.to_args();
        let (items, err) = self.designated(act_on);
        let ghost f = run_script_fn(*self, script@, opt_args.deep_view());
        let ghost iv = items@.map_values(|p: PodOrService| pos_view(p));
        assert forall|j: int| 0 <= j < act_on_items(self.pods_view(), *act_on).len() implies #[trigger] act_on_items(
            self.pods_view(),
            *act_on,
        )[j].0 < self.pods_view().len() by {
            assert(iv[j] == pos_view(items@[j]));
        }
        let mut steps: Vec<Step> = Vec::new();
        let mut i: usize = 0;
        while i < items.len()
            invariant
                i <= items@.len(),
                iv == items@.map_values(|p: PodOrService| pos_view(p)),
                iv == act_on_items(self.pods_view(), *act_on),
                f == run_script_fn(*self, script@, opt_args.deep_view()),
                opt_args.deep_view() == opts.arg_list(),
                forall|x: int| 0 <= x < items@.len() ==> #[trigger] pos_view(items@[x]).0 < self.pods_view().len(),
                steps@.map_values(|s: Step| step_view(s)) == plan_steps(flatten(iv.take(i as int), f)),
                plan_fault(flatten(iv.take(i as int), f)) is None,
            decreases items@.len() - i,
        {
            let ghost prev = flatten(iv.take(i as int), f);
            let ghost it = pos_view(items@[i as int]);
            proof {
                lemma_flatten_step(iv, f, i as int);
                lemma_plan_append(prev, f(it));
            }
            assert(f(it) == run_script_item(*self, it, script@, opt_args.deep_view()));
            let failure = self.run_script_item_steps(&items[i], script, &opt_args, &mut steps);
            if let Some(e) = failure {
                proof {
                    lemma_flatten_stops(iv, f, i as int + 1, iv.len() as int);
                    assert(iv.take(iv.len() as int) =~= iv);
                    lemma_plan_append(flatten(iv, f), act_on_fault(self.pods_view(), *act_on));
                    assert(steps@.map_values(|s: Step| step_view(s)) =~= plan_steps(flatten(iv.take(i + 1), f)));
                }
                return Plan { steps, error: Some(e) };
            }
            assert(steps@.map_values(|s: Step| step_view(s)) =~= plan_steps(flatten(iv.take(i + 1), f)));
            i = i + 1;
        }
        assert(iv.take(items@.len() as int) =~= iv);
        let ghost done = flatten(iv, f);
        let ghost tail = act_on_fault(self.pods_view(), *act_on);
        proof {
            lemma_plan_append(done, tail);
            match act_on {
                ActOn::Named(names) => {
                    let k = resolved_prefix(self.pods_view(), names.deep_view()).len();
                    if k < names.deep_view().len() {
                        lemma_plan_fail(FaultV::Unresolved(names.deep_view()[k as int]));
                    }
                },
                _ => {},
            }
            assert(steps@.map_values(|s: Step| step_view(s)) =~= plan_steps(done) + plan_steps(tail));
        }
        Plan { steps, error: err }
    }
}


/// The name of the container that runs the tests of service `svc`, told
/// apart from others by `n`.
pub open spec fn test_container_name(svc: Seq<char>, n: u16) -> Seq<char> {
    svc + "_"@ + decimal(n as nat)
}

/// Where exported test output goes.
pub open spec fn test_output_path(proj: Project) -> Seq<char> {
    path_join(proj.root_dir_view(), "test_output"@)
}

/// The steps of a test run of service `svc` of pod `p` with the command
/// `words`, in the container `container`.
pub open spec fn test_steps_spec(proj: Project, p: int, svc: Seq<char>, words: Seq<Seq<char>>, export: bool, container: Seq<char>) -> Seq<StepV> {
    seq![
        StepV::Run(
            seq!["docker-compose"@] + compose_args_spec(proj, proj.pods_view()[p]) + seq![
                "run"@,
                "--name"@,
                container,
                "--no-deps"@,
                svc,
            ] + words,
        ),
    ] + if export {
        seq![
            StepV::EnsureAbsent(test_output_path(proj)),
            StepV::Run(seq!["docker"@, "cp"@, container + ":./test_output"@, test_output_path(proj)]),
        ]
    } else {
        Seq::empty()
    } + seq![StepV::Run(seq!["docker"@, "rm"@, container])]
}

/// The message for a service without a test command.
pub open spec fn no_test_message() -> Seq<char> {
    "specify a value for the label io.fdy.cage.test to run tests"@
}

/// `r` is what `test` gives for `service` once the service name has
/// resolved to service `svc` of pod `p`, whose labels merged with the
/// current target's are described by `f`.
pub open spec fn test_result(
    proj: Project,
    p: int,
    svc: Seq<char>,
    f: File,
    command: Option<Command>,
    export: bool,
    n: u16,
    r: Result<(Vec<Step>, String), Error>,
) -> bool {
    let pod = proj.pods_view()[p];
    let ok_with = |words: Seq<Seq<char>>|
        r matches Ok(res) && res.1@ == test_container_name(svc, n) && res.0@.map_values(|s: Step| step_view(s))
            == test_steps_spec(proj, p, svc, words, export, test_container_name(svc, n));
    match command {
        Some(c) => ok_with(c.arg_list()),
        None => match merged_label(pod.file_view(), f, svc, label_test()) {
            None => r matches Err(e) && (e matches Error::Message(m) && m@ == no_test_message()),
            Some(raw) => match shell_words(raw) {
                Some(words) => ok_with(words),
                None => r matches Err(e) && (e matches Error::Message(m) && m@ == "cannot parse <"@ + raw
                    + "> into shell words"@),
            },
        },
    }
}

/// The file of the current target for pod `p`, and whether the service
/// `svc` is in the pod once it is merged.
pub open spec fn merged_has_service(proj: Project, p: int, svc: Seq<char>, f: File) -> bool {
    has_key(proj.pods_view()[p].file_view().services@, svc) || has_key(f.services@, svc)
}

/// What `pull` does for one pod or service: a label for it and the command
/// that pulls its images, when its pod is enabled.
pub open spec fn pull_item(proj: Project, item: (int, Option<Seq<char>>), opts: Seq<Seq<char>>) -> Seq<(Seq<char>, Seq<Seq<char>>)> {
    let pod = proj.pods_view()[item.0];
    if pod_enabled(pod, proj.current_target_view()) {
        seq![
            (
                match item.1 {
                    Some(s) => pod.name_view() + "/"@ + s,
                    None => pod.name_view(),
                },
                compose_cmd(proj, item.0, "pull"@, opts, item.1),
            ),
        ]
    } else {
        Seq::empty()
    }
}

/// What `pull` does for each item in turn.
pub open spec fn pull_items(proj: Project, items: Seq<(int, Option<Seq<char>>)>, opts: Seq<Seq<char>>) -> Seq<(Seq<char>, Seq<Seq<char>>)>
    decreases items.len(),
{
    if items.len() == 0 {
        Seq::empty()
    } else {
        pull_items(proj, items.drop_last(), opts) + pull_item(proj, items.last(), opts)
    }
}

/// Calls `rand::random::<u16>()`: any number at all may come back.
#[verifier::external_body]
fn random_u16() -> (r: u16) {
    rand::random::<u16>()
}

impl Project {
    /// The labels of service `svc` of pod `p` merged with the current
    /// target's file.
    fn current_labels(&self, p: usize, svc: &str) -> (r: Result<crate::strmap::StrMap<String>, Error>)
        requires
            p < self.pods_view().len(),
        ensures
            match target_file_for(self.pods_view()[p as int], self.current_target_view()) {
                None => r matches Err(e) && (e matches Error::Message(m) && m@ == crate::pod::target_undefined_message(
                    self.current_target_view(),
                )),
                Some(f) => if merged_has_service(*self, p as int, svc@, f) {
                    r matches Ok(l) && forall|k: Seq<char>| #[trigger] label_text(l@, k) == merged_label(
                        self.pods_view()[p as int].file_view(),
                        f,
                        svc@,
                        k,
                    )
                } else {
                    r matches Err(e) && (e matches Error::UnknownService(n) && n@ == svc@)
                },
            },
    {
        self.pods()[p].merged_labels(self.current_target(), svc)
    }

    /// Run the tests of `service` in a fresh container named after the
    /// service and `n`: the test command is `command`, or else the service's
    /// `io.fdy.cage.test` label split into shell words.  The container is
    /// removed afterwards, and its `./test_output` copied to the project's
    /// `test_output` first if `opts` asks for it.  Returns the steps and the
    /// container's name.
    pub fn test_with_suffix(&self, service: &str, command: Option<&Command>, opts: &Test, n: u16) -> (r: Result<(Vec<Step>, String), Error>)
        ensures
            service_matches(self.pods_view(), service@).len() != 1 ==> (r matches Err(e) && service_error(
                self.pods_view(),
                service@,
                e,
            )),
            service_matches(self.pods_view(), service@).len() == 1 ==> {
                let p = service_matches(self.pods_view(), service@)[0];
                let svc = service_part(service@);
                match target_file_for(self.pods_view()[p], self.current_target_view()) {
                    None => r matches Err(e) && (e matches Error::Message(m) && m@ == crate::pod::target_undefined_message(
                        self.current_target_view(),
                    )),
                    Some(f) => if merged_has_service(*self, p, svc, f) {
                        test_result(
                            *self,
                            p,
                            svc,
                            f,
                            match command {
                                Some(c) => Some(*c),
                                None => None,
                            },
                            opts.export_test_output,
                            n,
                            r,
                        )
                    } else {
                        r matches Err(e) && (e matches Error::UnknownService(x) && x@ == svc)
                    },
                }
            },
    {
        let (p, svc) = match self.service_or_err(service) {
            Ok(found) => found,
            Err(e) => {
                return Err(e);
            },
        };
        proof {
            crate::project::lemma_service_matches_bounds(self.pods_view(), service@);
        }
        let labels = match self.current_labels(p, svc.as_str()) {
            Ok(l) => l,
            Err(e) => {
                return Err(e);
            },
        };
        let ghost f = target_file_for(self.pods_view()[p as int], self.current_target_view())->0;
        assert(label_text(labels@, label_test()) == merged_label(self.pods_view()[p as int].file_view(), f, svc@, label_test()));
        let words: Vec<String> = match command {
            Some(c) => c.to_args(),
            None => {
                let mut tmp = Service::empty();
                tmp.labels = labels;
                match tmp.test_command() {
                    Ok(w) => w,
                    Err(e) => {
                        return Err(e);
                    },
                }
            },
        };
        let container = concat3(svc.as_str(), "_", decimal_string(n).as_str());
        let mut steps: Vec<Step> = Vec::new();
        let mut run: Vec<String> = Vec::new();
        push_str(&mut run, "docker-compose");
        let cargs = self.compose_args(&self.pods()[p]);
        extend_strings(&mut run, &cargs);
        push_str(&mut run, "run");
        push_str(&mut run, "--name");
        push_str(&mut run, container.as_str());
        push_str(&mut run, "--no-deps");
        push_str(&mut run, svc.as_str());
        extend_strings(&mut run, &words);
        let ghost runv = run.deep_view();
        assert(runv =~= seq!["docker-compose"@] + compose_args_spec(*self, self.pods_view()[p as int]) + seq![
            "run"@,
            "--name"@,
            container@,
            "--no-deps"@,
            svc@,
        ] + words.deep_view());
        push_run(&mut steps, run);
        let ghost s1 = steps@.map_values(|s: Step| step_view(s));
        assert(s1 =~= seq![StepV::Run(runv)]);
        let ghost tp = test_output_path(*self);
        let ghost mid: Seq<StepV> = if opts.export_test_output {
            seq![
                StepV::EnsureAbsent(tp),
                StepV::Run(seq!["docker"@, "cp"@, container@ + ":./test_output"@, tp]),
            ]
        } else {
            Seq::empty()
        };
        if opts.export_test_output {
            let path = join_path(self.root_dir(), "test_output");
            steps.push(Step::EnsureAbsent(copy_str(path.as_str())));
            let mut cp: Vec<String> = Vec::new();
            push_str(&mut cp, "docker");
            push_str(&mut cp, "cp");
            push_string(&mut cp, concat2(container.as_str(), ":./test_output"));
            push_string(&mut cp, path);
            assert(cp.deep_view() =~= seq!["docker"@, "cp"@, container@ + ":./test_output"@, tp]);
            push_run(&mut steps, cp);
        }
        let ghost s2 = steps@.map_values(|s: Step| step_view(s));
        assert(s2 =~= s1 + mid);
        let mut rm: Vec<String> = Vec::new();
        push_str(&mut rm, "docker");
        push_str(&mut rm, "rm");
        push_str(&mut rm, container.as_str());
        assert(rm.deep_view() =~= seq!["docker"@, "rm"@, container@]);
        push_run(&mut steps, rm);
        let ghost tv = test_steps_spec(
            *self,
            p as int,
            svc@,
            words.deep_view(),
            opts.export_test_output,
            container@,
        );
        assert(steps@.map_values(|s: Step| step_view(s)) =~= tv);
        Ok((steps, container))
    }

    /// Run the tests of `service` in a fresh container, named after the
    /// service and a random number; see `test_with_suffix`.
    pub fn test(&self, service: &str, command: Option<&Command>, opts: &Test) -> (r: Result<(Vec<Step>, String), Error>)
        ensures
            exists|n: u16| #![trigger test_container_name(service_part(service@), n)]
                (service_matches(self.pods_view(), service@).len() != 1 ==> (r matches Err(e) && service_error(
                self.pods_view(),
                service@,
                e,
            ))) && (service_matches(self.pods_view(), service@).len() == 1 ==> {
                let p = service_matches(self.pods_view(), service@)[0];
                let svc = service_part(service@);
                match target_file_for(self.pods_view()[p], self.current_target_view()) {
                    None => r matches Err(e) && (e matches Error::Message(m) && m@ == crate::pod::target_undefined_message(
                        self.current_target_view(),
                    )),
                    Some(f) => if merged_has_service(*self, p, svc, f) {
                        test_result(
                            *self,
                            p,
                            svc,
                            f,
                            match command {
                                Some(c) => Some(*c),
                                None => None,
                            },
                            opts.export_test_output,
                            n,
                            r,
                        )
                    } else {
                        r matches Err(e) && (e matches Error::UnknownService(x) && x@ == svc)
                    },
                }
            }),
    {
        let n = random_u16();
        let r = self.test_with_suffix(service, command, opts, n);
        assert(test_container_name(service_part(service@), n) == test_container_name(service_part(service@), n));
        r
    }

    /// Open an interactive shell in the running container of `service`:
    /// the shell is the service's `io.fdy.cage.shell` label (merged with the
    /// current target), or `sh`.  Refused when detached or without a TTY.
    pub fn shell(&self, service: &str, opts: &Exec) -> (r: Result<Vec<String>, Error>)
        ensures
            opts.process.detached ==> (r matches Err(e) && (e matches Error::Message(m) && m@
                == "Can't run shell in detached mode"@)),
            !opts.process.detached && !opts.process.allocate_tty ==> (r matches Err(e) && (e matches Error::Message(m)
                && m@ == "Can't run shell without a TTY"@)),
            !opts.process.detached && opts.process.allocate_tty ==> {
                let ms = service_matches(self.pods_view(), service@);
                if ms.len() != 1 {
                    r matches Err(e) && service_error(self.pods_view(), service@, e)
                } else {
                    let p = ms[0];
                    let svc = service_part(service@);
                    match target_file_for(self.pods_view()[p], self.current_target_view()) {
                        None => r matches Err(e) && (e matches Error::Message(m) && m@ == crate::pod::target_undefined_message(
                        self.current_target_view(),
                    )),
                        Some(f) => if merged_has_service(*self, p, svc, f) {
                            let sh = match merged_label(self.pods_view()[p].file_view(), f, svc, label_shell()) {
                                Some(v) => v,
                                None => "sh"@,
                            };
                            match service_cmd(*self, "exec"@, svc, opts.arg_list(), seq![sh]) {
                                Some(c) => r matches Ok(v) && v.deep_view() == c,
                                None => r matches Err(e) && service_error(self.pods_view(), svc, e),
                            }
                        } else {
                            r matches Err(e) && (e matches Error::UnknownService(x) && x@ == svc)
                        },
                    }
                }
            },
    {
        if opts.process.detached {
            return Err(Error::msg("Can't run shell in detached mode"));
        }
        if !opts.process.allocate_tty {
            return Err(Error::msg("Can't run shell without a TTY"));
        }
        let (p, svc) = match self.service_or_err(service) {
            Ok(found) => found,
            Err(e) => {
                return Err(e);
            },
        };
        proof {
            crate::project::lemma_service_matches_bounds(self.pods_view(), service@);
        }
        let labels = match self.current_labels(p, svc.as_str()) {
            Ok(l) => l,
            Err(e) => {
                return Err(e);
            },
        };
        let ghost f = target_file_for(self.pods_view()[p as int], self.current_target_view())->0;
        assert(label_text(labels@, label_shell()) == merged_label(self.pods_view()[p as int].file_view(), f, svc@, label_shell()));
        let mut tmp = Service::empty();
        tmp.labels = labels;
        let sh = tmp.shell();
        let cmd = Command::new(sh.as_str());
        assert(cmd.arg_list() =~= seq![sh@]);
        self.exec(svc.as_str(), &cmd, opts)
    }

    /// The label and command line that pull the images of each designated
    /// pod or service whose pod is enabled.  Nothing is pulled if a name
    /// does not resolve.
    pub fn pull(&self, act_on: &ActOn, opts: &Pull) -> (r: Result<Vec<(String, Vec<String>)>, Error>)
        ensures
            match r {
                Ok(v) => act_on_error(self.pods_view(), *act_on, None) && v@.map_values(
                    |e: (String, Vec<String>)| (e.0@, e.1.deep_view()),
                ) == pull_items(*self, act_on_items(self.pods_view(), *act_on), opts.arg_list()),
                Err(e) => act_on_error(self.pods_view(), *act_on, Some(e)),
            },
    {
        let (items, err) = self.designated(act_on);
        if let Some(e) = err {
            return Err(e);
        }
        let opt_args = opts.to_args();
        let ghost ov = opt_args.deep_view();
        let ghost iv = items@.map_values(|p: PodOrService| pos_view(p));
        let mut out: Vec<(String, Vec<String>)> = Vec::new();
        let mut i: usize = 0;
        while i < items.len()
            invariant
                i <= items@.len(),
                iv == items@.map_values(|p: PodOrService| pos_view(p)),
                ov == opt_args.deep_view(),
                forall|x: int| 0 <= x < items@.len() ==> #[trigger] pos_view(items@[x]).0 < self.pods_view().len(),
                out@.map_values(|e: (String, Vec<String>)| (e.0@, e.1.deep_view())) == pull_items(*self, iv.take(i as int), ov),
            decreases items@.len() - i,
        {
            assert(iv.take(i + 1).drop_last() =~= iv.take(i as int));
            assert(iv.take(i + 1).last() == pos_view(items@[i as int]));
            let ghost before = out@.map_values(|e: (String, Vec<String>)| (e.0@, e.1.deep_view()));
            let (p, svc): (usize, Option<&str>) = match &items[i] {
                PodOrService::Pod(p) => (*p, None),
                PodOrService::Service(p, s) => (*p, Some(s.as_str())),
            };
            let pod = &self.pods()[p];
            if pod.enabled_in(self.current_target()) {
                let label = match svc {
                    Some(s) => concat3(pod.name(), "/", s),
                    None => copy_str(pod.name()),
                };
                let cmd = self.compose_command(p, "pull", &opt_args, svc);
                let ghost e = (label@, cmd.deep_view());
                out.push((label, cmd));
                assert(out@.map_values(|e: (String, Vec<String>)| (e.0@, e.1.deep_view())) =~= before.push(e));
            }
            assert(out@.map_values(|e: (String, Vec<String>)| (e.0@, e.1.deep_view())) =~= pull_items(*self, iv.take(i + 1), ov));
            i = i + 1;
        }
        assert(iv.take(items@.len() as int) =~= iv);
        Ok(out)
    }
}

/// How many of `succeeded` are `false`.
pub open spec fn failure_count(succeeded: Seq<bool>) -> nat
    decreases succeeded.len(),
{
    if succeeded.len() == 0 {
        0
    } else {
        failure_count(succeeded.drop_last()) + if succeeded.last() {
            0nat
        } else {
            1nat
        }
    }
}

/// What `cage pull` reports once every pull of `Project::pull` has run,
/// `succeeded[i]` telling whether the `i`-th did: success when none failed,
/// else a message that counts the failures.
pub fn pull_outcome(succeeded: &Vec<bool>) -> (r: Result<(), Error>)
    ensures
        r is Ok <==> failure_count(succeeded@) == 0,
        r is Err ==> (r matches Err(Error::Message(m)) && m@ == decimal(failure_count(succeeded@))
            + " pull(s) failed"@),
{
    let mut failures: usize = 0;
    let mut i: usize = 0;
    while i < succeeded.len()
        invariant
            i <= succeeded@.len(),
            failures == failure_count(succeeded@.take(i as int)),
            failures <= i,
        decreases succeeded@.len() - i,
    {
        assert(succeeded@.take(i + 1).drop_last() =~= succeeded@.take(i as int));
        if !succeeded[i] {
            failures = failures + 1;
        }
        i = i + 1;
    }
    assert(succeeded@.take(succeeded@.len() as int) =~= succeeded@);
    if failures == 0 {
        Ok(())
    } else {
        Err(Error::Message(concat2(decimal_count(failures).as_str(), " pull(s) failed")))
    }
}

/// `pull` only touches pods enabled in the current target: every entry of
/// the pull list is the pull command of a designated pod or service whose
/// pod admits the current target.
pub proof fn lemma_pull_only_enabled_pods(proj: Project, items: Seq<(int, Option<Seq<char>>)>, opts: Seq<Seq<char>>)
    ensures
        forall|j: int| 0 <= j < pull_items(proj, items, opts).len() ==> exists|i: int| #![trigger items[i]] 0 <= i < items.len()
            && admits(opt_strings_view(proj.pods_view()[items[i].0].config_view().enable_in_targets), proj.current_target_view())
            && (#[trigger] pull_items(proj, items, opts)[j]).1 == compose_cmd(proj, items[i].0, "pull"@, opts, items[i].1),
    decreases items.len(),
{
    if items.len() > 0 {
        let prev_items = items.drop_last();
        lemma_pull_only_enabled_pods(proj, prev_items, opts);
        let prev = pull_items(proj, prev_items, opts);
        let last = pull_item(proj, items.last(), opts);
        let all = pull_items(proj, items, opts);
        assert(all == prev + last);
        let n = items.len() - 1;
        assert(items[n] == items.last());
        assert forall|j: int| 0 <= j < all.len() implies exists|i: int| #![trigger items[i]] 0 <= i < items.len()
            && admits(opt_strings_view(proj.pods_view()[items[i].0].config_view().enable_in_targets), proj.current_target_view())
            && (#[trigger] all[j]).1 == compose_cmd(proj, items[i].0, "pull"@, opts, items[i].1) by {
            if j < prev.len() {
                assert(all[j] == prev[j]);
                let i = choose|i: int| #![trigger prev_items[i]] 0 <= i < prev_items.len()
                    && admits(opt_strings_view(proj.pods_view()[prev_items[i].0].config_view().enable_in_targets), proj.current_target_view())
                    && prev[j].1 == compose_cmd(proj, prev_items[i].0, "pull"@, opts, prev_items[i].1);
                assert(items[i] == prev_items[i]);
            } else {
                assert(all[j] == last[j - prev.len()]);
                assert(pod_enabled(proj.pods_view()[items[n].0], proj.current_target_view()));
            }
        }
    }
}

/// Each designated pod or service whose pod admits the current target gets
/// its pull command in the pull list.
pub proof fn lemma_pull_covers_enabled_pods(proj: Project, items: Seq<(int, Option<Seq<char>>)>, opts: Seq<Seq<char>>)
    ensures
        forall|i: int| 0 <= i < items.len() && admits(
            opt_strings_view(proj.pods_view()[(#[trigger] items[i]).0].config_view().enable_in_targets),
            proj.current_target_view(),
        ) ==> exists|j: int| 0 <= j < pull_items(proj, items, opts).len()
            && (#[trigger] pull_items(proj, items, opts)[j]).1 == compose_cmd(proj, items[i].0, "pull"@, opts, items[i].1),
    decreases items.len(),
{
    if items.len() > 0 {
        let prev_items = items.drop_last();
        lemma_pull_covers_enabled_pods(proj, prev_items, opts);
        let prev = pull_items(proj, prev_items, opts);
        let last = pull_item(proj, items.last(), opts);
        let all = pull_items(proj, items, opts);
        assert(all == prev + last);
        let n = items.len() - 1;
        assert(items[n] == items.last());
        assert forall|i: int| 0 <= i < items.len() && admits(
            opt_strings_view(proj.pods_view()[(#[trigger] items[i]).0].config_view().enable_in_targets),
            proj.current_target_view(),
        ) implies exists|j: int| 0 <= j < all.len()
            && (#[trigger] all[j]).1 == compose_cmd(proj, items[i].0, "pull"@, opts, items[i].1) by {
            if i < n {
                assert(prev_items[i] == items[i]);
                let j = choose|j: int| 0 <= j < prev.len()
                    && (#[trigger] prev[j]).1 == compose_cmd(proj, prev_items[i].0, "pull"@, opts, prev_items[i].1);
                assert(all[j] == prev[j]);
            } else {
                assert(all[prev.len() as int] == last[0]);
            }
        }
    }
}

} // verus!
