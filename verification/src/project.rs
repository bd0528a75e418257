//! A project: a directory holding a `pods` subdirectory, the pods found
//! there, the targets they can be adapted to, and how names given on the
//! command line resolve to pods and services.

use vstd::prelude::*;

use crate::act_on::ActOn;
use crate::errors::Error;
use crate::ovr::Override;
use crate::paths::{join_path, path_join};
use crate::ovr::contains_str;
use crate::pod::{Pod, PodType};
use crate::text::{concat3, copy_str, find_char, first_index_of, prefix_to, str_eq, suffix_from};

verus! {

/// Does Docker Compose keep this character of a project name: an ASCII
/// letter or digit?
pub open spec fn is_alnum(c: char) -> bool {
    ('a' <= c && c <= 'z') || ('A' <= c && c <= 'Z') || ('0' <= c && c <= '9')
}

/// The ASCII letters and digits of `s`, in order.
pub open spec fn alnum_only(s: Seq<char>) -> Seq<char>
    decreases s.len(),
{
    if s.len() == 0 {
        Seq::empty()
    } else if is_alnum(s.last()) {
        alnum_only(s.drop_last()).push(s.last())
    } else {
        alnum_only(s.drop_last())
    }
}

/// The `docker-compose` project name for a project named `name` in
/// `target`: the test target gets its own name, so that tests do not
/// disturb a running development setup.
pub open spec fn compose_project_name_spec(name: Seq<char>, target: Seq<char>) -> Seq<char> {
    if target == "test"@ {
        name + "test"@
    } else {
        name
    }
}

/// The letters and digits of `s`.
pub fn strip_non_alnum(s: &str) -> (r: String)
    ensures
        r@ == alnum_only(s@),
{
    let n = s.unicode_len();
    let mut out = String::new();
    let mut i: usize = 0;
    while i < n
        invariant
            n == s@.len(),
            i <= n,
            out@ == alnum_only(s@.take(i as int)),
        decreases n - i,
    {
        let c = s.get_char(i);
        assert(s@.take(i + 1).drop_last() =~= s@.take(i as int));
        assert(s@.take(i + 1).last() == c);
        if ('a' <= c && c <= 'z') || ('A' <= c && c <= 'Z') || ('0' <= c && c <= '9') {
            let piece = s.substring_char(i, i + 1);
            assert(piece@ =~= seq![c]);
            out.append(piece);
            assert(out@ =~= alnum_only(s@.take(i as int)).push(c));
        }
        i = i + 1;
    }
    assert(s@.take(n as int) =~= s@);
    out
}

/// The position of the first pod named `name`, if any.
pub open spec fn first_pod_named(pods: Seq<Pod>, name: Seq<char>) -> Option<int>
    decreases pods.len(),
{
    if pods.len() == 0 {
        None
    } else {
        match first_pod_named(pods.drop_last(), name) {
            Some(i) => Some(i),
            None => if pods.last().name_view() == name {
                Some(pods.len() - 1)
            } else {
                None
            },
        }
    }
}

/// The pod part of `pod/service`, if the name has one.
pub open spec fn pod_part(name: Seq<char>) -> Option<Seq<char>> {
    match first_index_of(name, '/') {
        Some(p) => Some(name.take(p)),
        None => None,
    }
}

/// The service part of `pod/service`, or the whole name.
pub open spec fn service_part(name: Seq<char>) -> Seq<char> {
    match first_index_of(name, '/') {
        Some(p) => name.skip(p + 1),
        None => name,
    }
}

/// Could `pod` hold the service that `name` refers to?
pub open spec fn service_matches_pod(pod: Pod, name: Seq<char>) -> bool {
    &&& match pod_part(name) {
        Some(pn) => pod.name_view() == pn,
        None => true,
    }
    &&& pod.service_names_view().contains(service_part(name))
}

/// The positions of the pods that hold the service `name` refers to, in
/// order.
pub open spec fn service_matches(pods: Seq<Pod>, name: Seq<char>) -> Seq<int>
    decreases pods.len(),
{
    if pods.len() == 0 {
        Seq::empty()
    } else if service_matches_pod(pods.last(), name) {
        service_matches(pods.drop_last(), name).push(pods.len() - 1)
    } else {
        service_matches(pods.drop_last(), name)
    }
}

/// The message for a short service name found in more than one pod.
pub open spec fn ambiguous_message(name: Seq<char>) -> Seq<char> {
    "The short service name '"@ + name + "' appears in more than one pod"@
}

/// A pod, or a service of a pod, named on the command line.  Pods are
/// given by their position in the project.
#[derive(Debug, Clone)]
pub enum PodOrService {
    /// A whole pod.
    Pod(usize),
    /// A single service in a pod.
    Service(usize, String),
}

/// The position of the pod, and the service name for a service.
pub open spec fn pos_view(p: PodOrService) -> (int, Option<Seq<char>>) {
    match p {
        PodOrService::Pod(i) => (i as int, None),
        PodOrService::Service(i, s) => (i as int, Some(s@)),
    }
}

/// What `name` resolves to among `pods`: the first pod of that name, or
/// else the only pod holding the service.
pub open spec fn resolve_spec(pods: Seq<Pod>, name: Seq<char>) -> Option<(int, Option<Seq<char>>)> {
    match first_pod_named(pods, name) {
        Some(i) => Some((i, None)),
        None => if service_matches(pods, name).len() == 1 {
            Some((service_matches(pods, name)[0], Some(service_part(name))))
        } else {
            None
        },
    }
}

/// The error for a name that resolves to nothing.
pub open spec fn resolve_error(pods: Seq<Pod>, name: Seq<char>, e: Error) -> bool {
    if service_matches(pods, name).len() > 1 {
        e matches Error::Message(m) && m@ == ambiguous_message(name)
    } else {
        e matches Error::UnknownPodOrService(n) && n@ == name
    }
}

/// A `docker-compose` project, represented as a directory containing a
/// `pods` subdirectory.
#[derive(Debug)]
pub struct Project {
    /// The name of this project.  This defaults to the name of the
    /// directory containing the project, but it can be overridden.
    name: String,
    /// The directory which contains our project.
    root_dir: String,
    /// Where we keep cloned git repositories.
    src_dir: String,
    /// The directory to which we write our transformed pods.
    output_dir: String,
    /// All the pods associated with this project.
    pods: Vec<Pod>,
    /// All the targets associated with this project.
    targets: Vec<Override>,
    /// The position in `targets` of the target we are using.
    current_target: usize,
    /// Should commands be run with their output kept down?
    quiet: bool,
}

impl Project {
    /// The current target is one of the targets.
    #[verifier::type_invariant]
    closed spec fn current_is_valid(self) -> bool {
        self.current_target < self.targets@.len()
    }

    /// The name of this project.
    pub closed spec fn name_view(&self) -> Seq<char> {
        self.name@
    }

    /// The project's root directory.
    pub closed spec fn root_dir_view(&self) -> Seq<char> {
        self.root_dir@
    }

    /// The project's source directory.
    pub closed spec fn src_dir_view(&self) -> Seq<char> {
        self.src_dir@
    }

    /// The project's output directory.
    pub closed spec fn output_dir_view(&self) -> Seq<char> {
        self.output_dir@
    }

    /// The project's pods, in order.
    pub closed spec fn pods_view(&self) -> Seq<Pod> {
        self.pods@
    }

    /// The names of the project's targets, in order.
    pub closed spec fn targets_view(&self) -> Seq<Seq<char>> {
        self.targets@.map_values(|t: Override| t@)
    }

    /// The name of the current target.
    pub closed spec fn current_target_view(&self) -> Seq<char> {
        self.targets@[self.current_target as int]@
    }

    /// Is quiet mode on?
    pub closed spec fn quiet_view(&self) -> bool {
        self.quiet
    }

    /// The name passed to `docker-compose -p`.
    pub open spec fn compose_name_view(&self) -> Seq<char> {
        alnum_only(compose_project_name_spec(self.name_view(), self.current_target_view()))
    }

    /// Where the pods' output files go.
    pub open spec fn output_pods_dir_view(&self) -> Seq<char> {
        path_join(self.output_dir_view(), "pods"@)
    }

    /// Create a project from its pods and targets, already loaded, using the
    /// `development` target, which must exist.
    pub fn new(
        name: &str,
        root_dir: &str,
        src_dir: &str,
        output_dir: &str,
        targets: Vec<Override>,
        pods: Vec<Pod>,
    ) -> (r: Result<Project, Error>)
        ensures
            match r {
                Ok(p) => {
                    &&& p.name_view() == name@
                    &&& p.root_dir_view() == root_dir@
                    &&& p.src_dir_view() == src_dir@
                    &&& p.output_dir_view() == output_dir@
                    &&& p.pods_view() == pods@
                    &&& p.targets_view() == targets@.map_values(|t: Override| t@)
                    &&& p.current_target_view() == "development"@
                    &&& !p.quiet_view()
                },
                Err(e) => !targets@.map_values(|t: Override| t@).contains("development"@) && (e matches Error::UnknownTarget(
                    n,
                ) && n@ == "development"@),
            },
    {
        match find_target(&targets, "development") {
            Some(i) => Ok(
                Project {
                    name: copy_str(name),
                    root_dir: copy_str(root_dir),
                    src_dir: copy_str(src_dir),
                    output_dir: copy_str(output_dir),
                    pods,
                    targets,
                    current_target: i,
                    quiet: false,
                },
            ),
            None => Err(Error::UnknownTarget(copy_str("development"))),
        }
    }

    /// The name of this project.
    pub fn name(&self) -> (r: &str)
        ensures
            r@ == self.name_view(),
    {
        self.name.as_str()
    }

    /// Set the name of this project.
    pub fn set_name(&mut self, name: &str)
        ensures
            final(self).name_view() == name@,
            final(self).root_dir_view() == old(self).root_dir_view(),
            final(self).src_dir_view() == old(self).src_dir_view(),
            final(self).output_dir_view() == old(self).output_dir_view(),
            final(self).pods_view() == old(self).pods_view(),
            final(self).targets_view() == old(self).targets_view(),
            final(self).current_target_view() == old(self).current_target_view(),
            final(self).quiet_view() == old(self).quiet_view(),
    {
        proof {
            use_type_invariant(&*self);
        }
        self.name = copy_str(name);
    }

    /// Turn quiet mode on or off.
    pub fn set_quiet(&mut self, quiet: bool)
        ensures
            final(self).quiet_view() == quiet,
            final(self).name_view() == old(self).name_view(),
            final(self).root_dir_view() == old(self).root_dir_view(),
            final(self).src_dir_view() == old(self).src_dir_view(),
            final(self).output_dir_view() == old(self).output_dir_view(),
            final(self).pods_view() == old(self).pods_view(),
            final(self).targets_view() == old(self).targets_view(),
            final(self).current_target_view() == old(self).current_target_view(),
    {
        proof {
            use_type_invariant(&*self);
        }
        self.quiet = quiet;
    }

    /// Is quiet mode on?
    pub fn quiet(&self) -> (r: bool)
        ensures
            r == self.quiet_view(),
    {
        self.quiet
    }

    /// The root directory of this project.
    pub fn root_dir(&self) -> (r: &str)
        ensures
            r@ == self.root_dir_view(),
    {
        self.root_dir.as_str()
    }

    /// The source directory of this project, where we put cloned git
    /// repositories.
    pub fn src_dir(&self) -> (r: &str)
        ensures
            r@ == self.src_dir_view(),
    {
        self.src_dir.as_str()
    }

    /// The output directory of this project.
    pub fn output_dir(&self) -> (r: &str)
        ensures
            r@ == self.output_dir_view(),
    {
        self.output_dir.as_str()
    }

    /// The directory relative to which our pods are output: joined with a
    /// pod's `rel_path`, it gives the pod's output file.
    pub fn output_pods_dir(&self) -> (r: String)
        ensures
            r@ == self.output_pods_dir_view(),
    {
        join_path(self.output_dir.as_str(), "pods")
    }

    /// The directory holding the project's pod definitions.
    pub fn pods_dir(&self) -> (r: String)
        ensures
            r@ == path_join(self.root_dir_view(), "pods"@),
    {
        join_path(self.root_dir.as_str(), "pods")
    }

    /// All pods in this project.
    pub fn pods(&self) -> (r: &Vec<Pod>)
        ensures
            r@ == self.pods_view(),
    {
        &self.pods
    }

    /// Look up the named pod.
    pub fn pod(&self, name: &str) -> (r: Option<&Pod>)
        ensures
            match first_pod_named(self.pods_view(), name@) {
                Some(i) => r matches Some(p) && *p == self.pods_view()[i],
                None => r is None,
            },
    {
        match self.pod_index(name) {
            Some(i) => Some(&self.pods[i]),
            None => None,
        }
    }

    /// The position of the first pod named `name`.
    pub fn pod_index(&self, name: &str) -> (r: Option<usize>)
        ensures
            match first_pod_named(self.pods_view(), name@) {
                Some(i) => r matches Some(j) && j as int == i && 0 <= i < self.pods_view().len(),
                None => r is None,
            },
    {
        let mut i: usize = 0;
        while i < self.pods.len()
            invariant
                i <= self.pods@.len(),
                first_pod_named(self.pods@.take(i as int), name@) is None,
            decreases self.pods@.len() - i,
        {
            let ghost ps = self.pods@.take(i + 1);
            assert(ps.drop_last() =~= self.pods@.take(i as int));
            if str_eq(self.pods[i].name(), name) {
                proof {
                    lemma_first_pod_named_extends(self.pods@, i as int + 1, name@);
                }
                return Some(i);
            }
            i = i + 1;
        }
        assert(self.pods@.take(self.pods@.len() as int) =~= self.pods@);
        None
    }

    /// All the targets of this project.
    pub fn targets(&self) -> (r: &Vec<Override>)
        ensures
            r@.map_values(|t: Override| t@) == self.targets_view(),
    {
        &self.targets
    }

    /// Look up the named target.
    pub fn target(&self, name: &str) -> (r: Option<&Override>)
        ensures
            match r {
                Some(t) => t@ == name@,
                None => !self.targets_view().contains(name@),
            },
    {
        match find_target(&self.targets, name) {
            Some(i) => Some(&self.targets[i]),
            None => None,
        }
    }

    /// The target we are currently using.
    pub fn current_target(&self) -> (r: &Override)
        ensures
            r@ == self.current_target_view(),
    {
        proof {
            use_type_invariant(self);
        }
        &self.targets[self.current_target]
    }

    /// Use the named target from now on: an error if there is none.
    pub fn set_current_target_name(&mut self, name: &str) -> (r: Result<(), Error>)
        ensures
            r is Ok <==> old(self).targets_view().contains(name@),
            r is Ok ==> final(self).current_target_view() == name@,
            r is Err ==> final(self).current_target_view() == old(self).current_target_view(),
            r matches Err(e) ==> (e matches Error::UnknownTarget(n) && n@ == name@),
            final(self).name_view() == old(self).name_view(),
            final(self).root_dir_view() == old(self).root_dir_view(),
            final(self).src_dir_view() == old(self).src_dir_view(),
            final(self).output_dir_view() == old(self).output_dir_view(),
            final(self).pods_view() == old(self).pods_view(),
            final(self).targets_view() == old(self).targets_view(),
            final(self).quiet_view() == old(self).quiet_view(),
    {
        proof {
            use_type_invariant(&*self);
        }
        match find_target(&self.targets, name) {
            Some(i) => {
                assert(self.targets_view()[i as int] == name@);
                self.current_target = i;
                Ok(())
            },
            None => Err(Error::UnknownTarget(copy_str(name))),
        }
    }

    /// The project name passed to `docker-compose -p`: the current target's
    /// project name with everything but ASCII letters and digits removed.
    pub fn compose_name(&self) -> (r: String)
        ensures
            r@ == self.compose_name_view(),
    {
        let full = self.current_target().compose_project_name(self);
        strip_non_alnum(full.as_str())
    }
}

/// Is `pod` a one-shot task?
pub open spec fn is_task(pod: Pod) -> bool {
    pod.config_view().pod_type == Some(PodType::Task)
}

/// Every pod, in order.
pub open spec fn all_pod_items(n: int) -> Seq<(int, Option<Seq<char>>)> {
    Seq::new(n as nat, |i: int| (i, None::<Seq<char>>))
}

/// The pods that are not tasks, in order.
pub open spec fn non_task_items(pods: Seq<Pod>) -> Seq<(int, Option<Seq<char>>)>
    decreases pods.len(),
{
    if pods.len() == 0 {
        Seq::empty()
    } else if is_task(pods.last()) {
        non_task_items(pods.drop_last())
    } else {
        non_task_items(pods.drop_last()).push((pods.len() - 1, None))
    }
}

/// What the names resolve to, in order, up to the first that does not
/// resolve.
pub open spec fn resolved_prefix(pods: Seq<Pod>, names: Seq<Seq<char>>) -> Seq<(int, Option<Seq<char>>)>
    decreases names.len(),
{
    if names.len() == 0 {
        Seq::empty()
    } else {
        let p = resolved_prefix(pods, names.drop_last());
        if p.len() == names.len() - 1 && resolve_spec(pods, names.last()) is Some {
            p.push(resolve_spec(pods, names.last())->0)
        } else {
            p
        }
    }
}

/// The pods or services that `act_on` designates, in order, up to the first
/// name that does not resolve.
pub open spec fn act_on_items(pods: Seq<Pod>, act_on: ActOn) -> Seq<(int, Option<Seq<char>>)> {
    match act_on {
        ActOn::All => all_pod_items(pods.len() as int),
        ActOn::AllExceptTasks => non_task_items(pods),
        ActOn::Named(names) => resolved_prefix(pods, names.deep_view()),
    }
}

/// `e` is the error for the first name of `act_on` that does not resolve,
/// or there is none and `e` is `None`.
pub open spec fn act_on_error(pods: Seq<Pod>, act_on: ActOn, e: Option<Error>) -> bool {
    match act_on {
        ActOn::Named(names) => {
            let k = resolved_prefix(pods, names.deep_view()).len();
            if k < names.deep_view().len() {
                e matches Some(err) && resolve_error(pods, names.deep_view()[k as int], err)
            } else {
                e is None
            }
        },
        _ => e is None,
    }
}

/// Resolving one more name extends the resolved prefix when every earlier
/// name resolved.
proof fn lemma_resolved_prefix_step(pods: Seq<Pod>, names: Seq<Seq<char>>, i: int)
    requires
        0 <= i < names.len(),
        resolved_prefix(pods, names.take(i)).len() == i,
    ensures
        resolve_spec(pods, names[i]) is Some ==> resolved_prefix(pods, names.take(i + 1)) == resolved_prefix(
            pods,
            names.take(i),
        ).push(resolve_spec(pods, names[i])->0),
        resolve_spec(pods, names[i]) is None ==> resolved_prefix(pods, names.take(i + 1)) == resolved_prefix(
            pods,
            names.take(i),
        ),
{
    assert(names.take(i + 1).drop_last() =~= names.take(i));
    assert(names.take(i + 1).last() == names[i]);
}

/// Once a name fails to resolve, no later name adds to the prefix.
proof fn lemma_resolved_prefix_stops(pods: Seq<Pod>, names: Seq<Seq<char>>, i: int, n: int)
    requires
        0 <= i < n <= names.len(),
        resolved_prefix(pods, names.take(i)).len() == i,
        resolve_spec(pods, names[i]) is None,
    ensures
        resolved_prefix(pods, names.take(n)) == resolved_prefix(pods, names.take(i)),
    decreases n - i,
{
    if n == i + 1 {
        lemma_resolved_prefix_step(pods, names, i);
    } else {
        lemma_resolved_prefix_stops(pods, names, i, n - 1);
        assert(names.take(n).drop_last() =~= names.take(n - 1));
        assert(resolved_prefix(pods, names.take(n - 1)).len() == i);
    }
}

impl Project {
    /// The service that `name` refers to, as `pod/service` or as the name
    /// of a service found in exactly one pod: `None` when no pod has it, an
    /// error when several do.
    pub fn service(&self, name: &str) -> (r: Result<Option<(usize, String)>, Error>)
        ensures
            match r {
                Ok(Some(found)) => service_matches(self.pods_view(), name@).len() == 1 && found.0 as int
                    == service_matches(self.pods_view(), name@)[0] && found.1@ == service_part(name@),
                Ok(None) => service_matches(self.pods_view(), name@).len() == 0,
                Err(e) => service_matches(self.pods_view(), name@).len() > 1 && (e matches Error::Message(m) && m@
                    == ambiguous_message(name@)),
            },
    {
        let name_len = name.unicode_len();
        let slash = find_char(name, '/');
        let (pod_name, svc): (Option<String>, String) = match slash {
            Some(p) => (Some(prefix_to(name, p)), suffix_from(name, p + 1)),
            None => (None, copy_str(name)),
        };
        assert(svc@ == service_part(name@));
        assert(match pod_name {
            Some(pn) => pod_part(name@) == Some(pn@),
            None => pod_part(name@) is None,
        });
        let mut count: usize = 0;
        let mut first: usize = 0;
        let mut i: usize = 0;
        while i < self.pods.len()
            invariant
                i <= self.pods@.len(),
                svc@ == service_part(name@),
                match pod_name {
                    Some(pn) => pod_part(name@) == Some(pn@),
                    None => pod_part(name@) is None,
                },
                count as int == service_matches(self.pods@.take(i as int), name@).len(),
                count > 0 ==> first as int == service_matches(self.pods@.take(i as int), name@)[0],
                count <= i,
            decreases self.pods@.len() - i,
        {
            let ghost ps = self.pods@.take(i + 1);
            assert(ps.drop_last() =~= self.pods@.take(i as int));
            assert(ps.last() == self.pods@[i as int]);
            let pod = &self.pods[i];
            let pod_ok = match &pod_name {
                Some(pn) => str_eq(pod.name(), pn.as_str()),
                None => true,
            };
            let hit = pod_ok && contains_str(pod.service_names(), svc.as_str());
            assert(hit == service_matches_pod(self.pods@[i as int], name@));
            if hit {
                if count == 0 {
                    first = i;
                }
                count = count + 1;
            }
            i = i + 1;
        }
        assert(self.pods@.take(self.pods@.len() as int) =~= self.pods@);
        if count == 0 {
            Ok(None)
        } else if count == 1 {
            Ok(Some((first, svc)))
        } else {
            Err(Error::Message(concat3("The short service name '", name, "' appears in more than one pod")))
        }
    }

    /// Like `service`, but an error when no pod has the service.
    pub fn service_or_err(&self, name: &str) -> (r: Result<(usize, String), Error>)
        ensures
            match r {
                Ok(found) => service_matches(self.pods_view(), name@).len() == 1 && found.0 as int
                    == service_matches(self.pods_view(), name@)[0] && found.1@ == service_part(name@),
                Err(e) => if service_matches(self.pods_view(), name@).len() == 0 {
                    e matches Error::UnknownService(n) && n@ == name@
                } else {
                    service_matches(self.pods_view(), name@).len() > 1 && (e matches Error::Message(m) && m@
                        == ambiguous_message(name@))
                },
            },
    {
        match self.service(name) {
            Ok(Some(found)) => Ok(found),
            Ok(None) => Err(Error::UnknownService(copy_str(name))),
            Err(e) => Err(e),
        }
    }

    /// The pod named `name`, or else the service it refers to.
    pub fn pod_or_service_or_err(&self, name: &str) -> (r: Result<PodOrService, Error>)
        ensures
            match r {
                Ok(p) => resolve_spec(self.pods_view(), name@) == Some(pos_view(p)) && pos_view(p).0 < self.pods_view().len(),
                Err(e) => resolve_spec(self.pods_view(), name@) is None && resolve_error(self.pods_view(), name@, e),
            },
    {
        match self.pod_index(name) {
            Some(i) => Ok(PodOrService::Pod(i)),
            None => match self.service(name) {
                Ok(Some(found)) => {
                    proof {
                        lemma_service_matches_bounds(self.pods@, name@);
                    }
                    Ok(PodOrService::Service(found.0, found.1))
                },
                Ok(None) => Err(Error::UnknownPodOrService(copy_str(name))),
                Err(e) => Err(e),
            },
        }
    }

    /// What each name of `act_on` resolves to, in order, or all the pods
    /// (but tasks, for `AllExceptTasks`): a name that does not resolve gives
    /// its error in its place, and the names after it are resolved too.
    pub fn pods_or_services(&self, act_on: &ActOn) -> (r: Vec<Result<PodOrService, Error>>)
        ensures
            match *act_on {
                ActOn::Named(names) => {
                    &&& r@.len() == names@.len()
                    &&& forall|i: int| 0 <= i < r@.len() ==> match resolve_spec(self.pods_view(), #[trigger] names.deep_view()[i]) {
                        Some(p) => r@[i] matches Ok(x) && pos_view(x) == p && p.0 < self.pods_view().len(),
                        None => r@[i] matches Err(e) && resolve_error(self.pods_view(), names.deep_view()[i], e),
                    }
                },
                _ => {
                    &&& r@.len() == act_on_items(self.pods_view(), *act_on).len()
                    &&& forall|i: int| 0 <= i < r@.len() ==> (#[trigger] r@[i] matches Ok(x) && pos_view(x)
                        == act_on_items(self.pods_view(), *act_on)[i])
                },
            },
    {
        let mut out: Vec<Result<PodOrService, Error>> = Vec::new();
        match act_on {
            ActOn::Named(names) => {
                let mut i: usize = 0;
                while i < names.len()
                    invariant
                        i <= names@.len(),
                        out@.len() == i,
                        forall|j: int| 0 <= j < i ==> match resolve_spec(self.pods_view(), #[trigger] names.deep_view()[j]) {
                            Some(p) => out@[j] matches Ok(x) && pos_view(x) == p && p.0 < self.pods_view().len(),
                            None => out@[j] matches Err(e) && resolve_error(self.pods_view(), names.deep_view()[j], e),
                        },
                    decreases names@.len() - i,
                {
                    assert(names.deep_view()[i as int] == names[i as int]@);
                    out.push(self.pod_or_service_or_err(names[i].as_str()));
                    i = i + 1;
                }
                out
            },
            _ => {
                let (items, _) = self.designated(act_on);
                let mut i: usize = 0;
                while i < items.len()
                    invariant
                        i <= items@.len(),
                        out@.len() == i,
                        items@.map_values(|p: PodOrService| pos_view(p)) == act_on_items(self.pods_view(), *act_on),
                        forall|j: int| 0 <= j < i ==> (#[trigger] out@[j] matches Ok(x) && pos_view(x)
                            == act_on_items(self.pods_view(), *act_on)[j]),
                    decreases items@.len() - i,
                {
                    let item = match &items[i] {
                        PodOrService::Pod(p) => PodOrService::Pod(*p),
                        PodOrService::Service(p, s) => PodOrService::Service(*p, copy_str(s.as_str())),
                    };
                    assert(pos_view(item) == items@.map_values(|p: PodOrService| pos_view(p))[i as int]);
                    out.push(Ok(item));
                    i = i + 1;
                }
                out
            },
        }
    }

    /// The pods or services that `act_on` designates, in order, as the
    /// commands act on them: resolution stops at the first name that does
    /// not resolve, whose error comes second.
    pub fn designated(&self, act_on: &ActOn) -> (r: (Vec<PodOrService>, Option<Error>))
        ensures
            r.0@.map_values(|p: PodOrService| pos_view(p)) == act_on_items(self.pods_view(), *act_on),
            act_on_error(self.pods_view(), *act_on, r.1),
            forall|j: int| 0 <= j < r.0@.len() ==> #[trigger] pos_view(r.0@[j]).0 < self.pods_view().len(),
    {
        let mut out: Vec<PodOrService> = Vec::new();
        match act_on {
            ActOn::All => {
                let mut i: usize = 0;
                while i < self.pods.len()
                    invariant
                        i <= self.pods@.len(),
                        out@.map_values(|p: PodOrService| pos_view(p)) == all_pod_items(i as int),
                        forall|j: int| 0 <= j < out@.len() ==> #[trigger] pos_view(out@[j]).0 < self.pods@.len(),
                    decreases self.pods@.len() - i,
                {
                    let ghost before = out@.map_values(|p: PodOrService| pos_view(p));
                    out.push(PodOrService::Pod(i));
                    assert(out@.map_values(|p: PodOrService| pos_view(p)) =~= before.push((i as int, None)));
                    assert(before.push((i as int, None)) =~= all_pod_items(i + 1));
                    i = i + 1;
                }
                (out, None)
            },
            ActOn::AllExceptTasks => {
                let mut i: usize = 0;
                while i < self.pods.len()
                    invariant
                        i <= self.pods@.len(),
                        out@.map_values(|p: PodOrService| pos_view(p)) == non_task_items(self.pods@.take(i as int)),
                        forall|j: int| 0 <= j < out@.len() ==> #[trigger] pos_view(out@[j]).0 < self.pods@.len(),
                    decreases self.pods@.len() - i,
                {
                    let ghost ps = self.pods@.take(i + 1);
                    assert(ps.drop_last() =~= self.pods@.take(i as int));
                    assert(ps.last() == self.pods@[i as int]);
                    let ghost before = out@.map_values(|p: PodOrService| pos_view(p));
                    if self.pods[i].pod_type() != PodType::Task {
                        out.push(PodOrService::Pod(i));
                        assert(out@.map_values(|p: PodOrService| pos_view(p)) =~= before.push((i as int, None)));
                    }
                    i = i + 1;
                }
                assert(self.pods@.take(self.pods@.len() as int) =~= self.pods@);
                (out, None)
            },
            ActOn::Named(names) => {
                let ghost nv = names.deep_view();
                let mut i: usize = 0;
                while i < names.len()
                    invariant
                        nv == names.deep_view(),
                        *act_on == ActOn::Named(*names),
                        i <= names@.len(),
                        resolved_prefix(self.pods@, nv.take(i as int)).len() == i,
                        out@.map_values(|p: PodOrService| pos_view(p)) == resolved_prefix(self.pods@, nv.take(i as int)),
                        forall|j: int| 0 <= j < out@.len() ==> #[trigger] pos_view(out@[j]).0 < self.pods@.len(),
                    decreases names@.len() - i,
                {
                    proof {
                        lemma_resolved_prefix_step(self.pods@, nv, i as int);
                    }
                    assert(names[i as int]@ == nv[i as int]);
                    let ghost before = out@.map_values(|p: PodOrService| pos_view(p));
                    match self.pod_or_service_or_err(names[i].as_str()) {
                        Ok(p) => {
                            out.push(p);
                            assert(out@.map_values(|p: PodOrService| pos_view(p)) =~= before.push(
                                resolve_spec(self.pods@, nv[i as int])->0,
                            ));
                        },
                        Err(e) => {
                            assert(resolve_spec(self.pods@, nv[i as int]) is None);
                            proof {
                                lemma_resolved_prefix_stops(self.pods@, nv, i as int, nv.len() as int);
                                assert(nv.take(nv.len() as int) =~= nv);
                            }
                            assert(resolved_prefix(self.pods@, nv).len() == i);
                            assert(resolve_error(self.pods@, nv[i as int], e));
                            return (out, Some(e));
                        },
                    }
                    i = i + 1;
                }
                assert(nv.take(nv.len() as int) =~= nv);
                (out, None)
            },
        }
    }
}

/// The pods that hold a service are pods of the project.
pub proof fn lemma_service_matches_bounds(pods: Seq<Pod>, name: Seq<char>)
    ensures
        forall|j: int| 0 <= j < service_matches(pods, name).len() ==> 0 <= #[trigger] service_matches(pods, name)[j] < pods.len(),
    decreases pods.len(),
{
    if pods.len() > 0 {
        lemma_service_matches_bounds(pods.drop_last(), name);
        let prev = service_matches(pods.drop_last(), name);
        if service_matches_pod(pods.last(), name) {
            assert(service_matches(pods, name) == prev.push(pods.len() - 1));
        } else {
            assert(service_matches(pods, name) == prev);
        }
    }
}

/// Extending the pods past the first one named `name` keeps it first.
proof fn lemma_first_pod_named_extends(pods: Seq<Pod>, n: int, name: Seq<char>)
    requires
        0 < n <= pods.len(),
        first_pod_named(pods.take(n - 1), name) is None,
        pods[n - 1].name_view() == name,
    ensures
        first_pod_named(pods, name) == Some(n - 1),
    decreases pods.len() - n,
{
    let ps = pods.take(n);
    assert(ps.drop_last() =~= pods.take(n - 1));
    assert(first_pod_named(ps, name) == Some(n - 1));
    lemma_first_pod_named_prefix(pods, n, name);
}

/// A pod found in a prefix is found at the same place in the whole list.
proof fn lemma_first_pod_named_prefix(pods: Seq<Pod>, n: int, name: Seq<char>)
    requires
        0 <= n <= pods.len(),
        first_pod_named(pods.take(n), name) is Some,
    ensures
        first_pod_named(pods, name) == first_pod_named(pods.take(n), name),
    decreases pods.len() - n,
{
    if n < pods.len() {
        let ps = pods.take(n + 1);
        assert(ps.drop_last() =~= pods.take(n));
        lemma_first_pod_named_prefix(pods, n + 1, name);
    } else {
        assert(pods.take(n) =~= pods);
    }
}

/// The position of the target named `name`, if any.
fn find_target(targets: &Vec<Override>, name: &str) -> (r: Option<usize>)
    ensures
        match r {
            Some(i) => i < targets@.len() && targets@[i as int]@ == name@,
            None => !targets@.map_values(|t: Override| t@).contains(name@),
        },
{
    let mut i: usize = 0;
    while i < targets.len()
        invariant
            i <= targets@.len(),
            forall|j: int| 0 <= j < i ==> targets@[j]@ != name@,
        decreases targets@.len() - i,
    {
        if str_eq(targets[i].name(), name) {
            return Some(i);
        }
        i = i + 1;
    }
    proof {
        if targets@.map_values(|t: Override| t@).contains(name@) {
            let tv = targets@.map_values(|t: Override| t@);
            let j = choose|j: int| 0 <= j < tv.len() && #[trigger] tv[j] == name@;
            assert(targets@[j]@ == name@);
        }
    }
    None
}

/// A name refers to a service only in a pod that holds a service of that
/// name, and, when it is written `pod/service`, only in the pod of that
/// name.
pub proof fn lemma_service_matches_hold_the_service(pods: Seq<Pod>, name: Seq<char>)
    ensures
        forall|j: int| 0 <= j < service_matches(pods, name).len() ==> {
            let p = #[trigger] service_matches(pods, name)[j];
            &&& 0 <= p < pods.len()
            &&& pods[p].service_names_view().contains(service_part(name))
            &&& (pod_part(name) matches Some(pn) ==> pods[p].name_view() == pn)
        },
    decreases pods.len(),
{
    if pods.len() > 0 {
        lemma_service_matches_hold_the_service(pods.drop_last(), name);
        let prev = service_matches(pods.drop_last(), name);
        assert forall|j: int| 0 <= j < prev.len() implies #[trigger] pods.drop_last()[prev[j]] == pods[prev[j]] by {}
        if service_matches_pod(pods.last(), name) {
            assert(service_matches(pods, name) == prev.push(pods.len() - 1));
        } else {
            assert(service_matches(pods, name) == prev);
        }
    }
}

/// What a name resolves to as a service exists: the pod it resolves to
/// holds a service of the name it resolves to.
pub proof fn lemma_resolved_service_exists(pods: Seq<Pod>, name: Seq<char>)
    ensures
        resolve_spec(pods, name) matches Some((p, Some(s))) ==> 0 <= p < pods.len() && pods[p].service_names_view().contains(s),
{
    lemma_service_matches_hold_the_service(pods, name);
    if service_matches(pods, name).len() == 1 {
        let p = service_matches(pods, name)[0];
        assert(0 <= p < pods.len());
    }
}

} // verus!
