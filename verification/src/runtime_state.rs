//! What Docker says about a project's containers: which containers belong
//! to which service, and whether they are running.

use vstd::prelude::*;

use crate::errors::Error;
use crate::pod::{Pod, PodType};
use crate::project::Project;
use crate::plan::pod_enabled;
use crate::strmap::{lookup, StrMap};
use crate::text::{copy_str, str_eq};

verus! {

/// The status Docker reports for a container.
#[derive(Debug, Clone, Copy, PartialEq, Eq, Structural)]
pub enum DockerStatus {
    /// No status given.
    Empty,
    /// Created but never started.
    Created,
    /// Running.
    Running,
    /// Paused.
    Paused,
    /// Restarting.
    Restarting,
    /// Being removed.
    Removing,
    /// Stopped.
    Exited,
    /// Dead.
    Dead,
}

/// The state section of a container's inspection data.
#[derive(Debug, Clone)]
pub struct InspectedState {
    /// The container's status, if reported.
    pub status: Option<DockerStatus>,
    /// The container's exit code, if reported.
    pub exit_code: Option<i64>,
}

/// What inspecting a container tells us.
#[derive(Debug, Clone)]
pub struct InspectedContainer {
    /// The labels of the container's configuration, if it had any.
    pub labels: Option<StrMap<String>>,
    /// The container's state, if reported.
    pub state: Option<InspectedState>,
}

/// Is a Docker container running? Stopped?
#[derive(Debug, Clone, Copy, PartialEq, Eq, Structural)]
pub enum ContainerStatus {
    /// The container has been created.
    Created,
    /// The container is currently restarting.
    Restarting,
    /// The container is current running.
    Running,
    /// The container has been paused.
    Paused,
    /// The container is stopped with exit code 0.
    Done,
    /// The container is stopped with a non-zero exit code.
    Exited(i64),
    /// The container is in some other state.
    Other,
}

/// The label Docker Compose puts on a container naming its project.
pub open spec fn project_label() -> Seq<char> {
    "com.docker.compose.project"@
}

/// The label naming the target a container was started for.
pub open spec fn target_label() -> Seq<char> {
    "io.fdy.cage.target"@
}

/// The label Docker Compose puts on a container naming its service.
pub open spec fn service_label() -> Seq<char> {
    "com.docker.compose.service"@
}

/// The label Docker Compose puts on containers made by `run`.
pub open spec fn one_off_label() -> Seq<char> {
    "com.docker.compose.oneoff"@
}

/// The text of the label `k` among `labels`, if present.
pub open spec fn label_value(labels: Seq<(Seq<char>, String)>, k: Seq<char>) -> Option<Seq<char>> {
    match lookup(labels, k) {
        Some(v) => Some(v@),
        None => None,
    }
}

/// Our summary of Docker's status and exit code.
pub open spec fn status_of(status: Option<DockerStatus>, exit_code: Option<i64>) -> ContainerStatus {
    let code: i64 = match exit_code {
        Some(c) => c,
        None => 0,
    };
    match status {
        Some(DockerStatus::Created) => ContainerStatus::Created,
        Some(DockerStatus::Restarting) => ContainerStatus::Restarting,
        Some(DockerStatus::Running) => ContainerStatus::Running,
        Some(DockerStatus::Paused) => ContainerStatus::Paused,
        Some(DockerStatus::Exited) => if code == 0 {
            ContainerStatus::Done
        } else {
            ContainerStatus::Exited(code)
        },
        _ => ContainerStatus::Other,
    }
}

impl ContainerStatus {
    /// Summarize Docker's status and exit code (a missing exit code counts
    /// as zero).
    pub fn new(status: Option<DockerStatus>, exit_code: Option<i64>) -> (r: ContainerStatus)
        ensures
            r == status_of(status, exit_code),
    {
        let code: i64 = match exit_code {
            Some(c) => c,
            None => 0,
        };
        match status {
            Some(DockerStatus::Created) => ContainerStatus::Created,
            Some(DockerStatus::Restarting) => ContainerStatus::Restarting,
            Some(DockerStatus::Running) => ContainerStatus::Running,
            Some(DockerStatus::Paused) => ContainerStatus::Paused,
            Some(DockerStatus::Exited) => if code == 0 {
                ContainerStatus::Done
            } else {
                ContainerStatus::Exited(code)
            },
            _ => ContainerStatus::Other,
        }
    }
}

/// Information about a specific container associated with a service.
#[derive(Debug, Clone, Copy)]
pub struct ContainerInfo {
    /// Was this a one-off container?
    is_one_off: bool,
    /// The current state of this container.
    state: ContainerStatus,
}

impl View for ContainerInfo {
    type V = (bool, ContainerStatus);

    /// Whether the container is a one-off, and its state.
    closed spec fn view(&self) -> (bool, ContainerStatus) {
        (self.is_one_off, self.state)
    }
}

/// Is a container with these labels a one-off made by `run`?
pub open spec fn labels_one_off(labels: Option<StrMap<String>>) -> bool {
    match labels {
        Some(l) => label_value(l@, one_off_label()) == Some("True"@),
        None => false,
    }
}

/// The summary of an inspected container that has a state.
pub open spec fn info_of(c: InspectedContainer) -> (bool, ContainerStatus) {
    (labels_one_off(c.labels), status_of(c.state->0.status, c.state->0.exit_code))
}

/// Look up the text of a label.
fn get_label<'a>(labels: &'a StrMap<String>, k: &str) -> (r: Option<&'a String>)
    ensures
        match r {
            Some(v) => label_value(labels@, k@) == Some(v@),
            None => label_value(labels@, k@) is None,
        },
{
    labels.get(k)
}

impl ContainerInfo {
    /// Summarize an inspected container.  A container without a state
    /// cannot be summarized.
    pub fn new(info: &InspectedContainer) -> (r: Result<ContainerInfo, Error>)
        ensures
            match r {
                Ok(ci) => info.state is Some && ci@ == info_of(*info),
                Err(e) => info.state is None && e == Error::CouldNotGetRuntimeState,
            },
    {
        let is_one_off = match &info.labels {
            Some(labels) => match get_label(labels, "com.docker.compose.oneoff") {
                Some(v) => str_eq(v.as_str(), "True"),
                None => false,
            },
            None => false,
        };
        match &info.state {
            Some(st) => Ok(ContainerInfo { is_one_off, state: ContainerStatus::new(st.status, st.exit_code) }),
            None => Err(Error::CouldNotGetRuntimeState),
        }
    }

    /// Is this a one-off container created by `docker-compose run`?
    pub fn is_one_off(&self) -> (r: bool)
        ensures
            r == self@.0,
    {
        self.is_one_off
    }

    /// The current state of this container.
    pub fn state(&self) -> (r: ContainerStatus)
        ensures
            r == self@.1,
    {
        self.state
    }
}

/// Does an inspected container belong to the given project and target,
/// and name a service?
pub open spec fn belongs(c: InspectedContainer, project: Seq<char>, target: Seq<char>) -> bool {
    &&& c.labels is Some
    &&& label_value(c.labels->0@, project_label()) == Some(project)
    &&& label_value(c.labels->0@, target_label()) == Some(target)
    &&& label_value(c.labels->0@, service_label()) is Some
}

/// The service that a container belonging to a project is part of.
pub open spec fn service_of(c: InspectedContainer) -> Seq<char> {
    label_value(c.labels->0@, service_label())->0
}

/// Can this container be accounted for: it has labels, and if it belongs
/// to the project, a state?
pub open spec fn accountable(c: InspectedContainer, project: Seq<char>, target: Seq<char>) -> bool {
    c.labels is Some && (belongs(c, project, target) ==> c.state is Some)
}

/// The service name and summary of each container of `cs` that belongs to
/// the project, in order.
pub open spec fn runtime_entries(cs: Seq<InspectedContainer>, project: Seq<char>, target: Seq<char>) -> Seq<(Seq<char>, (bool, ContainerStatus))>
    decreases cs.len(),
{
    if cs.len() == 0 {
        Seq::empty()
    } else {
        let rest = runtime_entries(cs.drop_last(), project, target);
        if belongs(cs.last(), project, target) {
            rest.push((service_of(cs.last()), info_of(cs.last())))
        } else {
            rest
        }
    }
}

/// The summaries of the containers of service `s`, in order.
pub open spec fn containers_of(entries: Seq<(Seq<char>, (bool, ContainerStatus))>, s: Seq<char>) -> Seq<(bool, ContainerStatus)>
    decreases entries.len(),
{
    if entries.len() == 0 {
        Seq::empty()
    } else {
        let rest = containers_of(entries.drop_last(), s);
        if entries.last().0 == s {
            rest.push(entries.last().1)
        } else {
            rest
        }
    }
}

/// Service `s` has at least one container that is not a one-off, and all
/// such containers are running.
pub open spec fn service_running(entries: Seq<(Seq<char>, (bool, ContainerStatus))>, s: Seq<char>) -> bool {
    &&& exists|i: int| 0 <= i < entries.len() && #[trigger] entries[i].0 == s && !entries[i].1.0
    &&& forall|i: int| 0 <= i < entries.len() && #[trigger] entries[i].0 == s && !entries[i].1.0 ==> entries[i].1.1
        == ContainerStatus::Running
}

/// Everything we know about the running application, based on querying
/// Docker.
#[derive(Debug)]
pub struct RuntimeState {
    /// Each container of the project with the name of its service, in the
    /// order Docker listed them.
    entries: Vec<(String, ContainerInfo)>,
}

impl View for RuntimeState {
    type V = Seq<(Seq<char>, (bool, ContainerStatus))>;

    /// The containers, each with its service.
    closed spec fn view(&self) -> Seq<(Seq<char>, (bool, ContainerStatus))> {
        self.entries@.map_values(|e: (String, ContainerInfo)| (e.0@, e.1@))
    }
}

impl RuntimeState {
    /// Gather the containers of project `project` started for `target`
    /// from the inspection data of every container Docker knows of.
    /// A container without labels, or one of the project without a state,
    /// makes the whole query fail.
    pub fn from_containers(project: &str, target: &str, containers: &Vec<InspectedContainer>) -> (r: Result<RuntimeState, Error>)
        ensures
            r is Ok <==> forall|i: int| 0 <= i < containers@.len() ==> accountable(#[trigger] containers@[i], project@, target@),
            match r {
                Ok(st) => st@ == runtime_entries(containers@, project@, target@),
                Err(e) => e == Error::CouldNotGetRuntimeState,
            },
    {
        let mut entries: Vec<(String, ContainerInfo)> = Vec::new();
        let mut i: usize = 0;
        while i < containers.len()
            invariant
                i <= containers@.len(),
                forall|j: int| 0 <= j < i ==> accountable(#[trigger] containers@[j], project@, target@),
                entries@.map_values(|e: (String, ContainerInfo)| (e.0@, e.1@)) == runtime_entries(
                    containers@.take(i as int),
                    project@,
                    target@,
                ),
            decreases containers@.len() - i,
        {
            let c = &containers[i];
            let ghost cs = containers@.take(i + 1);
            assert(cs.drop_last() =~= containers@.take(i as int));
            assert(cs.last() == containers@[i as int]);
            let ghost before = entries@.map_values(|e: (String, ContainerInfo)| (e.0@, e.1@));
            match &c.labels {
                None => {
                    return Err(Error::CouldNotGetRuntimeState);
                },
                Some(labels) => {
                    let p = get_label(labels, "com.docker.compose.project");
                    let t = get_label(labels, "io.fdy.cage.target");
                    let s = get_label(labels, "com.docker.compose.service");
                    let mine = match (p, t) {
                        (Some(pv), Some(tv)) => str_eq(pv.as_str(), project) && str_eq(tv.as_str(), target),
                        _ => false,
                    };
                    if mine {
                        if let Some(sv) = s {
                            let info = match ContainerInfo::new(c) {
                                Ok(ci) => ci,
                                Err(e) => {
                                    return Err(e);
                                },
                            };
                            entries.push((copy_str(sv.as_str()), info));
                            assert(entries@.map_values(|e: (String, ContainerInfo)| (e.0@, e.1@)) =~= before.push(
                                (sv@, info@),
                            ));
                        }
                    }
                },
            }
            i = i + 1;
        }
        assert(containers@.take(containers@.len() as int) =~= containers@);
        Ok(RuntimeState { entries })
    }

    /// The containers associated with a service, in order: none when
    /// Docker knows of none.
    pub fn service_containers(&self, service_name: &str) -> (r: Vec<ContainerInfo>)
        ensures
            r@.map_values(|c: ContainerInfo| c@) == containers_of(self@, service_name@),
    {
        let mut out: Vec<ContainerInfo> = Vec::new();
        let mut i: usize = 0;
        while i < self.entries.len()
            invariant
                i <= self.entries@.len(),
                out@.map_values(|c: ContainerInfo| c@) == containers_of(self@.take(i as int), service_name@),
            decreases self.entries@.len() - i,
        {
            let ghost es = self@.take(i + 1);
            assert(es.drop_last() =~= self@.take(i as int));
            let ghost before = out@.map_values(|c: ContainerInfo| c@);
            if str_eq(self.entries[i].0.as_str(), service_name) {
                out.push(self.entries[i].1);
                assert(out@.map_values(|c: ContainerInfo| c@) =~= before.push(self.entries@[i as int].1@));
            }
            i = i + 1;
        }
        assert(self@.take(self@.len() as int) =~= self@);
        out
    }

    /// Is every service of `pod` running: does each have a container that
    /// is not a one-off, with all such containers running?
    pub fn all_services_in_pod_are_running(&self, pod: &Pod) -> (r: bool)
        ensures
            r == forall|i: int| 0 <= i < pod.service_names_view().len() ==> service_running(self@, #[trigger] pod.service_names_view()[i]),
    {
        let names = pod.service_names();
        let mut k: usize = 0;
        while k < names.len()
            invariant
                names.deep_view() == pod.service_names_view(),
                k <= names.len(),
                forall|i: int| 0 <= i < k ==> service_running(self@, #[trigger] pod.service_names_view()[i]),
            decreases names.len() - k,
        {
            let ghost s = names.deep_view()[k as int];
            let mut found = false;
            let mut all_running = true;
            let mut i: usize = 0;
            while i < self.entries.len()
                invariant
                    s == names.deep_view()[k as int],
                    names.deep_view() == pod.service_names_view(),
                    k < names.len(),
                    i <= self.entries@.len(),
                    found == exists|j: int| 0 <= j < i && #[trigger] self@[j].0 == s && !self@[j].1.0,
                    all_running == forall|j: int| 0 <= j < i && #[trigger] self@[j].0 == s && !self@[j].1.0 ==> self@[j].1.1 == ContainerStatus::Running,
                decreases self.entries@.len() - i,
            {
                assert(self@[i as int] == (self.entries@[i as int].0@, self.entries@[i as int].1@));
                assert(names[k as int]@ == s);
                let same = str_eq(self.entries[i].0.as_str(), names[k].as_str());
                let one_off = self.entries[i].1.is_one_off;
                let running = self.entries[i].1.state == ContainerStatus::Running;
                assert(self@[i as int].1.0 == one_off);
                assert(running == (self@[i as int].1.1 == ContainerStatus::Running));
                let ghost old_found = found;
                let ghost old_all = all_running;
                if same && !one_off {
                    found = true;
                    if !running {
                        all_running = false;
                    }
                }
                assert(found == exists|j: int| 0 <= j < i + 1 && #[trigger] self@[j].0 == s && !self@[j].1.0) by {
                    if same && !one_off {
                        assert(self@[i as int].0 == s);
                    }
                    if exists|j: int| 0 <= j < i + 1 && #[trigger] self@[j].0 == s && !self@[j].1.0 {
                        let j = choose|j: int| 0 <= j < i + 1 && #[trigger] self@[j].0 == s && !self@[j].1.0;
                        if j < i {
                            assert(old_found);
                        }
                    }
                }
                assert(all_running == forall|j: int| 0 <= j < i + 1 && #[trigger] self@[j].0 == s && !self@[j].1.0 ==> self@[j].1.1 == ContainerStatus::Running) by {
                    if !all_running {
                        if old_all {
                            assert(self@[i as int].0 == s && !self@[i as int].1.0 && self@[i as int].1.1 != ContainerStatus::Running);
                        } else {
                            let j = choose|j: int| !(0 <= j < i && #[trigger] self@[j].0 == s && !self@[j].1.0 ==> self@[j].1.1 == ContainerStatus::Running);
                            assert(0 <= j < i + 1);
                        }
                    }
                }
                i = i + 1;
            }
            if !found || !all_running {
                assert(!service_running(self@, pod.service_names_view()[k as int]));
                return false;
            }
            k = k + 1;
        }
        true
    }
}


/// Should pod `pod` be running, in the target named `target`, but is not:
/// it is an enabled service pod not all of whose services are running.
pub open spec fn pod_should_run_but_does_not(pod: Pod, target: Seq<char>, entries: Seq<(Seq<char>, (bool, ContainerStatus))>) -> bool {
    &&& pod_enabled(pod, target)
    &&& pod.config_view().pod_type.unwrap_or(PodType::Service) == PodType::Service
    &&& !(forall|i: int| 0 <= i < pod.service_names_view().len() ==> service_running(entries, #[trigger] pod.service_names_view()[i]))
}

/// The positions of the pods among `pods` that should be running but are
/// not, in order.
pub open spec fn idle_pods(pods: Seq<Pod>, target: Seq<char>, entries: Seq<(Seq<char>, (bool, ContainerStatus))>) -> Seq<int>
    decreases pods.len(),
{
    if pods.len() == 0 {
        Seq::empty()
    } else if pod_should_run_but_does_not(pods.last(), target, entries) {
        idle_pods(pods.drop_last(), target, entries).push(pods.len() - 1)
    } else {
        idle_pods(pods.drop_last(), target, entries)
    }
}

impl Project {
    /// The pods that are enabled services in the current target but are
    /// not fully running according to `state`, by position, in order.
    pub fn enabled_pods_that_are_not_running(&self, state: &RuntimeState) -> (r: Vec<usize>)
        ensures
            r@.map_values(|i: usize| i as int) == idle_pods(self.pods_view(), self.current_target_view(), state@),
    {
        let mut out: Vec<usize> = Vec::new();
        let mut i: usize = 0;
        while i < self.pods().len()
            invariant
                i <= self.pods_view().len(),
                out@.map_values(|i: usize| i as int) == idle_pods(self.pods_view().take(i as int), self.current_target_view(), state@),
            decreases self.pods_view().len() - i,
        {
            let ghost ps = self.pods_view().take(i + 1);
            assert(ps.drop_last() =~= self.pods_view().take(i as int));
            assert(ps.last() == self.pods_view()[i as int]);
            let pod = &self.pods()[i];
            let ghost before = out@.map_values(|i: usize| i as int);
            if pod.enabled_in(self.current_target()) && pod.pod_type() == PodType::Service
                && !state.all_services_in_pod_are_running(pod) {
                out.push(i);
                assert(out@.map_values(|i: usize| i as int) =~= before.push(i as int));
            }
            i = i + 1;
        }
        assert(self.pods_view().take(self.pods_view().len() as int) =~= self.pods_view());
        out
    }
}

/// A pod is not running while one of its services has a container, not a
/// one-off, in any state but running: one running container does not make
/// up for a stopped one.
pub proof fn lemma_stopped_container_stops_pod(st: RuntimeState, pod: Pod, k: int, c: int)
    requires
        0 <= k < pod.service_names_view().len(),
        0 <= c < st@.len(),
        st@[c].0 == pod.service_names_view()[k],
        !st@[c].1.0,
        st@[c].1.1 != ContainerStatus::Running,
    ensures
        !(forall|i: int| 0 <= i < pod.service_names_view().len() ==> service_running(st@, #[trigger] pod.service_names_view()[i])),
{
    assert(!service_running(st@, pod.service_names_view()[k]));
}

/// A pod is not running while one of its services has no container that is
/// not a one-off: one-off containers do not count.
pub proof fn lemma_service_without_container_stops_pod(st: RuntimeState, pod: Pod, k: int)
    requires
        0 <= k < pod.service_names_view().len(),
        forall|c: int| 0 <= c < st@.len() && #[trigger] st@[c].0 == pod.service_names_view()[k] ==> st@[c].1.0,
    ensures
        !(forall|i: int| 0 <= i < pod.service_names_view().len() ==> service_running(st@, #[trigger] pod.service_names_view()[i])),
{
    assert(!service_running(st@, pod.service_names_view()[k]));
}

/// A pod whose every service has a container that is not a one-off, with
/// all such containers running, is running, whatever its one-off
/// containers are doing.
pub proof fn lemma_running_containers_run_pod(st: RuntimeState, pod: Pod)
    requires
        forall|k: int| 0 <= k < pod.service_names_view().len() ==> exists|c: int| 0 <= c < st@.len()
            && #[trigger] st@[c].0 == #[trigger] pod.service_names_view()[k] && !st@[c].1.0,
        forall|c: int, k: int| 0 <= c < st@.len() && 0 <= k < pod.service_names_view().len()
            && #[trigger] st@[c].0 == #[trigger] pod.service_names_view()[k] && !st@[c].1.0
            ==> st@[c].1.1 == ContainerStatus::Running,
    ensures
        forall|i: int| 0 <= i < pod.service_names_view().len() ==> service_running(st@, #[trigger] pod.service_names_view()[i]),
{
    assert forall|i: int| 0 <= i < pod.service_names_view().len() implies service_running(st@, #[trigger] pod.service_names_view()[i]) by {
        let c = choose|c: int| 0 <= c < st@.len() && #[trigger] st@[c].0 == pod.service_names_view()[i] && !st@[c].1.0;
        assert(st@[c].0 == pod.service_names_view()[i]);
    }
}

} // verus!
