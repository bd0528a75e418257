//! The lines of `status`: one per service, with the state of each of its
//! containers, its ports with known host bindings, and the source trees
//! mounted into it.

use vstd::prelude::*;

use crate::compose::{host_string_spec, Service};
use crate::runtime_state::{containers_of, ContainerStatus, RuntimeState};
use crate::text::{copy_str, copy_strings};

verus! {

/// The word shown for a container's state.
pub open spec fn status_word(s: ContainerStatus) -> Seq<char> {
    match s {
        ContainerStatus::Running => "RUNNING"@,
        ContainerStatus::Done => "DONE"@,
        ContainerStatus::Exited(_) => "EXITED"@,
        _ => "OTHER"@,
    }
}

/// The word shown for a container's state.
pub fn status_word_of(s: ContainerStatus) -> (r: &'static str)
    ensures
        r@ == status_word(s),
{
    match s {
        ContainerStatus::Running => "RUNNING",
        ContainerStatus::Done => "DONE",
        ContainerStatus::Exited(_) => "EXITED",
        _ => "OTHER",
    }
}

/// One line of `status`, before it is laid out and coloured.
#[derive(Debug, Clone)]
pub struct StatusLine {
    /// Is this the last service of its pod?
    pub last: bool,
    /// The service's name.
    pub name: String,
    /// A word for each of the service's containers, in order.
    pub states: Vec<String>,
    /// The host side of each port mapping that has one, in order.
    pub ports: Vec<String>,
    /// The aliases of the source trees mounted into the service.
    pub mounted: Vec<String>,
}

/// The host sides of the port mappings that have one, in order.
pub open spec fn host_strings(ports: Seq<crate::compose::PortMapping>) -> Seq<Seq<char>>
    decreases ports.len(),
{
    if ports.len() == 0 {
        Seq::empty()
    } else {
        match host_string_spec(ports.last()) {
            Some(h) => host_strings(ports.drop_last()).push(h),
            None => host_strings(ports.drop_last()),
        }
    }
}

/// The status line of service `name`, described by `service`, given the
/// runtime state and the aliases of the source trees that are mounted
/// into it and available locally.
pub fn service_status(state: &RuntimeState, name: &str, service: &Service, last: bool, mounted: &Vec<String>) -> (r: StatusLine)
    ensures
        r.last == last,
        r.name@ == name@,
        r.states.deep_view() == containers_of(state@, name@).map_values(|c: (bool, ContainerStatus)| status_word(c.1)),
        r.ports.deep_view() == host_strings(service.ports@),
        r.mounted.deep_view() == mounted.deep_view(),
{
    let containers = state.service_containers(name);
    let ghost cv = containers@.map_values(|c: crate::runtime_state::ContainerInfo| c@);
    let mut states: Vec<String> = Vec::new();
    let mut i: usize = 0;
    while i < containers.len()
        invariant
            cv == containers@.map_values(|c: crate::runtime_state::ContainerInfo| c@),
            i <= containers@.len(),
            states.deep_view() == cv.take(i as int).map_values(|c: (bool, ContainerStatus)| status_word(c.1)),
        decreases containers@.len() - i,
    {
        let w = status_word_of(containers[i].state());
        let ghost before = states.deep_view();
        states.push(copy_str(w));
        assert(states.deep_view() =~= before.push(status_word(cv[i as int].1)));
        assert(cv.take(i + 1).map_values(|c: (bool, ContainerStatus)| status_word(c.1)) =~= before.push(
            status_word(cv[i as int].1),
        ));
        i = i + 1;
    }
    assert(cv.take(containers@.len() as int) =~= cv);
    let mut ports: Vec<String> = Vec::new();
    let mut j: usize = 0;
    while j < service.ports.len()
        invariant
            j <= service.ports@.len(),
            ports.deep_view() == host_strings(service.ports@.take(j as int)),
        decreases service.ports@.len() - j,
    {
        assert(service.ports@.take(j + 1).drop_last() =~= service.ports@.take(j as int));
        assert(service.ports@.take(j + 1).last() == service.ports@[j as int]);
        let ghost before = ports.deep_view();
        match service.ports[j].host_string() {
            Some(h) => {
                let ghost hv = h@;
                ports.push(h);
                assert(ports.deep_view() =~= before.push(hv));
            },
            None => {},
        }
        j = j + 1;
    }
    assert(service.ports@.take(service.ports@.len() as int) =~= service.ports@);
    StatusLine { last, name: copy_str(name), states, ports, mounted: copy_strings(mounted) }
}

} // verus!
