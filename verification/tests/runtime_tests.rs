use cage::runtime_state::{ContainerInfo, ContainerStatus, DockerStatus, InspectedContainer, InspectedState, RuntimeState};
use cage::strmap::StrMap;
use cage::status::{service_status, status_word_of};
use cage::compose::{PortMapping, Service};

fn container(labels: &[(&str, &str)], status: Option<DockerStatus>, code: Option<i64>) -> InspectedContainer {
    let mut l = StrMap::new();
    for (k, v) in labels {
        l.insert(k.to_string(), v.to_string());
    }
    InspectedContainer { labels: Some(l), state: Some(InspectedState { status, exit_code: code }) }
}

fn ours(service: &str) -> Vec<(&'static str, String)> {
    vec![
        ("com.docker.compose.project", "hello".to_owned()),
        ("io.fdy.cage.target", "development".to_owned()),
        ("com.docker.compose.service", service.to_owned()),
    ]
}

fn labelled(service: &str, extra: &[(&str, &str)], status: DockerStatus, code: Option<i64>) -> InspectedContainer {
    let base = ours(service);
    let mut all: Vec<(&str, &str)> = base.iter().map(|(k, v)| (*k, v.as_str())).collect();
    all.extend_from_slice(extra);
    container(&all, Some(status), code)
}

#[test]
fn container_status_summarizes_docker_state() {
    assert_eq!(ContainerStatus::new(Some(DockerStatus::Running), None), ContainerStatus::Running);
    assert_eq!(ContainerStatus::new(Some(DockerStatus::Exited), Some(0)), ContainerStatus::Done);
    assert_eq!(ContainerStatus::new(Some(DockerStatus::Exited), None), ContainerStatus::Done);
    assert_eq!(ContainerStatus::new(Some(DockerStatus::Exited), Some(3)), ContainerStatus::Exited(3));
    assert_eq!(ContainerStatus::new(Some(DockerStatus::Dead), Some(3)), ContainerStatus::Other);
    assert_eq!(ContainerStatus::new(None, None), ContainerStatus::Other);
    assert_eq!(ContainerStatus::new(Some(DockerStatus::Paused), None), ContainerStatus::Paused);
}

#[test]
fn containers_are_grouped_by_service() {
    let cs = vec![
        labelled("web", &[], DockerStatus::Running, None),
        labelled("web", &[("com.docker.compose.oneoff", "True")], DockerStatus::Exited, Some(1)),
        container(&[("com.docker.compose.project", "other")], None, None),
        labelled("db", &[], DockerStatus::Exited, Some(0)),
    ];
    let state = RuntimeState::from_containers("hello", "development", &cs).unwrap();
    let web = state.service_containers("web");
    assert_eq!(web.len(), 2);
    assert!(!web[0].is_one_off());
    assert_eq!(web[0].state(), ContainerStatus::Running);
    assert!(web[1].is_one_off());
    assert_eq!(web[1].state(), ContainerStatus::Exited(1));
    let db = state.service_containers("db");
    assert_eq!(db.len(), 1);
    assert_eq!(db[0].state(), ContainerStatus::Done);
    assert!(state.service_containers("nosuch").is_empty());
}

#[test]
fn containers_of_other_targets_are_ignored() {
    let mut c = labelled("web", &[], DockerStatus::Running, None);
    c.labels.as_mut().unwrap().insert("io.fdy.cage.target".to_owned(), "test".to_owned());
    let state = RuntimeState::from_containers("hello", "development", &vec![c]).unwrap();
    assert!(state.service_containers("web").is_empty());
}

#[test]
fn containers_without_labels_or_state_fail_the_query() {
    let c = InspectedContainer { labels: None, state: None };
    assert!(RuntimeState::from_containers("hello", "development", &vec![c]).is_err());
    let mut c = labelled("web", &[], DockerStatus::Running, None);
    c.state = None;
    assert!(RuntimeState::from_containers("hello", "development", &vec![c]).is_err());
    assert!(ContainerInfo::new(&InspectedContainer { labels: None, state: None }).is_err());
}

#[test]
fn service_status_lists_container_states_and_ports() {
    let cs = vec![
        labelled("web", &[], DockerStatus::Running, None),
        labelled("web", &[], DockerStatus::Exited, Some(2)),
        labelled("web", &[], DockerStatus::Created, None),
        labelled("web", &[], DockerStatus::Exited, Some(0)),
    ];
    let state = RuntimeState::from_containers("hello", "development", &cs).unwrap();
    let mut svc = Service::empty();
    svc.ports.push(PortMapping { host_address: Some("127.0.0.1".to_owned()), host_ports: Some("3000".to_owned()) });
    svc.ports.push(PortMapping { host_address: None, host_ports: None });
    svc.ports.push(PortMapping { host_address: None, host_ports: Some("80".to_owned()) });
    let line = service_status(&state, "web", &svc, true, &vec!["app".to_owned()]);
    assert!(line.last);
    assert_eq!(line.states, vec!["RUNNING", "EXITED", "OTHER", "DONE"]);
    assert_eq!(line.ports, vec!["127.0.0.1:3000", "80"]);
    assert_eq!(line.mounted, vec!["app"]);
    assert_eq!(status_word_of(ContainerStatus::Paused), "OTHER");
}
