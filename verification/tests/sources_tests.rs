use cage::compose::{Build, Context, File, Service};
use cage::mounts::mount_sources;
use cage::ovr::Override;
use cage::pod::{Pod, PodConfig};
use cage::sources::{clone_args, human_alias, Sources};
use cage::strmap::StrMap;
use cage::transform::Operation;

fn git_service(url: &str, labels: &[(&str, &str)]) -> Service {
    let mut svc = Service::empty();
    svc.build = Some(Build { context: Context::GitUrl(url.to_owned()) });
    for (k, v) in labels {
        svc.labels.insert(k.to_string(), v.to_string());
    }
    svc
}

fn one_file(services: Vec<(&str, Service)>) -> File {
    let mut f = File::empty();
    for (name, svc) in services {
        f.services.insert(name.to_owned(), svc);
    }
    f
}

fn three_targets() -> Vec<Override> {
    vec![Override::new("development"), Override::new("production"), Override::new("test")]
}

fn simple_pod(name: &str, base: File) -> Pod {
    Pod::new("pods", name, &three_targets(), PodConfig::default(), base, vec![File::empty(), File::empty(), File::empty()])
        .unwrap()
}

fn hello_pods() -> Vec<Pod> {
    vec![simple_pod(
        "frontend",
        one_file(vec![
            ("web", git_service("https://github.com/docker/dockercloud-hello-world.git", &[])),
            ("proxy", git_service("https://github.com/faradayio/node_hello.git", &[("io.fdy.cage.shell", "/bin/sh")])),
        ]),
    )]
}

fn coffee_libs() -> StrMap<Context> {
    let mut libs = StrMap::new();
    libs.insert("coffee_rails".to_owned(), Context::GitUrl("https://github.com/rails/coffee-rails.git".to_owned()));
    libs
}

#[test]
fn are_loaded_with_projects() {
    let sources = Sources::for_pods(&hello_pods(), &StrMap::new()).unwrap();
    assert_eq!(sources.len(), 2);
    let hello = sources.find_by_alias("dockercloud-hello-world").expect("should include dockercloud-hello-world");
    assert_eq!(hello.alias(), "dockercloud-hello-world");
    assert_eq!(hello.context().text(), "https://github.com/docker/dockercloud-hello-world.git");
    assert!(hello.context().git_url().is_some());
    assert_eq!(hello.path("examples/hello/src", "examples/hello/pods"), "examples/hello/src/dockercloud-hello-world");
}

#[test]
fn are_loaded_from_config_libraries() {
    let sources = Sources::for_pods(&hello_pods(), &coffee_libs()).unwrap();
    let lib = sources.find_by_lib_key("coffee_rails").expect("libs should include coffee_rails");
    assert_eq!(lib.alias(), "coffee-rails");
    assert_eq!(lib.context().text(), "https://github.com/rails/coffee-rails.git");
    assert_eq!(lib.path("examples/rails_hello/src", "examples/rails_hello/pods"), "examples/rails_hello/src/coffee-rails");
    assert!(sources.find_by_lib_key("sass_rails").is_none());
}

#[test]
fn can_be_cloned() {
    let sources = Sources::for_pods(&hello_pods(), &StrMap::new()).unwrap();
    let repo = sources.find_by_alias("dockercloud-hello-world").unwrap();
    let dest = repo.path("out/src", "pods");
    assert_eq!(
        repo.clone_command(&dest).unwrap(),
        vec![
            "git".to_owned(),
            "clone".to_owned(),
            "https://github.com/docker/dockercloud-hello-world.git".to_owned(),
            "out/src/dockercloud-hello-world".to_owned(),
        ]
    );
}

#[test]
fn a_local_directory_cannot_be_cloned() {
    let mut sources = Sources::new();
    sources.add(&Context::Dir("../node_hello".to_owned())).unwrap();
    let repo = sources.find_by_alias("node_hello").unwrap();
    assert_eq!(repo.path("src", "/proj/pods"), "/proj/pods/../node_hello");
    assert!(repo.clone_command("x").is_err());
}

#[test]
fn clone_args_handles_branch() {
    let url = "https://github.com/faradayio/rails_hello.git";
    assert_eq!(clone_args(url), vec![url.to_owned()]);
    assert_eq!(
        clone_args("https://github.com/faradayio/rails_hello.git#dev"),
        vec!["-b".to_owned(), "dev".to_owned(), url.to_owned()]
    );
}

#[test]
fn aliases_come_from_the_last_path_component() {
    assert_eq!(human_alias(&Context::GitUrl("https://github.com/x/foo.git#dev".to_owned())).unwrap(), "foo");
    assert_eq!(human_alias(&Context::Dir("a/b/".to_owned())).unwrap(), "b");
    assert!(human_alias(&Context::Dir("..".to_owned())).is_err());
}

#[test]
fn two_repositories_with_one_alias_clash() {
    let mut sources = Sources::new();
    sources.add(&Context::GitUrl("https://github.com/a/app.git".to_owned())).unwrap();
    assert!(sources.add(&Context::GitUrl("https://github.com/a/app.git".to_owned())).is_ok());
    assert_eq!(sources.len(), 1);
    assert!(sources.add(&Context::GitUrl("https://github.com/b/app.git".to_owned())).is_err());
}

#[test]
fn src_dir_returns_the_source_directory_for_this_service() {
    let db = Service::empty();
    assert_eq!(db.source_mount_dir(), "/app");
    let web = git_service("https://github.com/faradayio/rails_hello.git", &[("io.fdy.cage.srcdir", "/usr/src/app")]);
    assert_eq!(web.source_mount_dir(), "/usr/src/app");
}

#[test]
fn build_context_can_specify_a_subdirectory() {
    let db = Service::empty();
    assert_eq!(db.repository_subdirectory(), None);
    let web = git_service("https://github.com/faradayio/rails_hello.git#master:myfolder", &[]);
    assert_eq!(web.repository_subdirectory(), Some("myfolder".to_string()));
}

#[test]
fn shell_returns_preferred_shell_for_this_service() {
    let pods = hello_pods();
    let merged = pods[0].file();
    assert_eq!(merged.services.get("web").unwrap().shell(), "sh");
    assert_eq!(merged.services.get("proxy").unwrap().shell(), "/bin/sh");
}

#[test]
fn adds_a_volume_with_a_subdirectory() {
    let web = git_service(
        "https://github.com/faradayio/rails_hello.git#master:myfolder",
        &[("io.fdy.cage.srcdir", "/usr/src/app")],
    );
    let mut file = one_file(vec![("web", web)]);
    let pods = vec![simple_pod("frontend", file.clone())];
    let mut sources = Sources::for_pods(&pods, &StrMap::new()).unwrap();
    sources.set_mounted_at(0, true);
    let avail = vec!["rails_hello".to_owned()];
    mount_sources(&mut file, Operation::Output, &sources, &avail, "/proj/src", "/proj/pods").unwrap();
    let web = file.services.get("web").unwrap();
    let volume = &web.volumes[0];
    assert!(volume.host.as_ref().unwrap().ends_with("src/rails_hello/myfolder"));
    assert_eq!(volume.container, "/usr/src/app");
}

#[test]
fn update_for_output_mounts_cloned_source() {
    let mut file = one_file(vec![("web", git_service("https://github.com/docker/dockercloud-hello-world.git", &[]))]);
    let mut sources = Sources::for_pods(&hello_pods(), &StrMap::new()).unwrap();
    for i in 0..sources.len() {
        sources.set_mounted_at(i, true);
    }
    let avail = vec!["dockercloud-hello-world".to_owned()];
    mount_sources(&mut file, Operation::Output, &sources, &avail, "/proj/src", "/proj/pods").unwrap();
    let web = file.services.get("web").unwrap();
    match &web.build.as_ref().unwrap().context {
        Context::Dir(d) => assert_eq!(d, "/proj/src/dockercloud-hello-world"),
        Context::GitUrl(_) => panic!("build should point at the local copy"),
    }
    let mount = web.volumes.last().expect("expected web service to have volumes");
    assert_eq!(mount.host.as_deref(), Some("/proj/src/dockercloud-hello-world"));
    assert_eq!(mount.container, "/app");
}

#[test]
fn sources_are_left_alone_when_not_writing_output() {
    let mut file = one_file(vec![("web", git_service("https://github.com/docker/dockercloud-hello-world.git", &[]))]);
    let mut sources = Sources::for_pods(&hello_pods(), &StrMap::new()).unwrap();
    sources.set_mounted_at(0, true);
    let avail = vec!["dockercloud-hello-world".to_owned()];
    mount_sources(&mut file, Operation::Export, &sources, &avail, "/proj/src", "/proj/pods").unwrap();
    assert!(file.services.get("web").unwrap().volumes.is_empty());
}

#[test]
fn sources_are_found_by_context() {
    let sources = Sources::for_pods(&hello_pods(), &StrMap::new()).unwrap();
    let ctx = Context::GitUrl("https://github.com/faradayio/node_hello.git".to_owned());
    assert_eq!(sources.find_by_context(&ctx).unwrap().alias(), "node_hello");
    assert!(sources.find_by_context(&Context::Dir("node_hello".to_owned())).is_none());
}

#[test]
fn status_shows_trees_that_are_mounted_and_local() {
    let web = git_service("https://github.com/docker/dockercloud-hello-world.git", &[]);
    let mut sources = Sources::for_pods(&hello_pods(), &StrMap::new()).unwrap();
    for i in 0..sources.len() {
        sources.set_mounted_at(i, true);
    }
    let local = vec!["dockercloud-hello-world".to_owned()];
    assert_eq!(web.mounted_aliases(&sources, &local).unwrap(), vec!["dockercloud-hello-world".to_owned()]);
    assert!(web.mounted_aliases(&sources, &vec![]).unwrap().is_empty());
    for i in 0..sources.len() {
        sources.set_mounted_at(i, false);
    }
    assert!(web.mounted_aliases(&sources, &local).unwrap().is_empty());
}
