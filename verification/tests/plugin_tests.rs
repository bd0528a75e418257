use cage::compose::{Build, Context, File, Service, VolumeMount};
use cage::config;
use cage::default_tags::{read_image, DefaultTags};
use cage::errors::Error;
use cage::git_url::GitUrl;
use cage::hook::HookManager;
use cage::ovr::Override;
use cage::paths::default_dir;
use cage::secrets::{SecretsConfig, TargetSecrets};
use cage::strmap::StrMap;
use cage::transform::{
    absolute_volumes,
    add_host_entries, add_labels, apply_default_tags, host_dns_address, remove_build, AddressInfo, InterfaceInfo,
    Operation,
};
use cage::vault::{apply_tokens, token_display_name, vault_vars, MockVault, VaultConfig};

fn web_file() -> File {
    let mut web = Service::empty();
    web.build = Some(Build { context: Context::GitUrl("https://github.com/faradayio/rails_hello.git".to_owned()) });
    web.image = Some("alpine".to_owned());
    let mut f = File::empty();
    f.services.insert("web".to_owned(), web);
    f
}

fn tag_lines() -> Vec<String> {
    vec![
        "example.com/app1:30".to_owned(),
        "alpine:4.3".to_owned(),
        "busybox@sha256:cbbf2f9a99b47fc460d422812b6a5adff7dfee951d8fa2e4a98caa0382cfbdbf".to_owned(),
    ]
}

#[test]
fn defaults_tags_using_data_from_file() {
    let default_tags = DefaultTags::read(&tag_lines()).unwrap();
    let image = |s: &str| read_image(s).unwrap();
    assert_eq!(default_tags.default_for(&image("alpine")), image("alpine:4.3").text);
    assert_eq!(default_tags.default_for(&image("alpine:4.2")), image("alpine:4.2").text);
    assert_eq!(
        default_tags.default_for(&image("busybox")),
        image("busybox@sha256:cbbf2f9a99b47fc460d422812b6a5adff7dfee951d8fa2e4a98caa0382cfbdbf").text
    );
    assert_eq!(default_tags.default_for(&image("alpine:latest")), image("alpine:latest").text);
}

#[test]
fn unversioned_default_tags_are_refused() {
    assert!(DefaultTags::read(&vec!["alpine".to_owned()]).is_err());
}

#[test]
fn default_tags_are_applied_to_service_images() {
    let tags = DefaultTags::read(&tag_lines()).unwrap();
    let mut file = web_file();
    apply_default_tags(&mut file, Some(&tags)).unwrap();
    assert_eq!(file.services.get("web").unwrap().image.as_deref(), Some("alpine:4.3"));
    let mut untouched = web_file();
    apply_default_tags(&mut untouched, None).unwrap();
    assert_eq!(untouched.services.get("web").unwrap().image.as_deref(), Some("alpine"));
}

#[test]
fn removes_build_for_most_commands() {
    let mut file = web_file();
    remove_build(&mut file, "up");
    assert!(file.services.get("web").unwrap().build.is_none());
}

#[test]
fn leaves_build_in_when_building() {
    let mut file = web_file();
    remove_build(&mut file, "build");
    assert!(file.services.get("web").unwrap().build.is_some());
}

#[test]
fn labels_name_the_target_and_pod() {
    let mut file = web_file();
    add_labels(&mut file, "production", "frontend");
    let web = file.services.get("web").unwrap();
    assert_eq!(web.labels.get("io.fdy.cage.target").map(|s| s.as_str()), Some("production"));
    assert_eq!(web.labels.get("io.fdy.cage.pod").map(|s| s.as_str()), Some("frontend"));
}

#[test]
fn host_dns_uses_the_bridge_address_on_linux() {
    let bridge = InterfaceInfo {
        ifname: Some("docker0".to_owned()),
        addr_info: vec![
            AddressInfo { family: Some("inet6".to_owned()), local: Some("fe80::1".to_owned()) },
            AddressInfo { family: Some("inet".to_owned()), local: Some("172.17.0.1".to_owned()) },
        ],
    };
    let other = InterfaceInfo { ifname: Some("lo".to_owned()), addr_info: vec![] };
    let all = vec![other, bridge.clone()];
    let found = InterfaceInfo::find(&all, "docker0").cloned();
    assert_eq!(found.as_ref().unwrap().ipv4_address().as_deref(), Some("172.17.0.1"));
    let addr = host_dns_address(Operation::Output, true, &Ok(found)).unwrap();
    assert_eq!(addr, "172.17.0.1");
    assert_eq!(host_dns_address(Operation::Export, true, &Ok(Some(bridge.clone()))), None);
    assert_eq!(host_dns_address(Operation::Output, false, &Ok(Some(bridge))), None);
    let mut file = web_file();
    add_host_entries(&mut file, &addr);
    let hosts = &file.services.get("web").unwrap().extra_hosts;
    assert_eq!(hosts.len(), 1);
    assert_eq!(hosts[0].host, "host.docker.internal");
    assert_eq!(hosts[0].address, "172.17.0.1");
}

fn vault_config() -> VaultConfig {
    let mut extra = StrMap::new();
    extra.insert("VAULT_ENV".to_owned(), "$TARGET".to_owned());
    let mut web = StrMap::new();
    web.insert("web".to_owned(), vec!["$PROJECT-$TARGET-$POD-$SERVICE".to_owned(), "$PROJECT-$TARGET-ssl".to_owned()]);
    let mut pods = StrMap::new();
    pods.insert("frontend".to_owned(), web);
    VaultConfig {
        enable_in_targets: Some(vec!["development".to_owned(), "production".to_owned()]),
        extra_environment: extra,
        default_ttl: 2592000,
        default_policies: vec!["$PROJECT-$TARGET".to_owned()],
        pods,
    }
}

/// Fill in each `$NAME` of `raw` from `vars` (the names here never prefix
/// one another).
fn fill_in(raw: &str, vars: &StrMap<String>) -> String {
    let mut out = raw.to_owned();
    for i in 0..vars.len() {
        let (k, v) = vars.entry(i);
        out = out.replace(&format!("${}", k), v);
    }
    out
}

#[test]
fn interpolates_policies() {
    let config = vault_config();
    let production = Override::new("production");
    let mut file = web_file();
    let requests = config.token_requests("vault_integration", &production, "frontend", &file);
    assert_eq!(requests.len(), 1);
    let req = &requests[0];
    assert_eq!(req.service, "web");
    let env = vault_vars("vault_integration", production.name(), "frontend", &req.service);
    assert_eq!(env.len(), 4);
    assert_eq!(env.get("SERVICE").map(|v| v.as_str()), Some("web"));
    let policies: Vec<String> = req.policies.iter().map(|p| fill_in(p, &env)).collect();

    let mut vault = MockVault::new();
    let token = vault.generate_token(&req.display_name, policies, req.ttl);
    assert_eq!(token, "fake_token");

    let mut extra = StrMap::new();
    for i in 0..config.extra_environment.len() {
        let (k, v) = config.extra_environment.entry(i);
        extra.insert(k.clone(), fill_in(v, &env));
    }
    apply_tokens(&mut file, vault.addr(), &vec![(token, extra)]);
    let web = file.services.get("web").unwrap();
    assert_eq!(web.environment.get("VAULT_ADDR").map(|s| s.as_str()), Some("http://example.com:8200/"));
    assert_eq!(web.environment.get("VAULT_TOKEN").map(|s| s.as_str()), Some("fake_token"));
    assert_eq!(web.environment.get("VAULT_ENV").map(|s| s.as_str()), Some("production"));

    let calls = vault.calls();
    assert_eq!(calls.len(), 1);
    let (display_name, policies, ttl) = &calls[0];
    assert_eq!(display_name, "vault_integration_production_frontend_web");
    assert_eq!(
        policies,
        &[
            "vault_integration-production".to_owned(),
            "vault_integration-production-frontend-web".to_owned(),
            "vault_integration-production-ssl".to_owned()
        ]
    );
    assert_eq!(*ttl, 2592000);
}

#[test]
fn only_applied_in_specified_targets() {
    let config = vault_config();
    let requests = config.token_requests("vault_integration", &Override::new("test"), "frontend", &web_file());
    assert!(requests.is_empty());
}

#[test]
fn token_names_join_their_parts() {
    assert_eq!(token_display_name("p", "t", "pod", "svc"), "p_t_pod_svc");
}

#[test]
fn to_url_converts_git_urls_to_real_ones() {
    let regular_urls =
        ["git://github.com/docker/docker", "https://github.com/docker/docker.git", "http://github.com/docker/docker.git"];
    for url in regular_urls {
        assert_eq!(GitUrl::new(url).unwrap().to_url().unwrap(), url);
    }
    let fake_urls = [
        ("git@github.com:docker/docker.git", "git://git@github.com/docker/docker.git"),
        (
            "git@bitbucket.org:atlassianlabs/atlassian-docker.git",
            "git://git@bitbucket.org/atlassianlabs/atlassian-docker.git",
        ),
        ("github.com/docker/docker.git", "https://github.com/docker/docker.git"),
    ];
    for (fake_url, real_url) in fake_urls {
        assert_eq!(GitUrl::new(fake_url).unwrap().to_url().unwrap(), real_url);
    }
    assert!(GitUrl::new("local/path.git").is_err());
}

#[test]
fn semver_behaves_as_expected() {
    let examples = [("0.2.2", false), ("0.2.3", true), ("0.2.4", true), ("0.3.0", false)];
    for (version, expected_to_match) in examples {
        assert_eq!(config::check_config_version("dummy.yml", Some("0.2.3"), version).is_ok(), expected_to_match);
    }
}

#[test]
fn check_config_version() {
    assert!(config::check_config_version("dummy.yml", Some("0.3.0"), "0.3.0").is_ok());
    assert!(config::check_config_version("dummy.yml", None, "0.3.0").is_ok());
    match config::check_config_version("dummy.yml", Some("0.0.1"), "0.3.0") {
        Err(Error::MismatchedVersion(v)) => assert_eq!(v, "0.0.1"),
        other => panic!("Unexpected result {:?}", other),
    }
    match config::check_config_version("dummy.yml", Some("not a version"), "0.3.0") {
        Err(Error::CouldNotReadFile(p)) => assert_eq!(p, "dummy.yml"),
        other => panic!("Unexpected result {:?}", other),
    }
}

#[test]
fn runs_requested_hook_scripts() {
    let hooks = HookManager::new("examples/hello");
    let entries = vec![
        ("zzz.hook".to_owned(), true),
        ("hello.hook".to_owned(), true),
        (".hidden.hook".to_owned(), true),
        ("notes.txt".to_owned(), true),
        ("dir.hook".to_owned(), false),
    ];
    assert_eq!(
        hooks.scripts("pull", &entries),
        vec![
            "examples/hello/config/hooks/pull.d/hello.hook".to_owned(),
            "examples/hello/config/hooks/pull.d/zzz.hook".to_owned()
        ]
    );
}

#[test]
fn new_projects_go_under_the_build_directory() {
    assert_eq!(default_dir("/home/me", "myapp"), "/home/me/myapp");
}

fn secrets_config() -> SecretsConfig {
    let mut common = StrMap::new();
    common.insert("GLOBAL_PASSWORD".to_owned(), "magic".to_owned());
    let mut prod_common = StrMap::new();
    prod_common.insert("GLOBAL_PASSWORD".to_owned(), "more magic".to_owned());
    let mut web = StrMap::new();
    web.insert("SOME_PASSWORD".to_owned(), "production secret".to_owned());
    let mut services = StrMap::new();
    services.insert("web".to_owned(), web);
    let mut pods = StrMap::new();
    pods.insert("frontend".to_owned(), services);
    let mut targets = StrMap::new();
    targets.insert("production".to_owned(), TargetSecrets { common: prod_common, pods });
    SecretsConfig { common, pods: StrMap::new(), targets }
}

#[test]
fn injects_secrets_into_services() {
    let config = secrets_config();
    let mut file = web_file();
    config.inject(&mut file, "frontend", "production");
    let web = file.services.get("web").unwrap();
    assert_eq!(web.environment.get("GLOBAL_PASSWORD").map(|s| s.as_str()), Some("more magic"));
    assert_eq!(web.environment.get("SOME_PASSWORD").map(|s| s.as_str()), Some("production secret"));
}

#[test]
fn common_secrets_apply_outside_the_listed_targets() {
    let config = secrets_config();
    let mut file = web_file();
    config.inject(&mut file, "frontend", "development");
    let web = file.services.get("web").unwrap();
    assert_eq!(web.environment.get("GLOBAL_PASSWORD").map(|s| s.as_str()), Some("magic"));
    assert_eq!(web.environment.get("SOME_PASSWORD"), None);
}

fn db_file_with_volumes(hosts: &[&str]) -> File {
    let mut db = Service::empty();
    for h in hosts {
        db.volumes.push(VolumeMount { host: Some(h.to_string()), container: "/var/lib/data".to_owned() });
    }
    let mut f = File::empty();
    f.services.insert("db".to_owned(), db);
    f
}

#[test]
fn converts_relative_paths_to_absolute() {
    let mut file = db_file_with_volumes(&["../data/db"]);
    absolute_volumes(&mut file, Operation::Output, "/proj/pods", Some("/home/me")).unwrap();
    let db = file.services.get("db").unwrap();
    assert_eq!(db.volumes.len(), 1);
    assert_eq!(db.volumes[0].host.as_deref(), Some("/proj/pods/../data/db"));
}

#[test]
fn home_named_and_absolute_volumes() {
    let mut file = db_file_with_volumes(&["~/cache", "pgdata", "/srv/x", "./local"]);
    absolute_volumes(&mut file, Operation::Output, "/proj/pods", Some("/home/me")).unwrap();
    let hosts: Vec<Option<String>> = file.services.get("db").unwrap().volumes.iter().map(|v| v.host.clone()).collect();
    assert_eq!(
        hosts,
        vec![
            Some("/home/me/cache".to_owned()),
            Some("pgdata".to_owned()),
            Some("/srv/x".to_owned()),
            Some("/proj/pods/./local".to_owned())
        ]
    );
    let mut homeless = db_file_with_volumes(&["~/cache"]);
    assert!(absolute_volumes(&mut homeless, Operation::Output, "/proj/pods", None).is_err());
    let mut exported = db_file_with_volumes(&["../data/db"]);
    absolute_volumes(&mut exported, Operation::Export, "/proj/pods", None).unwrap();
    assert_eq!(exported.services.get("db").unwrap().volumes[0].host.as_deref(), Some("../data/db"));
}

#[test]
fn vault_address_loses_one_trailing_slash() {
    assert_eq!(cage::vault::server_addr("http://example.com:8200/"), "http://example.com:8200");
    assert_eq!(cage::vault::server_addr("http://example.com:8200"), "http://example.com:8200");
    assert_eq!(cage::vault::server_addr(""), "");
}

#[test]
fn hook_scripts_run_from_the_root_with_the_given_variables() {
    let hooks = HookManager::new("examples/hello");
    let entries = vec![("b.hook".to_owned(), true), ("a.hook".to_owned(), true), ("c.txt".to_owned(), true)];
    let mut env = StrMap::new();
    env.insert("TARGET".to_owned(), "development".to_owned());
    let runs = hooks.invocations("pull", &entries, &env);
    let scripts: Vec<&str> = runs.iter().map(|r| r.script.as_str()).collect();
    assert_eq!(
        scripts,
        ["examples/hello/config/hooks/pull.d/a.hook", "examples/hello/config/hooks/pull.d/b.hook"]
    );
    for r in &runs {
        assert_eq!(r.dir, "examples/hello");
        assert_eq!(r.env.len(), 1);
        assert_eq!(r.env.get("TARGET").map(|v| v.as_str()), Some("development"));
    }
}

#[test]
fn default_tag_faults_are_reported_by_message() {
    match DefaultTags::read(&vec!["alpine".to_owned()]) {
        Err(Error::Message(m)) => assert_eq!(m, "Default image must have tag: alpine"),
        other => panic!("unexpected {:?}", other.map(|_| ())),
    }
    match DefaultTags::read(&vec!["alpine:4.3".to_owned(), "alpine:4.4".to_owned()]) {
        Err(Error::Message(m)) => assert_eq!(m, "Conflicting versions for alpine"),
        other => panic!("unexpected {:?}", other.map(|_| ())),
    }
}
