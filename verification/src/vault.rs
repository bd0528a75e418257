//! Issuing Vault tokens to services: which policies a service's token
//! gets, the name it is issued under, and the environment that hands it to
//! the service.  Tokens themselves come from a Vault server, or in tests
//! from `MockVault`.

use vstd::prelude::*;

use crate::compose::{label_text, File, Service};
use crate::ovr::{admits, opt_strings_view, Override};
use crate::strmap::{has_key, lookup, StrMap};
use crate::text::{concat2, concat3, copy_str, copy_strings, ends_with, extend_strings, prefix_to};

verus! {

/// The settings of `config/vault.yml`.
#[derive(Debug, Clone)]
pub struct VaultConfig {
    /// Only issue tokens in these targets, if given.
    pub enable_in_targets: Option<Vec<String>>,
    /// Extra environment variables for every service, by name.
    pub extra_environment: StrMap<String>,
    /// How long tokens last, in seconds.
    pub default_ttl: u64,
    /// Policies every token gets.
    pub default_policies: Vec<String>,
    /// Per pod, per service, the policies its token gets besides.
    pub pods: StrMap<StrMap<Vec<String>>>,
}

/// The policies of service `service` of pod `pod`: the defaults, then its
/// own.
pub open spec fn policies_spec(c: VaultConfig, pod: Seq<char>, service: Seq<char>) -> Seq<Seq<char>> {
    c.default_policies.deep_view() + match lookup(c.pods@, pod) {
        Some(p) => match lookup(p@, service) {
            Some(v) => v.deep_view(),
            None => Seq::empty(),
        },
        None => Seq::empty(),
    }
}

impl VaultConfig {
    /// The policies (before interpolation) of the token of `service` in
    /// `pod`.
    pub fn policies_for(&self, pod: &str, service: &str) -> (r: Vec<String>)
        ensures
            r.deep_view() == policies_spec(*self, pod@, service@),
    {
        let mut r = copy_strings(&self.default_policies);
        let ghost d = r.deep_view();
        match self.pods.get(pod) {
            Some(p) => match p.get(service) {
                Some(v) => {
                    extend_strings(&mut r, v);
                },
                None => {
                    assert(r.deep_view() =~= d + Seq::<Seq<char>>::empty());
                },
            },
            None => {
                assert(r.deep_view() =~= d + Seq::<Seq<char>>::empty());
            },
        }
        r
    }
}

/// The display name of the token of `service`: project, target, pod and
/// service, joined with underscores.
pub open spec fn display_name_spec(project: Seq<char>, target: Seq<char>, pod: Seq<char>, service: Seq<char>) -> Seq<char> {
    project + "_"@ + target + "_"@ + pod + "_"@ + service
}

/// The display name of the token of `service`.
pub fn token_display_name(project: &str, target: &str, pod: &str, service: &str) -> (r: String)
    ensures
        r@ == display_name_spec(project@, target@, pod@, service@),
{
    let mut r = concat3(project, "_", target);
    r.append("_");
    r.append(pod);
    r.append("_");
    r.append(service);
    r
}

/// The variables that may appear in the policies and extra variables of
/// `config/vault.yml`, for service `service` of pod `pod`.
pub open spec fn vault_vars_spec(project: Seq<char>, target: Seq<char>, pod: Seq<char>, service: Seq<char>, k: Seq<char>) -> Option<Seq<char>> {
    if k == "PROJECT"@ {
        Some(project)
    } else if k == "TARGET"@ {
        Some(target)
    } else if k == "POD"@ {
        Some(pod)
    } else if k == "SERVICE"@ {
        Some(service)
    } else {
        None
    }
}

/// The variables `$PROJECT`, `$TARGET`, `$POD` and `$SERVICE` for one
/// service, and no others.
pub fn vault_vars(project: &str, target: &str, pod: &str, service: &str) -> (r: StrMap<String>)
    ensures
        forall|k: Seq<char>| #[trigger] label_text(r@, k) == vault_vars_spec(project@, target@, pod@, service@, k),
{
    let mut r: StrMap<String> = StrMap::new();
    r.insert(copy_str("PROJECT"), copy_str(project));
    let ghost r1 = r@;
    r.insert(copy_str("TARGET"), copy_str(target));
    let ghost r2 = r@;
    r.insert(copy_str("POD"), copy_str(pod));
    let ghost r3 = r@;
    r.insert(copy_str("SERVICE"), copy_str(service));
    proof {
        reveal_strlit("PROJECT");
        reveal_strlit("TARGET");
        reveal_strlit("POD");
        reveal_strlit("SERVICE");
        assert("PROJECT"@ != "TARGET"@) by { assert("PROJECT"@[0] != "TARGET"@[0]); }
        assert("PROJECT"@.len() != "POD"@.len());
        assert("PROJECT"@ != "SERVICE"@) by { assert("PROJECT"@[0] != "SERVICE"@[0]); }
        assert("TARGET"@.len() != "POD"@.len());
        assert("TARGET"@ != "SERVICE"@) by { assert("TARGET"@[0] != "SERVICE"@[0]); }
        assert("POD"@.len() != "SERVICE"@.len());
        assert forall|k: Seq<char>| #[trigger] label_text(r@, k) == vault_vars_spec(project@, target@, pod@, service@, k) by {
            if k != "SERVICE"@ {
                assert(lookup(r@, k) == lookup(r3, k));
                if k != "POD"@ {
                    assert(lookup(r3, k) == lookup(r2, k));
                    if k != "TARGET"@ {
                        assert(lookup(r2, k) == lookup(r1, k));
                        if k != "PROJECT"@ {
                            assert(!has_key(Seq::<(Seq<char>, String)>::empty(), k));
                        }
                    }
                }
            }
        }
    }
    r
}

/// `new` is `old` with `VAULT_ADDR` and `VAULT_TOKEN` set, then the extra
/// variables `extra`, and nothing else changed.
pub open spec fn vault_env_set(old: Service, new: Service, addr: Seq<char>, token: Seq<char>, extra: Seq<(Seq<char>, String)>) -> bool {
    &&& forall|k: Seq<char>| #[trigger] label_text(new.environment@, k) == if has_key(extra, k) {
        label_text(extra, k)
    } else if k == "VAULT_TOKEN"@ {
        Some(token)
    } else if k == "VAULT_ADDR"@ {
        Some(addr)
    } else {
        label_text(old.environment@, k)
    }
    &&& new.image == old.image && new.build == old.build && new.labels == old.labels && new.env_files == old.env_files
    &&& new.volumes == old.volumes && new.ports == old.ports && new.extra_hosts == old.extra_hosts
}

/// Hand a service the Vault server's address and its token, then the
/// extra variables (already interpolated for the service).
pub fn set_vault_env(service: &mut Service, addr: &str, token: &str, extra: &StrMap<String>)
    ensures
        vault_env_set(*old(service), *final(service), addr@, token@, extra@),
{
    let ghost e0 = service.environment@;
    service.environment.insert(copy_str("VAULT_ADDR"), copy_str(addr));
    let ghost e1 = service.environment@;
    service.environment.insert(copy_str("VAULT_TOKEN"), copy_str(token));
    let ghost e2 = service.environment@;
    let mut env = StrMap::new();
    std::mem::swap(&mut env, &mut service.environment);
    crate::compose::insert_all(&mut env, extra);
    service.environment = env;
    proof {
        reveal_strlit("VAULT_ADDR");
        reveal_strlit("VAULT_TOKEN");
        assert("VAULT_ADDR"@.len() != "VAULT_TOKEN"@.len());
        assert forall|k: Seq<char>| #[trigger] label_text(service.environment@, k) == if has_key(extra@, k) {
            label_text(extra@, k)
        } else if k == "VAULT_TOKEN"@ {
            Some(token@)
        } else if k == "VAULT_ADDR"@ {
            Some(addr@)
        } else {
            label_text(e0, k)
        } by {
            if k != "VAULT_TOKEN"@ {
                assert(lookup(e2, k) == lookup(e1, k));
            }
            if k != "VAULT_ADDR"@ {
                assert(lookup(e1, k) == lookup(e0, k));
            }
        }
    }
}

/// A token to ask the Vault server for, on behalf of one service.
#[derive(Debug)]
pub struct TokenRequest {
    /// The service the token is for.
    pub service: String,
    /// The name the token is issued under.
    pub display_name: String,
    /// Its policies, before `$PROJECT`, `$TARGET`, `$POD` and `$SERVICE`
    /// are filled in.
    pub policies: Vec<String>,
    /// How long it lasts, in seconds.
    pub ttl: u64,
}

/// `r` is the request for the token of service `service` of pod `pod`.
pub open spec fn is_request_for(
    r: TokenRequest,
    c: VaultConfig,
    project: Seq<char>,
    target: Seq<char>,
    pod: Seq<char>,
    service: Seq<char>,
) -> bool {
    &&& r.service@ == service
    &&& r.display_name@ == display_name_spec(project, target, pod, service)
    &&& r.policies.deep_view() == policies_spec(c, pod, service)
    &&& r.ttl == c.default_ttl
}

impl VaultConfig {
    /// The tokens to ask for when pod `pod` of `project` is output in
    /// `target`: one per service of `file`, in service order, or none at
    /// all when the plugin is not enabled in that target.
    pub fn token_requests(&self, project: &str, target: &Override, pod: &str, file: &File) -> (r: Vec<TokenRequest>)
        ensures
            !admits(opt_strings_view(self.enable_in_targets), target@) ==> r@.len() == 0,
            admits(opt_strings_view(self.enable_in_targets), target@) ==> {
                &&& r@.len() == file.services@.len()
                &&& forall|i: int| 0 <= i < r@.len() ==> is_request_for(#[trigger] r@[i], *self, project@, target@, pod@, file.services@[i].0)
            },
    {
        let mut out: Vec<TokenRequest> = Vec::new();
        if !target.is_enabled_by(&self.enable_in_targets) {
            return out;
        }
        let n = file.services.len();
        let mut i: usize = 0;
        while i < n
            invariant
                n == file.services@.len(),
                i <= n,
                out@.len() == i,
                forall|j: int| 0 <= j < i ==> is_request_for(#[trigger] out@[j], *self, project@, target@, pod@, file.services@[j].0),
            decreases n - i,
        {
            let (name, _svc) = file.services.entry(i);
            let req = TokenRequest {
                service: copy_str(name.as_str()),
                display_name: token_display_name(project, target.name(), pod, name.as_str()),
                policies: self.policies_for(pod, name.as_str()),
                ttl: self.default_ttl,
            };
            out.push(req);
            i = i + 1;
        }
        out
    }
}

/// Hand each service of `file` the Vault server's address, its token and
/// its extra variables: `grants[i]` holds the token and the (interpolated)
/// extra variables of the `i`-th service.
pub fn apply_tokens(file: &mut File, addr: &str, grants: &Vec<(String, StrMap<String>)>)
    requires
        grants@.len() == old(file).services@.len(),
    ensures
        final(file).services@.len() == old(file).services@.len(),
        forall|i: int| 0 <= i < old(file).services@.len() ==> {
            &&& (#[trigger] final(file).services@[i]).0 == old(file).services@[i].0
            &&& vault_env_set(old(file).services@[i].1, final(file).services@[i].1, addr@, grants@[i].0@, grants@[i].1@)
        },
{
    let ghost start = file.services@;
    let n = file.services.len();
    let mut i: usize = 0;
    while i < n
        invariant
            n == start.len(),
            grants@.len() == n,
            i <= n,
            file.services@.len() == n,
            forall|j: int| 0 <= j < i ==> (#[trigger] file.services@[j]).0 == start[j].0
                && vault_env_set(start[j].1, file.services@[j].1, addr@, grants@[j].0@, grants@[j].1@),
            forall|j: int| i <= j < n ==> #[trigger] file.services@[j] == start[j],
        decreases n - i,
    {
        let mut svc = file.services.replace_value_at(i, Service::empty());
        set_vault_env(&mut svc, addr, grants[i].0.as_str(), &grants[i].1);
        let _ = file.services.replace_value_at(i, svc);
        i = i + 1;
    }
}

/// The address of the Vault server as services are given it: `addr`
/// without one trailing `/`.
pub fn server_addr(addr: &str) -> (r: String)
    ensures
        r@ == if addr@.len() > 0 && addr@.last() == '/' {
            addr@.drop_last()
        } else {
            addr@
        },
{
    proof {
        reveal_strlit("/");
    }
    let n = addr.unicode_len();
    if ends_with(addr, "/") {
        assert(addr@.subrange(n - 1, n as int) =~= seq![addr@.last()]);
        assert(addr@.last() == seq![addr@.last()][0]);
        let r = prefix_to(addr, n - 1);
        assert(r@ =~= addr@.drop_last());
        r
    } else {
        assert(!(addr@.len() > 0 && addr@.last() == '/')) by {
            if addr@.len() > 0 && addr@.last() == '/' {
                assert(addr@.subrange(addr@.len() - 1, addr@.len() as int) =~= "/"@);
            }
        }
        copy_str(addr)
    }
}

/// A stand-in for a Vault server that records the tokens it is asked for
/// and issues `fake_token` each time.
#[derive(Debug)]
pub struct MockVault {
    /// Each request: display name, policies and time to live.
    calls: Vec<(String, Vec<String>, u64)>,
}

impl View for MockVault {
    type V = Seq<(Seq<char>, Seq<Seq<char>>, u64)>;

    /// The requests made so far, in order.
    closed spec fn view(&self) -> Seq<(Seq<char>, Seq<Seq<char>>, u64)> {
        self.calls@.map_values(|c: (String, Vec<String>, u64)| (c.0@, c.1.deep_view(), c.2))
    }
}

impl MockVault {
    /// A mock with no requests yet.
    pub fn new() -> (r: MockVault)
        ensures
            r@ == Seq::<(Seq<char>, Seq<Seq<char>>, u64)>::empty(),
    {
        let r = MockVault { calls: Vec::new() };
        assert(r@ =~= Seq::<(Seq<char>, Seq<Seq<char>>, u64)>::empty());
        r
    }

    /// The address of the pretend server.
    pub fn addr(&self) -> (r: &'static str)
        ensures
            r@ == "http://example.com:8200/"@,
    {
        "http://example.com:8200/"
    }

    /// Record a request for a token and issue `fake_token`.
    pub fn generate_token(&mut self, display_name: &str, policies: Vec<String>, ttl: u64) -> (r: String)
        ensures
            r@ == "fake_token"@,
            final(self)@ == old(self)@.push((display_name@, policies.deep_view(), ttl)),
    {
        let ghost before = self@;
        let ghost pv = policies.deep_view();
        self.calls.push((copy_str(display_name), policies, ttl));
        assert(self@ =~= before.push((display_name@, pv, ttl)));
        copy_str("fake_token")
    }

    /// The requests made so far.
    pub fn calls(&self) -> (r: &Vec<(String, Vec<String>, u64)>)
        ensures
            r@.map_values(|c: (String, Vec<String>, u64)| (c.0@, c.1.deep_view(), c.2)) == self@,
    {
        &self.calls
    }
}

} // verus!
