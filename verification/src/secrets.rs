//! Secrets kept in `config/secrets.yml` and handed to services as
//! environment variables: those common to every service, those of one
//! service of one pod, and the same two again for the current target, each
//! layer put over the ones before it.

use vstd::prelude::*;

use crate::compose::{insert_all, label_text, File, Service};
use crate::strmap::{has_key, lookup, StrMap};

verus! {

/// The secrets of one target.
#[derive(Debug)]
pub struct TargetSecrets {
    /// Secrets for every service.
    pub common: StrMap<String>,
    /// Per pod, per service, secrets for that service.
    pub pods: StrMap<StrMap<StrMap<String>>>,
}

/// The settings of `config/secrets.yml`.
#[derive(Debug)]
pub struct SecretsConfig {
    /// Secrets for every service.
    pub common: StrMap<String>,
    /// Per pod, per service, secrets for that service.
    pub pods: StrMap<StrMap<StrMap<String>>>,
    /// Per target, more secrets, put over the ones above.
    pub targets: StrMap<TargetSecrets>,
}

/// The secrets of `service` of `pod` among per-pod secrets, if any.
pub open spec fn pod_layer(pods: Seq<(Seq<char>, StrMap<StrMap<String>>)>, pod: Seq<char>, service: Seq<char>) -> Seq<Seq<(Seq<char>, String)>> {
    match lookup(pods, pod) {
        Some(p) => match lookup(p@, service) {
            Some(s) => seq![s@],
            None => Seq::empty(),
        },
        None => Seq::empty(),
    }
}

/// The layers of secrets for `service` of `pod` in `target`, first to last.
pub open spec fn secret_layers(c: SecretsConfig, pod: Seq<char>, target: Seq<char>, service: Seq<char>) -> Seq<Seq<(Seq<char>, String)>> {
    seq![c.common@] + pod_layer(c.pods@, pod, service) + match lookup(c.targets@, target) {
        Some(t) => seq![t.common@] + pod_layer(t.pods@, pod, service),
        None => Seq::empty(),
    }
}

/// The value of `k` once `layers` are put, in order, over `base`: the
/// last layer that has `k` decides.
pub open spec fn layered_text(base: Seq<(Seq<char>, String)>, layers: Seq<Seq<(Seq<char>, String)>>, k: Seq<char>) -> Option<Seq<char>>
    decreases layers.len(),
{
    if layers.len() == 0 {
        label_text(base, k)
    } else if has_key(layers.last(), k) {
        label_text(layers.last(), k)
    } else {
        layered_text(base, layers.drop_last(), k)
    }
}

/// `new` is `old` with the layers of secrets put over its environment, and
/// nothing else changed.
pub open spec fn with_secrets(old: Service, new: Service, layers: Seq<Seq<(Seq<char>, String)>>) -> bool {
    &&& forall|k: Seq<char>| #[trigger] label_text(new.environment@, k) == layered_text(old.environment@, layers, k)
    &&& new.image == old.image && new.build == old.build && new.labels == old.labels && new.env_files == old.env_files
    &&& new.volumes == old.volumes && new.ports == old.ports && new.extra_hosts == old.extra_hosts
}

/// Put one more layer over `env`.
fn add_layer(env: &mut StrMap<String>, layer: &StrMap<String>, Ghost(base): Ghost<Seq<(Seq<char>, String)>>, Ghost(layers): Ghost<Seq<Seq<(Seq<char>, String)>>>)
    requires
        forall|k: Seq<char>| #[trigger] label_text(old(env)@, k) == layered_text(base, layers, k),
    ensures
        forall|k: Seq<char>| #[trigger] label_text(final(env)@, k) == layered_text(base, layers.push(layer@), k),
{
    insert_all(env, layer);
    assert forall|k: Seq<char>| #[trigger] label_text(env@, k) == layered_text(base, layers.push(layer@), k) by {
        assert(layers.push(layer@).drop_last() =~= layers);
    }
}

/// Put the layer of `service` of `pod` from `pods`, if there is one.
fn add_pod_layer(
    env: &mut StrMap<String>,
    pods: &StrMap<StrMap<StrMap<String>>>,
    pod: &str,
    service: &str,
    Ghost(base): Ghost<Seq<(Seq<char>, String)>>,
    Ghost(layers): Ghost<Seq<Seq<(Seq<char>, String)>>>,
)
    requires
        forall|k: Seq<char>| #[trigger] label_text(old(env)@, k) == layered_text(base, layers, k),
    ensures
        forall|k: Seq<char>| #[trigger] label_text(final(env)@, k) == layered_text(base, layers + pod_layer(pods@, pod@, service@), k),
{
    match pods.get(pod) {
        Some(p) => match p.get(service) {
            Some(s) => {
                add_layer(env, s, Ghost(base), Ghost(layers));
                assert(layers + pod_layer(pods@, pod@, service@) =~= layers.push(s@));
            },
            None => {
                assert(layers + pod_layer(pods@, pod@, service@) =~= layers);
            },
        },
        None => {
            assert(layers + pod_layer(pods@, pod@, service@) =~= layers);
        },
    }
}

impl SecretsConfig {
    /// Give every service of `file`, a file of pod `pod`, its secrets for
    /// target `target`.
    pub fn inject(&self, file: &mut File, pod: &str, target: &str)
        ensures
            final(file).services@.len() == old(file).services@.len(),
            forall|i: int| 0 <= i < old(file).services@.len() ==> {
                &&& (#[trigger] final(file).services@[i]).0 == old(file).services@[i].0
                &&& with_secrets(
                    old(file).services@[i].1,
                    final(file).services@[i].1,
                    secret_layers(*self, pod@, target@, old(file).services@[i].0),
                )
            },
    {
        let ghost start = file.services@;
        let n = file.services.len();
        let mut i: usize = 0;
        while i < n
            invariant
                n == start.len(),
                i <= n,
                file.services@.len() == n,
                forall|j: int| 0 <= j < i ==> (#[trigger] file.services@[j]).0 == start[j].0
                    && with_secrets(start[j].1, file.services@[j].1, secret_layers(*self, pod@, target@, start[j].0)),
                forall|j: int| i <= j < n ==> #[trigger] file.services@[j] == start[j],
            decreases n - i,
        {
            let name = file.services.entry(i).0.clone();
            assert(name@ == start[i as int].0);
            let mut svc = file.services.replace_value_at(i, Service::empty());
            let ghost before = svc;
            let ghost base = svc.environment@;
            let mut env = StrMap::new();
            std::mem::swap(&mut env, &mut svc.environment);
            assert forall|k: Seq<char>| #[trigger] label_text(env@, k) == layered_text(base, Seq::empty(), k) by {}
            add_layer(&mut env, &self.common, Ghost(base), Ghost(Seq::empty()));
            let ghost l1 = Seq::<Seq<(Seq<char>, String)>>::empty().push(self.common@);
            add_pod_layer(&mut env, &self.pods, pod, name.as_str(), Ghost(base), Ghost(l1));
            let ghost l2 = l1 + pod_layer(self.pods@, pod@, name@);
            match self.targets.get(target) {
                Some(t) => {
                    add_layer(&mut env, &t.common, Ghost(base), Ghost(l2));
                    let ghost l3 = l2.push(t.common@);
                    add_pod_layer(&mut env, &t.pods, pod, name.as_str(), Ghost(base), Ghost(l3));
                    assert(l3 + pod_layer(t.pods@, pod@, name@) =~= secret_layers(*self, pod@, target@, name@));
                },
                None => {
                    assert(l2 =~= secret_layers(*self, pod@, target@, name@));
                },
            }
            svc.environment = env;
            assert(with_secrets(before, svc, secret_layers(*self, pod@, target@, name@)));
            let _ = file.services.replace_value_at(i, svc);
            i = i + 1;
        }
    }
}

/// A later layer wins: once the secrets are in, a variable set by the
/// common secrets of the target has the target's value, whatever the
/// other layers or the file said.
pub proof fn lemma_target_common_wins(
    c: SecretsConfig,
    base: Seq<(Seq<char>, String)>,
    pod: Seq<char>,
    target: Seq<char>,
    service: Seq<char>,
    k: Seq<char>,
)
    requires
        lookup(c.targets@, target) matches Some(t) && has_key(t.common@, k) && !(pod_layer(t.pods@, pod, service).len() > 0
            && has_key(pod_layer(t.pods@, pod, service)[0], k)),
    ensures
        layered_text(base, secret_layers(c, pod, target, service), k) == label_text(lookup(c.targets@, target)->0.common@, k),
{
    let t = lookup(c.targets@, target)->0;
    let layers = secret_layers(c, pod, target, service);
    let before = seq![c.common@] + pod_layer(c.pods@, pod, service);
    if pod_layer(t.pods@, pod, service).len() > 0 {
        assert(layers.last() == pod_layer(t.pods@, pod, service)[0]);
        assert(layers.drop_last() =~= before.push(t.common@));
        assert(layers.drop_last().last() == t.common@);
        assert(!has_key(layers.last(), k));
        assert(layered_text(base, layers, k) == layered_text(base, layers.drop_last(), k));
        assert(layered_text(base, layers.drop_last(), k) == label_text(t.common@, k));
    } else {
        assert(layers =~= before.push(t.common@));
        assert(layers.last() == t.common@);
    }
}

/// A secret given for `service` of `pod` in the top-level `pods` section
/// reaches that service's environment once the secrets are in, unless the
/// target's own layers (its common secrets or its secrets for that
/// service) set the same variable.
pub proof fn lemma_pod_secret_reaches_service(
    c: SecretsConfig,
    before: Service,
    after: Service,
    pod: Seq<char>,
    target: Seq<char>,
    service: Seq<char>,
    k: Seq<char>,
)
    requires
        with_secrets(before, after, secret_layers(c, pod, target, service)),
        lookup(c.pods@, pod) is Some,
        lookup(lookup(c.pods@, pod)->0@, service) is Some,
        has_key(lookup(lookup(c.pods@, pod)->0@, service)->0@, k),
        match lookup(c.targets@, target) {
            Some(t) => !has_key(t.common@, k) && match lookup(t.pods@, pod) {
                Some(tp) => match lookup(tp@, service) {
                    Some(ts) => !has_key(ts@, k),
                    None => true,
                },
                None => true,
            },
            None => true,
        },
    ensures
        label_text(after.environment@, k) == label_text(lookup(lookup(c.pods@, pod)->0@, service)->0@, k),
{
    let sv = lookup(lookup(c.pods@, pod)->0@, service)->0@;
    let layers = secret_layers(c, pod, target, service);
    let two = seq![c.common@, sv];
    assert(pod_layer(c.pods@, pod, service) =~= seq![sv]);
    assert(seq![c.common@] + pod_layer(c.pods@, pod, service) =~= two);
    assert(layered_text(before.environment@, two, k) == label_text(sv, k)) by {
        assert(two.last() == sv);
    }
    match lookup(c.targets@, target) {
        Some(t) => {
            let three = two.push(t.common@);
            if pod_layer(t.pods@, pod, service).len() > 0 {
                let ts = pod_layer(t.pods@, pod, service)[0];
                assert(pod_layer(t.pods@, pod, service) =~= seq![ts]);
                assert(layers =~= three.push(ts));
                assert(!has_key(ts, k));
                assert(layers.drop_last() =~= three);
                assert(three.drop_last() =~= two);
                assert(layered_text(before.environment@, layers, k) == layered_text(before.environment@, three, k));
            } else {
                assert(layers =~= three);
                assert(three.drop_last() =~= two);
            }
        },
        None => {
            assert(layers =~= two);
        },
    }
}

/// A secret given for `service` of `pod` in the target's own `pods`
/// section is what that service's environment holds once the secrets are
/// in: the last layer wins over everything else.
pub proof fn lemma_target_pod_secret_wins(
    c: SecretsConfig,
    before: Service,
    after: Service,
    pod: Seq<char>,
    target: Seq<char>,
    service: Seq<char>,
    k: Seq<char>,
)
    requires
        with_secrets(before, after, secret_layers(c, pod, target, service)),
        lookup(c.targets@, target) is Some,
        lookup(lookup(c.targets@, target)->0.pods@, pod) is Some,
        lookup(lookup(lookup(c.targets@, target)->0.pods@, pod)->0@, service) is Some,
        has_key(lookup(lookup(lookup(c.targets@, target)->0.pods@, pod)->0@, service)->0@, k),
    ensures
        label_text(after.environment@, k) == label_text(
            lookup(lookup(lookup(c.targets@, target)->0.pods@, pod)->0@, service)->0@,
            k,
        ),
{
    let t = lookup(c.targets@, target)->0;
    let ts = lookup(lookup(t.pods@, pod)->0@, service)->0@;
    let layers = secret_layers(c, pod, target, service);
    assert(pod_layer(t.pods@, pod, service) =~= seq![ts]);
    assert(layers.last() == ts);
}

/// A common secret reaches every service's environment once the secrets
/// are in, unless a later layer (the service's own secrets, or the
/// target's) sets the same variable.
pub proof fn lemma_common_secret_reaches_service(
    c: SecretsConfig,
    before: Service,
    after: Service,
    pod: Seq<char>,
    target: Seq<char>,
    service: Seq<char>,
    k: Seq<char>,
)
    requires
        with_secrets(before, after, secret_layers(c, pod, target, service)),
        has_key(c.common@, k),
        match lookup(c.pods@, pod) {
            Some(p) => match lookup(p@, service) {
                Some(sv) => !has_key(sv@, k),
                None => true,
            },
            None => true,
        },
        match lookup(c.targets@, target) {
            Some(t) => !has_key(t.common@, k) && match lookup(t.pods@, pod) {
                Some(tp) => match lookup(tp@, service) {
                    Some(ts) => !has_key(ts@, k),
                    None => true,
                },
                None => true,
            },
            None => true,
        },
    ensures
        label_text(after.environment@, k) == label_text(c.common@, k),
{
    let layers = secret_layers(c, pod, target, service);
    let one = seq![c.common@];
    assert(layered_text(before.environment@, one, k) == label_text(c.common@, k)) by {
        assert(one.last() == c.common@);
    }
    let two = one + pod_layer(c.pods@, pod, service);
    assert(layered_text(before.environment@, two, k) == label_text(c.common@, k)) by {
        if pod_layer(c.pods@, pod, service).len() > 0 {
            let sv = pod_layer(c.pods@, pod, service)[0];
            assert(pod_layer(c.pods@, pod, service) =~= seq![sv]);
            assert(two.drop_last() =~= one);
            assert(two.last() == sv);
        } else {
            assert(two =~= one);
        }
    }
    match lookup(c.targets@, target) {
        Some(t) => {
            let three = two.push(t.common@);
            assert(three.drop_last() =~= two);
            if pod_layer(t.pods@, pod, service).len() > 0 {
                let ts = pod_layer(t.pods@, pod, service)[0];
                assert(pod_layer(t.pods@, pod, service) =~= seq![ts]);
                assert(layers =~= three.push(ts));
                assert(layers.drop_last() =~= three);
                assert(layered_text(before.environment@, layers, k) == layered_text(before.environment@, three, k));
            } else {
                assert(layers =~= three);
            }
        },
        None => {
            assert(layers =~= two);
        },
    }
}

} // verus!
