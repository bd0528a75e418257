//! A single pod in a project: `pods/$NAME.yml`, its per-target files
//! `pods/targets/$TARGET/$NAME.yml`, and its `pods/$NAME.metadata.yml`
//! configuration.

use vstd::prelude::*;

use crate::args::Command;
use crate::compose::{is_empty_service, label_text, merge_labels, File, Service};
use crate::errors::Error;
use crate::ovr::{admits, opt_strings_view, Override};
use crate::paths::{join_path, path_join};
use crate::strmap::{has_key, key_seq, keys_sorted, lemma_lookup_at, lookup, StrMap};
use crate::text::{concat2, concat3, copy_str, str_eq};

verus! {

/// Indicates whether a pod is a regular service or a one-shot task.
#[derive(Debug, Clone, Copy, PartialEq, Eq, Structural)]
pub enum PodType {
    /// An externally-managed service, generally only present in
    /// development mode.
    Placeholder,
    /// A service is normally started up and left running.
    Service,
    /// A task is run once and expected to exit.
    Task,
}

/// The name under which a pod type is written in configuration files and
/// displayed.
pub open spec fn pod_type_name(t: PodType) -> Seq<char> {
    match t {
        PodType::Placeholder => "placeholder"@,
        PodType::Service => "service"@,
        PodType::Task => "task"@,
    }
}

/// The pod type written as `s`, if any.
pub open spec fn pod_type_named(s: Seq<char>) -> Option<PodType> {
    if s == "placeholder"@ {
        Some(PodType::Placeholder)
    } else if s == "service"@ {
        Some(PodType::Service)
    } else if s == "task"@ {
        Some(PodType::Task)
    } else {
        None
    }
}

/// Reading back the name of a pod type gives that pod type.
pub proof fn lemma_pod_type_name_round_trip(t: PodType)
    ensures
        pod_type_named(pod_type_name(t)) == Some(t),
{
    reveal_strlit("placeholder");
    reveal_strlit("service");
    reveal_strlit("task");
    assert("placeholder"@.len() != "service"@.len());
    assert("placeholder"@.len() != "task"@.len());
    assert("service"@.len() != "task"@.len());
}

impl PodType {
    /// The name of this pod type, as it is displayed and written in
    /// configuration files.
    pub fn name(&self) -> (r: &'static str)
        ensures
            r@ == pod_type_name(*self),
    {
        match self {
            PodType::Placeholder => "placeholder",
            PodType::Service => "service",
            PodType::Task => "task",
        }
    }

    /// The pod type with the name `s`, if any.
    pub fn from_name(s: &str) -> (r: Option<PodType>)
        ensures
            r == pod_type_named(s@),
    {
        if str_eq(s, "placeholder") {
            Some(PodType::Placeholder)
        } else if str_eq(s, "service") {
            Some(PodType::Service)
        } else if str_eq(s, "task") {
            Some(PodType::Task)
        } else {
            None
        }
    }
}

/// The commands of one named script: each is a command name followed by
/// its arguments.
#[derive(Debug, Clone)]
pub struct Script {
    /// The commands, in order.
    pub commands: Vec<Vec<String>>,
}

/// Individual, per-service configuration.
#[derive(Debug, Clone)]
pub struct ServiceConfig {
    /// Scripts that can be executed via `run-script`, by name.
    pub scripts: StrMap<Script>,
}

/// Configuration information about a pod.
#[derive(Debug, Clone)]
pub struct PodConfig {
    /// Only use this pod in the specified targets.  If this field is
    /// omitted, the pod is used in all targets.
    pub enable_in_targets: Option<Vec<String>>,
    /// What kind of pod is this?
    pub pod_type: Option<PodType>,
    /// Commands to invoke with `run` when this pod is initialized: a
    /// service name followed by the command and its arguments.
    pub run_on_init: Vec<Vec<String>>,
    /// Per-service configuration, by service name.
    pub services: StrMap<ServiceConfig>,
}

impl Default for PodConfig {
    fn default() -> (r: PodConfig)
        ensures
            r.enable_in_targets is None,
            r.pod_type is None,
            r.run_on_init@.len() == 0,
            r.services@.len() == 0,
    {
        PodConfig { enable_in_targets: None, pod_type: None, run_on_init: Vec::new(), services: StrMap::new() }
    }
}

/// `new` is `old` with `env` put at the front of its `env_file` list, and
/// nothing else changed.
pub open spec fn env_prepended(old: Service, new: Service, env: Seq<char>) -> bool {
    &&& new.env_files.deep_view() == seq![env] + old.env_files.deep_view()
    &&& new.image == old.image
    &&& new.build == old.build
    &&& new.labels == old.labels
    &&& new.environment == old.environment
    &&& new.volumes == old.volumes
    &&& new.ports == old.ports
    &&& new.extra_hosts == old.extra_hosts
}

/// The services `new` are those of `old`, in the same order, each with
/// `env` first in its `env_file` list.
pub open spec fn normalized(old: Seq<(Seq<char>, Service)>, new: Seq<(Seq<char>, Service)>, env: Seq<char>) -> bool {
    &&& new.len() == old.len()
    &&& forall|i: int| 0 <= i < old.len() ==> (#[trigger] new[i]).0 == old[i].0 && env_prepended(old[i].1, new[i].1, env)
}

/// Put `env` first in the `env_file` list of every service of `file`.
pub fn finish_normalization(file: &mut File, env: &str)
    ensures
        normalized(old(file).services@, final(file).services@, env@),
{
    let ghost start = file.services@;
    let n = file.services.len();
    let mut i: usize = 0;
    while i < n
        invariant
            n == start.len(),
            i <= n,
            file.services@.len() == n,
            forall|j: int| 0 <= j < i ==> (#[trigger] file.services@[j]).0 == start[j].0 && env_prepended(start[j].1, file.services@[j].1, env@),
            forall|j: int| i <= j < n ==> #[trigger] file.services@[j] == start[j],
        decreases n - i,
    {
        let mut svc = file.services.replace_value_at(i, Service::empty());
        let ghost before = svc;
        svc.env_files.insert(0, copy_str(env));
        assert(svc.env_files.deep_view() =~= seq![env@] + before.env_files.deep_view());
        let _ = file.services.replace_value_at(i, svc);
        i = i + 1;
    }
}

/// Normalizing a file keeps its keys.
pub proof fn lemma_normalized_keys(old: Seq<(Seq<char>, Service)>, new: Seq<(Seq<char>, Service)>, env: Seq<char>)
    requires
        normalized(old, new, env),
    ensures
        forall|k: Seq<char>| has_key(new, k) <==> has_key(old, k),
{
    assert forall|k: Seq<char>| has_key(new, k) <==> has_key(old, k) by {
        if has_key(new, k) {
            let p = choose|p: int| 0 <= p < new.len() && #[trigger] new[p].0 == k;
            assert(old[p].0 == k);
        }
        if has_key(old, k) {
            let p = choose|p: int| 0 <= p < old.len() && #[trigger] old[p].0 == k;
            assert(new[p].0 == k);
        }
    }
}

/// A key occurs in the key list exactly when some entry has it.
pub proof fn lemma_key_seq_contains<V>(s: Seq<(Seq<char>, V)>, k: Seq<char>)
    ensures
        key_seq(s).contains(k) <==> has_key(s, k),
{
    if has_key(s, k) {
        let p = choose|p: int| 0 <= p < s.len() && #[trigger] s[p].0 == k;
        assert(key_seq(s)[p] == k);
    }
    if key_seq(s).contains(k) {
        let p = choose|p: int| 0 <= p < key_seq(s).len() && key_seq(s)[p] == k;
        assert(s[p].0 == k);
    }
}

/// The keys of `keys` that do not occur in `names`, in order.
pub open spec fn introduced(keys: Seq<Seq<char>>, names: Seq<Seq<char>>) -> Seq<Seq<char>>
    decreases keys.len(),
{
    if keys.len() == 0 {
        Seq::empty()
    } else if names.contains(keys.last()) {
        introduced(keys.drop_last(), names)
    } else {
        introduced(keys.drop_last(), names).push(keys.last())
    }
}

/// `introduced` is empty exactly when every key occurs in `names`.
proof fn lemma_introduced_empty(keys: Seq<Seq<char>>, names: Seq<Seq<char>>)
    ensures
        introduced(keys, names).len() == 0 <==> forall|i: int| 0 <= i < keys.len() ==> names.contains(#[trigger] keys[i]),
    decreases keys.len(),
{
    if keys.len() > 0 {
        let init = keys.drop_last();
        lemma_introduced_empty(init, names);
        if introduced(keys, names).len() == 0 {
            assert(names.contains(keys.last()));
            assert(introduced(init, names).len() == 0);
            assert forall|i: int| 0 <= i < keys.len() implies names.contains(#[trigger] keys[i]) by {
                if i < keys.len() - 1 {
                    assert(init[i] == keys[i]);
                    assert(names.contains(init[i]));
                }
            }
        }
        if forall|i: int| 0 <= i < keys.len() ==> names.contains(#[trigger] keys[i]) {
            assert(names.contains(keys[keys.len() - 1]));
            assert forall|i: int| 0 <= i < init.len() implies names.contains(#[trigger] init[i]) by {
                assert(names.contains(keys[i]));
            }
        }
    }
}

/// The names of the services in `names` that `file` does not define are
/// added to it as empty services, after checking that `file` defines no
/// service outside `names`.  `base` and `target` are the files' paths,
/// for the error.
pub fn ensure_same_services(file: &mut File, base: &str, target: &str, names: &Vec<String>) -> (r: Result<(), Error>)
    ensures
        introduced(key_seq(old(file).services@), names.deep_view()).len() > 0 ==> (r matches Err(
            Error::ServicesAddedInTarget { base: b, target: t, names: ns },
        ) && b@ == base@ && t@ == target@ && ns.deep_view() == introduced(
            key_seq(old(file).services@),
            names.deep_view(),
        ) && final(file).services@ == old(file).services@),
        introduced(key_seq(old(file).services@), names.deep_view()).len() == 0 ==> (r is Ok && (
        forall|k: Seq<char>| has_key(final(file).services@, k) <==> names.deep_view().contains(k))
            && (forall|k: Seq<char>| has_key(old(file).services@, k) ==> lookup(final(file).services@, k)
            == lookup(old(file).services@, k)) && (forall|k: Seq<char>| !has_key(old(file).services@, k)
            && names.deep_view().contains(k) ==> (lookup(final(file).services@, k) matches Some(s)
            && is_empty_service(s)))),
{
    let keys = file.services.keys();
    let ghost ks = key_seq(file.services@);
    let mut extra: Vec<String> = Vec::new();
    let mut i: usize = 0;
    while i < keys.len()
        invariant
            keys.deep_view() == ks,
            i <= keys.len(),
            extra.deep_view() == introduced(ks.take(i as int), names.deep_view()),
        decreases keys.len() - i,
    {
        assert(ks.take(i + 1).drop_last() =~= ks.take(i as int));
        assert(ks.take(i + 1).last() == ks[i as int]);
        if !crate::ovr::contains_str(names, keys[i].as_str()) {
            let ghost before = extra.deep_view();
            extra.push(keys[i].clone());
            assert(extra.deep_view() =~= before.push(ks[i as int]));
        }
        i = i + 1;
    }
    assert(ks.take(keys.len() as int) =~= ks);
    if extra.len() > 0 {
        return Err(Error::ServicesAddedInTarget { base: copy_str(base), target: copy_str(target), names: extra });
    }
    proof {
        lemma_introduced_empty(ks, names.deep_view());
    }
    let ghost start = file.services@;
    let mut j: usize = 0;
    while j < names.len()
        invariant
            j <= names.len(),
            forall|k: Seq<char>| has_key(file.services@, k) <==> (has_key(start, k) || names.deep_view().take(j as int).contains(k)),
            forall|k: Seq<char>| has_key(start, k) ==> lookup(file.services@, k) == lookup(start, k),
            forall|k: Seq<char>| !has_key(start, k) && has_key(file.services@, k) ==> (lookup(file.services@, k) matches Some(s) && is_empty_service(s)),
        decreases names.len() - j,
    {
        let ghost nm = names.deep_view()[j as int];
        let ghost prev = file.services@;
        let ghost t = names.deep_view().take(j as int);
        assert(forall|k: Seq<char>| has_key(prev, k) <==> (has_key(start, k) || t.contains(k)));
        let key = names[j].clone();
        assert(key@ == nm);
        file.services.insert_if_absent(key, Service::empty());
        j = j + 1;
        assert(names.deep_view().take(j as int) =~= t.push(nm));
        assert forall|k: Seq<char>| has_key(file.services@, k) <==> (has_key(start, k) || names.deep_view().take(j as int).contains(k)) by {
            assert(has_key(file.services@, k) <==> (has_key(prev, k) || k == nm));
            assert(has_key(prev, k) <==> (has_key(start, k) || t.contains(k)));
            assert(names.deep_view().take(j as int).contains(k) == t.push(nm).contains(k));
            if t.push(nm).contains(k) {
                let p = choose|p: int| 0 <= p < t.push(nm).len() && t.push(nm)[p] == k;
                if p < t.len() {
                    assert(t[p] == k);
                }
            }
            if t.contains(k) {
                let p = choose|p: int| 0 <= p < t.len() && t[p] == k;
                assert(t.push(nm)[p] == k);
            }
            if k == nm {
                assert(t.push(nm)[t.len() as int] == k);
            }
        }
    }
    assert(names.deep_view().take(names.len() as int) =~= names.deep_view());
    assert forall|k: Seq<char>| has_key(file.services@, k) <==> names.deep_view().contains(k) by {
        if has_key(start, k) {
            let p = choose|p: int| 0 <= p < start.len() && #[trigger] start[p].0 == k;
            assert(ks[p] == k);
        }
    }
    Ok(())
}

/// The `common.env` of a target's directory, relative to `pods/`.
pub open spec fn target_env(target: Seq<char>) -> Seq<char> {
    path_join(target_dir(target), "common.env"@)
}

/// `new` is the target file `old` filled out and normalized: each of its
/// services has `env` put first in its `env_file` list, and each service
/// it left out is empty but for `env`.
pub open spec fn target_normalized(old: Seq<(Seq<char>, Service)>, new: Seq<(Seq<char>, Service)>, env: Seq<char>) -> bool {
    forall|j: int| 0 <= j < new.len() ==> {
        &&& has_key(old, (#[trigger] new[j]).0) ==> env_prepended(lookup(old, new[j].0)->0, new[j].1, env)
        &&& !has_key(old, new[j].0) ==> {
            &&& new[j].1.env_files.deep_view() == seq![env]
            &&& new[j].1.image is None
            &&& new[j].1.build is None
            &&& new[j].1.labels@.len() == 0
            &&& new[j].1.environment@.len() == 0
            &&& new[j].1.volumes@.len() == 0
            &&& new[j].1.ports@.len() == 0
            &&& new[j].1.extra_hosts@.len() == 0
        }
    }
}

/// A target file checked against the main file's services, then
/// normalized, is `target_normalized`.
proof fn lemma_target_normalized(
    old: Seq<(Seq<char>, Service)>,
    after: Seq<(Seq<char>, Service)>,
    fin: Seq<(Seq<char>, Service)>,
    names: Seq<Seq<char>>,
    env: Seq<char>,
)
    requires
        keys_sorted(after),
        forall|k: Seq<char>| has_key(old, k) ==> lookup(after, k) == lookup(old, k),
        forall|k: Seq<char>| !has_key(old, k) && names.contains(k) ==> (lookup(after, k) matches Some(s) && is_empty_service(s)),
        forall|k: Seq<char>| has_key(after, k) <==> names.contains(k),
        normalized(after, fin, env),
    ensures
        target_normalized(old, fin, env),
{
    assert forall|j: int| 0 <= j < fin.len() implies {
        &&& has_key(old, (#[trigger] fin[j]).0) ==> env_prepended(lookup(old, fin[j].0)->0, fin[j].1, env)
        &&& !has_key(old, fin[j].0) ==> {
            &&& fin[j].1.env_files.deep_view() == seq![env]
            &&& fin[j].1.image is None
            &&& fin[j].1.build is None
            &&& fin[j].1.labels@.len() == 0
            &&& fin[j].1.environment@.len() == 0
            &&& fin[j].1.volumes@.len() == 0
            &&& fin[j].1.ports@.len() == 0
            &&& fin[j].1.extra_hosts@.len() == 0
        }
    } by {
        lemma_lookup_at(after, j);
        let k = after[j].0;
        assert(fin[j].0 == k);
        assert(env_prepended(after[j].1, fin[j].1, env));
        if !has_key(old, k) {
            assert(names.contains(k));
            assert(is_empty_service(after[j].1));
            assert(fin[j].1.env_files.deep_view() =~= seq![env]);
        }
    }
}

/// Information about one compose file of a pod: its path relative to the
/// pod's base directory, and its normalized contents.
#[derive(Debug, Clone)]
pub struct FileInfo {
    /// The path to this file relative to `pods/`.
    pub rel_path: String,
    /// The data loaded from the file, or an empty file if it did not
    /// exist, after normalization.
    pub file: File,
}

/// The path of a pod's main file relative to `pods/`.
pub open spec fn pod_rel_path(name: Seq<char>) -> Seq<char> {
    name + ".yml"@
}

/// The directory, relative to `pods/`, holding a target's files.
pub open spec fn target_dir(target: Seq<char>) -> Seq<char> {
    path_join("targets"@, target)
}

/// The path of a pod's file for a target, relative to `pods/`.
pub open spec fn target_rel_path(target: Seq<char>, name: Seq<char>) -> Seq<char> {
    path_join(target_dir(target), name + ".yml"@)
}

/// The path of a pod's metadata file relative to `pods/`.
pub open spec fn metadata_rel_path(name: Seq<char>) -> Seq<char> {
    name + ".metadata.yml"@
}

/// The path of a pod's metadata file, `$NAME.metadata.yml`, relative to
/// `pods/`.
pub fn metadata_path(name: &str) -> (r: String)
    ensures
        r@ == metadata_rel_path(name@),
{
    concat2(name, ".metadata.yml")
}

/// The path of a pod's file for `target`, relative to `pods/`.
pub fn target_file_path(target: &str, name: &str) -> (r: String)
    ensures
        r@ == target_rel_path(target@, name@),
{
    let dir = join_path("targets", target);
    let file = concat2(name, ".yml");
    join_path(dir.as_str(), file.as_str())
}

/// A pod, specified by `pods/$NAME.yml` and zero or more
/// `pods/targets/*/$NAME.yml` target files.
#[derive(Debug)]
pub struct Pod {
    /// The directory relative to which all paths in the files are
    /// interpreted.
    base_dir: String,
    /// The name of this pod.
    name: String,
    /// The top-level file defining this pod.
    file_info: FileInfo,
    /// The file for each target, one per target given at creation.
    target_file_infos: Vec<(Override, FileInfo)>,
    /// Per-pod configuration.
    config: PodConfig,
    /// The names of all the services in this pod, in ascending order.
    service_names: Vec<String>,
}

impl Pod {
    /// The name of this pod.
    pub closed spec fn name_view(&self) -> Seq<char> {
        self.name@
    }

    /// The base directory of this pod's paths.
    pub closed spec fn base_dir_view(&self) -> Seq<char> {
        self.base_dir@
    }

    /// The pod's configuration.
    pub closed spec fn config_view(&self) -> PodConfig {
        self.config
    }

    /// The names of the pod's services, in ascending order.
    pub closed spec fn service_names_view(&self) -> Seq<Seq<char>> {
        self.service_names.deep_view()
    }

    /// The pod's main file.
    pub closed spec fn file_view(&self) -> File {
        self.file_info.file
    }

    /// The path of the pod's main file relative to the base directory.
    pub closed spec fn rel_path_view(&self) -> Seq<char> {
        self.file_info.rel_path@
    }

    /// The targets for which this pod has files, in order.
    pub closed spec fn targets_view(&self) -> Seq<Seq<char>> {
        self.target_file_infos@.map_values(|e: (Override, FileInfo)| e.0@)
    }

    /// The file for the target at position `i`.
    pub closed spec fn target_info_view(&self, i: int) -> FileInfo {
        self.target_file_infos@[i].1
    }

    /// Create a pod named `name` from its files, already read: `base_file`
    /// is `$NAME.yml` and `target_files[i]` is the file for `targets[i]`
    /// (an empty file where none exists on disk).  Every service gets
    /// `common.env` of its file's directory first in its `env_file` list,
    /// and every target file is given the services of the main file that it
    /// leaves out.  A target file may not add services of its own.
    pub fn new(
        base_dir: &str,
        name: &str,
        targets: &Vec<Override>,
        config: PodConfig,
        base_file: File,
        target_files: Vec<File>,
    ) -> (r: Result<Pod, Error>)
        requires
            targets@.len() == target_files@.len(),
        ensures
            match r {
                Ok(pod) => {
                    &&& pod.name_view() == name@
                    &&& pod.base_dir_view() == base_dir@
                    &&& pod.config_view() == config
                    &&& pod.rel_path_view() == pod_rel_path(name@)
                    &&& pod.service_names_view() == key_seq(base_file.services@)
                    &&& normalized(base_file.services@, pod.file_view().services@, "common.env"@)
                    &&& forall|k: Seq<char>| #[trigger] has_key(pod.file_view().services@, k) <==> pod.service_names_view().contains(k)
                    &&& pod.targets_view().len() == targets@.len()
                    &&& forall|i: int| 0 <= i < targets@.len() ==> {
                        &&& #[trigger] pod.targets_view()[i] == targets@[i]@
                        &&& pod.target_info_view(i).rel_path@ == target_rel_path(targets@[i]@, name@)
                        &&& introduced(key_seq(target_files@[i].services@), key_seq(base_file.services@)).len() == 0
                        &&& forall|k: Seq<char>| has_key(pod.target_info_view(i).file.services@, k) <==> has_key(base_file.services@, k)
                        &&& forall|k: Seq<char>| #[trigger] has_key(pod.target_info_view(i).file.services@, k) <==> pod.service_names_view().contains(k)
                        &&& target_normalized(target_files@[i].services@, pod.target_info_view(i).file.services@, target_env(targets@[i]@))
                    }
                },
                Err(e) => exists|i: int| 0 <= i < targets@.len() && {
                    &&& introduced(key_seq(#[trigger] target_files@[i].services@), key_seq(base_file.services@)).len() > 0
                    &&& forall|j: int| 0 <= j < i ==> introduced(key_seq(#[trigger] target_files@[j].services@), key_seq(base_file.services@)).len() == 0
                    &&& e matches Error::ServicesAddedInTarget { base: b, target: t, names: ns }
                    &&& b@ == pod_rel_path(name@)
                    &&& t@ == target_rel_path(targets@[i]@, name@)
                    &&& ns.deep_view() == introduced(key_seq(target_files@[i].services@), key_seq(base_file.services@))
                },
            },
    {
        let rel_path = concat2(name, ".yml");
        let service_names = base_file.services.keys();
        let mut file = base_file;
        let ghost base_services = file.services@;
        finish_normalization(&mut file, "common.env");
        let mut infos: Vec<(Override, FileInfo)> = Vec::new();
        let mut rest = target_files;
        let ghost all_files = rest@;
        let mut i: usize = 0;
        while i < targets.len()
            invariant
                i <= targets@.len(),
                targets@.len() == all_files.len(),
                all_files == target_files@,
                base_services == base_file.services@,
                rest@ == all_files.subrange(i as int, all_files.len() as int),
                service_names.deep_view() == key_seq(base_services),
                infos@.len() == i,
                forall|j: int| 0 <= j < i ==> {
                    &&& (#[trigger] infos@[j]).0@ == targets@[j]@
                    &&& infos@[j].1.rel_path@ == target_rel_path(targets@[j]@, name@)
                    &&& introduced(key_seq(all_files[j].services@), key_seq(base_services)).len() == 0
                    &&& forall|k: Seq<char>| has_key(infos@[j].1.file.services@, k) <==> has_key(base_services, k)
                    &&& target_normalized(all_files[j].services@, infos@[j].1.file.services@, target_env(targets@[j]@))
                },
                rel_path@ == pod_rel_path(name@),
            decreases targets@.len() - i,
        {
            let mut tfile = rest.remove(0);
            assert(tfile == all_files[i as int]);
            assert(rest@ =~= all_files.subrange(i + 1, all_files.len() as int));
            let target_rel = target_file_path(targets[i].name(), name);
            let ghost t0 = tfile;
            match ensure_same_services(&mut tfile, rel_path.as_str(), target_rel.as_str(), &service_names) {
                Err(e) => {
                    assert(t0 == target_files@[i as int]);
                    assert(introduced(key_seq(target_files@[i as int].services@), key_seq(base_file.services@)).len() > 0);
                    assert forall|j: int| 0 <= j < i implies introduced(key_seq(#[trigger] target_files@[j].services@), key_seq(base_file.services@)).len() == 0 by {
                        assert(all_files[j] == target_files@[j]);
                        assert(infos@[j].0@ == targets@[j]@);
                    }
                    return Err(e);
                },
                Ok(()) => {},
            }
            let _ = tfile.services.len();
            let tdir = join_path("targets", targets[i].name());
            let env = join_path(tdir.as_str(), "common.env");
            assert(env@ == target_env(targets@[i as int]@));
            let ghost before_norm = tfile.services@;
            finish_normalization(&mut tfile, env.as_str());
            proof {
                lemma_target_normalized(t0.services@, before_norm, tfile.services@, key_seq(base_services), env@);
                lemma_normalized_keys(before_norm, tfile.services@, env@);
                assert forall|k: Seq<char>| has_key(tfile.services@, k) <==> has_key(base_services, k) by {
                    lemma_key_seq_contains(base_services, k);
                }
            }
            infos.push((targets[i].copy(), FileInfo { rel_path: target_rel, file: tfile }));
            i = i + 1;
        }
        let pod = Pod {
            base_dir: copy_str(base_dir),
            name: copy_str(name),
            file_info: FileInfo { rel_path, file },
            target_file_infos: infos,
            config,
            service_names,
        };
        assert(pod.targets_view().len() == targets@.len());
        assert forall|j: int| 0 <= j < targets@.len() implies #[trigger] pod.targets_view()[j] == targets@[j]@ by {
            assert(pod.targets_view()[j] == infos@[j].0@);
        }
        assert forall|j: int| 0 <= j < targets@.len() implies #[trigger] target_files@[j] == all_files[j] by {}
        proof {
            lemma_normalized_keys(base_services, pod.file_view().services@, "common.env"@);
            assert forall|k: Seq<char>| #[trigger] has_key(pod.file_view().services@, k) <==> pod.service_names_view().contains(k) by {
                lemma_key_seq_contains(base_services, k);
            }
            assert forall|j: int, k: Seq<char>| 0 <= j < targets@.len() implies
                (#[trigger] has_key(pod.target_info_view(j).file.services@, k) <==> pod.service_names_view().contains(k)) by {
                lemma_key_seq_contains(base_services, k);
                assert(pod.target_info_view(j) == infos@[j].1);
            }
        }
        Ok(pod)
    }
}


impl Pod {
    /// Get the name of this pod.
    pub fn name(&self) -> (r: &str)
        ensures
            r@ == self.name_view(),
    {
        self.name.as_str()
    }

    /// Get the type of this pod: a service unless configured otherwise.
    pub fn pod_type(&self) -> (r: PodType)
        ensures
            r == match self.config_view().pod_type {
                Some(t) => t,
                None => PodType::Service,
            },
    {
        match self.config.pod_type {
            Some(t) => t,
            None => PodType::Service,
        }
    }

    /// Get the names of the services declared in this pod, in ascending
    /// order.
    pub fn service_names(&self) -> (r: &Vec<String>)
        ensures
            r.deep_view() == self.service_names_view(),
    {
        &self.service_names
    }

    /// Is this pod enabled in the specified target?
    pub fn enabled_in(&self, target: &Override) -> (r: bool)
        ensures
            r == admits(opt_strings_view(self.config_view().enable_in_targets), target@),
    {
        target.is_enabled_by(&self.config.enable_in_targets)
    }

    /// The base directory for our relative paths.
    pub fn base_dir(&self) -> (r: &str)
        ensures
            r@ == self.base_dir_view(),
    {
        self.base_dir.as_str()
    }

    /// The path to the top-level file defining this pod, relative to the
    /// base directory.
    pub fn rel_path(&self) -> (r: &str)
        ensures
            r@ == self.rel_path_view(),
    {
        self.file_info.rel_path.as_str()
    }

    /// The top-level file defining this pod, normalized.
    pub fn file(&self) -> (r: &File)
        ensures
            *r == self.file_view(),
    {
        &self.file_info.file
    }

    /// The position of the first of the targets given at creation that is
    /// `target`.
    fn target_index(&self, target: &Override) -> (r: Option<usize>)
        ensures
            match r {
                Some(i) => i < self.targets_view().len() && first_target(*self, target@) == Some(i as int)
                    && self.target_file_infos@[i as int].0@ == target@,
                None => !self.targets_view().contains(target@) && first_target(*self, target@) is None,
            },
    {
        let mut i: usize = 0;
        while i < self.target_file_infos.len()
            invariant
                i <= self.target_file_infos@.len(),
                self.targets_view().len() == self.target_file_infos@.len(),
                forall|j: int| 0 <= j < i ==> self.targets_view()[j] != target@,
            decreases self.target_file_infos@.len() - i,
        {
            assert(self.targets_view()[i as int] == self.target_file_infos@[i as int].0@);
            if str_eq(self.target_file_infos[i].0.name(), target.name()) {
                proof {
                    let tv = self.targets_view();
                    assert(tv.contains(target@)) by {
                        assert(tv[i as int] == target@);
                    }
                    let c = choose|c: int| 0 <= c < tv.len() && tv[c] == target@ && forall|j: int| 0 <= j < c ==> tv[j] != target@;
                    assert(0 <= i < tv.len() && tv[i as int] == target@ && forall|j: int| 0 <= j < i ==> tv[j] != target@);
                    assert(c == i) by {
                        if c < i {
                            assert(tv[c] != target@);
                        } else if c > i {
                            assert(tv[i as int] != target@);
                        }
                    }
                }
                return Some(i);
            }
            i = i + 1;
        }
        None
    }

    /// The path of this pod's file for `target`, relative to the base
    /// directory; an error if `target` was not given at creation.
    pub fn target_rel_path(&self, target: &Override) -> (r: Result<&str, Error>)
        ensures
            match r {
                Ok(p) => first_target(*self, target@) matches Some(i) && p@ == self.target_info_view(i).rel_path@,
                Err(e) => first_target(*self, target@) is None && !self.targets_view().contains(target@) && (e matches Error::Message(m) && m@
                    == target_undefined_message(target@)),
            },
    {
        match self.target_index(target) {
            Some(i) => {
                assert(self.target_info_view(i as int) == self.target_file_infos@[i as int].1);
                Ok(self.target_file_infos[i].1.rel_path.as_str())
            },
            None => Err(Error::Message(concat3("The target ", target.name(), " is not defined"))),
        }
    }

    /// This pod's file for `target`; an error if `target` was not given at
    /// creation.
    pub fn target_file(&self, target: &Override) -> (r: Result<&File, Error>)
        ensures
            match r {
                Ok(f) => target_file_for(*self, target@) == Some(*f),
                Err(e) => target_file_for(*self, target@) is None && !self.targets_view().contains(target@) && (e matches Error::Message(m) && m@
                    == target_undefined_message(target@)),
            },
    {
        match self.target_index(target) {
            Some(i) => {
                assert(self.target_info_view(i as int) == self.target_file_infos@[i as int].1);
                Ok(&self.target_file_infos[i].1.file)
            },
            None => Err(Error::Message(concat3("The target ", target.name(), " is not defined"))),
        }
    }

    /// This pod's configuration.
    pub fn config(&self) -> (r: &PodConfig)
        ensures
            *r == self.config_view(),
    {
        &self.config
    }

    /// The commands we should run to initialize this pod.
    pub fn run_on_init(&self) -> (r: &Vec<Vec<String>>)
        ensures
            *r == self.config_view().run_on_init,
    {
        &self.config.run_on_init
    }
}

/// The labels of service `name` in `f`, or none if `f` lacks it.
pub open spec fn service_labels_of(f: File, name: Seq<char>) -> Seq<(Seq<char>, String)> {
    match lookup(f.services@, name) {
        Some(s) => s.labels@,
        None => Seq::empty(),
    }
}

/// The label `k` of service `name` once `over` is merged into `base`.
pub open spec fn merged_label(base: File, over: File, name: Seq<char>, k: Seq<char>) -> Option<Seq<char>> {
    if has_key(service_labels_of(over, name), k) {
        label_text(service_labels_of(over, name), k)
    } else {
        label_text(service_labels_of(base, name), k)
    }
}

/// The position of the first target of `pod` named `target`, if any.
pub open spec fn first_target(pod: Pod, target: Seq<char>) -> Option<int> {
    let tv = pod.targets_view();
    if tv.contains(target) {
        Some(choose|c: int| 0 <= c < tv.len() && tv[c] == target && forall|j: int| 0 <= j < c ==> tv[j] != target)
    } else {
        None
    }
}

/// The file `pod` has for the target named `target`, if any.
pub open spec fn target_file_for(pod: Pod, target: Seq<char>) -> Option<File> {
    match first_target(pod, target) {
        Some(i) => Some(pod.target_info_view(i).file),
        None => None,
    }
}

impl Pod {
    /// The labels of service `name` once this pod's file for `target` is
    /// merged into its main file: an error if the target is not defined for
    /// this pod or neither file has the service.
    pub fn merged_labels(&self, target: &Override, name: &str) -> (r: Result<StrMap<String>, Error>)
        ensures
            match target_file_for(*self, target@) {
                None => r matches Err(e) && (e matches Error::Message(m) && m@ == target_undefined_message(target@)),
                Some(f) => if has_key(self.file_view().services@, name@) || has_key(f.services@, name@) {
                    r matches Ok(l) && forall|k: Seq<char>| #[trigger] label_text(l@, k) == merged_label(self.file_view(), f, name@, k)
                } else {
                    r matches Err(e) && (e matches Error::UnknownService(n) && n@ == name@)
                },
            },
    {
        let tf = match self.target_file(target) {
            Ok(f) => f,
            Err(e) => {
                return Err(e);
            },
        };
        let base = self.file_info.file.services.get(name);
        let over = tf.services.get(name);
        if base.is_none() && over.is_none() {
            return Err(Error::UnknownService(copy_str(name)));
        }
        let empty: StrMap<String> = StrMap::new();
        let bl = match base {
            Some(s) => &s.labels,
            None => &empty,
        };
        let ol = match over {
            Some(s) => &s.labels,
            None => &empty,
        };
        assert(bl@ == service_labels_of(self.file_view(), name@));
        assert(ol@ == service_labels_of(*tf, name@));
        let merged = merge_labels(bl, ol);
        Ok(merged)
    }
}

/// All the files of a pod: its main file, then its file for each target.
pub open spec fn pod_files(pod: Pod) -> Seq<File> {
    seq![pod.file_view()] + Seq::new(pod.targets_view().len(), |i: int| pod.target_info_view(i).file)
}

impl Pod {
    /// How many targets this pod has files for: it has one more file.
    pub fn target_count(&self) -> (r: usize)
        ensures
            r + 1 == pod_files(*self).len(),
    {
        assert(self.targets_view().len() == self.target_file_infos@.len());
        self.target_file_infos.len()
    }

    /// The file at position `i` of `pod_files`.
    pub fn file_at(&self, i: usize) -> (r: &File)
        requires
            i < pod_files(*self).len(),
        ensures
            *r == pod_files(*self)[i as int],
    {
        assert(self.targets_view().len() == self.target_file_infos@.len());
        if i == 0 {
            &self.file_info.file
        } else {
            assert(pod_files(*self)[i as int] == self.target_info_view(i - 1).file);
            assert(self.target_info_view(i - 1) == self.target_file_infos@[i - 1].1);
            &self.target_file_infos[i - 1].1.file
        }
    }
}

/// The message of the error for a target that a pod does not know.
pub open spec fn target_undefined_message(name: Seq<char>) -> Seq<char> {
    "The target "@ + name + " is not defined"@
}

} // verus!
