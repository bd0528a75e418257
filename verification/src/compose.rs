//! The parts of a `docker-compose.yml` file that this library reads and
//! rewrites: per service, its image, build context, `env_file` list,
//! labels, environment, volume mounts, port mappings and extra hosts.

use vstd::prelude::*;

use crate::errors::Error;
use crate::strmap::{has_key, keys_sorted, lemma_lookup_at, lookup, StrMap};
use crate::text::{concat2, concat3, copy_str, starts_with, suffix_from, is_prefix};

verus! {

/// Where the source code for a service's image comes from.
#[derive(Debug, Clone)]
pub enum Context {
    /// A local directory.
    Dir(String),
    /// A git repository URL.
    GitUrl(String),
}

/// The text of a context.
pub open spec fn context_text(c: Context) -> Seq<char> {
    match c {
        Context::Dir(d) => d@,
        Context::GitUrl(u) => u@,
    }
}

impl Context {
    /// The text of this context (the directory or the URL).
    pub fn text(&self) -> (r: &str)
        ensures
            r@ == context_text(*self),
    {
        match self {
            Context::Dir(d) => d.as_str(),
            Context::GitUrl(u) => u.as_str(),
        }
    }

    /// The URL of the git repository associated with this context, if there
    /// is one.
    pub fn git_url(&self) -> (r: Option<&str>)
        ensures
            match *self {
                Context::GitUrl(u) => r matches Some(s) && s@ == u@,
                Context::Dir(_) => r is None,
            },
    {
        match self {
            Context::GitUrl(u) => Some(u.as_str()),
            Context::Dir(_) => None,
        }
    }

    /// Do two contexts name the same directory or the same URL?
    pub fn same_as(&self, other: &Context) -> (r: bool)
        ensures
            r == (match (*self, *other) {
                (Context::Dir(a), Context::Dir(b)) => a@ == b@,
                (Context::GitUrl(a), Context::GitUrl(b)) => a@ == b@,
                _ => false,
            }),
    {
        match (self, other) {
            (Context::Dir(a), Context::Dir(b)) => crate::text::str_eq(a.as_str(), b.as_str()),
            (Context::GitUrl(a), Context::GitUrl(b)) => crate::text::str_eq(a.as_str(), b.as_str()),
            _ => false,
        }
    }
}

/// The `build` section of a service.
#[derive(Debug, Clone)]
pub struct Build {
    /// Where to build the image from.
    pub context: Context,
}

/// A volume mounted into a container.
#[derive(Debug, Clone)]
pub struct VolumeMount {
    /// The host path, if any.
    pub host: Option<String>,
    /// The path inside the container.
    pub container: String,
}

/// A port exposed by a container, by its host side.
#[derive(Debug, Clone)]
pub struct PortMapping {
    /// The host address on which to listen, if specified.
    pub host_address: Option<String>,
    /// The host port or port range, if specified.
    pub host_ports: Option<String>,
}

/// The host part of a port mapping, as `PortMapping::host_string` gives it.
pub open spec fn host_string_spec(p: PortMapping) -> Option<Seq<char>> {
    match (p.host_address, p.host_ports) {
        (Some(addr), Some(ports)) => Some(addr@ + ":"@ + ports@),
        (None, Some(ports)) => Some(ports@),
        _ => None,
    }
}

impl PortMapping {
    /// A string representation of the host portion of this port mapping,
    /// if any.  Mappings assigned by Docker at runtime have none.
    pub fn host_string(&self) -> (r: Option<String>)
        ensures
            match r {
                Some(s) => host_string_spec(*self) == Some(s@),
                None => host_string_spec(*self) is None,
            },
    {
        match (&self.host_address, &self.host_ports) {
            (Some(addr), Some(ports)) => Some(concat3(addr.as_str(), ":", ports.as_str())),
            (None, Some(ports)) => Some(copy_str(ports.as_str())),
            _ => None,
        }
    }
}

/// An extra `/etc/hosts` entry for a container.
#[derive(Debug, Clone)]
pub struct HostMapping {
    /// The host name.
    pub host: String,
    /// The address it resolves to.
    pub address: String,
}

/// One service of a `docker-compose.yml` file.
#[derive(Debug, Clone)]
pub struct Service {
    /// The image to run, as written (`name[:tag]` or `name@digest`).
    pub image: Option<String>,
    /// How to build the image, if it is built locally.
    pub build: Option<Build>,
    /// Files of environment variables, in order.
    pub env_files: Vec<String>,
    /// Labels, by name.
    pub labels: StrMap<String>,
    /// Environment variables, by name.
    pub environment: StrMap<String>,
    /// Volume mounts, in order.
    pub volumes: Vec<VolumeMount>,
    /// Port mappings, in order.
    pub ports: Vec<PortMapping>,
    /// Extra host name entries, in order.
    pub extra_hosts: Vec<HostMapping>,
}

/// An empty service, as a target file gets for each service it leaves out.
pub open spec fn is_empty_service(s: Service) -> bool {
    &&& s.image is None
    &&& s.build is None
    &&& s.env_files@.len() == 0
    &&& s.labels@.len() == 0
    &&& s.environment@.len() == 0
    &&& s.volumes@.len() == 0
    &&& s.ports@.len() == 0
    &&& s.extra_hosts@.len() == 0
}

/// The label holding the directory in which to mount a service's source.
pub open spec fn label_srcdir() -> Seq<char> {
    "io.fdy.cage.srcdir"@
}

/// The label holding a service's preferred shell.
pub open spec fn label_shell() -> Seq<char> {
    "io.fdy.cage.shell"@
}

/// The label holding a service's test command.
pub open spec fn label_test() -> Seq<char> {
    "io.fdy.cage.test"@
}

/// The prefix of labels naming libraries to mount into a service.
pub open spec fn lib_label_prefix() -> Seq<char> {
    "io.fdy.cage.lib."@
}

/// The value of label `name` in `labels`, or `default`.
pub open spec fn label_or(labels: Seq<(Seq<char>, String)>, name: Seq<char>, default: Seq<char>) -> Seq<char> {
    match lookup(labels, name) {
        Some(v) => v@,
        None => default,
    }
}

/// The library mounts requested by the labels in `labels`: for each label
/// `io.fdy.cage.lib.KEY` with value `PATH`, in label order, the pair
/// `(KEY, PATH)`.
pub open spec fn lib_mounts_spec(labels: Seq<(Seq<char>, String)>) -> Seq<(Seq<char>, Seq<char>)>
    decreases labels.len(),
{
    if labels.len() == 0 {
        Seq::empty()
    } else {
        let rest = lib_mounts_spec(labels.drop_last());
        let (k, v) = labels.last();
        if is_prefix(lib_label_prefix(), k) {
            rest.push((k.skip(lib_label_prefix().len() as int), v@))
        } else {
            rest
        }
    }
}

/// What `shlex::split` gives for `s`: the shell words, or `None` when the
/// text cannot be split (an unterminated quote or a trailing backslash).
pub uninterp spec fn shell_words(s: Seq<char>) -> Option<Seq<Seq<char>>>;

/// Calls `shlex::split`, which splits `s` into words as a POSIX shell would.
/// The contract names the result; nothing more about the words is claimed.
#[verifier::external_body]
fn split_shell_words(s: &str) -> (r: Option<Vec<String>>)
    ensures
        match r {
            Some(words) => shell_words(s@) == Some(words.deep_view()),
            None => shell_words(s@) is None,
        },
{
    shlex::split(s)
}

/// What `compose_yml::v2::GitUrl::subdirectory` gives for the URL `u`,
/// with `None` also when `GitUrl::new` refuses `u`.  `GitUrl::new` accepts
/// a URL with a git prefix that its pattern
/// `^([^#]+)(?:#([^:]+)?(?::(.+))?)?$` reads; the subdirectory is the third
/// group: after the first `#`, the text after the first `:`, which must be
/// non-empty and hold no line break (or the pattern, and so `new`, fails).
pub open spec fn git_url_subdirectory_of(u: Seq<char>) -> Option<Seq<char>> {
    if !crate::git_url::has_git_prefix(u) {
        None
    } else {
        match crate::text::first_index_of(u, '#') {
            None => None,
            Some(p) => {
                let f = u.skip(p + 1);
                match crate::text::first_index_of(f, ':') {
                    None => None,
                    Some(q) => {
                        let d = f.skip(q + 1);
                        if d.len() > 0 && !d.contains('\n') {
                            Some(d)
                        } else {
                            None
                        }
                    },
                }
            },
        }
    }
}

/// Calls `compose_yml::v2::GitUrl::new` and then `subdirectory` on it.  The
/// contract says what the two give, as `git_url_subdirectory_of` spells out.
#[verifier::external_body]
fn git_url_subdirectory(u: &str) -> (r: Option<String>)
    ensures
        match r {
            Some(s) => git_url_subdirectory_of(u@) == Some(s@),
            None => git_url_subdirectory_of(u@) is None,
        },
{
    match compose_yml::v2::GitUrl::new(u) {
        Ok(url) => url.subdirectory().map(|s| s.to_owned()),
        Err(_) => None,
    }
}

impl Service {
    /// A service with nothing set.
    pub fn empty() -> (r: Service)
        ensures
            is_empty_service(r),
    {
        Service {
            image: None,
            build: None,
            env_files: Vec::new(),
            labels: StrMap::new(),
            environment: StrMap::new(),
            volumes: Vec::new(),
            ports: Vec::new(),
            extra_hosts: Vec::new(),
        }
    }

    /// The build context associated with this service (either a git
    /// repository URL or a local directory).
    pub fn context(&self) -> (r: Option<&Context>)
        ensures
            match self.build {
                Some(b) => r == Some(&b.context),
                None => r is None,
            },
    {
        match &self.build {
            Some(b) => Some(&b.context),
            None => None,
        }
    }

    /// The directory in which to mount our source code if it's checked
    /// out: the `io.fdy.cage.srcdir` label, or `/app`.
    pub fn source_mount_dir(&self) -> (r: String)
        ensures
            r@ == label_or(self.labels@, label_srcdir(), "/app"@),
    {
        match self.labels.get("io.fdy.cage.srcdir") {
            Some(v) => copy_str(v.as_str()),
            None => copy_str("/app"),
        }
    }

    /// The default shell for interactive access to a container: the
    /// `io.fdy.cage.shell` label, or `sh`.
    pub fn shell(&self) -> (r: String)
        ensures
            r@ == label_or(self.labels@, label_shell(), "sh"@),
    {
        match self.labels.get("io.fdy.cage.shell") {
            Some(v) => copy_str(v.as_str()),
            None => copy_str("sh"),
        }
    }

    /// The test command for this service: the `io.fdy.cage.test` label,
    /// split into shell words.
    pub fn test_command(&self) -> (r: Result<Vec<String>, Error>)
        ensures
            lookup(self.labels@, label_test()) is None ==> (r matches Err(Error::Message(m))
                && m@ == "specify a value for the label io.fdy.cage.test to run tests"@),
            lookup(self.labels@, label_test()) matches Some(raw) ==> match shell_words(raw@) {
                Some(words) => (r matches Ok(v) && v.deep_view() == words),
                None => (r matches Err(Error::Message(m)) && m@ == "cannot parse <"@ + raw@
                    + "> into shell words"@),
            },
    {
        match self.labels.get("io.fdy.cage.test") {
            None => Err(Error::msg("specify a value for the label io.fdy.cage.test to run tests")),
            Some(raw) => match split_shell_words(raw.as_str()) {
                Some(words) => Ok(words),
                None => Err(Error::Message(concat3("cannot parse <", raw.as_str(), "> into shell words"))),
            },
        }
    }

    /// The subdirectory inside the source where the code for this service
    /// lives: `None` unless the build context is a git repository whose URL
    /// names a subdirectory.
    pub fn repository_subdirectory(&self) -> (r: Option<String>)
        ensures
            match self.build {
                Some(b) => match b.context {
                    Context::GitUrl(u) => match r {
                        Some(s) => git_url_subdirectory_of(u@) == Some(s@),
                        None => git_url_subdirectory_of(u@) is None,
                    },
                    Context::Dir(_) => r is None,
                },
                None => r is None,
            },
    {
        match self.context() {
            Some(Context::GitUrl(u)) => git_url_subdirectory(u.as_str()),
            _ => None,
        }
    }

    /// The libraries to mount into this service: for each label
    /// `io.fdy.cage.lib.KEY`, the key and the label's value, the path at
    /// which to mount it.
    pub fn lib_mounts(&self) -> (r: Vec<(String, String)>)
        ensures
            r@.len() == lib_mounts_spec(self.labels@).len(),
            forall|i: int| 0 <= i < r@.len() ==> (#[trigger] r@[i]).0@ == lib_mounts_spec(self.labels@)[i].0
                && r@[i].1@ == lib_mounts_spec(self.labels@)[i].1,
    {
        let mut out: Vec<(String, String)> = Vec::new();
        let n = self.labels.len();
        let mut i: usize = 0;
        while i < n
            invariant
                n == self.labels@.len(),
                i <= n,
                out@.len() == lib_mounts_spec(self.labels@.take(i as int)).len(),
                forall|j: int| 0 <= j < out@.len() ==> (#[trigger] out@[j]).0@ == lib_mounts_spec(
                    self.labels@.take(i as int),
                )[j].0 && out@[j].1@ == lib_mounts_spec(self.labels@.take(i as int))[j].1,
            decreases n - i,
        {
            let (label, mount_as) = self.labels.entry(i);
            assert(self.labels@.take(i + 1).drop_last() =~= self.labels@.take(i as int));
            assert(self.labels@.take(i + 1).last() == self.labels@[i as int]);
            if starts_with(label.as_str(), "io.fdy.cage.lib.") {
                proof {
                    reveal_strlit("io.fdy.cage.lib.");
                }
                let key = suffix_from(label.as_str(), 16);
                out.push((key, copy_str(mount_as.as_str())));
            }
            i = i + 1;
        }
        assert(self.labels@.take(n as int) =~= self.labels@);
        out
    }
}

/// A `docker-compose.yml` file: its services, by name.
#[derive(Debug, Clone)]
pub struct File {
    /// The services, by name.
    pub services: StrMap<Service>,
}

impl File {
    /// A file with no services, as a missing file is read.
    pub fn empty() -> (r: File)
        ensures
            r.services@.len() == 0,
    {
        File { services: StrMap::new() }
    }
}


/// The text of the label `k` among `labels`, if present.
pub open spec fn label_text(labels: Seq<(Seq<char>, String)>, k: Seq<char>) -> Option<Seq<char>> {
    match lookup(labels, k) {
        Some(v) => Some(v@),
        None => None,
    }
}

/// Copy every entry of `src` into `dst`, replacing what `dst` had under
/// the same keys.
pub fn insert_all(dst: &mut StrMap<String>, src: &StrMap<String>)
    ensures
        forall|k: Seq<char>| #[trigger] label_text(final(dst)@, k) == if has_key(src@, k) {
            label_text(src@, k)
        } else {
            label_text(old(dst)@, k)
        },
{
    let ghost start = dst@;
    let n = src.len();
    let mut i: usize = 0;
    while i < n
        invariant
            n == src@.len(),
            keys_sorted(src@),
            i <= n,
            forall|k: Seq<char>| #[trigger] label_text(dst@, k) == if has_key(src@.take(i as int), k) {
                label_text(src@, k)
            } else {
                label_text(start, k)
            },
        decreases n - i,
    {
        let (k, v) = src.entry(i);
        let ghost kv = k@;
        proof {
            lemma_lookup_at(src@, i as int);
        }
        let ghost before = dst@;
        let kc = k.clone();
        let vc = v.clone();
        assert(vc@ == v@);
        dst.insert(kc, vc);
        assert forall|k2: Seq<char>| #[trigger] label_text(dst@, k2) == if has_key(src@.take(i + 1), k2) {
            label_text(src@, k2)
        } else {
            label_text(start, k2)
        } by {
            if k2 == kv {
                assert(src@.take(i + 1)[i as int].0 == kv);
                assert(lookup(dst@, kv) == Some(vc));
            } else {
                assert(lookup(dst@, k2) == lookup(before, k2));
                assert(label_text(before, k2) == if has_key(src@.take(i as int), k2) {
                    label_text(src@, k2)
                } else {
                    label_text(start, k2)
                });
                if has_key(src@.take(i + 1), k2) {
                    let j = choose|j: int| 0 <= j < src@.take(i + 1).len() && #[trigger] src@.take(i + 1)[j].0 == k2;
                    assert(j != i);
                    assert(src@.take(i as int)[j].0 == k2);
                }
                if has_key(src@.take(i as int), k2) {
                    let j = choose|j: int| 0 <= j < src@.take(i as int).len() && #[trigger] src@.take(i as int)[j].0 == k2;
                    assert(src@.take(i + 1)[j].0 == k2);
                }
            }
        }
        i = i + 1;
    }
    assert(src@.take(n as int) =~= src@);
}

/// The labels of `base` with those of `over` put over them, as merging a
/// target's file into a pod's file does.
pub fn merge_labels(base: &StrMap<String>, over: &StrMap<String>) -> (r: StrMap<String>)
    ensures
        forall|k: Seq<char>| #[trigger] label_text(r@, k) == if has_key(over@, k) {
            label_text(over@, k)
        } else {
            label_text(base@, k)
        },
{
    let mut r: StrMap<String> = StrMap::new();
    insert_all(&mut r, base);
    insert_all(&mut r, over);
    r
}

/// The library key of a label `io.fdy.cage.lib.KEY` is `KEY`: each library
/// mount is such a label with its prefix taken off, paired with the
/// label's value, and each such label gives its mount.
pub proof fn lemma_lib_mounts_strip_prefix(labels: Seq<(Seq<char>, String)>)
    ensures
        forall|j: int| 0 <= j < lib_mounts_spec(labels).len() ==> exists|i: int| #![trigger labels[i]] 0 <= i < labels.len()
            && labels[i].0 == "io.fdy.cage.lib."@ + (#[trigger] lib_mounts_spec(labels)[j]).0
            && labels[i].1@ == lib_mounts_spec(labels)[j].1,
        forall|i: int| 0 <= i < labels.len() && (#[trigger] labels[i]).0.len() >= 16 && labels[i].0.take(16) == "io.fdy.cage.lib."@
            ==> exists|j: int| 0 <= j < lib_mounts_spec(labels).len()
            && #[trigger] lib_mounts_spec(labels)[j] == (labels[i].0.skip(16), labels[i].1@),
    decreases labels.len(),
{
    reveal_strlit("io.fdy.cage.lib.");
    if labels.len() > 0 {
        let prev_labels = labels.drop_last();
        lemma_lib_mounts_strip_prefix(prev_labels);
        let prev = lib_mounts_spec(prev_labels);
        let all = lib_mounts_spec(labels);
        let n = labels.len() - 1;
        let (k, v) = labels.last();
        assert(labels[n] == labels.last());
        let hit = is_prefix(lib_label_prefix(), k);
        if hit {
            assert(all == prev.push((k.skip(16), v@)));
            assert(k.subrange(0, 16) == "io.fdy.cage.lib."@);
            assert(k =~= "io.fdy.cage.lib."@ + k.skip(16));
        } else {
            assert(all == prev);
        }
        assert forall|j: int| 0 <= j < all.len() implies exists|i: int| #![trigger labels[i]] 0 <= i < labels.len()
            && labels[i].0 == "io.fdy.cage.lib."@ + (#[trigger] all[j]).0 && labels[i].1@ == all[j].1 by {
            if j < prev.len() {
                assert(all[j] == prev[j]);
                let i = choose|i: int| #![trigger prev_labels[i]] 0 <= i < prev_labels.len()
                    && prev_labels[i].0 == "io.fdy.cage.lib."@ + prev[j].0 && prev_labels[i].1@ == prev[j].1;
                assert(labels[i] == prev_labels[i]);
            } else {
                assert(labels[n].0 == "io.fdy.cage.lib."@ + all[j].0);
            }
        }
        assert forall|i: int| 0 <= i < labels.len() && (#[trigger] labels[i]).0.len() >= 16 && labels[i].0.take(16) == "io.fdy.cage.lib."@
            implies exists|j: int| 0 <= j < all.len() && #[trigger] all[j] == (labels[i].0.skip(16), labels[i].1@) by {
            if i < n {
                assert(prev_labels[i] == labels[i]);
                let j = choose|j: int| 0 <= j < prev.len() && #[trigger] prev[j] == (prev_labels[i].0.skip(16), prev_labels[i].1@);
                assert(all[j] == prev[j]);
            } else {
                assert(k.subrange(0, 16) =~= k.take(16));
                assert(hit);
                assert(all[prev.len() as int] == (k.skip(16), v@));
            }
        }
    }
}

} // verus!
