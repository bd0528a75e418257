//! Which source trees are mounted into a service, and where.

use vstd::prelude::*;

use crate::act_on::ActOnSources;
use crate::compose::{git_url_subdirectory_of, label_or, label_srcdir, label_text, lib_mounts_spec, Build, Context, File, Service, VolumeMount};
use crate::paths::{join_path, path_join};
use crate::sources::{ctx_view, Source};
use crate::transform::{each_service, Operation};
use crate::errors::Error;
use crate::ovr::contains_str;
use crate::sources::{alias_of, alias_ok};
use crate::strmap::{has_key, lookup};
use crate::text::copy_str;

verus! {

/// A source tree mounted into a container.
#[derive(Debug, Clone)]
pub struct SourceMount {
    /// Where the tree is mounted inside the container.
    pub container_path: String,
    /// The alias of the tree.
    pub alias: String,
    /// The subdirectory of the tree holding the service's code, if any.
    pub source_subdirectory: Option<String>,
}

/// A mount as a value.
pub open spec fn mount_view(m: SourceMount) -> (Seq<char>, Seq<char>, Option<Seq<char>>) {
    (
        m.container_path@,
        m.alias@,
        match m.source_subdirectory {
            Some(s) => Some(s@),
            None => None,
        },
    )
}

/// All the source trees that can be mounted into a service: its build
/// context's tree, if known, then its libraries.
#[derive(Debug, Clone)]
pub struct Sources {
    /// The mounts, in that order.
    pub mounts: Vec<SourceMount>,
}

/// The subdirectory of the service's repository holding its code.
pub open spec fn subdirectory_spec(s: Service) -> Option<Seq<char>> {
    match s.build {
        Some(b) => match b.context {
            Context::GitUrl(u) => git_url_subdirectory_of(u@),
            Context::Dir(_) => None,
        },
        None => None,
    }
}

/// The mount of the service's own tree, if its build context has a known
/// tree.
pub open spec fn context_mount(s: Service, trees: Seq<(Seq<char>, ((bool, Seq<char>), bool))>) -> Option<(Seq<char>, Seq<char>, Option<Seq<char>>)> {
    match s.build {
        Some(b) => if has_key(trees, alias_of(b.context)) {
            Some((label_or(s.labels@, label_srcdir(), "/app"@), alias_of(b.context), subdirectory_spec(s)))
        } else {
            None
        },
        None => None,
    }
}

/// Does library key `key` refer to a known tree?
pub open spec fn lib_resolves(lib_keys: Seq<(Seq<char>, String)>, trees: Seq<(Seq<char>, ((bool, Seq<char>), bool))>, key: Seq<char>) -> bool {
    label_text(lib_keys, key) matches Some(a) && has_key(trees, a)
}

/// The library mounts of `libs` (key, path) pairs, each with the tree its
/// key refers to.
pub open spec fn lib_mounts_of(libs: Seq<(Seq<char>, Seq<char>)>, lib_keys: Seq<(Seq<char>, String)>) -> Seq<(Seq<char>, Seq<char>, Option<Seq<char>>)> {
    libs.map_values(|l: (Seq<char>, Seq<char>)| (l.1, label_text(lib_keys, l.0)->0, None::<Seq<char>>))
}

impl Service {
    /// The source trees that can be mounted into this service: the tree
    /// of its build context, if known, mounted at its source directory,
    /// then each library of its `io.fdy.cage.lib.KEY` labels, mounted at the
    /// label's value.  A library key that refers to no tree is an error.
    pub fn sources(&self, sources: &crate::sources::Sources) -> (r: Result<Sources, Error>)
        requires
            self.build matches Some(b) ==> alias_ok(alias_of(b.context)),
        ensures
            (forall|i: int| 0 <= i < lib_mounts_spec(self.labels@).len() ==> lib_resolves(
                sources.lib_keys_view(),
                sources.trees_view(),
                #[trigger] lib_mounts_spec(self.labels@)[i].0,
            )) <==> r is Ok,
            r matches Ok(s) ==> s.mounts@.map_values(|m: SourceMount| mount_view(m)) == match context_mount(
                *self,
                sources.trees_view(),
            ) {
                Some(m) => seq![m],
                None => Seq::empty(),
            } + lib_mounts_of(lib_mounts_spec(self.labels@), sources.lib_keys_view()),
            r matches Err(e) ==> (e matches Error::UnknownLibKey(k) && exists|i: int| 0 <= i < lib_mounts_spec(self.labels@).len()
                && #[trigger] lib_mounts_spec(self.labels@)[i].0 == k@ && !lib_resolves(
                sources.lib_keys_view(),
                sources.trees_view(),
                k@,
            )),
    {
        let container_path = self.source_mount_dir();
        let subdir = self.repository_subdirectory();
        let mut mounts: Vec<SourceMount> = Vec::new();
        if let Some(ctx) = self.context() {
            match crate::sources::human_alias(ctx) {
                Ok(alias) => {
                    match sources.find_by_alias(alias.as_str()) {
                        Some(_) => {
                            mounts.push(SourceMount { container_path, alias, source_subdirectory: subdir });
                        },
                        None => {},
                    }
                },
                Err(_) => {},
            }
        }
        let ghost head = mounts@.map_values(|m: SourceMount| mount_view(m));
        assert(head == match context_mount(*self, sources.trees_view()) {
            Some(m) => seq![m],
            None => Seq::<(Seq<char>, Seq<char>, Option<Seq<char>>)>::empty(),
        }) by {
            assert(mounts@.map_values(|m: SourceMount| mount_view(m)) =~= match context_mount(*self, sources.trees_view()) {
                Some(m) => seq![m],
                None => Seq::<(Seq<char>, Seq<char>, Option<Seq<char>>)>::empty(),
            });
        }
        let libs = self.lib_mounts();
        let ghost lv = lib_mounts_spec(self.labels@);
        let mut i: usize = 0;
        while i < libs.len()
            invariant
                lv == lib_mounts_spec(self.labels@),
                libs@.len() == lv.len(),
                forall|j: int| 0 <= j < libs@.len() ==> (#[trigger] libs@[j]).0@ == lv[j].0 && libs@[j].1@ == lv[j].1,
                i <= libs@.len(),
                forall|j: int| 0 <= j < i ==> lib_resolves(sources.lib_keys_view(), sources.trees_view(), #[trigger] lv[j].0),
                mounts@.map_values(|m: SourceMount| mount_view(m)) == head + lib_mounts_of(lv.take(i as int), sources.lib_keys_view()),
            decreases libs@.len() - i,
        {
            let (key, path) = (&libs[i].0, &libs[i].1);
            match sources.find_by_lib_key(key.as_str()) {
                Some(src) => {
                    assert(key@ == lv[i as int].0);
                    assert(src.alias_view() == label_text(sources.lib_keys_view(), lv[i as int].0)->0);
                    let ghost before = mounts@.map_values(|m: SourceMount| mount_view(m));
                    let m = SourceMount { container_path: copy_str(path.as_str()), alias: copy_str(src.alias()), source_subdirectory: None };
                    assert(mount_view(m) == (lv[i as int].1, label_text(sources.lib_keys_view(), lv[i as int].0)->0, None::<Seq<char>>));
                    mounts.push(m);
                    assert(mounts@.map_values(|m: SourceMount| mount_view(m)) =~= before.push(
                        (lv[i as int].1, label_text(sources.lib_keys_view(), lv[i as int].0)->0, None::<Seq<char>>),
                    ));
                    assert(lib_mounts_of(lv.take(i + 1), sources.lib_keys_view()) =~= lib_mounts_of(
                        lv.take(i as int),
                        sources.lib_keys_view(),
                    ).push((lv[i as int].1, label_text(sources.lib_keys_view(), lv[i as int].0)->0, None::<Seq<char>>)));
                    assert(mounts@.map_values(|m: SourceMount| mount_view(m)) =~= head + lib_mounts_of(
                        lv.take(i + 1),
                        sources.lib_keys_view(),
                    ));
                },
                None => {
                    return Err(Error::UnknownLibKey(copy_str(key.as_str())));
                },
            }
            i = i + 1;
        }
        assert(lv.take(libs@.len() as int) =~= lv);
        Ok(Sources { mounts })
    }
}

/// Does `a` select the source tree with alias `alias`?
pub open spec fn selects(a: ActOnSources, alias: Seq<char>) -> bool {
    match a {
        ActOnSources::All => true,
        ActOnSources::Named(names) => names.deep_view().contains(alias),
    }
}

impl ActOnSources {
    /// The positions, in alias order, of the source trees this selects:
    /// all of them, or those whose aliases are named.
    pub fn sources_mut(&self, sources: &crate::sources::Sources) -> (r: Vec<usize>)
        ensures
            forall|j: int| 0 <= j < r@.len() ==> #[trigger] r@[j] < sources.trees_view().len(),
            forall|j: int, k: int| 0 <= j < k < r@.len() ==> r@[j] < r@[k],
            forall|t: int| 0 <= t < sources.trees_view().len() ==> (r@.contains(t as usize) <==> selects(*self, #[trigger] sources.trees_view()[t].0)),
    {
        let mut out: Vec<usize> = Vec::new();
        let n = sources.len();
        let mut t: usize = 0;
        while t < n
            invariant
                n == sources.trees_view().len(),
                t <= n,
                forall|j: int| 0 <= j < out@.len() ==> #[trigger] out@[j] < t,
                forall|j: int, k: int| 0 <= j < k < out@.len() ==> out@[j] < out@[k],
                forall|x: int| 0 <= x < t ==> (out@.contains(x as usize) <==> selects(*self, #[trigger] sources.trees_view()[x].0)),
            decreases n - t,
        {
            let alias = sources.get(t).alias();
            let selected = match self {
                ActOnSources::All => true,
                ActOnSources::Named(names) => contains_str(names, alias),
            };
            assert(selected == selects(*self, sources.trees_view()[t as int].0));
            let ghost before = out@;
            if selected {
                out.push(t);
            }
            assert forall|x: int| 0 <= x < t + 1 implies (out@.contains(x as usize) <==> selects(*self, #[trigger] sources.trees_view()[x].0)) by {
                if x < t {
                    if out@.contains(x as usize) {
                        let j = choose|j: int| 0 <= j < out@.len() && out@[j] == x as usize;
                        if selected && j == out@.len() - 1 {
                            assert(out@[j] == t);
                        } else {
                            assert(before[j] == x as usize);
                            assert(before.contains(x as usize));
                        }
                    }
                    if before.contains(x as usize) {
                        let j = choose|j: int| 0 <= j < before.len() && before[j] == x as usize;
                        assert(out@[j] == x as usize);
                    }
                } else {
                    if selected {
                        assert(out@[out@.len() - 1] == t);
                    } else {
                        if out@.contains(x as usize) {
                            let j = choose|j: int| 0 <= j < out@.len() && out@[j] == x as usize;
                            assert(before[j] < t);
                        }
                    }
                }
            }
            t = t + 1;
        }
        out
    }
}

/// The mounts of a service that `Service::sources` finds, as values.
pub open spec fn service_mounts(s: Service, sources: crate::sources::Sources) -> Seq<(Seq<char>, Seq<char>, Option<Seq<char>>)> {
    let head: Seq<(Seq<char>, Seq<char>, Option<Seq<char>>)> = match context_mount(s, sources.trees_view()) {
        Some(m) => seq![m],
        None => Seq::empty(),
    };
    head + lib_mounts_of(lib_mounts_spec(s.labels@), sources.lib_keys_view())
}

/// Do all the library keys of a service refer to trees?
pub open spec fn libs_resolve(s: Service, sources: crate::sources::Sources) -> bool {
    forall|i: int| 0 <= i < lib_mounts_spec(s.labels@).len() ==> lib_resolves(
        sources.lib_keys_view(),
        sources.trees_view(),
        #[trigger] lib_mounts_spec(s.labels@)[i].0,
    )
}

/// Where the local copy of a tree lives.
pub open spec fn tree_path(ctx: (bool, Seq<char>), alias: Seq<char>, src_dir: Seq<char>, pods_dir: Seq<char>) -> Seq<char> {
    if ctx.0 {
        path_join(src_dir, alias)
    } else {
        path_join(pods_dir, ctx.1)
    }
}

/// A volume as a value.
pub open spec fn volume_view(v: VolumeMount) -> (Option<Seq<char>>, Seq<char>) {
    (
        match v.host {
            Some(h) => Some(h@),
            None => None,
        },
        v.container@,
    )
}

/// A build context as a value.
pub open spec fn build_view(b: Option<Build>) -> Option<(bool, Seq<char>)> {
    match b {
        Some(bb) => Some(ctx_view(bb.context)),
        None => None,
    }
}

/// The volumes added, and the build context left, by mounting in turn
/// those of the trees of `mounts` that are mounted and available locally:
/// each is mounted from its local copy (in the subdirectory of the
/// service's code, if any), and replaces a build context naming the same
/// tree.
pub open spec fn mount_effect(
    build: Option<(bool, Seq<char>)>,
    mounts: Seq<(Seq<char>, Seq<char>, Option<Seq<char>>)>,
    trees: Seq<(Seq<char>, ((bool, Seq<char>), bool))>,
    avail: Seq<Seq<char>>,
    src_dir: Seq<char>,
    pods_dir: Seq<char>,
) -> (Seq<(Option<Seq<char>>, Seq<char>)>, Option<(bool, Seq<char>)>)
    decreases mounts.len(),
{
    if mounts.len() == 0 {
        (Seq::empty(), build)
    } else {
        let (v, b) = mount_effect(build, mounts.drop_last(), trees, avail, src_dir, pods_dir);
        let m = mounts.last();
        let tree = lookup(trees, m.1)->0;
        if avail.contains(m.1) && tree.1 {
            let base = tree_path(tree.0, m.1, src_dir, pods_dir);
            let path = match m.2 {
                Some(d) => path_join(base, d),
                None => base,
            };
            (v.push((Some(path), m.0)), if b == Some(tree.0) {
                Some((false, path))
            } else {
                b
            })
        } else {
            (v, b)
        }
    }
}

/// `new` is `old` with its mounted trees mounted.
pub open spec fn mounted_into(
    old: Service,
    new: Service,
    sources: crate::sources::Sources,
    avail: Seq<Seq<char>>,
    src_dir: Seq<char>,
    pods_dir: Seq<char>,
) -> bool {
    let (added, b) = mount_effect(build_view(old.build), service_mounts(old, sources), sources.trees_view(), avail, src_dir, pods_dir);
    &&& new.volumes@.map_values(|v: VolumeMount| volume_view(v)) == old.volumes@.map_values(|v: VolumeMount| volume_view(v)) + added
    &&& build_view(new.build) == b
    &&& new.image == old.image && new.labels == old.labels && new.env_files == old.env_files
    &&& new.environment == old.environment && new.ports == old.ports && new.extra_hosts == old.extra_hosts
}

/// Every build context of the file has a usable alias.
pub open spec fn contexts_aliased(services: Seq<(Seq<char>, Service)>) -> bool {
    forall|i: int| 0 <= i < services.len() ==> ((#[trigger] services[i]).1.build matches Some(b) ==> alias_ok(alias_of(b.context)))
}

/// Mount the trees of `s` that are mounted and available locally.
fn mount_into_service(
    s: &mut Service,
    sources: &crate::sources::Sources,
    avail: &Vec<String>,
    src_dir: &str,
    pods_dir: &str,
) -> (r: Result<(), Error>)
    requires
        old(s).build matches Some(b) ==> alias_ok(alias_of(b.context)),
    ensures
        r is Ok <==> libs_resolve(*old(s), *sources),
        r is Ok ==> mounted_into(*old(s), *final(s), *sources, avail.deep_view(), src_dir@, pods_dir@),
{
    let found = match s.sources(sources) {
        Ok(f) => f,
        Err(e) => {
            return Err(e);
        },
    };
    let ghost o = *s;
    let ghost mv = found.mounts@.map_values(|m: SourceMount| mount_view(m));
    let ghost v0 = s.volumes@.map_values(|v: VolumeMount| volume_view(v));
    let mut i: usize = 0;
    while i < found.mounts.len()
        invariant
            mv == found.mounts@.map_values(|m: SourceMount| mount_view(m)),
            mv == service_mounts(o, *sources),
            i <= found.mounts@.len(),
            s.volumes@.map_values(|v: VolumeMount| volume_view(v)) == v0 + mount_effect(
                build_view(o.build),
                mv.take(i as int),
                sources.trees_view(),
                avail.deep_view(),
                src_dir@,
                pods_dir@,
            ).0,
            build_view(s.build) == mount_effect(build_view(o.build), mv.take(i as int), sources.trees_view(), avail.deep_view(), src_dir@, pods_dir@).1,
            s.image == o.image && s.labels == o.labels && s.env_files == o.env_files,
            s.environment == o.environment && s.ports == o.ports && s.extra_hosts == o.extra_hosts,
            forall|j: int| 0 <= j < mv.len() ==> has_key(sources.trees_view(), #[trigger] mv[j].1),
        decreases found.mounts@.len() - i,
    {
        let m = &found.mounts[i];
        assert(mv.take(i + 1).drop_last() =~= mv.take(i as int));
        assert(mv.take(i + 1).last() == mount_view(*m));
        let ghost before_v = s.volumes@.map_values(|v: VolumeMount| volume_view(v));
        let src = match sources.find_by_alias(m.alias.as_str()) {
            Some(src) => src,
            None => {
                assert(has_key(sources.trees_view(), mv[i as int].1));
                assert(false);
                i = i + 1;
                continue;
            },
        };
        let ghost prev = mount_effect(build_view(o.build), mv.take(i as int), sources.trees_view(), avail.deep_view(), src_dir@, pods_dir@);
        let ghost tree = lookup(sources.trees_view(), mv[i as int].1)->0;
        assert(ctx_view(src.context_view()) == tree.0 && src.mounted_view() == tree.1);
        assert(m.alias@ == mv[i as int].1);
        let avail_here = contains_str(avail, m.alias.as_str());
        if avail_here && src.mounted() {
            let base = src.path(src_dir, pods_dir);
            assert(base@ == tree_path(tree.0, mv[i as int].1, src_dir@, pods_dir@));
            let path = match &m.source_subdirectory {
                Some(d) => join_path(base.as_str(), d.as_str()),
                None => base,
            };
            s.volumes.push(VolumeMount { host: Some(copy_str(path.as_str())), container: copy_str(m.container_path.as_str()) });
            assert(s.volumes@.map_values(|v: VolumeMount| volume_view(v)) =~= before_v.push((Some(path@), m.container_path@)));
            let same = match &s.build {
                Some(b) => match (&b.context, src.context()) {
                    (Context::Dir(x), Context::Dir(y)) => crate::text::str_eq(x.as_str(), y.as_str()),
                    (Context::GitUrl(x), Context::GitUrl(y)) => crate::text::str_eq(x.as_str(), y.as_str()),
                    _ => false,
                },
                None => false,
            };
            assert(same == (prev.1 == Some(tree.0)));
            if same {
                let ghost pv = path@;
                s.build = Some(Build { context: Context::Dir(path) });
                assert(build_view(s.build) == Some((false, pv)));
            }
        } else {
            assert(!(avail.deep_view().contains(mv[i as int].1) && tree.1));
        }
        i = i + 1;
    }
    assert(mv.take(found.mounts@.len() as int) =~= mv);
    Ok(())
}

/// Mount, into every service of `file`, the source trees it uses that are
/// mounted and available locally (`avail` lists the aliases of the trees
/// with a local copy; `src_dir` and `pods_dir` are absolute).  Only done
/// when writing output.  A library key that refers to no tree is an error.
pub fn mount_sources(
    file: &mut File,
    op: Operation,
    sources: &crate::sources::Sources,
    avail: &Vec<String>,
    src_dir: &str,
    pods_dir: &str,
) -> (r: Result<(), Error>)
    requires
        contexts_aliased(old(file).services@),
    ensures
        op != Operation::Output ==> r is Ok && final(file).services@ == old(file).services@,
        op == Operation::Output ==> (r is Ok <==> forall|i: int| 0 <= i < old(file).services@.len() ==> libs_resolve(
            #[trigger] old(file).services@[i].1,
            *sources,
        )),
        op == Operation::Output && r is Ok ==> each_service(
            old(file).services@,
            final(file).services@,
            |_n: Seq<char>, o: Service, s: Service| mounted_into(o, s, *sources, avail.deep_view(), src_dir@, pods_dir@),
        ),
{
    if op != Operation::Output {
        return Ok(());
    }
    let ghost start = file.services@;
    let n = file.services.len();
    let mut i: usize = 0;
    while i < n
        invariant
            n == start.len(),
            start == old(file).services@,
            op == Operation::Output,
            contexts_aliased(start),
            i <= n,
            file.services@.len() == n,
            forall|j: int| 0 <= j < i ==> libs_resolve(#[trigger] start[j].1, *sources),
            forall|j: int| 0 <= j < i ==> (#[trigger] file.services@[j]).0 == start[j].0 && mounted_into(
                start[j].1,
                file.services@[j].1,
                *sources,
                avail.deep_view(),
                src_dir@,
                pods_dir@,
            ),
            forall|j: int| i <= j < n ==> #[trigger] file.services@[j] == start[j],
        decreases n - i,
    {
        let mut svc = file.services.replace_value_at(i, Service::empty());
        assert(svc == start[i as int].1);
        let res = mount_into_service(&mut svc, sources, avail, src_dir, pods_dir);
        let _ = file.services.replace_value_at(i, svc);
        if res.is_err() {
            return res;
        }
        i = i + 1;
    }
    Ok(())
}

/// The aliases, in order, of the trees among `mounts` that are mounted and
/// have a local copy (their aliases are in `avail`).
pub open spec fn mounted_here(
    mounts: Seq<(Seq<char>, Seq<char>, Option<Seq<char>>)>,
    trees: Seq<(Seq<char>, ((bool, Seq<char>), bool))>,
    avail: Seq<Seq<char>>,
) -> Seq<Seq<char>>
    decreases mounts.len(),
{
    if mounts.len() == 0 {
        Seq::empty()
    } else {
        let prev = mounted_here(mounts.drop_last(), trees, avail);
        let a = mounts.last().1;
        if avail.contains(a) && (lookup(trees, a) matches Some(t) && t.1) {
            prev.push(a)
        } else {
            prev
        }
    }
}

impl Service {
    /// The aliases of the source trees mounted into this service, as the
    /// status line shows them: those of its trees (see `sources`) that are
    /// mounted and available locally (`avail` lists the aliases of the
    /// trees with a local copy).  A library key that refers to no tree is
    /// an error.
    pub fn mounted_aliases(&self, sources: &crate::sources::Sources, avail: &Vec<String>) -> (r: Result<Vec<String>, Error>)
        requires
            self.build matches Some(b) ==> alias_ok(alias_of(b.context)),
        ensures
            r is Ok <==> libs_resolve(*self, *sources),
            r matches Ok(v) ==> v.deep_view() == mounted_here(service_mounts(*self, *sources), sources.trees_view(), avail.deep_view()),
    {
        let found = match self.sources(sources) {
            Ok(f) => f,
            Err(e) => {
                return Err(e);
            },
        };
        let ghost mv = found.mounts@.map_values(|m: SourceMount| mount_view(m));
        let mut out: Vec<String> = Vec::new();
        let mut i: usize = 0;
        while i < found.mounts.len()
            invariant
                mv == found.mounts@.map_values(|m: SourceMount| mount_view(m)),
                i <= found.mounts@.len(),
                out.deep_view() == mounted_here(mv.take(i as int), sources.trees_view(), avail.deep_view()),
            decreases found.mounts@.len() - i,
        {
            let m = &found.mounts[i];
            assert(mv.take(i + 1).drop_last() =~= mv.take(i as int));
            assert(mv.take(i + 1).last() == mount_view(*m));
            let here = match sources.find_by_alias(m.alias.as_str()) {
                Some(src) => src.mounted() && contains_str(avail, m.alias.as_str()),
                None => false,
            };
            let ghost before = out.deep_view();
            if here {
                out.push(copy_str(m.alias.as_str()));
                assert(out.deep_view() =~= before.push(m.alias@));
            }
            i = i + 1;
        }
        assert(mv.take(found.mounts@.len() as int) =~= mv);
        Ok(out)
    }
}

} // verus!
