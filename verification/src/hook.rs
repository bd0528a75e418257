//! Hooks: scripts run at given points of a command, found in
//! `config/hooks/$NAME.d/*.hook` and run in alphabetical order.

use vstd::prelude::*;

use crate::compose::{insert_all, label_text};
use crate::paths::{join_path, path_join};
use crate::strmap::{has_key, key_seq, StrMap};
use crate::text::{concat2, copy_str, ends_with, is_prefix, is_suffix, starts_with, seq_lt};

verus! {

/// Keeps track of hook scripts and says which to run.
#[derive(Debug, Clone)]
pub struct HookManager {
    /// A directory containing a subdirectory for each hook.
    hooks_dir: String,
    /// The root directory of the project, where hooks run.
    root_dir: String,
}

/// The directory holding the hooks of a project rooted at `root`.
pub open spec fn hooks_dir_of(root: Seq<char>) -> Seq<char> {
    path_join(path_join(root, "config"@), "hooks"@)
}

/// Is a directory entry called `name` a hook script: a file, not hidden,
/// whose name ends in `.hook`?
pub open spec fn is_hook(name: Seq<char>, is_file: bool) -> bool {
    is_file && !is_prefix("."@, name) && is_suffix(".hook"@, name)
}

/// Is `name` the name of a hook script among `entries`?
pub open spec fn hook_among(entries: Seq<(Seq<char>, bool)>, name: Seq<char>) -> bool {
    exists|i: int| 0 <= i < entries.len() && #[trigger] entries[i].0 == name && is_hook(entries[i].0, entries[i].1)
}

/// The names are in strictly ascending order.
pub open spec fn strictly_sorted(names: Seq<Seq<char>>) -> bool {
    forall|i: int, j: int| 0 <= i < j < names.len() ==> seq_lt(#[trigger] names[i], #[trigger] names[j])
}

impl HookManager {
    /// The directory holding the hooks.
    pub closed spec fn hooks_dir_view(&self) -> Seq<char> {
        self.hooks_dir@
    }

    /// The project's root directory.
    pub closed spec fn root_dir_view(&self) -> Seq<char> {
        self.root_dir@
    }

    /// Create a hook manager for the project rooted at `root_dir`, which
    /// runs hooks from its `config/hooks` directory.
    pub fn new(root_dir: &str) -> (r: HookManager)
        ensures
            r.hooks_dir_view() == hooks_dir_of(root_dir@),
            r.root_dir_view() == root_dir@,
    {
        let config = join_path(root_dir, "config");
        HookManager { hooks_dir: join_path(config.as_str(), "hooks"), root_dir: copy_str(root_dir) }
    }

    /// The directory holding the hooks.
    pub fn hooks_dir(&self) -> (r: &str)
        ensures
            r@ == self.hooks_dir_view(),
    {
        self.hooks_dir.as_str()
    }

    /// The directory in which hooks run.
    pub fn root_dir(&self) -> (r: &str)
        ensures
            r@ == self.root_dir_view(),
    {
        self.root_dir.as_str()
    }

    /// The directory holding the scripts of hook `hook_name`:
    /// `$HOOKS/$NAME.d`.
    pub fn hook_dir(&self, hook_name: &str) -> (r: String)
        ensures
            r@ == path_join(self.hooks_dir_view(), hook_name@ + ".d"@),
    {
        let d = concat2(hook_name, ".d");
        join_path(self.hooks_dir.as_str(), d.as_str())
    }

    /// The scripts to run for hook `hook_name`, given the entries of its
    /// directory (each a name and whether it is a file): the paths of the
    /// hook scripts among them, in alphabetical order of their names.
    pub fn scripts(&self, hook_name: &str, entries: &Vec<(String, bool)>) -> (r: Vec<String>)
        ensures
            exists|names: Seq<Seq<char>>| #![trigger strictly_sorted(names)]
                strictly_sorted(names) && (forall|n: Seq<char>| #[trigger] names.contains(n) <==> hook_among(
                    entries@.map_values(|e: (String, bool)| (e.0@, e.1)),
                    n,
                )) && r.deep_view() == names.map_values(|n: Seq<char>| path_join(path_join(self.hooks_dir_view(), hook_name@ + ".d"@), n)),
    {
        let ghost ev = entries@.map_values(|e: (String, bool)| (e.0@, e.1));
        let mut found: StrMap<bool> = StrMap::new();
        let mut i: usize = 0;
        proof {
            reveal_strlit(".");
            reveal_strlit(".hook");
        }
        while i < entries.len()
            invariant
                ev == entries@.map_values(|e: (String, bool)| (e.0@, e.1)),
                i <= entries@.len(),
                forall|n: Seq<char>| #[trigger] has_key(found@, n) <==> hook_among(ev.take(i as int), n),
            decreases entries@.len() - i,
        {
            let (name, is_file) = (&entries[i].0, entries[i].1);
            let hook = is_file && !starts_with(name.as_str(), ".") && ends_with(name.as_str(), ".hook");
            assert(ev[i as int] == (name@, is_file));
            assert(hook == is_hook(name@, is_file));
            let ghost before = found@;
            if hook {
                found.insert_if_absent(copy_str(name.as_str()), true);
            }
            assert forall|n: Seq<char>| #[trigger] has_key(found@, n) <==> hook_among(ev.take(i + 1), n) by {
                let t = ev.take(i + 1);
                if hook_among(t, n) {
                    let j = choose|j: int| 0 <= j < t.len() && #[trigger] t[j].0 == n && is_hook(t[j].0, t[j].1);
                    if j < i {
                        assert(ev.take(i as int)[j].0 == n);
                        assert(hook_among(ev.take(i as int), n));
                    }
                }
                if hook_among(ev.take(i as int), n) {
                    let j = choose|j: int| 0 <= j < ev.take(i as int).len() && #[trigger] ev.take(i as int)[j].0 == n && is_hook(
                        ev.take(i as int)[j].0,
                        ev.take(i as int)[j].1,
                    );
                    assert(t[j].0 == n);
                }
                if hook && n == name@ {
                    assert(t[i as int].0 == n);
                }
            }
            i = i + 1;
        }
        assert(ev.take(entries@.len() as int) =~= ev);
        let names = found.keys();
        let ghost nv = names.deep_view();
        proof {
            assert forall|n: Seq<char>| #[trigger] nv.contains(n) <==> has_key(found@, n) by {
                if nv.contains(n) {
                    let j = choose|j: int| 0 <= j < nv.len() && nv[j] == n;
                    assert(found@[j].0 == n);
                }
                if has_key(found@, n) {
                    let j = choose|j: int| 0 <= j < found@.len() && #[trigger] found@[j].0 == n;
                    assert(nv[j] == n);
                }
            }
        }
        let dir = self.hook_dir(hook_name);
        let mut out: Vec<String> = Vec::new();
        let mut k: usize = 0;
        while k < names.len()
            invariant
                nv == names.deep_view(),
                dir@ == path_join(self.hooks_dir_view(), hook_name@ + ".d"@),
                k <= names@.len(),
                out.deep_view() == nv.take(k as int).map_values(|n: Seq<char>| path_join(dir@, n)),
            decreases names@.len() - k,
        {
            let p = join_path(dir.as_str(), names[k].as_str());
            let ghost before = out.deep_view();
            assert(names[k as int]@ == nv[k as int]);
            let ghost pv = p@;
            out.push(p);
            assert(out.deep_view() =~= before.push(pv));
            assert(out.deep_view() =~= nv.take(k + 1).map_values(|n: Seq<char>| path_join(dir@, n)));
            k = k + 1;
        }
        assert(nv.take(names@.len() as int) =~= nv);
        assert(strictly_sorted(nv));
        out
    }
}

/// One hook script to run: the script, the directory it runs in, and the
/// environment variables it is given.
#[derive(Debug)]
pub struct HookRun {
    /// The path of the script.
    pub script: String,
    /// The directory to run it in: the project's root.
    pub dir: String,
    /// The variables to set for it.
    pub env: StrMap<String>,
}

impl HookManager {
    /// What invoking hook `hook_name` runs, given the entries of its
    /// directory (each a name and whether it is a file): each hook script
    /// among them, in alphabetical order, run from the project's root with
    /// the variables `env`.
    pub fn invocations(&self, hook_name: &str, entries: &Vec<(String, bool)>, env: &StrMap<String>) -> (r: Vec<HookRun>)
        ensures
            exists|names: Seq<Seq<char>>| #![trigger strictly_sorted(names)]
                strictly_sorted(names) && (forall|n: Seq<char>| #[trigger] names.contains(n) <==> hook_among(
                    entries@.map_values(|e: (String, bool)| (e.0@, e.1)),
                    n,
                )) && r@.map_values(|h: HookRun| h.script@) == names.map_values(
                    |n: Seq<char>| path_join(path_join(self.hooks_dir_view(), hook_name@ + ".d"@), n),
                ),
            forall|i: int| 0 <= i < r@.len() ==> (#[trigger] r@[i]).dir@ == self.root_dir_view(),
            forall|i: int, k: Seq<char>| 0 <= i < r@.len() ==> #[trigger] label_text(r@[i].env@, k) == label_text(env@, k),
    {
        let scripts = self.scripts(hook_name, entries);
        let ghost sv = scripts.deep_view();
        let mut out: Vec<HookRun> = Vec::new();
        let mut i: usize = 0;
        while i < scripts.len()
            invariant
                sv == scripts.deep_view(),
                i <= scripts@.len(),
                out@.len() == i,
                forall|j: int| 0 <= j < i ==> (#[trigger] out@[j]).script@ == sv[j],
                forall|j: int| 0 <= j < i ==> (#[trigger] out@[j]).dir@ == self.root_dir_view(),
                forall|j: int, k: Seq<char>| 0 <= j < i ==> #[trigger] label_text(out@[j].env@, k) == label_text(env@, k),
            decreases scripts@.len() - i,
        {
            let mut vars: StrMap<String> = StrMap::new();
            insert_all(&mut vars, env);
            assert forall|k: Seq<char>| #[trigger] label_text(vars@, k) == label_text(env@, k) by {
                if !has_key(env@, k) {
                    assert(!has_key(Seq::<(Seq<char>, String)>::empty(), k));
                }
            }
            assert(scripts[i as int]@ == sv[i as int]);
            let ghost vv = vars@;
            let ghost before = out@;
            out.push(HookRun { script: copy_str(scripts[i].as_str()), dir: copy_str(self.root_dir.as_str()), env: vars });
            assert forall|j: int, k: Seq<char>| 0 <= j < i + 1 implies #[trigger] label_text(out@[j].env@, k) == label_text(env@, k) by {
                if j < i {
                    assert(out@[j] == before[j]);
                    assert(label_text(before[j].env@, k) == label_text(env@, k));
                } else {
                    assert(out@[j].env@ == vv);
                    assert(label_text(vv, k) == label_text(env@, k));
                }
            }
            i = i + 1;
        }
        assert(out@.map_values(|h: HookRun| h.script@) =~= sv);
        out
    }
}

} // verus!
