//! Source trees: the code behind the services' images, each known by a
//! short alias, which can be cloned and mounted into the containers that
//! use it.

use vstd::prelude::*;

use crate::act_on::ActOnSources;
use crate::compose::{context_text, Context, File};
use crate::errors::Error;
use crate::ovr::contains_str;
use crate::paths::{join_path, path_join};
use crate::pod::{pod_files, Pod};
use crate::compose::Service;
use crate::strmap::{has_key, keys_sorted, lookup, StrMap};
use crate::text::{concat2, concat3, copy_str, ends_with, find_char, first_index_of, prefix_to, str_eq};

verus! {

/// `s` without its trailing slashes.
pub open spec fn trim_slashes(s: Seq<char>) -> Seq<char>
    decreases s.len(),
{
    if s.len() > 0 && s.last() == '/' {
        trim_slashes(s.drop_last())
    } else {
        s
    }
}

/// The part of `s` after its last slash (all of `s` if it has none).
pub open spec fn last_component(s: Seq<char>) -> Seq<char>
    decreases s.len(),
{
    if s.len() == 0 || s.last() == '/' {
        Seq::empty()
    } else {
        last_component(s.drop_last()).push(s.last())
    }
}

/// `s` without a `.git` suffix.
pub open spec fn strip_git(s: Seq<char>) -> Seq<char> {
    if s.len() >= 4 && s.subrange(s.len() - 4, s.len() as int) == ".git"@ {
        s.take(s.len() - 4)
    } else {
        s
    }
}

/// The part of a URL before its `#fragment`.
pub open spec fn before_fragment(s: Seq<char>) -> Seq<char> {
    match first_index_of(s, '#') {
        Some(p) => s.take(p),
        None => s,
    }
}

/// A context as a value: whether it is a git URL, and its text.
pub open spec fn ctx_view(c: Context) -> (bool, Seq<char>) {
    match c {
        Context::Dir(d) => (false, d@),
        Context::GitUrl(u) => (true, u@),
    }
}

/// The short alias of a context, given as a value: the last component of a
/// directory, or the last component of a repository URL without `.git`.
pub open spec fn alias_of_view(c: (bool, Seq<char>)) -> Seq<char> {
    if c.0 {
        strip_git(last_component(trim_slashes(before_fragment(c.1))))
    } else {
        last_component(trim_slashes(c.1))
    }
}

/// The short alias of a context.
pub open spec fn alias_of(c: Context) -> Seq<char> {
    alias_of_view(ctx_view(c))
}

/// Can `a` name a source tree?
pub open spec fn alias_ok(a: Seq<char>) -> bool {
    a.len() > 0 && a != "."@ && a != ".."@
}

/// The text without trailing slashes.
fn trim_trailing_slashes(s: &str) -> (r: String)
    ensures
        r@ == trim_slashes(s@),
{
    let mut n = s.unicode_len();
    proof {
        reveal_strlit("/");
    }
    assert(s@.take(n as int) =~= s@);
    while n > 0 && s.get_char(n - 1) == '/'
        invariant
            n <= s@.len(),
            trim_slashes(s@.take(n as int)) == trim_slashes(s@),
        decreases n,
    {
        assert(s@.take(n as int).drop_last() =~= s@.take(n - 1));
        n = n - 1;
    }
    assert(trim_slashes(s@.take(n as int)) == s@.take(n as int));
    s.substring_char(0, n).to_owned()
}

/// The part after the last slash.
fn after_last_slash(s: &str) -> (r: String)
    ensures
        r@ == last_component(s@),
{
    let n = s.unicode_len();
    let mut start = n;
    assert(s@.take(n as int) =~= s@);
    assert(s@.subrange(n as int, n as int) =~= Seq::<char>::empty());
    assert(last_component(s@) =~= last_component(s@.take(n as int)) + s@.subrange(n as int, n as int));
    while start > 0 && s.get_char(start - 1) != '/'
        invariant
            start <= n,
            n == s@.len(),
            last_component(s@) == last_component(s@.take(start as int)) + s@.subrange(start as int, n as int),
        decreases start,
    {
        let ghost t = s@.take(start as int);
        assert(t.drop_last() =~= s@.take(start - 1));
        assert(last_component(t) == last_component(t.drop_last()).push(t.last()));
        assert(last_component(s@.take(start - 1)).push(t.last()) + s@.subrange(start as int, n as int)
            =~= last_component(s@.take(start - 1)) + s@.subrange(start - 1, n as int));
        start = start - 1;
    }
    assert(last_component(s@.take(start as int)) =~= Seq::<char>::empty());
    assert(Seq::<char>::empty() + s@.subrange(start as int, n as int) =~= s@.subrange(start as int, n as int));
    s.substring_char(start, n).to_owned()
}

/// The short alias of a context.
pub fn human_alias(c: &Context) -> (r: Result<String, Error>)
    ensures
        match r {
            Ok(a) => alias_ok(alias_of(*c)) && a@ == alias_of(*c),
            Err(e) => !alias_ok(alias_of(*c)) && (e matches Error::Message(m) && m@
                == "Can't get repository name from "@ + context_text(*c)),
        },
{
    let alias = match c {
        Context::Dir(d) => {
            let t = trim_trailing_slashes(d.as_str());
            after_last_slash(t.as_str())
        },
        Context::GitUrl(u) => {
            let base = match find_char(u.as_str(), '#') {
                Some(p) => prefix_to(u.as_str(), p),
                None => copy_str(u.as_str()),
            };
            let t = trim_trailing_slashes(base.as_str());
            let last = after_last_slash(t.as_str());
            if ends_with(last.as_str(), ".git") {
                proof {
                    reveal_strlit(".git");
                }
                let n = last.unicode_len();
                prefix_to(last.as_str(), n - 4)
            } else {
                proof {
                    reveal_strlit(".git");
                }
                last
            }
        },
    };
    proof {
        reveal_strlit(".");
        reveal_strlit("..");
    }
    if alias.unicode_len() == 0 || str_eq(alias.as_str(), ".") || str_eq(alias.as_str(), "..") {
        return Err(Error::Message(concat2("Can't get repository name from ", c.text())));
    }
    Ok(alias)
}

/// A source tree.
#[derive(Debug, Clone)]
pub struct Source {
    /// A short name for this source tree.
    alias: String,
    /// Where it comes from: a git repository, or a local directory.
    context: Context,
    /// Should it be mounted into the containers that use it?
    mounted: bool,
}

impl Source {
    /// The short alias.
    pub closed spec fn alias_view(&self) -> Seq<char> {
        self.alias@
    }

    /// The context.
    pub closed spec fn context_view(&self) -> Context {
        self.context
    }

    /// Is it mounted?
    pub closed spec fn mounted_view(&self) -> bool {
        self.mounted
    }

    /// A short local name for this source tree, suitable for use as a
    /// directory name or command-line argument.
    pub fn alias(&self) -> (r: &str)
        ensures
            r@ == self.alias_view(),
    {
        self.alias.as_str()
    }

    /// Where this source tree comes from.
    pub fn context(&self) -> (r: &Context)
        ensures
            *r == self.context_view(),
    {
        &self.context
    }

    /// Should this source tree be mounted into containers?
    pub fn mounted(&self) -> (r: bool)
        ensures
            r == self.mounted_view(),
    {
        self.mounted
    }

    /// Mount or unmount this source tree.
    pub fn set_mounted(&mut self, mounted: bool)
        ensures
            final(self).mounted_view() == mounted,
            final(self).alias_view() == old(self).alias_view(),
            final(self).context_view() == old(self).context_view(),
    {
        self.mounted = mounted;
    }

    /// Where the local copy of this source tree lives: under `src_dir` for
    /// a git repository, or the directory itself relative to `pods_dir`.
    pub fn path(&self, src_dir: &str, pods_dir: &str) -> (r: String)
        ensures
            r@ == match self.context_view() {
                Context::GitUrl(_) => path_join(src_dir@, self.alias_view()),
                Context::Dir(d) => path_join(pods_dir@, d@),
            },
    {
        match &self.context {
            Context::GitUrl(_) => join_path(src_dir, self.alias.as_str()),
            Context::Dir(d) => join_path(pods_dir, d.as_str()),
        }
    }
}

/// The arguments to `git clone` for a URL: `-b BRANCH URL` for a URL with
/// a `#BRANCH`, otherwise the URL itself.
pub open spec fn clone_args_spec(url: Seq<char>) -> Seq<Seq<char>> {
    match first_index_of(url, '#') {
        Some(p) => seq!["-b"@, url.skip(p + 1), url.take(p)],
        None => seq![url],
    }
}

/// The arguments to `git clone` for `url`.
#[verifier::rlimit(40)]
pub fn clone_args(url: &str) -> (r: Vec<String>)
    ensures
        r.deep_view() == clone_args_spec(url@),
{
    let n = url.unicode_len();
    let mut r: Vec<String> = Vec::new();
    match find_char(url, '#') {
        Some(p) => {
            let branch = url.substring_char(p + 1, n).to_owned();
            let base = prefix_to(url, p);
            assert(branch@ =~= url@.skip(p + 1));
            crate::args::push_str(&mut r, "-b");
            crate::args::push_string(&mut r, branch);
            crate::args::push_string(&mut r, base);
            assert(r.deep_view() =~= seq!["-b"@, url@.skip(p + 1), url@.take(p as int)]);
        },
        None => {
            crate::args::push_str(&mut r, url);
            assert(r.deep_view() =~= seq![url@]);
        },
    }
    r
}

/// A context that is added is found again under its alias: when adding `c`
/// to the trees `m` succeeds, the result holds `c` under `c`'s alias.
pub proof fn lemma_added_context_is_found(m: Map<Seq<char>, (bool, Seq<char>)>, c: (bool, Seq<char>))
    requires
        add_one(m, c) is Some,
    ensures
        add_one(m, c)->0.contains_key(alias_of_view(c)),
        add_one(m, c)->0[alias_of_view(c)] == c,
{
}

/// Adding a context a second time changes nothing and does not fail.
pub proof fn lemma_add_is_idempotent(m: Map<Seq<char>, (bool, Seq<char>)>, c: (bool, Seq<char>))
    requires
        add_one(m, c) is Some,
    ensures
        add_one(add_one(m, c)->0, c) == add_one(m, c),
{
}

/// `git clone` of a URL with a `#BRANCH` fragment checks the branch out:
/// the arguments are `-b BRANCH URL`, with the URL given without the
/// fragment.
pub proof fn lemma_clone_args_branch(base: Seq<char>, branch: Seq<char>)
    requires
        !base.contains('#'),
    ensures
        clone_args_spec(base + "#"@ + branch) == seq!["-b"@, branch, base],
{
    reveal_strlit("#");
    let u = base + "#"@ + branch;
    let p = base.len() as int;
    assert(u[p] == '#');
    let i = first_index_of(u, '#')->0;
    assert(first_index_of(u, '#') is Some);
    if i < p {
        assert(u[i] == base[i]);
    }
    assert(i == p);
    assert(u.skip(p + 1) =~= branch);
    assert(u.take(p) =~= base);
}

/// A URL without a fragment is cloned as it is.
pub proof fn lemma_clone_args_plain(url: Seq<char>)
    requires
        !url.contains('#'),
    ensures
        clone_args_spec(url) == seq![url],
{
    assert(first_index_of(url, '#') is None) by {
        if exists|i: int| 0 <= i < url.len() && url[i] == '#' {
            let i = choose|i: int| 0 <= i < url.len() && url[i] == '#';
            assert(url.contains('#'));
        }
    }
}

/// The message for a source tree that is not a git repository.
pub open spec fn not_git_message(c: Context) -> Seq<char> {
    "'"@ + context_text(c) + "' is not a git repository"@
}

impl Source {
    /// The command that clones this source tree into `dest`: only a git
    /// repository can be cloned.
    pub fn clone_command(&self, dest: &str) -> (r: Result<Vec<String>, Error>)
        ensures
            match self.context_view() {
                Context::GitUrl(u) => r matches Ok(c) && c.deep_view() == seq!["git"@, "clone"@] + clone_args_spec(u@)
                    + seq![dest@],
                Context::Dir(_) => r matches Err(e) && (e matches Error::Message(m) && m@ == not_git_message(
                    self.context_view(),
                )),
            },
    {
        match &self.context {
            Context::GitUrl(u) => {
                let mut c: Vec<String> = Vec::new();
                crate::args::push_str(&mut c, "git");
                crate::args::push_str(&mut c, "clone");
                let a = clone_args(u.as_str());
                crate::text::extend_strings(&mut c, &a);
                crate::args::push_str(&mut c, dest);
                assert(c.deep_view() =~= seq!["git"@, "clone"@] + clone_args_spec(u@) + seq![dest@]);
                Ok(c)
            },
            Context::Dir(_) => Err(Error::Message(concat3("'", self.context.text(), "' is not a git repository"))),
        }
    }
}

/// The message for two contexts with the same alias.
pub open spec fn alias_clash_message(existing: (bool, Seq<char>), new: (bool, Seq<char>), alias: Seq<char>) -> Seq<char> {
    existing.1 + " and "@ + new.1 + " would both alias to "@ + alias
}

/// A copy of a context.
pub fn copy_context(c: &Context) -> (r: Context)
    ensures
        ctx_view(r) == ctx_view(*c),
        context_text(r) == context_text(*c),
{
    match c {
        Context::Dir(d) => Context::Dir(copy_str(d.as_str())),
        Context::GitUrl(u) => Context::GitUrl(copy_str(u.as_str())),
    }
}

/// The trees after adding the context `c` to the trees `m`, or `None` when
/// its alias is unusable or already taken by another context.
pub open spec fn add_one(m: Map<Seq<char>, (bool, Seq<char>)>, c: (bool, Seq<char>)) -> Option<Map<Seq<char>, (bool, Seq<char>)>> {
    let a = alias_of_view(c);
    if !alias_ok(a) {
        None
    } else if m.contains_key(a) {
        if m[a] == c {
            Some(m)
        } else {
            None
        }
    } else {
        Some(m.insert(a, c))
    }
}

/// The trees after adding each of the contexts `cs` in turn.
pub open spec fn add_all(m: Map<Seq<char>, (bool, Seq<char>)>, cs: Seq<(bool, Seq<char>)>) -> Option<Map<Seq<char>, (bool, Seq<char>)>>
    decreases cs.len(),
{
    if cs.len() == 0 {
        Some(m)
    } else {
        match add_all(m, cs.drop_last()) {
            Some(m2) => add_one(m2, cs.last()),
            None => None,
        }
    }
}

/// The trees `t`, all unmounted, are the map `m`.
pub open spec fn trees_are(t: Seq<(Seq<char>, ((bool, Seq<char>), bool))>, m: Map<Seq<char>, (bool, Seq<char>)>) -> bool {
    forall|a: Seq<char>| #[trigger] has_key(t, a) == m.contains_key(a) && (m.contains_key(a) ==> lookup(t, a) == Some(
        (m[a], false),
    ))
}


/// All the source trees of a project, by alias, and the library keys that
/// refer to them.
#[derive(Debug)]
pub struct Sources {
    /// The source trees, by alias.
    sources: StrMap<Source>,
    /// For each key of `config/libraries.yml`, the alias of its tree.
    lib_keys: StrMap<String>,
}

/// Each source tree as its alias, context and mounted flag.
pub open spec fn trees_of(s: Seq<(Seq<char>, Source)>) -> Seq<(Seq<char>, ((bool, Seq<char>), bool))> {
    s.map_values(|e: (Seq<char>, Source)| (e.0, (ctx_view(e.1.context_view()), e.1.mounted_view())))
}

/// The alias of each source tree is its key.
pub open spec fn aliases_match(s: Seq<(Seq<char>, Source)>) -> bool {
    forall|i: int| 0 <= i < s.len() ==> #[trigger] s[i].1.alias_view() == s[i].0
}

impl Sources {
    /// Each tree is stored under its alias.
    #[verifier::type_invariant]
    closed spec fn wf(self) -> bool {
        aliases_match(self.sources@)
    }

    /// The source trees, each as its alias with its context and mounted
    /// flag, in alias order.
    pub closed spec fn trees_view(&self) -> Seq<(Seq<char>, ((bool, Seq<char>), bool))> {
        trees_of(self.sources@)
    }

    /// The alias each library key refers to.
    pub closed spec fn lib_keys_view(&self) -> Seq<(Seq<char>, String)> {
        self.lib_keys@
    }

    /// No source trees at all.
    pub fn new() -> (r: Sources)
        ensures
            r.trees_view().len() == 0,
            r.lib_keys_view().len() == 0,
    {
        Sources { sources: StrMap::new(), lib_keys: StrMap::new() }
    }

    /// The number of source trees.
    pub fn len(&self) -> (r: usize)
        ensures
            r == self.trees_view().len(),
    {
        self.sources.len()
    }

    /// The source tree at position `i` in alias order.
    pub fn get(&self, i: usize) -> (r: &Source)
        requires
            i < self.trees_view().len(),
        ensures
            r.alias_view() == self.trees_view()[i as int].0,
            ctx_view(r.context_view()) == self.trees_view()[i as int].1.0,
            r.mounted_view() == self.trees_view()[i as int].1.1,
    {
        proof {
            use_type_invariant(self);
        }
        let (_, s) = self.sources.entry(i);
        s
    }

    /// Look up a source tree by its alias.
    pub fn find_by_alias(&self, alias: &str) -> (r: Option<&Source>)
        ensures
            match lookup(self.trees_view(), alias@) {
                Some(v) => r matches Some(s) && s.alias_view() == alias@ && ctx_view(s.context_view()) == v.0 && s.mounted_view() == v.1,
                None => r is None,
            },
    {
        proof {
            use_type_invariant(self);
        }
        let r = self.sources.get(alias);
        proof {
            lemma_trees_lookup(self.sources@, alias@);
        }
        r
    }

    /// Look up a source tree by where it comes from: the first tree, in
    /// alias order, with the same context.
    pub fn find_by_context(&self, context: &Context) -> (r: Option<&Source>)
        ensures
            match r {
                Some(s) => exists|i: int| 0 <= i < self.trees_view().len() && #[trigger] self.trees_view()[i].1.0 == ctx_view(*context)
                    && s.alias_view() == self.trees_view()[i].0 && ctx_view(s.context_view()) == ctx_view(*context)
                    && s.mounted_view() == self.trees_view()[i].1.1
                    && forall|j: int| 0 <= j < i ==> (#[trigger] self.trees_view()[j]).1.0 != ctx_view(*context),
                None => forall|i: int| 0 <= i < self.trees_view().len() ==> (#[trigger] self.trees_view()[i]).1.0 != ctx_view(*context),
            },
    {
        let n = self.len();
        let mut i: usize = 0;
        while i < n
            invariant
                n == self.trees_view().len(),
                i <= n,
                forall|j: int| 0 <= j < i ==> (#[trigger] self.trees_view()[j]).1.0 != ctx_view(*context),
            decreases n - i,
        {
            let s = self.get(i);
            if s.context().same_as(context) {
                assert(ctx_view(s.context_view()) == ctx_view(*context));
                return Some(s);
            }
            assert(ctx_view(s.context_view()) != ctx_view(*context));
            i = i + 1;
        }
        None
    }

    /// Look up a source tree by a library key, a key of
    /// `config/libraries.yml` used in `io.fdy.cage.lib.KEY` labels.
    pub fn find_by_lib_key(&self, lib_key: &str) -> (r: Option<&Source>)
        ensures
            match crate::compose::label_text(self.lib_keys_view(), lib_key@) {
                Some(a) => match lookup(self.trees_view(), a) {
                    Some(v) => r matches Some(s) && s.alias_view() == a && ctx_view(s.context_view()) == v.0 && s.mounted_view() == v.1,
                    None => r is None,
                },
                None => r is None,
            },
    {
        match self.lib_keys.get(lib_key) {
            Some(a) => self.find_by_alias(a.as_str()),
            None => None,
        }
    }

    /// Mount or unmount the tree at position `i`.
    pub fn set_mounted_at(&mut self, i: usize, mounted: bool)
        requires
            i < old(self).trees_view().len(),
        ensures
            final(self).trees_view() == old(self).trees_view().update(
                i as int,
                (old(self).trees_view()[i as int].0, (old(self).trees_view()[i as int].1.0, mounted)),
            ),
            final(self).lib_keys_view() == old(self).lib_keys_view(),
    {
        proof {
            use_type_invariant(&*self);
        }
        let ghost old_s = self.sources@;
        let mut map = StrMap::new();
        std::mem::swap(&mut map, &mut self.sources);
        let placeholder = Source { alias: String::new(), context: Context::Dir(String::new()), mounted: false };
        let mut src = map.replace_value_at(i, placeholder);
        src.set_mounted(mounted);
        let _ = map.replace_value_at(i, src);
        assert(aliases_match(map@)) by {
            assert forall|j: int| 0 <= j < map@.len() implies #[trigger] map@[j].1.alias_view() == map@[j].0 by {
                if j != i {
                    assert(map@[j] == old_s[j]);
                }
            }
        }
        self.sources = map;
        assert(self.trees_view() =~= old(self).trees_view().update(
            i as int,
            (old(self).trees_view()[i as int].0, (old(self).trees_view()[i as int].1.0, mounted)),
        ));
    }
}

impl Sources {
    /// Add the source tree of `context` under its alias, which is
    /// returned.  An unusable alias is an error, and so is an alias already
    /// taken by a different context; adding the same context twice changes
    /// nothing.
    pub fn add(&mut self, context: &Context) -> (r: Result<String, Error>)
        ensures
            final(self).lib_keys_view() == old(self).lib_keys_view(),
            !alias_ok(alias_of(*context)) ==> final(self).trees_view() == old(self).trees_view() && (r matches Err(e) && (
            e matches Error::Message(m) && m@ == "Can't get repository name from "@ + context_text(*context))),
            alias_ok(alias_of(*context)) ==> match lookup(old(self).trees_view(), alias_of(*context)) {
                Some(v) => final(self).trees_view() == old(self).trees_view() && if v.0 == ctx_view(*context) {
                    r matches Ok(a) && a@ == alias_of(*context)
                } else {
                    r matches Err(e) && (e matches Error::Message(m) && m@ == alias_clash_message(
                        v.0,
                        ctx_view(*context),
                        alias_of(*context),
                    ))
                },
                None => (r matches Ok(a) && a@ == alias_of(*context)) && lookup(final(self).trees_view(), alias_of(*context))
                    == Some((ctx_view(*context), false)) && (forall|a2: Seq<char>| a2 != alias_of(*context) ==> #[trigger] lookup(
                    final(self).trees_view(),
                    a2,
                ) == lookup(old(self).trees_view(), a2)) && (forall|a2: Seq<char>| #[trigger] has_key(final(self).trees_view(), a2)
                    <==> (has_key(old(self).trees_view(), a2) || a2 == alias_of(*context))),
            },
    {
        proof {
            use_type_invariant(&*self);
        }
        let alias = match human_alias(context) {
            Ok(a) => a,
            Err(e) => {
                return Err(e);
            },
        };
        let _ = self.sources.len();
        proof {
            lemma_trees_lookup(self.sources@, alias@);
        }
        match self.sources.get(alias.as_str()) {
            Some(existing) => {
                let same = match (&existing.context, context) {
                    (Context::Dir(a), Context::Dir(b)) => str_eq(a.as_str(), b.as_str()),
                    (Context::GitUrl(a), Context::GitUrl(b)) => str_eq(a.as_str(), b.as_str()),
                    _ => false,
                };
                if same {
                    Ok(alias)
                } else {
                    let mut m = concat3(existing.context.text(), " and ", context.text());
                    m.append(" would both alias to ");
                    m.append(alias.as_str());
                    Err(Error::Message(m))
                }
            },
            None => {
                let ghost old_s = self.sources@;
                let src = Source { alias: copy_str(alias.as_str()), context: copy_context(context), mounted: false };
                let mut map = StrMap::new();
                std::mem::swap(&mut map, &mut self.sources);
                map.insert(copy_str(alias.as_str()), src);
                proof {
                    assert forall|j: int| 0 <= j < map@.len() implies #[trigger] map@[j].1.alias_view() == map@[j].0 by {
                        crate::strmap::lemma_lookup_at(map@, j);
                        if map@[j].0 != alias@ {
                            let k = crate::strmap::key_pos(old_s, map@[j].0);
                            assert(old_s[k].0 == map@[j].0);
                        }
                    }
                    lemma_trees_lookup(map@, alias@);
                    assert forall|a2: Seq<char>| a2 != alias@ implies #[trigger] lookup(
                        trees_of(map@),
                        a2,
                    ) == lookup(trees_of(old_s), a2) by {
                        lemma_trees_lookup(map@, a2);
                        lemma_trees_lookup(old_s, a2);
                    }
                    assert forall|a2: Seq<char>| #[trigger] has_key(
                        trees_of(map@),
                        a2,
                    ) <==> (has_key(trees_of(old_s), a2)
                        || a2 == alias@) by {
                        lemma_trees_lookup(map@, a2);
                        lemma_trees_lookup(old_s, a2);
                    }
                }
                self.sources = map;
                Ok(alias)
            },
        }
    }

    /// Add the context `c` to these trees, which are the map `m`: the
    /// result is the map after adding, or an error when adding fails.
    fn add_tracked(&mut self, c: &Context, Ghost(m): Ghost<Map<Seq<char>, (bool, Seq<char>)>>) -> (r: Result<String, Error>)
        requires
            trees_are(old(self).trees_view(), m),
        ensures
            final(self).lib_keys_view() == old(self).lib_keys_view(),
            match add_one(m, ctx_view(*c)) {
                Some(m2) => (r matches Ok(a) && a@ == alias_of(*c)) && trees_are(final(self).trees_view(), m2),
                None => r is Err,
            },
    {
        let ghost before = self.trees_view();
        let ghost cv = ctx_view(*c);
        let ghost a0 = alias_of(*c);
        let r = self.add(c);
        proof {
            if alias_ok(a0) {
                assert(has_key(before, a0) == m.contains_key(a0));
                if m.contains_key(a0) {
                    assert(lookup(before, a0) == Some((m[a0], false)));
                } else {
                    let m2 = m.insert(a0, cv);
                    assert forall|a: Seq<char>| #[trigger] has_key(self.trees_view(), a) == m2.contains_key(a) && (m2.contains_key(a)
                        ==> lookup(self.trees_view(), a) == Some((m2[a], false))) by {
                        if a != a0 {
                            assert(has_key(before, a) == m.contains_key(a));
                            assert(lookup(self.trees_view(), a) == lookup(before, a));
                        }
                    }
                }
            }
        }
        r
    }

    /// The source trees of the contexts `contexts`, added in turn, then
    /// those of the libraries `libs`, whose keys come to refer to their
    /// trees.  Every tree starts unmounted.
    pub fn from_contexts(contexts: &Vec<Context>, libs: &StrMap<Context>) -> (r: Result<Sources, Error>)
        ensures
            match add_all(
                Map::empty(),
                contexts@.map_values(|c: Context| ctx_view(c)) + libs@.map_values(|e: (Seq<char>, Context)| ctx_view(e.1)),
            ) {
                Some(m) => r matches Ok(s) && trees_are(s.trees_view(), m) && forall|k: Seq<char>| #[trigger] crate::compose::label_text(
                    s.lib_keys_view(),
                    k,
                ) == match lookup(libs@, k) {
                    Some(c) => Some(alias_of(c)),
                    None => None,
                },
                None => r is Err,
            },
    {
        let ghost cs = contexts@.map_values(|c: Context| ctx_view(c)) + libs@.map_values(|e: (Seq<char>, Context)| ctx_view(e.1));
        let mut s = Sources::new();
        let ghost mut m: Map<Seq<char>, (bool, Seq<char>)> = Map::empty();
        let n = contexts.len();
        let nl = libs.len();
        let mut i: usize = 0;
        assert(cs.take(0) =~= Seq::<(bool, Seq<char>)>::empty());
        assert(trees_are(s.trees_view(), m));
        while i < n
            invariant
                n == contexts@.len(),
                i <= n,
                cs == contexts@.map_values(|c: Context| ctx_view(c)) + libs@.map_values(|e: (Seq<char>, Context)| ctx_view(e.1)),
                add_all(Map::empty(), cs.take(i as int)) == Some(m),
                trees_are(s.trees_view(), m),
                s.lib_keys_view().len() == 0,
            decreases n - i,
        {
            assert(cs.take(i + 1).drop_last() =~= cs.take(i as int));
            assert(cs.take(i + 1).last() == ctx_view(contexts@[i as int]));
            match s.add_tracked(&contexts[i], Ghost(m)) {
                Ok(_) => {},
                Err(e) => {
                    proof {
                        lemma_add_all_stops(cs, i as int + 1, cs.len() as int);
                        assert(cs.take(cs.len() as int) =~= cs);
                    }
                    return Err(e);
                },
            }
            proof {
                m = add_one(m, ctx_view(contexts@[i as int]))->0;
            }
            i = i + 1;
        }
        let _ = libs.len();
        let mut j: usize = 0;
        while j < nl
            invariant
                n == contexts@.len(),
                nl == libs@.len(),
                keys_sorted(libs@),
                j <= nl,
                cs == contexts@.map_values(|c: Context| ctx_view(c)) + libs@.map_values(|e: (Seq<char>, Context)| ctx_view(e.1)),
                add_all(Map::empty(), cs.take(n + j)) == Some(m),
                trees_are(s.trees_view(), m),
                forall|k: Seq<char>| #[trigger] crate::compose::label_text(s.lib_keys_view(), k) == if has_key(libs@.take(j as int), k) {
                    Some(alias_of(lookup(libs@, k)->0))
                } else {
                    None
                },
            decreases nl - j,
        {
            let (k, c) = libs.entry(j);
            proof {
                crate::strmap::lemma_lookup_at(libs@, j as int);
            }
            assert(cs.take(n + j + 1).drop_last() =~= cs.take(n + j));
            assert(cs.take(n + j + 1).last() == ctx_view(*c));
            let a = match s.add_tracked(c, Ghost(m)) {
                Ok(a) => a,
                Err(e) => {
                    proof {
                        lemma_add_all_stops(cs, n + j + 1, cs.len() as int);
                        assert(cs.take(cs.len() as int) =~= cs);
                    }
                    return Err(e);
                },
            };
            proof {
                m = add_one(m, ctx_view(*c))->0;
            }
            let ghost before_keys = s.lib_keys@;
            let ghost kb = s.lib_keys_view();
            proof {
                use_type_invariant(&s);
            }
            let mut keys: StrMap<String> = StrMap::new();
            std::mem::swap(&mut keys, &mut s.lib_keys);
            keys.insert(copy_str(k.as_str()), a);
            s.lib_keys = keys;
            assert forall|k2: Seq<char>| #[trigger] crate::compose::label_text(s.lib_keys_view(), k2) == if has_key(libs@.take(j + 1), k2) {
                Some(alias_of(lookup(libs@, k2)->0))
            } else {
                None
            } by {
                assert(crate::compose::label_text(kb, k2) == if has_key(libs@.take(j as int), k2) {
                    Some(alias_of(lookup(libs@, k2)->0))
                } else {
                    None
                });
                if k2 == k@ {
                    assert(libs@.take(j + 1)[j as int].0 == k@);
                    assert(lookup(libs@, k@) == Some(*c));
                } else {
                    assert(lookup(s.lib_keys@, k2) == lookup(before_keys, k2));
                    if has_key(libs@.take(j + 1), k2) {
                        let x = choose|x: int| 0 <= x < libs@.take(j + 1).len() && #[trigger] libs@.take(j + 1)[x].0 == k2;
                        assert(x != j);
                        assert(libs@.take(j as int)[x].0 == k2);
                    }
                    if has_key(libs@.take(j as int), k2) {
                        let x = choose|x: int| 0 <= x < libs@.take(j as int).len() && #[trigger] libs@.take(j as int)[x].0 == k2;
                        assert(libs@.take(j + 1)[x].0 == k2);
                    }
                }
            }
            j = j + 1;
        }
        assert(cs.take(n + nl) =~= cs);
        assert(libs@.take(nl as int) =~= libs@);
        Ok(s)
    }
}

/// Once adding fails, adding more contexts still fails.
proof fn lemma_add_all_stops(cs: Seq<(bool, Seq<char>)>, n: int, m: int)
    requires
        0 <= n <= m <= cs.len(),
        add_all(Map::empty(), cs.take(n)) is None,
    ensures
        add_all(Map::empty(), cs.take(m)) is None,
    decreases m - n,
{
    if m > n {
        lemma_add_all_stops(cs, n, m - 1);
        assert(cs.take(m).drop_last() =~= cs.take(m - 1));
    }
}

/// The build contexts of the services that have one, in order.
pub open spec fn services_contexts(svcs: Seq<(Seq<char>, Service)>) -> Seq<(bool, Seq<char>)>
    decreases svcs.len(),
{
    if svcs.len() == 0 {
        Seq::empty()
    } else {
        match svcs.last().1.build {
            Some(b) => services_contexts(svcs.drop_last()).push(ctx_view(b.context)),
            None => services_contexts(svcs.drop_last()),
        }
    }
}

/// The build contexts of the services of each file in turn.
pub open spec fn files_contexts(files: Seq<File>) -> Seq<(bool, Seq<char>)>
    decreases files.len(),
{
    if files.len() == 0 {
        Seq::empty()
    } else {
        files_contexts(files.drop_last()) + services_contexts(files.last().services@)
    }
}

/// The build contexts of every file of each pod in turn.
pub open spec fn pods_contexts(pods: Seq<Pod>) -> Seq<(bool, Seq<char>)>
    decreases pods.len(),
{
    if pods.len() == 0 {
        Seq::empty()
    } else {
        pods_contexts(pods.drop_last()) + files_contexts(pod_files(pods.last()))
    }
}

/// Append the build contexts of the services of `f` to `out`.
fn push_file_contexts(f: &File, out: &mut Vec<Context>)
    ensures
        final(out)@.map_values(|c: Context| ctx_view(c)) == old(out)@.map_values(|c: Context| ctx_view(c)) + services_contexts(f.services@),
{
    let ghost start = out@.map_values(|c: Context| ctx_view(c));
    let n = f.services.len();
    let mut i: usize = 0;
    while i < n
        invariant
            n == f.services@.len(),
            i <= n,
            out@.map_values(|c: Context| ctx_view(c)) == start + services_contexts(f.services@.take(i as int)),
        decreases n - i,
    {
        let (_, svc) = f.services.entry(i);
        assert(f.services@.take(i + 1).drop_last() =~= f.services@.take(i as int));
        assert(f.services@.take(i + 1).last() == f.services@[i as int]);
        let ghost before = out@.map_values(|c: Context| ctx_view(c));
        match &svc.build {
            Some(b) => {
                out.push(copy_context(&b.context));
                assert(out@.map_values(|c: Context| ctx_view(c)) =~= before.push(ctx_view(b.context)));
                assert(start + services_contexts(f.services@.take(i + 1)) =~= before.push(ctx_view(b.context)));
            },
            None => {},
        }
        i = i + 1;
    }
    assert(f.services@.take(n as int) =~= f.services@);
}

/// The build contexts of every file of every pod, in order.
pub fn contexts_of_pods(pods: &Vec<Pod>) -> (r: Vec<Context>)
    ensures
        r@.map_values(|c: Context| ctx_view(c)) == pods_contexts(pods@),
{
    let mut out: Vec<Context> = Vec::new();
    let mut p: usize = 0;
    assert(out@.map_values(|c: Context| ctx_view(c)) =~= Seq::<(bool, Seq<char>)>::empty());
    while p < pods.len()
        invariant
            p <= pods@.len(),
            out@.map_values(|c: Context| ctx_view(c)) == pods_contexts(pods@.take(p as int)),
        decreases pods@.len() - p,
    {
        let pod = &pods[p];
        assert(pods@.take(p + 1).drop_last() =~= pods@.take(p as int));
        assert(pods@.take(p + 1).last() == *pod);
        let ghost start = out@.map_values(|c: Context| ctx_view(c));
        let ghost fs = pod_files(*pod);
        let nt = pod.target_count();
        assert(fs.take(0) =~= Seq::<File>::empty());
        assert(start + files_contexts(fs.take(0)) =~= start);
        assert(fs.take(1).drop_last() =~= fs.take(0));
        push_file_contexts(pod.file_at(0), &mut out);
        assert(start + files_contexts(fs.take(1)) =~= start + files_contexts(fs.take(0)) + services_contexts(fs[0].services@));
        let mut t: usize = 0;
        while t < nt
            invariant
                nt + 1 == fs.len(),
                fs == pod_files(*pod),
                t <= nt,
                out@.map_values(|c: Context| ctx_view(c)) == start + files_contexts(fs.take(t + 1)),
            decreases nt - t,
        {
            let k = t + 1;
            assert(fs.take(k + 1).drop_last() =~= fs.take(k as int));
            assert(fs.take(k + 1).last() == fs[k as int]);
            push_file_contexts(pod.file_at(k), &mut out);
            assert(start + files_contexts(fs.take(k + 1)) =~= start + files_contexts(fs.take(k as int)) + services_contexts(
                fs[k as int].services@,
            ));
            t = t + 1;
        }
        assert(fs.take(nt + 1) =~= fs);
        p = p + 1;
    }
    assert(pods@.take(pods@.len() as int) =~= pods@);
    out
}

impl Sources {
    /// The source trees of a project: those of the build contexts of every
    /// service in every file of every pod, then those of the libraries.
    pub fn for_pods(pods: &Vec<Pod>, libs: &StrMap<Context>) -> (r: Result<Sources, Error>)
        ensures
            match add_all(Map::empty(), pods_contexts(pods@) + libs@.map_values(|e: (Seq<char>, Context)| ctx_view(e.1))) {
                Some(m) => r matches Ok(s) && trees_are(s.trees_view(), m) && forall|k: Seq<char>| #[trigger] crate::compose::label_text(
                    s.lib_keys_view(),
                    k,
                ) == match lookup(libs@, k) {
                    Some(c) => Some(alias_of(c)),
                    None => None,
                },
                None => r is Err,
            },
    {
        let cs = contexts_of_pods(pods);
        Sources::from_contexts(&cs, libs)
    }
}

/// Looking a tree up by alias finds the tree stored under it.
proof fn lemma_trees_lookup(s: Seq<(Seq<char>, Source)>, a: Seq<char>)
    requires
        keys_sorted(s),
    ensures
        lookup(trees_of(s), a) == match lookup(s, a) {
            Some(src) => Some((ctx_view(src.context_view()), src.mounted_view())),
            None => None,
        },
        has_key(s, a) ==> s[crate::strmap::key_pos(s, a)].0 == a,
{
    let t = trees_of(s);
    assert forall|i: int, j: int| 0 <= i < j < t.len() implies crate::text::seq_lt(#[trigger] t[i].0, #[trigger] t[j].0) by {
        assert(crate::text::seq_lt(s[i].0, s[j].0));
    }
    if has_key(s, a) {
        let i = crate::strmap::key_pos(s, a);
        crate::strmap::lemma_lookup_at(s, i);
        crate::strmap::lemma_lookup_at(t, i);
        assert(t[i].0 == a);
    } else {
        if has_key(t, a) {
            let j = crate::strmap::key_pos(t, a);
            assert(s[j].0 == a);
        }
    }
}

} // verus!
