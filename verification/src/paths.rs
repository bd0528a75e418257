//! Paths, held as strings with `/` separators, and the walk up a directory
//! tree that finds a project.

use vstd::prelude::*;

use crate::ovr::contains_str;
use crate::text::{concat2, concat3, copy_str, ends_with, starts_with};

verus! {

/// The path `name` resolved against `dir`, as `Path::join` does: an
/// absolute `name` replaces `dir`, otherwise a separator is added between
/// them when `dir` is non-empty and does not already end with one.
pub open spec fn path_join(dir: Seq<char>, name: Seq<char>) -> Seq<char> {
    if name.len() > 0 && name[0] == '/' {
        name
    } else if dir.len() == 0 {
        name
    } else if dir.last() == '/' {
        dir + name
    } else {
        dir + seq!['/'] + name
    }
}

/// Join `name` onto `dir`.
pub fn join_path(dir: &str, name: &str) -> (r: String)
    ensures
        r@ == path_join(dir@, name@),
{
    proof {
        reveal_strlit("/");
        assert("/"@ =~= seq!['/']);
        if name@.len() > 0 {
            assert(name@.subrange(0, 1) =~= seq![name@[0]]);
        }
    }
    let slash = starts_with(name, "/");
    if slash {
        assert(name@.subrange(0, 1) == seq!['/']);
        assert(name@[0] == name@.subrange(0, 1)[0]);
        return copy_str(name);
    }
    assert(!(name@.len() > 0 && name@[0] == '/')) by {
        if name@.len() > 0 && name@[0] == '/' {
            assert(name@.subrange(0, 1) =~= "/"@);
        }
    }
    if dir.unicode_len() == 0 {
        return copy_str(name);
    }
    if ends_with(dir, "/") {
        assert(dir@.subrange(dir@.len() - 1, dir@.len() as int) =~= seq![dir@.last()]);
        assert(dir@.last() == seq![dir@.last()][0]);
        concat2(dir, name)
    } else {
        assert(dir@.len() >= 1);
        assert(dir@.last() != '/') by {
            if dir@.last() == '/' {
                assert(dir@.subrange(dir@.len() - 1, dir@.len() as int) =~= "/"@);
            }
        }
        let r = concat3(dir, "/", name);
        assert("/"@ =~= seq!['/']);
        r
    }
}

/// Where `cage new NAME` creates its project: `NAME` under the directory
/// `pwd` the tool was built in.
pub fn default_dir(pwd: &str, name: &str) -> (r: String)
    ensures
        r@ == path_join(pwd@, name@),
{
    join_path(pwd, name)
}

/// Join several components onto `dir`, left to right.
pub open spec fn path_join_all(dir: Seq<char>, names: Seq<Seq<char>>) -> Seq<char>
    decreases names.len(),
{
    if names.len() == 0 {
        dir
    } else {
        path_join(path_join_all(dir, names.drop_last()), names.last())
    }
}

/// What `std::path::Path::parent` gives for the path `p`.
pub uninterp spec fn std_path_parent(p: Seq<char>) -> Option<Seq<char>>;

/// Calls `std::path::Path::parent`.  The documentation says that it
/// returns the path without its final component, or `None` when the path is
/// empty or ends in a root; the contract names the result and states the one
/// consequence the walk up the tree needs: the parent is shorter.  What the
/// parent is, character by character, is left unsaid.
#[verifier::external_body]
fn parent_of(p: &str) -> (r: Option<String>)
    ensures
        match r {
            Some(q) => std_path_parent(p@) == Some(q@) && q@.len() < p@.len(),
            None => std_path_parent(p@) is None,
        },
{
    std::path::Path::new(p).parent().map(|q| q.to_string_lossy().into_owned())
}

/// Does anything exist at the path `p`?  Calls `std::path::Path::exists`;
/// the answer depends on the disk, so nothing is promised of it.
#[verifier::external_body]
fn path_exists(p: &str) -> (r: bool) {
    std::path::Path::new(p).exists()
}

/// `p`, its parent, its parent's parent, and so on, as far as
/// `std_path_parent` goes.
pub open spec fn ancestors(p: Seq<char>) -> Seq<Seq<char>>
    decreases p.len(),
{
    match std_path_parent(p) {
        Some(q) => if q.len() < p.len() {
            seq![p] + ancestors(q)
        } else {
            seq![p]
        },
        None => seq![p],
    }
}

/// The candidates whose probe answered yes, in order.
pub open spec fn dirs_answered(candidates: Seq<Seq<char>>, answers: Seq<bool>) -> Seq<Seq<char>>
    decreases candidates.len(),
{
    if candidates.len() == 0 || answers.len() == 0 {
        Seq::empty()
    } else {
        let prev = dirs_answered(candidates.drop_last(), answers.drop_last());
        if answers.last() {
            prev.push(candidates.last())
        } else {
            prev
        }
    }
}

/// The paths `find_project` asks the disk about, one per candidate
/// directory (`start` and its ancestors, nearest first): the candidate's
/// `pods` subdirectory.
pub fn project_probe_paths(start: &str) -> (r: Vec<String>)
    ensures
        r.deep_view() == ancestors(start@).map_values(|c: Seq<char>| path_join(c, "pods"@)),
{
    let candidates = project_candidates(start);
    let mut out: Vec<String> = Vec::new();
    let mut i: usize = 0;
    while i < candidates.len()
        invariant
            i <= candidates.len(),
            candidates.deep_view() == ancestors(start@),
            out.deep_view() == ancestors(start@).take(i as int).map_values(|c: Seq<char>| path_join(c, "pods"@)),
        decreases candidates.len() - i,
    {
        let p = join_path(candidates[i].as_str(), "pods");
        let ghost before = out.deep_view();
        assert(candidates.deep_view()[i as int] == candidates[i as int]@);
        out.push(p);
        assert(out.deep_view() =~= before.push(p@));
        assert(ancestors(start@).take(i + 1).map_values(|c: Seq<char>| path_join(c, "pods"@))
            =~= ancestors(start@).take(i as int).map_values(|c: Seq<char>| path_join(c, "pods"@)).push(p@));
        i = i + 1;
    }
    assert(ancestors(start@).take(candidates.len() as int) =~= ancestors(start@));
    out
}

/// The project found when the probes of `project_probe_paths(start)`
/// answered `answers` (`answers[i]` for the `i`-th): the nearest candidate
/// whose probe answered yes, or the error naming `start` when none did.
pub fn project_from_answers(start: &str, answers: &Vec<bool>) -> (r: Result<String, String>)
    requires
        answers@.len() == ancestors(start@).len(),
    ensures
        match first_project_dir(ancestors(start@), dirs_answered(ancestors(start@), answers@)) {
            Some(d) => r matches Ok(found) && found@ == d,
            None => r matches Err(e) && e@ == "could not find conductor project in "@ + start@
                + " or any directory above it"@,
        },
{
    let candidates = project_candidates(start);
    let ghost cv = ancestors(start@);
    let mut found: Vec<String> = Vec::new();
    let mut i: usize = 0;
    while i < candidates.len()
        invariant
            i <= candidates.len(),
            candidates.deep_view() == cv,
            cv == ancestors(start@),
            answers@.len() == cv.len(),
            found.deep_view() == dirs_answered(cv.take(i as int), answers@.take(i as int)),
        decreases candidates.len() - i,
    {
        assert(cv.take(i + 1).drop_last() =~= cv.take(i as int));
        assert(answers@.take(i + 1).drop_last() =~= answers@.take(i as int));
        assert(cv.take(i + 1).last() == candidates[i as int]@);
        let ghost before = found.deep_view();
        if answers[i] {
            found.push(candidates[i].clone());
            assert(found.deep_view() =~= before.push(candidates[i as int]@));
        }
        i = i + 1;
    }
    assert(cv.take(candidates.len() as int) =~= cv);
    assert(answers@.take(candidates.len() as int) =~= answers@);
    find_project_in(start, &found)
}

/// Walk up the directory tree from `start` until we find a directory with
/// a `pods` subdirectory, which is what a project looks like.  The disk is
/// asked about each path of `project_probe_paths(start)` in turn, and the
/// answers decide as `project_from_answers` says: the result is the
/// nearest candidate whose `pods` exists, or the error naming `start` when
/// none does.  What the disk answers for a path is outside any contract, so
/// the `ensures` speaks of some list of answers, one per candidate.
pub fn find_project(start: &str) -> (r: Result<String, String>)
    ensures
        exists|answers: Seq<bool>| #![trigger dirs_answered(ancestors(start@), answers)]
            answers.len() == ancestors(start@).len() && match first_project_dir(
                ancestors(start@),
                dirs_answered(ancestors(start@), answers),
            ) {
                Some(d) => r matches Ok(x) && x@ == d,
                None => r matches Err(e) && e@ == "could not find conductor project in "@ + start@
                    + " or any directory above it"@,
            },
{
    let probes = project_probe_paths(start);
    let mut answers: Vec<bool> = Vec::new();
    let mut i: usize = 0;
    while i < probes.len()
        invariant
            i <= probes.len(),
            answers@.len() == i,
        decreases probes.len() - i,
    {
        answers.push(path_exists(probes[i].as_str()));
        i = i + 1;
    }
    assert(probes.deep_view().len() == probes@.len());
    project_from_answers(start, &answers)
}

/// The first of `candidates` that is one of `project_dirs`.
pub open spec fn first_project_dir(candidates: Seq<Seq<char>>, project_dirs: Seq<Seq<char>>) -> Option<Seq<char>>
    decreases candidates.len(),
{
    if candidates.len() == 0 {
        None
    } else if project_dirs.contains(candidates[0]) {
        Some(candidates[0])
    } else {
        first_project_dir(candidates.drop_first(), project_dirs)
    }
}

/// What `first_project_dir` finds is one of the project directories.
proof fn lemma_first_project_dir_listed(candidates: Seq<Seq<char>>, project_dirs: Seq<Seq<char>>)
    ensures
        first_project_dir(candidates, project_dirs) matches Some(d) ==> project_dirs.contains(d)
            && candidates.contains(d),
    decreases candidates.len(),
{
    if candidates.len() > 0 && !project_dirs.contains(candidates[0]) {
        lemma_first_project_dir_listed(candidates.drop_first(), project_dirs);
        if first_project_dir(candidates, project_dirs) is Some {
            let d = first_project_dir(candidates, project_dirs)->0;
            let j = choose|j: int| 0 <= j < candidates.drop_first().len() && candidates.drop_first()[j] == d;
            assert(candidates[j + 1] == d);
        }
    } else if candidates.len() > 0 {
        assert(candidates[0] == candidates[0]);
    }
}

/// A directory is its own first ancestor.
proof fn lemma_ancestors_start(p: Seq<char>)
    ensures
        ancestors(p).len() > 0,
        ancestors(p)[0] == p,
{
}

/// Looking for the project from the project directory that was found
/// finds that same directory again: the walk up stops at the nearest
/// project, and a project is nearest to itself.
pub proof fn lemma_found_project_is_stable(start: Seq<char>, project_dirs: Seq<Seq<char>>)
    requires
        first_project_dir(ancestors(start), project_dirs) is Some,
    ensures
        first_project_dir(ancestors(first_project_dir(ancestors(start), project_dirs)->0), project_dirs)
            == first_project_dir(ancestors(start), project_dirs),
{
    let d = first_project_dir(ancestors(start), project_dirs)->0;
    lemma_first_project_dir_listed(ancestors(start), project_dirs);
    lemma_ancestors_start(d);
}

/// The walk of `find_project`, over a description of the disk in place of
/// the disk itself: `project_dirs` lists the directories that hold a `pods`
/// subdirectory.  The result is the nearest of `start`'s ancestors (`start`
/// itself first) that is listed, and the error comes exactly when none is.
pub fn find_project_in(start: &str, project_dirs: &Vec<String>) -> (r: Result<String, String>)
    ensures
        match first_project_dir(ancestors(start@), project_dirs.deep_view()) {
            Some(d) => r matches Ok(found) && found@ == d,
            None => r matches Err(e) && e@ == "could not find conductor project in "@ + start@
                + " or any directory above it"@,
        },
{
    let candidates = project_candidates(start);
    assert(candidates.deep_view().skip(0) =~= candidates.deep_view());
    let mut i: usize = 0;
    while i < candidates.len()
        invariant
            i <= candidates.len(),
            candidates.deep_view() == ancestors(start@),
            first_project_dir(ancestors(start@), project_dirs.deep_view())
                == first_project_dir(candidates.deep_view().skip(i as int), project_dirs.deep_view()),
        decreases candidates.len() - i,
    {
        let ghost rest = candidates.deep_view().skip(i as int);
        assert(rest[0] == candidates[i as int]@);
        if contains_str(project_dirs, candidates[i].as_str()) {
            return Ok(candidates[i].clone());
        }
        assert(rest.drop_first() =~= candidates.deep_view().skip(i + 1));
        i = i + 1;
    }
    assert(candidates.deep_view().skip(i as int).len() == 0);
    Err(concat3("could not find conductor project in ", start, " or any directory above it"))
}

/// The directories that `find_project` examines, nearest first.
pub fn project_candidates(start: &str) -> (r: Vec<String>)
    ensures
        r.deep_view() == ancestors(start@),
{
    let mut out: Vec<String> = Vec::new();
    let mut dir = copy_str(start);
    loop
        invariant
            out.deep_view() + ancestors(dir@) == ancestors(start@),
        decreases dir@.len(),
    {
        let parent = parent_of(dir.as_str());
        let ghost d = dir@;
        match parent {
            Some(q) => {
                assert(ancestors(d) == seq![d] + ancestors(q@));
                let ghost before = out.deep_view();
                out.push(dir);
                assert(out.deep_view() =~= before.push(d));
                assert(out.deep_view() + ancestors(q@) =~= before + ancestors(d));
                dir = q;
            },
            None => {
                assert(ancestors(d) == seq![d]);
                let ghost before = out.deep_view();
                out.push(dir);
                assert(out.deep_view() =~= before + ancestors(d));
                return out;
            },
        }
    }
}

} // verus!
