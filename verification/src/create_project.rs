//! The skeleton of a new project:
//!
//! ```text
//! <name>
//! └── pods
//!   ├── common.env
//!   ├── <name>.yml
//!   └── overrides
//!       ├── development
//!       │   └── common.env
//!       ├── production
//!       │   └── common.env
//!       └── test
//!           └── common.env
//! ```

use vstd::prelude::*;

use crate::paths::{join_path, path_join};
use crate::text::{concat2, concat3, copy_str};

verus! {

/// The variables every service of a new project starts with.
pub open spec fn common_env() -> Seq<char> {
    "\nFOO=bar\n"@
}

/// The pod file of a new project.
pub open spec fn main_yml() -> Seq<char> {
    "\ndb:\n  image: postgres\nweb:\n  image: rails\n  links:\n    - db:db\n  ports:\n    - 3000:3000\n"@
}

/// The environments a new project has overrides for.
pub open spec fn environments() -> Seq<Seq<char>> {
    seq!["development"@, "production"@, "test"@]
}

/// The database URL of a new project in an environment.
pub open spec fn database_env(name: Seq<char>, env: Seq<char>) -> Seq<char> {
    "DATABASE_URL=postgres://postgres@db:5432/"@ + name + "_"@ + env
}

/// The entries of one environment's override directory.
pub open spec fn env_entries(dir: Seq<char>, name: Seq<char>, env: Seq<char>) -> Seq<(Seq<char>, Option<Seq<char>>)> {
    let d = path_join(path_join(dir, "pods/overrides"@), env);
    seq![(d, None), (path_join(d, "common.env"@), Some(database_env(name, env)))]
}

/// What a new project `name` under `parent` consists of, in the order it is
/// created: each path, with the contents of a file, or `None` for a
/// directory.
pub open spec fn skeleton(parent: Seq<char>, name: Seq<char>) -> Seq<(Seq<char>, Option<Seq<char>>)> {
    let dir = path_join(parent, name);
    let pods = path_join(dir, "pods"@);
    seq![
        (dir, None),
        (pods, None),
        (path_join(pods, "common.env"@), Some(common_env())),
        (path_join(pods, name + ".yml"@), Some(main_yml())),
        (path_join(dir, "pods/overrides"@), None),
    ] + env_entries(dir, name, "development"@) + env_entries(dir, name, "production"@) + env_entries(dir, name, "test"@)
}

/// One entry of a skeleton as a value.
pub open spec fn entry_view(e: (String, Option<String>)) -> (Seq<char>, Option<Seq<char>>) {
    (e.0@, match e.1 {
        Some(c) => Some(c@),
        None => None,
    })
}

/// Add the entries of one environment.
fn push_env(out: &mut Vec<(String, Option<String>)>, dir: &str, name: &str, env: &str)
    ensures
        final(out)@.map_values(|e: (String, Option<String>)| entry_view(e)) == old(out)@.map_values(
            |e: (String, Option<String>)| entry_view(e),
        ) + env_entries(dir@, name@, env@),
{
    let ghost before = out@.map_values(|e: (String, Option<String>)| entry_view(e));
    let overrides = join_path(dir, "pods/overrides");
    let d = join_path(overrides.as_str(), env);
    let file = join_path(d.as_str(), "common.env");
    let mut contents = concat3("DATABASE_URL=postgres://postgres@db:5432/", name, "_");
    contents.append(env);
    out.push((d, None));
    out.push((file, Some(contents)));
    assert(out@.map_values(|e: (String, Option<String>)| entry_view(e)) =~= before + env_entries(dir@, name@, env@));
}

/// The skeleton of a new project `name` under the directory `parent`,
/// for the caller to create in order.
pub fn create_project(parent: &str, name: &str) -> (r: Vec<(String, Option<String>)>)
    ensures
        r@.map_values(|e: (String, Option<String>)| entry_view(e)) == skeleton(parent@, name@),
{
    let dir = join_path(parent, name);
    let pods = join_path(dir.as_str(), "pods");
    let yml = concat2(name, ".yml");
    let mut out: Vec<(String, Option<String>)> = Vec::new();
    out.push((copy_str(dir.as_str()), None));
    out.push((copy_str(pods.as_str()), None));
    out.push((join_path(pods.as_str(), "common.env"), Some(copy_str("\nFOO=bar\n"))));
    out.push(
        (
            join_path(pods.as_str(), yml.as_str()),
            Some(copy_str("\ndb:\n  image: postgres\nweb:\n  image: rails\n  links:\n    - db:db\n  ports:\n    - 3000:3000\n")),
        ),
    );
    out.push((join_path(dir.as_str(), "pods/overrides"), None));
    let ghost head = out@.map_values(|e: (String, Option<String>)| entry_view(e));
    assert(head =~= seq![
        (dir@, None),
        (pods@, None),
        (path_join(pods@, "common.env"@), Some(common_env())),
        (path_join(pods@, name@ + ".yml"@), Some(main_yml())),
        (path_join(dir@, "pods/overrides"@), None),
    ]);
    push_env(&mut out, dir.as_str(), name, "development");
    push_env(&mut out, dir.as_str(), name, "production");
    push_env(&mut out, dir.as_str(), name, "test");
    out
}

} // verus!
