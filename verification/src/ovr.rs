//! Overrides (also called targets) modify a pod for use in a specific
//! environment, such as development, test or production.

use vstd::prelude::*;
use vstd::std_specs::cmp::PartialEqSpecImpl;

use crate::project::{compose_project_name_spec, Project};
use crate::text::{concat2, copy_str, str_eq};

verus! {

/// Does the optional list `only_in` admit the name `name`?  With no list,
/// every name is admitted.
pub open spec fn admits(only_in: Option<Seq<Seq<char>>>, name: Seq<char>) -> bool {
    match only_in {
        Some(list) => list.contains(name),
        None => true,
    }
}

/// The view of an optional list of strings.
pub open spec fn opt_strings_view(v: Option<Vec<String>>) -> Option<Seq<Seq<char>>> {
    match v {
        Some(list) => Some(list.deep_view()),
        None => None,
    }
}

/// Is `name` one of the strings of `list`?
pub fn contains_str(list: &Vec<String>, name: &str) -> (r: bool)
    ensures
        r == list.deep_view().contains(name@),
{
    let mut i: usize = 0;
    while i < list.len()
        invariant
            i <= list.len(),
            forall|j: int| 0 <= j < i ==> list.deep_view()[j] != name@,
        decreases list.len() - i,
    {
        if str_eq(list[i].as_str(), name) {
            assert(list.deep_view()[i as int] == name@);
            return true;
        }
        i = i + 1;
    }
    false
}

/// An `Override` is a collection of extensions to a project's basic pods,
/// identified by its name; two overrides are equal when their names are,
/// and they are ordered by name.
#[derive(Debug, Clone, Eq, PartialOrd, Ord)]
pub struct Override {
    /// The name of this environment.
    name: String,
}

impl View for Override {
    type V = Seq<char>;

    /// An override is its name.
    closed spec fn view(&self) -> Seq<char> {
        self.name@
    }
}

impl PartialEq for Override {
    fn eq(&self, other: &Self) -> (r: bool) {
        str_eq(self.name.as_str(), other.name.as_str())
    }
}

impl PartialEqSpecImpl for Override {
    open spec fn obeys_eq_spec() -> bool {
        true
    }

    open spec fn eq_spec(&self, other: &Self) -> bool {
        self@ == other@
    }
}

impl Override {
    /// Create a new override with the specified name.
    pub fn new(name: &str) -> (r: Override)
        ensures
            r@ == name@,
    {
        Override { name: copy_str(name) }
    }

    /// A copy of this override.
    pub fn copy(&self) -> (r: Override)
        ensures
            r@ == self@,
    {
        Override { name: copy_str(self.name.as_str()) }
    }

    /// Get the name of this override.
    pub fn name(&self) -> (r: &str)
        ensures
            r@ == self@,
    {
        self.name.as_str()
    }

    /// Check to see if this override should be included in some operation,
    /// given an optional `only_in_overrides` list.  If no list is supplied,
    /// we're always included.
    pub fn included_by(&self, only_in_overrides: &Option<Vec<String>>) -> (r: bool)
        ensures
            r == admits(opt_strings_view(*only_in_overrides), self@),
    {
        match only_in_overrides {
            Some(only_in) => contains_str(only_in, self.name.as_str()),
            None => true,
        }
    }

    /// Is this pod-or-plugin setting, given as an optional list of target
    /// names, enabled in this target?  The same test as `included_by`.
    pub fn is_enabled_by(&self, enable_in: &Option<Vec<String>>) -> (r: bool)
        ensures
            r == admits(opt_strings_view(*enable_in), self@),
    {
        self.included_by(enable_in)
    }

    /// The value for `docker-compose`'s `-p` argument for `project` in this
    /// target: the test target gets `test` appended to the project name.
    pub fn compose_project_name(&self, project: &Project) -> (r: String)
        ensures
            r@ == compose_project_name_spec(project.name_view(), self@),
    {
        if str_eq(self.name.as_str(), "test") {
            concat2(project.name(), "test")
        } else {
            copy_str(project.name())
        }
    }
}

} // verus!
