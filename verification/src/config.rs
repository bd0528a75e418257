//! `config/project.yml`: the version of the tool a project asks for.

use vstd::prelude::*;

use crate::errors::Error;
use crate::text::copy_str;

verus! {

/// What `semver` says of the requirement `req` and the version `version`:
/// whether the version meets it, or `None` when either cannot be read.
pub uninterp spec fn semver_matches(req: Seq<char>, version: Seq<char>) -> Option<bool>;

/// Calls `semver::VersionReq::parse(req)`, `semver::Version::parse(version)`
/// and `VersionReq::matches`.  The contract names the result; nothing more
/// about it is claimed.
#[verifier::external_body]
fn version_matches(req: &str, version: &str) -> (r: Option<bool>)
    ensures
        r == semver_matches(req@, version@),
{
    let req = semver::VersionReq::parse(req).ok()?;
    let version = semver::Version::parse(version).ok()?;
    Some(req.matches(&version))
}

/// Check the `cage_version` requirement of a project's configuration
/// against the running version: no requirement is fine, a requirement the
/// version does not meet is `MismatchedVersion`, and one that cannot be read
/// is an error reading the file at `path`.
pub fn check_config_version(path: &str, cage_version: Option<&str>, version: &str) -> (r: Result<(), Error>)
    ensures
        match cage_version {
            None => r is Ok,
            Some(req) => match semver_matches(req@, version@) {
                Some(true) => r is Ok,
                Some(false) => r matches Err(e) && (e matches Error::MismatchedVersion(v) && v@ == req@),
                None => r matches Err(e) && (e matches Error::CouldNotReadFile(p) && p@ == path@),
            },
        },
{
    match cage_version {
        None => Ok(()),
        Some(req) => match version_matches(req, version) {
            Some(true) => Ok(()),
            Some(false) => Err(Error::MismatchedVersion(copy_str(req))),
            None => Err(Error::CouldNotReadFile(copy_str(path))),
        },
    }
}

} // verus!
