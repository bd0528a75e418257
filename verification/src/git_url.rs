//! Git repository URLs: ordinary `http`, `https` and `git` URLs, and the
//! `scp`-style `git@host:path` and bare `github.com/...` forms that Docker
//! also accepts.

use vstd::prelude::*;

use crate::errors::Error;
use crate::text::{concat2, concat3, copy_str, is_prefix};

verus! {

/// The pattern a git URL must match: one of the accepted prefixes.
pub open spec fn validate_pattern() -> Seq<char> {
    "^(?:https?://|git://|github\\.com/|git@)"@
}

/// The pattern that picks apart the URLs `url::Url` cannot read.
pub open spec fn parse_pattern() -> Seq<char> {
    "^(?:git@([^:]+):(.*))|(github\\.com/.*)"@
}

/// Does `s` start with one of the prefixes of a git URL?
pub open spec fn has_git_prefix(s: Seq<char>) -> bool {
    ||| is_prefix("http://"@, s)
    ||| is_prefix("https://"@, s)
    ||| is_prefix("git://"@, s)
    ||| is_prefix("github.com/"@, s)
    ||| is_prefix("git@"@, s)
}

/// Calls `regex::Regex::new(pattern)` and `is_match(text)` for the pattern
/// of git URLs, whose only alternatives are anchored prefixes: the contract
/// says the text starts with one of them.
#[verifier::external_body]
fn regex_is_match(pattern: &str, text: &str) -> (r: bool)
    requires
        pattern@ == validate_pattern(),
    ensures
        r == has_git_prefix(text@),
{
    regex::Regex::new(pattern).unwrap().is_match(text)
}

/// The text of `t` from position `i` up to the next line break (`.*`
/// stops there).
pub open spec fn line_from(t: Seq<char>, i: int) -> Seq<char> {
    match crate::text::first_index_of(t.skip(i), '\n') {
        Some(n) => t.subrange(i, i + n),
        None => t.skip(i),
    }
}

/// Does `github.com/` occur in `t` at position `i`?
pub open spec fn github_at(t: Seq<char>, i: int) -> bool {
    0 <= i && i + 11 <= t.len() && t.subrange(i, i + 11) == "github.com/"@
}

/// What the three groups of `parse_pattern` capture in `text`, when the
/// pattern matches.  Its first alternative, anchored at the start, is
/// `git@`, a non-empty host up to the first `:`, then the path up to the
/// line's end; failing that, the second, unanchored, finds the first
/// `github.com/` and takes it up to the line's end.
pub open spec fn git_url_captures(text: Seq<char>) -> Option<(Option<Seq<char>>, Option<Seq<char>>, Option<Seq<char>>)> {
    let rest = text.skip(4);
    if is_prefix("git@"@, text) && (crate::text::first_index_of(rest, ':') matches Some(q) && q > 0) {
        let q = crate::text::first_index_of(rest, ':')->0;
        Some((Some(rest.take(q)), Some(line_from(rest, q + 1)), None))
    } else if exists|i: int| github_at(text, i) {
        let i = choose|i: int| github_at(text, i) && forall|j: int| 0 <= j < i ==> !github_at(text, j);
        Some((None, None, Some(line_from(text, i))))
    } else {
        None
    }
}

/// Calls `regex::Regex::new(pattern)` and `captures(text)` for
/// `parse_pattern`; the contract says what the groups capture, as
/// `git_url_captures` spells out.
#[verifier::external_body]
fn regex_captures(pattern: &str, text: &str) -> (r: Option<(Option<String>, Option<String>, Option<String>)>)
    requires
        pattern@ == parse_pattern(),
    ensures
        match r {
            Some(c) => git_url_captures(text@) == Some(
                (
                    match c.0 {
                        Some(s) => Some(s@),
                        None => None,
                    },
                    match c.1 {
                        Some(s) => Some(s@),
                        None => None,
                    },
                    match c.2 {
                        Some(s) => Some(s@),
                        None => None,
                    },
                ),
            ) && (c.0 is Some ==> c.1 is Some) && (c.0 is None ==> c.2 is Some),
            None => git_url_captures(text@) is None,
        },
{
    let caps = regex::Regex::new(pattern).unwrap().captures(text)?;
    Some((
        caps.get(1).map(|m| m.as_str().to_owned()),
        caps.get(2).map(|m| m.as_str().to_owned()),
        caps.get(3).map(|m| m.as_str().to_owned()),
    ))
}

/// What `url::Url::parse(s)` gives, written back out: `None` when `s` is
/// not a URL.
pub uninterp spec fn url_text(s: Seq<char>) -> Option<Seq<char>>;

/// Calls `url::Url::parse(s)` and writes the URL back out.  The contract
/// names the result; nothing more about it is claimed.
#[verifier::external_body]
fn parse_url(s: &str) -> (r: Option<String>)
    ensures
        match r {
            Some(t) => url_text(s@) == Some(t@),
            None => url_text(s@) is None,
        },
{
    url::Url::parse(s).ok().map(|u| u.to_string())
}

/// The URL of a git repository.
#[derive(Debug, Clone)]
pub struct GitUrl {
    /// The URL as given.
    url: String,
}

impl View for GitUrl {
    type V = Seq<char>;

    /// The URL as given.
    closed spec fn view(&self) -> Seq<char> {
        self.url@
    }
}

/// The real URL standing for `url`, if `url::Url` cannot read it as it is.
pub open spec fn rewritten_url(url: Seq<char>) -> Option<Seq<char>> {
    match git_url_captures(url) {
        Some(c) => Some(
            if c.0 is Some {
                "git://git@"@ + c.0->0 + "/"@ + c.1->0
            } else {
                "https://"@ + c.2->0
            },
        ),
        None => None,
    }
}

impl GitUrl {
    /// A git URL: one of the forms Docker accepts, or an error.
    pub fn new(url: &str) -> (r: Result<GitUrl, Error>)
        ensures
            match r {
                Ok(g) => has_git_prefix(url@) && g@ == url@,
                Err(e) => !has_git_prefix(url@) && (e matches Error::Message(m) && m@ == "Not a docker-compatible GitHub URL: "@
                    + url@),
            },
    {
        if regex_is_match("^(?:https?://|git://|github\\.com/|git@)", url) {
            Ok(GitUrl { url: copy_str(url) })
        } else {
            Err(Error::Message(concat2("Not a docker-compatible GitHub URL: ", url)))
        }
    }

    /// The URL as given.
    pub fn as_str(&self) -> (r: &str)
        ensures
            r@ == self@,
    {
        self.url.as_str()
    }

    /// This URL as a real URL, written out: the URL itself when `url::Url`
    /// reads it, otherwise `git@host:path` becomes `git://git@host/path`
    /// and `github.com/...` becomes `https://github.com/...`.
    pub fn to_url(&self) -> (r: Result<String, Error>)
        ensures
            match url_text(self@) {
                Some(t) => r matches Ok(s) && s@ == t,
                None => match rewritten_url(self@) {
                    None => r matches Err(e) && (e matches Error::Message(m) && m@ == "expected a git URL: "@ + self@),
                    Some(u) => match url_text(u) {
                        Some(t) => r matches Ok(s) && s@ == t,
                        None => r matches Err(e) && (e matches Error::CouldNotParse { parsing_as, input } && parsing_as@
                            == "URL"@ && input@ == u),
                    },
                },
            },
    {
        if let Some(t) = parse_url(self.url.as_str()) {
            return Ok(t);
        }
        let caps = match regex_captures("^(?:git@([^:]+):(.*))|(github\\.com/.*)", self.url.as_str()) {
            Some(c) => c,
            None => {
                return Err(Error::Message(concat2("expected a git URL: ", self.url.as_str())));
            },
        };
        let new = match (&caps.0, &caps.1, &caps.2) {
            (Some(host), Some(path), _) => {
                let mut n = concat3("git://git@", host.as_str(), "/");
                n.append(path.as_str());
                n
            },
            (None, _, Some(rest)) => concat2("https://", rest.as_str()),
            _ => {
                assert(false);
                String::new()
            },
        };
        match parse_url(new.as_str()) {
            Some(t) => Ok(t),
            None => Err(Error::parse("URL", new.as_str())),
        }
    }
}

} // verus!
