//! Default image tags: a list of tagged image names, one per line, whose
//! tags are used for images given without one (typically to pin the
//! versions built by a continuous integration system).

use vstd::prelude::*;

use crate::errors::Error;
use crate::strmap::{has_key, lookup, StrMap};
use crate::text::{concat2, copy_str, str_eq};

verus! {

/// A Docker image name, as `compose_yml` reads it.
#[derive(Debug, Clone)]
pub struct ImageRef {
    /// The image as written out again: `[host/][user/]name[:tag|@digest]`.
    pub text: String,
    /// The image written out without its tag or digest.
    pub base: String,
    /// Does the image have a tag or digest?
    pub versioned: bool,
}

/// What reading `s` as an image gives with `compose_yml`: the image
/// written out, without its version, and whether it has one; `None` when
/// `s` is not an image name.
pub uninterp spec fn image_parts(s: Seq<char>) -> Option<(Seq<char>, Seq<char>, bool)>;

/// The parts of an image as a value.
pub open spec fn image_view(i: ImageRef) -> (Seq<char>, Seq<char>, bool) {
    (i.text@, i.base@, i.versioned)
}

/// Calls `compose_yml::v2::Image::from_str` on `s`, then writes the image
/// out (`Display`), writes out `without_version()`, and tests `version`.
/// The contract names the result; nothing more about it is claimed.
#[verifier::external_body]
fn parse_image(s: &str) -> (r: Option<ImageRef>)
    ensures
        match r {
            Some(i) => image_parts(s@) == Some(image_view(i)),
            None => image_parts(s@) is None,
        },
{
    let image: compose_yml::v2::Image = std::str::FromStr::from_str(s).ok()?;
    Some(ImageRef {
        text: image.to_string(),
        base: image.without_version().to_string(),
        versioned: image.version.is_some(),
    })
}

/// Read `s` as an image name.
pub fn read_image(s: &str) -> (r: Result<ImageRef, Error>)
    ensures
        match image_parts(s@) {
            Some(p) => r matches Ok(i) && image_view(i) == p,
            None => r matches Err(e) && (e matches Error::CouldNotParse { parsing_as, input } && parsing_as@ == "image"@
                && input@ == s@),
        },
{
    match parse_image(s) {
        Some(i) => Ok(i),
        None => Err(Error::parse("image", s)),
    }
}

/// The tagged images, by their names without versions.
#[derive(Debug)]
pub struct DefaultTags {
    /// For each image name without a version, the image with its version.
    tags: StrMap<String>,
}

/// The message for an image without a tag in the list.
pub open spec fn untagged_message(image: Seq<char>) -> Seq<char> {
    "Default image must have tag: "@ + image
}

/// The message for an image given two versions.
pub open spec fn conflict_message(base: Seq<char>) -> Seq<char> {
    "Conflicting versions for "@ + base
}

/// The defaults after reading the lines `lines`, or the fault of the first
/// line that cannot be read: a line that is no image name (`(true, line)`),
/// or, with its message, an image without a tag or a second, different
/// version of an image (`(false, message)`).
pub open spec fn read_lines(lines: Seq<Seq<char>>) -> Result<Map<Seq<char>, Seq<char>>, (bool, Seq<char>)>
    decreases lines.len(),
{
    if lines.len() == 0 {
        Ok(Map::empty())
    } else {
        match read_lines(lines.drop_last()) {
            Err(e) => Err(e),
            Ok(m) => match image_parts(lines.last()) {
                None => Err((true, lines.last())),
                Some(p) => if !p.2 {
                    Err((false, untagged_message(p.0)))
                } else if m.contains_key(p.1) && m[p.1] != p.0 {
                    Err((false, conflict_message(p.1)))
                } else {
                    Ok(m.insert(p.1, p.0))
                },
            },
        }
    }
}

/// `e` is the error for the fault `f`: a line that is no image is
/// reported as one that could not be parsed as an image, the others by
/// their messages.
pub open spec fn read_error(f: (bool, Seq<char>), e: Error) -> bool {
    if f.0 {
        e matches Error::CouldNotParse { parsing_as, input } && parsing_as@ == "image"@ && input@ == f.1
    } else {
        e matches Error::Message(m) && m@ == f.1
    }
}

impl DefaultTags {
    /// The defaults, as a map from image names without versions to tagged
    /// images.
    pub closed spec fn tags_view(&self) -> Map<Seq<char>, Seq<char>> {
        Map::new(|k: Seq<char>| has_key(self.tags@, k), |k: Seq<char>| lookup(self.tags@, k)->0@)
    }

    /// Read default tags from the lines of a file.
    pub fn read(lines: &Vec<String>) -> (r: Result<DefaultTags, Error>)
        ensures
            match read_lines(lines.deep_view()) {
                Ok(m) => r matches Ok(t) && t.tags_view() == m,
                Err(f) => r matches Err(e) && read_error(f, e),
            },
    {
        let ghost lv = lines.deep_view();
        let mut tags: StrMap<String> = StrMap::new();
        let mut i: usize = 0;
        assert(DefaultTags { tags }.tags_view() =~= Map::<Seq<char>, Seq<char>>::empty());
        while i < lines.len()
            invariant
                lv == lines.deep_view(),
                i <= lines@.len(),
                read_lines(lv.take(i as int)) matches Ok(m) && (DefaultTags { tags }).tags_view() == m,
            decreases lines@.len() - i,
        {
            assert(lv.take(i + 1).drop_last() =~= lv.take(i as int));
            assert(lv.take(i + 1).last() == lv[i as int]);
            assert(lines[i as int]@ == lv[i as int]);
            let ghost m = read_lines(lv.take(i as int))->Ok_0;
            let image = match read_image(lines[i].as_str()) {
                Ok(im) => im,
                Err(e) => {
                    proof {
                        lemma_read_lines_stops(lv, i as int + 1, lv.len() as int);
                        assert(lv.take(lv.len() as int) =~= lv);
                        assert(lv.contains(lv[i as int]));
                    }
                    return Err(e);
                },
            };
            if !image.versioned {
                proof {
                    lemma_read_lines_stops(lv, i as int + 1, lv.len() as int);
                    assert(lv.take(lv.len() as int) =~= lv);
                }
                return Err(Error::Message(concat2("Default image must have tag: ", image.text.as_str())));
            }
            match tags.get(image.base.as_str()) {
                Some(existing) => {
                    if !str_eq(existing.as_str(), image.text.as_str()) {
                        proof {
                            lemma_read_lines_stops(lv, i as int + 1, lv.len() as int);
                            assert(lv.take(lv.len() as int) =~= lv);
                        }
                        return Err(Error::Message(concat2("Conflicting versions for ", image.base.as_str())));
                    }
                },
                None => {},
            }
            let ghost key = image.base@;
            let ghost val = image.text@;
            let ghost before = tags@;
            tags.insert(image.base, image.text);
            assert((DefaultTags { tags }).tags_view() =~= m.insert(key, val)) by {
                assert forall|k: Seq<char>| #[trigger] has_key(tags@, k) == m.insert(key, val).contains_key(k) by {
                    assert(has_key(before, k) == m.contains_key(k));
                }
                assert forall|k: Seq<char>| #[trigger] m.insert(key, val).contains_key(k) implies lookup(tags@, k)->0@
                    == m.insert(key, val)[k] by {
                    if k != key {
                        assert(lookup(tags@, k) == lookup(before, k));
                        assert(m.contains_key(k));
                        assert(lookup(before, k)->0@ == m[k]);
                    }
                }
            }
            i = i + 1;
        }
        assert(lv.take(lines@.len() as int) =~= lv);
        Ok(DefaultTags { tags })
    }

    /// The image to use for `image`: itself if it has a version, otherwise
    /// its default, if there is one, otherwise itself.
    pub fn default_for(&self, image: &ImageRef) -> (r: String)
        ensures
            r@ == if !image.versioned && self.tags_view().contains_key(image.text@) {
                self.tags_view()[image.text@]
            } else {
                image.text@
            },
    {
        if image.versioned {
            return copy_str(image.text.as_str());
        }
        match self.tags.get(image.text.as_str()) {
            Some(d) => copy_str(d.as_str()),
            None => copy_str(image.text.as_str()),
        }
    }
}

/// Once a line cannot be read, later lines change nothing.
proof fn lemma_read_lines_stops(lines: Seq<Seq<char>>, n: int, m: int)
    requires
        0 <= n <= m <= lines.len(),
        read_lines(lines.take(n)) is Err,
    ensures
        read_lines(lines.take(m)) == read_lines(lines.take(n)),
    decreases m - n,
{
    if m > n {
        lemma_read_lines_stops(lines, n, m - 1);
        assert(lines.take(m).drop_last() =~= lines.take(m - 1));
    }
}

} // verus!
