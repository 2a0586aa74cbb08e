//! Where a template comes from, and what of it is taken along.

use crate::registry::path_views;
use crate::text::{ends_with, occurs_at_exec, same_text, starts_with, string_views, to_chars};
use vstd::prelude::*;

verus! {

/// A template that has been found.
#[derive(Debug)]
pub enum TemplateSource {
    /// A directory on this machine.
    Local(String),
    /// A repository cloned into a temporary directory; `path` is the root
    /// of the clone.
    Git { path: String },
}

/// Why a template was not found.
#[derive(Debug, PartialEq, Eq, Clone, Copy, Structural)]
pub enum LoadError {
    /// The repository could not be cloned.
    CloneFailed,
    /// There is no such directory.
    Missing,
}

/// A source is fetched from a repository when it is written as a web
/// address or ends in `.git`.
pub open spec fn is_remote(source: Seq<char>) -> bool {
    starts_with(source, "http://"@) || starts_with(source, "https://"@) || ends_with(
        source,
        ".git"@,
    )
}

/// The directory that holds the template.
pub open spec fn root_of(ts: TemplateSource) -> Seq<char> {
    match ts {
        TemplateSource::Local(p) => p@,
        TemplateSource::Git { path } => path@,
    }
}

/// What looking for the template `source` ends with: a remote one is the
/// clone at `clone`, and a failure where there is no clone; a local one is
/// `source` itself, and a failure where there is nothing at that place.
pub open spec fn load_outcome(
    source: Seq<char>,
    clone: Option<Seq<char>>,
    present: bool,
    r: Result<TemplateSource, LoadError>,
) -> bool {
    if is_remote(source) {
        match clone {
            Some(at) => r matches Ok(TemplateSource::Git { path }) && path@ == at,
            None => r == Err::<TemplateSource, LoadError>(LoadError::CloneFailed),
        }
    } else if present {
        r matches Ok(TemplateSource::Local(p)) && p@ == source
    } else {
        r == Err::<TemplateSource, LoadError>(LoadError::Missing)
    }
}

/// A path has `.git` or `.svn` among its segments.
pub open spec fn is_vcs_metadata(rel: Seq<Seq<char>>) -> bool {
    rel.contains(".git"@) || rel.contains(".svn"@)
}

/// The places among the first `upto` of `entries` that are taken along
/// into the working copy of the template: all but version-control
/// metadata, in their order.
pub open spec fn taken_along(entries: Seq<Seq<Seq<char>>>, upto: int) -> Seq<int>
    decreases upto,
{
    if upto <= 0 {
        Seq::empty()
    } else if is_vcs_metadata(entries[upto - 1]) {
        taken_along(entries, upto - 1)
    } else {
        taken_along(entries, upto - 1).push(upto - 1)
    }
}

/// Whether `source` is fetched from a repository.
pub fn is_remote_source(source: &str) -> (r: bool)
    ensures
        r == is_remote(source@),
{
    let chars = to_chars(source);
    let plain = to_chars("http://");
    let secure = to_chars("https://");
    let suffix = to_chars(".git");
    if occurs_at_exec(&chars, 0, &plain) || occurs_at_exec(&chars, 0, &secure) {
        return true;
    }
    if chars.len() < suffix.len() {
        return false;
    }
    occurs_at_exec(&chars, chars.len() - suffix.len(), &suffix)
}

/// Settles where the template `source` is found. For a remote source,
/// `clone` is the root of its clone, or `None` where cloning failed; for a
/// local one, `present` says whether there is anything at that place.
pub fn load_template(source: &str, clone: Option<String>, present: bool) -> (r: Result<
    TemplateSource,
    LoadError,
>)
    ensures
        load_outcome(
            source@,
            match clone {
                Some(at) => Some(at@),
                None => None,
            },
            present,
            r,
        ),
{
    if is_remote_source(source) {
        match clone {
            Some(path) => Ok(TemplateSource::Git { path }),
            None => Err(LoadError::CloneFailed),
        }
    } else if present {
        Ok(TemplateSource::Local(source.to_owned()))
    } else {
        Err(LoadError::Missing)
    }
}

/// The directory that holds the template.
pub fn template_root(ts: &TemplateSource) -> (out: &str)
    ensures
        out@ == root_of(*ts),
{
    match ts {
        TemplateSource::Local(p) => p.as_str(),
        TemplateSource::Git { path } => path.as_str(),
    }
}

/// Whether `name` is one of the segments of `rel`.
pub fn has_segment(rel: &Vec<String>, name: &str) -> (r: bool)
    ensures
        r == string_views(rel@).contains(name@),
{
    let ghost names = string_views(rel@);
    let mut i: usize = 0;
    while i < rel.len()
        invariant
            i <= rel.len(),
            names == string_views(rel@),
            forall|k: int| 0 <= k < i ==> names[k] != name@,
        decreases rel.len() - i,
    {
        proof {
            assert(names[i as int] == rel@[i as int]@);
        }
        if same_text(rel[i].as_str(), name) {
            return true;
        }
        i += 1;
    }
    false
}

/// Picks what is copied into the working copy of a template: the places
/// in `entries`, each a path below the template's root, of all that is no
/// version-control metadata.
pub fn copy_to_temp_root(entries: &Vec<Vec<String>>) -> (out: Vec<usize>)
    ensures
        out@.map_values(|k: usize| k as int) == taken_along(
            path_views(entries@),
            entries@.len() as int,
        ),
{
    let ghost all = path_views(entries@);
    let mut out: Vec<usize> = Vec::new();
    let mut i: usize = 0;
    proof {
        assert(out@.map_values(|k: usize| k as int) =~= taken_along(all, 0));
    }
    while i < entries.len()
        invariant
            i <= entries.len(),
            all == path_views(entries@),
            out@.map_values(|k: usize| k as int) == taken_along(all, i as int),
        decreases entries.len() - i,
    {
        let rel = &entries[i];
        let ghost before = out@;
        proof {
            assert(all[i as int] == string_views(rel@));
        }
        if !(has_segment(rel, ".git") || has_segment(rel, ".svn")) {
            out.push(i);
            proof {
                assert(out@.map_values(|k: usize| k as int) =~= before.map_values(
                    |k: usize| k as int,
                ).push(i as int));
            }
        }
        i += 1;
    }
    out
}

} // verus!
