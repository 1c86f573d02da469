//! File paths as opaque values carried through the library, and the few
//! path questions the logic asks (a file's name and stem).

use vstd::prelude::*;
use std::path::{Path, PathBuf};

verus! {

#[verifier::external_type_specification]
#[verifier::external_body]
pub struct ExPathBuf(PathBuf);

#[verifier::external_type_specification]
#[verifier::external_body]
pub struct ExPath(Path);

/// The final component of a path, when it has one that is valid UTF-8.
pub uninterp spec fn file_name_of(p: PathBuf) -> Option<Seq<char>>;

/// `PathBuf::as_path`.
#[verifier::external_body]
pub(crate) fn as_path(p: &PathBuf) -> &Path {
    p.as_path()
}

/// `Path::file_name` taken as text: `None` when the path has no final
/// component or it is not valid UTF-8.
#[verifier::external_body]
pub(crate) fn file_name(p: &PathBuf) -> (r: Option<String>)
    ensures
        match r {
            Some(s) => file_name_of(*p) == Some(s@),
            None => file_name_of(*p) is None,
        },
{
    p.file_name().and_then(|n| n.to_str()).map(String::from)
}

/// The stem of a path's final component, lossily decoded.
pub uninterp spec fn path_stem_of(p: &Path) -> Option<Seq<char>>;

/// The path `PathBuf::from` makes of `s`.
pub uninterp spec fn pathbuf_of(s: Seq<char>) -> PathBuf;

/// `p` with `s` pushed as a further component (`Path::join`).
pub uninterp spec fn joined(p: PathBuf, s: Seq<char>) -> PathBuf;

/// `Path::file_stem` of a borrowed path, lossily decoded.
#[verifier::external_body]
pub(crate) fn path_file_stem(p: &Path) -> (r: Option<String>)
    ensures
        match r {
            Some(s) => path_stem_of(p) == Some(s@),
            None => path_stem_of(p) is None,
        },
{
    p.file_stem().map(|s| s.to_string_lossy().into_owned())
}

/// `PathBuf::from` a string.
#[verifier::external_body]
pub(crate) fn path_from(s: &str) -> (r: PathBuf)
    ensures
        r == pathbuf_of(s@),
{
    PathBuf::from(s)
}

/// `Path::join` with one more component.
#[verifier::external_body]
pub(crate) fn join(p: &PathBuf, s: &str) -> (r: PathBuf)
    ensures
        r == joined(*p, s@),
{
    p.join(s)
}

/// The path without its final component, when it has one.
pub uninterp spec fn parent_of(p: PathBuf) -> Option<PathBuf>;

/// The path is the empty path.
pub uninterp spec fn path_empty(p: PathBuf) -> bool;

/// `Path::parent`, owned.
#[verifier::external_body]
pub(crate) fn path_parent(p: &PathBuf) -> (r: Option<PathBuf>)
    ensures
        r == parent_of(*p),
{
    p.parent().map(|d| d.to_path_buf())
}

/// `OsStr::is_empty` on the path's text.
#[verifier::external_body]
pub(crate) fn path_is_empty(p: &PathBuf) -> (r: bool)
    ensures
        r == path_empty(*p),
{
    p.as_os_str().is_empty()
}

} // verus!
