//! Paths as text, and the three questions the library asks of them.

use normalize_path::NormalizePath;
use vstd::prelude::*;

verus! {

/// The path that std's `Path::join` gives for `base` and `rel`.
pub uninterp spec fn joined_path(base: Seq<char>, rel: Seq<char>) -> Seq<char>;

/// The path that `NormalizePath::normalize` gives for `path`.
pub uninterp spec fn normal_form(path: Seq<char>) -> Seq<char>;

/// Whether std's `Path::starts_with` finds `base` to be a prefix of `path`.
pub uninterp spec fn path_begins_with(path: Seq<char>, base: Seq<char>) -> bool;

/// The first media type that `mime_guess` finds for `path`, if it finds one.
pub uninterp spec fn guessed_mime(path: Seq<char>) -> Option<Seq<char>>;

/// The path that `pathdiff::diff_paths` finds to lead from `base` to
/// `path`, if it finds one.
pub uninterp spec fn path_difference(path: Seq<char>, base: Seq<char>) -> Option<Seq<char>>;

/// Calls `diff_paths` of the pathdiff crate, which writes `path` relative
/// to `base` without touching the disk. The result is named, not described.
#[verifier::external_body]
pub(crate) fn relative_to(path: &str, base: &str) -> (rel: Option<String>)
    ensures
        match rel {
            Some(r) => path_difference(path@, base@) == Some(r@),
            None => path_difference(path@, base@) is None,
        },
{
    pathdiff::diff_paths(path, base).map(|rel| rel.to_string_lossy().into_owned())
}

/// Calls std's `Path::join`: `rel` appended to `base`, or `rel` alone where
/// it is absolute. The result is named, not described.
#[verifier::external_body]
pub(crate) fn join(base: &str, rel: &str) -> (path: String)
    ensures
        path@ == joined_path(base@, rel@),
{
    std::path::Path::new(base).join(rel).to_string_lossy().into_owned()
}

/// Calls `NormalizePath::normalize` of the normalize-path crate, which
/// collapses `.` and `..` and repeated separators without touching the
/// disk. The result is named, not described.
#[verifier::external_body]
pub(crate) fn normalize(path: &str) -> (normal: String)
    ensures
        normal@ == normal_form(path@),
{
    std::path::Path::new(path).normalize().to_string_lossy().into_owned()
}

/// Calls std's `Path::starts_with`, which compares whole components. The
/// result is named, not described.
#[verifier::external_body]
pub(crate) fn begins_with(path: &str, base: &str) -> (yes: bool)
    ensures
        yes == path_begins_with(path@, base@),
{
    std::path::Path::new(path).starts_with(base)
}

/// Calls `mime_guess::from_path` and takes the first guess as text, where
/// the extension is known. The result is named, not described.
#[verifier::external_body]
pub(crate) fn guess_mime(path: &str) -> (mime: Option<String>)
    ensures
        match mime {
            Some(m) => guessed_mime(path@) == Some(m@),
            None => guessed_mime(path@) is None,
        },
{
    mime_guess::from_path(path).first().map(|m| m.to_string())
}

/// Whether `path`, once normalized, lies at or below `root`.
pub open spec fn within_root(root: Seq<char>, path: Seq<char>) -> bool {
    path_begins_with(normal_form(path), root)
}

/// Where a request for `rel` points: `rel` resolved against `root`.
pub open spec fn resolved(root: Seq<char>, rel: Seq<char>) -> Seq<char> {
    joined_path(root, rel)
}

/// Resolves `rel` against `root` and keeps the result only if, once
/// normalized, it still lies at or below `root`.
pub fn resolve(root: &str, rel: &str) -> (path: Option<String>)
    ensures
        match path {
            Some(p) => p@ == resolved(root@, rel@) && within_root(root@, p@),
            None => !within_root(root@, resolved(root@, rel@)),
        },
{
    let path = join(root, rel);
    let normal = normalize(path.as_str());
    if begins_with(normal.as_str(), root) {
        Some(path)
    } else {
        None
    }
}

} // verus!
