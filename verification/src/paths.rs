use vstd::prelude::*;

use crate::text::{ends_with, owned, spec_strip_prefix, starts_with, strip_prefix};

verus! {

/// What `std::path::Path::strip_prefix` gives for `path` and `base`, as text:
/// the rest of `path` after the leading components that equal those of
/// `base`, or nothing when `base` is not such a prefix.
pub uninterp spec fn stripped_path(path: Seq<char>, base: Seq<char>) -> Option<Seq<char>>;

/// What `std::path::Path::join` gives for `base` and `path`, as text.
pub uninterp spec fn joined_path(base: Seq<char>, path: Seq<char>) -> Seq<char>;

/// Whether `std::path::Path`'s equality holds between `a` and `b`.
pub uninterp spec fn same_path(a: Seq<char>, b: Seq<char>) -> bool;

/// Calls `std::path::Path::strip_prefix`. The result is named, not
/// described: which components match is std's business. The text of the
/// remaining path is taken losslessly, since both inputs are valid UTF-8.
#[verifier::external_body]
pub(crate) fn path_strip_prefix(path: &str, base: &str) -> (r: Option<String>)
    ensures
        match r {
            Some(rest) => stripped_path(path@, base@) == Some(rest@),
            None => stripped_path(path@, base@) is None,
        },
{
    std::path::Path::new(path).strip_prefix(base).ok().map(|p| p.to_string_lossy().into_owned())
}

/// Calls `std::path::Path::join`: `path` appended to `base` as a path
/// (replacing `base` when `path` is absolute). The result is named only.
#[verifier::external_body]
pub(crate) fn path_join(base: &str, path: &str) -> (r: String)
    ensures
        r@ == joined_path(base@, path@),
{
    std::path::Path::new(base).join(path).to_string_lossy().into_owned()
}

/// Compares two paths with `std::path::Path`'s `==`, which compares their
/// components. Two equal texts are equal paths; beyond that the result is
/// only named.
#[verifier::external_body]
pub(crate) fn path_eq(a: &str, b: &str) -> (r: bool)
    ensures
        r == same_path(a@, b@),
        a@ == b@ ==> r,
{
    std::path::Path::new(a) == std::path::Path::new(b)
}

/// A path separator that std uses on some platform: `/`, or a backslash on
/// Windows.
pub open spec fn is_platform_separator(s: Seq<char>) -> bool {
    s == "/"@ || s == "\\"@
}

/// Reads `std::path::MAIN_SEPARATOR_STR`, the platform's path separator:
/// std documents it as a backslash on Windows and `/` elsewhere. Which of the two it
/// is depends on the platform the crate is built for, and is not stated.
#[verifier::external_body]
pub(crate) fn main_separator() -> (r: &'static str)
    ensures
        is_platform_separator(r@),
{
    std::path::MAIN_SEPARATOR_STR
}

/// `value` when present, else `default`.
pub open spec fn or_default(value: Option<Seq<char>>, default: Seq<char>) -> Seq<char> {
    match value {
        Some(v) => v,
        None => default,
    }
}

/// Whether `file_path` lies in the directory `project_root`, comparing whole
/// components: its text begins with the root's text, and the root is followed
/// by the end of the path or by `separator`, or itself ends with `separator`.
pub open spec fn within_root(project_root: Seq<char>, file_path: Seq<char>, separator: Seq<char>) -> bool {
    match spec_strip_prefix(file_path, project_root) {
        Some(rest) => rest.len() == 0 || separator.is_prefix_of(rest) || separator.is_suffix_of(project_root),
        None => false,
    }
}

/// The absolute form of `file_path` in the project rooted at `project_root`,
/// with the path separator `separator`: the path itself when it lies in the
/// root's directory, else the root joined with the path without its leading
/// separator.
pub open spec fn spec_ensure_absolute(project_root: Seq<char>, file_path: Seq<char>, separator: Seq<char>) -> Seq<char> {
    if within_root(project_root, file_path, separator) {
        file_path
    } else {
        joined_path(project_root, or_default(stripped_path(file_path, separator), file_path))
    }
}

/// Whether `file_path` lies in the directory `project_root`, comparing whole
/// components with the path separator `separator`.
pub fn is_within_root(project_root: &str, file_path: &str, separator: &str) -> (r: bool)
    ensures
        r == within_root(project_root@, file_path@, separator@),
{
    match strip_prefix(file_path, project_root) {
        Some(rest) => rest.unicode_len() == 0 || starts_with(rest, separator) || ends_with(project_root, separator),
        None => false,
    }
}

/// The absolute form of `file_path` in the project rooted at
/// `project_root`, given the platform's path separator `separator`.
pub fn ensure_absolute_with_separator(project_root: &str, file_path: &str, separator: &str) -> (r: String)
    ensures
        r@ == spec_ensure_absolute(project_root@, file_path@, separator@),
{
    let file_path_relative = match path_strip_prefix(file_path, separator) {
        Some(rest) => rest,
        None => owned(file_path),
    };
    if is_within_root(project_root, file_path, separator) {
        owned(file_path)
    } else {
        path_join(project_root, file_path_relative.as_str())
    }
}

/// For a project root and a path to a file in that project, an absolute path
/// to that file. Spans sometimes carry absolute paths to the source files and
/// sometimes "relative" paths that begin with a separator: a path that lies in
/// the root's directory is kept, any other is joined to the root after its
/// leading separator is removed.
pub fn ensure_absolute(project_root: &str, file_path: &str) -> (r: String)
    ensures
        exists|separator: Seq<char>|
            is_platform_separator(separator) && r@ == spec_ensure_absolute(project_root@, file_path@, separator),
{
    let separator = main_separator();
    ensure_absolute_with_separator(project_root, file_path, separator)
}

} // verus!
