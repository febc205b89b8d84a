//! File paths given as text.
use vstd::prelude::*;

verus! {

/// What `Path::file_name` gives for the path `p` (its last component, unless
/// that is `..` or the path has none), read back as text with
/// `to_string_lossy`.
pub uninterp spec fn path_file_name(p: Seq<char>) -> Option<Seq<char>>;

/// Calls `Path::new(path).file_name()` and converts the name to a `String`;
/// the result is named by `path_file_name`.
#[verifier::external_body]
pub(crate) fn file_name(path: &str) -> (r: Option<String>)
    ensures
        match r {
            Some(n) => path_file_name(path@) == Some(n@),
            None => path_file_name(path@) is None,
        },
{
    std::path::Path::new(path).file_name().map(|n| n.to_string_lossy().to_string())
}

/// What `Path::new(dir).join(name)` gives, as text.
pub uninterp spec fn joined_path(dir: Seq<char>, name: Seq<char>) -> Seq<char>;

/// Calls `Path::new(dir).join(name)` and reads the result back as text; the
/// result is named by `joined_path`.
#[verifier::external_body]
pub(crate) fn join_path(dir: &str, name: &str) -> (r: String)
    ensures
        r@ == joined_path(dir@, name@),
{
    std::path::Path::new(dir).join(name).to_string_lossy().to_string()
}

/// Whether `c` makes a path a glob pattern.
pub open spec fn is_glob_char(c: char) -> bool {
    c == '*' || c == '?' || c == '['
}

/// Whether the path holds `*`, `?` or `[`, and so is expanded as a glob.
pub fn is_glob_pattern(path: &str) -> (r: bool)
    ensures
        r == exists|i: int| 0 <= i < path@.len() && is_glob_char(#[trigger] path@[i]),
{
    let mut found = false;
    for c in it: path.chars()
        invariant
            it.seq() == path@,
            found == exists|i: int| 0 <= i < it.index() && is_glob_char(#[trigger] path@[i]),
    {
        if c == '*' || c == '?' || c == '[' {
            found = true;
        }
    }
    found
}

} // verus!
