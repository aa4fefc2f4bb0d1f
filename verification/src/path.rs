//! File system paths as text.

use vstd::prelude::*;

use crate::text;

verus! {

/// A path below a directory; an absolute one stands for itself.
pub open spec fn joined(base: Seq<char>, part: Seq<char>) -> Seq<char> {
    if part.len() > 0 && part[0] == '/' {
        part
    } else if base.len() == 0 || base.last() == '/' {
        base + part
    } else {
        base + "/"@ + part
    }
}

/// Append a path to a directory.
pub fn join(base: &str, part: &str) -> (path: String)
    ensures
        path@ == joined(base@, part@),
{
    if part.unicode_len() > 0 && part.get_char(0) == '/' {
        return part.to_owned();
    }
    let mut path = base.to_owned();
    let n: usize = base.unicode_len();
    if n > 0 && base.get_char(n - 1) != '/' {
        path.append("/");
    }
    path.append(part);
    path
}

/// The file name of a path without its extension, as [`file_stem`] reads it.
pub uninterp spec fn path_file_stem(path: Seq<char>) -> Option<Seq<char>>;

/// The directory of a path, as [`parent`] reads it.
pub uninterp spec fn path_parent(path: Seq<char>) -> Option<Seq<char>>;

/// The file name of a path without its extension: `std::path::Path::file_stem`.
/// The contract only names the result as a function of the path.
#[verifier::external_body]
pub(crate) fn file_stem(path: &str) -> (stem: Option<String>)
    ensures
        text::text_of(stem) == path_file_stem(path@),
{
    std::path::Path::new(path).file_stem().and_then(|stem| stem.to_str()).map(str::to_string)
}

/// The directory of a path: `std::path::Path::parent`. The contract only names
/// the result as a function of the path.
#[verifier::external_body]
pub(crate) fn parent(path: &str) -> (directory: Option<String>)
    ensures
        text::text_of(directory) == path_parent(path@),
{
    std::path::Path::new(path).parent().and_then(|parent| parent.to_str()).map(str::to_string)
}

/// A relative path below a directory is the directory, one slash and the path;
/// an absolute path stands for itself.
pub proof fn law_paths_are_joined_by_one_slash(base: Seq<char>, part: Seq<char>)
    requires
        base.len() > 0,
        part.len() > 0,
    ensures
        part[0] != '/' && base.last() != '/' ==> joined(base, part) == base + "/"@ + part,
        part[0] != '/' && base.last() == '/' ==> joined(base, part) == base + part,
        part[0] == '/' ==> joined(base, part) == part,
        part[0] != '/' ==> joined(Seq::empty(), part) == part,
{
    assert(Seq::<char>::empty() + part =~= part);
}

} // verus!
