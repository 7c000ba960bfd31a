//! File-system paths, held as text.
//!
//! The library keeps paths as strings and leaves their grammar to
//! `std::path`: joining, taking the last component and replacing it are
//! calls into it. What they return is fixed by their arguments for the
//! platform the library is built for, so each result is given a name.

use vstd::prelude::*;

verus! {

/// What `Path::join` gives for `base` and `part`, as text.
pub uninterp spec fn path_join(base: Seq<char>, part: Seq<char>) -> Seq<char>;

/// What `Path::file_name` gives for `path`, as text.
pub uninterp spec fn path_file_name(path: Seq<char>) -> Option<Seq<char>>;

/// What `Path::with_file_name` gives for `path` and `name`, as text.
pub uninterp spec fn path_with_file_name(path: Seq<char>, name: Seq<char>) -> Seq<char>;

/// `std::path::Path::join`: `part` appended to `base` as a further component.
/// The contract claims only that the result is `path_join` of the two
/// arguments; a path built from UTF-8 text stays UTF-8, so the conversion
/// back to a `String` loses nothing.
#[verifier::external_body]
pub(crate) fn join(base: &str, part: &str) -> (joined: String)
    ensures
        joined@ == path_join(base@, part@),
{
    std::path::Path::new(base).join(part).to_string_lossy().into_owned()
}

/// `std::path::Path::file_name`: the last component of `path`, if it has
/// one. The contract claims only that the result is `path_file_name(path)`.
#[verifier::external_body]
pub(crate) fn file_name(path: &str) -> (name: Option<String>)
    ensures
        match name {
            Some(n) => path_file_name(path@) == Some(n@),
            None => path_file_name(path@) is None,
        },
{
    match std::path::Path::new(path).file_name() {
        Some(n) => Some(n.to_string_lossy().into_owned()),
        None => None,
    }
}

/// `std::path::Path::with_file_name`: `path` with its last component
/// replaced by `name`. The contract claims only that the result is
/// `path_with_file_name(path, name)`.
#[verifier::external_body]
pub(crate) fn with_file_name(path: &str, name: &str) -> (renamed: String)
    ensures
        renamed@ == path_with_file_name(path@, name@),
{
    std::path::Path::new(path).with_file_name(name).to_string_lossy().into_owned()
}

} // verus!
