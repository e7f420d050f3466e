use vstd::prelude::*;
use crate::project::opt_str_view;

verus! {

/// The extension that `std::path::Path::extension` reports for a path given
/// as text (the part of the final file name after its last `.`, if any).
pub uninterp spec fn path_extension_of(path: Seq<char>) -> Option<Seq<char>>;

/// The final component that `std::path::Path::file_name` reports for a path
/// given as text.
pub uninterp spec fn path_file_name_of(path: Seq<char>) -> Option<Seq<char>>;

/// Calls `Path::extension` on the path and converts the extension back to a
/// string (the path is valid UTF-8, so its parts are too). The contract only
/// ties the result to the named function of the path text.
#[verifier::external_body]
pub fn path_extension(path: &str) -> (r: Option<String>)
    ensures
        opt_str_view(r) == path_extension_of(path@),
{
    match std::path::Path::new(path).extension() {
        Some(e) => match e.to_str() {
            Some(t) => Some(t.to_string()),
            None => None,
        },
        None => None,
    }
}

/// Calls `Path::file_name` on the path and converts the name back to a
/// string. The contract only ties the result to the named function of the
/// path text.
#[verifier::external_body]
pub fn path_file_name(path: &str) -> (r: Option<String>)
    ensures
        opt_str_view(r) == path_file_name_of(path@),
{
    match std::path::Path::new(path).file_name() {
        Some(e) => match e.to_str() {
            Some(t) => Some(t.to_string()),
            None => None,
        },
        None => None,
    }
}

} // verus!
