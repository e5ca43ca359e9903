//! What the standard library makes of a path and of letter case.
//!
//! These are the only places where the library asks the standard library to
//! take a path apart or to fold case. Each result is given a name, so that
//! the rules built on it can be stated exactly.

use vstd::prelude::*;

verus! {

/// The components that `std::path::Path::components` finds in a path.
pub uninterp spec fn path_components_of(path: Seq<char>) -> Seq<Seq<char>>;

/// The extension that `std::path::Path::extension` finds in a path.
pub uninterp spec fn path_extension_of(path: Seq<char>) -> Option<Seq<char>>;

/// The file name that `std::path::Path::file_name` finds in a path.
pub uninterp spec fn path_file_name_of(path: Seq<char>) -> Option<Seq<char>>;

/// What `str::to_lowercase` makes of a text.
pub uninterp spec fn lowercase_of(text: Seq<char>) -> Seq<char>;

/// Calls `std::path::Path::components` on `path` and hands out each
/// component as a string. Nothing is claimed of the components but that they
/// are those of this path.
#[verifier::external_body]
pub(crate) fn path_components(path: &str) -> (components: Vec<String>)
    ensures
        components.deep_view() == path_components_of(path@),
{
    std::path::Path::new(path).components().map(
        |component| component.as_os_str().to_string_lossy().into_owned(),
    ).collect()
}

/// Calls `std::path::Path::extension` on `path`. Nothing is claimed of the
/// extension but that it is that of this path.
#[verifier::external_body]
pub(crate) fn path_extension(path: &str) -> (extension: Option<String>)
    ensures
        extension.deep_view() == path_extension_of(path@),
{
    std::path::Path::new(path).extension().map(|extension| extension.to_string_lossy().into_owned())
}

/// Calls `std::path::Path::file_name` on `path`. Nothing is claimed of the
/// name but that it is that of this path.
#[verifier::external_body]
pub(crate) fn path_file_name(path: &str) -> (name: Option<String>)
    ensures
        name.deep_view() == path_file_name_of(path@),
{
    std::path::Path::new(path).file_name().map(|name| name.to_string_lossy().into_owned())
}

/// Calls `str::to_lowercase` on `text`. Nothing is claimed of the result but
/// that it is the lower-case form of this text.
#[verifier::external_body]
pub(crate) fn lowercase(text: &str) -> (lowered: String)
    ensures
        lowered@ == lowercase_of(text@),
{
    text.to_lowercase()
}

} // verus!
