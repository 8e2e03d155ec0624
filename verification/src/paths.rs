//! Parts of text paths as `std::path::Path` reads them on the platform the
//! library is built for. Each result is named; nothing more is claimed.

use vstd::prelude::*;

verus! {

/// The last component of a path, as `Path::file_name` reads it.
pub uninterp spec fn path_file_name(path: Seq<char>) -> Option<Seq<char>>;

/// The last component without its extension, as `Path::file_stem` reads it.
pub uninterp spec fn path_file_stem(path: Seq<char>) -> Option<Seq<char>>;

/// The extension of the last component, as `Path::extension` reads it.
pub uninterp spec fn path_extension(path: Seq<char>) -> Option<Seq<char>>;

/// `Path::file_name` of a text path; its result is named by `path_file_name`.
#[verifier::external_body]
pub fn file_name(path: &str) -> (r: Option<String>)
    ensures
        match path_file_name(path@) {
            Some(n) => r matches Some(s) && s@ == n,
            None => r is None,
        },
{
    std::path::Path::new(path).file_name().map(|n| n.to_string_lossy().into_owned())
}

/// `Path::file_stem` of a text path; its result is named by `path_file_stem`.
#[verifier::external_body]
pub fn file_stem(path: &str) -> (r: Option<String>)
    ensures
        match path_file_stem(path@) {
            Some(n) => r matches Some(s) && s@ == n,
            None => r is None,
        },
{
    std::path::Path::new(path).file_stem().map(|n| n.to_string_lossy().into_owned())
}

/// `Path::extension` of a text path; its result is named by `path_extension`.
#[verifier::external_body]
pub fn extension(path: &str) -> (r: Option<String>)
    ensures
        match path_extension(path@) {
            Some(n) => r matches Some(s) && s@ == n,
            None => r is None,
        },
{
    std::path::Path::new(path).extension().map(|n| n.to_string_lossy().into_owned())
}

/// The kind of one component of a path, as `std::path::Component` tells
/// them apart.
#[derive(Debug, Clone, Copy, PartialEq, Eq, Structural)]
pub enum PartKind {
    Prefix,
    RootDir,
    CurDir,
    ParentDir,
    Normal,
}

/// The components of a path with their text, as `Path::components` yields
/// them.
pub uninterp spec fn path_components(path: Seq<char>) -> Seq<(PartKind, Seq<char>)>;

/// Whether a path is absolute, as `Path::is_absolute` decides it.
pub uninterp spec fn path_absolute(path: Seq<char>) -> bool;

/// `Path::components` of a text path, each component by its kind and its
/// text; the result is named by `path_components`.
#[verifier::external_body]
pub fn components(path: &str) -> (r: Vec<(PartKind, String)>)
    ensures
        r@.len() == path_components(path@).len(),
        forall|i: int|
            0 <= i < r@.len() ==> (#[trigger] r@[i]).0 == path_components(path@)[i].0 && r@[i].1@
                == path_components(path@)[i].1,
{
    let mut out = Vec::new();
    for c in std::path::Path::new(path).components() {
        let kind = match c {
            std::path::Component::Prefix(_) => PartKind::Prefix,
            std::path::Component::RootDir => PartKind::RootDir,
            std::path::Component::CurDir => PartKind::CurDir,
            std::path::Component::ParentDir => PartKind::ParentDir,
            std::path::Component::Normal(_) => PartKind::Normal,
        };
        out.push((kind, c.as_os_str().to_string_lossy().into_owned()));
    }
    out
}

/// `Path::is_absolute` of a text path; named by `path_absolute`.
#[verifier::external_body]
pub fn is_absolute(path: &str) -> (r: bool)
    ensures
        r == path_absolute(path@),
{
    std::path::Path::new(path).is_absolute()
}

} // verus!
