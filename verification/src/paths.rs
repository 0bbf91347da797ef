//! Paths as the platform reads them: the calls into `std::path`, and what
//! holds of them on every platform.

use crate::config::strings_view;
use crate::text::{after_last, ends_with, text_view};
use vstd::prelude::*;

verus! {

/// Whether a character parts a path on some platform: a separator, or the
/// colon behind a drive letter.
pub open spec fn parts_paths(c: char) -> bool {
    c == '/' || c == '\\' || c == ':'
}

/// Whether a text is one plain name on every platform: not empty, not a
/// step to the same or the upper directory, and without a character that
/// parts paths. Such a name is a path of one component, relative and
/// without a prefix.
pub open spec fn is_plain_name(name: Seq<char>) -> bool {
    &&& name.len() > 0
    &&& !(name.len() == 1 && name[0] == '.')
    &&& !(name.len() == 2 && name[0] == '.' && name[1] == '.')
    &&& forall|i: int| 0 <= i < name.len() ==> !parts_paths(#[trigger] name[i])
}

/// The extension of a file's name: what stands behind the last point.
/// None where the name has no point, or only the one that it begins with.
pub open spec fn extension_of(name: Seq<char>) -> Option<Seq<char>> {
    let behind = after_last(name, '.');
    if behind.len() == name.len() || behind.len() + 1 == name.len() {
        None
    } else {
        Some(behind)
    }
}

/// A path in parts: the directory that it starts from, and the names that
/// lead on from there, outermost first.
#[derive(Debug)]
pub struct PathParts {
    pub base: String,
    pub names: Vec<String>,
}

/// The mathematical value of a [`PathParts`].
pub ghost struct PartsView {
    pub base: Seq<char>,
    pub names: Seq<Seq<char>>,
}

impl View for PathParts {
    type V = PartsView;

    open spec fn view(&self) -> PartsView {
        PartsView { base: self.base@, names: strings_view(self.names@) }
    }
}

/// The mathematical value of parts that may be missing.
pub open spec fn parts_view(parts: Option<PathParts>) -> Option<PartsView> {
    match parts {
        Some(p) => Some(p@),
        None => None,
    }
}

/// A directory and the names that lead on from it.
pub(crate) fn parts_of(base: &str, names: Vec<String>) -> (parts: PathParts)
    ensures
        parts@ == (PartsView { base: base@, names: strings_view(names@) }),
{
    PathParts { base: base.to_owned(), names }
}

/// A directory with one more name: `Path::join`, as text. How the two are
/// joined goes by the platform. On every platform a plain name is put
/// behind the directory, so that the path ends with it.
#[verifier::external_body]
pub(crate) fn path_join(base: &str, name: &str) -> (path: String)
    ensures
        is_plain_name(name@) ==> ends_with(path@, name@),
{
    std::path::Path::new(base).join(name).to_string_lossy().into_owned()
}

/// The last component of a path, as `Path::file_name` tells it: the name
/// of the file or directory that the path ends in, if it ends in one. How
/// a path is parted into components goes by the platform. On every
/// platform a plain name is its own last component.
#[verifier::external_body]
pub(crate) fn path_file_name(path: &str) -> (name: Option<String>)
    ensures
        is_plain_name(path@) ==> text_view(name) == Some(path@),
{
    std::path::Path::new(path).file_name().and_then(|name| name.to_str()).map(|name| name.to_owned())
}

/// The extension of the file that a path names, as `Path::extension`
/// tells it. It is taken from the last component, which goes by the
/// platform. On every platform the extension of a plain name is what
/// [`extension_of`] says.
#[verifier::external_body]
pub(crate) fn path_extension(path: &str) -> (extension: Option<String>)
    ensures
        is_plain_name(path@) ==> text_view(extension) == extension_of(path@),
{
    std::path::Path::new(path).extension().and_then(|ext| ext.to_str()).map(|ext| ext.to_owned())
}

/// Whether a path is absolute: `Path::is_absolute`. Nothing is claimed of
/// the answer: it goes by the platform.
#[verifier::external_body]
pub(crate) fn path_is_absolute(path: &str) -> (absolute: bool) {
    std::path::Path::new(path).is_absolute()
}

/// Whether two paths are the same: `==` on `std::path::Path`, which
/// compares them component by component as the platform parts them. Of
/// the answer only this is claimed: a path is the same as itself.
#[verifier::external_body]
pub(crate) fn same_path(a: &str, b: &str) -> (same: bool)
    ensures
        a@ == b@ ==> same,
{
    std::path::Path::new(a) == std::path::Path::new(b)
}

/// A path put together from its parts: the directory it starts from,
/// joined with each name in turn, as the platform joins them. Without a
/// name it is the directory as it is; with names it ends with the last of
/// them, where that is a plain name.
pub fn assemble(parts: &PathParts) -> (path: String)
    ensures
        parts@.names.len() == 0 ==> path@ == parts@.base,
        parts@.names.len() > 0 && is_plain_name(parts@.names.last()) ==> ends_with(
            path@,
            parts@.names.last(),
        ),
{
    let mut path = parts.base.clone();
    let mut i: usize = 0;
    while i < parts.names.len()
        invariant
            i <= parts.names.len(),
            i == 0 ==> path@ == parts@.base,
            i > 0 && is_plain_name(parts@.names[i - 1]) ==> ends_with(path@, parts@.names[i - 1]),
        decreases parts.names.len() - i,
    {
        path = path_join(path.as_str(), parts.names[i].as_str());
        i += 1;
    }
    path
}

} // verus!
