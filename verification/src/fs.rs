//! Paths of a project: which files are sources, which directories are left
//! out, and where the manifest is.

use crate::config::strings_view;
use crate::paths::{
    assemble, extension_of, is_plain_name, parts_of, parts_view, path_extension, path_file_name,
    PartsView, PathParts,
};
use crate::text::ends_with;
use vstd::prelude::*;
use vstd::string::StringExecFns;

verus! {

/// Whether an extension is that of a Rust source file: `rs`, in small
/// letters.
pub open spec fn is_rust_extension_text(extension: Option<Seq<char>>) -> bool {
    extension == Some("rs"@)
}

/// Whether the name of a directory is one that a walk leaves out: build
/// output, version control, packages of other tools, editor settings.
pub open spec fn is_skipped_name_text(name: Option<Seq<char>>) -> bool {
    name == Some("target"@) || name == Some(".git"@) || name == Some("node_modules"@) || name
        == Some(".vscode"@)
}

/// Whether an extension is that of a Rust source file.
pub fn is_rust_extension(extension: Option<&str>) -> (b: bool)
    ensures
        b == is_rust_extension_text(
            match extension {
                Some(e) => Some(e@),
                None => None,
            },
        ),
{
    match extension {
        Some(e) => crate::text::same_text(e, "rs"),
        None => false,
    }
}

/// Whether the name of a directory is one that a walk leaves out.
pub fn is_skipped_name(name: Option<&str>) -> (b: bool)
    ensures
        b == is_skipped_name_text(
            match name {
                Some(n) => Some(n@),
                None => None,
            },
        ),
{
    match name {
        Some(n) => crate::text::same_text(n, "target") || crate::text::same_text(n, ".git")
            || crate::text::same_text(n, "node_modules") || crate::text::same_text(n, ".vscode"),
        None => false,
    }
}

/// Whether a path names a Rust source file: whether its extension, as the
/// platform tells it, is `rs`. What [`is_rust_extension`] says of the
/// extension is what is returned. On every platform a plain name is a
/// Rust source file where `rs` stands behind its last point.
pub fn is_rust_file(path: &str) -> (b: bool)
    ensures
        is_plain_name(path@) ==> b == is_rust_extension_text(extension_of(path@)),
{
    match path_extension(path) {
        Some(extension) => is_rust_extension(Some(extension.as_str())),
        None => is_rust_extension(None),
    }
}

/// Whether a path names a directory that a walk leaves out: whether its
/// last component, as the platform tells it, is one of the names left out.
/// What [`is_skipped_name`] says of the component is what is returned. On
/// every platform a plain name is left out where it is one of the names.
pub fn should_skip_directory(path: &str) -> (b: bool)
    ensures
        is_plain_name(path@) ==> b == is_skipped_name_text(Some(path@)),
{
    match path_file_name(path) {
        Some(name) => is_skipped_name(Some(name.as_str())),
        None => is_skipped_name(None),
    }
}

/// A directory on the way from a path up to the root, with what was found
/// there.
#[derive(Debug)]
pub struct DirectoryProbe {
    pub dir: String,
    /// Whether the directory holds a `Cargo.toml`.
    pub has_manifest: bool,
}

/// Why a project was not found.
#[derive(Debug)]
pub enum FsError {
    /// No directory from the path upwards holds a manifest.
    ManifestNotFound { start_path: String },
    /// No directory from the path upwards is a project's root.
    ProjectRootNotFound,
}

impl FsError {
    /// The error as a line of text.
    pub fn message(&self) -> (text: String)
        ensures
            text@ == match self {
                FsError::ManifestNotFound { start_path } => "Could not find Cargo.toml file in "@
                    + start_path@ + " or its parent directories"@,
                FsError::ProjectRootNotFound => "Could not find project root (Cargo.toml)"@,
            },
    {
        match self {
            FsError::ManifestNotFound { start_path } => {
                let mut text = "Could not find Cargo.toml file in ".to_owned();
                text.append(start_path.as_str());
                text.append(" or its parent directories");
                text
            },
            FsError::ProjectRootNotFound => "Could not find project root (Cargo.toml)".to_owned(),
        }
    }
}

/// The first directory at or behind `from` that holds a manifest; the
/// number of directories where none does.
pub open spec fn first_manifest_from(probes: Seq<DirectoryProbe>, from: int) -> int
    decreases probes.len() - from,
{
    if from < 0 || from >= probes.len() {
        probes.len() as int
    } else if probes[from].has_manifest {
        from
    } else {
        first_manifest_from(probes, from + 1)
    }
}

fn find_manifest_index(probes: &Vec<DirectoryProbe>) -> (at: usize)
    ensures
        at == first_manifest_from(probes@, 0),
        at <= probes.len(),
{
    let mut i: usize = 0;
    while i < probes.len()
        invariant
            i <= probes.len(),
            first_manifest_from(probes@, 0) == first_manifest_from(probes@, i as int),
        decreases probes.len() - i,
    {
        if probes[i].has_manifest {
            return i;
        }
        i += 1;
    }
    i
}

/// The name of a manifest is a plain name.
proof fn lemma_manifest_name_is_plain()
    ensures
        is_plain_name("Cargo.toml"@),
{
    reveal_strlit("Cargo.toml");
}

/// The manifest of the project that directories belong to, in parts: the
/// nearest directory that holds a manifest, and the manifest's name. None
/// where no directory holds one.
pub open spec fn manifest_of(probes: Seq<DirectoryProbe>) -> Option<PartsView> {
    let at = first_manifest_from(probes, 0);
    if at < probes.len() {
        Some(PartsView { base: probes[at].dir@, names: seq!["Cargo.toml"@] })
    } else {
        None
    }
}

/// The manifest of the project that directories belong to, in parts.
/// `probes` is as for [`find_cargo_toml`].
pub fn manifest_parts(probes: &Vec<DirectoryProbe>) -> (parts: Option<PathParts>)
    ensures
        parts_view(parts) == manifest_of(probes@),
{
    let at = find_manifest_index(probes);
    if at < probes.len() {
        let mut names: Vec<String> = Vec::new();
        names.push("Cargo.toml".to_owned());
        assert(strings_view(names@) =~= seq!["Cargo.toml"@]);
        Some(parts_of(probes[at].dir.as_str(), names))
    } else {
        None
    }
}

/// The manifest of the project that a path belongs to. `probes` holds the
/// directories from the path upwards, nearest first: the path itself where
/// it is a directory, else the directory it lies in, then each parent up
/// to the root. The manifest is the `Cargo.toml` of the nearest directory
/// that holds one: the parts that [`manifest_parts`] gives, put together
/// as the platform joins them. Its path ends with the manifest's name.
pub fn find_cargo_toml(start_path: &str, probes: &Vec<DirectoryProbe>) -> (r: Result<
    String,
    FsError,
>)
    ensures
        r is Ok <==> manifest_of(probes@) is Some,
        r matches Ok(path) ==> ends_with(path@, "Cargo.toml"@),
        r matches Err(e) ==> (e matches FsError::ManifestNotFound { start_path: p } && p@
            == start_path@),
{
    proof {
        lemma_manifest_name_is_plain();
    }
    match manifest_parts(probes) {
        Some(parts) => Ok(assemble(&parts)),
        None => Err(FsError::ManifestNotFound { start_path: start_path.to_owned() }),
    }
}

/// The root of the project that a path belongs to: the nearest directory,
/// from the path upwards, that holds a manifest. `probes` is as for
/// [`find_cargo_toml`].
pub fn find_project_root(probes: &Vec<DirectoryProbe>) -> (r: Result<String, FsError>)
    ensures
        match r {
            Ok(path) => {
                let at = first_manifest_from(probes@, 0);
                at < probes.len() && path@ == probes@[at].dir@
            },
            Err(e) => first_manifest_from(probes@, 0) == probes.len() && e
                is ProjectRootNotFound,
        },
{
    let at = find_manifest_index(probes);
    if at < probes.len() {
        Ok(probes[at].dir.clone())
    } else {
        Err(FsError::ProjectRootNotFound)
    }
}

} // verus!
