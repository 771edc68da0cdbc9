//! The workspace: the root and current-working-directory context of one
//! project, the model of the filesystem state the subsystem touches (the one
//! project-description file under the root, plus the external git hook at its
//! interface boundary), and the load/write-back pairing of a metadata value
//! with its file.

use vstd::prelude::*;

use crate::error::Error;
use crate::metadata::{doc_of, spec_parse_doc, template_meta, Metadata};

verus! {

/// How much the CLI reports; carried through operations unchanged.
#[derive(Clone, Copy, Debug, PartialEq, Eq, Structural)]
pub enum Verbosity {
    Quiet,
    Normal,
    Verbose,
}

/// The external git hook at its interface boundary: a `git init` call either
/// fully initializes a repository or fails.
#[derive(Clone, Copy, Debug, PartialEq, Eq, Structural)]
pub enum GitHook {
    Works,
    Fails,
}

/// The filesystem state one operation acts on: the content of the project
/// description file under the workspace root (if any), whether the git hook
/// will succeed, and whether a repository has been initialized.
pub struct FileSystem {
    pub pyproject: Option<String>,
    pub git: GitHook,
    pub git_initialized: bool,
}

/// The content of the project description file, if one exists.
pub open spec fn pyproject_view(fs: FileSystem) -> Option<Seq<char>> {
    match fs.pyproject {
        Option::None => Option::None,
        Option::Some(s) => Option::Some(s@),
    }
}

/// Whether a parseable project description exists: the signal the operations
/// use for "a project is already here".
pub open spec fn has_project(fs: FileSystem) -> bool {
    pyproject_view(fs) matches Some(t) && spec_parse_doc(t) is Some
}

/// The immutable bundle of ambient context passed by value into every
/// operation: workspace root, current working directory, verbosity.
pub struct Config {
    pub workspace_root: String,
    pub cwd: String,
    pub verbosity: Verbosity,
}

/// A workspace: the root directory and the current working directory of one
/// invocation. They may differ (nested invocation); metadata lookup always
/// targets the root.
pub struct Workspace {
    pub root: String,
    pub cwd: String,
}

impl Config {
    pub fn new(workspace_root: String, cwd: String, verbosity: Verbosity) -> (r: Config)
        ensures
            r.workspace_root@ == workspace_root@,
            r.cwd@ == cwd@,
            r.verbosity == verbosity,
    {
        Config { workspace_root, cwd, verbosity }
    }

    /// The workspace this configuration points at.
    pub fn workspace(&self) -> (r: Workspace)
        ensures
            r.root@ == self.workspace_root@,
            r.cwd@ == self.cwd@,
    {
        Workspace { root: self.workspace_root.clone(), cwd: self.cwd.clone() }
    }
}

/// Options of the init operations.
pub struct WorkspaceOptions {
    pub uses_git: bool,
}

/// The path of the project description file under `root`.
pub fn metadata_path(root: &str) -> (r: String)
    ensures
        r@ == root@ + "/pyproject.toml"@,
{
    let mut p = root.to_owned();
    p.append("/pyproject.toml");
    p
}

/// A metadata value tied to the file it was loaded from or will be written
/// back to.
pub struct LocalMetadata {
    pub metadata: Metadata,
    pub path: String,
}

impl LocalMetadata {
    /// A fresh template value, associated with `path` for a later write;
    /// never touches the file.
    pub fn template(path: String) -> (r: LocalMetadata)
        ensures
            r.metadata@ == template_meta(),
            r.path@ == path@,
    {
        LocalMetadata { metadata: Metadata::template(), path }
    }

    /// Parse an existing project description; fails when the file is absent
    /// or its content violates the document grammar.
    pub fn from_file(path: String, fs: &FileSystem) -> (r: Result<LocalMetadata, Error>)
        ensures
            fs.pyproject is None ==> r == Err::<LocalMetadata, Error>(Error::MetadataNotFound),
            pyproject_view(*fs) matches Some(t) ==> {
                &&& r is Ok <==> spec_parse_doc(t) is Some
                &&& (r matches Ok(lm) ==> lm.metadata@ == spec_parse_doc(t).unwrap() && lm.path@
                    == path@)
                &&& (r is Err ==> r == Err::<LocalMetadata, Error>(Error::MetadataParseError))
            },
    {
        if fs.pyproject.is_some() {
            let text = fs.pyproject.as_ref().unwrap();
            match Metadata::from_str(text.as_str()) {
                Ok(m) => Ok(LocalMetadata { metadata: m, path }),
                Err(e) => Err(e),
            }
        } else {
            Err(Error::MetadataNotFound)
        }
    }

    /// The metadata value itself.
    pub fn metadata(&self) -> (r: &Metadata)
        ensures
            r == &self.metadata,
    {
        &self.metadata
    }

    /// The canonical serialization of the held metadata.
    pub fn to_string_pretty(&self) -> (r: String)
        ensures
            r@ == doc_of(self.metadata@),
    {
        self.metadata.to_string_pretty()
    }

    /// Serialize and persist: one whole write of the canonical text to the
    /// project description file. Nothing else of the filesystem changes.
    pub fn write_file(&self, fs: &mut FileSystem) -> (r: Result<(), Error>)
        ensures
            r is Ok,
            pyproject_view(*final(fs)) == Some(doc_of(self.metadata@)),
            final(fs).git == old(fs).git,
            final(fs).git_initialized == old(fs).git_initialized,
    {
        fs.pyproject = Some(self.metadata.to_string_pretty());
        Ok(())
    }
}

impl Workspace {
    /// The workspace root.
    pub fn root(&self) -> (r: &String)
        ensures
            r@ == self.root@,
    {
        &self.root
    }

    /// Look for the project description directly under the root: a fresh
    /// load. Its absence is the signal that no project exists yet.
    pub fn current_local_metadata(&self, fs: &FileSystem) -> (r: Result<LocalMetadata, Error>)
        ensures
            fs.pyproject is None ==> r == Err::<LocalMetadata, Error>(Error::MetadataNotFound),
            pyproject_view(*fs) matches Some(t) ==> {
                &&& r is Ok <==> spec_parse_doc(t) is Some
                &&& (r matches Ok(lm) ==> lm.metadata@ == spec_parse_doc(t).unwrap() && lm.path@
                    == self.root@ + "/pyproject.toml"@)
                &&& (r is Err ==> r == Err::<LocalMetadata, Error>(Error::MetadataParseError))
            },
            r is Ok <==> has_project(*fs),
    {
        LocalMetadata::from_file(metadata_path(self.root.as_str()), fs)
    }
}

/// The external git-init call, at its interface boundary: when the hook
/// works the repository is initialized; when it fails the operation reports
/// a git error; the project description file is never touched.
pub fn init_git(fs: &mut FileSystem) -> (r: Result<(), Error>)
    ensures
        final(fs).pyproject == old(fs).pyproject,
        final(fs).git == old(fs).git,
        old(fs).git is Works ==> r is Ok && final(fs).git_initialized,
        old(fs).git is Fails ==> final(fs).git_initialized == old(fs).git_initialized && (
        r matches Err(e) && e matches Error::GitError(m) && m@ == "git init failed"@),
{
    match fs.git {
        GitHook::Works => {
            fs.git_initialized = true;
            Ok(())
        },
        GitHook::Fails => Err(Error::GitError(String::from_str("git init failed"))),
    }
}

} // verus!
