//! The inner, domain-level error: one variant per failure the operations can
//! raise, each carrying its technical cause as plain text.

use vstd::prelude::*;

verus! {

/// Domain error of the workspace/metadata subsystem. Failures raised outside
/// the library (argument parsing, the filesystem, the environment, the git
/// hook) are carried here as rendered text.
#[derive(Debug)]
pub enum Error {
    /// A project description already exists where one would be created.
    MetadataFileFound,
    /// No project description exists under the workspace root.
    MetadataNotFound,
    /// An existing project description does not follow the document grammar.
    MetadataParseError,
    /// A dependency specifier does not follow the specifier grammar.
    DependencyParseError(String),
    /// A filesystem operation failed.
    IOError(String),
    /// An environment variable lookup failed.
    EnvVarError(String),
    /// Command-line argument handling failed.
    ArgumentError(String),
    /// The external git-init call failed.
    GitError(String),
    /// An unclassified internal failure.
    InternalError(String),
}

/// The user-facing text naming an error's cause.
pub open spec fn error_message(e: Error) -> Seq<char> {
    match e {
        Error::MetadataFileFound => "a project description file already exists"@,
        Error::MetadataNotFound => "no project description file was found"@,
        Error::MetadataParseError => "the project description file is malformed"@,
        Error::DependencyParseError(s) => "malformed dependency specifier: "@ + s@,
        Error::IOError(s) => "io error: "@ + s@,
        Error::EnvVarError(s) => "environment variable error: "@ + s@,
        Error::ArgumentError(s) => "argument error: "@ + s@,
        Error::GitError(s) => "git error: "@ + s@,
        Error::InternalError(s) => "internal error: "@ + s@,
    }
}

impl Error {
    /// Render this error's cause as text.
    pub fn message(&self) -> (r: String)
        ensures
            r@ == error_message(*self),
    {
        match self {
            Error::MetadataFileFound => String::from_str(
                "a project description file already exists",
            ),
            Error::MetadataNotFound => String::from_str("no project description file was found"),
            Error::MetadataParseError => String::from_str(
                "the project description file is malformed",
            ),
            Error::DependencyParseError(s) => {
                let mut m = String::from_str("malformed dependency specifier: ");
                m.append(s.as_str());
                m
            },
            Error::IOError(s) => {
                let mut m = String::from_str("io error: ");
                m.append(s.as_str());
                m
            },
            Error::EnvVarError(s) => {
                let mut m = String::from_str("environment variable error: ");
                m.append(s.as_str());
                m
            },
            Error::ArgumentError(s) => {
                let mut m = String::from_str("argument error: ");
                m.append(s.as_str());
                m
            },
            Error::GitError(s) => {
                let mut m = String::from_str("git error: ");
                m.append(s.as_str());
                m
            },
            Error::InternalError(s) => {
                let mut m = String::from_str("internal error: ");
                m.append(s.as_str());
                m
            },
        }
    }
}

} // verus!
