//! The error kinds the pipeline produces.

use vstd::prelude::*;
use vstd::string::*;

verus! {

/// Everything that can go wrong while locking a manifest or rendering the
/// script.  Each variant names the input it is tagged with; `cause` fields
/// carry the text of an underlying failure.
#[derive(Debug, Clone, PartialEq, Eq)]
pub enum Error {
    /// A Git or Remote URL has no host.
    NoHost { url: String },
    /// A Remote URL cannot be a base, so it has no path segments.
    NotABase { url: String },
    /// Cloning, downloading or opening a source failed.
    SourceInstall { source: String, cause: String },
    /// A branch, tag or revision could not be found in the repository.
    ReferenceNotFound { reference: String, cause: String },
    /// A tag's object does not peel to a commit.
    ReferenceNotPeelable { reference: String, cause: String },
    /// A `uses` pattern matched no files.
    NoFilesMatched { pattern: String },
    /// A glob pattern could not be parsed, or a matched path could not be
    /// read.
    Glob { pattern: String, cause: String },
    /// A matched path is not representable as text.
    Encoding { what: String },
    /// A named template failed to compile.
    TemplateCompile { name: String, cause: String },
    /// A template failed to render.
    TemplateRender { name: String, cause: String },
    /// The lock file does not parse; `at` is where reading stopped.
    LockCorrupt { at: usize },
    /// The lock file could not be written.
    LockWrite { cause: String },
    /// A local source directory does not exist.
    LocalMissing { directory: String },
    /// A local source path exists but is not a directory.
    LocalNotADirectory { directory: String },
}

impl Error {
    /// A readable description of the error, for display by the caller.
    pub fn message(&self) -> String {
        let mut s = String::new();
        match self {
            Error::NoHost { url } => {
                s.append("URL `");
                s.append(url.as_str());
                s.append("` has no host");
            }
            Error::NotABase { url } => {
                s.append("URL `");
                s.append(url.as_str());
                s.append("` cannot be a base");
            }
            Error::SourceInstall { source, cause } => {
                s.append("failed to install source `");
                s.append(source.as_str());
                s.append("`: ");
                s.append(cause.as_str());
            }
            Error::ReferenceNotFound { reference, cause } => {
                s.append("failed to find reference `");
                s.append(reference.as_str());
                s.append("`: ");
                s.append(cause.as_str());
            }
            Error::ReferenceNotPeelable { reference, cause } => {
                s.append("reference `");
                s.append(reference.as_str());
                s.append("` does not peel to a commit: ");
                s.append(cause.as_str());
            }
            Error::NoFilesMatched { pattern } => {
                s.append("failed to find any files matching `");
                s.append(pattern.as_str());
                s.append("`");
            }
            Error::Glob { pattern, cause } => {
                s.append("failed to expand glob pattern `");
                s.append(pattern.as_str());
                s.append("`: ");
                s.append(cause.as_str());
            }
            Error::Encoding { what } => {
                s.append("`");
                s.append(what.as_str());
                s.append("` is not valid UTF-8");
            }
            Error::TemplateCompile { name, cause } => {
                s.append("failed to compile template `");
                s.append(name.as_str());
                s.append("`: ");
                s.append(cause.as_str());
            }
            Error::TemplateRender { name, cause } => {
                s.append("failed to render template `");
                s.append(name.as_str());
                s.append("`: ");
                s.append(cause.as_str());
            }
            Error::LockCorrupt { at: _ } => {
                s.append("failed to parse the locked config");
            }
            Error::LockWrite { cause } => {
                s.append("failed to write the locked config: ");
                s.append(cause.as_str());
            }
            Error::LocalMissing { directory } => {
                s.append("failed to find directory `");
                s.append(directory.as_str());
                s.append("`");
            }
            Error::LocalNotADirectory { directory } => {
                s.append("`");
                s.append(directory.as_str());
                s.append("` is not a directory");
            }
        }
        s
    }
}

} // verus!
