//! The reference pinner and the git installer.
//!
//! Every call into the git library goes through a trusted wrapper here.  What
//! a repository holds lives on disk, so the wrappers promise nothing about
//! the commit ids they return; the dispatch over the reference kinds, the
//! fallback from cloning to opening, and the error mapping are verified.

use vstd::prelude::*;
use vstd::string::*;

use crate::config::{GitReference, GitReferenceView, Source};
use crate::error::Error;
use crate::lock::{LockedGitReference, LockedSource};

verus! {

#[verifier::external_type_specification]
#[verifier::external_body]
pub struct ExGitRepository(git2::Repository);

/// How an attempted clone ended.
pub enum CloneOutcome {
    /// The repository was cloned into the directory.
    Cloned(git2::Repository),
    /// The directory already holds a clone.
    Exists,
    /// The clone failed for another reason.
    Failed(String),
}

/// Relies on git2::Repository::clone and git2::Error::code: a failure whose
/// code says the directory already exists is reported apart, so the caller
/// can open the repository instead.
#[verifier::external_body]
fn git_clone(url: &str, directory: &str) -> (r: CloneOutcome) {
    match git2::Repository::clone(url, directory) {
        Ok(repo) => CloneOutcome::Cloned(repo),
        Err(e) => {
            if e.code() == git2::ErrorCode::Exists {
                CloneOutcome::Exists
            } else {
                CloneOutcome::Failed(format!("{}", e))
            }
        },
    }
}

/// Relies on git2::Repository::open: opens the repository at a directory.
#[verifier::external_body]
fn git_open(directory: &str) -> (r: Result<git2::Repository, String>) {
    match git2::Repository::open(directory) {
        Ok(repo) => Ok(repo),
        Err(e) => Err(format!("{}", e)),
    }
}

/// Relies on git2::Repository::find_branch and git2::Reference::target: the
/// hex id of the commit a local branch points at, or nothing when the branch
/// has no target.
#[verifier::external_body]
fn git_branch_commit(repo: &git2::Repository, name: &str) -> (r: Result<Option<String>, String>) {
    match repo.find_branch(name, git2::BranchType::Local) {
        Ok(branch) => Ok(branch.get().target().map(|id| id.to_string())),
        Err(e) => Err(format!("{}", e)),
    }
}

/// Relies on git2::Repository::revparse_single and git2::Object::as_tag: the
/// hex id that a single-revision specification resolves to — an annotated
/// tag's target id, or otherwise the object's own id.
#[verifier::external_body]
fn git_revparse_commit(repo: &git2::Repository, spec: &str) -> (r: Result<String, String>) {
    match repo.revparse_single(spec) {
        Ok(obj) => Ok(match obj.as_tag() {
            Some(tag) => tag.target_id().to_string(),
            None => obj.id().to_string(),
        }),
        Err(e) => Err(format!("{}", e)),
    }
}

/// Relies on git2::Repository::refname_to_id: the hex id a full reference
/// name resolves to.
#[verifier::external_body]
fn git_refname_id(repo: &git2::Repository, refname: &str) -> (r: Result<String, String>) {
    match repo.refname_to_id(refname) {
        Ok(id) => Ok(id.to_string()),
        Err(e) => Err(format!("{}", e)),
    }
}

/// Relies on git2::Repository::find_object and git2::Object::peel: the hex id
/// of the commit an object peels to.
#[verifier::external_body]
fn git_peel_commit(repo: &git2::Repository, id: &str) -> (r: Result<String, String>) {
    let oid = git2::Oid::from_str(id).map_err(|e| format!("{}", e))?;
    let obj = repo.find_object(oid, None).map_err(|e| format!("{}", e))?;
    let commit = obj.peel(git2::ObjectType::Commit).map_err(|e| format!("{}", e))?;
    Ok(commit.id().to_string())
}

/// Relies on git2::Repository::reset: hard-resets the working tree to a
/// commit.
#[verifier::external_body]
fn git_reset_hard(repo: &git2::Repository, id: &str) -> (r: Result<(), String>) {
    let oid = git2::Oid::from_str(id).map_err(|e| format!("{}", e))?;
    let obj = repo.find_object(oid, None).map_err(|e| format!("{}", e))?;
    repo.reset(&obj, git2::ResetType::Hard, None).map_err(|e| format!("{}", e))
}

impl GitReference {
    /// Pins this reference to a commit id in the repository: a branch's
    /// target, a tag resolved through `refs/tags/` and peeled to a commit,
    /// or a single-revision parse.  What id comes back is the repository's
    /// business; a missing reference is reported as not found, and a tag
    /// object that does not peel to a commit as not peelable.
    pub fn lock(&self, repo: &git2::Repository) -> (r: Result<LockedGitReference, Error>)
        ensures
            r matches Err(e) ==> match self@ {
                GitReferenceView::Branch(n) => e matches Error::ReferenceNotFound {
                    reference: rf,
                    ..
                } && rf@ == n,
                GitReferenceView::Tag(n) => (e matches Error::ReferenceNotFound {
                    reference: rf,
                    ..
                } && rf@ == n) || (e matches Error::ReferenceNotPeelable {
                    reference: rf,
                    ..
                } && rf@ == n),
                GitReferenceView::Revision(n) => e matches Error::ReferenceNotFound {
                    reference: rf,
                    ..
                } && rf@ == n,
            },
    {
        match self {
            GitReference::Branch(name) => match git_branch_commit(repo, name.as_str()) {
                Ok(Some(id)) => Ok(LockedGitReference(id)),
                Ok(None) => Err(
                    Error::ReferenceNotFound {
                        reference: name.clone(),
                        cause: String::from_str("the branch has no target"),
                    },
                ),
                Err(cause) => Err(Error::ReferenceNotFound { reference: name.clone(), cause }),
            },
            GitReference::Tag(name) => {
                let mut refname = String::from_str("refs/tags/");
                refname.append(name.as_str());
                match git_refname_id(repo, refname.as_str()) {
                    Ok(id) => match git_peel_commit(repo, id.as_str()) {
                        Ok(commit) => Ok(LockedGitReference(commit)),
                        Err(cause) => Err(
                            Error::ReferenceNotPeelable { reference: name.clone(), cause },
                        ),
                    },
                    Err(cause) => Err(
                        Error::ReferenceNotFound { reference: name.clone(), cause },
                    ),
                }
            },
            GitReference::Revision(spec) => match git_revparse_commit(repo, spec.as_str()) {
                Ok(id) => Ok(LockedGitReference(id)),
                Err(cause) => Err(Error::ReferenceNotFound { reference: spec.clone(), cause }),
            },
        }
    }
}

impl Source {
    /// Installs a git source: clones the URL into the directory, or opens
    /// the repository already there, and — when a reference is given — pins
    /// it and hard-resets the working tree to its commit.  The locked source
    /// is the directory, with no download filename.
    pub fn lock_git(
        directory: &String,
        url: &String,
        reference: &Option<GitReference>,
    ) -> (r: Result<LockedSource, Error>)
        ensures
            r matches Ok(ls) ==> ls@.directory == directory@ && ls@.filename is None,
    {
        let repo = match git_clone(url.as_str(), directory.as_str()) {
            CloneOutcome::Cloned(repo) => repo,
            CloneOutcome::Exists => match git_open(directory.as_str()) {
                Ok(repo) => repo,
                Err(cause) => {
                    return Err(Error::SourceInstall { source: url.clone(), cause });
                },
            },
            CloneOutcome::Failed(cause) => {
                return Err(Error::SourceInstall { source: url.clone(), cause });
            },
        };
        if let Some(reference) = reference {
            let pinned = match reference.lock(&repo) {
                Ok(p) => p,
                Err(e) => {
                    return Err(e);
                },
            };
            match git_reset_hard(&repo, pinned.0.as_str()) {
                Ok(()) => {},
                Err(cause) => {
                    return Err(Error::SourceInstall { source: url.clone(), cause });
                },
            }
        }
        Ok(LockedSource { directory: directory.clone(), filename: None })
    }
}

} // verus!
