//! A shell-plugin manager's locking and rendering pipeline.
//!
//! The library takes a parsed manifest (a list of plugins, templates and
//! glob cascades) together with global settings, plans and performs the
//! installation of each plugin's source, selects the files that make up each
//! plugin, records everything in a durable locked configuration, and renders
//! the final shell script from named templates.

pub mod config;
pub mod engine;
pub mod error;
pub mod gitops;
pub mod lock;
pub mod orchestrate;
pub mod script;
pub mod select;
pub mod store;
pub mod util;

use vstd::prelude::*;

use crate::config::Settings;
use crate::lock::{settings_match_spec, LockedConfig};

verus! {

/// The main application.
#[derive(Debug)]
pub struct Sheldon;

/// How a `source` invocation proceeds: reuse the lock file on disk, or lock
/// the manifest again.
#[derive(Debug, PartialEq, Eq)]
pub enum RunDecision {
    /// The lock file is reusable: render from it, with no source work.
    Reuse,
    /// The manifest must be locked again.
    Relock,
}

impl Sheldon {
    /// Decides whether a `source` invocation may reuse the lock file: it is
    /// reused exactly when no relock was forced, the manifest is not newer
    /// than the lock file, the lock file parsed, and its frozen settings
    /// agree with the current ones.  Anything else locks the manifest again.
    pub fn run(settings: &Settings, lock: Option<&LockedConfig>, manifest_newer: bool) -> (r:
        RunDecision)
        ensures
            r is Reuse <==> (!settings.relock && !manifest_newer && (lock matches Some(lc)
                && settings_match_spec(*settings, lc@.settings))),
    {
        if settings.relock || manifest_newer {
            return RunDecision::Relock;
        }
        match lock {
            None => RunDecision::Relock,
            Some(lc) => {
                if lc.verify(settings) {
                    RunDecision::Reuse
                } else {
                    RunDecision::Relock
                }
            },
        }
    }
}

} // verus!
