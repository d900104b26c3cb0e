//! The lock orchestrator.
//!
//! Locking happens in two passes around the caller's installation work: first
//! the manifest's distinct sources are computed (plugins with equal sources
//! share one installation), the caller installs each of them once — in any
//! order, and in parallel if it likes — and then the manifest is locked
//! against the installation results, pairing every plugin, in manifest order,
//! with its source's result and running the file selector on it.

use vstd::prelude::*;
use vstd::string::*;

use crate::config::{Config, Plugin, Settings, Source, SourceView, source_eq, source_eq_spec};
use crate::error::Error;
use crate::lock::{duplicate_opt_git_ref, LockedConfig, LockedPlugin, LockedSource, settings_match_spec, templates_view};
use crate::select::opt_vec_view;

verus! {

impl crate::config::Url {
    /// Copies this URL, preserving its value.
    pub fn duplicate(&self) -> (r: crate::config::Url)
        ensures
            r@ == self@,
    {
        crate::config::Url {
            text: self.text.clone(),
            host: match &self.host {
                Some(h) => Some(h.clone()),
                None => None,
            },
            path: self.path.clone(),
        }
    }
}

impl Source {
    /// Copies this source, preserving its value.
    pub fn duplicate(&self) -> (r: Source)
        ensures
            r@ == self@,
    {
        match self {
            Source::Git { url, reference } => Source::Git {
                url: url.duplicate(),
                reference: duplicate_opt_git_ref(reference),
            },
            Source::Remote { url } => Source::Remote { url: url.duplicate() },
            Source::Local { directory } => Source::Local { directory: directory.clone() },
        }
    }
}

impl Source {
    /// The text a source is shown as in messages: its URL, or its local
    /// directory.
    pub fn display(&self) -> (r: String)
        ensures
            match self {
                Source::Git { url, .. } => r@ == url.text@,
                Source::Remote { url } => r@ == url.text@,
                Source::Local { directory } => r@ == directory@,
            },
    {
        match self {
            Source::Git { url, .. } => url.text.clone(),
            Source::Remote { url } => url.text.clone(),
            Source::Local { directory } => directory.clone(),
        }
    }
}

/// Finds the position of the first listed source equal to `s`, by value.
pub fn find_source(sources: &Vec<Source>, s: &Source) -> (r: Option<usize>)
    ensures
        match r {
            Some(j) => j < sources@.len() && source_eq_spec(s@, sources@[j as int]@),
            None => forall|j: int|
                0 <= j < sources@.len() ==> !source_eq_spec(s@, sources@[j]@),
        },
{
    let mut j: usize = 0;
    while j < sources.len()
        invariant
            j <= sources@.len(),
            forall|k: int| 0 <= k < j ==> !source_eq_spec(s@, sources@[k]@),
        decreases sources@.len() - j,
    {
        if source_eq(s, &sources[j]) {
            return Some(j);
        }
        j = j + 1;
    }
    None
}

/// No two listed sources are equal by value.
pub open spec fn sources_distinct(srcs: Seq<Source>) -> bool {
    forall|a: int, b: int| 0 <= a < b < srcs.len() ==> !source_eq_spec(srcs[b]@, srcs[a]@)
}

/// Every plugin before `upto` has its source listed.
pub open spec fn sources_complete(plugins: Seq<Plugin>, upto: int, srcs: Seq<Source>) -> bool {
    forall|k: int|
        0 <= k < upto ==> exists|j: int|
            0 <= j < srcs.len() && source_eq_spec(#[trigger] plugins[k].source@, srcs[j]@)
}

/// Every listed source is some plugin's source.
pub open spec fn sources_sound(plugins: Seq<Plugin>, srcs: Seq<Source>) -> bool {
    forall|j: int|
        0 <= j < srcs.len() ==> exists|k: int|
            0 <= k < plugins.len() && source_eq_spec(plugins[k].source@, #[trigger] srcs[j]@)
}

impl Config {
    /// The distinct sources of this manifest's plugins, in first-appearance
    /// order.  Plugins with equal sources share one entry, so the caller
    /// installs every source exactly once; every plugin's source is listed.
    pub fn sources(&self) -> (r: Vec<Source>)
        ensures
            sources_distinct(r@),
            sources_complete(self.plugins@, self.plugins@.len() as int, r@),
            sources_sound(self.plugins@, r@),
    {
        let mut r: Vec<Source> = Vec::new();
        let mut i: usize = 0;
        while i < self.plugins.len()
            invariant
                i <= self.plugins@.len(),
                sources_distinct(r@),
                sources_complete(self.plugins@, i as int, r@),
                sources_sound(self.plugins@, r@),
            decreases self.plugins@.len() - i,
        {
            let s = &self.plugins[i].source;
            match find_source(&r, s) {
                Some(j) => {
                    proof {
                        assert(source_eq_spec(self.plugins@[i as int].source@, r@[j as int]@));
                        assert(sources_complete(self.plugins@, i + 1, r@)) by {
                            assert forall|k: int|
                                0 <= k < i + 1 implies exists|jj: int|
                                    0 <= jj < r@.len() && source_eq_spec(
                                        #[trigger] self.plugins@[k].source@,
                                        r@[jj]@,
                                    ) by {
                                if k < i {
                                    let jj = choose|jj: int|
                                        0 <= jj < r@.len() && source_eq_spec(
                                            self.plugins@[k].source@,
                                            r@[jj]@,
                                        );
                                } else {
                                    assert(source_eq_spec(
                                        self.plugins@[k].source@,
                                        r@[j as int]@,
                                    ));
                                }
                            }
                        }
                    }
                },
                None => {
                    let ghost prev = r@;
                    r.push(s.duplicate());
                    proof {
                        lemma_source_eq_refl(s@);
                        assert(r@[prev.len() as int]@ == s@);
                        assert(sources_distinct(r@)) by {
                            assert forall|a: int, b: int|
                                0 <= a < b < r@.len() implies !source_eq_spec(r@[b]@, r@[a]@) by {
                                if b == prev.len() {
                                    assert(!source_eq_spec(s@, prev[a]@));
                                    assert(r@[a]@ == prev[a]@);
                                } else {
                                    assert(r@[a] == prev[a] && r@[b] == prev[b]);
                                }
                            }
                        }
                        assert(sources_complete(self.plugins@, i + 1, r@)) by {
                            assert forall|k: int|
                                0 <= k < i + 1 implies exists|j: int|
                                    0 <= j < r@.len() && source_eq_spec(
                                        #[trigger] self.plugins@[k].source@,
                                        r@[j]@,
                                    ) by {
                                if k < i {
                                    let j = choose|j: int|
                                        0 <= j < prev.len() && source_eq_spec(
                                            self.plugins@[k].source@,
                                            prev[j]@,
                                        );
                                    assert(r@[j] == prev[j]);
                                    assert(source_eq_spec(self.plugins@[k].source@, r@[j]@));
                                } else {
                                    assert(source_eq_spec(
                                        self.plugins@[k].source@,
                                        r@[prev.len() as int]@,
                                    ));
                                }
                            }
                        }
                        assert(sources_sound(self.plugins@, r@)) by {
                            assert forall|j: int|
                                0 <= j < r@.len() implies exists|k: int|
                                    0 <= k < self.plugins@.len() && source_eq_spec(
                                        self.plugins@[k].source@,
                                        #[trigger] r@[j]@,
                                    ) by {
                                if j < prev.len() {
                                    let k = choose|k: int|
                                        0 <= k < self.plugins@.len() && source_eq_spec(
                                            self.plugins@[k].source@,
                                            prev[j]@,
                                        );
                                    assert(r@[j] == prev[j]);
                                    assert(source_eq_spec(self.plugins@[k].source@, r@[j]@));
                                } else {
                                    assert(source_eq_spec(self.plugins@[i as int].source@, r@[j]@));
                                }
                            }
                        }
                    }
                },
            }
            i = i + 1;
        }
        r
    }
}

/// Source equality by value is reflexive.
proof fn lemma_source_eq_refl(a: SourceView)
    ensures
        source_eq_spec(a, a),
{
}

/// Whether every installation result is a success.
pub open spec fn installs_ok(installed: Seq<Result<LockedSource, Error>>) -> bool {
    forall|j: int| 0 <= j < installed.len() ==> (#[trigger] installed[j]) is Ok
}

/// Whether every successful Remote installation records its download
/// filename.
pub open spec fn remote_filenames_recorded(
    sources: Seq<Source>,
    installed: Seq<Result<LockedSource, Error>>,
) -> bool {
    forall|j: int| #![trigger installed[j]]
        0 <= j < sources.len() && j < installed.len() ==> (sources[j]@
            matches SourceView::Remote { .. } ==> (installed[j] matches Ok(ls) ==> ls@.filename
            is Some))
}

/// Whether every plugin's source is a download.
pub open spec fn all_remote(plugins: Seq<Plugin>) -> bool {
    forall|i: int| 0 <= i < plugins.len() ==> (#[trigger] plugins[i].source)@
        matches SourceView::Remote { .. }
}

impl Config {
    /// Locks this manifest against the installation results of its sources:
    /// every plugin, in manifest order, is paired with its source's result
    /// and run through the file selector.  The locked plugins correspond
    /// name for name, in order, to the manifest's plugins.  The first failed
    /// installation or selection fails the whole lock.  Locking an empty
    /// manifest always succeeds, and so does locking a manifest of downloads
    /// whose sources are all listed and installed: only a failed result or
    /// the file selector can fail it.
    #[verifier::loop_isolation(false)]
    pub fn lock(
        self,
        settings: &Settings,
        sources: &Vec<Source>,
        installed: &Vec<Result<LockedSource, Error>>,
    ) -> (r: Result<LockedConfig, Error>)
        requires
            installed@.len() == sources@.len(),
        ensures
            r matches Ok(lc) ==> {
                &&& settings_match_spec(*settings, lc@.settings)
                &&& lc@.templates == templates_view(self.templates@)
                &&& lc@.plugins.len() == self.plugins@.len()
                &&& forall|i: int|
                    0 <= i < lc@.plugins.len() ==> #[trigger] lc@.plugins[i].name
                        == self.plugins@[i].name@
                &&& forall|i: int|
                    0 <= i < lc@.plugins.len() ==> #[trigger] lc@.plugins[i].apply == (
                    match opt_vec_view(self.plugins@[i].apply) {
                        Some(a) => a,
                        None => self.apply.deep_view(),
                    })
                &&& lc.errors@.len() == 0
            },
            self.plugins@.len() == 0 ==> r is Ok,
            (sources_complete(self.plugins@, self.plugins@.len() as int, sources@) && installs_ok(
                installed@,
            ) && remote_filenames_recorded(sources@, installed@) && all_remote(self.plugins@))
                ==> r is Ok,
    {
        let ghost premises = sources_complete(
            self.plugins@,
            self.plugins@.len() as int,
            sources@,
        ) && installs_ok(installed@) && remote_filenames_recorded(sources@, installed@)
            && all_remote(self.plugins@);
        broadcast use vstd::std_specs::vec::group_vec_axioms;

        let ghost plugins0 = self.plugins@;
        let ghost apply0 = self.apply.deep_view();
        let Config { matches, apply, templates, mut plugins } = self;
        let mut locked_plugins: Vec<LockedPlugin> = Vec::new();
        let ghost n = plugins0.len();
        while plugins.len() > 0
            invariant
                locked_plugins@.len() + plugins@.len() == n,
                plugins@ == plugins0.skip(locked_plugins@.len() as int),
                apply.deep_view() == apply0,
                forall|k: int|
                    0 <= k < locked_plugins@.len() ==> #[trigger] locked_plugins.deep_view()[k].name
                        == plugins0[k].name@,
                forall|k: int|
                    0 <= k < locked_plugins@.len() ==> #[trigger] locked_plugins.deep_view()[k].apply
                        == (match opt_vec_view(plugins0[k].apply) {
                        Some(a) => a,
                        None => apply0,
                    }),
            decreases plugins@.len(),
        {
            let ghost i = locked_plugins@.len() as int;
            proof {
                assert(plugins0.skip(i)[0] == plugins0[i]);
            }
            let p = plugins.remove(0);
            proof {
                assert(p == plugins0[i]);
                assert(plugins@ =~= plugins0.skip(i + 1));
            }
            let j = match find_source(sources, &p.source) {
                Some(j) => j,
                None => {
                    // Unreachable when the caller installed what `sources`
                    // listed; reported as a failed installation otherwise.
                    proof {
                        if premises {
                            assert(plugins0[i].source@ == p.source@);
                            assert(exists|jj: int|
                                0 <= jj < sources@.len() && source_eq_spec(
                                    plugins0[i].source@,
                                    sources@[jj]@,
                                ));
                            let jj = choose|jj: int|
                                0 <= jj < sources@.len() && source_eq_spec(
                                    plugins0[i].source@,
                                    sources@[jj]@,
                                );
                            assert(!source_eq_spec(p.source@, sources@[jj]@));
                        }
                    }
                    return Err(
                        Error::SourceInstall {
                            source: p.source.display(),
                            cause: String::from_str("the source was not installed"),
                        },
                    );
                },
            };
            let locked_source = match &installed[j] {
                Ok(ls) => ls.duplicate(),
                Err(e) => {
                    proof {
                        if premises {
                            assert(installed@[j as int] is Ok);
                        }
                    }
                    return Err(e.clone());
                },
            };
            let is_remote = match &p.source {
                Source::Remote { .. } => true,
                _ => false,
            };
            if is_remote && locked_source.filename.is_none() {
                // A Remote install always records its download filename;
                // reported as a failed installation otherwise.
                proof {
                    if premises {
                        assert(installed@[j as int] matches Ok(ls) && ls@.filename is Some);
                    }
                }
                return Err(
                    Error::SourceInstall {
                        source: p.source.display(),
                        cause: String::from_str("the download filename is missing"),
                    },
                );
            }
            let ghost pre = locked_plugins.deep_view();
            let lp = match p.lock(settings, locked_source, &matches, &apply) {
                Ok(lp) => lp,
                Err(e) => {
                    proof {
                        if premises {
                            // Remote plugins always lock successfully.
                            assert(plugins0[i].source@ matches SourceView::Remote { .. });
                        }
                    }
                    return Err(e);
                },
            };
            locked_plugins.push(lp);
            proof {
                assert(locked_plugins.deep_view() =~= pre.push(
                    locked_plugins@[locked_plugins@.len() - 1]@,
                ));
            }
        }
        let locked_settings = settings.lock();
        let lc = LockedConfig {
            settings: locked_settings,
            templates,
            plugins: locked_plugins,
            errors: Vec::new(),
        };
        proof {
            assert(lc@.plugins =~= locked_plugins.deep_view());
        }
        Ok(lc)
    }
}

} // verus!
