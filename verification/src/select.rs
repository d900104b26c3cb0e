//! The file selector: which files in a locked source constitute a plugin's
//! body.
//!
//! A plugin that names `uses` patterns gets every pattern expanded, in order,
//! and each pattern must match something.  A plugin without `uses` walks the
//! global `matches` cascade instead: the first pattern that matches anything
//! wins, and matching nothing at all is legal.  Remote plugins skip selection
//! altogether — their single downloaded file is the body.

use vstd::prelude::*;
use vstd::string::*;
use vstd::seq_lib::*;

use crate::config::{Plugin, Settings, Source, SourceView};
use crate::engine::{glob_pattern_ok, glob_collect, hb_render_template, rendered_template, GlobEntry, TemplateData, TemplateDataView};
use crate::error::Error;
use crate::lock::{LockedPlugin, LockedSource};
use crate::util::path_join;

verus! {

/// Clones a string vector, preserving its texts.
pub fn clone_vec_str(v: &Vec<String>) -> (r: Vec<String>)
    ensures
        r.deep_view() == v.deep_view(),
{
    broadcast use vstd::std_specs::vec::group_vec_axioms;

    let mut r: Vec<String> = Vec::new();
    let mut i: usize = 0;
    while i < v.len()
        invariant
            i <= v@.len(),
            r@.len() == i,
            r.deep_view() == v.deep_view().take(i as int),
        decreases v@.len() - i,
    {
        r.push(v[i].clone());
        proof {
            assert(r@[i as int]@ == v@[i as int]@);
            assert(r.deep_view() =~~= v.deep_view().take(i + 1));
        }
        i = i + 1;
    }
    proof {
        assert(v.deep_view().take(i as int) =~~= v.deep_view());
    }
    r
}

/// The view of an optional string vector.
pub open spec fn opt_vec_view(o: Option<Vec<String>>) -> Option<Seq<Seq<char>>> {
    match o {
        Some(v) => Some(v.deep_view()),
        None => None,
    }
}

/// The template context used during selection: the root, the plugin's name
/// and its directory; no filename yet.
pub open spec fn selection_data_spec(root: Seq<char>, name: Seq<char>, directory: Seq<char>) -> TemplateDataView {
    TemplateDataView { root, name, directory, filename: None }
}

/// Expands one glob pattern against the filesystem and appends every matched
/// path, in the order the engine yields them; reports whether anything
/// matched.
#[verifier::loop_isolation(false)]
pub fn match_globs(pattern: &String, filenames: &mut Vec<String>) -> (r: Result<bool, Error>)
    ensures
        r matches Ok(b) ==> exists|l: Seq<Seq<char>>|
            final(filenames).deep_view() == old(filenames).deep_view() + l && (b <==> l.len()
                > 0),
        r is Err ==> exists|l: Seq<Seq<char>>|
            final(filenames).deep_view() == old(filenames).deep_view() + l,
        r is Ok ==> glob_pattern_ok(pattern@),
        r matches Err(e) ==> (e matches Error::Glob { pattern: p, .. } && p@ == pattern@) || (
        e matches Error::Encoding { what: w } && w@ == pattern@),
{
    broadcast use vstd::std_specs::vec::group_vec_axioms;

    let entries = match glob_collect(pattern) {
        Ok(es) => es,
        Err(cause) => {
            proof {
                assert(filenames.deep_view() =~~= old(filenames).deep_view() + Seq::<Seq<char>>::empty());
            }
            return Err(Error::Glob { pattern: pattern.clone(), cause });
        },
    };
    let mut matched = false;
    let ghost mut appended: Seq<Seq<char>> = Seq::empty();
    proof {
        assert(filenames.deep_view() =~~= old(filenames).deep_view() + appended);
    }
    let mut i: usize = 0;
    while i < entries.len()
        invariant
            i <= entries@.len(),
            filenames@.len() == old(filenames)@.len() + appended.len(),
            filenames.deep_view() == old(filenames).deep_view() + appended,
            matched <==> appended.len() > 0,
        decreases entries@.len() - i,
    {
        match &entries[i] {
            GlobEntry::Path(p) => {
                let ghost pre = filenames.deep_view();
                let ghost pre_raw = filenames@;
                proof {
                    appended = appended.push(p@);
                }
                let item = p.clone();
                let ghost itemv = item@;
                filenames.push(item);
                proof {
                    assert(filenames@ == pre_raw.push(item));
                    assert(filenames.deep_view().len() == pre.len() + 1);
                    assert forall|j: int|
                        0 <= j < filenames.deep_view().len() implies filenames.deep_view()[j]
                        == (old(filenames).deep_view() + appended)[j] by {
                        if j < pre.len() {
                            assert(filenames@[j] == pre_raw[j]);
                            assert(filenames.deep_view()[j] == pre[j]);
                        } else {
                            assert(filenames@[j] == item);
                            assert(filenames.deep_view()[j] == itemv);
                        }
                    }
                    assert(filenames.deep_view() =~= old(filenames).deep_view() + appended);
                }
                matched = true;
            },
            GlobEntry::NotText => {
                return Err(Error::Encoding { what: pattern.clone() });
            },
            GlobEntry::Unreadable(cause) => {
                return Err(Error::Glob { pattern: pattern.clone(), cause: cause.clone() });
            },
        }
        i = i + 1;
    }
    Ok(matched)
}

/// Whether `filenames` is a selection that the `uses` patterns can produce:
/// every pattern rendered, and the filenames are the patterns' match lists
/// concatenated in pattern order, each list non-empty.
pub open spec fn uses_selection(
    uses: Seq<Seq<char>>,
    data: TemplateDataView,
    filenames: Seq<Seq<char>>,
) -> bool {
    &&& (forall|i: int| 0 <= i < uses.len() ==> rendered_template(uses[i], data) is Some)
    &&& exists|lists: Seq<Seq<Seq<char>>>|
        lists.len() == uses.len() && (forall|i: int|
            0 <= i < lists.len() ==> lists[i].len() > 0) && filenames == lists.flatten()
}

/// Whether every cascade pattern up to and including position `k` renders.
pub open spec fn matches_prefix_rendered(
    globs: Seq<Seq<char>>,
    data: TemplateDataView,
    k: int,
) -> bool {
    forall|i: int| 0 <= i <= k && i < globs.len() ==> rendered_template(globs[i], data) is Some
}

/// Whether `filenames` is a selection that the `matches` cascade can produce:
/// some prefix of the cascade rendered and missed, and either the next
/// pattern matched (the filenames are its matches, first pattern wins) or the
/// whole cascade missed and the selection is empty.
pub open spec fn matches_selection(
    globs: Seq<Seq<char>>,
    data: TemplateDataView,
    filenames: Seq<Seq<char>>,
) -> bool {
    exists|k: int| #![trigger matches_prefix_rendered(globs, data, k)]
        0 <= k <= globs.len() && matches_prefix_rendered(globs, data, k) && (k == globs.len()
            ==> filenames.len() == 0) && (k < globs.len() ==> filenames.len() > 0)
}

impl Plugin {
    /// Locks this plugin against its installed source: a Remote plugin's body
    /// is exactly the downloaded file; any other plugin's body comes from the
    /// `uses` patterns, or from the global `matches` cascade when `uses` is
    /// omitted.  The apply list is the plugin's own, or the global one when
    /// omitted.
    #[verifier::loop_isolation(false)]
    pub fn lock(
        self,
        settings: &Settings,
        source: LockedSource,
        matches: &Vec<String>,
        apply: &Vec<String>,
    ) -> (r: Result<LockedPlugin, Error>)
        requires
            self.source@ matches SourceView::Remote { .. } ==> source@.filename is Some,
        ensures
            r matches Ok(lp) ==> {
                &&& lp@.name == self.name@
                &&& lp@.directory == source@.directory
                &&& lp@.apply == (match opt_vec_view(self.apply) {
                    Some(a) => a,
                    None => apply.deep_view(),
                })
            },
            self.source@ matches SourceView::Remote { .. } ==> (r matches Ok(lp)
                && lp@.filenames == seq![source@.filename.unwrap()]),
            (!(self.source@ matches SourceView::Remote { .. }) && self.uses is Some) ==> (r
                matches Ok(lp) ==> uses_selection(
                opt_vec_view(self.uses).unwrap(),
                selection_data_spec(settings.root@, self.name@, source@.directory),
                lp@.filenames,
            )),
            (!(self.source@ matches SourceView::Remote { .. }) && self.uses is None) ==> (r
                matches Ok(lp) ==> matches_selection(
                matches.deep_view(),
                selection_data_spec(settings.root@, self.name@, source@.directory),
                lp@.filenames,
            )),
            (!(self.source@ matches SourceView::Remote { .. }) && self.uses is None
                && matches@.len() == 0) ==> (r matches Ok(lp) && lp@.filenames == Seq::<
                Seq<char>,
            >::empty()),
            (!(self.source@ matches SourceView::Remote { .. }) && (self.uses matches Some(us)
                && us@.len() == 0)) ==> (r matches Ok(lp) && lp@.filenames == Seq::<
                Seq<char>,
            >::empty()),
            r matches Err(e) ==> {
                ||| e matches Error::TemplateRender { .. }
                ||| e matches Error::NoFilesMatched { .. }
                ||| e matches Error::Glob { .. }
                ||| e matches Error::Encoding { .. }
            },
            r matches Err(e) ==> (e matches Error::NoFilesMatched { pattern } ==> self.uses
                is Some && (exists|i: int|
                0 <= i < opt_vec_view(self.uses).unwrap().len() && rendered_template(
                    #[trigger] opt_vec_view(self.uses).unwrap()[i],
                    selection_data_spec(settings.root@, self.name@, source@.directory),
                ) == Some(pattern@))),
    {
        broadcast use vstd::std_specs::vec::group_vec_axioms;

        let ghost srcv = source@;
        let Plugin { name, source: plugin_source, uses, apply: plugin_apply } = self;
        let is_remote = match &plugin_source {
            Source::Remote { .. } => true,
            _ => false,
        };
        proof {
            assert(is_remote == (self.source@ matches SourceView::Remote { .. }));
        }
        if is_remote {
            let LockedSource { directory, filename } = source;
            let f = match filename {
                Some(f) => f,
                None => {
                    proof {
                        assert(false);
                    }
                    String::new()
                },
            };
            let mut filenames: Vec<String> = Vec::new();
            filenames.push(f);
            let apply_list = match plugin_apply {
                Some(a) => a,
                None => clone_vec_str(apply),
            };
            let lp = LockedPlugin { name, directory, filenames, apply: apply_list };
            proof {
                assert(lp@.filenames =~~= seq![srcv.filename.unwrap()]);
            }
            Ok(lp)
        } else {
            let LockedSource { directory, .. } = source;
            let data = TemplateData {
                root: settings.root.clone(),
                name: name.clone(),
                directory: directory.clone(),
                filename: None,
            };
            let ghost dv = selection_data_spec(settings.root@, self.name@, srcv.directory);
            proof {
                assert(data@ == dv);
            }
            let mut filenames: Vec<String> = Vec::new();
            if let Some(us) = uses {
                let ghost mut lists: Seq<Seq<Seq<char>>> = Seq::empty();
                let mut i: usize = 0;
                while i < us.len()
                    invariant
                        i <= us@.len(),
                        data@ == dv,
                        us.deep_view() == opt_vec_view(self.uses).unwrap(),
                        lists.len() == i,
                        forall|j: int| 0 <= j < lists.len() ==> lists[j].len() > 0,
                        filenames.deep_view() == lists.flatten(),
                        forall|j: int|
                            0 <= j < i ==> rendered_template(us.deep_view()[j], dv) is Some,
                    decreases us@.len() - i,
                {
                    let u = &us[i];
                    let rendered = match hb_render_template(u, &data) {
                        Ok(s) => s,
                        Err(cause) => {
                            return Err(Error::TemplateRender { name: u.clone(), cause });
                        },
                    };
                    let pattern = path_join(directory.as_str(), rendered.as_str());
                    let ghost before = filenames.deep_view();
                    match match_globs(&pattern, &mut filenames) {
                        Err(e) => {
                            return Err(e);
                        },
                        Ok(matched) => {
                            if !matched {
                                proof {
                                    assert(rendered_template(
                                        opt_vec_view(self.uses).unwrap()[i as int],
                                        dv,
                                    ) == Some(rendered@));
                                }
                                return Err(Error::NoFilesMatched { pattern: rendered });
                            }
                            proof {
                                let l = choose|l: Seq<Seq<char>>|
                                    filenames.deep_view() == before + l && (matched <==> l.len()
                                        > 0);
                                let prev = lists;
                                lists = lists.push(l);
                                prev.lemma_flatten_push(l);
                                assert(filenames.deep_view() == lists.flatten());
                            }
                        },
                    }
                    i = i + 1;
                }
                let apply_list = match plugin_apply {
                    Some(a) => a,
                    None => clone_vec_str(apply),
                };
                let lp = LockedPlugin { name, directory, filenames, apply: apply_list };
                proof {
                    assert(uses_selection(opt_vec_view(self.uses).unwrap(), dv, lp@.filenames));
                }
                Ok(lp)
            } else {
                let mut i: usize = 0;
                let mut done = false;
                while i < matches.len() && !done
                    invariant
                        i <= matches@.len(),
                        data@ == dv,
                        !done ==> filenames.deep_view().len() == 0,
                        done ==> i >= 1 && filenames.deep_view().len() > 0,
                        forall|j: int|
                            0 <= j < i ==> rendered_template(matches.deep_view()[j], dv) is Some,
                    decreases matches@.len() - i,
                {
                    let g = &matches[i];
                    let rendered = match hb_render_template(g, &data) {
                        Ok(s) => s,
                        Err(cause) => {
                            return Err(Error::TemplateRender { name: g.clone(), cause });
                        },
                    };
                    let pattern = path_join(directory.as_str(), rendered.as_str());
                    let ghost before = filenames.deep_view();
                    match match_globs(&pattern, &mut filenames) {
                        Err(e) => {
                            return Err(e);
                        },
                        Ok(matched) => {
                            proof {
                                let l = choose|l: Seq<Seq<char>>|
                                    filenames.deep_view() == before + l && (matched <==> l.len()
                                        > 0);
                                assert(filenames.deep_view().len() == before.len() + l.len());
                            }
                            if matched {
                                done = true;
                            }
                        },
                    }
                    i = i + 1;
                }
                let apply_list = match plugin_apply {
                    Some(a) => a,
                    None => clone_vec_str(apply),
                };
                let lp = LockedPlugin { name, directory, filenames, apply: apply_list };
                proof {
                    if !done {
                        assert(lp@.filenames =~~= Seq::<Seq<char>>::empty());
                    }
                    let k: int = if done { i - 1 } else { i as int };
                    assert(matches_prefix_rendered(matches.deep_view(), dv, k));
                    assert(0 <= k <= matches.deep_view().len());
                    assert(matches_selection(matches.deep_view(), dv, lp@.filenames));
                }
                Ok(lp)
            }
        }
    }
}

} // verus!
