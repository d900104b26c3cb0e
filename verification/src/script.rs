//! The script renderer: the locked plugins, in order, concatenated through
//! their templates into the final shell script.
//!
//! The renderer is exact: its result equals a spec-level fold of the named
//! rendering function over the locked configuration, each fragment followed
//! by one newline; any failing or unknown template fails the whole render and
//! no partial script is returned.

use vstd::prelude::*;
use vstd::string::*;

use crate::config::{Template, TemplateView};
use crate::engine::{hb_compiles, hb_new, hb_register, hb_render, hb_templates, rendered_named, TemplateData, TemplateDataView};
use crate::error::Error;
use crate::lock::{LockedConfig, LockedConfigView, LockedPluginView, templates_view};
use crate::util::push_char;

verus! {

/// The template registry contents that registering the named templates in
/// order produces: a later template of the same name wins.
pub open spec fn template_map(ts: Seq<(Seq<char>, TemplateView)>) -> Map<Seq<char>, Seq<char>>
    decreases ts.len(),
{
    if ts.len() == 0 {
        Map::empty()
    } else {
        template_map(ts.drop_last()).insert(ts.last().0, ts.last().1.value)
    }
}

/// Whether the last template of this name is a per-file template.
pub open spec fn template_each(ts: Seq<(Seq<char>, TemplateView)>, name: Seq<char>) -> bool
    decreases ts.len(),
{
    if ts.len() == 0 {
        false
    } else if ts.last().0 == name {
        ts.last().1.each
    } else {
        template_each(ts.drop_last(), name)
    }
}

/// Whether every named template compiles.
pub open spec fn templates_compile(ts: Seq<(Seq<char>, TemplateView)>) -> bool {
    forall|i: int| 0 <= i < ts.len() ==> hb_compiles(#[trigger] ts[i].1.value)
}

/// The base rendering context of a locked plugin.
pub open spec fn base_data(root: Seq<char>, p: LockedPluginView) -> TemplateDataView {
    TemplateDataView { root, name: p.name, directory: p.directory, filename: None }
}

/// The base context extended with one filename.
pub open spec fn data_with_file(base: TemplateDataView, f: Seq<char>) -> TemplateDataView {
    TemplateDataView { root: base.root, name: base.name, directory: base.directory, filename: Some(f) }
}

/// A per-file template rendered once per filename, in file-list order, each
/// fragment followed by one newline; nothing if any rendering fails.
pub open spec fn each_fragments(
    tm: Map<Seq<char>, Seq<char>>,
    name: Seq<char>,
    base: TemplateDataView,
    files: Seq<Seq<char>>,
) -> Option<Seq<char>>
    decreases files.len(),
{
    if files.len() == 0 {
        Some(Seq::empty())
    } else {
        match (
            each_fragments(tm, name, base, files.drop_last()),
            rendered_named(tm, name, data_with_file(base, files.last())),
        ) {
            (Some(rest), Some(s)) => Some(rest + s + seq!['\n']),
            _ => None,
        }
    }
}

/// One plugin's script: each applied template's fragments in apply-list
/// order; nothing if a name is unknown or a rendering fails.
pub open spec fn apply_fragments(
    ts: Seq<(Seq<char>, TemplateView)>,
    tm: Map<Seq<char>, Seq<char>>,
    p: LockedPluginView,
    base: TemplateDataView,
    applies: Seq<Seq<char>>,
) -> Option<Seq<char>>
    decreases applies.len(),
{
    if applies.len() == 0 {
        Some(Seq::empty())
    } else {
        let name = applies.last();
        let frag = if !tm.contains_key(name) {
            None
        } else if template_each(ts, name) {
            each_fragments(tm, name, base, p.filenames)
        } else {
            match rendered_named(tm, name, base) {
                Some(s) => Some(s + seq!['\n']),
                None => None,
            }
        };
        match (apply_fragments(ts, tm, p, base, applies.drop_last()), frag) {
            (Some(rest), Some(f)) => Some(rest + f),
            _ => None,
        }
    }
}

/// The whole script: every plugin's fragments, in locked order.
pub open spec fn plugins_fragments(
    ts: Seq<(Seq<char>, TemplateView)>,
    tm: Map<Seq<char>, Seq<char>>,
    root: Seq<char>,
    plugins: Seq<LockedPluginView>,
) -> Option<Seq<char>>
    decreases plugins.len(),
{
    if plugins.len() == 0 {
        Some(Seq::empty())
    } else {
        let p = plugins.last();
        match (
            plugins_fragments(ts, tm, root, plugins.drop_last()),
            apply_fragments(ts, tm, p, base_data(root, p), p.apply),
        ) {
            (Some(rest), Some(f)) => Some(rest + f),
            _ => None,
        }
    }
}

/// What rendering a locked configuration returns: the concatenated script,
/// or nothing when a template does not compile, a name is unknown, or a
/// rendering fails.
pub open spec fn script_spec(lc: LockedConfigView) -> Option<Seq<char>> {
    if !templates_compile(lc.templates) {
        None
    } else {
        plugins_fragments(lc.templates, template_map(lc.templates), lc.settings.root, lc.plugins)
    }
}

/// A failed rendering of one applied template fails the plugin's fragments.
proof fn lemma_apply_none(
    ts: Seq<(Seq<char>, TemplateView)>,
    tm: Map<Seq<char>, Seq<char>>,
    p: LockedPluginView,
    base: TemplateDataView,
    applies: Seq<Seq<char>>,
    k: int,
)
    requires
        0 <= k < applies.len(),
        ({
            let name = applies[k];
            !tm.contains_key(name) || (if template_each(ts, name) {
                each_fragments(tm, name, base, p.filenames) is None
            } else {
                rendered_named(tm, name, base) is None
            })
        }),
    ensures
        apply_fragments(ts, tm, p, base, applies) is None,
    decreases applies.len(),
{
    if k == applies.len() - 1 {
    } else {
        lemma_apply_none(ts, tm, p, base, applies.drop_last(), k);
    }
}

/// A failed rendering of one file fails the per-file fragments.
proof fn lemma_each_none(
    tm: Map<Seq<char>, Seq<char>>,
    name: Seq<char>,
    base: TemplateDataView,
    files: Seq<Seq<char>>,
    m: int,
)
    requires
        0 <= m < files.len(),
        rendered_named(tm, name, data_with_file(base, files[m])) is None,
    ensures
        each_fragments(tm, name, base, files) is None,
    decreases files.len(),
{
    if m == files.len() - 1 {
    } else {
        lemma_each_none(tm, name, base, files.drop_last(), m);
    }
}

/// A failed plugin fails the whole script.
proof fn lemma_plugins_none(
    ts: Seq<(Seq<char>, TemplateView)>,
    tm: Map<Seq<char>, Seq<char>>,
    root: Seq<char>,
    plugins: Seq<LockedPluginView>,
    i: int,
)
    requires
        0 <= i < plugins.len(),
        apply_fragments(ts, tm, plugins[i], base_data(root, plugins[i]), plugins[i].apply)
            is None,
    ensures
        plugins_fragments(ts, tm, root, plugins) is None,
    decreases plugins.len(),
{
    if i == plugins.len() - 1 {
    } else {
        lemma_plugins_none(ts, tm, root, plugins.drop_last(), i);
    }
}

/// The registry contents and the per-file flag agree with the last listed
/// template of a name.
proof fn lemma_template_lookup(ts: Seq<(Seq<char>, TemplateView)>, name: Seq<char>, idx: int)
    requires
        0 <= idx < ts.len(),
        ts[idx].0 == name,
        forall|j: int| idx < j < ts.len() ==> ts[j].0 != name,
    ensures
        template_map(ts).contains_key(name),
        template_map(ts)[name] == ts[idx].1.value,
        template_each(ts, name) == ts[idx].1.each,
    decreases ts.len(),
{
    if idx == ts.len() - 1 {
    } else {
        lemma_template_lookup(ts.drop_last(), name, idx);
    }
}

/// A name no listed template has is not in the registry.
proof fn lemma_template_absent(ts: Seq<(Seq<char>, TemplateView)>, name: Seq<char>)
    requires
        forall|j: int| 0 <= j < ts.len() ==> ts[j].0 != name,
    ensures
        !template_map(ts).contains_key(name),
    decreases ts.len(),
{
    if ts.len() > 0 {
        lemma_template_absent(ts.drop_last(), name);
    }
}

/// Finds the last listed template of this name.
fn find_template(ts: &Vec<(String, Template)>, name: &String) -> (r: Option<usize>)
    ensures
        match r {
            Some(idx) => idx < ts@.len() && templates_view(ts@)[idx as int].0 == name@
                && (forall|j: int|
                idx < j < ts@.len() ==> templates_view(ts@)[j].0 != name@),
            None => forall|j: int| 0 <= j < ts@.len() ==> templates_view(ts@)[j].0 != name@,
        },
{
    let mut k: usize = ts.len();
    while k > 0
        invariant
            k <= ts@.len(),
            forall|j: int| k <= j < ts@.len() ==> templates_view(ts@)[j].0 != name@,
        decreases k,
    {
        k = k - 1;
        if ts[k].0.eq(name) {
            return Some(k);
        }
    }
    None
}

impl LockedConfig {
    /// Renders the script: compiles every named template in order, then for
    /// every locked plugin, in order, and every name in its apply list
    /// renders the template — once per filename for per-file templates —
    /// and appends each fragment followed by one newline.  The result is
    /// exactly the spec-level script; on any failure no script is returned.
    #[verifier::loop_isolation(false)]
    #[verifier::rlimit(60)]
    pub fn source(&self) -> (r: Result<String, Error>)
        ensures
            match r {
                Ok(s) => script_spec(self@) == Some(s@),
                Err(_) => script_spec(self@) is None,
            },
            r matches Err(e) ==> (e matches Error::TemplateCompile { .. } || e
                matches Error::TemplateRender { .. }),
            r matches Err(e) ==> (e matches Error::TemplateCompile { .. }
                ==> !templates_compile(self@.templates)),
            r matches Err(e) ==> (e matches Error::TemplateRender { .. } ==> templates_compile(
                self@.templates,
            )),
    {
        broadcast use vstd::std_specs::vec::group_vec_axioms;

        let ghost ts = templates_view(self.templates@);
        let mut reg = hb_new();
        let mut i: usize = 0;
        while i < self.templates.len()
            invariant
                i <= ts.len(),
                hb_templates(reg) == template_map(ts.take(i as int)),
                forall|j: int| 0 <= j < i ==> hb_compiles(#[trigger] ts[j].1.value),
            decreases ts.len() - i,
        {
            let entry = &self.templates[i];
            match hb_register(&mut reg, &entry.0, &entry.1.value) {
                Ok(()) => {
                    proof {
                        assert(ts.take(i + 1).drop_last() =~= ts.take(i as int));
                        assert(ts.take(i + 1).last() == ts[i as int]);
                    }
                },
                Err(cause) => {
                    proof {
                        assert(ts[i as int].1.value == entry.1.value@);
                        assert(!hb_compiles(ts[i as int].1.value));
                        assert(!templates_compile(ts));
                    }
                    return Err(Error::TemplateCompile { name: entry.0.clone(), cause });
                },
            }
            i = i + 1;
        }
        proof {
            assert(ts.take(ts.len() as int) =~= ts);
            assert(templates_compile(ts));
        }
        let ghost tm = template_map(ts);
        let ghost root = self.settings.root@;

        let mut script = String::new();
        let mut pi: usize = 0;
        while pi < self.plugins.len()
            invariant
                pi <= self.plugins@.len(),
                plugins_fragments(ts, tm, root, self@.plugins.take(pi as int)) == Some(script@),
            decreases self.plugins@.len() - pi,
        {
            let p = &self.plugins[pi];
            let ghost pv = self@.plugins[pi as int];
            let data = TemplateData {
                root: self.settings.root.clone(),
                name: p.name.clone(),
                directory: p.directory.clone(),
                filename: None,
            };
            let ghost base = base_data(root, pv);
            proof {
                assert(data@ == base);
            }
            let ghost script_before = script@;
            let mut ai: usize = 0;
            while ai < p.apply.len()
                invariant
                    ai <= p.apply@.len(),
                    script@.len() >= script_before.len(),
                    script@.take(script_before.len() as int) == script_before,
                    apply_fragments(ts, tm, pv, base, pv.apply.take(ai as int)) == Some(
                        script@.skip(script_before.len() as int),
                    ),
                decreases p.apply@.len() - ai,
            {
                let name = &p.apply[ai];
                proof {
                    assert(pv.apply[ai as int] == name@);
                }
                let idx = match find_template(&self.templates, name) {
                    Some(idx) => idx,
                    None => {
                        proof {
                            lemma_template_absent(ts, name@);
                            lemma_apply_none(ts, tm, pv, base, pv.apply, ai as int);
                            lemma_plugins_none(ts, tm, root, self@.plugins, pi as int);
                        }
                        return Err(
                            Error::TemplateRender {
                                name: name.clone(),
                                cause: String::from_str("unknown template"),
                            },
                        );
                    },
                };
                proof {
                    lemma_template_lookup(ts, name@, idx as int);
                }
                let each = self.templates[idx].1.each;
                let ghost frag_prefix = script@;
                if each {
                    let mut fi: usize = 0;
                    while fi < p.filenames.len()
                        invariant
                            fi <= p.filenames@.len(),
                            script@.len() >= frag_prefix.len(),
                            script@.take(frag_prefix.len() as int) == frag_prefix,
                            each_fragments(tm, name@, base, pv.filenames.take(fi as int))
                                == Some(script@.skip(frag_prefix.len() as int)),
                        decreases p.filenames@.len() - fi,
                    {
                        let f = &p.filenames[fi];
                        let fdata = TemplateData {
                            root: self.settings.root.clone(),
                            name: p.name.clone(),
                            directory: p.directory.clone(),
                            filename: Some(f.clone()),
                        };
                        proof {
                            assert(fdata@ == data_with_file(base, pv.filenames[fi as int]));
                        }
                        match hb_render(&reg, name, &fdata) {
                            Ok(s) => {
                                let ghost pre = script@;
                                script.append(s.as_str());
                                push_char(&mut script, '\n');
                                proof {
                                    assert(pv.filenames.take(fi + 1).drop_last()
                                        =~= pv.filenames.take(fi as int));
                                    assert(pv.filenames.take(fi + 1).last()
                                        == pv.filenames[fi as int]);
                                    assert(script@ =~= pre + s@ + seq!['\n']);
                                    assert(script@.skip(frag_prefix.len() as int)
                                        =~= pre.skip(frag_prefix.len() as int) + s@
                                        + seq!['\n']);
                                    assert(script@.take(frag_prefix.len() as int)
                                        =~= pre.take(frag_prefix.len() as int));
                                }
                            },
                            Err(cause) => {
                                proof {
                                    lemma_each_none(tm, name@, base, pv.filenames, fi as int);
                                    lemma_apply_none(ts, tm, pv, base, pv.apply, ai as int);
                                    lemma_plugins_none(ts, tm, root, self@.plugins, pi as int);
                                }
                                return Err(
                                    Error::TemplateRender { name: name.clone(), cause },
                                );
                            },
                        }
                        fi = fi + 1;
                    }
                    proof {
                        assert(pv.filenames.take(pv.filenames.len() as int) =~= pv.filenames);
                        assert(pv.apply.take(ai + 1).drop_last() =~= pv.apply.take(ai as int));
                        assert(pv.apply.take(ai + 1).last() == pv.apply[ai as int]);
                        assert(frag_prefix.skip(script_before.len() as int)
                            =~= script@.take(frag_prefix.len() as int).skip(
                            script_before.len() as int,
                        ));
                        assert(script@.skip(script_before.len() as int)
                            =~= frag_prefix.skip(script_before.len() as int) + script@.skip(
                            frag_prefix.len() as int,
                        ));
                        assert(script@.take(script_before.len() as int) =~= script_before);
                    }
                } else {
                    match hb_render(&reg, name, &data) {
                        Ok(s) => {
                            let ghost pre = script@;
                            script.append(s.as_str());
                            push_char(&mut script, '\n');
                            proof {
                                assert(pv.apply.take(ai + 1).drop_last() =~= pv.apply.take(
                                    ai as int,
                                ));
                                assert(pv.apply.take(ai + 1).last() == pv.apply[ai as int]);
                                assert(script@ =~= pre + s@ + seq!['\n']);
                                assert(script@.skip(script_before.len() as int)
                                    =~= pre.skip(script_before.len() as int) + s@
                                    + seq!['\n']);
                                assert(script@.take(script_before.len() as int)
                                    =~= pre.take(script_before.len() as int));
                            }
                        },
                        Err(cause) => {
                            proof {
                                lemma_apply_none(ts, tm, pv, base, pv.apply, ai as int);
                                lemma_plugins_none(ts, tm, root, self@.plugins, pi as int);
                            }
                            return Err(Error::TemplateRender { name: name.clone(), cause });
                        },
                    }
                }
                ai = ai + 1;
            }
            proof {
                assert(pv.apply.take(pv.apply.len() as int) =~= pv.apply);
                assert(self@.plugins.take(pi + 1).drop_last() =~= self@.plugins.take(pi as int));
                assert(self@.plugins.take(pi + 1).last() == self@.plugins[pi as int]);
                assert(script@ =~= script_before + script@.skip(script_before.len() as int));
            }
            pi = pi + 1;
        }
        proof {
            assert(self@.plugins.take(self.plugins@.len() as int) =~= self@.plugins);
        }
        Ok(script)
    }
}

} // verus!
