//! The trusted layer over the strict template engine and the glob engine.
//!
//! Every call into the two outside crates goes through a wrapper here.  The
//! wrappers' contracts speak of three named results — what a template renders
//! to, whether it compiles, and what a registry holds — and of nothing an
//! outside call cannot promise: what a glob finds depends on the disk, so its
//! wrappers promise nothing about the matched paths.

use vstd::prelude::*;
use vstd::string::*;

verus! {

/// The context a template is rendered against: the root directory, the
/// plugin's name and directory, and — for per-file templates — the filename.
#[derive(Debug)]
pub struct TemplateData {
    /// The root directory, as text.
    pub root: String,
    /// The plugin's name.
    pub name: String,
    /// The plugin's directory, as text.
    pub directory: String,
    /// The current filename, present only while rendering per-file templates.
    pub filename: Option<String>,
}

/// The mathematical value of a [`TemplateData`].
pub struct TemplateDataView {
    pub root: Seq<char>,
    pub name: Seq<char>,
    pub directory: Seq<char>,
    pub filename: Option<Seq<char>>,
}

impl View for TemplateData {
    type V = TemplateDataView;

    open spec fn view(&self) -> TemplateDataView {
        TemplateDataView {
            root: self.root@,
            name: self.name@,
            directory: self.directory@,
            filename: match self.filename {
                Some(f) => Some(f@),
                None => None,
            },
        }
    }
}

#[verifier::external_type_specification]
#[verifier::external_body]
pub struct ExHandlebars<'reg>(handlebars::Handlebars<'reg>);

/// Whether the template engine accepts `template`'s syntax; compilation is a
/// function of the template text alone.
pub uninterp spec fn hb_compiles(template: Seq<char>) -> bool;

/// What rendering `template` against `data` in strict mode, with no other
/// templates registered, returns: the rendered text, or nothing when
/// rendering fails (in particular when the template names a variable the
/// data does not hold).
pub uninterp spec fn rendered_template(template: Seq<char>, data: TemplateDataView) -> Option<Seq<char>>;

/// What rendering the registered template `name` against `data` in strict
/// mode returns, when the registry holds exactly `templates`.
pub uninterp spec fn rendered_named(templates: Map<Seq<char>, Seq<char>>, name: Seq<char>, data: TemplateDataView) -> Option<Seq<char>>;

/// The template sources a registry holds, by name.
pub uninterp spec fn hb_templates(reg: handlebars::Handlebars<'static>) -> Map<Seq<char>, Seq<char>>;

/// Relies on handlebars::Handlebars::new and set_strict_mode: a fresh
/// registry holds no templates; strict mode makes a missing variable a
/// rendering error instead of empty output.
#[verifier::external_body]
pub fn hb_new() -> (r: handlebars::Handlebars<'static>)
    ensures
        (match r {
            reg => hb_templates(reg) == Map::<Seq<char>, Seq<char>>::empty(),
        }),
{
    let mut reg = handlebars::Handlebars::new();
    reg.set_strict_mode(true);
    reg
}

/// Relies on handlebars::Handlebars::register_template_string: it fails
/// exactly when the template text does not parse, and on success stores the
/// template source under `name`; on failure the registry is unchanged.
#[verifier::external_body]
pub fn hb_register(
    reg: &mut handlebars::Handlebars<'static>,
    name: &String,
    template: &String,
) -> (r: Result<(), String>)
    ensures
        r is Ok <==> hb_compiles(template@),
        r is Ok ==> hb_templates(*final(reg)) == hb_templates(*old(reg)).insert(name@, template@),
        r is Err ==> hb_templates(*final(reg)) == hb_templates(*old(reg)),
{
    match reg.register_template_string(name.as_str(), template.as_str()) {
        Ok(()) => Ok(()),
        Err(e) => Err(format!("{}", e)),
    }
}

/// Relies on handlebars::Handlebars::render: rendering a registered template
/// is a function of the registry's templates, the name and the data; an
/// unregistered name is an error.
#[verifier::external_body]
pub fn hb_render(
    reg: &handlebars::Handlebars<'static>,
    name: &String,
    data: &TemplateData,
) -> (r: Result<String, String>)
    ensures
        hb_templates(*reg).contains_key(name@) ==> match r {
            Ok(s) => rendered_named(hb_templates(*reg), name@, data@) == Some(s@),
            Err(_) => rendered_named(hb_templates(*reg), name@, data@) is None,
        },
        !hb_templates(*reg).contains_key(name@) ==> r is Err,
{
    let mut map = std::collections::HashMap::new();
    map.insert("root", data.root.as_str());
    map.insert("name", data.name.as_str());
    map.insert("directory", data.directory.as_str());
    if let Some(f) = &data.filename {
        map.insert("filename", f.as_str());
    }
    match reg.render(name.as_str(), &map) {
        Ok(s) => Ok(s),
        Err(e) => Err(format!("{}", e)),
    }
}

/// Relies on handlebars::Handlebars::render_template on a fresh strict
/// registry: the result is a function of the template text and the data
/// alone.
#[verifier::external_body]
pub fn hb_render_template(template: &String, data: &TemplateData) -> (r: Result<String, String>)
    ensures
        match r {
            Ok(s) => rendered_template(template@, data@) == Some(s@),
            Err(_) => rendered_template(template@, data@) is None,
        },
{
    let mut reg = handlebars::Handlebars::new();
    reg.set_strict_mode(true);
    let mut map = std::collections::HashMap::new();
    map.insert("root", data.root.as_str());
    map.insert("name", data.name.as_str());
    map.insert("directory", data.directory.as_str());
    if let Some(f) = &data.filename {
        map.insert("filename", f.as_str());
    }
    match reg.render_template(template.as_str(), &map) {
        Ok(s) => Ok(s),
        Err(e) => Err(format!("{}", e)),
    }
}

/// Whether the glob engine accepts `pattern`'s syntax; parsing is a function
/// of the pattern text alone.
pub uninterp spec fn glob_pattern_ok(pattern: Seq<char>) -> bool;

/// One path yielded by the glob engine.
#[derive(Debug)]
pub enum GlobEntry {
    /// A matched path, as text.
    Path(String),
    /// A matched path that is not representable as text.
    NotText,
    /// A path the engine could not read.
    Unreadable(String),
}

/// Relies on glob::glob and glob::Paths::next: expanding fails exactly when
/// the pattern does not parse; which paths are matched, and their order,
/// depend on the filesystem, so nothing is promised of the entries.
#[verifier::external_body]
pub fn glob_collect(pattern: &String) -> (r: Result<Vec<GlobEntry>, String>)
    ensures
        r is Ok <==> glob_pattern_ok(pattern@),
{
    match glob::glob(pattern.as_str()) {
        Err(e) => Err(format!("{}", e)),
        Ok(paths) => Ok(paths.map(|p| match p {
            Ok(p) => match p.into_os_string().into_string() {
                Ok(s) => GlobEntry::Path(s),
                Err(_) => GlobEntry::NotText,
            },
            Err(e) => GlobEntry::Unreadable(format!("{}", e)),
        }).collect()),
    }
}

} // verus!
