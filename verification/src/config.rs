//! The in-memory manifest: plugins, sources, templates and global settings.

use vstd::prelude::*;
use vstd::string::*;

use crate::util::{join_spec, path_join, starts_with_spec, str_starts_with, substring};

verus! {

/// A parsed URL, reduced to the parts the pipeline reads: the full text, the
/// host (absent for URLs without one) and the path.  For URLs that can be a
/// base the path begins with `/`.
#[derive(Debug, Clone)]
pub struct Url {
    /// The serialized form of the whole URL.
    pub text: String,
    /// The URL's host, if it has one.
    pub host: Option<String>,
    /// The URL's path.
    pub path: String,
}

/// The mathematical value of a [`Url`].
pub struct UrlView {
    pub text: Seq<char>,
    pub host: Option<Seq<char>>,
    pub path: Seq<char>,
}

impl View for Url {
    type V = UrlView;

    open spec fn view(&self) -> UrlView {
        UrlView {
            text: self.text@,
            host: match self.host {
                Some(h) => Some(h@),
                None => None,
            },
            path: self.path@,
        }
    }
}

/// A symbolic pin of a git source: a branch, tag or revision to resolve to a
/// commit id at lock time.
#[derive(Debug, Clone)]
pub enum GitReference {
    /// A local branch name.
    Branch(String),
    /// A tag name.
    Tag(String),
    /// A single-revision specification.
    Revision(String),
}

/// The mathematical value of a [`GitReference`].
pub enum GitReferenceView {
    Branch(Seq<char>),
    Tag(Seq<char>),
    Revision(Seq<char>),
}

impl View for GitReference {
    type V = GitReferenceView;

    open spec fn view(&self) -> GitReferenceView {
        match self {
            GitReference::Branch(s) => GitReferenceView::Branch(s@),
            GitReference::Tag(s) => GitReferenceView::Tag(s@),
            GitReference::Revision(s) => GitReferenceView::Revision(s@),
        }
    }
}

/// Where a plugin's files come from.
#[derive(Debug, Clone)]
pub enum Source {
    /// A git repository to clone, optionally pinned to a reference.
    Git { url: Url, reference: Option<GitReference> },
    /// A single file to download.
    Remote { url: Url },
    /// A directory that is already on disk.
    Local { directory: String },
}

/// The mathematical value of a [`Source`].
pub enum SourceView {
    Git { url: UrlView, reference: Option<GitReferenceView> },
    Remote { url: UrlView },
    Local { directory: Seq<char> },
}

impl View for Source {
    type V = SourceView;

    open spec fn view(&self) -> SourceView {
        match self {
            Source::Git { url, reference } => SourceView::Git {
                url: url@,
                reference: match reference {
                    Some(r) => Some(r@),
                    None => None,
                },
            },
            Source::Remote { url } => SourceView::Remote { url: url@ },
            Source::Local { directory } => SourceView::Local { directory: directory@ },
        }
    }
}

/// A named template: a textual body, rendered once per plugin, or once per
/// plugin filename when `each` is set.
#[derive(Debug, Clone, PartialEq, Eq)]
pub struct Template {
    /// The template body.
    pub value: String,
    /// Whether the template is rendered once per filename.
    pub each: bool,
}

/// The mathematical value of a [`Template`].
pub struct TemplateView {
    pub value: Seq<char>,
    pub each: bool,
}

impl View for Template {
    type V = TemplateView;

    open spec fn view(&self) -> TemplateView {
        TemplateView { value: self.value@, each: self.each }
    }
}

/// A manifest entry: a named plugin, its source, and optional selection and
/// apply overrides.
#[derive(Debug, Clone)]
pub struct Plugin {
    /// The plugin's name, unique within a manifest.
    pub name: String,
    /// Where the plugin's files come from.
    pub source: Source,
    /// Explicit file-selection patterns; when absent the global `matches`
    /// cascade decides.
    pub uses: Option<Vec<String>>,
    /// Template names to apply; when absent the global `apply` list decides.
    pub apply: Option<Vec<String>>,
}

/// The parsed manifest: global cascades, named templates in order, and the
/// plugins in manifest order.
#[derive(Debug)]
pub struct Config {
    /// The global glob cascade used when a plugin omits `uses`.
    pub matches: Vec<String>,
    /// The global list of template names applied when a plugin omits `apply`.
    pub apply: Vec<String>,
    /// The named templates, in insertion order.
    pub templates: Vec<(String, Template)>,
    /// The plugins, in manifest order.
    pub plugins: Vec<Plugin>,
}

/// Process-wide settings, read-only after construction.
#[derive(Debug, Clone)]
pub struct Settings {
    /// The tool's version string.
    pub version: String,
    /// The home directory.
    pub home: String,
    /// The root directory that sources are installed under.
    pub root: String,
    /// The manifest file's path.
    pub config_file: String,
    /// The lock file's path.
    pub lock_file: String,
    /// Whether a reinstall of all sources was requested.
    pub reinstall: bool,
    /// Whether a forced relock was requested.
    pub relock: bool,
}

/// The value of `directory` after resolving a leading home shortcut against
/// `home`.
pub open spec fn expand_tilde_spec(home: Seq<char>, directory: Seq<char>) -> Seq<char> {
    if directory == "~"@ {
        home
    } else if starts_with_spec(directory, "~/"@) {
        join_spec(home, directory.skip(2))
    } else {
        directory
    }
}

impl Settings {
    /// Rewrites a leading `~` in `directory` against the home directory.
    pub fn expand_tilde(&self, directory: &String) -> (r: String)
        ensures
            r@ == expand_tilde_spec(self.home@, directory@),
    {
        proof {
            reveal_strlit("~");
            reveal_strlit("~/");
        }
        let n = directory.as_str().unicode_len();
        if n == 1 && directory.as_str().get_char(0) == '~' {
            proof {
                assert(directory@ =~= "~"@);
            }
            self.home.clone()
        } else if str_starts_with(directory.as_str(), "~/") {
            let rest = substring(directory.as_str(), 2, directory.as_str().unicode_len());
            proof {
                assert("~/"@.len() == 2);
                assert(directory@ != "~"@) by {
                    assert(directory@.take(2)[0] == directory@[0]);
                    assert(directory@.len() >= 2);
                }
                assert(directory@.subrange(2, directory@.len() as int) =~= directory@.skip(2));
            }
            path_join(self.home.as_str(), rest.as_str())
        } else {
            directory.clone()
        }
    }
}

/// Whether two git references are the same symbol.
pub open spec fn git_reference_eq_spec(a: GitReferenceView, b: GitReferenceView) -> bool {
    match (a, b) {
        (GitReferenceView::Branch(x), GitReferenceView::Branch(y)) => x == y,
        (GitReferenceView::Tag(x), GitReferenceView::Tag(y)) => x == y,
        (GitReferenceView::Revision(x), GitReferenceView::Revision(y)) => x == y,
        _ => false,
    }
}

/// Whether two sources are equal by value: same variant, and equal URL text,
/// reference and directory.
pub open spec fn source_eq_spec(a: SourceView, b: SourceView) -> bool {
    match (a, b) {
        (
            SourceView::Git { url: ua, reference: ra },
            SourceView::Git { url: ub, reference: rb },
        ) => ua.text == ub.text && match (ra, rb) {
            (None, None) => true,
            (Some(x), Some(y)) => git_reference_eq_spec(x, y),
            _ => false,
        },
        (SourceView::Remote { url: ua }, SourceView::Remote { url: ub }) => ua.text == ub.text,
        (SourceView::Local { directory: da }, SourceView::Local { directory: db }) => da == db,
        _ => false,
    }
}

/// Compares two git references by value.
pub fn git_reference_eq(a: &GitReference, b: &GitReference) -> (r: bool)
    ensures
        r == git_reference_eq_spec(a@, b@),
{
    match (a, b) {
        (GitReference::Branch(x), GitReference::Branch(y)) => x.eq(y),
        (GitReference::Tag(x), GitReference::Tag(y)) => x.eq(y),
        (GitReference::Revision(x), GitReference::Revision(y)) => x.eq(y),
        _ => false,
    }
}

/// Compares two sources by value: this equality decides which plugins share a
/// single installation.
pub fn source_eq(a: &Source, b: &Source) -> (r: bool)
    ensures
        r == source_eq_spec(a@, b@),
{
    match (a, b) {
        (
            Source::Git { url: ua, reference: ra },
            Source::Git { url: ub, reference: rb },
        ) => ua.text.eq(&ub.text) && match (ra, rb) {
            (None, None) => true,
            (Some(x), Some(y)) => git_reference_eq(x, y),
            _ => false,
        },
        (Source::Remote { url: ua }, Source::Remote { url: ub }) => ua.text.eq(&ub.text),
        (Source::Local { directory: da }, Source::Local { directory: db }) => da.eq(db),
        _ => false,
    }
}

} // verus!
