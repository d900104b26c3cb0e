//! Locked forms of the manifest's entities, and the planning of source
//! installation: where each source materializes under the root directory.

use vstd::prelude::*;
use vstd::string::*;

use crate::config::{expand_tilde_spec, GitReference, GitReferenceView, Settings, Source, SourceView, Template, TemplateView};
use crate::error::Error;
use crate::util::{join_spec, path_join, rfind_char, str_starts_with, substring, trim_slashes_spec, trim_start_slashes};

verus! {

/// A pinned git reference: the hex id of the commit it resolved to.
#[derive(Debug, Clone)]
pub struct LockedGitReference(pub String);

/// The result of installing a source: a concrete directory, plus the
/// downloaded file's path for Remote sources.
#[derive(Debug, PartialEq, Eq)]
pub struct LockedSource {
    /// The clone, download or local directory.
    pub directory: String,
    /// The downloaded file, present exactly for Remote sources.
    pub filename: Option<String>,
}

/// The mathematical value of a [`LockedSource`].
pub struct LockedSourceView {
    pub directory: Seq<char>,
    pub filename: Option<Seq<char>>,
}

impl View for LockedSource {
    type V = LockedSourceView;

    open spec fn view(&self) -> LockedSourceView {
        LockedSourceView {
            directory: self.directory@,
            filename: match self.filename {
                Some(f) => Some(f@),
                None => None,
            },
        }
    }
}

impl LockedSource {
    /// Copies this locked source, preserving its value.
    pub fn duplicate(&self) -> (r: LockedSource)
        ensures
            r@ == self@,
    {
        LockedSource {
            directory: self.directory.clone(),
            filename: match &self.filename {
                Some(f) => Some(f.clone()),
                None => None,
            },
        }
    }
}

/// The locked form of a plugin: its directory, the files that make up its
/// body in order, and the template names to apply.
#[derive(Debug, PartialEq, Eq)]
pub struct LockedPlugin {
    /// The plugin's name.
    pub name: String,
    /// The directory the plugin resides in.
    pub directory: String,
    /// The selected files, in selection order.
    pub filenames: Vec<String>,
    /// The template names to apply, in order.
    pub apply: Vec<String>,
}

/// The mathematical value of a [`LockedPlugin`].
pub struct LockedPluginView {
    pub name: Seq<char>,
    pub directory: Seq<char>,
    pub filenames: Seq<Seq<char>>,
    pub apply: Seq<Seq<char>>,
}

impl View for LockedPlugin {
    type V = LockedPluginView;

    open spec fn view(&self) -> LockedPluginView {
        LockedPluginView {
            name: self.name@,
            directory: self.directory@,
            filenames: self.filenames.deep_view(),
            apply: self.apply.deep_view(),
        }
    }
}

impl DeepView for LockedPlugin {
    type V = LockedPluginView;

    open spec fn deep_view(&self) -> LockedPluginView {
        self.view()
    }
}

/// Settings frozen at lock time; compared field for field against the current
/// settings when an existing lock file is considered for reuse.
#[derive(Debug, Clone, PartialEq, Eq)]
pub struct LockedSettings {
    /// The tool version that wrote the lock.
    pub version: String,
    /// The home directory at lock time.
    pub home: String,
    /// The root directory at lock time.
    pub root: String,
    /// The manifest path at lock time.
    pub config_file: String,
    /// The lock-file path at lock time.
    pub lock_file: String,
}

/// The mathematical value of a [`LockedSettings`].
pub struct LockedSettingsView {
    pub version: Seq<char>,
    pub home: Seq<char>,
    pub root: Seq<char>,
    pub config_file: Seq<char>,
    pub lock_file: Seq<char>,
}

impl View for LockedSettings {
    type V = LockedSettingsView;

    open spec fn view(&self) -> LockedSettingsView {
        LockedSettingsView {
            version: self.version@,
            home: self.home@,
            root: self.root@,
            config_file: self.config_file@,
            lock_file: self.lock_file@,
        }
    }
}

/// The durable output of locking: frozen settings, the named templates in
/// order, and the locked plugins in manifest order.  The `errors` list is
/// in-memory only and never round-trips through the lock file.
#[derive(Debug, PartialEq, Eq)]
pub struct LockedConfig {
    /// The settings the lock was computed under.
    pub settings: LockedSettings,
    /// The named templates, in insertion order.
    pub templates: Vec<(String, Template)>,
    /// The locked plugins, in manifest order.
    pub plugins: Vec<LockedPlugin>,
    /// Errors collected while locking; transient and never persisted.
    pub errors: Vec<Error>,
}

/// The mathematical value of a [`LockedConfig`]: its durable part.
pub struct LockedConfigView {
    pub settings: LockedSettingsView,
    pub templates: Seq<(Seq<char>, TemplateView)>,
    pub plugins: Seq<LockedPluginView>,
}

/// The view of an ordered template list.
pub open spec fn templates_view(ts: Seq<(String, Template)>) -> Seq<(Seq<char>, TemplateView)> {
    ts.map_values(|p: (String, Template)| (p.0@, p.1@))
}

impl View for LockedConfig {
    type V = LockedConfigView;

    open spec fn view(&self) -> LockedConfigView {
        LockedConfigView {
            settings: self.settings@,
            templates: templates_view(self.templates@),
            plugins: self.plugins.deep_view(),
        }
    }
}

/// Whether frozen settings agree with the current settings on every persisted
/// field.
pub open spec fn settings_match_spec(s: Settings, l: LockedSettingsView) -> bool {
    s.version@ == l.version && s.home@ == l.home && s.root@ == l.root && s.config_file@
        == l.config_file && s.lock_file@ == l.lock_file
}

impl Settings {
    /// Compares these settings with frozen ones, field for field.
    pub fn eq(&self, other: &LockedSettings) -> (r: bool)
        ensures
            r == settings_match_spec(*self, other@),
    {
        self.version.eq(&other.version) && self.home.eq(&other.home) && self.root.eq(&other.root)
            && self.config_file.eq(&other.config_file) && self.lock_file.eq(&other.lock_file)
    }

    /// Freezes these settings into their locked form.
    pub fn lock(&self) -> (r: LockedSettings)
        ensures
            r@.version == self.version@,
            r@.home == self.home@,
            r@.root == self.root@,
            r@.config_file == self.config_file@,
            r@.lock_file == self.lock_file@,
            settings_match_spec(*self, r@),
    {
        LockedSettings {
            version: self.version.clone(),
            home: self.home.clone(),
            root: self.root.clone(),
            config_file: self.config_file.clone(),
            lock_file: self.lock_file.clone(),
        }
    }
}

/// The view of an optional git reference.
pub open spec fn opt_git_ref_view(o: Option<GitReference>) -> Option<GitReferenceView> {
    match o {
        Some(r) => Some(r@),
        None => None,
    }
}

impl GitReference {
    /// Copies this reference, preserving its value.
    pub fn duplicate(&self) -> (r: GitReference)
        ensures
            r@ == self@,
    {
        match self {
            GitReference::Branch(s) => GitReference::Branch(s.clone()),
            GitReference::Tag(s) => GitReference::Tag(s.clone()),
            GitReference::Revision(s) => GitReference::Revision(s.clone()),
        }
    }
}

/// Copies an optional git reference, preserving its value.
pub fn duplicate_opt_git_ref(o: &Option<GitReference>) -> (r: Option<GitReference>)
    ensures
        opt_git_ref_view(r) == opt_git_ref_view(*o),
{
    match o {
        Some(g) => Some(g.duplicate()),
        None => None,
    }
}

/// The planned installation of one source: the concrete paths it will
/// materialize at, and what has to be done there.  Performing the plan —
/// cloning, downloading, checking a directory — is the caller's part; the
/// paths and the decision are fixed here.
#[derive(Debug)]
pub enum Install {
    /// Clone `url` into `directory` (or open the repository already there)
    /// and, when a reference is given, hard-reset to the commit it pins to.
    Git { directory: String, url: String, reference: Option<GitReference> },
    /// Download `url` to `filename` inside `directory`, unless the file
    /// already exists.
    Remote { directory: String, filename: String, url: String },
    /// Check that `directory` exists and is a directory.
    Local { directory: String },
}

/// The index of the last `/` in `s`, if any.
pub open spec fn rfind_slash(s: Seq<char>) -> Option<int>
    decreases s.len(),
{
    if s.len() == 0 {
        None
    } else if s[s.len() - 1] == '/' {
        Some(s.len() - 1)
    } else {
        rfind_slash(s.take(s.len() - 1))
    }
}

proof fn lemma_rfind_slash_some(s: Seq<char>, i: int)
    requires
        0 <= i < s.len(),
        s[i] == '/',
        forall|j: int| i < j < s.len() ==> s[j] != '/',
    ensures
        rfind_slash(s) == Some(i),
    decreases s.len(),
{
    if i == s.len() - 1 {
    } else {
        lemma_rfind_slash_some(s.take(s.len() - 1), i);
    }
}

/// The working-tree directory of a git source: `<root>/repositories/<host>/`
/// followed by the URL's path stripped of leading slashes.
pub open spec fn git_directory_spec(root: Seq<char>, host: Seq<char>, path: Seq<char>) -> Seq<
    char,
> {
    join_spec(join_spec(join_spec(root, "repositories"@), host), trim_slashes_spec(path))
}

/// The download directory of a remote source: `<root>/downloads/<host>`,
/// extended with everything of the URL's path between its first and its last
/// slash.
pub open spec fn remote_directory_spec(root: Seq<char>, host: Seq<char>, path: Seq<char>) -> Seq<
    char,
> {
    let base = join_spec(join_spec(root, "downloads"@), host);
    match rfind_slash(path) {
        Some(k) => if k >= 1 {
            join_spec(base, path.subrange(1, k))
        } else {
            base
        },
        None => base,
    }
}

/// The download filename of a remote source: the URL's last path segment
/// inside the download directory, or `index` when that segment is empty.
pub open spec fn remote_filename_spec(root: Seq<char>, host: Seq<char>, path: Seq<char>) -> Seq<
    char,
> {
    let dir = remote_directory_spec(root, host, path);
    let base = match rfind_slash(path) {
        Some(k) => path.skip(k + 1),
        None => path,
    };
    join_spec(dir, if base.len() == 0 { "index"@ } else { base })
}

impl Source {
    /// Plans the installation of this source under the root directory: the
    /// concrete directory (and download filename for Remote sources) is
    /// computed here; Git and Remote URLs without a host are rejected, as are
    /// Remote URLs that cannot be a base.
    pub fn lock(&self, settings: &Settings) -> (r: Result<Install, Error>)
        ensures
            ({
                let v = self@;
                match v {
                    SourceView::Git { url, reference } => match url.host {
                        Some(host) => r matches Ok(inst) && inst matches Install::Git {
                            directory: d,
                            url: u,
                            reference: rf,
                        } && d@ == git_directory_spec(settings.root@, host, url.path) && u@
                            == url.text && opt_git_ref_view(rf) == reference,
                        None => r matches Err(e) && e matches Error::NoHost { url: u } && u@
                            == url.text,
                    },
                    SourceView::Remote { url } => match url.host {
                        Some(host) => {
                            if url.path.len() > 0 && url.path[0] == '/' {
                                r matches Ok(inst) && inst matches Install::Remote {
                                    directory: d,
                                    filename: f,
                                    url: u,
                                } && d@ == remote_directory_spec(settings.root@, host, url.path)
                                    && f@ == remote_filename_spec(settings.root@, host, url.path)
                                    && u@ == url.text
                            } else {
                                r matches Err(e) && e matches Error::NotABase { url: u } && u@
                                    == url.text
                            }
                        },
                        None => r matches Err(e) && e matches Error::NoHost { url: u } && u@
                            == url.text,
                    },
                    SourceView::Local { directory } => r matches Ok(inst) && inst
                        matches Install::Local { directory: d } && d@ == expand_tilde_spec(
                        settings.home@,
                        directory,
                    ),
                }
            }),
    {
        match self {
            Source::Git { url, reference } => match &url.host {
                None => Err(Error::NoHost { url: url.text.clone() }),
                Some(host) => {
                    let base = path_join(settings.root.as_str(), "repositories");
                    let base = path_join(base.as_str(), host.as_str());
                    let trimmed = trim_start_slashes(url.path.as_str());
                    let directory = path_join(base.as_str(), trimmed.as_str());
                    Ok(
                        Install::Git {
                            directory,
                            url: url.text.clone(),
                            reference: duplicate_opt_git_ref(reference),
                        },
                    )
                },
            },
            Source::Remote { url } => match &url.host {
                None => Err(Error::NoHost { url: url.text.clone() }),
                Some(host) => {
                    if !str_starts_with(url.path.as_str(), "/") {
                        proof {
                            reveal_strlit("/");
                            assert(!(url.path@.len() > 0 && url.path@[0] == '/')) by {
                                if url.path@.len() > 0 && url.path@[0] == '/' {
                                    assert(url.path@.take(1) =~= "/"@);
                                }
                            }
                        }
                        Err(Error::NotABase { url: url.text.clone() })
                    } else {
                        proof {
                            reveal_strlit("/");
                            assert(url.path@.len() >= 1);
                            assert(url.path@.take(1)[0] == url.path@[0]);
                        }
                        let base = path_join(settings.root.as_str(), "downloads");
                        let base = path_join(base.as_str(), host.as_str());
                        match rfind_char(url.path.as_str(), '/') {
                            None => {
                                // The path begins with `/`, so a slash is
                                // always found; keep the rejection for
                                // completeness.
                                Err(Error::NotABase { url: url.text.clone() })
                            },
                            Some(k) => {
                                proof {
                                    lemma_rfind_slash_some(url.path@, k as int);
                                }
                                let n = url.path.as_str().unicode_len();
                                let last = substring(url.path.as_str(), k + 1, n);
                                let directory = if k >= 1 {
                                    let middle = substring(url.path.as_str(), 1, k);
                                    path_join(base.as_str(), middle.as_str())
                                } else {
                                    base
                                };
                                let name = if last.as_str().unicode_len() == 0 {
                                    String::from_str("index")
                                } else {
                                    last
                                };
                                let filename = path_join(directory.as_str(), name.as_str());
                                proof {
                                    reveal_strlit("index");
                                    assert(url.path@.subrange(k + 1, url.path@.len() as int)
                                        =~= url.path@.skip(k + 1));
                                }
                                Ok(
                                    Install::Remote {
                                        directory,
                                        filename,
                                        url: url.text.clone(),
                                    },
                                )
                            },
                        }
                    }
                },
            },
            Source::Local { directory } => Ok(
                Install::Local { directory: settings.expand_tilde(directory) },
            ),
        }
    }
}

impl Install {
    /// The locked source this plan results in once performed: its directory,
    /// and for Remote plans the download filename — Git and Local plans have
    /// none.
    pub fn locked(&self) -> (r: LockedSource)
        ensures
            match *self {
                Install::Git { directory: ref d, .. } => r@.directory == d@ && r@.filename
                    is None,
                Install::Remote { directory: ref d, filename: ref f, .. } => r@.directory == d@
                    && r@.filename == Some(f@),
                Install::Local { directory: ref d } => r@.directory == d@ && r@.filename is None,
            },
    {
        match self {
            Install::Git { directory, .. } => LockedSource {
                directory: directory.clone(),
                filename: None,
            },
            Install::Remote { directory, filename, .. } => LockedSource {
                directory: directory.clone(),
                filename: Some(filename.clone()),
            },
            Install::Local { directory } => LockedSource {
                directory: directory.clone(),
                filename: None,
            },
        }
    }
}

/// Whether some locked plugin references `path` as its directory or as one of
/// its files.
pub open spec fn lc_references(lc: LockedConfigView, p: Seq<char>) -> bool {
    exists|i: int| #![trigger lc.plugins[i]]
        0 <= i < lc.plugins.len() && (lc.plugins[i].directory == p
            || lc.plugins[i].filenames.contains(p))
}

impl LockedConfig {
    /// Whether this lock may be reused under the current settings: its frozen
    /// settings agree with the current ones on every persisted field.  The
    /// caller also checks that the manifest is not newer than the lock file
    /// and that no relock was forced.
    pub fn verify(&self, settings: &Settings) -> (r: bool)
        ensures
            r == settings_match_spec(*settings, self@.settings),
    {
        settings.eq(&self.settings)
    }

    /// Whether some locked plugin references `path` as its directory or as
    /// one of its files.  Cleaning deletes what nothing references.
    #[verifier::loop_isolation(false)]
    pub fn references(&self, path: &String) -> (r: bool)
        ensures
            r == lc_references(self@, path@),
    {
        let mut i: usize = 0;
        while i < self.plugins.len()
            invariant
                i <= self.plugins@.len(),
                forall|k: int| #![trigger self@.plugins[k]]
                    0 <= k < i ==> !(self@.plugins[k].directory == path@
                        || self@.plugins[k].filenames.contains(path@)),
            decreases self.plugins@.len() - i,
        {
            let p = &self.plugins[i];
            if p.directory.eq(path) {
                proof {
                    assert(self@.plugins[i as int].directory == path@);
                    assert(lc_references(self@, path@));
                }
                return true;
            }
            let mut j: usize = 0;
            while j < p.filenames.len()
                invariant
                    j <= p.filenames@.len(),
                    forall|k: int| 0 <= k < j ==> p@.filenames[k] != path@,
                decreases p.filenames@.len() - j,
            {
                if p.filenames[j].eq(path) {
                    proof {
                        assert(self@.plugins[i as int].filenames[j as int] == path@);
                        assert(self@.plugins[i as int].filenames.contains(path@));
                        assert(lc_references(self@, path@));
                    }
                    return true;
                }
                j = j + 1;
            }
            proof {
                assert(self@.plugins[i as int].directory != path@);
                assert(!self@.plugins[i as int].filenames.contains(path@));
            }
            i = i + 1;
        }
        false
    }
}

} // verus!
