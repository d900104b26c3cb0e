use sheldon::config::{Config, GitReference, Plugin, Settings, Source, Template, Url};
use sheldon::error::Error;
use sheldon::lock::{Install, LockedConfig, LockedPlugin, LockedSettings, LockedSource};
use sheldon::{RunDecision, Sheldon};

fn create_test_settings(root: &str) -> Settings {
    Settings {
        version: String::from("0.3.0"),
        home: String::from("/"),
        root: String::from(root),
        config_file: format!("{}/config.toml", root),
        lock_file: format!("{}/config.lock", root),
        reinstall: false,
        relock: false,
    }
}

fn locked_settings(settings: &Settings) -> LockedSettings {
    LockedSettings {
        version: settings.version.clone(),
        home: settings.home.clone(),
        root: settings.root.clone(),
        config_file: settings.config_file.clone(),
        lock_file: settings.lock_file.clone(),
    }
}

fn strings(items: &[&str]) -> Vec<String> {
    items.iter().map(|s| String::from(*s)).collect()
}

#[test]
fn source_lock_git_layout() {
    let settings = create_test_settings("/tmp/x");
    let source = Source::Git {
        url: Url {
            text: String::from("https://github.com/rossmacarthur/sheldon"),
            host: Some(String::from("github.com")),
            path: String::from("/rossmacarthur/sheldon"),
        },
        reference: None,
    };
    match source.lock(&settings).unwrap() {
        Install::Git { directory, url, reference } => {
            assert_eq!(directory, String::from("/tmp/x/repositories/github.com/rossmacarthur/sheldon"));
            assert_eq!(url, String::from("https://github.com/rossmacarthur/sheldon"));
            assert!(reference.is_none());
        }
        other => panic!("unexpected plan: {:?}", other),
    }
}

#[test]
fn source_lock_remote_layout() {
    let settings = create_test_settings("/home/test");
    let source = Source::Remote {
        url: Url {
            text: String::from("https://ross.macarthur.io/test.html"),
            host: Some(String::from("ross.macarthur.io")),
            path: String::from("/test.html"),
        },
    };
    match source.lock(&settings).unwrap() {
        Install::Remote { directory, filename, url } => {
            assert_eq!(directory, String::from("/home/test/downloads/ross.macarthur.io"));
            assert_eq!(filename, String::from("/home/test/downloads/ross.macarthur.io/test.html"));
            assert_eq!(url, String::from("https://ross.macarthur.io/test.html"));
        }
        other => panic!("unexpected plan: {:?}", other),
    }
}

#[test]
fn source_lock_remote_empty_basename_is_index() {
    let settings = create_test_settings("/home/test");
    let source = Source::Remote {
        url: Url {
            text: String::from("https://ross.macarthur.io/"),
            host: Some(String::from("ross.macarthur.io")),
            path: String::from("/"),
        },
    };
    match source.lock(&settings).unwrap() {
        Install::Remote { directory, filename, .. } => {
            assert_eq!(directory, String::from("/home/test/downloads/ross.macarthur.io"));
            assert_eq!(filename, String::from("/home/test/downloads/ross.macarthur.io/index"));
        }
        other => panic!("unexpected plan: {:?}", other),
    }
}

#[test]
fn source_lock_no_host_is_an_error() {
    let settings = create_test_settings("/home/test");
    let source = Source::Git {
        url: Url {
            text: String::from("file:///plain"),
            host: None,
            path: String::from("/plain"),
        },
        reference: None,
    };
    assert!(matches!(source.lock(&settings).unwrap_err(), Error::NoHost { .. }));
}

#[test]
fn source_lock_cannot_be_a_base_is_an_error() {
    let settings = create_test_settings("/home/test");
    let source = Source::Remote {
        url: Url {
            text: String::from("mailto:someone@example.com"),
            host: Some(String::from("example.com")),
            path: String::from("someone@example.com"),
        },
    };
    assert!(matches!(source.lock(&settings).unwrap_err(), Error::NotABase { .. }));
}

#[test]
fn source_lock_local_expands_tilde() {
    let mut settings = create_test_settings("/tmp/x");
    settings.home = String::from("/home/test");
    let source = Source::Local { directory: String::from("~/plugins/demo") };
    match source.lock(&settings).unwrap() {
        Install::Local { directory } => {
            assert_eq!(directory, String::from("/home/test/plugins/demo"));
        }
        other => panic!("unexpected plan: {:?}", other),
    }
}

#[test]
fn install_locked_source_shape() {
    let git = Install::Git {
        directory: String::from("/r/d"),
        url: String::from("u"),
        reference: Some(GitReference::Tag(String::from("v1"))),
    };
    assert_eq!(
        git.locked(),
        LockedSource { directory: String::from("/r/d"), filename: None }
    );
    let remote = Install::Remote {
        directory: String::from("/r/dl"),
        filename: String::from("/r/dl/f.sh"),
        url: String::from("u"),
    };
    assert_eq!(
        remote.locked(),
        LockedSource {
            directory: String::from("/r/dl"),
            filename: Some(String::from("/r/dl/f.sh")),
        }
    );
}

fn local_plugin(name: &str, directory: &str) -> Plugin {
    Plugin {
        name: String::from(name),
        source: Source::Local { directory: String::from(directory) },
        uses: None,
        apply: None,
    }
}

#[test]
fn config_sources_deduplicates_by_value() {
    let config = Config {
        matches: strings(&[]),
        apply: strings(&[]),
        templates: Vec::new(),
        plugins: vec![
            local_plugin("a", "/p/one"),
            local_plugin("b", "/p/two"),
            local_plugin("c", "/p/one"),
        ],
    };
    let sources = config.sources();
    assert_eq!(sources.len(), 2);
    assert!(matches!(&sources[0], Source::Local { directory } if directory == "/p/one"));
    assert!(matches!(&sources[1], Source::Local { directory } if directory == "/p/two"));
}

#[test]
fn config_lock_keeps_manifest_order() {
    let settings = create_test_settings("/tmp/x");
    let config = Config {
        matches: strings(&[]),
        apply: strings(&["source"]),
        templates: Vec::new(),
        plugins: vec![
            local_plugin("a", "/p/one"),
            local_plugin("b", "/p/two"),
            local_plugin("c", "/p/one"),
        ],
    };
    let sources = config.sources();
    let installed: Vec<Result<LockedSource, Error>> = sources
        .iter()
        .map(|s| s.lock(&settings).map(|plan| plan.locked()))
        .collect();
    let locked = config.lock(&settings, &sources, &installed).unwrap();
    let names: Vec<&str> = locked.plugins.iter().map(|p| p.name.as_str()).collect();
    assert_eq!(names, vec!["a", "b", "c"]);
    assert_eq!(locked.plugins[0].directory, String::from("/p/one"));
    assert_eq!(locked.plugins[2].directory, String::from("/p/one"));
    assert_eq!(locked.plugins[1].apply, vec![String::from("source")]);
    assert!(locked.errors.is_empty());
}

#[test]
fn config_lock_first_failed_source_fails_the_lock() {
    let settings = create_test_settings("/tmp/x");
    let config = Config {
        matches: strings(&[]),
        apply: strings(&[]),
        templates: Vec::new(),
        plugins: vec![local_plugin("a", "/p/one")],
    };
    let sources = config.sources();
    let installed: Vec<Result<LockedSource, Error>> = vec![Err(Error::LocalMissing {
        directory: String::from("/p/one"),
    })];
    let err = config.lock(&settings, &sources, &installed).unwrap_err();
    assert!(matches!(err, Error::LocalMissing { .. }));
}

#[test]
fn verifier_compares_every_settings_field() {
    let settings = create_test_settings("/tmp/x");
    let lc = LockedConfig {
        settings: locked_settings(&settings),
        templates: Vec::new(),
        plugins: Vec::new(),
        errors: Vec::new(),
    };
    assert!(lc.verify(&settings));
    let mut other = settings.clone();
    other.root = String::from("/tmp/y");
    assert!(!lc.verify(&other));
    let mut other = settings.clone();
    other.version = String::from("0.3.1");
    assert!(!lc.verify(&other));
}

#[test]
fn run_reuses_only_a_matching_lock() {
    let settings = create_test_settings("/tmp/x");
    let lc = LockedConfig {
        settings: locked_settings(&settings),
        templates: Vec::new(),
        plugins: Vec::new(),
        errors: Vec::new(),
    };
    assert_eq!(Sheldon::run(&settings, Some(&lc), false), RunDecision::Reuse);
    assert_eq!(Sheldon::run(&settings, Some(&lc), true), RunDecision::Relock);
    assert_eq!(Sheldon::run(&settings, None, false), RunDecision::Relock);
    let mut forced = settings.clone();
    forced.relock = true;
    assert_eq!(Sheldon::run(&forced, Some(&lc), false), RunDecision::Relock);
    let mut other = settings.clone();
    other.lock_file = String::from("/tmp/x/other.lock");
    assert_eq!(Sheldon::run(&other, Some(&lc), false), RunDecision::Relock);
}

fn sample_locked_config() -> LockedConfig {
    LockedConfig {
        settings: LockedSettings {
            version: String::from("0.3.0"),
            home: String::from("/home/te\"st"),
            root: String::from("/home/test/.zsh"),
            config_file: String::from("/home/test/.zsh/plugins.toml"),
            lock_file: String::from("/home/test/.zsh/plugins.lock"),
        },
        templates: vec![
            (
                String::from("source"),
                Template { value: String::from("source \"{{ directory }}/*.sh\"\nextra"), each: false },
            ),
            (
                String::from("PATH"),
                Template { value: String::from("path\\with\\backslashes\ttabbed"), each: true },
            ),
        ],
        plugins: vec![
            LockedPlugin {
                name: String::from("pl-\u{e9}\u{4e2d}"),
                directory: String::from("/home/test/.zsh/repositories/github.com/a/b"),
                filenames: vec![String::from("a.sh"), String::from("b \"quoted\".sh")],
                apply: vec![String::from("source"), String::from("PATH")],
            },
            LockedPlugin {
                name: String::from("empty"),
                directory: String::from("/d"),
                filenames: Vec::new(),
                apply: Vec::new(),
            },
        ],
        errors: Vec::new(),
    }
}

#[test]
fn lock_store_round_trips() {
    let lc = sample_locked_config();
    let text = lc.serialize();
    let parsed = LockedConfig::parse(text.as_str()).unwrap();
    assert_eq!(parsed, lc);
}

#[test]
fn lock_store_rejects_garbage() {
    assert!(matches!(
        LockedConfig::parse("not a lock file"),
        Err(Error::LockCorrupt { .. })
    ));
    assert!(matches!(
        LockedConfig::parse(""),
        Err(Error::LockCorrupt { .. })
    ));
}

#[test]
fn script_renders_once_per_plugin() {
    let settings = create_test_settings("/home/test");
    let lc = LockedConfig {
        settings: locked_settings(&settings),
        templates: vec![(
            String::from("source"),
            Template {
                value: String::from("source \"{{ directory }}/{{ name }}.sh\""),
                each: false,
            },
        )],
        plugins: vec![LockedPlugin {
            name: String::from("test"),
            directory: String::from("/home/test/repositories/github.com/rossmacarthur/sheldon"),
            filenames: Vec::new(),
            apply: vec![String::from("source")],
        }],
        errors: Vec::new(),
    };
    assert_eq!(
        lc.source().unwrap(),
        String::from(
            "source \"/home/test/repositories/github.com/rossmacarthur/sheldon/test.sh\"\n"
        )
    );
}

#[test]
fn script_renders_once_per_filename() {
    let settings = create_test_settings("/home/test");
    let lc = LockedConfig {
        settings: locked_settings(&settings),
        templates: vec![(
            String::from("source"),
            Template { value: String::from("source \"{{ filename }}\""), each: true },
        )],
        plugins: vec![LockedPlugin {
            name: String::from("test"),
            directory: String::from("/d"),
            filenames: vec![String::from("/d/a.sh"), String::from("/d/b.sh")],
            apply: vec![String::from("source")],
        }],
        errors: Vec::new(),
    };
    assert_eq!(
        lc.source().unwrap(),
        String::from("source \"/d/a.sh\"\nsource \"/d/b.sh\"\n")
    );
}

#[test]
fn script_strict_mode_fails_on_undefined_variable() {
    let settings = create_test_settings("/home/test");
    let lc = LockedConfig {
        settings: locked_settings(&settings),
        templates: vec![(
            String::from("bad"),
            Template { value: String::from("echo {{ undefined_variable }}"), each: false },
        )],
        plugins: vec![LockedPlugin {
            name: String::from("test"),
            directory: String::from("/d"),
            filenames: Vec::new(),
            apply: vec![String::from("bad")],
        }],
        errors: Vec::new(),
    };
    assert!(matches!(lc.source().unwrap_err(), Error::TemplateRender { .. }));
}

#[test]
fn script_unknown_apply_name_fails() {
    let settings = create_test_settings("/home/test");
    let lc = LockedConfig {
        settings: locked_settings(&settings),
        templates: Vec::new(),
        plugins: vec![LockedPlugin {
            name: String::from("test"),
            directory: String::from("/d"),
            filenames: Vec::new(),
            apply: vec![String::from("missing")],
        }],
        errors: Vec::new(),
    };
    assert!(matches!(lc.source().unwrap_err(), Error::TemplateRender { .. }));
}

#[test]
fn script_bad_template_fails_to_compile() {
    let settings = create_test_settings("/home/test");
    let lc = LockedConfig {
        settings: locked_settings(&settings),
        templates: vec![(
            String::from("broken"),
            Template { value: String::from("{{#if}}"), each: false },
        )],
        plugins: Vec::new(),
        errors: Vec::new(),
    };
    assert!(matches!(lc.source().unwrap_err(), Error::TemplateCompile { .. }));
}

#[test]
fn references_knows_what_the_lock_uses() {
    let lc = sample_locked_config();
    assert!(lc.references(&String::from("/home/test/.zsh/repositories/github.com/a/b")));
    assert!(lc.references(&String::from("a.sh")));
    assert!(!lc.references(&String::from("/somewhere/else")));
}

#[test]
fn expand_tilde_resolves_against_home() {
    let mut settings = create_test_settings("/tmp/x");
    settings.home = String::from("/home/test");
    assert_eq!(settings.expand_tilde(&String::from("~")), String::from("/home/test"));
    assert_eq!(
        settings.expand_tilde(&String::from("~/plugins")),
        String::from("/home/test/plugins")
    );
    assert_eq!(settings.expand_tilde(&String::from("/abs/path")), String::from("/abs/path"));
    assert_eq!(settings.expand_tilde(&String::from("rel~ative")), String::from("rel~ative"));
}

#[test]
fn config_sources_distinguishes_references() {
    let url = || Url {
        text: String::from("https://github.com/rossmacarthur/sheldon"),
        host: Some(String::from("github.com")),
        path: String::from("/rossmacarthur/sheldon"),
    };
    let config = Config {
        matches: strings(&[]),
        apply: strings(&[]),
        templates: Vec::new(),
        plugins: vec![
            Plugin {
                name: String::from("a"),
                source: Source::Git { url: url(), reference: Some(GitReference::Tag(String::from("v1"))) },
                uses: None,
                apply: None,
            },
            Plugin {
                name: String::from("b"),
                source: Source::Git { url: url(), reference: Some(GitReference::Tag(String::from("v2"))) },
                uses: None,
                apply: None,
            },
            Plugin {
                name: String::from("c"),
                source: Source::Git { url: url(), reference: Some(GitReference::Tag(String::from("v1"))) },
                uses: None,
                apply: None,
            },
        ],
    };
    assert_eq!(config.sources().len(), 2);
}

#[test]
fn source_lock_local_yields_directory_only() {
    let temp = tempfile::tempdir().unwrap();
    let root = temp.path().to_str().unwrap().to_string();
    let directory = format!("{}/pyenv", root);
    let settings = create_test_settings(&root);
    let source = Source::Local { directory: directory.clone() };
    let plan = source.lock(&settings).unwrap();
    assert!(matches!(&plan, Install::Local { directory: d } if *d == directory));
    assert_eq!(
        plan.locked(),
        LockedSource { directory: directory.clone(), filename: None }
    );
}

#[test]
fn config_lock_empty_manifest_succeeds() {
    let settings = create_test_settings("/tmp/x");
    let config = Config {
        matches: strings(&[]),
        apply: strings(&[]),
        templates: Vec::new(),
        plugins: Vec::new(),
    };
    let sources = config.sources();
    assert!(sources.is_empty());
    let installed: Vec<Result<LockedSource, Error>> = Vec::new();
    let locked = config.lock(&settings, &sources, &installed).unwrap();
    assert!(locked.plugins.is_empty());
    assert!(locked.errors.is_empty());
}
