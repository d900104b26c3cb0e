use std::path::{Path, PathBuf};

use sheldon::config::{Plugin, Settings, Source, Url};
use sheldon::lock::LockedSource;

fn make_dir(parent: &Path, name: &str) -> PathBuf {
    let dir = tempfile::Builder::new()
        .prefix(name)
        .rand_bytes(0)
        .keep(true)
        .tempdir_in(parent)
        .unwrap();
    dir.path().to_path_buf()
}

fn make_dirs(parent: &Path, names: &[&str]) -> PathBuf {
    let mut dir = parent.to_path_buf();
    for name in names {
        dir = make_dir(&dir, name);
    }
    dir
}

fn touch(dir: &Path, name: &str) {
    tempfile::Builder::new()
        .prefix(name)
        .rand_bytes(0)
        .keep(true)
        .tempfile_in(dir)
        .unwrap();
}

fn create_test_settings(root: &str) -> Settings {
    Settings {
        version: String::from("0.3.0"),
        home: String::from("/"),
        root: String::from(root),
        config_file: format!("{}/config.toml", root),
        lock_file: format!("{}/config.lock", root),
        reinstall: false,
        relock: false,
    }
}

fn github_url() -> Url {
    Url {
        text: String::from("https://github.com/rossmacarthur/sheldon"),
        host: Some(String::from("github.com")),
        path: String::from("/rossmacarthur/sheldon"),
    }
}

fn strings(items: &[&str]) -> Vec<String> {
    items.iter().map(|s| String::from(*s)).collect()
}

#[test]
fn plugin_lock_git_with_uses() {
    let temp = tempfile::tempdir().unwrap();
    let root = temp.path().to_str().unwrap().to_string();
    let dir = make_dirs(temp.path(), &["repositories", "github.com", "rossmacarthur", "sheldon"]);
    touch(&dir, "1.txt");
    touch(&dir, "2.txt");
    touch(&dir, "test.html");
    let directory = dir.to_str().unwrap().to_string();

    let plugin = Plugin {
        name: String::from("test"),
        source: Source::Git { url: github_url(), reference: None },
        uses: Some(strings(&["*.txt", "{{ name }}.html"])),
        apply: None,
    };
    let locked = plugin
        .lock(
            &create_test_settings(&root),
            LockedSource { directory: directory.clone(), filename: None },
            &strings(&[]),
            &strings(&["hello"]),
        )
        .unwrap();

    assert_eq!(locked.name, String::from("test"));
    assert_eq!(locked.directory, directory);
    assert_eq!(
        locked.filenames,
        vec![
            format!("{}/1.txt", directory),
            format!("{}/2.txt", directory),
            format!("{}/test.html", directory),
        ]
    );
    assert_eq!(locked.apply, vec![String::from("hello")]);
}

#[test]
fn plugin_lock_git_with_matches() {
    let temp = tempfile::tempdir().unwrap();
    let root = temp.path().to_str().unwrap().to_string();
    let dir = make_dirs(temp.path(), &["repositories", "github.com", "rossmacarthur", "sheldon"]);
    touch(&dir, "1.txt");
    touch(&dir, "2.txt");
    touch(&dir, "test.html");
    let directory = dir.to_str().unwrap().to_string();

    let plugin = Plugin {
        name: String::from("test"),
        source: Source::Git { url: github_url(), reference: None },
        uses: None,
        apply: None,
    };
    let locked = plugin
        .lock(
            &create_test_settings(&root),
            LockedSource { directory: directory.clone(), filename: None },
            &strings(&["*.txt", "test.html"]),
            &strings(&["hello"]),
        )
        .unwrap();

    assert_eq!(locked.name, String::from("test"));
    assert_eq!(locked.directory, directory);
    assert_eq!(
        locked.filenames,
        vec![format!("{}/1.txt", directory), format!("{}/2.txt", directory)]
    );
    assert_eq!(locked.apply, vec![String::from("hello")]);
}

#[test]
fn plugin_lock_remote() {
    let plugin = Plugin {
        name: String::from("test"),
        source: Source::Remote {
            url: Url {
                text: String::from("https://ross.macarthur.io/test.html"),
                host: Some(String::from("ross.macarthur.io")),
                path: String::from("/test.html"),
            },
        },
        uses: None,
        apply: None,
    };
    let locked = plugin
        .lock(
            &create_test_settings("/home/test"),
            LockedSource {
                directory: String::from("/home/test/downloads/ross.macarthur.io"),
                filename: Some(String::from("/home/test/downloads/ross.macarthur.io/test.html")),
            },
            &strings(&[]),
            &strings(&["hello"]),
        )
        .unwrap();

    assert_eq!(locked.name, String::from("test"));
    assert_eq!(locked.directory, String::from("/home/test/downloads/ross.macarthur.io"));
    assert_eq!(
        locked.filenames,
        vec![String::from("/home/test/downloads/ross.macarthur.io/test.html")]
    );
    assert_eq!(locked.apply, vec![String::from("hello")]);
}

#[test]
fn plugin_lock_remote_ignores_uses_and_matches() {
    let plugin = Plugin {
        name: String::from("test"),
        source: Source::Remote {
            url: Url {
                text: String::from("https://ross.macarthur.io/test.html"),
                host: Some(String::from("ross.macarthur.io")),
                path: String::from("/test.html"),
            },
        },
        uses: Some(strings(&["*.txt"])),
        apply: None,
    };
    let locked = plugin
        .lock(
            &create_test_settings("/home/test"),
            LockedSource {
                directory: String::from("/home/test/downloads/ross.macarthur.io"),
                filename: Some(String::from("/home/test/downloads/ross.macarthur.io/test.html")),
            },
            &strings(&["*.html"]),
            &strings(&[]),
        )
        .unwrap();

    assert_eq!(
        locked.filenames,
        vec![String::from("/home/test/downloads/ross.macarthur.io/test.html")]
    );
}

#[test]
fn plugin_lock_uses_no_files_matched() {
    let temp = tempfile::tempdir().unwrap();
    let root = temp.path().to_str().unwrap().to_string();
    let dir = make_dirs(temp.path(), &["plugins", "demo"]);
    let directory = dir.to_str().unwrap().to_string();

    let plugin = Plugin {
        name: String::from("demo"),
        source: Source::Local { directory: directory.clone() },
        uses: Some(strings(&["*.zsh"])),
        apply: None,
    };
    let err = plugin
        .lock(
            &create_test_settings(&root),
            LockedSource { directory: directory.clone(), filename: None },
            &strings(&[]),
            &strings(&[]),
        )
        .unwrap_err();
    assert!(matches!(err, sheldon::error::Error::NoFilesMatched { .. }));
}

#[test]
fn plugin_lock_uses_undefined_variable_fails() {
    let temp = tempfile::tempdir().unwrap();
    let root = temp.path().to_str().unwrap().to_string();
    let dir = make_dirs(temp.path(), &["plugins", "demo"]);
    let directory = dir.to_str().unwrap().to_string();

    let plugin = Plugin {
        name: String::from("demo"),
        source: Source::Local { directory: directory.clone() },
        uses: Some(strings(&["{{ wat }}.zsh"])),
        apply: None,
    };
    let err = plugin
        .lock(
            &create_test_settings(&root),
            LockedSource { directory: directory.clone(), filename: None },
            &strings(&[]),
            &strings(&[]),
        )
        .unwrap_err();
    assert!(matches!(err, sheldon::error::Error::TemplateRender { .. }));
}

#[test]
fn plugin_lock_matches_all_miss_is_empty() {
    let temp = tempfile::tempdir().unwrap();
    let root = temp.path().to_str().unwrap().to_string();
    let dir = make_dirs(temp.path(), &["plugins", "demo"]);
    let directory = dir.to_str().unwrap().to_string();

    let plugin = Plugin {
        name: String::from("demo"),
        source: Source::Local { directory: directory.clone() },
        uses: None,
        apply: None,
    };
    let locked = plugin
        .lock(
            &create_test_settings(&root),
            LockedSource { directory: directory.clone(), filename: None },
            &strings(&["*.zsh", "*.sh"]),
            &strings(&[]),
        )
        .unwrap();
    assert!(locked.filenames.is_empty());
}

#[test]
fn plugin_lock_own_apply_overrides_global() {
    let temp = tempfile::tempdir().unwrap();
    let root = temp.path().to_str().unwrap().to_string();
    let dir = make_dirs(temp.path(), &["plugins", "demo"]);
    let directory = dir.to_str().unwrap().to_string();

    let plugin = Plugin {
        name: String::from("demo"),
        source: Source::Local { directory: directory.clone() },
        uses: None,
        apply: Some(strings(&["fpath"])),
    };
    let locked = plugin
        .lock(
            &create_test_settings(&root),
            LockedSource { directory: directory.clone(), filename: None },
            &strings(&[]),
            &strings(&["source"]),
        )
        .unwrap();
    assert_eq!(locked.apply, vec![String::from("fpath")]);
}

#[test]
fn plugin_lock_empty_uses_is_empty() {
    let plugin = Plugin {
        name: String::from("demo"),
        source: Source::Local { directory: String::from("/p/demo") },
        uses: Some(strings(&[])),
        apply: None,
    };
    let locked = plugin
        .lock(
            &create_test_settings("/tmp/x"),
            LockedSource { directory: String::from("/p/demo"), filename: None },
            &strings(&["*.zsh"]),
            &strings(&[]),
        )
        .unwrap();
    assert!(locked.filenames.is_empty());
}
