use std::path::Path;

use sheldon::config::{GitReference, Source};

fn touch(dir: &Path, name: &str) {
    tempfile::Builder::new()
        .prefix(name)
        .rand_bytes(0)
        .keep(true)
        .tempfile_in(dir)
        .unwrap();
}

fn git_create_test_repo(directory: &Path) -> git2::Repository {
    let mut opts = git2::RepositoryInitOptions::new();
    opts.initial_head("master");
    let repo = git2::Repository::init_opts(directory, &opts).unwrap();
    touch(directory, "test.txt");
    let sig = git2::Signature::now("test", "test@example.com").unwrap();
    let tree_id = {
        let mut index = repo.index().unwrap();
        index.add_path(Path::new("test.txt")).unwrap();
        index.write().unwrap();
        index.write_tree().unwrap()
    };
    {
        let tree = repo.find_tree(tree_id).unwrap();
        repo.commit(Some("HEAD"), &sig, &sig, "Initial commit", &tree, &[]).unwrap();
    }
    {
        let head = repo.head().unwrap().target().unwrap();
        let obj = repo.find_object(head, None).unwrap();
        repo.tag_lightweight("derp", &obj, false).unwrap();
    }
    repo
}

fn git_get_last_commit(repo: &git2::Repository) -> String {
    repo.head().unwrap().target().unwrap().to_string()
}

#[test]
fn git_reference_lock_tag() {
    let temp = tempfile::tempdir().unwrap();
    let repo = git_create_test_repo(temp.path());
    let hash = git_get_last_commit(&repo);

    let reference = GitReference::Tag("derp".to_string());
    let locked = reference.lock(&repo).unwrap();

    assert_eq!(locked.0, hash);
}

#[test]
fn git_reference_lock_branch() {
    let temp = tempfile::tempdir().unwrap();
    let repo = git_create_test_repo(temp.path());
    let hash = git_get_last_commit(&repo);

    let reference = GitReference::Branch("master".to_string());
    let locked = reference.lock(&repo).unwrap();

    assert_eq!(locked.0, hash);
}

#[test]
fn git_reference_lock_revision() {
    let temp = tempfile::tempdir().unwrap();
    let repo = git_create_test_repo(temp.path());
    let hash = git_get_last_commit(&repo);

    let reference = GitReference::Revision(hash.clone());
    let locked = reference.lock(&repo).unwrap();

    assert_eq!(locked.0, hash);
}

#[test]
fn git_reference_lock_stable_across_kinds() {
    let temp = tempfile::tempdir().unwrap();
    let repo = git_create_test_repo(temp.path());
    let hash = git_get_last_commit(&repo);

    let by_branch = GitReference::Branch("master".to_string()).lock(&repo).unwrap();
    let by_tag = GitReference::Tag("derp".to_string()).lock(&repo).unwrap();
    let by_revision = GitReference::Revision(hash.clone()).lock(&repo).unwrap();

    assert_eq!(by_branch.0, hash);
    assert_eq!(by_tag.0, hash);
    assert_eq!(by_revision.0, hash);
    let again = GitReference::Tag("derp".to_string()).lock(&repo).unwrap();
    assert_eq!(again.0, by_tag.0);
}

#[test]
fn git_reference_lock_missing_is_not_found() {
    let temp = tempfile::tempdir().unwrap();
    let repo = git_create_test_repo(temp.path());

    let err = GitReference::Branch("nope".to_string()).lock(&repo).unwrap_err();
    assert!(matches!(err, sheldon::error::Error::ReferenceNotFound { .. }));
    let err = GitReference::Tag("nope".to_string()).lock(&repo).unwrap_err();
    assert!(matches!(err, sheldon::error::Error::ReferenceNotFound { .. }));
}

#[test]
fn source_lock_git_clones_and_pins_locally() {
    let upstream = tempfile::tempdir().unwrap();
    let repo = git_create_test_repo(upstream.path());
    let hash = git_get_last_commit(&repo);

    let clone_dir = tempfile::tempdir().unwrap();
    let directory = clone_dir.path().join("clone").to_str().unwrap().to_string();
    let url = upstream.path().to_str().unwrap().to_string();

    let locked = Source::lock_git(
        &directory,
        &url,
        &Some(GitReference::Tag("derp".to_string())),
    )
    .unwrap();
    assert_eq!(locked.directory, directory);
    assert_eq!(locked.filename, None);

    let cloned = git2::Repository::open(&directory).unwrap();
    assert_eq!(cloned.head().unwrap().target().unwrap().to_string(), hash);
    assert!(Path::new(&directory).join("test.txt").exists());

    // Installing again converges on the same locked source.
    let again = Source::lock_git(&directory, &url, &None).unwrap();
    assert_eq!(again.directory, directory);
    assert_eq!(again.filename, None);
}
