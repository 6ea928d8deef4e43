use repo_sweep::clean::{files_for_item, files_to_delete, is_metadata_file, should_delete, FolderListing};
use repo_sweep::{CleanItem, CleanResult};

fn names(parts: &[&str]) -> Vec<String> {
    parts.iter().map(|p| p.to_string()).collect()
}

fn folder() -> Vec<String> {
    names(&[
        "foo-1.0.jar",
        "foo-1.0.jar.sha1",
        "bar-1.0.jar",
        "_remote.repositories",
        "_maven.repositories",
        "resolver-status.properties",
    ])
}

#[test]
fn prefix_and_metadata_are_deleted() {
    let item = CleanItem { folder: "/r/foo/1.0".to_string(), base_name: "foo-1.0".to_string() };
    let doomed = files_to_delete(&folder(), &item.base_name);
    assert_eq!(
        doomed,
        names(&[
            "foo-1.0.jar",
            "foo-1.0.jar.sha1",
            "_remote.repositories",
            "_maven.repositories",
            "resolver-status.properties",
        ])
    );
    let mut result = CleanResult::new();
    for _ in &doomed {
        result.record_deletion();
    }
    assert_eq!(result.deleted_count, 5);
    assert!(result.errors.is_empty());
}

#[test]
fn second_clean_finds_nothing() {
    let first = files_to_delete(&folder(), "foo-1.0");
    let left: Vec<String> = folder().into_iter().filter(|n| !first.contains(n)).collect();
    assert_eq!(left, names(&["bar-1.0.jar"]));
    assert!(files_to_delete(&left, "foo-1.0").is_empty());
}

#[test]
fn prefix_match_needs_no_separator() {
    assert!(should_delete("foo-1.0.sha1", "foo-1.0"));
    assert!(should_delete("foo-1.0.jar.asc", "foo-1.0"));
    assert!(should_delete("foo-1.01.jar", "foo-1.0"));
    assert!(!should_delete("Foo-1.0.jar", "foo-1.0"));
    assert!(!should_delete("xfoo-1.0.jar", "foo-1.0"));
}

#[test]
fn metadata_names_are_exact() {
    assert!(is_metadata_file("_remote.repositories"));
    assert!(is_metadata_file("_maven.repositories"));
    assert!(is_metadata_file("resolver-status.properties"));
    assert!(!is_metadata_file("_remote.repositories.bak"));
    assert!(!is_metadata_file("maven-metadata.xml"));
}

#[test]
fn errors_accumulate_in_order() {
    let mut result = CleanResult::new();
    result.record_error("first".to_string());
    result.record_deletion();
    result.record_error("second".to_string());
    assert_eq!(result.deleted_count, 1);
    assert_eq!(result.errors, names(&["first", "second"]));
}

#[test]
fn deletion_count_saturates() {
    let mut result = CleanResult { deleted_count: usize::MAX, errors: Vec::new() };
    result.record_deletion();
    assert_eq!(result.deleted_count, usize::MAX);
}

#[test]
fn missing_folder_is_already_clean() {
    let mut result = CleanResult::new();
    assert!(files_for_item(&mut result, FolderListing::Missing, "foo-1.0").is_empty());
    assert_eq!(result.deleted_count, 0);
    assert!(result.errors.is_empty());
}

#[test]
fn unreadable_folder_adds_one_error() {
    let mut result = CleanResult::new();
    let listing = FolderListing::Unreadable("cannot read directory /r: denied".to_string());
    assert!(files_for_item(&mut result, listing, "foo-1.0").is_empty());
    assert_eq!(result.errors, names(&["cannot read directory /r: denied"]));
    assert_eq!(result.deleted_count, 0);
}

#[test]
fn listed_folder_gives_selection() {
    let mut result = CleanResult::new();
    let doomed = files_for_item(&mut result, FolderListing::Entries(folder()), "bar-1.0");
    assert_eq!(
        doomed,
        names(&["bar-1.0.jar", "_remote.repositories", "_maven.repositories", "resolver-status.properties"])
    );
    assert_eq!(result.deleted_count, 0);
}

#[test]
fn outcomes_are_counted() {
    let mut result = CleanResult::new();
    result.record_outcome(Ok(()));
    result.record_outcome(Err("failed to delete /r/a.jar: busy".to_string()));
    result.record_outcome(Ok(()));
    assert_eq!(result.deleted_count, 2);
    assert_eq!(result.errors, names(&["failed to delete /r/a.jar: busy"]));
}
