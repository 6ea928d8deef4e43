use repo_sweep::scan::{
    artifact_kind, base_name_of, check_scan_root, classify_all, classify_file, error_page_in,
    is_hidden, is_scan_candidate, worker_count, ArtifactKind, FileProbe, ScannedFile,
};

fn file(folder: &str, name: &str, probe: FileProbe) -> ScannedFile {
    ScannedFile { folder: folder.to_string(), file_name: name.to_string(), probe }
}

fn names(parts: &[&str]) -> Vec<String> {
    parts.iter().map(|p| p.to_string()).collect()
}

#[test]
fn base_name_strips_package_suffix() {
    assert_eq!(base_name_of("foo-1.0.jar"), "foo-1.0");
}

#[test]
fn base_name_strips_descriptor_suffix() {
    assert_eq!(base_name_of("foo-1.0.pom"), "foo-1.0");
}

#[test]
fn base_name_keeps_other_names() {
    assert_eq!(base_name_of("foo-1.0.jar.sha1"), "foo-1.0.jar.sha1");
    assert_eq!(base_name_of(".jar"), ".jar");
}

#[test]
fn kinds_by_extension() {
    assert_eq!(artifact_kind("a-1.jar"), Some(ArtifactKind::Package));
    assert_eq!(artifact_kind("a-1.pom"), Some(ArtifactKind::Descriptor));
    assert_eq!(artifact_kind("a-1.jar.sha1"), None);
    assert_eq!(artifact_kind("a-1.JAR"), None);
    assert_eq!(artifact_kind(".pom"), None);
    assert_eq!(artifact_kind("..pom"), Some(ArtifactKind::Descriptor));
}

#[test]
fn hidden_names() {
    assert!(is_hidden(".git"));
    assert!(is_hidden("."));
    assert!(!is_hidden("org"));
    assert!(!is_hidden(""));
}

#[test]
fn hidden_directory_is_not_scanned() {
    assert!(!is_scan_candidate(&names(&["repository", ".cache", "foo-1.0.jar"])));
    assert!(!is_scan_candidate(&names(&["repository", "org", ".index", "x", "foo-1.0.pom"])));
    assert!(is_scan_candidate(&names(&["repository", "org", "foo-1.0.jar"])));
}

#[test]
fn only_artifact_files_are_candidates() {
    assert!(!is_scan_candidate(&names(&["repository", "org", "foo-1.0.jar.sha1"])));
    assert!(!is_scan_candidate(&names(&["repository", "org", ".jar"])));
    assert!(!is_scan_candidate(&Vec::new()));
}

#[test]
fn small_package_is_flagged() {
    let a = classify_file(&file("/r/g/a/1.0", "a-1.0.jar", FileProbe::Size(1023))).unwrap();
    assert_eq!(a.folder, "/r/g/a/1.0");
    assert_eq!(a.base_name, "a-1.0");
    assert_eq!(a.reason, "JAR file smaller than 1024 bytes");
    assert!(classify_file(&file("/r", "a-1.0.jar", FileProbe::Size(0))).is_some());
}

#[test]
fn package_at_threshold_is_valid() {
    assert!(classify_file(&file("/r", "a-1.0.jar", FileProbe::Size(1024))).is_none());
    assert!(classify_file(&file("/r", "a-1.0.jar", FileProbe::Size(50_000))).is_none());
}

#[test]
fn unreadable_files_are_valid() {
    assert!(classify_file(&file("/r", "a-1.0.jar", FileProbe::Unreadable)).is_none());
    assert!(classify_file(&file("/r", "a-1.0.pom", FileProbe::Unreadable)).is_none());
}

#[test]
fn error_page_descriptor_is_flagged() {
    for text in [
        "<!DOCTYPE html><html></html>",
        "<html><head><title>Harbor</title></head></html>",
        "please Login to Harbor first",
    ] {
        let a = classify_file(&file("/r/x", "x-2.pom", FileProbe::Content(text.to_string()))).unwrap();
        assert_eq!(a.base_name, "x-2");
        assert_eq!(a.folder, "/r/x");
        assert_eq!(a.reason, "POM file holding a Harbor error page");
    }
}

#[test]
fn genuine_descriptor_is_valid() {
    let pom = "<?xml version=\"1.0\"?><project><modelVersion>4.0.0</modelVersion></project>";
    assert!(classify_file(&file("/r", "x-2.pom", FileProbe::Content(pom.to_string()))).is_none());
    assert!(classify_file(&file("/r", "x-2.pom", FileProbe::Content(String::new()))).is_none());
}

#[test]
fn marker_after_preview_is_ignored() {
    let mut late = "é".repeat(1024);
    late.push_str("<!DOCTYPE html>");
    assert!(!error_page_in(&late));
    let mut straddling = "a".repeat(1020);
    straddling.push_str("<!DOCTYPE html>");
    assert!(!error_page_in(&straddling));
    let mut inside = "é".repeat(1009);
    inside.push_str("<!DOCTYPE html>");
    assert!(error_page_in(&inside));
}

#[test]
fn kind_decides_which_check_applies() {
    assert!(classify_file(&file("/r", "a.jar", FileProbe::Content("<!DOCTYPE html>".to_string()))).is_none());
    assert!(classify_file(&file("/r", "a.pom", FileProbe::Size(3))).is_none());
    assert!(classify_file(&file("/r", "a.txt", FileProbe::Size(3))).is_none());
}

#[test]
fn empty_scan_gives_empty_list() {
    assert!(classify_all(&Vec::new()).is_empty());
}

#[test]
fn same_base_in_both_kinds_gives_two_records() {
    let files = vec![
        file("/r/a", "a-1.jar", FileProbe::Size(10)),
        file("/r/a", "a-1.pom", FileProbe::Content("<!DOCTYPE html>".to_string())),
        file("/r/b", "b-1.jar", FileProbe::Size(4096)),
        file("/r/b", "b-1.pom", FileProbe::Content("<project/>".to_string())),
    ];
    let out = classify_all(&files);
    assert_eq!(out.len(), 2);
    assert!(out.iter().all(|a| a.folder == "/r/a" && a.base_name == "a-1"));
    assert!(out.iter().any(|a| a.reason == "JAR file smaller than 1024 bytes"));
    assert!(out.iter().any(|a| a.reason == "POM file holding a Harbor error page"));
}

#[test]
fn packages_flagged_exactly_when_small() {
    let sizes = [0u64, 1, 512, 1023, 1024, 1025, 1 << 40];
    let files: Vec<ScannedFile> = sizes
        .iter()
        .enumerate()
        .map(|(i, s)| file("/r", &format!("p{}.jar", i), FileProbe::Size(*s)))
        .collect();
    let out = classify_all(&files);
    for (i, s) in sizes.iter().enumerate() {
        let base = format!("p{}", i);
        assert_eq!(*s < 1024, out.iter().any(|a| a.base_name == base));
    }
}

#[test]
fn missing_root_is_an_error() {
    assert_eq!(
        check_scan_root("/no/such/dir", false, false),
        Err("repository path does not exist: /no/such/dir".to_string())
    );
}

#[test]
fn file_root_is_an_error() {
    assert_eq!(
        check_scan_root("/etc/hosts", true, false),
        Err("path is not a directory: /etc/hosts".to_string())
    );
}

#[test]
fn directory_root_is_accepted() {
    assert_eq!(check_scan_root("/r", true, true), Ok(()));
}

#[test]
fn pool_is_four_per_processor() {
    assert_eq!(worker_count(1), 4);
    assert_eq!(worker_count(8), 32);
    assert_eq!(worker_count(0), 0);
}

#[test]
fn hidden_file_in_visible_directory_is_scanned() {
    assert!(is_scan_candidate(&names(&["repository", "org", ".foo.jar"])));
    assert!(is_scan_candidate(&names(&["repository", "org", ".x-1.0.pom"])));
    let a = classify_file(&file("/r/org", ".x-1.0.jar", FileProbe::Size(0))).unwrap();
    assert_eq!(a.base_name, ".x-1.0");
    assert_eq!(a.reason, "JAR file smaller than 1024 bytes");
    let d = classify_file(&file("/r/org", ".x-1.0.pom", FileProbe::Content("<!DOCTYPE html>".to_string()))).unwrap();
    assert_eq!(d.base_name, ".x-1.0");
}

#[test]
fn hidden_root_is_not_scanned() {
    assert!(!is_scan_candidate(&names(&[".m2", "org", "foo-1.0.jar"])));
}
