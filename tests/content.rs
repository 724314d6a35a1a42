use skills_man::archive::ArchiveFilter;
use skills_man::checksum::{hashed_input, render_checksum, sort_files};
use skills_man::{calculate_checksum, ensure_skill_manifest, ContentItem, EntryKind, FileContent, SkillsError};

fn file(path: &str, contents: &[u8]) -> FileContent {
    FileContent { relative_path: path.as_bytes().to_vec(), contents: contents.to_vec() }
}

#[test]
fn checksum_is_stable_and_tagged() {
    let a = calculate_checksum(vec![file("file1.txt", b"content1"), file("file2.txt", b"content2")]);
    let b = calculate_checksum(vec![file("file1.txt", b"content1"), file("file2.txt", b"content2")]);
    assert_eq!(a, b);
    assert!(a.starts_with("sha256:"));
    assert_eq!(a.len(), "sha256:".len() + 64);
}

#[test]
fn checksum_ignores_listing_order() {
    let a = calculate_checksum(vec![file("b/x", b"1"), file("a", b"2"), file("c", b"3")]);
    let b = calculate_checksum(vec![file("c", b"3"), file("b/x", b"1"), file("a", b"2")]);
    assert_eq!(a, b);
}

#[test]
fn checksum_changes_with_content_name_or_presence() {
    let base = calculate_checksum(vec![file("file1.txt", b"content1"), file("file2.txt", b"content2")]);
    let edited = calculate_checksum(vec![file("file1.txt", b"modified"), file("file2.txt", b"content2")]);
    let renamed = calculate_checksum(vec![file("file3.txt", b"content1"), file("file2.txt", b"content2")]);
    let dropped = calculate_checksum(vec![file("file2.txt", b"content2")]);
    assert_ne!(base, edited);
    assert_ne!(base, renamed);
    assert_ne!(base, dropped);
}

#[test]
fn checksum_of_empty_tree_is_digest_of_nothing() {
    assert_eq!(
        calculate_checksum(vec![]),
        "sha256:e3b0c44298fc1c149afbf4c8996fb92427ae41e4649b934ca495991b7852b855"
    );
}

#[test]
fn checksum_of_one_file_hashes_path_then_contents() {
    // SHA-256 of "abc", the path "ab" followed by the contents "c".
    assert_eq!(
        calculate_checksum(vec![file("ab", b"c")]),
        "sha256:ba7816bf8f01cfea414140de5dae2223b00361a396177a9cb410ff61f20015ad"
    );
}

#[test]
fn hashed_input_is_sorted_paths_and_contents() {
    let input = hashed_input(vec![file("b", b"2"), file("a/z", b"1")]);
    assert_eq!(input, b"a/z1b2".to_vec());
}

#[test]
fn files_sort_by_path_bytes() {
    let sorted = sort_files(vec![file("b", b""), file("a/b", b""), file("a.b", b""), file("A", b"")]);
    let paths: Vec<&[u8]> = sorted.iter().map(|f| f.relative_path.as_slice()).collect();
    assert_eq!(paths, vec![&b"A"[..], &b"a.b"[..], &b"a/b"[..], &b"b"[..]]);
}

#[test]
fn digest_renders_as_lower_hex() {
    assert_eq!(render_checksum(&vec![0x00, 0xab, 0xff, 0x10]), "sha256:00abff10");
    assert_eq!(render_checksum(&vec![]), "sha256:");
}

#[test]
fn archive_filter_strips_wrapper_and_path() {
    let mut f = ArchiveFilter::new("skills/foo");
    assert_eq!(f.accept("acme-tools-1a2b3c/"), None);
    assert_eq!(f.wrapper.as_deref(), Some("acme-tools-1a2b3c"));
    assert_eq!(f.accept("acme-tools-1a2b3c/skills/foo/"), None);
    assert!(!f.found_any);
    assert_eq!(f.accept("acme-tools-1a2b3c/skills/foo/SKILL.md"), Some("SKILL.md".to_string()));
    assert_eq!(f.accept("acme-tools-1a2b3c/skills/foo/lib/a.txt"), Some("lib/a.txt".to_string()));
    assert_eq!(f.accept("acme-tools-1a2b3c/skills/foobar/x"), None);
    assert_eq!(f.accept("acme-tools-1a2b3c/README.md"), None);
    assert!(f.found_any);
    assert!(f.finish().is_ok());
}

#[test]
fn archive_filter_without_match_is_path_not_found() {
    let mut f = ArchiveFilter::new("missing");
    assert_eq!(f.accept("w/"), None);
    assert_eq!(f.accept("w/other/file"), None);
    assert!(matches!(f.finish(), Err(SkillsError::PathNotFound(p)) if p == "missing"));
}

#[test]
fn staged_skill_needs_marker() {
    let ok = vec![
        ContentItem { name: "README.md".to_string(), kind: EntryKind::File },
        ContentItem { name: "skill.MD".to_string(), kind: EntryKind::File },
    ];
    assert!(ensure_skill_manifest(&ok).is_ok());
    let dir_only = vec![ContentItem { name: "SKILL.md".to_string(), kind: EntryKind::Dir }];
    assert!(matches!(ensure_skill_manifest(&dir_only), Err(SkillsError::MissingSkillManifest)));
    assert!(matches!(ensure_skill_manifest(&vec![]), Err(SkillsError::MissingSkillManifest)));
}
