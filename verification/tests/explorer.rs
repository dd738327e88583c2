use hashindex_rs::explorer::DirEntryInfo;
use hashindex_rs::explorer::EntryKind;
use hashindex_rs::explorer::ExploreError;
use hashindex_rs::explorer::PathExplorer;

fn entry(path: &str, kind: EntryKind) -> DirEntryInfo {
    DirEntryInfo {
        path: path.to_string(),
        kind,
    }
}

#[test]
fn nonexistent_root_fails_and_enqueues_nothing() {
    let r = PathExplorer::start(
        "invalid Path which will not resolve in any real path".to_string(),
        false,
    );
    assert!(matches!(r, Err(ExploreError::RootNotFound)));
}

#[test]
fn existing_root_starts_with_it_pending() {
    let mut e = PathExplorer::start("root".to_string(), true).unwrap();
    let first = e.next_dir();
    assert_eq!(first, Some("root".to_string()));
    assert_eq!(e.next_dir(), None);
}

#[test]
fn absorb_enqueues_exactly_the_regular_files() {
    let mut e = PathExplorer::start("root".to_string(), true).unwrap();
    assert_eq!(e.next_dir(), Some("root".to_string()));
    let listing = vec![
        entry("root/a.txt", EntryKind::RegularFile),
        entry("root/sub", EntryKind::Directory),
        entry("root/link", EntryKind::Other),
        entry("root/b.txt", EntryKind::RegularFile),
        entry("root/socket", EntryKind::Other),
    ];
    let files = e.absorb(Some(listing));
    assert_eq!(
        files,
        vec!["root/a.txt".to_string(), "root/b.txt".to_string()]
    );
    // only the subdirectory is left to explore; links are never followed
    assert_eq!(e.next_dir(), Some("root/sub".to_string()));
    assert_eq!(e.next_dir(), None);
}

#[test]
fn unreadable_directory_is_skipped_without_failing() {
    let mut e = PathExplorer::start("root".to_string(), true).unwrap();
    assert_eq!(e.next_dir(), Some("root".to_string()));
    let files = e.absorb(None);
    assert!(files.is_empty());
    assert_eq!(e.next_dir(), None);
}

#[test]
fn traversal_is_depth_first_over_an_explicit_stack() {
    let mut e = PathExplorer::start("r".to_string(), true).unwrap();
    assert_eq!(e.next_dir(), Some("r".to_string()));
    let files = e.absorb(Some(vec![
        entry("r/d1", EntryKind::Directory),
        entry("r/d2", EntryKind::Directory),
    ]));
    assert!(files.is_empty());
    // the directory pushed last is read first
    assert_eq!(e.next_dir(), Some("r/d2".to_string()));
    let files = e.absorb(Some(vec![entry("r/d2/f", EntryKind::RegularFile)]));
    assert_eq!(files, vec!["r/d2/f".to_string()]);
    assert_eq!(e.next_dir(), Some("r/d1".to_string()));
    let files = e.absorb(Some(Vec::new()));
    assert!(files.is_empty());
    assert_eq!(e.next_dir(), None);
}
