use ps3_redump_downloader::extract::{
    check_archive, entry_is_dir, entry_path, find_payload, has_iso_extension, progress_measure, ExtractError,
    ProgressMeasure,
};

#[test]
fn archive_checks() {
    assert_eq!(check_archive(0, true), Err(ExtractError::ArchiveEmpty));
    assert_eq!(check_archive(10, false), Err(ExtractError::ArchiveCorrupt));
    assert_eq!(check_archive(10, true), Ok(()));
}

#[test]
fn progress_by_bytes_or_entries() {
    assert_eq!(progress_measure(&vec![Some(10), None, Some(5)]), ProgressMeasure::Bytes { total: 15 });
    assert_eq!(progress_measure(&vec![Some(0), None]), ProgressMeasure::Entries { count: 2 });
    assert_eq!(progress_measure(&vec![Some(u64::MAX), Some(1)]), ProgressMeasure::Entries { count: 2 });
    assert_eq!(progress_measure(&vec![]), ProgressMeasure::Entries { count: 0 });
}

#[test]
fn entries_and_paths() {
    assert!(entry_is_dir("PS3_GAME/"));
    assert!(!entry_is_dir("PS3_GAME/PARAM.SFO"));
    assert_eq!(entry_path("/tmp/x", "a/b.iso"), "/tmp/x/a/b.iso");
    assert_eq!(entry_path("/tmp/x/", "b.iso"), "/tmp/x/b.iso");
}

#[test]
fn iso_extension() {
    assert!(has_iso_extension("/tmp/x/example.iso"));
    assert!(has_iso_extension("a.b.iso"));
    assert!(!has_iso_extension("/tmp/x/.iso"));
    assert!(!has_iso_extension("example.ISO"));
    assert!(!has_iso_extension("example.iso/readme"));
    assert!(!has_iso_extension("example"));
}

#[test]
fn payload_is_first_iso() {
    let names = vec!["a/readme.txt".to_string(), "a/example.iso".to_string(), "a/other.iso".to_string()];
    assert_eq!(find_payload(&names), Some(1));
    assert_eq!(find_payload(&vec!["x.zip".to_string()]), None);
}
