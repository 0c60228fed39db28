use std::collections::HashSet;

use warp_common::watcher::{
    deduplicate_and_merge_raw_notifier_events, BulkFilesystemWatcherEvent, RawEventKind,
    RawNotifierEvent,
};

// --- BulkFilesystemWatcherEvent::is_empty ---

#[test]
fn default_event_is_empty() {
    let event = BulkFilesystemWatcherEvent::default();
    assert!(event.is_empty());
}

#[test]
fn event_with_added_is_not_empty() {
    let mut event = BulkFilesystemWatcherEvent::default();
    event.added.insert("/tmp/file.txt".to_string());
    assert!(!event.is_empty());
}

#[test]
fn event_with_modified_is_not_empty() {
    let mut event = BulkFilesystemWatcherEvent::default();
    event.modified.insert("/tmp/file.txt".to_string());
    assert!(!event.is_empty());
}

#[test]
fn event_with_deleted_is_not_empty() {
    let mut event = BulkFilesystemWatcherEvent::default();
    event.deleted.insert("/tmp/file.txt".to_string());
    assert!(!event.is_empty());
}

#[test]
fn event_with_moved_is_not_empty() {
    let mut event = BulkFilesystemWatcherEvent::default();
    event
        .moved
        .insert("/tmp/new.txt".to_string(), "/tmp/old.txt".to_string());
    assert!(!event.is_empty());
}

// --- added_or_updated_iter ---

#[test]
fn added_or_updated_iter_returns_added_and_modified() {
    let mut event = BulkFilesystemWatcherEvent::default();
    event.added.insert("/a".to_string());
    event.modified.insert("/b".to_string());
    event.deleted.insert("/c".to_string());

    let result: HashSet<String> = event.added_or_updated_iter().into_iter().collect();
    assert!(result.contains("/a"));
    assert!(result.contains("/b"));
    assert!(!result.contains("/c"));
    assert_eq!(result.len(), 2);
}

#[test]
fn added_or_updated_iter_empty_event() {
    let event = BulkFilesystemWatcherEvent::default();
    assert_eq!(event.added_or_updated_iter().len(), 0);
}

// --- added_or_updated_set ---

#[test]
fn added_or_updated_set_returns_owned_set() {
    let mut event = BulkFilesystemWatcherEvent::default();
    event.added.insert("/a".to_string());
    event.modified.insert("/b".to_string());

    let set = event.added_or_updated_set();
    assert!(set.contains("/a"));
    assert!(set.contains("/b"));
    assert_eq!(set.len(), 2);
}

#[test]
fn added_or_updated_set_deduplicates() {
    let mut event = BulkFilesystemWatcherEvent::default();
    let path = "/a".to_string();
    event.added.insert(path.clone());
    event.modified.insert(path);

    let set = event.added_or_updated_set();
    assert_eq!(set.len(), 1);
}

// --- Clone ---

#[test]
fn event_clone_preserves_all_fields() {
    let mut event = BulkFilesystemWatcherEvent::default();
    event.added.insert("/added".to_string());
    event.modified.insert("/modified".to_string());
    event.deleted.insert("/deleted".to_string());
    event
        .moved
        .insert("/new_name".to_string(), "/old_name".to_string());

    let cloned = event.clone();
    assert_eq!(cloned.added, event.added);
    assert_eq!(cloned.modified, event.modified);
    assert_eq!(cloned.deleted, event.deleted);
    assert_eq!(cloned.moved, event.moved);
}

// --- deduplicate_and_merge_raw_notifier_events ---

fn make_event(kind: RawEventKind, paths: Vec<&str>) -> RawNotifierEvent {
    RawNotifierEvent::new(kind, paths.into_iter().map(|p| p.to_string()).collect())
}

#[test]
fn dedup_create_event() {
    let events = vec![make_event(RawEventKind::Create, vec!["/tmp/new_file"])];
    let result = deduplicate_and_merge_raw_notifier_events(&events).unwrap();
    assert!(result.added.contains("/tmp/new_file"));
    assert!(result.modified.is_empty());
    assert!(result.deleted.is_empty());
}

#[test]
fn dedup_modify_data_event() {
    let events = vec![make_event(RawEventKind::ModifyData, vec!["/tmp/existing_file"])];
    let result = deduplicate_and_merge_raw_notifier_events(&events).unwrap();
    assert!(result.modified.contains("/tmp/existing_file"));
    assert!(result.added.is_empty());
}

#[test]
fn dedup_create_then_remove_cancels_out() {
    let events = vec![
        make_event(RawEventKind::Create, vec!["/tmp/file"]),
        make_event(RawEventKind::Remove, vec!["/tmp/file"]),
    ];
    let result = deduplicate_and_merge_raw_notifier_events(&events);
    // Should produce empty event -> error
    assert!(result.is_err());
}

#[test]
fn dedup_modify_then_remove_keeps_delete() {
    let events = vec![
        make_event(RawEventKind::ModifyData, vec!["/tmp/file"]),
        make_event(RawEventKind::Remove, vec!["/tmp/file"]),
    ];
    let result = deduplicate_and_merge_raw_notifier_events(&events).unwrap();
    assert!(result.deleted.contains("/tmp/file"));
    assert!(result.modified.is_empty());
}

#[test]
fn dedup_create_then_modify_counts_as_added() {
    let events = vec![
        make_event(RawEventKind::Create, vec!["/tmp/file"]),
        make_event(RawEventKind::ModifyData, vec!["/tmp/file"]),
    ];
    let result = deduplicate_and_merge_raw_notifier_events(&events).unwrap();
    assert!(result.added.contains("/tmp/file"));
    assert!(!result.modified.contains("/tmp/file"));
}

#[test]
fn dedup_rename_both_mode() {
    let events = vec![make_event(
        RawEventKind::RenameBoth,
        vec!["/tmp/old", "/tmp/new"],
    )];
    let result = deduplicate_and_merge_raw_notifier_events(&events).unwrap();
    assert_eq!(result.moved.get("/tmp/new"), Some(&"/tmp/old".to_string()));
}

#[test]
fn dedup_rename_from_then_to() {
    let events = vec![
        make_event(RawEventKind::RenameFrom, vec!["/tmp/old"]),
        make_event(RawEventKind::RenameTo, vec!["/tmp/new"]),
    ];
    let result = deduplicate_and_merge_raw_notifier_events(&events).unwrap();
    assert_eq!(result.moved.get("/tmp/new"), Some(&"/tmp/old".to_string()));
}

#[test]
fn dedup_empty_events_returns_error() {
    let events = vec![];
    assert!(deduplicate_and_merge_raw_notifier_events(&events).is_err());
}

#[test]
fn dedup_chained_rename_squashes() {
    // A->B, then B->C should result in A->C
    let events = vec![
        make_event(RawEventKind::RenameBoth, vec!["/tmp/a", "/tmp/b"]),
        make_event(RawEventKind::RenameBoth, vec!["/tmp/b", "/tmp/c"]),
    ];
    let result = deduplicate_and_merge_raw_notifier_events(&events).unwrap();
    assert_eq!(result.moved.get("/tmp/c"), Some(&"/tmp/a".to_string()));
    assert!(!result.moved.contains_key("/tmp/b"));
}

// --- further cases ---

#[test]
fn dedup_rename_back_cancels_out() {
    let events = vec![
        make_event(RawEventKind::RenameBoth, vec!["/tmp/a", "/tmp/b"]),
        make_event(RawEventKind::RenameBoth, vec!["/tmp/b", "/tmp/a"]),
    ];
    assert!(deduplicate_and_merge_raw_notifier_events(&events).is_err());
}

#[test]
fn dedup_rename_source_without_target_is_a_removal() {
    let events = vec![make_event(RawEventKind::RenameFrom, vec!["/tmp/gone"])];
    let result = deduplicate_and_merge_raw_notifier_events(&events).unwrap();
    assert!(result.deleted.contains("/tmp/gone"));
    assert_eq!(result.deleted.len(), 1);
    assert!(result.moved.is_empty());
}

#[test]
fn dedup_rename_target_without_source_is_a_creation() {
    let events = vec![make_event(RawEventKind::RenameTo, vec!["/tmp/arrived"])];
    let result = deduplicate_and_merge_raw_notifier_events(&events).unwrap();
    assert!(result.added.contains("/tmp/arrived"));
}

#[test]
fn dedup_remove_then_create_is_modified() {
    let events = vec![
        make_event(RawEventKind::Remove, vec!["/tmp/f"]),
        make_event(RawEventKind::Create, vec!["/tmp/f"]),
    ];
    let result = deduplicate_and_merge_raw_notifier_events(&events).unwrap();
    assert!(result.modified.contains("/tmp/f"));
    assert!(result.deleted.is_empty());
    assert!(result.added.is_empty());
}

#[test]
fn dedup_renamed_then_removed_deletes_the_source() {
    let events = vec![
        make_event(RawEventKind::RenameBoth, vec!["/tmp/a", "/tmp/b"]),
        make_event(RawEventKind::Remove, vec!["/tmp/b"]),
    ];
    let result = deduplicate_and_merge_raw_notifier_events(&events).unwrap();
    assert!(result.deleted.contains("/tmp/a"));
    assert!(!result.deleted.contains("/tmp/b"));
    assert!(result.moved.is_empty());
}

#[test]
fn dedup_access_only_is_no_change() {
    let events = vec![
        make_event(RawEventKind::Access, vec!["/tmp/f"]),
        make_event(RawEventKind::Other, vec!["/tmp/g"]),
    ];
    assert!(deduplicate_and_merge_raw_notifier_events(&events).is_err());
}

#[test]
fn dedup_many_paths_in_one_event() {
    let events = vec![make_event(RawEventKind::Create, vec!["/x", "/y", "/x"])];
    let result = deduplicate_and_merge_raw_notifier_events(&events).unwrap();
    assert_eq!(result.added.len(), 2);
    let mut paths = result.added.to_vec();
    paths.sort();
    assert_eq!(paths, vec!["/x".to_string(), "/y".to_string()]);
}

#[test]
fn path_set_and_map_operations() {
    let mut event = BulkFilesystemWatcherEvent::default();
    assert!(event.added.insert("/a".to_string()));
    assert!(!event.added.insert("/a".to_string()));
    assert!(event.added.remove("/a"));
    assert!(!event.added.remove("/a"));
    assert_eq!(event.moved.insert("/n".to_string(), "/o".to_string()), None);
    assert_eq!(
        event.moved.insert("/n".to_string(), "/p".to_string()),
        Some("/o".to_string())
    );
    assert_eq!(event.moved.len(), 1);
    assert_eq!(event.moved.remove("/n"), Some("/p".to_string()));
    assert!(event.is_empty());
}

#[test]
fn added_or_updated_iter_keeps_a_path_in_both_sets_twice() {
    let mut event = BulkFilesystemWatcherEvent::default();
    event.added.insert("/a".to_string());
    event.modified.insert("/a".to_string());
    assert_eq!(event.added_or_updated_iter(), vec!["/a".to_string(), "/a".to_string()]);
}

#[test]
fn added_or_updated_iter_lists_added_paths_first() {
    let mut event = BulkFilesystemWatcherEvent::default();
    event.modified.insert("/m".to_string());
    event.added.insert("/a1".to_string());
    event.added.insert("/a2".to_string());
    let v = event.added_or_updated_iter();
    assert_eq!(v.len(), 3);
    let mut first: Vec<String> = v[..2].to_vec();
    first.sort();
    assert_eq!(first, vec!["/a1".to_string(), "/a2".to_string()]);
    assert_eq!(v[2], "/m");
}
