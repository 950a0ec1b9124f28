use livetree::watcher::{batch_event, dedup_paths, error_events, RootStatus, WatchEvent};

fn paths(list: &[&str]) -> Vec<String> {
    list.iter().map(|s| s.to_string()).collect()
}

#[test]
fn batch_with_root_present_is_a_change_of_deduplicated_paths() {
    let event = batch_event(&paths(&["/w/a", "/w/b", "/w/a", "/w/c", "/w/b"]), RootStatus::Present);
    assert_eq!(event, WatchEvent::Changed(paths(&["/w/a", "/w/b", "/w/c"])));
    assert_eq!(
        batch_event(&Vec::new(), RootStatus::Present),
        WatchEvent::Changed(Vec::new())
    );
}

#[test]
fn batch_with_root_missing_is_root_deleted() {
    assert_eq!(
        batch_event(&paths(&["/w"]), RootStatus::Missing),
        WatchEvent::RootDeleted
    );
    assert_eq!(
        batch_event(&Vec::new(), RootStatus::Missing),
        WatchEvent::RootDeleted
    );
}

#[test]
fn batch_with_unreadable_root_is_an_error() {
    assert_eq!(
        batch_event(
            &paths(&["/w/a"]),
            RootStatus::Unreadable("Permission denied (os error 13)".to_string())
        ),
        WatchEvent::Error("Permission denied (os error 13)".to_string())
    );
}

#[test]
fn dedup_keeps_the_first_of_each() {
    assert_eq!(dedup_paths(&paths(&["b", "a", "b", "b", "a"])), paths(&["b", "a"]));
    assert_eq!(dedup_paths(&paths(&["x"])), paths(&["x"]));
    assert!(dedup_paths(&Vec::new()).is_empty());
    // Paths are compared as they are written.
    assert_eq!(dedup_paths(&paths(&["/a", "/a/", "/A"])), paths(&["/a", "/a/", "/A"]));
}

#[test]
fn watcher_errors_become_one_event_each() {
    assert_eq!(
        error_events(paths(&["first", "second"])),
        vec![
            WatchEvent::Error("first".to_string()),
            WatchEvent::Error("second".to_string())
        ]
    );
    assert!(error_events(Vec::new()).is_empty());
}
