use files_core::entry::EntryKind;
use files_core::entry::FileEntry;
use files_core::listing::ListingStore;
use files_core::listing::SortOrder;

fn entry(name: &str) -> FileEntry {
    FileEntry {
        name: String::from(name),
        kind: EntryKind::File,
        size: 0,
        content_type: None,
        modified_at: None,
        handle: 0,
    }
}

fn entry_at(name: &str, modified_at: Option<i64>) -> FileEntry {
    FileEntry { modified_at, ..entry(name) }
}

fn names(v: &Vec<FileEntry>) -> Vec<String> {
    v.iter().map(|e| e.name.clone()).collect()
}

#[test]
fn hide_hidden_filters_dot_entries() {
    let mut store = ListingStore::new();
    store.append(entry(".git"));
    store.append(entry("a.txt"));
    store.append(entry("b.txt"));
    let visible = store.filtered(false, None);
    assert_eq!(names(&visible), vec!["a.txt".to_string(), "b.txt".to_string()]);
}

#[test]
fn show_hidden_keeps_dot_entries() {
    let mut store = ListingStore::new();
    store.append(entry(".git"));
    store.append(entry("a.txt"));
    let all = store.filtered(true, None);
    assert_eq!(names(&all), vec![".git".to_string(), "a.txt".to_string()]);
}

#[test]
fn query_filter_requires_substring() {
    let mut store = ListingStore::new();
    store.append(entry("notes.txt"));
    store.append(entry("photo.png"));
    store.append(entry("more-notes.md"));
    let q = String::from("notes");
    let hits = store.filtered(true, Some(&q));
    assert_eq!(names(&hits), vec!["notes.txt".to_string(), "more-notes.md".to_string()]);
    // The match is case-sensitive.
    let q2 = String::from("Notes");
    assert!(store.filtered(true, Some(&q2)).is_empty());
}

#[test]
fn sort_by_name_is_case_insensitive() {
    let mut store = ListingStore::new();
    store.append(entry("B.txt"));
    store.append(entry("a.txt"));
    let sorted = store.sorted(SortOrder::ByName);
    assert_eq!(names(&sorted), vec!["a.txt".to_string(), "B.txt".to_string()]);
}

#[test]
fn sort_by_modified_puts_missing_last_and_breaks_ties_by_name() {
    let mut store = ListingStore::new();
    store.append(entry_at("old.txt", Some(100)));
    store.append(entry_at("unknown.txt", None));
    store.append(entry_at("new.txt", Some(200)));
    store.append(entry_at("also-new.txt", Some(200)));
    let sorted = store.sorted(SortOrder::ByModified);
    assert_eq!(
        names(&sorted),
        vec![
            "old.txt".to_string(),
            "also-new.txt".to_string(),
            "new.txt".to_string(),
            "unknown.txt".to_string()
        ]
    );
}

#[test]
fn present_composes_filter_and_sort() {
    let mut store = ListingStore::new();
    store.append(entry(".hidden"));
    store.append(entry("Zebra"));
    store.append(entry("apple"));
    let view = store.present(false, None, SortOrder::ByName);
    assert_eq!(names(&view), vec!["apple".to_string(), "Zebra".to_string()]);
}

#[test]
fn empty_store_presents_empty_views() {
    let store = ListingStore::new();
    assert_eq!(store.len(), 0);
    assert!(store.filtered(false, None).is_empty());
    assert!(store.sorted(SortOrder::ByName).is_empty());
}

#[test]
fn clear_resets_the_listing() {
    let mut store = ListingStore::new();
    store.append(entry("a"));
    store.append(entry("b"));
    store.clear();
    assert_eq!(store.len(), 0);
}

#[test]
fn sort_keeps_entries_with_equal_keys() {
    // "a" and "A" lower to the same key: both must survive the sort.
    let mut store = ListingStore::new();
    store.append(entry("a"));
    store.append(entry("A"));
    let sorted = store.sorted(SortOrder::ByName);
    assert_eq!(sorted.len(), 2);
    let mut got = names(&sorted);
    got.sort();
    assert_eq!(got, vec!["A".to_string(), "a".to_string()]);
}
