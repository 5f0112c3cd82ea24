use files_core::entry::EntryKind;
use files_core::entry::FileEntry;
use files_core::listing::SortOrder;
use files_core::view::BrowserView;

fn entry(name: &str) -> FileEntry {
    FileEntry {
        name: String::from(name),
        kind: EntryKind::File,
        size: 0,
        content_type: None,
        modified_at: None,
        handle: 0,
    }
}

fn names(v: &Vec<FileEntry>) -> Vec<String> {
    v.iter().map(|e| e.name.clone()).collect()
}

#[test]
fn view_presents_with_its_settings() {
    let mut view = BrowserView::new();
    view.set_entries(vec![entry(".git"), entry("B.txt"), entry("a.txt")]);
    // Hidden entries are hidden by default, ordering is by name.
    assert_eq!(names(&view.visible()), vec!["a.txt".to_string(), "B.txt".to_string()]);
    view.set_show_hidden(true);
    assert_eq!(
        names(&view.visible()),
        vec![".git".to_string(), "a.txt".to_string(), "B.txt".to_string()]
    );
}

#[test]
fn changing_filter_or_sort_does_not_touch_the_listing() {
    let mut view = BrowserView::new();
    view.set_entries(vec![entry("b"), entry("a")]);
    view.set_sort(SortOrder::ByModified);
    view.set_query(Some(String::from("a")));
    assert_eq!(names(&view.visible()), vec!["a".to_string()]);
    // Clearing the query restores the full view; the listing itself was
    // never reordered or shrunk.
    view.set_query(None);
    view.set_sort(SortOrder::ByName);
    assert_eq!(names(&view.visible()), vec!["a".to_string(), "b".to_string()]);
}

#[test]
fn empty_query_matches_every_name() {
    let mut view = BrowserView::new();
    view.set_entries(vec![entry("a"), entry("b")]);
    view.set_query(Some(String::new()));
    assert_eq!(view.visible().len(), 2);
}

#[test]
fn view_history_navigates_back_and_forward() {
    let mut view = BrowserView::new();
    view.navigate(String::from("/home"));
    view.navigate(String::from("/home/docs"));
    assert_eq!(view.go_backward().unwrap(), "/home");
    assert_eq!(view.go_forward().unwrap(), "/home/docs");
    assert_eq!(view.current_location().unwrap(), "/home/docs");
    // Navigating replaces the listing by a fresh enumeration in the host;
    // the history itself never re-enumerates.
    view.set_entries(vec![entry("x")]);
    assert_eq!(view.current_location().unwrap(), "/home/docs");
}
