use files_core::history::NavigationHistory;

#[test]
fn navigate_then_back_then_forward_restores_location() {
    let mut h = NavigationHistory::new();
    h.navigate(String::from("/home"));
    h.navigate(String::from("/home/docs"));
    let here = h.current().unwrap().clone();
    assert_eq!(here, "/home/docs");
    let b = h.back().unwrap();
    assert_eq!(b, "/home");
    let f = h.forward().unwrap();
    assert_eq!(f, "/home/docs");
    assert_eq!(h.cursor_index(), 1);
}

#[test]
fn back_and_forward_stay_in_bounds() {
    let mut h = NavigationHistory::new();
    assert!(h.back().is_none());
    assert!(h.forward().is_none());
    h.navigate(String::from("/a"));
    h.navigate(String::from("/b"));
    for _ in 0..5 {
        h.back();
        assert!(h.cursor_index() < h.len());
    }
    assert_eq!(h.cursor_index(), 0);
    for _ in 0..5 {
        h.forward();
        assert!(h.cursor_index() < h.len());
    }
    assert_eq!(h.cursor_index(), 1);
}

#[test]
fn back_at_start_is_a_no_op() {
    let mut h = NavigationHistory::new();
    h.navigate(String::from("/a"));
    assert!(h.back().is_none());
    assert_eq!(h.cursor_index(), 0);
    assert_eq!(h.current().unwrap(), "/a");
}

#[test]
fn forward_at_end_is_a_no_op() {
    let mut h = NavigationHistory::new();
    h.navigate(String::from("/a"));
    h.navigate(String::from("/b"));
    assert!(h.forward().is_none());
    assert_eq!(h.cursor_index(), 1);
}

#[test]
fn navigate_after_back_truncates_forward_history() {
    // Visit three locations, step back twice, and check the cursor points at
    // the first; a fresh navigation then truncates the abandoned tail.
    let mut h = NavigationHistory::new();
    h.navigate(String::from("/home"));
    h.navigate(String::from("/home/docs"));
    h.navigate(String::from("/home/docs/pics"));
    h.back();
    h.back();
    assert_eq!(h.cursor_index(), 0);
    assert_eq!(h.current().unwrap(), "/home");
    h.navigate(String::from("/tmp"));
    assert_eq!(h.len(), 2);
    assert_eq!(h.current().unwrap(), "/tmp");
    assert_eq!(h.cursor_index(), 1);
    // "/home/docs" and "/home/docs/pics" are gone: forward is a no-op.
    assert!(h.forward().is_none());
    assert_eq!(h.current().unwrap(), "/tmp");
}
