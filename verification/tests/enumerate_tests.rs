use files_core::entry::EntryKind;
use files_core::entry::FileEntry;
use files_core::enumerate::EnumAction;
use files_core::enumerate::EnumMode;
use files_core::enumerate::Enumerator;

fn file(name: &str) -> FileEntry {
    FileEntry {
        name: String::from(name),
        kind: EntryKind::File,
        size: 0,
        content_type: None,
        modified_at: None,
        handle: 0,
    }
}

fn dir(name: &str, handle: u64) -> FileEntry {
    FileEntry { kind: EntryKind::Directory, handle, ..file(name) }
}

/// Drive the traversal against a simulated filesystem: `read` returns a
/// directory's children, or `None` for an unreadable one.
fn drive<F: Fn(u64) -> Option<Vec<FileEntry>>>(e: &mut Enumerator, read: F) {
    loop {
        match e.step() {
            EnumAction::Idle => break,
            EnumAction::Emitted => {}
            EnumAction::Read(h) => match read(h) {
                Some(children) => e.report_children(children),
                None => e.report_unreadable(),
            },
        }
    }
}

fn names(e: &Enumerator) -> Vec<String> {
    e.results().iter().map(|x| x.name.clone()).collect()
}

#[test]
fn unreadable_subtree_is_skipped_and_counted() {
    // Root holds a file, an unreadable subdirectory, and a readable one:
    // every entry under a readable parent still comes out, and the failure
    // is a diagnostic, not an abort.
    let mut e = Enumerator::begin(1, EnumMode::Recursive);
    drive(&mut e, |h| match h {
        1 => Some(vec![file("a.txt"), dir("locked", 2), dir("sub", 3)]),
        2 => None,
        3 => Some(vec![file("b.txt"), file("c.txt")]),
        _ => panic!("unexpected handle"),
    });
    assert_eq!(
        names(&e),
        vec!["a.txt".to_string(), "b.txt".to_string(), "c.txt".to_string()]
    );
    assert_eq!(e.diagnostic_count(), 1);
}

#[test]
fn recursive_traversal_is_depth_first() {
    // A child directory is descended into before its later siblings.
    let mut e = Enumerator::begin(1, EnumMode::Recursive);
    drive(&mut e, |h| match h {
        1 => Some(vec![file("x.txt"), dir("d", 2), file("y.txt")]),
        2 => Some(vec![file("inner.txt")]),
        _ => panic!("unexpected handle"),
    });
    assert_eq!(
        names(&e),
        vec!["x.txt".to_string(), "inner.txt".to_string(), "y.txt".to_string()]
    );
    assert_eq!(e.diagnostic_count(), 0);
}

#[test]
fn recursive_mode_emits_only_leaves() {
    let mut e = Enumerator::begin(1, EnumMode::Recursive);
    drive(&mut e, |h| match h {
        1 => Some(vec![dir("d", 2)]),
        2 => Some(vec![file("inner.txt")]),
        _ => panic!("unexpected handle"),
    });
    // The directory itself was traversed, not emitted.
    assert_eq!(names(&e), vec!["inner.txt".to_string()]);
}

#[test]
fn shallow_mode_lists_immediate_children_only() {
    let mut e = Enumerator::begin(1, EnumMode::Shallow);
    drive(&mut e, |h| match h {
        1 => Some(vec![file("a.txt"), dir("sub", 2)]),
        _ => panic!("shallow traversal must not descend"),
    });
    assert_eq!(names(&e), vec!["a.txt".to_string(), "sub".to_string()]);
}

#[test]
fn cancellation_stops_appending_entries() {
    let mut e = Enumerator::begin(1, EnumMode::Recursive);
    // Hand the root's children over, then cancel before any is processed.
    match e.step() {
        EnumAction::Read(1) => {
            e.report_children(vec![file("a.txt"), file("b.txt")]);
        }
        _ => panic!("expected a read of the root"),
    }
    e.cancel();
    drive(&mut e, |_| panic!("cancelled traversal must not read"));
    assert!(e.results().is_empty());
    assert!(e.is_done());
    assert!(e.is_cancelled());
}

#[test]
fn empty_directory_finishes_with_no_entries() {
    let mut e = Enumerator::begin(1, EnumMode::Recursive);
    drive(&mut e, |h| match h {
        1 => Some(vec![]),
        _ => panic!("unexpected handle"),
    });
    assert!(e.results().is_empty());
    assert_eq!(e.diagnostic_count(), 0);
    assert!(e.is_done());
}
