use files_core::entry::EntryKind;
use files_core::entry::FileEntry;
use files_core::registry::RegistryEvent;
use files_core::registry::SubmitError;
use files_core::registry::TransferRegistry;
use files_core::selection::Clipboard;
use files_core::selection::Selection;
use files_core::selection::classify_selection;
use files_core::transfer::ConflictPolicy;
use files_core::transfer::JobState;
use files_core::transfer::ProcessType;
use files_core::transfer::TransferItem;

fn item(name: &str, source: u64, size: u64) -> TransferItem {
    TransferItem { source, name: String::from(name), size }
}

fn entry(name: &str, handle: u64, size: u64) -> FileEntry {
    FileEntry {
        name: String::from(name),
        kind: EntryKind::File,
        size,
        content_type: None,
        modified_at: None,
        handle,
    }
}

#[test]
fn submit_registers_a_running_job_and_records_the_addition() {
    let mut reg = TransferRegistry::new();
    let id = reg
        .submit(ProcessType::Copy, 9, true, ConflictPolicy::Overwrite, vec![item("a", 1, 10)])
        .unwrap();
    assert_eq!(reg.job_count(), 1);
    assert_eq!(reg.get(0).id(), id);
    assert!(matches!(reg.get(0).state(), JobState::Running));
    assert_eq!(reg.active_count(), 1);
    assert_eq!(reg.take_events(), vec![RegistryEvent::JobAdded(id)]);
    assert!(reg.take_events().is_empty());
}

#[test]
fn invalid_destination_rejects_without_registering() {
    let mut reg = TransferRegistry::new();
    let r = reg.submit(ProcessType::Copy, 9, false, ConflictPolicy::Overwrite, vec![item("a", 1, 10)]);
    assert_eq!(r, Err(SubmitError::InvalidDestination));
    assert_eq!(reg.job_count(), 0);
    assert!(reg.take_events().is_empty());
}

#[test]
fn oversized_total_rejects_without_registering() {
    let mut reg = TransferRegistry::new();
    let items = vec![item("a", 1, u64::MAX), item("b", 2, 1)];
    let r = reg.submit(ProcessType::Copy, 9, true, ConflictPolicy::Overwrite, items);
    assert_eq!(r, Err(SubmitError::TotalTooLarge));
    assert_eq!(reg.job_count(), 0);
}

#[test]
fn largest_representable_total_is_accepted() {
    let mut reg = TransferRegistry::new();
    let id = reg
        .submit(ProcessType::Copy, 9, true, ConflictPolicy::Overwrite, vec![item("a", 1, u64::MAX)])
        .unwrap();
    assert_eq!(reg.get(0).id(), id);
    assert_eq!(reg.get(0).total_bytes(), u64::MAX);
}

#[test]
fn cancel_by_id_flags_only_that_job() {
    let mut reg = TransferRegistry::new();
    let a = reg.submit(ProcessType::Copy, 9, true, ConflictPolicy::Overwrite, vec![item("a", 1, 10)]).unwrap();
    let b = reg.submit(ProcessType::Move, 9, true, ConflictPolicy::Overwrite, vec![item("b", 2, 10)]).unwrap();
    assert!(reg.cancel(a));
    let ia = reg.index_of(a).unwrap();
    let ib = reg.index_of(b).unwrap();
    assert!(reg.get(ia).cancel_requested());
    assert!(!reg.get(ib).cancel_requested());
    assert!(!reg.cancel(12345));
}

#[test]
fn removing_a_running_job_implicitly_cancels_it() {
    let mut reg = TransferRegistry::new();
    let id = reg.submit(ProcessType::Copy, 9, true, ConflictPolicy::Overwrite, vec![item("a", 1, 10)]).unwrap();
    reg.take_events();
    let removed = reg.remove(id).unwrap();
    assert!(removed.cancel_requested());
    assert!(matches!(removed.state(), JobState::Running));
    assert_eq!(reg.job_count(), 0);
    assert_eq!(reg.active_count(), 0);
    assert_eq!(reg.take_events(), vec![RegistryEvent::JobRemoved(id)]);
    assert!(reg.remove(id).is_none());
}

#[test]
fn active_count_tracks_running_jobs_only() {
    let mut reg = TransferRegistry::new();
    // A job with no items completes at submission and never counts as
    // active.
    reg.submit(ProcessType::Copy, 9, true, ConflictPolicy::Overwrite, vec![]).unwrap();
    reg.submit(ProcessType::Copy, 9, true, ConflictPolicy::Overwrite, vec![item("a", 1, 10)]).unwrap();
    assert_eq!(reg.job_count(), 2);
    assert_eq!(reg.active_count(), 1);
}

#[test]
fn aggregate_bytes_sums_across_jobs() {
    let mut reg = TransferRegistry::new();
    reg.submit(ProcessType::Copy, 9, true, ConflictPolicy::Overwrite, vec![item("a", 1, 100)]).unwrap();
    reg.submit(ProcessType::Copy, 9, true, ConflictPolicy::Overwrite, vec![item("b", 2, 50)]).unwrap();
    let (done, total) = reg.aggregate_bytes();
    assert_eq!(done, 0);
    assert_eq!(total, 150);
}

#[test]
fn classify_selection_by_count() {
    assert!(matches!(classify_selection(vec![]), Selection::NoSelection));
    match classify_selection(vec![entry("a", 1, 0)]) {
        Selection::Single(e) => assert_eq!(e.name, "a"),
        _ => panic!("one entry must classify as Single"),
    }
    match classify_selection(vec![entry("a", 1, 0), entry("b", 2, 0)]) {
        Selection::Multi(v) => assert_eq!(v.len(), 2),
        _ => panic!("two entries must classify as Multi"),
    }
}

#[test]
fn paste_submits_a_copy_job_and_keeps_the_staged_buffer() {
    let mut reg = TransferRegistry::new();
    let mut clip = Clipboard::new();
    clip.stage_for_paste(&vec![entry("fileA", 1, 100), entry("fileB", 2, 50)]);
    let first = clip.paste_into(&mut reg, 9, true).unwrap();
    // The buffer is intact: pasting again submits a second, identical job.
    let second = clip.paste_into(&mut reg, 9, true).unwrap();
    assert_ne!(first, second);
    assert_eq!(reg.job_count(), 2);
    for i in 0..2 {
        let j = reg.get(i);
        assert!(matches!(j.kind(), ProcessType::Copy));
        assert_eq!(j.total_bytes(), 150);
        assert_eq!(j.items().len(), 2);
        assert_eq!(j.items()[0].name, "fileA");
        assert_eq!(j.items()[1].name, "fileB");
    }
    assert_eq!(clip.len(), 2);
    clip.clear();
    assert_eq!(clip.len(), 0);
}

#[test]
fn rejected_paste_leaves_the_registry_untouched() {
    let mut reg = TransferRegistry::new();
    let mut clip = Clipboard::new();
    clip.stage_for_paste(&vec![entry("a", 1, 10)]);
    let r = clip.paste_into(&mut reg, 9, false);
    assert_eq!(r, Err(SubmitError::InvalidDestination));
    assert_eq!(reg.job_count(), 0);
}
