use files_core::transfer::ConflictPolicy;
use files_core::transfer::JobState;
use files_core::transfer::ProcessType;
use files_core::transfer::TransferItem;
use files_core::transfer::TransferJob;

fn item(name: &str, source: u64, size: u64) -> TransferItem {
    TransferItem { source, name: String::from(name), size }
}

#[test]
fn zero_item_job_is_immediately_complete() {
    let j = TransferJob::new(7, ProcessType::Copy, 99, ConflictPolicy::Overwrite, vec![]);
    assert!(matches!(j.state(), JobState::Completed));
    assert_eq!(j.total_bytes(), 0);
    assert_eq!(j.progress_permille(), 1000);
    let fraction = if j.total_bytes() == 0 {
        1.0
    } else {
        j.transferred_bytes() as f64 / j.total_bytes() as f64
    };
    assert_eq!(fraction, 1.0);
}

#[test]
fn progress_is_monotone_and_bounded() {
    let items = vec![item("a", 1, 100), item("b", 2, 50)];
    let mut j = TransferJob::new(0, ProcessType::Copy, 9, ConflictPolicy::Overwrite, items);
    let mut last = 0u64;
    // Reports may repeat, go out of order per item, or overshoot the item
    // size: the aggregate never decreases and never exceeds the total.
    let reports = [(0usize, 10u64), (1, 20), (0, 5), (0, 60), (1, 20), (0, 1000), (1, 50)];
    for (idx, bytes) in reports {
        j.report_progress(idx, bytes);
        assert!(j.transferred_bytes() >= last);
        assert!(j.transferred_bytes() <= j.total_bytes());
        last = j.transferred_bytes();
    }
    assert_eq!(j.transferred_bytes(), 150);
}

#[test]
fn cancel_before_progress_ends_cancelled_never_completed() {
    let items = vec![item("a", 1, 100)];
    let mut j = TransferJob::new(0, ProcessType::Copy, 9, ConflictPolicy::Overwrite, items);
    assert!(matches!(j.state(), JobState::Running));
    j.cancel();
    assert!(j.cancel_requested());
    // The executing task observes the flag at the item boundary.
    j.settle_item(0, true);
    assert!(matches!(j.state(), JobState::Cancelled));
    // Nothing moves a flagged job to Completed afterwards either.
    j.report_progress(0, 100);
    j.settle_item(0, true);
    assert!(matches!(j.state(), JobState::Cancelled));
}

#[test]
fn copy_job_scenario_reaches_completed_with_full_progress() {
    // Two items of 100 and 50 bytes: the total is 150 up front; finishing
    // the first pushes progress to two thirds; finishing both completes
    // the job at 1.0.
    let items = vec![item("fileA", 1, 100), item("fileB", 2, 50)];
    let mut j = TransferJob::new(0, ProcessType::Copy, 9, ConflictPolicy::Overwrite, items);
    assert_eq!(j.total_bytes(), 150);
    j.report_progress(0, 100);
    j.settle_item(0, true);
    assert!(j.progress_permille() >= 660);
    let fraction = j.transferred_bytes() as f64 / j.total_bytes() as f64;
    assert!(fraction >= 0.66);
    j.report_progress(1, 50);
    j.settle_item(1, true);
    assert!(matches!(j.state(), JobState::Completed));
    assert_eq!(j.progress_permille(), 1000);
    assert_eq!(j.transferred_bytes(), 150);
    // The destination receives the sources under their base names: simulate
    // the host applying the job's items to the destination directory.
    let mut destination: Vec<String> = Vec::new();
    for it in j.items() {
        destination.push(it.name.clone());
    }
    assert!(destination.contains(&"fileA".to_string()));
    assert!(destination.contains(&"fileB".to_string()));
}

#[test]
fn one_failed_item_fails_the_job_but_not_its_siblings() {
    let items = vec![item("a", 1, 10), item("b", 2, 10), item("c", 3, 10)];
    let mut j = TransferJob::new(0, ProcessType::Move, 9, ConflictPolicy::Overwrite, items);
    j.settle_item(0, true);
    j.settle_item(1, false);
    // The job keeps running: the remaining item is still attempted.
    assert!(matches!(j.state(), JobState::Running));
    j.settle_item(2, true);
    assert!(matches!(j.state(), JobState::Failed));
    assert_eq!(j.failed_items().as_slice(), &[1usize]);
    // Most of the job still went through.
    assert_eq!(j.transferred_bytes(), 20);
}

#[test]
fn settling_an_item_completes_its_bytes() {
    let items = vec![item("a", 1, 80)];
    let mut j = TransferJob::new(0, ProcessType::Copy, 9, ConflictPolicy::Overwrite, items);
    j.report_progress(0, 30);
    assert_eq!(j.transferred_bytes(), 30);
    j.settle_item(0, true);
    assert_eq!(j.transferred_bytes(), 80);
    assert!(matches!(j.state(), JobState::Completed));
}

#[test]
fn reports_on_terminal_jobs_change_nothing() {
    let mut j = TransferJob::new(0, ProcessType::Copy, 9, ConflictPolicy::Overwrite, vec![item("a", 1, 10)]);
    j.settle_item(0, false);
    assert!(matches!(j.state(), JobState::Failed));
    let before = j.transferred_bytes();
    j.report_progress(0, 10);
    assert_eq!(j.transferred_bytes(), before);
    assert!(matches!(j.state(), JobState::Failed));
}

#[test]
fn jobs_carry_their_conflict_policy() {
    let j = TransferJob::new(0, ProcessType::Copy, 9, ConflictPolicy::Skip, vec![item("a", 1, 1)]);
    assert!(matches!(j.on_conflict(), ConflictPolicy::Skip));
    let k = TransferJob::new(1, ProcessType::Copy, 9, ConflictPolicy::Overwrite, vec![]);
    assert!(matches!(k.on_conflict(), ConflictPolicy::Overwrite));
}

#[test]
fn permille_matches_the_exact_formula() {
    let mut j = TransferJob::new(0, ProcessType::Copy, 9, ConflictPolicy::Overwrite, vec![item("a", 1, 3)]);
    j.report_progress(0, 1);
    // 1 * 1000 / 3 == 333, rounded down.
    assert_eq!(j.progress_permille(), 333);
    j.report_progress(0, 2);
    assert_eq!(j.progress_permille(), 666);
}
