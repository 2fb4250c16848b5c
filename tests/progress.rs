use rust_learning::progress::{ProgressTracker, Status, Topic, TOPIC_COUNT};
use rust_learning::projects::calculator::CalculatorHistory;
use rust_learning::utils::Timer;

#[test]
fn test_progress_tracker() {
    let mut tracker = ProgressTracker::new();
    let percentage =
        |t: &ProgressTracker| t.completed_count() as f64 / t.total_count() as f64 * 100.0;

    assert_eq!(tracker.completed_count(), 0);
    assert_eq!(percentage(&tracker), 0.0);

    tracker.update_status(Topic::Variables, Status::Completed);
    tracker.update_status(Topic::Functions, Status::InProgress);

    assert_eq!(tracker.completed_count(), 1);
    assert!(percentage(&tracker) > 0.0);

    assert_eq!(tracker.get_status(&Topic::Variables), Some(&Status::Completed));
}

#[test]
fn test_timer() {
    let timer = Timer::new();
    let start = std::time::Instant::now();
    while start.elapsed() < std::time::Duration::from_millis(10) {}
    assert!(timer.elapsed_ms() >= 10);
}

#[test]
fn tracker_counts_every_topic() {
    let mut tracker = ProgressTracker::default();
    assert_eq!(tracker.total_count(), 27);
    assert_eq!(TOPIC_COUNT, 27);
    assert_eq!(tracker.get_status(&Topic::FileSearch), Some(&Status::NotStarted));
    tracker.update_status(Topic::FileSearch, Status::Completed);
    tracker.update_status(Topic::Threads, Status::Completed);
    tracker.update_status(Topic::Threads, Status::NeedsReview);
    assert_eq!(tracker.completed_count(), 1);
    assert_eq!(tracker.total_count(), 27);
    assert_eq!(Topic::Variables.index(), 0);
    assert_eq!(Topic::FileSearch.index(), 26);
}

#[test]
fn calculator_history_records_and_clears() {
    let mut history = CalculatorHistory::new();
    assert!(history.entries().is_empty());
    history.record(String::from("5 + 3 = 8"));
    history.record(String::from("10 / 2 = 5"));
    assert_eq!(history.entries().len(), 2);
    assert_eq!(history.entries()[1], "10 / 2 = 5");
    history.clear_history();
    assert!(history.entries().is_empty());
}
