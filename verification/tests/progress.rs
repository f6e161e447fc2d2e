use linreg::schedule::{is_progress_epoch, progress_epochs};

#[test]
fn benchmark_schedule_is_every_two_hundredth() {
    assert_eq!(progress_epochs(1000, 200), vec![200, 400, 600, 800, 1000]);
}

#[test]
fn per_epoch_test_agrees_with_the_listed_schedule() {
    let mut seen: Vec<u64> = Vec::new();
    let mut epoch: u64 = 1;
    while epoch <= 1000 {
        if is_progress_epoch(epoch, 200) {
            seen.push(epoch);
        }
        epoch += 1;
    }
    assert_eq!(seen, vec![200, 400, 600, 800, 1000]);
}

#[test]
fn interval_not_dividing_the_run() {
    assert_eq!(progress_epochs(1000, 300), vec![300, 600, 900]);
}

#[test]
fn run_shorter_than_the_interval() {
    assert_eq!(progress_epochs(100, 200), Vec::<u64>::new());
    assert_eq!(progress_epochs(0, 200), Vec::<u64>::new());
}

#[test]
fn interval_of_one_reports_every_epoch() {
    assert_eq!(progress_epochs(5, 1), vec![1, 2, 3, 4, 5]);
}

#[test]
fn single_epochs() {
    assert!(is_progress_epoch(200, 200));
    assert!(is_progress_epoch(400, 200));
    assert!(!is_progress_epoch(199, 200));
    assert!(!is_progress_epoch(201, 200));
    assert!(!is_progress_epoch(999, 200));
}
