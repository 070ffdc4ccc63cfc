use batch_download::coordinator::{BatchCoordinator, Step};
use batch_download::naming::{file_name, push_decimal, NamingCounter};
use batch_download::outcome::{group_result, DownloadError};
use batch_download::plan::{concurrency_cap, group_bounds, group_count, DEFAULT_MAX_WORKERS};
use batch_download::progress::progress_for;
use std::collections::HashSet;

/// Runs a batch of `total` tasks against mock responses: `fails(task)` says
/// whether the download of that task fails. Returns the file names written,
/// the peak number of workers alive at once, the number of groups and the
/// final step.
fn run_mock(total: usize, maximum: usize, fails: &dyn Fn(usize) -> bool) -> (Vec<String>, usize, usize, Step) {
    let mut c = BatchCoordinator::new(total, maximum);
    let mut files = Vec::new();
    let mut live: Vec<usize> = Vec::new();
    let mut peak = 0;
    let mut groups = 0;
    loop {
        match c.next_step() {
            Step::Spawn { task, file_number } => {
                live.push(task);
                peak = peak.max(live.len());
                if !fails(task) {
                    files.push(file_name(file_number, "svg"));
                }
            }
            Step::JoinGroup => {
                let outcomes: Vec<Result<(), DownloadError>> = live
                    .drain(..)
                    .map(|t| if fails(t) { Err(DownloadError::Transport) } else { Ok(()) })
                    .collect();
                groups += 1;
                c.group_joined(group_result(&outcomes).is_ok());
            }
            s => return (files, peak, groups, s),
        }
    }
}

#[test]
fn progress_reports_written_and_declared() {
    let body = b"hello";
    let p = progress_for(body.len() as u64, Some(5));
    assert_eq!(p.bytes_downloaded, 5);
    assert_eq!(p.total_bytes, 5);
}

#[test]
fn progress_without_content_length_is_zero() {
    let p = progress_for(1234, None);
    assert_eq!(p.bytes_downloaded, 1234);
    assert_eq!(p.total_bytes, 0);
    let p = progress_for(0, None);
    assert_eq!(p.total_bytes, 0);
}

#[test]
fn cap_is_min_of_maximum_and_batch() {
    assert_eq!(concurrency_cap(DEFAULT_MAX_WORKERS, 1000), 50);
    assert_eq!(concurrency_cap(DEFAULT_MAX_WORKERS, 7), 7);
    assert_eq!(concurrency_cap(DEFAULT_MAX_WORKERS, 50), 50);
    assert_eq!(concurrency_cap(DEFAULT_MAX_WORKERS, 0), 0);
    assert_eq!(concurrency_cap(2, 5), 2);
    for n in 1..200 {
        assert!(concurrency_cap(DEFAULT_MAX_WORKERS, n) > 0);
    }
}

#[test]
fn groups_are_ceil_and_full_but_last() {
    assert_eq!(group_count(5, 2), 3);
    assert_eq!(group_count(4, 2), 2);
    assert_eq!(group_count(1000, 50), 20);
    assert_eq!(group_count(0, 0), 0);
    assert_eq!(group_count(1, 1), 1);
    assert_eq!(group_bounds(5, 2, 0), (0, 2));
    assert_eq!(group_bounds(5, 2, 1), (2, 4));
    assert_eq!(group_bounds(5, 2, 2), (4, 5));
    assert_eq!(group_bounds(1000, 50, 19), (950, 1000));
}

#[test]
fn file_names_are_decimal() {
    assert_eq!(file_name(1, "svg"), "test-1.svg");
    assert_eq!(file_name(0, "svg"), "test-0.svg");
    assert_eq!(file_name(1000, "png"), "test-1000.png");
    assert_eq!(file_name(u64::MAX, "svg"), format!("test-{}.svg", u64::MAX));
    let mut s = String::from("n=");
    push_decimal(&mut s, 907);
    assert_eq!(s, "n=907");
}

#[test]
fn counter_hands_out_one_two_three() {
    let mut c = NamingCounter::new();
    assert_eq!(c.current(), 0);
    assert_eq!(c.claim(), 1);
    assert_eq!(c.claim(), 2);
    assert_eq!(c.claim(), 3);
    assert_eq!(c.current(), 3);
}

#[test]
fn five_successes_with_cap_two_write_five_distinct_files() {
    let (files, peak, groups, last) = run_mock(5, 2, &|_| false);
    assert_eq!(last, Step::Finished);
    assert_eq!(files.len(), 5);
    let distinct: HashSet<&String> = files.iter().collect();
    assert_eq!(distinct.len(), 5);
    assert_eq!(peak, 2);
    assert_eq!(groups, 3);
}

#[test]
fn a_failure_stops_later_groups() {
    let (files, _, groups, last) = run_mock(5, 2, &|t| t == 2);
    assert_eq!(last, Step::Failed);
    assert_eq!(groups, 2);
    assert_eq!(files, vec!["test-1.svg".to_string(), "test-2.svg".to_string(), "test-4.svg".to_string()]);
}

#[test]
fn distinct_names_for_every_batch_size() {
    for n in 0..120 {
        let (files, peak, groups, last) = run_mock(n, DEFAULT_MAX_WORKERS, &|_| false);
        assert_eq!(last, Step::Finished);
        let distinct: HashSet<&String> = files.iter().collect();
        assert_eq!(distinct.len(), n);
        assert!(peak <= concurrency_cap(DEFAULT_MAX_WORKERS, n));
        assert_eq!(groups, group_count(n, concurrency_cap(DEFAULT_MAX_WORKERS, n)));
    }
}

#[test]
fn two_fresh_runs_write_the_same_names() {
    let (a, _, _, _) = run_mock(7, 3, &|_| false);
    let (b, _, _, _) = run_mock(7, 3, &|_| false);
    let a: HashSet<String> = a.into_iter().collect();
    let b: HashSet<String> = b.into_iter().collect();
    assert_eq!(a, b);
}

#[test]
fn steps_follow_the_groups() {
    let mut c = BatchCoordinator::new(3, 2);
    assert_eq!(c.cap(), 2);
    assert_eq!(c.total(), 3);
    assert_eq!(c.next_step(), Step::Spawn { task: 0, file_number: 1 });
    assert_eq!(c.next_step(), Step::Spawn { task: 1, file_number: 2 });
    assert_eq!(c.in_flight(), 2);
    assert_eq!(c.next_step(), Step::JoinGroup);
    assert_eq!(c.next_step(), Step::JoinGroup);
    c.group_joined(true);
    assert_eq!(c.in_flight(), 0);
    assert_eq!(c.next_step(), Step::Spawn { task: 2, file_number: 3 });
    assert_eq!(c.next_step(), Step::JoinGroup);
    c.group_joined(true);
    assert_eq!(c.dispatched(), 3);
    assert_eq!(c.next_step(), Step::Finished);
    assert!(!c.failed());
}

#[test]
fn empty_batch_finishes_at_once() {
    let mut c = BatchCoordinator::new(0, DEFAULT_MAX_WORKERS);
    assert_eq!(c.cap(), 0);
    assert_eq!(c.next_step(), Step::Finished);
}

#[test]
fn group_result_reports_first_error() {
    assert_eq!(group_result(&vec![]), Ok(()));
    assert_eq!(group_result(&vec![Ok(()), Ok(())]), Ok(()));
    assert_eq!(
        group_result(&vec![Ok(()), Err(DownloadError::Filesystem), Err(DownloadError::Transport)]),
        Err(DownloadError::Filesystem)
    );
    assert_eq!(group_result(&vec![Err(DownloadError::WorkerPanic)]), Err(DownloadError::WorkerPanic));
}
