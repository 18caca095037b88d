use akiraka::scheduler::{retry_delay_ms, FailureKind, Scheduler};

/// Runs `n` tasks on `pool` workers; each task's outcome comes from `outcome`.
/// Outcomes come back oldest first, so several tasks are in flight at once.
fn drive(
    n: usize,
    pool: usize,
    max_attempts: usize,
    outcome: impl Fn(usize, usize) -> Result<(), FailureKind>,
) -> (Scheduler, usize, Vec<usize>) {
    let mut s = Scheduler::new(n, pool, max_attempts);
    let mut in_flight: Vec<usize> = Vec::new();
    let mut most = 0;
    let mut started = Vec::new();
    loop {
        while let Some(i) = s.next_task() {
            started.push(i);
            in_flight.push(i);
        }
        most = most.max(in_flight.len());
        if s.is_drained() {
            break;
        }
        let i = in_flight.remove(0);
        assert!(s.is_running(i));
        let attempt = s.attempts_of(i);
        s.finish(i, outcome(i, attempt));
    }
    (s, most, started)
}

#[test]
fn scheduler_drains_all_tasks() {
    let (s, most, started) = drive(7, 3, 1, |_, _| Ok(()));
    assert!(s.is_drained());
    assert_eq!(most, 3);
    assert_eq!(started, (0..7).collect::<Vec<_>>());
    let r = s.report();
    assert_eq!(r.succeeded, (0..7).collect::<Vec<_>>());
    assert!(r.failed.is_empty());
}

#[test]
fn one_failure_leaves_siblings() {
    let (s, _, _) = drive(10, 4, 1, |i, _| if i == 6 { Err(FailureKind::Network) } else { Ok(()) });
    let r = s.report();
    assert_eq!(r.succeeded, vec![0, 1, 2, 3, 4, 5, 7, 8, 9]);
    assert_eq!(r.failed, vec![(6, FailureKind::Network)]);
}

#[test]
fn pool_limits_running_tasks() {
    let mut s = Scheduler::new(5, 2, 1);
    assert_eq!(s.next_task(), Some(0));
    assert_eq!(s.next_task(), Some(1));
    assert_eq!(s.next_task(), None);
    assert!(!s.is_drained());
    s.finish(1, Err(FailureKind::Io));
    assert!(!s.is_running(1));
    assert_eq!(s.next_task(), Some(2));
    assert_eq!(s.next_task(), None);
}

#[test]
fn empty_scheduler_is_drained() {
    let mut s = Scheduler::new(0, 1, 1);
    assert!(s.is_drained());
    assert_eq!(s.next_task(), None);
    let r = s.report();
    assert!(r.succeeded.is_empty() && r.failed.is_empty());
}

#[test]
fn every_task_failing_is_reported() {
    let (s, _, _) = drive(3, 1, 2, |i, _| Err(if i == 1 { FailureKind::Archive } else { FailureKind::Io }));
    let r = s.report();
    assert!(r.succeeded.is_empty());
    assert_eq!(r.failed, vec![(0, FailureKind::Io), (1, FailureKind::Archive), (2, FailureKind::Io)]);
}

#[test]
fn network_failure_retried_until_attempts_run_out() {
    let flaky = |i: usize, attempt: usize| if i == 2 && attempt < 3 { Err(FailureKind::Network) } else { Ok(()) };
    let (s, _, started) = drive(4, 2, 3, flaky);
    let r = s.report();
    assert_eq!(r.succeeded, vec![0, 1, 2, 3]);
    assert!(r.failed.is_empty());
    assert_eq!(started.iter().filter(|&&i| i == 2).count(), 3);

    let (s, _, _) = drive(4, 2, 2, flaky);
    let r = s.report();
    assert_eq!(r.succeeded, vec![0, 1, 3]);
    assert_eq!(r.failed, vec![(2, FailureKind::Network)]);
}

#[test]
fn io_failure_not_retried() {
    let (s, _, started) = drive(2, 1, 5, |i, _| if i == 0 { Err(FailureKind::Io) } else { Ok(()) });
    assert_eq!(started, vec![0, 1]);
    assert_eq!(s.report().failed, vec![(0, FailureKind::Io)]);
}

#[test]
fn backoff_doubles_up_to_cap() {
    assert_eq!(retry_delay_ms(0), 0);
    assert_eq!(retry_delay_ms(1), 0);
    assert_eq!(retry_delay_ms(2), 500);
    assert_eq!(retry_delay_ms(3), 1000);
    assert_eq!(retry_delay_ms(4), 2000);
    assert_eq!(retry_delay_ms(7), 16000);
    assert_eq!(retry_delay_ms(8), 30000);
    assert_eq!(retry_delay_ms(1000), 30000);
}
