use nix_forecast::command::{installable_jobs, resolve_installables};
use nix_forecast::scheduler::Scheduler;

#[test]
fn jobs_start_in_order_up_to_the_limit() {
    let mut jobs: Scheduler<u8, String> = Scheduler::new(5, 2);
    assert_eq!(jobs.total(), 5);
    assert_eq!(jobs.next_job(), Some(0));
    assert_eq!(jobs.start(10), Some(0));
    assert_eq!(jobs.start(11), Some(1));
    assert_eq!(jobs.next_job(), None);
    assert_eq!(jobs.start(12), None);
    assert_eq!(jobs.in_flight(), 2);
    assert_eq!(jobs.state(0), Some(&10));
    assert_eq!(jobs.state(1), Some(&11));
    assert_eq!(jobs.state(2), None);
    assert_eq!(jobs.state(9), None);
}

#[test]
fn results_come_in_the_order_of_the_jobs() {
    let mut jobs: Scheduler<(), String> = Scheduler::new(3, 3);
    assert_eq!(jobs.start(()), Some(0));
    assert_eq!(jobs.start(()), Some(1));
    assert_eq!(jobs.start(()), Some(2));
    assert!(jobs.complete(2, "third".to_string()));
    assert!(jobs.complete(0, "first".to_string()));
    assert!(!jobs.is_complete());
    assert!(jobs.complete(1, "second".to_string()));
    assert!(jobs.is_complete());
    assert_eq!(jobs.progress(), 3);
    assert_eq!(jobs.in_flight(), 0);
    assert_eq!(jobs.into_results(), vec!["first", "second", "third"]);
}

#[test]
fn a_job_that_ended_makes_room_for_the_next() {
    let mut jobs: Scheduler<(), u32> = Scheduler::new(3, 1);
    assert_eq!(jobs.start(()), Some(0));
    assert_eq!(jobs.start(()), None);
    assert!(jobs.complete(0, 7));
    assert_eq!(jobs.start(()), Some(1));
    assert!(jobs.complete(1, 8));
    assert_eq!(jobs.start(()), Some(2));
    assert!(jobs.complete(2, 9));
    assert_eq!(jobs.start(()), None);
    assert_eq!(jobs.into_results(), vec![7, 8, 9]);
}

#[test]
fn only_a_running_job_can_end() {
    let mut jobs: Scheduler<u8, u32> = Scheduler::new(2, 2);
    assert!(!jobs.complete(0, 1));
    assert!(!jobs.fail(1));
    assert!(!jobs.advance(0, 5));
    assert_eq!(jobs.start(0), Some(0));
    assert!(jobs.advance(0, 5));
    assert_eq!(jobs.state(0), Some(&5));
    assert!(jobs.complete(0, 1));
    assert!(!jobs.complete(0, 2));
    assert!(!jobs.fail(0));
    assert!(!jobs.complete(2, 1));
    assert_eq!(jobs.progress(), 1);
}

#[test]
fn nothing_starts_after_a_job_failed() {
    let mut jobs: Scheduler<(), u32> = Scheduler::new(4, 2);
    assert_eq!(jobs.start(()), Some(0));
    assert_eq!(jobs.start(()), Some(1));
    assert!(!jobs.has_failed());
    assert!(jobs.fail(0));
    assert!(jobs.has_failed());
    assert_eq!(jobs.next_job(), None);
    assert_eq!(jobs.start(()), None);
    assert!(jobs.complete(1, 3));
    assert_eq!(jobs.start(()), None);
    assert!(!jobs.is_complete());
    assert_eq!(jobs.progress(), 2);
    assert_eq!(jobs.in_flight(), 0);
}

#[test]
fn a_job_can_fail_before_it_runs() {
    let mut jobs: Scheduler<(), u32> = Scheduler::new(2, 1);
    assert_eq!(jobs.reject(), Some(0));
    assert!(jobs.has_failed());
    assert_eq!(jobs.reject(), None);
    assert_eq!(jobs.progress(), 1);
    assert_eq!(jobs.in_flight(), 0);
}

#[test]
fn no_jobs_are_complete_at_once() {
    let jobs: Scheduler<(), u32> = Scheduler::new(0, 1);
    assert!(jobs.is_complete());
    assert_eq!(jobs.next_job(), None);
    assert_eq!(jobs.into_results(), Vec::<u32>::new());
}

#[test]
fn installables_are_evaluated_one_per_cpu() {
    let mut jobs = installable_jobs(10, 4);
    for job in 0..4 {
        assert_eq!(jobs.start(()), Some(job));
    }
    assert_eq!(jobs.start(()), None);
    assert_eq!(jobs.in_flight(), 4);
}

#[test]
fn installables_are_evaluated_one_at_a_time_without_a_cpu_count() {
    let mut jobs = installable_jobs(3, 0);
    assert_eq!(jobs.start(()), Some(0));
    assert_eq!(jobs.start(()), None);
}

#[test]
fn installables_are_evaluated_on_the_cpus_of_this_machine() {
    let installables: Vec<String> = (0..2000).map(|i| format!("nixpkgs#pkg{i}")).collect();
    let mut jobs = resolve_installables(&installables);
    assert_eq!(jobs.total(), 2000);
    let mut started = 0;
    while jobs.start(()).is_some() {
        started += 1;
    }
    assert_eq!(started, num_cpus::get().max(1).min(2000));
    assert_eq!(jobs.in_flight(), started);
}
