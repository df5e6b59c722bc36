use light_client::scheduler::{JobId, Scheduler, SchedulerAction, YieldOnce, YieldPoll};

#[test]
fn a_new_scheduler_waits_for_jobs() {
    let mut scheduler = Scheduler::new();
    assert!(scheduler.accepts());
    assert!(!scheduler.is_closed());
    assert!(scheduler.is_idle());
    assert_eq!(scheduler.next_action(), SchedulerAction::Wait);
}

#[test]
fn jobs_are_numbered_in_the_order_of_submission() {
    let mut scheduler = Scheduler::new();
    assert_eq!(scheduler.submit(), JobId(0));
    assert_eq!(scheduler.submit(), JobId(1));
    assert_eq!(scheduler.submit(), JobId(2));
    assert!(!scheduler.is_idle());
}

#[test]
fn jobs_are_polled_in_turn() {
    let mut scheduler = Scheduler::new();
    let a = scheduler.submit();
    let b = scheduler.submit();
    let c = scheduler.submit();
    let polled: Vec<SchedulerAction> = (0..7).map(|_| scheduler.next_action()).collect();
    assert_eq!(
        polled,
        vec![
            SchedulerAction::Poll(a),
            SchedulerAction::Poll(b),
            SchedulerAction::Poll(c),
            SchedulerAction::Poll(a),
            SchedulerAction::Poll(b),
            SchedulerAction::Poll(c),
            SchedulerAction::Poll(a),
        ]
    );
}

#[test]
fn run_stops_exactly_when_closed_and_no_job_remains() {
    let mut scheduler = Scheduler::new();
    let a = scheduler.submit();
    assert_eq!(scheduler.next_action(), SchedulerAction::Poll(a));
    scheduler.close();
    assert!(scheduler.is_closed());
    assert!(!scheduler.accepts());
    // Closed, but a job remains: the run goes on.
    assert_eq!(scheduler.next_action(), SchedulerAction::Poll(a));
    assert!(scheduler.job_completed(a));
    assert_eq!(scheduler.next_action(), SchedulerAction::Stop);
    assert_eq!(scheduler.next_action(), SchedulerAction::Stop);
}

#[test]
fn an_open_queue_without_jobs_does_not_stop_the_run() {
    let mut scheduler = Scheduler::new();
    let a = scheduler.submit();
    assert!(scheduler.job_completed(a));
    assert_eq!(scheduler.next_action(), SchedulerAction::Wait);
    let b = scheduler.submit();
    assert_eq!(scheduler.next_action(), SchedulerAction::Poll(b));
}

#[test]
fn a_submission_made_during_a_poll_cycle_is_merged_without_loss() {
    let mut scheduler = Scheduler::new();
    let a = scheduler.submit();
    let b = scheduler.submit();
    assert_eq!(scheduler.next_action(), SchedulerAction::Poll(a));
    // `a` submits a job while it is being polled.
    let c = scheduler.submit();
    assert_eq!(scheduler.next_action(), SchedulerAction::Poll(b));
    assert_eq!(scheduler.next_action(), SchedulerAction::Poll(a));
    assert_eq!(scheduler.next_action(), SchedulerAction::Poll(c));
    assert_eq!(scheduler.next_action(), SchedulerAction::Poll(b));
}

#[test]
fn a_completed_job_is_not_polled_again() {
    let mut scheduler = Scheduler::new();
    let a = scheduler.submit();
    let b = scheduler.submit();
    assert_eq!(scheduler.next_action(), SchedulerAction::Poll(a));
    assert!(scheduler.job_completed(a));
    assert!(!scheduler.job_completed(a));
    assert_eq!(scheduler.next_action(), SchedulerAction::Poll(b));
    assert_eq!(scheduler.next_action(), SchedulerAction::Poll(b));
    assert!(!scheduler.job_completed(JobId(99)));
}

#[test]
fn a_job_that_was_never_polled_can_complete() {
    let mut scheduler = Scheduler::new();
    let a = scheduler.submit();
    let b = scheduler.submit();
    assert!(scheduler.job_completed(b));
    scheduler.close();
    assert_eq!(scheduler.next_action(), SchedulerAction::Poll(a));
    assert!(scheduler.job_completed(a));
    assert!(scheduler.is_idle());
    assert_eq!(scheduler.next_action(), SchedulerAction::Stop);
}

#[test]
fn yield_once_suspends_once_then_is_ready() {
    let mut point = YieldOnce::new();
    assert_eq!(point.poll(), YieldPoll::WakeAndSuspend);
    assert_eq!(point.poll(), YieldPoll::Ready);
    assert_eq!(point.poll(), YieldPoll::Ready);
}

#[test]
fn yield_once_can_be_armed_again() {
    let mut point = YieldOnce::new();
    assert_eq!(point.poll(), YieldPoll::WakeAndSuspend);
    assert_eq!(point.poll(), YieldPoll::Ready);
    point.rearm();
    assert_eq!(point.poll(), YieldPoll::WakeAndSuspend);
    assert_eq!(point.poll(), YieldPoll::Ready);
}
