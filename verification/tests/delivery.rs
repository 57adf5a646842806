use same_alerter::sender::{
    delivery_report, retry_decision, MessageSender, RetryAction, MAX_ATTEMPTS,
    MIN_SEND_INTERVAL_MS, RETRY_DELAY_MS,
};

#[test]
fn first_send_needs_no_wait() {
    let sender = MessageSender::new();
    assert_eq!(sender.wait_before_send(0), 0);
    assert_eq!(sender.wait_before_send(123456), 0);
}

#[test]
fn wait_counts_down_from_the_last_success() {
    let mut sender = MessageSender::new();
    sender.record_success(1000);
    assert_eq!(sender.wait_before_send(1000), MIN_SEND_INTERVAL_MS);
    assert_eq!(sender.wait_before_send(5000), 16000);
    assert_eq!(sender.wait_before_send(20999), 1);
    assert_eq!(sender.wait_before_send(21000), 0);
    assert_eq!(sender.wait_before_send(1_000_000), 0);
}

#[test]
fn successive_sends_are_at_least_the_interval_apart() {
    let mut sender = MessageSender::new();
    let t1: u64 = 7000;
    sender.record_success(t1);
    // The engine releases the second send no earlier than t1 plus the wait
    // it demands; that instant is never less than an interval after t1.
    let now: u64 = 9000;
    let t2 = now + sender.wait_before_send(now);
    assert!(t2 - t1 >= MIN_SEND_INTERVAL_MS);
    sender.record_success(t2);
    assert_eq!(sender.last_send_ms, Some(27000));
}

#[test]
fn retry_decisions_follow_the_policy() {
    assert_eq!(retry_decision(0, true), RetryAction::Succeeded);
    assert_eq!(retry_decision(3, true), RetryAction::Succeeded);
    assert_eq!(retry_decision(0, false), RetryAction::RetryAfterMs(RETRY_DELAY_MS));
    assert_eq!(retry_decision(2, false), RetryAction::RetryAfterMs(RETRY_DELAY_MS));
    assert_eq!(retry_decision(3, false), RetryAction::Failed);
}

#[test]
fn failing_every_attempt_logs_exactly_one_failure() {
    let outcomes = vec![false; MAX_ATTEMPTS as usize];
    let report = delivery_report(&outcomes);
    assert!(!report.delivered);
    assert_eq!(report.attempts_made, MAX_ATTEMPTS);
    assert_eq!(report.failures_logged, 1);
}

#[test]
fn first_success_stops_the_attempts() {
    let report = delivery_report(&vec![false, true, false, false]);
    assert!(report.delivered);
    assert_eq!(report.attempts_made, 2);
    assert_eq!(report.failures_logged, 0);

    let report = delivery_report(&vec![true, false, false, false]);
    assert!(report.delivered);
    assert_eq!(report.attempts_made, 1);
    assert_eq!(report.failures_logged, 0);

    let report = delivery_report(&vec![false, false, false, true]);
    assert!(report.delivered);
    assert_eq!(report.attempts_made, 4);
    assert_eq!(report.failures_logged, 0);
}
