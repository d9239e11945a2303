use taskbench::retry::{ReadRetry, RetryPolicy, RetryStep};
use taskbench::unit::{basic_plan, heavy_plan};

fn drive(policy: RetryPolicy, outcomes: &[bool]) -> (Vec<RetryStep>, Option<bool>, usize) {
    let mut read = ReadRetry::new(policy);
    let steps = outcomes.iter().map(|&ok| read.record(ok)).collect();
    (steps, read.verdict(), read.failures())
}

#[test]
fn nine_failures_then_a_success_is_a_success() {
    let policy = basic_plan().retry;
    let mut outcomes = vec![false; 9];
    outcomes.push(true);
    let (steps, verdict, failures) = drive(policy, &outcomes);
    assert_eq!(&steps[..9], &vec![RetryStep::Wait { millis: 10 }; 9][..]);
    assert_eq!(steps[9], RetryStep::Deliver);
    assert_eq!(verdict, Some(true));
    assert_eq!(failures, 9);
}

#[test]
fn ten_failures_are_a_failure() {
    let policy = basic_plan().retry;
    let (steps, verdict, failures) = drive(policy, &[false; 10]);
    assert_eq!(&steps[..9], &vec![RetryStep::Wait { millis: 10 }; 9][..]);
    assert_eq!(steps[9], RetryStep::GiveUp);
    assert_eq!(verdict, Some(false));
    assert_eq!(failures, 10);
}

#[test]
fn a_success_after_the_last_attempt_comes_too_late() {
    let policy = heavy_plan().retry;
    let mut outcomes = vec![false; 10];
    outcomes.push(true);
    let (steps, verdict, failures) = drive(policy, &outcomes);
    assert_eq!(steps[10], RetryStep::GiveUp);
    assert_eq!(verdict, Some(false));
    assert_eq!(failures, 10);
}

#[test]
fn a_first_success_needs_no_wait() {
    let (steps, verdict, failures) = drive(heavy_plan().retry, &[true]);
    assert_eq!(steps, vec![RetryStep::Deliver]);
    assert_eq!(verdict, Some(true));
    assert_eq!(failures, 0);
}

#[test]
fn a_read_that_succeeded_stays_a_success() {
    let (steps, verdict, failures) = drive(heavy_plan().retry, &[false, true, false, false]);
    assert_eq!(
        steps,
        vec![RetryStep::Wait { millis: 10 }, RetryStep::Deliver, RetryStep::Deliver, RetryStep::Deliver]
    );
    assert_eq!(verdict, Some(true));
    assert_eq!(failures, 1);
}

#[test]
fn a_failed_heavy_attempt_waits_ten_milliseconds() {
    let policy = heavy_plan().retry;
    for failures in 0..9 {
        assert_eq!(policy.after_attempt(failures, false), RetryStep::Wait { millis: 10 });
    }
    assert_eq!(policy.after_attempt(9, false), RetryStep::GiveUp);
    let (steps, verdict, _) = drive(policy, &[false; 9]);
    assert_eq!(steps, vec![RetryStep::Wait { millis: 10 }; 9]);
    assert_eq!(verdict, None);
}

#[test]
fn fewer_failures_than_attempts_leave_the_read_undecided() {
    let (_, verdict, failures) = drive(basic_plan().retry, &[false; 4]);
    assert_eq!(verdict, None);
    assert_eq!(failures, 4);
}

#[test]
fn after_attempt_decides_by_the_number_of_failures() {
    let policy = RetryPolicy { max_attempts: 3, backoff_ms: 15 };
    assert_eq!(policy.after_attempt(0, false), RetryStep::Wait { millis: 15 });
    assert_eq!(policy.after_attempt(1, false), RetryStep::Wait { millis: 15 });
    assert_eq!(policy.after_attempt(2, false), RetryStep::GiveUp);
    assert_eq!(policy.after_attempt(2, true), RetryStep::Deliver);
    assert_eq!(policy.after_attempt(usize::MAX, false), RetryStep::GiveUp);
}

#[test]
fn a_policy_of_one_attempt_never_waits() {
    let policy = RetryPolicy { max_attempts: 1, backoff_ms: 15 };
    assert_eq!(drive(policy, &[false]), (vec![RetryStep::GiveUp], Some(false), 1));
    let none = RetryPolicy { max_attempts: 0, backoff_ms: 15 };
    assert_eq!(drive(none, &[false]), (vec![RetryStep::GiveUp], Some(false), 1));
}
