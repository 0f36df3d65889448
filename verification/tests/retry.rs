use hotprices_au_rs::retry::{RetryPolicy, RetryStep};

fn retry_status_error(code: u16, text: &str) -> Result<ureq::Response, ureq::Error> {
    Err(ureq::Error::Status(code, ureq::Response::new(code, text, "")?))
}

#[test]
fn retry_test_no_retry() {
    let policy = RetryPolicy::new(1, 0);

    let retry_counter = std::cell::RefCell::new(0);
    let result = policy
        .retry(
            || {
                *retry_counter.borrow_mut() += 1;
                ureq::Response::new(200, "OK", "")
            },
            |_| {},
        )
        .unwrap();
    assert_eq!(result.status(), 200);
    assert_eq!(retry_counter.into_inner(), 1);
}

#[test]
fn retry_test_retry_once() {
    let policy = RetryPolicy::new(2, 0);

    let retry_counter = std::cell::RefCell::new(0);
    let result = policy
        .retry(
            || {
                let mut retry_counter_ref = retry_counter.borrow_mut();
                *retry_counter_ref += 1;
                if *retry_counter_ref == 1 {
                    retry_status_error(500, "Internal Server Error")
                } else {
                    ureq::Response::new(200, "OK", "")
                }
            },
            |_| {},
        )
        .unwrap();
    assert_eq!(result.status(), 200);
    assert_eq!(retry_counter.into_inner(), 2);
}

#[test]
fn retry_test_retry_fail() {
    let policy = RetryPolicy::new(2, 0);

    let retry_counter = std::cell::RefCell::new(0);
    let err = policy
        .retry(
            || {
                let mut retry_counter_ref = retry_counter.borrow_mut();
                *retry_counter_ref += 1;
                retry_status_error(500, "Internal Server Error")
            },
            |_| {},
        )
        .unwrap_err();
    assert_eq!(err.attempts, 2);
    let err: ureq::Error = err.source;
    let status = match err {
        ureq::Error::Status(status, _) => status,
        _ => panic!("Unexpected error invariant"),
    };
    assert_eq!(status, 500);
    assert_eq!(retry_counter.into_inner(), 2);
}

#[test]
fn test_retry_reset_on_success() {
    let policy = RetryPolicy::new(2, 0);

    let retry_counter = std::cell::RefCell::new(0);
    let result = policy
        .retry(
            || {
                let mut retry_counter_ref = retry_counter.borrow_mut();
                *retry_counter_ref += 1;
                if *retry_counter_ref == 1 {
                    retry_status_error(500, "Internal Server Error")
                } else {
                    ureq::Response::new(200, "OK", "")
                }
            },
            |_| {},
        )
        .unwrap();
    assert_eq!(result.status(), 200);
    assert_eq!(retry_counter.into_inner(), 2);

    // Try a second request, expect it to use a new retry counter
    let retry_counter = std::cell::RefCell::new(0);
    let result = policy
        .retry(
            || {
                let mut retry_counter_ref = retry_counter.borrow_mut();
                *retry_counter_ref += 1;
                if *retry_counter_ref == 1 {
                    retry_status_error(500, "Internal Server Error")
                } else {
                    ureq::Response::new(200, "OK", "")
                }
            },
            |_| {},
        )
        .unwrap();
    assert_eq!(result.status(), 200);
    assert_eq!(retry_counter.into_inner(), 2);
}

#[test]
fn http_test_no_retry() {
    let policy = RetryPolicy::new(1, 0);

    let retry_counter = std::cell::RefCell::new(0);
    let result = policy
        .retry(
            || {
                *retry_counter.borrow_mut() += 1;
                Ok::<ureq::Response, ureq::Error>(ureq::Response::new(200, "OK", "")?)
            },
            |_| {},
        )
        .unwrap();
    assert_eq!(result.status(), 200);
    assert_eq!(retry_counter.into_inner(), 1);
}

#[test]
fn http_test_retry_once() {
    let policy = RetryPolicy::new(2, 0);

    let retry_counter = std::cell::RefCell::new(0);
    let result = policy
        .retry(
            || {
                let mut retry_counter_ref = retry_counter.borrow_mut();
                *retry_counter_ref += 1;
                if *retry_counter_ref == 1 {
                    retry_status_error(500, "Internal Server Error")
                } else {
                    Ok(ureq::Response::new(200, "OK", "")?)
                }
            },
            |_| {},
        )
        .unwrap();
    assert_eq!(result.status(), 200);
    assert_eq!(retry_counter.into_inner(), 2);
}

#[test]
fn http_test_retry_fail() {
    let policy = RetryPolicy::new(2, 0);

    let retry_counter = std::cell::RefCell::new(0);
    let err = policy
        .retry(
            || {
                let mut retry_counter_ref = retry_counter.borrow_mut();
                *retry_counter_ref += 1;
                retry_status_error(500, "Internal Server Error")
            },
            |_| {},
        )
        .unwrap_err();
    let status = match err.source {
        ureq::Error::Status(status, _) => status,
        _ => panic!("Unexpected error invariant"),
    };
    assert_eq!(status, 500);
    assert_eq!(retry_counter.into_inner(), 2);
}

fn retry_fails_twice_then_succeeds(total: u32) -> (Result<u32, (u32, &'static str)>, u32, Vec<u128>) {
    let policy = RetryPolicy::new(total, 3_000_000_000);
    let calls = std::cell::RefCell::new(0u32);
    let pauses = std::cell::RefCell::new(Vec::new());
    let result = policy.retry(
        || {
            let mut calls = calls.borrow_mut();
            *calls += 1;
            if *calls <= 2 {
                Err("failed")
            } else {
                Ok(*calls)
            }
        },
        |nanos| pauses.borrow_mut().push(nanos),
    );
    (
        result.map_err(|e| (e.attempts, e.source)),
        calls.into_inner(),
        pauses.into_inner(),
    )
}

#[test]
fn three_attempts_reach_the_third_call() {
    let (result, calls, pauses) = retry_fails_twice_then_succeeds(3);
    assert_eq!(result, Ok(3));
    assert_eq!(calls, 3);
    assert_eq!(pauses, vec![1_000_000_000, 2_000_000_000]);
}

#[test]
fn two_attempts_end_with_the_second_failure() {
    let (result, calls, pauses) = retry_fails_twice_then_succeeds(2);
    assert_eq!(result, Err((2, "failed")));
    assert_eq!(calls, 2);
    assert_eq!(pauses, vec![1_000_000_000]);
}

#[test]
fn backoff_doubles_up_to_the_limit() {
    let policy = RetryPolicy::new(10, 120_000_000_000);
    let seconds: Vec<u128> = (0..9)
        .map(|i| policy.get_backoff_time(i) / 1_000_000_000)
        .collect();
    assert_eq!(seconds, vec![1, 2, 4, 8, 16, 32, 64, 120, 120]);
    assert_eq!(policy.get_backoff_time(200), 120_000_000_000);
    assert_eq!(policy.get_backoff_time(u32::MAX), 120_000_000_000);
    let short = RetryPolicy::new(3, 500_000_000);
    assert_eq!(short.get_backoff_time(0), 500_000_000);
    let unlimited = RetryPolicy::new(3, u128::MAX);
    assert_eq!(unlimited.get_backoff_time(3), 8_000_000_000);
    assert_eq!(unlimited.get_backoff_time(4000), u128::MAX);
}

#[test]
fn a_failure_is_followed_by_a_pause_while_tries_remain() {
    let policy = RetryPolicy::new(3, 120_000_000_000);
    assert_eq!(policy.after_failure(0), RetryStep::Backoff(1_000_000_000));
    assert_eq!(policy.after_failure(1), RetryStep::Backoff(2_000_000_000));
    assert_eq!(policy.after_failure(2), RetryStep::GiveUp);
    assert_eq!(policy.after_failure(7), RetryStep::GiveUp);
    let default = RetryPolicy::default();
    assert_eq!(default.after_failure(8), RetryStep::Backoff(120_000_000_000));
    assert_eq!(default.after_failure(9), RetryStep::GiveUp);
}
