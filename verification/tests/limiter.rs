use memer::limiter::{
    command_check, decision_of, rate_limit_reply, CommandCheck, Decision, RateLimiter, Wait,
    REQUESTS_PER_MINUTE,
};

#[test]
fn budget_is_ten_per_minute() {
    assert_eq!(REQUESTS_PER_MINUTE, 10);
}

#[test]
fn a_burst_is_admitted_and_the_next_request_has_to_wait() {
    let limiter = RateLimiter::per_minute(10);
    for _ in 0..10 {
        assert_eq!(limiter.check(1), Decision::Admit);
    }
    match limiter.check(1) {
        Decision::Deny { retry_after } => {
            let nanos = retry_after.secs as u128 * 1_000_000_000 + retry_after.nanos as u128;
            assert!(nanos <= 6_000_000_000);
            assert!(retry_after.nanos < 1_000_000_000);
        }
        Decision::Admit => panic!("an eleventh request was admitted"),
    }
}

#[test]
fn at_most_the_burst_is_admitted_of_many_requests() {
    let limiter = RateLimiter::per_minute(3);
    let mut admitted = 0;
    for _ in 0..50 {
        if limiter.check(9) == Decision::Admit {
            admitted += 1;
        }
    }
    assert_eq!(admitted, 3);
}

#[test]
fn each_channel_has_a_budget_of_its_own() {
    let limiter = RateLimiter::per_minute(2);
    assert_eq!(limiter.check(1), Decision::Admit);
    assert_eq!(limiter.check(1), Decision::Admit);
    assert!(matches!(limiter.check(1), Decision::Deny { .. }));
    assert_eq!(limiter.check(2), Decision::Admit);
    assert_eq!(limiter.check(2), Decision::Admit);
    assert!(matches!(limiter.check(2), Decision::Deny { .. }));
}

#[test]
fn decision_of_an_answer() {
    assert_eq!(decision_of(None), Decision::Admit);
    assert_eq!(
        decision_of(Some(Wait { secs: 5, nanos: 7 })),
        Decision::Deny { retry_after: Wait { secs: 5, nanos: 7 } }
    );
}

#[test]
fn reply_tells_the_wait_in_words() {
    assert_eq!(
        rate_limit_reply(Wait { secs: 9420, nanos: 0 }),
        "This channel is sending too many requests! Try again in 2h 37m"
    );
    assert_eq!(
        rate_limit_reply(Wait { secs: 0, nanos: 32_000_000 }),
        "This channel is sending too many requests! Try again in 32ms"
    );
    assert_eq!(
        rate_limit_reply(Wait { secs: 5, nanos: 999_999_999 }),
        "This channel is sending too many requests! Try again in 5s 999ms 999us 999ns"
    );
    assert_eq!(
        rate_limit_reply(Wait { secs: 0, nanos: 0 }),
        "This channel is sending too many requests! Try again in 0s"
    );
}

#[test]
fn an_admitted_command_runs() {
    assert_eq!(command_check(Decision::Admit), CommandCheck { proceed: true, reply: None });
}

#[test]
fn a_refused_command_does_not_run_and_is_answered() {
    assert_eq!(
        command_check(Decision::Deny { retry_after: Wait { secs: 6, nanos: 0 } }),
        CommandCheck {
            proceed: false,
            reply: Some(
                "This channel is sending too many requests! Try again in 6s".to_string()
            ),
        }
    );
}
