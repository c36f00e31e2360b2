use toad::config::Config;
use toad::retry::{Attempts, RetryTimer, Strategy, WouldBlock, YouShould};
use toad::time::{Instant, Millis};

#[test]
fn delay_retrier() {
    let now = |ms: u64| Instant::new(ms);
    let mut retry = RetryTimer::new(now(0),
                                    Strategy::Delay { min: Millis(1000), max: Millis(1000) },
                                    Attempts(5));

    // attempt 1 happens before asking what_should_i_do

    assert_eq!(retry.what_should_i_do(now(999)).unwrap_err(), WouldBlock);
    assert_eq!(retry.what_should_i_do(now(1000)).unwrap(), YouShould::Retry);
    // Fails again (attempt 2)

    assert_eq!(retry.what_should_i_do(now(1999)).unwrap_err(), WouldBlock);
    assert_eq!(retry.what_should_i_do(now(2000)).unwrap(), YouShould::Retry);
    // Fails again (attempt 3)

    assert_eq!(retry.what_should_i_do(now(10_000)).unwrap(), YouShould::Retry);
    // Fails again (attempt 4)

    // the retrier only tracks now vs total time waited, not time since the
    // last attempt
    assert_eq!(retry.what_should_i_do(now(10_000)).unwrap(), YouShould::Retry);
    // Fails again (attempt 5)

    assert_eq!(retry.what_should_i_do(now(10_000)).unwrap(), YouShould::Cry);
}

#[test]
fn exponential_retrier() {
    let now = |ms: u64| Instant::new(ms);
    let mut retry = RetryTimer::new(now(0),
                                    Strategy::Exponential { init_min: Millis(1000),
                                                            init_max: Millis(1000) },
                                    Attempts(6));

    assert_eq!(retry.what_should_i_do(now(999)).unwrap_err(), WouldBlock);
    assert_eq!(retry.what_should_i_do(now(1000)).unwrap(), YouShould::Retry);
    assert_eq!(retry.what_should_i_do(now(1999)).unwrap_err(), WouldBlock);
    assert_eq!(retry.what_should_i_do(now(2000)).unwrap(), YouShould::Retry);
    assert_eq!(retry.what_should_i_do(now(3999)).unwrap_err(), WouldBlock);
    assert_eq!(retry.what_should_i_do(now(4000)).unwrap(), YouShould::Retry);
    assert_eq!(retry.what_should_i_do(now(8_000)).unwrap(), YouShould::Retry);
    assert_eq!(retry.what_should_i_do(now(16_000)).unwrap(), YouShould::Retry);
    assert_eq!(retry.what_should_i_do(now(16_000)).unwrap(), YouShould::Cry);
}

#[test]
fn exp_calculation() {
    let init = Millis(100);
    assert_eq!(Strategy::total_delay_exp(init, 1), 100);
    assert_eq!(Strategy::total_delay_exp(init, 2), 200);
    assert_eq!(Strategy::total_delay_exp(init, 3), 400);
}

#[test]
fn cry_stays_cry() {
    let mut retry = RetryTimer::new(Instant::new(0),
                                    Strategy::Delay { min: Millis(10), max: Millis(10) },
                                    Attempts(1));
    assert_eq!(retry.what_should_i_do(Instant::new(5)).unwrap(), YouShould::Cry);
    assert_eq!(retry.what_should_i_do(Instant::new(50_000)).unwrap(), YouShould::Cry);
}

#[test]
fn jittered_first_delay_is_within_range() {
    for start in [0u64, 7, 12345, 99_999] {
        let strategy = Strategy::Delay { min: Millis(100), max: Millis(200) };
        let retry = RetryTimer::new(Instant::new(start), strategy, Attempts(3));
        let next = retry.next_attempt_at().0 - start;
        assert!((100..=200).contains(&next));
        // the same start time draws the same delay
        let again = RetryTimer::new(Instant::new(start), strategy, Attempts(3));
        assert_eq!(retry, again);
    }
}

#[test]
fn with_delay_schedules_from_start() {
    let retry = RetryTimer::with_delay(Instant::new(50),
                                       Strategy::Exponential { init_min: Millis(1),
                                                               init_max: Millis(9) },
                                       Attempts(4),
                                       Millis(30));
    assert_eq!(retry.next_attempt_at(), Instant::new(80));
    assert_eq!(retry.first_attempted_at(), Instant::new(50));
    assert_eq!(retry.last_attempted_at(), Instant::new(50));
}

#[test]
fn strategy_helpers() {
    let s = Strategy::Delay { min: Millis(3), max: Millis(3) };
    assert!(!s.has_jitter());
    assert_eq!(s.range(), 3..=3);
    assert_eq!(s.max_time(Attempts(4)), Millis(12));
    let e = Strategy::Exponential { init_min: Millis(1), init_max: Millis(5) };
    assert!(e.has_jitter());
    assert_eq!(e.max_time(Attempts(4)), Millis(40));
}

#[test]
fn attempts_arithmetic() {
    assert_eq!(Attempts(2) + Attempts(3), Attempts(5));
    assert_eq!(Attempts(4) - Attempts(1), Attempts(3));
    assert_eq!(Attempts(4) * Attempts(2), Attempts(8));
}

#[test]
fn default_config_timings() {
    let c = Config::default();
    assert_eq!(c.max_concurrent_requests, 1);
    assert_eq!(c.msg.token_seed, 0);
    assert_eq!(c.msg.con.max_attempts, Attempts(4));
    assert_eq!(c.max_transmit_span_millis(), 8000);
    assert_eq!(c.max_transmit_wait_millis(), 16000);
    assert_eq!(c.max_latency_millis(), 100_000);
    assert_eq!(c.expected_processing_delay_millis(), 200);
    assert_eq!(c.exchange_lifetime_millis(), 208_200);
}

#[test]
fn instants_wrap() {
    let late = Instant::new(5);
    let early = Instant::new(u64::MAX - 4);
    assert!(late.is_not_before(&early));
    assert!(!early.is_not_before(&late));
    assert_eq!(early.checked_add(Millis(10)), Some(Instant::new(5)));
    assert_eq!(early.checked_add(Millis(u64::MAX)), None);
}

#[test]
fn a_timer_can_be_asked_while_its_delay_fits() {
    let delay = Strategy::Delay { min: Millis(0), max: Millis(0) };
    assert!(RetryTimer::with_delay(Instant::new(0), delay, Attempts(4), Millis(1_000)).can_ask());
    assert!(!RetryTimer::with_delay(Instant::new(0), delay, Attempts(4), Millis(u64::MAX)).can_ask());
    // a timer that has given up can always be asked
    assert!(RetryTimer::with_delay(Instant::new(0), delay, Attempts(1), Millis(u64::MAX)).can_ask());
    let exp = Strategy::Exponential { init_min: Millis(0), init_max: Millis(0) };
    assert!(RetryTimer::with_delay(Instant::new(0), exp, Attempts(4), Millis(1_000)).can_ask());
}
