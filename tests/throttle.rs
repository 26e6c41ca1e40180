use suon_network::peer::PeerAddr;
use suon_network::settings::Settings;
use suon_network::throttle::{AttemptError, Throttle};

const ADDRESS: PeerAddr = PeerAddr::V4 { ip: 0x7F00_0001, port: 8080 };
const START: u64 = 1_000_000;

#[test]
fn test_first_attempt_succeeds() {
    let mut throttle = Throttle::new(Settings::default());
    let result = throttle.attempt_connection(&ADDRESS, START);
    assert!(result.is_ok(), "The first attempt should always succeed for a new address");
}

#[test]
fn test_fast_repeated_attempt_returns_fast_attempt_error() {
    let mut throttle = Throttle::new(Settings::default());
    assert!(
        throttle.attempt_connection(&ADDRESS, START).is_ok(),
        "Initial attempt should be allowed"
    );
    let result = throttle.attempt_connection(&ADDRESS, START);
    assert_eq!(
        result,
        Err(AttemptError::TooFast),
        "A fast repeated attempt should return AttemptError::TooFast"
    );
}

#[test]
fn test_exceeding_max_attempts_blocks_address() {
    let mut throttle = Throttle::new(Settings::default());
    let policy = throttle.policy();
    let mut now = START;
    for _ in 0..policy.max_attempts {
        assert!(
            throttle.attempt_connection(&ADDRESS, now).is_ok(),
            "Attempt within the limit should succeed"
        );
        now += policy.fast_attempt_threshold + 10;
    }
    let result = throttle.attempt_connection(&ADDRESS, now);
    assert!(
        matches!(result, Err(AttemptError::Blocked { .. })),
        "Exceeding the maximum allowed attempts should block the address"
    );
}

#[test]
fn test_blocked_address_extends_block_duration_on_repeated_attempts() {
    let mut throttle = Throttle::new(Settings::default());
    let policy = throttle.policy();
    let mut now = START;
    for _ in 0..=policy.max_attempts {
        let _ = throttle.attempt_connection(&ADDRESS, now);
        now += policy.fast_attempt_threshold + 10;
    }
    let until_first = match throttle.attempt_connection(&ADDRESS, now) {
        Err(AttemptError::Blocked { until }) => until,
        _ => panic!("Expected the first blocked attempt to return AttemptError::Blocked"),
    };
    let until_second = match throttle.attempt_connection(&ADDRESS, now) {
        Err(AttemptError::Blocked { until }) => until,
        _ => panic!("Expected the second blocked attempt to return AttemptError::Blocked"),
    };
    assert!(
        until_second > until_first,
        "The block duration should be extended on repeated blocked attempts"
    );
}

#[test]
fn block_and_extension_use_exponential_backoff() {
    let mut throttle = Throttle::new(Settings::default());
    let mut now = START;
    for _ in 0..5 {
        assert_eq!(throttle.attempt_connection(&ADDRESS, now), Ok(()));
        now += 510;
    }
    // Sixth attempt inside the window: blocked for block_duration * 2^0.
    assert_eq!(
        throttle.attempt_connection(&ADDRESS, now),
        Err(AttemptError::Blocked { until: now + 3000 })
    );
    // While blocked: extended by penalty_backoff * 2^1 (one penalty so far).
    assert_eq!(
        throttle.attempt_connection(&ADDRESS, now),
        Err(AttemptError::Blocked { until: now + 3000 + 500 })
    );
}

#[test]
fn block_expires_and_attempts_restart() {
    let mut throttle = Throttle::new(Settings::default());
    let mut now = START;
    for _ in 0..6 {
        let _ = throttle.attempt_connection(&ADDRESS, now);
        now += 510;
    }
    let until = match throttle.attempt_connection(&ADDRESS, now) {
        Err(AttemptError::Blocked { until }) => until,
        other => panic!("unexpected {:?}", other),
    };
    assert_eq!(throttle.attempt_connection(&ADDRESS, until), Ok(()));
}

#[test]
fn attempts_outside_window_are_forgotten() {
    let mut throttle = Throttle::new(Settings::default());
    let mut now = START;
    for _ in 0..20 {
        assert_eq!(throttle.attempt_connection(&ADDRESS, now), Ok(()));
        now += 1300;
    }
}

#[test]
fn addresses_are_throttled_independently() {
    let other = PeerAddr::V6 { ip: 1, port: 8080, flowinfo: 0, scope_id: 0 };
    let mut throttle = Throttle::new(Settings::default());
    assert_eq!(throttle.attempt_connection(&ADDRESS, START), Ok(()));
    assert_eq!(throttle.attempt_connection(&other, START), Ok(()));
    assert_eq!(throttle.attempt_connection(&ADDRESS, START), Err(AttemptError::TooFast));
}
