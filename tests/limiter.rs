use suon_network::limiter::{AcquireError, Limiter};
use suon_network::peer::PeerAddr;
use suon_network::settings::{PacketPolicy, SessionQuota, Settings};
use suon_network::packets::server::KeepAlivePacket;
use suon_network::tick::{accept_session, reap_finished, ReapOutcome};

const ADDRESS: PeerAddr = PeerAddr::V4 { ip: 0x7F00_0001, port: 8080 };
const OTHER: PeerAddr = PeerAddr::V4 { ip: 0x7F00_0001, port: 8081 };

#[test]
fn first_session_is_successfully_acquired() {
    let mut limiter = Limiter::with_session_quota(SessionQuota { max_total: 10, max_per_address: 5 });
    let result = limiter.try_acquire(ADDRESS);
    assert!(result.is_ok(), "The first session should be acquired successfully");
    assert_eq!(limiter.total_active_sessions(), 1, "Total active sessions should be 1");
    assert_eq!(
        limiter.active_sessions_for_address(ADDRESS),
        1,
        "Active sessions for the test address should be 1"
    );
}

#[test]
fn cannot_exceed_total_session_limit() {
    let mut limiter = Limiter::with_session_quota(SessionQuota { max_total: 1, max_per_address: 10 });
    assert!(limiter.try_acquire(ADDRESS).is_ok());
    let result = limiter.try_acquire(ADDRESS);
    assert!(
        matches!(result, Err(AcquireError::TotalReached { .. })),
        "Should return TotalReached when total limit is exceeded"
    );
    assert_eq!(limiter.total_active_sessions(), 1, "Total sessions should remain 1");
    assert_eq!(
        limiter.active_sessions_for_address(ADDRESS),
        1,
        "Active sessions for the address should remain 1"
    );
}

#[test]
fn cannot_exceed_sessions_per_address_limit() {
    let mut limiter = Limiter::with_session_quota(SessionQuota { max_total: 10, max_per_address: 2 });
    assert!(limiter.try_acquire(ADDRESS).is_ok());
    assert!(limiter.try_acquire(ADDRESS).is_ok());
    let result = limiter.try_acquire(ADDRESS);
    assert!(
        matches!(result, Err(AcquireError::PerAddressReached { .. })),
        "Should return PerAddressReached when per-address limit is exceeded"
    );
    assert_eq!(limiter.total_active_sessions(), 2, "Total sessions should be 2");
    assert_eq!(
        limiter.active_sessions_for_address(ADDRESS),
        2,
        "Active sessions for the address should be 2"
    );
}

#[test]
fn releasing_sessions_updates_counters_correctly() {
    let mut limiter = Limiter::with_session_quota(SessionQuota { max_total: 5, max_per_address: 3 });
    assert!(limiter.try_acquire(ADDRESS).is_ok());
    assert!(limiter.try_acquire(ADDRESS).is_ok());
    limiter.release(ADDRESS);
    assert_eq!(limiter.total_active_sessions(), 1, "Total sessions should be 1 after release");
    assert_eq!(
        limiter.active_sessions_for_address(ADDRESS),
        1,
        "Active sessions for the address should be 1 after release"
    );
    limiter.release(ADDRESS);
    assert_eq!(limiter.total_active_sessions(), 0, "All sessions should be released");
    assert_eq!(
        limiter.active_sessions_for_address(ADDRESS),
        0,
        "No active sessions should remain for the address"
    );
}

#[test]
fn per_address_ceiling_leaves_other_addresses_free() {
    let mut limiter = Limiter::with_session_quota(SessionQuota { max_total: 10, max_per_address: 2 });
    assert_eq!(limiter.try_acquire(ADDRESS), Ok(()));
    assert_eq!(limiter.try_acquire(ADDRESS), Ok(()));
    assert_eq!(
        limiter.try_acquire(ADDRESS),
        Err(AcquireError::PerAddressReached { addr: ADDRESS, max_per_addr: 2 })
    );
    assert_eq!(limiter.try_acquire(OTHER), Ok(()));
    assert_eq!(limiter.total_active_sessions(), 3);
}

#[test]
fn total_reached_reports_ceiling() {
    let mut limiter = Limiter::with_session_quota(SessionQuota { max_total: 0, max_per_address: 2 });
    assert_eq!(limiter.try_acquire(ADDRESS), Err(AcquireError::TotalReached { max_total: 0 }));
    assert_eq!(limiter.active_sessions_for_address(ADDRESS), 0);
}

#[test]
fn release_of_unknown_address_changes_nothing() {
    let mut limiter = Limiter::new(Settings::default());
    assert_eq!(limiter.try_acquire(ADDRESS), Ok(()));
    limiter.release(OTHER);
    assert_eq!(limiter.total_active_sessions(), 1);
    assert_eq!(limiter.active_sessions_for_address(ADDRESS), 1);
}

#[test]
fn counters_never_go_below_zero() {
    let mut limiter = Limiter::new(Settings::default());
    assert_eq!(limiter.try_acquire(ADDRESS), Ok(()));
    limiter.release(ADDRESS);
    limiter.release(ADDRESS);
    assert_eq!(limiter.total_active_sessions(), 0);
    assert_eq!(limiter.active_sessions_for_address(ADDRESS), 0);
}

#[test]
fn total_equals_sum_of_addresses() {
    let mut limiter = Limiter::new(Settings::default());
    for _ in 0..3 {
        let _ = limiter.try_acquire(ADDRESS);
        let _ = limiter.try_acquire(OTHER);
    }
    limiter.release(OTHER);
    assert_eq!(
        limiter.total_active_sessions(),
        limiter.active_sessions_for_address(ADDRESS) + limiter.active_sessions_for_address(OTHER)
    );
    assert!(limiter.active_sessions_for_address(ADDRESS) <= 2);
}

#[test]
fn release_of_drained_address_keeps_the_total() {
    let mut limiter = Limiter::with_session_quota(SessionQuota { max_total: 10, max_per_address: 2 });
    assert_eq!(limiter.try_acquire(ADDRESS), Ok(()));
    assert_eq!(limiter.try_acquire(OTHER), Ok(()));
    limiter.release(ADDRESS);
    limiter.release(ADDRESS);
    assert_eq!(limiter.active_sessions_for_address(ADDRESS), 0);
    assert_eq!(limiter.active_sessions_for_address(OTHER), 1);
    assert_eq!(limiter.total_active_sessions(), 1);
}

#[test]
fn reap_removes_only_matching_connections() {
    let mut limiter = Limiter::new(Settings::default());
    let mut connection = accept_session(&mut limiter, ADDRESS, PacketPolicy::default()).unwrap();
    assert_eq!(connection.addr(), ADDRESS);
    assert_eq!(limiter.total_active_sessions(), 1);
    assert_eq!(limiter.active_sessions_for_address(ADDRESS.host()), 1);
    connection.write(KeepAlivePacket).unwrap();
    let (outcome, batches) = reap_finished(&mut limiter, &mut connection, OTHER);
    assert_eq!(outcome, ReapOutcome::AddressMismatch);
    assert!(batches.is_empty());
    assert_eq!(limiter.total_active_sessions(), 1);
    let (outcome, batches) = reap_finished(&mut limiter, &mut connection, ADDRESS);
    assert_eq!(outcome, ReapOutcome::Removed);
    assert_eq!(batches.len(), 1);
    assert_eq!(limiter.total_active_sessions(), 0);
}

#[test]
fn accept_session_respects_quota() {
    let mut limiter = Limiter::with_session_quota(SessionQuota { max_total: 1, max_per_address: 1 });
    assert!(accept_session(&mut limiter, ADDRESS, PacketPolicy::default()).is_ok());
    assert!(matches!(
        accept_session(&mut limiter, OTHER, PacketPolicy::default()),
        Err(AcquireError::TotalReached { max_total: 1 })
    ));
}

#[test]
fn sessions_are_counted_per_host() {
    let mut limiter = Limiter::with_session_quota(SessionQuota { max_total: 10, max_per_address: 2 });
    assert!(accept_session(&mut limiter, ADDRESS, PacketPolicy::default()).is_ok());
    assert!(accept_session(&mut limiter, OTHER, PacketPolicy::default()).is_ok());
    assert!(matches!(
        accept_session(&mut limiter, PeerAddr::V4 { ip: 0x7F00_0001, port: 9000 }, PacketPolicy::default()),
        Err(AcquireError::PerAddressReached { max_per_addr: 2, .. })
    ));
    let elsewhere = PeerAddr::V4 { ip: 0x0A00_0002, port: 8080 };
    assert!(accept_session(&mut limiter, elsewhere, PacketPolicy::default()).is_ok());
}
