use iocp_selector::{AfdGroup, POLL_GROUP_MAX_GROUP_SIZE};

#[test]
fn empty_pool_needs_a_poll_handle() {
    let pool = AfdGroup::new();
    assert!(pool.needs_afd());
    assert_eq!(pool.len(), 0);
    assert!(!pool.is_member(0));
    assert_eq!(pool.strong_count(0), 0);
}

#[test]
fn first_socket_allocates_the_first_member() {
    let mut pool = AfdGroup::new();
    assert_eq!(pool.acquire(), 0);
    assert!(pool.is_member(0));
    assert_eq!(pool.strong_count(0), 2);
    assert!(!pool.needs_afd());
}

#[test]
fn a_member_serves_thirty_two_sockets() {
    assert_eq!(POLL_GROUP_MAX_GROUP_SIZE, 32);
    let mut pool = AfdGroup::new();
    for _ in 0..32 {
        assert_eq!(pool.acquire(), 0);
    }
    assert_eq!(pool.strong_count(0), 33);
    assert!(pool.needs_afd());
    assert_eq!(pool.acquire(), 1);
    assert_eq!(pool.len(), 2);
    assert_eq!(pool.strong_count(0), 33);
    assert_eq!(pool.strong_count(1), 2);
}

#[test]
fn release_keeps_the_pools_own_reference() {
    let mut pool = AfdGroup::new();
    pool.acquire();
    pool.release(0);
    assert_eq!(pool.strong_count(0), 1);
    pool.release(0);
    assert_eq!(pool.strong_count(0), 1);
    pool.release(5);
    assert_eq!(pool.len(), 1);
}

#[test]
fn unused_member_is_reclaimed() {
    let mut pool = AfdGroup::new();
    pool.acquire();
    pool.release_unused_afd();
    assert!(pool.is_member(0));
    pool.release(0);
    pool.release_unused_afd();
    assert!(!pool.is_member(0));
    assert_eq!(pool.len(), 0);
    assert!(pool.needs_afd());
}

#[test]
fn members_keep_their_names_when_an_earlier_one_is_reclaimed() {
    let mut pool = AfdGroup::new();
    for _ in 0..33 {
        pool.acquire();
    }
    for _ in 0..32 {
        pool.release(0);
    }
    pool.release_unused_afd();
    assert!(!pool.is_member(0));
    assert!(pool.is_member(1));
    assert_eq!(pool.strong_count(1), 2);
    assert_eq!(pool.len(), 2);
    assert_eq!(pool.acquire(), 1);
    assert_eq!(pool.strong_count(1), 3);
}

#[test]
fn the_last_member_is_the_one_that_is_handed_out() {
    let mut pool = AfdGroup::new();
    for _ in 0..33 {
        pool.acquire();
    }
    pool.release(1);
    pool.release_unused_afd();
    assert_eq!(pool.len(), 1);
    assert!(pool.needs_afd());
    pool.release(0);
    assert!(!pool.needs_afd());
    assert_eq!(pool.acquire(), 0);
}
