use xposeit::pool::{max_permits_value, ListenerLeases, ListenerPool};
use xposeit::server::ServerError;

#[test]
fn acquire_pops_the_last_listener() {
    let mut pool = ListenerPool::new(vec![9001u16, 9002, 9003]);
    assert_eq!(pool.available(), 3);
    assert_eq!(pool.acquire(), Some(9003));
    assert_eq!(pool.available(), 2);
    assert_eq!(pool.acquire(), Some(9002));
    assert_eq!(pool.acquire(), Some(9001));
    assert_eq!(pool.acquire(), None);
    assert_eq!(pool.available(), 0);
}

#[test]
fn released_listener_is_handed_out_next() {
    let mut pool = ListenerPool::new(vec![7u16]);
    assert_eq!(pool.acquire(), Some(7));
    pool.release(7);
    assert_eq!(pool.acquire(), Some(7));
    pool.release(8);
    pool.release(9);
    assert_eq!(pool.available(), 2);
    assert_eq!(pool.acquire(), Some(9));
}

#[test]
fn leases_take_permits_then_listeners() {
    let mut leases = ListenerLeases::new(vec![1u16, 2]);
    assert_eq!(leases.available(), 2);
    assert!(leases.try_reserve());
    assert!(leases.try_reserve());
    assert!(!leases.try_reserve());
    assert_eq!(leases.take_reserved(), Ok(2));
    assert_eq!(leases.take_reserved(), Ok(1));
    assert_eq!(leases.take_reserved(), Err(ServerError::PoolOutOfSync));
    assert_eq!(leases.available(), 0);
}

#[test]
fn give_back_restores_permit_and_listener() {
    let mut leases = ListenerLeases::new(vec![10u16, 20]);
    assert!(leases.try_reserve());
    let l = leases.take_reserved().unwrap();
    assert_eq!(l, 20);
    leases.give_back(l);
    assert_eq!(leases.available(), 2);
    assert!(leases.try_reserve());
    assert_eq!(leases.take_reserved(), Ok(20));
    assert!(leases.try_reserve());
    assert!(!leases.try_reserve());
}

#[test]
fn empty_leases_never_grant() {
    let mut leases: ListenerLeases<u16> = ListenerLeases::new(Vec::new());
    assert!(!leases.try_reserve());
    leases.give_back(5);
    assert!(leases.try_reserve());
    assert_eq!(leases.take_reserved(), Ok(5));
}

#[test]
fn permit_limit_is_tokios() {
    assert_eq!(max_permits_value(), tokio::sync::Semaphore::MAX_PERMITS);
}
