use xposeit::config::MIN_POOL_SIZE;
use xposeit::ports::{check_server_options, BindError, OptionError, PortBinder};

#[test]
fn every_port_of_the_range_is_tried_once() {
    let mut b = PortBinder::new(9000, 9009, 100);
    let mut seen = Vec::new();
    while let Some(p) = b.next_port() {
        assert!((9000..=9009).contains(&p));
        assert!(!seen.contains(&p));
        seen.push(p);
    }
    assert_eq!(seen.len(), 10);
    assert_eq!(b.finish(), Err(BindError::TooFewPorts { bound: 0 }));
}

#[test]
fn binding_stops_at_capacity() {
    let mut b = PortBinder::new(9000, 9999, 3);
    let mut tried = 0;
    while let Some(_) = b.next_port() {
        tried += 1;
        b.port_bound();
    }
    assert_eq!(tried, 3);
    let s = b.finish().unwrap();
    assert_eq!(s.bound, 3);
    assert_eq!(s.requested, 3);
    assert!(!s.is_short());
}

#[test]
fn failed_binds_are_skipped() {
    let mut b = PortBinder::new(100, 104, 2);
    let mut n = 0;
    while let Some(_) = b.next_port() {
        n += 1;
        if n == 4 {
            b.port_bound();
        }
    }
    assert_eq!(n, 5);
    let s = b.finish().unwrap();
    assert_eq!(s.bound, 1);
    assert!(s.is_short());
}

#[test]
fn empty_range_binds_nothing() {
    let mut b = PortBinder::new(10, 9, 5);
    assert_eq!(b.next_port(), None);
    assert_eq!(b.finish(), Err(BindError::TooFewPorts { bound: 0 }));
}

#[test]
fn single_port_range() {
    let mut b = PortBinder::new(65535, 65535, 1);
    assert_eq!(b.next_port(), Some(65535));
    b.port_bound();
    assert_eq!(b.next_port(), None);
    assert_eq!(b.finish().unwrap().bound, 1);
}

#[test]
fn bound_without_a_tried_port_is_ignored() {
    let mut b = PortBinder::new(1, 5, 5);
    b.port_bound();
    assert_eq!(b.finish(), Err(BindError::TooFewPorts { bound: 0 }));
}

#[test]
fn too_few_ports_message() {
    assert_eq!(MIN_POOL_SIZE, 1);
    assert_eq!(
        BindError::TooFewPorts { bound: 0 }.message(),
        "only bound 0 port(s), minimum required is 1; check that the port range is wide enough and ports are not all taken"
    );
}

#[test]
fn server_options_are_checked_range_first() {
    assert_eq!(check_server_options(9000, 9999, 100), Ok(()));
    assert_eq!(check_server_options(9000, 9000, 1), Ok(()));
    assert_eq!(check_server_options(10, 9, 0), Err(OptionError::EmptyRange));
    assert_eq!(check_server_options(9, 10, 0), Err(OptionError::ZeroCapacity));
    assert_eq!(OptionError::EmptyRange.message(), "min_port must be <= max_port");
    assert_eq!(OptionError::ZeroCapacity.message(), "capacity must be > 0");
}
