use netsim::beacon::{parse_addr, Address, AdvertiseTimer};

#[test]
fn test_parse_addr_succeeds() {
    let addr = parse_addr("be:ac:12:34:00:0f");
    assert_eq!(Address::try_from_u64(0xbe_ac_12_34_00_0f).unwrap(), addr.unwrap());
}

#[test]
fn test_parse_empty_addr_succeeds() {
    let addr = parse_addr("00:00:00:00:00:00");
    assert_eq!(Address::try_from_u64(0).unwrap(), addr.unwrap());
}

#[test]
fn test_parse_addr_fails() {
    let addr = parse_addr("hi mom!");
    assert!(addr.is_err());
}

#[test]
fn test_parse_invalid_addr_fails() {
    let addr = parse_addr("56:78:9a:bc:de:fg");
    assert!(addr.is_err());
}

#[test]
fn test_parse_long_addr_fails() {
    let addr = parse_addr("55:55:55:55:55:55:55:55");
    assert!(addr.is_err());
}

#[test]
fn test_advertise_timer() {
    let mut t = AdvertiseTimer::new();
    assert!(t.tick(100, Some(1000), 50));
    assert_eq!((t.advertise_start, t.advertise_last), (Some(100), Some(100)));
    // Not again within the interval.
    assert!(!t.tick(150, Some(1000), 50));
    assert_eq!(t.advertise_last, Some(100));
    assert!(t.tick(151, Some(1000), 50));
    assert_eq!((t.advertise_start, t.advertise_last), (Some(100), Some(151)));
    // Silent once the advertising has lasted longer than the timeout.
    assert!(t.tick(1100, Some(1000), 50));
    assert!(!t.tick(1101, Some(1000), 50));
    // Without a timeout it goes on.
    assert!(t.tick(5000, None, 50));
}
