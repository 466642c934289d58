use arrows::addr::Addr;
use arrows::config::Config;
use arrows::address::Address;
use arrows::text::IpValue;

fn config() -> Config {
    Config::with_values("127.0.0.1", 7171, "/tmp", "target/debug/arrows", 1)
}

fn ip(a: u32, b: u32, c: u32, d: u32) -> u32 {
    a * 16777216 + b * 65536 + c * 256 + d
}

#[test]
fn addr_create_addr_test1() {
    let config = config();
    let addr1 = Addr::new("add1", &config);
    let addr2 = Addr::new("add1", &config);
    assert_eq!(addr1.get_id(), addr2.get_id());
}

#[test]
fn addr_create_addr_test2() {
    let config = config();
    let addr1 = Addr::new("add1", &config);
    let (ip, port) = addr1.get_socket_addr().unwrap();
    println!("address is local: {}", is_loopback(ip));
    assert!(is_loopback(ip));
    assert_eq!(port, 7171);
    assert!(addr1.is_local_ip(None));
}

fn is_loopback(ip: IpValue) -> bool {
    match ip {
        IpValue::V4(v) => v / 16777216 == 127,
        IpValue::V6(v) => v == 1,
    }
}

#[test]
fn addr_create_addr_test3() {
    let config = config();
    let addr2 = Addr::new("add2", &config);
    assert!(addr2.is_local(&config, None));
}

#[test]
fn addr_create_addr_change_port_test_1() {
    // The node listens on port 6161.
    let config = Config::with_values("127.0.0.1", 6161, "/tmp", "target/debug/arrows", 1);
    let mut addr = Addr::new("addr", &config);
    let id = addr.get_id();
    assert!(addr.is_local(&config, None));
    addr.with_port(7171);
    assert_ne!(addr.get_id(), id);
    addr.with_port(6161);
    assert_eq!(addr.get_id(), id);
}

#[test]
fn addr_create_addr_change_ip_test1() {
    // The machine's own address is 10.160.0.2.
    let machine = Some(ip(10, 160, 0, 2));
    let config = config();
    let mut addr = Addr::new("add", &config);
    assert!(addr.is_local(&config, machine));
    let id = addr.get_id();
    // An invalid ip does not alter anything.
    addr.with_ip("300.300.300.300");
    assert_eq!(addr.get_id(), id);
    addr.with_ip("10.160.0.2");
    assert!(addr.is_local(&config, machine));
    println!("{}", addr.to_string());
}

#[test]
fn addr_remote_splits_host_and_port() {
    let config = config();
    let a = Addr::remote("actor1", "10.10.10.10:8181", &config);
    assert_eq!(a.get_host().map(|h| h.as_str()), Some("10.10.10.10"));
    assert_eq!(a.get_port(), Some(8181));
    assert!(!a.is_local(&config, None));
    let b = Addr::remote("actor1", "10.10.10.10:notaport", &config);
    assert_eq!(b.get_port(), Some(7171));
    let c = Addr::remote("actor1", "10.10.10.10", &config);
    assert_eq!(c.get_port(), None);
}

#[test]
fn addr_with_ip_accepts_ipv6_texts() {
    let config = config();
    for text in ["::1", "1:2:3:4:5:6:7:8", "::ffff:1.2.3.4", "fe80::1", "1::", "::"] {
        let mut a = Addr::new("a", &config);
        let id = a.get_id();
        a.with_ip(text);
        assert_eq!(a.get_host().map(|h| h.as_str()), Some(text));
        assert_ne!(a.get_id(), id);
    }
    for text in ["1:2:3:4:5:6:7", ":::1", "1::2::3", "12345::", "::1.2.3", "01.2.3.4", "1.2.3.4::"] {
        let mut a = Addr::new("a", &config);
        let id = a.get_id();
        a.with_ip(text);
        assert_eq!(a.get_id(), id);
    }
}

#[test]
fn addr_as_bytes_is_bincode_of_fields() {
    let config = config();
    let a = Addr::new("add1", &config);
    let expected = bincode::serialize(&(
        a.get_id(),
        a.get_name().clone(),
        Some("default".to_string()),
        Some("system".to_string()),
        Some("127.0.0.1".to_string()),
        Some(7171u16),
    ))
    .unwrap();
    assert_eq!(a.as_bytes(), expected);
}

#[test]
fn addr_port_round_trip() {
    let config = config();
    let mut a = Addr::new("a", &config);
    let original = a.clone();
    a.with_port(9999);
    assert_ne!(a, original);
    a.with_port(7171);
    assert_eq!(a, original);
}

#[test]
fn addr_text_shows_name_host_and_port() {
    let config = config();
    let a = Addr::new("add1", &config);
    assert_eq!(a.to_string(), "Addr { name: \"add1\", host: \"127.0.0.1\", port: Some(7171) }");
}

#[test]
fn address_create_addr_test1() {
    let addr1 = Address::new("add1", "127.0.0.1", 7171);
    let addr2 = Address::new("add1", "127.0.0.1", 7171);
    assert_eq!(addr1.get_id(), addr2.get_id());
}

#[test]
fn address_create_addr_test2() {
    let addr1 = Address::new("add1", "127.0.0.1", 7171);
    let (ip, port) = addr1.get_socket_addr().unwrap();
    println!("address is local: {}", is_loopback(ip));
    assert!(is_loopback(ip));
    assert_eq!(port, 7171);
}

#[test]
fn addr_socket_addr_needs_ip_host_and_port() {
    let config = config();
    let remote = Addr::remote("far", "10.1.2.3:8080", &config);
    assert_eq!(remote.get_socket_addr(), Some((IpValue::V4(ip(10, 1, 2, 3)), 8080)));
    let named = Addr::remote("far", "example.org:8080", &config);
    assert_eq!(named.get_socket_addr(), None);
}

#[test]
fn address_create_addr_test3() {
    let addr2 = Address::new("add2", "127.0.0.1", 7171);
    assert_eq!(addr2.is_local(None), true);
}

#[test]
fn address_create_addr_change_port_test_1() {
    let mut addr = Address::new("addr", "127.0.0.1", 7171);
    let id = addr.get_id();
    assert_eq!(addr.is_local(None), true);
    addr.with_port(7171);
    assert_eq!(addr.get_id(), id);
    addr.with_port(7172);
    assert_ne!(addr.get_id(), id);
}

#[test]
fn address_create_addr_change_ip_test1() {
    // The machine's own address is 10.160.0.2.
    let machine = Some(ip(10, 160, 0, 2));
    let mut addr = Address::new("add", "127.0.0.1", 7171);
    assert_eq!(addr.is_local(machine), true);
    let id = addr.get_id();
    addr.with_ip("300.300.300.300");
    assert_eq!(addr.get_id(), id);
    addr.with_ip("10.160.0.2");
    assert_eq!(addr.is_local(machine), true);
}

#[test]
fn check_hostip_and_port_test1() {
    let addr = Address::new("add", "127.0.0.1", 7171);
    println!("{:?}", addr);
    assert_eq!(addr.get_host(), Some("127.0.0.1"));
    assert_eq!(addr.get_port(), Some(7171));
}

#[test]
fn addr_host_ip_is_read_as_ipv4() {
    let config = Config::with_values("10.0.0.7", 7171, "/tmp", "target/debug/arrows", 1);
    let addr = Addr::new("host", &config);
    assert_eq!(addr.get_host_ip(), IpValue::V4(ip(10, 0, 0, 7)));
}

#[test]
fn addr_ip_is_local_only_for_the_configured_host() {
    let config = config();
    assert!(Addr::is_ip_local(IpValue::V4(ip(127, 0, 0, 1)), &config));
    assert!(!Addr::is_ip_local(IpValue::V4(ip(127, 0, 0, 2)), &config));
    let v6 = Config::with_values("::1", 7171, "/tmp", "target/debug/arrows", 1);
    assert!(Addr::is_ip_local(IpValue::V6(1), &v6));
    assert!(!Addr::is_ip_local(IpValue::V4(ip(127, 0, 0, 1)), &v6));
}
