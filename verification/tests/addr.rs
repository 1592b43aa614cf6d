use rusty_valve::addr::display::{ip_string, list_string, number_string, socket_string};
use rusty_valve::addr::{parse_ip, parse_ipv4, IpAddr, SocketAddr};

#[test]
fn version_four_addresses() {
    assert_eq!(parse_ipv4("0.0.0.0"), Some(0));
    assert_eq!(parse_ipv4("255.255.255.255"), Some(u32::MAX));
    assert_eq!(parse_ipv4("1.2.3.4"), Some(0x01020304));
    for text in ["", "1.2.3", "1.2.3.4.5", "1.2.3.256", "01.2.3.4", "1.2.3.+4", "1..3.4", " 1.2.3.4"] {
        assert_eq!(parse_ipv4(text), None, "{}", text);
    }
}

#[test]
fn version_six_addresses() {
    assert_eq!(parse_ip("::"), Some(IpAddr::V6(0)));
    assert_eq!(parse_ip("::1"), Some(IpAddr::V6(1)));
    assert_eq!(parse_ip("1::"), Some(IpAddr::V6(0x00010000000000000000000000000000)));
    assert_eq!(
        parse_ip("1:2:3:4:5:6:7:8"),
        Some(IpAddr::V6(0x00010002000300040005000600070008))
    );
    assert_eq!(
        parse_ip("2001:DB8::ff00:42:8329"),
        Some(IpAddr::V6(0x20010db8000000000000ff0000428329))
    );
    assert_eq!(parse_ip("::ffff:1.2.3.4"), Some(IpAddr::V6(0xffff01020304)));
    assert_eq!(
        parse_ip("1:2:3:4:5:6:1.2.3.4"),
        Some(IpAddr::V6(0x00010002000300040005000601020304))
    );
    for text in [
        ":", ":::", "1:2:3:4:5:6:7", "1:2:3:4:5:6:7:8:9", "1::2::3", "12345::", "g::", "1.2.3.4::",
        "1:2:3:4:5:6:7::8:9", "[::1]", "::1%1", "1:2:3:4:5:6:7:1.2.3.4",
    ] {
        assert_eq!(parse_ip(text), None, "{}", text);
    }
}

#[test]
fn addresses_are_written() {
    assert_eq!(ip_string(IpAddr::V4(0x7f000001)), "127.0.0.1");
    assert_eq!(ip_string(IpAddr::V4(u32::MAX)), "255.255.255.255");
    assert_eq!(ip_string(IpAddr::V6(0)), "::");
    assert_eq!(ip_string(IpAddr::V6(1)), "::1");
    assert_eq!(ip_string(IpAddr::V6(0xffff01020304)), "::ffff:1.2.3.4");
    assert_eq!(ip_string(IpAddr::V6(0x00010000000000000000000000000000)), "1::");
    // the first of two runs that are equally long
    assert_eq!(ip_string(IpAddr::V6(0x00010000000000020003000000000004)), "1::2:3:0:0:4");
    // the longer of two runs
    assert_eq!(ip_string(IpAddr::V6(0x00010000000000020000000000000004)), "1:0:0:2::4");
    // a single zero is written
    assert_eq!(ip_string(IpAddr::V6(0x0001000000020003000400050006abcd)), "1:0:2:3:4:5:6:abcd");
}

#[test]
fn addresses_are_read_back() {
    for ip in [
        IpAddr::V4(0),
        IpAddr::V4(0x0a0b0c0d),
        IpAddr::V4(u32::MAX),
        IpAddr::V6(0),
        IpAddr::V6(1),
        IpAddr::V6(0xffff01020304),
        IpAddr::V6(0x00010000000000020003000000000004),
        IpAddr::V6(0x0001000000020003000400050006abcd),
        IpAddr::V6(0x00010002000300040000000000000000),
        IpAddr::V6(u128::MAX),
    ] {
        assert_eq!(parse_ip(&ip_string(ip)), Some(ip));
    }
}

#[test]
fn sockets_lists_and_numbers_are_written() {
    assert_eq!(socket_string(SocketAddr::new(IpAddr::V4(1), 80)), "0.0.0.1:80");
    assert_eq!(socket_string(SocketAddr::new(IpAddr::V6(1), 80)), "[::1]:80");
    assert_eq!(list_string(&vec![]), "[]");
    assert_eq!(list_string(&vec![IpAddr::V4(1), IpAddr::V6(2)]), "[0.0.0.1, ::2]");
    assert_eq!(number_string(0, 10), "0");
    assert_eq!(number_string(4096, 10), "4096");
    assert_eq!(number_string(0xfeed, 16), "feed");
}

#[test]
fn addresses_have_an_order() {
    assert!(IpAddr::V4(1).is_before(IpAddr::V4(2)));
    assert!(IpAddr::V4(u32::MAX).is_before(IpAddr::V6(0)));
    assert!(!IpAddr::V6(0).is_before(IpAddr::V4(1)));
    assert!(IpAddr::V6(1).is_before(IpAddr::V6(2)));
    assert!(!IpAddr::V6(2).is_before(IpAddr::V6(2)));
}
