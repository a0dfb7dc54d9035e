use wg_mesh::addr::IpAddress;
use wg_mesh::parse::{parse_ip, parse_prefix_len};

fn text(a: IpAddress) -> String {
    a.to_text()
}

#[test]
fn ipv4_text() {
    assert_eq!(text(IpAddress::V4(10, 0, 1, 2)), "10.0.1.2");
    assert_eq!(text(IpAddress::V4(255, 255, 0, 9)), "255.255.0.9");
}

#[test]
fn ipv6_text_canonical_forms() {
    let cases: Vec<([u16; 8], &str)> = vec![
        ([0, 0, 0, 0, 0, 0, 0, 0], "::"),
        ([0, 0, 0, 0, 0, 0, 0, 1], "::1"),
        ([0xfe80, 0, 0, 0, 0x1, 0x2, 0x3, 0x4], "fe80::1:2:3:4"),
        ([0x2001, 0xdb8, 0, 0, 1, 0, 0, 1], "2001:db8::1:0:0:1"),
        ([1, 0, 2, 0, 3, 0, 4, 0], "1:0:2:0:3:0:4:0"),
        ([0, 0, 0, 0, 0, 0xffff, 0x0a00, 0x0102], "::ffff:10.0.1.2"),
        ([0x2001, 0xdb8, 0, 1, 1, 1, 1, 1], "2001:db8:0:1:1:1:1:1"),
        ([1, 0, 0, 2, 0, 0, 0, 3], "1:0:0:2::3"),
        ([1, 0, 0, 0, 2, 0, 0, 0], "1::2:0:0:0"),
        ([0xabcd, 0xef01, 0x2345, 0x6789, 0xabcd, 0xef01, 0x2345, 0x6789], "abcd:ef01:2345:6789:abcd:ef01:2345:6789"),
        ([0, 0, 0, 0, 0, 0, 0x0102, 0x0304], "::102:304"),
    ];
    for (g, expected) in cases {
        assert_eq!(text(IpAddress::V6(g[0], g[1], g[2], g[3], g[4], g[5], g[6], g[7])), expected);
    }
}

#[test]
fn ipv6_text_examples() {
    assert_eq!(text(IpAddress::V6(0, 0, 0, 0, 0, 0, 0, 0)), "::");
    assert_eq!(text(IpAddress::V6(0, 0, 0, 0, 0, 0, 0, 1)), "::1");
    assert_eq!(text(IpAddress::V6(0x2001, 0xdb8, 0, 0, 1, 0, 0, 1)), "2001:db8::1:0:0:1");
    assert_eq!(text(IpAddress::V6(0, 0, 0, 0, 0, 0xffff, 0x0a00, 0x0102)), "::ffff:10.0.1.2");
    assert_eq!(text(IpAddress::V6(0x2001, 0xdb8, 0, 1, 1, 1, 1, 1)), "2001:db8:0:1:1:1:1:1");
}

#[test]
fn parse_ipv4() {
    assert_eq!(parse_ip("10.0.1.2"), Some(IpAddress::V4(10, 0, 1, 2)));
    assert_eq!(parse_ip("0.0.0.0"), Some(IpAddress::V4(0, 0, 0, 0)));
    assert_eq!(parse_ip("255.255.255.255"), Some(IpAddress::V4(255, 255, 255, 255)));
    assert_eq!(parse_ip("256.0.0.1"), None);
    assert_eq!(parse_ip("10.0.01.2"), None);
    assert_eq!(parse_ip("10.0.1"), None);
    assert_eq!(parse_ip("10.0.1.2.3"), None);
    assert_eq!(parse_ip(""), None);
    assert_eq!(parse_ip("a.b.c.d"), None);
}

#[test]
fn parse_ipv6() {
    assert_eq!(parse_ip("::"), Some(IpAddress::V6(0, 0, 0, 0, 0, 0, 0, 0)));
    assert_eq!(parse_ip("::1"), Some(IpAddress::V6(0, 0, 0, 0, 0, 0, 0, 1)));
    assert_eq!(parse_ip("fe80::"), Some(IpAddress::V6(0xfe80, 0, 0, 0, 0, 0, 0, 0)));
    assert_eq!(parse_ip("FE80::1:2"), Some(IpAddress::V6(0xfe80, 0, 0, 0, 0, 0, 1, 2)));
    assert_eq!(parse_ip("1:2:3:4:5:6:7:8"), Some(IpAddress::V6(1, 2, 3, 4, 5, 6, 7, 8)));
    assert_eq!(parse_ip("::ffff:10.0.1.2"), Some(IpAddress::V6(0, 0, 0, 0, 0, 0xffff, 0x0a00, 0x0102)));
    assert_eq!(parse_ip("1:2:3:4:5:6:7::"), Some(IpAddress::V6(1, 2, 3, 4, 5, 6, 7, 0)));
    assert_eq!(parse_ip("1:2:3:4:5:6:7:8:9"), None);
    assert_eq!(parse_ip("1:2:3:4:5:6:7::8"), None);
    assert_eq!(parse_ip("1::2::3"), None);
    assert_eq!(parse_ip(":1"), None);
    assert_eq!(parse_ip("1:"), None);
    assert_eq!(parse_ip(":::"), None);
    assert_eq!(parse_ip("12345::"), None);
}

#[test]
fn parse_then_print() {
    let cases: Vec<(&str, Option<&str>)> = vec![
        ("1::", Some("1::")),
        ("1::2", Some("1::2")),
        ("2001:DB8:0:0:1:0:0:1", Some("2001:db8::1:0:0:1")),
        ("0001:0002:0003:0004:0005:0006:0007:0008", Some("1:2:3:4:5:6:7:8")),
        ("1:2:3:4:5:6:1.2.3.4", Some("1:2:3:4:5:6:102:304")),
        ("::1.2.3.4", Some("::102:304")),
        ("::2:3:4:5:6:7:8", Some("0:2:3:4:5:6:7:8")),
        ("abcd:EF01::", Some("abcd:ef01::")),
        ("1.2.3.4::", None),
        ("1:2:3:4:5:6:7:1.2.3.4", None),
        ("1::2:3:4:5:6:7:8", None),
        ("x", None),
    ];
    for (s, expected) in cases {
        assert_eq!(parse_ip(s).map(|a| a.to_text()), expected.map(|e| e.to_string()), "{}", s);
    }
}

#[test]
fn round_trip_text() {
    let addrs = vec![
        IpAddress::V4(192, 168, 0, 1),
        IpAddress::V6(0x2001, 0xdb8, 0, 0, 0, 0, 0, 0x42),
        IpAddress::V6(0, 0, 0, 0, 0, 0xffff, 0xc0a8, 0x0001),
    ];
    for a in addrs {
        assert_eq!(parse_ip(&a.to_text()), Some(a));
    }
}

#[test]
fn prefix_lengths() {
    assert_eq!(parse_prefix_len("24"), Some(24));
    assert_eq!(parse_prefix_len("0"), Some(0));
    assert_eq!(parse_prefix_len("255"), Some(255));
    assert_eq!(parse_prefix_len("024"), Some(24));
    assert_eq!(parse_prefix_len("+8"), Some(8));
    assert_eq!(parse_prefix_len("256"), None);
    assert_eq!(parse_prefix_len("99999999999999999999"), None);
    assert_eq!(parse_prefix_len(""), None);
    assert_eq!(parse_prefix_len("+"), None);
    assert_eq!(parse_prefix_len("-1"), None);
    assert_eq!(parse_prefix_len("2a"), None);
}

#[test]
fn host_prefix_lengths() {
    assert_eq!(IpAddress::V4(1, 2, 3, 4).host_prefix_len(), 32);
    assert_eq!(IpAddress::V6(1, 2, 3, 4, 5, 6, 7, 8).host_prefix_len(), 128);
    assert!(IpAddress::V4(1, 2, 3, 4).is_ipv4());
    assert!(!IpAddress::V6(1, 2, 3, 4, 5, 6, 7, 8).is_ipv4());
}
