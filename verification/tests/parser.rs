use lazy_mmdb::ip::{IpAddrRepr, parse_ip};

#[test]
fn parses_plain_dotted_quad() {
    assert_eq!(parse_ip(b"1.2.3.4"), Some(IpAddrRepr::V4(0x01020304)));
    assert_eq!(parse_ip(b"0.0.0.0"), Some(IpAddrRepr::V4(0)));
    assert_eq!(parse_ip(b"255.255.255.255"), Some(IpAddrRepr::V4(u32::MAX)));
    assert_eq!(parse_ip(b"128.0.0.1"), Some(IpAddrRepr::V4(0x80000001)));
    assert_eq!(parse_ip(b"10.0.200.9"), Some(IpAddrRepr::V4(0x0a00c809)));
}

#[test]
fn rejects_malformed_dotted_quads() {
    assert_eq!(parse_ip(b""), None);
    assert_eq!(parse_ip(b"1.2.3"), None);
    assert_eq!(parse_ip(b"1.2.3.4.5"), None);
    assert_eq!(parse_ip(b"256.1.1.1"), None);
    assert_eq!(parse_ip(b"01.2.3.4"), None);
    assert_eq!(parse_ip(b"1..2.3"), None);
    assert_eq!(parse_ip(b"1.2.3."), None);
    assert_eq!(parse_ip(b"a.b.c.d"), None);
    assert_eq!(parse_ip(b"1.2.3.4 "), None);
    assert_eq!(parse_ip(b"-1.2.3.4"), None);
    assert_eq!(parse_ip(b"1234.5.6.7"), None);
}

#[test]
fn parses_full_ipv6() {
    assert_eq!(
        parse_ip(b"1:2:3:4:5:6:7:8"),
        Some(IpAddrRepr::V6(0x0001_0002_0003_0004_0005_0006_0007_0008))
    );
    assert_eq!(
        parse_ip(b"2001:db8:0:0:0:ff00:42:8329"),
        Some(IpAddrRepr::V6(0x2001_0db8_0000_0000_0000_ff00_0042_8329))
    );
    assert_eq!(
        parse_ip(b"ABCD:ef01:0:0:0:0:0:1"),
        Some(IpAddrRepr::V6(0xabcd_ef01_0000_0000_0000_0000_0000_0001))
    );
}

#[test]
fn parses_compressed_ipv6() {
    assert_eq!(parse_ip(b"::"), Some(IpAddrRepr::V6(0)));
    assert_eq!(parse_ip(b"::1"), Some(IpAddrRepr::V6(1)));
    assert_eq!(parse_ip(b"1::"), Some(IpAddrRepr::V6(1u128 << 112)));
    assert_eq!(
        parse_ip(b"2001:db8::ff00:42:8329"),
        Some(IpAddrRepr::V6(0x2001_0db8_0000_0000_0000_ff00_0042_8329))
    );
    assert_eq!(
        parse_ip(b"fe80::205:73ff:fea0:1"),
        Some(IpAddrRepr::V6(0xfe80_0000_0000_0000_0205_73ff_fea0_0001))
    );
    assert_eq!(parse_ip(b"::2:3:4:5:6:7:8"), Some(IpAddrRepr::V6(0x0000_0002_0003_0004_0005_0006_0007_0008)));
    assert_eq!(parse_ip(b"1:2:3:4:5:6:7::"), Some(IpAddrRepr::V6(0x0001_0002_0003_0004_0005_0006_0007_0000)));
}

#[test]
fn parses_ipv6_with_dotted_quad_tail() {
    assert_eq!(
        parse_ip(b"::ffff:1.2.3.4"),
        Some(IpAddrRepr::V6(0x0000_0000_0000_0000_0000_ffff_0102_0304))
    );
    assert_eq!(parse_ip(b"::1.2.3.4"), Some(IpAddrRepr::V6(0x0102_0304)));
    assert_eq!(
        parse_ip(b"1:2:3:4:5:6:1.2.3.4"),
        Some(IpAddrRepr::V6(0x0001_0002_0003_0004_0005_0006_0102_0304))
    );
    assert_eq!(
        parse_ip(b"64:ff9b::255.255.255.255"),
        Some(IpAddrRepr::V6(0x0064_ff9b_0000_0000_0000_0000_ffff_ffff))
    );
}

#[test]
fn rejects_malformed_dotted_quad_tails() {
    assert_eq!(parse_ip(b"::ffff:1.2.3"), None);
    assert_eq!(parse_ip(b"::ffff:1.2.3.256"), None);
    assert_eq!(parse_ip(b"::ffff:01.2.3.4"), None);
    assert_eq!(parse_ip(b"1.2.3.4::"), None);
    assert_eq!(parse_ip(b"1:2:3:4:5:6:7:1.2.3.4"), None);
    assert_eq!(parse_ip(b"::1.2.3.4:5"), None);
    assert_eq!(parse_ip(b"1.2.3.4:5::"), None);
}

#[test]
fn rejects_malformed_ipv6() {
    assert_eq!(parse_ip(b":"), None);
    assert_eq!(parse_ip(b":::"), None);
    assert_eq!(parse_ip(b"1:2:3"), None);
    assert_eq!(parse_ip(b"1:2:3:4:5:6:7:8:9"), None);
    assert_eq!(parse_ip(b"::1:2:3:4:5:6:7:8"), None);
    assert_eq!(parse_ip(b"1:2:3:4:5:6:7:8::"), None);
    assert_eq!(parse_ip(b"1::2::3"), None);
    assert_eq!(parse_ip(b"12345::"), None);
    assert_eq!(parse_ip(b"g::"), None);
    assert_eq!(parse_ip(b":1:2:3:4:5:6:7"), None);
    assert_eq!(parse_ip(b"1:2:3:4:5:6:7:"), None);
    assert_eq!(parse_ip(b"not an ip"), None);
}
