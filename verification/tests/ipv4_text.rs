use dns_control::discovery::ip_from_response_body;
use dns_control::ipv4::{parse_ipv4, Ipv4Address};

#[test]
fn parses_canonical_addresses() {
    let ip = parse_ipv4("1.2.3.4").unwrap();
    assert_eq!(ip, Ipv4Address { o0: 1, o1: 2, o2: 3, o3: 4 });
    let ip = parse_ipv4("0.0.0.0").unwrap();
    assert_eq!(ip, Ipv4Address { o0: 0, o1: 0, o2: 0, o3: 0 });
    let ip = parse_ipv4("255.255.255.255").unwrap();
    assert_eq!(ip, Ipv4Address { o0: 255, o1: 255, o2: 255, o3: 255 });
    let ip = parse_ipv4("192.168.10.1").unwrap();
    assert_eq!(ip, Ipv4Address { o0: 192, o1: 168, o2: 10, o3: 1 });
}

#[test]
fn rejects_malformed_addresses() {
    assert!(parse_ipv4("").is_none());
    assert!(parse_ipv4("1.2.3").is_none());
    assert!(parse_ipv4("1.2.3.4.5").is_none());
    assert!(parse_ipv4("256.1.1.1").is_none());
    assert!(parse_ipv4("01.2.3.4").is_none());
    assert!(parse_ipv4("1.2.3.x").is_none());
    assert!(parse_ipv4("1..3.4").is_none());
    assert!(parse_ipv4("1.2.3.4 ").is_none());
    assert!(parse_ipv4(" 1.2.3.4").is_none());
    assert!(parse_ipv4("1234.1.1.1").is_none());
}

#[test]
fn formats_canonical_text() {
    let ip = Ipv4Address { o0: 203, o1: 0, o2: 113, o3: 9 };
    assert_eq!(ip.to_text(), "203.0.113.9");
    let ip = Ipv4Address { o0: 0, o1: 10, o2: 100, o3: 255 };
    assert_eq!(ip.to_text(), "0.10.100.255");
}

#[test]
fn text_and_parse_round_trip() {
    let samples = [
        Ipv4Address { o0: 0, o1: 0, o2: 0, o3: 0 },
        Ipv4Address { o0: 9, o1: 10, o2: 99, o3: 100 },
        Ipv4Address { o0: 127, o1: 0, o2: 0, o3: 1 },
        Ipv4Address { o0: 255, o1: 254, o2: 1, o3: 128 },
    ];
    for ip in samples {
        let text = ip.to_text();
        assert_eq!(parse_ipv4(text.as_str()), Some(ip));
    }
}

#[test]
fn response_bodies_are_trimmed_before_parsing() {
    assert_eq!(
        ip_from_response_body("\n 93.184.216.34 \r\n"),
        Some(Ipv4Address { o0: 93, o1: 184, o2: 216, o3: 34 })
    );
    assert_eq!(ip_from_response_body("93.184.216.34"), Some(Ipv4Address { o0: 93, o1: 184, o2: 216, o3: 34 }));
    assert!(ip_from_response_body("<html>error</html>").is_none());
    assert!(ip_from_response_body("").is_none());
}
