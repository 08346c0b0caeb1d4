use dns_control::discovery::{ip_echo_endpoints, shuffle_endpoints, IpDiscovery};
use dns_control::ipv4::Ipv4Address;

#[test]
fn endpoint_list_is_complete() {
    let endpoints = ip_echo_endpoints();
    assert_eq!(endpoints.len(), 9);
    assert_eq!(endpoints[0], "https://api.ipify.org");
    assert_eq!(endpoints[8], "https://ip.tyk.nu/");
}

#[test]
fn shuffling_keeps_every_endpoint() {
    let mut endpoints = ip_echo_endpoints();
    shuffle_endpoints(&mut endpoints);
    assert_eq!(endpoints.len(), 9);
    let original = ip_echo_endpoints();
    for url in original {
        assert!(endpoints.contains(&url));
    }
}

#[test]
fn discovery_returns_the_first_successful_endpoint() {
    // Every endpoint is unreachable except the third in query order; the
    // discovery still returns that endpoint's IP rather than failing.
    let endpoints = vec![
        String::from("https://one.example"),
        String::from("https://two.example"),
        String::from("https://three.example"),
        String::from("https://four.example"),
    ];
    let mut discovery = IpDiscovery::new_in_order(endpoints);

    // First endpoint: transport failure.
    assert_eq!(discovery.current_endpoint().unwrap().as_str(), "https://one.example");
    assert_eq!(discovery.record_response(None), None);

    // Second endpoint: responds, but not with an address.
    assert_eq!(discovery.current_endpoint().unwrap().as_str(), "https://two.example");
    assert_eq!(discovery.record_response(Some("service unavailable")), None);

    // Third endpoint: a valid address.
    assert_eq!(discovery.current_endpoint().unwrap().as_str(), "https://three.example");
    let ip = discovery.record_response(Some("3.3.3.3\n")).unwrap();
    assert_eq!(ip, Ipv4Address { o0: 3, o1: 3, o2: 3, o3: 3 });
}

#[test]
fn discovery_runs_out_of_endpoints() {
    let endpoints = vec![String::from("https://one.example")];
    let mut discovery = IpDiscovery::new_in_order(endpoints);
    assert!(discovery.current_endpoint().is_some());
    assert_eq!(discovery.record_response(None), None);
    assert!(discovery.current_endpoint().is_none());
}

#[test]
fn shuffled_discovery_walks_all_endpoints() {
    let mut discovery = IpDiscovery::new(ip_echo_endpoints());
    let mut tried = 0;
    while discovery.current_endpoint().is_some() {
        assert_eq!(discovery.record_response(None), None);
        tried += 1;
    }
    assert_eq!(tried, 9);
}
