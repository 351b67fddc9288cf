use innomonitor::text::{u64_to_string, contains_str, strip_affixes, sort_strings, count_distinct, lex_less, starts_with,
    ends_with, substring, str_eq};
use innomonitor::traffic_monitor::packets::{IpAddress, ip_to_string, is_outgoing_traffic, is_private_or_loopback,
    create_packet_signature, v6_loopback, frame_endpoints};
use innomonitor::traffic_monitor::host_analysis::{extract_domain_from_hostname, get_domain_from_hostname,
    is_skipped_host, lookup_geolocation, is_resolvable_host};
use innomonitor::traffic_monitor::service_analysis::get_service_name;

#[test]
fn decimal_rendering() {
    assert_eq!(u64_to_string(0), "0");
    assert_eq!(u64_to_string(7), "7");
    assert_eq!(u64_to_string(1234567890), "1234567890");
    assert_eq!(u64_to_string(u64::MAX), "18446744073709551615");
}

#[test]
fn text_searches() {
    assert!(contains_str("network-2024-01-02.json", "2024-01-02"));
    assert!(!contains_str("abc", "abcd"));
    assert!(contains_str("abc", ""));
    assert!(starts_with("network-x", "network-"));
    assert!(!starts_with("net", "network-"));
    assert!(ends_with("a.json", ".json"));
    assert!(!ends_with("a.jso", ".json"));
    assert_eq!(substring("hello world", 6, 11), "world");
    assert!(str_eq("TCP", "TCP"));
    assert!(!str_eq("TCP", "UDP"));
}

#[test]
fn strip_prefix_and_suffix() {
    assert_eq!(strip_affixes("network-2024-05-06.json", "network-", ".json").as_deref(), Some("2024-05-06"));
    assert_eq!(strip_affixes("network-.json", "network-", ".json").as_deref(), Some(""));
    assert_eq!(strip_affixes("other-2024.json", "network-", ".json"), None);
    assert_eq!(strip_affixes("network-2024.txt", "network-", ".json"), None);
}

#[test]
fn strings_sort_ascending_and_count_distinct() {
    let v = vec!["b".to_string(), "a".to_string(), "c".to_string(), "a".to_string()];
    assert_eq!(sort_strings(v.clone()), vec!["a", "a", "b", "c"]);
    assert_eq!(count_distinct(&v), 3);
    assert!(lex_less("2024-01-09", "2024-01-10"));
    assert!(!lex_less("b", "a"));
    assert!(lex_less("ab", "abc"));
    assert!(!lex_less("abc", "abc"));
}

#[test]
fn address_texts() {
    assert_eq!(ip_to_string(&IpAddress::V4(192, 168, 1, 10)), "192.168.1.10");
    let mut lo = [0u8; 16];
    lo[15] = 1;
    assert_eq!(ip_to_string(&IpAddress::V6(lo)), "::1");
    let mut v6 = [0u8; 16];
    v6[0] = 0x20;
    v6[1] = 0x01;
    v6[2] = 0x0d;
    v6[3] = 0xb8;
    v6[15] = 0x05;
    assert_eq!(ip_to_string(&IpAddress::V6(v6)), "2001:db8::5");
    assert!(v6_loopback(&lo));
    assert!(!v6_loopback(&v6));
}

#[test]
fn direction_of_traffic() {
    assert!(is_outgoing_traffic(&IpAddress::V4(10, 0, 0, 1)));
    assert!(is_outgoing_traffic(&IpAddress::V4(172, 16, 0, 1)));
    assert!(is_outgoing_traffic(&IpAddress::V4(172, 31, 255, 1)));
    assert!(!is_outgoing_traffic(&IpAddress::V4(172, 32, 0, 1)));
    assert!(is_outgoing_traffic(&IpAddress::V4(169, 254, 3, 4)));
    assert!(!is_outgoing_traffic(&IpAddress::V4(8, 8, 8, 8)));
    let mut ll = [0u8; 16];
    ll[0] = 0xfe;
    ll[1] = 0x80;
    assert!(is_outgoing_traffic(&IpAddress::V6(ll)));
    assert!(!is_private_or_loopback(&IpAddress::V4(169, 254, 3, 4)));
    assert!(is_private_or_loopback(&IpAddress::V4(127, 0, 0, 1)));
    assert!(is_private_or_loopback(&IpAddress::V6(ll)));
}

#[test]
fn packet_signature_layout() {
    assert_eq!(
        create_packet_signature("10.0.0.2", "8.8.8.8", 5353, 53, "UDP", 1700000000123),
        "10.0.0.2:5353->8.8.8.8:53:UDP:1700000000123"
    );
}

#[test]
fn domains_of_host_names() {
    assert_eq!(extract_domain_from_hostname("lga25s62-in-f14.1e100.net"), "1e100.net");
    assert_eq!(extract_domain_from_hostname("dns.google"), "dns.google");
    assert_eq!(extract_domain_from_hostname("localhost"), "localhost");
    assert_eq!(get_domain_from_hostname("a.b.example.com".to_string()), "example.com");
}

#[test]
fn local_hosts_are_skipped() {
    assert!(is_skipped_host(&IpAddress::V4(127, 0, 0, 1)));
    assert!(is_skipped_host(&IpAddress::V4(192, 168, 0, 1)));
    assert!(is_skipped_host(&IpAddress::V4(10, 1, 2, 3)));
    assert!(is_skipped_host(&IpAddress::V4(172, 200, 1, 1)));
    assert!(!is_skipped_host(&IpAddress::V4(8, 8, 8, 8)));
}

#[test]
fn geolocation_guesses() {
    let g = |ip: &str, lo: bool| {
        let (c, k, a) = lookup_geolocation(ip, lo).unwrap();
        (c.unwrap(), k.unwrap(), a.unwrap())
    };
    assert_eq!(g("8.8.8.8", false), ("United States".into(), "US".into(), "AS15169 Google LLC".into()));
    assert_eq!(g("1.0.0.1", false), ("United States".into(), "US".into(), "AS13335 Cloudflare".into()));
    assert_eq!(g("52.1.2.3", false), ("United States".into(), "US".into(), "AS8075 Microsoft".into()));
    assert_eq!(g("185.3.3.3", false), ("Germany".into(), "DE".into(), "AS3320 Deutsche Telekom".into()));
    assert_eq!(g("192.168.1.1", false), ("Local Network".into(), "XX".into(), "Private".into()));
    assert_eq!(g("::1", true), ("Local Network".into(), "XX".into(), "Private".into()));
    // character codes of "100.1.1.1" sum to 430, and 430 % 8 == 6
    assert_eq!(g("100.1.1.1", false), ("Australia".into(), "AU".into(), "AS1221 Telstra".into()));
}

#[test]
fn well_known_services() {
    assert_eq!(get_service_name("TCP", 443).as_deref(), Some("HTTPS"));
    assert_eq!(get_service_name("UDP", 53).as_deref(), Some("DNS"));
    assert_eq!(get_service_name("TCP", 12345), None);
    assert_eq!(innomonitor::network_monitor::service_analysis::get_service_name("TCP", 443).as_deref(), Some("HTTPS"));
    assert_eq!(innomonitor::network_monitor::service_analysis::get_service_name("TCP", 3389).as_deref(), Some("RDP"));
    assert_eq!(innomonitor::network_monitor::service_analysis::get_service_name("TCP", 23).as_deref(), Some("Telnet"));
    assert_eq!(get_service_name("TCP", 3389).as_deref(), Some("RDP"));
}

#[test]
fn resolvable_hosts_and_frame_endpoints() {
    assert!(is_resolvable_host(&IpAddress::V4(8, 8, 8, 8)));
    assert!(!is_resolvable_host(&IpAddress::V4(10, 1, 1, 1)));
    assert!(!is_resolvable_host(&IpAddress::V4(127, 0, 0, 1)));
    // link-local addresses are not private
    assert!(is_resolvable_host(&IpAddress::V4(169, 254, 1, 1)));
    let mut frame = vec![0x02, 0, 0, 0, 0, 1, 0x02, 0, 0, 0, 0, 2, 0x08, 0x00];
    frame.extend([0x45, 0x00, 0, 40, 0, 0, 0x40, 0, 64, 6, 0, 0, 10, 0, 0, 2, 1, 1, 1, 1]);
    frame.extend([0x1f, 0x90, 0x01, 0xbb, 0, 0, 0, 0, 0, 0, 0, 0, 0x50, 0x02, 0x20, 0x00, 0, 0, 0, 0]);
    let ends = frame_endpoints(&frame).unwrap();
    assert_eq!(ends, ((IpAddress::V4(10, 0, 0, 2), Some(8080)), (IpAddress::V4(1, 1, 1, 1), Some(443))));
    assert_eq!(frame_endpoints(&frame[..13]), None);
}
