use innomonitor::network_storage::types::{NetworkSession, DailyNetworkSummary};
use innomonitor::network_storage::consolidation::{merge_sessions, consolidate_sessions};
use innomonitor::network_storage::summary::{calculate_unique_counts, calculate_macos_totals, make_service_key};
use innomonitor::network_storage::manager::{NetworkStorageManager, PartAmounts, day_part, MAX_SESSIONS_PER_DAY};
use innomonitor::traffic_monitor::types::{NetworkHost, ServiceInfo, TrafficData};

fn host(ip: &str, incoming: u64, outgoing: u64) -> NetworkHost {
    NetworkHost {
        ip: ip.to_string(),
        hostname: None,
        domain: None,
        country: None,
        country_code: None,
        asn: None,
        incoming_bytes: incoming,
        outgoing_bytes: outgoing,
        incoming_packets: 1,
        outgoing_packets: 1,
        first_seen: 0,
        last_seen: 0,
    }
}

fn service(protocol: &str, port: u16, bytes: u64) -> ServiceInfo {
    ServiceInfo { protocol: protocol.to_string(), port, service_name: None, bytes, packets: 1 }
}

fn session(start: u64, end: Option<u64>, incoming: u64, outgoing: u64) -> NetworkSession {
    NetworkSession {
        adapter_name: "eth0".to_string(),
        start_time: start,
        end_time: end,
        total_incoming_bytes: incoming,
        total_outgoing_bytes: outgoing,
        total_incoming_packets: 2,
        total_outgoing_packets: 3,
        duration: end.map(|e| e - start).unwrap_or(0),
        traffic_data: vec![TrafficData { timestamp: start, incoming_bytes: incoming, outgoing_bytes: outgoing, incoming_packets: 2, outgoing_packets: 3 }],
        top_hosts: vec![],
        top_services: vec![],
    }
}

fn manager() -> NetworkStorageManager {
    NetworkStorageManager::new("/tmp/store".to_string(), "/tmp/store/backups".to_string())
}

#[test]
fn merging_an_empty_group_fails() {
    let r = merge_sessions("eth0", &[]);
    assert_eq!(r.unwrap_err(), "Cannot merge empty sessions");
}

#[test]
fn merge_sums_counters_and_keeps_top_hosts() {
    let mut a = session(100, Some(200), 10, 20);
    a.top_hosts = vec![host("1.1.1.1", 5, 5), host("2.2.2.2", 50, 0)];
    a.top_services = vec![service("TCP", 443, 7)];
    let mut b = session(300, Some(450), 1, 2);
    b.top_hosts = vec![host("3.3.3.3", 20, 1)];
    let m = merge_sessions("wlan0", &[a, b]).unwrap();
    assert_eq!(m.adapter_name, "wlan0");
    assert_eq!((m.start_time, m.end_time), (100, Some(450)));
    assert_eq!(m.duration, 350);
    assert_eq!((m.total_incoming_bytes, m.total_outgoing_bytes), (11, 22));
    assert_eq!((m.total_incoming_packets, m.total_outgoing_packets), (4, 6));
    assert!(m.traffic_data.is_empty());
    let ips: Vec<&str> = m.top_hosts.iter().map(|h| h.ip.as_str()).collect();
    assert_eq!(ips, vec!["2.2.2.2", "3.3.3.3", "1.1.1.1"]);
    assert_eq!(m.top_services.len(), 1);
}

#[test]
fn consolidation_groups_half_hours_and_keeps_totals() {
    let sessions = vec![session(2000, Some(2100), 5, 6), session(0, Some(100), 1, 2), session(1000, Some(1200), 3, 4)];
    let out = consolidate_sessions(sessions, "eth0").unwrap();
    assert_eq!(out.len(), 2);
    assert_eq!((out[0].start_time, out[0].end_time, out[0].duration), (0, Some(1200), 1200));
    assert_eq!((out[0].total_incoming_bytes, out[0].total_outgoing_bytes), (4, 6));
    assert_eq!((out[1].start_time, out[1].end_time, out[1].duration), (2000, Some(2100), 100));
    let total_in: u64 = out.iter().map(|s| s.total_incoming_bytes).sum();
    let total_out: u64 = out.iter().map(|s| s.total_outgoing_bytes).sum();
    assert_eq!((total_in, total_out), (9, 12));
}

#[test]
fn unique_counts_and_per_host_totals() {
    let mut a = session(0, Some(100), 0, 0);
    a.top_hosts = vec![host("1.1.1.1", 10, 1), host("2.2.2.2", 20, 2)];
    a.top_services = vec![service("TCP", 443, 1), service("UDP", 53, 1)];
    let mut b = session(500, Some(900), 0, 0);
    b.top_hosts = vec![host("1.1.1.1", 99, 99)];
    b.top_services = vec![service("TCP", 443, 5)];
    let sessions = vec![a, b];
    assert_eq!(calculate_unique_counts(&sessions), (2, 2));
    // each address counted once, at first sight; duration from first start to last end
    assert_eq!(calculate_macos_totals(&sessions), (30, 3, 900));
    assert_eq!(make_service_key(&service("UDP", 123, 0)), "UDP:123");
}

#[test]
fn recording_a_part_adds_its_bytes() {
    let m = manager();
    let first = m.add_day_part(None, "2024-03-01".to_string(), session(0, Some(60), 100, 50), "eth0", false).unwrap();
    assert_eq!(first.date, "2024-03-01");
    assert_eq!((first.total_incoming_bytes, first.total_outgoing_bytes, first.total_duration), (100, 50, 60));
    let second = m.add_day_part(Some(first), "ignored".to_string(), session(100, Some(130), 7, 3), "eth0", false).unwrap();
    assert_eq!(second.date, "2024-03-01");
    assert_eq!(second.sessions.len(), 2);
    assert_eq!((second.total_incoming_bytes, second.total_outgoing_bytes, second.total_duration), (107, 53, 90));
}

#[test]
fn a_crowded_day_is_consolidated() {
    let m = manager();
    let mut day = DailyNetworkSummary::empty("2024-03-02".to_string());
    for i in 0..MAX_SESSIONS_PER_DAY as u64 {
        day.sessions.push(session(i * 10, Some(i * 10 + 5), 1, 1));
    }
    m.update_daily_summary_totals(&mut day, false);
    assert_eq!(day.total_incoming_bytes, 100);
    let after = m.add_day_part(Some(day), String::new(), session(4000, Some(4010), 1, 1), "eth0", false).unwrap();
    // starts 0..990 share the first half hour; 4000 is in the third
    assert_eq!(after.sessions.len(), 2);
    assert_eq!(after.total_incoming_bytes, 101);
    assert_eq!(after.total_outgoing_bytes, 101);
}

#[test]
fn splitting_a_session_keeps_its_totals() {
    let s = session(0, Some(1000), 1000, 500);
    let mut rest = PartAmounts::of_session(&s);
    let part = PartAmounts { duration: 400, incoming_bytes: 400, outgoing_bytes: 200, incoming_packets: 1, outgoing_packets: 1 };
    rest.take_part(&part);
    assert_eq!(rest, PartAmounts { duration: 600, incoming_bytes: 600, outgoing_bytes: 300, incoming_packets: 1, outgoing_packets: 2 });
    let big = PartAmounts { duration: 10_000, incoming_bytes: 0, outgoing_bytes: 0, incoming_packets: 0, outgoing_packets: 0 };
    rest.take_part(&big);
    assert_eq!(rest.duration, 0);
    let first = day_part(&s, 0, 400, &part, false);
    assert_eq!((first.start_time, first.end_time, first.duration), (0, Some(400), 400));
    assert!(first.traffic_data.is_empty());
    let last = day_part(&s, 400, 1000, &rest, true);
    assert_eq!(last.traffic_data.len(), 1);
    assert_eq!(last.total_incoming_bytes, 600);
}

#[test]
fn manager_merge_sums_session_durations() {
    let m = NetworkStorageManager::new("dir".to_string(), "backup".to_string());
    let a = session(100, Some(200), 10, 20);
    let b = session(400, Some(450), 1, 2);
    let (da, db) = (a.duration, b.duration);
    let merged = m.merge_sessions("wlan0", &[a, b]).unwrap();
    assert_eq!(merged.duration, da + db);
    assert_eq!((merged.start_time, merged.end_time), (100, Some(450)));
    assert_eq!((merged.total_incoming_bytes, merged.total_outgoing_bytes), (11, 22));
    assert_eq!(m.merge_sessions("wlan0", &[]).unwrap_err(), "Cannot merge empty sessions");
}
