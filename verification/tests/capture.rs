use dashmap::DashMap;
use innomonitor::traffic_monitor::monitor::{TrafficMonitor, PacketOutcome, SaveCursor, day_changed, update_traffic_history,
    MAX_HISTORY};
use innomonitor::traffic_monitor::deduplication::PacketDedup;
use innomonitor::traffic_monitor::packets::{IpAddress, Transport, parse_captured_packet};
use innomonitor::traffic_monitor::deduplication::ExpiringSignatures;
use innomonitor::traffic_monitor::types::{MonitoringStats, TrafficData};
use innomonitor::traffic_monitor::simulation::{record_simulated_host, record_simulated_service, simulate_network_host,
    simulate_service, simulate_traffic_tick};
use innomonitor::health_monitor::HealthMonitor;
use innomonitor::network_engine::{NetworkEngine, DeviceEntry, traffic_delta, cleanup_due};
use innomonitor::persistent_state::AdapterUpdate;

/// An Ethernet II frame carrying IPv4 and UDP, with four payload bytes.
fn udp_frame(src: [u8; 4], dst: [u8; 4], sport: u16, dport: u16) -> Vec<u8> {
    let mut f = vec![0x02, 0, 0, 0, 0, 1, 0x02, 0, 0, 0, 0, 2, 0x08, 0x00];
    let total: u16 = 20 + 8 + 4;
    f.extend([0x45, 0x00]);
    f.extend(total.to_be_bytes());
    f.extend([0, 0, 0x40, 0, 64, 17, 0, 0]);
    f.extend(src);
    f.extend(dst);
    f.extend(sport.to_be_bytes());
    f.extend(dport.to_be_bytes());
    f.extend(12u16.to_be_bytes());
    f.extend([0, 0]);
    f.extend([1, 2, 3, 4]);
    f
}

fn arp_frame() -> Vec<u8> {
    let mut f = vec![0xff, 0xff, 0xff, 0xff, 0xff, 0xff, 0x02, 0, 0, 0, 0, 2, 0x08, 0x06];
    f.extend([0u8; 28]);
    f
}

fn stats() -> MonitoringStats {
    MonitoringStats {
        total_incoming_bytes: 0,
        total_outgoing_bytes: 0,
        total_incoming_packets: 0,
        total_outgoing_packets: 0,
        monitoring_duration: 0,
        traffic_rate: vec![],
        network_hosts: vec![],
        services: vec![],
    }
}

#[test]
fn counting_captured_packets() {
    let mut m = TrafficMonitor::new("eth0".to_string(), None);
    let mut dedup = PacketDedup::new();
    let mut health = HealthMonitor::new();
    let frame = udp_frame([10, 0, 0, 2], [8, 8, 8, 8], 5353, 53);
    let r = m.process_real_packet(&mut dedup, &mut health, &frame, 111, 74, "eth0", 1000);
    match r {
        PacketOutcome::Counted { lookup } => assert_eq!(lookup.as_deref(), Some("8.8.8.8")),
        other => panic!("unexpected {:?}", other),
    }
    assert_eq!(m.stats.total_outgoing_bytes, 74);
    assert_eq!(m.stats.total_outgoing_packets, 1);
    assert_eq!(health.last_network_activity, 1000);
    assert_eq!(m.services.get("UDP:53").unwrap().service_name.as_deref(), Some("DNS"));
    assert_eq!(m.hosts.get("8.8.8.8").unwrap().outgoing_bytes, 74);
    // seen again on another adapter with the same capture time: a duplicate
    assert!(matches!(m.process_real_packet(&mut dedup, &mut health, &frame, 111, 74, "wlan0", 1001), PacketOutcome::Duplicate));
    assert_eq!(m.stats.total_outgoing_bytes, 74);
    // the same flow later: counted, the host is already known
    let r = m.process_real_packet(&mut dedup, &mut health, &frame, 222, 74, "eth0", 1002);
    assert!(matches!(r, PacketOutcome::Counted { lookup: None }));
    assert_eq!(m.hosts.get("8.8.8.8").unwrap().outgoing_packets, 2);
    // an answer from the remote host is incoming
    let answer = udp_frame([8, 8, 8, 8], [10, 0, 0, 2], 53, 5353);
    m.process_real_packet(&mut dedup, &mut health, &answer, 333, 90, "eth0", 1003);
    assert_eq!(m.stats.total_incoming_bytes, 90);
    assert_eq!(m.traffic_history.len(), 3);
    assert!(matches!(m.process_real_packet(&mut dedup, &mut health, &frame[..10], 1, 10, "eth0", 1004), PacketOutcome::Unreadable));
    assert!(matches!(m.process_real_packet(&mut dedup, &mut health, &arp_frame(), 2, 42, "eth0", 1005), PacketOutcome::NotIp));
}

#[test]
fn local_peers_are_not_tracked_as_hosts() {
    let mut m = TrafficMonitor::new("eth0".to_string(), None);
    let mut dedup = PacketDedup::new();
    let mut health = HealthMonitor::new();
    let frame = udp_frame([192, 168, 1, 2], [192, 168, 1, 3], 1000, 0);
    let r = m.process_real_packet(&mut dedup, &mut health, &frame, 5, 60, "eth0", 50);
    assert!(matches!(r, PacketOutcome::Counted { lookup: None }));
    assert_eq!(m.hosts.len(), 0);
    assert_eq!(m.services.len(), 0);
}

#[test]
fn monitor_lifecycle() {
    let mut m = TrafficMonitor::new("eth0".to_string(), None);
    assert!(!m.is_monitoring());
    assert!(matches!(m.start_monitoring(100), Ok(AdapterUpdate::MonitoringStarted { start_time: 100 })));
    assert_eq!(m.start_monitoring(101).unwrap_err(), "Monitoring is already running");
    m.stats.total_incoming_bytes = 500;
    let out = m.stop_monitoring(160);
    let s = out.session.unwrap();
    assert_eq!((s.start_time, s.end_time, s.duration, s.total_incoming_bytes), (100, Some(160), 60, 500));
    assert!(matches!(out.update, Some(AdapterUpdate::MonitoringStopped { incoming_bytes: 500, end_time: 160, .. })));
    assert!(!m.is_monitoring());
    let again = m.stop_monitoring(170);
    assert!(again.session.is_none() && again.update.is_none());
}

#[test]
fn periodic_saves_carry_the_traffic_since_the_last() {
    let mut cursor = SaveCursor::new(1000);
    let mut st = stats();
    let (u, s) = cursor.save_periodic_session("eth0", &st, 1060);
    assert!(matches!(u, AdapterUpdate::TotalsSaved { incoming_bytes: 0, .. }));
    assert!(s.is_none());
    st.total_incoming_bytes = 300;
    st.total_outgoing_bytes = 100;
    let (_, s) = cursor.save_periodic_session("eth0", &st, 1120);
    let s = s.unwrap();
    assert_eq!((s.start_time, s.end_time, s.total_incoming_bytes), (1000, Some(1120), 300));
    st.total_incoming_bytes = 350;
    let (_, s) = cursor.save_periodic_session("eth0", &st, 1180);
    let s = s.unwrap();
    assert_eq!((s.start_time, s.total_incoming_bytes, s.total_outgoing_bytes), (1120, 50, 0));
    assert!(day_changed(None, 5));
    assert!(!day_changed(Some(5), 5));
    assert!(day_changed(Some(5), 6));
}

#[test]
fn history_is_capped() {
    let st = stats();
    let mut h: Vec<TrafficData> = Vec::new();
    for t in 0..(MAX_HISTORY as u64 + 3) {
        update_traffic_history(&mut h, &st, t);
    }
    assert_eq!(h.len(), MAX_HISTORY);
    assert_eq!(h[0].timestamp, 3);
    assert_eq!(h[MAX_HISTORY - 1].timestamp, MAX_HISTORY as u64 + 2);
}

#[test]
fn engine_reads_and_deduplicates() {
    let mut e = NetworkEngine::new();
    let frame = udp_frame([8, 8, 4, 4], [10, 0, 0, 9], 443, 50000);
    let info = e.parse_packet(&frame, 77, 64, 2000).unwrap().unwrap();
    assert_eq!(info.source_ip, IpAddress::V4(8, 8, 4, 4));
    assert_eq!((info.source_port, info.dest_port), (Some(443), Some(50000)));
    assert_eq!(info.protocol, "UDP");
    assert!(!info.is_outgoing);
    assert_eq!(traffic_delta(&info), (64, 0, 1, 0));
    assert!(e.parse_packet(&frame, 77, 64, 2001).unwrap().is_none());
    assert!(e.parse_packet(&arp_frame(), 78, 42, 2001).unwrap().is_none());
    assert!(e.parse_packet(&frame[..5], 79, 5, 2001).unwrap_err().starts_with("Failed to parse packet headers: "));
    assert!(cleanup_due(30) && cleanup_due(60) && !cleanup_due(31));
}

#[test]
fn engine_discovers_adapters() {
    let mut e = NetworkEngine::new();
    let devices = vec![
        DeviceEntry { name: "eth0".to_string(), desc: Some("Ethernet".to_string()) },
        DeviceEntry { name: "bluetooth0".to_string(), desc: None },
        DeviceEntry { name: "any".to_string(), desc: None },
        DeviceEntry { name: "wlan0".to_string(), desc: None },
    ];
    let (added, dropped) = e.discover_adapters(&devices);
    assert_eq!(added, vec!["eth0", "wlan0"]);
    assert!(dropped.is_empty());
    assert_eq!(e.adapters[0].display_name, "Ethernet");
    assert_eq!(e.adapters[1].display_name, "wlan0");
    let (added, dropped) = e.discover_adapters(&vec![DeviceEntry { name: "wlan0".to_string(), desc: None }]);
    assert!(added.is_empty());
    assert_eq!(dropped, vec!["eth0"]);
    e.record_packet(0, 100);
    assert_eq!(e.adapters[0].bytes_processed, 100);
    assert!(e.start());
    assert!(!e.start());
    assert_eq!(e.get_active_adapters(), vec!["wlan0"]);
    assert_eq!(e.stop(), vec!["wlan0"]);
    assert!(e.get_active_adapters().is_empty());
}

#[test]
fn simulated_traffic() {
    let hosts: DashMap<String, innomonitor::traffic_monitor::types::NetworkHost> = DashMap::new();
    let mut hosts = hosts;
    record_simulated_host(&mut hosts, 0, 2048, 1024, 10);
    record_simulated_host(&mut hosts, 0, 1024, 0, 20);
    {
        let h = hosts.get("8.8.8.8").unwrap();
        assert_eq!(h.hostname.as_deref(), Some("dns.google"));
        assert_eq!((h.incoming_bytes, h.outgoing_bytes), (3072, 1024));
        assert_eq!((h.incoming_packets, h.outgoing_packets), (3 + 2, 2 + 1));
        assert_eq!((h.first_seen, h.last_seen), (10, 20));
    }
    simulate_network_host(&mut hosts, 30);
    assert!(hosts.len() >= 1 && hosts.len() <= 2);
    let mut services: DashMap<String, innomonitor::traffic_monitor::types::ServiceInfo> = DashMap::new();
    record_simulated_service(&mut services, 9, 3000);
    {
        let s = services.get("UDP:123").unwrap();
        assert_eq!(s.service_name.as_deref(), Some("NTP"));
        assert_eq!((s.bytes, s.packets), (3000, 3));
    }
    simulate_service(&mut services, 10);
    assert!(services.len() <= 2);
    let mut history = Vec::new();
    let mut st = stats();
    assert!(simulate_traffic_tick(&mut hosts, &mut services, &mut history, &mut st, 0));
    assert!(st.total_incoming_bytes >= 1000 && st.total_incoming_bytes < 50000);
    assert!(st.total_outgoing_packets >= 5 && st.total_outgoing_packets < 50);
    assert_eq!(history.len(), 1);
    assert_eq!(history[0].incoming_bytes, st.total_incoming_bytes);
    // a tick dated before its start is skipped
    assert!(!simulate_traffic_tick(&mut hosts, &mut services, &mut history, &mut st, u64::MAX));
    assert_eq!(history.len(), 1);
}

#[test]
fn capture_parser_keeps_wire_length_time_and_payload() {
    let mut sigs = ExpiringSignatures::new();
    let frame = udp_frame([10, 0, 0, 2], [8, 8, 8, 8], 5353, 53);
    let h = parse_captured_packet(&mut sigs, &frame, 1500, 1_700_000_000, 2000).unwrap();
    assert_eq!((h.timestamp, h.packet_size, h.payload_size), (1_700_000_000, 1500, 4));
    let ip = h.headers.unwrap();
    assert_eq!((ip.source, ip.destination), (IpAddress::V4(10, 0, 0, 2), IpAddress::V4(8, 8, 8, 8)));
    assert_eq!(ip.transport, Transport::Udp { source_port: 5353, destination_port: 53 });
    assert_eq!(*sigs.entries.get("10.0.0.2->8.8.8.8:UDP:5353:53").unwrap(), 2005);
    // a duplicate is still described, and its registration is not renewed
    let again = parse_captured_packet(&mut sigs, &frame, 1500, 1_700_000_001, 2003).unwrap();
    assert_eq!(again.timestamp, 1_700_000_001);
    assert_eq!(*sigs.entries.get("10.0.0.2->8.8.8.8:UDP:5353:53").unwrap(), 2005);
    // once expired it is registered anew
    parse_captured_packet(&mut sigs, &frame, 1500, 1_700_000_009, 2009).unwrap();
    assert_eq!(*sigs.entries.get("10.0.0.2->8.8.8.8:UDP:5353:53").unwrap(), 2014);
    // a frame without IP has no IP headers and the empty-address signature
    let arp = parse_captured_packet(&mut sigs, &arp_frame(), 42, 5, 2009).unwrap();
    assert!(arp.headers.is_none());
    assert_eq!(arp.payload_size, 28);
    assert!(sigs.entries.get("->:Other:0:0").is_some());
    assert!(parse_captured_packet(&mut sigs, &frame[..5], 5, 5, 2009).unwrap_err().starts_with("Failed to parse packet headers: "));
}

#[test]
fn packets_that_would_overflow_a_count_change_nothing() {
    let mut m = TrafficMonitor::new("eth0".to_string(), None);
    let mut dedup = PacketDedup::new();
    let mut health = HealthMonitor::new();
    let frame = udp_frame([10, 0, 0, 2], [8, 8, 8, 8], 5353, 53);
    m.stats.total_outgoing_bytes = u64::MAX - 10;
    assert!(m.process_packet_if_room(&mut dedup, &mut health, &frame, 111, 74, "eth0", 1000).is_none());
    assert_eq!(m.stats.total_outgoing_bytes, u64::MAX - 10);
    assert!(m.hosts.is_empty());
    m.stats.total_outgoing_bytes = 0;
    let r = m.process_packet_if_room(&mut dedup, &mut health, &frame, 111, 74, "eth0", 1000).unwrap();
    assert!(matches!(r, PacketOutcome::Counted { lookup: Some(_) }));
    assert_eq!(m.hosts.get("8.8.8.8").unwrap().outgoing_bytes, 74);
}
