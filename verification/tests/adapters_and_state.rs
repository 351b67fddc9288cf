use innomonitor::adapters::{NetworkAdapter, score_adapter, get_default_network_adapter, get_monitoring_adapters,
    is_unsupported_macos_adapter};
use innomonitor::persistent_state::{PersistentStateManager, AdapterUpdate, StateSource};
use innomonitor::state_manager::{SystemState, StateEvent};
use innomonitor::health_monitor::{HealthMonitor, activity_status, network_status};
use innomonitor::logger::{Logger, LogLevel, LogEntry, MAX_LOG_ENTRIES};
use innomonitor::traffic_monitor::monitor::TrafficMonitor;

fn adapter(name: &str, desc: Option<&str>, addrs: &[&str], up: bool, lo: bool) -> NetworkAdapter {
    NetworkAdapter::new(name.to_string(), desc.map(|d| d.to_string()), addrs.iter().map(|a| a.to_string()).collect(), up, lo)
}

fn adapters() -> Vec<NetworkAdapter> {
    vec![
        adapter("eth0", Some("Intel Ethernet Controller"), &["192.168.1.5"], true, false),
        adapter("docker0", Some("Docker Bridge"), &["172.17.0.1"], true, false),
        adapter("lo", Some("Loopback"), &["127.0.0.1"], true, true),
        adapter("wlan0", Some("Wireless LAN"), &["8.8.4.4", "2001:db8::1"], true, false),
        adapter("down0", Some("Ethernet"), &["1.2.3.4"], false, false),
        adapter("idle0", None, &[], true, false),
    ]
}

#[test]
fn adapter_scores() {
    let a = adapters();
    assert_eq!(score_adapter(&a[0]), (150, true));
    assert_eq!(score_adapter(&a[1]), (70, true));
    assert_eq!(score_adapter(&a[3]), (175, true));
    assert_eq!(score_adapter(&a[5]), (0, false));
    // an IPv6 address before a public IPv4 one earns 10, the IPv4 one 25
    assert_eq!(score_adapter(&adapter("x", None, &["2001:db8::2", "9.9.9.9", "2001:db8::3"], true, false)), (135, true));
    assert_eq!(score_adapter(&adapter("y", None, &["fe80::1"], true, false)), (100, true));
    assert_eq!(score_adapter(&adapter("z", Some("OpenVPN TAP"), &[], true, false)), (-30, false));
}

#[test]
fn default_adapter_is_the_best_scored() {
    assert_eq!(get_default_network_adapter(&adapters()).unwrap(), "wlan0");
    assert_eq!(get_monitoring_adapters(&adapters()).unwrap(), vec!["wlan0", "eth0", "docker0"]);
    let none = vec![adapter("lo", None, &["127.0.0.1"], true, true)];
    let msg = "No suitable network adapters found for monitoring. All adapters are either loopback or inactive.";
    assert_eq!(get_default_network_adapter(&none).unwrap_err(), msg);
    assert_eq!(get_monitoring_adapters(&none).unwrap_err(), msg);
    // an adapter without addresses is neither the default nor monitored
    let idle = vec![adapter("idle0", None, &[], true, false)];
    assert_eq!(get_default_network_adapter(&idle).unwrap_err(), msg);
    assert!(get_monitoring_adapters(&idle).is_err());
    // one with addresses wins over a better-described one without
    let two = vec![adapter("eth9", Some("Ethernet"), &[], true, false), adapter("en5", None, &["10.0.0.2"], true, false)];
    assert_eq!(get_default_network_adapter(&two).unwrap(), "en5");
}

#[test]
fn macos_adapters_that_cannot_be_captured() {
    assert!(is_unsupported_macos_adapter("utun3"));
    assert!(is_unsupported_macos_adapter("lo0"));
    assert!(!is_unsupported_macos_adapter("en0"));
}

#[test]
fn adapter_state_reads_back_what_was_written() {
    let m = PersistentStateManager::new("state.json".to_string(), "state.json.backup".to_string());
    let mut s = m.fresh_state("1.0.0".to_string(), 1000);
    assert!(m.get_adapter_state(&s, "eth0").is_none());
    m.update_adapter_state(&mut s, "eth0", AdapterUpdate::MonitoringStarted { start_time: 1100 }, 1100);
    let a = m.get_adapter_state(&s, "eth0").unwrap();
    assert_eq!(a.session_start_time, Some(1100));
    assert_eq!(a.first_recorded_time, Some(1100));
    assert!(a.was_monitoring_on_exit);
    m.update_adapter_state(&mut s, "eth0", AdapterUpdate::TotalsSaved { incoming_bytes: 10, outgoing_bytes: 20, incoming_packets: 1, outgoing_packets: 2 }, 1200);
    m.update_adapter_state(&mut s, "wlan0", AdapterUpdate::MonitoringStopped { incoming_bytes: 5, outgoing_bytes: 6, incoming_packets: 1, outgoing_packets: 1, end_time: 1300 }, 1300);
    let a = m.get_adapter_state(&s, "eth0").unwrap();
    assert_eq!((a.cumulative_incoming_bytes, a.cumulative_outgoing_bytes, a.lifetime_incoming_bytes), (10, 20, 10));
    assert_eq!(a.last_update_time, 1200);
    let w = m.get_adapter_state(&s, "wlan0").unwrap();
    assert_eq!(w.last_session_end_time, Some(1300));
    assert!(!w.was_monitoring_on_exit);
    assert_eq!(m.get_all_adapter_states(&s).len(), 2);
    assert_eq!(m.combined_cumulative_totals(&s), (15, 26));
}

#[test]
fn clean_shutdown_is_not_unexpected() {
    let m = PersistentStateManager::new("s".to_string(), "b".to_string());
    let mut s = m.fresh_state("1.0.0".to_string(), 0);
    m.update_adapter_state(&mut s, "eth0", AdapterUpdate::MonitoringStarted { start_time: 10 }, 10);
    // a crash: monitoring was on and the last clean shutdown is long ago
    assert!(m.was_unexpected_shutdown(&s, 1000));
    // within five minutes of a clean shutdown nothing is unexpected
    assert!(!m.was_unexpected_shutdown(&s, 299));
    m.mark_clean_shutdown(&mut s, 2000);
    assert_eq!(m.get_last_shutdown_time(&s), 2000);
    assert!(!m.was_unexpected_shutdown(&s, 100_000));
    assert_eq!(m.get_adapter_state(&s, "eth0").unwrap().last_session_end_time, Some(2000));
}

#[test]
fn system_state_transitions() {
    let mut s = SystemState::fresh("1.0.0".to_string(), 100);
    match s.mark_adapter_active("eth0", true, 110) {
        StateEvent::AdapterConnected(n) => assert_eq!(n, "eth0"),
        other => panic!("unexpected event {:?}", other),
    }
    match s.start_monitoring("eth0", 120) {
        StateEvent::MonitoringStarted(n) => assert_eq!(n, "eth0"),
        other => panic!("unexpected event {:?}", other),
    }
    s.update_traffic("eth0", 100, 50, 2, 1, 130);
    s.update_traffic("eth0", 1, 1, 1, 1, 131);
    assert_eq!(s.global_stats.total_bytes_in, 101);
    assert_eq!(s.adapters[0].total_bytes_out, 51);
    assert_eq!(s.adapters[0].session_start_time, Some(120));
    assert!(!s.was_unexpected_shutdown(10_000));
    assert!(matches!(s.mark_clean_shutdown(200), StateEvent::SystemShutdown));
    assert!(!s.adapters[0].is_monitoring);
    s.start_monitoring("eth0", 300);
    assert!(s.was_unexpected_shutdown(801));
    assert!(!s.was_unexpected_shutdown(799));
    s.mark_adapter_active("eth0", false, 400);
    s.mark_adapter_active("wlan0", false, 900);
    assert_eq!(s.cleanup_inactive_adapters(500, 1000), 1);
    assert_eq!(s.adapters.len(), 1);
    assert_eq!(s.adapters[0].name, "wlan0");
}

#[test]
fn health_reports() {
    assert_eq!(activity_status(0, 100).status_message, "No activity tracked yet");
    let a = activity_status(1000, 1030);
    assert!(a.is_working);
    assert_eq!(a.status_message, "Time tracking is working normally");
    assert_eq!(activity_status(1000, 1100).status_message, "Last activity 100 seconds ago");
    let late = activity_status(1000, 1700);
    assert!(!late.is_working);
    assert_eq!(late.status_message, "Warning: No activity for 700 seconds");
    let mut m = HealthMonitor::new();
    m.update_network_activity_at(500);
    m.set_network_monitoring_status(true);
    let n = network_status(&m, 530, true, vec!["eth0".to_string(), "wlan0".to_string()], 4, true);
    assert_eq!(n.monitoring_mode, "comprehensive");
    assert_eq!(n.status_message, "Network monitoring active on 2 adapter(s) - traffic flowing");
    let n = network_status(&m, 700, false, vec!["eth0".to_string()], 4, true);
    assert_eq!(n.monitoring_mode, "single");
    assert_eq!(n.status_message, "Monitoring 1 adapter(s) - last traffic 200 seconds ago");
    let n = network_status(&m, 700, false, vec![], 4, false);
    assert_eq!(n.status_message, "Network monitoring requires elevated permissions");
    m.update_activity_at(690);
    let h = m.get_comprehensive_health_status_at(700, network_status(&m, 700, false, vec![], 0, true));
    assert_eq!(h.overall_status, "All systems operational");
    let c = m.check_health(1200);
    assert_eq!(c.activity_gap, None);
    assert_eq!(c.network_gap, Some(700));
    assert!(!c.network_inactive);
}

#[test]
fn log_keeps_the_latest_entries() {
    let mut l = Logger::new();
    let line = l.push_entry(LogEntry { timestamp: "t0".to_string(), level: LogLevel::Warning, module: "net".to_string(), message: "slow".to_string() });
    assert_eq!(line, "[t0] [WARN] net: slow");
    for i in 0..MAX_LOG_ENTRIES + 5 {
        l.push_entry(LogEntry { timestamp: format!("t{}", i + 1), level: LogLevel::Info, module: "m".to_string(), message: "x".to_string() });
    }
    assert_eq!(l.get_logs().len(), MAX_LOG_ENTRIES);
    let recent = l.get_recent_logs(2);
    assert_eq!(recent.len(), 2);
    assert_eq!(recent[1].timestamp, format!("t{}", MAX_LOG_ENTRIES + 5));
    assert_eq!(l.get_recent_logs(5000).len(), MAX_LOG_ENTRIES);
    l.clear_logs();
    assert!(l.get_logs().is_empty());
    assert_eq!(LogLevel::Activity.to_string(), "ACTIVITY");
    let line = l.log_message(LogLevel::Error, "db", "down");
    assert!(line.ends_with("] [ERROR] db: down"));
}

#[test]
fn saved_totals_resume_after_restart() {
    let m = PersistentStateManager::new("s".to_string(), "b".to_string());
    let mut s = m.fresh_state("1.0.0".to_string(), 0);
    m.update_adapter_state(&mut s, "eth0", AdapterUpdate::TotalsSaved { incoming_bytes: 700, outgoing_bytes: 300, incoming_packets: 7, outgoing_packets: 3 }, 50);
    let monitor = TrafficMonitor::new("eth0".to_string(), m.get_adapter_state(&s, "eth0"));
    assert_eq!(monitor.stats.total_incoming_bytes, 700);
    assert_eq!(monitor.stats.total_outgoing_bytes, 300);
    assert_eq!((monitor.stats.total_incoming_packets, monitor.stats.total_outgoing_packets), (7, 3));
    let fresh = TrafficMonitor::new("wlan0".to_string(), m.get_adapter_state(&s, "wlan0"));
    assert_eq!(fresh.stats.total_incoming_bytes, 0);
}

#[test]
fn monitoring_flag_follows_the_last_setting() {
    let mut m = HealthMonitor::new();
    assert!(!m.is_network_monitoring_active());
    m.update_activity_at(10);
    m.update_network_activity_at(11);
    assert!(!m.is_network_monitoring_active());
    m.set_network_monitoring_status(true);
    m.update_activity();
    m.update_network_activity();
    assert!(m.is_network_monitoring_active());
    m.set_network_monitoring_status(false);
    m.update_activity_at(20);
    assert!(!m.is_network_monitoring_active());
}

#[test]
fn free_log_message_keeps_earlier_entries() {
    let mut l = Logger::new();
    innomonitor::logger::log_message(&mut l, LogLevel::Info, "a", "first");
    innomonitor::logger::log_message(&mut l, LogLevel::Error, "b", "second");
    let logs = l.get_logs();
    assert_eq!(logs.len(), 2);
    assert_eq!(logs[0].message, "first");
    assert_eq!(logs[1].message, "second");
}

#[test]
fn ordinary_adapters_are_scorable() {
    assert!(innomonitor::adapters::adapters_scorable(&adapters()));
    assert!(innomonitor::adapters::adapters_scorable(&vec![]));
}

#[test]
fn starting_state_prefers_the_state_file_then_the_backup() {
    let m = PersistentStateManager::new("state.json".to_string(), "state.json.backup".to_string());
    let main = m.fresh_state("1.0.0".to_string(), 100);
    let backup = m.fresh_state("0.9.0".to_string(), 50);
    let (s, src) = m.load_state(Ok(main), Ok(m.fresh_state("0.9.0".to_string(), 50)), "1.1.0".to_string(), 900);
    assert_eq!((s.app_version.as_str(), s.created_at, src), ("1.0.0", 100, StateSource::StateFile));
    let (s, src) = m.load_state(Err("missing".to_string()), Ok(backup), "1.1.0".to_string(), 900);
    assert_eq!((s.app_version.as_str(), s.created_at, src), ("0.9.0", 50, StateSource::Backup));
    let (s, src) = m.load_state(Err("missing".to_string()), Err("bad".to_string()), "1.1.0".to_string(), 900);
    assert_eq!((s.app_version.as_str(), s.created_at, s.last_shutdown_time, src), ("1.1.0", 900, Some(900), StateSource::Fresh));
    assert!(s.adapters.is_empty());
}
