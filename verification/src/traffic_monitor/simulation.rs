//! Simulated traffic, for running without a capture device: random ticks
//! of traffic drawn from fixed ranges, and well-known hosts and services.
use vstd::prelude::*;
use dashmap::DashMap;
use rand::Rng;
use crate::text::{dec, push_str, push_decimal};
use super::types::{NetworkHost, ServiceInfo, TrafficData, MonitoringStats};
use super::tables::{host_table, service_table, host_lookup, host_store, service_lookup, service_store, service_key_of};
use super::monitor::{MAX_HISTORY, sample, update_traffic_history};
use super::deduplication::get_current_time;

verus! {

/// A number drawn uniformly from `lo..hi` with rand's `random_range`.
/// Trusted: the number lies in the range.
#[verifier::external_body]
fn random_between(lo: u64, hi: u64) -> (r: u64)
    requires
        lo < hi,
    ensures
        lo <= r < hi,
{
    rand::rng().random_range(lo..hi)
}

/// A position drawn uniformly from `0..n` with rand's `random_range`.
/// Trusted: the position lies in the range.
#[verifier::external_body]
fn random_index(n: usize) -> (r: usize)
    requires
        n > 0,
    ensures
        r < n,
{
    rand::rng().random_range(0..n)
}

/// `true` with chance `numerator` in `denominator`, from rand's
/// `random_ratio`. Nothing is claimed of the outcome.
#[verifier::external_body]
fn random_chance(numerator: u32, denominator: u32) -> (r: bool)
    requires
        0 < denominator,
        numerator <= denominator,
{
    rand::rng().random_ratio(numerator, denominator)
}

/// The number of well-known hosts a simulation picks from.
pub const DEMO_HOST_COUNT: usize = 8;

/// Well-known host `i`: address, name, domain, country, country code, ASN.
pub open spec fn demo_host(i: int) -> (Seq<char>, Seq<char>, Seq<char>, Seq<char>, Seq<char>, Seq<char>) {
    if i == 0 {
        ("8.8.8.8"@, "dns.google"@, "google.com"@, "United States"@, "US"@, "AS15169 Google LLC"@)
    } else if i == 1 {
        ("1.1.1.1"@, "one.one.one.one"@, "cloudflare.com"@, "United States"@, "US"@, "AS13335 Cloudflare"@)
    } else if i == 2 {
        ("208.67.222.222"@, "resolver1.opendns.com"@, "opendns.com"@, "United States"@, "US"@, "AS36692 OpenDNS"@)
    } else if i == 3 {
        ("172.217.14.110"@, "lga25s62-in-f14.1e100.net"@, "google.com"@, "United States"@, "US"@, "AS15169 Google LLC"@)
    } else if i == 4 {
        ("151.101.193.140"@, "reddit.map.fastly.net"@, "fastly.com"@, "United States"@, "US"@, "AS54113 Fastly"@)
    } else if i == 5 {
        ("13.107.42.14"@, "outlook-namsouth.office365.com"@, "microsoft.com"@, "United States"@, "US"@, "AS8075 Microsoft"@)
    } else if i == 6 {
        ("52.84.223.104"@, "server-52-84-223-104.fra50.r.cloudfront.net"@, "amazonaws.com"@, "Germany"@, "DE"@, "AS16509 Amazon"@)
    } else {
        ("142.250.191.78"@, "fra16s18-in-f14.1e100.net"@, "google.com"@, "Germany"@, "DE"@, "AS15169 Google LLC"@)
    }
}

/// The texts of well-known host `i`.
fn demo_host_row(i: usize) -> (r: (&'static str, &'static str, &'static str, &'static str, &'static str, &'static str))
    requires
        i < DEMO_HOST_COUNT,
    ensures
        (r.0@, r.1@, r.2@, r.3@, r.4@, r.5@) == demo_host(i as int),
{
    match i {
        0 => ("8.8.8.8", "dns.google", "google.com", "United States", "US", "AS15169 Google LLC"),
        1 => ("1.1.1.1", "one.one.one.one", "cloudflare.com", "United States", "US", "AS13335 Cloudflare"),
        2 => ("208.67.222.222", "resolver1.opendns.com", "opendns.com", "United States", "US", "AS36692 OpenDNS"),
        3 => ("172.217.14.110", "lga25s62-in-f14.1e100.net", "google.com", "United States", "US", "AS15169 Google LLC"),
        4 => ("151.101.193.140", "reddit.map.fastly.net", "fastly.com", "United States", "US", "AS54113 Fastly"),
        5 => ("13.107.42.14", "outlook-namsouth.office365.com", "microsoft.com", "United States", "US", "AS8075 Microsoft"),
        6 => ("52.84.223.104", "server-52-84-223-104.fra50.r.cloudfront.net", "amazonaws.com", "Germany", "DE", "AS16509 Amazon"),
        _ => ("142.250.191.78", "fra16s18-in-f14.1e100.net", "google.com", "Germany", "DE", "AS15169 Google LLC"),
    }
}

/// Packets counted for `bytes` simulated bytes: one per started kilobyte.
pub open spec fn simulated_packets(bytes: u64) -> int {
    bytes / 1024 + 1
}

/// A host entry after simulated traffic of `incoming` and `outgoing` bytes at `now`.
pub open spec fn simulated_host_update(h: NetworkHost, incoming: u64, outgoing: u64, now: u64) -> NetworkHost {
    NetworkHost {
        incoming_bytes: (h.incoming_bytes + incoming) as u64,
        outgoing_bytes: (h.outgoing_bytes + outgoing) as u64,
        incoming_packets: (h.incoming_packets + simulated_packets(incoming)) as u64,
        outgoing_packets: (h.outgoing_packets + simulated_packets(outgoing)) as u64,
        last_seen: now,
        ..h
    }
}

/// Adding the traffic to the entry at `ip`, if there is one, does not overflow.
pub open spec fn host_room(t: Map<Seq<char>, NetworkHost>, ip: Seq<char>, incoming: u64, outgoing: u64) -> bool {
    t.contains_key(ip) ==> {
        &&& t[ip].incoming_bytes + incoming <= u64::MAX
        &&& t[ip].outgoing_bytes + outgoing <= u64::MAX
        &&& t[ip].incoming_packets + simulated_packets(incoming) <= u64::MAX
        &&& t[ip].outgoing_packets + simulated_packets(outgoing) <= u64::MAX
    }
}

/// `f` is the host table `o` after simulated traffic of `incoming` and
/// `outgoing` bytes with well-known host `pick` at `now`: its entry gains
/// the bytes and packets, or is created with them and the host's name and
/// origin; no other entry changes.
pub open spec fn host_recorded(o: Map<Seq<char>, NetworkHost>, f: Map<Seq<char>, NetworkHost>, pick: int,
    incoming: u64, outgoing: u64, now: u64) -> bool {
    let row = demo_host(pick);
    &&& f.dom() == o.dom().insert(row.0)
    &&& forall|k: Seq<char>| k != row.0 && #[trigger] o.contains_key(k) ==> f[k] == o[k]
    &&& o.contains_key(row.0) ==> f[row.0] == simulated_host_update(o[row.0], incoming, outgoing, now)
    &&& !o.contains_key(row.0) ==> {
        let h = f[row.0];
        &&& h.ip@ == row.0
        &&& h.hostname matches Some(x) && x@ == row.1
        &&& h.domain matches Some(x) && x@ == row.2
        &&& h.country matches Some(x) && x@ == row.3
        &&& h.country_code matches Some(x) && x@ == row.4
        &&& h.asn matches Some(x) && x@ == row.5
        &&& h.incoming_bytes == incoming && h.outgoing_bytes == outgoing
        &&& h.incoming_packets == simulated_packets(incoming)
        &&& h.outgoing_packets == simulated_packets(outgoing)
        &&& h.first_seen == now && h.last_seen == now
    }
}

/// Records simulated traffic with well-known host `pick`: its entry gains
/// the bytes and packets, or is created with them and the host's name and
/// origin.
pub fn record_simulated_host(hosts: &mut DashMap<String, NetworkHost>, pick: usize, incoming: u64, outgoing: u64, now: u64)
    requires
        pick < DEMO_HOST_COUNT,
        host_room(host_table(*old(hosts)), demo_host(pick as int).0, incoming, outgoing),
    ensures
        host_recorded(host_table(*old(hosts)), host_table(*final(hosts)), pick as int, incoming, outgoing, now),
{
    let (ip, hostname, domain, country, country_code, asn) = demo_host_row(pick);
    let in_packets = incoming / 1024 + 1;
    let out_packets = outgoing / 1024 + 1;
    let updated = match host_lookup(hosts, ip) {
        Some(h) => NetworkHost {
            incoming_bytes: h.incoming_bytes + incoming,
            outgoing_bytes: h.outgoing_bytes + outgoing,
            incoming_packets: h.incoming_packets + in_packets,
            outgoing_packets: h.outgoing_packets + out_packets,
            last_seen: now,
            ..h
        },
        None => NetworkHost {
            ip: String::from_str(ip),
            hostname: Some(String::from_str(hostname)),
            domain: Some(String::from_str(domain)),
            country: Some(String::from_str(country)),
            country_code: Some(String::from_str(country_code)),
            asn: Some(String::from_str(asn)),
            incoming_bytes: incoming,
            outgoing_bytes: outgoing,
            incoming_packets: in_packets,
            outgoing_packets: out_packets,
            first_seen: now,
            last_seen: now,
        },
    };
    host_store(hosts, String::from_str(ip), updated);
    proof {
        assert(host_table(*hosts).dom() =~= host_table(*old(hosts)).dom().insert(demo_host(pick as int).0));
    }
}

/// Every well-known host has room for the largest simulated traffic.
pub open spec fn hosts_have_room(t: Map<Seq<char>, NetworkHost>) -> bool {
    forall|i: int| 0 <= i < DEMO_HOST_COUNT ==> #[trigger] host_room(t, demo_host(i).0, 20479, 10239)
}

/// `f` is the host table `o` after simulated traffic of `incoming` and
/// `outgoing` bytes with well-known host `pick` at `now`, drawn from the
/// simulation's ranges.
pub open spec fn host_simulated(o: Map<Seq<char>, NetworkHost>, f: Map<Seq<char>, NetworkHost>, pick: int,
    incoming: u64, outgoing: u64, now: u64) -> bool {
    &&& 0 <= pick < DEMO_HOST_COUNT
    &&& 1024 <= incoming < 20480 && 512 <= outgoing < 10240
    &&& host_recorded(o, f, pick, incoming, outgoing, now)
}

/// Simulates traffic with a random well-known host at `now`: between 1 KiB
/// and 20 KiB in, between 512 bytes and 10 KiB out.
pub fn simulate_network_host(hosts: &mut DashMap<String, NetworkHost>, now: u64)
    requires
        hosts_have_room(host_table(*old(hosts))),
    ensures
        exists|pick: int, incoming: u64, outgoing: u64|
            #[trigger] host_simulated(host_table(*old(hosts)), host_table(*final(hosts)), pick, incoming, outgoing, now),
{
    let pick = random_index(DEMO_HOST_COUNT);
    let incoming = random_between(1024, 20480);
    let outgoing = random_between(512, 10240);
    proof {
        assert(host_room(host_table(*hosts), demo_host(pick as int).0, 20479, 10239));
    }
    record_simulated_host(hosts, pick, incoming, outgoing, now);
    proof {
        assert(host_simulated(host_table(*old(hosts)), host_table(*hosts), pick as int, incoming, outgoing, now));
    }
}

/// The number of well-known services a simulation picks from.
pub const DEMO_SERVICE_COUNT: usize = 10;

/// Well-known service `i`: protocol, port and name.
pub open spec fn demo_service(i: int) -> (Seq<char>, u16, Seq<char>) {
    if i == 0 {
        ("TCP"@, 80u16, "HTTP"@)
    } else if i == 1 {
        ("TCP"@, 443u16, "HTTPS"@)
    } else if i == 2 {
        ("TCP"@, 53u16, "DNS"@)
    } else if i == 3 {
        ("UDP"@, 53u16, "DNS"@)
    } else if i == 4 {
        ("TCP"@, 22u16, "SSH"@)
    } else if i == 5 {
        ("TCP"@, 21u16, "FTP"@)
    } else if i == 6 {
        ("TCP"@, 25u16, "SMTP"@)
    } else if i == 7 {
        ("TCP"@, 993u16, "IMAPS"@)
    } else if i == 8 {
        ("TCP"@, 995u16, "POP3S"@)
    } else {
        ("UDP"@, 123u16, "NTP"@)
    }
}

/// The protocol, port and name of well-known service `i`.
fn demo_service_row(i: usize) -> (r: (&'static str, u16, &'static str))
    requires
        i < DEMO_SERVICE_COUNT,
    ensures
        (r.0@, r.1, r.2@) == demo_service(i as int),
{
    match i {
        0 => ("TCP", 80, "HTTP"),
        1 => ("TCP", 443, "HTTPS"),
        2 => ("TCP", 53, "DNS"),
        3 => ("UDP", 53, "DNS"),
        4 => ("TCP", 22, "SSH"),
        5 => ("TCP", 21, "FTP"),
        6 => ("TCP", 25, "SMTP"),
        7 => ("TCP", 993, "IMAPS"),
        8 => ("TCP", 995, "POP3S"),
        _ => ("UDP", 123, "NTP"),
    }
}

/// The key of well-known service `i`.
pub open spec fn demo_service_key(i: int) -> Seq<char> {
    service_key_of(demo_service(i).0, demo_service(i).1)
}

/// A service entry after `bytes` more simulated bytes.
pub open spec fn simulated_service_update(sv: ServiceInfo, bytes: u64) -> ServiceInfo {
    ServiceInfo {
        bytes: (sv.bytes + bytes) as u64,
        packets: (sv.packets + simulated_packets(bytes)) as u64,
        ..sv
    }
}

/// Adding `bytes` to the entry at `key`, if there is one, does not overflow.
pub open spec fn service_room(t: Map<Seq<char>, ServiceInfo>, key: Seq<char>, bytes: u64) -> bool {
    t.contains_key(key) ==> t[key].bytes + bytes <= u64::MAX && t[key].packets + simulated_packets(bytes) <= u64::MAX
}

/// `f` is the service table `o` after `bytes` simulated bytes for
/// well-known service `pick`: its entry gains them, or is created with them
/// and the service's name; no other entry changes.
pub open spec fn service_recorded(o: Map<Seq<char>, ServiceInfo>, f: Map<Seq<char>, ServiceInfo>, pick: int, bytes: u64) -> bool {
    let row = demo_service(pick);
    let key = demo_service_key(pick);
    &&& f.dom() == o.dom().insert(key)
    &&& forall|k: Seq<char>| k != key && #[trigger] o.contains_key(k) ==> f[k] == o[k]
    &&& o.contains_key(key) ==> f[key] == simulated_service_update(o[key], bytes)
    &&& !o.contains_key(key) ==> {
        let sv = f[key];
        &&& sv.protocol@ == row.0 && sv.port == row.1
        &&& sv.service_name matches Some(x) && x@ == row.2
        &&& sv.bytes == bytes && sv.packets == simulated_packets(bytes)
    }
}

/// Records `bytes` simulated bytes for well-known service `pick`: its entry
/// gains them, or is created with them and the service's name.
pub fn record_simulated_service(services: &mut DashMap<String, ServiceInfo>, pick: usize, bytes: u64)
    requires
        pick < DEMO_SERVICE_COUNT,
        service_room(service_table(*old(services)), demo_service_key(pick as int), bytes),
    ensures
        service_recorded(service_table(*old(services)), service_table(*final(services)), pick as int, bytes),
{
    let (protocol, port, name) = demo_service_row(pick);
    let mut key = String::from_str(protocol);
    push_str(&mut key, ":");
    push_decimal(&mut key, port as u64);
    proof {
        assert(key@ =~= demo_service_key(pick as int));
    }
    let packets = bytes / 1024 + 1;
    let updated = match service_lookup(services, key.as_str()) {
        Some(sv) => ServiceInfo { bytes: sv.bytes + bytes, packets: sv.packets + packets, ..sv },
        None => ServiceInfo {
            protocol: String::from_str(protocol),
            port,
            service_name: Some(String::from_str(name)),
            bytes,
            packets,
        },
    };
    service_store(services, key, updated);
    proof {
        assert(service_table(*services).dom() =~= service_table(*old(services)).dom().insert(demo_service_key(pick as int)));
    }
}

/// Every well-known service has room for `bytes` more bytes.
pub open spec fn services_have_room(t: Map<Seq<char>, ServiceInfo>, bytes: u64) -> bool {
    forall|i: int| 0 <= i < DEMO_SERVICE_COUNT ==> #[trigger] service_room(t, demo_service_key(i), bytes)
}

/// `f` is the service table `o` after `bytes` simulated bytes for
/// well-known service `pick`.
pub open spec fn service_simulated(o: Map<Seq<char>, ServiceInfo>, f: Map<Seq<char>, ServiceInfo>, pick: int, bytes: u64) -> bool {
    &&& 0 <= pick < DEMO_SERVICE_COUNT
    &&& service_recorded(o, f, pick, bytes)
}

/// Simulates `bytes` bytes of traffic for a random well-known service.
pub fn simulate_service(services: &mut DashMap<String, ServiceInfo>, bytes: u64)
    requires
        services_have_room(service_table(*old(services)), bytes),
    ensures
        exists|pick: int| #[trigger] service_simulated(service_table(*old(services)), service_table(*final(services)), pick, bytes),
{
    let pick = random_index(DEMO_SERVICE_COUNT);
    proof {
        assert(service_room(service_table(*services), demo_service_key(pick as int), bytes));
    }
    record_simulated_service(services, pick, bytes);
    proof {
        assert(service_simulated(service_table(*old(services)), service_table(*services), pick as int, bytes));
    }
}

/// The random amounts of one simulated tick: the traffic counted, and the
/// host (`pick`, bytes in, bytes out) and service (`pick`) it touches, if
/// any.
pub struct TickDraw {
    pub incoming_bytes: u64,
    pub outgoing_bytes: u64,
    pub incoming_packets: u64,
    pub outgoing_packets: u64,
    pub host: Option<(usize, u64, u64)>,
    pub service: Option<usize>,
}

/// The amounts lie in the simulation's ranges.
pub open spec fn draw_in_range(d: TickDraw) -> bool {
    &&& 1000 <= d.incoming_bytes < 50000
    &&& 500 <= d.outgoing_bytes < 25000
    &&& 10 <= d.incoming_packets < 100
    &&& 5 <= d.outgoing_packets < 50
    &&& d.host matches Some((p, i, o)) ==> p < DEMO_HOST_COUNT && 1024 <= i < 20480 && 512 <= o < 10240
    &&& d.service matches Some(p) ==> p < DEMO_SERVICE_COUNT
}

/// The totals after a tick, which started at `start_time`, at `now`.
pub open spec fn ticked_stats(st: MonitoringStats, d: TickDraw, start_time: u64, now: u64) -> MonitoringStats {
    MonitoringStats {
        total_incoming_bytes: (st.total_incoming_bytes + d.incoming_bytes) as u64,
        total_outgoing_bytes: (st.total_outgoing_bytes + d.outgoing_bytes) as u64,
        total_incoming_packets: (st.total_incoming_packets + d.incoming_packets) as u64,
        total_outgoing_packets: (st.total_outgoing_packets + d.outgoing_packets) as u64,
        monitoring_duration: (now - start_time) as u64,
        ..st
    }
}

/// The tick can be applied without overflow.
pub open spec fn tick_fits(
    hosts: Map<Seq<char>, NetworkHost>,
    services: Map<Seq<char>, ServiceInfo>,
    history: Seq<TrafficData>,
    st: MonitoringStats,
    start_time: u64,
    now: u64,
    d: TickDraw,
) -> bool {
    &&& start_time <= now
    &&& history.len() <= MAX_HISTORY
    &&& st.total_incoming_bytes + d.incoming_bytes <= u64::MAX
    &&& st.total_outgoing_bytes + d.outgoing_bytes <= u64::MAX
    &&& st.total_incoming_packets + d.incoming_packets <= u64::MAX
    &&& st.total_outgoing_packets + d.outgoing_packets <= u64::MAX
    &&& d.incoming_bytes + d.outgoing_bytes <= u64::MAX
    &&& d.host matches Some((p, i, o)) ==> p < DEMO_HOST_COUNT && host_room(hosts, demo_host(p as int).0, i, o)
    &&& d.service matches Some(p) ==> p < DEMO_SERVICE_COUNT
        && service_room(services, demo_service_key(p as int), (d.incoming_bytes + d.outgoing_bytes) as u64)
}

/// One simulated tick at `now` went from the first of each pair of values
/// to the second: the totals and duration grew, the picked host and
/// service (if any) gained the traffic, and a sample was appended to the
/// history, which keeps its last `MAX_HISTORY` samples.
pub open spec fn tick_applied(
    o_hosts: Map<Seq<char>, NetworkHost>, f_hosts: Map<Seq<char>, NetworkHost>,
    o_services: Map<Seq<char>, ServiceInfo>, f_services: Map<Seq<char>, ServiceInfo>,
    o_history: Seq<TrafficData>, f_history: Seq<TrafficData>,
    o_stats: MonitoringStats, f_stats: MonitoringStats,
    start_time: u64, now: u64, d: TickDraw,
) -> bool {
    let grown = o_history.push(sample(f_stats, now));
    &&& f_stats == ticked_stats(o_stats, d, start_time, now)
    &&& match d.host {
        Some((p, i, o)) => host_recorded(o_hosts, f_hosts, p as int, i, o, now),
        None => f_hosts == o_hosts,
    }
    &&& match d.service {
        Some(p) => service_recorded(o_services, f_services, p as int, (d.incoming_bytes + d.outgoing_bytes) as u64),
        None => f_services == o_services,
    }
    &&& f_history == if o_history.len() < MAX_HISTORY { grown } else { grown.drop_first() }
}

/// Applies one simulated tick with the given amounts at `now`.
pub fn apply_traffic_tick(
    hosts: &mut DashMap<String, NetworkHost>,
    services: &mut DashMap<String, ServiceInfo>,
    history: &mut Vec<TrafficData>,
    stats: &mut MonitoringStats,
    start_time: u64,
    now: u64,
    draw: &TickDraw,
)
    requires
        tick_fits(host_table(*old(hosts)), service_table(*old(services)), old(history)@, *old(stats), start_time, now, *draw),
    ensures
        tick_applied(host_table(*old(hosts)), host_table(*final(hosts)), service_table(*old(services)),
            service_table(*final(services)), old(history)@, final(history)@, *old(stats), *final(stats), start_time, now, *draw),
{
    stats.total_incoming_bytes = stats.total_incoming_bytes + draw.incoming_bytes;
    stats.total_outgoing_bytes = stats.total_outgoing_bytes + draw.outgoing_bytes;
    stats.total_incoming_packets = stats.total_incoming_packets + draw.incoming_packets;
    stats.total_outgoing_packets = stats.total_outgoing_packets + draw.outgoing_packets;
    stats.monitoring_duration = now - start_time;
    match draw.host {
        Some((pick, incoming, outgoing)) => record_simulated_host(hosts, pick, incoming, outgoing, now),
        None => {},
    }
    match draw.service {
        Some(pick) => record_simulated_service(services, pick, draw.incoming_bytes + draw.outgoing_bytes),
        None => {},
    }
    update_traffic_history(history, stats, now);
}

/// How a simulated tick with amounts `d` read at `now` went: the amounts
/// lie in the simulation's ranges, the tick was applied exactly when it
/// fits, and then as `tick_applied` says; otherwise nothing changed.
pub open spec fn tick_outcome(
    applied: bool,
    o_hosts: Map<Seq<char>, NetworkHost>, f_hosts: Map<Seq<char>, NetworkHost>,
    o_services: Map<Seq<char>, ServiceInfo>, f_services: Map<Seq<char>, ServiceInfo>,
    o_history: Seq<TrafficData>, f_history: Seq<TrafficData>,
    o_stats: MonitoringStats, f_stats: MonitoringStats,
    start_time: u64, now: u64, d: TickDraw,
) -> bool {
    &&& draw_in_range(d)
    &&& applied == tick_fits(o_hosts, o_services, o_history, o_stats, start_time, now, d)
    &&& applied ==> tick_applied(o_hosts, f_hosts, o_services, f_services, o_history, f_history,
        o_stats, f_stats, start_time, now, d)
    &&& !applied ==> f_hosts == o_hosts && f_services == o_services && f_history == o_history
        && f_stats == o_stats
}

/// Simulates one tick of traffic at the current time, for a monitor started
/// at `start_time`: random totals (1000 to 50000 bytes and 10 to 100
/// packets in, 500 to 25000 bytes and 5 to 50 packets out), with a chance
/// of 3 in 10 of touching a random host and 2 in 10 of a random service.
/// Returns whether the tick was applied: it is applied exactly when the
/// clock reads no earlier than `start_time` and no count would overflow.
pub fn simulate_traffic_tick(
    hosts: &mut DashMap<String, NetworkHost>,
    services: &mut DashMap<String, ServiceInfo>,
    history: &mut Vec<TrafficData>,
    stats: &mut MonitoringStats,
    start_time: u64,
) -> (applied: bool)
    ensures
        exists|now: u64, d: TickDraw| #[trigger] tick_outcome(applied, host_table(*old(hosts)),
            host_table(*final(hosts)), service_table(*old(services)), service_table(*final(services)), old(history)@,
            final(history)@, *old(stats), *final(stats), start_time, now, d),
{
    let now = get_current_time();
    let incoming_bytes = random_between(1000, 50000);
    let outgoing_bytes = random_between(500, 25000);
    let incoming_packets = random_between(10, 100);
    let outgoing_packets = random_between(5, 50);
    let host = if random_chance(3, 10) {
        let pick = random_index(DEMO_HOST_COUNT);
        let incoming = random_between(1024, 20480);
        let outgoing = random_between(512, 10240);
        Some((pick, incoming, outgoing))
    } else {
        None
    };
    let service = if random_chance(2, 10) { Some(random_index(DEMO_SERVICE_COUNT)) } else { None };
    let draw = TickDraw { incoming_bytes, outgoing_bytes, incoming_packets, outgoing_packets, host, service };
    let mut fits = !(now < start_time || history.len() > MAX_HISTORY
        || stats.total_incoming_bytes > u64::MAX - incoming_bytes
        || stats.total_outgoing_bytes > u64::MAX - outgoing_bytes
        || stats.total_incoming_packets > u64::MAX - incoming_packets
        || stats.total_outgoing_packets > u64::MAX - outgoing_packets);
    match host {
        Some((pick, incoming, outgoing)) => {
            if !host_has_room(hosts, pick, incoming, outgoing) {
                fits = false;
            }
        },
        None => {},
    }
    match service {
        Some(pick) => {
            if !service_has_room(services, pick, incoming_bytes + outgoing_bytes) {
                fits = false;
            }
        },
        None => {},
    }
    if fits {
        apply_traffic_tick(hosts, services, history, stats, start_time, now, &draw);
    }
    proof {
        assert(tick_outcome(fits, host_table(*old(hosts)), host_table(*hosts), service_table(*old(services)),
            service_table(*services), old(history)@, history@, *old(stats), *stats, start_time, now, draw));
    }
    fits
}

/// Whether well-known host `pick` has room for the traffic.
fn host_has_room(hosts: &DashMap<String, NetworkHost>, pick: usize, incoming: u64, outgoing: u64) -> (b: bool)
    requires
        pick < DEMO_HOST_COUNT,
    ensures
        b == host_room(host_table(*hosts), demo_host(pick as int).0, incoming, outgoing),
{
    let (ip, _, _, _, _, _) = demo_host_row(pick);
    match host_lookup(hosts, ip) {
        None => true,
        Some(h) => h.incoming_bytes <= u64::MAX - incoming && h.outgoing_bytes <= u64::MAX - outgoing
            && h.incoming_packets <= u64::MAX - (incoming / 1024 + 1)
            && h.outgoing_packets <= u64::MAX - (outgoing / 1024 + 1),
    }
}

/// Whether well-known service `pick` has room for `bytes` more bytes.
fn service_has_room(services: &DashMap<String, ServiceInfo>, pick: usize, bytes: u64) -> (b: bool)
    requires
        pick < DEMO_SERVICE_COUNT,
    ensures
        b == service_room(service_table(*services), demo_service_key(pick as int), bytes),
{
    let (protocol, port, _) = demo_service_row(pick);
    let mut key = String::from_str(protocol);
    push_str(&mut key, ":");
    push_decimal(&mut key, port as u64);
    proof {
        assert(key@ =~= demo_service_key(pick as int));
    }
    match service_lookup(services, key.as_str()) {
        None => true,
        Some(sv) => sv.bytes <= u64::MAX - bytes && sv.packets <= u64::MAX - (bytes / 1024 + 1),
    }
}

} // verus!
