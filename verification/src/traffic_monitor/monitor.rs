//! One adapter's traffic monitor: its running totals and history, the host
//! and service tables, and what each captured packet does to them.
use vstd::prelude::*;
use dashmap::DashMap;
use crate::ordering::{SortKey, ranked, rank};
use crate::network_storage::consolidation::first_n;
use crate::network_storage::types::NetworkSession;
use crate::persistent_state::{AdapterPersistentState, AdapterUpdate, AppPersistentState, applied, fresh_adapter};
use crate::health_monitor::HealthMonitor;
use super::types::{TrafficData, NetworkHost, ServiceInfo, MonitoringStats, MonitoringConfig, copy_traffic,
    copy_hosts_prefix, copy_services_prefix};
use super::packets::{PacketHeaders, Transport, IpAddress, ethernet_headers, read_frame_headers, ip_to_string,
    ip_text, is_outgoing_traffic, is_local_source, create_packet_signature, packet_signature, protocol_name, ports};
use super::deduplication::{PacketDedup, seen_signatures, SeenPacket};
use super::host_analysis::{is_skipped_host, skipped_host};
use super::tables::{host_table, service_table, new_host_table, new_service_table, host_values, service_values,
    host_clear, service_clear, lists_values, count_host_packet, process_service_from_packet, host_count_fits,
    service_count_fits, counted_host, counted_service, is_fresh_host, is_fresh_service, service_key_of};

verus! {

/// History entries kept at most.
pub const MAX_HISTORY: usize = 3600;

/// Hosts and services a monitor reports at most.
pub const DEFAULT_MAX_HOSTS: usize = 1000;

/// Services a monitor reports at most.
pub const DEFAULT_MAX_SERVICES: usize = 100;

/// One adapter's monitor.
pub struct TrafficMonitor {
    pub config: MonitoringConfig,
    pub stats: MonitoringStats,
    pub hosts: DashMap<String, NetworkHost>,
    pub services: DashMap<String, ServiceInfo>,
    pub traffic_history: Vec<TrafficData>,
    pub is_running: bool,
    pub session_start_time: Option<u64>,
    pub last_known_date: Option<u32>,
}

/// What became of a captured frame.
#[derive(Debug)]
pub enum PacketOutcome {
    /// Too short to hold an Ethernet header.
    Unreadable,
    /// Not an IP packet.
    NotIp,
    /// Already counted on some adapter.
    Duplicate,
    /// Counted; `lookup` names a newly seen host whose name and origin are
    /// still to be looked up.
    Counted { lookup: Option<String> },
}

/// Adds one packet to the totals, in the given direction.
pub fn update_overall_stats(stats: &mut MonitoringStats, packet_size: u64, is_outgoing: bool)
    requires
        is_outgoing ==> old(stats).total_outgoing_bytes + packet_size <= u64::MAX && old(stats).total_outgoing_packets + 1 <= u64::MAX,
        !is_outgoing ==> old(stats).total_incoming_bytes + packet_size <= u64::MAX && old(stats).total_incoming_packets + 1 <= u64::MAX,
    ensures
        is_outgoing ==> *final(stats) == (MonitoringStats {
            total_outgoing_bytes: (old(stats).total_outgoing_bytes + packet_size) as u64,
            total_outgoing_packets: (old(stats).total_outgoing_packets + 1) as u64,
            ..*old(stats)
        }),
        !is_outgoing ==> *final(stats) == (MonitoringStats {
            total_incoming_bytes: (old(stats).total_incoming_bytes + packet_size) as u64,
            total_incoming_packets: (old(stats).total_incoming_packets + 1) as u64,
            ..*old(stats)
        }),
{
    if is_outgoing {
        stats.total_outgoing_bytes = stats.total_outgoing_bytes + packet_size;
        stats.total_outgoing_packets = stats.total_outgoing_packets + 1;
    } else {
        stats.total_incoming_bytes = stats.total_incoming_bytes + packet_size;
        stats.total_incoming_packets = stats.total_incoming_packets + 1;
    }
}

/// The sample of the totals at `now`.
pub open spec fn sample(stats: MonitoringStats, now: u64) -> TrafficData {
    TrafficData {
        timestamp: now,
        incoming_bytes: stats.total_incoming_bytes,
        outgoing_bytes: stats.total_outgoing_bytes,
        incoming_packets: stats.total_incoming_packets,
        outgoing_packets: stats.total_outgoing_packets,
    }
}

/// Appends a sample of the totals at `now`, keeping the last
/// `MAX_HISTORY` samples.
pub fn update_traffic_history(history: &mut Vec<TrafficData>, stats: &MonitoringStats, now: u64)
    requires
        old(history)@.len() <= MAX_HISTORY,
    ensures
        final(history)@.len() <= MAX_HISTORY,
        old(history)@.len() < MAX_HISTORY ==> final(history)@ == old(history)@.push(sample(*stats, now)),
        old(history)@.len() == MAX_HISTORY ==> final(history)@ == old(history)@.push(sample(*stats, now)).drop_first(),
{
    let data = TrafficData {
        timestamp: now,
        incoming_bytes: stats.total_incoming_bytes,
        outgoing_bytes: stats.total_outgoing_bytes,
        incoming_packets: stats.total_incoming_packets,
        outgoing_packets: stats.total_outgoing_packets,
    };
    history.push(data);
    if history.len() > MAX_HISTORY {
        history.remove(0);
        proof {
            assert(history@ =~= old(history)@.push(sample(*stats, now)).drop_first());
        }
    }
}

/// The starting totals of a monitor: those remembered for the adapter, or
/// zero.
pub open spec fn restored_totals(p: Option<AdapterPersistentState>) -> (u64, u64, u64, u64) {
    match p {
        Some(s) => (s.cumulative_incoming_bytes, s.cumulative_outgoing_bytes, s.cumulative_incoming_packets, s.cumulative_outgoing_packets),
        None => (0, 0, 0, 0),
    }
}

impl TrafficMonitor {
    /// The monitor's tables and history are consistent: the history is
    /// within its cap.
    pub open spec fn wf(&self) -> bool {
        self.traffic_history@.len() <= MAX_HISTORY
    }

    /// A stopped monitor for `adapter_name`, starting from the totals
    /// remembered for it.
    pub fn new(adapter_name: String, persistent_state: Option<AdapterPersistentState>) -> (m: TrafficMonitor)
        ensures
            m.wf(),
            m.config.adapter_name == adapter_name,
            !m.config.is_monitoring,
            m.config.capture_filter is None,
            m.config.max_hosts == DEFAULT_MAX_HOSTS,
            m.config.max_services == DEFAULT_MAX_SERVICES,
            (m.stats.total_incoming_bytes, m.stats.total_outgoing_bytes, m.stats.total_incoming_packets,
                m.stats.total_outgoing_packets) == restored_totals(persistent_state),
            m.stats.monitoring_duration == 0,
            m.stats.traffic_rate@.len() == 0,
            m.stats.network_hosts@.len() == 0,
            m.stats.services@.len() == 0,
            host_table(m.hosts).dom() == Set::<Seq<char>>::empty(),
            service_table(m.services).dom() == Set::<Seq<char>>::empty(),
            m.traffic_history@.len() == 0,
            !m.is_running,
            m.session_start_time is None,
            m.last_known_date is None,
    {
        let (ti, to, pi, po) = match &persistent_state {
            Some(s) => (s.cumulative_incoming_bytes, s.cumulative_outgoing_bytes, s.cumulative_incoming_packets, s.cumulative_outgoing_packets),
            None => (0, 0, 0, 0),
        };
        TrafficMonitor {
            config: MonitoringConfig {
                adapter_name,
                is_monitoring: false,
                capture_filter: None,
                max_hosts: DEFAULT_MAX_HOSTS,
                max_services: DEFAULT_MAX_SERVICES,
            },
            stats: MonitoringStats {
                total_incoming_bytes: ti,
                total_outgoing_bytes: to,
                total_incoming_packets: pi,
                total_outgoing_packets: po,
                monitoring_duration: 0,
                traffic_rate: Vec::new(),
                network_hosts: Vec::new(),
                services: Vec::new(),
            },
            hosts: new_host_table(),
            services: new_service_table(),
            traffic_history: Vec::new(),
            is_running: false,
            session_start_time: None,
            last_known_date: None,
        }
    }

    /// Whether the monitor is running.
    pub fn is_monitoring(&self) -> (b: bool)
        ensures
            b == self.is_running,
    {
        self.is_running
    }

    /// Starts the monitor at `now`; the returned update marks the adapter as
    /// monitored in the remembered state. Fails when already running.
    pub fn start_monitoring(&mut self, now: u64) -> (r: Result<AdapterUpdate, String>)
        ensures
            old(self).is_running ==> (r matches Err(e) && e@ == "Monitoring is already running"@) && *final(self) == *old(self),
            !old(self).is_running ==> r == Ok::<AdapterUpdate, String>(AdapterUpdate::MonitoringStarted { start_time: now })
                && *final(self) == (TrafficMonitor { is_running: true, session_start_time: Some(now), ..*old(self) }),
    {
        if self.is_running {
            return Err(String::from_str("Monitoring is already running"));
        }
        self.is_running = true;
        self.session_start_time = Some(now);
        Ok(AdapterUpdate::MonitoringStarted { start_time: now })
    }
}


/// Hosts and services a stored session keeps.
pub const SESSION_TOP_ENTRIES: usize = 10;

/// The first `n` elements of `s`, or all of them.
pub open spec fn prefix<T>(s: Seq<T>, n: nat) -> Seq<T> {
    s.take(if n <= s.len() { n as int } else { s.len() as int })
}

/// Hosts are reported by total traffic: in the ranking the reports are cut
/// from, every host has at least as many bytes (in plus out) as every host
/// after it, so a host left out of a top-`n` report never carries more
/// traffic than one in it; the ranking holds exactly the hosts given.
pub proof fn lemma_hosts_ranked_by_total_traffic(hosts: Seq<NetworkHost>, n: nat)
    ensures
        ranked(hosts).to_multiset() == hosts.to_multiset(),
        forall|i: int, j: int| 0 <= i < j < ranked(hosts).len() ==>
            #[trigger] ranked(hosts)[i].incoming_bytes + ranked(hosts)[i].outgoing_bytes
                >= #[trigger] ranked(hosts)[j].incoming_bytes + ranked(hosts)[j].outgoing_bytes,
        prefix(ranked(hosts), n) == ranked(hosts).take(if n <= hosts.len() { n as int } else { hosts.len() as int }),
{
    crate::ordering::lemma_ranked_properties(hosts);
    let r = ranked(hosts);
    assert forall|i: int, j: int| 0 <= i < j < r.len() implies
        #[trigger] r[i].incoming_bytes + r[i].outgoing_bytes >= #[trigger] r[j].incoming_bytes + r[j].outgoing_bytes by {
        assert(r[i].sort_key() >= r[j].sort_key());
    }
}

/// `s` is the session of `adapter` from `start` to `end` with these counts,
/// carrying the samples and the top hosts and services of `stats`.
pub open spec fn is_session_of(
    s: NetworkSession,
    adapter: Seq<char>,
    start: u64,
    end: u64,
    counts: (u64, u64, u64, u64),
    stats: MonitoringStats,
) -> bool {
    &&& s.adapter_name@ == adapter
    &&& s.start_time == start
    &&& s.end_time == Some(end)
    &&& s.total_incoming_bytes == counts.0
    &&& s.total_outgoing_bytes == counts.1
    &&& s.total_incoming_packets == counts.2
    &&& s.total_outgoing_packets == counts.3
    &&& s.duration == end - start
    &&& s.traffic_data@ == stats.traffic_rate@
    &&& s.top_hosts@ == prefix(stats.network_hosts@, SESSION_TOP_ENTRIES as nat)
    &&& s.top_services@ == prefix(stats.services@, SESSION_TOP_ENTRIES as nat)
}

/// Builds a stored session from `start` to `end` with these counts.
fn build_session(
    adapter_name: &str,
    start: u64,
    end: u64,
    counts: (u64, u64, u64, u64),
    stats: &MonitoringStats,
) -> (s: NetworkSession)
    requires
        start <= end,
    ensures
        is_session_of(s, adapter_name@, start, end, counts, *stats),
{
    NetworkSession {
        adapter_name: String::from_str(adapter_name),
        start_time: start,
        end_time: Some(end),
        total_incoming_bytes: counts.0,
        total_outgoing_bytes: counts.1,
        total_incoming_packets: counts.2,
        total_outgoing_packets: counts.3,
        duration: end - start,
        traffic_data: copy_traffic(&stats.traffic_rate),
        top_hosts: copy_hosts_prefix(&stats.network_hosts, SESSION_TOP_ENTRIES),
        top_services: copy_services_prefix(&stats.services, SESSION_TOP_ENTRIES),
    }
}

/// The running totals of `stats`.
pub open spec fn totals(stats: MonitoringStats) -> (u64, u64, u64, u64) {
    (stats.total_incoming_bytes, stats.total_outgoing_bytes, stats.total_incoming_packets, stats.total_outgoing_packets)
}

/// What stopping a monitor produces: the final session to store (when
/// anything was counted) and the update to the remembered state.
#[derive(Debug)]
pub struct StopOutcome {
    pub session: Option<NetworkSession>,
    pub update: Option<AdapterUpdate>,
}

/// Where the periodic saver left off: when it last saved and the totals at
/// that time.
#[derive(Debug, Clone, Copy)]
pub struct SaveCursor {
    pub last_save_time: u64,
    pub last_incoming_bytes: u64,
    pub last_outgoing_bytes: u64,
    pub last_incoming_packets: u64,
    pub last_outgoing_packets: u64,
}

impl SaveCursor {
    /// A saver that starts at `start_time` with nothing saved.
    pub fn new(start_time: u64) -> (c: SaveCursor)
        ensures
            c.last_save_time == start_time,
            c.last_incoming_bytes == 0 && c.last_outgoing_bytes == 0,
            c.last_incoming_packets == 0 && c.last_outgoing_packets == 0,
    {
        SaveCursor { last_save_time: start_time, last_incoming_bytes: 0, last_outgoing_bytes: 0, last_incoming_packets: 0, last_outgoing_packets: 0 }
    }

    /// The totals have not fallen below what was last saved.
    pub open spec fn behind(&self, stats: MonitoringStats) -> bool {
        &&& self.last_incoming_bytes <= stats.total_incoming_bytes
        &&& self.last_outgoing_bytes <= stats.total_outgoing_bytes
        &&& self.last_incoming_packets <= stats.total_incoming_packets
        &&& self.last_outgoing_packets <= stats.total_outgoing_packets
    }

    /// The periodic save at `now`: the remembered state always gets the
    /// current totals; a session with the traffic since the last save is
    /// produced when bytes moved, and then the saver moves on to `now`.
    pub fn save_periodic_session(&mut self, adapter_name: &str, stats: &MonitoringStats, now: u64) -> (r: (AdapterUpdate, Option<NetworkSession>))
        requires
            old(self).behind(*stats),
            old(self).last_save_time <= now,
        ensures
            r.0 == (AdapterUpdate::TotalsSaved {
                incoming_bytes: stats.total_incoming_bytes,
                outgoing_bytes: stats.total_outgoing_bytes,
                incoming_packets: stats.total_incoming_packets,
                outgoing_packets: stats.total_outgoing_packets,
            }),
            ({
                let o = *old(self);
                let moved = stats.total_incoming_bytes != o.last_incoming_bytes || stats.total_outgoing_bytes != o.last_outgoing_bytes;
                &&& !moved ==> r.1 is None && *final(self) == o
                &&& moved ==> (r.1 matches Some(s) && is_session_of(s, adapter_name@, o.last_save_time, now, (
                        (stats.total_incoming_bytes - o.last_incoming_bytes) as u64,
                        (stats.total_outgoing_bytes - o.last_outgoing_bytes) as u64,
                        (stats.total_incoming_packets - o.last_incoming_packets) as u64,
                        (stats.total_outgoing_packets - o.last_outgoing_packets) as u64,
                    ), *stats))
                &&& moved ==> *final(self) == (SaveCursor {
                        last_save_time: now,
                        last_incoming_bytes: stats.total_incoming_bytes,
                        last_outgoing_bytes: stats.total_outgoing_bytes,
                        last_incoming_packets: stats.total_incoming_packets,
                        last_outgoing_packets: stats.total_outgoing_packets,
                    })
            }),
    {
        let update = AdapterUpdate::TotalsSaved {
            incoming_bytes: stats.total_incoming_bytes,
            outgoing_bytes: stats.total_outgoing_bytes,
            incoming_packets: stats.total_incoming_packets,
            outgoing_packets: stats.total_outgoing_packets,
        };
        let inc_in = stats.total_incoming_bytes - self.last_incoming_bytes;
        let inc_out = stats.total_outgoing_bytes - self.last_outgoing_bytes;
        let inc_pin = stats.total_incoming_packets - self.last_incoming_packets;
        let inc_pout = stats.total_outgoing_packets - self.last_outgoing_packets;
        if inc_in == 0 && inc_out == 0 {
            return (update, None);
        }
        let session = build_session(adapter_name, self.last_save_time, now, (inc_in, inc_out, inc_pin, inc_pout), stats);
        self.last_save_time = now;
        self.last_incoming_bytes = stats.total_incoming_bytes;
        self.last_outgoing_bytes = stats.total_outgoing_bytes;
        self.last_incoming_packets = stats.total_incoming_packets;
        self.last_outgoing_packets = stats.total_outgoing_packets;
        (update, Some(session))
    }
}

/// Whether the day changed since the last known day of the year.
pub fn day_changed(last_known_date: Option<u32>, today: u32) -> (b: bool)
    ensures
        b == (match last_known_date { Some(d) => d != today, None => true }),
{
    match last_known_date {
        Some(d) => d != today,
        None => true,
    }
}

impl TrafficMonitor {
    /// Stops the monitor at `now`. A running monitor with a session under
    /// way yields the session of everything counted (when anything was) and
    /// the update that marks the adapter as stopped with its totals.
    pub fn stop_monitoring(&mut self, now: u64) -> (r: StopOutcome)
        requires
            old(self).session_start_time matches Some(t) ==> t <= now,
        ensures
            !old(self).is_running ==> r.session is None && r.update is None && *final(self) == *old(self),
            old(self).is_running ==> *final(self) == (TrafficMonitor { is_running: false, session_start_time: None, ..*old(self) }),
            old(self).is_running && old(self).session_start_time is None ==> r.session is None && r.update is None,
            old(self).is_running && old(self).session_start_time is Some ==> {
                let st = old(self).stats;
                let start = old(self).session_start_time.unwrap();
                &&& r.update == Some(AdapterUpdate::MonitoringStopped {
                    incoming_bytes: st.total_incoming_bytes,
                    outgoing_bytes: st.total_outgoing_bytes,
                    incoming_packets: st.total_incoming_packets,
                    outgoing_packets: st.total_outgoing_packets,
                    end_time: now,
                })
                &&& (st.total_incoming_bytes > 0 || st.total_outgoing_bytes > 0) ==> (r.session matches Some(s)
                    && is_session_of(s, old(self).config.adapter_name@, start, now, totals(st), st))
                &&& !(st.total_incoming_bytes > 0 || st.total_outgoing_bytes > 0) ==> r.session is None
            },
    {
        if !self.is_running {
            return StopOutcome { session: None, update: None };
        }
        self.is_running = false;
        let outcome = match self.session_start_time {
            Some(start) => {
                let st = &self.stats;
                let session = if st.total_incoming_bytes > 0 || st.total_outgoing_bytes > 0 {
                    Some(build_session(self.config.adapter_name.as_str(), start, now,
                        (st.total_incoming_bytes, st.total_outgoing_bytes, st.total_incoming_packets, st.total_outgoing_packets), st))
                } else {
                    None
                };
                let update = AdapterUpdate::MonitoringStopped {
                    incoming_bytes: st.total_incoming_bytes,
                    outgoing_bytes: st.total_outgoing_bytes,
                    incoming_packets: st.total_incoming_packets,
                    outgoing_packets: st.total_outgoing_packets,
                    end_time: now,
                };
                StopOutcome { session, update: Some(update) }
            },
            None => StopOutcome { session: None, update: None },
        };
        self.session_start_time = None;
        outcome
    }

    /// Starts a new day: the totals and the host and service tables are
    /// cleared, and `today` becomes the last known day.
    pub fn reset_daily_stats(&mut self, today: u32)
        ensures
            final(self).stats == (MonitoringStats {
                total_incoming_bytes: 0,
                total_outgoing_bytes: 0,
                total_incoming_packets: 0,
                total_outgoing_packets: 0,
                ..old(self).stats
            }),
            host_table(final(self).hosts).dom() == Set::<Seq<char>>::empty(),
            service_table(final(self).services).dom() == Set::<Seq<char>>::empty(),
            final(self).last_known_date == Some(today),
            final(self).config == old(self).config,
            final(self).traffic_history == old(self).traffic_history,
            final(self).is_running == old(self).is_running,
            final(self).session_start_time == old(self).session_start_time,
    {
        self.stats.total_incoming_bytes = 0;
        self.stats.total_outgoing_bytes = 0;
        self.stats.total_incoming_packets = 0;
        self.stats.total_outgoing_packets = 0;
        host_clear(&mut self.hosts);
        service_clear(&mut self.services);
        self.last_known_date = Some(today);
    }

    /// The statistics with the host and service lists refreshed from the
    /// tables: hosts by total bytes and services by bytes, highest first,
    /// cut to the configured maxima.
    pub fn get_stats(&mut self) -> (r: MonitoringStats)
        ensures
            r.same_as(final(self).stats),
            exists|hs: Seq<NetworkHost>, ss: Seq<ServiceInfo>| {
                &&& lists_values(hs, host_table(old(self).hosts))
                &&& lists_values(ss, service_table(old(self).services))
                &&& #[trigger] final(self).stats.network_hosts@ == prefix(ranked(hs), old(self).config.max_hosts as nat)
                &&& #[trigger] final(self).stats.services@ == prefix(ranked(ss), old(self).config.max_services as nat)
            },
            final(self).stats == (MonitoringStats {
                network_hosts: final(self).stats.network_hosts,
                services: final(self).stats.services,
                ..old(self).stats
            }),
            final(self).config == old(self).config,
            final(self).hosts == old(self).hosts,
            final(self).services == old(self).services,
            final(self).traffic_history == old(self).traffic_history,
            final(self).is_running == old(self).is_running,
            final(self).session_start_time == old(self).session_start_time,
            final(self).last_known_date == old(self).last_known_date,
    {
        let hs = host_values(&self.hosts);
        let ss = service_values(&self.services);
        let ghost hsv = hs@;
        let ghost ssv = ss@;
        let mut ranked_hosts = rank(hs);
        ranked_hosts.truncate(self.config.max_hosts);
        let mut ranked_services = rank(ss);
        ranked_services.truncate(self.config.max_services);
        proof {
            crate::ordering::lemma_ranked_properties(hsv);
            crate::ordering::lemma_ranked_properties(ssv);
            assert(ranked_hosts@ =~= prefix(ranked(hsv), self.config.max_hosts as nat));
            assert(ranked_services@ =~= prefix(ranked(ssv), self.config.max_services as nat));
        }
        self.stats.network_hosts = ranked_hosts;
        self.stats.services = ranked_services;
        self.stats.duplicate()
    }
}


/// The totals and every table entry have room for one more packet of
/// `size` bytes.
pub open spec fn room_for_packet(m: TrafficMonitor, size: u64) -> bool {
    &&& m.stats.total_incoming_bytes + size <= u64::MAX && m.stats.total_incoming_packets + 1 <= u64::MAX
    &&& m.stats.total_outgoing_bytes + size <= u64::MAX && m.stats.total_outgoing_packets + 1 <= u64::MAX
    &&& forall|k: Seq<char>| #[trigger] host_table(m.hosts).contains_key(k) ==> {
        let h = host_table(m.hosts)[k];
        &&& h.incoming_bytes + size <= u64::MAX && h.incoming_packets + 1 <= u64::MAX
        &&& h.outgoing_bytes + size <= u64::MAX && h.outgoing_packets + 1 <= u64::MAX
    }
    &&& forall|k: Seq<char>| #[trigger] service_table(m.services).contains_key(k) ==> {
        let sv = service_table(m.services)[k];
        sv.bytes + size <= u64::MAX && sv.packets + 1 <= u64::MAX
    }
}

/// A host has room for one more packet of `size` bytes either way.
pub open spec fn host_has_room(h: NetworkHost, size: u64) -> bool {
    &&& h.incoming_bytes + size <= u64::MAX && h.incoming_packets + 1 <= u64::MAX
    &&& h.outgoing_bytes + size <= u64::MAX && h.outgoing_packets + 1 <= u64::MAX
}

/// A service has room for one more packet of `size` bytes.
pub open spec fn service_has_room(sv: ServiceInfo, size: u64) -> bool {
    sv.bytes + size <= u64::MAX && sv.packets + 1 <= u64::MAX
}

impl TrafficMonitor {
    /// Whether the totals and every host and service have room for one
    /// more packet of `size` bytes: what `process_real_packet` needs.
    pub fn has_room_for_packet(&self, size: u64) -> (b: bool)
        ensures
            b == room_for_packet(*self, size),
    {
        let s = &self.stats;
        if s.total_incoming_bytes > u64::MAX - size || s.total_incoming_packets == u64::MAX
            || s.total_outgoing_bytes > u64::MAX - size || s.total_outgoing_packets == u64::MAX {
            return false;
        }
        let hosts = host_values(&self.hosts);
        let ghost ht = host_table(self.hosts);
        let ghost hks = choose|ks: Seq<Seq<char>>| {
            &&& ks.no_duplicates()
            &&& ks.len() == hosts@.len()
            &&& forall|i: int| 0 <= i < ks.len() ==> #[trigger] ht.contains_key(ks[i]) && ht[ks[i]] == hosts@[i]
            &&& forall|k: Seq<char>| #[trigger] ht.contains_key(k) ==> ks.contains(k)
        };
        proof {
            assert(lists_values(hosts@, ht));
        }
        let mut i: usize = 0;
        while i < hosts.len()
            invariant
                i <= hosts@.len(),
                ht == host_table(self.hosts),
                hks.len() == hosts@.len(),
                forall|j: int| 0 <= j < hks.len() ==> #[trigger] ht.contains_key(hks[j]) && ht[hks[j]] == hosts@[j],
                forall|j: int| 0 <= j < i ==> host_has_room(#[trigger] hosts@[j], size),
            decreases hosts@.len() - i,
        {
            let h = &hosts[i];
            if h.incoming_bytes > u64::MAX - size || h.incoming_packets == u64::MAX
                || h.outgoing_bytes > u64::MAX - size || h.outgoing_packets == u64::MAX {
                proof {
                    assert(ht.contains_key(hks[i as int]) && ht[hks[i as int]] == hosts@[i as int]);
                }
                return false;
            }
            i = i + 1;
        }
        proof {
            assert forall|k: Seq<char>| #[trigger] ht.contains_key(k) implies host_has_room(ht[k], size) by {
                assert(hks.contains(k));
                let j = choose|j: int| 0 <= j < hks.len() && hks[j] == k;
                assert(ht.contains_key(hks[j]) && ht[hks[j]] == hosts@[j]);
                assert(host_has_room(hosts@[j], size));
            }
        }
        let services = service_values(&self.services);
        let ghost st = service_table(self.services);
        let ghost sks = choose|ks: Seq<Seq<char>>| {
            &&& ks.no_duplicates()
            &&& ks.len() == services@.len()
            &&& forall|i: int| 0 <= i < ks.len() ==> #[trigger] st.contains_key(ks[i]) && st[ks[i]] == services@[i]
            &&& forall|k: Seq<char>| #[trigger] st.contains_key(k) ==> ks.contains(k)
        };
        proof {
            assert(lists_values(services@, st));
        }
        let mut i: usize = 0;
        while i < services.len()
            invariant
                i <= services@.len(),
                st == service_table(self.services),
                sks.len() == services@.len(),
                forall|j: int| 0 <= j < sks.len() ==> #[trigger] st.contains_key(sks[j]) && st[sks[j]] == services@[j],
                forall|j: int| 0 <= j < i ==> service_has_room(#[trigger] services@[j], size),
            decreases services@.len() - i,
        {
            let sv = &services[i];
            if sv.bytes > u64::MAX - size || sv.packets == u64::MAX {
                proof {
                    assert(st.contains_key(sks[i as int]) && st[sks[i as int]] == services@[i as int]);
                }
                return false;
            }
            i = i + 1;
        }
        proof {
            assert forall|k: Seq<char>| #[trigger] st.contains_key(k) implies service_has_room(st[k], size) by {
                assert(sks.contains(k));
                let j = choose|j: int| 0 <= j < sks.len() && sks[j] == k;
                assert(st.contains_key(sks[j]) && st[sks[j]] == services@[j]);
                assert(service_has_room(services@[j], size));
            }
        }
        true
    }
}

/// The signature under which a packet with these headers is remembered.
pub open spec fn headers_signature(h: PacketHeaders, timestamp: u64) -> Seq<char> {
    packet_signature(ip_text(h.source), ip_text(h.destination), ports(h.transport).0, ports(h.transport).1,
        protocol_name(h.transport), timestamp)
}

/// The remote end of a packet: the destination of outgoing traffic, the
/// source of incoming traffic.
pub open spec fn remote_end(h: PacketHeaders) -> IpAddress {
    if is_local_source(h.source) { h.destination } else { h.source }
}

/// What handling one captured frame did, from the monitor, dedup table and
/// health monitor before (`o_*`) to after (`f_*`), with outcome `r` (see
/// `process_real_packet`).
pub open spec fn packet_handled(
    o_m: TrafficMonitor, f_m: TrafficMonitor,
    o_d: PacketDedup, f_d: PacketDedup,
    o_h: HealthMonitor, f_h: HealthMonitor,
    data: Seq<u8>, timestamp_usec: u64, packet_len: u64, adapter: Seq<char>, now: u64, r: PacketOutcome,
) -> bool {
    &&& data.len() < 14 ==> r is Unreadable
    &&& data.len() >= 14 && ethernet_headers(data) is None ==> r is NotIp
    &&& r is Unreadable || r is NotIp || r is Duplicate ==> f_m == o_m
        && f_d == o_d && f_h == o_h
    &&& ethernet_headers(data) matches Some(h) ==> data.len() < 14 || {
        let sig = headers_signature(h, timestamp_usec);
        let out = is_local_source(h.source);
        let o = o_m;
        let f = f_m;
        &&& seen_signatures(o_d.entries).contains_key(sig) ==> r is Duplicate
        &&& !seen_signatures(o_d.entries).contains_key(sig) ==> {
            &&& r is Counted
            &&& seen_signatures(f_d.entries).dom() == seen_signatures(o_d.entries).dom().insert(sig)
            &&& seen_signatures(f_d.entries)[sig].time == now
            &&& seen_signatures(f_d.entries)[sig].adapter@ == adapter
            &&& f_h == (HealthMonitor { last_network_activity: now, ..o_h })
            &&& out ==> f.stats.total_outgoing_bytes == o.stats.total_outgoing_bytes + packet_len
                && f.stats.total_outgoing_packets == o.stats.total_outgoing_packets + 1
                && f.stats.total_incoming_bytes == o.stats.total_incoming_bytes
                && f.stats.total_incoming_packets == o.stats.total_incoming_packets
            &&& !out ==> f.stats.total_incoming_bytes == o.stats.total_incoming_bytes + packet_len
                && f.stats.total_incoming_packets == o.stats.total_incoming_packets + 1
                && f.stats.total_outgoing_bytes == o.stats.total_outgoing_bytes
                && f.stats.total_outgoing_packets == o.stats.total_outgoing_packets
            &&& f.traffic_history@.len() > 0 && f.traffic_history@.last() == sample(f.stats, now)
            &&& skipped_host(remote_end(h)) ==> host_table(f.hosts) == host_table(o.hosts)
                && r == (PacketOutcome::Counted { lookup: None })
            &&& !skipped_host(remote_end(h)) ==> {
                let key = ip_text(remote_end(h));
                let oh = host_table(o.hosts);
                let fh = host_table(f.hosts);
                &&& fh.dom() == oh.dom().insert(key)
                &&& forall|k: Seq<char>| k != key && #[trigger] oh.contains_key(k) ==> fh[k] == oh[k]
                &&& oh.contains_key(key) ==> fh[key] == counted_host(oh[key], packet_len, out, now)
                &&& !oh.contains_key(key) ==> is_fresh_host(fh[key], key, packet_len, out, now)
                &&& oh.contains_key(key) ==> r == (PacketOutcome::Counted { lookup: None })
                &&& !oh.contains_key(key) ==> (r matches PacketOutcome::Counted { lookup: Some(t) } && t@ == key)
            }
            &&& ports(h.transport).1 == 0 ==> service_table(f.services) == service_table(o.services)
            &&& ports(h.transport).1 != 0 ==> {
                let skey = service_key_of(protocol_name(h.transport), ports(h.transport).1);
                let os = service_table(o.services);
                let fs = service_table(f.services);
                &&& fs.dom() == os.dom().insert(skey)
                &&& forall|k: Seq<char>| k != skey && #[trigger] os.contains_key(k) ==> fs[k] == os[k]
                &&& os.contains_key(skey) ==> fs[skey] == counted_service(os[skey], packet_len)
                &&& !os.contains_key(skey) ==> is_fresh_service(fs[skey], protocol_name(h.transport),
                    ports(h.transport).1, packet_len)
            }
        }
    }
}

impl TrafficMonitor {
    /// Handles one captured frame of `packet_len` bytes (`data` holds its
    /// captured part) seen at `now` on `adapter_name`.
    ///
    /// Frames that are not IP are ignored. A packet whose signature (its
    /// addresses, ports, protocol and capture timestamp) was already counted
    /// on some adapter is skipped; otherwise the signature is registered,
    /// network activity is reported, the remote host (unless local) and the
    /// destination service (unless port 0) are counted, the totals grow in
    /// the packet's direction, and a sample is added to the history.
    pub fn process_real_packet(
        &mut self,
        dedup: &mut PacketDedup,
        health: &mut HealthMonitor,
        data: &[u8],
        timestamp_usec: u64,
        packet_len: u64,
        adapter_name: &str,
        now: u64,
    ) -> (r: PacketOutcome)
        requires
            old(self).wf(),
            room_for_packet(*old(self), packet_len),
        ensures
            final(self).wf(),
            packet_handled(*old(self), *final(self), *old(dedup), *final(dedup), *old(health), *final(health),
                data@, timestamp_usec, packet_len, adapter_name@, now, r),
    {
        let headers = match read_frame_headers(data) {
            Err(_) => {
                return PacketOutcome::Unreadable;
            },
            Ok((None, _)) => {
                return PacketOutcome::NotIp;
            },
            Ok((Some(h), _)) => h,
        };
        let (src_port, dst_port, protocol) = match headers.transport {
            Transport::Tcp { source_port, destination_port } => (source_port, destination_port, "TCP"),
            Transport::Udp { source_port, destination_port } => (source_port, destination_port, "UDP"),
            _ => (0u16, 0u16, "Other"),
        };
        let src_text = ip_to_string(&headers.source);
        let dst_text = ip_to_string(&headers.destination);
        let signature = create_packet_signature(src_text.as_str(), dst_text.as_str(), src_port, dst_port, protocol, timestamp_usec);
        if dedup.is_duplicate_packet(signature.as_str()) {
            return PacketOutcome::Duplicate;
        }
        dedup.register_packet_at(signature, String::from_str(adapter_name), now);
        health.update_network_activity_at(now);
        let is_outgoing = is_outgoing_traffic(&headers.source);
        let target = if is_outgoing { headers.destination } else { headers.source };
        let mut lookup: Option<String> = None;
        if !is_skipped_host(&target) {
            let text = ip_to_string(&target);
            let is_new = count_host_packet(&mut self.hosts, text.clone(), packet_len, is_outgoing, now);
            if is_new {
                lookup = Some(text);
            }
        }
        if dst_port != 0 {
            process_service_from_packet(protocol, dst_port, packet_len, &mut self.services);
        }
        update_overall_stats(&mut self.stats, packet_len, is_outgoing);
        update_traffic_history(&mut self.traffic_history, &self.stats, now);
        PacketOutcome::Counted { lookup }
    }
}

impl TrafficMonitor {
    /// Handles one captured frame as `process_real_packet` does when every
    /// count has room for it; when a count would overflow, nothing changes
    /// and there is no outcome.
    pub fn process_packet_if_room(
        &mut self,
        dedup: &mut PacketDedup,
        health: &mut HealthMonitor,
        data: &[u8],
        timestamp_usec: u64,
        packet_len: u64,
        adapter_name: &str,
        now: u64,
    ) -> (r: Option<PacketOutcome>)
        requires
            old(self).wf(),
        ensures
            final(self).wf(),
            r is None <==> !room_for_packet(*old(self), packet_len),
            r is None ==> *final(self) == *old(self) && *final(dedup) == *old(dedup) && *final(health) == *old(health),
            r matches Some(o) ==> packet_handled(*old(self), *final(self), *old(dedup), *final(dedup), *old(health),
                *final(health), data@, timestamp_usec, packet_len, adapter_name@, now, o),
    {
        if !self.has_room_for_packet(packet_len) {
            return None;
        }
        Some(self.process_real_packet(dedup, health, data, timestamp_usec, packet_len, adapter_name, now))
    }
}

/// Totals survive a restart: once the totals of `stats` are saved for an
/// adapter, a monitor built from the adapter's remembered state starts from
/// those totals.
pub proof fn lemma_saved_totals_resume(
    state: AppPersistentState,
    after: AppPersistentState,
    name: Seq<char>,
    stats: MonitoringStats,
    now: u64,
)
    requires
        after.adapter(name) == Some(applied(
            match state.adapter(name) {
                Some(a) => a,
                None => fresh_adapter(after.adapter(name).unwrap().adapter_name, now),
            },
            AdapterUpdate::TotalsSaved {
                incoming_bytes: stats.total_incoming_bytes,
                outgoing_bytes: stats.total_outgoing_bytes,
                incoming_packets: stats.total_incoming_packets,
                outgoing_packets: stats.total_outgoing_packets,
            },
            now,
        )),
    ensures
        restored_totals(after.adapter(name)) == totals(stats),
{
}

} // verus!
