//! Records describing observed traffic: rate samples, remote hosts, services,
//! the per-adapter statistics snapshot and the monitoring configuration.
use vstd::prelude::*;
use crate::ordering::SortKey;

verus! {

/// One sample of cumulative traffic counters.
#[derive(Debug, Clone, Copy, PartialEq, Eq)]
pub struct TrafficData {
    pub timestamp: u64,
    pub incoming_bytes: u64,
    pub outgoing_bytes: u64,
    pub incoming_packets: u64,
    pub outgoing_packets: u64,
}

/// A remote host seen in captured traffic.
#[derive(Debug)]
pub struct NetworkHost {
    pub ip: String,
    pub hostname: Option<String>,
    pub domain: Option<String>,
    pub country: Option<String>,
    pub country_code: Option<String>,
    pub asn: Option<String>,
    pub incoming_bytes: u64,
    pub outgoing_bytes: u64,
    pub incoming_packets: u64,
    pub outgoing_packets: u64,
    pub first_seen: u64,
    pub last_seen: u64,
}

/// Traffic attributed to one protocol and port.
#[derive(Debug)]
pub struct ServiceInfo {
    pub protocol: String,
    pub port: u16,
    pub service_name: Option<String>,
    pub bytes: u64,
    pub packets: u64,
}

/// Snapshot of an adapter's traffic statistics.
#[derive(Debug)]
pub struct MonitoringStats {
    pub total_incoming_bytes: u64,
    pub total_outgoing_bytes: u64,
    pub total_incoming_packets: u64,
    pub total_outgoing_packets: u64,
    pub monitoring_duration: u64,
    pub traffic_rate: Vec<TrafficData>,
    pub network_hosts: Vec<NetworkHost>,
    pub services: Vec<ServiceInfo>,
}

/// Per-adapter monitoring configuration.
#[derive(Debug)]
pub struct MonitoringConfig {
    pub adapter_name: String,
    pub is_monitoring: bool,
    pub capture_filter: Option<String>,
    pub max_hosts: usize,
    pub max_services: usize,
}

/// An exact copy of an optional string.
pub fn copy_opt_string(o: &Option<String>) -> (r: Option<String>)
    ensures
        r == *o,
{
    match o {
        Some(s) => Some(s.clone()),
        None => None,
    }
}

impl NetworkHost {
    /// Total bytes exchanged with this host.
    pub open spec fn total_bytes(&self) -> int {
        self.incoming_bytes + self.outgoing_bytes
    }

    /// An exact copy of this host record.
    pub fn duplicate(&self) -> (r: NetworkHost)
        ensures
            r == *self,
    {
        NetworkHost {
            ip: self.ip.clone(),
            hostname: copy_opt_string(&self.hostname),
            domain: copy_opt_string(&self.domain),
            country: copy_opt_string(&self.country),
            country_code: copy_opt_string(&self.country_code),
            asn: copy_opt_string(&self.asn),
            incoming_bytes: self.incoming_bytes,
            outgoing_bytes: self.outgoing_bytes,
            incoming_packets: self.incoming_packets,
            outgoing_packets: self.outgoing_packets,
            first_seen: self.first_seen,
            last_seen: self.last_seen,
        }
    }
}

impl SortKey for NetworkHost {
    open spec fn sort_key(&self) -> int {
        self.total_bytes()
    }

    fn key_value(&self) -> (k: i128) {
        self.incoming_bytes as i128 + self.outgoing_bytes as i128
    }
}

impl ServiceInfo {
    /// An exact copy of this service record.
    pub fn duplicate(&self) -> (r: ServiceInfo)
        ensures
            r == *self,
    {
        ServiceInfo {
            protocol: self.protocol.clone(),
            port: self.port,
            service_name: copy_opt_string(&self.service_name),
            bytes: self.bytes,
            packets: self.packets,
        }
    }
}

impl SortKey for ServiceInfo {
    open spec fn sort_key(&self) -> int {
        self.bytes as int
    }

    fn key_value(&self) -> (k: i128) {
        self.bytes as i128
    }
}

/// Exact copy of a list of traffic samples.
pub fn copy_traffic(v: &Vec<TrafficData>) -> (r: Vec<TrafficData>)
    ensures
        r@ == v@,
{
    let mut r: Vec<TrafficData> = Vec::new();
    let mut i: usize = 0;
    while i < v.len()
        invariant
            i <= v.len(),
            r@ == v@.subrange(0, i as int),
        decreases v.len() - i,
    {
        r.push(v[i]);
        i = i + 1;
        proof {
            assert(r@ =~= v@.subrange(0, i as int));
        }
    }
    proof {
        assert(v@.subrange(0, v.len() as int) =~= v@);
    }
    r
}

/// Exact copy of the first `n` hosts of a list (all of them when it is shorter).
pub fn copy_hosts_prefix(v: &Vec<NetworkHost>, n: usize) -> (r: Vec<NetworkHost>)
    ensures
        r@ == v@.take(if n <= v.len() { n as int } else { v.len() as int }),
{
    let m = if n <= v.len() { n } else { v.len() };
    let mut r: Vec<NetworkHost> = Vec::new();
    let mut i: usize = 0;
    while i < m
        invariant
            m <= v.len(),
            i <= m,
            r@ == v@.subrange(0, i as int),
        decreases m - i,
    {
        r.push(v[i].duplicate());
        i = i + 1;
        proof {
            assert(r@ =~= v@.subrange(0, i as int));
        }
    }
    r
}

/// Exact copy of the first `n` services of a list (all of them when it is shorter).
pub fn copy_services_prefix(v: &Vec<ServiceInfo>, n: usize) -> (r: Vec<ServiceInfo>)
    ensures
        r@ == v@.take(if n <= v.len() { n as int } else { v.len() as int }),
{
    let m = if n <= v.len() { n } else { v.len() };
    let mut r: Vec<ServiceInfo> = Vec::new();
    let mut i: usize = 0;
    while i < m
        invariant
            m <= v.len(),
            i <= m,
            r@ == v@.subrange(0, i as int),
        decreases m - i,
    {
        r.push(v[i].duplicate());
        i = i + 1;
        proof {
            assert(r@ =~= v@.subrange(0, i as int));
        }
    }
    r
}


impl MonitoringStats {
    /// `other` holds the same totals, samples, hosts and services.
    pub open spec fn same_as(&self, other: MonitoringStats) -> bool {
        &&& self.total_incoming_bytes == other.total_incoming_bytes
        &&& self.total_outgoing_bytes == other.total_outgoing_bytes
        &&& self.total_incoming_packets == other.total_incoming_packets
        &&& self.total_outgoing_packets == other.total_outgoing_packets
        &&& self.monitoring_duration == other.monitoring_duration
        &&& self.traffic_rate@ == other.traffic_rate@
        &&& self.network_hosts@ == other.network_hosts@
        &&& self.services@ == other.services@
    }

    /// An exact copy.
    pub fn duplicate(&self) -> (r: MonitoringStats)
        ensures
            r.same_as(*self),
    {
        let hosts = copy_hosts_prefix(&self.network_hosts, self.network_hosts.len());
        let services = copy_services_prefix(&self.services, self.services.len());
        proof {
            assert(self.network_hosts@.take(self.network_hosts@.len() as int) =~= self.network_hosts@);
            assert(self.services@.take(self.services@.len() as int) =~= self.services@);
        }
        MonitoringStats {
            total_incoming_bytes: self.total_incoming_bytes,
            total_outgoing_bytes: self.total_outgoing_bytes,
            total_incoming_packets: self.total_incoming_packets,
            total_outgoing_packets: self.total_outgoing_packets,
            monitoring_duration: self.monitoring_duration,
            traffic_rate: copy_traffic(&self.traffic_rate),
            network_hosts: hosts,
            services,
        }
    }
}

} // verus!
