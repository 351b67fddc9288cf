//! Stored network sessions and the per-day summary that groups them.
use vstd::prelude::*;
use crate::ordering::SortKey;
use crate::traffic_monitor::types::{TrafficData, NetworkHost, ServiceInfo, copy_traffic, copy_hosts_prefix,
    copy_services_prefix};

verus! {

/// Traffic recorded on one adapter over one stretch of time.
#[derive(Debug)]
pub struct NetworkSession {
    pub adapter_name: String,
    pub start_time: u64,
    pub end_time: Option<u64>,
    pub total_incoming_bytes: u64,
    pub total_outgoing_bytes: u64,
    pub total_incoming_packets: u64,
    pub total_outgoing_packets: u64,
    pub duration: u64,
    pub traffic_data: Vec<TrafficData>,
    pub top_hosts: Vec<NetworkHost>,
    pub top_services: Vec<ServiceInfo>,
}

/// All sessions recorded on one calendar day (`date` is `YYYY-MM-DD`).
#[derive(Debug)]
pub struct DailyNetworkSummary {
    pub date: String,
    pub sessions: Vec<NetworkSession>,
    pub total_incoming_bytes: u64,
    pub total_outgoing_bytes: u64,
    pub total_duration: u64,
    pub unique_hosts: usize,
    pub unique_services: usize,
}

/// Sessions are ordered by start time, earliest first.
impl SortKey for NetworkSession {
    open spec fn sort_key(&self) -> int {
        -(self.start_time as int)
    }

    fn key_value(&self) -> (k: i128) {
        -(self.start_time as i128)
    }
}

impl NetworkSession {
    /// Both sessions hold the same values, field by field.
    pub open spec fn same_as(&self, other: NetworkSession) -> bool {
        &&& self.adapter_name == other.adapter_name
        &&& self.start_time == other.start_time
        &&& self.end_time == other.end_time
        &&& self.total_incoming_bytes == other.total_incoming_bytes
        &&& self.total_outgoing_bytes == other.total_outgoing_bytes
        &&& self.total_incoming_packets == other.total_incoming_packets
        &&& self.total_outgoing_packets == other.total_outgoing_packets
        &&& self.duration == other.duration
        &&& self.traffic_data@ == other.traffic_data@
        &&& self.top_hosts@ == other.top_hosts@
        &&& self.top_services@ == other.top_services@
    }

    /// An exact copy of this session.
    pub fn duplicate(&self) -> (r: NetworkSession)
        ensures
            r.same_as(*self),
    {
        let hosts = copy_hosts_prefix(&self.top_hosts, self.top_hosts.len());
        let services = copy_services_prefix(&self.top_services, self.top_services.len());
        proof {
            assert(self.top_hosts@.take(self.top_hosts@.len() as int) =~= self.top_hosts@);
            assert(self.top_services@.take(self.top_services@.len() as int) =~= self.top_services@);
        }
        NetworkSession {
            adapter_name: self.adapter_name.clone(),
            start_time: self.start_time,
            end_time: self.end_time,
            total_incoming_bytes: self.total_incoming_bytes,
            total_outgoing_bytes: self.total_outgoing_bytes,
            total_incoming_packets: self.total_incoming_packets,
            total_outgoing_packets: self.total_outgoing_packets,
            duration: self.duration,
            traffic_data: copy_traffic(&self.traffic_data),
            top_hosts: hosts,
            top_services: services,
        }
    }
}

impl DailyNetworkSummary {
    /// Both summaries hold the same values, field by field and session by
    /// session.
    pub open spec fn same_as(&self, other: DailyNetworkSummary) -> bool {
        &&& self.date == other.date
        &&& self.sessions@.len() == other.sessions@.len()
        &&& forall|i: int| 0 <= i < self.sessions@.len() ==> #[trigger] self.sessions@[i].same_as(other.sessions@[i])
        &&& self.total_incoming_bytes == other.total_incoming_bytes
        &&& self.total_outgoing_bytes == other.total_outgoing_bytes
        &&& self.total_duration == other.total_duration
        &&& self.unique_hosts == other.unique_hosts
        &&& self.unique_services == other.unique_services
    }

    /// An exact copy of this summary.
    pub fn duplicate(&self) -> (r: DailyNetworkSummary)
        ensures
            r.same_as(*self),
    {
        let mut sessions: Vec<NetworkSession> = Vec::new();
        let mut i: usize = 0;
        while i < self.sessions.len()
            invariant
                i <= self.sessions@.len(),
                sessions@.len() == i,
                forall|j: int| 0 <= j < i ==> #[trigger] sessions@[j].same_as(self.sessions@[j]),
            decreases self.sessions@.len() - i,
        {
            sessions.push(self.sessions[i].duplicate());
            i = i + 1;
        }
        DailyNetworkSummary {
            date: self.date.clone(),
            sessions,
            total_incoming_bytes: self.total_incoming_bytes,
            total_outgoing_bytes: self.total_outgoing_bytes,
            total_duration: self.total_duration,
            unique_hosts: self.unique_hosts,
            unique_services: self.unique_services,
        }
    }

    /// An empty summary for `date`.
    pub fn empty(date: String) -> (r: DailyNetworkSummary)
        ensures
            r.date == date,
            r.sessions@.len() == 0,
            r.total_incoming_bytes == 0,
            r.total_outgoing_bytes == 0,
            r.total_duration == 0,
            r.unique_hosts == 0,
            r.unique_services == 0,
    {
        DailyNetworkSummary {
            date,
            sessions: Vec::new(),
            total_incoming_bytes: 0,
            total_outgoing_bytes: 0,
            total_duration: 0,
            unique_hosts: 0,
            unique_services: 0,
        }
    }
}

} // verus!
