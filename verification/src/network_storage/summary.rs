//! Per-day totals of a summary: distinct hosts and services, byte and
//! duration totals, and the recording of one more session into a day.
use vstd::prelude::*;
use crate::text::{dec, views, count_distinct, push_str, push_decimal};
use crate::traffic_monitor::types::{NetworkHost, ServiceInfo};
use super::types::{NetworkSession, DailyNetworkSummary};
use super::consolidation::{
    Counter, counter_sum, session_hosts, session_services, span_duration, append_hosts,
    append_services, lemma_counter_sum_take, lemma_counter_sum_prefix_le, lemma_session_hosts_take,
    window_runs, merge_fits, consolidate_sessions, lemma_consolidation_keeps_totals,
};
use crate::ordering::ranked;

verus! {

/// The key a service is told apart by: `protocol:port`.
pub open spec fn service_key(sv: ServiceInfo) -> Seq<char> {
    sv.protocol@ + seq![':'] + dec(sv.port as nat)
}

/// The addresses of a list of hosts.
pub open spec fn host_ips(hs: Seq<NetworkHost>) -> Seq<Seq<char>> {
    hs.map_values(|h: NetworkHost| h.ip@)
}

/// The `protocol:port` keys of a list of services.
pub open spec fn service_keys(ss: Seq<ServiceInfo>) -> Seq<Seq<char>> {
    ss.map_values(|sv: ServiceInfo| service_key(sv))
}

/// Number of distinct host addresses over all sessions.
pub open spec fn distinct_hosts(s: Seq<NetworkSession>) -> nat {
    host_ips(session_hosts(s)).to_set().len()
}

/// Number of distinct `protocol:port` services over all sessions.
pub open spec fn distinct_services(s: Seq<NetworkSession>) -> nat {
    service_keys(session_services(s)).to_set().len()
}

/// All top hosts of the sessions, in order.
pub fn collect_hosts(sessions: &[NetworkSession]) -> (r: Vec<NetworkHost>)
    ensures
        r@ == session_hosts(sessions@),
{
    let ghost g = sessions@;
    let mut hosts: Vec<NetworkHost> = Vec::new();
    let mut i: usize = 0;
    proof {
        assert(g.take(0).map_values(|s: NetworkSession| s.top_hosts@) =~= Seq::<Seq<NetworkHost>>::empty());
    }
    while i < sessions.len()
        invariant
            g == sessions@,
            i <= g.len(),
            hosts@ == session_hosts(g.take(i as int)),
        decreases g.len() - i,
    {
        proof {
            lemma_session_hosts_take(g, i as int);
        }
        append_hosts(&mut hosts, &sessions[i].top_hosts);
        i = i + 1;
    }
    proof {
        assert(g.take(g.len() as int) =~= g);
    }
    hosts
}

/// All top services of the sessions, in order.
pub fn collect_services(sessions: &[NetworkSession]) -> (r: Vec<ServiceInfo>)
    ensures
        r@ == session_services(sessions@),
{
    let ghost g = sessions@;
    let mut services: Vec<ServiceInfo> = Vec::new();
    let mut i: usize = 0;
    proof {
        assert(g.take(0).map_values(|s: NetworkSession| s.top_services@) =~= Seq::<Seq<ServiceInfo>>::empty());
    }
    while i < sessions.len()
        invariant
            g == sessions@,
            i <= g.len(),
            services@ == session_services(g.take(i as int)),
        decreases g.len() - i,
    {
        proof {
            lemma_session_hosts_take(g, i as int);
        }
        append_services(&mut services, &sessions[i].top_services);
        i = i + 1;
    }
    proof {
        assert(g.take(g.len() as int) =~= g);
    }
    services
}

/// The text `protocol:port` for a service.
pub fn make_service_key(sv: &ServiceInfo) -> (k: String)
    ensures
        k@ == service_key(*sv),
{
    let mut k = sv.protocol.clone();
    push_str(&mut k, ":");
    proof {
        reveal_strlit(":");
    }
    push_decimal(&mut k, sv.port as u64);
    k
}

/// Counts the distinct host addresses and distinct `protocol:port` services
/// over the top hosts and services of all sessions.
pub fn calculate_unique_counts(sessions: &[NetworkSession]) -> (r: (usize, usize))
    ensures
        r.0 == distinct_hosts(sessions@),
        r.1 == distinct_services(sessions@),
{
    let hosts = collect_hosts(sessions);
    let services = collect_services(sessions);
    let mut host_keys: Vec<String> = Vec::new();
    let mut i: usize = 0;
    while i < hosts.len()
        invariant
            i <= hosts@.len(),
            views(host_keys@) == host_ips(hosts@.take(i as int)),
        decreases hosts@.len() - i,
    {
        let ghost before = host_keys@;
        host_keys.push(hosts[i].ip.clone());
        proof {
            assert(views(host_keys@) =~= views(before).push(hosts@[i as int].ip@));
            assert(host_ips(hosts@.take(i as int + 1)) =~= host_ips(hosts@.take(i as int)).push(hosts@[i as int].ip@));
        }
        i = i + 1;
    }
    let mut service_key_list: Vec<String> = Vec::new();
    let mut j: usize = 0;
    while j < services.len()
        invariant
            j <= services@.len(),
            views(service_key_list@) == service_keys(services@.take(j as int)),
        decreases services@.len() - j,
    {
        let k = make_service_key(&services[j]);
        let ghost before = service_key_list@;
        service_key_list.push(k);
        proof {
            assert(views(service_key_list@) =~= views(before).push(service_key(services@[j as int])));
            assert(service_keys(services@.take(j as int + 1)) =~= service_keys(services@.take(j as int)).push(service_key(services@[j as int])));
        }
        j = j + 1;
    }
    proof {
        assert(hosts@.take(hosts@.len() as int) =~= hosts@);
        assert(services@.take(services@.len() as int) =~= services@);
    }
    (count_distinct(&host_keys), count_distinct(&service_key_list))
}


/// Bytes in one direction summed over the hosts whose address has not
/// appeared earlier in the list (each address counted once, at first sight).
pub open spec fn first_seen_bytes(hs: Seq<NetworkHost>, incoming: bool) -> int
    decreases hs.len(),
{
    if hs.len() == 0 {
        0
    } else {
        let p = hs.drop_last();
        let h = hs.last();
        first_seen_bytes(p, incoming) + if host_ips(p).contains(h.ip@) {
            0
        } else if incoming {
            h.incoming_bytes as int
        } else {
            h.outgoing_bytes as int
        }
    }
}

/// First-sight sums only grow along prefixes.
pub proof fn lemma_first_seen_prefix_le(hs: Seq<NetworkHost>, i: int, incoming: bool)
    requires
        0 <= i <= hs.len(),
    ensures
        0 <= first_seen_bytes(hs.take(i), incoming) <= first_seen_bytes(hs, incoming),
    decreases hs.len() - i,
{
    if i == hs.len() {
        assert(hs.take(i) =~= hs);
        lemma_first_seen_nonneg(hs, incoming);
    } else {
        lemma_first_seen_prefix_le(hs, i + 1, incoming);
        assert(hs.take(i + 1).drop_last() =~= hs.take(i));
        lemma_first_seen_nonneg(hs.take(i), incoming);
    }
}

/// First-sight sums are never negative.
pub proof fn lemma_first_seen_nonneg(hs: Seq<NetworkHost>, incoming: bool)
    ensures
        first_seen_bytes(hs, incoming) >= 0,
    decreases hs.len(),
{
    if hs.len() > 0 {
        lemma_first_seen_nonneg(hs.drop_last(), incoming);
    }
}

/// Time covered by a list of sessions: the span from the first start to the
/// last end, or zero for no sessions.
pub open spec fn covered_duration(s: Seq<NetworkSession>) -> int {
    if s.len() == 0 { 0 } else { span_duration(s) }
}

/// Day totals that count each host address once (at its first appearance),
/// with the duration taken as the time spanned by the sessions.
pub fn calculate_macos_totals(sessions: &[NetworkSession]) -> (r: (u64, u64, u64))
    requires
        first_seen_bytes(session_hosts(sessions@), true) <= u64::MAX,
        first_seen_bytes(session_hosts(sessions@), false) <= u64::MAX,
    ensures
        r.0 == first_seen_bytes(session_hosts(sessions@), true),
        r.1 == first_seen_bytes(session_hosts(sessions@), false),
        r.2 == covered_duration(sessions@),
{
    let hosts = collect_hosts(sessions);
    let ghost hs = hosts@;
    let mut seen: Vec<String> = Vec::new();
    let mut total_in: u64 = 0;
    let mut total_out: u64 = 0;
    let mut i: usize = 0;
    while i < hosts.len()
        invariant
            hs == hosts@,
            first_seen_bytes(hs, true) <= u64::MAX,
            first_seen_bytes(hs, false) <= u64::MAX,
            i <= hs.len(),
            views(seen@) == host_ips(hs.take(i as int)),
            total_in == first_seen_bytes(hs.take(i as int), true),
            total_out == first_seen_bytes(hs.take(i as int), false),
        decreases hs.len() - i,
    {
        proof {
            assert(hs.take(i as int + 1).drop_last() =~= hs.take(i as int));
            assert(hs.take(i as int + 1).last() == hs[i as int]);
            lemma_first_seen_prefix_le(hs, i as int + 1, true);
            lemma_first_seen_prefix_le(hs, i as int + 1, false);
        }
        let known = crate::text::contains_string(&seen, &hosts[i].ip);
        if !known {
            total_in = total_in + hosts[i].incoming_bytes;
            total_out = total_out + hosts[i].outgoing_bytes;
        }
        let ghost before = seen@;
        seen.push(hosts[i].ip.clone());
        proof {
            assert(views(seen@) =~= views(before).push(hs[i as int].ip@));
            assert(host_ips(hs.take(i as int + 1)) =~= host_ips(hs.take(i as int)).push(hs[i as int].ip@));
        }
        i = i + 1;
    }
    proof {
        assert(hs.take(hs.len() as int) =~= hs);
    }
    let duration = if sessions.len() > 0 {
        let start_time = sessions[0].start_time;
        let end = match sessions[sessions.len() - 1].end_time {
            Some(e) => e,
            None => start_time,
        };
        if end > start_time { end - start_time } else { 0 }
    } else {
        0
    };
    (total_in, total_out, duration)
}

} // verus!
