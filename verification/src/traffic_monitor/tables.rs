//! The per-adapter tables of remote hosts and services, keyed by address
//! and by `protocol:port`, and how each packet updates them.
use vstd::prelude::*;
use dashmap::DashMap;
use crate::text::{dec, push_str, push_decimal};
use super::types::{NetworkHost, ServiceInfo};
use super::service_analysis::{service_name, get_service_name};
use super::host_analysis::{domain_of, extract_domain_from_hostname};

verus! {

/// The hosts a table holds, by address.
pub uninterp spec fn host_table(m: DashMap<String, NetworkHost>) -> Map<Seq<char>, NetworkHost>;

/// The services a table holds, by `protocol:port`.
pub uninterp spec fn service_table(m: DashMap<String, ServiceInfo>) -> Map<Seq<char>, ServiceInfo>;

/// `DashMap::new`. Trusted: the new table is empty.
#[verifier::external_body]
pub(crate) fn new_host_table() -> (table: DashMap<String, NetworkHost>)
    ensures
        host_table(table).dom() == Set::<Seq<char>>::empty(),
{
    DashMap::new()
}

/// `DashMap::new`. Trusted: the new table is empty.
#[verifier::external_body]
pub(crate) fn new_service_table() -> (table: DashMap<String, ServiceInfo>)
    ensures
        service_table(table).dom() == Set::<Seq<char>>::empty(),
{
    DashMap::new()
}

/// `DashMap::get`, copying the host out. Trusted: the stored host, if any.
#[verifier::external_body]
pub(crate) fn host_lookup(m: &DashMap<String, NetworkHost>, key: &str) -> (r: Option<NetworkHost>)
    ensures
        r == (if host_table(*m).contains_key(key@) { Some(host_table(*m)[key@]) } else { None }),
{
    m.get(key).map(|e| e.value().duplicate())
}

/// `DashMap::get`, copying the service out. Trusted: the stored service, if
/// any.
#[verifier::external_body]
pub(crate) fn service_lookup(m: &DashMap<String, ServiceInfo>, key: &str) -> (r: Option<ServiceInfo>)
    ensures
        r == (if service_table(*m).contains_key(key@) { Some(service_table(*m)[key@]) } else { None }),
{
    m.get(key).map(|e| e.value().duplicate())
}

/// `DashMap::insert`. Trusted: afterwards the key maps to `host` and
/// nothing else changed.
#[verifier::external_body]
pub(crate) fn host_store(m: &mut DashMap<String, NetworkHost>, key: String, host: NetworkHost)
    ensures
        host_table(*final(m)) == host_table(*old(m)).insert(key@, host),
{
    m.insert(key, host);
}

/// `DashMap::insert`. Trusted: afterwards the key maps to `service` and
/// nothing else changed.
#[verifier::external_body]
pub(crate) fn service_store(m: &mut DashMap<String, ServiceInfo>, key: String, service: ServiceInfo)
    ensures
        service_table(*final(m)) == service_table(*old(m)).insert(key@, service),
{
    m.insert(key, service);
}

/// `DashMap::clear`. Trusted: afterwards the table is empty.
#[verifier::external_body]
pub(crate) fn host_clear(m: &mut DashMap<String, NetworkHost>)
    ensures
        host_table(*final(m)).dom() == Set::<Seq<char>>::empty(),
{
    m.clear();
}

/// `DashMap::clear`. Trusted: afterwards the table is empty.
#[verifier::external_body]
pub(crate) fn service_clear(m: &mut DashMap<String, ServiceInfo>)
    ensures
        service_table(*final(m)).dom() == Set::<Seq<char>>::empty(),
{
    m.clear();
}

/// `r` lists the values of `t`, one per key, in some order.
pub open spec fn lists_values<V>(r: Seq<V>, t: Map<Seq<char>, V>) -> bool {
    exists|ks: Seq<Seq<char>>| {
        &&& ks.no_duplicates()
        &&& ks.len() == r.len()
        &&& forall|i: int| 0 <= i < ks.len() ==> #[trigger] t.contains_key(ks[i]) && t[ks[i]] == r[i]
        &&& forall|k: Seq<char>| #[trigger] t.contains_key(k) ==> ks.contains(k)
    }
}

/// Copies of all hosts, from `DashMap::iter`. Trusted: each stored host
/// once, in the table's own order (which nothing here fixes).
#[verifier::external_body]
pub(crate) fn host_values(m: &DashMap<String, NetworkHost>) -> (r: Vec<NetworkHost>)
    ensures
        lists_values(r@, host_table(*m)),
{
    m.iter().map(|e| e.value().duplicate()).collect()
}

/// Copies of all services, from `DashMap::iter`. Trusted: each stored
/// service once, in the table's own order (which nothing here fixes).
#[verifier::external_body]
pub(crate) fn service_values(m: &DashMap<String, ServiceInfo>) -> (r: Vec<ServiceInfo>)
    ensures
        lists_values(r@, service_table(*m)),
{
    m.iter().map(|e| e.value().duplicate()).collect()
}

/// The key of a service: `protocol:port`.
pub open spec fn service_key_of(protocol: Seq<char>, port: u16) -> Seq<char> {
    protocol + ":"@ + dec(port as nat)
}

/// A stored service entry after one more packet of `bytes` bytes.
pub open spec fn counted_service(sv: ServiceInfo, bytes: u64) -> ServiceInfo {
    ServiceInfo { bytes: (sv.bytes + bytes) as u64, packets: (sv.packets + 1) as u64, ..sv }
}

/// Counting a packet for a service does not overflow.
pub open spec fn service_count_fits(t: Map<Seq<char>, ServiceInfo>, protocol: Seq<char>, port: u16, bytes: u64) -> bool {
    let key = service_key_of(protocol, port);
    t.contains_key(key) ==> t[key].bytes + bytes <= u64::MAX && t[key].packets + 1 <= u64::MAX
}

/// Counts a packet of `bytes` bytes for the service `protocol:port`,
/// creating its entry (named from the service table) when it is new.
pub fn process_service_from_packet(protocol: &str, port: u16, bytes: u64, services: &mut DashMap<String, ServiceInfo>)
    requires
        service_count_fits(service_table(*old(services)), protocol@, port, bytes),
    ensures
        ({
            let key = service_key_of(protocol@, port);
            let o = service_table(*old(services));
            let f = service_table(*final(services));
            &&& f.dom() == o.dom().insert(key)
            &&& forall|k: Seq<char>| k != key && #[trigger] o.contains_key(k) ==> f[k] == o[k]
            &&& o.contains_key(key) ==> f[key] == counted_service(o[key], bytes)
            &&& !o.contains_key(key) ==> f[key].protocol@ == protocol@ && f[key].port == port
                && f[key].bytes == bytes && f[key].packets == 1
                && (match f[key].service_name {
                    Some(n) => service_name(protocol@, port) == Some(n@),
                    None => service_name(protocol@, port) is None,
                })
        }),
{
    let name = get_service_name(protocol, port);
    let mut key = String::from_str(protocol);
    push_str(&mut key, ":");
    push_decimal(&mut key, port as u64);
    proof {
        assert(key@ =~= service_key_of(protocol@, port));
    }
    let existing = service_lookup(services, key.as_str());
    let updated = match existing {
        Some(sv) => ServiceInfo { bytes: sv.bytes + bytes, packets: sv.packets + 1, ..sv },
        None => ServiceInfo { protocol: String::from_str(protocol), port, service_name: name, bytes, packets: 1 },
    };
    service_store(services, key, updated);
    proof {
        let o = service_table(*old(services));
        let k0 = service_key_of(protocol@, port);
        assert(service_table(*services).dom() =~= o.dom().insert(k0));
    }
}

/// The host entry after one more packet of `bytes` bytes in the given
/// direction, seen at `now`.
pub open spec fn counted_host(h: NetworkHost, bytes: u64, is_outgoing: bool, now: u64) -> NetworkHost {
    if is_outgoing {
        NetworkHost {
            outgoing_bytes: (h.outgoing_bytes + bytes) as u64,
            outgoing_packets: (h.outgoing_packets + 1) as u64,
            last_seen: now,
            ..h
        }
    } else {
        NetworkHost {
            incoming_bytes: (h.incoming_bytes + bytes) as u64,
            incoming_packets: (h.incoming_packets + 1) as u64,
            last_seen: now,
            ..h
        }
    }
}

/// `h` is the entry a host at `key` gets when first seen at `now` with a
/// packet of `bytes` bytes in the given direction: nothing known of its
/// name or origin yet, and that one packet counted.
pub open spec fn is_fresh_host(h: NetworkHost, key: Seq<char>, bytes: u64, is_outgoing: bool, now: u64) -> bool {
    &&& h.ip@ == key
    &&& h.hostname is None && h.domain is None
    &&& h.country is None && h.country_code is None && h.asn is None
    &&& h.incoming_bytes == (if is_outgoing { 0 } else { bytes })
    &&& h.outgoing_bytes == (if is_outgoing { bytes } else { 0 })
    &&& h.incoming_packets == (if is_outgoing { 0u64 } else { 1u64 })
    &&& h.outgoing_packets == (if is_outgoing { 1u64 } else { 0u64 })
    &&& h.first_seen == now && h.last_seen == now
}

/// `sv` is the entry the service `protocol:port` gets with its first packet
/// of `bytes` bytes, named from the service table.
pub open spec fn is_fresh_service(sv: ServiceInfo, protocol: Seq<char>, port: u16, bytes: u64) -> bool {
    &&& sv.protocol@ == protocol && sv.port == port
    &&& sv.bytes == bytes && sv.packets == 1
    &&& match sv.service_name {
        Some(n) => service_name(protocol, port) == Some(n@),
        None => service_name(protocol, port) is None,
    }
}

/// Counting a packet for a host does not overflow.
pub open spec fn host_count_fits(t: Map<Seq<char>, NetworkHost>, ip: Seq<char>, bytes: u64, is_outgoing: bool) -> bool {
    t.contains_key(ip) ==> if is_outgoing {
        t[ip].outgoing_bytes + bytes <= u64::MAX && t[ip].outgoing_packets + 1 <= u64::MAX
    } else {
        t[ip].incoming_bytes + bytes <= u64::MAX && t[ip].incoming_packets + 1 <= u64::MAX
    }
}

/// Counts a packet of `bytes` bytes exchanged with the host at `ip_text`
/// (seen at `now`), creating the host's entry when it is new. Returns
/// whether the host is new, so that its name and origin can be looked up.
pub fn count_host_packet(hosts: &mut DashMap<String, NetworkHost>, ip_text: String, bytes: u64, is_outgoing: bool, now: u64) -> (is_new: bool)
    requires
        host_count_fits(host_table(*old(hosts)), ip_text@, bytes, is_outgoing),
    ensures
        ({
            let o = host_table(*old(hosts));
            let f = host_table(*final(hosts));
            let key = ip_text@;
            &&& is_new == !o.contains_key(key)
            &&& f.dom() == o.dom().insert(key)
            &&& forall|k: Seq<char>| k != key && #[trigger] o.contains_key(k) ==> f[k] == o[k]
            &&& o.contains_key(key) ==> f[key] == counted_host(o[key], bytes, is_outgoing, now)
            &&& !o.contains_key(key) ==> f[key] == (NetworkHost {
                ip: ip_text,
                hostname: None,
                domain: None,
                country: None,
                country_code: None,
                asn: None,
                incoming_bytes: if is_outgoing { 0 } else { bytes },
                outgoing_bytes: if is_outgoing { bytes } else { 0 },
                incoming_packets: if is_outgoing { 0 } else { 1 },
                outgoing_packets: if is_outgoing { 1 } else { 0 },
                first_seen: now,
                last_seen: now,
            })
        }),
{
    let ghost key = ip_text@;
    let existing = host_lookup(hosts, ip_text.as_str());
    let is_new = existing.is_none();
    let updated = match existing {
        Some(h) => {
            if is_outgoing {
                NetworkHost { outgoing_bytes: h.outgoing_bytes + bytes, outgoing_packets: h.outgoing_packets + 1, last_seen: now, ..h }
            } else {
                NetworkHost { incoming_bytes: h.incoming_bytes + bytes, incoming_packets: h.incoming_packets + 1, last_seen: now, ..h }
            }
        },
        None => NetworkHost {
            ip: ip_text.clone(),
            hostname: None,
            domain: None,
            country: None,
            country_code: None,
            asn: None,
            incoming_bytes: if is_outgoing { 0 } else { bytes },
            outgoing_bytes: if is_outgoing { bytes } else { 0 },
            incoming_packets: if is_outgoing { 0 } else { 1 },
            outgoing_packets: if is_outgoing { 1 } else { 0 },
            first_seen: now,
            last_seen: now,
        },
    };
    host_store(hosts, ip_text, updated);
    proof {
        assert(host_table(*hosts).dom() =~= host_table(*old(hosts)).dom().insert(key));
    }
    is_new
}

/// Records a host's resolved name and its domain, when the host is still
/// in the table.
pub fn apply_host_name(hosts: &mut DashMap<String, NetworkHost>, ip_text: &str, hostname: String)
    ensures
        ({
            let o = host_table(*old(hosts));
            let f = host_table(*final(hosts));
            &&& o.contains_key(ip_text@) ==> f == o.insert(ip_text@, (NetworkHost {
                hostname: Some(hostname),
                domain: Some(f[ip_text@].domain.unwrap()),
                ..o[ip_text@]
            }))
            &&& o.contains_key(ip_text@) ==> f[ip_text@].domain.unwrap()@ == domain_of(hostname@)
            &&& !o.contains_key(ip_text@) ==> f == o
        }),
{
    match host_lookup(hosts, ip_text) {
        Some(h) => {
            let domain = extract_domain_from_hostname(hostname.as_str());
            let updated = NetworkHost { hostname: Some(hostname), domain: Some(domain), ..h };
            host_store(hosts, String::from_str(ip_text), updated);
        },
        None => {},
    }
}

/// Fills in a host's origin where it is still unknown, when the host is
/// still in the table.
pub fn apply_host_origin(
    hosts: &mut DashMap<String, NetworkHost>,
    ip_text: &str,
    country: Option<String>,
    country_code: Option<String>,
    asn: Option<String>,
)
    ensures
        ({
            let o = host_table(*old(hosts));
            let f = host_table(*final(hosts));
            &&& o.contains_key(ip_text@) ==> f == o.insert(ip_text@, (NetworkHost {
                country: if o[ip_text@].country is None { country } else { o[ip_text@].country },
                country_code: if o[ip_text@].country_code is None { country_code } else { o[ip_text@].country_code },
                asn: if o[ip_text@].asn is None { asn } else { o[ip_text@].asn },
                ..o[ip_text@]
            }))
            &&& !o.contains_key(ip_text@) ==> f == o
        }),
{
    match host_lookup(hosts, ip_text) {
        Some(h) => {
            let mut updated = h;
            if updated.country.is_none() {
                updated.country = country;
            }
            if updated.country_code.is_none() {
                updated.country_code = country_code;
            }
            if updated.asn.is_none() {
                updated.asn = asn;
            }
            host_store(hosts, String::from_str(ip_text), updated);
        },
        None => {},
    }
}

} // verus!
