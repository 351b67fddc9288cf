//! The unified capture engine: which adapters it watches, how it reads and
//! de-duplicates each captured packet, and what it reports per adapter.
use vstd::prelude::*;
use crate::text::{str_eq, contains_str, push_str, push_decimal, dec};
use crate::traffic_monitor::packets::{IpAddress, Transport, PacketHeaders, ethernet_headers, read_frame_headers, len_error_text,
    ip_to_string, ip_text, is_outgoing_traffic, is_local_source};
use crate::traffic_monitor::deduplication::{ExpiringSignatures, signature_expiries, SIGNATURE_EXPIRY};
use crate::state_manager::{SystemState, AdapterMetrics};

verus! {

/// A counted packet, as the engine reports it.
#[derive(Debug)]
pub struct PacketInfo {
    pub source_ip: IpAddress,
    pub dest_ip: IpAddress,
    pub source_port: Option<u16>,
    pub dest_port: Option<u16>,
    pub protocol: String,
    pub size_bytes: u64,
    pub timestamp: u64,
    pub is_outgoing: bool,
}

/// One watched adapter and what was counted on it.
#[derive(Debug)]
pub struct AdapterMonitor {
    pub name: String,
    pub display_name: String,
    pub is_active: bool,
    pub packets_processed: u64,
    pub bytes_processed: u64,
}

/// The engine: the adapters it watches (each name once), whether it runs,
/// and the recent packet signatures.
pub struct NetworkEngine {
    pub adapters: Vec<AdapterMonitor>,
    pub is_running: bool,
    pub signatures: ExpiringSignatures,
}

/// The protocol name the engine reports for a transport.
pub open spec fn engine_protocol(t: Transport) -> Seq<char> {
    match t {
        Transport::Tcp { .. } => "TCP"@,
        Transport::Udp { .. } => "UDP"@,
        Transport::Icmpv4 => "ICMP"@,
        Transport::Icmpv6 => "ICMPv6"@,
        Transport::Other => "Other"@,
    }
}

/// The ports of a transport, when it has them.
pub open spec fn engine_ports(t: Transport) -> (Option<u16>, Option<u16>) {
    match t {
        Transport::Tcp { source_port, destination_port } => (Some(source_port), Some(destination_port)),
        Transport::Udp { source_port, destination_port } => (Some(source_port), Some(destination_port)),
        _ => (None, None),
    }
}

/// A port for the signature: the port, or zero.
pub open spec fn or_zero(p: Option<u16>) -> u16 {
    match p {
        Some(x) => x,
        None => 0,
    }
}

/// The engine's packet signature: `src->dst:sport:dport:usec`.
pub open spec fn engine_signature(h: PacketHeaders, timestamp_usec: u64) -> Seq<char> {
    ip_text(h.source) + "->"@ + ip_text(h.destination) + ":"@ + dec(or_zero(engine_ports(h.transport).0) as nat)
        + ":"@ + dec(or_zero(engine_ports(h.transport).1) as nat) + ":"@ + dec(timestamp_usec as nat)
}

/// Device names the engine never watches: empty names and names mentioning
/// `bluetooth` or `any`.
pub open spec fn ignored_device(name: Seq<char>) -> bool {
    name.len() == 0 || crate::text::has_infix(name, "bluetooth"@) || crate::text::has_infix(name, "any"@)
}

/// The ports and protocol name the engine reports for a transport.
fn transport_parts(t: Transport) -> (r: (Option<u16>, Option<u16>, &'static str))
    ensures
        (r.0, r.1) == engine_ports(t),
        r.2@ == engine_protocol(t),
{
    match t {
        Transport::Tcp { source_port, destination_port } => (Some(source_port), Some(destination_port), "TCP"),
        Transport::Udp { source_port, destination_port } => (Some(source_port), Some(destination_port), "UDP"),
        Transport::Icmpv4 => (None, None, "ICMP"),
        Transport::Icmpv6 => (None, None, "ICMPv6"),
        Transport::Other => (None, None, "Other"),
    }
}

/// A port, or zero.
fn port_or_zero(p: Option<u16>) -> (r: u64)
    ensures
        r == or_zero(p),
{
    match p {
        Some(x) => x as u64,
        None => 0,
    }
}

impl NetworkEngine {
    /// Adapter names are unique.
    pub open spec fn wf(&self) -> bool {
        forall|i: int, j: int| 0 <= i < j < self.adapters@.len() ==> self.adapters@[i].name@ != self.adapters@[j].name@
    }

    /// A stopped engine watching nothing.
    pub fn new() -> (e: NetworkEngine)
        ensures
            e.adapters@.len() == 0,
            !e.is_running,
            signature_expiries(e.signatures.entries).dom() == Set::<Seq<char>>::empty(),
            e.wf(),
    {
        NetworkEngine { adapters: Vec::new(), is_running: false, signatures: ExpiringSignatures::new() }
    }

    /// Reads a captured frame of `packet_len` bytes seen at `now`. A frame
    /// too short for an Ethernet header is an error; frames that are not IP
    /// and packets whose signature is already registered give nothing;
    /// otherwise the signature is registered for `SIGNATURE_EXPIRY` seconds
    /// and the packet is described.
    pub fn parse_packet(&mut self, data: &[u8], timestamp_usec: u64, packet_len: u64, now: u64) -> (r: Result<Option<PacketInfo>, String>)
        requires
            now <= u64::MAX - SIGNATURE_EXPIRY,
        ensures
            data@.len() < 14 <==> r is Err,
            final(self).adapters == old(self).adapters,
            final(self).is_running == old(self).is_running,
            r is Err || ethernet_headers(data@) is None ==> final(self).signatures == old(self).signatures,
            r matches Ok(None) ==> data@.len() >= 14 && (ethernet_headers(data@) is None
                || (signature_expiries(old(self).signatures.entries).contains_key(
                        engine_signature(ethernet_headers(data@).unwrap(), timestamp_usec))
                    && signature_expiries(final(self).signatures.entries) == signature_expiries(old(self).signatures.entries))),
            r matches Ok(Some(info)) ==> data@.len() >= 14 && (ethernet_headers(data@) matches Some(h) && {
                let sig = engine_signature(h, timestamp_usec);
                &&& !signature_expiries(old(self).signatures.entries).contains_key(sig)
                &&& signature_expiries(final(self).signatures.entries)
                    == signature_expiries(old(self).signatures.entries).insert(sig, (now + SIGNATURE_EXPIRY) as u64)
                &&& info.source_ip == h.source && info.dest_ip == h.destination
                &&& (info.source_port, info.dest_port) == engine_ports(h.transport)
                &&& info.protocol@ == engine_protocol(h.transport)
                &&& info.size_bytes == packet_len
                &&& info.timestamp == now
                &&& info.is_outgoing == is_local_source(h.source)
            }),
            ethernet_headers(data@) matches Some(h) ==> (data@.len() >= 14
                && !signature_expiries(old(self).signatures.entries).contains_key(engine_signature(h, timestamp_usec))
                ==> (r is Ok && r.unwrap() is Some)),
    {
        let headers = match read_frame_headers(data) {
            Err(e) => {
                let mut m = String::from_str("Failed to parse packet headers: ");
                let text = len_error_text(&e);
                push_str(&mut m, text.as_str());
                return Err(m);
            },
            Ok((None, _)) => {
                return Ok(None);
            },
            Ok((Some(h), _)) => h,
        };
        let (source_port, dest_port, protocol) = transport_parts(headers.transport);
        let mut signature = ip_to_string(&headers.source);
        push_str(&mut signature, "->");
        let dst = ip_to_string(&headers.destination);
        push_str(&mut signature, dst.as_str());
        push_str(&mut signature, ":");
        push_decimal(&mut signature, port_or_zero(source_port));
        push_str(&mut signature, ":");
        push_decimal(&mut signature, port_or_zero(dest_port));
        push_str(&mut signature, ":");
        push_decimal(&mut signature, timestamp_usec);
        proof {
            assert(signature@ =~= engine_signature(headers, timestamp_usec));
        }
        if !self.signatures.admit_packet(signature, now) {
            return Ok(None);
        }
        let is_outgoing = is_outgoing_traffic(&headers.source);
        Ok(Some(PacketInfo {
            source_ip: headers.source,
            dest_ip: headers.destination,
            source_port,
            dest_port,
            protocol: String::from_str(protocol),
            size_bytes: packet_len,
            timestamp: now,
            is_outgoing,
        }))
    }
}

/// The traffic a counted packet adds: `(bytes in, bytes out, packets in,
/// packets out)`.
pub fn traffic_delta(info: &PacketInfo) -> (d: (u64, u64, u64, u64))
    ensures
        info.is_outgoing ==> d == (0u64, info.size_bytes, 0u64, 1u64),
        !info.is_outgoing ==> d == (info.size_bytes, 0u64, 1u64, 0u64),
{
    if info.is_outgoing {
        (0, info.size_bytes, 0, 1)
    } else {
        (info.size_bytes, 0, 1, 0)
    }
}


/// A capture device as listed: its name and description.
#[derive(Debug)]
pub struct DeviceEntry {
    pub name: String,
    pub desc: Option<String>,
}

/// Names of a list of watched adapters.
pub open spec fn monitor_names(v: Seq<AdapterMonitor>) -> Seq<Seq<char>> {
    v.map_values(|a: AdapterMonitor| a.name@)
}

/// Names of the devices the engine may watch, in list order.
pub open spec fn eligible_names(ds: Seq<DeviceEntry>) -> Seq<Seq<char>>
    decreases ds.len(),
{
    if ds.len() == 0 {
        Seq::empty()
    } else {
        let p = eligible_names(ds.drop_last());
        if ignored_device(ds.last().name@) { p } else { p.push(ds.last().name@) }
    }
}

/// The devices that discovery adds: eligible, not yet watched, and not
/// listed earlier under the same name.
pub open spec fn new_devices(current: Seq<Seq<char>>, ds: Seq<DeviceEntry>) -> Seq<DeviceEntry>
    decreases ds.len(),
{
    if ds.len() == 0 {
        Seq::empty()
    } else {
        let p = new_devices(current, ds.drop_last());
        let d = ds.last();
        if !ignored_device(d.name@) && !current.contains(d.name@)
            && !p.map_values(|x: DeviceEntry| x.name@).contains(d.name@) {
            p.push(d)
        } else {
            p
        }
    }
}

/// A newly watched adapter: active, nothing counted, shown under its
/// description (or its name when it has none).
pub open spec fn fresh_monitor(a: AdapterMonitor, d: DeviceEntry) -> bool {
    &&& a.name == d.name
    &&& a.display_name == (match d.desc { Some(x) => x, None => d.name })
    &&& a.is_active
    &&& a.packets_processed == 0
    &&& a.bytes_processed == 0
}

/// The watched adapters whose names were listed again.
pub open spec fn still_listed(v: Seq<AdapterMonitor>, seen: Seq<Seq<char>>) -> Seq<AdapterMonitor>
    decreases v.len(),
{
    if v.len() == 0 {
        Seq::empty()
    } else {
        let p = still_listed(v.drop_last(), seen);
        if seen.contains(v.last().name@) { p.push(v.last()) } else { p }
    }
}

/// Names of watched adapters no longer listed.
pub open spec fn no_longer_listed(v: Seq<AdapterMonitor>, seen: Seq<Seq<char>>) -> Seq<Seq<char>>
    decreases v.len(),
{
    if v.len() == 0 {
        Seq::empty()
    } else {
        let p = no_longer_listed(v.drop_last(), seen);
        if seen.contains(v.last().name@) { p } else { p.push(v.last().name@) }
    }
}

/// Whether some watched or newly added adapter has this name.
fn name_taken(current: &Vec<AdapterMonitor>, added: &Vec<AdapterMonitor>, name: &String) -> (b: bool)
    ensures
        b == (monitor_names(current@).contains(name@) || monitor_names(added@).contains(name@)),
{
    let mut i: usize = 0;
    while i < current.len()
        invariant
            i <= current@.len(),
            forall|j: int| 0 <= j < i ==> current@[j].name@ != name@,
        decreases current@.len() - i,
    {
        if current[i].name == *name {
            proof {
                assert(monitor_names(current@)[i as int] == name@);
            }
            return true;
        }
        i = i + 1;
    }
    let mut k: usize = 0;
    while k < added.len()
        invariant
            k <= added@.len(),
            forall|j: int| 0 <= j < current@.len() ==> current@[j].name@ != name@,
            forall|j: int| 0 <= j < k ==> added@[j].name@ != name@,
        decreases added@.len() - k,
    {
        if added[k].name == *name {
            proof {
                assert(monitor_names(added@)[k as int] == name@);
            }
            return true;
        }
        k = k + 1;
    }
    proof {
        assert forall|j: int| 0 <= j < monitor_names(current@).len() implies monitor_names(current@)[j] != name@ by {
            assert(monitor_names(current@)[j] == current@[j].name@);
        }
        assert forall|j: int| 0 <= j < monitor_names(added@).len() implies monitor_names(added@)[j] != name@ by {
            assert(monitor_names(added@)[j] == added@[j].name@);
        }
    }
    false
}

impl NetworkEngine {
    /// Brings the watched adapters in line with the listed devices: devices
    /// that may be watched and are new are added (active, nothing counted);
    /// watched adapters that are no longer listed are dropped. Returns the
    /// names added and the names dropped, in that order.
    pub fn discover_adapters(&mut self, devices: &Vec<DeviceEntry>) -> (r: (Vec<String>, Vec<String>))
        ensures
            ({
                let added = new_devices(monitor_names(old(self).adapters@), devices@);
                let seen = eligible_names(devices@);
                let kept = still_listed(old(self).adapters@, seen);
                &&& final(self).adapters@.len() == kept.len() + added.len()
                &&& final(self).adapters@.subrange(0, kept.len() as int) == kept
                &&& forall|i: int| 0 <= i < added.len()
                    ==> fresh_monitor(#[trigger] final(self).adapters@[kept.len() + i], added[i])
                &&& r.0@.len() == added.len()
                &&& forall|i: int| 0 <= i < added.len() ==> #[trigger] r.0@[i]@ == added[i].name@
                &&& r.1@.map_values(|x: String| x@) == no_longer_listed(old(self).adapters@, seen)
            }),
            final(self).is_running == old(self).is_running,
            final(self).signatures == old(self).signatures,
    {
        let ghost current = monitor_names(self.adapters@);
        let mut added: Vec<AdapterMonitor> = Vec::new();
        let mut added_names: Vec<String> = Vec::new();
        let mut seen: Vec<String> = Vec::new();
        let mut i: usize = 0;
        while i < devices.len()
            invariant
                i <= devices@.len(),
                current == monitor_names(self.adapters@),
                added@.len() == new_devices(current, devices@.take(i as int)).len(),
                forall|j: int| 0 <= j < added@.len()
                    ==> fresh_monitor(#[trigger] added@[j], new_devices(current, devices@.take(i as int))[j]),
                added_names@.len() == added@.len(),
                forall|j: int| 0 <= j < added@.len() ==> #[trigger] added_names@[j]@ == added@[j].name@,
                crate::text::views(seen@) == eligible_names(devices@.take(i as int)),
            decreases devices@.len() - i,
        {
            let ghost pre = devices@.take(i as int);
            let ghost t = devices@.take(i as int + 1);
            let ghost before_new = new_devices(current, pre);
            proof {
                assert(t.drop_last() =~= pre);
                assert(t.last() == devices@[i as int]);
                assert(monitor_names(added@) =~= before_new.map_values(|x: DeviceEntry| x.name@)) by {
                    assert forall|j: int| 0 <= j < added@.len() implies monitor_names(added@)[j]
                        == before_new.map_values(|x: DeviceEntry| x.name@)[j] by {
                        assert(fresh_monitor(added@[j], before_new[j]));
                    }
                }
            }
            let d = &devices[i];
            let n = &d.name;
            let ignored = crate::text::char_len(n.as_str()) == 0 || contains_str(n.as_str(), "bluetooth") || contains_str(n.as_str(), "any");
            if !ignored {
                let ghost seen_before = seen@;
                seen.push(n.clone());
                proof {
                    assert(crate::text::views(seen@) =~= crate::text::views(seen_before).push(n@));
                }
                if !name_taken(&self.adapters, &added, n) {
                    let display = match &d.desc {
                        Some(x) => x.clone(),
                        None => n.clone(),
                    };
                    added.push(AdapterMonitor {
                        name: n.clone(),
                        display_name: display,
                        is_active: true,
                        packets_processed: 0,
                        bytes_processed: 0,
                    });
                    added_names.push(n.clone());
                }
            }
            i = i + 1;
        }
        proof {
            assert(devices@.take(devices@.len() as int) =~= devices@);
        }
        let ghost seen_names = eligible_names(devices@);
        let ghost old_adapters = self.adapters@;
        let mut rest: Vec<AdapterMonitor> = Vec::new();
        std::mem::swap(&mut rest, &mut self.adapters);
        let total = rest.len();
        let mut kept: Vec<AdapterMonitor> = Vec::new();
        let mut removed: Vec<String> = Vec::new();
        let mut k: usize = 0;
        while rest.len() > 0
            invariant
                total == old_adapters.len(),
                k <= total,
                rest@ == old_adapters.subrange(k as int, total as int),
                crate::text::views(seen@) == seen_names,
                kept@ == still_listed(old_adapters.take(k as int), seen_names),
                removed@.map_values(|x: String| x@) == no_longer_listed(old_adapters.take(k as int), seen_names),
            decreases rest.len(),
        {
            let a = rest.remove(0);
            proof {
                assert(old_adapters.take(k as int + 1).drop_last() =~= old_adapters.take(k as int));
                assert(old_adapters.take(k as int + 1).last() == old_adapters[k as int]);
                assert(a == old_adapters[k as int]);
            }
            if crate::text::contains_string(&seen, &a.name) {
                kept.push(a);
            } else {
                let ghost rb = removed@;
                removed.push(a.name.clone());
                proof {
                    assert(removed@.map_values(|x: String| x@) =~= rb.map_values(|x: String| x@).push(a.name@));
                }
            }
            k = k + 1;
            proof {
                assert(rest@ =~= old_adapters.subrange(k as int, total as int));
            }
        }
        proof {
            assert(old_adapters.take(total as int) =~= old_adapters);
        }
        let ghost kept_v = kept@;
        let mut all = kept;
        let mut j: usize = 0;
        let ghost added_v = added@;
        let mut added_rest = added;
        let alen = added_rest.len();
        assert(added_v.len() == alen);
        while added_rest.len() > 0
            invariant
                j <= added_v.len(),
                added_v.len() <= usize::MAX,
                added_rest@ == added_v.subrange(j as int, added_v.len() as int),
                all@ == kept_v + added_v.take(j as int),
            decreases added_rest.len(),
        {
            let m = added_rest.remove(0);
            proof {
                assert(m == added_v[j as int]);
            }
            all.push(m);
            j = j + 1;
            proof {
                assert(all@ =~= kept_v + added_v.take(j as int));
                assert(added_rest@ =~= added_v.subrange(j as int, added_v.len() as int));
            }
        }
        proof {
            assert(added_v.take(added_v.len() as int) =~= added_v);
            assert((kept_v + added_v).subrange(0, kept_v.len() as int) =~= kept_v);
        }
        self.adapters = all;
        (added_names, removed)
    }
}


/// Seconds between cleanups of expired packet signatures.
pub const SIGNATURE_CLEANUP_PERIOD: u64 = 30;

/// Whether the once-a-second tick number `tick` is due for a cleanup of
/// expired signatures.
pub fn cleanup_due(tick: u64) -> (b: bool)
    ensures
        b == (tick % SIGNATURE_CLEANUP_PERIOD == 0),
{
    tick % SIGNATURE_CLEANUP_PERIOD == 0
}

/// `(bytes in, bytes out, packets in, packets out)` of an adapter in the
/// state, or zeros for an adapter the state does not know.
pub open spec fn adapter_totals(state: SystemState, name: Seq<char>) -> (u64, u64, u64, u64) {
    match state.adapter(name) {
        Some(m) => (m.total_bytes_in, m.total_bytes_out, m.total_packets_in, m.total_packets_out),
        None => (0, 0, 0, 0),
    }
}

/// Position of the metrics of the adapter named `name`.
fn find_adapter_metrics(v: &Vec<AdapterMetrics>, name: &str) -> (r: Option<usize>)
    ensures
        match r {
            Some(k) => crate::state_manager::metrics_index(v@, name@) == k as int && k < v@.len(),
            None => crate::state_manager::metrics_index(v@, name@) == -1,
        },
{
    let mut i = v.len();
    proof {
        assert(v@.take(i as int) =~= v@);
    }
    while i > 0
        invariant
            i <= v@.len(),
            crate::state_manager::metrics_index(v@, name@) == crate::state_manager::metrics_index(v@.take(i as int), name@),
        decreases i,
    {
        let ghost t = v@.take(i as int);
        proof {
            assert(t.drop_last() =~= v@.take(i - 1));
            assert(t.last() == v@[i - 1]);
        }
        if str_eq(v[i - 1].name.as_str(), name) {
            return Some(i - 1);
        }
        i = i - 1;
    }
    None
}

/// Names of the active adapters, in order.
pub open spec fn active_names(v: Seq<AdapterMonitor>) -> Seq<Seq<char>>
    decreases v.len(),
{
    if v.len() == 0 {
        Seq::empty()
    } else {
        let p = active_names(v.drop_last());
        if v.last().is_active { p.push(v.last().name@) } else { p }
    }
}

/// A watched adapter's name with its traffic totals.
#[derive(Debug)]
pub struct AdapterStats {
    pub name: String,
    pub totals: (u64, u64, u64, u64),
}

impl NetworkEngine {
    /// Position of the watched adapter named `name`: the first with that
    /// name, or none when no watched adapter has it.
    pub fn adapter_position(&self, name: &str) -> (r: Option<usize>)
        ensures
            match r {
                Some(i) => i < self.adapters@.len() && self.adapters@[i as int].name@ == name@
                    && forall|j: int| 0 <= j < i ==> #[trigger] self.adapters@[j].name@ != name@,
                None => forall|j: int| 0 <= j < self.adapters@.len() ==> #[trigger] self.adapters@[j].name@ != name@,
            },
    {
        let mut i: usize = 0;
        while i < self.adapters.len()
            invariant
                i <= self.adapters@.len(),
                forall|j: int| 0 <= j < i ==> #[trigger] self.adapters@[j].name@ != name@,
            decreases self.adapters@.len() - i,
        {
            if str_eq(self.adapters[i].name.as_str(), name) {
                return Some(i);
            }
            i = i + 1;
        }
        None
    }

    /// Counts a packet of `size` bytes on the watched adapter at `index`
    /// (the counters wrap around, as atomic additions do).
    pub fn record_packet(&mut self, index: usize, size: u64)
        requires
            index < old(self).adapters@.len(),
        ensures
            final(self).adapters@ == old(self).adapters@.update(index as int, AdapterMonitor {
                packets_processed: old(self).adapters@[index as int].packets_processed.wrapping_add(1),
                bytes_processed: old(self).adapters@[index as int].bytes_processed.wrapping_add(size),
                ..old(self).adapters@[index as int]
            }),
            final(self).is_running == old(self).is_running,
            final(self).signatures == old(self).signatures,
    {
        let mut rest: Vec<AdapterMonitor> = Vec::new();
        std::mem::swap(&mut rest, &mut self.adapters);
        let mut a = rest.remove(index);
        a.packets_processed = a.packets_processed.wrapping_add(1);
        a.bytes_processed = a.bytes_processed.wrapping_add(size);
        rest.insert(index, a);
        self.adapters = rest;
        proof {
            assert(self.adapters@ =~= old(self).adapters@.update(index as int, AdapterMonitor {
                packets_processed: old(self).adapters@[index as int].packets_processed.wrapping_add(1),
                bytes_processed: old(self).adapters@[index as int].bytes_processed.wrapping_add(size),
                ..old(self).adapters@[index as int]
            }));
        }
    }

    /// Names of the watched adapters that are active, in order.
    pub fn get_active_adapters(&self) -> (r: Vec<String>)
        ensures
            r@.map_values(|x: String| x@) == active_names(self.adapters@),
    {
        let mut r: Vec<String> = Vec::new();
        let mut i: usize = 0;
        while i < self.adapters.len()
            invariant
                i <= self.adapters@.len(),
                r@.map_values(|x: String| x@) == active_names(self.adapters@.take(i as int)),
            decreases self.adapters@.len() - i,
        {
            let ghost t = self.adapters@.take(i as int + 1);
            let ghost rb = r@;
            proof {
                assert(t.drop_last() =~= self.adapters@.take(i as int));
                assert(t.last() == self.adapters@[i as int]);
            }
            if self.adapters[i].is_active {
                r.push(self.adapters[i].name.clone());
                proof {
                    assert(r@.map_values(|x: String| x@) =~= rb.map_values(|x: String| x@).push(self.adapters@[i as int].name@));
                }
            }
            i = i + 1;
        }
        proof {
            assert(self.adapters@.take(self.adapters@.len() as int) =~= self.adapters@);
        }
        r
    }

    /// The traffic totals of each watched adapter, from the app state.
    pub fn get_adapter_stats(&self, state: &SystemState) -> (r: Vec<AdapterStats>)
        ensures
            r@.len() == self.adapters@.len(),
            forall|i: int| 0 <= i < r@.len() ==> (#[trigger] r@[i]).name@ == self.adapters@[i].name@
                && r@[i].totals == adapter_totals(*state, self.adapters@[i].name@),
    {
        let mut r: Vec<AdapterStats> = Vec::new();
        let mut i: usize = 0;
        while i < self.adapters.len()
            invariant
                i <= self.adapters@.len(),
                r@.len() == i,
                forall|j: int| 0 <= j < i ==> (#[trigger] r@[j]).name@ == self.adapters@[j].name@
                    && r@[j].totals == adapter_totals(*state, self.adapters@[j].name@),
            decreases self.adapters@.len() - i,
        {
            let name = &self.adapters[i].name;
            let totals = match find_adapter_metrics(&state.adapters, name.as_str()) {
                Some(k) => {
                    let m = &state.adapters[k];
                    (m.total_bytes_in, m.total_bytes_out, m.total_packets_in, m.total_packets_out)
                },
                None => (0, 0, 0, 0),
            };
            r.push(AdapterStats { name: name.clone(), totals });
            i = i + 1;
        }
        r
    }

    /// Starts the engine; starting a running engine changes nothing.
    /// Returns whether it was started now.
    pub fn start(&mut self) -> (started: bool)
        ensures
            started == !old(self).is_running,
            final(self).is_running,
            final(self).adapters == old(self).adapters,
    {
        if self.is_running {
            return false;
        }
        self.is_running = true;
        true
    }

    /// Stops the engine: every watched adapter becomes inactive. Returns
    /// the names whose state must be marked inactive and not monitored
    /// (none when the engine was not running).
    pub fn stop(&mut self) -> (names: Vec<String>)
        ensures
            !old(self).is_running ==> names@.len() == 0 && final(self).adapters == old(self).adapters,
            !final(self).is_running,
            old(self).is_running ==> {
                &&& final(self).adapters@.len() == old(self).adapters@.len()
                &&& forall|i: int| 0 <= i < final(self).adapters@.len() ==> (#[trigger] final(self).adapters@[i])
                    == (AdapterMonitor { is_active: false, ..old(self).adapters@[i] })
                &&& names@.map_values(|x: String| x@) == monitor_names(old(self).adapters@)
            },
    {
        if !self.is_running {
            return Vec::new();
        }
        self.is_running = false;
        let ghost orig = self.adapters@;
        let mut rest: Vec<AdapterMonitor> = Vec::new();
        std::mem::swap(&mut rest, &mut self.adapters);
        let n = rest.len();
        let mut out: Vec<AdapterMonitor> = Vec::new();
        let mut names: Vec<String> = Vec::new();
        let mut k: usize = 0;
        while rest.len() > 0
            invariant
                n == orig.len(),
                k <= n,
                rest@ == orig.subrange(k as int, n as int),
                out@.len() == k,
                forall|i: int| 0 <= i < k ==> (#[trigger] out@[i]) == (AdapterMonitor { is_active: false, ..orig[i] }),
                names@.map_values(|x: String| x@) == monitor_names(orig.take(k as int)),
            decreases rest.len(),
        {
            let mut a = rest.remove(0);
            proof {
                assert(a == orig[k as int]);
            }
            let ghost nb = names@;
            names.push(a.name.clone());
            a.is_active = false;
            out.push(a);
            k = k + 1;
            proof {
                assert(rest@ =~= orig.subrange(k as int, n as int));
                assert(names@.map_values(|x: String| x@) =~= nb.map_values(|x: String| x@).push(orig[k - 1].name@));
                assert(monitor_names(orig.take(k as int)) =~= monitor_names(orig.take(k - 1)).push(orig[k - 1].name@));
            }
        }
        proof {
            assert(orig.take(n as int) =~= orig);
        }
        self.adapters = out;
        names
    }
}

} // verus!
