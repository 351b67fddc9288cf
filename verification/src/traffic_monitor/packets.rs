//! What the monitor reads from a captured frame: its IP addresses, ports and
//! protocol, the textual forms of the addresses, and the direction of the
//! traffic.
use vstd::prelude::*;
use crate::text::{dec, push_str, push_decimal, has_prefix};
use etherparse::{LaxPacketHeaders, NetHeaders, TransportHeader};
use etherparse::err::LenError;
use super::deduplication::{ExpiringSignatures, signature_expiries, SIGNATURE_EXPIRY};
use crate::adapters::{is_private_v4, is_loopback_v4};

verus! {

/// An IP address: four octets, or the sixteen bytes of an IPv6 address.
#[derive(Debug, Clone, Copy, PartialEq, Eq)]
pub enum IpAddress {
    V4(u8, u8, u8, u8),
    V6([u8; 16]),
}

/// The transport layer of a frame.
#[derive(Debug, Clone, Copy, PartialEq, Eq)]
pub enum Transport {
    Tcp { source_port: u16, destination_port: u16 },
    Udp { source_port: u16, destination_port: u16 },
    Icmpv4,
    Icmpv6,
    Other,
}

/// The headers of an IP frame that the monitor uses.
#[derive(Debug, Clone, Copy, PartialEq, Eq)]
pub struct PacketHeaders {
    pub source: IpAddress,
    pub destination: IpAddress,
    pub transport: Transport,
}

/// What `etherparse::LaxPacketHeaders::from_ethernet` finds in a frame,
/// once the Ethernet II header could be read: the IP headers, or nothing for
/// a frame that does not carry IP.
pub uninterp spec fn ethernet_headers(data: Seq<u8>) -> Option<PacketHeaders>;

/// The text `Ipv6Addr`'s `Display` gives for sixteen address bytes.
pub uninterp spec fn ipv6_text(bytes: Seq<u8>) -> Seq<char>;

/// The error `etherparse` gives for a frame too short for its headers.
#[verifier::external_type_specification]
#[verifier::external_body]
pub struct ExLenError(etherparse::err::LenError);

/// The length of the payload `etherparse::LaxPacketHeaders::from_ethernet`
/// finds after the last header it could read in a frame.
pub uninterp spec fn ethernet_payload_len(data: Seq<u8>) -> nat;

/// Reads a frame with `etherparse::LaxPacketHeaders::from_ethernet`.
/// Trusted: it fails only when the frame is shorter than the 14-byte
/// Ethernet II header; otherwise it gives the IP headers (a function of the
/// bytes; headers of layers after the first error are absent, as etherparse
/// leaves them) and the length of the payload slice, which is a part of the
/// frame.
#[verifier::external_body]
pub(crate) fn read_frame_headers(data: &[u8]) -> (r: Result<(Option<PacketHeaders>, usize), LenError>)
    ensures
        r is Err <==> data@.len() < 14,
        r matches Ok((h, n)) ==> h == ethernet_headers(data@) && n == ethernet_payload_len(data@)
            && n <= data@.len(),
{
    let h = LaxPacketHeaders::from_ethernet(data)?;
    let n = h.payload.slice().len();
    let ends = match &h.net {
        Some(NetHeaders::Ipv4(ip, _)) => v4_pair(ip.source, ip.destination),
        Some(NetHeaders::Ipv6(ip, _)) => v6_pair(ip.source, ip.destination),
        None => return Ok((None, n)),
    };
    let transport = match &h.transport {
        Some(TransportHeader::Tcp(t)) => tcp_transport(t.source_port, t.destination_port),
        Some(TransportHeader::Udp(u)) => udp_transport(u.source_port, u.destination_port),
        Some(TransportHeader::Icmpv4(_)) => Transport::Icmpv4,
        Some(_) => Transport::Icmpv6,
        None => Transport::Other,
    };
    Ok((Some(frame_headers(ends, transport)), n))
}

/// `etherparse::err::LenError`'s `Display` text. Nothing is claimed of it.
#[verifier::external_body]
pub(crate) fn len_error_text(e: &LenError) -> String {
    e.to_string()
}

/// The headers with these two ends and this transport.
pub fn frame_headers(ends: (IpAddress, IpAddress), transport: Transport) -> (h: PacketHeaders)
    ensures
        h == (PacketHeaders { source: ends.0, destination: ends.1, transport }),
{
    PacketHeaders { source: ends.0, destination: ends.1, transport }
}

/// The IPv4 source and destination with these octets.
pub fn v4_pair(s: [u8; 4], d: [u8; 4]) -> (r: (IpAddress, IpAddress))
    ensures
        r == (IpAddress::V4(s[0], s[1], s[2], s[3]), IpAddress::V4(d[0], d[1], d[2], d[3])),
{
    (IpAddress::V4(s[0], s[1], s[2], s[3]), IpAddress::V4(d[0], d[1], d[2], d[3]))
}

/// The IPv6 source and destination with these bytes.
pub fn v6_pair(s: [u8; 16], d: [u8; 16]) -> (r: (IpAddress, IpAddress))
    ensures
        r == (IpAddress::V6(s), IpAddress::V6(d)),
{
    (IpAddress::V6(s), IpAddress::V6(d))
}

/// A TCP transport with these ports.
pub fn tcp_transport(source_port: u16, destination_port: u16) -> (t: Transport)
    ensures
        t == (Transport::Tcp { source_port, destination_port }),
{
    Transport::Tcp { source_port, destination_port }
}

/// A UDP transport with these ports.
pub fn udp_transport(source_port: u16, destination_port: u16) -> (t: Transport)
    ensures
        t == (Transport::Udp { source_port, destination_port }),
{
    Transport::Udp { source_port, destination_port }
}

/// `Ipv6Addr::to_string`. Trusted: the text depends on the bytes alone.
#[verifier::external_body]
fn ipv6_to_string(bytes: [u8; 16]) -> (s: String)
    ensures
        s@ == ipv6_text(bytes@),
{
    core::net::Ipv6Addr::from(bytes).to_string()
}

/// The dotted-decimal text of an IPv4 address.
pub open spec fn ipv4_text(a: u8, b: u8, c: u8, d: u8) -> Seq<char> {
    dec(a as nat) + "."@ + dec(b as nat) + "."@ + dec(c as nat) + "."@ + dec(d as nat)
}

/// The text of an address, as `IpAddr`'s `Display` gives it.
pub open spec fn ip_text(ip: IpAddress) -> Seq<char> {
    match ip {
        IpAddress::V4(a, b, c, d) => ipv4_text(a, b, c, d),
        IpAddress::V6(bytes) => ipv6_text(bytes@),
    }
}

/// The text of an address.
pub fn ip_to_string(ip: &IpAddress) -> (s: String)
    ensures
        s@ == ip_text(*ip),
{
    match ip {
        IpAddress::V4(a, b, c, d) => {
            let mut s = String::new();
            push_decimal(&mut s, *a as u64);
            push_str(&mut s, ".");
            push_decimal(&mut s, *b as u64);
            push_str(&mut s, ".");
            push_decimal(&mut s, *c as u64);
            push_str(&mut s, ".");
            push_decimal(&mut s, *d as u64);
            proof {
                assert(s@ =~= ipv4_text(*a, *b, *c, *d));
            }
            s
        },
        IpAddress::V6(bytes) => ipv6_to_string(*bytes),
    }
}

/// The first 16-bit segment of an IPv6 address.
pub open spec fn first_segment(bytes: [u8; 16]) -> int {
    bytes[0] as int * 256 + bytes[1] as int
}

/// `::1`, the IPv6 loopback address.
pub open spec fn is_v6_loopback(bytes: [u8; 16]) -> bool {
    (forall|i: int| 0 <= i < 15 ==> #[trigger] bytes[i] == 0) && bytes[15] == 1
}

/// Local address ranges whose traffic counts as outgoing: 10/8,
/// 172.16/12, 192.168/16, 169.254/16 and 127/8; IPv6 link-local and unique
/// local prefixes (first segment fe80, fc00 or fd00) and `::1`.
pub open spec fn is_local_source(ip: IpAddress) -> bool {
    match ip {
        IpAddress::V4(a, b, c, d) => a == 10 || (a == 172 && 16 <= b <= 31) || (a == 192 && b == 168)
            || (a == 169 && b == 254) || a == 127,
        IpAddress::V6(bytes) => first_segment(bytes) == 0xfe80 || first_segment(bytes) == 0xfc00
            || first_segment(bytes) == 0xfd00 || is_v6_loopback(bytes),
    }
}

/// Whether `::1`.
pub fn v6_loopback(bytes: &[u8; 16]) -> (b: bool)
    ensures
        b == is_v6_loopback(*bytes),
{
    let mut i: usize = 0;
    while i < 15
        invariant
            i <= 15,
            forall|j: int| 0 <= j < i ==> #[trigger] bytes[j] == 0,
        decreases 15 - i,
    {
        if bytes[i] != 0 {
            return false;
        }
        i = i + 1;
    }
    bytes[15] == 1
}

/// Whether traffic from `ip` counts as outgoing: the source is a local
/// address.
pub fn is_outgoing_traffic(ip: &IpAddress) -> (b: bool)
    ensures
        b == is_local_source(*ip),
{
    match ip {
        IpAddress::V4(a, b, _, _) => {
            *a == 10 || (*a == 172 && 16 <= *b && *b <= 31) || (*a == 192 && *b == 168)
                || (*a == 169 && *b == 254) || *a == 127
        },
        IpAddress::V6(bytes) => {
            let seg: u32 = bytes[0] as u32 * 256 + bytes[1] as u32;
            seg == 0xfe80 || seg == 0xfc00 || seg == 0xfd00 || v6_loopback(bytes)
        },
    }
}

/// Traffic counts as outgoing exactly when its source is a local address:
/// an IPv4 source that std's `Ipv4Addr` calls private (10/8, 172.16/12,
/// 192.168/16), link-local (169.254/16) or loopback (127/8), whatever its
/// last octets; an IPv6 source that is `::1` or whose first 16-bit segment
/// is fe80, fc00 or fd00.
pub proof fn lemma_outgoing_means_local_source(ip: IpAddress)
    ensures
        ip matches IpAddress::V4(a, b, c, d) ==> (is_local_source(ip) <==>
            (is_private_v4(a, b) || (a == 169 && b == 254) || is_loopback_v4(a))),
        ip matches IpAddress::V6(x) ==> (is_local_source(ip) <==>
            (x[0] as int * 256 + x[1] as int == 0xfe80 || x[0] as int * 256 + x[1] as int == 0xfc00
                || x[0] as int * 256 + x[1] as int == 0xfd00
                || ((forall|i: int| 0 <= i < 15 ==> #[trigger] x[i] == 0) && x[15] == 1))),
{
}

/// `Ipv4Addr::is_private || is_loopback` for IPv4; for IPv6 `::1` or one of
/// the local first segments.
pub open spec fn is_private_source(ip: IpAddress) -> bool {
    match ip {
        IpAddress::V4(a, b, c, d) => a == 10 || (a == 172 && 16 <= b <= 31) || (a == 192 && b == 168) || a == 127,
        IpAddress::V6(bytes) => is_v6_loopback(bytes) || first_segment(bytes) == 0xfe80
            || first_segment(bytes) == 0xfc00 || first_segment(bytes) == 0xfd00,
    }
}

/// Whether traffic from `ip` counts as outgoing for the per-adapter monitor:
/// private or loopback sources.
pub fn is_private_or_loopback(ip: &IpAddress) -> (b: bool)
    ensures
        b == is_private_source(*ip),
{
    match ip {
        IpAddress::V4(a, b, _, _) => {
            *a == 10 || (*a == 172 && 16 <= *b && *b <= 31) || (*a == 192 && *b == 168) || *a == 127
        },
        IpAddress::V6(bytes) => {
            let seg: u32 = bytes[0] as u32 * 256 + bytes[1] as u32;
            v6_loopback(bytes) || seg == 0xfe80 || seg == 0xfc00 || seg == 0xfd00
        },
    }
}

/// The protocol name of a transport, as the deduplicating monitor writes it.
pub open spec fn protocol_name(t: Transport) -> Seq<char> {
    match t {
        Transport::Tcp { .. } => "TCP"@,
        Transport::Udp { .. } => "UDP"@,
        _ => "Other"@,
    }
}

/// Source and destination ports of a transport (zero when it has none).
pub open spec fn ports(t: Transport) -> (u16, u16) {
    match t {
        Transport::Tcp { source_port, destination_port } => (source_port, destination_port),
        Transport::Udp { source_port, destination_port } => (source_port, destination_port),
        _ => (0, 0),
    }
}

/// The signature that identifies a packet across adapters:
/// `src:sport->dst:dport:protocol:timestamp`.
pub open spec fn packet_signature(src_ip: Seq<char>, dst_ip: Seq<char>, src_port: u16, dst_port: u16, protocol: Seq<char>, timestamp_ms: u64) -> Seq<char> {
    src_ip + ":"@ + dec(src_port as nat) + "->"@ + dst_ip + ":"@ + dec(dst_port as nat) + ":"@ + protocol + ":"@ + dec(timestamp_ms as nat)
}

/// Builds a packet's signature.
pub fn create_packet_signature(src_ip: &str, dst_ip: &str, src_port: u16, dst_port: u16, protocol: &str, timestamp_ms: u64) -> (s: String)
    ensures
        s@ == packet_signature(src_ip@, dst_ip@, src_port, dst_port, protocol@, timestamp_ms),
{
    let mut s = String::new();
    push_str(&mut s, src_ip);
    push_str(&mut s, ":");
    push_decimal(&mut s, src_port as u64);
    push_str(&mut s, "->");
    push_str(&mut s, dst_ip);
    push_str(&mut s, ":");
    push_decimal(&mut s, dst_port as u64);
    push_str(&mut s, ":");
    push_str(&mut s, protocol);
    push_str(&mut s, ":");
    push_decimal(&mut s, timestamp_ms);
    proof {
        assert(s@ =~= packet_signature(src_ip@, dst_ip@, src_port, dst_port, protocol@, timestamp_ms));
    }
    s
}

/// The ports of a TCP or UDP transport; none for other transports.
pub open spec fn optional_ports(t: Transport) -> (Option<u16>, Option<u16>) {
    match t {
        Transport::Tcp { source_port, destination_port } => (Some(source_port), Some(destination_port)),
        Transport::Udp { source_port, destination_port } => (Some(source_port), Some(destination_port)),
        _ => (None, None),
    }
}

/// The two ends of an IP frame, each address with its port (TCP and UDP
/// only); nothing for a frame too short for an Ethernet header or not
/// carrying IP.
pub fn frame_endpoints(data: &[u8]) -> (r: Option<((IpAddress, Option<u16>), (IpAddress, Option<u16>))>)
    ensures
        match r {
            Some(((s, sp), (d, dp))) => data@.len() >= 14 && (ethernet_headers(data@) matches Some(h) && s == h.source
                && d == h.destination && (sp, dp) == optional_ports(h.transport)),
            None => data@.len() < 14 || ethernet_headers(data@) is None,
        },
{
    match read_frame_headers(data) {
        Ok((Some(h), _)) => {
            let (sp, dp) = match h.transport {
                Transport::Tcp { source_port, destination_port } => (Some(source_port), Some(destination_port)),
                Transport::Udp { source_port, destination_port } => (Some(source_port), Some(destination_port)),
                _ => (None, None),
            };
            Some(((h.source, sp), (h.destination, dp)))
        },
        _ => None,
    }
}


/// What the capture parser tells of a frame: the capture time (seconds),
/// the IP headers (none for a frame that does not carry IP), the payload
/// length after the last header read, and the frame's length on the wire.
#[derive(Debug, Clone, Copy, PartialEq, Eq)]
pub struct CapturedHeaders {
    pub timestamp: u64,
    pub headers: Option<PacketHeaders>,
    pub payload_size: u64,
    pub packet_size: u64,
}

/// The name of a transport in a capture signature.
pub open spec fn transport_label(t: Transport) -> Seq<char> {
    match t {
        Transport::Tcp { .. } => "TCP"@,
        Transport::Udp { .. } => "UDP"@,
        Transport::Icmpv4 => "ICMPv4"@,
        Transport::Icmpv6 => "ICMPv6"@,
        Transport::Other => "Other"@,
    }
}

/// The signature under which the capture parser remembers a frame:
/// `src->dst:PROTOCOL:sport:dport`, with empty addresses, `Other` and zero
/// ports for a frame that does not carry IP.
pub open spec fn capture_signature(h: Option<PacketHeaders>) -> Seq<char> {
    match h {
        Some(p) => ip_text(p.source) + "->"@ + ip_text(p.destination) + ":"@ + transport_label(p.transport) + ":"@
            + dec(ports(p.transport).0 as nat) + ":"@ + dec(ports(p.transport).1 as nat),
        None => "->"@ + ":"@ + "Other"@ + ":"@ + dec(0) + ":"@ + dec(0),
    }
}

/// The name of a transport in a capture signature.
fn transport_label_str(t: Transport) -> (s: &'static str)
    ensures
        s@ == transport_label(t),
{
    match t {
        Transport::Tcp { .. } => "TCP",
        Transport::Udp { .. } => "UDP",
        Transport::Icmpv4 => "ICMPv4",
        Transport::Icmpv6 => "ICMPv6",
        Transport::Other => "Other",
    }
}

/// Builds the capture signature of a frame's headers.
fn capture_signature_of(h: Option<PacketHeaders>) -> (s: String)
    ensures
        s@ == capture_signature(h),
{
    let (src, dst, label, sp, dp) = match h {
        Some(p) => {
            let (sp, dp) = match p.transport {
                Transport::Tcp { source_port, destination_port } => (source_port, destination_port),
                Transport::Udp { source_port, destination_port } => (source_port, destination_port),
                _ => (0u16, 0u16),
            };
            (ip_to_string(&p.source), ip_to_string(&p.destination), transport_label_str(p.transport), sp, dp)
        },
        None => (String::new(), String::new(), "Other", 0u16, 0u16),
    };
    let mut s = src;
    push_str(&mut s, "->");
    push_str(&mut s, dst.as_str());
    push_str(&mut s, ":");
    push_str(&mut s, label);
    push_str(&mut s, ":");
    push_decimal(&mut s, sp as u64);
    push_str(&mut s, ":");
    push_decimal(&mut s, dp as u64);
    proof {
        match h {
            Some(p) => {
                assert(s@ =~= capture_signature(h));
            },
            None => {
                reveal_strlit("Other");
                assert(s@ =~= capture_signature(h));
            },
        }
    }
    s
}

/// Parses a captured frame (`data`, `wire_len` bytes on the wire, captured
/// at `ts_sec` seconds) at `now`. A frame too short for an Ethernet header
/// is an error. Otherwise the headers are returned, for a frame seen
/// before too, and the frame's signature is registered until
/// `now + SIGNATURE_EXPIRY` unless it is already registered and unexpired.
pub fn parse_captured_packet(sigs: &mut ExpiringSignatures, data: &[u8], wire_len: u64, ts_sec: u64, now: u64)
    -> (r: Result<CapturedHeaders, String>)
    requires
        now <= u64::MAX - SIGNATURE_EXPIRY,
    ensures
        r is Err <==> data@.len() < 14,
        r matches Err(e) ==> has_prefix(e@, "Failed to parse packet headers: "@),
        r is Err ==> signature_expiries(final(sigs).entries) == signature_expiries(old(sigs).entries),
        r matches Ok(h) ==> h.timestamp == ts_sec && h.packet_size == wire_len
            && h.headers == ethernet_headers(data@) && h.payload_size == ethernet_payload_len(data@),
        r is Ok ==> ({
            let sig = capture_signature(ethernet_headers(data@));
            let o = signature_expiries(old(sigs).entries);
            if o.contains_key(sig) && o[sig] > now {
                signature_expiries(final(sigs).entries) == o
            } else {
                signature_expiries(final(sigs).entries) == o.insert(sig, (now + SIGNATURE_EXPIRY) as u64)
            }
        }),
{
    let (headers, payload) = match read_frame_headers(data) {
        Err(e) => {
            let mut m = String::from_str("Failed to parse packet headers: ");
            let text = len_error_text(&e);
            push_str(&mut m, text.as_str());
            proof {
                reveal_strlit("Failed to parse packet headers: ");
                assert(m@.subrange(0, "Failed to parse packet headers: "@.len() as int) =~= "Failed to parse packet headers: "@);
            }
            return Err(m);
        },
        Ok(parts) => parts,
    };
    let signature = capture_signature_of(headers);
    if !sigs.is_duplicate_packet(signature.as_str(), now) {
        sigs.register_packet_signature(signature, now + SIGNATURE_EXPIRY);
    }
    Ok(CapturedHeaders { timestamp: ts_sec, headers, payload_size: payload as u64, packet_size: wire_len })
}

} // verus!
