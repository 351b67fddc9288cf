//! Choosing which network adapters to monitor: every adapter that is up and
//! not a loopback gets a preference score from its addresses and its
//! description, and the candidates are ordered by score, highest first.
use vstd::prelude::*;
use crate::text::{has_infix, has_prefix, contains_str, starts_with};
use crate::ordering::{SortKey, ranked, rank};

verus! {

/// A network interface as the capture library lists it.
#[derive(Debug)]
pub struct NetworkAdapter {
    pub name: String,
    pub description: Option<String>,
    pub addresses: Vec<String>,
    pub is_up: bool,
    pub is_loopback: bool,
}

impl NetworkAdapter {
    /// An adapter record from its parts.
    pub fn new(name: String, description: Option<String>, addresses: Vec<String>, is_up: bool, is_loopback: bool) -> (r: NetworkAdapter)
        ensures
            r.name == name,
            r.description == description,
            r.addresses == addresses,
            r.is_up == is_up,
            r.is_loopback == is_loopback,
    {
        NetworkAdapter { name, description, addresses, is_up, is_loopback }
    }
}

/// An IP address as the standard parser reads a text: the four octets of an
/// IPv4 address, or the fact that it is an IPv6 address.
#[derive(Debug, Clone, Copy, PartialEq, Eq)]
pub enum IpKind {
    V4 { a: u8, b: u8, c: u8, d: u8 },
    V6,
}

/// What `str::to_lowercase` gives for a text.
pub uninterp spec fn lowercase(s: Seq<char>) -> Seq<char>;

/// What parsing a text as `IpAddr` gives.
pub uninterp spec fn parsed_ip(s: Seq<char>) -> Option<IpKind>;

/// `str::to_lowercase`. Trusted: the result is the lowercase mapping of the
/// text, a function of the text alone.
#[verifier::external_body]
fn to_lowercase(s: &str) -> (r: String)
    ensures
        r@ == lowercase(s@),
{
    s.to_lowercase()
}

/// Parses a text as `core::net::IpAddr`. Trusted: the result depends on the
/// text alone; an IPv4 address is given by its four octets.
#[verifier::external_body]
fn parse_ip(s: &str) -> (r: Option<IpKind>)
    ensures
        r == parsed_ip(s@),
{
    match s.parse::<core::net::IpAddr>() {
        Ok(core::net::IpAddr::V4(v4)) => {
            let o = v4.octets();
            Some(IpKind::V4 { a: o[0], b: o[1], c: o[2], d: o[3] })
        },
        Ok(core::net::IpAddr::V6(_)) => Some(IpKind::V6),
        Err(_) => None,
    }
}

/// `Ipv4Addr::is_private`: 10.0.0.0/8, 172.16.0.0/12 or 192.168.0.0/16.
pub open spec fn is_private_v4(a: u8, b: u8) -> bool {
    a == 10 || (a == 172 && 16 <= b <= 31) || (a == 192 && b == 168)
}

/// `Ipv4Addr::is_loopback`: 127.0.0.0/8.
pub open spec fn is_loopback_v4(a: u8) -> bool {
    a == 127
}

/// Points the addresses earn, scanned in order: the first public IPv4
/// address earns 25 and ends the scan; each IPv6 address that is not
/// link-local (`fe80…`) earns 10.
pub open spec fn address_points(addrs: Seq<Seq<char>>) -> int
    decreases addrs.len(),
{
    if addrs.len() == 0 {
        0
    } else {
        let rest = address_points(addrs.drop_first());
        match parsed_ip(addrs[0]) {
            Some(IpKind::V4 { a, b, c, d }) => if !is_private_v4(a, b) && !is_loopback_v4(a) {
                25
            } else {
                rest
            },
            Some(IpKind::V6) => (if !has_prefix(addrs[0], "fe80"@) { 10int } else { 0int }) + rest,
            None => rest,
        }
    }
}

/// The description names a physical Ethernet or wireless interface.
pub open spec fn physical_desc(l: Seq<char>) -> bool {
    has_infix(l, "ethernet"@) || has_infix(l, "wifi"@) || has_infix(l, "wireless"@)
}

/// The description names a virtual, bridge or tunnel interface.
pub open spec fn virtual_desc(l: Seq<char>) -> bool {
    has_infix(l, "vmware"@) || has_infix(l, "virtualbox"@) || has_infix(l, "parallels"@)
        || has_infix(l, "docker"@) || has_infix(l, "bridge"@) || has_infix(l, "tap"@)
        || has_infix(l, "tun"@) || has_infix(l, "vpn"@)
}

/// The description names the main macOS interface.
pub open spec fn main_mac_desc(l: Seq<char>) -> bool {
    has_infix(l, "en0"@) || has_infix(l, "wi-fi"@)
}

/// Points from the (lowercased) description.
pub open spec fn desc_points(l: Seq<char>) -> int {
    (if physical_desc(l) { 50int } else { 0int }) + (if virtual_desc(l) { -30int } else { 0int })
        + (if main_mac_desc(l) { 20int } else { 0int })
}

/// The views of a list of strings.
pub open spec fn address_views(v: Seq<String>) -> Seq<Seq<char>> {
    v.map_values(|s: String| s@)
}

/// The preference score of an adapter: 100 for having addresses, points
/// from its description, and points from its addresses.
pub open spec fn adapter_score(a: NetworkAdapter) -> int {
    (if a.addresses@.len() > 0 { 100int } else { 0int })
        + (match a.description { Some(d) => desc_points(lowercase(d@)), None => 0int })
        + address_points(address_views(a.addresses@))
}

/// Something marks the adapter as worth monitoring: addresses, a physical
/// or main macOS description, or scoring addresses.
pub open spec fn adapter_wanted(a: NetworkAdapter) -> bool {
    ||| a.addresses@.len() > 0
    ||| (a.description matches Some(d) && (physical_desc(lowercase(d@)) || main_mac_desc(lowercase(d@))))
    ||| address_points(address_views(a.addresses@)) > 0
}

/// The adapter can carry traffic to monitor: it is up and not a loopback.
pub open spec fn adapter_usable(a: NetworkAdapter) -> bool {
    a.is_up && !a.is_loopback
}

/// An adapter's name with its preference score.
#[derive(Debug)]
pub struct ScoredAdapter {
    pub name: String,
    pub score: i32,
}

/// Higher scores first.
impl SortKey for ScoredAdapter {
    open spec fn sort_key(&self) -> int {
        self.score as int
    }

    fn key_value(&self) -> (k: i128) {
        self.score as i128
    }
}

/// Points from having addresses and from the description: the score
/// before the addresses are scanned.
pub open spec fn base_points(a: NetworkAdapter) -> int {
    (if a.addresses@.len() > 0 { 100int } else { 0int })
        + (match a.description { Some(d) => desc_points(lowercase(d@)), None => 0int })
}

/// Address points are never negative.
proof fn lemma_address_points_nonneg(addrs: Seq<Seq<char>>)
    ensures
        address_points(addrs) >= 0,
    decreases addrs.len(),
{
    if addrs.len() > 0 {
        lemma_address_points_nonneg(addrs.drop_first());
    }
}

/// The score of an adapter is its base points plus its address points.
proof fn lemma_score_parts(a: NetworkAdapter)
    ensures
        adapter_score(a) == base_points(a) + address_points(address_views(a.addresses@)),
        -30 <= base_points(a) <= 170,
        a.addresses@.len() == 0 ==> address_points(address_views(a.addresses@)) == 0,
        a.addresses@.len() > 0 ==> base_points(a) >= 70,
{
    if a.addresses@.len() == 0 {
        assert(address_views(a.addresses@).len() == 0);
    }
}

/// Points earned by the addresses (see `address_points`), scanned in order
/// as the score adds them up.
fn score_addresses(addrs: &Vec<String>) -> (p: i32)
    requires
        address_points(address_views(addrs@)) <= i32::MAX,
    ensures
        p == address_points(address_views(addrs@)),
{
    let ghost all = address_views(addrs@);
    let n = addrs.len();
    let mut acc: i32 = 0;
    let mut i: usize = 0;
    proof {
        assert(all.subrange(0, n as int) =~= all);
    }
    while i < n
        invariant
            n == addrs@.len(),
            all == address_views(addrs@),
            i <= n,
            address_points(all) <= i32::MAX,
            0 <= acc,
            acc + address_points(all.subrange(i as int, n as int)) == address_points(all),
        decreases n - i,
    {
        let ghost t = all.subrange(i as int, n as int);
        proof {
            assert(t.drop_first() =~= all.subrange(i + 1, n as int));
            assert(t[0] == addrs@[i as int]@);
            lemma_address_points_nonneg(all.subrange(i + 1, n as int));
        }
        let s = addrs[i].as_str();
        match parse_ip(s) {
            Some(IpKind::V4 { a, b, c, d }) => {
                let private = a == 10 || (a == 172 && 16 <= b && b <= 31) || (a == 192 && b == 168);
                if !private && a != 127 {
                    return acc + 25;
                }
            },
            Some(IpKind::V6) => {
                proof {
                    reveal_strlit("fe80");
                }
                if !starts_with(s, "fe80") {
                    acc = acc + 10;
                }
            },
            None => {},
        }
        i = i + 1;
    }
    proof {
        assert(all.subrange(n as int, n as int) =~= Seq::<Seq<char>>::empty());
    }
    acc
}

/// The points from having addresses and from the description, and whether
/// either marks the adapter as worth monitoring.
fn base_score(a: &NetworkAdapter) -> (r: (i32, bool))
    ensures
        r.0 == base_points(*a),
        r.1 == (a.addresses@.len() > 0
            || (a.description matches Some(d) && (physical_desc(lowercase(d@)) || main_mac_desc(lowercase(d@))))),
{
    let mut score: i32 = 0;
    let mut wanted = false;
    if a.addresses.len() > 0 {
        score = 100;
        wanted = true;
    }
    match &a.description {
        Some(desc) => {
            let l = to_lowercase(desc.as_str());
            let ls = l.as_str();
            let physical = contains_str(ls, "ethernet") || contains_str(ls, "wifi") || contains_str(ls, "wireless");
            if physical {
                score = score + 50;
                wanted = true;
            }
            let virt = contains_str(ls, "vmware") || contains_str(ls, "virtualbox") || contains_str(ls, "parallels")
                || contains_str(ls, "docker") || contains_str(ls, "bridge") || contains_str(ls, "tap")
                || contains_str(ls, "tun") || contains_str(ls, "vpn");
            if virt {
                score = score - 30;
            }
            let main_mac = contains_str(ls, "en0") || contains_str(ls, "wi-fi");
            if main_mac {
                score = score + 20;
                wanted = true;
            }
        },
        None => {},
    }
    (score, wanted)
}

/// Scores one adapter and tells whether it is worth monitoring.
pub fn score_adapter(a: &NetworkAdapter) -> (r: (i32, bool))
    requires
        adapter_score(*a) <= i32::MAX,
    ensures
        r.0 == adapter_score(*a),
        r.1 == adapter_wanted(*a),
{
    let (score, wanted) = base_score(a);
    proof {
        lemma_score_parts(*a);
        lemma_address_points_nonneg(address_views(a.addresses@));
    }
    let p = score_addresses(&a.addresses);
    (score + p, wanted || p > 0)
}

/// Whether the adapter's score fits in `i32`: the score adds up without
/// overflow.
fn score_fits(a: &NetworkAdapter) -> (b: bool)
    ensures
        b == (adapter_score(*a) <= i32::MAX),
{
    let (base, _) = base_score(a);
    proof {
        lemma_score_parts(*a);
    }
    let ghost all = address_views(a.addresses@);
    let n = a.addresses.len();
    let mut acc: i64 = base as i64;
    let mut i: usize = 0;
    proof {
        assert(all.subrange(0, n as int) =~= all);
    }
    while i < n
        invariant
            n == a.addresses@.len(),
            all == address_views(a.addresses@),
            i <= n,
            adapter_score(*a) == base_points(*a) + address_points(all),
            acc <= i32::MAX,
            acc - base_points(*a) + address_points(all.subrange(i as int, n as int)) == address_points(all),
        decreases n - i,
    {
        let ghost t = all.subrange(i as int, n as int);
        proof {
            assert(t.drop_first() =~= all.subrange(i + 1, n as int));
            assert(t[0] == a.addresses@[i as int]@);
            lemma_address_points_nonneg(all.subrange(i + 1, n as int));
        }
        let s = a.addresses[i].as_str();
        match parse_ip(s) {
            Some(IpKind::V4 { a: o1, b: o2, c: o3, d: o4 }) => {
                let private = o1 == 10 || (o1 == 172 && 16 <= o2 && o2 <= 31) || (o1 == 192 && o2 == 168);
                if !private && o1 != 127 {
                    return acc + 25 <= i32::MAX as i64;
                }
            },
            Some(IpKind::V6) => {
                proof {
                    reveal_strlit("fe80");
                }
                if !starts_with(s, "fe80") {
                    acc = acc + 10;
                    if acc > i32::MAX as i64 {
                        return false;
                    }
                }
            },
            None => {},
        }
        i = i + 1;
    }
    proof {
        assert(all.subrange(n as int, n as int) =~= Seq::<Seq<char>>::empty());
    }
    true
}

/// The adapters that may be picked, in list order, with their scores: the
/// usable ones; for monitoring, those that something marks as worth it or
/// that score above zero; for the default adapter, those with addresses.
pub open spec fn scored_candidates(adapters: Seq<NetworkAdapter>, monitoring: bool) -> Seq<ScoredAdapter>
    decreases adapters.len(),
{
    if adapters.len() == 0 {
        Seq::empty()
    } else {
        let p = scored_candidates(adapters.drop_last(), monitoring);
        let a = adapters.last();
        if adapter_usable(a) && (if monitoring {
            adapter_wanted(a) || adapter_score(a) > 0
        } else {
            a.addresses@.len() > 0
        }) {
            p.push(ScoredAdapter { name: a.name, score: adapter_score(a) as i32 })
        } else {
            p
        }
    }
}

/// Every adapter's score fits in `i32` (past that the score's additions
/// overflow).
pub open spec fn scorable(adapters: Seq<NetworkAdapter>) -> bool {
    forall|i: int| 0 <= i < adapters.len() ==> adapter_score(#[trigger] adapters[i]) <= i32::MAX
}

/// Whether every adapter's score fits in `i32`.
pub fn adapters_scorable(adapters: &Vec<NetworkAdapter>) -> (b: bool)
    ensures
        b == scorable(adapters@),
{
    let mut i: usize = 0;
    while i < adapters.len()
        invariant
            i <= adapters@.len(),
            forall|j: int| 0 <= j < i ==> adapter_score(#[trigger] adapters@[j]) <= i32::MAX,
        decreases adapters@.len() - i,
    {
        if !score_fits(&adapters[i]) {
            return false;
        }
        i = i + 1;
    }
    true
}

/// The message when no adapter can be monitored.
pub open spec fn no_adapter_message() -> Seq<char> {
    "No suitable network adapters found for monitoring. All adapters are either loopback or inactive."@
}

/// Scores the candidate adapters.
fn score_candidates(adapters: &Vec<NetworkAdapter>, monitoring: bool) -> (r: Vec<ScoredAdapter>)
    requires
        scorable(adapters@),
    ensures
        r@ == scored_candidates(adapters@, monitoring),
{
    let mut out: Vec<ScoredAdapter> = Vec::new();
    let mut i: usize = 0;
    while i < adapters.len()
        invariant
            i <= adapters@.len(),
            scorable(adapters@),
            out@ == scored_candidates(adapters@.take(i as int), monitoring),
        decreases adapters@.len() - i,
    {
        let ghost t = adapters@.take(i as int + 1);
        proof {
            assert(t.drop_last() =~= adapters@.take(i as int));
            assert(t.last() == adapters@[i as int]);
        }
        let a = &adapters[i];
        assert(adapter_score(*a) <= i32::MAX);
        if a.is_up && !a.is_loopback {
            let (score, wanted) = score_adapter(a);
            if (monitoring && (wanted || score > 0)) || (!monitoring && a.addresses.len() > 0) {
                out.push(ScoredAdapter { name: a.name.clone(), score });
            }
        }
        i = i + 1;
    }
    proof {
        assert(adapters@.take(adapters@.len() as int) =~= adapters@);
    }
    out
}

/// Each default-adapter candidate is named after a listed adapter that is
/// up, not a loopback, and has addresses.
proof fn lemma_default_candidates_qualify(adapters: Seq<NetworkAdapter>)
    ensures
        forall|k: int| 0 <= k < scored_candidates(adapters, false).len() ==> exists|i: int|
            0 <= i < adapters.len() && adapter_usable(#[trigger] adapters[i]) && adapters[i].addresses@.len() > 0
                && adapters[i].name == #[trigger] scored_candidates(adapters, false)[k].name,
    decreases adapters.len(),
{
    if adapters.len() > 0 {
        let rest = adapters.drop_last();
        lemma_default_candidates_qualify(rest);
        let c = scored_candidates(adapters, false);
        let p = scored_candidates(rest, false);
        assert forall|k: int| 0 <= k < c.len() implies exists|i: int|
            0 <= i < adapters.len() && adapter_usable(#[trigger] adapters[i]) && adapters[i].addresses@.len() > 0
                && adapters[i].name == #[trigger] c[k].name by {
            if k < p.len() {
                assert(c[k] == p[k]);
                let i = choose|i: int| 0 <= i < rest.len() && adapter_usable(#[trigger] rest[i])
                    && rest[i].addresses@.len() > 0 && rest[i].name == #[trigger] p[k].name;
                assert(adapters[i] == rest[i]);
            } else {
                assert(adapters[adapters.len() - 1] == adapters.last());
            }
        }
    }
}

/// The best adapter to monitor: the highest-scoring adapter that is up,
/// not a loopback, and has addresses; the first listed among equals.
pub fn get_default_network_adapter(adapters: &Vec<NetworkAdapter>) -> (r: Result<String, String>)
    requires
        scorable(adapters@),
    ensures
        ranked(scored_candidates(adapters@, false)).len() == 0 <==> r is Err,
        r matches Err(e) ==> e@ == no_adapter_message(),
        r matches Ok(name) ==> name@ == ranked(scored_candidates(adapters@, false))[0].name@,
        r matches Ok(name) ==> exists|i: int| 0 <= i < adapters@.len() && #[trigger] adapters@[i].name@ == name@
            && adapters@[i].is_up && !adapters@[i].is_loopback && adapters@[i].addresses@.len() > 0,
{
    let candidates = score_candidates(adapters, false);
    let ordered = rank(candidates);
    proof {
        broadcast use vstd::seq_lib::group_to_multiset_ensures;
        let c = scored_candidates(adapters@, false);
        crate::ordering::lemma_ranked_properties(c);
        lemma_default_candidates_qualify(adapters@);
        if ranked(c).len() > 0 {
            let first = ranked(c)[0];
            assert(ranked(c).to_multiset().count(first) > 0);
            assert(c.to_multiset().count(first) > 0);
            assert(c.contains(first));
            let k = choose|k: int| 0 <= k < c.len() && c[k] == first;
            assert(c[k].name == first.name);
            let i = choose|i: int| 0 <= i < adapters@.len() && adapter_usable(#[trigger] adapters@[i])
                && adapters@[i].addresses@.len() > 0 && adapters@[i].name == #[trigger] c[k].name;
            assert(adapters@[i].name@ == first.name@);
        }
    }
    if ordered.len() == 0 {
        return Err(String::from_str("No suitable network adapters found for monitoring. All adapters are either loopback or inactive."));
    }
    Ok(ordered[0].name.clone())
}

/// All adapters worth monitoring, highest score first (list order among
/// equals).
pub fn get_monitoring_adapters(adapters: &Vec<NetworkAdapter>) -> (r: Result<Vec<String>, String>)
    requires
        scorable(adapters@),
    ensures
        ranked(scored_candidates(adapters@, true)).len() == 0 <==> r is Err,
        r matches Err(e) ==> e@ == no_adapter_message(),
        r matches Ok(names) ==> names@.len() == ranked(scored_candidates(adapters@, true)).len()
            && forall|k: int| 0 <= k < names@.len()
                ==> #[trigger] names@[k]@ == ranked(scored_candidates(adapters@, true))[k].name@,
{
    let candidates = score_candidates(adapters, true);
    let ordered = rank(candidates);
    proof {
        crate::ordering::lemma_ranked_properties(scored_candidates(adapters@, true));
    }
    if ordered.len() == 0 {
        return Err(String::from_str("No suitable network adapters found for monitoring. All adapters are either loopback or inactive."));
    }
    let mut names: Vec<String> = Vec::new();
    let mut i: usize = 0;
    while i < ordered.len()
        invariant
            i <= ordered@.len(),
            names@.len() == i,
            forall|k: int| 0 <= k < i ==> #[trigger] names@[k]@ == ordered@[k].name@,
        decreases ordered@.len() - i,
    {
        names.push(ordered[i].name.clone());
        i = i + 1;
    }
    Ok(names)
}

/// Interface name prefixes macOS cannot capture on.
pub open spec fn unsupported_mac_prefix(name: Seq<char>) -> bool {
    ||| has_prefix(name, "anpi"@)
    ||| has_prefix(name, "ipsec"@)
    ||| has_prefix(name, "utun"@)
    ||| has_prefix(name, "feth"@)
    ||| has_prefix(name, "gif"@)
    ||| has_prefix(name, "stf"@)
    ||| has_prefix(name, "XHC"@)
    ||| has_prefix(name, "lo"@)
}

/// Whether packet capture on this macOS interface is known not to work.
pub fn is_unsupported_macos_adapter(adapter_name: &str) -> (b: bool)
    ensures
        b == unsupported_mac_prefix(adapter_name@),
{
    starts_with(adapter_name, "anpi") || starts_with(adapter_name, "ipsec")
        || starts_with(adapter_name, "utun") || starts_with(adapter_name, "feth")
        || starts_with(adapter_name, "gif") || starts_with(adapter_name, "stf")
        || starts_with(adapter_name, "XHC") || starts_with(adapter_name, "lo")
}


/// The adapter chosen for monitoring scores at least as high as every
/// usable adapter.
pub proof fn lemma_default_adapter_is_best(adapters: Seq<NetworkAdapter>)
    ensures
        ({
            let c = scored_candidates(adapters, false);
            ranked(c).len() > 0 ==> forall|k: int| 0 <= k < c.len() ==> ranked(c)[0].score >= #[trigger] c[k].score
        }),
{
    broadcast use vstd::seq_lib::group_to_multiset_ensures;
    let c = scored_candidates(adapters, false);
    crate::ordering::lemma_ranked_properties(c);
    let r = ranked(c);
    if r.len() > 0 {
        assert forall|k: int| 0 <= k < c.len() implies r[0].score >= #[trigger] c[k].score by {
            assert(c.to_multiset().count(c[k]) > 0);
            assert(r.to_multiset().count(c[k]) > 0);
            assert(r.contains(c[k]));
            let j = choose|j: int| 0 <= j < r.len() && r[j] == c[k];
            if j > 0 {
                assert(r[0].sort_key() >= r[j].sort_key());
            }
        }
    }
}

} // verus!
