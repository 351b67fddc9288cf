//! Remote hosts: which addresses are tracked, a host's registrable domain,
//! and the rough origin guessed from its address.
use vstd::prelude::*;
use crate::text::{has_prefix, starts_with, push_char, substring};
use super::packets::{IpAddress, ip_text, is_v6_loopback, ip_to_string, v6_loopback};

verus! {

/// Position of the last `.` in `s[0..end]`, or -1.
pub open spec fn last_dot_before(s: Seq<char>, end: int) -> int
    decreases end,
{
    if end <= 0 {
        -1
    } else if s[end - 1] == '.' {
        end - 1
    } else {
        last_dot_before(s, end - 1)
    }
}

/// The last two dot-separated labels of a host name (the whole name when it
/// has fewer than two labels).
pub open spec fn domain_of(h: Seq<char>) -> Seq<char> {
    let j = last_dot_before(h, h.len() as int);
    if j < 0 {
        h
    } else {
        h.subrange(last_dot_before(h, j) + 1, h.len() as int)
    }
}

/// Position of the last `.` in `s[0..end]`.
fn find_last_dot(s: &str, end: usize) -> (r: Option<usize>)
    requires
        end <= s@.len(),
    ensures
        match r {
            Some(i) => last_dot_before(s@, end as int) == i as int && i < end,
            None => last_dot_before(s@, end as int) == -1,
        },
{
    let mut k = end;
    while k > 0
        invariant
            k <= end <= s@.len(),
            last_dot_before(s@, end as int) == last_dot_before(s@, k as int),
        decreases k,
    {
        if s.get_char(k - 1) == '.' {
            return Some(k - 1);
        }
        k = k - 1;
    }
    None
}

/// The registrable domain of a host name: its last two labels.
pub fn extract_domain_from_hostname(hostname: &str) -> (d: String)
    ensures
        d@ == domain_of(hostname@),
{
    let n = hostname.unicode_len();
    match find_last_dot(hostname, n) {
        None => substring(hostname, 0, n),
        Some(j) => {
            let start = match find_last_dot(hostname, j) {
                Some(i) => i + 1,
                None => 0,
            };
            substring(hostname, start, n)
        },
    }
}

/// The registrable domain of a host name, taking the name by value.
pub fn get_domain_from_hostname(hostname: String) -> (d: String)
    ensures
        d@ == domain_of(hostname@),
{
    extract_domain_from_hostname(hostname.as_str())
}

/// Local and loopback addresses are not tracked as hosts: loopback, and
/// IPv4 addresses whose text starts with `192.168.`, `10.` or `172.`.
pub open spec fn skipped_host(ip: IpAddress) -> bool {
    match ip {
        IpAddress::V4(a, b, c, d) => a == 127 || has_prefix(ip_text(ip), "192.168."@)
            || has_prefix(ip_text(ip), "10."@) || has_prefix(ip_text(ip), "172."@),
        IpAddress::V6(bytes) => is_v6_loopback(bytes),
    }
}

/// Whether traffic with this address is left out of the host table.
pub fn is_skipped_host(ip: &IpAddress) -> (b: bool)
    ensures
        b == skipped_host(*ip),
{
    match ip {
        IpAddress::V4(a, _, _, _) => {
            let text = ip_to_string(ip);
            let t = text.as_str();
            *a == 127 || starts_with(t, "192.168.") || starts_with(t, "10.") || starts_with(t, "172.")
        },
        IpAddress::V6(bytes) => v6_loopback(bytes),
    }
}

/// Addresses whose names the capture prototype looks up: neither loopback
/// nor a private IPv4 address (10/8, 172.16/12, 192.168/16).
pub open spec fn resolvable_host(ip: IpAddress) -> bool {
    match ip {
        IpAddress::V4(a, b, c, d) => !(a == 127 || a == 10 || (a == 172 && 16 <= b <= 31) || (a == 192 && b == 168)),
        IpAddress::V6(bytes) => !is_v6_loopback(bytes),
    }
}

/// Whether the capture prototype looks this address's name up.
pub fn is_resolvable_host(ip: &IpAddress) -> (b: bool)
    ensures
        b == resolvable_host(*ip),
{
    match ip {
        IpAddress::V4(a, b, _, _) => !(*a == 127 || *a == 10 || (*a == 172 && 16 <= *b && *b <= 31) || (*a == 192 && *b == 168)),
        IpAddress::V6(bytes) => !v6_loopback(bytes),
    }
}

/// Sum of the character codes of a text.
pub open spec fn char_code_sum(s: Seq<char>) -> int
    decreases s.len(),
{
    if s.len() == 0 {
        0
    } else {
        char_code_sum(s.drop_last()) + (s.last() as u32) as int
    }
}

/// The fallback origins, picked by the address text's character-code sum.
pub open spec fn fallback_origin(k: int) -> (Seq<char>, Seq<char>, Seq<char>) {
    if k == 0 {
        ("US"@, "United States"@, "AS7922 Comcast"@)
    } else if k == 1 {
        ("CA"@, "Canada"@, "AS812 Rogers"@)
    } else if k == 2 {
        ("GB"@, "United Kingdom"@, "AS2856 BT"@)
    } else if k == 3 {
        ("DE"@, "Germany"@, "AS3320 Deutsche Telekom"@)
    } else if k == 4 {
        ("FR"@, "France"@, "AS3215 Orange"@)
    } else if k == 5 {
        ("JP"@, "Japan"@, "AS2516 KDDI"@)
    } else if k == 6 {
        ("AU"@, "Australia"@, "AS1221 Telstra"@)
    } else {
        ("BR"@, "Brazil"@, "AS7738 Telecom Brasil"@)
    }
}

/// The guessed `(country, country code, ASN)` for an address text.
pub open spec fn guessed_origin(ip: Seq<char>, loopback: bool) -> (Seq<char>, Seq<char>, Seq<char>) {
    if has_prefix(ip, "8.8.8"@) || has_prefix(ip, "8.8.4"@) {
        ("United States"@, "US"@, "AS15169 Google LLC"@)
    } else if has_prefix(ip, "1.1.1"@) || has_prefix(ip, "1.0.0"@) {
        ("United States"@, "US"@, "AS13335 Cloudflare"@)
    } else if has_prefix(ip, "208.67.222"@) || has_prefix(ip, "208.67.220"@) {
        ("United States"@, "US"@, "AS36692 OpenDNS"@)
    } else if has_prefix(ip, "40."@) || has_prefix(ip, "52."@) || has_prefix(ip, "13."@) {
        ("United States"@, "US"@, "AS8075 Microsoft"@)
    } else if has_prefix(ip, "54."@) || has_prefix(ip, "3."@) {
        ("United States"@, "US"@, "AS16509 Amazon"@)
    } else if has_prefix(ip, "185."@) || has_prefix(ip, "31."@) {
        ("Germany"@, "DE"@, "AS3320 Deutsche Telekom"@)
    } else if loopback || has_prefix(ip, "192.168."@) || has_prefix(ip, "10."@) || has_prefix(ip, "172."@) {
        ("Local Network"@, "XX"@, "Private"@)
    } else {
        let f = fallback_origin(char_code_sum(ip) % 8);
        (f.1, f.0, f.2)
    }
}

/// A guessed origin as owned strings.
fn origin(country: &str, code: &str, asn: &str) -> (r: (Option<String>, Option<String>, Option<String>))
    ensures
        r.0 matches Some(x) && x@ == country@,
        r.1 matches Some(x) && x@ == code@,
        r.2 matches Some(x) && x@ == asn@,
{
    (Some(String::from_str(country)), Some(String::from_str(code)), Some(String::from_str(asn)))
}

/// The `(country, country code, ASN)` guessed for an address from a few
/// well-known ranges; other addresses get one of eight fallback origins
/// picked by the sum of the text's character codes. Always gives a guess.
pub fn lookup_geolocation(ip_str: &str, is_loopback: bool) -> (r: Option<(Option<String>, Option<String>, Option<String>)>)
    requires
        char_code_sum(ip_str@) <= u32::MAX,
    ensures
        r matches Some((Some(c), Some(k), Some(a))) && ({
            let g = guessed_origin(ip_str@, is_loopback);
            c@ == g.0 && k@ == g.1 && a@ == g.2
        }),
{
    let ip = ip_str;
    if starts_with(ip, "8.8.8") || starts_with(ip, "8.8.4") {
        return Some(origin("United States", "US", "AS15169 Google LLC"));
    }
    if starts_with(ip, "1.1.1") || starts_with(ip, "1.0.0") {
        return Some(origin("United States", "US", "AS13335 Cloudflare"));
    }
    if starts_with(ip, "208.67.222") || starts_with(ip, "208.67.220") {
        return Some(origin("United States", "US", "AS36692 OpenDNS"));
    }
    if starts_with(ip, "40.") || starts_with(ip, "52.") || starts_with(ip, "13.") {
        return Some(origin("United States", "US", "AS8075 Microsoft"));
    }
    if starts_with(ip, "54.") || starts_with(ip, "3.") {
        return Some(origin("United States", "US", "AS16509 Amazon"));
    }
    if starts_with(ip, "185.") || starts_with(ip, "31.") {
        return Some(origin("Germany", "DE", "AS3320 Deutsche Telekom"));
    }
    if is_loopback || starts_with(ip, "192.168.") || starts_with(ip, "10.") || starts_with(ip, "172.") {
        return Some(origin("Local Network", "XX", "Private"));
    }
    let n = ip.unicode_len();
    let mut sum: u64 = 0;
    let mut i: usize = 0;
    while i < n
        invariant
            n == ip@.len(),
            i <= n,
            char_code_sum(ip@) <= u32::MAX,
            sum == char_code_sum(ip@.take(i as int)),
        decreases n - i,
    {
        proof {
            assert(ip@.take(i as int + 1).drop_last() =~= ip@.take(i as int));
            lemma_char_code_sum_prefix_le(ip@, i as int + 1);
        }
        let c = ip.get_char(i);
        sum = sum + c as u32 as u64;
        i = i + 1;
    }
    proof {
        assert(ip@.take(n as int) =~= ip@);
    }
    let k = sum % 8;
    if k == 0 {
        Some(origin("United States", "US", "AS7922 Comcast"))
    } else if k == 1 {
        Some(origin("Canada", "CA", "AS812 Rogers"))
    } else if k == 2 {
        Some(origin("United Kingdom", "GB", "AS2856 BT"))
    } else if k == 3 {
        Some(origin("Germany", "DE", "AS3320 Deutsche Telekom"))
    } else if k == 4 {
        Some(origin("France", "FR", "AS3215 Orange"))
    } else if k == 5 {
        Some(origin("Japan", "JP", "AS2516 KDDI"))
    } else if k == 6 {
        Some(origin("Australia", "AU", "AS1221 Telstra"))
    } else {
        Some(origin("Brazil", "BR", "AS7738 Telecom Brasil"))
    }
}

/// Character-code sums only grow along prefixes.
pub proof fn lemma_char_code_sum_prefix_le(s: Seq<char>, i: int)
    requires
        0 <= i <= s.len(),
    ensures
        0 <= char_code_sum(s.take(i)) <= char_code_sum(s),
    decreases s.len() - i,
{
    if i == s.len() {
        assert(s.take(i) =~= s);
        lemma_char_code_sum_nonneg(s);
    } else {
        lemma_char_code_sum_prefix_le(s, i + 1);
        assert(s.take(i + 1).drop_last() =~= s.take(i));
        lemma_char_code_sum_nonneg(s.take(i));
    }
}

/// Character-code sums are never negative.
pub proof fn lemma_char_code_sum_nonneg(s: Seq<char>)
    ensures
        char_code_sum(s) >= 0,
    decreases s.len(),
{
    if s.len() > 0 {
        lemma_char_code_sum_nonneg(s.drop_last());
    }
}

} // verus!
