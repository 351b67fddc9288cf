//! Names of well-known services by protocol and port, and the per-service
//! traffic table.
use vstd::prelude::*;
use crate::text::str_eq;

verus! {

/// The basic service table: common internet services by protocol and port.
pub open spec fn service_name(protocol: Seq<char>, port: u16) -> Option<Seq<char>> {
    let tcp = protocol == "TCP"@;
    let udp = protocol == "UDP"@;
    if tcp && port == 80 {
        Some("HTTP"@)
    } else if tcp && port == 443 {
        Some("HTTPS"@)
    } else if (tcp || udp) && port == 53 {
        Some("DNS"@)
    } else if tcp && port == 22 {
        Some("SSH"@)
    } else if tcp && port == 21 {
        Some("FTP"@)
    } else if tcp && port == 25 {
        Some("SMTP"@)
    } else if tcp && port == 993 {
        Some("IMAPS"@)
    } else if tcp && port == 995 {
        Some("POP3S"@)
    } else if udp && port == 123 {
        Some("NTP"@)
    } else if tcp && port == 3389 {
        Some("RDP"@)
    } else if tcp && port == 23 {
        Some("Telnet"@)
    } else if udp && port == 67 {
        Some("DHCP"@)
    } else if udp && port == 68 {
        Some("DHCP"@)
    } else if tcp && port == 110 {
        Some("POP3"@)
    } else if tcp && port == 143 {
        Some("IMAP"@)
    } else if tcp && port == 5432 {
        Some("PostgreSQL"@)
    } else if tcp && port == 3306 {
        Some("MySQL"@)
    } else if tcp && port == 1433 {
        Some("MSSQL"@)
    } else if tcp && port == 6379 {
        Some("Redis"@)
    } else if tcp && port == 27017 {
        Some("MongoDB"@)
    } else if tcp && port == 1521 {
        Some("Oracle"@)
    } else if tcp && port == 5984 {
        Some("CouchDB"@)
    } else if udp && port == 161 {
        Some("SNMP"@)
    } else if tcp && port == 8080 {
        Some("HTTP-Alt"@)
    } else if tcp && port == 8443 {
        Some("HTTPS-Alt"@)
    } else {
        None
    }
}

/// The well-known service on a port, for `TCP` and `UDP` traffic.
pub fn get_service_name(protocol: &str, port: u16) -> (r: Option<String>)
    ensures
        match r { Some(s) => service_name(protocol@, port) == Some(s@), None => service_name(protocol@, port) is None },
{
    let tcp = str_eq(protocol, "TCP");
    let udp = str_eq(protocol, "UDP");
    if tcp && port == 80 {
        Some(String::from_str("HTTP"))
    } else if tcp && port == 443 {
        Some(String::from_str("HTTPS"))
    } else if (tcp || udp) && port == 53 {
        Some(String::from_str("DNS"))
    } else if tcp && port == 22 {
        Some(String::from_str("SSH"))
    } else if tcp && port == 21 {
        Some(String::from_str("FTP"))
    } else if tcp && port == 25 {
        Some(String::from_str("SMTP"))
    } else if tcp && port == 993 {
        Some(String::from_str("IMAPS"))
    } else if tcp && port == 995 {
        Some(String::from_str("POP3S"))
    } else if udp && port == 123 {
        Some(String::from_str("NTP"))
    } else if tcp && port == 3389 {
        Some(String::from_str("RDP"))
    } else if tcp && port == 23 {
        Some(String::from_str("Telnet"))
    } else if udp && port == 67 {
        Some(String::from_str("DHCP"))
    } else if udp && port == 68 {
        Some(String::from_str("DHCP"))
    } else if tcp && port == 110 {
        Some(String::from_str("POP3"))
    } else if tcp && port == 143 {
        Some(String::from_str("IMAP"))
    } else if tcp && port == 5432 {
        Some(String::from_str("PostgreSQL"))
    } else if tcp && port == 3306 {
        Some(String::from_str("MySQL"))
    } else if tcp && port == 1433 {
        Some(String::from_str("MSSQL"))
    } else if tcp && port == 6379 {
        Some(String::from_str("Redis"))
    } else if tcp && port == 27017 {
        Some(String::from_str("MongoDB"))
    } else if tcp && port == 1521 {
        Some(String::from_str("Oracle"))
    } else if tcp && port == 5984 {
        Some(String::from_str("CouchDB"))
    } else if udp && port == 161 {
        Some(String::from_str("SNMP"))
    } else if tcp && port == 8080 {
        Some(String::from_str("HTTP-Alt"))
    } else if tcp && port == 8443 {
        Some(String::from_str("HTTPS-Alt"))
    } else {
        None
    }
}

/// The well-known-port table names each of these services by its protocol
/// and port: web (80, 443, 8080, 8443 over TCP), DNS (53 over TCP and UDP),
/// remote access (SSH 22, Telnet 23, RDP 3389), mail (SMTP 25, POP3 110,
/// IMAP 143, IMAPS 993, POP3S 995), file transfer (FTP 21), time and
/// addressing over UDP (NTP 123, DHCP 67 and 68, SNMP 161) and the common
/// databases over TCP.
pub proof fn lemma_well_known_services()
    ensures
        service_name("TCP"@, 80) == Some("HTTP"@),
        service_name("TCP"@, 443) == Some("HTTPS"@),
        service_name("TCP"@, 53) == Some("DNS"@),
        service_name("UDP"@, 53) == Some("DNS"@),
        service_name("TCP"@, 22) == Some("SSH"@),
        service_name("TCP"@, 21) == Some("FTP"@),
        service_name("TCP"@, 25) == Some("SMTP"@),
        service_name("TCP"@, 993) == Some("IMAPS"@),
        service_name("TCP"@, 995) == Some("POP3S"@),
        service_name("UDP"@, 123) == Some("NTP"@),
        service_name("TCP"@, 3389) == Some("RDP"@),
        service_name("TCP"@, 23) == Some("Telnet"@),
        service_name("UDP"@, 67) == Some("DHCP"@),
        service_name("UDP"@, 68) == Some("DHCP"@),
        service_name("TCP"@, 110) == Some("POP3"@),
        service_name("TCP"@, 143) == Some("IMAP"@),
        service_name("TCP"@, 5432) == Some("PostgreSQL"@),
        service_name("TCP"@, 3306) == Some("MySQL"@),
        service_name("TCP"@, 1433) == Some("MSSQL"@),
        service_name("TCP"@, 6379) == Some("Redis"@),
        service_name("TCP"@, 27017) == Some("MongoDB"@),
        service_name("TCP"@, 1521) == Some("Oracle"@),
        service_name("TCP"@, 5984) == Some("CouchDB"@),
        service_name("UDP"@, 161) == Some("SNMP"@),
        service_name("TCP"@, 8080) == Some("HTTP-Alt"@),
        service_name("TCP"@, 8443) == Some("HTTPS-Alt"@),
{
}

/// Only TCP and UDP traffic is named: for any other protocol and any port
/// there is no service name.
pub proof fn lemma_only_tcp_and_udp_are_named(protocol: Seq<char>, port: u16)
    requires
        protocol != "TCP"@,
        protocol != "UDP"@,
    ensures
        service_name(protocol, port) is None,
{
}


/// Only the ports of the table are named: a TCP port other than
/// 80, 443, 53, 22, 21, 25, 993, 995, 3389, 23, 110, 143, 5432, 3306, 1433, 6379, 27017, 1521, 5984, 8080, 8443, or a UDP port other than 53, 123, 67, 68, 161, has no service name.
pub proof fn lemma_unlisted_ports_are_unnamed(protocol: Seq<char>, port: u16)
    requires
        protocol == "TCP"@ ==> !(port == 80 || port == 443 || port == 53 || port == 22 || port == 21 || port == 25 || port == 993 || port == 995 || port == 3389 || port == 23 || port == 110 || port == 143 || port == 5432 || port == 3306 || port == 1433 || port == 6379 || port == 27017 || port == 1521 || port == 5984 || port == 8080 || port == 8443),
        protocol == "UDP"@ ==> !(port == 53 || port == 123 || port == 67 || port == 68 || port == 161),
    ensures
        service_name(protocol, port) is None,
{
    reveal_strlit("TCP");
    reveal_strlit("UDP");
    assert("TCP"@[0] != "UDP"@[0]);
}

} // verus!
