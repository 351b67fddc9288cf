//! The extended table of well-known services used by the adapter engine.
use vstd::prelude::*;
use crate::text::str_eq;

verus! {

/// The extended service table: the basic services plus many more registered ports.
pub open spec fn extended_service_name(protocol: Seq<char>, port: u16) -> Option<Seq<char>> {
    let tcp = protocol == "TCP"@;
    let udp = protocol == "UDP"@;
    if tcp && port == 80 {
        Some("HTTP"@)
    } else if tcp && port == 443 {
        Some("HTTPS"@)
    } else if (tcp || udp) && port == 53 {
        Some("DNS"@)
    } else if tcp && port == 22 {
        Some("SSH"@)
    } else if tcp && port == 21 {
        Some("FTP"@)
    } else if tcp && port == 25 {
        Some("SMTP"@)
    } else if tcp && port == 993 {
        Some("IMAPS"@)
    } else if tcp && port == 995 {
        Some("POP3S"@)
    } else if udp && port == 123 {
        Some("NTP"@)
    } else if tcp && port == 3389 {
        Some("RDP"@)
    } else if tcp && port == 23 {
        Some("Telnet"@)
    } else if (tcp || udp) && port == 20 {
        Some("FTP-Data"@)
    } else if tcp && port == 5 {
        Some("Remote Job Entry"@)
    } else if tcp && port == 7 {
        Some("Echo"@)
    } else if tcp && port == 9 {
        Some("Discard"@)
    } else if tcp && port == 11 {
        Some("Systat"@)
    } else if tcp && port == 13 {
        Some("Daytime"@)
    } else if tcp && port == 17 {
        Some("Quote of the Day"@)
    } else if tcp && port == 18 {
        Some("Message Send Protocol"@)
    } else if tcp && port == 42 {
        Some("Host Name Server"@)
    } else if tcp && port == 43 {
        Some("Whois"@)
    } else if tcp && port == 79 {
        Some("Finger"@)
    } else if tcp && port == 88 {
        Some("Kerberos"@)
    } else if tcp && port == 109 {
        Some("POP2"@)
    } else if tcp && port == 113 {
        Some("Ident"@)
    } else if tcp && port == 119 {
        Some("NNTP"@)
    } else if (tcp || udp) && port == 137 {
        Some("NetBIOS Name Service"@)
    } else if (tcp || udp) && port == 138 {
        Some("NetBIOS Datagram Service"@)
    } else if (tcp || udp) && port == 139 {
        Some("NetBIOS Session Service"@)
    } else if tcp && port == 161 {
        Some("SNMP"@)
    } else if tcp && port == 179 {
        Some("BGP"@)
    } else if tcp && port == 389 {
        Some("LDAP"@)
    } else if tcp && port == 445 {
        Some("Microsoft-DS"@)
    } else if tcp && port == 587 {
        Some("SMTP Submission"@)
    } else if tcp && port == 636 {
        Some("LDAPS"@)
    } else if tcp && port == 873 {
        Some("rsync"@)
    } else if tcp && port == 990 {
        Some("FTPS"@)
    } else if tcp && port == 1723 {
        Some("PPTP"@)
    } else if (tcp || udp) && port == 1812 {
        Some("RADIUS Authentication"@)
    } else if (tcp || udp) && port == 1813 {
        Some("RADIUS Accounting"@)
    } else if (tcp || udp) && port == 4500 {
        Some("IPsec NAT-T"@)
    } else if udp && port == 500 {
        Some("ISAKMP"@)
    } else if tcp && port == 5060 {
        Some("SIP"@)
    } else if udp && port == 5060 {
        Some("SIP"@)
    } else if tcp && port == 5061 {
        Some("SIPS"@)
    } else if (tcp || udp) && port == 1080 {
        Some("Socks Proxy"@)
    } else if tcp && port == 3128 {
        Some("HTTP Proxy"@)
    } else if tcp && port == 8000 {
        Some("HTTP-Alt"@)
    } else if tcp && port == 8080 {
        Some("HTTP-Alt"@)
    } else if tcp && port == 8443 {
        Some("HTTPS-Alt"@)
    } else if udp && port == 67 {
        Some("DHCP"@)
    } else if udp && port == 68 {
        Some("DHCP"@)
    } else if tcp && port == 110 {
        Some("POP3"@)
    } else if tcp && port == 143 {
        Some("IMAP"@)
    } else if tcp && port == 5432 {
        Some("PostgreSQL"@)
    } else if tcp && port == 3306 {
        Some("MySQL"@)
    } else if tcp && port == 1433 {
        Some("MSSQL"@)
    } else if tcp && port == 6379 {
        Some("Redis"@)
    } else if tcp && port == 27017 {
        Some("MongoDB"@)
    } else if tcp && port == 1521 {
        Some("Oracle"@)
    } else if tcp && port == 5984 {
        Some("CouchDB"@)
    } else if udp && port == 161 {
        Some("SNMP"@)
    } else if tcp && port == 8080 {
        Some("HTTP-Alt"@)
    } else if tcp && port == 8443 {
        Some("HTTPS-Alt"@)
    } else {
        None
    }
}

/// The well-known service on a port, for `TCP` and `UDP` traffic.
pub fn get_service_name(protocol: &str, port: u16) -> (r: Option<String>)
    ensures
        match r { Some(s) => extended_service_name(protocol@, port) == Some(s@), None => extended_service_name(protocol@, port) is None },
{
    let tcp = str_eq(protocol, "TCP");
    let udp = str_eq(protocol, "UDP");
    if tcp && port == 80 {
        Some(String::from_str("HTTP"))
    } else if tcp && port == 443 {
        Some(String::from_str("HTTPS"))
    } else if (tcp || udp) && port == 53 {
        Some(String::from_str("DNS"))
    } else if tcp && port == 22 {
        Some(String::from_str("SSH"))
    } else if tcp && port == 21 {
        Some(String::from_str("FTP"))
    } else if tcp && port == 25 {
        Some(String::from_str("SMTP"))
    } else if tcp && port == 993 {
        Some(String::from_str("IMAPS"))
    } else if tcp && port == 995 {
        Some(String::from_str("POP3S"))
    } else if udp && port == 123 {
        Some(String::from_str("NTP"))
    } else if tcp && port == 3389 {
        Some(String::from_str("RDP"))
    } else if tcp && port == 23 {
        Some(String::from_str("Telnet"))
    } else if (tcp || udp) && port == 20 {
        Some(String::from_str("FTP-Data"))
    } else if tcp && port == 5 {
        Some(String::from_str("Remote Job Entry"))
    } else if tcp && port == 7 {
        Some(String::from_str("Echo"))
    } else if tcp && port == 9 {
        Some(String::from_str("Discard"))
    } else if tcp && port == 11 {
        Some(String::from_str("Systat"))
    } else if tcp && port == 13 {
        Some(String::from_str("Daytime"))
    } else if tcp && port == 17 {
        Some(String::from_str("Quote of the Day"))
    } else if tcp && port == 18 {
        Some(String::from_str("Message Send Protocol"))
    } else if tcp && port == 42 {
        Some(String::from_str("Host Name Server"))
    } else if tcp && port == 43 {
        Some(String::from_str("Whois"))
    } else if tcp && port == 79 {
        Some(String::from_str("Finger"))
    } else if tcp && port == 88 {
        Some(String::from_str("Kerberos"))
    } else if tcp && port == 109 {
        Some(String::from_str("POP2"))
    } else if tcp && port == 113 {
        Some(String::from_str("Ident"))
    } else if tcp && port == 119 {
        Some(String::from_str("NNTP"))
    } else if (tcp || udp) && port == 137 {
        Some(String::from_str("NetBIOS Name Service"))
    } else if (tcp || udp) && port == 138 {
        Some(String::from_str("NetBIOS Datagram Service"))
    } else if (tcp || udp) && port == 139 {
        Some(String::from_str("NetBIOS Session Service"))
    } else if tcp && port == 161 {
        Some(String::from_str("SNMP"))
    } else if tcp && port == 179 {
        Some(String::from_str("BGP"))
    } else if tcp && port == 389 {
        Some(String::from_str("LDAP"))
    } else if tcp && port == 445 {
        Some(String::from_str("Microsoft-DS"))
    } else if tcp && port == 587 {
        Some(String::from_str("SMTP Submission"))
    } else if tcp && port == 636 {
        Some(String::from_str("LDAPS"))
    } else if tcp && port == 873 {
        Some(String::from_str("rsync"))
    } else if tcp && port == 990 {
        Some(String::from_str("FTPS"))
    } else if tcp && port == 1723 {
        Some(String::from_str("PPTP"))
    } else if (tcp || udp) && port == 1812 {
        Some(String::from_str("RADIUS Authentication"))
    } else if (tcp || udp) && port == 1813 {
        Some(String::from_str("RADIUS Accounting"))
    } else if (tcp || udp) && port == 4500 {
        Some(String::from_str("IPsec NAT-T"))
    } else if udp && port == 500 {
        Some(String::from_str("ISAKMP"))
    } else if tcp && port == 5060 {
        Some(String::from_str("SIP"))
    } else if udp && port == 5060 {
        Some(String::from_str("SIP"))
    } else if tcp && port == 5061 {
        Some(String::from_str("SIPS"))
    } else if (tcp || udp) && port == 1080 {
        Some(String::from_str("Socks Proxy"))
    } else if tcp && port == 3128 {
        Some(String::from_str("HTTP Proxy"))
    } else if tcp && port == 8000 {
        Some(String::from_str("HTTP-Alt"))
    } else if tcp && port == 8080 {
        Some(String::from_str("HTTP-Alt"))
    } else if tcp && port == 8443 {
        Some(String::from_str("HTTPS-Alt"))
    } else if udp && port == 67 {
        Some(String::from_str("DHCP"))
    } else if udp && port == 68 {
        Some(String::from_str("DHCP"))
    } else if tcp && port == 110 {
        Some(String::from_str("POP3"))
    } else if tcp && port == 143 {
        Some(String::from_str("IMAP"))
    } else if tcp && port == 5432 {
        Some(String::from_str("PostgreSQL"))
    } else if tcp && port == 3306 {
        Some(String::from_str("MySQL"))
    } else if tcp && port == 1433 {
        Some(String::from_str("MSSQL"))
    } else if tcp && port == 6379 {
        Some(String::from_str("Redis"))
    } else if tcp && port == 27017 {
        Some(String::from_str("MongoDB"))
    } else if tcp && port == 1521 {
        Some(String::from_str("Oracle"))
    } else if tcp && port == 5984 {
        Some(String::from_str("CouchDB"))
    } else if udp && port == 161 {
        Some(String::from_str("SNMP"))
    } else if tcp && port == 8080 {
        Some(String::from_str("HTTP-Alt"))
    } else if tcp && port == 8443 {
        Some(String::from_str("HTTPS-Alt"))
    } else {
        None
    }
}
} // verus!
