use innomonitor::traffic_monitor::deduplication::{PacketDedup, ExpiringSignatures, SIGNATURE_EXPIRY};

#[test]
fn registered_packet_is_duplicate_until_cleaned() {
    let mut d = PacketDedup::new();
    assert!(!d.is_duplicate_packet("a"));
    d.register_packet_at("a".to_string(), "eth0".to_string(), 100);
    d.register_packet_at("b".to_string(), "wlan0".to_string(), 105);
    assert!(d.is_duplicate_packet("a"));
    assert!(d.is_duplicate_packet("b"));
    // at 109 the cutoff is 99: both stay
    d.cleanup_old_signatures_at(109);
    assert!(d.is_duplicate_packet("a") && d.is_duplicate_packet("b"));
    // at 110 the cutoff is 100: "a" (seen at 100) goes, "b" stays
    d.cleanup_old_signatures_at(110);
    assert!(!d.is_duplicate_packet("a"));
    assert!(d.is_duplicate_packet("b"));
    assert_eq!(d.entries.len(), 1);
}

#[test]
fn packet_registered_now_is_duplicate() {
    let mut d = PacketDedup::new();
    d.register_packet("sig".to_string(), "eth0".to_string());
    assert!(d.is_duplicate_packet("sig"));
    d.cleanup_old_signatures();
    assert!(d.is_duplicate_packet("sig"));
}

#[test]
fn signatures_expire() {
    let mut t = ExpiringSignatures::new();
    assert!(t.admit_packet("x".to_string(), 1000));
    assert!(!t.admit_packet("x".to_string(), 1001));
    assert!(t.is_duplicate_packet("x", 1000 + SIGNATURE_EXPIRY - 1));
    assert!(!t.is_duplicate_packet("x", 1000 + SIGNATURE_EXPIRY));
    t.cleanup_packet_signatures_at(1000 + SIGNATURE_EXPIRY - 1);
    assert_eq!(t.entries.len(), 1);
    t.cleanup_packet_signatures_at(1000 + SIGNATURE_EXPIRY);
    assert_eq!(t.entries.len(), 0);
    assert!(t.admit_packet("x".to_string(), 2000));
}

#[test]
fn registered_signature_keeps_its_expiry() {
    let mut t = ExpiringSignatures::new();
    t.register_packet_signature("y".to_string(), 50);
    assert!(t.is_duplicate_packet("y", 49));
    assert!(!t.is_duplicate_packet("y", 50));
    assert!(!t.is_duplicate_packet("z", 0));
}
