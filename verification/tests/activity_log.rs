use innomonitor::activity::log_file::{encrypt_string, encrypt_with_nonce, decrypt_string, encrypted_record, is_log_file_valid, read_log_lines};
use innomonitor::activity::line::LogLine;
use innomonitor::activity::timeline::{aggregate_log_results, log_file_day, build_day_timeline, EventKind, TimelineEvent};

const KEY: [u8; 32] = [7u8; 32];

fn log_of(lines: &[&str]) -> Vec<u8> {
    let mut content = Vec::new();
    for l in lines {
        content.extend(encrypted_record(l, &KEY).unwrap());
    }
    content
}

fn ev(start: i64, end: i64, kind: EventKind) -> TimelineEvent {
    TimelineEvent { start, end, kind }
}

#[test]
fn encryption_round_trip() {
    let (data, nonce) = encrypt_string("hello", &KEY).unwrap();
    assert_eq!(&data[0..4], &[21, 0, 0, 0]);
    assert_eq!(data.len(), 4 + 5 + 16);
    let sealed = data[4..].to_vec();
    assert_ne!(&sealed[0..5], b"hello");
    assert_eq!(decrypt_string(sealed.clone(), &KEY, &nonce).unwrap(), "hello");
    assert!(decrypt_string(sealed, &[8u8; 32], &nonce).is_err());
}

#[test]
fn fresh_nonces_differ() {
    let (_, n1) = encrypt_string("x", &KEY).unwrap();
    let (_, n2) = encrypt_string("x", &KEY).unwrap();
    assert_ne!(n1, n2);
}

#[test]
fn appended_records_read_back() {
    let content = log_of(&["Active time 1010 - 1000\n", "Time Sync error\n"]);
    assert!(is_log_file_valid(&content, &KEY));
    assert_eq!(read_log_lines(&content, &KEY).unwrap(), vec!["Active time 1010 - 1000\n", "Time Sync error\n"]);
    assert!(is_log_file_valid(&[], &KEY));
}

#[test]
fn damaged_logs() {
    let content = log_of(&["Active time 1010 - 1000\n", "Time Sync error\n"]);
    let cut = &content[..content.len() - 1];
    assert!(!is_log_file_valid(cut, &KEY));
    // reading stops at the incomplete record
    assert_eq!(read_log_lines(cut, &KEY).unwrap(), vec!["Active time 1010 - 1000\n"]);
    assert!(!is_log_file_valid(&content, &[1u8; 32]));
    assert_eq!(read_log_lines(&content, &[1u8; 32]).unwrap_err(), "Decryption failed: Unspecified");
    assert_eq!(aggregate_log_results(&content, &[1u8; 32], 0, 10).unwrap_err(), "Decryption failed: Unspecified");
}

#[test]
fn day_report_from_lines() {
    let lines = vec![
        LogLine::Active { end: 1010, start: 1000 },
        LogLine::Active { end: 1020, start: 1000 },
        LogLine::Inactive { end: 1500, start: 1020 },
        LogLine::Active { end: 1600, start: 1500 },
        LogLine::Other,
    ];
    let r = build_day_timeline(&lines, 900, 2000);
    assert_eq!(r, vec![
        ev(900, 1000, EventKind::NotRun),
        ev(1000, 1020, EventKind::Active),
        ev(1020, 1500, EventKind::Inactive),
        ev(1500, 1600, EventKind::Active),
        ev(1600, 2000, EventKind::NotRun),
    ]);
    // clipped to the day
    let r = build_day_timeline(&lines, 1010, 1550);
    assert_eq!(r, vec![
        ev(1010, 1020, EventKind::Active),
        ev(1020, 1500, EventKind::Inactive),
        ev(1500, 1550, EventKind::Active),
    ]);
    assert_eq!(build_day_timeline(&vec![], 0, 100), vec![ev(0, 100, EventKind::NotRun)]);
    assert_eq!(EventKind::NotRun.label(), "Not run");
}

#[test]
fn day_report_from_log() {
    let content = log_of(&["Active time 1010 - 1000\n", "Inactive time over 5seconds 1500 - 1010\n"]);
    let r = aggregate_log_results(&content, &KEY, 1000, 1500).unwrap();
    assert_eq!(r, vec![ev(1000, 1010, EventKind::Active), ev(1010, 1500, EventKind::Inactive)]);
}

#[test]
fn encryption_under_a_given_nonce_matches_aes_gcm_vectors() {
    let key = [0u8; 32];
    let empty = encrypt_with_nonce("", &key, [0u8; 12]).unwrap();
    assert_eq!(empty, vec![16, 0, 0, 0, 0x53, 0x0f, 0x8a, 0xfb, 0xc7, 0x45, 0x36, 0xb9, 0xa9, 0x63, 0xb4, 0xf1, 0xc4, 0xcb, 0x73, 0x8b]);
    let zeros = std::str::from_utf8(&[0u8; 16]).unwrap();
    let block = encrypt_with_nonce(zeros, &key, [0u8; 12]).unwrap();
    assert_eq!(block, vec![32, 0, 0, 0,
        0xce, 0xa7, 0x40, 0x3d, 0x4d, 0x60, 0x6b, 0x6e, 0x07, 0x4e, 0xc5, 0xd3, 0xba, 0xf3, 0x9d, 0x18,
        0xd0, 0xd1, 0xc8, 0xa7, 0x99, 0x99, 0x6b, 0xf0, 0x26, 0x5b, 0x98, 0xb5, 0xd4, 0x8a, 0xb9, 0x19]);
}

#[test]
fn encrypted_record_starts_with_its_nonce() {
    let rec = encrypted_record("hello", &KEY).unwrap();
    let mut nonce = [0u8; 12];
    nonce.copy_from_slice(&rec[0..12]);
    assert_eq!(rec[12..].to_vec(), encrypt_with_nonce("hello", &KEY, nonce).unwrap());
}

#[test]
fn log_file_names_give_their_day() {
    // 2024-01-01 is day 738886 counted from the Common Era
    assert_eq!(log_file_day("rs-fairsight(2024-01-01).txt").unwrap(), 738886);
    assert_eq!(log_file_day("rs-fairsight(2024-01-02).txt").unwrap(), 738887);
    assert_eq!(log_file_day("network-2024-01-01.json").unwrap_err(), "Invalid filename format");
    assert!(log_file_day("rs-fairsight(2024-13-01).txt").is_err());
}
