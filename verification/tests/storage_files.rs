use chrono::Datelike;
use innomonitor::network_storage::types::DailyNetworkSummary;
use innomonitor::network_storage::manager::NetworkStorageManager;
use innomonitor::network_storage::files::{FIRST_DAY, LAST_DAY, BackupEntry, summary_file_name, backup_file_name, file_date, sort_by_date};
use innomonitor::network_storage::retention::{SummaryRead, DatedBackup, BACKUPS_KEPT, BACKUP_RETENTION};

fn files_manager() -> NetworkStorageManager {
    NetworkStorageManager::new("/tmp/store".to_string(), "/tmp/store/backups".to_string())
}

fn names(v: &[&str]) -> Vec<String> {
    v.iter().map(|s| s.to_string()).collect()
}

fn day(date: &str, incoming: u64) -> DailyNetworkSummary {
    let mut d = DailyNetworkSummary::empty(date.to_string());
    d.total_incoming_bytes = incoming;
    d
}

#[test]
fn file_names() {
    assert_eq!(summary_file_name("2024-01-02"), "network-2024-01-02.json");
    assert_eq!(backup_file_name("2024-01-02", "20240103_101010"), "network-2024-01-02.json.backup_20240103_101010");
    assert_eq!(file_date("network-2024-01-02.json").as_deref(), Some("2024-01-02"));
    assert_eq!(file_date("network-2024-01-02.json.backup_1"), None);
    assert_eq!(file_date("state.json"), None);
}

#[test]
fn available_dates_are_sorted() {
    let files = names(&["network-2024-02-01.json", "readme.txt", "network-2023-12-31.json", "network-2024-01-15.json"]);
    assert_eq!(files_manager().get_available_dates(&files), vec!["2023-12-31", "2024-01-15", "2024-02-01"]);
}

#[test]
fn old_backups_beyond_the_newest_are_removed() {
    let entries = vec![
        BackupEntry { name: "network-2024-01-01.json.backup_a".to_string(), modified: 10 },
        BackupEntry { name: "network-2024-01-01.json.backup_b".to_string(), modified: 30 },
        BackupEntry { name: "network-2024-01-02.json.backup_c".to_string(), modified: 50 },
        BackupEntry { name: "network-2024-01-01.json.backup_d".to_string(), modified: 20 },
    ];
    let doomed = files_manager().cleanup_old_backups("2024-01-01", entries, 2);
    assert_eq!(doomed, vec!["network-2024-01-01.json.backup_a"]);
    assert!(BACKUPS_KEPT == 5);
}

#[test]
fn restore_picks_the_newest_backup() {
    let m = files_manager();
    let entries = vec![
        BackupEntry { name: "network-2024-01-01.json.backup_a".to_string(), modified: 10 },
        BackupEntry { name: "network-2024-01-01.json.backup_b".to_string(), modified: 30 },
    ];
    let (b, f, t) = m.restore_from_backup("2024-01-01", entries).unwrap();
    assert_eq!(b, "network-2024-01-01.json.backup_b");
    assert_eq!(f, "network-2024-01-01.json");
    assert_eq!(t, "network-2024-01-01.json.tmp");
    assert_eq!(m.restore_from_backup("2024-01-05", vec![]).unwrap_err(), "No backup files found for date: 2024-01-05");
}

#[test]
fn backup_time_stamps() {
    let m = files_manager();
    let name = "network-2024-01-01.json.backup_20240102_030405";
    assert_eq!(m.backup_timestamp_part(name, "2024-06-01").as_deref(), Some("20240102_030405"));
    assert_eq!(m.backup_timestamp_part(name, "2024-01-01"), None);
    assert_eq!(m.backup_timestamp_part("network-2024-01-01.json", "2024-06-01"), None);
    assert_eq!(m.backup_time(name, "2024-06-01"), Some(1704164645));
    assert_eq!(m.backup_time("network-2024-01-01.json.backup_garbage", "2024-06-01"), None);
}

#[test]
fn date_ranges() {
    let m = files_manager();
    assert_eq!(m.get_date_range("2024-02-28", "2024-03-01").unwrap(), vec!["2024-02-28", "2024-02-29", "2024-03-01"]);
    assert_eq!(m.get_date_range("2024-03-01", "2024-02-28").unwrap(), Vec::<String>::new());
    assert!(m.get_date_range("yesterday", "2024-03-01").unwrap_err().starts_with("Invalid start date format: "));
    assert!(m.get_date_range("2024-03-01", "2024-13-01").unwrap_err().starts_with("Invalid end date format: "));
}

#[test]
fn date_range_data_fills_missing_days() {
    let m = files_manager();
    let stored = vec![("2024-01-02".to_string(), day("2024-01-02", 42))];
    let r = m.get_date_range_data("2024-01-01", "2024-01-03", &stored).unwrap();
    assert_eq!(r.len(), 3);
    assert_eq!(r[0].date, "2024-01-01");
    assert_eq!(r[0].total_incoming_bytes, 0);
    assert_eq!(r[1].total_incoming_bytes, 42);
    assert_eq!(r[2].date, "2024-01-03");
    assert!(r[2].sessions.is_empty());
}

#[test]
fn loading_a_summary() {
    let m = files_manager();
    assert_eq!(m.load_daily_summary(SummaryRead::Missing).unwrap_err(), "Daily summary not found");
    assert_eq!(m.load_daily_summary(SummaryRead::Unreadable("denied".to_string())).unwrap_err(),
        "Failed to read daily summary: denied");
    assert_eq!(m.load_daily_summary(SummaryRead::Unparsable("eof".to_string())).unwrap_err(),
        "Failed to parse daily summary: eof");
    assert_eq!(m.load_daily_summary(SummaryRead::Parsed(day("2024-01-01", 5))).unwrap().total_incoming_bytes, 5);
    assert_eq!(m.summary_or_empty(None, "2024-01-09".to_string()).date, "2024-01-09");
}

#[test]
fn expired_summary_files() {
    let m = files_manager();
    let files = names(&["network-2024-01-01.json", "network-2024-01-10.json", "notes.txt", "network-bad.json"]);
    // 2024-01-10T00:00:00Z
    let now = 1704844800;
    assert_eq!(m.cleanup_old_data_at(&files, now, 0, 5).unwrap(), vec!["network-2024-01-01.json"]);
    // the cutoff falls exactly on midnight of 2024-01-01: older only with a fraction of a second more
    assert_eq!(m.cleanup_old_data_at(&files, now, 0, 9).unwrap(), Vec::<String>::new());
    assert_eq!(m.cleanup_old_data_at(&files, now, 1, 9).unwrap(), vec!["network-2024-01-01.json"]);
    assert_eq!(m.cleanup_old_data_at(&files, 0, 0, u32::MAX).unwrap_err(), "Date calculation overflow");
    let r = m.cleanup_old_data(&files, 36500).unwrap();
    assert!(r.is_empty());
}

#[test]
fn backups_taken_and_expired() {
    let m = files_manager();
    let (name, temp) = m.create_backup("2024-01-01", true, "20240102_030405").unwrap();
    assert_eq!(name, "network-2024-01-01.json.backup_20240102_030405");
    assert_eq!(temp, "network-2024-01-01.json.backup_20240102_030405.tmp");
    assert_eq!(m.create_backup("2024-01-01", false, "20240102_030405"), None);
    let now = 1_000_000;
    let backups = vec![
        DatedBackup { name: "old".to_string(), taken_at: Some(now - BACKUP_RETENTION - 1) },
        DatedBackup { name: "edge".to_string(), taken_at: Some(now - BACKUP_RETENTION) },
        DatedBackup { name: "unknown".to_string(), taken_at: None },
    ];
    assert_eq!(m.daily_backup_cleanup(&backups, now, 0), vec!["old"]);
    assert_eq!(m.daily_backup_cleanup(&backups, now, 5), vec!["old", "edge"]);
}

#[test]
fn history_gains_missing_days_and_is_sorted() {
    let m = files_manager();
    let data = vec![day("2024-01-02", 2), day("2024-01-01", 1)];
    let extra = vec![day("2024-01-01", 100), day("2024-01-03", 3)];
    let r = m.merge_history(data, extra);
    let dates: Vec<&str> = r.iter().map(|d| d.date.as_str()).collect();
    assert_eq!(dates, vec!["2024-01-01", "2024-01-02", "2024-01-03"]);
    assert_eq!(r[0].total_incoming_bytes, 1);
    let sorted = sort_by_date(vec![day("b", 1), day("a", 2), day("b", 3)]);
    let v: Vec<u64> = sorted.iter().map(|d| d.total_incoming_bytes).collect();
    assert_eq!(v, vec![2, 1, 3]);
}

#[test]
fn chrono_date_range_bounds() {
    assert_eq!(chrono::NaiveDate::MIN.num_days_from_ce(), FIRST_DAY);
    assert_eq!(chrono::NaiveDate::MAX.num_days_from_ce(), LAST_DAY);
    let m = files_manager();
    let none: Vec<String> = Vec::new();
    // the last second chrono represents, and one past it
    let last: i64 = (LAST_DAY as i64 - 719163) * 86400 + 86399;
    assert!(m.cleanup_old_data_at(&none, last, 999_999_999, 0).is_ok());
    assert!(m.cleanup_old_data_at(&none, last + 1, 0, 0).is_err());
    // the first midnight chrono represents: no whole day can be taken off it
    let first: i64 = (FIRST_DAY as i64 - 719163) * 86400;
    assert!(m.cleanup_old_data_at(&none, first, 0, 0).is_ok());
    assert!(m.cleanup_old_data_at(&none, first, 0, 1).is_err());
    assert!(m.cleanup_old_data_at(&none, first + 86400, 0, 1).is_ok());
}
