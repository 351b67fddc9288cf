use innomonitor::activity::tracker::{initialize_time_tracking, BackupCounter};
use innomonitor::activity::line::{classify_line, LogLine};
use innomonitor::activity::input::{counts_as_activity, keyboard_hook_counts, mouse_hook_counts, InputEvent, WM_KEYDOWN};

#[test]
fn tracker_writes_active_line_then_inactive_after_long_pause() {
    let mut t = initialize_time_tracking(1000);
    let m = t.update_track_time(1010);
    assert_eq!(m.as_deref(), Some("Active time 1010 - 1000\n"));
    t.message_written(1010);
    let m = t.update_track_time(1500);
    assert_eq!(m.as_deref(), Some("Inactive time over 5seconds 1500 - 1010\n"));
    t.message_written(1500);
    assert_eq!(t.last_tracked_active_start_time, 1500);
}

#[test]
fn tracker_reports_clock_going_back() {
    let mut t = initialize_time_tracking(1000);
    assert_eq!(t.update_track_time(999).as_deref(), Some("Time Sync error\n"));
}

#[test]
fn tracker_writes_nothing_for_repeated_time() {
    let mut t = initialize_time_tracking(1000);
    assert_eq!(t.update_track_time(1000), None);
    assert_eq!(t.last_tracked_inactive_time, 1000);
}

#[test]
fn backup_due_every_tenth_message() {
    let mut c = BackupCounter::new();
    let mut due = Vec::new();
    for _ in 0..20 {
        due.push(c.should_create_backup());
    }
    assert!(due[9] && due[19]);
    assert_eq!(due.iter().filter(|b| **b).count(), 2);
    assert_eq!(c.get_current_backup_count(), 20);
}

#[test]
fn written_lines_read_back() {
    assert_eq!(classify_line("Active time 1010 - 1000\n"), LogLine::Active { end: 1010, start: 1000 });
    assert_eq!(classify_line("Inactive time over 5seconds 1500 - 1010\n"), LogLine::Inactive { end: 1500, start: 1010 });
    assert_eq!(classify_line("Time Sync error\n"), LogLine::Other);
    assert_eq!(classify_line("Active time 1 - 2 - 3"), LogLine::Other);
    assert_eq!(classify_line("Active time x - 2"), LogLine::Other);
}

#[test]
fn presses_moves_and_scrolls_count_as_activity() {
    assert!(counts_as_activity(InputEvent::KeyDown));
    assert!(counts_as_activity(InputEvent::MouseMoved));
    assert!(counts_as_activity(InputEvent::LeftMouseDown));
    assert!(counts_as_activity(InputEvent::RightMouseDown));
    assert!(counts_as_activity(InputEvent::OtherMouseDown));
    assert!(counts_as_activity(InputEvent::ScrollWheel));
    assert!(!counts_as_activity(InputEvent::KeyUp));
    assert!(!counts_as_activity(InputEvent::LeftMouseUp));
    assert!(!counts_as_activity(InputEvent::Other));
}

#[test]
fn hook_codes_decide_activity() {
    assert!(keyboard_hook_counts(0, WM_KEYDOWN));
    assert!(!keyboard_hook_counts(-1, WM_KEYDOWN));
    assert!(!keyboard_hook_counts(0, 0x0101));
    assert!(mouse_hook_counts(0));
    assert!(mouse_hook_counts(3));
    assert!(!mouse_hook_counts(-1));
}
