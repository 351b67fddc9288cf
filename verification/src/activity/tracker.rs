//! What the tracker writes for each input event, and when it backs up.
use vstd::prelude::*;
use crate::text::{dec, push_str, push_decimal, has_prefix};
use super::line::{LogLine, classify, lemma_line_shape, no_dash};

verus! {

/// Seconds without input after which the user counts as having been away.
pub const INACTIVE_TIME_PERIOD: u64 = 300;

/// A backup of the day's log is made every this many written messages.
pub const BACKUP_FREQUENCY: usize = 10;

/// The tracker's memory between events (all Unix seconds): the time of the
/// last handled event, and the start and end of the current active stretch.
pub struct TrackerState {
    pub last_tracked_inactive_time: u64,
    pub last_tracked_active_start_time: u64,
    pub last_tracked_active_end_time: u64,
}

/// The message written when the clock went backwards.
pub open spec fn sync_error_message() -> Seq<char> {
    "Time Sync error\n"@
}

/// The message written when input resumes after a long pause.
pub open spec fn inactive_message(now: u64, last: u64) -> Seq<char> {
    "Inactive time over 5seconds "@ + dec(now as nat) + " - "@ + dec(last as nat) + "\n"@
}

/// The message written while the user stays active.
pub open spec fn active_message(end: u64, start: u64) -> Seq<char> {
    "Active time "@ + dec(end as nat) + " - "@ + dec(start as nat) + "\n"@
}

/// A tracker whose three times are all `now`.
pub fn initialize_time_tracking(now: u64) -> (s: TrackerState)
    ensures
        s.last_tracked_inactive_time == now,
        s.last_tracked_active_start_time == now,
        s.last_tracked_active_end_time == now,
{
    TrackerState {
        last_tracked_inactive_time: now,
        last_tracked_active_start_time: now,
        last_tracked_active_end_time: now,
    }
}

impl TrackerState {
    /// Decides what to log for an input event at `current_time`.
    ///
    /// A clock that went backwards logs a sync error. A gap of more than
    /// `INACTIVE_TIME_PERIOD` seconds since the last event logs the
    /// inactive stretch and starts a new active stretch. Otherwise, when the
    /// time differs from the end of the active stretch, the stretch is
    /// extended and logged. When there is nothing to log, the event time is
    /// recorded at once; otherwise it is recorded by `message_written` once
    /// the message is stored.
    pub fn update_track_time(&mut self, current_time: u64) -> (msg: Option<String>)
        ensures
            ({
                let o = *old(self);
                let f = *final(self);
                if current_time < o.last_tracked_inactive_time {
                    &&& msg matches Some(m) && m@ == sync_error_message()
                    &&& f == o
                } else if current_time - o.last_tracked_inactive_time > INACTIVE_TIME_PERIOD {
                    &&& msg matches Some(m) && m@ == inactive_message(current_time, o.last_tracked_inactive_time)
                    &&& f.last_tracked_active_start_time == current_time
                    &&& f.last_tracked_active_end_time == o.last_tracked_active_end_time
                    &&& f.last_tracked_inactive_time == o.last_tracked_inactive_time
                } else if o.last_tracked_active_end_time != current_time {
                    &&& msg matches Some(m) && m@ == active_message(current_time, o.last_tracked_active_start_time)
                    &&& f.last_tracked_active_end_time == current_time
                    &&& f.last_tracked_active_start_time == o.last_tracked_active_start_time
                    &&& f.last_tracked_inactive_time == o.last_tracked_inactive_time
                } else {
                    &&& msg is None
                    &&& f.last_tracked_inactive_time == current_time
                    &&& f.last_tracked_active_start_time == o.last_tracked_active_start_time
                    &&& f.last_tracked_active_end_time == o.last_tracked_active_end_time
                }
            }),
    {
        if current_time < self.last_tracked_inactive_time {
            let m = String::from_str("Time Sync error\n");
            Some(m)
        } else if current_time - self.last_tracked_inactive_time > INACTIVE_TIME_PERIOD {
            self.last_tracked_active_start_time = current_time;
            let mut m = String::from_str("Inactive time over 5seconds ");
            push_decimal(&mut m, current_time);
            push_str(&mut m, " - ");
            push_decimal(&mut m, self.last_tracked_inactive_time);
            push_str(&mut m, "\n");
            Some(m)
        } else if self.last_tracked_active_end_time != current_time {
            self.last_tracked_active_end_time = current_time;
            let mut m = String::from_str("Active time ");
            push_decimal(&mut m, self.last_tracked_active_end_time);
            push_str(&mut m, " - ");
            push_decimal(&mut m, self.last_tracked_active_start_time);
            push_str(&mut m, "\n");
            Some(m)
        } else {
            self.last_tracked_inactive_time = current_time;
            None
        }
    }

    /// Records `current_time` as the last handled event once its message
    /// has been stored.
    pub fn message_written(&mut self, current_time: u64)
        ensures
            final(self).last_tracked_inactive_time == current_time,
            final(self).last_tracked_active_start_time == old(self).last_tracked_active_start_time,
            final(self).last_tracked_active_end_time == old(self).last_tracked_active_end_time,
    {
        self.last_tracked_inactive_time = current_time;
    }
}

/// Counts written messages to decide when to back up the log.
pub struct BackupCounter {
    pub count: usize,
}

impl BackupCounter {
    /// A counter at zero.
    pub fn new() -> (c: BackupCounter)
        ensures
            c.count == 0,
    {
        BackupCounter { count: 0 }
    }

    /// Counts one more message; a backup is due on every tenth.
    pub fn should_create_backup(&mut self) -> (b: bool)
        requires
            old(self).count < usize::MAX,
        ensures
            final(self).count == old(self).count + 1,
            b == (final(self).count % BACKUP_FREQUENCY == 0),
    {
        self.count = self.count + 1;
        self.count % BACKUP_FREQUENCY == 0
    }

    /// The number of messages counted so far.
    pub fn get_current_backup_count(&self) -> (n: usize)
        ensures
            n == self.count,
    {
        self.count
    }
}


/// The lines the tracker writes read back, in the day report, as the
/// times they were written with: an active line as its end and start, an
/// inactive line as its event time and the previous event time.
pub proof fn lemma_tracker_lines_read_back(a: u64, b: u64)
    requires
        a <= i64::MAX,
        b <= i64::MAX,
    ensures
        classify(active_message(a, b)) == (LogLine::Active { end: a as i64, start: b as i64 }),
        classify(inactive_message(a, b)) == (LogLine::Inactive { end: a as i64, start: b as i64 }),
{
    reveal_strlit("Active time ");
    reveal_strlit("Active time");
    reveal_strlit("Inactive time over 5seconds ");
    reveal_strlit("Inactive time");
    let ah = "Active time "@;
    let ih = "Inactive time over 5seconds "@;
    assert(no_dash(ah));
    assert(no_dash(ih));
    lemma_line_shape(ah, a, b);
    lemma_line_shape(ih, a, b);
    assert(active_message(a, b) == ah + dec(a as nat) + " - "@ + dec(b as nat) + "\n"@);
    assert(inactive_message(a, b) == ih + dec(a as nat) + " - "@ + dec(b as nat) + "\n"@);
    let al = active_message(a, b);
    let il = inactive_message(a, b);
    assert(al.subrange(0, 12) == ah);
    assert(al.subrange(0, 11) =~= "Active time"@) by {
        assert(al.subrange(0, 11) =~= ah.subrange(0, 11));
    }
    assert(has_prefix(al, "Active time"@));
    assert(il.subrange(0, 28) == ih);
    assert(il.subrange(0, 13) =~= "Inactive time"@) by {
        assert(il.subrange(0, 13) =~= ih.subrange(0, 13));
    }
    assert(has_prefix(il, "Inactive time"@));
    assert(!has_prefix(il, "Active time"@)) by {
        assert(il[0] == ih[0]);
        assert(il.subrange(0, 11)[0] == 'I');
    }
}

} // verus!
