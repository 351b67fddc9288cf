//! What the network store keeps and for how long: loading a summary file,
//! taking backups, and choosing the summaries and backups that have expired.
use vstd::prelude::*;
use chrono::{DateTime, NaiveDateTime, TimeDelta, Utc};
use crate::text::push_str;
use super::types::DailyNetworkSummary;
use super::manager::NetworkStorageManager;
use super::files::{FIRST_DAY, LAST_DAY, date_of_file, file_date, parsed_day, parse_day, backup_prefix, backup_file_name, backup_stamp};

verus! {

/// What reading the summary file of a date gave.
pub enum SummaryRead {
    /// There is no file for the date.
    Missing,
    /// The file could not be read, for the reason given.
    Unreadable(String),
    /// The file's text is not a summary, for the reason given.
    Unparsable(String),
    /// The summary the file holds.
    Parsed(DailyNetworkSummary),
}

/// `prefix` followed by `reason`.
fn message(prefix: &str, reason: &str) -> (m: String)
    ensures
        m@ == prefix@ + reason@,
{
    let mut m = String::from_str(prefix);
    push_str(&mut m, reason);
    m
}

impl NetworkStorageManager {
    /// The summary of a date from what reading its file gave, or the error
    /// that says why there is none.
    pub fn load_daily_summary(&self, read: SummaryRead) -> (r: Result<DailyNetworkSummary, String>)
        ensures
            match read {
                SummaryRead::Missing => r matches Err(e) && e@ == "Daily summary not found"@,
                SummaryRead::Unreadable(why) => r matches Err(e) && e@ == "Failed to read daily summary: "@ + why@,
                SummaryRead::Unparsable(why) => r matches Err(e) && e@ == "Failed to parse daily summary: "@ + why@,
                SummaryRead::Parsed(s) => r == Ok::<DailyNetworkSummary, String>(s),
            },
    {
        match read {
            SummaryRead::Missing => Err(String::from_str("Daily summary not found")),
            SummaryRead::Unreadable(why) => Err(message("Failed to read daily summary: ", why.as_str())),
            SummaryRead::Unparsable(why) => Err(message("Failed to parse daily summary: ", why.as_str())),
            SummaryRead::Parsed(s) => Ok(s),
        }
    }
}

/// Seconds in a day.
pub const SECONDS_PER_DAY: i64 = 86400;

/// The day number (`parsed_day`) of 1 January 1970.
pub const UNIX_EPOCH_DAY: i64 = 719163;

/// The Unix time of midnight UTC at the start of day number `d`.
pub open spec fn midnight_utc(d: i32) -> int {
    (d - UNIX_EPOCH_DAY) * SECONDS_PER_DAY
}

/// Whether chrono can represent the time (`secs`, `nanos`) and the time
/// `days` whole days before it: both fall on days from `FIRST_DAY` through
/// `LAST_DAY` (for a time within a second, `nanos` does not move the day).
pub open spec fn cutoff_representable(secs: i64, nanos: u32, days: u32) -> bool {
    let d = secs as int / SECONDS_PER_DAY as int + UNIX_EPOCH_DAY;
    &&& FIRST_DAY <= d <= LAST_DAY
    &&& FIRST_DAY <= d - days
}

/// The whole seconds of the time `days` days before the Unix time
/// (`secs`, `nanos`), from chrono's `DateTime::from_timestamp`,
/// `TimeDelta::try_days` and `checked_sub_signed`. Trusted: for a time
/// that is not within a leap second (`nanos` below one second), the result
/// exists exactly when chrono can represent both times (its dates run from
/// `FIRST_DAY` through `LAST_DAY`), and is then `days` times 86400 seconds
/// earlier (the fraction of a second is kept apart).
#[verifier::external_body]
fn utc_cutoff(secs: i64, nanos: u32, days: u32) -> (r: Option<i64>)
    requires
        nanos < 1_000_000_000,
    ensures
        r is Some <==> cutoff_representable(secs, nanos, days),
        r matches Some(t) ==> t == secs - days * SECONDS_PER_DAY,
{
    let delta = TimeDelta::try_days(days as i64)?;
    DateTime::from_timestamp(secs, nanos)?.checked_sub_signed(delta).map(|t| t.timestamp())
}

/// The current time: the system clock (`SystemTime::now`) turned into a
/// chrono `DateTime<Utc>` by its `From<SystemTime>` conversion, as whole
/// seconds since the Unix epoch (negative before it) and the nanoseconds
/// past them. Unlike `Utc::now`, the conversion does not panic on a clock
/// set before the epoch; it panics only for a time beyond chrono's range
/// (years -262143 to 262142), which the system clock cannot reach. Trusted:
/// both branches of the conversion give nanoseconds below one second;
/// nothing else is claimed of the values.
#[verifier::external_body]
fn utc_now() -> (r: (i64, u32))
    ensures
        r.1 < 1_000_000_000,
{
    let now = DateTime::<Utc>::from(std::time::SystemTime::now());
    (now.timestamp(), now.timestamp_subsec_nanos())
}

/// Midnight UTC (whole seconds) is before the time (`cutoff`, `nanos`).
pub open spec fn before_cutoff(t: int, cutoff: int, nanos: u32) -> bool {
    t < cutoff || (t == cutoff && nanos > 0)
}

/// A summary file whose date starts before the cutoff.
pub open spec fn expired_file(name: Seq<char>, cutoff: int, nanos: u32) -> bool {
    match date_of_file(name) {
        Some(date) => match parsed_day(date) {
            Some(d) => before_cutoff(midnight_utc(d), cutoff, nanos),
            None => false,
        },
        None => false,
    }
}

/// The expired summary files among `names`, in list order.
pub open spec fn expired_files(names: Seq<Seq<char>>, cutoff: int, nanos: u32) -> Seq<Seq<char>>
    decreases names.len(),
{
    if names.len() == 0 {
        Seq::empty()
    } else {
        let p = expired_files(names.drop_last(), cutoff, nanos);
        if expired_file(names.last(), cutoff, nanos) { p.push(names.last()) } else { p }
    }
}

/// Whether the summary file `name` is older than the cutoff.
fn file_expired(name: &str, cutoff: i64, nanos: u32) -> (b: bool)
    ensures
        b == expired_file(name@, cutoff as int, nanos),
{
    match file_date(name) {
        None => false,
        Some(date) => match parse_day(date.as_str()) {
            Err(_) => false,
            Ok(d) => {
                let t: i64 = (d as i64 - UNIX_EPOCH_DAY) * SECONDS_PER_DAY;
                t < cutoff || (t == cutoff && nanos > 0)
            },
        },
    }
}

/// `r` is what cleaning up at the time (`secs`, `nanos`) gives: an error
/// when that time less `days` days is out of chrono's range, else the
/// expired summary files.
pub open spec fn cleanup_outcome(r: Result<Vec<String>, String>, names: Seq<String>, secs: i64, nanos: u32, days: u32) -> bool {
    if cutoff_representable(secs, nanos, days) {
        r matches Ok(v) && crate::text::views(v@) == expired_files(crate::text::views(names), secs - days * SECONDS_PER_DAY, nanos)
    } else {
        r matches Err(e) && e@ == "Date calculation overflow"@
    }
}

impl NetworkStorageManager {
    /// The summary files to remove so that only the last `days_to_keep`
    /// days are kept, at the time (`now_secs`, `now_nanos`): the files whose
    /// date starts (midnight UTC) before that time less `days_to_keep` days.
    /// Fails when that time is out of chrono's range.
    pub fn cleanup_old_data_at(&self, file_names: &Vec<String>, now_secs: i64, now_nanos: u32, days_to_keep: u32)
        -> (r: Result<Vec<String>, String>)
        requires
            now_nanos < 1_000_000_000,
        ensures
            !cutoff_representable(now_secs, now_nanos, days_to_keep)
                ==> (r matches Err(e) && e@ == "Date calculation overflow"@),
            cutoff_representable(now_secs, now_nanos, days_to_keep) ==> (r matches Ok(v)
                && crate::text::views(v@) == expired_files(
                    crate::text::views(file_names@), now_secs - days_to_keep * SECONDS_PER_DAY, now_nanos)),
    {
        let cutoff = match utc_cutoff(now_secs, now_nanos, days_to_keep) {
            Some(t) => t,
            None => return Err(String::from_str("Date calculation overflow")),
        };
        let ghost names = crate::text::views(file_names@);
        let mut doomed: Vec<String> = Vec::new();
        let mut i: usize = 0;
        while i < file_names.len()
            invariant
                i <= file_names@.len(),
                names == crate::text::views(file_names@),
                crate::text::views(doomed@) == expired_files(names.take(i as int), cutoff as int, now_nanos),
            decreases file_names@.len() - i,
        {
            proof {
                assert(names.take(i as int + 1).drop_last() =~= names.take(i as int));
                assert(names.take(i as int + 1).last() == file_names@[i as int]@);
            }
            let ghost before = doomed@;
            if file_expired(file_names[i].as_str(), cutoff, now_nanos) {
                doomed.push(file_names[i].clone());
                proof {
                    assert(crate::text::views(doomed@) =~= crate::text::views(before).push(file_names@[i as int]@));
                }
            }
            i = i + 1;
        }
        proof {
            assert(names.take(file_names@.len() as int) =~= names);
        }
        Ok(doomed)
    }

    /// The summary files older than `days_to_keep` days, by the current
    /// time: the result of `cleanup_old_data_at` for the time the clock
    /// read. Each one named is a summary file of a readable date.
    pub fn cleanup_old_data(&self, file_names: &Vec<String>, days_to_keep: u32) -> (r: Result<Vec<String>, String>)
        ensures
            exists|secs: i64, nanos: u32| nanos < 1_000_000_000 && #[trigger] cleanup_outcome(r, file_names@, secs, nanos, days_to_keep),
            r matches Ok(v) ==> forall|i: int| 0 <= i < v@.len() ==>
                (#[trigger] date_of_file(v@[i]@) matches Some(d) && parsed_day(d) is Some),
    {
        let (secs, nanos) = utc_now();
        let r = self.cleanup_old_data_at(file_names, secs, nanos, days_to_keep);
        proof {
            assert(cleanup_outcome(r, file_names@, secs, nanos, days_to_keep));
            if r is Ok {
                let v = r->Ok_0;
                let cutoff = secs - days_to_keep * SECONDS_PER_DAY;
                assert forall|i: int| 0 <= i < v@.len() implies
                    (#[trigger] date_of_file(v@[i]@) matches Some(d) && parsed_day(d) is Some) by {
                    lemma_expired_files_expire(crate::text::views(file_names@), cutoff, nanos);
                    assert(crate::text::views(v@)[i] == v@[i]@);
                }
            }
        }
        r
    }
}

/// Each file of `expired_files` is expired.
pub proof fn lemma_expired_files_expire(names: Seq<Seq<char>>, cutoff: int, nanos: u32)
    ensures
        forall|i: int| 0 <= i < expired_files(names, cutoff, nanos).len()
            ==> expired_file(#[trigger] expired_files(names, cutoff, nanos)[i], cutoff, nanos),
    decreases names.len(),
{
    if names.len() > 0 {
        let p = expired_files(names.drop_last(), cutoff, nanos);
        lemma_expired_files_expire(names.drop_last(), cutoff, nanos);
        assert forall|i: int| 0 <= i < expired_files(names, cutoff, nanos).len()
            implies expired_file(#[trigger] expired_files(names, cutoff, nanos)[i], cutoff, nanos) by {
            if i < p.len() {
                assert(expired_files(names, cutoff, nanos)[i] == p[i]);
            }
        }
    }
}

/// The number of backups kept for each date.
pub const BACKUPS_KEPT: usize = 5;

impl NetworkStorageManager {
    /// Where to take a backup of the summary of `date` at `stamp`
    /// (`YYYYmmdd_HHMMSS`): the backup's name and the temporary name it is
    /// copied under first. Nothing is backed up when the summary file does
    /// not exist.
    pub fn create_backup(&self, date: &str, source_exists: bool, stamp: &str) -> (r: Option<(String, String)>)
        ensures
            source_exists <==> r is Some,
            r matches Some((name, temp)) ==> name@ == backup_prefix(date@) + stamp@
                && temp@ == backup_prefix(date@) + stamp@ + ".tmp"@,
    {
        if !source_exists {
            return None;
        }
        let name = backup_file_name(date, stamp);
        let mut temp = backup_file_name(date, stamp);
        push_str(&mut temp, ".tmp");
        Some((name, temp))
    }
}

/// The time a backup was taken, read from its name `YYYYmmdd_HHMMSS` as
/// chrono's `NaiveDateTime::parse_from_str` reads it, in seconds of the
/// clock it was written by.
pub uninterp spec fn parsed_stamp(s: Seq<char>) -> Option<i64>;

/// Reads a backup time stamp with chrono's `NaiveDateTime::parse_from_str`
/// and the `%Y%m%d_%H%M%S` format. Trusted: the result depends on the text
/// alone.
#[verifier::external_body]
fn parse_stamp(s: &str) -> (r: Option<i64>)
    ensures
        r == parsed_stamp(s@),
{
    NaiveDateTime::parse_from_str(s, "%Y%m%d_%H%M%S").ok().map(|t| t.and_utc().timestamp())
}

impl NetworkStorageManager {
    /// The wall-clock time a backup was taken, from its name: nothing for
    /// backups whose name mentions `today` or has no readable time stamp.
    pub fn backup_time(&self, name: &str, today: &str) -> (r: Option<i64>)
        ensures
            r == (match backup_stamp(name@, today@) {
                Some(s) => parsed_stamp(s),
                None => None,
            }),
    {
        match self.backup_timestamp_part(name, today) {
            Some(s) => parse_stamp(s.as_str()),
            None => None,
        }
    }
}

/// A backup file and the time it was taken (Unix seconds), when known.
pub struct DatedBackup {
    pub name: String,
    pub taken_at: Option<i64>,
}

/// Seconds a backup is kept: seven days.
pub const BACKUP_RETENTION: i64 = 604800;

/// A backup taken before the cutoff.
pub open spec fn backup_expired(b: DatedBackup, cutoff: int, nanos: u32) -> bool {
    match b.taken_at {
        Some(t) => before_cutoff(t as int, cutoff, nanos),
        None => false,
    }
}

/// The names of the expired backups, in list order.
pub open spec fn expired_backups(bs: Seq<DatedBackup>, cutoff: int, nanos: u32) -> Seq<Seq<char>>
    decreases bs.len(),
{
    if bs.len() == 0 {
        Seq::empty()
    } else {
        let p = expired_backups(bs.drop_last(), cutoff, nanos);
        if backup_expired(bs.last(), cutoff, nanos) { p.push(bs.last().name@) } else { p }
    }
}

impl NetworkStorageManager {
    /// The backups to remove at the time (`now_secs`, `now_nanos`): those
    /// taken more than seven days before it.
    pub fn daily_backup_cleanup(&self, backups: &Vec<DatedBackup>, now_secs: i64, now_nanos: u32) -> (r: Vec<String>)
        requires
            now_secs >= i64::MIN + BACKUP_RETENTION,
        ensures
            crate::text::views(r@) == expired_backups(backups@, now_secs - BACKUP_RETENTION, now_nanos),
    {
        let cutoff = now_secs - BACKUP_RETENTION;
        let mut doomed: Vec<String> = Vec::new();
        let mut i: usize = 0;
        while i < backups.len()
            invariant
                i <= backups@.len(),
                cutoff == now_secs - BACKUP_RETENTION,
                crate::text::views(doomed@) == expired_backups(backups@.take(i as int), cutoff as int, now_nanos),
            decreases backups@.len() - i,
        {
            proof {
                assert(backups@.take(i as int + 1).drop_last() =~= backups@.take(i as int));
                assert(backups@.take(i as int + 1).last() == backups@[i as int]);
            }
            let ghost before = doomed@;
            let expired = match backups[i].taken_at {
                Some(t) => t < cutoff || (t == cutoff && now_nanos > 0),
                None => false,
            };
            if expired {
                doomed.push(backups[i].name.clone());
                proof {
                    assert(crate::text::views(doomed@) =~= crate::text::views(before).push(backups@[i as int].name@));
                }
            }
            i = i + 1;
        }
        proof {
            assert(backups@.take(backups@.len() as int) =~= backups@);
        }
        doomed
    }
}

} // verus!
