//! The files of the network store: daily summaries named by date, their
//! timestamped backups, and which of them to list, restore or remove.
use vstd::prelude::*;
use chrono::{Datelike, NaiveDate};
use crate::text::{has_prefix, has_suffix, has_infix, starts_with, ends_with, strip_affixes, push_str, views,
    sort_strings, sorted_texts, contains_str, lex_lt, lex_less, lemma_lex_total, lemma_lex_trans};
use crate::ordering::{SortKey, ranked, rank};
use super::types::DailyNetworkSummary;
use super::manager::NetworkStorageManager;

verus! {

/// The file holding the summary of `date`: `network-DATE.json`.
pub open spec fn summary_file(date: Seq<char>) -> Seq<char> {
    "network-"@ + date + ".json"@
}

/// The start of every backup name of `date`: `network-DATE.json.backup_`.
pub open spec fn backup_prefix(date: Seq<char>) -> Seq<char> {
    summary_file(date) + ".backup_"@
}

/// The name of the summary file of `date`.
pub fn summary_file_name(date: &str) -> (s: String)
    ensures
        s@ == summary_file(date@),
{
    let mut s = String::from_str("network-");
    push_str(&mut s, date);
    push_str(&mut s, ".json");
    s
}

/// The start of the backup names of `date`.
pub fn backup_name_prefix(date: &str) -> (s: String)
    ensures
        s@ == backup_prefix(date@),
{
    let mut s = summary_file_name(date);
    push_str(&mut s, ".backup_");
    s
}

/// The name of a backup of `date` taken at `stamp` (`YYYYmmdd_HHMMSS`).
pub fn backup_file_name(date: &str, stamp: &str) -> (s: String)
    ensures
        s@ == backup_prefix(date@) + stamp@,
{
    let mut s = backup_name_prefix(date);
    push_str(&mut s, stamp);
    s
}

/// The date named by a summary file name (`network-DATE.json`), if it is one.
pub open spec fn date_of_file(name: Seq<char>) -> Option<Seq<char>> {
    let rest = name.subrange("network-"@.len() as int, name.len() as int);
    if has_prefix(name, "network-"@) && has_suffix(name, ".json"@) && has_suffix(rest, ".json"@) {
        Some(rest.subrange(0, rest.len() - ".json"@.len()))
    } else {
        None
    }
}

/// The dates of the summary files among `names`, in list order.
pub open spec fn dates_of_files(names: Seq<Seq<char>>) -> Seq<Seq<char>>
    decreases names.len(),
{
    if names.len() == 0 {
        Seq::empty()
    } else {
        let p = dates_of_files(names.drop_last());
        match date_of_file(names.last()) {
            Some(d) => p.push(d),
            None => p,
        }
    }
}

/// The date of a summary file name.
pub fn file_date(name: &str) -> (r: Option<String>)
    ensures
        match r {
            Some(d) => date_of_file(name@) == Some(d@),
            None => date_of_file(name@) is None,
        },
{
    proof {
        reveal_strlit("network-");
    }
    if !ends_with(name, ".json") {
        return None;
    }
    strip_affixes(name, "network-", ".json")
}

impl NetworkStorageManager {
    /// The dates that have a stored summary, in ascending order, from the
    /// names of the files in the storage directory.
    pub fn get_available_dates(&self, file_names: &Vec<String>) -> (r: Vec<String>)
        ensures
            sorted_texts(views(r@)),
            views(r@).to_multiset() == dates_of_files(views(file_names@)).to_multiset(),
    {
        let mut dates: Vec<String> = Vec::new();
        let mut i: usize = 0;
        while i < file_names.len()
            invariant
                i <= file_names@.len(),
                views(dates@) == dates_of_files(views(file_names@.take(i as int))),
            decreases file_names@.len() - i,
        {
            let ghost pre = views(file_names@.take(i as int));
            let ghost db = dates@;
            proof {
                assert(views(file_names@.take(i as int + 1)) =~= pre.push(file_names@[i as int]@));
                assert(views(file_names@.take(i as int + 1)).drop_last() =~= pre);
            }
            match file_date(file_names[i].as_str()) {
                Some(d) => {
                    dates.push(d);
                    proof {
                        assert(views(dates@) =~= views(db).push(dates@.last()@));
                    }
                },
                None => {},
            }
            i = i + 1;
        }
        proof {
            assert(file_names@.take(file_names@.len() as int) =~= file_names@);
        }
        sort_strings(dates)
    }
}

/// A backup file as listed: its name and modification time.
#[derive(Debug)]
pub struct BackupEntry {
    pub name: String,
    pub modified: u64,
}

/// Backups are ordered newest first.
impl SortKey for BackupEntry {
    open spec fn sort_key(&self) -> int {
        self.modified as int
    }

    fn key_value(&self) -> (k: i128) {
        self.modified as i128
    }
}

/// The backups of `date` among the listed files, in list order.
pub open spec fn backups_of(entries: Seq<BackupEntry>, date: Seq<char>) -> Seq<BackupEntry>
    decreases entries.len(),
{
    if entries.len() == 0 {
        Seq::empty()
    } else {
        let p = backups_of(entries.drop_last(), date);
        if has_prefix(entries.last().name@, backup_prefix(date)) { p.push(entries.last()) } else { p }
    }
}

/// The backups of `date`, newest first (list order among equals).
fn newest_backups(date: &str, entries: Vec<BackupEntry>) -> (r: Vec<BackupEntry>)
    ensures
        r@ == ranked(backups_of(entries@, date@)),
{
    let prefix = backup_name_prefix(date);
    let ghost orig = entries@;
    let n = entries.len();
    let mut rest = entries;
    let mut found: Vec<BackupEntry> = Vec::new();
    let mut k: usize = 0;
    while rest.len() > 0
        invariant
            n == orig.len(),
            k <= n,
            prefix@ == backup_prefix(date@),
            rest@ == orig.subrange(k as int, n as int),
            found@ == backups_of(orig.take(k as int), date@),
        decreases rest.len(),
    {
        let e = rest.remove(0);
        proof {
            assert(orig.take(k as int + 1).drop_last() =~= orig.take(k as int));
            assert(orig.take(k as int + 1).last() == orig[k as int]);
            assert(e == orig[k as int]);
        }
        if starts_with(e.name.as_str(), prefix.as_str()) {
            found.push(e);
        }
        k = k + 1;
        proof {
            assert(rest@ =~= orig.subrange(k as int, n as int));
        }
    }
    proof {
        assert(orig.take(n as int) =~= orig);
    }
    rank(found)
}

impl NetworkStorageManager {
    /// The backups of `date` to delete so that only the `keep_count` newest
    /// remain: all but the first `keep_count` when ordered newest first.
    pub fn cleanup_old_backups(&self, date: &str, entries: Vec<BackupEntry>, keep_count: usize) -> (r: Vec<String>)
        ensures
            ({
                let ordered = ranked(backups_of(entries@, date@));
                let doomed = if keep_count <= ordered.len() { ordered.skip(keep_count as int) } else { Seq::empty() };
                &&& r@.len() == doomed.len()
                &&& forall|i: int| 0 <= i < r@.len() ==> #[trigger] r@[i]@ == doomed[i].name@
            }),
    {
        let ordered = newest_backups(date, entries);
        let mut r: Vec<String> = Vec::new();
        let mut i = keep_count;
        while i < ordered.len()
            invariant
                keep_count <= i,
                i <= ordered@.len() || ordered@.len() < keep_count,
                ordered@.len() >= keep_count ==> r@.len() == i - keep_count,
                ordered@.len() >= keep_count ==> forall|j: int| 0 <= j < r@.len() ==> #[trigger] r@[j]@ == ordered@[keep_count + j].name@,
                ordered@.len() < keep_count ==> r@.len() == 0,
            decreases ordered@.len() - i,
        {
            r.push(ordered[i].name.clone());
            i = i + 1;
        }
        r
    }

    /// The backup to restore `date` from: the newest backup of that date.
    /// Returns its name with the summary file and temporary file names to
    /// restore through; fails when `date` has no backup.
    pub fn restore_from_backup(&self, date: &str, entries: Vec<BackupEntry>) -> (r: Result<(String, String, String), String>)
        ensures
            ({
                let ordered = ranked(backups_of(entries@, date@));
                &&& ordered.len() == 0 <==> r is Err
                &&& r matches Err(e) ==> e@ == "No backup files found for date: "@ + date@
                &&& r matches Ok((b, f, t)) ==> b@ == ordered[0].name@ && f@ == summary_file(date@)
                    && t@ == summary_file(date@) + ".tmp"@
            }),
    {
        let ordered = newest_backups(date, entries);
        proof {
            crate::ordering::lemma_ranked_properties(backups_of(entries@, date@));
        }
        if ordered.len() == 0 {
            let mut e = String::from_str("No backup files found for date: ");
            push_str(&mut e, date);
            return Err(e);
        }
        let file = summary_file_name(date);
        let mut temp = summary_file_name(date);
        push_str(&mut temp, ".tmp");
        Ok((ordered[0].name.clone(), file, temp))
    }
}

/// `x` is one of the entries, and its name has the backup prefix of `date`.
pub open spec fn is_backup_entry(entries: Seq<BackupEntry>, date: Seq<char>, x: BackupEntry) -> bool {
    exists|j: int| 0 <= j < entries.len() && x == #[trigger] entries[j] && has_prefix(entries[j].name@, backup_prefix(date))
}

/// Each backup of `date` is an entry whose name has the date's backup
/// prefix, and each such entry is among them.
pub proof fn lemma_backups_of_members(entries: Seq<BackupEntry>, date: Seq<char>)
    ensures
        forall|i: int| 0 <= i < backups_of(entries, date).len()
            ==> is_backup_entry(entries, date, #[trigger] backups_of(entries, date)[i]),
        forall|j: int| 0 <= j < entries.len() && has_prefix(entries[j].name@, backup_prefix(date))
            ==> backups_of(entries, date).contains(#[trigger] entries[j]),
    decreases entries.len(),
{
    if entries.len() > 0 {
        let p = entries.drop_last();
        lemma_backups_of_members(p, date);
        let b = backups_of(entries, date);
        let bp = backups_of(p, date);
        assert forall|i: int| 0 <= i < b.len() implies is_backup_entry(entries, date, #[trigger] b[i]) by {
            if i < bp.len() {
                assert(b[i] == bp[i]);
                assert(is_backup_entry(p, date, bp[i]));
                let j = choose|j: int| 0 <= j < p.len() && bp[i] == #[trigger] p[j] && has_prefix(p[j].name@, backup_prefix(date));
                assert(entries[j] == p[j]);
            } else {
                let j = entries.len() - 1;
                assert(b[i] == entries[j]);
            }
        }
        assert forall|j: int| 0 <= j < entries.len() && has_prefix(entries[j].name@, backup_prefix(date))
            implies b.contains(#[trigger] entries[j]) by {
            if j < p.len() {
                assert(entries[j] == p[j]);
                assert(bp.contains(p[j]));
                let i = choose|i: int| 0 <= i < bp.len() && bp[i] == p[j];
                assert(b[i] == bp[i]);
            } else {
                assert(b[b.len() - 1] == entries[j]);
            }
        }
    }
}

/// A backup newer than every other backup of its date is the one a restore
/// of that date uses.
pub proof fn lemma_newest_backup_is_restored(entries: Seq<BackupEntry>, date: Seq<char>, k: int)
    requires
        0 <= k < entries.len(),
        has_prefix(entries[k].name@, backup_prefix(date)),
        forall|j: int| 0 <= j < entries.len() && j != k && has_prefix(#[trigger] entries[j].name@, backup_prefix(date))
            ==> entries[j].modified < entries[k].modified,
    ensures
        ranked(backups_of(entries, date)).len() > 0,
        ranked(backups_of(entries, date))[0] == entries[k],
{
    broadcast use vstd::seq_lib::group_to_multiset_ensures;
    let b = backups_of(entries, date);
    let r = ranked(b);
    lemma_backups_of_members(entries, date);
    crate::ordering::lemma_ranked_properties(b);
    assert(b.contains(entries[k]));
    assert(r.to_multiset().count(entries[k]) > 0);
    assert(r.contains(entries[k]));
    let m = choose|m: int| 0 <= m < r.len() && r[m] == entries[k];
    assert(r.len() > 0);
    assert(r.to_multiset().count(r[0]) > 0);
    assert(b.contains(r[0]));
    let i = choose|i: int| 0 <= i < b.len() && b[i] == r[0];
    assert(is_backup_entry(entries, date, b[i]));
    let j = choose|j: int| 0 <= j < entries.len() && b[i] == #[trigger] entries[j] && has_prefix(entries[j].name@, backup_prefix(date));
    if m > 0 {
        assert(r[0].sort_key() >= r[m].sort_key());
    }
    if j != k {
        assert(entries[j].modified < entries[k].modified);
        assert(false);
    }
}

/// The part of a backup name after the first `.backup_` up to the next one
/// (or the end), when the name does not mention `today` and has one.
pub open spec fn backup_stamp(name: Seq<char>, today: Seq<char>) -> Option<Seq<char>> {
    let marker = ".backup_"@;
    if has_infix(name, today) {
        None
    } else {
        match crate::activity::line::first_occurrence(name, marker, 0) {
            None => None,
            Some(i) => match crate::activity::line::first_occurrence(name, marker, i + marker.len()) {
                Some(j) => Some(name.subrange(i + marker.len(), j)),
                None => Some(name.subrange(i + marker.len(), name.len() as int)),
            },
        }
    }
}

impl NetworkStorageManager {
    /// For the daily cleanup of backups: the timestamp text of a backup
    /// file name (to be read as `YYYYmmdd_HHMMSS`), or nothing for today's
    /// files and files that are not backups.
    pub fn backup_timestamp_part(&self, name: &str, today: &str) -> (r: Option<String>)
        ensures
            match r {
                Some(s) => backup_stamp(name@, today@) == Some(s@),
                None => backup_stamp(name@, today@) is None,
            },
    {
        proof {
            reveal_strlit(".backup_");
        }
        if contains_str(name, today) {
            return None;
        }
        let n = crate::text::char_len(name);
        match crate::activity::line::find_from(name, ".backup_", 0) {
            None => None,
            Some(i) => {
                proof {
                    crate::activity::line::lemma_first_occurrence(name@, ".backup_"@, 0);
                }
                match crate::activity::line::find_from(name, ".backup_", i + 8) {
                    Some(j) => {
                        proof {
                            crate::activity::line::lemma_first_occurrence(name@, ".backup_"@, i + 8);
                        }
                        Some(crate::text::substring(name, i + 8, j))
                    },
                    None => Some(crate::text::substring(name, i + 8, n)),
                }
            },
        }
    }
}


/// The day number (days of the proleptic Gregorian calendar, 1 January of
/// year 1 being day 1) of a `YYYY-MM-DD` text, as chrono reads it.
pub uninterp spec fn parsed_day(s: Seq<char>) -> Option<i32>;

/// The `YYYY-MM-DD` text of a day number.
pub uninterp spec fn day_text(d: i32) -> Seq<char>;

/// The day number of chrono's first representable date (`NaiveDate::MIN`,
/// 1 January of year -262143).
pub const FIRST_DAY: i32 = -95746129;

/// The day number of chrono's last representable date (`NaiveDate::MAX`,
/// 31 December of year 262142).
pub const LAST_DAY: i32 = 95745399;

/// Chrono has no day after day number `d`: it is the last day chrono can
/// represent, or not one chrono can represent at all.
pub open spec fn is_last_day(d: i32) -> bool {
    d < FIRST_DAY || d >= LAST_DAY
}

/// Reads a `YYYY-MM-DD` text with chrono's `NaiveDate::parse_from_str`.
/// Trusted: the day number depends on the text alone; on failure only the
/// parse error's text is given (it is not described here).
#[verifier::external_body]
pub(crate) fn parse_day(s: &str) -> (r: Result<i32, String>)
    ensures
        r is Ok <==> parsed_day(s@) is Some,
        r matches Ok(d) ==> parsed_day(s@) == Some(d),
{
    NaiveDate::parse_from_str(s, "%Y-%m-%d").map(|d| d.num_days_from_ce()).map_err(|e| e.to_string())
}

/// The `YYYY-MM-DD` text of a day obtained from chrono, via
/// `NaiveDate::from_num_days_from_ce_opt` and `format`. Trusted: the text
/// depends on the day alone.
#[verifier::external_body]
fn day_string(d: i32) -> (s: String)
    ensures
        s@ == day_text(d),
{
    NaiveDate::from_num_days_from_ce_opt(d).map(|x| x.format("%Y-%m-%d").to_string()).unwrap_or_default()
}

/// The next day, from chrono's `NaiveDate::from_num_days_from_ce_opt` and
/// `succ_opt`. Trusted: chrono represents the days `FIRST_DAY` through
/// `LAST_DAY`; the next day is the day number plus one, and there is none
/// after the last representable day or for a day chrono cannot represent.
#[verifier::external_body]
fn next_day(d: i32) -> (r: Option<i32>)
    ensures
        r is None <==> is_last_day(d),
        r matches Some(x) ==> x == d + 1,
{
    NaiveDate::from_num_days_from_ce_opt(d).and_then(|x| x.succ_opt()).map(|x| x.num_days_from_ce())
}

/// The dates from day `from` through day `to`, as texts.
pub open spec fn day_texts(from: int, to: int) -> Seq<Seq<char>>
    decreases to - from + 1,
{
    if from > to {
        Seq::empty()
    } else {
        seq![day_text(from as i32)] + day_texts(from + 1, to)
    }
}

/// Some day from `from` through `to` is the last one chrono can represent,
/// so that no next day can be reached from it.
pub open spec fn runs_past_last_day(from: int, to: int) -> bool {
    exists|d: int| from <= d <= to && is_last_day(#[trigger] (d as i32))
}

/// Entry `j` is the first stored summary for `date`.
pub open spec fn is_first_with_date(stored: Seq<(String, DailyNetworkSummary)>, j: int, date: Seq<char>) -> bool {
    &&& 0 <= j < stored.len()
    &&& stored[j].0@ == date
    &&& forall|i: int| 0 <= i < j ==> #[trigger] stored[i].0@ != date
}

/// An empty summary of `date`.
pub open spec fn is_empty_summary(x: DailyNetworkSummary, date: Seq<char>) -> bool {
    &&& x.date@ == date
    &&& x.sessions@.len() == 0
    &&& x.total_incoming_bytes == 0
    &&& x.total_outgoing_bytes == 0
    &&& x.total_duration == 0
    &&& x.unique_hosts == 0
    &&& x.unique_services == 0
}

/// `x` is what the range holds for `date`: a copy of the first stored
/// summary of that date, or an empty summary when none is stored.
pub open spec fn loaded_for(x: DailyNetworkSummary, stored: Seq<(String, DailyNetworkSummary)>, date: Seq<char>) -> bool {
    if exists|j: int| 0 <= j < stored.len() && #[trigger] stored[j].0@ == date {
        exists|j: int| #[trigger] is_first_with_date(stored, j, date) && x.same_as(stored[j].1)
    } else {
        is_empty_summary(x, date)
    }
}

/// The position of the first stored summary for `date`.
fn first_stored(stored: &Vec<(String, DailyNetworkSummary)>, date: &str) -> (r: Option<usize>)
    ensures
        match r {
            Some(j) => is_first_with_date(stored@, j as int, date@),
            None => forall|i: int| 0 <= i < stored@.len() ==> #[trigger] stored@[i].0@ != date@,
        },
{
    let mut i: usize = 0;
    while i < stored.len()
        invariant
            i <= stored@.len(),
            forall|k: int| 0 <= k < i ==> #[trigger] stored@[k].0@ != date@,
        decreases stored@.len() - i,
    {
        if crate::text::str_eq(stored[i].0.as_str(), date) {
            return Some(i);
        }
        i = i + 1;
    }
    None
}

impl NetworkStorageManager {
    /// The dates from `start_date` through `end_date` (both `YYYY-MM-DD`),
    /// whose summaries make up the range. Fails on a date that does not
    /// read, or when the range runs past the last representable day.
    pub fn get_date_range(&self, start_date: &str, end_date: &str) -> (r: Result<Vec<String>, String>)
        ensures
            parsed_day(start_date@) is None ==> (r matches Err(e) && has_prefix(e@, "Invalid start date format: "@)),
            parsed_day(start_date@) is Some && parsed_day(end_date@) is None
                ==> (r matches Err(e) && has_prefix(e@, "Invalid end date format: "@)),
            parsed_day(start_date@) is Some && parsed_day(end_date@) is Some ==> (
                if runs_past_last_day(parsed_day(start_date@).unwrap() as int, parsed_day(end_date@).unwrap() as int) {
                    r matches Err(m) && m@ == "Date overflow"@
                } else {
                    r matches Ok(v) && views(v@) == day_texts(
                        parsed_day(start_date@).unwrap() as int,
                        parsed_day(end_date@).unwrap() as int,
                    )
                }),
    {
        let start = match parse_day(start_date) {
            Ok(d) => d,
            Err(e) => {
                let mut m = String::from_str("Invalid start date format: ");
                push_str(&mut m, e.as_str());
                proof {
                    reveal_strlit("Invalid start date format: ");
                    assert(m@.subrange(0, "Invalid start date format: "@.len() as int) =~= "Invalid start date format: "@);
                }
                return Err(m);
            },
        };
        let end = match parse_day(end_date) {
            Ok(d) => d,
            Err(e) => {
                let mut m = String::from_str("Invalid end date format: ");
                push_str(&mut m, e.as_str());
                proof {
                    reveal_strlit("Invalid end date format: ");
                    assert(m@.subrange(0, "Invalid end date format: "@.len() as int) =~= "Invalid end date format: "@);
                }
                return Err(m);
            },
        };
        let mut results: Vec<String> = Vec::new();
        let mut current = start;
        while current <= end
            invariant
                parsed_day(start_date@) == Some(start),
                parsed_day(end_date@) == Some(end),
                start <= current,
                start <= end ==> current <= end + 1,
                start > end ==> current == start,
                forall|d: int| start <= d < current ==> !is_last_day(#[trigger] (d as i32)),
                views(results@) + day_texts(current as int, end as int) == day_texts(start as int, end as int),
            decreases end - current + 1,
        {
            let ghost before = views(results@);
            let text = day_string(current);
            results.push(text);
            proof {
                assert(views(results@) =~= before.push(day_text(current)));
                assert(day_texts(current as int, end as int) =~= seq![day_text(current)] + day_texts(current + 1, end as int));
                assert(before.push(day_text(current)) + day_texts(current + 1, end as int)
                    =~= before + (seq![day_text(current)] + day_texts(current + 1, end as int)));
            }
            match next_day(current) {
                Some(n) => {
                    proof {
                        assert forall|d: int| start <= d < n implies !is_last_day(#[trigger] (d as i32)) by {
                            if d == current as int {
                                assert((d as i32) == current);
                            }
                        }
                    }
                    current = n;
                },
                None => {
                    proof {
                        assert(start <= current <= end && is_last_day(current as int as i32));
                    }
                    return Err(String::from_str("Date overflow"));
                },
            }
        }
        proof {
            assert(day_texts(current as int, end as int) =~= Seq::<Seq<char>>::empty());
            assert(views(results@) + Seq::<Seq<char>>::empty() =~= views(results@));
            assert(!runs_past_last_day(start as int, end as int));
        }
        Ok(results)
    }

    /// The summaries of the dates from `start_date` through `end_date`, from
    /// the summaries found in storage (each with the date of its file): the
    /// first one found for a date, or an empty summary for a date without
    /// one. Fails as the date range does.
    pub fn get_date_range_data(&self, start_date: &str, end_date: &str, stored: &Vec<(String, DailyNetworkSummary)>)
        -> (r: Result<Vec<DailyNetworkSummary>, String>)
        ensures
            parsed_day(start_date@) is None ==> (r matches Err(e) && has_prefix(e@, "Invalid start date format: "@)),
            parsed_day(start_date@) is Some && parsed_day(end_date@) is None
                ==> (r matches Err(e) && has_prefix(e@, "Invalid end date format: "@)),
            parsed_day(start_date@) is Some && parsed_day(end_date@) is Some ==> ({
                let days = day_texts(parsed_day(start_date@).unwrap() as int, parsed_day(end_date@).unwrap() as int);
                if runs_past_last_day(parsed_day(start_date@).unwrap() as int, parsed_day(end_date@).unwrap() as int) {
                    r matches Err(m) && m@ == "Date overflow"@
                } else {
                    r matches Ok(v) && v@.len() == days.len()
                        && forall|k: int| 0 <= k < days.len() ==> #[trigger] loaded_for(v@[k], stored@, days[k])
                }
            }),
    {
        let dates = match self.get_date_range(start_date, end_date) {
            Ok(d) => d,
            Err(e) => return Err(e),
        };
        let mut results: Vec<DailyNetworkSummary> = Vec::new();
        let mut k: usize = 0;
        while k < dates.len()
            invariant
                k <= dates@.len(),
                results@.len() == k,
                forall|i: int| 0 <= i < k ==> #[trigger] loaded_for(results@[i], stored@, dates@[i]@),
            decreases dates@.len() - k,
        {
            let found = first_stored(stored, dates[k].as_str());
            match found {
                Some(j) => {
                    let copy = stored[j].1.duplicate();
                    proof {
                        assert(is_first_with_date(stored@, j as int, dates@[k as int]@));
                    }
                    results.push(copy);
                },
                None => {
                    results.push(DailyNetworkSummary::empty(dates[k].clone()));
                },
            }
            proof {
                assert(loaded_for(results@[k as int], stored@, dates@[k as int]@));
            }
            k = k + 1;
        }
        proof {
            assert forall|i: int| 0 <= i < results@.len() implies #[trigger] loaded_for(results@[i], stored@, views(dates@)[i]) by {
                assert(views(dates@)[i] == dates@[i]@);
            }
        }
        Ok(results)
    }

    /// The stored summary of a date, or an empty one when none was stored.
    pub fn summary_or_empty(&self, loaded: Option<DailyNetworkSummary>, date: String) -> (d: DailyNetworkSummary)
        ensures
            loaded matches Some(l) ==> d == l,
            loaded is None ==> d.date == date && d.sessions@.len() == 0 && d.total_incoming_bytes == 0
                && d.total_outgoing_bytes == 0 && d.total_duration == 0 && d.unique_hosts == 0 && d.unique_services == 0,
    {
        match loaded {
            Some(l) => l,
            None => DailyNetworkSummary::empty(date),
        }
    }
}

/// The dates of a list of summaries.
pub open spec fn summary_dates(v: Seq<DailyNetworkSummary>) -> Seq<Seq<char>> {
    v.map_values(|d: DailyNetworkSummary| d.date@)
}

/// Sorts summaries by date, earliest first (stable).
pub fn sort_by_date(v: Vec<DailyNetworkSummary>) -> (r: Vec<DailyNetworkSummary>)
    ensures
        sorted_texts(summary_dates(r@)),
        r@.to_multiset() == v@.to_multiset(),
        r@.len() == v@.len(),
{
    broadcast use vstd::seq_lib::group_to_multiset_ensures;
    let ghost orig = v@;
    let mut rest = v;
    let n = rest.len();
    let mut out: Vec<DailyNetworkSummary> = Vec::new();
    let mut k: usize = 0;
    while rest.len() > 0
        invariant
            n == orig.len(),
            k <= n,
            rest@ == orig.subrange(k as int, n as int),
            out@.len() == k,
            sorted_texts(summary_dates(out@)),
            out@.to_multiset() == orig.take(k as int).to_multiset(),
        decreases rest.len(),
    {
        let x = rest.remove(0);
        proof {
            assert(x == orig[k as int]);
        }
        let mut pos: usize = 0;
        while pos < out.len() && !lex_less(x.date.as_str(), out[pos].date.as_str())
            invariant
                pos <= out@.len(),
                forall|j: int| 0 <= j < pos ==> !lex_lt(x.date@, #[trigger] out@[j].date@),
            decreases out@.len() - pos,
        {
            pos = pos + 1;
        }
        let ghost before_s = out@;
        let ghost before = summary_dates(out@);
        out.insert(pos, x);
        proof {
            let after = summary_dates(out@);
            assert(out@ =~= before_s.insert(pos as int, x));
            assert(after =~= before.insert(pos as int, x.date@));
            assert(sorted_texts(after)) by {
                assert forall|i: int, j: int| 0 <= i < j < after.len() implies !lex_lt(after[j], after[i]) by {
                    if i < pos && j == pos {
                        assert(after[i] == before[i]);
                        assert(before[i] == before_s[i].date@);
                    } else if i == pos && j > pos {
                        assert(after[j] == before[j - 1]);
                        assert(before[pos as int] == before_s[pos as int].date@);
                        assert(lex_lt(x.date@, before[pos as int]));
                        lemma_lex_total(x.date@, before[pos as int]);
                        if lex_lt(before[j - 1], x.date@) {
                            if j - 1 > pos {
                                assert(!lex_lt(before[j - 1], before[pos as int]));
                                lemma_lex_trans(before[j - 1], x.date@, before[pos as int]);
                            }
                        }
                    } else if i < pos && j > pos {
                        assert(after[i] == before[i] && after[j] == before[j - 1]);
                    } else if j < pos {
                        assert(after[i] == before[i] && after[j] == before[j]);
                    } else {
                        assert(after[i] == before[i - 1] && after[j] == before[j - 1]);
                    }
                }
            }
            assert(orig.take(k as int + 1) =~= orig.take(k as int).push(x));
            vstd::seq_lib::to_multiset_insert(before_s, pos as int, x);
            vstd::seq_lib::to_multiset_build(orig.take(k as int), x);
        }
        k = k + 1;
        proof {
            assert(rest@ =~= orig.subrange(k as int, n as int));
        }
    }
    proof {
        assert(orig.take(n as int) =~= orig);
    }
    out
}

/// The summaries of `extra` whose date no summary of `data` has, in order.
pub open spec fn missing_days(data: Seq<DailyNetworkSummary>, extra: Seq<DailyNetworkSummary>) -> Seq<DailyNetworkSummary>
    decreases extra.len(),
{
    if extra.len() == 0 {
        Seq::empty()
    } else {
        let p = missing_days(data, extra.drop_last());
        if summary_dates(data).contains(extra.last().date@) { p } else { p.push(extra.last()) }
    }
}

impl NetworkStorageManager {
    /// A date range's summaries completed with those of `extra` (today's and
    /// tomorrow's, as loaded) whose date the range lacks, sorted by date.
    pub fn merge_history(&self, data: Vec<DailyNetworkSummary>, extra: Vec<DailyNetworkSummary>) -> (r: Vec<DailyNetworkSummary>)
        ensures
            sorted_texts(summary_dates(r@)),
            r@.to_multiset() == (data@ + missing_days(data@, extra@)).to_multiset(),
    {
        let ghost d0 = data@;
        let ghost e0 = extra@;
        let mut dates: Vec<String> = Vec::new();
        let mut i: usize = 0;
        while i < data.len()
            invariant
                i <= data@.len(),
                views(dates@) == summary_dates(data@).take(i as int),
            decreases data@.len() - i,
        {
            let ghost before = dates@;
            dates.push(data[i].date.clone());
            proof {
                assert(views(dates@) =~= views(before).push(data@[i as int].date@));
                assert(summary_dates(data@).take(i as int + 1) =~= summary_dates(data@).take(i as int).push(data@[i as int].date@));
            }
            i = i + 1;
        }
        proof {
            assert(views(dates@) =~= summary_dates(data@));
        }
        let mut all = data;
        let mut rest = extra;
        let n = rest.len();
        let mut k: usize = 0;
        while rest.len() > 0
            invariant
                n == e0.len(),
                k <= n,
                rest@ == e0.subrange(k as int, n as int),
                views(dates@) == summary_dates(d0),
                all@ == d0 + missing_days(d0, e0.take(k as int)),
            decreases rest.len(),
        {
            let x = rest.remove(0);
            proof {
                assert(x == e0[k as int]);
                assert(e0.take(k as int + 1).drop_last() =~= e0.take(k as int));
                assert(e0.take(k as int + 1).last() == x);
            }
            let ghost before = all@;
            let known = crate::text::contains_string(&dates, &x.date);
            if !known {
                all.push(x);
                proof {
                    assert(all@ =~= d0 + missing_days(d0, e0.take(k as int)).push(x));
                }
            }
            k = k + 1;
            proof {
                assert(rest@ =~= e0.subrange(k as int, n as int));
            }
        }
        proof {
            assert(e0.take(n as int) =~= e0);
        }
        sort_by_date(all)
    }
}

} // verus!
