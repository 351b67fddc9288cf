//! The day report: active and inactive stretches read from the log, clipped
//! to the day, ordered by start, with the gaps between them marked as time
//! the tracker did not run.
use vstd::prelude::*;
use crate::ordering::{SortKey, ranked, rank};
use super::line::{LogLine, classify, classify_line};
use super::log_file::{log_frames, record_text, records_readable, read_log_lines};
use crate::text::{has_prefix, has_suffix, strip_affixes};
use crate::network_storage::files::{parsed_day, parse_day};

verus! {

/// What a stretch of the day was.
#[derive(Debug, Clone, Copy, PartialEq, Eq)]
pub enum EventKind {
    Active,
    Inactive,
    NotRun,
}

/// A stretch of time, in Unix seconds.
#[derive(Debug, Clone, Copy, PartialEq, Eq)]
pub struct TimelineEvent {
    pub start: i64,
    pub end: i64,
    pub kind: EventKind,
}

/// Stretches are ordered by start, earliest first.
impl SortKey for TimelineEvent {
    open spec fn sort_key(&self) -> int {
        -(self.start as int)
    }

    fn key_value(&self) -> (k: i128) {
        -(self.start as i128)
    }
}

impl EventKind {
    /// The label the report prints for the stretch.
    pub fn label(&self) -> (s: &'static str)
        ensures
            s@ == match *self {
                EventKind::Active => "Active"@,
                EventKind::Inactive => "Inactive"@,
                EventKind::NotRun => "Not run"@,
            },
    {
        match self {
            EventKind::Active => "Active",
            EventKind::Inactive => "Inactive",
            EventKind::NotRun => "Not run",
        }
    }
}

/// Position of the group with start time `start`, or -1.
pub open spec fn group_index(gs: Seq<(i64, i64)>, start: i64) -> int
    decreases gs.len(),
{
    if gs.len() == 0 {
        -1
    } else if gs.last().0 == start {
        gs.len() - 1
    } else {
        group_index(gs.drop_last(), start)
    }
}

/// Active stretches grouped by start time, in order of first appearance,
/// each with the latest end time logged for that start.
pub open spec fn active_groups(lines: Seq<LogLine>) -> Seq<(i64, i64)>
    decreases lines.len(),
{
    if lines.len() == 0 {
        Seq::empty()
    } else {
        let g = active_groups(lines.drop_last());
        match lines.last() {
            LogLine::Active { end, start } => {
                let k = group_index(g, start);
                if k >= 0 {
                    g.update(k, (start, if g[k].1 >= end { g[k].1 } else { end }))
                } else {
                    g.push((start, end))
                }
            },
            _ => g,
        }
    }
}

/// Inactive stretches `(start, end)` in log order.
pub open spec fn inactive_periods(lines: Seq<LogLine>) -> Seq<(i64, i64)>
    decreases lines.len(),
{
    if lines.len() == 0 {
        Seq::empty()
    } else {
        let p = inactive_periods(lines.drop_last());
        match lines.last() {
            LogLine::Inactive { end, start } => p.push((start, end)),
            _ => p,
        }
    }
}

/// Stretches of one kind.
pub open spec fn as_events(ps: Seq<(i64, i64)>, kind: EventKind) -> Seq<TimelineEvent> {
    ps.map_values(|p: (i64, i64)| TimelineEvent { start: p.0, end: p.1, kind })
}

/// All stretches read from the log: active groups, then inactive ones.
pub open spec fn raw_events(lines: Seq<LogLine>) -> Seq<TimelineEvent> {
    as_events(active_groups(lines), EventKind::Active) + as_events(inactive_periods(lines), EventKind::Inactive)
}

/// The stretches that overlap the day, cut to it.
pub open spec fn clip_events(evs: Seq<TimelineEvent>, day_start: i64, day_end: i64) -> Seq<TimelineEvent>
    decreases evs.len(),
{
    if evs.len() == 0 {
        Seq::empty()
    } else {
        let p = clip_events(evs.drop_last(), day_start, day_end);
        let e = evs.last();
        if e.start <= day_end && e.end >= day_start {
            p.push(TimelineEvent {
                start: if e.start >= day_start { e.start } else { day_start },
                end: if e.end <= day_end { e.end } else { day_end },
                kind: e.kind,
            })
        } else {
            p
        }
    }
}

/// The stretches with a not-run stretch inserted wherever one ends before
/// the next begins.
pub open spec fn gaps_between(ts: Seq<TimelineEvent>) -> Seq<TimelineEvent>
    decreases ts.len(),
{
    if ts.len() <= 1 {
        ts
    } else {
        let p = ts.drop_last();
        let prev = p.last();
        let cur = ts.last();
        gaps_between(p) + (if prev.end < cur.start {
            seq![TimelineEvent { start: prev.end, end: cur.start, kind: EventKind::NotRun }]
        } else {
            Seq::empty()
        }) + seq![cur]
    }
}

/// The whole day: the stretches with gaps marked, including before the
/// first and after the last; a day without stretches did not run at all.
pub open spec fn with_gaps(ts: Seq<TimelineEvent>, day_start: i64, day_end: i64) -> Seq<TimelineEvent> {
    if ts.len() == 0 {
        seq![TimelineEvent { start: day_start, end: day_end, kind: EventKind::NotRun }]
    } else {
        (if day_start < ts[0].start {
            seq![TimelineEvent { start: day_start, end: ts[0].start, kind: EventKind::NotRun }]
        } else {
            Seq::empty()
        }) + gaps_between(ts) + (if ts.last().end < day_end {
            seq![TimelineEvent { start: ts.last().end, end: day_end, kind: EventKind::NotRun }]
        } else {
            Seq::empty()
        })
    }
}

/// The report for the day from `day_start` to `day_end` built from the
/// log's lines.
pub open spec fn day_timeline(lines: Seq<LogLine>, day_start: i64, day_end: i64) -> Seq<TimelineEvent> {
    with_gaps(ranked(clip_events(ranked(raw_events(lines)), day_start, day_end)), day_start, day_end)
}

/// The lines of a log as the report reads them.
pub open spec fn log_lines(content: Seq<u8>, key: Seq<u8>) -> Seq<LogLine> {
    log_frames(content).0.map_values(|f: (Seq<u8>, Seq<u8>)| classify(record_text(key, f)))
}


/// Position of the group with start time `start`.
fn find_group(gs: &Vec<(i64, i64)>, start: i64) -> (r: Option<usize>)
    ensures
        match r {
            Some(k) => group_index(gs@, start) == k as int && k < gs@.len(),
            None => group_index(gs@, start) == -1,
        },
{
    let mut i = gs.len();
    proof {
        assert(gs@.take(i as int) =~= gs@);
    }
    while i > 0
        invariant
            i <= gs@.len(),
            group_index(gs@, start) == group_index(gs@.take(i as int), start),
        decreases i,
    {
        let ghost t = gs@.take(i as int);
        proof {
            assert(t.drop_last() =~= gs@.take(i - 1));
            assert(t.last() == gs@[i - 1]);
        }
        if gs[i - 1].0 == start {
            return Some(i - 1);
        }
        i = i - 1;
    }
    None
}

/// The active groups and inactive stretches of the lines, as events.
pub fn collect_events(lines: &Vec<LogLine>) -> (r: Vec<TimelineEvent>)
    ensures
        r@ == raw_events(lines@),
{
    let mut groups: Vec<(i64, i64)> = Vec::new();
    let mut inactive: Vec<(i64, i64)> = Vec::new();
    let mut i: usize = 0;
    while i < lines.len()
        invariant
            i <= lines@.len(),
            groups@ == active_groups(lines@.take(i as int)),
            inactive@ == inactive_periods(lines@.take(i as int)),
        decreases lines@.len() - i,
    {
        let ghost t = lines@.take(i as int + 1);
        proof {
            assert(t.drop_last() =~= lines@.take(i as int));
            assert(t.last() == lines@[i as int]);
        }
        match lines[i] {
            LogLine::Active { end, start } => {
                match find_group(&groups, start) {
                    Some(k) => {
                        let cur = groups[k].1;
                        let m = if cur >= end { cur } else { end };
                        groups.set(k, (start, m));
                    },
                    None => {
                        groups.push((start, end));
                    },
                }
            },
            LogLine::Inactive { end, start } => {
                inactive.push((start, end));
            },
            LogLine::Other => {},
        }
        i = i + 1;
    }
    proof {
        assert(lines@.take(lines@.len() as int) =~= lines@);
    }
    let mut events: Vec<TimelineEvent> = Vec::new();
    let mut j: usize = 0;
    while j < groups.len()
        invariant
            j <= groups@.len(),
            events@ == as_events(groups@.take(j as int), EventKind::Active),
        decreases groups@.len() - j,
    {
        let (st, en) = groups[j];
        events.push(TimelineEvent { start: st, end: en, kind: EventKind::Active });
        j = j + 1;
        proof {
            assert(events@ =~= as_events(groups@.take(j as int), EventKind::Active));
        }
    }
    let ghost first = events@;
    let mut k: usize = 0;
    while k < inactive.len()
        invariant
            k <= inactive@.len(),
            first == as_events(groups@, EventKind::Active),
            events@ == first + as_events(inactive@.take(k as int), EventKind::Inactive),
        decreases inactive@.len() - k,
    {
        let (st, en) = inactive[k];
        events.push(TimelineEvent { start: st, end: en, kind: EventKind::Inactive });
        k = k + 1;
        proof {
            assert(events@ =~= first + as_events(inactive@.take(k as int), EventKind::Inactive));
        }
    }
    proof {
        assert(groups@.take(groups@.len() as int) =~= groups@);
        assert(inactive@.take(inactive@.len() as int) =~= inactive@);
    }
    events
}

/// Keeps the events that overlap the day, cut to it.
pub fn clip_to_day(evs: &Vec<TimelineEvent>, day_start: i64, day_end: i64) -> (r: Vec<TimelineEvent>)
    ensures
        r@ == clip_events(evs@, day_start, day_end),
{
    let mut out: Vec<TimelineEvent> = Vec::new();
    let mut i: usize = 0;
    while i < evs.len()
        invariant
            i <= evs@.len(),
            out@ == clip_events(evs@.take(i as int), day_start, day_end),
        decreases evs@.len() - i,
    {
        let ghost t = evs@.take(i as int + 1);
        proof {
            assert(t.drop_last() =~= evs@.take(i as int));
            assert(t.last() == evs@[i as int]);
        }
        let e = evs[i];
        if e.start <= day_end && e.end >= day_start {
            out.push(TimelineEvent {
                start: if e.start >= day_start { e.start } else { day_start },
                end: if e.end <= day_end { e.end } else { day_end },
                kind: e.kind,
            });
        }
        i = i + 1;
    }
    proof {
        assert(evs@.take(evs@.len() as int) =~= evs@);
    }
    out
}

/// The day with gaps marked as not-run stretches.
pub fn fill_gaps(ts: &Vec<TimelineEvent>, day_start: i64, day_end: i64) -> (r: Vec<TimelineEvent>)
    ensures
        r@ == with_gaps(ts@, day_start, day_end),
{
    let mut out: Vec<TimelineEvent> = Vec::new();
    if ts.len() == 0 {
        out.push(TimelineEvent { start: day_start, end: day_end, kind: EventKind::NotRun });
        proof {
            assert(out@ =~= with_gaps(ts@, day_start, day_end));
        }
        return out;
    }
    if day_start < ts[0].start {
        out.push(TimelineEvent { start: day_start, end: ts[0].start, kind: EventKind::NotRun });
    }
    let ghost lead = out@;
    out.push(ts[0]);
    proof {
        assert(ts@.take(1) =~= seq![ts@[0]]);
        assert(out@ =~= lead + gaps_between(ts@.take(1)));
    }
    let mut i: usize = 1;
    while i < ts.len()
        invariant
            1 <= i <= ts@.len(),
            out@ == lead + gaps_between(ts@.take(i as int)),
        decreases ts@.len() - i,
    {
        let ghost t = ts@.take(i as int + 1);
        proof {
            assert(t.drop_last() =~= ts@.take(i as int));
            assert(t.last() == ts@[i as int]);
            assert(t.drop_last().last() == ts@[i - 1]);
        }
        let prev_end = ts[i - 1].end;
        let cur = ts[i];
        if prev_end < cur.start {
            out.push(TimelineEvent { start: prev_end, end: cur.start, kind: EventKind::NotRun });
        }
        out.push(cur);
        i = i + 1;
        proof {
            assert(out@ =~= lead + gaps_between(ts@.take(i as int)));
        }
    }
    let last_end = ts[ts.len() - 1].end;
    if last_end < day_end {
        out.push(TimelineEvent { start: last_end, end: day_end, kind: EventKind::NotRun });
    }
    proof {
        assert(ts@.take(ts@.len() as int) =~= ts@);
        assert(out@ =~= with_gaps(ts@, day_start, day_end));
    }
    out
}

/// The report for the day from `day_start` to `day_end` (Unix seconds)
/// built from the log's lines: each active start with its latest end, the
/// inactive stretches, cut to the day and ordered by start, with the time
/// between them marked as not run.
pub fn build_day_timeline(lines: &Vec<LogLine>, day_start: i64, day_end: i64) -> (r: Vec<TimelineEvent>)
    ensures
        r@ == day_timeline(lines@, day_start, day_end),
{
    let events = collect_events(lines);
    let ordered = rank(events);
    let clipped = clip_to_day(&ordered, day_start, day_end);
    let reordered = rank(clipped);
    fill_gaps(&reordered, day_start, day_end)
}

/// Reads a log and builds the report for the day from `day_start` to
/// `day_end`. Fails, as reading does, on the first record that does not
/// decrypt to text.
pub fn aggregate_log_results(content: &[u8], key: &[u8; 32], day_start: i64, day_end: i64) -> (r: Result<Vec<TimelineEvent>, String>)
    ensures
        r is Ok <==> records_readable(content@, key@),
        r matches Err(e) ==> e@ == "Decryption failed: Unspecified"@,
        r matches Ok(v) ==> v@ == day_timeline(log_lines(content@, key@), day_start, day_end),
{
    let texts = read_log_lines(content, key)?;
    let mut lines: Vec<LogLine> = Vec::new();
    let mut i: usize = 0;
    while i < texts.len()
        invariant
            i <= texts@.len(),
            texts@.len() == log_frames(content@).0.len(),
            forall|k: int| 0 <= k < texts@.len() ==> #[trigger] texts@[k]@ == record_text(key@, log_frames(content@).0[k]),
            lines@ == log_lines(content@, key@).take(i as int),
        decreases texts@.len() - i,
    {
        let l = classify_line(texts[i].as_str());
        lines.push(l);
        i = i + 1;
        proof {
            assert(lines@ =~= log_lines(content@, key@).take(i as int));
        }
    }
    proof {
        assert(lines@ =~= log_lines(content@, key@));
    }
    Ok(build_day_timeline(&lines, day_start, day_end))
}


/// Marking gaps keeps the first and last stretch and leaves no hole between
/// consecutive events.
proof fn lemma_gaps_between_contiguous(ts: Seq<TimelineEvent>)
    requires
        ts.len() >= 1,
    ensures
        gaps_between(ts).len() >= 1,
        gaps_between(ts)[0] == ts[0],
        gaps_between(ts).last() == ts.last(),
        forall|i: int| 0 <= i < gaps_between(ts).len() - 1
            ==> #[trigger] gaps_between(ts)[i].end >= gaps_between(ts)[i + 1].start,
    decreases ts.len(),
{
    if ts.len() > 1 {
        let p = ts.drop_last();
        lemma_gaps_between_contiguous(p);
        let g = gaps_between(p);
        let prev = p.last();
        let cur = ts.last();
        let mid = if prev.end < cur.start {
            seq![TimelineEvent { start: prev.end, end: cur.start, kind: EventKind::NotRun }]
        } else {
            Seq::empty()
        };
        let out = g + mid + seq![cur];
        assert(gaps_between(ts) == out);
        assert(g[0] == p[0] && p[0] == ts[0]);
        assert forall|i: int| 0 <= i < out.len() - 1 implies #[trigger] out[i].end >= out[i + 1].start by {
            if i < g.len() - 1 {
                assert(out[i] == g[i] && out[i + 1] == g[i + 1]);
            } else if i == g.len() - 1 {
                assert(out[i] == g.last());
                assert(g.last() == prev);
            } else {
                assert(mid.len() == 1 && i == g.len());
                assert(out[i] == mid[0] && out[i + 1] == cur);
            }
        }
    }
}

/// The day report covers the whole day without holes: it is never empty, it
/// starts no later than the day and ends no earlier, and every event ends no
/// earlier than the next one starts. Time between two stretches of the log
/// (and before the first or after the last) is thus always reported, as
/// time the tracker did not run.
pub proof fn lemma_day_report_covers_day(lines: Seq<LogLine>, day_start: i64, day_end: i64)
    ensures
        ({
            let r = day_timeline(lines, day_start, day_end);
            &&& r.len() >= 1
            &&& r[0].start <= day_start
            &&& r.last().end >= day_end
            &&& forall|i: int| 0 <= i < r.len() - 1 ==> #[trigger] r[i].end >= r[i + 1].start
        }),
{
    let ts = ranked(clip_events(ranked(raw_events(lines)), day_start, day_end));
    let r = day_timeline(lines, day_start, day_end);
    if ts.len() > 0 {
        lemma_gaps_between_contiguous(ts);
        let g = gaps_between(ts);
        let lead = if day_start < ts[0].start {
            seq![TimelineEvent { start: day_start, end: ts[0].start, kind: EventKind::NotRun }]
        } else {
            Seq::empty()
        };
        let tail = if ts.last().end < day_end {
            seq![TimelineEvent { start: ts.last().end, end: day_end, kind: EventKind::NotRun }]
        } else {
            Seq::empty()
        };
        assert(r == lead + g + tail);
        assert forall|i: int| 0 <= i < r.len() - 1 implies #[trigger] r[i].end >= r[i + 1].start by {
            let l = lead.len() as int;
            if i < l {
                assert(i == 0 && r[0] == lead[0] && r[1] == g[0]);
            } else if i < l + g.len() - 1 {
                assert(r[i] == g[i - l] && r[i + 1] == g[i - l + 1]);
            } else {
                assert(i == l + g.len() - 1);
                assert(r[i] == g.last());
                assert(tail.len() == 1 && r[i + 1] == tail[0]);
            }
        }
        if lead.len() == 0 {
            assert(r[0] == g[0]);
        }
        if tail.len() == 0 {
            assert(r.last() == g.last());
        }
    }
}

/// The date part of a log file name `rs-fairsight(DATE).txt`.
pub open spec fn log_file_date(name: Seq<char>) -> Option<Seq<char>> {
    let rest = name.subrange("rs-fairsight("@.len() as int, name.len() as int);
    if has_prefix(name, "rs-fairsight("@) && has_suffix(rest, ").txt"@) {
        Some(rest.subrange(0, rest.len() - ").txt"@.len()))
    } else {
        None
    }
}

/// The day (counted from the Common Era, as chrono counts) whose report a
/// log file holds, read from its name `rs-fairsight(YYYY-MM-DD).txt`.
/// Fails on another name, and on a date chrono cannot read.
pub fn log_file_day(file_name: &str) -> (r: Result<i32, String>)
    ensures
        log_file_date(file_name@) is None ==> (r matches Err(e) && e@ == "Invalid filename format"@),
        log_file_date(file_name@) matches Some(d) ==> (r is Ok <==> parsed_day(d) is Some),
        log_file_date(file_name@) matches Some(d) ==> (r matches Ok(n) ==> parsed_day(d) == Some(n)),
{
    proof {
        reveal_strlit("rs-fairsight(");
        reveal_strlit(").txt");
    }
    match strip_affixes(file_name, "rs-fairsight(", ").txt") {
        None => Err(String::from_str("Invalid filename format")),
        Some(date) => parse_day(date.as_str()),
    }
}

} // verus!
