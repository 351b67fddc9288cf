//! The storage manager: where daily files live, and how one more session
//! part is folded into a day's summary.
use vstd::prelude::*;
use super::types::{NetworkSession, DailyNetworkSummary};
use super::consolidation::{
    Counter, counter_sum, lemma_counter_sum_take, lemma_counter_sum_prefix_le, window_runs,
    merge_fits, consolidate_sessions, lemma_consolidation_keeps_totals, is_merge_of, merge_sessions,
};
use super::summary::{
    distinct_hosts, distinct_services, first_seen_bytes, covered_duration,
    calculate_unique_counts, calculate_macos_totals,
};
use crate::traffic_monitor::types::NetworkHost;
use crate::ordering::ranked;
use super::consolidation::session_hosts;

verus! {

/// Keeps daily network summaries under `storage_dir` and their backups
/// under `backup_dir`.
pub struct NetworkStorageManager {
    pub storage_dir: String,
    pub backup_dir: String,
}

/// The per-session sums of the day fit in `u64`.
pub open spec fn totals_fit(s: Seq<NetworkSession>) -> bool {
    &&& counter_sum(s, Counter::IncomingBytes) <= u64::MAX
    &&& counter_sum(s, Counter::OutgoingBytes) <= u64::MAX
    &&& counter_sum(s, Counter::Duration) <= u64::MAX
}

/// The totals of `d` are those computed from its sessions: plain sums of
/// each session's counters, or, with `per_host`, each host address counted
/// once and the duration taken as the span of the sessions.
pub open spec fn totals_match(d: DailyNetworkSummary, per_host: bool) -> bool {
    let s = d.sessions@;
    &&& per_host ==> d.total_incoming_bytes == first_seen_bytes(session_hosts(s), true)
    &&& per_host ==> d.total_outgoing_bytes == first_seen_bytes(session_hosts(s), false)
    &&& per_host ==> d.total_duration == covered_duration(s)
    &&& !per_host ==> d.total_incoming_bytes == counter_sum(s, Counter::IncomingBytes)
    &&& !per_host ==> d.total_outgoing_bytes == counter_sum(s, Counter::OutgoingBytes)
    &&& !per_host ==> d.total_duration == counter_sum(s, Counter::Duration)
    &&& d.unique_hosts == distinct_hosts(s)
    &&& d.unique_services == distinct_services(s)
}

/// The totals of `s` can be computed without overflow.
pub open spec fn totals_computable(s: Seq<NetworkSession>, per_host: bool) -> bool {
    &&& per_host ==> first_seen_bytes(session_hosts(s), true) <= u64::MAX
    &&& per_host ==> first_seen_bytes(session_hosts(s), false) <= u64::MAX
    &&& !per_host ==> totals_fit(s)
}

/// Sum of one counter over the sessions.
fn sum_counter(sessions: &[NetworkSession], c: Counter) -> (r: u64)
    requires
        counter_sum(sessions@, c) <= u64::MAX,
    ensures
        r == counter_sum(sessions@, c),
{
    let ghost g = sessions@;
    let mut total: u64 = 0;
    let mut i: usize = 0;
    while i < sessions.len()
        invariant
            g == sessions@,
            i <= g.len(),
            counter_sum(g, c) <= u64::MAX,
            total == counter_sum(g.take(i as int), c),
        decreases g.len() - i,
    {
        proof {
            lemma_counter_sum_take(g, i as int, c);
            lemma_counter_sum_prefix_le(g, i as int + 1, c);
        }
        let v = match c {
            Counter::IncomingBytes => sessions[i].total_incoming_bytes,
            Counter::OutgoingBytes => sessions[i].total_outgoing_bytes,
            Counter::IncomingPackets => sessions[i].total_incoming_packets,
            Counter::OutgoingPackets => sessions[i].total_outgoing_packets,
            Counter::Duration => sessions[i].duration,
        };
        total = total + v;
        i = i + 1;
    }
    proof {
        assert(g.take(g.len() as int) =~= g);
    }
    total
}

impl NetworkStorageManager {
    /// A manager over the given storage and backup directories.
    pub fn new(storage_dir: String, backup_dir: String) -> (r: NetworkStorageManager)
        ensures
            r.storage_dir == storage_dir,
            r.backup_dir == backup_dir,
    {
        NetworkStorageManager { storage_dir, backup_dir }
    }

    /// Recomputes the totals and distinct counts of a day from its sessions;
    /// `per_host` selects the per-address byte totals used on macOS.
    pub fn update_daily_summary_totals(&self, daily_summary: &mut DailyNetworkSummary, per_host: bool)
        requires
            totals_computable(old(daily_summary).sessions@, per_host),
        ensures
            final(daily_summary).sessions == old(daily_summary).sessions,
            final(daily_summary).date == old(daily_summary).date,
            totals_match(*final(daily_summary), per_host),
    {
        if per_host {
            let (tin, tout, dur) = calculate_macos_totals(daily_summary.sessions.as_slice());
            daily_summary.total_incoming_bytes = tin;
            daily_summary.total_outgoing_bytes = tout;
            daily_summary.total_duration = dur;
        } else {
            let tin = sum_counter(daily_summary.sessions.as_slice(), Counter::IncomingBytes);
            let tout = sum_counter(daily_summary.sessions.as_slice(), Counter::OutgoingBytes);
            let dur = sum_counter(daily_summary.sessions.as_slice(), Counter::Duration);
            daily_summary.total_incoming_bytes = tin;
            daily_summary.total_outgoing_bytes = tout;
            daily_summary.total_duration = dur;
        }
        let (hosts, services) = calculate_unique_counts(daily_summary.sessions.as_slice());
        daily_summary.unique_hosts = hosts;
        daily_summary.unique_services = services;
    }

    /// Merges a group of sessions the way the manager consolidates a day:
    /// as `merge_sessions` does, except that the duration is the sum of the
    /// sessions' durations rather than the time they span. An empty group is
    /// an error.
    pub fn merge_sessions(&self, adapter_name: &str, sessions: &[NetworkSession]) -> (r: Result<NetworkSession, String>)
        requires
            merge_fits(sessions@),
            counter_sum(sessions@, Counter::Duration) <= u64::MAX,
        ensures
            sessions@.len() == 0 <==> r is Err,
            r matches Err(e) ==> e@ == "Cannot merge empty sessions"@,
            r matches Ok(m) ==> is_summed_merge_of(m, adapter_name@, sessions@),
    {
        match merge_sessions(adapter_name, sessions) {
            Err(e) => Err(e),
            Ok(m) => {
                let total = sum_counter(sessions, Counter::Duration);
                let mut merged = m;
                merged.duration = total;
                Ok(merged)
            },
        }
    }
}

/// `r` is the merge of the non-empty list `g` under `adapter`, with the
/// sessions' durations summed.
pub open spec fn is_summed_merge_of(r: NetworkSession, adapter: Seq<char>, g: Seq<NetworkSession>) -> bool {
    &&& is_merge_of(NetworkSession { duration: super::consolidation::span_duration(g) as u64, ..r }, adapter, g)
    &&& r.duration == counter_sum(g, Counter::Duration)
}


/// The sessions a day held before a part is added: those of the loaded
/// summary, or none when the day had no summary yet.
pub open spec fn base_sessions(existing: Option<DailyNetworkSummary>) -> Seq<NetworkSession> {
    match existing {
        Some(d) => d.sessions@,
        None => Seq::empty(),
    }
}

/// `out` is what consolidating `s` under `adapter` produces.
pub open spec fn is_consolidation_of(out: Seq<NetworkSession>, adapter: Seq<char>, s: Seq<NetworkSession>) -> bool {
    &&& out.len() == window_runs(ranked(s)).len()
    &&& forall|k: int| 0 <= k < out.len() ==> is_merge_of(#[trigger] out[k], adapter, window_runs(ranked(s))[k])
}

/// Above this many sessions a day's sessions are consolidated.
pub const MAX_SESSIONS_PER_DAY: usize = 100;

impl NetworkStorageManager {
    /// Adds one session part to the summary of its day (a fresh summary for
    /// `date` when none was stored), consolidates the day's sessions into
    /// half-hour groups once there are more than a hundred, and recomputes
    /// the day's totals.
    pub fn add_day_part(
        &self,
        existing: Option<DailyNetworkSummary>,
        date: String,
        part: NetworkSession,
        adapter_name: &str,
        per_host: bool,
    ) -> (r: Result<DailyNetworkSummary, String>)
        requires
            base_sessions(existing).len() + 1 <= MAX_SESSIONS_PER_DAY
                ==> totals_computable(base_sessions(existing).push(part), per_host),
            base_sessions(existing).len() + 1 > MAX_SESSIONS_PER_DAY ==> {
                let added = base_sessions(existing).push(part);
                &&& forall|k: int| 0 <= k < window_runs(ranked(added)).len()
                        ==> merge_fits(#[trigger] window_runs(ranked(added))[k])
                &&& forall|out: Seq<NetworkSession>| is_consolidation_of(out, adapter_name@, added)
                        ==> totals_computable(out, per_host)
            },
        ensures
            r is Ok,
            r matches Ok(d) ==> {
                let added = base_sessions(existing).push(part);
                &&& d.date == (match existing { Some(e) => e.date, None => date })
                &&& added.len() <= MAX_SESSIONS_PER_DAY ==> d.sessions@ == added
                &&& added.len() > MAX_SESSIONS_PER_DAY ==> is_consolidation_of(d.sessions@, adapter_name@, added)
                &&& totals_match(d, per_host)
                &&& !per_host ==> d.total_incoming_bytes == counter_sum(added, Counter::IncomingBytes)
                &&& !per_host ==> d.total_outgoing_bytes == counter_sum(added, Counter::OutgoingBytes)
            },
    {
        let mut summary = match existing {
            Some(d) => d,
            None => DailyNetworkSummary::empty(date),
        };
        let ghost added = summary.sessions@.push(part);
        assert(added == base_sessions(existing).push(part));
        summary.sessions.push(part);
        if summary.sessions.len() > MAX_SESSIONS_PER_DAY {
            let mut taken: Vec<NetworkSession> = Vec::new();
            std::mem::swap(&mut taken, &mut summary.sessions);
            let consolidated = consolidate_sessions(taken, adapter_name);
            match consolidated {
                Ok(v) => {
                    summary.sessions = v;
                },
                Err(e) => {
                    return Err(e);
                },
            }
            proof {
                let out = summary.sessions@;
                assert(is_consolidation_of(out, adapter_name@, added));
                assert(totals_computable(out, per_host));
                lemma_consolidation_keeps_totals(added, adapter_name@, out, Counter::IncomingBytes);
                lemma_consolidation_keeps_totals(added, adapter_name@, out, Counter::OutgoingBytes);
            }
        }
        self.update_daily_summary_totals(&mut summary, per_host);
        Ok(summary)
    }
}


/// Recording a part into a day whose totals were up to date raises the
/// day's byte totals by exactly the part's bytes (plain sums, whether or not
/// the day was consolidated on the way).
pub proof fn lemma_recording_adds_part_bytes(before: DailyNetworkSummary, part: NetworkSession, after: DailyNetworkSummary)
    requires
        totals_match(before, false),
        after.total_incoming_bytes == counter_sum(before.sessions@.push(part), Counter::IncomingBytes),
        after.total_outgoing_bytes == counter_sum(before.sessions@.push(part), Counter::OutgoingBytes),
    ensures
        after.total_incoming_bytes == before.total_incoming_bytes + part.total_incoming_bytes,
        after.total_outgoing_bytes == before.total_outgoing_bytes + part.total_outgoing_bytes,
{
    assert(before.sessions@.push(part).drop_last() =~= before.sessions@);
}

/// `a - b`, or zero when `b` is larger.
pub open spec fn sat_sub(a: u64, b: u64) -> u64 {
    if a >= b { (a - b) as u64 } else { 0 }
}

/// The duration and traffic of one day's part of a session.
#[derive(Clone, Copy, Debug, PartialEq, Eq)]
pub struct PartAmounts {
    pub duration: u64,
    pub incoming_bytes: u64,
    pub outgoing_bytes: u64,
    pub incoming_packets: u64,
    pub outgoing_packets: u64,
}

impl PartAmounts {
    /// The duration and traffic of a whole session.
    pub fn of_session(s: &NetworkSession) -> (r: PartAmounts)
        ensures
            r.duration == s.duration,
            r.incoming_bytes == s.total_incoming_bytes,
            r.outgoing_bytes == s.total_outgoing_bytes,
            r.incoming_packets == s.total_incoming_packets,
            r.outgoing_packets == s.total_outgoing_packets,
    {
        PartAmounts {
            duration: s.duration,
            incoming_bytes: s.total_incoming_bytes,
            outgoing_bytes: s.total_outgoing_bytes,
            incoming_packets: s.total_incoming_packets,
            outgoing_packets: s.total_outgoing_packets,
        }
    }

    /// What remains of a session once `part` has been split off: each amount
    /// less the part's, and never below zero.
    pub fn take_part(&mut self, part: &PartAmounts)
        ensures
            final(self).duration == sat_sub(old(self).duration, part.duration),
            final(self).incoming_bytes == sat_sub(old(self).incoming_bytes, part.incoming_bytes),
            final(self).outgoing_bytes == sat_sub(old(self).outgoing_bytes, part.outgoing_bytes),
            final(self).incoming_packets == sat_sub(old(self).incoming_packets, part.incoming_packets),
            final(self).outgoing_packets == sat_sub(old(self).outgoing_packets, part.outgoing_packets),
    {
        self.duration = self.duration.saturating_sub(part.duration);
        self.incoming_bytes = self.incoming_bytes.saturating_sub(part.incoming_bytes);
        self.outgoing_bytes = self.outgoing_bytes.saturating_sub(part.outgoing_bytes);
        self.incoming_packets = self.incoming_packets.saturating_sub(part.incoming_packets);
        self.outgoing_packets = self.outgoing_packets.saturating_sub(part.outgoing_packets);
    }
}

/// Splitting off a part no larger than what remains keeps the whole: what
/// remains afterwards and the part add up to what remained before.
pub proof fn lemma_split_keeps_totals(before: PartAmounts, part: PartAmounts, after: PartAmounts)
    requires
        part.duration <= before.duration,
        part.incoming_bytes <= before.incoming_bytes,
        part.outgoing_bytes <= before.outgoing_bytes,
        part.incoming_packets <= before.incoming_packets,
        part.outgoing_packets <= before.outgoing_packets,
        after.duration == sat_sub(before.duration, part.duration),
        after.incoming_bytes == sat_sub(before.incoming_bytes, part.incoming_bytes),
        after.outgoing_bytes == sat_sub(before.outgoing_bytes, part.outgoing_bytes),
        after.incoming_packets == sat_sub(before.incoming_packets, part.incoming_packets),
        after.outgoing_packets == sat_sub(before.outgoing_packets, part.outgoing_packets),
    ensures
        after.duration + part.duration == before.duration,
        after.incoming_bytes + part.incoming_bytes == before.incoming_bytes,
        after.outgoing_bytes + part.outgoing_bytes == before.outgoing_bytes,
        after.incoming_packets + part.incoming_packets == before.incoming_packets,
        after.outgoing_packets + part.outgoing_packets == before.outgoing_packets,
{
}

/// The part of `session` that falls between `start` and `end` (Unix
/// seconds) with the given amounts. Only the last part of a session keeps
/// its traffic samples; every part keeps its hosts and services.
pub fn day_part(session: &NetworkSession, start: u64, end: u64, amounts: &PartAmounts, last: bool) -> (r: NetworkSession)
    ensures
        r.adapter_name == session.adapter_name,
        r.start_time == start,
        r.end_time == Some(end),
        r.duration == amounts.duration,
        r.total_incoming_bytes == amounts.incoming_bytes,
        r.total_outgoing_bytes == amounts.outgoing_bytes,
        r.total_incoming_packets == amounts.incoming_packets,
        r.total_outgoing_packets == amounts.outgoing_packets,
        last ==> r.traffic_data@ == session.traffic_data@,
        !last ==> r.traffic_data@.len() == 0,
        r.top_hosts@ == session.top_hosts@,
        r.top_services@ == session.top_services@,
{
    let copy = session.duplicate();
    NetworkSession {
        adapter_name: copy.adapter_name,
        start_time: start,
        end_time: Some(end),
        total_incoming_bytes: amounts.incoming_bytes,
        total_outgoing_bytes: amounts.outgoing_bytes,
        total_incoming_packets: amounts.incoming_packets,
        total_outgoing_packets: amounts.outgoing_packets,
        duration: amounts.duration,
        traffic_data: if last { copy.traffic_data } else { Vec::new() },
        top_hosts: copy.top_hosts,
        top_services: copy.top_services,
    }
}

} // verus!
