//! Merging and consolidation of stored sessions, and the per-day counts.
use vstd::prelude::*;
use crate::ordering::{SortKey, ranked, rank, insert_ranked};
use crate::traffic_monitor::types::{NetworkHost, ServiceInfo};
use super::types::NetworkSession;

verus! {

/// The numeric counters a session carries.
pub enum Counter {
    IncomingBytes,
    OutgoingBytes,
    IncomingPackets,
    OutgoingPackets,
    Duration,
}

/// The value of one counter of a session.
pub open spec fn counter(s: NetworkSession, c: Counter) -> int {
    match c {
        Counter::IncomingBytes => s.total_incoming_bytes as int,
        Counter::OutgoingBytes => s.total_outgoing_bytes as int,
        Counter::IncomingPackets => s.total_incoming_packets as int,
        Counter::OutgoingPackets => s.total_outgoing_packets as int,
        Counter::Duration => s.duration as int,
    }
}

/// The sum of one counter over a list of sessions.
pub open spec fn counter_sum(g: Seq<NetworkSession>, c: Counter) -> int
    decreases g.len(),
{
    if g.len() == 0 {
        0
    } else {
        counter_sum(g.drop_last(), c) + counter(g.last(), c)
    }
}

/// All top hosts of a list of sessions, in session order.
pub open spec fn session_hosts(g: Seq<NetworkSession>) -> Seq<NetworkHost> {
    g.map_values(|s: NetworkSession| s.top_hosts@).flatten()
}

/// All top services of a list of sessions, in session order.
pub open spec fn session_services(g: Seq<NetworkSession>) -> Seq<ServiceInfo> {
    g.map_values(|s: NetworkSession| s.top_services@).flatten()
}

/// The first `n` elements of `s`, or all of them when `s` is shorter.
pub open spec fn first_n<T>(s: Seq<T>, n: nat) -> Seq<T> {
    if s.len() <= n {
        s
    } else {
        s.take(n as int)
    }
}

/// Time covered by a non-empty list of sessions: from the first start to
/// the last end (the last start when the last session has no end), or zero.
pub open spec fn span_duration(g: Seq<NetworkSession>) -> int {
    let start = g[0].start_time;
    let end = match g.last().end_time {
        Some(e) => e,
        None => start,
    };
    if end > start {
        end - start
    } else {
        0
    }
}

/// Merging `g` does not overflow: the summed counters fit in `u64`, and when
/// hosts are compared for ranking, each host's byte total fits too.
pub open spec fn merge_fits(g: Seq<NetworkSession>) -> bool {
    &&& counter_sum(g, Counter::IncomingBytes) <= u64::MAX
    &&& counter_sum(g, Counter::OutgoingBytes) <= u64::MAX
    &&& counter_sum(g, Counter::IncomingPackets) <= u64::MAX
    &&& counter_sum(g, Counter::OutgoingPackets) <= u64::MAX
    &&& session_hosts(g).len() >= 2 ==> forall|i: int|
        0 <= i < session_hosts(g).len() ==> #[trigger] session_hosts(g)[i].total_bytes() <= u64::MAX
}

/// `r` is the merge of the non-empty list `g` under the adapter name `adapter`.
pub open spec fn is_merge_of(r: NetworkSession, adapter: Seq<char>, g: Seq<NetworkSession>) -> bool {
    &&& r.adapter_name@ == adapter
    &&& r.start_time == g[0].start_time
    &&& r.end_time == g.last().end_time
    &&& r.total_incoming_bytes == counter_sum(g, Counter::IncomingBytes)
    &&& r.total_outgoing_bytes == counter_sum(g, Counter::OutgoingBytes)
    &&& r.total_incoming_packets == counter_sum(g, Counter::IncomingPackets)
    &&& r.total_outgoing_packets == counter_sum(g, Counter::OutgoingPackets)
    &&& r.duration == span_duration(g)
    &&& r.traffic_data@.len() == 0
    &&& r.top_hosts@ == first_n(ranked(session_hosts(g)), 10)
    &&& r.top_services@ == first_n(ranked(session_services(g)), 10)
}

/// A counter sum over a prefix: extending the prefix by one element.
pub proof fn lemma_counter_sum_take(g: Seq<NetworkSession>, i: int, c: Counter)
    requires
        0 <= i < g.len(),
    ensures
        counter_sum(g.take(i + 1), c) == counter_sum(g.take(i), c) + counter(g[i], c),
{
    assert(g.take(i + 1).drop_last() =~= g.take(i));
}

/// Counter sums only grow along prefixes.
pub proof fn lemma_counter_sum_prefix_le(g: Seq<NetworkSession>, i: int, c: Counter)
    requires
        0 <= i <= g.len(),
    ensures
        0 <= counter_sum(g.take(i), c) <= counter_sum(g, c),
    decreases g.len() - i,
{
    if i == g.len() {
        assert(g.take(i) =~= g);
        lemma_counter_sum_nonneg(g, c);
    } else {
        lemma_counter_sum_prefix_le(g, i + 1, c);
        lemma_counter_sum_take(g, i, c);
        lemma_counter_sum_nonneg(g.take(i), c);
    }
}

/// Counter sums are never negative.
pub proof fn lemma_counter_sum_nonneg(g: Seq<NetworkSession>, c: Counter)
    ensures
        counter_sum(g, c) >= 0,
    decreases g.len(),
{
    if g.len() > 0 {
        lemma_counter_sum_nonneg(g.drop_last(), c);
    }
}

/// Counter sums split over concatenation.
pub proof fn lemma_counter_sum_concat(a: Seq<NetworkSession>, b: Seq<NetworkSession>, c: Counter)
    ensures
        counter_sum(a + b, c) == counter_sum(a, c) + counter_sum(b, c),
    decreases b.len(),
{
    if b.len() == 0 {
        assert(a + b =~= a);
    } else {
        lemma_counter_sum_concat(a, b.drop_last(), c);
        assert((a + b).drop_last() =~= a + b.drop_last());
    }
}

/// The hosts of a prefix grow by the hosts of the next session.
pub proof fn lemma_session_hosts_take(g: Seq<NetworkSession>, i: int)
    requires
        0 <= i < g.len(),
    ensures
        session_hosts(g.take(i + 1)) == session_hosts(g.take(i)) + g[i].top_hosts@,
        session_services(g.take(i + 1)) == session_services(g.take(i)) + g[i].top_services@,
{
    let fh = |s: NetworkSession| s.top_hosts@;
    let fs = |s: NetworkSession| s.top_services@;
    assert(g.take(i + 1).map_values(fh) =~= g.take(i).map_values(fh).push(g[i].top_hosts@));
    assert(g.take(i + 1).map_values(fs) =~= g.take(i).map_values(fs).push(g[i].top_services@));
    g.take(i).map_values(fh).lemma_flatten_push(g[i].top_hosts@);
    g.take(i).map_values(fs).lemma_flatten_push(g[i].top_services@);
}

/// Appends copies of `src` to `v`.
pub fn append_hosts(v: &mut Vec<NetworkHost>, src: &Vec<NetworkHost>)
    ensures
        final(v)@ == old(v)@ + src@,
{
    let mut i: usize = 0;
    while i < src.len()
        invariant
            i <= src.len(),
            v@ == old(v)@ + src@.subrange(0, i as int),
        decreases src.len() - i,
    {
        v.push(src[i].duplicate());
        i = i + 1;
        proof {
            assert(v@ =~= old(v)@ + src@.subrange(0, i as int));
        }
    }
    proof {
        assert(src@.subrange(0, src.len() as int) =~= src@);
    }
}

/// Appends copies of `src` to `v`.
pub fn append_services(v: &mut Vec<ServiceInfo>, src: &Vec<ServiceInfo>)
    ensures
        final(v)@ == old(v)@ + src@,
{
    let mut i: usize = 0;
    while i < src.len()
        invariant
            i <= src.len(),
            v@ == old(v)@ + src@.subrange(0, i as int),
        decreases src.len() - i,
    {
        v.push(src[i].duplicate());
        i = i + 1;
        proof {
            assert(v@ =~= old(v)@ + src@.subrange(0, i as int));
        }
    }
    proof {
        assert(src@.subrange(0, src.len() as int) =~= src@);
    }
}

/// Merges a group of sessions into one: counters are summed, the time span
/// runs from the first start to the last end, detailed samples are dropped,
/// and the ten highest-traffic hosts and services of the group are kept.
/// An empty group is an error.
pub fn merge_sessions(adapter_name: &str, sessions: &[NetworkSession]) -> (r: Result<NetworkSession, String>)
    requires
        merge_fits(sessions@),
    ensures
        sessions@.len() == 0 <==> r is Err,
        r matches Err(e) ==> e@ == "Cannot merge empty sessions"@,
        r matches Ok(m) ==> is_merge_of(m, adapter_name@, sessions@),
{
    if sessions.len() == 0 {
        return Err(String::from_str("Cannot merge empty sessions"));
    }
    let ghost g = sessions@;
    let n = sessions.len();
    let mut tin: u64 = 0;
    let mut tout: u64 = 0;
    let mut pin: u64 = 0;
    let mut pout: u64 = 0;
    let mut hosts: Vec<NetworkHost> = Vec::new();
    let mut services: Vec<ServiceInfo> = Vec::new();
    let mut i: usize = 0;
    proof {
        assert(g.take(0) =~= Seq::<NetworkSession>::empty());
        assert(g.take(0).map_values(|s: NetworkSession| s.top_hosts@) =~= Seq::<Seq<NetworkHost>>::empty());
        assert(g.take(0).map_values(|s: NetworkSession| s.top_services@) =~= Seq::<Seq<ServiceInfo>>::empty());
    }
    while i < n
        invariant
            n == g.len(),
            g == sessions@,
            merge_fits(g),
            i <= n,
            tin == counter_sum(g.take(i as int), Counter::IncomingBytes),
            tout == counter_sum(g.take(i as int), Counter::OutgoingBytes),
            pin == counter_sum(g.take(i as int), Counter::IncomingPackets),
            pout == counter_sum(g.take(i as int), Counter::OutgoingPackets),
            hosts@ == session_hosts(g.take(i as int)),
            services@ == session_services(g.take(i as int)),
        decreases n - i,
    {
        proof {
            lemma_counter_sum_take(g, i as int, Counter::IncomingBytes);
            lemma_counter_sum_take(g, i as int, Counter::OutgoingBytes);
            lemma_counter_sum_take(g, i as int, Counter::IncomingPackets);
            lemma_counter_sum_take(g, i as int, Counter::OutgoingPackets);
            lemma_counter_sum_prefix_le(g, i + 1, Counter::IncomingBytes);
            lemma_counter_sum_prefix_le(g, i + 1, Counter::OutgoingBytes);
            lemma_counter_sum_prefix_le(g, i + 1, Counter::IncomingPackets);
            lemma_counter_sum_prefix_le(g, i + 1, Counter::OutgoingPackets);
            lemma_session_hosts_take(g, i as int);
        }
        tin = tin + sessions[i].total_incoming_bytes;
        tout = tout + sessions[i].total_outgoing_bytes;
        pin = pin + sessions[i].total_incoming_packets;
        pout = pout + sessions[i].total_outgoing_packets;
        append_hosts(&mut hosts, &sessions[i].top_hosts);
        append_services(&mut services, &sessions[i].top_services);
        i = i + 1;
    }
    proof {
        assert(g.take(n as int) =~= g);
    }
    let start_time = sessions[0].start_time;
    let end_time = sessions[n - 1].end_time;
    let end = match end_time {
        Some(e) => e,
        None => start_time,
    };
    let duration = if end > start_time { end - start_time } else { 0 };
    let mut ranked_hosts = rank(hosts);
    ranked_hosts.truncate(10);
    let mut ranked_services = rank(services);
    ranked_services.truncate(10);
    let name = adapter_name.to_owned();
    proof {
        assert(end_time == g.last().end_time);
        assert(ranked_hosts@ =~= first_n(ranked(session_hosts(g)), 10));
        assert(ranked_services@ =~= first_n(ranked(session_services(g)), 10));
    }
    Ok(NetworkSession {
        adapter_name: name,
        start_time,
        end_time,
        total_incoming_bytes: tin,
        total_outgoing_bytes: tout,
        total_incoming_packets: pin,
        total_outgoing_packets: pout,
        duration,
        traffic_data: Vec::new(),
        top_hosts: ranked_hosts,
        top_services: ranked_services,
    })
}


/// Start of the half-hour window that contains the time `t`.
pub open spec fn time_window(t: u64) -> int {
    (t as int / 1800) * 1800
}

/// Splits `s` into maximal runs of consecutive sessions whose start times
/// fall in the same half-hour window.
pub open spec fn window_runs(s: Seq<NetworkSession>) -> Seq<Seq<NetworkSession>>
    decreases s.len(),
{
    if s.len() == 0 {
        Seq::empty()
    } else {
        let r = window_runs(s.drop_last());
        if s.len() >= 2 && time_window(s[s.len() - 2].start_time) == time_window(s.last().start_time) {
            r.update(r.len() - 1, r.last().push(s.last()))
        } else {
            r.push(seq![s.last()])
        }
    }
}

/// The runs of a non-empty list are non-empty, end with its last element,
/// and flatten back to the list itself.
pub proof fn lemma_window_runs_shape(s: Seq<NetworkSession>)
    ensures
        window_runs(s).flatten() == s,
        forall|k: int| 0 <= k < window_runs(s).len() ==> #[trigger] window_runs(s)[k].len() > 0,
        s.len() > 0 ==> window_runs(s).len() > 0 && window_runs(s).last().last() == s.last(),
        s.len() == 0 ==> window_runs(s).len() == 0,
    decreases s.len(),
{
    broadcast use Seq::lemma_flatten_push;
    if s.len() > 0 {
        let p = s.drop_last();
        lemma_window_runs_shape(p);
        let r = window_runs(p);
        if s.len() >= 2 && time_window(s[s.len() - 2].start_time) == time_window(s.last().start_time) {
            let rp = r.drop_last();
            assert(r =~= rp.push(r.last()));
            assert(r.update(r.len() - 1, r.last().push(s.last())) =~= rp.push(r.last().push(s.last())));
            assert(rp.push(r.last()).flatten() == rp.flatten() + r.last());
            assert(rp.push(r.last().push(s.last())).flatten() == rp.flatten() + r.last().push(s.last()));
            assert(rp.flatten() + r.last().push(s.last()) =~= (rp.flatten() + r.last()).push(s.last()));
            assert(s =~= p.push(s.last()));
        } else {
            assert(r.push(seq![s.last()]).flatten() == r.flatten() + seq![s.last()]);
            assert(s =~= p + seq![s.last()]);
        }
    }
}

/// Within a run all sessions start in the run's first half hour, and each
/// run starts in another half hour than the one before ends in.
proof fn lemma_window_runs_windows(s: Seq<NetworkSession>)
    ensures
        forall|k: int, i: int| 0 <= k < window_runs(s).len() && 0 <= i < window_runs(s)[k].len()
            ==> #[trigger] window_runs(s)[k][i].start_time / 1800 == window_runs(s)[k][0].start_time / 1800,
        forall|k: int| 0 <= k < window_runs(s).len() - 1
            ==> #[trigger] window_runs(s)[k].last().start_time / 1800 != window_runs(s)[k + 1][0].start_time / 1800,
    decreases s.len(),
{
    lemma_window_runs_shape(s);
    if s.len() > 0 {
        let p = s.drop_last();
        lemma_window_runs_windows(p);
        lemma_window_runs_shape(p);
        let r = window_runs(p);
        let x = s.last();
        let w = window_runs(s);
        if s.len() >= 2 && time_window(s[s.len() - 2].start_time) == time_window(x.start_time) {
            assert(p.last() == s[s.len() - 2]);
            assert(r.last().last() == p.last());
            let last = r.len() - 1;
            assert(w == r.update(last, r.last().push(x)));
            assert(s[s.len() - 2].start_time / 1800 == x.start_time / 1800);
            assert(r.last()[r.last().len() - 1].start_time / 1800 == r.last()[0].start_time / 1800);
            assert forall|k: int, i: int| 0 <= k < w.len() && 0 <= i < w[k].len()
                implies #[trigger] w[k][i].start_time / 1800 == w[k][0].start_time / 1800 by {
                if k < last {
                    assert(w[k] == r[k]);
                } else {
                    assert(w[k] == r.last().push(x));
                    assert(w[k][0] == r.last()[0]);
                    if i < r.last().len() {
                        assert(w[k][i] == r[last][i]);
                    }
                }
            }
            assert forall|k: int| 0 <= k < w.len() - 1
                implies #[trigger] w[k].last().start_time / 1800 != w[k + 1][0].start_time / 1800 by {
                assert(w[k] == r[k]);
                if k + 1 == last {
                    assert(w[k + 1][0] == r[k + 1][0]);
                } else {
                    assert(w[k + 1] == r[k + 1]);
                }
            }
        } else {
            assert(w == r.push(seq![x]));
            assert forall|k: int, i: int| 0 <= k < w.len() && 0 <= i < w[k].len()
                implies #[trigger] w[k][i].start_time / 1800 == w[k][0].start_time / 1800 by {
                if k < r.len() {
                    assert(w[k] == r[k]);
                }
            }
            assert forall|k: int| 0 <= k < w.len() - 1
                implies #[trigger] w[k].last().start_time / 1800 != w[k + 1][0].start_time / 1800 by {
                assert(w[k] == r[k]);
                if k + 1 < r.len() {
                    assert(w[k + 1] == r[k + 1]);
                } else {
                    assert(w[k + 1] == seq![x]);
                    assert(r.last().last() == p.last());
                    assert(p.last() == s[s.len() - 2]);
                    assert(time_window(s[s.len() - 2].start_time) != time_window(x.start_time));
                }
            }
        }
    }
}

/// Over sessions ordered by start time, the half hours of the runs rise:
/// every session of an earlier run starts in an earlier half hour than every
/// session of a later run.
proof fn lemma_window_runs_rise(s: Seq<NetworkSession>)
    requires
        forall|i: int, j: int| 0 <= i < j < s.len() ==> #[trigger] s[i].start_time <= #[trigger] s[j].start_time,
    ensures
        forall|k1: int, k2: int, i: int, j: int|
            0 <= k1 < k2 < window_runs(s).len() && 0 <= i < window_runs(s)[k1].len() && 0 <= j < window_runs(s)[k2].len()
            ==> #[trigger] window_runs(s)[k1][i].start_time / 1800 < #[trigger] window_runs(s)[k2][j].start_time / 1800,
    decreases s.len(),
{
    lemma_window_runs_shape(s);
    lemma_window_runs_windows(s);
    if s.len() > 0 {
        let p = s.drop_last();
        assert forall|i: int, j: int| 0 <= i < j < p.len() implies #[trigger] p[i].start_time <= #[trigger] p[j].start_time by {
            assert(p[i] == s[i] && p[j] == s[j]);
        }
        lemma_window_runs_rise(p);
        lemma_window_runs_windows(p);
        lemma_window_runs_shape(p);
        let r = window_runs(p);
        let x = s.last();
        let w = window_runs(s);
        if s.len() >= 2 {
            assert(p.last() == s[s.len() - 2]);
            assert(r.last().last() == p.last());
            assert(s[s.len() - 2].start_time <= x.start_time);
            // every session before x lies in a half hour no later than that of the last run
            assert forall|k: int, i: int| 0 <= k < r.len() && 0 <= i < r[k].len()
                implies #[trigger] r[k][i].start_time / 1800 <= r.last()[0].start_time / 1800 by {
                if k < r.len() - 1 {
                    assert(r[k][i].start_time / 1800 < r[r.len() - 1][0].start_time / 1800);
                } else {
                    assert(r[k][i].start_time / 1800 == r[k][0].start_time / 1800);
                }
            }
            assert(r.last()[r.last().len() - 1].start_time / 1800 == r.last()[0].start_time / 1800);
            assert(s[s.len() - 2].start_time / 1800 <= x.start_time / 1800) by (nonlinear_arith)
                requires s[s.len() - 2].start_time <= x.start_time;
        }
        if s.len() >= 2 && time_window(s[s.len() - 2].start_time) == time_window(x.start_time) {
            let last = r.len() - 1;
            assert(w == r.update(last, r.last().push(x)));
            assert forall|k1: int, k2: int, i: int, j: int|
                0 <= k1 < k2 < w.len() && 0 <= i < w[k1].len() && 0 <= j < w[k2].len()
                implies #[trigger] w[k1][i].start_time / 1800 < #[trigger] w[k2][j].start_time / 1800 by {
                assert(w[k1] == r[k1]);
                if k2 < last {
                    assert(w[k2] == r[k2]);
                } else {
                    assert(w[k2] == r.last().push(x));
                    assert(r[k1][i].start_time / 1800 < r[last][0].start_time / 1800);
                    if j < r.last().len() {
                        assert(w[k2][j] == r[last][j]);
                    } else {
                        assert(w[k2][j] == x);
                    }
                }
            }
        } else if s.len() >= 2 {
            assert(w == r.push(seq![x]));
            assert forall|k1: int, k2: int, i: int, j: int|
                0 <= k1 < k2 < w.len() && 0 <= i < w[k1].len() && 0 <= j < w[k2].len()
                implies #[trigger] w[k1][i].start_time / 1800 < #[trigger] w[k2][j].start_time / 1800 by {
                assert(w[k1] == r[k1]);
                if k2 < r.len() {
                    assert(w[k2] == r[k2]);
                } else {
                    assert(w[k2][j] == x);
                    assert(r[k1][i].start_time / 1800 <= r.last()[0].start_time / 1800);
                }
            }
        } else {
            assert(p.len() == 0 && r.len() == 0);
            assert(w == r.push(seq![x]));
        }
    }
}

/// Consolidation groups a day's sessions by the half hour they start in:
/// the groups that `consolidate_sessions` merges (one consolidated session
/// each, in order) hold exactly the sessions given; two sessions are in the
/// same group exactly when their start times fall in the same
/// 1800-second window, and the groups' windows rise from one to the next.
pub proof fn lemma_consolidation_groups_by_start_window(sessions: Seq<NetworkSession>)
    ensures
        window_runs(ranked(sessions)).flatten().to_multiset() == sessions.to_multiset(),
        forall|k: int| 0 <= k < window_runs(ranked(sessions)).len() ==> #[trigger] window_runs(ranked(sessions))[k].len() > 0,
        forall|k: int, i: int, j: int| 0 <= k < window_runs(ranked(sessions)).len()
            && 0 <= i < window_runs(ranked(sessions))[k].len() && 0 <= j < window_runs(ranked(sessions))[k].len()
            ==> #[trigger] window_runs(ranked(sessions))[k][i].start_time / 1800
                == #[trigger] window_runs(ranked(sessions))[k][j].start_time / 1800,
        forall|k1: int, k2: int, i: int, j: int| 0 <= k1 < k2 < window_runs(ranked(sessions)).len()
            && 0 <= i < window_runs(ranked(sessions))[k1].len() && 0 <= j < window_runs(ranked(sessions))[k2].len()
            ==> #[trigger] window_runs(ranked(sessions))[k1][i].start_time / 1800
                < #[trigger] window_runs(ranked(sessions))[k2][j].start_time / 1800,
{
    let t = ranked(sessions);
    crate::ordering::lemma_ranked_properties(sessions);
    lemma_window_runs_shape(t);
    lemma_window_runs_windows(t);
    assert forall|i: int, j: int| 0 <= i < j < t.len() implies #[trigger] t[i].start_time <= #[trigger] t[j].start_time by {
        assert(t[i].sort_key() >= t[j].sort_key());
    }
    lemma_window_runs_rise(t);
}

/// A counter sum over a single session.
pub proof fn lemma_counter_sum_single(x: NetworkSession, c: Counter)
    ensures
        counter_sum(seq![x], c) == counter(x, c),
{
    assert(seq![x].drop_last() =~= Seq::<NetworkSession>::empty());
    assert(counter_sum(seq![x].drop_last(), c) == 0);
    assert(seq![x].last() == x);
}

/// Ranked insertion adds the inserted session to every counter sum.
pub proof fn lemma_counter_sum_insert_ranked(t: Seq<NetworkSession>, x: NetworkSession, c: Counter)
    ensures
        counter_sum(insert_ranked(t, x), c) == counter_sum(t, c) + counter(x, c),
    decreases t.len(),
{
    lemma_counter_sum_single(x, c);
    if t.len() == 0 {
    } else if t[0].sort_key() >= x.sort_key() {
        let u = t.drop_first();
        lemma_counter_sum_insert_ranked(u, x, c);
        lemma_counter_sum_single(t[0], c);
        lemma_counter_sum_concat(seq![t[0]], insert_ranked(u, x), c);
        lemma_counter_sum_concat(seq![t[0]], u, c);
        assert(t =~= seq![t[0]] + u);
    } else {
        lemma_counter_sum_concat(seq![x], t, c);
    }
}

/// Every counter sum is the same over the ranked list as over the list given.
pub proof fn lemma_counter_sum_ranked(s: Seq<NetworkSession>, c: Counter)
    ensures
        counter_sum(ranked(s), c) == counter_sum(s, c),
    decreases s.len(),
{
    if s.len() > 0 {
        lemma_counter_sum_ranked(s.drop_last(), c);
        lemma_counter_sum_insert_ranked(ranked(s.drop_last()), s.last(), c);
    }
}

/// Summing a counter over merged groups equals summing it over all their members.
pub proof fn lemma_counter_sum_groups(out: Seq<NetworkSession>, rs: Seq<Seq<NetworkSession>>, c: Counter)
    requires
        out.len() == rs.len(),
        forall|k: int| 0 <= k < rs.len() ==> counter(#[trigger] out[k], c) == counter_sum(rs[k], c),
    ensures
        counter_sum(out, c) == counter_sum(rs.flatten(), c),
    decreases rs.len(),
{
    broadcast use Seq::lemma_flatten_push;
    if rs.len() > 0 {
        let rp = rs.drop_last();
        let op = out.drop_last();
        assert forall|k: int| 0 <= k < rp.len() implies counter(#[trigger] op[k], c) == counter_sum(rp[k], c) by {
            assert(op[k] == out[k] && rp[k] == rs[k]);
        }
        lemma_counter_sum_groups(op, rp, c);
        assert(rs =~= rp.push(rs.last()));
        assert(rs.flatten() == rp.flatten() + rs.last());
        lemma_counter_sum_concat(rp.flatten(), rs.last(), c);
        assert(counter(out.last(), c) == counter_sum(rs.last(), c));
    }
}

/// Splits the already ordered list `v` into its half-hour runs.
pub fn group_by_window(v: Vec<NetworkSession>) -> (r: Vec<Vec<NetworkSession>>)
    ensures
        r@.len() == window_runs(v@).len(),
        forall|k: int| 0 <= k < r@.len() ==> #[trigger] r@[k]@ == window_runs(v@)[k],
{
    let ghost orig = v@;
    let n = v.len();
    let mut rest = v;
    let mut done: Vec<Vec<NetworkSession>> = Vec::new();
    let mut cur: Vec<NetworkSession> = Vec::new();
    let mut last_window: u64 = 0;
    let mut i: usize = 0;
    while rest.len() > 0
        invariant
            n == orig.len(),
            i <= n,
            rest@ == orig.subrange(i as int, n as int),
            i == 0 ==> done@.len() == 0 && cur@.len() == 0,
            i > 0 ==> last_window == time_window(orig[i - 1].start_time),
            i > 0 ==> window_runs(orig.take(i as int)).len() == done@.len() + 1,
            i > 0 ==> window_runs(orig.take(i as int)).last() == cur@,
            forall|k: int| 0 <= k < done@.len() ==> #[trigger] done@[k]@ == window_runs(orig.take(i as int))[k],
        decreases rest.len(),
    {
        let x = rest.remove(0);
        let ghost pre = orig.take(i as int + 1);
        let ghost before = window_runs(orig.take(i as int));
        proof {
            assert(pre.drop_last() =~= orig.take(i as int));
            assert(pre.last() == x);
            assert(x == orig[i as int]);
            if i > 0 {
                assert(pre[pre.len() - 2] == orig[i - 1]);
            }
        }
        let w = (x.start_time / 1800) * 1800;
        if i > 0 && w != last_window {
            let mut finished: Vec<NetworkSession> = Vec::new();
            std::mem::swap(&mut finished, &mut cur);
            done.push(finished);
            cur.push(x);
        } else {
            cur.push(x);
        }
        last_window = w;
        i = i + 1;
        proof {
            assert(rest@ =~= orig.subrange(i as int, n as int));
            let r = window_runs(orig.take(i as int));
            assert(pre == orig.take(i as int));
            if i == 1 {
                assert(orig.take(0) =~= Seq::<NetworkSession>::empty());
                assert(before.len() == 0);
                assert(r == before.push(seq![x]));
            }
            assert forall|k: int| 0 <= k < done@.len() implies #[trigger] done@[k]@ == r[k] by {}
        }
    }
    if cur.len() > 0 {
        done.push(cur);
    }
    proof {
        assert(orig.take(n as int) =~= orig);
        lemma_window_runs_shape(orig);
    }
    done
}

/// Orders the sessions by start time and merges each run of sessions that
/// start in the same half-hour window into one session under `adapter_name`.
pub fn consolidate_sessions(sessions: Vec<NetworkSession>, adapter_name: &str) -> (r: Result<Vec<NetworkSession>, String>)
    requires
        forall|k: int| 0 <= k < window_runs(ranked(sessions@)).len()
            ==> merge_fits(#[trigger] window_runs(ranked(sessions@))[k]),
    ensures
        r is Ok,
        r matches Ok(v) ==> v@.len() == window_runs(ranked(sessions@)).len(),
        r matches Ok(v) ==> forall|k: int| 0 <= k < v@.len()
            ==> is_merge_of(#[trigger] v@[k], adapter_name@, window_runs(ranked(sessions@))[k]),
{
    let ghost rs = window_runs(ranked(sessions@));
    let sorted = rank(sessions);
    let runs = group_by_window(sorted);
    proof {
        lemma_window_runs_shape(ranked(sessions@));
    }
    let mut out: Vec<NetworkSession> = Vec::new();
    let mut k: usize = 0;
    while k < runs.len()
        invariant
            runs@.len() == rs.len(),
            forall|j: int| 0 <= j < runs@.len() ==> #[trigger] runs@[j]@ == rs[j],
            forall|j: int| 0 <= j < rs.len() ==> #[trigger] rs[j].len() > 0,
            forall|j: int| 0 <= j < rs.len() ==> merge_fits(#[trigger] rs[j]),
            rs == window_runs(ranked(sessions@)),
            k <= runs@.len(),
            out@.len() == k,
            forall|j: int| 0 <= j < k ==> is_merge_of(#[trigger] out@[j], adapter_name@, rs[j]),
        decreases runs@.len() - k,
    {
        assert(runs@[k as int]@ == rs[k as int]);
        assert(rs[k as int].len() > 0);
        let m = merge_sessions(adapter_name, runs[k].as_slice());
        match m {
            Ok(merged) => {
                out.push(merged);
            },
            Err(_) => {
                assert(false);
            },
        }
        k = k + 1;
    }
    Ok(out)
}

/// Consolidation keeps the day's byte and packet totals: summed over the
/// consolidated sessions they equal the sums over the sessions given.
pub proof fn lemma_consolidation_keeps_totals(
    sessions: Seq<NetworkSession>,
    adapter: Seq<char>,
    out: Seq<NetworkSession>,
    c: Counter,
)
    requires
        c != Counter::Duration,
        out.len() == window_runs(ranked(sessions)).len(),
        forall|k: int| 0 <= k < out.len()
            ==> is_merge_of(#[trigger] out[k], adapter, window_runs(ranked(sessions))[k]),
    ensures
        counter_sum(out, c) == counter_sum(sessions, c),
{
    let rs = window_runs(ranked(sessions));
    lemma_window_runs_shape(ranked(sessions));
    assert forall|k: int| 0 <= k < rs.len() implies counter(#[trigger] out[k], c) == counter_sum(rs[k], c) by {
        assert(is_merge_of(out[k], adapter, rs[k]));
    }
    lemma_counter_sum_groups(out, rs, c);
    lemma_counter_sum_ranked(sessions, c);
}

} // verus!
