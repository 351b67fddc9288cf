//! The central application state: per-adapter metrics, global counters and
//! app metadata, with the transitions the app applies to them and the
//! event each transition announces.
use vstd::prelude::*;
use crate::text::str_eq;

verus! {

/// Metrics of one network adapter.
#[derive(Debug)]
pub struct AdapterMetrics {
    pub name: String,
    pub display_name: String,
    pub is_active: bool,
    pub is_monitoring: bool,
    pub total_bytes_in: u64,
    pub total_bytes_out: u64,
    pub total_packets_in: u64,
    pub total_packets_out: u64,
    pub session_start_time: Option<u64>,
    pub last_seen_time: u64,
    pub connection_count: u32,
}

/// Counters over all adapters.
#[derive(Debug)]
pub struct GlobalStats {
    pub total_bytes_in: u64,
    pub total_bytes_out: u64,
    pub total_packets_in: u64,
    pub total_packets_out: u64,
    pub active_adapters: u32,
    pub monitoring_start_time: Option<u64>,
    pub last_update_time: u64,
}

/// Facts about the app itself.
#[derive(Debug)]
pub struct AppMetadata {
    pub version: String,
    pub last_clean_shutdown: Option<u64>,
    pub startup_time: u64,
    pub is_first_run: bool,
}

/// The whole state. Each adapter appears at most once.
#[derive(Debug)]
pub struct SystemState {
    pub adapters: Vec<AdapterMetrics>,
    pub global_stats: GlobalStats,
    pub app_metadata: AppMetadata,
}

/// What a transition announces to subscribers.
#[derive(Debug)]
pub enum StateEvent {
    AdapterConnected(String),
    AdapterDisconnected(String),
    MonitoringStarted(String),
    MonitoringStopped(String),
    TrafficUpdate { adapter: String, bytes_in: u64, bytes_out: u64, packets_in: u64, packets_out: u64 },
    SystemShutdown,
}

/// A change to one adapter's metrics.
#[derive(Debug, Clone, Copy)]
pub enum AdapterChange {
    /// The adapter appeared or disappeared.
    Active(bool),
    /// Monitoring started at `now` (kept if a session already started).
    StartMonitoring { now: u64 },
    /// Monitoring stopped.
    StopMonitoring,
    /// More traffic was counted.
    Traffic { bytes_in: u64, bytes_out: u64, packets_in: u64, packets_out: u64 },
}

/// Position of the adapter named `name`, or -1.
pub open spec fn metrics_index(v: Seq<AdapterMetrics>, name: Seq<char>) -> int
    decreases v.len(),
{
    if v.len() == 0 {
        -1
    } else if v.last().name@ == name {
        v.len() - 1
    } else {
        metrics_index(v.drop_last(), name)
    }
}

/// No adapter name occurs twice.
pub open spec fn unique_metric_names(v: Seq<AdapterMetrics>) -> bool {
    forall|i: int, j: int| 0 <= i < j < v.len() ==> v[i].name@ != v[j].name@
}

impl SystemState {
    /// Adapter names are unique.
    pub open spec fn wf(&self) -> bool {
        unique_metric_names(self.adapters@)
    }

    /// The metrics of the adapter named `name`, if any.
    pub open spec fn adapter(&self, name: Seq<char>) -> Option<AdapterMetrics> {
        let k = metrics_index(self.adapters@, name);
        if k >= 0 { Some(self.adapters@[k]) } else { None }
    }
}

/// Metrics of an adapter seen for the first time at `now`.
pub open spec fn fresh_metrics(name: String, display: String, now: u64) -> AdapterMetrics {
    AdapterMetrics {
        name,
        display_name: display,
        is_active: false,
        is_monitoring: false,
        total_bytes_in: 0,
        total_bytes_out: 0,
        total_packets_in: 0,
        total_packets_out: 0,
        session_start_time: None,
        last_seen_time: now,
        connection_count: 0,
    }
}

/// The metrics after a change made at `now`.
pub open spec fn changed(a: AdapterMetrics, c: AdapterChange, now: u64) -> AdapterMetrics {
    match c {
        AdapterChange::Active(active) => AdapterMetrics { is_active: active, last_seen_time: now, ..a },
        AdapterChange::StartMonitoring { now: started } => AdapterMetrics {
            is_monitoring: true,
            session_start_time: if a.session_start_time is None { Some(started) } else { a.session_start_time },
            last_seen_time: now,
            ..a
        },
        AdapterChange::StopMonitoring => AdapterMetrics { is_monitoring: false, last_seen_time: now, ..a },
        AdapterChange::Traffic { bytes_in, bytes_out, packets_in, packets_out } => AdapterMetrics {
            total_bytes_in: (a.total_bytes_in + bytes_in) as u64,
            total_bytes_out: (a.total_bytes_out + bytes_out) as u64,
            total_packets_in: (a.total_packets_in + packets_in) as u64,
            total_packets_out: (a.total_packets_out + packets_out) as u64,
            last_seen_time: now,
            ..a
        },
    }
}

/// The change does not overflow an adapter's counters.
pub open spec fn change_fits(a: AdapterMetrics, c: AdapterChange) -> bool {
    match c {
        AdapterChange::Traffic { bytes_in, bytes_out, packets_in, packets_out } => {
            &&& a.total_bytes_in + bytes_in <= u64::MAX
            &&& a.total_bytes_out + bytes_out <= u64::MAX
            &&& a.total_packets_in + packets_in <= u64::MAX
            &&& a.total_packets_out + packets_out <= u64::MAX
        },
        _ => true,
    }
}

/// Position of the adapter named `name`.
fn find_metrics(v: &Vec<AdapterMetrics>, name: &str) -> (r: Option<usize>)
    ensures
        match r {
            Some(k) => metrics_index(v@, name@) == k as int && k < v@.len(),
            None => metrics_index(v@, name@) == -1,
        },
{
    let mut i = v.len();
    proof {
        assert(v@.take(i as int) =~= v@);
    }
    while i > 0
        invariant
            i <= v@.len(),
            metrics_index(v@, name@) == metrics_index(v@.take(i as int), name@),
        decreases i,
    {
        let ghost t = v@.take(i as int);
        proof {
            assert(t.drop_last() =~= v@.take(i - 1));
            assert(t.last() == v@[i - 1]);
        }
        if str_eq(v[i - 1].name.as_str(), name) {
            return Some(i - 1);
        }
        i = i - 1;
    }
    None
}

/// The index found for a name holds that name; a name not found occurs
/// nowhere.
pub proof fn lemma_metrics_index(v: Seq<AdapterMetrics>, name: Seq<char>)
    ensures
        metrics_index(v, name) >= 0 ==> metrics_index(v, name) < v.len() && v[metrics_index(v, name)].name@ == name,
        metrics_index(v, name) < 0 ==> metrics_index(v, name) == -1 && forall|i: int| 0 <= i < v.len() ==> #[trigger] v[i].name@ != name,
    decreases v.len(),
{
    if v.len() > 0 {
        lemma_metrics_index(v.drop_last(), name);
        if v.last().name@ != name {
            assert forall|i: int| 0 <= i < v.len() - 1 implies v[i] == v.drop_last()[i] by {}
        }
    }
}

/// In a list with unique names, the index of the name held at `k` is `k`.
pub proof fn lemma_metrics_index_unique(v: Seq<AdapterMetrics>, k: int)
    requires
        unique_metric_names(v),
        0 <= k < v.len(),
    ensures
        metrics_index(v, v[k].name@) == k,
    decreases v.len(),
{
    if k < v.len() - 1 {
        let p = v.drop_last();
        assert(unique_metric_names(p)) by {
            assert forall|i: int, j: int| 0 <= i < j < p.len() implies p[i].name@ != p[j].name@ by {
                assert(p[i] == v[i] && p[j] == v[j]);
            }
        }
        assert(p[k] == v[k]);
        lemma_metrics_index_unique(p, k);
    }
}

impl AdapterMetrics {
    /// An exact copy.
    pub fn duplicate(&self) -> (r: AdapterMetrics)
        ensures
            r == *self,
    {
        AdapterMetrics {
            name: self.name.clone(),
            display_name: self.display_name.clone(),
            is_active: self.is_active,
            is_monitoring: self.is_monitoring,
            total_bytes_in: self.total_bytes_in,
            total_bytes_out: self.total_bytes_out,
            total_packets_in: self.total_packets_in,
            total_packets_out: self.total_packets_out,
            session_start_time: self.session_start_time,
            last_seen_time: self.last_seen_time,
            connection_count: self.connection_count,
        }
    }
}

impl SystemState {
    /// The state of a first run at `now`: nothing recorded, a clean start.
    pub fn fresh(version: String, now: u64) -> (s: SystemState)
        ensures
            s.adapters@.len() == 0,
            s.wf(),
            s.global_stats.total_bytes_in == 0 && s.global_stats.total_bytes_out == 0,
            s.global_stats.total_packets_in == 0 && s.global_stats.total_packets_out == 0,
            s.global_stats.active_adapters == 0,
            s.global_stats.monitoring_start_time is None,
            s.global_stats.last_update_time == now,
            s.app_metadata.version == version,
            s.app_metadata.last_clean_shutdown == Some(now),
            s.app_metadata.startup_time == now,
            s.app_metadata.is_first_run,
    {
        SystemState {
            adapters: Vec::new(),
            global_stats: GlobalStats {
                total_bytes_in: 0,
                total_bytes_out: 0,
                total_packets_in: 0,
                total_packets_out: 0,
                active_adapters: 0,
                monitoring_start_time: None,
                last_update_time: now,
            },
            app_metadata: AppMetadata {
                version,
                last_clean_shutdown: Some(now),
                startup_time: now,
                is_first_run: true,
            },
        }
    }

    /// Applies `change` at `now` to the adapter named `adapter_name`,
    /// creating its metrics first when it is new.
    pub fn update_adapter(&mut self, adapter_name: &str, change: AdapterChange, now: u64)
        requires
            old(self).wf(),
            old(self).adapter(adapter_name@) matches Some(a) ==> change_fits(a, change),
        ensures
            final(self).wf(),
            final(self).adapter(adapter_name@) is Some,
            final(self).adapter(adapter_name@).unwrap().name@ == adapter_name@,
            final(self).adapter(adapter_name@) == Some(changed(
                match old(self).adapter(adapter_name@) {
                    Some(a) => a,
                    None => fresh_metrics(
                        final(self).adapter(adapter_name@).unwrap().name,
                        final(self).adapter(adapter_name@).unwrap().display_name,
                        now,
                    ),
                },
                change,
                now,
            )),
            old(self).adapter(adapter_name@) is None ==> final(self).adapter(adapter_name@).unwrap().display_name@ == adapter_name@,
            forall|n: Seq<char>| n != adapter_name@ ==> #[trigger] final(self).adapter(n) == old(self).adapter(n),
            final(self).global_stats == (GlobalStats { last_update_time: now, ..old(self).global_stats }),
            final(self).app_metadata == old(self).app_metadata,
    {
        let ghost before = self.adapters@;
        proof {
            lemma_metrics_index(before, adapter_name@);
        }
        let k = match find_metrics(&self.adapters, adapter_name) {
            Some(k) => k,
            None => {
                let fresh = AdapterMetrics {
                    name: String::from_str(adapter_name),
                    display_name: String::from_str(adapter_name),
                    is_active: false,
                    is_monitoring: false,
                    total_bytes_in: 0,
                    total_bytes_out: 0,
                    total_packets_in: 0,
                    total_packets_out: 0,
                    session_start_time: None,
                    last_seen_time: now,
                    connection_count: 0,
                };
                self.adapters.push(fresh);
                self.adapters.len() - 1
            },
        };
        let ghost mid = self.adapters@;
        let ghost prev = mid[k as int];
        proof {
            assert(unique_metric_names(mid)) by {
                assert forall|i: int, j: int| 0 <= i < j < mid.len() implies mid[i].name@ != mid[j].name@ by {
                    if j == before.len() {
                        assert(mid[i] == before[i]);
                    } else {
                        assert(mid[i] == before[i] && mid[j] == before[j]);
                    }
                }
            }
        }
        let mut a = self.adapters[k].duplicate();
        match change {
            AdapterChange::Active(active) => {
                a.is_active = active;
            },
            AdapterChange::StartMonitoring { now: started } => {
                a.is_monitoring = true;
                if a.session_start_time.is_none() {
                    a.session_start_time = Some(started);
                }
            },
            AdapterChange::StopMonitoring => {
                a.is_monitoring = false;
            },
            AdapterChange::Traffic { bytes_in, bytes_out, packets_in, packets_out } => {
                a.total_bytes_in = a.total_bytes_in + bytes_in;
                a.total_bytes_out = a.total_bytes_out + bytes_out;
                a.total_packets_in = a.total_packets_in + packets_in;
                a.total_packets_out = a.total_packets_out + packets_out;
            },
        }
        a.last_seen_time = now;
        self.adapters.set(k, a);
        self.global_stats.last_update_time = now;
        proof {
            let after = self.adapters@;
            assert(after == mid.update(k as int, changed(prev, change, now)));
            assert(unique_metric_names(after)) by {
                assert forall|i: int, j: int| 0 <= i < j < after.len() implies after[i].name@ != after[j].name@ by {
                    assert(after[i].name == mid[i].name);
                    assert(after[j].name == mid[j].name);
                }
            }
            lemma_metrics_index_unique(after, k as int);
            assert forall|n: Seq<char>| n != adapter_name@ implies #[trigger] self.adapter(n) == old(self).adapter(n) by {
                lemma_metrics_index(after, n);
                lemma_metrics_index(before, n);
                let ia = metrics_index(after, n);
                let ib = metrics_index(before, n);
                if ia >= 0 {
                    assert(ia != k);
                    assert(after[ia] == mid[ia]);
                    if ia < before.len() {
                        assert(mid[ia] == before[ia]);
                        lemma_metrics_index_unique(before, ia);
                    } else {
                        assert(mid[ia].name@ == adapter_name@);
                    }
                } else {
                    if ib >= 0 {
                        assert(before[ib] == mid[ib]);
                        assert(after[ib].name == mid[ib].name);
                    }
                }
            }
        }
    }
}


/// Number of adapters being monitored.
pub open spec fn monitoring_count(v: Seq<AdapterMetrics>) -> nat
    decreases v.len(),
{
    if v.len() == 0 {
        0
    } else {
        monitoring_count(v.drop_last()) + if v.last().is_monitoring { 1nat } else { 0nat }
    }
}

/// Some adapter is being monitored.
pub open spec fn any_adapter_monitoring(v: Seq<AdapterMetrics>) -> bool {
    exists|i: int| 0 <= i < v.len() && #[trigger] v[i].is_monitoring
}

/// Within this many seconds of a clean shutdown a restart counts as clean.
pub const CLEAN_RESTART_WINDOW: u64 = 600;

/// The app stopped without a clean shutdown: it ran before, no clean
/// shutdown happened within the window before `now`, and some adapter was
/// being monitored.
pub open spec fn stopped_unexpectedly(s: SystemState, now: u64) -> bool {
    &&& !s.app_metadata.is_first_run
    &&& !(s.app_metadata.last_clean_shutdown matches Some(t) && now - t < CLEAN_RESTART_WINDOW)
    &&& any_adapter_monitoring(s.adapters@)
}

/// The adapters a cleanup at `now` keeps: active ones, and inactive ones
/// seen less than `max_age` seconds ago.
pub open spec fn kept_adapters(v: Seq<AdapterMetrics>, max_age: u64, now: u64) -> Seq<AdapterMetrics>
    decreases v.len(),
{
    if v.len() == 0 {
        Seq::empty()
    } else {
        let p = kept_adapters(v.drop_last(), max_age, now);
        let a = v.last();
        if a.is_active || now - a.last_seen_time < max_age { p.push(a) } else { p }
    }
}

/// The adapters kept form a subsequence, so their names stay unique.
pub proof fn lemma_kept_unique(v: Seq<AdapterMetrics>, max_age: u64, now: u64)
    requires
        unique_metric_names(v),
    ensures
        unique_metric_names(kept_adapters(v, max_age, now)),
        forall|i: int| 0 <= i < kept_adapters(v, max_age, now).len()
            ==> exists|j: int| 0 <= j < v.len() && #[trigger] kept_adapters(v, max_age, now)[i] == v[j],
        kept_adapters(v, max_age, now).len() <= v.len(),
    decreases v.len(),
{
    if v.len() > 0 {
        let p = v.drop_last();
        assert(unique_metric_names(p)) by {
            assert forall|i: int, j: int| 0 <= i < j < p.len() implies p[i].name@ != p[j].name@ by {
                assert(p[i] == v[i] && p[j] == v[j]);
            }
        }
        lemma_kept_unique(p, max_age, now);
        let kp = kept_adapters(p, max_age, now);
        let k = kept_adapters(v, max_age, now);
        assert forall|i: int| 0 <= i < k.len() implies exists|j: int| 0 <= j < v.len() && #[trigger] k[i] == v[j] by {
            if i < kp.len() {
                let j = choose|j: int| 0 <= j < p.len() && kp[i] == p[j];
                assert(k[i] == v[j]);
            } else {
                assert(k[i] == v[v.len() - 1]);
            }
        }
        assert(unique_metric_names(k)) by {
            assert forall|a: int, b: int| 0 <= a < b < k.len() implies k[a].name@ != k[b].name@ by {
                if b == kp.len() {
                    let j = choose|j: int| 0 <= j < p.len() && kp[a] == p[j];
                    assert(k[a] == v[j]);
                    assert(k[b] == v[v.len() - 1]);
                } else {
                    assert(k[a] == kp[a] && k[b] == kp[b]);
                }
            }
        }
    }
}

impl SystemState {
    /// Marks an adapter as present or gone at `now`.
    pub fn mark_adapter_active(&mut self, adapter_name: &str, is_active: bool, now: u64) -> (e: StateEvent)
        requires
            old(self).wf(),
        ensures
            final(self).wf(),
            final(self).adapter(adapter_name@) matches Some(a) && a.is_active == is_active && a.last_seen_time == now,
            forall|n: Seq<char>| n != adapter_name@ ==> #[trigger] final(self).adapter(n) == old(self).adapter(n),
            is_active ==> (e matches StateEvent::AdapterConnected(name) && name@ == adapter_name@),
            !is_active ==> (e matches StateEvent::AdapterDisconnected(name) && name@ == adapter_name@),
    {
        self.update_adapter(adapter_name, AdapterChange::Active(is_active), now);
        if is_active {
            StateEvent::AdapterConnected(String::from_str(adapter_name))
        } else {
            StateEvent::AdapterDisconnected(String::from_str(adapter_name))
        }
    }

    /// Starts monitoring an adapter at `now`; a session already under way
    /// keeps its start time.
    pub fn start_monitoring(&mut self, adapter_name: &str, now: u64) -> (e: StateEvent)
        requires
            old(self).wf(),
        ensures
            final(self).wf(),
            final(self).adapter(adapter_name@) matches Some(a) && a.is_monitoring && a.session_start_time is Some,
            old(self).adapter(adapter_name@) is Some && old(self).adapter(adapter_name@).unwrap().session_start_time is Some
                ==> final(self).adapter(adapter_name@).unwrap().session_start_time == old(self).adapter(adapter_name@).unwrap().session_start_time,
            forall|n: Seq<char>| n != adapter_name@ ==> #[trigger] final(self).adapter(n) == old(self).adapter(n),
            e matches StateEvent::MonitoringStarted(name) && name@ == adapter_name@,
    {
        self.update_adapter(adapter_name, AdapterChange::StartMonitoring { now }, now);
        StateEvent::MonitoringStarted(String::from_str(adapter_name))
    }

    /// Stops monitoring an adapter.
    pub fn stop_monitoring(&mut self, adapter_name: &str, now: u64) -> (e: StateEvent)
        requires
            old(self).wf(),
        ensures
            final(self).wf(),
            final(self).adapter(adapter_name@) matches Some(a) && !a.is_monitoring,
            forall|n: Seq<char>| n != adapter_name@ ==> #[trigger] final(self).adapter(n) == old(self).adapter(n),
            e matches StateEvent::MonitoringStopped(name) && name@ == adapter_name@,
    {
        self.update_adapter(adapter_name, AdapterChange::StopMonitoring, now);
        StateEvent::MonitoringStopped(String::from_str(adapter_name))
    }

    /// Adds traffic to an adapter's counters and to the global ones, and
    /// recounts the adapters being monitored.
    pub fn update_traffic(&mut self, adapter_name: &str, bytes_in: u64, bytes_out: u64, packets_in: u64, packets_out: u64, now: u64) -> (e: StateEvent)
        requires
            old(self).wf(),
            old(self).adapter(adapter_name@) matches Some(a) ==> change_fits(a, AdapterChange::Traffic { bytes_in, bytes_out, packets_in, packets_out }),
            old(self).global_stats.total_bytes_in + bytes_in <= u64::MAX,
            old(self).global_stats.total_bytes_out + bytes_out <= u64::MAX,
            old(self).global_stats.total_packets_in + packets_in <= u64::MAX,
            old(self).global_stats.total_packets_out + packets_out <= u64::MAX,
        ensures
            final(self).wf(),
            final(self).adapter(adapter_name@) == Some(changed(
                match old(self).adapter(adapter_name@) {
                    Some(a) => a,
                    None => fresh_metrics(
                        final(self).adapter(adapter_name@).unwrap().name,
                        final(self).adapter(adapter_name@).unwrap().display_name,
                        now,
                    ),
                },
                AdapterChange::Traffic { bytes_in, bytes_out, packets_in, packets_out },
                now,
            )),
            forall|n: Seq<char>| n != adapter_name@ ==> #[trigger] final(self).adapter(n) == old(self).adapter(n),
            final(self).global_stats.total_bytes_in == old(self).global_stats.total_bytes_in + bytes_in,
            final(self).global_stats.total_bytes_out == old(self).global_stats.total_bytes_out + bytes_out,
            final(self).global_stats.total_packets_in == old(self).global_stats.total_packets_in + packets_in,
            final(self).global_stats.total_packets_out == old(self).global_stats.total_packets_out + packets_out,
            final(self).global_stats.active_adapters == monitoring_count(final(self).adapters@) % 0x1_0000_0000,
            final(self).global_stats.last_update_time == now,
            e matches StateEvent::TrafficUpdate { adapter, bytes_in: bi, bytes_out: bo, packets_in: pi, packets_out: po }
                && adapter@ == adapter_name@ && bi == bytes_in && bo == bytes_out && pi == packets_in && po == packets_out,
    {
        self.update_adapter(adapter_name, AdapterChange::Traffic { bytes_in, bytes_out, packets_in, packets_out }, now);
        let ghost mid = *self;
        self.global_stats.total_bytes_in = self.global_stats.total_bytes_in + bytes_in;
        self.global_stats.total_bytes_out = self.global_stats.total_bytes_out + bytes_out;
        self.global_stats.total_packets_in = self.global_stats.total_packets_in + packets_in;
        self.global_stats.total_packets_out = self.global_stats.total_packets_out + packets_out;
        let ghost snap = self.adapters@;
        let mut count: usize = 0;
        let mut i: usize = 0;
        while i < self.adapters.len()
            invariant
                self.adapters@ == snap,
                i <= self.adapters@.len(),
                count == monitoring_count(self.adapters@.take(i as int)),
                count <= i,
            decreases self.adapters@.len() - i,
        {
            proof {
                assert(self.adapters@.take(i as int + 1).drop_last() =~= self.adapters@.take(i as int));
            }
            if self.adapters[i].is_monitoring {
                count = count + 1;
            }
            i = i + 1;
        }
        proof {
            assert(self.adapters@.take(self.adapters@.len() as int) =~= self.adapters@);
        }
        self.global_stats.active_adapters = (count as u64 % 0x1_0000_0000) as u32;
        proof {
            assert forall|n: Seq<char>| n != adapter_name@ implies #[trigger] self.adapter(n) == old(self).adapter(n) by {
                assert(self.adapters@ == mid.adapters@);
                assert(mid.adapter(n) == old(self).adapter(n));
            }
            assert(self.adapter(adapter_name@) == mid.adapter(adapter_name@));
        }
        StateEvent::TrafficUpdate { adapter: String::from_str(adapter_name), bytes_in, bytes_out, packets_in, packets_out }
    }

    /// Whether the app stopped without a clean shutdown (see
    /// `stopped_unexpectedly`).
    pub fn was_unexpected_shutdown(&self, now: u64) -> (b: bool)
        requires
            !self.app_metadata.is_first_run ==> (self.app_metadata.last_clean_shutdown matches Some(t) ==> t <= now),
        ensures
            b == stopped_unexpectedly(*self, now),
    {
        if self.app_metadata.is_first_run {
            return false;
        }
        match self.app_metadata.last_clean_shutdown {
            Some(t) => {
                if now - t < CLEAN_RESTART_WINDOW {
                    return false;
                }
            },
            None => {},
        }
        let mut i: usize = 0;
        while i < self.adapters.len()
            invariant
                i <= self.adapters@.len(),
                !self.app_metadata.is_first_run,
                !(self.app_metadata.last_clean_shutdown matches Some(t) && now - t < CLEAN_RESTART_WINDOW),
                forall|j: int| 0 <= j < i ==> !(#[trigger] self.adapters@[j]).is_monitoring,
            decreases self.adapters@.len() - i,
        {
            if self.adapters[i].is_monitoring {
                proof {
                    assert(self.adapters@[i as int].is_monitoring);
                }
                return true;
            }
            i = i + 1;
        }
        false
    }

    /// Records a clean shutdown at `now`: monitoring stops everywhere and
    /// the next start is no longer a first run.
    pub fn mark_clean_shutdown(&mut self, now: u64) -> (e: StateEvent)
        requires
            old(self).wf(),
        ensures
            final(self).wf(),
            final(self).app_metadata.last_clean_shutdown == Some(now),
            !final(self).app_metadata.is_first_run,
            final(self).app_metadata.version == old(self).app_metadata.version,
            final(self).app_metadata.startup_time == old(self).app_metadata.startup_time,
            final(self).global_stats == old(self).global_stats,
            final(self).adapters@.len() == old(self).adapters@.len(),
            forall|i: int| 0 <= i < final(self).adapters@.len()
                ==> (#[trigger] final(self).adapters@[i]) == (AdapterMetrics { is_monitoring: false, ..old(self).adapters@[i] }),
            e is SystemShutdown,
    {
        self.app_metadata.last_clean_shutdown = Some(now);
        self.app_metadata.is_first_run = false;
        let n = self.adapters.len();
        let mut i: usize = 0;
        while i < n
            invariant
                n == self.adapters@.len(),
                n == old(self).adapters@.len(),
                i <= n,
                self.app_metadata.last_clean_shutdown == Some(now),
                !self.app_metadata.is_first_run,
                self.app_metadata.version == old(self).app_metadata.version,
                self.app_metadata.startup_time == old(self).app_metadata.startup_time,
                self.global_stats == old(self).global_stats,
                forall|j: int| 0 <= j < i ==> (#[trigger] self.adapters@[j]) == (AdapterMetrics { is_monitoring: false, ..old(self).adapters@[j] }),
                forall|j: int| i <= j < n ==> #[trigger] self.adapters@[j] == old(self).adapters@[j],
            decreases n - i,
        {
            let mut a = self.adapters[i].duplicate();
            a.is_monitoring = false;
            self.adapters.set(i, a);
            i = i + 1;
        }
        proof {
            assert(unique_metric_names(self.adapters@)) by {
                assert forall|a: int, b: int| 0 <= a < b < n implies self.adapters@[a].name@ != self.adapters@[b].name@ by {
                    assert(self.adapters@[a].name == old(self).adapters@[a].name);
                    assert(self.adapters@[b].name == old(self).adapters@[b].name);
                }
            }
        }
        StateEvent::SystemShutdown
    }

    /// Drops adapters that are inactive and were last seen `max_age_seconds`
    /// or more before `now`; returns how many were dropped.
    pub fn cleanup_inactive_adapters(&mut self, max_age_seconds: u64, now: u64) -> (removed: usize)
        requires
            old(self).wf(),
            forall|i: int| 0 <= i < old(self).adapters@.len() && !(#[trigger] old(self).adapters@[i]).is_active
                ==> old(self).adapters@[i].last_seen_time <= now,
        ensures
            final(self).wf(),
            final(self).adapters@ == kept_adapters(old(self).adapters@, max_age_seconds, now),
            removed == old(self).adapters@.len() - final(self).adapters@.len(),
            removed > 0 ==> final(self).global_stats == (GlobalStats { last_update_time: now, ..old(self).global_stats }),
            removed == 0 ==> final(self).global_stats == old(self).global_stats,
            final(self).app_metadata == old(self).app_metadata,
    {
        let ghost orig = self.adapters@;
        let initial = self.adapters.len();
        let mut rest: Vec<AdapterMetrics> = Vec::new();
        std::mem::swap(&mut rest, &mut self.adapters);
        let mut kept: Vec<AdapterMetrics> = Vec::new();
        let mut i: usize = 0;
        while rest.len() > 0
            invariant
                initial == orig.len(),
                i <= initial,
                rest@ == orig.subrange(i as int, initial as int),
                kept@ == kept_adapters(orig.take(i as int), max_age_seconds, now),
                forall|j: int| 0 <= j < orig.len() && !(#[trigger] orig[j]).is_active ==> orig[j].last_seen_time <= now,
            decreases rest.len(),
        {
            let a = rest.remove(0);
            proof {
                assert(orig.take(i as int + 1).drop_last() =~= orig.take(i as int));
                assert(orig.take(i as int + 1).last() == orig[i as int]);
                assert(a == orig[i as int]);
            }
            if a.is_active || now - a.last_seen_time < max_age_seconds {
                kept.push(a);
            }
            i = i + 1;
            proof {
                assert(rest@ =~= orig.subrange(i as int, initial as int));
            }
        }
        proof {
            assert(orig.take(initial as int) =~= orig);
            lemma_kept_unique(orig, max_age_seconds, now);
        }
        self.adapters = kept;
        let removed = initial - self.adapters.len();
        if removed > 0 {
            self.global_stats.last_update_time = now;
        }
        removed
    }
}

/// After a clean shutdown the next start is never taken for a crash: no
/// adapter is left marked as monitoring.
pub proof fn lemma_clean_shutdown_not_unexpected(before: SystemState, after: SystemState, now: u64, later: u64)
    requires
        after.adapters@.len() == before.adapters@.len(),
        forall|i: int| 0 <= i < after.adapters@.len()
            ==> (#[trigger] after.adapters@[i]) == (AdapterMetrics { is_monitoring: false, ..before.adapters@[i] }),
    ensures
        !stopped_unexpectedly(after, later),
{
    if any_adapter_monitoring(after.adapters@) {
        let i = choose|i: int| 0 <= i < after.adapters@.len() && #[trigger] after.adapters@[i].is_monitoring;
        assert(!after.adapters@[i].is_monitoring);
    }
}

} // verus!
