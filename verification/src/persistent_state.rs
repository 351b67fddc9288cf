//! State kept across runs: per-adapter cumulative counters and whether the
//! app was monitoring when it last stopped, and the time of the last clean
//! shutdown.
use vstd::prelude::*;
use crate::traffic_monitor::types::copy_opt_string;

verus! {

/// What is remembered of one adapter between runs.
#[derive(Debug)]
pub struct AdapterPersistentState {
    pub adapter_name: String,
    pub cumulative_incoming_bytes: u64,
    pub cumulative_outgoing_bytes: u64,
    pub cumulative_incoming_packets: u64,
    pub cumulative_outgoing_packets: u64,
    pub session_start_time: Option<u64>,
    pub last_session_end_time: Option<u64>,
    pub was_monitoring_on_exit: bool,
    pub lifetime_incoming_bytes: u64,
    pub lifetime_outgoing_bytes: u64,
    pub first_recorded_time: Option<u64>,
    pub last_update_time: u64,
}

/// Everything remembered between runs. Each adapter appears at most once.
#[derive(Debug)]
pub struct AppPersistentState {
    pub adapters: Vec<AdapterPersistentState>,
    pub last_shutdown_time: Option<u64>,
    pub app_version: String,
    pub created_at: u64,
    pub updated_at: u64,
}

/// Where the starting state came from.
#[derive(Debug, Clone, Copy, PartialEq, Eq, Structural)]
pub enum StateSource {
    StateFile,
    Backup,
    Fresh,
}

/// Where the state is stored.
pub struct PersistentStateManager {
    pub state_file_path: String,
    pub backup_file_path: String,
}

/// A change to an adapter's remembered state.
#[derive(Debug, Clone, Copy)]
pub enum AdapterUpdate {
    /// Monitoring started at `start_time`.
    MonitoringStarted { start_time: u64 },
    /// The running totals were saved.
    TotalsSaved { incoming_bytes: u64, outgoing_bytes: u64, incoming_packets: u64, outgoing_packets: u64 },
    /// Monitoring stopped at `end_time` with these totals.
    MonitoringStopped {
        incoming_bytes: u64,
        outgoing_bytes: u64,
        incoming_packets: u64,
        outgoing_packets: u64,
        end_time: u64,
    },
}

/// Position of the adapter named `name`, or -1.
pub open spec fn adapter_index(v: Seq<AdapterPersistentState>, name: Seq<char>) -> int
    decreases v.len(),
{
    if v.len() == 0 {
        -1
    } else if v.last().adapter_name@ == name {
        v.len() - 1
    } else {
        adapter_index(v.drop_last(), name)
    }
}

/// No adapter name occurs twice.
pub open spec fn unique_names(v: Seq<AdapterPersistentState>) -> bool {
    forall|i: int, j: int| 0 <= i < j < v.len() ==> v[i].adapter_name@ != v[j].adapter_name@
}

impl AppPersistentState {
    /// The state is well formed: adapter names are unique.
    pub open spec fn wf(&self) -> bool {
        unique_names(self.adapters@)
    }

    /// The remembered state of the adapter named `name`, if any.
    pub open spec fn adapter(&self, name: Seq<char>) -> Option<AdapterPersistentState> {
        let k = adapter_index(self.adapters@, name);
        if k >= 0 { Some(self.adapters@[k]) } else { None }
    }
}

/// A new adapter record, with nothing counted yet.
pub open spec fn fresh_adapter(name: String, now: u64) -> AdapterPersistentState {
    AdapterPersistentState {
        adapter_name: name,
        cumulative_incoming_bytes: 0,
        cumulative_outgoing_bytes: 0,
        cumulative_incoming_packets: 0,
        cumulative_outgoing_packets: 0,
        session_start_time: None,
        last_session_end_time: None,
        was_monitoring_on_exit: false,
        lifetime_incoming_bytes: 0,
        lifetime_outgoing_bytes: 0,
        first_recorded_time: None,
        last_update_time: now,
    }
}

/// The record after an update made at `now`.
pub open spec fn applied(a: AdapterPersistentState, u: AdapterUpdate, now: u64) -> AdapterPersistentState {
    match u {
        AdapterUpdate::MonitoringStarted { start_time } => AdapterPersistentState {
            session_start_time: Some(start_time),
            was_monitoring_on_exit: true,
            first_recorded_time: if a.first_recorded_time is None { Some(start_time) } else { a.first_recorded_time },
            last_update_time: now,
            ..a
        },
        AdapterUpdate::TotalsSaved { incoming_bytes, outgoing_bytes, incoming_packets, outgoing_packets } => AdapterPersistentState {
            cumulative_incoming_bytes: incoming_bytes,
            cumulative_outgoing_bytes: outgoing_bytes,
            cumulative_incoming_packets: incoming_packets,
            cumulative_outgoing_packets: outgoing_packets,
            lifetime_incoming_bytes: incoming_bytes,
            lifetime_outgoing_bytes: outgoing_bytes,
            last_update_time: now,
            ..a
        },
        AdapterUpdate::MonitoringStopped { incoming_bytes, outgoing_bytes, incoming_packets, outgoing_packets, end_time } => AdapterPersistentState {
            cumulative_incoming_bytes: incoming_bytes,
            cumulative_outgoing_bytes: outgoing_bytes,
            cumulative_incoming_packets: incoming_packets,
            cumulative_outgoing_packets: outgoing_packets,
            last_session_end_time: Some(end_time),
            was_monitoring_on_exit: false,
            lifetime_incoming_bytes: incoming_bytes,
            lifetime_outgoing_bytes: outgoing_bytes,
            last_update_time: now,
            ..a
        },
    }
}

impl AdapterPersistentState {
    /// An exact copy.
    pub fn duplicate(&self) -> (r: AdapterPersistentState)
        ensures
            r == *self,
    {
        AdapterPersistentState {
            adapter_name: self.adapter_name.clone(),
            cumulative_incoming_bytes: self.cumulative_incoming_bytes,
            cumulative_outgoing_bytes: self.cumulative_outgoing_bytes,
            cumulative_incoming_packets: self.cumulative_incoming_packets,
            cumulative_outgoing_packets: self.cumulative_outgoing_packets,
            session_start_time: self.session_start_time,
            last_session_end_time: self.last_session_end_time,
            was_monitoring_on_exit: self.was_monitoring_on_exit,
            lifetime_incoming_bytes: self.lifetime_incoming_bytes,
            lifetime_outgoing_bytes: self.lifetime_outgoing_bytes,
            first_recorded_time: self.first_recorded_time,
            last_update_time: self.last_update_time,
        }
    }
}

/// Position of the adapter named `name`.
fn find_adapter(v: &Vec<AdapterPersistentState>, name: &str) -> (r: Option<usize>)
    ensures
        match r {
            Some(k) => adapter_index(v@, name@) == k as int && k < v@.len(),
            None => adapter_index(v@, name@) == -1,
        },
{
    let mut i = v.len();
    proof {
        assert(v@.take(i as int) =~= v@);
    }
    while i > 0
        invariant
            i <= v@.len(),
            adapter_index(v@, name@) == adapter_index(v@.take(i as int), name@),
        decreases i,
    {
        let ghost t = v@.take(i as int);
        proof {
            assert(t.drop_last() =~= v@.take(i - 1));
            assert(t.last() == v@[i - 1]);
        }
        if crate::text::str_eq(v[i - 1].adapter_name.as_str(), name) {
            return Some(i - 1);
        }
        i = i - 1;
    }
    None
}

/// The index found for a name holds that name; a name not found occurs
/// nowhere.
pub proof fn lemma_adapter_index(v: Seq<AdapterPersistentState>, name: Seq<char>)
    ensures
        adapter_index(v, name) >= 0 ==> adapter_index(v, name) < v.len() && v[adapter_index(v, name)].adapter_name@ == name,
        adapter_index(v, name) < 0 ==> adapter_index(v, name) == -1 && forall|i: int| 0 <= i < v.len() ==> #[trigger] v[i].adapter_name@ != name,
    decreases v.len(),
{
    if v.len() > 0 {
        lemma_adapter_index(v.drop_last(), name);
        if v.last().adapter_name@ != name {
            assert forall|i: int| 0 <= i < v.len() - 1 implies v[i] == v.drop_last()[i] by {}
        }
    }
}

/// In a list with unique names, the index of the name held at `k` is `k`.
pub proof fn lemma_adapter_index_unique(v: Seq<AdapterPersistentState>, k: int)
    requires
        unique_names(v),
        0 <= k < v.len(),
    ensures
        adapter_index(v, v[k].adapter_name@) == k,
    decreases v.len(),
{
    if k < v.len() - 1 {
        let p = v.drop_last();
        assert(unique_names(p)) by {
            assert forall|i: int, j: int| 0 <= i < j < p.len() implies p[i].adapter_name@ != p[j].adapter_name@ by {
                assert(p[i] == v[i] && p[j] == v[j]);
            }
        }
        assert(p[k] == v[k]);
        assert(v.last().adapter_name@ != v[k].adapter_name@);
        lemma_adapter_index_unique(p, k);
    }
}

impl PersistentStateManager {
    /// A manager over the given files.
    pub fn new(state_file_path: String, backup_file_path: String) -> (m: PersistentStateManager)
        ensures
            m.state_file_path == state_file_path,
            m.backup_file_path == backup_file_path,
    {
        PersistentStateManager { state_file_path, backup_file_path }
    }

    /// The state used when none could be loaded: no adapters, and a clean
    /// start recorded at `now`.
    pub fn fresh_state(&self, app_version: String, now: u64) -> (s: AppPersistentState)
        ensures
            s.adapters@.len() == 0,
            s.last_shutdown_time == Some(now),
            s.app_version == app_version,
            s.created_at == now,
            s.updated_at == now,
            s.wf(),
    {
        AppPersistentState {
            adapters: Vec::new(),
            last_shutdown_time: Some(now),
            app_version,
            created_at: now,
            updated_at: now,
        }
    }

    /// The state to start from, given what reading the state file and its
    /// backup gave: the state file's state, else the backup's, else a fresh
    /// state (no adapters, a clean start recorded at `now`), which the caller
    /// saves at once. Also tells which one it is.
    pub fn load_state(
        &self,
        main: Result<AppPersistentState, String>,
        backup: Result<AppPersistentState, String>,
        app_version: String,
        now: u64,
    ) -> (r: (AppPersistentState, StateSource))
        ensures
            main matches Ok(m) ==> r == (m, StateSource::StateFile),
            main is Err ==> (backup matches Ok(b) ==> r == (b, StateSource::Backup)),
            main is Err && backup is Err ==> r.1 == StateSource::Fresh && r.0.adapters@.len() == 0
                && r.0.last_shutdown_time == Some(now) && r.0.app_version == app_version
                && r.0.created_at == now && r.0.updated_at == now,
    {
        match main {
            Ok(m) => (m, StateSource::StateFile),
            Err(_) => match backup {
                Ok(b) => (b, StateSource::Backup),
                Err(_) => (self.fresh_state(app_version, now), StateSource::Fresh),
            },
        }
    }

    /// Applies `update` to the adapter named `adapter_name` at time `now`,
    /// creating its record first when there is none.
    pub fn update_adapter_state(&self, state: &mut AppPersistentState, adapter_name: &str, update: AdapterUpdate, now: u64)
        requires
            old(state).wf(),
        ensures
            final(state).wf(),
            final(state).adapter(adapter_name@) == Some(applied(
                match old(state).adapter(adapter_name@) {
                    Some(a) => a,
                    None => fresh_adapter(final(state).adapter(adapter_name@).unwrap().adapter_name, now),
                },
                update,
                now,
            )),
            final(state).adapter(adapter_name@).unwrap().adapter_name@ == adapter_name@,
            forall|n: Seq<char>| n != adapter_name@ ==> #[trigger] final(state).adapter(n) == old(state).adapter(n),
            final(state).updated_at == now,
            final(state).last_shutdown_time == old(state).last_shutdown_time,
            final(state).app_version == old(state).app_version,
            final(state).created_at == old(state).created_at,
    {
        let ghost before = state.adapters@;
        proof {
            lemma_adapter_index(before, adapter_name@);
        }
        let k = match find_adapter(&state.adapters, adapter_name) {
            Some(k) => k,
            None => {
                let fresh = AdapterPersistentState {
                    adapter_name: String::from_str(adapter_name),
                    cumulative_incoming_bytes: 0,
                    cumulative_outgoing_bytes: 0,
                    cumulative_incoming_packets: 0,
                    cumulative_outgoing_packets: 0,
                    session_start_time: None,
                    last_session_end_time: None,
                    was_monitoring_on_exit: false,
                    lifetime_incoming_bytes: 0,
                    lifetime_outgoing_bytes: 0,
                    first_recorded_time: None,
                    last_update_time: now,
                };
                state.adapters.push(fresh);
                state.adapters.len() - 1
            },
        };
        let ghost mid = state.adapters@;
        let ghost prev = mid[k as int];
        proof {
            assert(unique_names(mid)) by {
                assert forall|i: int, j: int| 0 <= i < j < mid.len() implies mid[i].adapter_name@ != mid[j].adapter_name@ by {
                    if j == before.len() {
                        assert(mid[i] == before[i]);
                    } else {
                        assert(mid[i] == before[i] && mid[j] == before[j]);
                    }
                }
            }
        }
        let mut a = state.adapters[k].duplicate();
        match update {
            AdapterUpdate::MonitoringStarted { start_time } => {
                a.session_start_time = Some(start_time);
                a.was_monitoring_on_exit = true;
                if a.first_recorded_time.is_none() {
                    a.first_recorded_time = Some(start_time);
                }
            },
            AdapterUpdate::TotalsSaved { incoming_bytes, outgoing_bytes, incoming_packets, outgoing_packets } => {
                a.cumulative_incoming_bytes = incoming_bytes;
                a.cumulative_outgoing_bytes = outgoing_bytes;
                a.cumulative_incoming_packets = incoming_packets;
                a.cumulative_outgoing_packets = outgoing_packets;
                a.lifetime_incoming_bytes = incoming_bytes;
                a.lifetime_outgoing_bytes = outgoing_bytes;
            },
            AdapterUpdate::MonitoringStopped { incoming_bytes, outgoing_bytes, incoming_packets, outgoing_packets, end_time } => {
                a.cumulative_incoming_bytes = incoming_bytes;
                a.cumulative_outgoing_bytes = outgoing_bytes;
                a.cumulative_incoming_packets = incoming_packets;
                a.cumulative_outgoing_packets = outgoing_packets;
                a.last_session_end_time = Some(end_time);
                a.was_monitoring_on_exit = false;
                a.lifetime_incoming_bytes = incoming_bytes;
                a.lifetime_outgoing_bytes = outgoing_bytes;
            },
        }
        a.last_update_time = now;
        state.adapters.set(k, a);
        state.updated_at = now;
        proof {
            let after = state.adapters@;
            assert(after == mid.update(k as int, applied(prev, update, now)));
            assert(unique_names(after)) by {
                assert forall|i: int, j: int| 0 <= i < j < after.len() implies after[i].adapter_name@ != after[j].adapter_name@ by {
                    assert(after[i].adapter_name == mid[i].adapter_name);
                    assert(after[j].adapter_name == mid[j].adapter_name);
                }
            }
            lemma_adapter_index_unique(after, k as int);
            assert(after[k as int].adapter_name@ == adapter_name@);
            assert forall|n: Seq<char>| n != adapter_name@ implies #[trigger] state.adapter(n) == old(state).adapter(n) by {
                lemma_adapter_index(after, n);
                lemma_adapter_index(before, n);
                let ia = adapter_index(after, n);
                let ib = adapter_index(before, n);
                if ia >= 0 {
                    assert(ia != k);
                    assert(after[ia] == mid[ia]);
                    if ia < before.len() {
                        assert(mid[ia] == before[ia]);
                        lemma_adapter_index_unique(before, ia);
                    } else {
                        assert(mid[ia].adapter_name@ == adapter_name@);
                    }
                } else {
                    if ib >= 0 {
                        assert(before[ib] == mid[ib]);
                        assert(after[ib].adapter_name == mid[ib].adapter_name);
                    }
                }
            }
        }
    }
}


/// Within this many seconds of a clean shutdown a restart counts as clean.
pub const CLEAN_SHUTDOWN_WINDOW: u64 = 300;

/// Some adapter was being monitored when the state was last saved.
pub open spec fn any_monitoring(v: Seq<AdapterPersistentState>) -> bool {
    exists|i: int| 0 <= i < v.len() && #[trigger] v[i].was_monitoring_on_exit
}

/// The app stopped without a clean shutdown: adapters are known, no clean
/// shutdown happened within the window before `now`, and some adapter was
/// being monitored.
pub open spec fn unexpected_shutdown(s: AppPersistentState, now: u64) -> bool {
    &&& s.adapters@.len() > 0
    &&& !(s.last_shutdown_time matches Some(t) && now - t < CLEAN_SHUTDOWN_WINDOW)
    &&& any_monitoring(s.adapters@)
}

/// The shutdown time is not after `now` (when it is looked at).
pub open spec fn shutdown_not_after(s: AppPersistentState, now: u64) -> bool {
    s.adapters@.len() > 0 ==> (s.last_shutdown_time matches Some(t) ==> t <= now)
}

impl PersistentStateManager {
    /// The remembered state of one adapter, if any.
    pub fn get_adapter_state(&self, state: &AppPersistentState, adapter_name: &str) -> (r: Option<AdapterPersistentState>)
        ensures
            r == state.adapter(adapter_name@),
    {
        match find_adapter(&state.adapters, adapter_name) {
            Some(k) => Some(state.adapters[k].duplicate()),
            None => None,
        }
    }

    /// Records a clean shutdown at `now`: no adapter is being monitored any
    /// more, and each session ends now.
    pub fn mark_clean_shutdown(&self, state: &mut AppPersistentState, now: u64)
        requires
            old(state).wf(),
        ensures
            final(state).wf(),
            final(state).last_shutdown_time == Some(now),
            final(state).updated_at == now,
            final(state).adapters@.len() == old(state).adapters@.len(),
            forall|i: int| 0 <= i < final(state).adapters@.len() ==> (#[trigger] final(state).adapters@[i]) == (AdapterPersistentState {
                was_monitoring_on_exit: false,
                last_session_end_time: Some(now),
                ..old(state).adapters@[i]
            }),
            final(state).app_version == old(state).app_version,
            final(state).created_at == old(state).created_at,
    {
        state.last_shutdown_time = Some(now);
        state.updated_at = now;
        let n = state.adapters.len();
        let mut i: usize = 0;
        while i < n
            invariant
                n == state.adapters@.len(),
                n == old(state).adapters@.len(),
                i <= n,
                state.last_shutdown_time == Some(now),
                state.updated_at == now,
                state.app_version == old(state).app_version,
                state.created_at == old(state).created_at,
                forall|j: int| 0 <= j < i ==> (#[trigger] state.adapters@[j]) == (AdapterPersistentState {
                    was_monitoring_on_exit: false,
                    last_session_end_time: Some(now),
                    ..old(state).adapters@[j]
                }),
                forall|j: int| i <= j < n ==> #[trigger] state.adapters@[j] == old(state).adapters@[j],
            decreases n - i,
        {
            let mut a = state.adapters[i].duplicate();
            a.was_monitoring_on_exit = false;
            a.last_session_end_time = Some(now);
            state.adapters.set(i, a);
            i = i + 1;
        }
        proof {
            assert(unique_names(state.adapters@)) by {
                assert forall|a: int, b: int| 0 <= a < b < n implies state.adapters@[a].adapter_name@ != state.adapters@[b].adapter_name@ by {
                    assert(state.adapters@[a].adapter_name == old(state).adapters@[a].adapter_name);
                    assert(state.adapters@[b].adapter_name == old(state).adapters@[b].adapter_name);
                }
            }
        }
    }

    /// Whether the app stopped without a clean shutdown (see
    /// `unexpected_shutdown`).
    pub fn was_unexpected_shutdown(&self, state: &AppPersistentState, now: u64) -> (b: bool)
        requires
            shutdown_not_after(*state, now),
        ensures
            b == unexpected_shutdown(*state, now),
    {
        if state.adapters.len() == 0 {
            return false;
        }
        match state.last_shutdown_time {
            Some(t) => {
                if now - t < CLEAN_SHUTDOWN_WINDOW {
                    return false;
                }
            },
            None => {},
        }
        let mut i: usize = 0;
        while i < state.adapters.len()
            invariant
                i <= state.adapters@.len(),
                state.adapters@.len() > 0,
                !(state.last_shutdown_time matches Some(t) && now - t < CLEAN_SHUTDOWN_WINDOW),
                forall|j: int| 0 <= j < i ==> !(#[trigger] state.adapters@[j]).was_monitoring_on_exit,
            decreases state.adapters@.len() - i,
        {
            if state.adapters[i].was_monitoring_on_exit {
                proof {
                    assert(state.adapters@[i as int].was_monitoring_on_exit);
                }
                return true;
            }
            i = i + 1;
        }
        false
    }

    /// All remembered adapter states.
    pub fn get_all_adapter_states(&self, state: &AppPersistentState) -> (r: Vec<AdapterPersistentState>)
        ensures
            r@ == state.adapters@,
    {
        let mut r: Vec<AdapterPersistentState> = Vec::new();
        let mut i: usize = 0;
        while i < state.adapters.len()
            invariant
                i <= state.adapters@.len(),
                r@ == state.adapters@.take(i as int),
            decreases state.adapters@.len() - i,
        {
            r.push(state.adapters[i].duplicate());
            i = i + 1;
            proof {
                assert(r@ =~= state.adapters@.take(i as int));
            }
        }
        proof {
            assert(state.adapters@.take(state.adapters@.len() as int) =~= state.adapters@);
        }
        r
    }

    /// The cumulative bytes in and out over all remembered adapters.
    pub fn combined_cumulative_totals(&self, state: &AppPersistentState) -> (r: (u64, u64))
        requires
            cumulative_sum(state.adapters@, true) <= u64::MAX,
            cumulative_sum(state.adapters@, false) <= u64::MAX,
        ensures
            r.0 == cumulative_sum(state.adapters@, true),
            r.1 == cumulative_sum(state.adapters@, false),
    {
        let mut incoming: u64 = 0;
        let mut outgoing: u64 = 0;
        let mut i: usize = 0;
        while i < state.adapters.len()
            invariant
                i <= state.adapters@.len(),
                cumulative_sum(state.adapters@, true) <= u64::MAX,
                cumulative_sum(state.adapters@, false) <= u64::MAX,
                incoming == cumulative_sum(state.adapters@.take(i as int), true),
                outgoing == cumulative_sum(state.adapters@.take(i as int), false),
            decreases state.adapters@.len() - i,
        {
            proof {
                assert(state.adapters@.take(i as int + 1).drop_last() =~= state.adapters@.take(i as int));
                lemma_cumulative_sum_prefix(state.adapters@, i as int + 1, true);
                lemma_cumulative_sum_prefix(state.adapters@, i as int + 1, false);
            }
            incoming = incoming + state.adapters[i].cumulative_incoming_bytes;
            outgoing = outgoing + state.adapters[i].cumulative_outgoing_bytes;
            i = i + 1;
        }
        proof {
            assert(state.adapters@.take(state.adapters@.len() as int) =~= state.adapters@);
        }
        (incoming, outgoing)
    }

    /// The time of the last clean shutdown, or zero when none is recorded.
    pub fn get_last_shutdown_time(&self, state: &AppPersistentState) -> (t: u64)
        ensures
            t == match state.last_shutdown_time { Some(x) => x, None => 0 },
    {
        match state.last_shutdown_time {
            Some(x) => x,
            None => 0,
        }
    }
}

/// The cumulative bytes (in, or out) of all adapters of `v`.
pub open spec fn cumulative_sum(v: Seq<AdapterPersistentState>, incoming: bool) -> int
    decreases v.len(),
{
    if v.len() == 0 {
        0
    } else {
        cumulative_sum(v.drop_last(), incoming) + if incoming {
            v.last().cumulative_incoming_bytes as int
        } else {
            v.last().cumulative_outgoing_bytes as int
        }
    }
}

/// The sum over a prefix is at most the sum over the whole.
pub proof fn lemma_cumulative_sum_prefix(v: Seq<AdapterPersistentState>, i: int, incoming: bool)
    requires
        0 <= i <= v.len(),
    ensures
        cumulative_sum(v.take(i), incoming) <= cumulative_sum(v, incoming),
    decreases v.len() - i,
{
    if i < v.len() {
        lemma_cumulative_sum_prefix(v, i + 1, incoming);
        assert(v.take(i + 1).drop_last() =~= v.take(i));
    } else {
        assert(v.take(i) =~= v);
    }
}

/// After a clean shutdown the next start is never taken for a crash, however
/// late it comes: no adapter is left marked as monitoring.
pub proof fn lemma_clean_shutdown_is_not_unexpected(before: AppPersistentState, after: AppPersistentState, now: u64, later: u64)
    requires
        after.last_shutdown_time == Some(now),
        after.adapters@.len() == before.adapters@.len(),
        forall|i: int| 0 <= i < after.adapters@.len() ==> (#[trigger] after.adapters@[i]) == (AdapterPersistentState {
            was_monitoring_on_exit: false,
            last_session_end_time: Some(now),
            ..before.adapters@[i]
        }),
    ensures
        !unexpected_shutdown(after, later),
{
    if any_monitoring(after.adapters@) {
        let i = choose|i: int| 0 <= i < after.adapters@.len() && #[trigger] after.adapters@[i].was_monitoring_on_exit;
        assert(after.adapters@[i].was_monitoring_on_exit == false);
    }
}

/// Reading an adapter back after updating it gives the updated record: the
/// update's time, the monitoring flag and session times it sets, and the
/// totals it carries, whether or not the adapter was known before.
pub proof fn lemma_update_then_get(state: AppPersistentState, after: AppPersistentState, name: Seq<char>, u: AdapterUpdate, now: u64)
    requires
        after.adapter(name) == Some(applied(
            match state.adapter(name) {
                Some(a) => a,
                None => fresh_adapter(after.adapter(name).unwrap().adapter_name, now),
            },
            u,
            now,
        )),
    ensures
        after.adapter(name) is Some,
        after.adapter(name).unwrap().last_update_time == now,
        u matches AdapterUpdate::MonitoringStarted { start_time } ==> after.adapter(name).unwrap().was_monitoring_on_exit
            && after.adapter(name).unwrap().session_start_time == Some(start_time),
        u matches AdapterUpdate::TotalsSaved { incoming_bytes, outgoing_bytes, incoming_packets, outgoing_packets } ==> {
            let a = after.adapter(name).unwrap();
            &&& a.cumulative_incoming_bytes == incoming_bytes && a.cumulative_outgoing_bytes == outgoing_bytes
            &&& a.cumulative_incoming_packets == incoming_packets && a.cumulative_outgoing_packets == outgoing_packets
        },
        u matches AdapterUpdate::MonitoringStopped { incoming_bytes, outgoing_bytes, incoming_packets, outgoing_packets, end_time } ==> {
            let a = after.adapter(name).unwrap();
            &&& !a.was_monitoring_on_exit && a.last_session_end_time == Some(end_time)
            &&& a.cumulative_incoming_bytes == incoming_bytes && a.cumulative_outgoing_bytes == outgoing_bytes
            &&& a.cumulative_incoming_packets == incoming_packets && a.cumulative_outgoing_packets == outgoing_packets
        },
{
}

} // verus!
