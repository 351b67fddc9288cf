//! Health of the two monitors: when input activity and network traffic were
//! last seen, the status reports built from that, and the warnings the
//! periodic check raises.
use vstd::prelude::*;
use crate::text::{dec, push_str, push_decimal};
use crate::traffic_monitor::deduplication::get_current_time;

verus! {

/// Health of the activity tracker.
#[derive(Debug)]
pub struct ActivityMonitoringStatus {
    pub is_working: bool,
    pub last_activity_time: u64,
    pub seconds_since_activity: u64,
    pub status_message: String,
}

/// Health of network monitoring.
#[derive(Debug)]
pub struct NetworkMonitoringStatus {
    pub is_monitoring: bool,
    pub monitoring_mode: String,
    pub active_adapters: Vec<String>,
    pub total_adapters_available: usize,
    pub last_network_activity: u64,
    pub permissions_granted: bool,
    pub status_message: String,
}

/// Health of the whole system at `timestamp`.
#[derive(Debug)]
pub struct SystemHealthStatus {
    pub activity_monitoring: ActivityMonitoringStatus,
    pub network_monitoring: NetworkMonitoringStatus,
    pub overall_status: String,
    pub timestamp: u64,
}

/// When activity and traffic were last seen (Unix seconds, zero for never),
/// and whether network monitoring is on.
pub struct HealthMonitor {
    pub last_activity_time: u64,
    pub last_network_activity: u64,
    pub network_monitoring_active: bool,
}

/// Seconds without activity after which tracking counts as stopped.
pub const ACTIVITY_INACTIVITY_THRESHOLD: u64 = 600;

/// Seconds without traffic after which network monitoring is suspect.
pub const NETWORK_INACTIVITY_THRESHOLD: u64 = 300;

/// `a - b`, or zero when `b` is larger.
pub open spec fn saturating_gap(a: u64, b: u64) -> u64 {
    if a >= b { (a - b) as u64 } else { 0 }
}

/// The activity report at `now` for a last activity at `last`.
pub open spec fn activity_report(last: u64, now: u64) -> (bool, u64, Seq<char>) {
    if last == 0 {
        (false, 0, "No activity tracked yet"@)
    } else {
        let gap = saturating_gap(now, last);
        if gap < 60 {
            (true, gap, "Time tracking is working normally"@)
        } else if gap < 600 {
            (true, gap, "Last activity "@ + dec(gap as nat) + " seconds ago"@)
        } else {
            (false, gap, "Warning: No activity for "@ + dec(gap as nat) + " seconds"@)
        }
    }
}

/// The overall status line.
pub open spec fn overall_message(activity_ok: bool, network_ok: bool) -> Seq<char> {
    if activity_ok && network_ok {
        "All systems operational"@
    } else if !activity_ok && !network_ok {
        "Both activity and network monitoring have issues"@
    } else if !activity_ok {
        "Activity monitoring needs attention"@
    } else {
        "Network monitoring needs attention"@
    }
}

/// The monitoring mode: several adapters under comprehensive monitoring,
/// one adapter, or none.
pub open spec fn mode_name(comprehensive: bool, active: nat) -> Seq<char> {
    if comprehensive && active > 1 {
        "comprehensive"@
    } else if active == 1 {
        "single"@
    } else {
        "none"@
    }
}

/// The network status line.
pub open spec fn network_message(permissions: bool, monitoring: bool, active: nat, last: u64, now: u64) -> Seq<char> {
    if !permissions {
        "Network monitoring requires elevated permissions"@
    } else if !monitoring {
        "Network monitoring is not active"@
    } else if active == 0 {
        "Network monitoring active but no adapters captured"@
    } else if last == 0 {
        "Monitoring "@ + dec(active) + " adapter(s) - waiting for traffic"@
    } else if saturating_gap(now, last) < 60 {
        "Network monitoring active on "@ + dec(active) + " adapter(s) - traffic flowing"@
    } else {
        "Monitoring "@ + dec(active) + " adapter(s) - last traffic "@ + dec(saturating_gap(now, last) as nat) + " seconds ago"@
    }
}

/// What the periodic check finds at `now`.
#[derive(Debug)]
pub struct HealthCheck {
    /// Seconds since the last activity, when that exceeds the threshold.
    pub activity_gap: Option<u64>,
    /// Seconds since the last traffic, when monitoring is on and that
    /// exceeds the threshold.
    pub network_gap: Option<u64>,
    /// Network monitoring is off.
    pub network_inactive: bool,
}

/// The monitor once input activity is seen at `now`.
pub open spec fn activity_seen(m: HealthMonitor, now: u64) -> HealthMonitor {
    HealthMonitor { last_activity_time: now, ..m }
}

/// The monitor once network traffic is seen at `now`.
pub open spec fn traffic_seen(m: HealthMonitor, now: u64) -> HealthMonitor {
    HealthMonitor { last_network_activity: now, ..m }
}

impl HealthMonitor {
    /// A monitor that has seen nothing yet.
    pub fn new() -> (m: HealthMonitor)
        ensures
            m.last_activity_time == 0,
            m.last_network_activity == 0,
            !m.network_monitoring_active,
    {
        HealthMonitor { last_activity_time: 0, last_network_activity: 0, network_monitoring_active: false }
    }

    /// Records input activity at `now`.
    pub fn update_activity_at(&mut self, now: u64)
        ensures
            *final(self) == (HealthMonitor { last_activity_time: now, ..*old(self) }),
    {
        self.last_activity_time = now;
    }

    /// Records input activity now.
    pub fn update_activity(&mut self)
        ensures
            exists|now: u64| *final(self) == #[trigger] activity_seen(*old(self), now),
    {
        let now = get_current_time();
        self.update_activity_at(now);
        proof {
            assert(*self == activity_seen(*old(self), now));
        }
    }

    /// Records network traffic at `now`.
    pub fn update_network_activity_at(&mut self, now: u64)
        ensures
            *final(self) == (HealthMonitor { last_network_activity: now, ..*old(self) }),
    {
        self.last_network_activity = now;
    }

    /// Records network traffic now.
    pub fn update_network_activity(&mut self)
        ensures
            exists|now: u64| *final(self) == #[trigger] traffic_seen(*old(self), now),
    {
        let now = get_current_time();
        self.update_network_activity_at(now);
        proof {
            assert(*self == traffic_seen(*old(self), now));
        }
    }

    /// Turns the network-monitoring flag on or off.
    pub fn set_network_monitoring_status(&mut self, is_active: bool)
        ensures
            *final(self) == (HealthMonitor { network_monitoring_active: is_active, ..*old(self) }),
    {
        self.network_monitoring_active = is_active;
    }

    /// When activity was last seen.
    pub fn get_last_activity_time(&self) -> (t: u64)
        ensures
            t == self.last_activity_time,
    {
        self.last_activity_time
    }

    /// When traffic was last seen.
    pub fn get_last_network_activity(&self) -> (t: u64)
        ensures
            t == self.last_network_activity,
    {
        self.last_network_activity
    }

    /// Whether network monitoring is on.
    pub fn is_network_monitoring_active(&self) -> (b: bool)
        ensures
            b == self.network_monitoring_active,
    {
        self.network_monitoring_active
    }
}

/// The activity report at `now`.
pub fn activity_status(last_activity: u64, now: u64) -> (s: ActivityMonitoringStatus)
    ensures
        ({
            let r = activity_report(last_activity, now);
            &&& s.is_working == r.0
            &&& s.last_activity_time == last_activity
            &&& s.seconds_since_activity == r.1
            &&& s.status_message@ == r.2
        }),
{
    if last_activity == 0 {
        return ActivityMonitoringStatus {
            is_working: false,
            last_activity_time: 0,
            seconds_since_activity: 0,
            status_message: String::from_str("No activity tracked yet"),
        };
    }
    let gap = if now >= last_activity { now - last_activity } else { 0 };
    if gap < 60 {
        ActivityMonitoringStatus {
            is_working: true,
            last_activity_time: last_activity,
            seconds_since_activity: gap,
            status_message: String::from_str("Time tracking is working normally"),
        }
    } else if gap < 600 {
        let mut m = String::from_str("Last activity ");
        push_decimal(&mut m, gap);
        push_str(&mut m, " seconds ago");
        ActivityMonitoringStatus { is_working: true, last_activity_time: last_activity, seconds_since_activity: gap, status_message: m }
    } else {
        let mut m = String::from_str("Warning: No activity for ");
        push_decimal(&mut m, gap);
        push_str(&mut m, " seconds");
        ActivityMonitoringStatus { is_working: false, last_activity_time: last_activity, seconds_since_activity: gap, status_message: m }
    }
}

/// The network report at `now`, from what the caller observed: whether
/// comprehensive monitoring runs, which adapters are monitored, how many
/// adapters exist, and whether capture permissions were granted.
pub fn network_status(
    monitor: &HealthMonitor,
    now: u64,
    is_comprehensive: bool,
    active_adapters: Vec<String>,
    total_adapters_available: usize,
    permissions_granted: bool,
) -> (s: NetworkMonitoringStatus)
    ensures
        s.is_monitoring == monitor.network_monitoring_active,
        s.monitoring_mode@ == mode_name(is_comprehensive, active_adapters@.len()),
        s.active_adapters == active_adapters,
        s.total_adapters_available == total_adapters_available,
        s.last_network_activity == monitor.last_network_activity,
        s.permissions_granted == permissions_granted,
        s.status_message@ == network_message(permissions_granted, monitor.network_monitoring_active,
            active_adapters@.len(), monitor.last_network_activity, now),
{
    let is_monitoring = monitor.network_monitoring_active;
    let n = active_adapters.len();
    let mode = if is_comprehensive && n > 1 {
        String::from_str("comprehensive")
    } else if n == 1 {
        String::from_str("single")
    } else {
        String::from_str("none")
    };
    let last = monitor.last_network_activity;
    let message = if !permissions_granted {
        String::from_str("Network monitoring requires elevated permissions")
    } else if !is_monitoring {
        String::from_str("Network monitoring is not active")
    } else if n == 0 {
        String::from_str("Network monitoring active but no adapters captured")
    } else if last == 0 {
        let mut m = String::from_str("Monitoring ");
        push_decimal(&mut m, n as u64);
        push_str(&mut m, " adapter(s) - waiting for traffic");
        m
    } else {
        let gap = if now >= last { now - last } else { 0 };
        if gap < 60 {
            let mut m = String::from_str("Network monitoring active on ");
            push_decimal(&mut m, n as u64);
            push_str(&mut m, " adapter(s) - traffic flowing");
            m
        } else {
            let mut m = String::from_str("Monitoring ");
            push_decimal(&mut m, n as u64);
            push_str(&mut m, " adapter(s) - last traffic ");
            push_decimal(&mut m, gap);
            push_str(&mut m, " seconds ago");
            m
        }
    };
    NetworkMonitoringStatus {
        is_monitoring,
        monitoring_mode: mode,
        active_adapters,
        total_adapters_available,
        last_network_activity: last,
        permissions_granted,
        status_message: message,
    }
}

impl HealthMonitor {
    /// The full report at `now`, given the network report.
    pub fn get_comprehensive_health_status_at(&self, now: u64, network: NetworkMonitoringStatus) -> (s: SystemHealthStatus)
        ensures
            ({
                let r = activity_report(self.last_activity_time, now);
                &&& s.activity_monitoring.is_working == r.0
                &&& s.activity_monitoring.last_activity_time == self.last_activity_time
                &&& s.activity_monitoring.seconds_since_activity == r.1
                &&& s.activity_monitoring.status_message@ == r.2
            }),
            s.network_monitoring == network,
            s.overall_status@ == overall_message(s.activity_monitoring.is_working, network.is_monitoring),
            s.timestamp == now,
    {
        let activity = activity_status(self.last_activity_time, now);
        let overall = if activity.is_working && network.is_monitoring {
            String::from_str("All systems operational")
        } else if !activity.is_working && !network.is_monitoring {
            String::from_str("Both activity and network monitoring have issues")
        } else if !activity.is_working {
            String::from_str("Activity monitoring needs attention")
        } else {
            String::from_str("Network monitoring needs attention")
        };
        SystemHealthStatus { activity_monitoring: activity, network_monitoring: network, overall_status: overall, timestamp: now }
    }

    /// What the once-a-minute check finds at `now`: a long pause in
    /// activity, a long pause in traffic while monitoring is on, or
    /// monitoring being off.
    pub fn check_health(&self, now: u64) -> (c: HealthCheck)
        requires
            self.last_activity_time > 0 ==> self.last_activity_time <= now,
            self.network_monitoring_active && self.last_network_activity > 0 ==> self.last_network_activity <= now,
        ensures
            c.activity_gap == (if self.last_activity_time > 0 && now - self.last_activity_time > ACTIVITY_INACTIVITY_THRESHOLD {
                Some((now - self.last_activity_time) as u64)
            } else {
                None
            }),
            c.network_gap == (if self.network_monitoring_active && self.last_network_activity > 0
                && now - self.last_network_activity > NETWORK_INACTIVITY_THRESHOLD {
                Some((now - self.last_network_activity) as u64)
            } else {
                None
            }),
            c.network_inactive == !self.network_monitoring_active,
    {
        let last = self.last_activity_time;
        let activity_gap = if last > 0 && now - last > ACTIVITY_INACTIVITY_THRESHOLD { Some(now - last) } else { None };
        let net = self.last_network_activity;
        let network_gap = if self.network_monitoring_active && net > 0 && now - net > NETWORK_INACTIVITY_THRESHOLD {
            Some(now - net)
        } else {
            None
        };
        HealthCheck { activity_gap, network_gap, network_inactive: !self.network_monitoring_active }
    }
}

/// A call that changes a health monitor: input seen at a time (`update_activity`),
/// traffic seen at a time (`update_network_activity`), or the monitoring flag
/// set (`set_network_monitoring_status`).
pub enum HealthCall {
    Activity(u64),
    Traffic(u64),
    SetStatus(bool),
}

/// The monitor after one call, as the method's contract gives it.
pub open spec fn after_call(m: HealthMonitor, c: HealthCall) -> HealthMonitor {
    match c {
        HealthCall::Activity(now) => activity_seen(m, now),
        HealthCall::Traffic(now) => traffic_seen(m, now),
        HealthCall::SetStatus(b) => HealthMonitor { network_monitoring_active: b, ..m },
    }
}

/// The monitor after a sequence of calls, in order.
pub open spec fn after_calls(m: HealthMonitor, calls: Seq<HealthCall>) -> HealthMonitor
    decreases calls.len(),
{
    if calls.len() == 0 {
        m
    } else {
        after_call(after_calls(m, calls.drop_last()), calls.last())
    }
}

/// The flag the last `SetStatus` call set, or `initial` when there is none.
pub open spec fn last_status(calls: Seq<HealthCall>, initial: bool) -> bool
    decreases calls.len(),
{
    if calls.len() == 0 {
        initial
    } else {
        match calls.last() {
            HealthCall::SetStatus(b) => b,
            _ => last_status(calls.drop_last(), initial),
        }
    }
}

/// Whatever calls are made, network monitoring counts as active exactly
/// when the last call that set the flag turned it on; recording activity
/// or traffic never changes it, and with no such call the flag is what it
/// was (off for a new monitor).
pub proof fn lemma_monitoring_flag_follows_last_set(m: HealthMonitor, calls: Seq<HealthCall>)
    ensures
        after_calls(m, calls).network_monitoring_active == last_status(calls, m.network_monitoring_active),
    decreases calls.len(),
{
    if calls.len() > 0 {
        lemma_monitoring_flag_follows_last_set(m, calls.drop_last());
    }
}

/// Records input activity now.
pub fn report_activity(monitor: &mut HealthMonitor)
    ensures
        exists|now: u64| *final(monitor) == #[trigger] activity_seen(*old(monitor), now),
{
    monitor.update_activity();
}

/// Records network traffic now.
pub fn report_network_activity(monitor: &mut HealthMonitor)
    ensures
        exists|now: u64| *final(monitor) == #[trigger] traffic_seen(*old(monitor), now),
{
    monitor.update_network_activity();
}

/// Turns the network-monitoring flag on or off.
pub fn set_network_monitoring_active(monitor: &mut HealthMonitor, is_active: bool)
    ensures
        *final(monitor) == (HealthMonitor { network_monitoring_active: is_active, ..*old(monitor) }),
{
    monitor.set_network_monitoring_status(is_active);
}


/// `s` is the full report of `m` at `now`, for what the caller observed of
/// network monitoring.
pub open spec fn is_report_of(
    s: SystemHealthStatus,
    m: HealthMonitor,
    now: u64,
    is_comprehensive: bool,
    active_adapters: Vec<String>,
    total_adapters_available: usize,
    permissions_granted: bool,
) -> bool {
    let a = activity_report(m.last_activity_time, now);
    let n = s.network_monitoring;
    &&& s.timestamp == now
    &&& s.activity_monitoring.is_working == a.0
    &&& s.activity_monitoring.last_activity_time == m.last_activity_time
    &&& s.activity_monitoring.seconds_since_activity == a.1
    &&& s.activity_monitoring.status_message@ == a.2
    &&& n.is_monitoring == m.network_monitoring_active
    &&& n.monitoring_mode@ == mode_name(is_comprehensive, active_adapters@.len())
    &&& n.active_adapters == active_adapters
    &&& n.total_adapters_available == total_adapters_available
    &&& n.last_network_activity == m.last_network_activity
    &&& n.permissions_granted == permissions_granted
    &&& n.status_message@ == network_message(permissions_granted, m.network_monitoring_active,
        active_adapters@.len(), m.last_network_activity, now)
    &&& s.overall_status@ == overall_message(a.0, m.network_monitoring_active)
}

impl HealthMonitor {
    /// The full report now, from what the caller observed of network
    /// monitoring (see `network_status`).
    pub fn get_comprehensive_health_status(
        &self,
        is_comprehensive: bool,
        active_adapters: Vec<String>,
        total_adapters_available: usize,
        permissions_granted: bool,
    ) -> (s: SystemHealthStatus)
        ensures
            is_report_of(s, *self, s.timestamp, is_comprehensive, active_adapters, total_adapters_available, permissions_granted),
    {
        let now = get_current_time();
        let network = network_status(self, now, is_comprehensive, active_adapters, total_adapters_available, permissions_granted);
        self.get_comprehensive_health_status_at(now, network)
    }
}

/// The full system report now (see `HealthMonitor::get_comprehensive_health_status`).
pub fn get_comprehensive_system_health(
    monitor: &HealthMonitor,
    is_comprehensive: bool,
    active_adapters: Vec<String>,
    total_adapters_available: usize,
    permissions_granted: bool,
) -> (s: SystemHealthStatus)
    ensures
        is_report_of(s, *monitor, s.timestamp, is_comprehensive, active_adapters, total_adapters_available, permissions_granted),
{
    monitor.get_comprehensive_health_status(is_comprehensive, active_adapters, total_adapters_available, permissions_granted)
}

} // verus!
