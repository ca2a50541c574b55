//! The scheduling and result-aggregation coordinator: decides when a probe
//! is due, prevents duplicate in-flight probes per timeline slot, folds
//! delivered results into the timeline, history and statistics, and expires
//! stale in-flight entries.
//!
//! The coordinator never performs I/O itself. The embedding program drives
//! it on a fixed cadence: it drains the result channel, calls [`PingMonitorApp::tick`]
//! with the drained results and the current time, and performs the probe
//! action the tick asks for.

use vstd::prelude::*;

use crate::circle_color::{aged_rgb, classify_spec, rgb_of, CircleColor, Rgb};
use crate::dns_cache::{
    cache_lookup_spec, clean_expired_spec, entry_valid_at, DnsCache, DnsCacheEntry, EntryModel,
    DNS_TTL_SECONDS,
};
use crate::ping::{
    empty_statistics, models_of, stats_spec, PingResult, PingStatistics, ResultModel,
    HISTORY_CAPACITY,
};

verus! {

/// Number of slots on the clock face, one per five seconds of a minute.
pub const SLOT_COUNT: usize = 12;

/// Age in milliseconds past which an in-flight probe is abandoned: its slot
/// becomes eligible for a new probe even though no result arrived.
pub const PENDING_TIMEOUT_MS: u64 = 10_000;

/// The slot that a time falls in: second-of-minute divided into twelve
/// five-second spans.
pub open spec fn slot_for_time_spec(t_ms: u64) -> int {
    ((t_ms as int / 1000) % 60) / 5
}

/// The five-second boundary at or before a time, in whole seconds.
pub open spec fn current_boundary(now_ms: u64) -> int {
    ((now_ms / 1000) / 5) * 5
}

/// What the coordinator asks the embedding program to start after a tick.
#[derive(Debug)]
pub enum ProbeAction {
    /// No valid cached address: resolve the target, then probe.
    Resolve { target: String },
    /// A valid cached address exists: probe it directly.
    ProbeCached { address: String },
}

/// The mathematical value of a probe action.
pub ghost enum ActionModel {
    Resolve { target: Seq<char> },
    ProbeCached { address: Seq<char> },
}

impl ProbeAction {
    pub open spec fn model(self) -> ActionModel {
        match self {
            ProbeAction::Resolve { target } => ActionModel::Resolve { target: target@ },
            ProbeAction::ProbeCached { address } => ActionModel::ProbeCached { address: address@ },
        }
    }
}

pub open spec fn action_model(a: Option<ProbeAction>) -> Option<ActionModel> {
    match a {
        Option::Some(act) => Option::Some(act.model()),
        Option::None => Option::None,
    }
}

/// The mathematical value of the whole coordinator state.
pub ghost struct MonitorModel {
    pub target: Seq<char>,
    pub is_monitoring: bool,
    pub history: Seq<ResultModel>,
    pub circles: Seq<CircleColor>,
    pub circle_timestamps: Seq<Option<u64>>,
    pub last_ping_second: Option<u64>,
    pub statistics: PingStatistics,
    pub pending_pings: Seq<Option<u64>>,
    pub dns_cache: Map<Seq<char>, EntryModel>,
    pub green_threshold: u64,
    pub yellow_threshold: u64,
    pub last_response_time: Option<u64>,
}

/// The color a delivered result paints its slot: red on failure, otherwise
/// by latency against the thresholds.
pub open spec fn result_color(r: ResultModel, green: u64, yellow: u64) -> CircleColor {
    if !r.success {
        CircleColor::Red
    } else {
        classify_spec(r.response_time_ms, green, yellow)
    }
}

/// The state after folding one delivered result in at time `now_ms`:
/// the result's slot (from its issuance timestamp) is recolored and
/// timestamped, the last response time is recorded, a carried
/// hostname-address pair that is not a literal address is cached with a
/// 300-second time-to-live, the result is appended to the history (evicting
/// the oldest past capacity), statistics are recomputed, and the slot's
/// pending entry is cleared.
pub open spec fn apply_result_spec(m: MonitorModel, r: ResultModel, now_ms: u64) -> MonitorModel {
    let slot = slot_for_time_spec(r.timestamp_ms);
    let dns = match r.resolved_ip {
        Option::Some((h, a)) => if h != a {
            m.dns_cache.insert(
                h,
                EntryModel {
                    ip_address: a,
                    cached_at_ms: now_ms,
                    ttl_ms: (DNS_TTL_SECONDS * 1000) as u64,
                },
            )
        } else {
            m.dns_cache
        },
        Option::None => m.dns_cache,
    };
    let grown = m.history.push(r);
    let history = if grown.len() > HISTORY_CAPACITY {
        grown.drop_first()
    } else {
        grown
    };
    MonitorModel {
        circles: m.circles.update(slot, result_color(r, m.green_threshold, m.yellow_threshold)),
        circle_timestamps: m.circle_timestamps.update(slot, Option::Some(r.timestamp_ms)),
        last_response_time: r.response_time_ms,
        dns_cache: dns,
        history: history,
        statistics: stats_spec(history, now_ms),
        pending_pings: m.pending_pings.update(slot, Option::None),
        ..m
    }
}

/// The state after folding a drained batch in, in delivery order.
pub open spec fn apply_results_spec(
    m: MonitorModel,
    rs: Seq<ResultModel>,
    now_ms: u64,
) -> MonitorModel
    decreases rs.len(),
{
    if rs.len() == 0 {
        m
    } else {
        apply_result_spec(apply_results_spec(m, rs.drop_last(), now_ms), rs.last(), now_ms)
    }
}

/// Whether an in-flight entry issued at `ts` is still honored at `now_ms`.
/// A clock reading earlier than the issuance counts as no elapsed time.
pub open spec fn keep_pending(ts: u64, now_ms: u64) -> bool {
    now_ms < ts + PENDING_TIMEOUT_MS
}

/// The state after abandoning in-flight entries older than the pending
/// timeout.
pub open spec fn purge_pending_spec(m: MonitorModel, now_ms: u64) -> MonitorModel {
    MonitorModel {
        pending_pings: Seq::new(
            m.pending_pings.len(),
            |i: int|
                match m.pending_pings[i] {
                    Option::Some(ts) => if keep_pending(ts, now_ms) {
                        Option::Some(ts)
                    } else {
                        Option::None
                    },
                    Option::None => Option::None,
                },
        ),
        ..m
    }
}

/// Whether a new probe is due at `now_ms`: a five-second boundary beyond the
/// last one a probe was issued at has been reached, or, on the first tick
/// after monitoring starts, the clock stands exactly on a boundary.
pub open spec fn probe_due(m: MonitorModel, now_ms: u64) -> bool {
    match m.last_ping_second {
        Option::Some(last) => current_boundary(now_ms) > last,
        Option::None => (now_ms / 1000) % 5 == 0,
    }
}

/// The probe decision at `now_ms`, after results were folded in and stale
/// in-flight entries purged. No probe is issued unless monitoring is on, a
/// probe is due, and the current slot has no probe in flight. When one is
/// issued, the slot is marked pending at `now_ms` and the boundary is
/// recorded; a valid cached address is probed directly, otherwise any
/// expired entry for the target is evicted and resolution is requested.
pub open spec fn probe_decision_spec(m: MonitorModel, now_ms: u64) -> (MonitorModel, Option<
    ActionModel,
>) {
    if !m.is_monitoring || !probe_due(m, now_ms) {
        (m, Option::None)
    } else {
        let slot = slot_for_time_spec(now_ms);
        if m.pending_pings[slot] is Some {
            (m, Option::None)
        } else {
            let issued = MonitorModel {
                pending_pings: m.pending_pings.update(slot, Option::Some(now_ms)),
                last_ping_second: Option::Some(current_boundary(now_ms) as u64),
                ..m
            };
            match cache_lookup_spec(m.dns_cache, m.target, now_ms) {
                Option::Some(addr) => (
                    issued,
                    Option::Some(ActionModel::ProbeCached { address: addr }),
                ),
                Option::None => (
                    MonitorModel {
                        dns_cache: clean_expired_spec(m.dns_cache, m.target, now_ms),
                        ..issued
                    },
                    Option::Some(ActionModel::Resolve { target: m.target }),
                ),
            }
        }
    }
}

/// One whole tick: fold the drained results in, purge stale in-flight
/// entries, then decide whether to issue a probe.
pub open spec fn tick_spec(m: MonitorModel, rs: Seq<ResultModel>, now_ms: u64) -> (
    MonitorModel,
    Option<ActionModel>,
) {
    probe_decision_spec(purge_pending_spec(apply_results_spec(m, rs, now_ms), now_ms), now_ms)
}

/// The state a freshly constructed coordinator is in.
pub open spec fn initial_model(target: Seq<char>, green: u64, yellow: u64) -> MonitorModel {
    MonitorModel {
        target: target,
        is_monitoring: false,
        history: Seq::empty(),
        circles: Seq::new(SLOT_COUNT as nat, |i: int| CircleColor::Gray),
        circle_timestamps: Seq::new(SLOT_COUNT as nat, |i: int| Option::None),
        last_ping_second: Option::None,
        statistics: empty_statistics(),
        pending_pings: Seq::new(SLOT_COUNT as nat, |i: int| Option::None),
        dns_cache: Map::empty(),
        green_threshold: green,
        yellow_threshold: yellow,
        last_response_time: Option::None,
    }
}

/// The coordinator. It owns the timeline, history, statistics, DNS cache
/// and pending-probe set; the embedding program owns the clock, the result
/// channel and the probe workers.
pub struct PingMonitorApp {
    pub target: String,
    pub is_monitoring: bool,
    pub ping_results: Vec<PingResult>,
    pub circles: Vec<CircleColor>,
    pub circle_timestamps: Vec<Option<u64>>,
    pub last_ping_second: Option<u64>,
    pub ping_statistics: PingStatistics,
    pub pending_pings: Vec<Option<u64>>,
    pub dns_cache: DnsCache,
    pub green_threshold: u64,
    pub yellow_threshold: u64,
    pub last_response_time: Option<u64>,
}

impl PingMonitorApp {
    /// Structural soundness: twelve slots everywhere, a bounded history of
    /// well-formed results, and a well-formed cache.
    pub open spec fn wf(self) -> bool {
        &&& self.circles@.len() == SLOT_COUNT
        &&& self.circle_timestamps@.len() == SLOT_COUNT
        &&& self.pending_pings@.len() == SLOT_COUNT
        &&& self.ping_results@.len() <= HISTORY_CAPACITY
        &&& forall|i: int|
            0 <= i < self.ping_results@.len() ==> (#[trigger] self.ping_results@[i]).wf()
        &&& self.dns_cache.wf()
    }

    pub open spec fn model(self) -> MonitorModel {
        MonitorModel {
            target: self.target@,
            is_monitoring: self.is_monitoring,
            history: models_of(self.ping_results@),
            circles: self.circles@,
            circle_timestamps: self.circle_timestamps@,
            last_ping_second: self.last_ping_second,
            statistics: self.ping_statistics,
            pending_pings: self.pending_pings@,
            dns_cache: self.dns_cache@,
            green_threshold: self.green_threshold,
            yellow_threshold: self.yellow_threshold,
            last_response_time: self.last_response_time,
        }
    }

    /// A coordinator in the idle state, configured with a target and
    /// thresholds.
    pub fn new(config: crate::config::AppConfig) -> (app: Self)
        ensures
            app.wf(),
            app.model() == initial_model(
                config.target@,
                config.green_threshold,
                config.yellow_threshold,
            ),
    {
        let mut circles: Vec<CircleColor> = Vec::new();
        let mut circle_timestamps: Vec<Option<u64>> = Vec::new();
        let mut pending_pings: Vec<Option<u64>> = Vec::new();
        let mut i: usize = 0;
        while i < SLOT_COUNT
            invariant
                0 <= i <= SLOT_COUNT,
                circles@.len() == i,
                circle_timestamps@.len() == i,
                pending_pings@.len() == i,
                forall|j: int| 0 <= j < i ==> circles@[j] == CircleColor::Gray,
                forall|j: int| 0 <= j < i ==> circle_timestamps@[j] is None,
                forall|j: int| 0 <= j < i ==> pending_pings@[j] is None,
            decreases SLOT_COUNT - i,
        {
            circles.push(CircleColor::Gray);
            circle_timestamps.push(Option::None);
            pending_pings.push(Option::None);
            i = i + 1;
        }
        let app = PingMonitorApp {
            target: config.target,
            is_monitoring: false,
            ping_results: Vec::new(),
            circles,
            circle_timestamps,
            last_ping_second: Option::None,
            ping_statistics: PingStatistics::default(),
            pending_pings,
            dns_cache: DnsCache::new(),
            green_threshold: config.green_threshold,
            yellow_threshold: config.yellow_threshold,
            last_response_time: Option::None,
        };
        proof {
            let m = initial_model(
                config.target@,
                config.green_threshold,
                config.yellow_threshold,
            );
            assert(app.model().circles =~= m.circles);
            assert(app.model().circle_timestamps =~= m.circle_timestamps);
            assert(app.model().pending_pings =~= m.pending_pings);
            assert(app.model().history =~= m.history);
        }
        app
    }

    /// The slot a time falls in, always below `SLOT_COUNT`.
    pub fn get_circle_index_for_time(time_ms: u64) -> (i: usize)
        ensures
            i == slot_for_time_spec(time_ms),
            i < SLOT_COUNT,
    {
        (((time_ms / 1000) % 60) / 5) as usize
    }

    /// The color a delivered result paints its slot.
    pub fn get_circle_color(&self, ping_result: &PingResult) -> (c: CircleColor)
        ensures
            c == result_color(
                ping_result.model(),
                self.green_threshold,
                self.yellow_threshold,
            ),
    {
        if !ping_result.success {
            return CircleColor::Red;
        }
        CircleColor::from_ping_response(
            ping_result.response_time_ms,
            self.green_threshold,
            self.yellow_threshold,
        )
    }

    /// Recompute the statistics snapshot from the current history at
    /// `now_ms`; nothing else changes.
    pub fn update_statistics(&mut self, now_ms: u64)
        requires
            old(self).wf(),
        ensures
            final(self).wf(),
            final(self).model() == (MonitorModel {
                statistics: stats_spec(old(self).model().history, now_ms),
                ..old(self).model()
            }),
    {
        self.ping_statistics = PingStatistics::recompute(&self.ping_results, now_ms);
    }

    /// Fold one delivered result in at time `now_ms`, as
    /// [`apply_result_spec`] describes.
    pub fn process_ping_result(&mut self, ping_result: PingResult, now_ms: u64)
        requires
            old(self).wf(),
            ping_result.wf(),
        ensures
            final(self).wf(),
            final(self).model() == apply_result_spec(
                old(self).model(),
                ping_result.model(),
                now_ms,
            ),
    {
        let ghost m0 = self.model();
        let ghost rm = ping_result.model();
        let circle_index = Self::get_circle_index_for_time(ping_result.timestamp_ms);
        let color = self.get_circle_color(&ping_result);
        self.circles[circle_index] = color;
        self.circle_timestamps[circle_index] = Option::Some(ping_result.timestamp_ms);
        self.last_response_time = ping_result.response_time_ms;
        if let Option::Some((hostname, ip)) = &ping_result.resolved_ip {
            if !(*hostname == *ip) {
                self.dns_cache.insert(
                    hostname.clone(),
                    DnsCacheEntry::new(ip.clone(), DNS_TTL_SECONDS, now_ms),
                );
            }
        }
        self.ping_results.push(ping_result);
        if self.ping_results.len() > HISTORY_CAPACITY {
            self.ping_results.remove(0);
        }
        proof {
            let target = apply_result_spec(m0, rm, now_ms);
            assert(models_of(self.ping_results@) =~= target.history);
        }
        self.update_statistics(now_ms);
        self.pending_pings[circle_index] = Option::None;
        proof {
            let target = apply_result_spec(m0, rm, now_ms);
            assert(self.model().circles =~= target.circles);
            assert(self.model().circle_timestamps =~= target.circle_timestamps);
            assert(self.model().pending_pings =~= target.pending_pings);
            assert(self.model().dns_cache =~= target.dns_cache);
            assert(self.model() == target);
        }
    }

    /// Abandon in-flight entries older than `PENDING_TIMEOUT_MS`, freeing
    /// their slots for new probes; no failure result is synthesized for
    /// them.
    pub fn purge_stale_pending(&mut self, now_ms: u64)
        requires
            old(self).wf(),
        ensures
            final(self).wf(),
            final(self).model() == purge_pending_spec(old(self).model(), now_ms),
    {
        let n = self.pending_pings.len();
        let mut cleaned: Vec<Option<u64>> = Vec::new();
        let mut i: usize = 0;
        while i < n
            invariant
                n == self.pending_pings@.len(),
                0 <= i <= n,
                cleaned@.len() == i,
                forall|j: int|
                    0 <= j < i ==> cleaned@[j] == (match self.pending_pings@[j] {
                        Option::Some(ts) => if keep_pending(ts, now_ms) {
                            Option::Some(ts)
                        } else {
                            Option::<u64>::None
                        },
                        Option::None => Option::<u64>::None,
                    }),
            decreases n - i,
        {
            match self.pending_pings[i] {
                Option::Some(ts) => {
                    let keep = ts > now_ms || now_ms - ts < PENDING_TIMEOUT_MS;
                    if keep {
                        cleaned.push(Option::Some(ts));
                    } else {
                        cleaned.push(Option::None);
                    }
                },
                Option::None => {
                    cleaned.push(Option::None);
                },
            }
            i = i + 1;
        }
        self.pending_pings = cleaned;
        proof {
            assert(self.model().pending_pings =~= purge_pending_spec(
                old(self).model(),
                now_ms,
            ).pending_pings);
            assert(self.model() == purge_pending_spec(old(self).model(), now_ms));
        }
    }

    /// Decide whether a probe is due at `now_ms` and, if so, mark its slot
    /// pending and say what the embedding program should start, as
    /// [`probe_decision_spec`] describes.
    pub fn decide_probe(&mut self, now_ms: u64) -> (action: Option<ProbeAction>)
        requires
            old(self).wf(),
        ensures
            final(self).wf(),
            final(self).model() == probe_decision_spec(old(self).model(), now_ms).0,
            action_model(action) == probe_decision_spec(old(self).model(), now_ms).1,
    {
        if !self.is_monitoring {
            return Option::None;
        }
        let current_second = now_ms / 1000;
        proof {
            vstd::arithmetic::div_mod::lemma_fundamental_div_mod(current_second as int, 5);
        }
        let boundary = (current_second / 5) * 5;
        let should_ping = match self.last_ping_second {
            Option::Some(last) => boundary > last,
            Option::None => current_second % 5 == 0,
        };
        if !should_ping {
            return Option::None;
        }
        let circle_index = Self::get_circle_index_for_time(now_ms);
        if self.pending_pings[circle_index].is_some() {
            return Option::None;
        }
        match self.dns_cache.get_valid_ip(self.target.as_str(), now_ms) {
            Option::Some(address) => {
                self.pending_pings[circle_index] = Option::Some(now_ms);
                self.last_ping_second = Option::Some(boundary);
                Option::Some(ProbeAction::ProbeCached { address })
            },
            Option::None => {
                self.dns_cache.clean_expired(self.target.as_str(), now_ms);
                self.pending_pings[circle_index] = Option::Some(now_ms);
                self.last_ping_second = Option::Some(boundary);
                Option::Some(ProbeAction::Resolve { target: self.target.clone() })
            },
        }
    }

    /// One tick of the coordinator, as [`tick_spec`] describes: fold the
    /// drained results in (in delivery order), purge stale in-flight
    /// entries, then decide whether a probe is due. The returned action, if
    /// any, is what the embedding program must start; it must deliver
    /// exactly one result per started probe on the channel it drains from.
    pub fn tick(&mut self, drained: Vec<PingResult>, now_ms: u64) -> (action: Option<ProbeAction>)
        requires
            old(self).wf(),
            forall|i: int| 0 <= i < drained@.len() ==> (#[trigger] drained@[i]).wf(),
        ensures
            final(self).wf(),
            final(self).model() == tick_spec(old(self).model(), models_of(drained@), now_ms).0,
            action_model(action) == tick_spec(old(self).model(), models_of(drained@), now_ms).1,
    {
        let ghost m0 = self.model();
        let ghost all = models_of(drained@);
        let mut rs = drained;
        while rs.len() > 0
            invariant
                self.wf(),
                rs@.len() <= all.len(),
                forall|i: int| 0 <= i < rs@.len() ==> (#[trigger] rs@[i]).wf(),
                models_of(rs@) =~= all.skip(all.len() - rs@.len()),
                self.model() == apply_results_spec(
                    m0,
                    all.take(all.len() - rs@.len()),
                    now_ms,
                ),
            decreases rs@.len(),
        {
            let ghost k = all.len() - rs@.len();
            let ghost prev = rs@;
            let r = rs.remove(0);
            proof {
                assert(models_of(prev)[0] == prev[0].model());
                assert(r.model() == all[k]);
                assert(rs@ =~= prev.drop_first());
                assert forall|j: int| 0 <= j < rs@.len() implies models_of(rs@)[j] == all.skip(
                    k + 1,
                )[j] by {
                    assert(rs@[j] == prev[j + 1]);
                    assert(models_of(prev)[j + 1] == all.skip(k)[j + 1]);
                }
                assert(models_of(rs@) =~= all.skip(all.len() - rs@.len()));
            }
            self.process_ping_result(r, now_ms);
            proof {
                let pre = all.take(k);
                let post = all.take(k + 1);
                assert(post.drop_last() =~= pre);
                assert(post.last() == all[k]);
            }
        }
        proof {
            assert(all.take(all.len() as int) =~= all);
        }
        self.purge_stale_pending(now_ms);
        self.decide_probe(now_ms)
    }

    /// Whether a probe is in flight for a slot.
    pub fn is_pending(&self, index: usize) -> (r: bool)
        requires
            self.wf(),
            index < SLOT_COUNT,
        ensures
            r == (self.model().pending_pings[index as int] is Some),
    {
        self.pending_pings[index].is_some()
    }

    /// The color a slot is rendered with at `now_ms`: its classification,
    /// faded by the age of the result that painted it; unaged when the slot
    /// was never painted or its timestamp lies in the future.
    pub fn circle_rgb(&self, index: usize, now_ms: u64) -> (c: Rgb)
        requires
            self.wf(),
            index < SLOT_COUNT,
        ensures
            c == displayed_rgb(self.model(), index as int, now_ms),
    {
        match self.circle_timestamps[index] {
            Option::Some(ts) => {
                if ts <= now_ms {
                    self.circles[index].to_rgb_with_age(now_ms - ts)
                } else {
                    self.circles[index].to_rgb()
                }
            },
            Option::None => self.circles[index].to_rgb(),
        }
    }

    /// Replace the probe target.
    pub fn set_target(&mut self, target: String)
        requires
            old(self).wf(),
        ensures
            final(self).wf(),
            final(self).model() == (MonitorModel { target: target@, ..old(self).model() }),
    {
        self.target = target;
    }

    /// Replace the green and yellow latency thresholds.
    pub fn set_thresholds(&mut self, green_threshold: u64, yellow_threshold: u64)
        requires
            old(self).wf(),
        ensures
            final(self).wf(),
            final(self).model() == (MonitorModel {
                green_threshold,
                yellow_threshold,
                ..old(self).model()
            }),
    {
        self.green_threshold = green_threshold;
        self.yellow_threshold = yellow_threshold;
    }

    /// Start issuing probes. The last-boundary marker is reset so the next
    /// eligible tick fires immediately rather than waiting out the current
    /// five-second span.
    pub fn start_monitoring(&mut self)
        requires
            old(self).wf(),
        ensures
            final(self).wf(),
            final(self).model() == (MonitorModel {
                is_monitoring: true,
                last_ping_second: Option::None,
                ..old(self).model()
            }),
    {
        self.is_monitoring = true;
        self.last_ping_second = Option::None;
    }

    /// Stop issuing probes; delivered results are still folded in.
    pub fn stop_monitoring(&mut self)
        requires
            old(self).wf(),
        ensures
            final(self).wf(),
            final(self).model() == (MonitorModel { is_monitoring: false, ..old(self).model() }),
    {
        self.is_monitoring = false;
    }
}

/// The color a slot is rendered with at `now_ms`.
pub open spec fn displayed_rgb(m: MonitorModel, i: int, now_ms: u64) -> Rgb {
    match m.circle_timestamps[i] {
        Option::Some(ts) => if ts <= now_ms {
            aged_rgb(m.circles[i], (now_ms - ts) as u64)
        } else {
            rgb_of(m.circles[i])
        },
        Option::None => rgb_of(m.circles[i]),
    }
}

impl Default for PingMonitorApp {
    /// An idle coordinator with the out-of-the-box configuration.
    fn default() -> (app: Self)
        ensures
            app.wf(),
            app.model() == initial_model("8.8.8.8"@, 100, 200),
    {
        PingMonitorApp::new(crate::config::AppConfig::default())
    }
}

/// The clock face is periodic: times one minute apart fall in the same
/// slot.
pub proof fn lemma_slot_periodic(t_ms: u64)
    requires
        t_ms + 60_000 <= u64::MAX,
    ensures
        slot_for_time_spec((t_ms + 60_000) as u64) == slot_for_time_spec(t_ms),
{
    let t = t_ms as int;
    vstd::arithmetic::div_mod::lemma_hoist_over_denominator(t, 60, 1000);
    assert((t + 60_000) / 1000 == t / 1000 + 60);
    vstd::arithmetic::div_mod::lemma_mod_multiples_vanish(1, t / 1000, 60);
    assert((60 * 1 + t / 1000) % 60 == (t / 1000) % 60);
}

/// Folding a drained batch in appends each delivered result to the history
/// exactly once: afterwards the history is exactly the most recent results
/// of the old history followed by the whole batch, kept to capacity.
/// Processing a batch therefore never double-counts a result; that one
/// result is never delivered in two batches is the result channel's
/// guarantee (a receive hands each result out once), owed by the embedding
/// program's drain.
pub proof fn lemma_batch_appends_once(m: MonitorModel, rs: Seq<ResultModel>, now_ms: u64)
    requires
        m.history.len() <= HISTORY_CAPACITY,
    ensures
        ({
            let combined = m.history + rs;
            let kept: int = if combined.len() <= HISTORY_CAPACITY {
                combined.len() as int
            } else {
                HISTORY_CAPACITY as int
            };
            apply_results_spec(m, rs, now_ms).history =~= combined.skip(combined.len() - kept)
        }),
    decreases rs.len(),
{
    let combined = m.history + rs;
    let kept: int = if combined.len() <= HISTORY_CAPACITY {
        combined.len() as int
    } else {
        HISTORY_CAPACITY as int
    };
    if rs.len() == 0 {
        assert(combined =~= m.history);
        assert(combined.skip(0) =~= combined);
    } else {
        lemma_batch_appends_once(m, rs.drop_last(), now_ms);
        let m1 = apply_results_spec(m, rs.drop_last(), now_ms);
        let c1 = m.history + rs.drop_last();
        let kept1: int = if c1.len() <= HISTORY_CAPACITY {
            c1.len() as int
        } else {
            HISTORY_CAPACITY as int
        };
        let off1 = c1.len() - kept1;
        assert(m1.history.len() == kept1);
        let grown = m1.history.push(rs.last());
        assert(combined =~= c1.push(rs.last()));
        assert(grown =~= combined.skip(off1));
        if grown.len() > HISTORY_CAPACITY {
            assert(apply_results_spec(m, rs, now_ms).history =~= grown.drop_first());
            assert(grown.drop_first() =~= combined.skip(off1 + 1));
        }
    }
}

/// A slot with a probe in flight blocks a second probe: when the current
/// slot is pending, the decision step issues nothing and changes nothing.
pub proof fn lemma_pending_blocks_probe(m: MonitorModel, now_ms: u64)
    requires
        m.pending_pings[slot_for_time_spec(now_ms)] is Some,
    ensures
        probe_decision_spec(m, now_ms).0 == m,
        probe_decision_spec(m, now_ms).1 is None,
{
}

} // verus!
