//! Probe results and the rolling statistics computed over their recent
//! history.

use vstd::prelude::*;

verus! {

/// Capacity of the probe-result history: oldest entries are evicted first
/// once it is full.
pub const HISTORY_CAPACITY: usize = 60;

/// Width in milliseconds of the sliding window that statistics are computed
/// over.
pub const STATS_WINDOW_MS: u64 = 60_000;

/// Outcome of one probe attempt. `resolved_ip` carries a
/// `(hostname, address text)` pair when the probe resolved a hostname, so
/// the coordinator can populate the DNS cache.
#[derive(Debug, Clone)]
pub struct PingResult {
    pub timestamp_ms: u64,
    pub response_time_ms: Option<u64>,
    pub success: bool,
    pub resolved_ip: Option<(String, String)>,
}

/// The mathematical value of a probe result: its strings taken as character
/// sequences.
pub ghost struct ResultModel {
    pub timestamp_ms: u64,
    pub response_time_ms: Option<u64>,
    pub success: bool,
    pub resolved_ip: Option<(Seq<char>, Seq<char>)>,
}

impl PingResult {
    pub open spec fn model(self) -> ResultModel {
        ResultModel {
            timestamp_ms: self.timestamp_ms,
            response_time_ms: self.response_time_ms,
            success: self.success,
            resolved_ip: match self.resolved_ip {
                Option::Some((h, a)) => Option::Some((h@, a@)),
                Option::None => Option::None,
            },
        }
    }

    /// A failed probe carries neither a response time nor resolution
    /// information.
    pub open spec fn wf(self) -> bool {
        !self.success ==> self.response_time_ms is None && self.resolved_ip is None
    }

    /// A successful probe outcome.
    pub fn success(
        timestamp_ms: u64,
        response_time_ms: u64,
        resolved_ip: Option<(String, String)>,
    ) -> (r: Self)
        ensures
            r.timestamp_ms == timestamp_ms,
            r.response_time_ms == Option::Some(response_time_ms),
            r.success,
            r.resolved_ip == resolved_ip,
            r.wf(),
    {
        PingResult {
            timestamp_ms,
            response_time_ms: Option::Some(response_time_ms),
            success: true,
            resolved_ip,
        }
    }

    /// A failed probe outcome: no response time, no resolution information.
    pub fn failure(timestamp_ms: u64) -> (r: Self)
        ensures
            r.timestamp_ms == timestamp_ms,
            r.response_time_ms is None,
            !r.success,
            r.resolved_ip is None,
            r.wf(),
    {
        PingResult {
            timestamp_ms,
            response_time_ms: Option::None,
            success: false,
            resolved_ip: Option::None,
        }
    }
}

/// The mathematical values of a list of probe results.
pub open spec fn models_of(rs: Seq<PingResult>) -> Seq<ResultModel> {
    rs.map_values(|r: PingResult| r.model())
}

/// Statistics over the probe results of the last `STATS_WINDOW_MS`
/// milliseconds. The loss rate is kept in hundredths of a percent and the
/// mean response time in whole milliseconds, both rounded down.
#[derive(Debug, Clone, Copy, PartialEq, Eq, Structural)]
pub struct PingStatistics {
    pub total_pings: u64,
    pub successful_pings: u64,
    pub failed_pings: u64,
    pub total_response_time_ms: u128,
    pub loss_rate_hundredths: u64,
    pub mean_response_time_ms: u64,
}

impl Default for PingStatistics {
    /// Statistics of an empty history: all counts and rates zero.
    fn default() -> (s: Self)
        ensures
            s == empty_statistics(),
    {
        PingStatistics {
            total_pings: 0,
            successful_pings: 0,
            failed_pings: 0,
            total_response_time_ms: 0,
            loss_rate_hundredths: 0,
            mean_response_time_ms: 0,
        }
    }
}

pub open spec fn empty_statistics() -> PingStatistics {
    PingStatistics {
        total_pings: 0,
        successful_pings: 0,
        failed_pings: 0,
        total_response_time_ms: 0,
        loss_rate_hundredths: 0,
        mean_response_time_ms: 0,
    }
}

/// Whether a result falls inside the sliding window ending at `now_ms`:
/// its timestamp is at least `now_ms - STATS_WINDOW_MS`.
pub open spec fn in_window(r: ResultModel, now_ms: u64) -> bool {
    r.timestamp_ms + STATS_WINDOW_MS >= now_ms
}

/// Number of results inside the window.
pub open spec fn total_in_window(h: Seq<ResultModel>, now_ms: u64) -> int
    decreases h.len(),
{
    if h.len() == 0 {
        0
    } else {
        total_in_window(h.drop_last(), now_ms) + if in_window(h.last(), now_ms) {
            1int
        } else {
            0int
        }
    }
}

/// Number of successful results inside the window.
pub open spec fn successes_in_window(h: Seq<ResultModel>, now_ms: u64) -> int
    decreases h.len(),
{
    if h.len() == 0 {
        0
    } else {
        successes_in_window(h.drop_last(), now_ms) + if in_window(h.last(), now_ms)
            && h.last().success {
            1int
        } else {
            0int
        }
    }
}

/// Sum of the response times recorded inside the window.
pub open spec fn sum_response_in_window(h: Seq<ResultModel>, now_ms: u64) -> int
    decreases h.len(),
{
    if h.len() == 0 {
        0
    } else {
        sum_response_in_window(h.drop_last(), now_ms) + if in_window(h.last(), now_ms) {
            match h.last().response_time_ms {
                Option::Some(t) => t as int,
                Option::None => 0int,
            }
        } else {
            0int
        }
    }
}

/// The statistics snapshot computed from a history at time `now_ms`:
/// counts over the window, loss rate as `failed / total` in hundredths of a
/// percent, mean response time as `sum / successful` in milliseconds, both
/// zero when their divisor is zero.
pub open spec fn stats_spec(h: Seq<ResultModel>, now_ms: u64) -> PingStatistics {
    let total = total_in_window(h, now_ms);
    let succ = successes_in_window(h, now_ms);
    let failed = total - succ;
    let sum = sum_response_in_window(h, now_ms);
    PingStatistics {
        total_pings: total as u64,
        successful_pings: succ as u64,
        failed_pings: failed as u64,
        total_response_time_ms: sum as u128,
        loss_rate_hundredths: if total > 0 {
            (failed * 10000 / total) as u64
        } else {
            0
        },
        mean_response_time_ms: if succ > 0 {
            (sum / succ) as u64
        } else {
            0
        },
    }
}

impl PingStatistics {
    /// Recompute the snapshot from scratch over `history` at time `now_ms`.
    pub fn recompute(history: &Vec<PingResult>, now_ms: u64) -> (s: PingStatistics)
        requires
            history@.len() <= HISTORY_CAPACITY,
            forall|i: int| 0 <= i < history@.len() ==> (#[trigger] history@[i]).wf(),
        ensures
            s == stats_spec(history@.map_values(|r: PingResult| r.model()), now_ms),
    {
        let ghost hm = history@.map_values(|r: PingResult| r.model());
        let mut total: u64 = 0;
        let mut succ: u64 = 0;
        let mut sum: u128 = 0;
        let mut idx: usize = 0;
        while idx < history.len()
            invariant
                history@.len() <= HISTORY_CAPACITY,
                forall|i: int| 0 <= i < history@.len() ==> (#[trigger] history@[i]).wf(),
                hm == history@.map_values(|r: PingResult| r.model()),
                0 <= idx <= history@.len(),
                total == total_in_window(hm.take(idx as int), now_ms),
                succ == successes_in_window(hm.take(idx as int), now_ms),
                sum == sum_response_in_window(hm.take(idx as int), now_ms),
                succ <= total <= idx,
                sum <= succ * 0xffff_ffff_ffff_ffffu64,
            decreases history@.len() - idx,
        {
            let r = &history[idx];
            proof {
                assert(hm.take(idx + 1).drop_last() =~= hm.take(idx as int));
                assert(hm.take(idx + 1).last() == hm[idx as int]);
                assert(hm[idx as int] == history@[idx as int].model());
            }
            if r.timestamp_ms >= now_ms || now_ms - r.timestamp_ms <= STATS_WINDOW_MS {
                total = total + 1;
                if r.success {
                    succ = succ + 1;
                }
                match r.response_time_ms {
                    Option::Some(t) => {
                        sum = sum + t as u128;
                    },
                    Option::None => {},
                }
            }
            idx = idx + 1;
        }
        proof {
            assert(hm.take(hm.len() as int) =~= hm);
        }
        let failed: u64 = total - succ;
        let loss_rate_hundredths: u64 = if total > 0 {
            failed * 10000 / total
        } else {
            0
        };
        let mean_response_time_ms: u64 = if succ > 0 {
            proof {
                let m = 0xffff_ffff_ffff_ffffu64 as int;
                vstd::arithmetic::div_mod::lemma_div_is_ordered(
                    sum as int,
                    succ as int * m,
                    succ as int,
                );
                vstd::arithmetic::div_mod::lemma_div_multiples_vanish(m, succ as int);
                vstd::arithmetic::div_mod::lemma_div_pos_is_pos(sum as int, succ as int);
            }
            (sum / succ as u128) as u64
        } else {
            0
        };
        PingStatistics {
            total_pings: total,
            successful_pings: succ,
            failed_pings: failed,
            total_response_time_ms: sum,
            loss_rate_hundredths,
            mean_response_time_ms,
        }
    }
}

} // verus!
