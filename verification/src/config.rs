//! Monitoring configuration: the probe target and the two latency
//! thresholds. Persistence is the embedding program's concern.

use vstd::prelude::*;

verus! {

/// The probe target and the green/yellow latency thresholds in
/// milliseconds. The thresholds are expected to satisfy `green < yellow`
/// for display coherence; that is the configuration collaborator's
/// responsibility, not enforced here.
#[derive(Debug, Clone)]
pub struct AppConfig {
    pub target: String,
    pub green_threshold: u64,
    pub yellow_threshold: u64,
}

impl Default for AppConfig {
    /// The out-of-the-box configuration: a well-known public address and
    /// 100 ms / 200 ms thresholds.
    fn default() -> (c: Self)
        ensures
            c.target@ == "8.8.8.8"@,
            c.green_threshold == 100,
            c.yellow_threshold == 200,
    {
        AppConfig { target: "8.8.8.8".to_owned(), green_threshold: 100, yellow_threshold: 200 }
    }
}

} // verus!
