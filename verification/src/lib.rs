//! Core engine of a network liveness monitor: it decides when to probe a
//! target, reconciles asynchronously delivered probe outcomes into a
//! twelve-slot 60-second clock-face timeline, keeps a time-boxed DNS cache
//! and a bounded result history, and derives loss and latency statistics
//! over a sliding one-minute window.
//!
//! The engine is pure: it works on plain values and an injected clock in
//! milliseconds since the epoch. All I/O — hostname resolution, the ICMP
//! round trip, configuration persistence, rendering — belongs to the
//! embedding program, which drives [`monitor::PingMonitorApp::tick`] on a
//! fixed cadence with the drained results and performs the probe action the
//! tick returns.

pub mod circle_color;
pub mod config;
pub mod dns_cache;
pub mod monitor;
pub mod ping;
pub mod ping_executor;

pub use circle_color::CircleColor;
pub use config::AppConfig;
pub use dns_cache::{DnsCache, DnsCacheEntry};
pub use monitor::{PingMonitorApp, ProbeAction};
pub use ping::{PingResult, PingStatistics};
pub use ping_executor::{sanitize_hostname, PingExecutor};
