//! Live-metrics state engine of a terminal system monitor: bounded
//! time-series history with percentile clamping, the process cgroup model,
//! per-interface and per-process trackers, page navigation and the decisions
//! of the refresh loop.

pub mod cgroup;
pub mod nav;
pub mod portfolio;
pub mod refresh;
pub mod ring;
pub mod rpc;
pub mod state;
pub mod text;
pub mod tracker;
