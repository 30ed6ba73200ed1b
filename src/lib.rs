//! Sliding-window throughput estimation for a streaming request path.
//!
//! Completed requests are recorded as segments (output amount plus monotonic
//! start and end instants, in nanoseconds); a query amortizes each segment's
//! output uniformly over its own duration and reports the share that falls
//! inside the most recent fixed window.
use vstd::prelude::*;

pub mod laws;
pub mod tps_monitor;

pub use tps_monitor::{Contribution, RequestSegment, TpsMonitor, TpsSample, DEFAULT_WINDOW_SECS, NANOS_PER_SEC};
