//! Configuration shared by the upload pipeline and the sweeper.
use vstd::prelude::*;

verus! {

/// Largest upload accepted, in bytes.
pub const MAX_SIZE_IN_BYTES: usize = 1_000_000;

/// Idle time after which a stored object is evicted, in seconds.
pub const RETAIN_SECS: u64 = 1800;

/// Limits under which the pipeline and the sweeper run.
pub struct Config {
    /// Largest accepted upload, in bytes.
    pub max_size: usize,
    /// Retention window, in seconds.
    pub ttl_secs: u64,
}

impl Config {
    /// The limits the service runs with by default.
    pub fn standard() -> (r: Config)
        ensures
            r.max_size == MAX_SIZE_IN_BYTES,
            r.ttl_secs == RETAIN_SECS,
    {
        Config { max_size: MAX_SIZE_IN_BYTES, ttl_secs: RETAIN_SECS }
    }
}

} // verus!
