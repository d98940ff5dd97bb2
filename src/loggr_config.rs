use crate::log_level::LogLevel;
use vstd::prelude::*;

verus! {

/// Options for creating or reconfiguring a logger. A field left `None`
/// keeps the logger's value, but for `levels`, which then means the
/// default set.
pub struct LoggrConfig {
    /// How to format the log timestamp, as a strftime-style pattern
    pub timestamp_format: Option<String>,
    /// The shard ID that the logger is on
    pub shard: Option<String>,
    /// The width of the shard field
    pub shard_length: Option<usize>,
    /// The default log threshold
    pub level: Option<String>,
    /// Custom level definitions, from high to low priority
    pub levels: Option<Vec<LogLevel>>,
    pub color_enabled: bool,
}

impl Default for LoggrConfig {
    fn default() -> (r: Self)
        ensures
            r.timestamp_format is None,
            r.shard is None,
            r.shard_length is None,
            r.level is None,
            r.levels is None,
            r.color_enabled,
    {
        LoggrConfig {
            timestamp_format: None,
            shard: None,
            shard_length: None,
            level: None,
            levels: None,
            color_enabled: true,
        }
    }
}

} // verus!
