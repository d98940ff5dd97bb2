//! Leveled, timestamped, optionally colourised console log lines.
//!
//! The library keeps an ordered set of severity levels with a threshold,
//! decides whether a log call is emitted, renders the line and lets
//! post-render hooks replace it. Writing the line is left to the caller.
use vstd::prelude::*;

pub mod log_level;
pub mod logger;
pub mod loggr_config;
pub mod terminal;
pub mod time;
pub mod types;

pub use log_level::LogLevel;
pub use logger::CatLoggr;
pub use loggr_config::LoggrConfig;

verus! {

/// A copy of the last element of `vec`, if there is one.
pub fn top<T: Clone>(vec: &mut Vec<T>) -> (r: Option<T>)
    ensures
        *final(vec) == *old(vec),
        old(vec)@.len() == 0 ==> r is None,
        old(vec)@.len() > 0 ==> r is Some && cloned::<T>(old(vec)@.last(), r->Some_0),
{
    vec.last().cloned()
}

} // verus!
