use crate::time::UtcInstant;
use vstd::prelude::*;

verus! {

/// Why a log call or a configuration was refused.
#[derive(Debug)]
pub enum LogError {
    /// No registered level has this name.
    UnknownLevel(String),
    /// A shard label was configured without a field width.
    MissingShardWidth,
    /// The timestamp pattern could not be applied to the instant.
    BadTimestamp,
}

/// Arguments passed to a [`PostHookCallback`]
#[derive(Debug)]
pub struct PostHookCallbackParams {
    /// The level of the log
    pub level: String,
    /// The text that was logged
    pub text: String,
    /// The instant of the call
    pub date: UtcInstant,
    /// The formatted timestamp, without styling
    pub timestamp: String,
    /// The shard ID
    pub shard: Option<String>,
}

/// Arguments passed to a [`PreHookCallback`]
#[derive(Debug)]
pub struct PreHookCallbackParams {
    /// The level of the log
    pub level: String,
    /// The text being logged
    pub args: String,
    /// The instant of the call
    pub date: UtcInstant,
    /// The formatted timestamp
    pub timestamp: String,
    /// The shard ID
    pub shard: Option<String>,
}

/// A hook run after a line is rendered: `Some` replaces the whole line,
/// `None` leaves it as it is.
pub trait PostHookCallback: Send {
    fn call(&self, params: PostHookCallbackParams) -> Option<String>;
}

/// A hook reserved for the start of a log call.
pub trait PreHookCallback: Send {
    fn call(&self, params: PreHookCallbackParams) -> Option<String>;
}

/// A hook reserved for formatting the logged arguments.
pub trait ArgHookCallback: Send {
    fn call(&self, args: Option<String>, date: UtcInstant) -> Option<String>;
}

/// The three ordered hook lists of a logger.
pub struct LogHooks {
    pub pre: Vec<Box<dyn PreHookCallback>>,
    pub arg: Vec<Box<dyn ArgHookCallback>>,
    pub post: Vec<Box<dyn PostHookCallback>>,
}

impl LogHooks {
    pub fn new() -> (r: LogHooks)
        ensures
            r.pre@.len() == 0,
            r.arg@.len() == 0,
            r.post@.len() == 0,
    {
        LogHooks { pre: Vec::new(), arg: Vec::new(), post: Vec::new() }
    }
}

/// The views of a list of optional strings.
pub open spec fn option_views(v: Seq<Option<String>>) -> Seq<Option<Seq<char>>> {
    v.map_values(|o: Option<String>| match o {
        Some(s) => Some(s@),
        None => None,
    })
}

/// What is left of `baseline` after the hooks answered `answers` in order:
/// the last replacement, or `baseline` where none replaced it.
pub open spec fn last_replacement(baseline: Seq<char>, answers: Seq<Option<Seq<char>>>) -> Seq<char>
    decreases answers.len(),
{
    if answers.len() == 0 {
        baseline
    } else {
        match answers.last() {
            Some(t) => t,
            None => last_replacement(baseline, answers.drop_last()),
        }
    }
}

/// Applies the hooks' answers to a rendered line: the last `Some` wins.
pub fn final_line(baseline: String, answers: &Vec<Option<String>>) -> (r: String)
    ensures
        r@ == last_replacement(baseline@, option_views(answers@)),
{
    let mut line = baseline;
    let ghost views = option_views(answers@);
    let mut i: usize = 0;
    while i < answers.len()
        invariant
            i <= answers@.len(),
            views == option_views(answers@),
            line@ == last_replacement(baseline@, views.subrange(0, i as int)),
        decreases answers@.len() - i,
    {
        proof {
            assert(views.subrange(0, i + 1).drop_last() =~= views.subrange(0, i as int));
        }
        match &answers[i] {
            Some(t) => {
                line = t.clone();
            },
            None => {},
        }
        i = i + 1;
    }
    proof {
        assert(views.subrange(0, answers@.len() as int) =~= views);
    }
    line
}

} // verus!
