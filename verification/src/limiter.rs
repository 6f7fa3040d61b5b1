//! The per-channel request budget.
//!
//! The budget is kept by `governor`. Whether a request is admitted depends on
//! that crate's bookkeeping and on its clock, so nothing is stated of which
//! answer a check gives; what the library does with either answer is verified.

use governor::clock::{Clock, DefaultClock};
use governor::state::keyed::DefaultKeyedStateStore;
use governor::Quota;
use std::num::NonZeroU32;
use std::time::Duration;
use vstd::prelude::*;
use vstd::string::StringExecFns;

verus! {

/// How many requests a channel may make per minute.
pub const REQUESTS_PER_MINUTE: u32 = 10;

/// A span of time: whole seconds and the nanoseconds beyond them.
#[derive(Clone, Copy, Debug, PartialEq, Eq, Structural)]
pub struct Wait {
    pub secs: u64,
    pub nanos: u32,
}

impl Wait {
    /// The nanoseconds are less than one second.
    pub open spec fn wf(&self) -> bool {
        self.nanos < 1_000_000_000
    }
}

/// The answer to one request against the budget.
#[derive(Clone, Copy, Debug, PartialEq, Eq, Structural)]
pub enum Decision {
    /// The request is within the budget.
    Admit,
    /// The request is over the budget; `retry_after` is how long to wait.
    Deny { retry_after: Wait },
}

/// A keyed rate limiter of `governor` and the clock it reads. Verus sees
/// nothing inside: `governor::RateLimiter` is bounded by traits of its crate
/// and cannot be declared as it is.
#[verifier::external_body]
pub struct RateLimiter {
    inner: governor::RateLimiter<u64, DefaultKeyedStateStore<u64>, DefaultClock>,
    clock: DefaultClock,
}

/// The quota that a limiter was made with: how many requests of one key it
/// allows per minute, which is also the largest burst it allows.
pub uninterp spec fn quota_per_minute(limiter: RateLimiter) -> u32;

/// The text that `humantime` gives to a span of `secs` seconds and `nanos`
/// nanoseconds, such as `2h 37m` or `32ms`.
pub uninterp spec fn humantime_text(secs: u64, nanos: u32) -> Seq<char>;

/// `Quota::per_minute` and `RateLimiter::new`: a limiter with its own clock
/// and no key seen yet, made with the quota of `max_burst` per minute.
/// `max_burst` must not be 0, which has no quota.
#[verifier::external_body]
fn limiter_new(max_burst: u32) -> (made: RateLimiter)
    requires
        max_burst > 0,
    ensures
        quota_per_minute(made) == max_burst,
{
    let clock = DefaultClock::default();
    let quota = Quota::per_minute(NonZeroU32::new(max_burst).unwrap());
    RateLimiter {
        inner: governor::RateLimiter::new(quota, DefaultKeyedStateStore::default(), &clock),
        clock,
    }
}

/// `RateLimiter::check_key`, and for a refusal `NotUntil::wait_time_from` the
/// clock's present reading: `None` where the request conforms, else the time
/// to wait, which may be zero. Of the span only its form is claimed: the
/// nanoseconds of a `Duration` are below one second.
#[verifier::external_body]
fn limiter_check(limiter: &RateLimiter, key: u64) -> (refused: Option<Wait>)
    ensures
        refused matches Some(wait) ==> wait.wf(),
{
    match limiter.inner.check_key(&key) {
        Ok(()) => None,
        Err(not_until) => {
            let wait = not_until.wait_time_from(limiter.clock.now());
            Some(Wait { secs: wait.as_secs(), nanos: wait.subsec_nanos() })
        },
    }
}

/// `humantime::format_duration`, written out as a string.
#[verifier::external_body]
fn format_wait(secs: u64, nanos: u32) -> (text: String)
    requires
        nanos < 1_000_000_000,
    ensures
        text@ == humantime_text(secs, nanos),
{
    humantime::format_duration(Duration::new(secs, nanos)).to_string()
}

/// The decision that an answer of the limiter stands for.
pub open spec fn decision_for(refused: Option<Wait>) -> Decision {
    match refused {
        None => Decision::Admit,
        Some(wait) => Decision::Deny { retry_after: wait },
    }
}

/// Turns an answer of the limiter into a decision.
pub fn decision_of(refused: Option<Wait>) -> (decision: Decision)
    ensures
        decision == decision_for(refused),
{
    match refused {
        None => Decision::Admit,
        Some(wait) => Decision::Deny { retry_after: wait },
    }
}

impl RateLimiter {
    /// A limiter that allows each key `max_burst` requests per minute.
    pub fn per_minute(max_burst: u32) -> (limiter: RateLimiter)
        requires
            max_burst > 0,
        ensures
            quota_per_minute(limiter) == max_burst,
    {
        limiter_new(max_burst)
    }

    /// Counts one request of `key` against its budget and says whether it is
    /// admitted. Which of the two it is depends on the requests counted
    /// before and on the clock; a refusal carries a well-formed wait.
    pub fn check(&self, key: u64) -> (decision: Decision)
        ensures
            decision matches Decision::Deny { retry_after } ==> retry_after.wf(),
    {
        decision_of(limiter_check(self, key))
    }
}

/// The reply to a channel that is over its budget, for a wait that reads `wait`.
pub open spec fn reply_text(wait: Seq<char>) -> Seq<char> {
    "This channel is sending too many requests! Try again in "@ + wait
}

/// The reply to a channel that has to wait for `wait`.
pub open spec fn denial_text(wait: Wait) -> Seq<char> {
    reply_text(humantime_text(wait.secs, wait.nanos))
}

/// The reply to a channel that has to wait for `wait`.
pub fn rate_limit_reply(wait: Wait) -> (reply: String)
    requires
        wait.wf(),
    ensures
        reply@ == denial_text(wait),
{
    let mut reply = String::from_str("This channel is sending too many requests! Try again in ");
    let text = format_wait(wait.secs, wait.nanos);
    reply.append(text.as_str());
    reply
}

/// What to do with a command after its channel's budget was checked.
#[derive(Debug, PartialEq, Eq)]
pub struct CommandCheck {
    /// Whether the command is to run.
    pub proceed: bool,
    /// What to tell the channel where the command is not to run.
    pub reply: Option<String>,
}

/// Whether, after `decision`, a command runs, and what is said if it does not.
pub open spec fn check_for(decision: Decision, proceed: bool, reply: Option<Seq<char>>) -> bool {
    match decision {
        Decision::Admit => proceed && reply is None,
        Decision::Deny { retry_after } => !proceed && reply == Some(denial_text(retry_after)),
    }
}

/// Decides on a command from the limiter's decision: an admitted command
/// runs; a refused one does not, and its channel is told how long to wait.
pub fn command_check(decision: Decision) -> (check: CommandCheck)
    requires
        decision matches Decision::Deny { retry_after } ==> retry_after.wf(),
    ensures
        check_for(
            decision,
            check.proceed,
            match check.reply {
                Some(text) => Some(text@),
                None => None,
            },
        ),
{
    match decision {
        Decision::Admit => CommandCheck { proceed: true, reply: None },
        Decision::Deny { retry_after } => CommandCheck {
            proceed: false,
            reply: Some(rate_limit_reply(retry_after)),
        },
    }
}

} // verus!
