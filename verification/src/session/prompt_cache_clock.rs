//! How long a thread has been idle since its last request to the model.
//!
//! The provider's cache holds the thread's prompt from the moment of a request
//! on, so that moment is the one that counts. The clock runs for one process: a
//! thread that is resumed from disk starts without one, and its first turn is
//! taken to find the cache warm.

use vstd::prelude::*;

use crate::time::Duration;

verus! {

/// A reading of a clock that never goes back, in nanoseconds.
pub type Instant = u128;

/// The idle clock of a thread.
#[derive(Clone, Copy, Debug, PartialEq, Eq, Structural)]
pub struct PromptCacheClock {
    /// When the thread last made a request, if it has.
    pub last_request_at: Option<Instant>,
    /// The request after which a shake for an expired cache was decided on. It
    /// stays the last one for as long as the thread is idle.
    pub cold_resume_decided_for: Option<Instant>,
}

/// The clock of a thread that made no request.
pub open spec fn fresh_clock() -> PromptCacheClock {
    PromptCacheClock { last_request_at: None, cold_resume_decided_for: None }
}

/// A shake was decided on since the last request.
pub open spec fn is_decided(clock: PromptCacheClock) -> bool {
    clock.last_request_at is Some && clock.cold_resume_decided_for == clock.last_request_at
}

/// A clock after a request.
pub open spec fn requested(clock: PromptCacheClock, at: Instant) -> PromptCacheClock {
    PromptCacheClock { last_request_at: Some(at), ..clock }
}

/// A clock after a shake was decided on.
pub open spec fn decided(clock: PromptCacheClock) -> PromptCacheClock {
    PromptCacheClock { cold_resume_decided_for: clock.last_request_at, ..clock }
}

/// How long a thread has been idle.
pub open spec fn idle(clock: PromptCacheClock, now: Instant) -> Option<Duration> {
    match clock.last_request_at {
        Some(last) => Some(
            Duration {
                nanos: if now > last {
                    (now - last) as u128
                } else {
                    0
                },
            },
        ),
        None => None,
    }
}

impl Default for PromptCacheClock {
    fn default() -> (clock: Self)
        ensures
            clock == fresh_clock(),
    {
        PromptCacheClock { last_request_at: None, cold_resume_decided_for: None }
    }
}

impl PromptCacheClock {
    /// Notes a request, just before it goes out.
    pub fn record_sampling_request_at(&mut self, at: Instant)
        ensures
            *final(self) == requested(*old(self), at),
    {
        self.last_request_at = Some(at);
    }

    /// How long the thread has been idle, or `None` where it made no request.
    pub fn idle_since_last_request_at(&self, now: Instant) -> (duration: Option<Duration>)
        ensures
            duration == idle(*self, now),
    {
        match self.last_request_at {
            Some(last) => Some(Duration { nanos: now.saturating_sub(last) }),
            None => None,
        }
    }

    /// Whether a shake was decided on since the last request.
    pub fn cold_resume_already_decided(&self) -> (r: bool)
        ensures
            r == is_decided(*self),
    {
        match (self.last_request_at, self.cold_resume_decided_for) {
            (Some(last), Some(decided_for)) => last == decided_for,
            _ => false,
        }
    }

    /// Notes that a shake was decided on, so that none is decided on again
    /// before the next request.
    pub fn mark_cold_resume_decided(&mut self)
        ensures
            *final(self) == decided(*old(self)),
    {
        self.cold_resume_decided_for = self.last_request_at;
    }
}

/// A shake is decided on once between two requests: a decision holds until the
/// next request, at another moment, opens a new window.
pub proof fn law_one_decision_for_each_request(clock: PromptCacheClock, at: Instant)
    requires
        clock.last_request_at is Some,
    ensures
        is_decided(decided(clock)),
        clock.last_request_at != Some(at) ==> !is_decided(requested(decided(clock), at)),
        idle(decided(clock), at) == idle(clock, at),
{
}

/// A thread that made no request was not idle, and nothing was decided on.
pub proof fn law_no_request_no_window(clock: PromptCacheClock, now: Instant)
    requires
        clock.last_request_at is None,
    ensures
        idle(clock, now) is None,
        !is_decided(clock),
        !is_decided(decided(clock)),
{
}

/// A thread is the longer idle the later it is, and not at all at the moment of
/// its request.
pub proof fn law_idle_time_grows(
    clock: PromptCacheClock,
    at: Instant,
    now: Instant,
    later: Instant,
)
    requires
        at <= now <= later,
    ensures
        idle(requested(clock, at), at) == Some(Duration { nanos: 0 }),
        idle(requested(clock, at), now)->0.nanos == now - at,
        idle(requested(clock, at), now)->0.nanos <= idle(requested(clock, at), later)->0.nanos,
{
}

/// A request is noted with its moment, and a decision with the request that it
/// is for; neither touches what else the clock holds.
pub proof fn law_clocks_note_requests_and_decisions(clock: PromptCacheClock, at: Instant)
    ensures
        requested(clock, at).last_request_at == Some(at),
        requested(clock, at).cold_resume_decided_for == clock.cold_resume_decided_for,
        decided(clock).last_request_at == clock.last_request_at,
        decided(clock).cold_resume_decided_for == clock.last_request_at,
        fresh_clock().last_request_at is None,
        fresh_clock().cold_resume_decided_for is None,
        is_decided(clock) == (clock.last_request_at matches Some(last)
            && clock.cold_resume_decided_for == Some(last)),
        clock.last_request_at matches Some(last) ==> (at < last ==> idle(clock, at) == Some(
            Duration { nanos: 0 },
        )),
{
}

} // verus!
