//! Per-platform outbound rate limits for chat sends.
//!
//! The chat bot must never burst against a platform's rate limits: Twitch
//! drops messages and can lock an account out when a non-privileged account
//! exceeds 20 messages per 30 seconds; Kick publishes no limits at all, so a
//! conservative self-throttle is the only safe behavior; YouTube's message
//! insert costs about 200 quota units against a daily budget of 10 000.
use vstd::prelude::*;

verus! {

/// Refill schedule for one platform send path: the bucket refills
/// `capacity` tokens over `window_secs` seconds, and `capacity` is the
/// largest burst of sends.
#[derive(Debug, Clone, Copy, PartialEq, Eq, Structural)]
pub struct RateLimitConfig {
    /// Maximum burst of sends without waiting.
    pub capacity: u32,
    /// Seconds over which the full capacity refills.
    pub window_secs: u64,
}

impl RateLimitConfig {
    /// Twitch: 20 messages per 30 s for non-privileged accounts.
    pub fn twitch_default() -> (r: Self)
        ensures
            r == (RateLimitConfig { capacity: 20, window_secs: 30 }),
    {
        RateLimitConfig { capacity: 20, window_secs: 30 }
    }

    /// Kick: no published limits, so 10 messages per 30 s, well below the
    /// Twitch ceiling.
    pub fn kick_default() -> (r: Self)
        ensures
            r == (RateLimitConfig { capacity: 10, window_secs: 30 }),
    {
        RateLimitConfig { capacity: 10, window_secs: 30 }
    }

    /// YouTube: a burst of one with a daily refill never overdraws the
    /// quota.
    pub fn youtube_default() -> (r: Self)
        ensures
            r == (RateLimitConfig { capacity: 1, window_secs: 86_400 }),
    {
        RateLimitConfig { capacity: 1, window_secs: 86_400 }
    }
}

impl Default for RateLimitConfig {
    fn default() -> (r: Self)
        ensures
            r == (RateLimitConfig { capacity: 20, window_secs: 30 }),
    {
        RateLimitConfig::twitch_default()
    }
}

} // verus!
