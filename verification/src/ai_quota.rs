//! AI tool credentials as the quota providers use them.

use vstd::prelude::*;

verus! {

/// OAuth credentials of the first quota source.
pub struct ClaudeOAuth {
    pub access_token: String,
    /// Expiry time, in milliseconds since the Unix epoch.
    pub expires_at: i64,
}

/// `SystemTime::now().duration_since(UNIX_EPOCH)` in milliseconds: the current
/// time, or `None` when the clock is before the epoch. Nothing is claimed of
/// the value: it is the machine's clock.
#[verifier::external_body]
fn millis_since_epoch() -> Option<u128> {
    std::time::SystemTime::now().duration_since(std::time::UNIX_EPOCH).ok().map(|d| d.as_millis())
}

/// The clock reading used for expiry: milliseconds since the epoch, truncated
/// to `i64`, or 0 when the clock is before the epoch.
pub open spec fn clock_ms(reading: Option<u128>) -> i64 {
    match reading {
        Some(ms) => ms as i64,
        None => 0,
    }
}

impl ClaudeOAuth {
    /// Whether the token is still valid at `now_ms` (milliseconds since the epoch).
    pub fn is_valid_at(&self, now_ms: i64) -> (r: bool)
        ensures
            r == (self.expires_at > now_ms),
    {
        self.expires_at > now_ms
    }

    /// Returns true if the token has not yet expired at the current time.
    pub fn is_valid(&self) -> (r: bool)
        ensures
            exists|reading: Option<u128>| r == (self.expires_at > clock_ms(reading)),
    {
        let reading = millis_since_epoch();
        let now_ms: i64 = match reading {
            Some(ms) => ms as i64,
            None => 0,
        };
        let r = self.is_valid_at(now_ms);
        assert(clock_ms(reading) == now_ms);
        r
    }
}

/// Tokens of the second quota source.
pub struct CodexTokens {
    pub access_token: String,
    pub account_id: Option<String>,
}

} // verus!
