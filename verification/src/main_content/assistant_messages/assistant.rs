//! Timestamps shown on assistant messages.

use crate::text::{i64_text, int_text, owned, push_str_chars, string_of};
use vstd::prelude::*;

verus! {

/// Seconds since the Unix epoch by the system clock, zero when the clock
/// reads before the epoch. Nothing is claimed of the reading.
#[verifier::external_body]
fn unix_now_secs() -> i64 {
    std::time::SystemTime::now()
        .duration_since(std::time::UNIX_EPOCH)
        .map(|d| d.as_secs() as i64)
        .unwrap_or(0)
}

/// How long ago `created_at` was, at `now`: "Just now" within a minute (or
/// for an unknown time), else minutes, hours or days.
pub open spec fn age_text(created_at: i64, now: i64) -> Seq<char> {
    let diff = if now - created_at < i64::MIN {
        i64::MIN as int
    } else if now - created_at > i64::MAX {
        i64::MAX as int
    } else {
        now - created_at
    };
    if created_at <= 0 || diff < 60 {
        "Just now"@
    } else if diff < 3600 {
        int_text(diff / 60) + "m ago"@
    } else if diff < 86400 {
        int_text(diff / 3600) + "h ago"@
    } else {
        int_text(diff / 86400) + "d ago"@
    }
}

/// The age of a message created at `created_at`, seen at `now_secs` (both
/// seconds since the Unix epoch).
pub fn format_timestamp_at(created_at: i64, now_secs: i64) -> (r: String)
    ensures
        r@ == age_text(created_at, now_secs),
{
    if created_at <= 0 {
        return owned("Just now");
    }
    let wide: i128 = (now_secs as i128) - (created_at as i128);
    let diff: i64 = if wide > (i64::MAX as i128) {
        i64::MAX
    } else if wide < (i64::MIN as i128) {
        i64::MIN
    } else {
        wide as i64
    };
    if diff < 60 {
        owned("Just now")
    } else if diff < 3600 {
        let mut v = i64_text(diff / 60);
        push_str_chars(&mut v, "m ago");
        string_of(v.as_slice())
    } else if diff < 86400 {
        let mut v = i64_text(diff / 3600);
        push_str_chars(&mut v, "h ago");
        string_of(v.as_slice())
    } else {
        let mut v = i64_text(diff / 86400);
        push_str_chars(&mut v, "d ago");
        string_of(v.as_slice())
    }
}

/// The age of a message created at `created_at`, by the system clock.
pub fn format_timestamp(created_at: i64) -> (r: String)
    ensures
        exists|now: i64| r@ == age_text(created_at, now),
{
    let now = unix_now_secs();
    format_timestamp_at(created_at, now)
}

} // verus!
