//! Clock readings. The chat state keeps `std::time::Instant` values (when a
//! message arrived, until when a status line shows); nothing in the
//! library's contracts depends on what they hold.
use std::time::{Duration, Instant};
use vstd::prelude::*;

verus! {

/// `std::time::Instant`, carried through the chat state unread.
#[verifier::external_type_specification]
#[verifier::external_body]
pub struct ExInstant(Instant);

/// `Instant::now` reads the monotonic clock; nothing is stated of the reading.
pub assume_specification[ Instant::now ]() -> Instant;

/// `Instant` is `Copy`; its `clone` hands back the same instant.
pub assume_specification[ <Instant as Clone>::clone ](this: &Instant) -> (r: Instant)
    ensures
        r == *this,
;

/// `Instant::checked_add` returns `None` where the sum cannot be
/// represented; nothing is stated of the sum itself.
pub assume_specification[ Instant::checked_add ](this: &Instant, duration: Duration) -> Option<Instant>;

/// `Instant::checked_sub` returns `None` where the difference cannot be
/// represented; nothing is stated of the difference itself.
pub assume_specification[ Instant::checked_sub ](this: &Instant, duration: Duration) -> Option<Instant>;

/// `Duration::from_secs` builds a duration of whole seconds.
pub assume_specification[ Duration::from_secs ](secs: u64) -> Duration;

/// `Duration::from_millis` builds a duration of whole milliseconds.
pub assume_specification[ Duration::from_millis ](millis: u64) -> Duration;

/// The instant `dur` from now (now itself in the unrepresentable case).
pub(crate) fn now_plus(dur: Duration) -> Instant {
    let now = Instant::now();
    match now.checked_add(dur) {
        Some(t) => t,
        None => now,
    }
}

/// The instant `dur` before now (now itself in the unrepresentable case).
pub(crate) fn now_minus(dur: Duration) -> Instant {
    let now = Instant::now();
    match now.checked_sub(dur) {
        Some(t) => t,
        None => now,
    }
}

} // verus!
