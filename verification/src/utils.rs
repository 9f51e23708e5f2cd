//! The calendar date, from the `chrono` crate.

use chrono::prelude::{DateTime, Utc};
use std::time::SystemTime;
use vstd::prelude::*;

verus! {

/// Today's date as text: `chrono::DateTime::<Utc>::format` with the pattern
/// `%Y-%m-%d`, on the system clock's time. Trusted; nothing is claimed of the
/// text, which depends on the clock.
#[verifier::external_body]
pub fn today() -> (date: String) {
    let now: DateTime<Utc> = SystemTime::now().into();
    now.format("%Y-%m-%d").to_string()
}

} // verus!
