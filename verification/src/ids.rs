//! Fresh identifiers, clock readings and the user's home directory. Each of
//! these depends on chance, on the time at which it is called or on the
//! machine, so nothing is promised of the values they return.

use vstd::prelude::*;

use crate::session::types::{TraceId, WallTime};

verus! {

/// `ulid::Ulid::new`: a fresh ULID (time-prefixed, random suffix), returned as
/// its 128-bit value. Nothing is stated of the value.
#[verifier::external_body]
pub(crate) fn new_trace_id() -> (id: TraceId) {
    TraceId(ulid::Ulid::new().0)
}

/// `uuid::Uuid::new_v4`, rendered with `to_string` (hyphenated form). The
/// value is random; nothing is stated of it.
#[verifier::external_body]
pub(crate) fn new_uuid_string() -> (s: String) {
    uuid::Uuid::new_v4().to_string()
}

/// The current wall-clock time, as whole seconds since the Unix epoch and
/// the nanoseconds within that second: `std::time::SystemTime::now`
/// converted by chrono's `From<SystemTime> for DateTime<Utc>`, which also
/// handles a clock set before the epoch (`chrono::Utc::now` would panic
/// there). The value depends on the clock; what holds of every value is
/// what chrono's date range gives: dates stay within about 262 000 years of
/// year 0, so the seconds stay within 10^13 of the epoch, and the
/// nanoseconds stay below 2·10^9. The conversion still panics on a clock
/// set outside that range (hundreds of millennia away), which nothing here
/// can rule out.
#[verifier::external_body]
pub(crate) fn now_wall() -> (t: WallTime)
    ensures
        -10_000_000_000_000 <= t.secs <= 10_000_000_000_000,
        t.nanos < 2_000_000_000,
{
    let now = chrono::DateTime::<chrono::Utc>::from(std::time::SystemTime::now());
    WallTime { secs: now.timestamp(), nanos: now.timestamp_subsec_nanos() }
}

/// The Crockford base32 digit for `d` (0 to 31).
pub open spec fn crockford_digit(d: u128) -> char {
    seq![
        '0', '1', '2', '3', '4', '5', '6', '7', '8', '9', 'A', 'B', 'C', 'D', 'E', 'F',
        'G', 'H', 'J', 'K', 'M', 'N', 'P', 'Q', 'R', 'S', 'T', 'V', 'W', 'X', 'Y', 'Z',
    ][d as int]
}

/// The text form of a ULID: 26 Crockford base32 digits, most significant
/// first; digit `k` holds bits `5·(25−k)` and up of the 128-bit value.
pub open spec fn ulid_text(value: u128) -> Seq<char> {
    Seq::new(26, |k: int| crockford_digit((value >> ((125 - 5 * k) as u128)) & 31u128))
}

/// `ulid::Ulid::to_string` on the ULID with this value, which encodes it
/// as `ulid_text` says (`base32::encode`: 26 digits, the low five bits of
/// the value last).
#[verifier::external_body]
pub(crate) fn ulid_string(id: TraceId) -> (s: String)
    ensures
        s@ == ulid_text(id.0),
{
    ulid::Ulid(id.0).to_string()
}

/// `dirs::home_dir`: the current user's home directory, as text (rendered
/// lossily, as `Path::to_string_lossy` does). It reads the environment and
/// the user database, so nothing is stated of it.
#[verifier::external_body]
pub(crate) fn home_dir() -> (h: Option<String>) {
    match dirs::home_dir() {
        Some(p) => Some(p.to_string_lossy().into_owned()),
        None => None,
    }
}

} // verus!
