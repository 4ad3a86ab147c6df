//! Trusted items: the calls into std and outside crates that the verified
//! code makes, each with the contract that Verus takes on trust.
use vstd::prelude::*;

verus! {

/// `String::push`: appends one character to the string.
#[verifier::external_body]
pub(crate) fn push_char(s: &mut String, c: char)
    ensures
        final(s)@ == old(s)@.push(c),
{
    s.push(c);
}

/// The current time in milliseconds since the Unix epoch
/// (`chrono::Utc::now().timestamp_millis()`). Nothing is claimed of the value.
#[verifier::external_body]
pub(crate) fn now_millis() -> (r: i64) {
    chrono::Utc::now().timestamp_millis()
}

/// `HH:MM:SS`: two digits each, joined by `:`.
pub open spec fn is_time_of_day(s: Seq<char>) -> bool {
    &&& s.len() == 8
    &&& s[2] == ':' && s[5] == ':'
    &&& forall|k: int| 0 <= k < 8 && k != 2 && k != 5 ==> '0' <= #[trigger] s[k] <= '9'
}

/// The current UTC time of day (`chrono::Utc::now()` formatted with
/// `%H:%M:%S`). Claimed: the `HH:MM:SS` shape, since chrono writes each of
/// the three fields zero-padded to two digits; which time it is, is not.
#[verifier::external_body]
pub(crate) fn now_time_of_day() -> (r: String)
    ensures
        is_time_of_day(r@),
{
    chrono::Utc::now().format("%H:%M:%S").to_string()
}

/// The current UTC date and time with milliseconds (`chrono::Utc::now()`
/// formatted with `%Y-%m-%d %H:%M:%S%.3f`). Nothing is claimed of the value.
#[verifier::external_body]
pub(crate) fn now_stamp() -> (r: String) {
    chrono::Utc::now().format("%Y-%m-%d %H:%M:%S%.3f").to_string()
}

} // verus!
