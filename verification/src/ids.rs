use vstd::prelude::*;

verus! {

/// Whether an identifier carries the version-4 marker of a random UUID: its
/// version nibble (bits 76 to 79 of the 128-bit value) reads 4.
pub open spec fn is_v4(id: u128) -> bool {
    (id >> 76u128) & 0xfu128 == 4
}

/// A new random identifier (`uuid::Uuid::new_v4`, as its 128-bit value).
/// The uuid crate masks the random bits so that the version nibble reads 4;
/// nothing else about the value is promised.
#[verifier::external_body]
pub fn fresh_id() -> (id: u128)
    ensures
        is_v4(id),
{
    uuid::Uuid::new_v4().as_u128()
}

/// The shape of an RFC 3339 time in UTC as chrono writes it: at least the
/// 25 characters of `YYYY-MM-DDTHH:MM:SS+00:00`, ending in the offset `+00:00`.
pub open spec fn utc_stamp(s: Seq<char>) -> bool {
    s.len() >= 25 && s.subrange(s.len() - 6, s.len() as int) == "+00:00"@
}

/// The current time as RFC 3339 text (`chrono::Utc::now().to_rfc3339()`).
/// Which time it is depends on the clock; chrono writes the date, the time
/// and, for UTC, the offset `+00:00`, which is all that is promised.
#[verifier::external_body]
pub fn current_timestamp() -> (s: String)
    ensures
        utc_stamp(s@),
{
    chrono::Utc::now().to_rfc3339()
}

} // verus!
