//! Trusted views of the machine: the clock, the filesystem's answer to
//! "does this path exist", and freshly minted identifiers. Each result
//! depends on something outside the program (time, disk contents,
//! randomness), so the contracts state only what holds of every outcome;
//! callers take the returned value as it is.

use vstd::prelude::*;

verus! {

/// Relies on `std::time::SystemTime::now`: seconds since the Unix epoch,
/// or zero if the clock reads earlier than the epoch. The result depends
/// on the clock, so nothing further is promised.
#[verifier::external_body]
pub(crate) fn current_unix_seconds() -> u64 {
    match std::time::SystemTime::now().duration_since(std::time::UNIX_EPOCH) {
        Ok(d) => d.as_secs(),
        Err(_) => 0,
    }
}

/// Relies on `std::path::Path::exists`: whether the path currently names
/// an entry on disk. The result depends on the disk, so nothing further
/// is promised.
#[verifier::external_body]
pub(crate) fn path_exists(p: &str) -> bool {
    std::path::Path::new(p).exists()
}

/// Relies on `uuid::Uuid::new_v4` and its `Display` form: a random
/// version-4 UUID rendered in the hyphenated format, which is always 36
/// characters long. The value is random, so nothing further is promised.
#[verifier::external_body]
pub(crate) fn mint_id() -> (r: String)
    ensures
        r@.len() == 36,
{
    uuid::Uuid::new_v4().to_string()
}

} // verus!
