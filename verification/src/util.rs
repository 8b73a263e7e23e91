//! The clock, fresh identifiers and a comparison of strings.

use std::time::Duration;
use vstd::prelude::*;
use vstd::string::StringSliceAdditionalSpecFns;
use vstd::utf8::encode_utf8_decode_utf8;

verus! {

/// The time that has passed since the Unix epoch, by the system clock:
/// [`std::time::SystemTime::elapsed`] of the epoch. Nothing is promised of
/// the clock; there is no time if it stands before the epoch.
#[verifier::external_body]
fn since_epoch() -> Option<Duration> {
    match std::time::UNIX_EPOCH.elapsed() {
        Ok(passed) => Some(passed),
        Err(_) => None,
    }
}

/// [`Duration::as_secs`] gives the whole seconds of a duration. A duration
/// is opaque here, so nothing is said of the number.
pub assume_specification[ Duration::as_secs ](duration: &Duration) -> (secs: u64)
;

/// Seconds since the Unix epoch, by the system clock; 0 if the clock stands
/// before the epoch.
pub fn timestamp() -> u64 {
    match since_epoch() {
        Some(passed) => passed.as_secs(),
        None => 0,
    }
}

/// The number of characters of a UUID in its hyphenated form.
pub const ID_LEN: usize = 36;

/// A fresh identifier: a random UUID from [`uuid::Uuid::new_v4`], written
/// by its `Display` in the hyphenated form, which has 36 characters. Which
/// identifier comes is a matter of chance, so nothing else is said of it.
/// The call panics where the system has no random bytes to give.
#[verifier::external_body]
pub(crate) fn unique_id() -> (id: String)
    ensures
        id@.len() == ID_LEN,
{
    uuid::Uuid::new_v4().to_string()
}

/// Whether two strings hold the same text.
pub fn same_text(a: &str, b: &str) -> (same: bool)
    ensures
        same == (a@ == b@),
{
    let x = a.as_bytes();
    let y = b.as_bytes();
    proof {
        encode_utf8_decode_utf8(a@);
        encode_utf8_decode_utf8(b@);
    }
    if x.len() != y.len() {
        return false;
    }
    let mut i: usize = 0;
    while i < x.len()
        invariant
            x@ == a.spec_bytes(),
            y@ == b.spec_bytes(),
            x@.len() == y@.len(),
            i <= x@.len(),
            forall|k: int| 0 <= k < i ==> x@[k] == y@[k],
        decreases x@.len() - i,
    {
        if x[i] != y[i] {
            return false;
        }
        i += 1;
    }
    assert(x@ =~= y@);
    true
}

} // verus!
