//! The few values that come from outside the proxy's own logic: fresh
//! identifiers, the clock, and message digests.

use vstd::prelude::*;

verus! {

/// A lowercase hexadecimal digit.
pub open spec fn is_lower_hex(c: char) -> bool {
    ('0' <= c && c <= '9') || ('a' <= c && c <= 'f')
}

/// A fresh random identifier from `uuid::Uuid::new_v4`, in its `simple` form:
/// 32 lowercase hexadecimal digits without hyphens. Which digits come out is
/// left open.
#[verifier::external_body]
pub(crate) fn new_uuid_simple() -> (r: String)
    ensures
        r@.len() == 32,
        forall|i: int| 0 <= i < 32 ==> #[trigger] is_lower_hex(r@[i]),
{
    uuid::Uuid::new_v4().simple().to_string()
}

/// The current time from `std::time::SystemTime::now`, in whole seconds
/// since the Unix epoch; a clock set before the epoch reads as 0 (no read
/// panics). What it reads depends on the clock and is left open.
#[verifier::external_body]
pub(crate) fn unix_timestamp_now() -> (r: i64) {
    std::time::SystemTime::now().duration_since(std::time::UNIX_EPOCH).map(|d| d.as_secs() as i64).unwrap_or(0)
}

/// The SHA-256 digest of a text's UTF-8 bytes, in lowercase hexadecimal.
pub uninterp spec fn sha256_hex(text: Seq<char>) -> Seq<char>;

/// Hashes the UTF-8 bytes of `text` with `sha2::Sha256` and writes the
/// digest as lowercase hexadecimal (`{:x}`): 32 bytes give 64 digits. The
/// digest itself is left unstated beyond its name.
#[verifier::external_body]
pub(crate) fn sha256_hex_of(text: &str) -> (r: String)
    ensures
        r@ == sha256_hex(text@),
        r@.len() == 64,
{
    format!("{:x}", <sha2::Sha256 as sha2::Digest>::digest(text.as_bytes()))
}

} // verus!
