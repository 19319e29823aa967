//! Fresh identifiers and random key material, behind trusted boundaries.

use vstd::prelude::*;

verus! {

/// Relies on uuid's `Uuid::new_v4` and its `Display` form: a random
/// version-4 UUID in hyphenated form, which is always 36 characters.
/// Nothing holds of which value comes back: it is drawn fresh each call.
#[verifier::external_body]
pub fn fresh_uuid_string() -> (r: String)
    ensures
        r@.len() == 36,
{
    uuid::Uuid::new_v4().to_string()
}

/// Relies on rand's `Alphanumeric` distribution sampled from the thread
/// rng: 48 characters, each drawn from `a-z`, `A-Z`, `0-9`. Nothing holds
/// of which characters come back.
#[verifier::external_body]
pub fn random_alphanumeric_48() -> (r: String)
    ensures
        r@.len() == 48,
{
    <rand::distr::Alphanumeric as rand::distr::SampleString>::sample_string(
        &rand::distr::Alphanumeric,
        &mut rand::rng(),
        48,
    )
}

/// Relies on chrono's `DateTime::from_timestamp_millis` and `to_rfc3339`:
/// the RFC 3339 text of an epoch instant in UTC, a function of the
/// millisecond value alone (empty for instants chrono cannot represent).
#[verifier::external_body]
pub fn rfc3339_utc(ms: i64) -> (r: String)
    ensures
        r@ == rfc3339_of(ms as int),
{
    match chrono::DateTime::from_timestamp_millis(ms) {
        Option::Some(d) => d.to_rfc3339(),
        Option::None => String::new(),
    }
}

/// The RFC 3339 text of an epoch-millisecond instant in UTC; chrono
/// renders it, this names the result.
pub uninterp spec fn rfc3339_of(ms: int) -> Seq<char>;

} // verus!
