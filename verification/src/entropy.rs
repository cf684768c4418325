use std::hash::DefaultHasher;
use std::hash::Hash;
use std::time::Instant;
use vstd::prelude::*;

verus! {

/// `std::time::Instant`, carried through opaquely: only hashed, never read.
#[verifier::external_type_specification]
#[verifier::external_body]
pub struct ExInstant(Instant);

/// Calls `<u16 as Hash>::hash`, feeding `value` to `hasher`. Nothing is
/// claimed of the bytes it writes: the hasher's state afterwards is left free.
#[verifier::external_body]
pub(crate) fn hash_u16(value: u16, hasher: &mut DefaultHasher) {
    value.hash(hasher)
}

/// Calls `Instant::now`. The result depends on the clock: nothing is claimed
/// of it.
#[verifier::external_body]
pub(crate) fn instant_now() -> Instant {
    Instant::now()
}

/// Calls `<Instant as Hash>::hash`, feeding `instant` to `hasher`. Nothing is
/// claimed of the bytes it writes: the hasher's state afterwards is left free.
#[verifier::external_body]
pub(crate) fn hash_instant(instant: &Instant, hasher: &mut DefaultHasher) {
    instant.hash(hasher)
}

} // verus!
