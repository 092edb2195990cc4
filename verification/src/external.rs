//! Trusted wrappers around the randomness and identifier crates.
//!
//! Each function's body makes exactly one outside call; the contracts state
//! only what the outside documentation promises of every outcome.

use vstd::prelude::*;

verus! {

/// Relies on uuid::Uuid::new_v4 and Uuid::to_string: a freshly drawn random
/// identifier. Nothing can be promised of its value.
#[verifier::external_body]
pub(crate) fn fresh_id() -> String {
    uuid::Uuid::new_v4().to_string()
}

/// Relies on rand::Rng::gen_range on the half-open range `0..n`, which
/// returns a uniformly drawn value in that range and panics only on an
/// empty range.
#[verifier::external_body]
pub(crate) fn rand_below(n: u64) -> (r: u64)
    requires
        n > 0,
    ensures
        r < n,
{
    rand::Rng::gen_range(&mut rand::thread_rng(), 0..n)
}

/// Relies on str::replace: every occurrence of the pattern is replaced by
/// the given text. Only used to fill name placeholders in display strings.
#[verifier::external_body]
pub(crate) fn fill_name(template: &String, name: &String) -> String {
    template.replace("{name}", name)
}


} // verus!
