//! The password generator: uniformly random alphanumeric strings of a
//! requested length. A requested length of zero is rejected with a
//! validation error, never defaulted silently and never a panic.

use crate::text::is_alnum;
use rand::distributions::{Alphanumeric, DistString};
use vstd::prelude::*;

verus! {

/// Password length used when the operator requests none.
pub const DEFAULT_PASSWORD_LENGTH: usize = 12;

/// Relies on rand's `Alphanumeric` distribution with
/// `DistString::sample_string`: a string of exactly `len` characters, each
/// drawn from a-z, A-Z and 0-9. The characters are random: nothing relates
/// one call's result to another's.
#[verifier::external_body]
fn sample_alphanumeric(len: usize) -> (r: String)
    ensures
        r@.len() == len,
        forall|i: int| 0 <= i < r@.len() ==> is_alnum(#[trigger] r@[i]),
{
    Alphanumeric.sample_string(&mut rand::thread_rng(), len)
}

/// Generate a password: exactly `len` characters, all alphanumeric.
pub fn generate(len: usize) -> (r: String)
    requires
        len >= 1,
    ensures
        r@.len() == len,
        forall|i: int| 0 <= i < r@.len() ==> is_alnum(#[trigger] r@[i]),
{
    sample_alphanumeric(len)
}

/// Generate under the documented length policy: a request for zero
/// characters is rejected, every other request is served exactly.
pub fn generate_checked(len: usize) -> (r: Option<String>)
    ensures
        match r {
            Some(p) => len >= 1 && p@.len() == len && (forall|i: int|
                0 <= i < p@.len() ==> is_alnum(#[trigger] p@[i])),
            None => len == 0,
        },
{
    if len == 0 {
        None
    } else {
        Some(generate(len))
    }
}

} // verus!
