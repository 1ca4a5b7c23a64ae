//! Random values from the operating system's generator. Nothing is known
//! of a value drawn here beyond its shape; the logic that uses one takes it
//! as given.

use vstd::prelude::*;

use rand::Rng;
use rand::RngCore;

verus! {

/// Calls `RngCore::fill_bytes` on the thread's generator for `n` bytes:
/// `n` random bytes.
#[verifier::external_body]
pub(crate) fn random_bytes(n: usize) -> (b: Vec<u8>)
    ensures
        b@.len() == n,
{
    let mut buf = vec![0u8; n];
    rand::thread_rng().fill_bytes(&mut buf);
    buf
}

/// Calls `Rng::fill` on the thread's generator for a 16-byte array: 16
/// random bytes.
#[verifier::external_body]
pub(crate) fn random_salt() -> (b: Vec<u8>)
    ensures
        b@.len() == 16,
{
    let mut salt = [0u8; 16];
    rand::thread_rng().fill(&mut salt);
    salt.to_vec()
}

/// Calls `Rng::gen_range(0..n)` on the thread's generator: a number below
/// `n` (the call panics on an empty range, which `requires` rules out).
#[verifier::external_body]
pub(crate) fn random_below(n: usize) -> (r: usize)
    requires
        n > 0,
    ensures
        r < n,
{
    rand::thread_rng().gen_range(0..n)
}

} // verus!
