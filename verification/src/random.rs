use vstd::prelude::*;

verus! {

/// A fresh secret key for the key data of a connection.
///
/// Calls `rand::random::<i32>()`, which draws from the thread-local generator
/// of the `rand` crate. Every `i32` may come back, so nothing is claimed of
/// the result.
#[verifier::external_body]
pub(crate) fn random_secret_key() -> (result: i32) {
    rand::random::<i32>()
}

/// A fresh salt for a salted-hash challenge.
///
/// Calls `rand::random::<[u8; 4]>()` and copies the array into a vector. The
/// only claim is the length, which is that of the array; the bytes may be any.
#[verifier::external_body]
pub(crate) fn random_salt() -> (result: Vec<u8>)
    ensures
        result@.len() == 4,
{
    rand::random::<[u8; 4]>().to_vec()
}

} // verus!
