//! The random source of the operating system.

use rand::rngs::OsRng;
use rand::RngCore;
use vstd::prelude::*;

verus! {

/// `OsRng::try_fill_bytes` on a buffer of `length` bytes: that many random
/// bytes, or `None` where the operating system gave none.  Nothing is said
/// of the bytes themselves.  A buffer cannot be longer than half the address
/// space.
#[verifier::external_body]
pub(crate) fn os_random(length: usize) -> (r: Option<Vec<u8>>)
    requires
        length <= usize::MAX / 2,
    ensures
        r matches Some(v) ==> v@.len() == length,
{
    let mut bytes = vec![0u8; length];
    OsRng.try_fill_bytes(&mut bytes).ok()?;
    Some(bytes)
}

} // verus!
