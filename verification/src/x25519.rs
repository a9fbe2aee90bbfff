//! The Diffie-Hellman layer: X25519 with the all-zero output refused.

use vstd::prelude::*;
use crate::bytes::all_zero;
use crate::primitives::scalar_mult;
use crate::primitives::x25519_of;
use crate::Error;

verus! {

/// The u-coordinate of the curve's base point: 9, then 31 zero bytes.
pub open spec fn basepoint() -> Seq<u8> {
    Seq::new(32, |i: int| if i == 0 { 9u8 } else { 0u8 })
}

/// The public key that belongs to the secret scalar `k`.
pub open spec fn spec_pub_key(k: Seq<u8>) -> Seq<u8> {
    x25519_of(k, basepoint())
}

/// Whether the shared secret of `k` and `u` is refused.
pub open spec fn dh_refused(k: Seq<u8>, u: Seq<u8>) -> bool {
    all_zero(x25519_of(k, u))
}

/// The public key of secret scalar `k`.
pub fn pub_key(k: [u8; 32]) -> (r: [u8; 32])
    ensures
        r@ == spec_pub_key(k@),
{
    let mut base = [0u8; 32];
    base[0] = 9;
    assert(base@ =~= basepoint());
    scalar_mult(k, base)
}

/// Whether all 32 bytes are zero.
pub fn is_zero(v: &[u8; 32]) -> (r: bool)
    ensures
        r == all_zero(v@),
{
    let mut i: usize = 0;
    while i < 32
        invariant
            i <= 32,
            forall|j: int| 0 <= j < i ==> v@[j] == 0,
        decreases 32 - i,
    {
        if v[i] != 0 {
            return false;
        }
        i += 1;
    }
    true
}

/// The shared secret of `k` and `u`, or `Dh` where it is all zeros.
pub fn x25519(k: [u8; 32], u: [u8; 32]) -> (r: Result<[u8; 32], Error>)
    ensures
        dh_refused(k@, u@) ==> r == Err::<[u8; 32], Error>(Error::Dh),
        !dh_refused(k@, u@) ==> r is Ok && r->Ok_0@ == x25519_of(k@, u@),
{
    let out = scalar_mult(k, u);
    if is_zero(&out) {
        Err(Error::Dh)
    } else {
        Ok(out)
    }
}

} // verus!
