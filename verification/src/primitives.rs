//! The four cryptographic primitives of the suite. Each is computed by an
//! outside crate; its result is named here, and the functions below are
//! believed, not proved.

use vstd::prelude::*;
use chacha20poly1305::aead::AeadInPlace;
use chacha20poly1305::aead::NewAead;
use blake2::Digest;

verus! {

/// Length of a Poly1305 tag.
pub const TAG_LEN: usize = 16;

/// Length of a key, a hash and a Diffie-Hellman value.
pub const DH_LEN: usize = 32;

/// The first length that ChaCha20-Poly1305 refuses to process: 64 bytes for
/// each of 2^32 - 1 blocks.
pub const AEAD_LIMIT: u64 = 0x3f_ffff_ffc0;

/// X25519 of scalar `k` and u-coordinate `u`.
pub uninterp spec fn x25519_of(k: Seq<u8>, u: Seq<u8>) -> Seq<u8>;

/// The BLAKE2s-256 digest of `data`.
pub uninterp spec fn blake2s_of(data: Seq<u8>) -> Seq<u8>;

/// The first 64 bytes of HKDF-BLAKE2s output for `salt` and `ikm`, with empty info.
pub uninterp spec fn hkdf_of(salt: Seq<u8>, ikm: Seq<u8>) -> Seq<u8>;

/// ChaCha20-Poly1305 ciphertext of `plaintext` followed by its tag.
pub uninterp spec fn sealed_of(key: Seq<u8>, nonce: Seq<u8>, ad: Seq<u8>, plaintext: Seq<u8>) -> Seq<u8>;

/// Whether `message` is the sealed form of some plaintext that the cipher accepts.
pub open spec fn opens(key: Seq<u8>, nonce: Seq<u8>, ad: Seq<u8>, message: Seq<u8>) -> bool {
    &&& TAG_LEN <= message.len() < AEAD_LIMIT + TAG_LEN
    &&& exists|m: Seq<u8>| #[trigger] sealed_of(key, nonce, ad, m) == message
}

/// The plaintext whose sealed form is `message`, where there is one.
pub open spec fn opened_of(key: Seq<u8>, nonce: Seq<u8>, ad: Seq<u8>, message: Seq<u8>) -> Seq<u8> {
    choose|m: Seq<u8>| #[trigger] sealed_of(key, nonce, ad, m) == message
}

/// Calls `x25519_dalek::x25519`. The result is the named X25519 value of the
/// two arguments; nothing more is claimed of it.
#[verifier::external_body]
pub(crate) fn scalar_mult(k: [u8; 32], u: [u8; 32]) -> (r: [u8; 32])
    ensures
        r@ == x25519_of(k@, u@),
{
    x25519_dalek::x25519(k, u)
}

/// Feeds `prefix` and then `data` to `blake2::Blake2s` and finalizes. The
/// result is the named digest of the two byte strings joined.
#[verifier::external_body]
pub(crate) fn blake2s(prefix: &[u8], data: &[u8]) -> (r: [u8; 32])
    ensures
        r@ == blake2s_of(prefix@ + data@),
{
    let mut hash = blake2::Blake2s::new();
    hash.update(prefix);
    hash.update(data);
    hash.finalize().into()
}

/// Runs `hkdf::Hkdf::<Blake2s>::new` with `salt` and `ikm`, then `expand` with
/// empty info into 64 bytes. The result is the named output; `expand` cannot
/// refuse this length.
#[verifier::external_body]
pub(crate) fn hkdf(salt: &[u8], ikm: &[u8]) -> (r: [u8; 64])
    ensures
        r@ == hkdf_of(salt@, ikm@),
{
    let mut output = [0u8; 64];
    hkdf::Hkdf::<blake2::Blake2s>::new(Some(salt), ikm).expand(&[], &mut output).unwrap();
    output
}

/// Calls `ChaCha20Poly1305::encrypt_in_place_detached` on `buffer[start..end]`.
/// That range then holds the ciphertext and the rest of the buffer is as it
/// was; ciphertext and returned tag together are the named sealed form of the
/// bytes that the range held. Ranges at or over the cipher's limit are left out.
#[verifier::external_body]
pub(crate) fn seal_in_place(
    key: &[u8; 32],
    nonce: &[u8; 12],
    ad: &[u8],
    buffer: &mut [u8],
    start: usize,
    end: usize,
) -> (tag: [u8; 16])
    requires
        start <= end <= old(buffer)@.len(),
        end - start < AEAD_LIMIT,
    ensures
        final(buffer)@.len() == old(buffer)@.len(),
        forall|i: int| 0 <= i < start || end <= i < old(buffer)@.len() ==> final(buffer)@[i] == old(buffer)@[i],
        final(buffer)@.subrange(start as int, end as int) + tag@ == sealed_of(
            key@,
            nonce@,
            ad@,
            old(buffer)@.subrange(start as int, end as int),
        ),
{
    let cipher = chacha20poly1305::ChaCha20Poly1305::new(key.into());
    cipher.encrypt_in_place_detached(nonce.into(), ad, &mut buffer[start..end]).unwrap().into()
}

/// Calls `ChaCha20Poly1305::decrypt_in_place_detached` on `buffer[start..end]`
/// with `tag`. It succeeds exactly when range and tag together are the sealed
/// form of some plaintext; the range then holds that plaintext, which is the
/// only one with this sealed form. On failure the buffer is untouched, and
/// outside the range it is untouched in any case.
#[verifier::external_body]
pub(crate) fn open_in_place(
    key: &[u8; 32],
    nonce: &[u8; 12],
    ad: &[u8],
    buffer: &mut [u8],
    start: usize,
    end: usize,
    tag: &[u8],
) -> (ok: bool)
    requires
        start <= end <= old(buffer)@.len(),
        tag@.len() == TAG_LEN,
    ensures
        final(buffer)@.len() == old(buffer)@.len(),
        forall|i: int| 0 <= i < start || end <= i < old(buffer)@.len() ==> final(buffer)@[i] == old(buffer)@[i],
        ok == opens(key@, nonce@, ad@, old(buffer)@.subrange(start as int, end as int) + tag@),
        ok ==> sealed_of(key@, nonce@, ad@, final(buffer)@.subrange(start as int, end as int))
            == old(buffer)@.subrange(start as int, end as int) + tag@,
        ok ==> forall|m: Seq<u8>| #[trigger] sealed_of(key@, nonce@, ad@, m) == old(buffer)@.subrange(start as int, end as int) + tag@
            ==> final(buffer)@.subrange(start as int, end as int) == m,
        !ok ==> final(buffer)@ == old(buffer)@,
{
    let cipher = chacha20poly1305::ChaCha20Poly1305::new(key.into());
    cipher.decrypt_in_place_detached(nonce.into(), ad, &mut buffer[start..end], tag.into()).is_ok()
}

} // verus!
