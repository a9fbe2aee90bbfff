//! An AEAD stream: a key and a counter that numbers the messages.

use vstd::prelude::*;
use crate::bytes::splice;
use crate::bytes::write_at;
use crate::primitives::open_in_place;
use crate::primitives::opened_of;
use crate::primitives::opens;
use crate::primitives::seal_in_place;
use crate::primitives::sealed_of;
use crate::primitives::AEAD_LIMIT;
use crate::primitives::TAG_LEN;
use crate::Error;

verus! {

/// Byte `i` of the 12-byte nonce for counter `n`: four zero bytes, then the
/// counter in little-endian order.
pub open spec fn nonce_byte(n: u64, i: int) -> u8 {
    if i < 4 {
        0u8
    } else {
        ((n >> ((8 * (i - 4)) as u64)) & 0xff) as u8
    }
}

/// The nonce for counter `n`.
pub open spec fn noise_nonce(n: u64) -> Seq<u8> {
    Seq::new(12, |i: int| nonce_byte(n, i))
}

/// What a cipher state is: its key and its counter.
pub struct CipherModel {
    pub k: Seq<u8>,
    pub n: u64,
}

impl CipherModel {
    /// The sealed form of `plaintext` under the current counter.
    pub open spec fn sealed(self, ad: Seq<u8>, plaintext: Seq<u8>) -> Seq<u8> {
        sealed_of(self.k, noise_nonce(self.n), ad, plaintext)
    }

    /// Whether `message` is accepted under the current counter.
    pub open spec fn opens(self, ad: Seq<u8>, message: Seq<u8>) -> bool {
        opens(self.k, noise_nonce(self.n), ad, message)
    }

    /// The plaintext of an accepted `message`.
    pub open spec fn opened(self, ad: Seq<u8>, message: Seq<u8>) -> Seq<u8> {
        opened_of(self.k, noise_nonce(self.n), ad, message)
    }

    /// Whether the plaintext of `message` is the only one with that sealed form.
    pub open spec fn reads_back(self, ad: Seq<u8>, message: Seq<u8>) -> bool {
        forall|m: Seq<u8>| #[trigger] self.sealed(ad, m) == message ==> m == self.opened(ad, message)
    }

    /// The state after one successful message.
    pub open spec fn advanced(self) -> CipherModel
        recommends
            self.n < u64::MAX,
    {
        CipherModel { k: self.k, n: (self.n + 1) as u64 }
    }
}

/// What `encrypt_with_ad` returns for a plaintext of `len` bytes and an output
/// buffer of `room` bytes written from `at` on.
pub open spec fn encrypt_result(len: int, room: int, at: int) -> Result<usize, Error> {
    if at > room || room - at < len + TAG_LEN {
        Err(Error::Input)
    } else {
        Ok((len + TAG_LEN) as usize)
    }
}

/// What `decrypt_with_ad` returns.
pub open spec fn decrypt_result(c: CipherModel, ad: Seq<u8>, message: Seq<u8>, room: int, at: int) -> Result<usize, Error> {
    if message.len() < TAG_LEN || at > room || room - at < message.len() - TAG_LEN {
        Err(Error::Input)
    } else if !c.opens(ad, message) {
        Err(Error::Decrypt)
    } else {
        Ok((message.len() - TAG_LEN) as usize)
    }
}

/// A key and the counter of the messages that it has sealed or opened.
#[derive(Clone, Copy)]
pub struct CipherState {
    pub(crate) k: [u8; 32],
    pub(crate) n: u64,
}

impl View for CipherState {
    type V = CipherModel;

    closed spec fn view(&self) -> CipherModel {
        CipherModel { k: self.k@, n: self.n }
    }
}

/// The 12-byte nonce for counter `n`.
pub fn nonce_bytes(n: u64) -> (r: [u8; 12])
    ensures
        r@ == noise_nonce(n),
{
    let mut r = [0u8; 12];
    let mut i: usize = 0;
    while i < 8
        invariant
            i <= 8,
            forall|j: int| 0 <= j < 4 ==> r@[j] == 0,
            forall|j: int| 4 <= j < 4 + i ==> r@[j] == nonce_byte(n, j),
        decreases 8 - i,
    {
        let shift: u64 = 8 * (i as u64);
        r[4 + i] = ((n >> shift) & 0xff) as u8;
        i += 1;
    }
    assert(r@ =~= noise_nonce(n));
    r
}

impl CipherState {
    /// A cipher state with key `k` and counter 0.
    pub fn new(k: [u8; 32]) -> (r: Self)
        ensures
            r@ == (CipherModel { k: k@, n: 0 }),
    {
        Self { k, n: 0 }
    }

    /// The counter.
    pub fn nonce(&self) -> (n: u64)
        ensures
            n == self@.n,
    {
        self.n
    }

    /// Overwrites the counter.
    pub fn set_nonce(&mut self, nonce: u64)
        ensures
            final(self)@ == (CipherModel { k: old(self)@.k, n: nonce }),
    {
        self.n = nonce
    }

    /// Writes the sealed form of `plaintext` into `out` from `at` on and
    /// advances the counter. Refuses with `Input`, changing nothing, where the
    /// room is too short.
    pub fn encrypt_with_ad(&mut self, ad: &[u8], plaintext: &[u8], out: &mut [u8], at: usize) -> (res: Result<usize, Error>)
        requires
            old(self)@.n < u64::MAX,
            plaintext@.len() < AEAD_LIMIT,
        ensures
            res == encrypt_result(plaintext@.len() as int, old(out)@.len() as int, at as int),
            res is Ok ==> {
                &&& final(self)@ == old(self)@.advanced()
                &&& old(self)@.sealed(ad@, plaintext@).len() == plaintext@.len() + TAG_LEN
                &&& final(out)@ == splice(old(out)@, at as int, old(self)@.sealed(ad@, plaintext@))
            },
            res is Err ==> final(self)@ == old(self)@ && final(out)@ == old(out)@,
    {
        let len = plaintext.len();
        let room = out.len();
        if at > room || room - at < TAG_LEN || room - at - TAG_LEN < len {
            return Err(Error::Input);
        }
        write_at(out, at, plaintext);
        let ghost mid = out@;
        assert(mid.subrange(at as int, at + len) =~= plaintext@);
        let nonce = nonce_bytes(self.n);
        let tag = seal_in_place(&self.k, &nonce, ad, out, at, at + len);
        let ghost enc = out@;
        write_at(out, at + len, tag.as_slice());
        self.n = self.n + 1;
        proof {
            let sealed = old(self)@.sealed(ad@, plaintext@);
            assert(sealed == enc.subrange(at as int, at + len) + tag@);
            assert(out@ =~= splice(old(out)@, at as int, sealed));
        }
        Ok(len + TAG_LEN)
    }

    /// Checks and decrypts `message` into `out` from `at` on and advances the
    /// counter. Refuses with `Input`, changing nothing, where a buffer is too
    /// short, and with `Decrypt`, keeping the counter, where the tag does not
    /// match; `out` then holds the ciphertext.
    pub fn decrypt_with_ad(&mut self, ad: &[u8], message: &[u8], out: &mut [u8], at: usize) -> (res: Result<usize, Error>)
        requires
            old(self)@.n < u64::MAX,
        ensures
            res == decrypt_result(old(self)@, ad@, message@, old(out)@.len() as int, at as int),
            res is Ok ==> {
                &&& final(self)@ == old(self)@.advanced()
                &&& old(self)@.opened(ad@, message@).len() == message@.len() - TAG_LEN
                &&& old(self)@.sealed(ad@, old(self)@.opened(ad@, message@)) == message@
                &&& final(out)@ == splice(old(out)@, at as int, old(self)@.opened(ad@, message@))
                &&& old(self)@.reads_back(ad@, message@)
            },
            res is Err ==> final(self)@ == old(self)@,
            res == Err::<usize, Error>(Error::Input) ==> final(out)@ == old(out)@,
            res == Err::<usize, Error>(Error::Decrypt) ==> final(out)@ == splice(
                old(out)@,
                at as int,
                message@.subrange(0, message@.len() - TAG_LEN),
            ),
    {
        let total = message.len();
        let room = out.len();
        if total < TAG_LEN || at > room || room - at < total - TAG_LEN {
            return Err(Error::Input);
        }
        let len = total - TAG_LEN;
        let body = vstd::slice::slice_subrange(message, 0, len);
        let tag = vstd::slice::slice_subrange(message, len, total);
        write_at(out, at, body);
        let ghost mid = out@;
        assert(mid.subrange(at as int, at + len) =~= body@);
        assert(body@ + tag@ =~= message@);
        let nonce = nonce_bytes(self.n);
        let ok = open_in_place(&self.k, &nonce, ad, out, at, at + len, tag);
        if !ok {
            return Err(Error::Decrypt);
        }
        self.n = self.n + 1;
        proof {
            let plain = out@.subrange(at as int, at + len);
            let c = old(self)@;
            assert(c.sealed(ad@, plain) == message@);
            assert(c.sealed(ad@, c.opened(ad@, message@)) == message@);
            assert(c.opened(ad@, message@) == plain);
            assert(out@ =~= splice(old(out)@, at as int, plain));
        }
        Ok(len)
    }
}

} // verus!
