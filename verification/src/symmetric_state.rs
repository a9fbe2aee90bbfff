//! The symmetric state: chaining key, transcript hash and the cipher state
//! that the key schedule installs.

use vstd::prelude::*;
use crate::bytes::splice;
use crate::bytes::write_at;
use crate::cipher_state::CipherModel;
use crate::cipher_state::CipherState;
use crate::primitives::blake2s;
use crate::primitives::blake2s_of;
use crate::primitives::hkdf;
use crate::primitives::hkdf_of;
use crate::primitives::AEAD_LIMIT;
use crate::primitives::TAG_LEN;
use crate::Error;

verus! {

/// BLAKE2s of the protocol name `Noise_XX_25519_ChaChaPoly_BLAKE2s`.
pub const PRE_H_NAME: [u8; 32] = [
    28, 238, 221, 129, 197, 244, 88, 178, 37, 146, 61, 194, 80, 119, 135, 191, 21, 111, 146, 81,
    252, 23, 196, 90, 246, 50, 99, 169, 41, 252, 30, 210,
];

/// What a symmetric state is.
pub struct SymModel {
    pub ck: Seq<u8>,
    pub h: Seq<u8>,
    pub cipher: CipherModel,
    pub has_key: bool,
}

impl SymModel {
    /// The state before anything was mixed in.
    pub open spec fn initial() -> SymModel {
        SymModel {
            ck: PRE_H_NAME@,
            h: PRE_H_NAME@,
            cipher: CipherModel { k: Seq::new(32, |i: int| 0u8), n: 0 },
            has_key: false,
        }
    }

    /// `h` becomes the hash of `h` followed by `data`.
    pub open spec fn mix_hash(self, data: Seq<u8>) -> SymModel {
        SymModel { h: blake2s_of(self.h + data), ..self }
    }

    /// The key schedule's step: the first half of the derived bytes replaces
    /// `ck`, the second half keys a fresh cipher state.
    pub open spec fn mix_key(self, material: Seq<u8>) -> SymModel {
        let okm = hkdf_of(self.ck, material);
        SymModel {
            ck: okm.subrange(0, 32),
            h: self.h,
            cipher: CipherModel { k: okm.subrange(32, 64), n: 0 },
            has_key: true,
        }
    }

    /// The bytes that go on the wire for `payload`.
    pub open spec fn wire(self, payload: Seq<u8>) -> Seq<u8> {
        if self.has_key {
            self.cipher.sealed(self.h, payload)
        } else {
            payload
        }
    }

    /// The cipher state after one message, where there is a key.
    pub open spec fn stepped(self) -> CipherModel {
        if self.has_key {
            self.cipher.advanced()
        } else {
            self.cipher
        }
    }

    /// The state after `payload` was written: the wire bytes are mixed into `h`.
    pub open spec fn after_write(self, payload: Seq<u8>) -> SymModel {
        (SymModel { cipher: self.stepped(), ..self }).mix_hash(self.wire(payload))
    }

    /// Whether `message` is accepted.
    pub open spec fn accepts(self, message: Seq<u8>) -> bool {
        self.has_key ==> self.cipher.opens(self.h, message)
    }

    /// The plaintext of an accepted `message`.
    pub open spec fn plain(self, message: Seq<u8>) -> Seq<u8> {
        if self.has_key {
            self.cipher.opened(self.h, message)
        } else {
            message
        }
    }

    /// Whether the plaintext of `message` is the only payload with that wire form.
    pub open spec fn reads_back(self, message: Seq<u8>) -> bool {
        forall|m: Seq<u8>| #[trigger] self.wire(m) == message ==> m == self.plain(message)
    }

    /// The state after `message` was read: the wire bytes are mixed into `h`.
    pub open spec fn after_read(self, message: Seq<u8>) -> SymModel {
        (SymModel { cipher: self.stepped(), ..self }).mix_hash(message)
    }

    /// The bytes that a message adds to its payload.
    pub open spec fn tag_len(self) -> int {
        if self.has_key {
            TAG_LEN as int
        } else {
            0
        }
    }

    /// What `encrypt_and_hash` returns.
    pub open spec fn write_result(self, len: int, room: int, at: int) -> Result<usize, Error> {
        if at > room || room - at < len + self.tag_len() {
            Err(Error::Input)
        } else {
            Ok((len + self.tag_len()) as usize)
        }
    }

    /// What `decrypt_and_hash` returns.
    pub open spec fn read_result(self, message: Seq<u8>, room: int, at: int) -> Result<usize, Error> {
        if message.len() < self.tag_len() || at > room || room - at < message.len() - self.tag_len() {
            Err(Error::Input)
        } else if !self.accepts(message) {
            Err(Error::Decrypt)
        } else {
            Ok((message.len() - self.tag_len()) as usize)
        }
    }

    /// The two transport cipher states, in the order in which they are derived.
    pub open spec fn split(self) -> (CipherModel, CipherModel) {
        let okm = hkdf_of(self.ck, Seq::<u8>::empty());
        (CipherModel { k: okm.subrange(0, 32), n: 0 }, CipherModel { k: okm.subrange(32, 64), n: 0 })
    }
}

/// The chaining key, the transcript hash, and the cipher state that the last
/// `mix_key` installed (before the first, a placeholder that is never used).
#[derive(Clone, Copy)]
pub struct SymmetricState {
    pub(crate) ck: [u8; 32],
    pub(crate) h: [u8; 32],
    pub(crate) cipher: CipherState,
    pub(crate) has_key: bool,
}

impl View for SymmetricState {
    type V = SymModel;

    closed spec fn view(&self) -> SymModel {
        SymModel { ck: self.ck@, h: self.h@, cipher: self.cipher@, has_key: self.has_key }
    }
}

/// The two halves of 64 derived bytes.
pub fn halves(okm: &[u8; 64]) -> (r: ([u8; 32], [u8; 32]))
    ensures
        r.0@ == okm@.subrange(0, 32),
        r.1@ == okm@.subrange(32, 64),
{
    let mut a = [0u8; 32];
    let mut b = [0u8; 32];
    let mut i: usize = 0;
    while i < 32
        invariant
            i <= 32,
            forall|j: int| 0 <= j < i ==> a@[j] == okm@[j] && b@[j] == okm@[32 + j],
        decreases 32 - i,
    {
        a[i] = okm[i];
        b[i] = okm[i + 32];
        i += 1;
    }
    assert(a@ =~= okm@.subrange(0, 32));
    assert(b@ =~= okm@.subrange(32, 64));
    (a, b)
}

impl SymmetricState {
    /// The state before anything was mixed in.
    pub fn new() -> (r: Self)
        ensures
            r@ == SymModel::initial(),
    {
        let zero = [0u8; 32];
        assert(zero@ =~= Seq::new(32, |i: int| 0u8));
        Self { ck: PRE_H_NAME, h: PRE_H_NAME, cipher: CipherState::new(zero), has_key: false }
    }

    /// The transcript hash.
    pub fn hash(&self) -> (r: [u8; 32])
        ensures
            r@ == self@.h,
    {
        self.h
    }

    /// Whether a key has been installed.
    pub fn has_key(&self) -> (r: bool)
        ensures
            r == self@.has_key,
    {
        self.has_key
    }

    /// Derives a new chaining key and a fresh cipher state from `material`.
    pub fn mix_key(&mut self, material: &[u8])
        ensures
            final(self)@ == old(self)@.mix_key(material@),
    {
        let okm = hkdf(self.ck.as_slice(), material);
        let (ck, k) = halves(&okm);
        self.ck = ck;
        self.cipher = CipherState::new(k);
        self.has_key = true;
    }

    /// Mixes `data` into the transcript hash.
    pub fn mix_hash(&mut self, data: &[u8])
        ensures
            final(self)@ == old(self)@.mix_hash(data@),
    {
        self.h = blake2s(self.h.as_slice(), data);
    }

    /// Writes the wire form of `payload` into `out` from `at` on, sealed where
    /// there is a key, and mixes what was written into the transcript hash.
    /// Refuses with `Input`, changing nothing, where the room is too short.
    pub fn encrypt_and_hash(&mut self, payload: &[u8], out: &mut [u8], at: usize) -> (res: Result<usize, Error>)
        requires
            old(self)@.has_key ==> old(self)@.cipher.n < u64::MAX && payload@.len() < AEAD_LIMIT,
        ensures
            res == old(self)@.write_result(payload@.len() as int, old(out)@.len() as int, at as int),
            res is Ok ==> {
                &&& final(self)@ == old(self)@.after_write(payload@)
                &&& old(self)@.wire(payload@).len() == payload@.len() + old(self)@.tag_len()
                &&& final(out)@ == splice(old(out)@, at as int, old(self)@.wire(payload@))
            },
            res is Err ==> final(self)@ == old(self)@ && final(out)@ == old(out)@,
    {
        let room = out.len();
        let len = if self.has_key {
            match self.cipher.encrypt_with_ad(self.h.as_slice(), payload, out, at) {
                Ok(len) => len,
                Err(e) => {
                    return Err(e);
                },
            }
        } else {
            if at > room || room - at < payload.len() {
                return Err(Error::Input);
            }
            write_at(out, at, payload);
            payload.len()
        };
        let ghost wire = old(self)@.wire(payload@);
        assert(at + len <= room);
        assert(wire.len() == len);
        assert(out@ == splice(old(out)@, at as int, wire));
        assert(out@.len() == room);
        let written = vstd::slice::slice_subrange(out, at, at + len);
        assert(written@ =~= wire);
        self.mix_hash(written);
        Ok(len)
    }

    /// Reads `message` into `out` from `at` on, checked and decrypted where
    /// there is a key, and mixes the message as it came into the transcript
    /// hash. Refuses with `Input` where a buffer is too short and with
    /// `Decrypt` where the tag does not match; the state is then unchanged.
    pub fn decrypt_and_hash(&mut self, message: &[u8], out: &mut [u8], at: usize) -> (res: Result<usize, Error>)
        requires
            old(self)@.has_key ==> old(self)@.cipher.n < u64::MAX,
        ensures
            res == old(self)@.read_result(message@, old(out)@.len() as int, at as int),
            res is Ok ==> {
                &&& final(self)@ == old(self)@.after_read(message@)
                &&& old(self)@.plain(message@).len() == message@.len() - old(self)@.tag_len()
                &&& old(self)@.wire(old(self)@.plain(message@)) == message@
                &&& final(out)@ == splice(old(out)@, at as int, old(self)@.plain(message@))
                &&& old(self)@.reads_back(message@)
            },
            res is Err ==> final(self)@ == old(self)@ && final(out)@.len() == old(out)@.len(),
            res == Err::<usize, Error>(Error::Input) ==> final(out)@ == old(out)@,
    {
        let len = if self.has_key {
            match self.cipher.decrypt_with_ad(self.h.as_slice(), message, out, at) {
                Ok(len) => len,
                Err(e) => {
                    return Err(e);
                },
            }
        } else {
            let room = out.len();
            if at > room || room - at < message.len() {
                return Err(Error::Input);
            }
            write_at(out, at, message);
            message.len()
        };
        self.mix_hash(message);
        Ok(len)
    }

    /// The two transport cipher states.
    pub fn split(self) -> (r: (CipherState, CipherState))
        ensures
            r.0@ == self@.split().0,
            r.1@ == self@.split().1,
    {
        let empty: [u8; 0] = [];
        let okm = hkdf(self.ck.as_slice(), empty.as_slice());
        assert(empty@ =~= Seq::<u8>::empty());
        let (k1, k2) = halves(&okm);
        (CipherState::new(k1), CipherState::new(k2))
    }
}

} // verus!
