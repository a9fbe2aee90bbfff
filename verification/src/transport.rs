//! The two cipher streams that a completed handshake yields, one for each
//! direction, and the one-way halves that they can be split into.

use vstd::prelude::*;
use crate::bytes::splice;
use crate::cipher_state::decrypt_result;
use crate::cipher_state::encrypt_result;
use crate::cipher_state::CipherModel;
use crate::cipher_state::CipherState;
use crate::primitives::AEAD_LIMIT;
use crate::primitives::TAG_LEN;
use crate::Error;

verus! {

/// What a transport is: the peer's static key and one cipher state for each
/// direction.
pub struct TransportModel {
    pub rs: Seq<u8>,
    pub send: CipherModel,
    pub recv: CipherModel,
}

/// What a one-way half is: the peer's static key and its cipher state.
pub struct HalfModel {
    pub rs: Seq<u8>,
    pub cipher: CipherModel,
}

/// Both directions of a session after the handshake.
pub struct Transport {
    pub(crate) rs: [u8; 32],
    pub(crate) send: CipherState,
    pub(crate) recv: CipherState,
}

/// The receiving half of a session.
pub struct NoiseRead {
    pub(crate) recv: CipherState,
    pub(crate) rs: [u8; 32],
}

/// The sending half of a session.
pub struct NoiseWrite {
    pub(crate) send: CipherState,
    pub(crate) rs: [u8; 32],
}

impl View for Transport {
    type V = TransportModel;

    closed spec fn view(&self) -> TransportModel {
        TransportModel { rs: self.rs@, send: self.send@, recv: self.recv@ }
    }
}

impl View for NoiseRead {
    type V = HalfModel;

    closed spec fn view(&self) -> HalfModel {
        HalfModel { rs: self.rs@, cipher: self.recv@ }
    }
}

impl View for NoiseWrite {
    type V = HalfModel;

    closed spec fn view(&self) -> HalfModel {
        HalfModel { rs: self.rs@, cipher: self.send@ }
    }
}

/// Decrypts one transport message with `recv`.
fn read_with(recv: &mut CipherState, message: &[u8], payload: &mut [u8]) -> (res: Result<usize, Error>)
    requires
        old(recv)@.n < u64::MAX,
    ensures
        res == decrypt_result(old(recv)@, Seq::<u8>::empty(), message@, old(payload)@.len() as int, 0),
        res is Ok ==> {
            &&& final(recv)@ == old(recv)@.advanced()
            &&& final(payload)@ == splice(old(payload)@, 0, old(recv)@.opened(Seq::<u8>::empty(), message@))
            &&& old(recv)@.opened(Seq::<u8>::empty(), message@).len() == message@.len() - TAG_LEN
            &&& old(recv)@.reads_back(Seq::<u8>::empty(), message@)
        },
        res is Err ==> final(recv)@ == old(recv)@ && final(payload)@.len() == old(payload)@.len(),
        res == Err::<usize, Error>(Error::Input) ==> final(payload)@ == old(payload)@,
{
    let empty: [u8; 0] = [];
    assert(empty@ =~= Seq::<u8>::empty());
    recv.decrypt_with_ad(empty.as_slice(), message, payload, 0)
}

/// Encrypts one transport message with `send`.
fn write_with(send: &mut CipherState, payload: &[u8], message: &mut [u8]) -> (res: Result<usize, Error>)
    requires
        old(send)@.n < u64::MAX,
        payload@.len() < AEAD_LIMIT,
    ensures
        res == encrypt_result(payload@.len() as int, old(message)@.len() as int, 0),
        res is Ok ==> {
            &&& final(send)@ == old(send)@.advanced()
            &&& final(message)@ == splice(old(message)@, 0, old(send)@.sealed(Seq::<u8>::empty(), payload@))
            &&& old(send)@.sealed(Seq::<u8>::empty(), payload@).len() == payload@.len() + TAG_LEN
        },
        res is Err ==> final(send)@ == old(send)@ && final(message)@ == old(message)@,
{
    let empty: [u8; 0] = [];
    assert(empty@ =~= Seq::<u8>::empty());
    send.encrypt_with_ad(empty.as_slice(), payload, message, 0)
}

impl Transport {
    /// A transport from the peer's static key and the two cipher states.
    pub fn from_parts(rs: [u8; 32], send: CipherState, recv: CipherState) -> (r: Self)
        ensures
            r@ == (TransportModel { rs: rs@, send: send@, recv: recv@ }),
    {
        Transport { rs, send, recv }
    }

    /// The peer's static public key.
    pub fn remote_key(&self) -> (r: [u8; 32])
        ensures
            r@ == self@.rs,
    {
        self.rs
    }

    /// Moves the receiving counter to `nonce`, in either direction.
    pub fn set_receive_nonce(&mut self, nonce: u64)
        ensures
            final(self)@ == (TransportModel {
                recv: CipherModel { k: old(self)@.recv.k, n: nonce },
                ..old(self)@
            }),
    {
        self.recv.set_nonce(nonce)
    }

    /// The sending counter.
    pub fn send_nonce(&self) -> (n: u64)
        ensures
            n == self@.send.n,
    {
        self.send.nonce()
    }

    /// The receiving counter.
    pub fn recv_nonce(&self) -> (n: u64)
        ensures
            n == self@.recv.n,
    {
        self.recv.nonce()
    }

    /// The two one-way halves; each keeps the peer's static key.
    pub fn split(self) -> (r: (NoiseRead, NoiseWrite))
        ensures
            r.0@ == (HalfModel { rs: self@.rs, cipher: self@.recv }),
            r.1@ == (HalfModel { rs: self@.rs, cipher: self@.send }),
    {
        (NoiseRead { recv: self.recv, rs: self.rs }, NoiseWrite { send: self.send, rs: self.rs })
    }

    /// Checks and decrypts `message` into `payload` with the receiving cipher
    /// state. Only success advances the receiving counter.
    pub fn read_message(&mut self, message: &[u8], payload: &mut [u8]) -> (res: Result<usize, Error>)
        requires
            old(self)@.recv.n < u64::MAX,
        ensures
            res == decrypt_result(old(self)@.recv, Seq::<u8>::empty(), message@, old(payload)@.len() as int, 0),
            res is Ok ==> {
                &&& final(self)@ == (TransportModel { recv: old(self)@.recv.advanced(), ..old(self)@ })
                &&& final(payload)@ == splice(
                    old(payload)@,
                    0,
                    old(self)@.recv.opened(Seq::<u8>::empty(), message@),
                )
                &&& old(self)@.recv.opened(Seq::<u8>::empty(), message@).len() == message@.len() - TAG_LEN
                &&& old(self)@.recv.reads_back(Seq::<u8>::empty(), message@)
            },
            res is Err ==> final(self)@ == old(self)@ && final(payload)@.len() == old(payload)@.len(),
            res == Err::<usize, Error>(Error::Input) ==> final(payload)@ == old(payload)@,
    {
        read_with(&mut self.recv, message, payload)
    }

    /// Seals `payload` into `message` with the sending cipher state and
    /// advances the sending counter.
    pub fn write_message(&mut self, payload: &[u8], message: &mut [u8]) -> (res: Result<usize, Error>)
        requires
            old(self)@.send.n < u64::MAX,
            payload@.len() < AEAD_LIMIT,
        ensures
            res == encrypt_result(payload@.len() as int, old(message)@.len() as int, 0),
            res is Ok ==> {
                &&& final(self)@ == (TransportModel { send: old(self)@.send.advanced(), ..old(self)@ })
                &&& final(message)@ == splice(
                    old(message)@,
                    0,
                    old(self)@.send.sealed(Seq::<u8>::empty(), payload@),
                )
                &&& old(self)@.send.sealed(Seq::<u8>::empty(), payload@).len() == payload@.len() + TAG_LEN
            },
            res is Err ==> final(self)@ == old(self)@ && final(message)@ == old(message)@,
    {
        write_with(&mut self.send, payload, message)
    }
}

impl NoiseRead {
    /// The peer's static public key.
    pub fn remote_key(&self) -> (r: [u8; 32])
        ensures
            r@ == self@.rs,
    {
        self.rs
    }

    /// The receiving counter.
    pub fn recv_nonce(&self) -> (n: u64)
        ensures
            n == self@.cipher.n,
    {
        self.recv.nonce()
    }

    /// Checks and decrypts `message` into `payload`. Only success advances the
    /// counter.
    pub fn read_message(&mut self, message: &[u8], payload: &mut [u8]) -> (res: Result<usize, Error>)
        requires
            old(self)@.cipher.n < u64::MAX,
        ensures
            res == decrypt_result(old(self)@.cipher, Seq::<u8>::empty(), message@, old(payload)@.len() as int, 0),
            res is Ok ==> {
                &&& final(self)@ == (HalfModel { cipher: old(self)@.cipher.advanced(), ..old(self)@ })
                &&& final(payload)@ == splice(
                    old(payload)@,
                    0,
                    old(self)@.cipher.opened(Seq::<u8>::empty(), message@),
                )
                &&& old(self)@.cipher.opened(Seq::<u8>::empty(), message@).len() == message@.len() - TAG_LEN
                &&& old(self)@.cipher.reads_back(Seq::<u8>::empty(), message@)
            },
            res is Err ==> final(self)@ == old(self)@ && final(payload)@.len() == old(payload)@.len(),
            res == Err::<usize, Error>(Error::Input) ==> final(payload)@ == old(payload)@,
    {
        read_with(&mut self.recv, message, payload)
    }
}

impl NoiseWrite {
    /// The peer's static public key.
    pub fn remote_key(&self) -> (r: [u8; 32])
        ensures
            r@ == self@.rs,
    {
        self.rs
    }

    /// The sending counter.
    pub fn send_nonce(&self) -> (n: u64)
        ensures
            n == self@.cipher.n,
    {
        self.send.nonce()
    }

    /// Seals `payload` into `message` and advances the counter.
    pub fn write_message(&mut self, payload: &[u8], message: &mut [u8]) -> (res: Result<usize, Error>)
        requires
            old(self)@.cipher.n < u64::MAX,
            payload@.len() < AEAD_LIMIT,
        ensures
            res == encrypt_result(payload@.len() as int, old(message)@.len() as int, 0),
            res is Ok ==> {
                &&& final(self)@ == (HalfModel { cipher: old(self)@.cipher.advanced(), ..old(self)@ })
                &&& final(message)@ == splice(
                    old(message)@,
                    0,
                    old(self)@.cipher.sealed(Seq::<u8>::empty(), payload@),
                )
                &&& old(self)@.cipher.sealed(Seq::<u8>::empty(), payload@).len() == payload@.len() + TAG_LEN
            },
            res is Err ==> final(self)@ == old(self)@ && final(message)@ == old(message)@,
    {
        write_with(&mut self.send, payload, message)
    }
}

} // verus!
