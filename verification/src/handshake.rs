//! The XX handshake: three messages, written and read in turn.
//!
//! ```text
//!  -> e
//!  <- e, ee, s, es
//!  -> s, se
//! ```

use vstd::prelude::*;
use crate::bytes::all_zero;
use crate::bytes::splice;
use crate::primitives::x25519_of;
use crate::primitives::AEAD_LIMIT;
use crate::primitives::DH_LEN;
use crate::symmetric_state::SymModel;
use crate::symmetric_state::SymmetricState;
use crate::transport::Transport;
use crate::transport::TransportModel;
use crate::x25519::dh_refused;
use crate::x25519::pub_key;
use crate::x25519::spec_pub_key;
use crate::x25519::x25519;
use crate::Error;

verus! {

/// Where a party stands: `I` for the initiator, `R` for the responder, then
/// the number of the message that comes next.
#[derive(Debug, Clone, Copy, PartialEq, Eq)]
pub enum HandshakeState {
    I1,
    I2,
    I3,
    R1,
    R2,
    R3,
    IDone,
    RDone,
}

impl HandshakeState {
    /// Whether all three messages have passed.
    pub open spec fn is_done(self) -> bool {
        self is IDone || self is RDone
    }

    /// Whether the next message is written by this party.
    pub open spec fn writes(self) -> bool {
        self is I1 || self is R2 || self is I3
    }

    /// Whether the next message is read by this party.
    pub open spec fn reads(self) -> bool {
        self is R1 || self is I2 || self is R3
    }

    /// Whether the next message carries encrypted parts.
    pub open spec fn keyed(self) -> bool {
        !(self is I1 || self is R1)
    }

    /// The bytes that the next message adds to its payload.
    pub open spec fn spec_overhead(self) -> int {
        match self {
            HandshakeState::I1 | HandshakeState::R1 => 32,
            HandshakeState::I2 | HandshakeState::R2 => 96,
            HandshakeState::I3 | HandshakeState::R3 => 64,
            HandshakeState::IDone | HandshakeState::RDone => 0,
        }
    }

    /// The state after the next message.
    pub open spec fn successor(self) -> HandshakeState {
        match self {
            HandshakeState::I1 => HandshakeState::I2,
            HandshakeState::I2 => HandshakeState::I3,
            HandshakeState::I3 => HandshakeState::IDone,
            HandshakeState::R1 => HandshakeState::R2,
            HandshakeState::R2 => HandshakeState::R3,
            HandshakeState::R3 => HandshakeState::RDone,
            HandshakeState::IDone => HandshakeState::IDone,
            HandshakeState::RDone => HandshakeState::RDone,
        }
    }

    /// How many messages are still to pass.
    pub open spec fn messages_left(self) -> nat {
        match self {
            HandshakeState::I1 | HandshakeState::R1 => 3,
            HandshakeState::I2 | HandshakeState::R2 => 2,
            HandshakeState::I3 | HandshakeState::R3 => 1,
            HandshakeState::IDone | HandshakeState::RDone => 0,
        }
    }

    /// The bytes that the next message adds to its payload.
    pub fn overhead(&self) -> (r: usize)
        requires
            !self.is_done(),
        ensures
            r == self.spec_overhead(),
    {
        match self {
            HandshakeState::I1 | HandshakeState::R1 => 32,
            HandshakeState::I2 | HandshakeState::R2 => 96,
            _ => 64,
        }
    }

    /// Moves to the state after the next message.
    pub fn next(&mut self)
        requires
            !old(self).is_done(),
        ensures
            *final(self) == old(self).successor(),
    {
        match self {
            HandshakeState::I1 => *self = HandshakeState::I2,
            HandshakeState::I2 => *self = HandshakeState::I3,
            HandshakeState::I3 => *self = HandshakeState::IDone,
            HandshakeState::R1 => *self = HandshakeState::R2,
            HandshakeState::R2 => *self = HandshakeState::R3,
            _ => *self = HandshakeState::RDone,
        }
    }
}

/// What a written message is: the symmetric state after it and its bytes.
pub struct Written {
    pub sym: SymModel,
    pub bytes: Seq<u8>,
}

/// What a read message gives: the symmetric state after it, the peer's keys
/// as far as they are known, the payload, and the first refusal met.
pub struct Reading {
    pub sym: SymModel,
    pub re: Seq<u8>,
    pub rs: Seq<u8>,
    pub payload: Seq<u8>,
    pub err: Option<Error>,
}

/// What a handshake is.
pub struct HandshakeModel {
    pub e: Seq<u8>,
    pub s: Seq<u8>,
    pub re: Seq<u8>,
    pub rs: Seq<u8>,
    pub state: HandshakeState,
    pub sym: SymModel,
}

impl HandshakeModel {
    /// The handshake of the initiator (`init`) or the responder, before any
    /// message: the prologue is mixed into the transcript hash.
    pub open spec fn initial(init: bool, e: Seq<u8>, s: Seq<u8>, prologue: Seq<u8>) -> HandshakeModel {
        HandshakeModel {
            e,
            s,
            re: Seq::new(32, |i: int| 0u8),
            rs: Seq::new(32, |i: int| 0u8),
            state: if init { HandshakeState::I1 } else { HandshakeState::R1 },
            sym: SymModel::initial().mix_hash(prologue),
        }
    }

    /// What holds of a handshake in every state that it can reach.
    pub open spec fn wf(self) -> bool {
        &&& self.sym.has_key == (self.state is I3 || self.state is R3 || self.state.is_done())
        &&& self.sym.has_key ==> self.sym.cipher.n <= 1
        &&& self.state is I1 || self.state is I2 || self.state is R1 ==> all_zero(self.re)
        &&& !(self.state is I3 || self.state is IDone || self.state is RDone) ==> all_zero(self.rs)
    }

    /// The first message as the initiator writes it: `e`, then the payload.
    pub open spec fn written_first(self, payload: Seq<u8>) -> Written {
        let e_pub = spec_pub_key(self.e);
        let s1 = self.sym.after_write(e_pub);
        Written { sym: s1.after_write(payload), bytes: self.sym.wire(e_pub) + s1.wire(payload) }
    }

    /// The second message as the responder writes it: `e`, `ee`, `s`, `es`,
    /// then the payload.
    pub open spec fn written_second(self, payload: Seq<u8>) -> Written {
        let e_pub = spec_pub_key(self.e);
        let s_pub = spec_pub_key(self.s);
        let s1 = self.sym.after_write(e_pub).mix_key(x25519_of(self.e, self.re));
        let s2 = s1.after_write(s_pub).mix_key(x25519_of(self.s, self.re));
        Written { sym: s2.after_write(payload), bytes: self.sym.wire(e_pub) + s1.wire(s_pub) + s2.wire(payload) }
    }

    /// The third message as the initiator writes it: `s`, `se`, then the
    /// payload.
    pub open spec fn written_third(self, payload: Seq<u8>) -> Written {
        let s_pub = spec_pub_key(self.s);
        let s1 = self.sym.after_write(s_pub).mix_key(x25519_of(self.s, self.re));
        Written { sym: s1.after_write(payload), bytes: self.sym.wire(s_pub) + s1.wire(payload) }
    }

    /// Whether each part of the next written message has the length of its
    /// place on the wire: 32 bytes for a key in the clear, 48 for an encrypted
    /// key, and the payload with its tag where it is encrypted.
    pub open spec fn laid_out(self, payload: Seq<u8>) -> bool {
        let e_pub = spec_pub_key(self.e);
        let s_pub = spec_pub_key(self.s);
        match self.state {
            HandshakeState::I1 => {
                &&& self.sym.wire(e_pub).len() == 32
                &&& self.sym.after_write(e_pub).wire(payload).len() == payload.len()
            },
            HandshakeState::R2 => {
                let s1 = self.sym.after_write(e_pub).mix_key(x25519_of(self.e, self.re));
                let s2 = s1.after_write(s_pub).mix_key(x25519_of(self.s, self.re));
                &&& self.sym.wire(e_pub).len() == 32
                &&& s1.wire(s_pub).len() == 48
                &&& s2.wire(payload).len() == payload.len() + 16
            },
            HandshakeState::I3 => {
                let s1 = self.sym.after_write(s_pub).mix_key(x25519_of(self.s, self.re));
                &&& self.sym.wire(s_pub).len() == 48
                &&& s1.wire(payload).len() == payload.len() + 16
            },
            _ => true,
        }
    }

    /// The message that is written next.
    pub open spec fn written(self, payload: Seq<u8>) -> Written {
        match self.state {
            HandshakeState::I1 => self.written_first(payload),
            HandshakeState::R2 => self.written_second(payload),
            HandshakeState::I3 => self.written_third(payload),
            _ => Written { sym: self.sym, bytes: Seq::<u8>::empty() },
        }
    }

    /// Whether a Diffie-Hellman step of the next written message is refused.
    pub open spec fn write_refused(self) -> bool {
        match self.state {
            HandshakeState::R2 => dh_refused(self.e, self.re) || dh_refused(self.s, self.re),
            HandshakeState::I3 => dh_refused(self.s, self.re),
            _ => false,
        }
    }

    /// What `write_message` returns for a payload of `len` bytes and a buffer
    /// of `room` bytes.
    pub open spec fn write_result(self, len: int, room: int) -> Result<usize, Error> {
        if self.state.is_done() {
            Err(Error::NeedUpgrade)
        } else if !self.state.writes() {
            Err(Error::NotMyTurn)
        } else if room < self.state.spec_overhead() + len {
            Err(Error::Input)
        } else if self.write_refused() {
            Err(Error::Dh)
        } else {
            Ok((self.state.spec_overhead() + len) as usize)
        }
    }

    /// The handshake after a message was written.
    pub open spec fn after_write(self, payload: Seq<u8>) -> HandshakeModel {
        HandshakeModel { state: self.state.successor(), sym: self.written(payload).sym, ..self }
    }

    /// The first message as the responder reads it.
    pub open spec fn reading_first(self, message: Seq<u8>) -> Reading {
        let m_e = message.subrange(0, 32);
        let m_p = message.subrange(32, message.len() as int);
        let s1 = self.sym.after_read(m_e);
        Reading {
            sym: s1.after_read(m_p),
            re: self.sym.plain(m_e),
            rs: self.rs,
            payload: s1.plain(m_p),
            err: if !self.sym.accepts(m_e) || !s1.accepts(m_p) {
                Some(Error::Decrypt)
            } else {
                None
            },
        }
    }

    /// The second message as the initiator reads it.
    pub open spec fn reading_second(self, message: Seq<u8>) -> Reading {
        let m_e = message.subrange(0, 32);
        let m_s = message.subrange(32, 80);
        let m_p = message.subrange(80, message.len() as int);
        let re = self.sym.plain(m_e);
        let s1 = self.sym.after_read(m_e).mix_key(x25519_of(self.e, re));
        let rs = s1.plain(m_s);
        let s2 = s1.after_read(m_s).mix_key(x25519_of(self.e, rs));
        Reading {
            sym: s2.after_read(m_p),
            re,
            rs,
            payload: s2.plain(m_p),
            err: if !self.sym.accepts(m_e) {
                Some(Error::Decrypt)
            } else if dh_refused(self.e, re) {
                Some(Error::Dh)
            } else if !s1.accepts(m_s) {
                Some(Error::Decrypt)
            } else if dh_refused(self.e, rs) {
                Some(Error::Dh)
            } else if !s2.accepts(m_p) {
                Some(Error::Decrypt)
            } else {
                None
            },
        }
    }

    /// The third message as the responder reads it.
    pub open spec fn reading_third(self, message: Seq<u8>) -> Reading {
        let m_s = message.subrange(0, 48);
        let m_p = message.subrange(48, message.len() as int);
        let rs = self.sym.plain(m_s);
        let s1 = self.sym.after_read(m_s).mix_key(x25519_of(self.e, rs));
        Reading {
            sym: s1.after_read(m_p),
            re: self.re,
            rs,
            payload: s1.plain(m_p),
            err: if !self.sym.accepts(m_s) {
                Some(Error::Decrypt)
            } else if dh_refused(self.e, rs) {
                Some(Error::Dh)
            } else if !s1.accepts(m_p) {
                Some(Error::Decrypt)
            } else {
                None
            },
        }
    }

    /// Whether what the next read takes from `message` (the peer's keys, the
    /// payload) is in each place the only value with that wire form.
    pub open spec fn read_exact(self, message: Seq<u8>) -> bool {
        let len = message.len() as int;
        match self.state {
            HandshakeState::R1 => {
                let s1 = self.sym.after_read(message.subrange(0, 32));
                self.sym.reads_back(message.subrange(0, 32)) && s1.reads_back(message.subrange(32, len))
            },
            HandshakeState::I2 => {
                let re = self.sym.plain(message.subrange(0, 32));
                let s1 = self.sym.after_read(message.subrange(0, 32)).mix_key(x25519_of(self.e, re));
                let rs = s1.plain(message.subrange(32, 80));
                let s2 = s1.after_read(message.subrange(32, 80)).mix_key(x25519_of(self.e, rs));
                &&& self.sym.reads_back(message.subrange(0, 32))
                &&& s1.reads_back(message.subrange(32, 80))
                &&& s2.reads_back(message.subrange(80, len))
            },
            HandshakeState::R3 => {
                let rs = self.sym.plain(message.subrange(0, 48));
                let s1 = self.sym.after_read(message.subrange(0, 48)).mix_key(x25519_of(self.e, rs));
                self.sym.reads_back(message.subrange(0, 48)) && s1.reads_back(message.subrange(48, len))
            },
            _ => true,
        }
    }

    /// The message that is read next.
    pub open spec fn reading(self, message: Seq<u8>) -> Reading {
        match self.state {
            HandshakeState::R1 => self.reading_first(message),
            HandshakeState::I2 => self.reading_second(message),
            HandshakeState::R3 => self.reading_third(message),
            _ => Reading { sym: self.sym, re: self.re, rs: self.rs, payload: Seq::<u8>::empty(), err: None },
        }
    }

    /// What `read_message` returns for `message` and a payload buffer of
    /// `room` bytes.
    pub open spec fn read_result(self, message: Seq<u8>, room: int) -> Result<usize, Error> {
        if self.state.is_done() {
            Err(Error::NeedUpgrade)
        } else if !self.state.reads() {
            Err(Error::NotMyTurn)
        } else if message.len() < self.state.spec_overhead() || room < message.len() - self.state.spec_overhead() {
            Err(Error::Input)
        } else if self.reading(message).err is Some {
            Err(self.reading(message).err->Some_0)
        } else {
            Ok((message.len() - self.state.spec_overhead()) as usize)
        }
    }

    /// The handshake after a message was read.
    pub open spec fn after_read(self, message: Seq<u8>) -> HandshakeModel {
        let r = self.reading(message);
        HandshakeModel { state: self.state.successor(), sym: r.sym, re: r.re, rs: r.rs, ..self }
    }

    /// The transport that `upgrade` gives: the initiator sends with the first
    /// of the split cipher states, the responder with the second.
    pub open spec fn transport(self) -> TransportModel {
        let (c1, c2) = self.sym.split();
        if self.state is IDone {
            TransportModel { rs: self.rs, send: c1, recv: c2 }
        } else {
            TransportModel { rs: self.rs, send: c2, recv: c1 }
        }
    }
}

/// One party's side of a handshake: its own ephemeral and static secrets,
/// the peer's public keys (zero until the message that brings them), the
/// state, and the symmetric state.
pub struct Handshake {
    e: [u8; DH_LEN],
    s: [u8; DH_LEN],
    re: [u8; DH_LEN],
    rs: [u8; DH_LEN],
    state: HandshakeState,
    sym: SymmetricState,
}

impl View for Handshake {
    type V = HandshakeModel;

    closed spec fn view(&self) -> HandshakeModel {
        HandshakeModel {
            e: self.e@,
            s: self.s@,
            re: self.re@,
            rs: self.rs@,
            state: self.state,
            sym: self.sym@,
        }
    }
}

impl Handshake {
    /// A handshake for the initiator (`init`) or the responder, with the
    /// ephemeral secret `e`, the static secret `s` and the agreed prologue.
    pub fn new(init: bool, e: [u8; 32], s: [u8; 32], prologue: &[u8]) -> (r: Self)
        ensures
            r@ == HandshakeModel::initial(init, e@, s@, prologue@),
            r@.wf(),
    {
        let mut sym = SymmetricState::new();
        sym.mix_hash(prologue);
        let zero = [0u8; 32];
        assert(zero@ =~= Seq::new(32, |i: int| 0u8));
        Self {
            e,
            s,
            re: zero,
            rs: zero,
            state: if init { HandshakeState::I1 } else { HandshakeState::R1 },
            sym,
        }
    }

    /// A handshake for the initiator.
    pub fn init(e: [u8; 32], s: [u8; 32], prologue: &[u8]) -> (r: Self)
        ensures
            r@ == HandshakeModel::initial(true, e@, s@, prologue@),
            r@.wf(),
    {
        Self::new(true, e, s, prologue)
    }

    /// A handshake for the responder.
    pub fn resp(e: [u8; 32], s: [u8; 32], prologue: &[u8]) -> (r: Self)
        ensures
            r@ == HandshakeModel::initial(false, e@, s@, prologue@),
            r@.wf(),
    {
        Self::new(false, e, s, prologue)
    }

    /// The state of the handshake.
    pub fn state(&self) -> (r: HandshakeState)
        ensures
            r == self@.state,
    {
        self.state
    }

    /// The transcript hash so far.
    pub fn hash(&self) -> (r: [u8; 32])
        ensures
            r@ == self@.sym.h,
    {
        self.sym.hash()
    }

    /// Writes the first message into `message`.
    fn write_first(&self, payload: &[u8], message: &mut [u8]) -> (sym: SymmetricState)
        requires
            self@.wf(),
            self@.state is I1,
            old(message)@.len() >= 32 + payload@.len(),
        ensures
            self@.laid_out(payload@),
            sym@ == self@.written_first(payload@).sym,
            final(message)@ == splice(old(message)@, 0, self@.written_first(payload@).bytes),
    {
        let mut sym = self.sym;
        let e_pub = pub_key(self.e);
        let r1 = sym.encrypt_and_hash(e_pub.as_slice(), message, 0);
        let r2 = sym.encrypt_and_hash(payload, message, 32);
        assert(r1 is Ok && r2 is Ok);
        assert(message@ =~= splice(old(message)@, 0, self@.written_first(payload@).bytes));
        sym
    }

    /// Writes the second message into `message`, unless a Diffie-Hellman
    /// step is refused.
    fn write_second(&self, payload: &[u8], message: &mut [u8]) -> (res: Result<SymmetricState, Error>)
        requires
            self@.wf(),
            self@.state is R2,
            payload@.len() < AEAD_LIMIT,
            old(message)@.len() >= 96 + payload@.len(),
        ensures
            self@.write_refused() ==> res == Err::<SymmetricState, Error>(Error::Dh) && final(message)@ == old(
                message,
            )@,
            !self@.write_refused() ==> {
                &&& res is Ok
                &&& self@.laid_out(payload@)
                &&& res->Ok_0@ == self@.written_second(payload@).sym
                &&& res->Ok_0@.has_key
                &&& res->Ok_0@.cipher.n == 1
                &&& final(message)@ == splice(old(message)@, 0, self@.written_second(payload@).bytes)
            },
    {
        let ee = match x25519(self.e, self.re) {
            Ok(v) => v,
            Err(e) => {
                return Err(e);
            },
        };
        let es = match x25519(self.s, self.re) {
            Ok(v) => v,
            Err(e) => {
                return Err(e);
            },
        };
        let mut sym = self.sym;
        let e_pub = pub_key(self.e);
        let r1 = sym.encrypt_and_hash(e_pub.as_slice(), message, 0);
        sym.mix_key(ee.as_slice());
        let s_pub = pub_key(self.s);
        let r2 = sym.encrypt_and_hash(s_pub.as_slice(), message, 32);
        sym.mix_key(es.as_slice());
        let r3 = sym.encrypt_and_hash(payload, message, 80);
        assert(r1 is Ok && r2 is Ok && r3 is Ok);
        assert(message@ =~= splice(old(message)@, 0, self@.written_second(payload@).bytes));
        Ok(sym)
    }

    /// Writes the third message into `message`, unless the Diffie-Hellman
    /// step is refused.
    fn write_third(&self, payload: &[u8], message: &mut [u8]) -> (res: Result<SymmetricState, Error>)
        requires
            self@.wf(),
            self@.state is I3,
            payload@.len() < AEAD_LIMIT,
            old(message)@.len() >= 64 + payload@.len(),
        ensures
            self@.write_refused() ==> res == Err::<SymmetricState, Error>(Error::Dh) && final(message)@ == old(
                message,
            )@,
            !self@.write_refused() ==> {
                &&& res is Ok
                &&& self@.laid_out(payload@)
                &&& res->Ok_0@ == self@.written_third(payload@).sym
                &&& res->Ok_0@.has_key
                &&& res->Ok_0@.cipher.n == 1
                &&& final(message)@ == splice(old(message)@, 0, self@.written_third(payload@).bytes)
            },
    {
        let se = match x25519(self.s, self.re) {
            Ok(v) => v,
            Err(e) => {
                return Err(e);
            },
        };
        let mut sym = self.sym;
        let s_pub = pub_key(self.s);
        let r1 = sym.encrypt_and_hash(s_pub.as_slice(), message, 0);
        sym.mix_key(se.as_slice());
        let r2 = sym.encrypt_and_hash(payload, message, 48);
        assert(r1 is Ok && r2 is Ok);
        assert(message@ =~= splice(old(message)@, 0, self@.written_third(payload@).bytes));
        Ok(sym)
    }

    /// Writes the next handshake message, with `payload`, into `message` and
    /// returns its length. A refusal changes neither the handshake nor the
    /// buffer.
    pub fn write_message(&mut self, payload: &[u8], message: &mut [u8]) -> (res: Result<usize, Error>)
        requires
            old(self)@.wf(),
            old(self)@.state.writes() && old(self)@.state.keyed() ==> payload@.len() < AEAD_LIMIT,
        ensures
            final(self)@.wf(),
            res == old(self)@.write_result(payload@.len() as int, old(message)@.len() as int),
            res is Ok ==> {
                &&& final(self)@ == old(self)@.after_write(payload@)
                &&& final(message)@ == splice(old(message)@, 0, old(self)@.written(payload@).bytes)
                &&& old(self)@.written(payload@).bytes.len() == res->Ok_0
                &&& old(self)@.laid_out(payload@)
            },
            res is Err ==> final(self)@ == old(self)@ && final(message)@ == old(message)@,
    {
        match self.state {
            HandshakeState::IDone | HandshakeState::RDone => {
                return Err(Error::NeedUpgrade);
            },
            HandshakeState::R1 | HandshakeState::I2 | HandshakeState::R3 => {
                return Err(Error::NotMyTurn);
            },
            _ => {},
        }
        let overhead = self.state.overhead();
        if message.len() < overhead || message.len() - overhead < payload.len() {
            return Err(Error::Input);
        }
        let sym = match self.state {
            HandshakeState::I1 => self.write_first(payload, message),
            HandshakeState::R2 => match self.write_second(payload, message) {
                Ok(sym) => sym,
                Err(e) => {
                    return Err(e);
                },
            },
            _ => match self.write_third(payload, message) {
                Ok(sym) => sym,
                Err(e) => {
                    return Err(e);
                },
            },
        };
        self.sym = sym;
        self.state.next();
        Ok(overhead + payload.len())
    }

    /// Reads the first message: the peer's ephemeral key, then the payload.
    fn read_first(&self, message: &[u8], payload: &mut [u8]) -> (r: (SymmetricState, [u8; 32]))
        requires
            self@.wf(),
            self@.state is R1,
            message@.len() >= 32,
            old(payload)@.len() >= message@.len() - 32,
        ensures
            self@.reading_first(message@).err is None,
            self@.read_exact(message@),
            r.0@ == self@.reading_first(message@).sym,
            r.1@ == self@.reading_first(message@).re,
            final(payload)@ == splice(old(payload)@, 0, self@.reading_first(message@).payload),
            self@.reading_first(message@).payload.len() == message@.len() - 32,
    {
        let m_e = vstd::slice::slice_subrange(message, 0, 32);
        let m_p = vstd::slice::slice_subrange(message, 32, message.len());
        let mut sym = self.sym;
        let mut re = [0u8; 32];
        let r1 = sym.decrypt_and_hash(m_e, &mut re, 0);
        let r2 = sym.decrypt_and_hash(m_p, payload, 0);
        assert(r1 is Ok && r2 is Ok);
        assert(re@ =~= self@.reading_first(message@).re);
        (sym, re)
    }

    /// Reads the second message: the peer's ephemeral key, its encrypted
    /// static key, then the payload.
    fn read_second(&self, message: &[u8], payload: &mut [u8]) -> (res: Result<
        (SymmetricState, [u8; 32], [u8; 32]),
        Error,
    >)
        requires
            self@.wf(),
            self@.state is I2,
            message@.len() >= 96,
            old(payload)@.len() >= message@.len() - 96,
        ensures
            final(payload)@.len() == old(payload)@.len(),
            res is Err && !(res->Err_0 is Decrypt) ==> final(payload)@ == old(payload)@,
            self@.reading_second(message@).err is Some ==> res is Err && res->Err_0 == self@.reading_second(
                message@,
            ).err->Some_0,
            self@.reading_second(message@).err is None ==> {
                &&& res is Ok
                &&& self@.read_exact(message@)
                &&& res->Ok_0.0@ == self@.reading_second(message@).sym
                &&& res->Ok_0.0@.has_key
                &&& res->Ok_0.0@.cipher.n == 1
                &&& res->Ok_0.1@ == self@.reading_second(message@).re
                &&& res->Ok_0.2@ == self@.reading_second(message@).rs
                &&& final(payload)@ == splice(old(payload)@, 0, self@.reading_second(message@).payload)
                &&& self@.reading_second(message@).payload.len() == message@.len() - 96
            },
    {
        let m_e = vstd::slice::slice_subrange(message, 0, 32);
        let m_s = vstd::slice::slice_subrange(message, 32, 80);
        let m_p = vstd::slice::slice_subrange(message, 80, message.len());
        let mut sym = self.sym;
        let mut re = [0u8; 32];
        let r1 = sym.decrypt_and_hash(m_e, &mut re, 0);
        assert(r1 is Ok);
        assert(re@ =~= self@.reading_second(message@).re);
        let ee = match x25519(self.e, re) {
            Ok(v) => v,
            Err(e) => {
                return Err(e);
            },
        };
        sym.mix_key(ee.as_slice());
        let mut rs = [0u8; 32];
        match sym.decrypt_and_hash(m_s, &mut rs, 0) {
            Ok(_) => {},
            Err(e) => {
                return Err(e);
            },
        }
        assert(rs@ =~= self@.reading_second(message@).rs);
        let es = match x25519(self.e, rs) {
            Ok(v) => v,
            Err(e) => {
                return Err(e);
            },
        };
        sym.mix_key(es.as_slice());
        match sym.decrypt_and_hash(m_p, payload, 0) {
            Ok(_) => {},
            Err(e) => {
                return Err(e);
            },
        }
        Ok((sym, re, rs))
    }

    /// Reads the third message: the peer's encrypted static key, then the
    /// payload.
    fn read_third(&self, message: &[u8], payload: &mut [u8]) -> (res: Result<(SymmetricState, [u8; 32]), Error>)
        requires
            self@.wf(),
            self@.state is R3,
            message@.len() >= 64,
            old(payload)@.len() >= message@.len() - 64,
        ensures
            final(payload)@.len() == old(payload)@.len(),
            res is Err && !(res->Err_0 is Decrypt) ==> final(payload)@ == old(payload)@,
            self@.reading_third(message@).err is Some ==> res is Err && res->Err_0 == self@.reading_third(
                message@,
            ).err->Some_0,
            self@.reading_third(message@).err is None ==> {
                &&& res is Ok
                &&& self@.read_exact(message@)
                &&& res->Ok_0.0@ == self@.reading_third(message@).sym
                &&& res->Ok_0.0@.has_key
                &&& res->Ok_0.0@.cipher.n == 1
                &&& res->Ok_0.1@ == self@.reading_third(message@).rs
                &&& final(payload)@ == splice(old(payload)@, 0, self@.reading_third(message@).payload)
                &&& self@.reading_third(message@).payload.len() == message@.len() - 64
            },
    {
        let m_s = vstd::slice::slice_subrange(message, 0, 48);
        let m_p = vstd::slice::slice_subrange(message, 48, message.len());
        let mut sym = self.sym;
        let mut rs = [0u8; 32];
        match sym.decrypt_and_hash(m_s, &mut rs, 0) {
            Ok(_) => {},
            Err(e) => {
                return Err(e);
            },
        }
        assert(rs@ =~= self@.reading_third(message@).rs);
        let se = match x25519(self.e, rs) {
            Ok(v) => v,
            Err(e) => {
                return Err(e);
            },
        };
        sym.mix_key(se.as_slice());
        match sym.decrypt_and_hash(m_p, payload, 0) {
            Ok(_) => {},
            Err(e) => {
                return Err(e);
            },
        }
        Ok((sym, rs))
    }

    /// Reads the next handshake message from `message`, writes its payload
    /// into `payload` and returns the payload's length. A refusal leaves the
    /// handshake as it was.
    pub fn read_message(&mut self, message: &[u8], payload: &mut [u8]) -> (res: Result<usize, Error>)
        requires
            old(self)@.wf(),
        ensures
            final(self)@.wf(),
            final(payload)@.len() == old(payload)@.len(),
            res == old(self)@.read_result(message@, old(payload)@.len() as int),
            res is Ok ==> {
                &&& final(self)@ == old(self)@.after_read(message@)
                &&& final(payload)@ == splice(old(payload)@, 0, old(self)@.reading(message@).payload)
                &&& old(self)@.reading(message@).payload.len() == res->Ok_0
                &&& old(self)@.read_exact(message@)
            },
            res is Err ==> final(self)@ == old(self)@,
            res is Err && !(res->Err_0 is Decrypt) ==> final(payload)@ == old(payload)@,
    {
        match self.state {
            HandshakeState::IDone | HandshakeState::RDone => {
                return Err(Error::NeedUpgrade);
            },
            HandshakeState::I1 | HandshakeState::R2 | HandshakeState::I3 => {
                return Err(Error::NotMyTurn);
            },
            _ => {},
        }
        let overhead = self.state.overhead();
        if message.len() < overhead || payload.len() < message.len() - overhead {
            return Err(Error::Input);
        }
        match self.state {
            HandshakeState::R1 => {
                let (sym, re) = self.read_first(message, payload);
                self.sym = sym;
                self.re = re;
            },
            HandshakeState::I2 => match self.read_second(message, payload) {
                Ok((sym, re, rs)) => {
                    self.sym = sym;
                    self.re = re;
                    self.rs = rs;
                },
                Err(e) => {
                    return Err(e);
                },
            },
            _ => match self.read_third(message, payload) {
                Ok((sym, rs)) => {
                    self.sym = sym;
                    self.rs = rs;
                },
                Err(e) => {
                    return Err(e);
                },
            },
        }
        self.state.next();
        Ok(message.len() - overhead)
    }

    /// The transport of a completed handshake; `NotMyTurn` before that.
    pub fn upgrade(self) -> (res: Result<Transport, Error>)
        ensures
            !self@.state.is_done() ==> res == Err::<Transport, Error>(Error::NotMyTurn),
            self@.state.is_done() ==> res is Ok && res->Ok_0@ == self@.transport(),
    {
        match self.state {
            HandshakeState::IDone => {
                let (c1, c2) = self.sym.split();
                Ok(Transport::from_parts(self.rs, c1, c2))
            },
            HandshakeState::RDone => {
                let (c1, c2) = self.sym.split();
                Ok(Transport::from_parts(self.rs, c2, c1))
            },
            _ => Err(Error::NotMyTurn),
        }
    }
}

} // verus!
