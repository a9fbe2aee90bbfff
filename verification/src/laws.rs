//! What holds of the handshake and the transport as a whole.

use vstd::prelude::*;
use crate::cipher_state::decrypt_result;
use crate::handshake::HandshakeModel;
use crate::handshake::HandshakeState;
use crate::primitives::x25519_of;
use crate::primitives::AEAD_LIMIT;
use crate::primitives::TAG_LEN;
use crate::transport::TransportModel;
use crate::x25519::spec_pub_key;
use crate::Error;

verus! {

/// Every role starts three messages from the end, each state accepts exactly
/// one direction, the direction alternates from message to message, each
/// accepted message is one step towards the end, and only at the end is an
/// upgrade valid.
pub proof fn lemma_turn_taking(s: HandshakeState)
    ensures
        HandshakeState::I1.messages_left() == 3 && HandshakeState::I1.writes(),
        HandshakeState::R1.messages_left() == 3 && HandshakeState::R1.reads(),
        s.is_done() <==> s.messages_left() == 0,
        s.is_done() ==> !s.writes() && !s.reads(),
        !s.is_done() ==> s.writes() != s.reads(),
        !s.is_done() ==> s.successor().messages_left() + 1 == s.messages_left(),
        !s.is_done() && !s.successor().is_done() ==> s.successor().writes() == s.reads(),
{
}

/// A handshake accepts a write or a read only in the direction of its state,
/// and the message that it accepts takes it to the next state.
pub proof fn lemma_accepted_messages_advance(h: HandshakeModel, payload: Seq<u8>, message: Seq<u8>, room: int)
    ensures
        h.write_result(payload.len() as int, room) is Ok ==> h.state.writes() && h.after_write(payload).state
            == h.state.successor(),
        h.read_result(message, room) is Ok ==> h.state.reads() && h.after_read(message).state
            == h.state.successor(),
        h.state.is_done() ==> h.write_result(payload.len() as int, room) == Err::<usize, Error>(
            Error::NeedUpgrade,
        ) && h.read_result(message, room) == Err::<usize, Error>(Error::NeedUpgrade),
        !h.state.is_done() && !h.state.writes() ==> h.write_result(payload.len() as int, room) == Err::<
            usize,
            Error,
        >(Error::NotMyTurn),
        !h.state.is_done() && !h.state.reads() ==> h.read_result(message, room) == Err::<usize, Error>(
            Error::NotMyTurn,
        ),
{
}

/// Once a Diffie-Hellman step of the message to write is refused, every
/// write is refused, whatever the payload and the buffer, and so is every
/// read: the handshake cannot go on.
pub proof fn lemma_refused_write_stays_refused(
    h: HandshakeModel,
    payload: Seq<u8>,
    room: int,
    message: Seq<u8>,
    other_room: int,
)
    requires
        h.state.writes(),
        h.write_refused(),
    ensures
        room >= h.state.spec_overhead() + payload.len() ==> h.write_result(payload.len() as int, room) == Err::<
            usize,
            Error,
        >(Error::Dh),
        h.write_result(payload.len() as int, room) is Err,
        h.read_result(message, other_room) is Err,
{
}

/// Once a Diffie-Hellman step of a message to read is refused, reading that
/// message is refused whatever the payload buffer, with `Dh` where the buffer
/// is long enough, and every write is refused.
pub proof fn lemma_refused_read_stays_refused(
    h: HandshakeModel,
    message: Seq<u8>,
    room: int,
    payload: Seq<u8>,
    other_room: int,
)
    requires
        h.state.reads(),
        message.len() >= h.state.spec_overhead(),
        h.reading(message).err == Some(Error::Dh),
    ensures
        room >= message.len() - h.state.spec_overhead() ==> h.read_result(message, room) == Err::<usize, Error>(
            Error::Dh,
        ),
        h.read_result(message, room) is Err,
        h.write_result(payload.len() as int, other_room) is Err,
{
}

/// Whether X25519 gives both holders of the secrets `a` and `b` the same
/// value from the other's public key.
pub open spec fn dh_agrees(a: Seq<u8>, b: Seq<u8>) -> bool {
    x25519_of(a, spec_pub_key(b)) == x25519_of(b, spec_pub_key(a))
}

/// The state in which the peer of a writer in state `s` reads.
pub open spec fn reader_of(s: HandshakeState) -> HandshakeState {
    match s {
        HandshakeState::I1 => HandshakeState::R1,
        HandshakeState::R2 => HandshakeState::I2,
        HandshakeState::I3 => HandshakeState::R3,
        other => other,
    }
}

/// What the two calls establish when `a` has written a message with `payload`
/// and `b` has read it: the writer was in turn and met no refusal, the parts
/// of the message have their lengths, and what the reader took from it is in
/// each place the only value with that wire form.
pub open spec fn exchanged(a: HandshakeModel, b: HandshakeModel, payload: Seq<u8>) -> bool {
    let wire = a.written(payload).bytes;
    &&& a.wf()
    &&& b.wf()
    &&& a.state.writes()
    &&& b.state == reader_of(a.state)
    &&& a.state.keyed() ==> payload.len() < AEAD_LIMIT
    &&& !a.write_refused()
    &&& a.laid_out(payload)
    &&& b.read_exact(wire)
}

/// One message keeps the two parties in step. Where writer and reader hold
/// the same symmetric state, the writer knows the reader's ephemeral key from
/// the second message on, and X25519 agrees on the keys that the message
/// mixes in, the reader accepts the message, gets the payload that was
/// written and the writer's public keys, and both hold the same symmetric
/// state afterwards.
pub proof fn lemma_message_agreement(a: HandshakeModel, b: HandshakeModel, payload: Seq<u8>)
    requires
        exchanged(a, b, payload),
        a.sym == b.sym,
        a.state is R2 ==> a.re == spec_pub_key(b.e) && dh_agrees(a.e, b.e) && dh_agrees(a.s, b.e),
        a.state is I3 ==> a.re == spec_pub_key(b.e) && dh_agrees(a.s, b.e),
    ensures
        b.reading(a.written(payload).bytes).err is None,
        b.reading(a.written(payload).bytes).payload == payload,
        a.after_write(payload).sym == b.after_read(a.written(payload).bytes).sym,
        a.state is I1 || a.state is R2 ==> b.after_read(a.written(payload).bytes).re == spec_pub_key(a.e),
        a.state is R2 || a.state is I3 ==> b.after_read(a.written(payload).bytes).rs == spec_pub_key(a.s),
        a.state is I3 ==> b.after_read(a.written(payload).bytes).re == b.re,
        a.after_write(payload).wf(),
        b.after_read(a.written(payload).bytes).wf(),
{
    let wire = a.written(payload).bytes;
    let e_pub = spec_pub_key(a.e);
    let s_pub = spec_pub_key(a.s);
    let len = wire.len() as int;
    match a.state {
        HandshakeState::I1 => {
            assert(wire.subrange(0, 32) =~= e_pub);
            assert(wire.subrange(32, len) =~= payload);
        },
        HandshakeState::R2 => {
            let s1 = a.sym.after_write(e_pub).mix_key(x25519_of(a.e, a.re));
            let s2 = s1.after_write(s_pub).mix_key(x25519_of(a.s, a.re));
            assert(wire.subrange(0, 32) =~= e_pub);
            assert(wire.subrange(32, 80) =~= s1.wire(s_pub));
            assert(wire.subrange(80, len) =~= s2.wire(payload));
        },
        HandshakeState::I3 => {
            let s1 = a.sym.after_write(s_pub).mix_key(x25519_of(a.s, a.re));
            assert(wire.subrange(0, 48) =~= a.sym.wire(s_pub));
            assert(wire.subrange(48, len) =~= s1.wire(payload));
        },
        _ => {},
    }
}

/// The states of both parties from the start to the end of a handshake in
/// which every message that one writes is read by the other.
pub struct Run {
    pub i0: HandshakeModel,
    pub r0: HandshakeModel,
    pub i1: HandshakeModel,
    pub r1: HandshakeModel,
    pub i2: HandshakeModel,
    pub r2: HandshakeModel,
    pub i3: HandshakeModel,
    pub r3: HandshakeModel,
}

/// The run of an initiator with the secrets `ei`, `si` and a responder with
/// the secrets `er`, `sr` over one prologue, with the payloads `p1`, `p2`, `p3`.
pub open spec fn run_of(
    ei: Seq<u8>,
    si: Seq<u8>,
    er: Seq<u8>,
    sr: Seq<u8>,
    prologue: Seq<u8>,
    p1: Seq<u8>,
    p2: Seq<u8>,
    p3: Seq<u8>,
) -> Run {
    let i0 = HandshakeModel::initial(true, ei, si, prologue);
    let r0 = HandshakeModel::initial(false, er, sr, prologue);
    let i1 = i0.after_write(p1);
    let r1 = r0.after_read(i0.written(p1).bytes);
    let r2 = r1.after_write(p2);
    let i2 = i1.after_read(r1.written(p2).bytes);
    let i3 = i2.after_write(p3);
    let r3 = r2.after_read(i2.written(p3).bytes);
    Run { i0, r0, i1, r1, i2, r2, i3, r3 }
}

/// Transcript agreement. After three messages, each written by one party and
/// read by the other, both hold the same transcript hash and the same
/// chaining key, each knows the other's public keys, each payload arrived as
/// it was sent, and the transports of the two are coupled: what one sends
/// with, the other receives with. This rests on X25519 agreeing for the three
/// pairs of secrets that the pattern combines.
pub proof fn lemma_transcript_agreement(
    ei: Seq<u8>,
    si: Seq<u8>,
    er: Seq<u8>,
    sr: Seq<u8>,
    prologue: Seq<u8>,
    p1: Seq<u8>,
    p2: Seq<u8>,
    p3: Seq<u8>,
)
    requires
        dh_agrees(ei, er),
        dh_agrees(ei, sr),
        dh_agrees(si, er),
        exchanged(run_of(ei, si, er, sr, prologue, p1, p2, p3).i0, run_of(ei, si, er, sr, prologue, p1, p2, p3).r0, p1),
        exchanged(run_of(ei, si, er, sr, prologue, p1, p2, p3).r1, run_of(ei, si, er, sr, prologue, p1, p2, p3).i1, p2),
        exchanged(run_of(ei, si, er, sr, prologue, p1, p2, p3).i2, run_of(ei, si, er, sr, prologue, p1, p2, p3).r2, p3),
    ensures
        ({
            let run = run_of(ei, si, er, sr, prologue, p1, p2, p3);
            &&& run.i3.state is IDone
            &&& run.r3.state is RDone
            &&& run.i3.sym.h == run.r3.sym.h
            &&& run.i3.sym.ck == run.r3.sym.ck
            &&& run.i3.rs == spec_pub_key(sr)
            &&& run.r3.rs == spec_pub_key(si)
            &&& run.r0.reading(run.i0.written(p1).bytes).payload == p1
            &&& run.i1.reading(run.r1.written(p2).bytes).payload == p2
            &&& run.r2.reading(run.i2.written(p3).bytes).payload == p3
            &&& run.i3.transport().send == run.r3.transport().recv
            &&& run.i3.transport().recv == run.r3.transport().send
        }),
{
    let run = run_of(ei, si, er, sr, prologue, p1, p2, p3);
    lemma_message_agreement(run.i0, run.r0, p1);
    lemma_message_agreement(run.r1, run.i1, p2);
    lemma_message_agreement(run.i2, run.r2, p3);
}

/// The transports of two parties that completed a handshake with the same
/// chaining key are coupled: the initiator sends with the cipher state that
/// the responder receives with, and the other way round.
pub proof fn lemma_upgrade_couples(i: HandshakeModel, r: HandshakeModel)
    requires
        i.state is IDone,
        r.state is RDone,
        i.sym.ck == r.sym.ck,
    ensures
        i.transport().send == r.transport().recv,
        i.transport().recv == r.transport().send,
        i.transport().send.n == 0 && i.transport().recv.n == 0,
        i.transport().rs == i.rs && r.transport().rs == r.rs,
{
}

/// Direction coupling. What one side writes with a cipher state, the other
/// side, receiving with the same cipher state, accepts where its buffer has
/// room; and as the plaintext that it gives is the only one with that sealed
/// form, it is the plaintext that was written.
pub proof fn lemma_direction_coupling(w: TransportModel, r: TransportModel, m: Seq<u8>, room: int)
    requires
        w.send == r.recv,
        m.len() < AEAD_LIMIT,
        w.send.sealed(Seq::<u8>::empty(), m).len() == m.len() + TAG_LEN,
        room >= m.len(),
    ensures
        decrypt_result(r.recv, Seq::<u8>::empty(), w.send.sealed(Seq::<u8>::empty(), m), room, 0) == Ok::<
            usize,
            Error,
        >(m.len() as usize),
        r.recv.reads_back(Seq::<u8>::empty(), w.send.sealed(Seq::<u8>::empty(), m)) ==> r.recv.opened(
            Seq::<u8>::empty(),
            w.send.sealed(Seq::<u8>::empty(), m),
        ) == m,
{
}

} // verus!
