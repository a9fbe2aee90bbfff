use blake2::Digest;
use chacha20poly1305::aead::AeadInPlace;
use chacha20poly1305::aead::NewAead;
use noise_xx::cipher_state::nonce_bytes;
use noise_xx::symmetric_state::PRE_H_NAME;
use noise_xx::x25519::pub_key;
use noise_xx::x25519::x25519;
use noise_xx::CipherState;
use noise_xx::Error;
use noise_xx::Handshake;
use noise_xx::HandshakeState;
use noise_xx::SymmetricState;
use noise_xx::Transport;

fn pair() -> (Handshake, Handshake) {
    (Handshake::init([0u8; 32], [1u8; 32], &[]), Handshake::resp([2u8; 32], [3u8; 32], &[]))
}

fn completed() -> (Handshake, Handshake) {
    let (mut init, mut resp) = pair();
    let mut wire = [0u8; 128];
    let mut out = [0u8; 128];
    let n = init.write_message(b"msg", &mut wire).unwrap();
    assert_eq!(resp.read_message(&wire[..n], &mut out).unwrap(), 3);
    let n = resp.write_message(b"msg", &mut wire).unwrap();
    assert_eq!(init.read_message(&wire[..n], &mut out).unwrap(), 3);
    let n = init.write_message(b"msg", &mut wire).unwrap();
    assert_eq!(resp.read_message(&wire[..n], &mut out).unwrap(), 3);
    (init, resp)
}

#[test]
fn happy_path() {
    let (init, resp) = completed();
    let mut init = init.upgrade().unwrap();
    let mut resp = resp.upgrade().unwrap();
    let mut wire = [0u8; 64];
    let mut out = [0u8; 64];
    let n = init.write_message(b"hello", &mut wire).unwrap();
    assert_eq!(n, 21);
    let n = resp.read_message(&wire[..n], &mut out).unwrap();
    assert_eq!(&out[..n], b"hello");
}

#[test]
fn message_lengths_follow_the_overhead() {
    let (mut init, mut resp) = pair();
    let mut wire = [0u8; 128];
    let mut out = [0u8; 128];
    let n = init.write_message(b"abcd", &mut wire).unwrap();
    assert_eq!(n, 36);
    assert_eq!(&wire[..32], &pub_key([0u8; 32]));
    assert_eq!(&wire[32..36], b"abcd");
    assert_eq!(resp.read_message(&wire[..n], &mut out).unwrap(), 4);
    assert_eq!(&out[..4], b"abcd");
    let n = resp.write_message(b"abcd", &mut wire).unwrap();
    assert_eq!(n, 100);
    assert_eq!(&wire[..32], &pub_key([2u8; 32]));
    assert_eq!(init.read_message(&wire[..n], &mut out).unwrap(), 4);
    let n = init.write_message(b"abcd", &mut wire).unwrap();
    assert_eq!(n, 68);
    assert_eq!(resp.read_message(&wire[..n], &mut out).unwrap(), 4);
}

#[test]
fn overhead_of_each_state() {
    assert_eq!(HandshakeState::I1.overhead(), 32);
    assert_eq!(HandshakeState::R1.overhead(), 32);
    assert_eq!(HandshakeState::I2.overhead(), 96);
    assert_eq!(HandshakeState::R2.overhead(), 96);
    assert_eq!(HandshakeState::I3.overhead(), 64);
    assert_eq!(HandshakeState::R3.overhead(), 64);
}

#[test]
fn next_is_linear() {
    let mut s = HandshakeState::I1;
    s.next();
    assert_eq!(s, HandshakeState::I2);
    s.next();
    assert_eq!(s, HandshakeState::I3);
    s.next();
    assert_eq!(s, HandshakeState::IDone);
    let mut s = HandshakeState::R1;
    s.next();
    assert_eq!(s, HandshakeState::R2);
    s.next();
    assert_eq!(s, HandshakeState::R3);
    s.next();
    assert_eq!(s, HandshakeState::RDone);
}

#[test]
fn turn_taking() {
    let (mut init, mut resp) = pair();
    let mut wire = [0u8; 128];
    let mut out = [0u8; 128];
    assert_eq!(init.state(), HandshakeState::I1);
    assert_eq!(resp.state(), HandshakeState::R1);
    assert_eq!(resp.write_message(b"x", &mut wire), Err(Error::NotMyTurn));
    let n = init.write_message(b"x", &mut wire).unwrap();
    assert_eq!(init.write_message(b"x", &mut out), Err(Error::NotMyTurn));
    resp.read_message(&wire[..n], &mut out).unwrap();
    assert_eq!(resp.read_message(&wire[..n], &mut out), Err(Error::NotMyTurn));
    let n = resp.write_message(b"x", &mut wire).unwrap();
    init.read_message(&wire[..n], &mut out).unwrap();
    assert_eq!(init.state(), HandshakeState::I3);
    assert_eq!(resp.state(), HandshakeState::R3);
    assert_eq!(init.read_message(&wire[..n], &mut out), Err(Error::NotMyTurn));
    let n = init.write_message(b"x", &mut wire).unwrap();
    resp.read_message(&wire[..n], &mut out).unwrap();
    assert_eq!(init.state(), HandshakeState::IDone);
    assert_eq!(resp.state(), HandshakeState::RDone);
    assert_eq!(init.write_message(b"x", &mut wire), Err(Error::NeedUpgrade));
    assert_eq!(init.read_message(&wire[..n], &mut out), Err(Error::NeedUpgrade));
    assert_eq!(resp.write_message(b"x", &mut wire), Err(Error::NeedUpgrade));
    assert_eq!(resp.read_message(&wire[..n], &mut out), Err(Error::NeedUpgrade));
    assert!(init.upgrade().is_ok());
    assert!(resp.upgrade().is_ok());
}

#[test]
fn wrong_turn() {
    let mut init = Handshake::init([0u8; 32], [1u8; 32], &[]);
    let mut fresh = Handshake::init([0u8; 32], [1u8; 32], &[]);
    let mut out = [0u8; 64];
    assert_eq!(init.read_message(&[0u8; 40], &mut out), Err(Error::NotMyTurn));
    assert_eq!(init.read_message(&[], &mut out), Err(Error::NotMyTurn));
    assert_eq!(init.state(), HandshakeState::I1);
    let mut a = [0u8; 64];
    let mut b = [0u8; 64];
    let la = init.write_message(b"msg", &mut a).unwrap();
    let lb = fresh.write_message(b"msg", &mut b).unwrap();
    assert_eq!(&a[..la], &b[..lb]);
}

#[test]
fn short_buffer() {
    let mut init = Handshake::init([0u8; 32], [1u8; 32], &[]);
    let mut small = [0xaau8; 20];
    assert_eq!(init.write_message(b"abcd", &mut small), Err(Error::Input));
    assert_eq!(small, [0xaau8; 20]);
    assert_eq!(init.state(), HandshakeState::I1);
    let mut exact = [0u8; 36];
    assert_eq!(init.write_message(b"abcd", &mut exact), Ok(36));
    let mut fresh = Handshake::init([0u8; 32], [1u8; 32], &[]);
    let mut other = [0u8; 36];
    fresh.write_message(b"abcd", &mut other).unwrap();
    assert_eq!(exact, other);
}

#[test]
fn short_message_and_short_payload_buffer() {
    let (mut init, mut resp) = pair();
    let mut wire = [0u8; 128];
    let mut out = [0u8; 128];
    let n = init.write_message(b"abcd", &mut wire).unwrap();
    assert_eq!(resp.read_message(&wire[..31], &mut out), Err(Error::Input));
    let mut tiny = [0u8; 3];
    assert_eq!(resp.read_message(&wire[..n], &mut tiny), Err(Error::Input));
    assert_eq!(resp.read_message(&wire[..n], &mut out), Ok(4));
}

#[test]
fn tag_tamper() {
    let (mut init, mut resp) = pair();
    let mut wire = [0u8; 128];
    let mut out = [0u8; 128];
    let n = init.write_message(b"msg", &mut wire).unwrap();
    resp.read_message(&wire[..n], &mut out).unwrap();
    let n = resp.write_message(b"msg", &mut wire).unwrap();
    let before = init.hash();
    for at in [40usize, 79, 85, n - 1] {
        let mut bad = wire;
        bad[at] ^= 1;
        assert_eq!(init.read_message(&bad[..n], &mut out), Err(Error::Decrypt));
        assert_eq!(init.state(), HandshakeState::I2);
        assert_eq!(init.hash(), before);
    }
    assert_eq!(init.read_message(&wire[..n], &mut out), Ok(3));
    assert_eq!(&out[..3], b"msg");
    assert_eq!(init.state(), HandshakeState::I3);
    let n = init.write_message(b"msg", &mut wire).unwrap();
    assert_eq!(resp.read_message(&wire[..n], &mut out), Ok(3));
}

#[test]
fn premature_upgrade() {
    let (mut init, mut resp) = pair();
    let mut wire = [0u8; 128];
    let mut out = [0u8; 128];
    let n = init.write_message(b"msg", &mut wire).unwrap();
    resp.read_message(&wire[..n], &mut out).unwrap();
    let n = resp.write_message(b"msg", &mut wire).unwrap();
    init.read_message(&wire[..n], &mut out).unwrap();
    assert!(matches!(init.upgrade(), Err(Error::NotMyTurn)));
    assert!(matches!(resp.upgrade(), Err(Error::NotMyTurn)));
    assert!(matches!(Handshake::init([0u8; 32], [1u8; 32], &[]).upgrade(), Err(Error::NotMyTurn)));
}

#[test]
fn split_and_parallel() {
    let (init, resp) = completed();
    let (mut init_read, mut init_write) = init.upgrade().unwrap().split();
    let (mut resp_read, mut resp_write) = resp.upgrade().unwrap().split();
    let mut wire = [0u8; 64];
    let mut out = [0u8; 64];
    for i in 0..1000u32 {
        let msg = format!("message {}", i);
        let n = init_write.write_message(msg.as_bytes(), &mut wire).unwrap();
        let n = resp_read.read_message(&wire[..n], &mut out).unwrap();
        assert_eq!(&out[..n], msg.as_bytes());
        let back = format!("answer {}", i);
        let n = resp_write.write_message(back.as_bytes(), &mut wire).unwrap();
        let n = init_read.read_message(&wire[..n], &mut out).unwrap();
        assert_eq!(&out[..n], back.as_bytes());
    }
    assert_eq!(init_write.send_nonce(), 1000);
    assert_eq!(resp_read.recv_nonce(), 1000);
}

#[test]
fn transcripts_agree() {
    let (init, resp) = completed();
    assert_eq!(init.hash(), resp.hash());
    assert_ne!(init.hash(), PRE_H_NAME);
}

#[test]
fn prologue_is_bound() {
    let mut init = Handshake::init([0u8; 32], [1u8; 32], b"a");
    let mut resp = Handshake::resp([2u8; 32], [3u8; 32], b"b");
    let mut wire = [0u8; 128];
    let mut out = [0u8; 128];
    let n = init.write_message(b"msg", &mut wire).unwrap();
    resp.read_message(&wire[..n], &mut out).unwrap();
    let n = resp.write_message(b"msg", &mut wire).unwrap();
    assert_eq!(init.read_message(&wire[..n], &mut out), Err(Error::Decrypt));
}

#[test]
fn remote_keys_are_learned() {
    let (init, resp) = completed();
    let init = init.upgrade().unwrap();
    let resp = resp.upgrade().unwrap();
    assert_eq!(init.remote_key(), pub_key([3u8; 32]));
    assert_eq!(resp.remote_key(), pub_key([1u8; 32]));
    let (r, w) = init.split();
    assert_eq!(r.remote_key(), pub_key([3u8; 32]));
    assert_eq!(w.remote_key(), pub_key([3u8; 32]));
}

#[test]
fn directions_are_coupled_both_ways() {
    let (init, resp) = completed();
    let mut init = init.upgrade().unwrap();
    let mut resp = resp.upgrade().unwrap();
    let mut wire = [0u8; 64];
    let mut out = [0u8; 64];
    let n = resp.write_message(b"from responder", &mut wire).unwrap();
    let n = init.read_message(&wire[..n], &mut out).unwrap();
    assert_eq!(&out[..n], b"from responder");
    let n = init.write_message(b"", &mut wire).unwrap();
    assert_eq!(n, 16);
    assert_eq!(resp.read_message(&wire[..n], &mut out), Ok(0));
    let n = init.write_message(b"x", &mut wire).unwrap();
    assert_eq!(init.read_message(&wire[..n], &mut out), Err(Error::Decrypt));
}

#[test]
fn nonces_count_successes_only() {
    let (init, resp) = completed();
    let mut init = init.upgrade().unwrap();
    let mut resp = resp.upgrade().unwrap();
    assert_eq!((init.send_nonce(), init.recv_nonce()), (0, 0));
    let mut wire = [0u8; 64];
    let mut out = [0u8; 64];
    let n = init.write_message(b"one", &mut wire).unwrap();
    assert_eq!((init.send_nonce(), init.recv_nonce()), (1, 0));
    let mut bad = wire;
    bad[0] ^= 0x80;
    assert_eq!(resp.read_message(&bad[..n], &mut out), Err(Error::Decrypt));
    assert_eq!(resp.recv_nonce(), 0);
    assert_eq!(resp.read_message(&wire[..3], &mut out), Err(Error::Input));
    let mut tiny = [0u8; 2];
    assert_eq!(resp.read_message(&wire[..n], &mut tiny), Err(Error::Input));
    assert_eq!(resp.recv_nonce(), 0);
    assert_eq!(resp.read_message(&wire[..n], &mut out), Ok(3));
    assert_eq!((resp.send_nonce(), resp.recv_nonce()), (0, 1));
    let mut small = [0u8; 18];
    assert_eq!(init.write_message(b"one", &mut small), Err(Error::Input));
    assert_eq!(init.send_nonce(), 1);
}

#[test]
fn receive_nonce_can_skip() {
    let (init, resp) = completed();
    let mut init = init.upgrade().unwrap();
    let mut resp = resp.upgrade().unwrap();
    let mut first = [0u8; 64];
    let mut second = [0u8; 64];
    let mut out = [0u8; 64];
    let n1 = init.write_message(b"first", &mut first).unwrap();
    let n2 = init.write_message(b"second", &mut second).unwrap();
    assert_eq!(resp.read_message(&second[..n2], &mut out), Err(Error::Decrypt));
    resp.set_receive_nonce(1);
    assert_eq!(resp.recv_nonce(), 1);
    assert_eq!(resp.read_message(&second[..n2], &mut out), Ok(6));
    assert_eq!(&out[..6], b"second");
    resp.set_receive_nonce(0);
    assert_eq!(resp.read_message(&first[..n1], &mut out), Ok(5));
    assert_eq!(&out[..5], b"first");
}

#[test]
fn zero_point_is_refused() {
    assert_eq!(x25519([5u8; 32], [0u8; 32]), Err(Error::Dh));
    assert!(x25519([5u8; 32], pub_key([6u8; 32])).is_ok());
    assert_eq!(x25519([5u8; 32], pub_key([6u8; 32])), x25519([6u8; 32], pub_key([5u8; 32])));
}

#[test]
fn public_key_of_known_scalar() {
    let mut base = [0u8; 32];
    base[0] = 9;
    assert_eq!(Ok(pub_key([4u8; 32])), x25519([4u8; 32], base));
    assert_ne!(pub_key([4u8; 32]), [4u8; 32]);
}

#[test]
fn zero_ephemeral_fails_the_handshake() {
    let mut resp = Handshake::resp([2u8; 32], [3u8; 32], &[]);
    let mut out = [0u8; 64];
    let mut forged = [0u8; 35];
    forged[32] = b'h';
    assert_eq!(resp.read_message(&forged, &mut out), Ok(3));
    let mut wire = [0x55u8; 128];
    let before = resp.hash();
    assert_eq!(resp.write_message(b"msg", &mut wire), Err(Error::Dh));
    assert_eq!(wire, [0x55u8; 128]);
    assert_eq!(resp.hash(), before);
    assert_eq!(resp.state(), HandshakeState::R2);
    assert_eq!(resp.write_message(b"other", &mut wire), Err(Error::Dh));
    assert_eq!(resp.read_message(&forged, &mut out), Err(Error::NotMyTurn));
    assert!(matches!(resp.upgrade(), Err(Error::NotMyTurn)));
}

#[test]
fn zero_ephemeral_is_refused_on_read() {
    let mut init = Handshake::init([0u8; 32], [1u8; 32], &[]);
    let mut wire = [0u8; 128];
    let mut out = [0u8; 64];
    init.write_message(b"", &mut wire).unwrap();
    let forged = [0u8; 96];
    assert_eq!(init.read_message(&forged, &mut out), Err(Error::Dh));
    assert_eq!(init.state(), HandshakeState::I2);
    assert_eq!(init.read_message(&forged, &mut out), Err(Error::Dh));
}

#[test]
fn nonce_layout() {
    assert_eq!(nonce_bytes(0), [0u8; 12]);
    assert_eq!(nonce_bytes(1), [0, 0, 0, 0, 1, 0, 0, 0, 0, 0, 0, 0]);
    assert_eq!(
        nonce_bytes(0x0102030405060708),
        [0, 0, 0, 0, 8, 7, 6, 5, 4, 3, 2, 1]
    );
    assert_eq!(nonce_bytes(u64::MAX), [0, 0, 0, 0, 255, 255, 255, 255, 255, 255, 255, 255]);
}

#[test]
fn protocol_name_constant() {
    let digest: [u8; 32] = blake2::Blake2s::digest(b"Noise_XX_25519_ChaChaPoly_BLAKE2s").into();
    assert_eq!(PRE_H_NAME, digest);
    let sym = SymmetricState::new();
    assert_eq!(sym.hash(), PRE_H_NAME);
    assert!(!sym.has_key());
}

#[test]
fn mix_hash_is_blake2s_of_hash_and_data() {
    let mut sym = SymmetricState::new();
    sym.mix_hash(b"data");
    let mut joined = PRE_H_NAME.to_vec();
    joined.extend_from_slice(b"data");
    let digest: [u8; 32] = blake2::Blake2s::digest(&joined).into();
    assert_eq!(sym.hash(), digest);
}

#[test]
fn symmetric_state_without_key_copies() {
    let mut w = SymmetricState::new();
    let mut r = SymmetricState::new();
    let mut wire = [0u8; 16];
    let mut out = [0u8; 16];
    assert_eq!(w.encrypt_and_hash(b"plain", &mut wire, 2), Ok(5));
    assert_eq!(&wire[..8], &[0, 0, b'p', b'l', b'a', b'i', b'n', 0]);
    assert_eq!(r.decrypt_and_hash(&wire[2..7], &mut out, 1), Ok(5));
    assert_eq!(&out[1..6], b"plain");
    assert_eq!(w.hash(), r.hash());
    assert_eq!(w.encrypt_and_hash(b"plain", &mut wire, 12), Err(Error::Input));
    assert_eq!(r.decrypt_and_hash(&wire[..7], &mut out, 10), Err(Error::Input));
}

#[test]
fn symmetric_state_with_key_seals() {
    let mut w = SymmetricState::new();
    let mut r = SymmetricState::new();
    w.mix_key(b"material");
    r.mix_key(b"material");
    assert!(w.has_key());
    let mut wire = [0u8; 32];
    let mut out = [0u8; 32];
    assert_eq!(w.encrypt_and_hash(b"plain", &mut wire, 0), Ok(21));
    assert_ne!(&wire[..5], b"plain");
    let before = r.hash();
    let mut bad = wire;
    bad[20] ^= 1;
    assert_eq!(r.decrypt_and_hash(&bad[..21], &mut out, 0), Err(Error::Decrypt));
    assert_eq!(r.hash(), before);
    assert_eq!(r.decrypt_and_hash(&wire[..21], &mut out, 0), Ok(5));
    assert_eq!(&out[..5], b"plain");
    assert_eq!(w.hash(), r.hash());
    let (a1, a2) = w.split();
    let (b1, b2) = r.split();
    let mut a1 = a1;
    let mut b1 = b1;
    let mut a2 = a2;
    let mut b2 = b2;
    assert_eq!(a1.encrypt_with_ad(b"", b"x", &mut wire, 0), Ok(17));
    assert_eq!(b2.decrypt_with_ad(b"", &wire[..17], &mut out, 0), Err(Error::Decrypt));
    assert_eq!(b1.decrypt_with_ad(b"", &wire[..17], &mut out, 0), Ok(1));
    assert_eq!(a2.encrypt_with_ad(b"", b"y", &mut wire, 0), Ok(17));
    assert_eq!(b2.decrypt_with_ad(b"", &wire[..17], &mut out, 0), Ok(1));
    assert_eq!(out[0], b'y');
}

#[test]
fn cipher_state_matches_the_aead() {
    let key = [0x42u8; 32];
    let mut c = CipherState::new(key);
    c.set_nonce(5);
    let mut wire = [0u8; 40];
    assert_eq!(c.encrypt_with_ad(b"ad", b"payload", &mut wire, 3), Ok(23));
    assert_eq!(c.nonce(), 6);
    let aead = chacha20poly1305::ChaCha20Poly1305::new(&key.into());
    let mut buf = *b"payload";
    let nonce = [0u8, 0, 0, 0, 5, 0, 0, 0, 0, 0, 0, 0];
    let tag = aead.encrypt_in_place_detached(&nonce.into(), b"ad", &mut buf).unwrap();
    assert_eq!(&wire[..3], &[0, 0, 0]);
    assert_eq!(&wire[3..10], &buf);
    assert_eq!(&wire[10..26], tag.as_slice());
    assert_eq!(&wire[26..], &[0u8; 14]);
    let mut d = CipherState::new(key);
    d.set_nonce(5);
    let mut out = [0u8; 16];
    assert_eq!(d.decrypt_with_ad(b"other", &wire[3..26], &mut out, 0), Err(Error::Decrypt));
    assert_eq!(d.nonce(), 5);
    assert_eq!(d.decrypt_with_ad(b"ad", &wire[3..26], &mut out, 4), Ok(7));
    assert_eq!(&out[4..11], b"payload");
    assert_eq!(d.nonce(), 6);
    assert_eq!(d.decrypt_with_ad(b"ad", &wire[3..18], &mut out, 0), Err(Error::Input));
    assert_eq!(d.decrypt_with_ad(b"ad", &wire[3..26], &mut out, 10), Err(Error::Input));
    assert_eq!(c.encrypt_with_ad(b"ad", b"payload", &mut wire, 18), Err(Error::Input));
    assert_eq!(c.nonce(), 6);
}

#[test]
fn transport_from_parts_couples_directions() {
    let k1 = [1u8; 32];
    let k2 = [2u8; 32];
    let mut a = Transport::from_parts([9u8; 32], CipherState::new(k1), CipherState::new(k2));
    let mut b = Transport::from_parts([8u8; 32], CipherState::new(k2), CipherState::new(k1));
    let mut wire = [0u8; 32];
    let mut out = [0u8; 32];
    let n = a.write_message(b"ping", &mut wire).unwrap();
    assert_eq!(b.read_message(&wire[..n], &mut out), Ok(4));
    assert_eq!(&out[..4], b"ping");
    assert_eq!(a.remote_key(), [9u8; 32]);
}

#[test]
fn new_selects_the_role() {
    let mut a = Handshake::new(true, [4u8; 32], [5u8; 32], b"p");
    let mut b = Handshake::init([4u8; 32], [5u8; 32], b"p");
    let mut c = Handshake::new(false, [4u8; 32], [5u8; 32], b"p");
    assert_eq!(a.state(), HandshakeState::I1);
    assert_eq!(c.state(), HandshakeState::R1);
    assert_eq!(Handshake::resp([4u8; 32], [5u8; 32], b"p").state(), HandshakeState::R1);
    assert_eq!(a.hash(), c.hash());
    let mut wa = [0u8; 40];
    let mut wb = [0u8; 40];
    assert_eq!(a.write_message(b"hi", &mut wa), Ok(34));
    assert_eq!(b.write_message(b"hi", &mut wb), Ok(34));
    assert_eq!(wa, wb);
    let mut out = [0u8; 8];
    assert_eq!(c.read_message(&wa[..34], &mut out), Ok(2));
    assert_eq!(&out[..2], b"hi");
    assert_eq!(a.hash(), c.hash());
}

#[test]
fn failed_write_leaves_buffer_and_state() {
    let (mut init, mut resp) = pair();
    let mut wire = [0u8; 128];
    let mut out = [0u8; 128];
    let n = init.write_message(b"msg", &mut wire).unwrap();
    resp.read_message(&wire[..n], &mut out).unwrap();
    let mut small = [7u8; 98];
    let before = resp.hash();
    assert_eq!(resp.write_message(b"msg", &mut small), Err(Error::Input));
    assert_eq!(small, [7u8; 98]);
    assert_eq!(resp.hash(), before);
    assert_eq!(resp.state(), HandshakeState::R2);
    let mut fresh_init = Handshake::init([0u8; 32], [1u8; 32], &[]);
    let mut fresh_resp = Handshake::resp([2u8; 32], [3u8; 32], &[]);
    let mut w2 = [0u8; 128];
    let n = fresh_init.write_message(b"msg", &mut w2).unwrap();
    fresh_resp.read_message(&w2[..n], &mut out).unwrap();
    let a = resp.write_message(b"msg", &mut wire).unwrap();
    let b = fresh_resp.write_message(b"msg", &mut w2).unwrap();
    assert_eq!(a, 99);
    assert_eq!(&wire[..a], &w2[..b]);
}
