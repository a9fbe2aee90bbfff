use noise_xx::Handshake;

const PROT_NAME: &str = "Noise_XX_25519_ChaChaPoly_BLAKE2s";

#[test]
fn test_init_using_snow() {
    let msg = b"msg";

    let e = [0u8; 32];
    let s = [1u8; 32];
    let re = [2u8; 32];
    let rs = [3u8; 32];

    let mut buf_init = [0u8; 100];
    let buf_init = &mut buf_init;
    let mut buf_resp = [0u8; 100];
    let buf_resp = &mut buf_resp;

    let mut resp = snow::Builder::new(PROT_NAME.parse().unwrap())
        .local_private_key(&rs)
        .fixed_ephemeral_key_for_testing_only(&re)
        .build_responder()
        .unwrap();

    let mut init = Handshake::init(e, s, &[]);

    let len = init.write_message(msg, buf_init).unwrap();
    let len = resp.read_message(&buf_init[..len], buf_resp).unwrap();

    assert_eq!(&buf_resp[..len], msg);

    let len = resp.write_message(msg, buf_resp).unwrap();
    let len = init.read_message(&buf_resp[..len], buf_init).unwrap();
    assert_eq!(&buf_init[..len], msg);

    let len = init.write_message(msg, buf_init).unwrap();
    let len = resp.read_message(&buf_init[..len], buf_resp).unwrap();
    assert_eq!(&buf_resp[..len], msg);

    let mut resp = resp.into_transport_mode().unwrap();
    let mut init = init.upgrade().unwrap();

    let len = init.write_message("hello".as_bytes(), buf_init).unwrap();
    let len = resp.read_message(&buf_init[..len], buf_resp).unwrap();
    assert_eq!(&buf_resp[..len], b"hello");
}

#[test]
fn test_resp_using_snow() {
    let msg = b"msg";

    let e = [0u8; 32];
    let s = [1u8; 32];
    let re = [2u8; 32];
    let rs = [3u8; 32];

    let mut buf_init = [0u8; 100];
    let buf_init = &mut buf_init;
    let mut buf_resp = [0u8; 100];
    let buf_resp = &mut buf_resp;

    let mut init = snow::Builder::new(PROT_NAME.parse().unwrap())
        .local_private_key(&rs)
        .fixed_ephemeral_key_for_testing_only(&re)
        .build_initiator()
        .unwrap();

    let mut resp = Handshake::resp(e, s, &[]);

    let len = init.write_message(msg, buf_init).unwrap();
    let len = resp.read_message(&buf_init[..len], buf_resp).unwrap();

    assert_eq!(&buf_resp[..len], msg);

    let len = resp.write_message(msg, buf_resp).unwrap();
    let len = init.read_message(&buf_resp[..len], buf_init).unwrap();
    assert_eq!(&buf_init[..len], msg);

    let len = init.write_message(msg, buf_init).unwrap();
    let len = resp.read_message(&buf_init[..len], buf_resp).unwrap();
    assert_eq!(&buf_resp[..len], msg);

    let mut init = init.into_transport_mode().unwrap();
    let mut resp = resp.upgrade().unwrap();

    let len = init.write_message("hello".as_bytes(), buf_init).unwrap();
    let len = resp.read_message(&buf_init[..len], buf_resp).unwrap();
    assert_eq!(&buf_resp[..len], b"hello");
}

#[test]
fn wire_messages_match_snow_with_prologue() {
    let e = [7u8; 32];
    let s = [8u8; 32];
    let re = [9u8; 32];
    let rs = [10u8; 32];
    let prologue = b"context";

    let mut ours = Handshake::init(e, s, prologue);
    let mut theirs = snow::Builder::new(PROT_NAME.parse().unwrap())
        .local_private_key(&s)
        .fixed_ephemeral_key_for_testing_only(&e)
        .prologue(prologue)
        .build_initiator()
        .unwrap();
    let mut resp = Handshake::resp(re, rs, prologue);

    let mut a = [0u8; 200];
    let mut b = [0u8; 200];
    let mut sink = [0u8; 200];

    let la = ours.write_message(b"one", &mut a).unwrap();
    let lb = theirs.write_message(b"one", &mut b).unwrap();
    assert_eq!(la, 35);
    assert_eq!(&a[..la], &b[..lb]);
    assert_eq!(resp.read_message(&a[..la], &mut sink).unwrap(), 3);

    let mut m2 = [0u8; 200];
    let l2 = resp.write_message(b"two", &mut m2).unwrap();
    assert_eq!(l2, 99);
    assert_eq!(ours.read_message(&m2[..l2], &mut sink).unwrap(), 3);
    assert_eq!(&sink[..3], b"two");
    assert_eq!(theirs.read_message(&m2[..l2], &mut sink).unwrap(), 3);

    let la = ours.write_message(b"three", &mut a).unwrap();
    let lb = theirs.write_message(b"three", &mut b).unwrap();
    assert_eq!(la, 69);
    assert_eq!(&a[..la], &b[..lb]);
}
