use ed25519_dalek::Signer;
use troposphere::crypto::{verify_strict_bytes, PeerKey, Signature, SigningKey};
use troposphere::gateway::{gateway_swiss_vec, Gateway};
use troposphere::message::Message;

fn keypair(seed: u8) -> (SigningKey, PeerKey) {
    let sk = SigningKey::from_seed(vec![seed; 32]);
    let vk = sk.verifying_key();
    (sk, vk)
}

#[test]
fn derived_key_matches_reference_implementation() {
    let (_, vk) = keypair(5);
    let reference = ed25519_dalek::SigningKey::from_bytes(&[5u8; 32]);
    assert_eq!(vk.bytes, reference.verifying_key().to_bytes().to_vec());
}

#[test]
fn sign_then_verify_succeeds() {
    let (sk, vk) = keypair(1);
    let msg = b"FIXTHIS".to_vec();
    let sig = sk.sign(&msg);
    assert!(verify_strict_bytes(&vk, &msg, &sig));
}

#[test]
fn verify_rejects_signature_over_different_message() {
    let (sk, vk) = keypair(1);
    let sig = sk.sign(&b"WRONG".to_vec());
    assert!(!verify_strict_bytes(&vk, &b"FIXTHIS".to_vec(), &sig));
}

#[test]
fn verify_rejects_wrong_key() {
    let (sk, _) = keypair(1);
    let (_, other_vk) = keypair(2);
    let msg = b"FIXTHIS".to_vec();
    let sig = sk.sign(&msg);
    assert!(!verify_strict_bytes(&other_vk, &msg, &sig));
}

#[test]
fn emitted_message_verifies_under_sender_key() {
    let (sk, vk) = keypair(9);
    let m = Message::new(vk.dup(), "hello".to_string(), &sk);
    assert!(m.verify_strict(&vk));
}

#[test]
fn tampered_message_fails_verification() {
    let (sk, vk) = keypair(9);
    let mut m = Message::new(vk.dup(), "hello".to_string(), &sk);
    m.msg = "hello!".to_string();
    assert!(!m.verify_strict(&vk));
}

#[test]
fn received_message_verifies_after_round_trip() {
    let (sk, vk) = keypair(11);
    let m = Message::new(vk.dup(), "fan out".to_string(), &sk);
    let m2 = Message::deserialize(&m.serialize()).expect("round trip");
    assert!(m2.verify_strict(&vk));
}

#[test]
fn message_signature_checks_out_under_reference_implementation() {
    let (sk, vk) = keypair(3);
    let m = Message::new(vk.dup(), "cross-check".to_string(), &sk);
    let fields = Message::fields_to_bytes(&m.id, &m.sender, &m.msg);
    let reference = ed25519_dalek::SigningKey::from_bytes(&[3u8; 32]);
    let mut sig = [0u8; 64];
    sig.copy_from_slice(&m.signature.bytes);
    reference
        .verifying_key()
        .verify_strict(&fields, &ed25519_dalek::Signature::from_bytes(&sig))
        .expect("the library's signature is a real signature over its canonical fields");
    // and the reference signer produces exactly the library's signature
    assert_eq!(reference.sign(&fields).to_bytes().to_vec(), m.signature.bytes);
}

#[test]
fn gateway_authenticate_mirrors_local_verify() {
    let gw = Gateway::new();
    let (skb, vkb) = keypair(21);
    let session_key = vkb.dup();
    let msg = b"FIXTHIS".to_vec();
    let good = skb.sign(&msg);
    let ok = gw.authenticate(&session_key, vkb.dup(), &msg, &good);
    assert!(ok.is_ok());
    assert!(verify_strict_bytes(&vkb, &msg, &good));

    let bad = skb.sign(&b"WRONG".to_vec());
    let err = gw.authenticate(&session_key, vkb.dup(), &msg, &bad);
    assert!(err.is_err());
    assert!(!verify_strict_bytes(&vkb, &msg, &bad));
    assert_eq!(err.unwrap_err().reason(), "could not verify signature");
}

#[test]
fn gateway_swiss_number_is_the_ascii_word() {
    assert_eq!(gateway_swiss_vec(), b"gateway".to_vec());
}

#[test]
fn signature_wrapper_keeps_bytes() {
    let sig = Signature::from_bytes(vec![8u8; 64]);
    assert_eq!(sig.bytes, vec![8u8; 64]);
    let (sk, _) = keypair(1);
    assert_eq!(sk.bytes, vec![1u8; 32]);
}
