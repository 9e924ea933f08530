//! Signing and verification of message bytes. The peer identity is an
//! Ed25519 keypair; the public key doubles as the peer's name across
//! sessions. The calls into the signature crate stand behind trusted
//! wrappers over plain byte vectors; the signature and derived public key
//! are named, since Ed25519 signing is deterministic.

use vstd::prelude::*;

verus! {

/// The byte length of a public (verifying) key.
pub const PEER_KEY_LEN: usize = 32;

/// The byte length of a signing-key seed.
pub const SECRET_KEY_LEN: usize = 32;

/// The byte length of a signature.
pub const SIGNATURE_LEN: usize = 64;

/// The signature that the signing key with seed `sk` produces over `msg`:
/// Ed25519 signing is deterministic, a function of the two alone.
pub uninterp spec fn sig_of(sk: Seq<u8>, msg: Seq<u8>) -> Seq<u8>;

/// The public key derived from the signing-key seed `sk`.
pub uninterp spec fn vk_of(sk: Seq<u8>) -> Seq<u8>;

/// Whether strict verification accepts `sig` as a signature over `msg`
/// under the public key bytes `vk`. Verification is deterministic; a `vk`
/// that does not decode to a curve point accepts nothing.
pub uninterp spec fn verify_ok(vk: Seq<u8>, msg: Seq<u8>, sig: Seq<u8>) -> bool;

/// Relies on `ed25519_dalek::SigningKey::from_bytes` and the `Signer::sign`
/// it implements: the seed deterministically derives the keypair, and
/// signing is deterministic (RFC 8032). A signature so produced is accepted
/// by `verify_strict` under the derived public key: the derived point and
/// the signature's nonce point lie in the prime-order subgroup, which
/// strict verification accepts.
#[verifier::external_body]
pub(crate) fn sign_bytes(sk: &Vec<u8>, msg: &Vec<u8>) -> (r: Vec<u8>)
    requires
        sk@.len() == SECRET_KEY_LEN,
    ensures
        r@ == sig_of(sk@, msg@),
        r@.len() == SIGNATURE_LEN,
        verify_ok(vk_of(sk@), msg@, r@),
{
    let mut seed = [0u8; 32];
    seed.copy_from_slice(&sk[..]);
    let key = ed25519_dalek::SigningKey::from_bytes(&seed);
    let sig = ed25519_dalek::Signer::sign(&key, &msg[..]);
    sig.to_bytes().to_vec()
}

/// Relies on `ed25519_dalek::SigningKey::from_bytes` and
/// `SigningKey::verifying_key`: the public key is a deterministic function
/// of the seed.
#[verifier::external_body]
pub(crate) fn verifying_key_of(sk: &Vec<u8>) -> (r: Vec<u8>)
    requires
        sk@.len() == SECRET_KEY_LEN,
    ensures
        r@ == vk_of(sk@),
        r@.len() == PEER_KEY_LEN,
{
    let mut seed = [0u8; 32];
    seed.copy_from_slice(&sk[..]);
    let key = ed25519_dalek::SigningKey::from_bytes(&seed);
    key.verifying_key().to_bytes().to_vec()
}

/// Relies on `ed25519_dalek::VerifyingKey::from_bytes` and
/// `VerifyingKey::verify_strict`: both are deterministic functions of the
/// key, message and signature bytes; a key that does not decode verifies
/// nothing.
#[verifier::external_body]
pub(crate) fn verify_bytes(vk: &Vec<u8>, msg: &Vec<u8>, sig: &Vec<u8>) -> (r: bool)
    requires
        vk@.len() == PEER_KEY_LEN,
        sig@.len() == SIGNATURE_LEN,
    ensures
        r == verify_ok(vk@, msg@, sig@),
{
    let mut kb = [0u8; 32];
    kb.copy_from_slice(&vk[..]);
    let mut sb = [0u8; 64];
    sb.copy_from_slice(&sig[..]);
    match ed25519_dalek::VerifyingKey::from_bytes(&kb) {
        Ok(key) => {
            let signature = ed25519_dalek::Signature::from_bytes(&sb);
            key.verify_strict(&msg[..], &signature).is_ok()
        },
        Err(_) => false,
    }
}

/// A peer's public key: the peer's identity across sessions and transports.
#[derive(Clone, Debug)]
pub struct PeerKey {
    pub bytes: Vec<u8>,
}

impl View for PeerKey {
    type V = Seq<u8>;

    open spec fn view(&self) -> Seq<u8> {
        self.bytes@
    }
}

impl PeerKey {
    /// A well-formed key holds exactly the public-key bytes.
    pub open spec fn wf(&self) -> bool {
        self@.len() == PEER_KEY_LEN
    }

    /// Wraps 32 public-key bytes.
    pub fn from_bytes(bytes: Vec<u8>) -> (r: PeerKey)
        requires
            bytes@.len() == PEER_KEY_LEN,
        ensures
            r@ == bytes@,
            r.wf(),
    {
        PeerKey { bytes }
    }

    /// Whether `self` and `other` name the same peer.
    pub fn key_eq(&self, other: &PeerKey) -> (r: bool)
        ensures
            r == (self@ == other@),
    {
        crate::keymap::bytes_eq(&self.bytes, &other.bytes)
    }

    /// A copy of the key.
    pub fn dup(&self) -> (r: PeerKey)
        ensures
            r@ == self@,
    {
        PeerKey { bytes: crate::keymap::bytes_clone(&self.bytes) }
    }
}

/// A signing key, held as its 32-byte seed.
#[derive(Clone, Debug)]
pub struct SigningKey {
    pub bytes: Vec<u8>,
}

impl View for SigningKey {
    type V = Seq<u8>;

    open spec fn view(&self) -> Seq<u8> {
        self.bytes@
    }
}

impl SigningKey {
    /// A well-formed signing key holds exactly the seed bytes.
    pub open spec fn wf(&self) -> bool {
        self@.len() == SECRET_KEY_LEN
    }

    /// Wraps a 32-byte seed.
    pub fn from_seed(bytes: Vec<u8>) -> (r: SigningKey)
        requires
            bytes@.len() == SECRET_KEY_LEN,
        ensures
            r@ == bytes@,
            r.wf(),
    {
        SigningKey { bytes }
    }

    /// The public key this signing key derives.
    pub fn verifying_key(&self) -> (r: PeerKey)
        requires
            self.wf(),
        ensures
            r@ == vk_of(self@),
            r.wf(),
    {
        PeerKey { bytes: verifying_key_of(&self.bytes) }
    }

    /// Signs `msg`, returning the signature bytes.
    pub fn sign(&self, msg: &Vec<u8>) -> (r: Signature)
        requires
            self.wf(),
        ensures
            r@ == sig_of(self@, msg@),
            r.wf(),
            verify_ok(vk_of(self@), msg@, r@),
    {
        Signature { bytes: sign_bytes(&self.bytes, msg) }
    }
}

/// A detached signature over a byte string.
#[derive(Clone, Debug)]
pub struct Signature {
    pub bytes: Vec<u8>,
}

impl View for Signature {
    type V = Seq<u8>;

    open spec fn view(&self) -> Seq<u8> {
        self.bytes@
    }
}

impl Signature {
    /// A well-formed signature holds exactly the signature bytes.
    pub open spec fn wf(&self) -> bool {
        self@.len() == SIGNATURE_LEN
    }

    /// Wraps 64 signature bytes.
    pub fn from_bytes(bytes: Vec<u8>) -> (r: Signature)
        requires
            bytes@.len() == SIGNATURE_LEN,
        ensures
            r@ == bytes@,
            r.wf(),
    {
        Signature { bytes }
    }
}

/// Strictly verifies `sig` over `msg` under the public key `vk`.
pub fn verify_strict_bytes(vk: &PeerKey, msg: &Vec<u8>, sig: &Signature) -> (r: bool)
    requires
        vk.wf(),
        sig.wf(),
    ensures
        r == verify_ok(vk@, msg@, sig@),
{
    verify_bytes(&vk.bytes, msg, &sig.bytes)
}

} // verus!
