//! The gateway: the well-known capability (swiss number `gateway`) that
//! authenticates remote peers. A caller proves possession of a key by
//! signing an agreed message; on success the chat manager issues a portal.

use vstd::prelude::*;
use crate::crypto::{verify_ok, PeerKey, Signature};
use crate::event::NetworkEvent;

verus! {

/// The swiss number of the gateway capability on every node: ASCII
/// `gateway`.
pub open spec fn gateway_swiss() -> Seq<u8> {
    seq![103u8, 97u8, 116u8, 101u8, 119u8, 97u8, 121u8]
}

/// The gateway's swiss number as bytes.
pub fn gateway_swiss_vec() -> (r: Vec<u8>)
    ensures
        r@ == gateway_swiss(),
{
    let r: Vec<u8> = vec![103u8, 97u8, 116u8, 101u8, 119u8, 97u8, 121u8];
    proof {
        assert(r@ =~= gateway_swiss());
    }
    r
}

/// A failed authentication: the promise is broken with a fixed reason.
#[derive(PartialEq, Eq, Debug)]
pub struct AuthFailure;

impl AuthFailure {
    /// The human-readable reason the promise is broken with.
    pub fn reason(&self) -> (r: String)
        ensures
            r@ == "could not verify signature"@,
    {
        let r = String::new().concat("could not verify signature");
        proof {
            assert(r@ =~= "could not verify signature"@);
        }
        r
    }
}

/// The gateway capability.
pub struct Gateway;

impl Gateway {
    /// The gateway holds no state of its own; it emits portal requests for
    /// the chat manager to answer.
    pub fn new() -> (r: Gateway)
    {
        Gateway
    }

    /// Authenticates `peer_vkey` on the session it was called over: checks
    /// `signature` over `message` under that key. On success, the portal
    /// request to hand to the chat manager — the caller's promise is
    /// fulfilled there, not here. On failure, the promise is broken.
    /// Success and the local verification mirror each other exactly.
    pub fn authenticate(
        &self,
        session_key: &PeerKey,
        peer_vkey: PeerKey,
        message: &Vec<u8>,
        signature: &Signature,
    ) -> (r: Result<NetworkEvent, AuthFailure>)
        requires
            peer_vkey.wf(),
            signature.wf(),
        ensures
            r is Ok <==> verify_ok(peer_vkey@, message@, signature@),
            r matches Ok(ev) ==> ev matches NetworkEvent::PortalRequest {
                session_key: sk,
                peer_vkey: pk,
            } && sk@ == session_key@ && pk@ == peer_vkey@,
    {
        if !crate::crypto::verify_strict_bytes(&peer_vkey, message, signature) {
            return Err(AuthFailure);
        }
        Ok(NetworkEvent::PortalRequest { session_key: session_key.dup(), peer_vkey })
    }
}

/// Law: `authenticate` succeeds exactly where a local strict verification
/// of the same key, message and signature succeeds — the remote handshake
/// and the local check mirror each other. `r` is what `authenticate`
/// returned; `locally_verified` is what `verify_strict_bytes` returned for
/// the same three values.
pub proof fn lemma_authenticate_mirrors_verify(
    r: Result<NetworkEvent, AuthFailure>,
    locally_verified: bool,
    peer_vkey: Seq<u8>,
    message: Seq<u8>,
    signature: Seq<u8>,
)
    requires
        r is Ok <==> verify_ok(peer_vkey, message, signature),
        locally_verified == verify_ok(peer_vkey, message, signature),
    ensures
        r is Ok <==> locally_verified,
{
}

} // verus!
