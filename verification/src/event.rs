//! The events of the system. Session handlers and subtasks feed
//! `NetworkEvent`s into the chat manager's single inbound queue; the manager
//! surfaces `ChatEvent`s to its consumer.

use vstd::prelude::*;
use crate::crypto::PeerKey;

verus! {

/// What arrives on the chat manager's inbound queue.
#[derive(Debug)]
pub enum NetworkEvent {
    /// A transport produced a session to the peer with this key. Emitted
    /// before any other event of that session.
    SessionStarted { session_key: PeerKey },
    /// A session handler forwarded a bootstrap fetch it could not answer
    /// from its registry.
    Fetch { session_key: PeerKey, swiss: Vec<u8> },
    /// The gateway authenticated the peer `peer_vkey` on this session and
    /// asks for its portal.
    PortalRequest { session_key: PeerKey, peer_vkey: PeerKey },
    /// A session aborted, with the remote's reason.
    SessionAborted { session_key: PeerKey, reason: String },
    /// A subtask finished with this outcome.
    TaskFinished { result: Result<ChatEvent, String> },
}

/// What the chat manager surfaces to its consumer.
#[derive(Debug)]
pub enum ChatEvent {
    /// A session to this peer is up.
    SessionStarted { session_key: PeerKey },
    /// The session to this peer ended, with the reason.
    SessionAborted { session_key: PeerKey, reason: String },
}

} // verus!
