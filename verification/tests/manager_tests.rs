use troposphere::channel::{fan_out_result, Channel, ChannelEvent, ChannelInfo, Outbox};
use troposphere::crypto::{PeerKey, SigningKey};
use troposphere::event::{ChatEvent, NetworkEvent};
use troposphere::gateway::{gateway_swiss_vec, Gateway};
use troposphere::ident::UuidBytes;
use troposphere::manager::{
    ChatManager, FetchServeError, HandleOutcome, PortalConnectError, PortalRequestError,
};
use troposphere::portal::Portal;
use troposphere::session::{ExportedCap, Session, SessionAction, SessionEvent, SessionStatus};

fn manager(seed: u8, name: &str) -> ChatManager {
    ChatManager::builder(SigningKey::from_seed(vec![seed; 32]))
        .with_username(name.to_string())
        .build()
}

fn peer(seed: u8) -> (SigningKey, PeerKey) {
    let sk = SigningKey::from_seed(vec![seed; 32]);
    let vk = sk.verifying_key();
    (sk, vk)
}

fn channel(id_byte: u8, name: &str) -> Channel {
    Channel::new(
        UuidBytes { bytes: vec![id_byte; 16] },
        ChannelInfo::new(name.to_string(), "".to_string()),
    )
}

#[test]
fn builder_fills_profile() {
    let m = manager(1, "alice");
    assert_eq!(m.persona().profile().username, "alice");
    let (_, vk) = peer(1);
    assert_eq!(m.persona().profile().vkey.bytes, vk.bytes);
}

#[test]
fn builder_defaults_username_to_a_uuid_string() {
    let m = ChatManager::builder(SigningKey::from_seed(vec![2u8; 32])).build();
    let name = m.persona().profile().username.clone();
    assert_eq!(name.len(), 36);
    assert_eq!(name.chars().filter(|c| *c == '-').count(), 4);
}

#[test]
fn two_node_handshake() {
    // Node A answers node B's dial: the session starts, B fetches the
    // gateway, authenticates, and A issues a portal.
    let mut a = manager(10, "a");
    let (skb, kb) = peer(20);

    let started = a.handle_event(NetworkEvent::SessionStarted { session_key: kb.dup() });
    match started {
        HandleOutcome::Surface { event: ChatEvent::SessionStarted { session_key } } => {
            assert_eq!(session_key.bytes, kb.bytes);
        }
        other => panic!("unexpected outcome: {:?}", other),
    }

    let pos = a.serve_fetch(&kb, gateway_swiss_vec()).expect("gateway resolves");
    assert_eq!(pos, 1);

    let gw = Gateway::new();
    let msg = b"FIXTHIS".to_vec();
    let sig = skb.sign(&msg);
    let request = gw.authenticate(&kb, kb.dup(), &msg, &sig).expect("valid signature");
    match a.handle_event(request) {
        HandleOutcome::PortalReply { session_key, reply } => {
            assert_eq!(session_key.bytes, kb.bytes);
            assert_eq!(reply.expect("portal issued"), 2);
        }
        other => panic!("unexpected outcome: {:?}", other),
    }
}

#[test]
fn signature_failure_breaks_the_promise() {
    // authenticate with a signature over a different message: AuthFailure,
    // and no portal request reaches the manager.
    let (skb, kb) = peer(20);
    let gw = Gateway::new();
    let sig = skb.sign(&b"WRONG".to_vec());
    let err = gw.authenticate(&kb, kb.dup(), &b"FIXTHIS".to_vec(), &sig);
    let failure = err.expect_err("must not authenticate");
    assert_eq!(failure.reason(), "could not verify signature");
}

#[test]
fn repeated_fetch_resolves_to_one_position() {
    let mut a = manager(10, "a");
    let (_, kb) = peer(20);
    a.handle_event(NetworkEvent::SessionStarted { session_key: kb.dup() });
    let first = a.serve_fetch(&kb, gateway_swiss_vec()).expect("resolves");
    let second = a.serve_fetch(&kb, gateway_swiss_vec()).expect("resolves");
    assert_eq!(first, second);
}

#[test]
fn unknown_swiss_breaks_the_promise() {
    let mut a = manager(10, "a");
    let (_, kb) = peer(20);
    a.handle_event(NetworkEvent::SessionStarted { session_key: kb.dup() });
    let err = a.serve_fetch(&kb, b"no such capability".to_vec());
    assert_eq!(err, Err(FetchServeError::UnknownSwiss));
    assert_eq!(troposphere::manager::UnknownSwiss.reason(), "unrecognized swiss");
}

#[test]
fn channel_id_bytes_are_a_swiss_number() {
    let mut a = manager(10, "a");
    let (_, kb) = peer(20);
    a.handle_event(NetworkEvent::SessionStarted { session_key: kb.dup() });
    a.register_channel(channel(1, "Jamboree"));
    let pos = a.serve_fetch(&kb, vec![1u8; 16]).expect("channel resolves");
    assert_eq!(pos, 1);
}

#[test]
fn register_channel_is_idempotent_on_id() {
    let mut a = manager(10, "a");
    assert!(a.register_channel(channel(1, "Jamboree")).is_none());
    // identical registration: the directory keeps one channel under the id,
    // the earlier value is displaced and handed back
    let prev = a.register_channel(channel(1, "Jamboree")).expect("displaced");
    assert_eq!(prev.id().bytes, vec![1u8; 16]);
    assert_eq!(a.list_channels().len(), 1);
}

#[test]
fn list_then_connect() {
    let mut a = manager(10, "a");
    let (skb, kb) = peer(20);
    a.register_channel(channel(1, "Jamboree"));
    a.handle_event(NetworkEvent::SessionStarted { session_key: kb.dup() });

    let listings = a.list_channels();
    assert_eq!(listings.len(), 1);
    assert_eq!(listings[0].id.bytes, vec![1u8; 16]);
    assert_eq!(listings[0].info.name, "Jamboree");

    // authenticate, so the portal exists
    let gw = Gateway::new();
    let msg = b"FIXTHIS".to_vec();
    let sig = skb.sign(&msg);
    let request = gw.authenticate(&kb, kb.dup(), &msg, &sig).expect("valid");
    a.handle_event(request);

    // B connects, handing over its outbox's export position
    let cid = UuidBytes { bytes: vec![1u8; 16] };
    let (pos, ev) = a.portal_connect(&kb, &cid, 5).expect("connects");
    match ev {
        ChannelEvent::PeerConnected { channel_id, peer_key } => {
            assert_eq!(channel_id.bytes, vec![1u8; 16]);
            assert_eq!(peer_key.bytes, kb.bytes);
        }
        other => panic!("unexpected event: {:?}", other),
    }

    // repeated connect from the same session: same position, outbox replaced
    let (pos2, _) = a.portal_connect(&kb, &cid, 9).expect("connects again");
    assert_eq!(pos2, pos);

    // the channel now fans out to exactly one outbox, at the new position
    let targets = a.channel_send_targets(&cid).expect("the channel is registered");
    assert_eq!(targets.len(), 1);
    assert_eq!(targets[0].session_key, kb.bytes);
    assert_eq!(targets[0].peer_key.bytes, kb.bytes);
    assert_eq!(targets[0].position, 9);
}

#[test]
fn connect_to_unknown_channel_is_refused() {
    let mut a = manager(10, "a");
    let (skb, kb) = peer(20);
    a.handle_event(NetworkEvent::SessionStarted { session_key: kb.dup() });
    let gw = Gateway::new();
    let msg = b"FIXTHIS".to_vec();
    let sig = skb.sign(&msg);
    let request = gw.authenticate(&kb, kb.dup(), &msg, &sig).expect("valid");
    a.handle_event(request);

    let cid = UuidBytes { bytes: vec![9u8; 16] };
    match a.portal_connect(&kb, &cid, 5) {
        Err(PortalConnectError::UnknownChannel) => {}
        other => panic!("unexpected result: {:?}", other),
    }
    assert_eq!(
        PortalConnectError::unknown_channel_reason(),
        "unrecognized channel id"
    );
}

#[test]
fn message_fan_out() {
    // Continuing list_then_connect: A sends on the channel; every outbox
    // gets one send; the message verifies under A's key at the receiver.
    let mut a = manager(10, "a");
    let (skb, kb) = peer(20);
    let (_, ka) = peer(10);
    a.register_channel(channel(1, "Jamboree"));
    a.handle_event(NetworkEvent::SessionStarted { session_key: kb.dup() });
    let gw = Gateway::new();
    let msg = b"FIXTHIS".to_vec();
    let sig = skb.sign(&msg);
    let request = gw.authenticate(&kb, kb.dup(), &msg, &sig).expect("valid");
    a.handle_event(request);
    let cid = UuidBytes { bytes: vec![1u8; 16] };
    a.portal_connect(&kb, &cid, 5).expect("connects");

    let m = a.new_message("hello".to_string());
    assert_eq!(m.sender.bytes, ka.bytes);

    let targets = a.channel_send_targets(&cid).expect("the channel is registered");
    assert_eq!(targets.len(), 1);

    // B receives the delivery on its channel copy
    let b_channel = channel(1, "Jamboree");
    let m_wire = troposphere::message::Message::deserialize(&m.serialize()).expect("wire");
    match b_channel.deliver_msg(m_wire) {
        ChannelEvent::RecvMessage { channel_id, message } => {
            assert_eq!(channel_id.bytes, vec![1u8; 16]);
            assert!(message.verify_strict(&ka));
            assert_eq!(message.msg, "hello");
        }
        other => panic!("unexpected event: {:?}", other),
    }
}

#[test]
fn empty_channel_fan_out_succeeds_with_zero_sends() {
    let ch = channel(3, "quiet");
    let targets = ch.send_msg_targets();
    assert_eq!(targets.len(), 0);
    let failures: Vec<String> = Vec::new();
    assert!(fan_out_result(&failures).is_ok());
}

#[test]
fn failed_send_is_a_deliver_error_and_evicts_the_outbox() {
    // The session aborts between connect and the first send: the send fails
    // at the wire, the fan-out fails, and the outbox is evicted.
    let (_, kb) = peer(20);
    let mut ch = channel(3, "c");
    ch.record_export(&kb, 1);
    ch.connect_peer(&kb, Outbox { peer_key: kb.dup(), position: 5 });
    assert_eq!(ch.send_msg_targets().len(), 1);

    let failures = vec!["connection reset".to_string()];
    let aggregate = fan_out_result(&failures);
    assert!(aggregate.is_err());

    ch.send_failed(&kb);
    assert_eq!(ch.send_msg_targets().len(), 0);
}

#[test]
fn session_abort_cleans_up() {
    // After SessionAborted is processed: the session and portal are gone and
    // every channel evicted the session's outbox.
    let mut a = manager(10, "a");
    let (skb, kb) = peer(20);
    a.register_channel(channel(1, "Jamboree"));
    a.handle_event(NetworkEvent::SessionStarted { session_key: kb.dup() });
    let gw = Gateway::new();
    let msg = b"FIXTHIS".to_vec();
    let sig = skb.sign(&msg);
    let request = gw.authenticate(&kb, kb.dup(), &msg, &sig).expect("valid");
    a.handle_event(request);
    let cid = UuidBytes { bytes: vec![1u8; 16] };
    a.portal_connect(&kb, &cid, 5).expect("connects");

    let outcome = a.handle_event(NetworkEvent::SessionAborted {
        session_key: kb.dup(),
        reason: "shutdown".to_string(),
    });
    match outcome {
        HandleOutcome::Surface { event: ChatEvent::SessionAborted { session_key, reason } } => {
            assert_eq!(session_key.bytes, kb.bytes);
            assert_eq!(reason, "shutdown");
        }
        other => panic!("unexpected outcome: {:?}", other),
    }

    // the session is gone: fetches and portal requests for it fail
    assert_eq!(a.serve_fetch(&kb, gateway_swiss_vec()), Err(FetchServeError::UnknownSession));
    assert_eq!(a.handle_portal_request(&kb, &kb), Err(PortalRequestError::UnknownSession));
    // the portal is gone: a fresh session has no portal to connect through
    a.handle_event(NetworkEvent::SessionStarted { session_key: kb.dup() });
    match a.portal_connect(&kb, &cid, 5) {
        Err(PortalConnectError::NoPortal) => {}
        other => panic!("unexpected result: {:?}", other),
    }
    // the channel evicted the outbox
    let targets = a.channel_send_targets(&cid).expect("the channel is registered");
    assert_eq!(targets.len(), 0);
}

#[test]
fn portal_request_reuses_the_portal_per_peer() {
    let mut a = manager(10, "a");
    let (_, kb) = peer(20);
    a.handle_event(NetworkEvent::SessionStarted { session_key: kb.dup() });
    let p1 = a.handle_portal_request(&kb, &kb).expect("issued");
    let p2 = a.handle_portal_request(&kb, &kb).expect("issued again");
    // each request exports the portal anew on the session, at fresh positions
    assert_eq!(p1, 1);
    assert_eq!(p2, 2);
}

#[test]
fn session_handler_steps() {
    let (_, kb) = peer(20);
    let mut s = Session::new(kb.dup());
    assert!(!s.is_aborted());

    // a fetch of an unserved swiss asks the manager
    match s.on_event(SessionEvent::Fetch { swiss: b"gateway".to_vec() }) {
        SessionAction::AskManager { swiss } => assert_eq!(swiss, b"gateway".to_vec()),
        other => panic!("unexpected action: {:?}", other),
    }
    // the manager answers; the handler exports and records
    let pos = s.record_fetch(b"gateway".to_vec(), ExportedCap::Gateway);
    assert_eq!(pos, 1);
    // a second fetch of the same swiss is served from the registry
    match s.on_event(SessionEvent::Fetch { swiss: b"gateway".to_vec() }) {
        SessionAction::ResolveCached { position } => assert_eq!(position, 1),
        other => panic!("unexpected action: {:?}", other),
    }
    // an abort propagates and is terminal
    match s.on_event(SessionEvent::Abort { reason: "quitting".to_string() }) {
        SessionAction::EmitAborted { session_key, reason } => {
            assert_eq!(session_key.bytes, kb.bytes);
            assert_eq!(reason, "quitting");
        }
        other => panic!("unexpected action: {:?}", other),
    }
    assert!(s.is_aborted());
}

#[test]
fn portal_connect_standalone_reuses_export() {
    let (_, kb) = peer(20);
    let portal = Portal::new(kb.dup());
    let mut session = Session::new(kb.dup());
    let mut ch = channel(4, "c");

    let (r1, _) = portal.connect(&mut session, &mut ch, 7);
    let (r2, _) = portal.connect(&mut session, &mut ch, 8);
    assert_eq!(r1.position, r2.position);
    assert_eq!(session.exports_len(), 1);
    let targets = ch.send_msg_targets();
    assert_eq!(targets.len(), 1);
    assert_eq!(targets[0].position, 8);
}

#[test]
fn session_status_matches_lifecycle() {
    let (_, kb) = peer(20);
    let mut s = Session::new(kb);
    s.mark_aborted();
    assert!(s.is_aborted());
    let _ = SessionStatus::Open;
    let _ = troposphere::session::FulfillResponseHandler::new();
}

#[test]
fn manager_send_failure_evicts_the_outbox() {
    let mut a = manager(10, "a");
    let (skb, kb) = peer(20);
    a.register_channel(channel(1, "Jamboree"));
    a.handle_event(NetworkEvent::SessionStarted { session_key: kb.dup() });
    let gw = Gateway::new();
    let msg = b"FIXTHIS".to_vec();
    let sig = skb.sign(&msg);
    let request = gw.authenticate(&kb, kb.dup(), &msg, &sig).expect("valid");
    a.handle_event(request);
    let cid = UuidBytes { bytes: vec![1u8; 16] };
    a.portal_connect(&kb, &cid, 5).expect("connects");
    assert_eq!(a.channel_send_targets(&cid).expect("registered").len(), 1);

    a.channel_send_failed(&cid, &kb).expect("registered");
    assert_eq!(a.channel_send_targets(&cid).expect("registered").len(), 0);

    let missing = UuidBytes { bytes: vec![8u8; 16] };
    match a.channel_send_targets(&missing) {
        Err(PortalConnectError::UnknownChannel) => {}
        other => panic!("unexpected result: {:?}", other),
    }
}
