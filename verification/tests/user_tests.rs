use troposphere::channel::{Channel, ChannelEvent, ChannelInfo};
use troposphere::crypto::PeerKey;
use troposphere::ident::{fresh_uuid, UuidBytes};
use troposphere::locator::{Locator, SturdyRefLocator};
use troposphere::user::{Persona, Profile};

#[test]
fn fresh_uuids_are_sixteen_bytes_and_distinct() {
    let a = fresh_uuid();
    let b = fresh_uuid();
    assert_eq!(a.bytes.len(), 16);
    assert_eq!(b.bytes.len(), 16);
    assert_ne!(a.bytes, b.bytes);
}

#[test]
fn persona_serves_profile_snapshots() {
    let mut persona = Persona::new(Profile::new(
        PeerKey { bytes: vec![1u8; 32] },
        "alice".to_string(),
        None,
    ));
    assert_eq!(persona.profile().username, "alice");
    persona.update_profile(Profile::new(
        PeerKey { bytes: vec![1u8; 32] },
        "alice2".to_string(),
        Some("new.png".to_string()),
    ));
    assert_eq!(persona.profile().username, "alice2");
    assert_eq!(persona.profile().avatar, Some("new.png".to_string()));
}

#[test]
fn introduction_is_surfaced_to_the_consumer() {
    let ch = Channel::new(
        UuidBytes { bytes: vec![2u8; 16] },
        ChannelInfo::new("c".to_string(), "".to_string()),
    );
    let peer = PeerKey { bytes: vec![9u8; 32] };
    let locator = Locator::new("somewhere".to_string(), "tcpip".to_string());
    let sref = SturdyRefLocator::new(locator, vec![2u8; 16]);
    match ch.introduce(peer, sref) {
        ChannelEvent::Introduce { channel_id, peer_key, locator } => {
            assert_eq!(channel_id.bytes, vec![2u8; 16]);
            assert_eq!(peer_key.bytes, vec![9u8; 32]);
            assert_eq!(locator.locator.designator, "somewhere");
            assert_eq!(locator.swiss, vec![2u8; 16]);
        }
        other => panic!("unexpected event: {:?}", other),
    }
}

#[test]
fn channel_listing_reflects_the_channel() {
    let ch = Channel::new(
        UuidBytes { bytes: vec![3u8; 16] },
        ChannelInfo::new("Jamboree".to_string(), "a fine channel".to_string()),
    );
    let listing = ch.listing();
    assert_eq!(listing.id.bytes, *ch.id().bytes);
    assert_eq!(listing.info.name, ch.info().name);
    assert_eq!(listing.info.description, "a fine channel");
}
