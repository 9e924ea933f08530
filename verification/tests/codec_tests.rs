use troposphere::codec::{parse_lp, parse_num, push_decimal, push_lp, string_from_utf8};
use troposphere::crypto::{PeerKey, Signature};
use troposphere::channel::{ChannelInfo, ChannelListing};
use troposphere::ident::UuidBytes;
use troposphere::message::Message;
use troposphere::user::Profile;

#[test]
fn decimal_digits_exact() {
    let mut out: Vec<u8> = Vec::new();
    push_decimal(0, &mut out);
    assert_eq!(out, b"0".to_vec());
    let mut out: Vec<u8> = Vec::new();
    push_decimal(10, &mut out);
    assert_eq!(out, b"10".to_vec());
    let mut out: Vec<u8> = Vec::new();
    push_decimal(90107, &mut out);
    assert_eq!(out, b"90107".to_vec());
}

#[test]
fn length_prefixed_bytes_exact() {
    let mut out: Vec<u8> = Vec::new();
    push_lp(&b"cat".to_vec(), 58, &mut out);
    assert_eq!(out, b"3:cat".to_vec());
}

#[test]
fn parse_num_reads_decimal() {
    let input = b"12:abcdefghijkl".to_vec();
    let (v, j) = parse_num(&input, 0).expect("a number");
    assert_eq!(v, 12);
    assert_eq!(j, 2);
    assert!(parse_num(&input, 2).is_none());
}

#[test]
fn parse_num_rejects_oversized_length() {
    let input = b"99999999999999999999999999:x".to_vec();
    assert!(parse_num(&input, 0).is_none());
}

#[test]
fn parse_lp_round_trip() {
    let mut out: Vec<u8> = Vec::new();
    push_lp(&b"hello".to_vec(), 58, &mut out);
    out.extend_from_slice(b"tail");
    let (payload, j) = parse_lp(&out, 0, 58).expect("a payload");
    assert_eq!(payload, b"hello".to_vec());
    assert_eq!(&out[j..], b"tail");
}

#[test]
fn parse_lp_rejects_truncated_payload() {
    let input = b"5:abc".to_vec();
    assert!(parse_lp(&input, 0, 58).is_none());
}

#[test]
fn utf8_decoding_accepts_exactly_valid_utf8() {
    assert_eq!(
        string_from_utf8(b"gr\xc3\xbcn".to_vec()).expect("valid"),
        "gr\u{fc}n".to_string()
    );
    assert!(string_from_utf8(vec![0xff, 0xfe]).is_none());
}

fn sample_message() -> Message {
    Message {
        id: UuidBytes { bytes: (0u8..16).collect() },
        sender: PeerKey { bytes: vec![7u8; 32] },
        msg: "hello, channel".to_string(),
        signature: Signature { bytes: vec![9u8; 64] },
    }
}

#[test]
fn message_round_trip() {
    let m = sample_message();
    let bytes = m.serialize();
    let m2 = Message::deserialize(&bytes).expect("round trip");
    assert_eq!(m2.id.bytes, m.id.bytes);
    assert_eq!(m2.sender.bytes, m.sender.bytes);
    assert_eq!(m2.msg, m.msg);
    assert_eq!(m2.signature.bytes, m.signature.bytes);
}

#[test]
fn message_serialization_exact() {
    let m = Message {
        id: UuidBytes { bytes: vec![0u8; 16] },
        sender: PeerKey { bytes: vec![1u8; 32] },
        msg: "hi".to_string(),
        signature: Signature { bytes: vec![2u8; 64] },
    };
    let mut expected: Vec<u8> = Vec::new();
    expected.extend_from_slice(b"<7'message16:");
    expected.extend_from_slice(&[0u8; 16]);
    expected.extend_from_slice(b"32:");
    expected.extend_from_slice(&[1u8; 32]);
    expected.extend_from_slice(b"2\"hi64:");
    expected.extend_from_slice(&[2u8; 64]);
    expected.extend_from_slice(b">");
    assert_eq!(m.serialize(), expected);
}

#[test]
fn message_deserialize_rejects_malformed_input() {
    let m = sample_message();
    let good = m.serialize();
    // truncated
    let cut = good[..good.len() - 1].to_vec();
    assert!(Message::deserialize(&cut).is_none());
    // trailing garbage
    let mut long = good.clone();
    long.push(33);
    assert!(Message::deserialize(&long).is_none());
    // wrong label
    let mut relabeled = good.clone();
    relabeled[3] = b'x';
    assert!(Message::deserialize(&relabeled).is_none());
    // empty
    assert!(Message::deserialize(&Vec::new()).is_none());
}

#[test]
fn profile_round_trip_with_and_without_avatar() {
    let p = Profile::new(
        PeerKey { bytes: vec![3u8; 32] },
        "robin".to_string(),
        Some("hat.png".to_string()),
    );
    let bytes = p.serialize();
    let p2 = Profile::deserialize(&bytes).expect("round trip");
    assert_eq!(p2.vkey.bytes, p.vkey.bytes);
    assert_eq!(p2.username, "robin");
    assert_eq!(p2.avatar, Some("hat.png".to_string()));

    let q = Profile::new(PeerKey { bytes: vec![4u8; 32] }, "sam".to_string(), None);
    let bytes = q.serialize();
    let q2 = Profile::deserialize(&bytes).expect("round trip");
    assert_eq!(q2.vkey.bytes, q.vkey.bytes);
    assert_eq!(q2.username, "sam");
    assert_eq!(q2.avatar, None);
}

#[test]
fn profile_serialization_exact() {
    let p = Profile::new(PeerKey { bytes: vec![1u8; 32] }, "ab".to_string(), None);
    let mut expected: Vec<u8> = Vec::new();
    expected.extend_from_slice(b"<7'profile32:");
    expected.extend_from_slice(&[1u8; 32]);
    expected.extend_from_slice(b"2\"abf>");
    assert_eq!(p.serialize(), expected);
}

#[test]
fn listing_round_trip() {
    let l = ChannelListing {
        id: UuidBytes { bytes: (16u8..32).collect() },
        info: ChannelInfo::new("Jamboree".to_string(), "".to_string()),
    };
    let bytes = l.serialize();
    let l2 = ChannelListing::deserialize(&bytes).expect("round trip");
    assert_eq!(l2.id.bytes, l.id.bytes);
    assert_eq!(l2.info.name, "Jamboree");
    assert_eq!(l2.info.description, "");
}

#[test]
fn uuid_display_string_exact() {
    let id = UuidBytes { bytes: vec![0u8; 16] };
    assert_eq!(id.to_display_string(), "00000000-0000-0000-0000-000000000000");
    let id = UuidBytes {
        bytes: vec![
            0x01, 0x23, 0x45, 0x67, 0x89, 0xab, 0xcd, 0xef, 0x01, 0x23, 0x45, 0x67, 0x89, 0xab,
            0xcd, 0xef,
        ],
    };
    assert_eq!(id.to_display_string(), "01234567-89ab-cdef-0123-456789abcdef");
}
