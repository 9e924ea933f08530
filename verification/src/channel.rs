//! The channel engine. A channel is owned by one peer for the lifetime of
//! its chat manager; remote peers join it through a portal and receive every
//! message sent on it. Per remote session the channel records the export
//! position it was handed out at, and the outbox it sends to; an outbox is
//! only ever recorded for a session the channel was exported on.

use vstd::prelude::*;
use vstd::string::StringSliceAdditionalSpecFns;
use vstd::string::StrSliceExecFns;
use crate::codec::{
    enc_bytes, enc_str, enc_sym, push_lp, parse_lp, string_from_utf8, spec_parse_lp, SEP_BYTES,
    SEP_STR, SEP_SYM, REC_OPEN, REC_CLOSE,
};
use crate::crypto::PeerKey;
use crate::ident::{ChannelId, UUID_LEN};
use crate::keymap::{bytes_clone, bytes_eq, KeyMap};
use crate::locator::SturdyRefLocator;
use crate::message::Message;

verus! {

/// A channel's display data.
#[derive(Clone, Debug)]
pub struct ChannelInfo {
    pub name: String,
    pub description: String,
}

impl ChannelInfo {
    /// Assembles channel display data.
    pub fn new(name: String, description: String) -> (r: ChannelInfo)
        ensures
            r.name@ == name@,
            r.description@ == description@,
    {
        ChannelInfo { name, description }
    }

    /// A copy of the display data.
    pub fn dup(&self) -> (r: ChannelInfo)
        ensures
            r.name@ == self.name@,
            r.description@ == self.description@,
    {
        ChannelInfo { name: self.name.clone(), description: self.description.clone() }
    }
}

/// The record label of a serialized channel listing, ASCII `channel-listing`.
pub open spec fn label_listing() -> Seq<u8> {
    seq![
        99u8,
        104u8,
        97u8,
        110u8,
        110u8,
        101u8,
        108u8,
        45u8,
        108u8,
        105u8,
        115u8,
        116u8,
        105u8,
        110u8,
        103u8,
    ]
}

fn label_listing_vec() -> (r: Vec<u8>)
    ensures
        r@ == label_listing(),
{
    let r: Vec<u8> = vec![
        99u8,
        104u8,
        97u8,
        110u8,
        110u8,
        101u8,
        108u8,
        45u8,
        108u8,
        105u8,
        115u8,
        116u8,
        105u8,
        110u8,
        103u8,
    ];
    proof {
        assert(r@ =~= label_listing());
    }
    r
}

/// The serializable summary that `list_channels` returns.
#[derive(Clone, Debug)]
pub struct ChannelListing {
    pub id: ChannelId,
    pub info: ChannelInfo,
}

/// The serialization of a channel listing: a record labelled
/// `channel-listing` holding the id, the name and the description.
pub open spec fn spec_enc_listing(id: Seq<u8>, name: Seq<char>, description: Seq<char>) -> Seq<
    u8,
> {
    seq![REC_OPEN] + enc_sym(label_listing()) + enc_bytes(id) + enc_str(name) + enc_str(
        description,
    ) + seq![REC_CLOSE]
}

/// What reading a serialized channel listing yields, the whole input
/// consumed.
pub open spec fn spec_parse_listing(s: Seq<u8>) -> Option<(Seq<u8>, Seq<char>, Seq<char>)> {
    if s.len() < 1 || s[0] != REC_OPEN {
        None
    } else {
        match spec_parse_lp(s, 1, SEP_SYM) {
            Some((label, i1)) => if label != label_listing() {
                None
            } else {
                match spec_parse_lp(s, i1, SEP_BYTES) {
                    Some((id, i2)) => if id.len() != UUID_LEN {
                        None
                    } else {
                        match spec_parse_lp(s, i2, SEP_STR) {
                            Some((nb, i3)) => if !vstd::utf8::valid_utf8(nb) {
                                None
                            } else {
                                match spec_parse_lp(s, i3, SEP_STR) {
                                    Some((db, i4)) => if vstd::utf8::valid_utf8(db) && i4
                                        < s.len() && i4 + 1 == s.len() && s[i4] == REC_CLOSE {
                                        Some(
                                            (
                                                id,
                                                vstd::utf8::decode_utf8(nb),
                                                vstd::utf8::decode_utf8(db),
                                            ),
                                        )
                                    } else {
                                        None
                                    },
                                    None => None,
                                }
                            },
                            None => None,
                        }
                    },
                    None => None,
                }
            },
            None => None,
        }
    }
}

impl ChannelListing {
    /// Serializes the listing as a labelled record.
    pub fn serialize(&self) -> (r: Vec<u8>)
        ensures
            r@ == spec_enc_listing(self.id@, self.info.name@, self.info.description@),
    {
        let mut out: Vec<u8> = Vec::new();
        out.push(REC_OPEN);
        let label = label_listing_vec();
        push_lp(&label, SEP_SYM, &mut out);
        push_lp(&self.id.bytes, SEP_BYTES, &mut out);
        let nb = self.info.name.as_str().as_bytes_vec();
        push_lp(&nb, SEP_STR, &mut out);
        let db = self.info.description.as_str().as_bytes_vec();
        push_lp(&db, SEP_STR, &mut out);
        out.push(REC_CLOSE);
        proof {
            assert(out@ =~= spec_enc_listing(self.id@, self.info.name@, self.info.description@));
        }
        out
    }

    /// Reads a listing back from its serialization; fails exactly where the
    /// input is not such a serialization.
    pub fn deserialize(bytes: &Vec<u8>) -> (r: Option<ChannelListing>)
        ensures
            match r {
                Some(l) => spec_parse_listing(bytes@) == Some(
                    (l.id@, l.info.name@, l.info.description@),
                ) && l.id.wf(),
                None => spec_parse_listing(bytes@) is None,
            },
    {
        if bytes.len() < 1 || bytes[0] != REC_OPEN {
            return None;
        }
        let (label, i1) = match parse_lp(bytes, 1, SEP_SYM) {
            Some(x) => x,
            None => { return None; },
        };
        let expected = label_listing_vec();
        if !bytes_eq(&label, &expected) {
            return None;
        }
        let (id, i2) = match parse_lp(bytes, i1, SEP_BYTES) {
            Some(x) => x,
            None => { return None; },
        };
        if id.len() != UUID_LEN {
            return None;
        }
        let (nb, i3) = match parse_lp(bytes, i2, SEP_STR) {
            Some(x) => x,
            None => { return None; },
        };
        let name = match string_from_utf8(nb) {
            Some(s) => s,
            None => { return None; },
        };
        let (db, i4) = match parse_lp(bytes, i3, SEP_STR) {
            Some(x) => x,
            None => { return None; },
        };
        let description = match string_from_utf8(db) {
            Some(s) => s,
            None => { return None; },
        };
        if !(i4 < bytes.len() && i4 + 1 == bytes.len() && bytes[i4] == REC_CLOSE) {
            return None;
        }
        Some(
            ChannelListing {
                id: ChannelId { bytes: id },
                info: ChannelInfo { name, description },
            },
        )
    }
}

/// Law: decoding undoes encoding for channel listings.
pub proof fn lemma_listing_round_trip(id: Seq<u8>, name: Seq<char>, description: Seq<char>)
    requires
        id.len() == UUID_LEN,
    ensures
        spec_parse_listing(spec_enc_listing(id, name, description)) == Some(
            (id, name, description),
        ),
{
    broadcast use vstd::utf8::encode_utf8_valid_utf8;
    broadcast use vstd::utf8::encode_utf8_decode_utf8;

    let s = spec_enc_listing(id, name, description);
    let e0 = enc_sym(label_listing());
    let e1 = enc_bytes(id);
    let e2 = enc_str(name);
    let e3 = enc_str(description);
    let o1 = 1 + e0.len() as int;
    let o2 = o1 + e1.len() as int;
    let o3 = o2 + e2.len() as int;
    let o4 = o3 + e3.len() as int;
    assert(s.len() == o4 + 1);
    assert(s[0] == REC_OPEN);
    assert(s.subrange(1, o1) =~= e0);
    assert(s.subrange(o1, o2) =~= e1);
    assert(s.subrange(o2, o3) =~= e2);
    assert(s.subrange(o3, o4) =~= e3);
    assert(s[o4] == REC_CLOSE);
    crate::codec::lemma_parse_lp_exact(s, 1, label_listing(), SEP_SYM);
    crate::codec::lemma_parse_lp_exact(s, o1, id, SEP_BYTES);
    crate::codec::lemma_parse_lp_exact(s, o2, vstd::utf8::encode_utf8(name), SEP_STR);
    crate::codec::lemma_parse_lp_exact(s, o3, vstd::utf8::encode_utf8(description), SEP_STR);
}

/// A remote peer's receiving endpoint for a channel on one session: the
/// peer's key and the export position of its outbox object there.
#[derive(Debug)]
pub struct Outbox {
    pub peer_key: PeerKey,
    pub position: u64,
}

/// What a channel hands its consumer.
#[derive(Debug)]
pub enum ChannelEvent {
    /// A message arrived from a remote peer. Signatures are not checked at
    /// receipt; verification is the consumer's to make.
    RecvMessage { channel_id: ChannelId, message: Message },
    /// A remote peer joined the channel.
    PeerConnected { channel_id: ChannelId, peer_key: PeerKey },
    /// A remote peer introduced another peer to the channel.
    Introduce { channel_id: ChannelId, peer_key: PeerKey, locator: SturdyRefLocator },
}

/// One send of the fan-out: the session to send on, the peer behind it and
/// the export position of its outbox.
#[derive(Debug)]
pub struct SendTarget {
    pub session_key: Vec<u8>,
    pub peer_key: PeerKey,
    pub position: u64,
}

/// A chat channel and its per-session records.
pub struct Channel {
    id: ChannelId,
    info: ChannelInfo,
    exported_at: KeyMap<u64>,
    outboxes: KeyMap<Outbox>,
}

impl Channel {
    /// The channel's id bytes.
    pub closed spec fn spec_id(&self) -> Seq<u8> {
        self.id@
    }

    /// The channel's display data.
    pub closed spec fn spec_info(&self) -> ChannelInfo {
        self.info
    }

    /// Per session key, the export position the channel was handed out at.
    pub closed spec fn exported_at_view(&self) -> Map<Seq<u8>, u64> {
        self.exported_at@
    }

    /// Per session key, the outbox the channel sends to.
    pub closed spec fn outboxes_view(&self) -> Map<Seq<u8>, Outbox> {
        self.outboxes@
    }

    /// A channel is well-formed when its id is a full UUID and every session
    /// with an outbox is one the channel was exported on.
    pub open spec fn wf(&self) -> bool {
        self.spec_id().len() == UUID_LEN && self.outboxes_view().dom().subset_of(
            self.exported_at_view().dom(),
        )
    }

    /// A fresh channel with no exports and no outboxes.
    pub fn new(id: ChannelId, info: ChannelInfo) -> (r: Channel)
        requires
            id.wf(),
        ensures
            r.wf(),
            r.spec_id() == id@,
            r.spec_info() == info,
            r.exported_at_view() == Map::<Seq<u8>, u64>::empty(),
            r.outboxes_view() == Map::<Seq<u8>, Outbox>::empty(),
    {
        Channel { id, info, exported_at: KeyMap::new(), outboxes: KeyMap::new() }
    }

    /// The channel's id.
    pub fn id(&self) -> (r: &ChannelId)
        ensures
            r@ == self.spec_id(),
    {
        &self.id
    }

    /// The channel's display data.
    pub fn info(&self) -> (r: &ChannelInfo)
        ensures
            *r == self.spec_info(),
    {
        &self.info
    }

    /// The listing that `list_channels` shows for this channel.
    pub fn listing(&self) -> (r: ChannelListing)
        ensures
            r.id@ == self.spec_id(),
            r.info.name@ == self.spec_info().name@,
            r.info.description@ == self.spec_info().description@,
    {
        ChannelListing { id: self.id.dup(), info: self.info.dup() }
    }

    /// Records that the channel was exported on `session_key` at `position`.
    pub fn record_export(&mut self, session_key: &PeerKey, position: u64)
        requires
            old(self).wf(),
        ensures
            final(self).wf(),
            final(self).spec_id() == old(self).spec_id(),
            final(self).spec_info() == old(self).spec_info(),
            final(self).exported_at_view() == old(self).exported_at_view().insert(
                session_key@,
                position,
            ),
            final(self).outboxes_view() == old(self).outboxes_view(),
    {
        self.exported_at.insert(bytes_clone(&session_key.bytes), position);
    }

    /// The position the channel was exported at on `session_key`, when it
    /// was.
    pub fn exported_position(&self, session_key: &PeerKey) -> (r: Option<u64>)
        ensures
            match r {
                Some(p) => self.exported_at_view().dom().contains(session_key@)
                    && self.exported_at_view()[session_key@] == p,
                None => !self.exported_at_view().dom().contains(session_key@),
            },
    {
        match self.exported_at.get(&session_key.bytes) {
            Some(p) => Some(*p),
            None => None,
        }
    }

    /// Registers `outbox` as the remote endpoint on `session_key`, replacing
    /// any outbox recorded there before, and reports the join. The channel
    /// must have been exported on that session.
    pub fn connect_peer(&mut self, session_key: &PeerKey, outbox: Outbox) -> (ev: ChannelEvent)
        requires
            old(self).wf(),
            old(self).exported_at_view().dom().contains(session_key@),
        ensures
            final(self).wf(),
            final(self).spec_id() == old(self).spec_id(),
            final(self).spec_info() == old(self).spec_info(),
            final(self).exported_at_view() == old(self).exported_at_view(),
            final(self).outboxes_view() == old(self).outboxes_view().insert(
                session_key@,
                outbox,
            ),
            ev matches ChannelEvent::PeerConnected { channel_id, peer_key } && channel_id@ == old(
                self,
            ).spec_id() && peer_key@ == outbox.peer_key@,
    {
        let peer_key = outbox.peer_key.dup();
        self.outboxes.insert(bytes_clone(&session_key.bytes), outbox);
        ChannelEvent::PeerConnected { channel_id: self.id.dup(), peer_key }
    }

    /// A message arrived on the channel from a remote: handed to the
    /// consumer unverified.
    pub fn deliver_msg(&self, message: Message) -> (ev: ChannelEvent)
        ensures
            ev matches ChannelEvent::RecvMessage { channel_id, message: m } && channel_id@
                == self.spec_id() && m == message,
    {
        ChannelEvent::RecvMessage { channel_id: self.id.dup(), message }
    }

    /// A remote introduced `peer_key`, reachable at `locator`, to the
    /// channel. Acting on the introduction is the consumer's policy.
    pub fn introduce(&self, peer_key: PeerKey, locator: SturdyRefLocator) -> (ev: ChannelEvent)
        ensures
            ev matches ChannelEvent::Introduce { channel_id, peer_key: p, locator: l }
                && channel_id@ == self.spec_id() && p == peer_key && l == locator,
    {
        ChannelEvent::Introduce { channel_id: self.id.dup(), peer_key, locator }
    }

    /// The sends that one `send_msg` call fans out to: exactly one per
    /// recorded outbox, in particular none on a channel without outboxes.
    pub fn send_msg_targets(&self) -> (r: Vec<SendTarget>)
        ensures
            r@.len() == 0 <==> self.outboxes_view() == Map::<Seq<u8>, Outbox>::empty(),
            forall|i: int|
                0 <= i < r@.len() ==> {
                    &&& self.outboxes_view().dom().contains(#[trigger] r@[i].session_key@)
                    &&& self.outboxes_view()[r@[i].session_key@].peer_key@ == r@[i].peer_key@
                    &&& self.outboxes_view()[r@[i].session_key@].position == r@[i].position
                },
            forall|i: int, j: int| 0 <= i < j < r@.len() ==> r@[i].session_key@ != r@[j].session_key@,
            forall|k: Seq<u8>|
                self.outboxes_view().dom().contains(k) ==> exists|i: int|
                    0 <= i < r@.len() && #[trigger] r@[i].session_key@ == k,
    {
        let entries = self.outboxes.entries_ref();
        let mut r: Vec<SendTarget> = Vec::new();
        let mut i: usize = 0;
        while i < entries.len()
            invariant
                i <= entries@.len(),
                r@.len() == i,
                forall|t: int|
                    0 <= t < i ==> #[trigger] r@[t].session_key@ == entries@[t].0@ && r@[t].peer_key@
                        == entries@[t].1.peer_key@ && r@[t].position == entries@[t].1.position,
            decreases entries@.len() - i,
        {
            let e = &entries[i];
            r.push(
                SendTarget {
                    session_key: bytes_clone(&e.0),
                    peer_key: e.1.peer_key.dup(),
                    position: e.1.position,
                },
            );
            i = i + 1;
        }
        proof {
            if entries@.len() == 0 {
            } else {
                assert(self.outboxes_view().dom().contains(entries@[0].0@));
                assert(self.outboxes_view() != Map::<Seq<u8>, Outbox>::empty());
            }
            assert forall|k: Seq<u8>| self.outboxes_view().dom().contains(k) implies exists|t: int|
                0 <= t < r@.len() && #[trigger] r@[t].session_key@ == k by {
                let t = choose|t: int| 0 <= t < entries@.len() && #[trigger] entries@[t].0@ == k;
                assert(r@[t].session_key@ == k);
            }
        }
        r
    }

    /// A send to `session_key` failed: the outbox there is evicted and not
    /// retried. The failure makes the whole fan-out fail.
    pub fn send_failed(&mut self, session_key: &PeerKey)
        requires
            old(self).wf(),
        ensures
            final(self).wf(),
            final(self).spec_id() == old(self).spec_id(),
            final(self).spec_info() == old(self).spec_info(),
            final(self).exported_at_view() == old(self).exported_at_view(),
            final(self).outboxes_view() == old(self).outboxes_view().remove(session_key@),
    {
        self.outboxes.remove(&session_key.bytes);
    }

    /// The session `session_key` aborted: its outbox and its export record
    /// are both evicted.
    pub fn evict_session(&mut self, session_key: &Vec<u8>)
        requires
            old(self).wf(),
        ensures
            final(self).wf(),
            final(self).spec_id() == old(self).spec_id(),
            final(self).spec_info() == old(self).spec_info(),
            final(self).exported_at_view() == old(self).exported_at_view().remove(session_key@),
            final(self).outboxes_view() == old(self).outboxes_view().remove(session_key@),
    {
        self.outboxes.remove(session_key);
        self.exported_at.remove(session_key);
    }
}

/// Law: a channel only ever sends to sessions it was exported on — every
/// session with an outbox is one with an export record.
pub proof fn lemma_outboxes_are_exported(c: &Channel)
    requires
        c.wf(),
    ensures
        c.outboxes_view().dom().subset_of(c.exported_at_view().dom()),
{
}

/// Why a fan-out failed.
#[derive(Debug)]
pub enum SendMsgError {
    /// A delivery to one outbox failed; carries the transport's words.
    Deliver(String),
}

/// The fail-on-any policy of a fan-out, aborted at the first error: the
/// aggregate send succeeds exactly when no delivery failed — in particular a
/// fan-out of zero sends succeeds.
pub fn fan_out_result(failures: &Vec<String>) -> (r: Result<(), SendMsgError>)
    ensures
        r is Ok <==> failures@.len() == 0,
        r matches Err(SendMsgError::Deliver(reason)) ==> reason@ == failures@[0]@,
{
    if failures.len() == 0 {
        Ok(())
    } else {
        Err(SendMsgError::Deliver(failures[0].clone()))
    }
}

/// The methods a channel capability answers to `deliver_only` calls.
#[derive(PartialEq, Eq, Debug)]
pub enum ChannelMethod {
    SendMsg,
    Introduce,
}

/// ASCII `send_msg`.
pub open spec fn label_send_msg() -> Seq<u8> {
    seq![115u8, 101u8, 110u8, 100u8, 95u8, 109u8, 115u8, 103u8]
}

/// ASCII `introduce`.
pub open spec fn label_introduce() -> Seq<u8> {
    seq![105u8, 110u8, 116u8, 114u8, 111u8, 100u8, 117u8, 99u8, 101u8]
}

/// Resolves a method symbol on the channel capability. An unrecognized name
/// yields nothing; the caller breaks the promise with that name and does not
/// abort the session.
pub fn resolve_channel_method(name: &Vec<u8>) -> (r: Option<ChannelMethod>)
    ensures
        r == Some(ChannelMethod::SendMsg) <==> name@ == label_send_msg(),
        r == Some(ChannelMethod::Introduce) <==> name@ == label_introduce(),
        r is None <==> name@ != label_send_msg() && name@ != label_introduce(),
{
    let send_msg: Vec<u8> = vec![115u8, 101u8, 110u8, 100u8, 95u8, 109u8, 115u8, 103u8];
    proof {
        assert(send_msg@ =~= label_send_msg());
    }
    if bytes_eq(name, &send_msg) {
        return Some(ChannelMethod::SendMsg);
    }
    let introduce: Vec<u8> = vec![105u8, 110u8, 116u8, 114u8, 111u8, 100u8, 117u8, 99u8, 101u8];
    proof {
        assert(introduce@ =~= label_introduce());
    }
    if bytes_eq(name, &introduce) {
        return Some(ChannelMethod::Introduce);
    }
    None
}

} // verus!
