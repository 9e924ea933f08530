//! The portal: the per-peer capability handed out after authentication.
//! Through it a remote lists the channels this node hosts and joins one,
//! handing over the export position of its own outbox.

use vstd::prelude::*;
use crate::channel::{Channel, ChannelEvent, ChannelListing, Outbox};
use crate::crypto::{PeerKey, PEER_KEY_LEN};
use crate::keymap::KeyMap;
use crate::session::{ExportedCap, Session};

verus! {

/// What `connect` answers: the export position, on the joined session, of
/// the channel at this node.
#[derive(Debug)]
pub struct ConnectResult {
    pub position: u64,
}

/// The per-peer capability issued on successful authentication.
pub struct Portal {
    remote_key: PeerKey,
}

/// How one `connect` call changes the channel: the channel keeps its
/// identity; the export position for the session is reused when one is
/// recorded and recorded fresh otherwise; the caller's outbox replaces
/// whatever outbox the session had, and no other session's records move.
pub open spec fn connect_channel_post(
    c0: Channel,
    c1: Channel,
    k: Seq<u8>,
    peer: Seq<u8>,
    outbox_position: u64,
    pos: u64,
) -> bool {
    &&& c1.spec_id() == c0.spec_id()
    &&& c1.spec_info() == c0.spec_info()
    &&& if c0.exported_at_view().dom().contains(k) {
        c1.exported_at_view() == c0.exported_at_view() && pos == c0.exported_at_view()[k]
    } else {
        c1.exported_at_view() == c0.exported_at_view().insert(k, pos)
    }
    &&& c1.outboxes_view().dom() == c0.outboxes_view().dom().insert(k)
    &&& forall|k2: Seq<u8>|
        k2 != k && c0.outboxes_view().dom().contains(k2) ==> c1.outboxes_view()[k2]
            == c0.outboxes_view()[k2]
    &&& c1.outboxes_view().dom().contains(k)
    &&& c1.outboxes_view()[k].peer_key@ == peer
    &&& c1.outboxes_view()[k].position == outbox_position
}

impl Portal {
    /// The key of the peer this portal was issued to.
    pub closed spec fn spec_remote_key(&self) -> Seq<u8> {
        self.remote_key@
    }

    /// A portal is well-formed when it names its peer by a full key.
    pub open spec fn wf(&self) -> bool {
        self.spec_remote_key().len() == PEER_KEY_LEN
    }

    /// The portal for the peer `remote_key`.
    pub fn new(remote_key: PeerKey) -> (r: Portal)
        requires
            remote_key.wf(),
        ensures
            r.wf(),
            r.spec_remote_key() == remote_key@,
    {
        Portal { remote_key }
    }

    /// The key of the peer this portal was issued to.
    pub fn remote_key(&self) -> (r: &PeerKey)
        ensures
            r@ == self.spec_remote_key(),
    {
        &self.remote_key
    }

    /// A snapshot of the channel directory: one listing per channel.
    pub fn list_channels(&self, channels: &KeyMap<Channel>) -> (r: Vec<ChannelListing>)
        requires
            forall|id: Seq<u8>|
                channels@.dom().contains(id) ==> #[trigger] channels@[id].spec_id() == id,
        ensures
            forall|i: int|
                0 <= i < r@.len() ==> {
                    &&& channels@.dom().contains(#[trigger] r@[i].id@)
                    &&& channels@[r@[i].id@].spec_info().name@ == r@[i].info.name@
                    &&& channels@[r@[i].id@].spec_info().description@ == r@[i].info.description@
                },
            forall|i: int, j: int| 0 <= i < j < r@.len() ==> r@[i].id@ != r@[j].id@,
            forall|id: Seq<u8>|
                channels@.dom().contains(id) ==> exists|i: int|
                    0 <= i < r@.len() && #[trigger] r@[i].id@ == id,
    {
        channel_listings(channels)
    }
}

/// A snapshot of a channel directory: one listing per channel.
pub fn channel_listings(channels: &KeyMap<Channel>) -> (r: Vec<ChannelListing>)
    requires
        forall|id: Seq<u8>|
            channels@.dom().contains(id) ==> #[trigger] channels@[id].spec_id() == id,
    ensures
        forall|i: int|
            0 <= i < r@.len() ==> {
                &&& channels@.dom().contains(#[trigger] r@[i].id@)
                &&& channels@[r@[i].id@].spec_info().name@ == r@[i].info.name@
                &&& channels@[r@[i].id@].spec_info().description@ == r@[i].info.description@
            },
        forall|i: int, j: int| 0 <= i < j < r@.len() ==> r@[i].id@ != r@[j].id@,
        forall|id: Seq<u8>|
            channels@.dom().contains(id) ==> exists|i: int|
                0 <= i < r@.len() && #[trigger] r@[i].id@ == id,
{
        let entries = channels.entries_ref();
        let mut r: Vec<ChannelListing> = Vec::new();
        let mut i: usize = 0;
        while i < entries.len()
            invariant
                i <= entries@.len(),
                r@.len() == i,
                forall|id: Seq<u8>|
                    channels@.dom().contains(id) ==> #[trigger] channels@[id].spec_id() == id,
                forall|t: int|
                    0 <= t < entries@.len() ==> channels@.contains_pair(
                        #[trigger] entries@[t].0@,
                        entries@[t].1,
                    ),
                forall|t: int, u: int|
                    0 <= t < u < entries@.len() ==> entries@[t].0@ != entries@[u].0@,
                forall|t: int|
                    0 <= t < i ==> {
                        &&& #[trigger] r@[t].id@ == entries@[t].0@
                        &&& r@[t].info.name@ == entries@[t].1.spec_info().name@
                        &&& r@[t].info.description@ == entries@[t].1.spec_info().description@
                    },
            decreases entries@.len() - i,
        {
            let listing = entries[i].1.listing();
            proof {
                assert(channels@.contains_pair(entries@[i as int].0@, entries@[i as int].1));
                assert(entries@[i as int].1.spec_id() == entries@[i as int].0@);
            }
            r.push(listing);
            i = i + 1;
        }
        proof {
            assert forall|id: Seq<u8>| channels@.dom().contains(id) implies exists|t: int|
                0 <= t < r@.len() && #[trigger] r@[t].id@ == id by {
                let t = choose|t: int|
                    0 <= t < entries@.len() && #[trigger] entries@[t].0@ == id;
                assert(r@[t].id@ == id);
            }
        }
        r
}

impl Portal {
    /// Joins this portal's peer to `channel` over `session`: reuses the
    /// channel's export position on that session or exports it fresh,
    /// registers the peer's outbox — replacing any outbox recorded for the
    /// session — and reports the join.
    pub fn connect(
        &self,
        session: &mut Session,
        channel: &mut Channel,
        outbox_position: u64,
    ) -> (r: (ConnectResult, ChannelEvent))
        requires
            self.wf(),
            old(session).wf(),
            old(channel).wf(),
            old(session).exports_view().len() < u64::MAX,
        ensures
            final(session).wf(),
            final(channel).wf(),
            final(session).spec_remote_key() == old(session).spec_remote_key(),
            final(session).spec_status() == old(session).spec_status(),
            final(session).registry_view() == old(session).registry_view(),
            connect_channel_post(
                *old(channel),
                *final(channel),
                old(session).spec_remote_key(),
                self.spec_remote_key(),
                outbox_position,
                r.0.position,
            ),
            if old(channel).exported_at_view().dom().contains(old(session).spec_remote_key()) {
                final(session).exports_view() == old(session).exports_view()
            } else {
                final(session).exports_view().len() == old(session).exports_view().len() + 1
                    && r.0.position == old(session).exports_view().len() + 1
            },
            r.1 matches ChannelEvent::PeerConnected { channel_id, peer_key } && channel_id@ == old(
                channel,
            ).spec_id() && peer_key@ == self.spec_remote_key(),
    {
        let skey = session.remote_key().dup();
        let pos = match channel.exported_position(&skey) {
            Some(p) => p,
            None => {
                let p = session.export(ExportedCap::Channel { channel_id: channel.id().dup() });
                channel.record_export(&skey, p);
                p
            },
        };
        let ev = channel.connect_peer(
            &skey,
            Outbox { peer_key: self.remote_key.dup(), position: outbox_position },
        );
        (ConnectResult { position: pos }, ev)
    }
}

/// Law: a repeated `connect` from the same session replaces the recorded
/// outbox and never creates a duplicate export: the second call answers the
/// same position as the first, adds no export record, and leaves the set of
/// sessions with outboxes unchanged.
pub proof fn lemma_connect_repeat(
    c0: Channel,
    c1: Channel,
    c2: Channel,
    k: Seq<u8>,
    peer: Seq<u8>,
    outbox_position1: u64,
    outbox_position2: u64,
    p1: u64,
    p2: u64,
)
    requires
        connect_channel_post(c0, c1, k, peer, outbox_position1, p1),
        connect_channel_post(c1, c2, k, peer, outbox_position2, p2),
    ensures
        p2 == p1,
        c2.exported_at_view() == c1.exported_at_view(),
        c2.outboxes_view().dom() == c1.outboxes_view().dom(),
        c2.outboxes_view()[k].position == outbox_position2,
{
    assert(c1.exported_at_view().dom().contains(k));
    assert(c1.exported_at_view()[k] == p1);
    assert(c2.outboxes_view().dom() =~= c1.outboxes_view().dom());
}

} // verus!
