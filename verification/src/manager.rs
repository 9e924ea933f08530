//! The chat manager: the central authority. It owns the signing key, the
//! local persona, the transport registry, and the directories of sessions,
//! portals and channels; it consumes every `NetworkEvent` in arrival order
//! and answers fetches, issues portals, and cleans up after aborted
//! sessions.

use vstd::prelude::*;
use crate::channel::Channel;
use crate::crypto::{vk_of, PeerKey, SigningKey, SECRET_KEY_LEN};
use crate::event::{ChatEvent, NetworkEvent};
use crate::gateway::{gateway_swiss, gateway_swiss_vec, Gateway};
use crate::ident::{fresh_uuid, uuid_string, UUID_LEN};
use crate::keymap::{assoc_has_key, assoc_keys_distinct, bytes_clone, bytes_eq, KeyMap};
use crate::message::Message;
use crate::netlayer::NetlayerManager;
use crate::portal::Portal;
use crate::session::{ExportedCap, Session, SessionStatus};
use crate::user::{Persona, Profile};

verus! {

/// The reason a fetch promise is broken when no capability answers to the
/// swiss number.
#[derive(PartialEq, Eq, Debug)]
pub struct UnknownSwiss;

impl UnknownSwiss {
    /// The human-readable reason the promise is broken with.
    pub fn reason(&self) -> (r: String)
        ensures
            r@ == "unrecognized swiss"@,
    {
        let r = String::new().concat("unrecognized swiss");
        proof {
            assert(r@ =~= "unrecognized swiss"@);
        }
        r
    }
}

/// Why a portal request could not be answered. The producers emit
/// `SessionStarted` before any request of its session, so a missing session
/// names a protocol violation; a full export table is a machine limit.
#[derive(PartialEq, Eq, Debug)]
pub enum PortalRequestError {
    UnknownSession,
    ExportsFull,
}

/// How one aborted session changes a channel: its outbox and its export
/// record are gone, nothing else moves.
pub open spec fn channel_evicted(c1: Channel, c0: Channel, k: Seq<u8>) -> bool {
    &&& c1.spec_id() == c0.spec_id()
    &&& c1.spec_info() == c0.spec_info()
    &&& c1.exported_at_view() == c0.exported_at_view().remove(k)
    &&& c1.outboxes_view() == c0.outboxes_view().remove(k)
}

/// The chat manager.
pub struct ChatManager {
    signing_key: SigningKey,
    persona: Persona,
    gateway: Gateway,
    layers: NetlayerManager,
    sessions: KeyMap<Session>,
    portals: KeyMap<Portal>,
    channels: KeyMap<Channel>,
}

impl ChatManager {

    /// Nothing of the manager moved, so it is still well-formed.
    proof fn lemma_wf_preserved(m0: &ChatManager, m1: &ChatManager)
        requires
            m0.wf(),
            m1.spec_signing_key() == m0.spec_signing_key(),
            m1.spec_profile() == m0.spec_profile(),
            m1.spec_layers() == m0.spec_layers(),
            m1.sessions_view() == m0.sessions_view(),
            m1.portals_view() == m0.portals_view(),
            m1.channels_view() == m0.channels_view(),
        ensures
            m1.wf(),
    {
        assert forall|k: Seq<u8>| m1.sessions_view().dom().contains(k) implies (
        #[trigger] m1.sessions_view()[k]).wf() && m1.sessions_view()[k].spec_remote_key()
            == k by {
            assert(m0.sessions_view().dom().contains(k));
            assert((m0.sessions_view()[k]).wf());
            assert(m0.sessions_view()[k] == m1.sessions_view()[k]);
        }
        assert forall|k: Seq<u8>| m1.portals_view().dom().contains(k) implies (
        #[trigger] m1.portals_view()[k]).wf() && m1.portals_view()[k].spec_remote_key() == k by {
            assert(m0.portals_view().dom().contains(k));
            assert((m0.portals_view()[k]).wf());
            assert(m0.portals_view()[k] == m1.portals_view()[k]);
        }
        assert forall|id: Seq<u8>| m1.channels_view().dom().contains(id) implies (
        #[trigger] m1.channels_view()[id]).wf() && m1.channels_view()[id].spec_id() == id by {
            assert(m0.channels_view().dom().contains(id));
            assert((m0.channels_view()[id]).wf());
            assert(m0.channels_view()[id] == m1.channels_view()[id]);
        }
    }

    /// The signing-key seed.
    pub closed spec fn spec_signing_key(&self) -> Seq<u8> {
        self.signing_key@
    }

    /// The local profile.
    pub closed spec fn spec_profile(&self) -> Profile {
        self.persona.profile
    }

    /// The transport registry.
    pub closed spec fn spec_layers(&self) -> NetlayerManager {
        self.layers
    }

    /// Per session key, the session.
    pub closed spec fn sessions_view(&self) -> Map<Seq<u8>, Session> {
        self.sessions@
    }

    /// Per peer key, the portal issued to that peer.
    pub closed spec fn portals_view(&self) -> Map<Seq<u8>, Portal> {
        self.portals@
    }

    /// Per channel id, the channel.
    pub closed spec fn channels_view(&self) -> Map<Seq<u8>, Channel> {
        self.channels@
    }

    /// A well-formed manager holds a full keypair and well-formed
    /// directories, each entry filed under its own name.
    pub open spec fn wf(&self) -> bool {
        &&& self.spec_signing_key().len() == SECRET_KEY_LEN
        &&& self.spec_profile().wf()
        &&& self.spec_layers().wf()
        &&& forall|k: Seq<u8>|
            self.sessions_view().dom().contains(k) ==> (#[trigger] self.sessions_view()[k]).wf()
                && self.sessions_view()[k].spec_remote_key() == k
        &&& forall|k: Seq<u8>|
            self.portals_view().dom().contains(k) ==> (#[trigger] self.portals_view()[k]).wf()
                && self.portals_view()[k].spec_remote_key() == k
        &&& forall|id: Seq<u8>|
            self.channels_view().dom().contains(id) ==> (#[trigger] self.channels_view()[id]).wf()
                && self.channels_view()[id].spec_id() == id
    }

    /// Starts assembling a manager around a signing key.
    pub fn builder(signing_key: SigningKey) -> (r: ChatManagerBuilder)
        requires
            signing_key.wf(),
        ensures
            r.signing_key@ == signing_key@,
            r.signing_key.wf(),
            r.username is None,
            r.avatar is None,
            r.layers.wf(),
    {
        ChatManagerBuilder {
            signing_key,
            username: None,
            avatar: None,
            layers: NetlayerManager::new(),
        }
    }

    /// The local persona.
    pub fn persona(&self) -> (r: &Persona)
        ensures
            r.profile == self.spec_profile(),
    {
        &self.persona
    }

    /// The transport registry.
    pub fn layers(&self) -> (r: &NetlayerManager)
        ensures
            *r == self.spec_layers(),
    {
        &self.layers
    }

    /// Signs a fresh message from the local peer: the sender field is the
    /// public key the manager's signing key derives, so the message
    /// verifies under its own sender.
    pub fn new_message(&self, msg: String) -> (r: Message)
        requires
            self.wf(),
        ensures
            r.wf(),
            r.sender@ == vk_of(self.spec_signing_key()),
            r.msg@ == msg@,
            r.valid_under(r.sender@),
    {
        let sender = self.signing_key.verifying_key();
        Message::new(sender, msg, &self.signing_key)
    }

    /// Inserts `channel` into the directory under its id, displacing and
    /// returning whatever the directory held there; inserting an identical
    /// channel again leaves the directory unchanged.
    pub fn register_channel(&mut self, channel: Channel) -> (r: Option<Channel>)
        requires
            old(self).wf(),
            channel.wf(),
        ensures
            final(self).wf(),
            final(self).channels_view() == old(self).channels_view().insert(
                channel.spec_id(),
                channel,
            ),
            final(self).sessions_view() == old(self).sessions_view(),
            final(self).portals_view() == old(self).portals_view(),
            final(self).spec_signing_key() == old(self).spec_signing_key(),
            final(self).spec_profile() == old(self).spec_profile(),
            final(self).spec_layers() == old(self).spec_layers(),
            match r {
                Some(prev) => old(self).channels_view().dom().contains(channel.spec_id()) && prev
                    == old(self).channels_view()[channel.spec_id()],
                None => !old(self).channels_view().dom().contains(channel.spec_id()),
            },
    {
        let id = bytes_clone(&channel.id().bytes);
        let prev = self.channels.remove(&id);
        self.channels.insert(id, channel);
        proof {
            assert(final(self).channels_view() =~= old(self).channels_view().insert(
                channel.spec_id(),
                channel,
            ));
            assert forall|id2: Seq<u8>| self.channels@.dom().contains(id2) implies (
            #[trigger] self.channels@[id2]).wf() && self.channels@[id2].spec_id() == id2 by {
                if id2 != channel.spec_id() {
                    assert(old(self).channels_view().dom().contains(id2));
                    assert(old(self).channels_view()[id2] == self.channels@[id2]);
                }
            }
            assert forall|k: Seq<u8>| self.sessions_view().dom().contains(k) implies (
            #[trigger] self.sessions_view()[k]).wf() && self.sessions_view()[k].spec_remote_key()
                == k by {
                assert(old(self).sessions_view().dom().contains(k));
                assert((old(self).sessions_view()[k]).wf());
                assert(old(self).sessions_view()[k] == self.sessions_view()[k]);
            }
            assert forall|k: Seq<u8>| self.portals_view().dom().contains(k) implies (
            #[trigger] self.portals_view()[k]).wf() && self.portals_view()[k].spec_remote_key()
                == k by {
                assert(old(self).portals_view().dom().contains(k));
                assert((old(self).portals_view()[k]).wf());
                assert(old(self).portals_view()[k] == self.portals_view()[k]);
            }
        }
        prev
    }

    /// A transport produced a session: file it under the remote's key and
    /// surface the start.
    pub fn handle_session_started(&mut self, session_key: &PeerKey) -> (ev: ChatEvent)
        requires
            old(self).wf(),
            session_key.wf(),
        ensures
            final(self).wf(),
            final(self).sessions_view().dom() == old(self).sessions_view().dom().insert(
                session_key@,
            ),
            forall|k: Seq<u8>|
                k != session_key@ && old(self).sessions_view().dom().contains(k)
                    ==> #[trigger] final(self).sessions_view()[k] == old(self).sessions_view()[k],
            final(self).sessions_view()[session_key@].spec_remote_key() == session_key@,
            final(self).sessions_view()[session_key@].spec_status() == SessionStatus::Open,
            final(self).sessions_view()[session_key@].exports_view() == Seq::<
                ExportedCap,
            >::empty(),
            final(self).sessions_view()[session_key@].registry_view() == Map::<
                Seq<u8>,
                u64,
            >::empty(),
            final(self).portals_view() == old(self).portals_view(),
            final(self).channels_view() == old(self).channels_view(),
            final(self).spec_signing_key() == old(self).spec_signing_key(),
            final(self).spec_profile() == old(self).spec_profile(),
            final(self).spec_layers() == old(self).spec_layers(),
            ev matches ChatEvent::SessionStarted { session_key: k } && k@ == session_key@,
    {
        let session = Session::new(session_key.dup());
        self.sessions.insert(bytes_clone(&session_key.bytes), session);
        proof {
            assert(final(self).sessions_view().dom() =~= old(self).sessions_view().dom().insert(session_key@));
            assert forall|k: Seq<u8>| self.sessions@.dom().contains(k) implies (
            #[trigger] self.sessions@[k]).wf() && self.sessions@[k].spec_remote_key() == k by {
                if k != session_key@ {
                    assert(old(self).sessions_view().dom().contains(k));
                    assert(old(self).sessions_view()[k] == self.sessions@[k]);
                }
            }
            assert(self.portals == old(self).portals);
            assert(self.channels == old(self).channels);
            assert(self.layers == old(self).layers);
            assert(self.portals_view() == old(self).portals_view());
            assert(self.channels_view() == old(self).channels_view());
            assert forall|k: Seq<u8>| self.portals_view().dom().contains(k) implies (
            #[trigger] self.portals_view()[k]).wf() && self.portals_view()[k].spec_remote_key()
                == k by {
                assert(old(self).portals_view().dom().contains(k));
                assert((old(self).portals_view()[k]).wf());
                assert(old(self).portals_view()[k] == self.portals_view()[k]);
            }
            assert forall|id: Seq<u8>| self.channels_view().dom().contains(id) implies (
            #[trigger] self.channels_view()[id]).wf() && self.channels_view()[id].spec_id()
                == id by {
                assert(old(self).channels_view().dom().contains(id));
                assert((old(self).channels_view()[id]).wf());
                assert(old(self).channels_view()[id] == self.channels_view()[id]);
            }
        }
        ChatEvent::SessionStarted { session_key: session_key.dup() }
    }

    /// A session aborted: it leaves the session and portal directories, and
    /// every channel evicts its outbox and export record. After this, the
    /// key is in neither directory and no channel holds an outbox for it.
    pub fn handle_session_aborted(&mut self, session_key: &PeerKey, reason: String) -> (ev:
        ChatEvent)
        requires
            old(self).wf(),
        ensures
            final(self).wf(),
            final(self).sessions_view() == old(self).sessions_view().remove(session_key@),
            final(self).portals_view() == old(self).portals_view().remove(session_key@),
            final(self).channels_view().dom() == old(self).channels_view().dom(),
            forall|id: Seq<u8>|
                old(self).channels_view().dom().contains(id) ==> channel_evicted(
                    #[trigger] final(self).channels_view()[id],
                    old(self).channels_view()[id],
                    session_key@,
                ),
            !final(self).sessions_view().dom().contains(session_key@),
            !final(self).portals_view().dom().contains(session_key@),
            forall|id: Seq<u8>|
                final(self).channels_view().dom().contains(id) ==> !(
                #[trigger] final(self).channels_view()[id]).outboxes_view().dom().contains(
                    session_key@,
                ),
            final(self).spec_signing_key() == old(self).spec_signing_key(),
            final(self).spec_profile() == old(self).spec_profile(),
            final(self).spec_layers() == old(self).spec_layers(),
            ev matches ChatEvent::SessionAborted { session_key: k, reason: r } && k@
                == session_key@ && r@ == reason@,
    {
        let kb = bytes_clone(&session_key.bytes);
        self.sessions.remove(&kb);
        self.portals.remove(&kb);
        let ghost m0 = self.channels@;
        proof {
            assert forall|id: Seq<u8>| m0.dom().contains(id) implies (#[trigger] m0[id]).wf()
                && m0[id].spec_id() == id by {
                assert(old(self).channels_view()[id] == m0[id]);
            }
        }
        let ghost sessions1 = self.sessions;
        let ghost portals1 = self.portals;
        let mut pairs = self.channels.drain();
        while pairs.len() > 0
            invariant
                self.sessions == sessions1,
                self.portals == portals1,
                self.signing_key == old(self).signing_key,
                self.persona == old(self).persona,
                self.layers == old(self).layers,
                forall|t: int|
                    0 <= t < pairs@.len() ==> m0.contains_pair(
                        (#[trigger] pairs@[t]).0@,
                        pairs@[t].1,
                    ),
                assoc_keys_distinct(pairs@),
                kb@ == session_key@,
                forall|id: Seq<u8>|
                    #![trigger self.channels@.dom().contains(id)]
                    self.channels@.dom().contains(id) ==> {
                        &&& m0.dom().contains(id)
                        &&& !assoc_has_key(pairs@, id)
                        &&& channel_evicted(self.channels@[id], m0[id], session_key@)
                        &&& self.channels@[id].wf()
                        &&& self.channels@[id].spec_id() == id
                    },
                forall|id: Seq<u8>|
                    m0.dom().contains(id) ==> self.channels@.dom().contains(id) || assoc_has_key(
                        pairs@,
                        id,
                    ),
                forall|id: Seq<u8>|
                    m0.dom().contains(id) ==> (#[trigger] m0[id]).wf() && m0[id].spec_id() == id,
            decreases pairs@.len(),
        {
            let ghost pairs0 = pairs@;
            let ghost ch0 = self.channels@;
            match pairs.pop() {
                Some((id, mut ch)) => {
                    proof {
                        assert(m0.contains_pair(pairs0[pairs0.len() - 1].0@, pairs0[pairs0.len()
                            - 1].1));
                        assert(m0[id@].wf());
                        assert(ch.wf());
                    }
                    ch.evict_session(&kb);
                    self.channels.insert(id, ch);
                    proof {
                        let popped = pairs0[pairs0.len() - 1].0@;
                        assert(popped == id@);
                        assert forall|id2: Seq<u8>|
                            m0.dom().contains(id2) implies self.channels@.dom().contains(id2)
                            || assoc_has_key(pairs@, id2) by {
                            if !self.channels@.dom().contains(id2) {
                                assert(!ch0.dom().contains(id2));
                                assert(id2 != popped);
                                assert(assoc_has_key(pairs0, id2));
                                let t = choose|t: int|
                                    0 <= t < pairs0.len() && pairs0[t].0@ == id2;
                                assert(t < pairs0.len() - 1);
                                assert(pairs@[t].0@ == id2);
                                assert(assoc_has_key(pairs@, id2));
                            }
                        }
                        assert forall|id2: Seq<u8>|
                            #![trigger self.channels@.dom().contains(id2)]
                            self.channels@.dom().contains(id2) implies {
                            &&& m0.dom().contains(id2)
                            &&& !assoc_has_key(pairs@, id2)
                            &&& channel_evicted(self.channels@[id2], m0[id2], session_key@)
                            &&& self.channels@[id2].wf()
                            &&& self.channels@[id2].spec_id() == id2
                        } by {
                            if assoc_has_key(pairs@, id2) {
                                let t = choose|t: int|
                                    0 <= t < pairs@.len() && pairs@[t].0@ == id2;
                                assert(pairs0[t].0@ == id2);
                                assert(assoc_has_key(pairs0, id2));
                                if id2 == popped {
                                    assert(pairs0[t].0@ == pairs0[pairs0.len() - 1].0@);
                                    assert(t < pairs0.len() - 1);
                                    assert(false);
                                } else {
                                    assert(ch0.dom().contains(id2));
                                    assert(ch0[id2] == ch0[id2]);
                                    assert(!assoc_has_key(pairs0, id2));
                                    assert(false);
                                }
                            }
                            if id2 == popped {
                                assert(m0.contains_pair(popped, pairs0[pairs0.len() - 1].1));
                                assert(channel_evicted(self.channels@[id2], m0[id2], session_key@));
                            } else {
                                assert(ch0.dom().contains(id2));
                                assert(ch0[id2] == ch0[id2]);
                                assert(self.channels@[id2] == ch0[id2]);
                            }
                        }
                    }
                },
                None => {
                    proof {
                        assert(false);
                    }
                },
            }
        }
        proof {
            assert forall|id: Seq<u8>| m0.dom().contains(id) implies
                self.channels@.dom().contains(id) by {
                assert(!assoc_has_key(pairs@, id));
            }
            assert(final(self).channels_view().dom() =~= m0.dom());
            assert(self.sessions == sessions1);
            assert(self.portals == portals1);
            assert(final(self).sessions_view() == old(self).sessions_view().remove(session_key@));
            assert(final(self).portals_view() == old(self).portals_view().remove(session_key@));
            assert forall|k: Seq<u8>| self.sessions@.dom().contains(k) implies (
            #[trigger] self.sessions@[k]).wf() && self.sessions@[k].spec_remote_key() == k by {
                assert(old(self).sessions_view().dom().contains(k));
                assert(old(self).sessions_view()[k] == self.sessions@[k]);
            }
            assert forall|k: Seq<u8>| self.portals@.dom().contains(k) implies (
            #[trigger] self.portals@[k]).wf() && self.portals@[k].spec_remote_key() == k by {
                assert(old(self).portals_view().dom().contains(k));
                assert(old(self).portals_view()[k] == self.portals@[k]);
            }
            assert(self.layers == old(self).layers);
        }
        ChatEvent::SessionAborted { session_key: session_key.dup(), reason }
    }

    /// Resolves a fetched swiss number to a capability: `gateway` names the
    /// gateway, a registered channel's id bytes name that channel, and
    /// anything else breaks the fetch promise.
    pub fn handle_fetch(&self, swiss: &Vec<u8>) -> (r: Result<ExportedCap, UnknownSwiss>)
        ensures
            swiss@ == gateway_swiss() ==> r == Ok::<ExportedCap, UnknownSwiss>(
                ExportedCap::Gateway,
            ),
            swiss@ != gateway_swiss() && self.channels_view().dom().contains(swiss@) ==> (r matches
                Ok(cap) && (cap matches ExportedCap::Channel { channel_id } && channel_id@
                == swiss@)),
            swiss@ != gateway_swiss() && !self.channels_view().dom().contains(swiss@) ==> r == Err::<
                ExportedCap,
                UnknownSwiss,
            >(UnknownSwiss),
    {
        let gw = gateway_swiss_vec();
        if bytes_eq(swiss, &gw) {
            return Ok(ExportedCap::Gateway);
        }
        if self.channels.contains_key(swiss) {
            let id = crate::ident::UuidBytes { bytes: bytes_clone(swiss) };
            return Ok(ExportedCap::Channel { channel_id: id });
        }
        Err(UnknownSwiss)
    }

    /// Issues the portal for `peer_vkey` on the session `session_key`: the
    /// portal is created at most once per peer — a later request for the
    /// same peer reuses the portal that exists — and is exported on the
    /// session; the reply carries the export position.
    pub fn handle_portal_request(&mut self, session_key: &PeerKey, peer_vkey: &PeerKey) -> (r:
        Result<u64, PortalRequestError>)
        requires
            old(self).wf(),
            peer_vkey.wf(),
        ensures
            final(self).wf(),
            final(self).channels_view() == old(self).channels_view(),
            final(self).spec_signing_key() == old(self).spec_signing_key(),
            final(self).spec_profile() == old(self).spec_profile(),
            final(self).spec_layers() == old(self).spec_layers(),
            r is Ok <==> old(self).sessions_view().dom().contains(session_key@) && old(self).sessions_view()[session_key@].exports_view().len() < u64::MAX,
            r is Ok ==> {
                &&& final(self).portals_view().dom() == old(self).portals_view().dom().insert(
                    peer_vkey@,
                )
                &&& old(self).portals_view().dom().contains(peer_vkey@) ==> final(self).portals_view() == old(self).portals_view()
                &&& forall|k: Seq<u8>|
                    k != peer_vkey@ && old(self).portals_view().dom().contains(k)
                        ==> #[trigger] final(self).portals_view()[k] == old(self).portals_view()[k]
                &&& final(self).portals_view()[peer_vkey@].spec_remote_key() == peer_vkey@
                &&& final(self).sessions_view().dom() == old(self).sessions_view().dom()
                &&& forall|k: Seq<u8>|
                    k != session_key@ && old(self).sessions_view().dom().contains(k)
                        ==> #[trigger] final(self).sessions_view()[k] == old(self).sessions_view()[k]
                &&& r matches Ok(pos) && pos == old(self).sessions_view()[session_key@].exports_view().len() + 1
                &&& final(self).sessions_view()[session_key@].exports_view().len() == old(self).sessions_view()[session_key@].exports_view().len() + 1
                &&& final(self).sessions_view()[session_key@].exports_view().subrange(
                    0,
                    old(self).sessions_view()[session_key@].exports_view().len() as int,
                ) == old(self).sessions_view()[session_key@].exports_view()
                &&& (final(self).sessions_view()[session_key@].exports_view().last() matches
                ExportedCap::Portal { peer_key } && peer_key@ == peer_vkey@)
                &&& final(self).sessions_view()[session_key@].registry_view() == old(self).sessions_view()[session_key@].registry_view()
                &&& final(self).sessions_view()[session_key@].spec_status() == old(self).sessions_view()[session_key@].spec_status()
            },
            r is Err ==> final(self).portals_view() == old(self).portals_view() && final(self).sessions_view() == old(self).sessions_view(),
    {
        let kb = bytes_clone(&session_key.bytes);
        let mut session = match self.sessions.remove(&kb) {
            Some(s) => s,
            None => {
                proof {
                    assert(final(self).sessions_view() =~= old(self).sessions_view());
                    Self::lemma_wf_preserved(old(self), self);
                }
                return Err(PortalRequestError::UnknownSession);
            },
        };
        if (session.exports_len() as u64) == u64::MAX {
            self.sessions.insert(kb, session);
            proof {
                assert(final(self).sessions_view() =~= old(self).sessions_view());
                Self::lemma_wf_preserved(old(self), self);
            }
            return Err(PortalRequestError::ExportsFull);
        }
        if !self.portals.contains_key(&peer_vkey.bytes) {
            self.portals.insert(
                bytes_clone(&peer_vkey.bytes),
                Portal::new(peer_vkey.dup()),
            );
        }
        let pos = session.export(ExportedCap::Portal { peer_key: peer_vkey.dup() });
        self.sessions.insert(kb, session);
        proof {
            assert(final(self).sessions_view().dom() =~= old(self).sessions_view().dom());
            if old(self).portals_view().dom().contains(peer_vkey@) {
                assert(old(self).portals_view()[peer_vkey@] == old(self).portals_view()[peer_vkey@]);
                assert(final(self).portals_view() =~= old(self).portals_view());
            }
            assert(final(self).portals_view().dom() =~= old(self).portals_view().dom().insert(
                peer_vkey@,
            ));
            assert forall|k: Seq<u8>| self.sessions@.dom().contains(k) implies (
            #[trigger] self.sessions@[k]).wf() && self.sessions@[k].spec_remote_key() == k by {
                assert(old(self).sessions_view().dom().contains(k));
                assert((old(self).sessions_view()[k]).wf());
                if k != session_key@ {
                    assert(old(self).sessions_view()[k] == self.sessions@[k]);
                }
            }
            assert forall|k: Seq<u8>| self.portals@.dom().contains(k) implies (
            #[trigger] self.portals@[k]).wf() && self.portals@[k].spec_remote_key() == k by {
                if k != peer_vkey@ {
                    assert(old(self).portals_view().dom().contains(k));
                    assert((old(self).portals_view()[k]).wf());
                    assert(old(self).portals_view()[k] == self.portals@[k]);
                }
            }
            assert forall|id: Seq<u8>| self.channels@.dom().contains(id) implies (
            #[trigger] self.channels@[id]).wf() && self.channels@[id].spec_id() == id by {
                assert(old(self).channels_view().dom().contains(id));
                assert((old(self).channels_view()[id]).wf());
                assert(old(self).channels_view()[id] == self.channels@[id]);
            }
        }
        Ok(pos)
    }

    /// A snapshot of the channel directory, as `list_channels` on any portal
    /// answers it: one listing per registered channel.
    pub fn list_channels(&self) -> (r: Vec<crate::channel::ChannelListing>)
        requires
            self.wf(),
        ensures
            forall|i: int|
                0 <= i < r@.len() ==> {
                    &&& self.channels_view().dom().contains(#[trigger] r@[i].id@)
                    &&& self.channels_view()[r@[i].id@].spec_info().name@ == r@[i].info.name@
                    &&& self.channels_view()[r@[i].id@].spec_info().description@
                        == r@[i].info.description@
                },
            forall|i: int, j: int| 0 <= i < j < r@.len() ==> r@[i].id@ != r@[j].id@,
            forall|id: Seq<u8>|
                self.channels_view().dom().contains(id) ==> exists|i: int|
                    0 <= i < r@.len() && #[trigger] r@[i].id@ == id,
    {
        proof {
            assert forall|id: Seq<u8>| self.channels@.dom().contains(id) implies
                #[trigger] self.channels@[id].spec_id() == id by {
                assert(self.channels_view().dom().contains(id));
                assert(self.channels_view()[id].spec_id() == id);
            }
        }
        crate::portal::channel_listings(&self.channels)
    }

    /// Whether a swiss number names a capability at this node: the gateway's
    /// well-known swiss number, or a registered channel's id bytes.
    pub open spec fn fetch_resolvable(&self, swiss: Seq<u8>) -> bool {
        swiss == gateway_swiss() || self.channels_view().dom().contains(swiss)
    }

    /// Serves one bootstrap fetch on a session, end to end: a swiss number
    /// already served there resolves to its cached position; a fresh one is
    /// resolved to a capability, exported on the session, and its position
    /// recorded, so that repeated fetches of one swiss number on one session
    /// yield one position. An unknown swiss number breaks the fetch promise.
    pub fn serve_fetch(&mut self, session_key: &PeerKey, swiss: Vec<u8>) -> (r: Result<
        u64,
        FetchServeError,
    >)
        requires
            old(self).wf(),
        ensures
            final(self).wf(),
            final(self).channels_view() == old(self).channels_view(),
            final(self).portals_view() == old(self).portals_view(),
            final(self).spec_signing_key() == old(self).spec_signing_key(),
            final(self).spec_profile() == old(self).spec_profile(),
            final(self).spec_layers() == old(self).spec_layers(),
            !old(self).sessions_view().dom().contains(session_key@) ==> r == Err::<
                u64,
                FetchServeError,
            >(FetchServeError::UnknownSession) && final(self).sessions_view() == old(self).sessions_view(),
            old(self).sessions_view().dom().contains(session_key@) ==> {
                let sess = old(self).sessions_view()[session_key@];
                if sess.registry_view().dom().contains(swiss@) {
                    &&& r == Ok::<u64, FetchServeError>(sess.registry_view()[swiss@])
                    &&& final(self).sessions_view() == old(self).sessions_view()
                } else if !old(self).fetch_resolvable(swiss@) {
                    &&& r == Err::<u64, FetchServeError>(FetchServeError::UnknownSwiss)
                    &&& final(self).sessions_view() == old(self).sessions_view()
                } else if sess.exports_view().len() >= u64::MAX {
                    &&& r == Err::<u64, FetchServeError>(FetchServeError::ExportsFull)
                    &&& final(self).sessions_view() == old(self).sessions_view()
                } else {
                    &&& r == Ok::<u64, FetchServeError>((sess.exports_view().len() + 1) as u64)
                    &&& final(self).sessions_view().dom() == old(self).sessions_view().dom()
                    &&& (forall|k: Seq<u8>|
                        k != session_key@ && old(self).sessions_view().dom().contains(k)
                            ==> #[trigger] final(self).sessions_view()[k] == old(self).sessions_view()[k])
                    &&& final(self).sessions_view()[session_key@].registry_view()
                        == sess.registry_view().insert(swiss@, (sess.exports_view().len() + 1) as u64)
                    &&& final(self).sessions_view()[session_key@].exports_view().len()
                        == sess.exports_view().len() + 1
                    &&& final(self).sessions_view()[session_key@].exports_view().subrange(
                        0,
                        sess.exports_view().len() as int,
                    ) == sess.exports_view()
                    &&& (swiss@ == gateway_swiss() ==> final(self).sessions_view()[session_key@].exports_view().last() == ExportedCap::Gateway)
                    &&& (swiss@ != gateway_swiss() ==> (final(self).sessions_view()[session_key@].exports_view().last() matches
                    ExportedCap::Channel { channel_id } && channel_id@ == swiss@))
                    &&& final(self).sessions_view()[session_key@].spec_status()
                        == sess.spec_status()
                    &&& final(self).sessions_view()[session_key@].spec_remote_key()
                        == sess.spec_remote_key()
                }
            },
    {
        let kb = bytes_clone(&session_key.bytes);
        let mut session = match self.sessions.remove(&kb) {
            Some(sess) => sess,
            None => {
                proof {
                    assert(final(self).sessions_view() =~= old(self).sessions_view());
                    Self::lemma_wf_preserved(old(self), self);
                }
                return Err(FetchServeError::UnknownSession);
            },
        };
        if let Some(pos) = session.lookup_swiss(&swiss) {
            self.sessions.insert(kb, session);
            proof {
                assert(final(self).sessions_view() =~= old(self).sessions_view());
                Self::lemma_wf_preserved(old(self), self);
            }
            return Ok(pos);
        }
        let cap = match self.handle_fetch(&swiss) {
            Ok(cap) => cap,
            Err(_) => {
                self.sessions.insert(kb, session);
                proof {
                    assert(final(self).sessions_view() =~= old(self).sessions_view());
                    Self::lemma_wf_preserved(old(self), self);
                }
                return Err(FetchServeError::UnknownSwiss);
            },
        };
        if (session.exports_len() as u64) == u64::MAX {
            self.sessions.insert(kb, session);
            proof {
                assert(final(self).sessions_view() =~= old(self).sessions_view());
                Self::lemma_wf_preserved(old(self), self);
            }
            return Err(FetchServeError::ExportsFull);
        }
        let pos = session.record_fetch(swiss, cap);
        self.sessions.insert(kb, session);
        proof {
            assert(final(self).sessions_view().dom() =~= old(self).sessions_view().dom());
            assert forall|k: Seq<u8>| self.sessions@.dom().contains(k) implies (
            #[trigger] self.sessions@[k]).wf() && self.sessions@[k].spec_remote_key() == k by {
                assert(old(self).sessions_view().dom().contains(k));
                assert((old(self).sessions_view()[k]).wf());
                if k != session_key@ {
                    assert(old(self).sessions_view()[k] == self.sessions@[k]);
                }
            }
            assert forall|k: Seq<u8>| self.portals@.dom().contains(k) implies (
            #[trigger] self.portals@[k]).wf() && self.portals@[k].spec_remote_key() == k by {
                assert(old(self).portals_view().dom().contains(k));
                assert((old(self).portals_view()[k]).wf());
                assert(old(self).portals_view()[k] == self.portals@[k]);
            }
            assert forall|id: Seq<u8>| self.channels@.dom().contains(id) implies (
            #[trigger] self.channels@[id]).wf() && self.channels@[id].spec_id() == id by {
                assert(old(self).channels_view().dom().contains(id));
                assert((old(self).channels_view()[id]).wf());
                assert(old(self).channels_view()[id] == self.channels@[id]);
            }
        }
        Ok(pos)
    }

    /// A remote peer joins a channel through its portal: `connect` on the
    /// portal issued for the session's peer, carrying the channel id and the
    /// export position of the caller's outbox. The channel's export position
    /// on the session is reused or recorded fresh, the outbox replaces any
    /// outbox the session had there, and the position is returned. A channel
    /// id the directory does not know is refused.
    pub fn portal_connect(&mut self, session_key: &PeerKey, channel_id: &crate::ident::ChannelId, outbox_position: u64) -> (r: Result<(u64, crate::channel::ChannelEvent), PortalConnectError>)
        requires
            old(self).wf(),
        ensures
            final(self).wf(),
            final(self).portals_view() == old(self).portals_view(),
            final(self).spec_signing_key() == old(self).spec_signing_key(),
            final(self).spec_profile() == old(self).spec_profile(),
            final(self).spec_layers() == old(self).spec_layers(),
            r is Ok <==> {
                &&& old(self).sessions_view().dom().contains(session_key@)
                &&& old(self).portals_view().dom().contains(session_key@)
                &&& old(self).channels_view().dom().contains(channel_id@)
                &&& old(self).sessions_view()[session_key@].exports_view().len() < u64::MAX
            },
            r is Err ==> final(self).sessions_view() == old(self).sessions_view() && final(self).channels_view() == old(self).channels_view(),
            r matches Err(PortalConnectError::UnknownChannel) ==> !old(self).channels_view().dom().contains(channel_id@),
            r matches Ok((pos, ev)) ==> {
                let sess = old(self).sessions_view()[session_key@];
                let chan = old(self).channels_view()[channel_id@];
                &&& final(self).channels_view().dom() == old(self).channels_view().dom()
                &&& (forall|id: Seq<u8>|
                    id != channel_id@ && old(self).channels_view().dom().contains(id)
                        ==> #[trigger] final(self).channels_view()[id] == old(self).channels_view()[id])
                &&& crate::portal::connect_channel_post(
                    chan,
                    final(self).channels_view()[channel_id@],
                    session_key@,
                    session_key@,
                    outbox_position,
                    pos,
                )
                &&& final(self).sessions_view().dom() == old(self).sessions_view().dom()
                &&& (forall|k: Seq<u8>|
                    k != session_key@ && old(self).sessions_view().dom().contains(k)
                        ==> #[trigger] final(self).sessions_view()[k] == old(self).sessions_view()[k])
                &&& final(self).sessions_view()[session_key@].registry_view()
                    == sess.registry_view()
                &&& final(self).sessions_view()[session_key@].spec_status() == sess.spec_status()
                &&& (chan.exported_at_view().dom().contains(session_key@) ==> final(self).sessions_view()[session_key@].exports_view() == sess.exports_view() && pos
                    == chan.exported_at_view()[session_key@])
                &&& (!chan.exported_at_view().dom().contains(session_key@) ==> final(self).sessions_view()[session_key@].exports_view().len() == sess.exports_view().len()
                    + 1 && pos == sess.exports_view().len() + 1)
                &&& (ev matches crate::channel::ChannelEvent::PeerConnected {
                    channel_id: cid,
                    peer_key,
                } && cid@ == channel_id@ && peer_key@ == session_key@)
            },
    {
        let kb = bytes_clone(&session_key.bytes);
        let mut session = match self.sessions.remove(&kb) {
            Some(sess) => sess,
            None => {
                proof {
                    assert(final(self).sessions_view() =~= old(self).sessions_view());
                    Self::lemma_wf_preserved(old(self), self);
                }
                return Err(PortalConnectError::UnknownSession);
            },
        };
        if !self.portals.contains_key(&kb) {
            self.sessions.insert(kb, session);
            proof {
                assert(final(self).sessions_view() =~= old(self).sessions_view());
                Self::lemma_wf_preserved(old(self), self);
            }
            return Err(PortalConnectError::NoPortal);
        }
        let cid = bytes_clone(&channel_id.bytes);
        let mut channel = match self.channels.remove(&cid) {
            Some(c) => c,
            None => {
                self.sessions.insert(kb, session);
                proof {
                    assert(final(self).sessions_view() =~= old(self).sessions_view());
                    assert(final(self).channels_view() =~= old(self).channels_view());
                    Self::lemma_wf_preserved(old(self), self);
                }
                return Err(PortalConnectError::UnknownChannel);
            },
        };
        if (session.exports_len() as u64) == u64::MAX {
            self.sessions.insert(kb, session);
            self.channels.insert(cid, channel);
            proof {
                assert(final(self).sessions_view() =~= old(self).sessions_view());
                assert(final(self).channels_view() =~= old(self).channels_view());
                Self::lemma_wf_preserved(old(self), self);
            }
            return Err(PortalConnectError::ExportsFull);
        }
        proof {
            assert(old(self).portals_view().dom().contains(session_key@));
            assert((old(self).portals_view()[session_key@]).wf());
            assert(old(self).portals_view()[session_key@].spec_remote_key() == session_key@);
            assert((old(self).sessions_view()[session_key@]).wf());
            assert((old(self).channels_view()[channel_id@]).wf());
        }
        let (res, ev) = match self.portals.get(&kb) {
            Some(portal) => portal.connect(&mut session, &mut channel, outbox_position),
            None => {
                proof {
                    assert(false);
                }
                unreached()
            },
        };
        self.sessions.insert(kb, session);
        self.channels.insert(cid, channel);
        proof {
            assert(final(self).sessions_view().dom() =~= old(self).sessions_view().dom());
            assert(final(self).channels_view().dom() =~= old(self).channels_view().dom());
            assert forall|id: Seq<u8>|
                id != channel_id@ && old(self).channels_view().dom().contains(id) implies
                #[trigger] final(self).channels_view()[id] == old(self).channels_view()[id] by {
                assert(final(self).channels_view()[id] == old(self).channels_view().remove(
                    channel_id@,
                ).insert(channel_id@, final(self).channels_view()[channel_id@])[id]);
            }
            assert forall|k: Seq<u8>|
                k != session_key@ && old(self).sessions_view().dom().contains(k) implies
                #[trigger] final(self).sessions_view()[k] == old(self).sessions_view()[k] by {
            }
            assert forall|k: Seq<u8>| self.sessions@.dom().contains(k) implies (
            #[trigger] self.sessions@[k]).wf() && self.sessions@[k].spec_remote_key() == k by {
                assert(old(self).sessions_view().dom().contains(k));
                assert((old(self).sessions_view()[k]).wf());
                if k != session_key@ {
                    assert(old(self).sessions_view()[k] == self.sessions@[k]);
                }
            }
            assert forall|k: Seq<u8>| self.portals@.dom().contains(k) implies (
            #[trigger] self.portals@[k]).wf() && self.portals@[k].spec_remote_key() == k by {
                assert(old(self).portals_view().dom().contains(k));
                assert((old(self).portals_view()[k]).wf());
                assert(old(self).portals_view()[k] == self.portals@[k]);
            }
            assert forall|id: Seq<u8>| self.channels@.dom().contains(id) implies (
            #[trigger] self.channels@[id]).wf() && self.channels@[id].spec_id() == id by {
                assert(old(self).channels_view().dom().contains(id));
                assert((old(self).channels_view()[id]).wf());
                if id != channel_id@ {
                    assert(old(self).channels_view()[id] == self.channels@[id]);
                }
            }
        }
        Ok((res.position, ev))
    }

    /// The sends that one `send_msg` on the channel fans out to: exactly one
    /// per outbox the channel records, and none on a channel without
    /// outboxes. A channel id the directory does not know is refused.
    pub fn channel_send_targets(&self, channel_id: &crate::ident::ChannelId) -> (r: Result<
        Vec<crate::channel::SendTarget>,
        PortalConnectError,
    >)
        requires
            self.wf(),
        ensures
            r is Ok <==> self.channels_view().dom().contains(channel_id@),
            r matches Err(e) ==> e == PortalConnectError::UnknownChannel,
            r matches Ok(targets) ==> {
                let ch = self.channels_view()[channel_id@];
                &&& (targets@.len() == 0 <==> ch.outboxes_view() == Map::<
                    Seq<u8>,
                    crate::channel::Outbox,
                >::empty())
                &&& forall|i: int|
                    0 <= i < targets@.len() ==> {
                        &&& ch.outboxes_view().dom().contains(
                            #[trigger] targets@[i].session_key@,
                        )
                        &&& ch.outboxes_view()[targets@[i].session_key@].peer_key@
                            == targets@[i].peer_key@
                        &&& ch.outboxes_view()[targets@[i].session_key@].position
                            == targets@[i].position
                    }
                &&& forall|i: int, j: int|
                    0 <= i < j < targets@.len() ==> targets@[i].session_key@
                        != targets@[j].session_key@
                &&& forall|k: Seq<u8>|
                    ch.outboxes_view().dom().contains(k) ==> exists|i: int|
                        0 <= i < targets@.len() && #[trigger] targets@[i].session_key@ == k
            },
    {
        match self.channels.get(&channel_id.bytes) {
            Some(ch) => Ok(ch.send_msg_targets()),
            None => Err(PortalConnectError::UnknownChannel),
        }
    }

    /// A send on the channel to `session_key` failed: the outbox there is
    /// evicted and not retried; the failure makes the whole fan-out fail.
    pub fn channel_send_failed(
        &mut self,
        channel_id: &crate::ident::ChannelId,
        session_key: &PeerKey,
    ) -> (r: Result<(), PortalConnectError>)
        requires
            old(self).wf(),
        ensures
            final(self).wf(),
            final(self).sessions_view() == old(self).sessions_view(),
            final(self).portals_view() == old(self).portals_view(),
            final(self).spec_signing_key() == old(self).spec_signing_key(),
            final(self).spec_profile() == old(self).spec_profile(),
            final(self).spec_layers() == old(self).spec_layers(),
            r is Ok <==> old(self).channels_view().dom().contains(channel_id@),
            r is Err ==> final(self).channels_view() == old(self).channels_view(),
            r is Ok ==> {
                let ch0 = old(self).channels_view()[channel_id@];
                let ch1 = final(self).channels_view()[channel_id@];
                &&& final(self).channels_view().dom() == old(self).channels_view().dom()
                &&& (forall|id: Seq<u8>|
                    id != channel_id@ && old(self).channels_view().dom().contains(id)
                        ==> #[trigger] final(self).channels_view()[id] == old(
                        self,
                    ).channels_view()[id])
                &&& ch1.spec_id() == ch0.spec_id()
                &&& ch1.spec_info() == ch0.spec_info()
                &&& ch1.exported_at_view() == ch0.exported_at_view()
                &&& ch1.outboxes_view() == ch0.outboxes_view().remove(session_key@)
            },
    {
        let cid = bytes_clone(&channel_id.bytes);
        let mut channel = match self.channels.remove(&cid) {
            Some(c) => c,
            None => {
                proof {
                    assert(final(self).channels_view() =~= old(self).channels_view());
                    Self::lemma_wf_preserved(old(self), self);
                }
                return Err(PortalConnectError::UnknownChannel);
            },
        };
        proof {
            assert((old(self).channels_view()[channel_id@]).wf());
        }
        channel.send_failed(session_key);
        self.channels.insert(cid, channel);
        proof {
            assert(final(self).channels_view().dom() =~= old(self).channels_view().dom());
            assert forall|id: Seq<u8>|
                id != channel_id@ && old(self).channels_view().dom().contains(id) implies
                #[trigger] final(self).channels_view()[id] == old(self).channels_view()[id] by {
                assert(final(self).channels_view()[id] == old(self).channels_view().remove(
                    channel_id@,
                ).insert(channel_id@, final(self).channels_view()[channel_id@])[id]);
            }
            assert forall|k: Seq<u8>| self.sessions@.dom().contains(k) implies (
            #[trigger] self.sessions@[k]).wf() && self.sessions@[k].spec_remote_key() == k by {
                assert(old(self).sessions_view().dom().contains(k));
                assert((old(self).sessions_view()[k]).wf());
                assert(old(self).sessions_view()[k] == self.sessions@[k]);
            }
            assert forall|k: Seq<u8>| self.portals@.dom().contains(k) implies (
            #[trigger] self.portals@[k]).wf() && self.portals@[k].spec_remote_key() == k by {
                assert(old(self).portals_view().dom().contains(k));
                assert((old(self).portals_view()[k]).wf());
                assert(old(self).portals_view()[k] == self.portals@[k]);
            }
            assert forall|id: Seq<u8>| self.channels@.dom().contains(id) implies (
            #[trigger] self.channels@[id]).wf() && self.channels@[id].spec_id() == id by {
                assert(old(self).channels_view().dom().contains(id));
                assert((old(self).channels_view()[id]).wf());
                if id != channel_id@ {
                    assert(old(self).channels_view()[id] == self.channels@[id]);
                }
            }
        }
        Ok(())
    }

    /// The keys an event carries are full public keys; the producers — the
    /// session handlers and the gateway — only emit such events.
    pub open spec fn event_wf(ev: NetworkEvent) -> bool {
        match ev {
            NetworkEvent::SessionStarted { session_key } => session_key.wf(),
            NetworkEvent::PortalRequest { session_key, peer_vkey } => peer_vkey.wf(),
            NetworkEvent::Fetch { session_key, swiss } => true,
            NetworkEvent::SessionAborted { session_key, reason } => true,
            NetworkEvent::TaskFinished { result } => true,
        }
    }

    /// One turn of the manager's event loop: the state transition and the
    /// outcome — a chat-level event to surface, or a reply to send back to
    /// the asking task.
    pub fn handle_event(&mut self, ev: NetworkEvent) -> (r: HandleOutcome)
        requires
            old(self).wf(),
            ChatManager::event_wf(ev),
        ensures
            final(self).wf(),
            match ev {
                NetworkEvent::SessionStarted { session_key } => {
                    &&& final(self).sessions_view().dom() == old(self).sessions_view().dom().insert(session_key@)
                    &&& final(self).portals_view() == old(self).portals_view()
                    &&& final(self).channels_view() == old(self).channels_view()
                    &&& r matches HandleOutcome::Surface { event } && (event matches
                    ChatEvent::SessionStarted { session_key: k } && k@ == session_key@)
                },
                NetworkEvent::SessionAborted { session_key, reason } => {
                    &&& final(self).sessions_view() == old(self).sessions_view().remove(
                        session_key@,
                    )
                    &&& final(self).portals_view() == old(self).portals_view().remove(session_key@)
                    &&& final(self).channels_view().dom() == old(self).channels_view().dom()
                    &&& forall|id: Seq<u8>|
                        old(self).channels_view().dom().contains(id) ==> channel_evicted(
                            #[trigger] final(self).channels_view()[id],
                            old(self).channels_view()[id],
                            session_key@,
                        )
                    &&& r matches HandleOutcome::Surface { event } && (event matches
                    ChatEvent::SessionAborted { session_key: k, reason: rr } && k@ == session_key@
                        && rr@ == reason@)
                },
                NetworkEvent::Fetch { session_key, swiss } => {
                    &&& final(self).sessions_view() == old(self).sessions_view()
                    &&& final(self).portals_view() == old(self).portals_view()
                    &&& final(self).channels_view() == old(self).channels_view()
                    &&& r matches HandleOutcome::FetchReply { session_key: k, reply } && k@
                        == session_key@ && {
                        &&& swiss@ == gateway_swiss() ==> reply == Ok::<
                            ExportedCap,
                            UnknownSwiss,
                        >(ExportedCap::Gateway)
                        &&& swiss@ != gateway_swiss() && old(self).channels_view().dom().contains(
                            swiss@,
                        ) ==> (reply matches Ok(cap) && (cap matches ExportedCap::Channel {
                            channel_id,
                        } && channel_id@ == swiss@))
                        &&& swiss@ != gateway_swiss() && !old(self).channels_view().dom().contains(swiss@) ==> reply == Err::<
                            ExportedCap,
                            UnknownSwiss,
                        >(UnknownSwiss)
                    }
                },
                NetworkEvent::PortalRequest { session_key, peer_vkey } => {
                    &&& final(self).channels_view() == old(self).channels_view()
                    &&& (r matches HandleOutcome::PortalReply {
                        session_key: k,
                        reply,
                    } && k@ == session_key@ && (reply is Ok <==> old(self).sessions_view().dom().contains(session_key@) && old(self).sessions_view()[session_key@].exports_view().len() < u64::MAX) && (reply is Ok
                        ==> final(self).portals_view().dom() == old(self).portals_view().dom().insert(peer_vkey@) && (old(self).portals_view().dom().contains(peer_vkey@) ==> final(self).portals_view()
                        == old(self).portals_view())))
                },
                NetworkEvent::TaskFinished { result } => {
                    &&& final(self).sessions_view() == old(self).sessions_view()
                    &&& final(self).portals_view() == old(self).portals_view()
                    &&& final(self).channels_view() == old(self).channels_view()
                    &&& match result {
                        Ok(event) => r matches HandleOutcome::Surface { event: e } && e == event,
                        Err(reason) => r matches HandleOutcome::SurfaceError { reason: rr } && rr@
                            == reason@,
                    }
                },
            },
            final(self).spec_signing_key() == old(self).spec_signing_key(),
            final(self).spec_profile() == old(self).spec_profile(),
            final(self).spec_layers() == old(self).spec_layers(),
    {
        match ev {
            NetworkEvent::SessionStarted { session_key } => {
                let event = self.handle_session_started(&session_key);
                HandleOutcome::Surface { event }
            },
            NetworkEvent::SessionAborted { session_key, reason } => {
                let event = self.handle_session_aborted(&session_key, reason);
                HandleOutcome::Surface { event }
            },
            NetworkEvent::Fetch { session_key, swiss } => {
                let reply = self.handle_fetch(&swiss);
                HandleOutcome::FetchReply { session_key, reply }
            },
            NetworkEvent::PortalRequest { session_key, peer_vkey } => {
                let reply = self.handle_portal_request(&session_key, &peer_vkey);
                HandleOutcome::PortalReply { session_key, reply }
            },
            NetworkEvent::TaskFinished { result } => match result {
                Ok(event) => HandleOutcome::Surface { event },
                Err(reason) => HandleOutcome::SurfaceError { reason },
            },
        }
    }
}

/// Why a portal's `connect` could not be served.
#[derive(PartialEq, Eq, Debug)]
pub enum PortalConnectError {
    /// No session is filed under the key.
    UnknownSession,
    /// No portal was issued for the session's peer.
    NoPortal,
    /// The directory knows no channel under the id: the caller is told
    /// `unrecognized channel id`.
    UnknownChannel,
    /// The session's export table is full: a machine limit.
    ExportsFull,
}

impl PortalConnectError {
    /// The human-readable reason an unknown channel id is refused with.
    pub fn unknown_channel_reason() -> (r: String)
        ensures
            r@ == "unrecognized channel id"@,
    {
        let r = String::new().concat("unrecognized channel id");
        proof {
            assert(r@ =~= "unrecognized channel id"@);
        }
        r
    }
}

/// Why a bootstrap fetch could not be served.
#[derive(PartialEq, Eq, Debug)]
pub enum FetchServeError {
    /// No session is filed under the key; the producers emit
    /// `SessionStarted` first, so this names a protocol violation.
    UnknownSession,
    /// The session's export table is full: a machine limit.
    ExportsFull,
    /// No capability answers to the swiss number; the promise is broken
    /// with the `UnknownSwiss` reason.
    UnknownSwiss,
}

/// What one turn of the manager's loop yields.
#[derive(Debug)]
pub enum HandleOutcome {
    /// A chat-level event to surface to the consumer.
    Surface { event: ChatEvent },
    /// A subtask failed; its reason is surfaced.
    SurfaceError { reason: String },
    /// The answer to a forwarded fetch: the capability to export, or the
    /// reason to break the promise with.
    FetchReply { session_key: PeerKey, reply: Result<ExportedCap, UnknownSwiss> },
    /// The answer to a portal request: the export position to fulfill the
    /// resolver with, or the failure.
    PortalReply { session_key: PeerKey, reply: Result<u64, PortalRequestError> },
}

/// Law: registering the same channel value twice leaves the directory as
/// registering it once left it.
pub proof fn lemma_register_channel_idempotent(m: Map<Seq<u8>, Channel>, c: Channel)
    ensures
        m.insert(c.spec_id(), c).insert(c.spec_id(), c) == m.insert(c.spec_id(), c),
{
    assert(m.insert(c.spec_id(), c).insert(c.spec_id(), c) =~= m.insert(c.spec_id(), c));
}

/// Law: at most one portal is ever alive per peer and session. Portals are
/// filed by peer key — one slot per peer — and a request that finds a
/// portal in place reuses it, so the portal a session's peer holds never
/// changes while it lives.
pub proof fn lemma_portal_unique(m0: ChatManager, m1: ChatManager, peer: Seq<u8>)
    requires
        m0.portals_view().dom().contains(peer),
        m1.portals_view() == m0.portals_view(),
    ensures
        m1.portals_view().dom().contains(peer),
        m1.portals_view()[peer] == m0.portals_view()[peer],
{
}

/// Assembles a chat manager: the signing key, an optional username and
/// avatar, and the transports to register.
pub struct ChatManagerBuilder {
    pub signing_key: SigningKey,
    pub username: Option<String>,
    pub avatar: Option<String>,
    pub layers: NetlayerManager,
}

impl ChatManagerBuilder {
    /// Sets the username.
    pub fn with_username(self, username: String) -> (r: ChatManagerBuilder)
        ensures
            r.username matches Some(u) && u@ == username@,
            r.avatar == self.avatar,
            r.signing_key == self.signing_key,
            r.layers == self.layers,
    {
        ChatManagerBuilder { username: Some(username), ..self }
    }

    /// Sets the avatar.
    pub fn with_avatar(self, avatar: String) -> (r: ChatManagerBuilder)
        ensures
            r.avatar matches Some(a) && a@ == avatar@,
            r.username == self.username,
            r.signing_key == self.signing_key,
            r.layers == self.layers,
    {
        ChatManagerBuilder { avatar: Some(avatar), ..self }
    }

    /// Registers a transport with its published locators; the embedder
    /// runs the transport's loops under the returned binding.
    pub fn with_netlayer(self, transport: String, locators: Vec<crate::locator::Locator>) -> (r:
        ChatManagerBuilder)
        requires
            self.layers.wf(),
            self.layers.spec_next_binding() < usize::MAX,
        ensures
            r.layers.wf(),
            r.layers.layers_view().dom() == self.layers.layers_view().dom().insert(transport@),
            r.username == self.username,
            r.avatar == self.avatar,
            r.signing_key == self.signing_key,
    {
        let mut layers = self.layers;
        layers.register(transport, locators);
        ChatManagerBuilder { layers, ..self }
    }

    /// Builds the manager: empty directories, the persona around the
    /// derived public key, and — when no username was given — a fresh
    /// UUID's string as the username.
    pub fn build(self) -> (r: ChatManager)
        requires
            self.signing_key.wf(),
            self.layers.wf(),
        ensures
            r.wf(),
            r.spec_signing_key() == self.signing_key@,
            r.spec_profile().vkey@ == vk_of(self.signing_key@),
            match self.username {
                Some(u) => r.spec_profile().username@ == u@,
                None => exists|b: Seq<u8>|
                    b.len() == UUID_LEN && r.spec_profile().username@ == uuid_string(b),
            },
            r.spec_profile().avatar == self.avatar,
            r.spec_layers() == self.layers,
            r.sessions_view() == Map::<Seq<u8>, Session>::empty(),
            r.portals_view() == Map::<Seq<u8>, Portal>::empty(),
            r.channels_view() == Map::<Seq<u8>, Channel>::empty(),
    {
        let vkey = self.signing_key.verifying_key();
        let username: String = match self.username {
            Some(u) => u,
            None => {
                let id = fresh_uuid();
                let s = id.to_display_string();
                proof {
                    assert(s@ == uuid_string(id@) && id@.len() == UUID_LEN);
                }
                s
            },
        };
        let profile = Profile::new(vkey, username, self.avatar);
        ChatManager {
            signing_key: self.signing_key,
            persona: Persona::new(profile),
            gateway: Gateway::new(),
            layers: self.layers,
            sessions: KeyMap::new(),
            portals: KeyMap::new(),
            channels: KeyMap::new(),
        }
    }
}

} // verus!
