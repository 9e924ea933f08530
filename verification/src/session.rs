//! Per-session state, as the local peer sees it: the remote's key, the
//! export table of capabilities handed to that remote, and the swiss
//! registry that caches which position each swiss number was exported at,
//! so that repeated fetches of one capability resolve to one position.

use vstd::prelude::*;
use crate::crypto::PeerKey;
use crate::ident::ChannelId;
use crate::keymap::KeyMap;

verus! {

/// The capability set, tagged at the export-table level: incoming
/// deliveries dispatch on this tag.
#[derive(Debug)]
pub enum ExportedCap {
    /// The well-known authentication gateway.
    Gateway,
    /// The portal issued to the peer with this key.
    Portal { peer_key: PeerKey },
    /// A chat channel.
    Channel { channel_id: ChannelId },
    /// The local profile capability.
    Persona,
}

/// A session from the local perspective: it opens when the transport hands
/// it over and aborts once, terminally.
#[derive(PartialEq, Eq, Debug)]
pub enum SessionStatus {
    Open,
    Aborted,
}

/// What the session handler reads from the wire.
#[derive(Debug)]
pub enum SessionEvent {
    /// The remote asked the bootstrap object for a capability by swiss
    /// number.
    Fetch { swiss: Vec<u8> },
    /// The remote aborted the session.
    Abort { reason: String },
}

/// What the session handler does next with an event.
#[derive(Debug)]
pub enum SessionAction {
    /// The swiss number was already served on this session: resolve the
    /// fetch to the cached position.
    ResolveCached { position: u64 },
    /// The swiss number is new here: ask the chat manager to resolve it,
    /// then export the answer and record the position.
    AskManager { swiss: Vec<u8> },
    /// Propagate the abort and stop the handler.
    EmitAborted { session_key: PeerKey, reason: String },
}

/// One authenticated session to a remote peer.
pub struct Session {
    remote_key: PeerKey,
    status: SessionStatus,
    exports: Vec<ExportedCap>,
    registry: KeyMap<u64>,
}

impl Session {
    /// The remote peer's key: the session's name.
    pub closed spec fn spec_remote_key(&self) -> Seq<u8> {
        self.remote_key@
    }

    /// Open or aborted.
    pub closed spec fn spec_status(&self) -> SessionStatus {
        self.status
    }

    /// The capabilities exported on this session; the capability at index
    /// `i` sits at export position `i + 1` (position zero is the
    /// bootstrap).
    pub closed spec fn exports_view(&self) -> Seq<ExportedCap> {
        self.exports@
    }

    /// The swiss registry: per swiss number already served, the export
    /// position it resolved to.
    pub closed spec fn registry_view(&self) -> Map<Seq<u8>, u64> {
        self.registry@
    }

    /// A session is well-formed when its key is a full public key and every
    /// registered position names an actual export.
    pub open spec fn wf(&self) -> bool {
        &&& self.spec_remote_key().len() == crate::crypto::PEER_KEY_LEN
        &&& forall|w: Seq<u8>|
            self.registry_view().dom().contains(w) ==> 1 <= #[trigger] self.registry_view()[w]
                <= self.exports_view().len()
    }

    /// A fresh session to the peer `remote_key`: open, nothing exported,
    /// nothing registered.
    pub fn new(remote_key: PeerKey) -> (r: Session)
        requires
            remote_key.wf(),
        ensures
            r.wf(),
            r.spec_remote_key() == remote_key@,
            r.spec_status() == SessionStatus::Open,
            r.exports_view() == Seq::<ExportedCap>::empty(),
            r.registry_view() == Map::<Seq<u8>, u64>::empty(),
    {
        let r = Session {
            remote_key,
            status: SessionStatus::Open,
            exports: Vec::new(),
            registry: KeyMap::new(),
        };
        proof {
            assert(r.exports_view() =~= Seq::<ExportedCap>::empty());
        }
        r
    }

    /// The remote peer's key.
    pub fn remote_key(&self) -> (r: &PeerKey)
        ensures
            r@ == self.spec_remote_key(),
    {
        &self.remote_key
    }

    /// Whether the session has aborted.
    pub fn is_aborted(&self) -> (r: bool)
        ensures
            r == (self.spec_status() == SessionStatus::Aborted),
    {
        match self.status {
            SessionStatus::Aborted => true,
            SessionStatus::Open => false,
        }
    }

    /// How many capabilities are exported.
    pub fn exports_len(&self) -> (r: usize)
        ensures
            r == self.exports_view().len(),
    {
        self.exports.len()
    }

    /// Exports a capability, handing back its fresh position. Positions are
    /// handed out in order, starting at one past the bootstrap.
    pub fn export(&mut self, cap: ExportedCap) -> (r: u64)
        requires
            old(self).wf(),
            old(self).exports_view().len() < u64::MAX,
        ensures
            final(self).wf(),
            final(self).spec_remote_key() == old(self).spec_remote_key(),
            final(self).spec_status() == old(self).spec_status(),
            final(self).exports_view() == old(self).exports_view().push(cap),
            final(self).registry_view() == old(self).registry_view(),
            r == old(self).exports_view().len() + 1,
    {
        self.exports.push(cap);
        proof {
            assert forall|w: Seq<u8>| self.registry_view().dom().contains(w) implies 1
                <= #[trigger] self.registry_view()[w] <= self.exports_view().len() by {
                assert(old(self).registry_view()[w] == self.registry_view()[w]);
                assert(1 <= old(self).registry_view()[w] <= old(self).exports_view().len());
            }
        }
        (self.exports.len() as u64)
    }

    /// The position that `swiss` was served at on this session, when it
    /// was.
    pub fn lookup_swiss(&self, swiss: &Vec<u8>) -> (r: Option<u64>)
        ensures
            match r {
                Some(p) => self.registry_view().dom().contains(swiss@)
                    && self.registry_view()[swiss@] == p,
                None => !self.registry_view().dom().contains(swiss@),
            },
    {
        match self.registry.get(swiss) {
            Some(p) => Some(*p),
            None => None,
        }
    }

    /// Serves a first fetch of `swiss`: exports `cap` and records the
    /// position, which every later fetch of `swiss` here resolves to.
    pub fn record_fetch(&mut self, swiss: Vec<u8>, cap: ExportedCap) -> (r: u64)
        requires
            old(self).wf(),
            !old(self).registry_view().dom().contains(swiss@),
            old(self).exports_view().len() < u64::MAX,
        ensures
            final(self).wf(),
            final(self).spec_remote_key() == old(self).spec_remote_key(),
            final(self).spec_status() == old(self).spec_status(),
            final(self).exports_view() == old(self).exports_view().push(cap),
            final(self).registry_view() == old(self).registry_view().insert(swiss@, r),
            r == old(self).exports_view().len() + 1,
    {
        let pos = self.export(cap);
        self.registry.insert(swiss, pos);
        pos
    }

    /// Marks the session aborted; terminal.
    pub fn mark_aborted(&mut self)
        requires
            old(self).wf(),
        ensures
            final(self).wf(),
            final(self).spec_remote_key() == old(self).spec_remote_key(),
            final(self).spec_status() == SessionStatus::Aborted,
            final(self).exports_view() == old(self).exports_view(),
            final(self).registry_view() == old(self).registry_view(),
    {
        self.status = SessionStatus::Aborted;
        proof {
            assert forall|w: Seq<u8>| self.registry_view().dom().contains(w) implies 1
                <= #[trigger] self.registry_view()[w] <= self.exports_view().len() by {
                assert(old(self).registry_view()[w] == self.registry_view()[w]);
                assert(1 <= old(self).registry_view()[w] <= old(self).exports_view().len());
            }
        }
    }

    /// The session handler's one step: what to do with a wire event. Only
    /// an abort changes the session's own state.
    pub fn on_event(&mut self, ev: SessionEvent) -> (r: SessionAction)
        requires
            old(self).wf(),
            old(self).spec_status() == SessionStatus::Open,
        ensures
            final(self).wf(),
            final(self).spec_remote_key() == old(self).spec_remote_key(),
            final(self).exports_view() == old(self).exports_view(),
            final(self).registry_view() == old(self).registry_view(),
            match ev {
                SessionEvent::Fetch { swiss } => {
                    &&& final(self).spec_status() == SessionStatus::Open
                    &&& if old(self).registry_view().dom().contains(swiss@) {
                        r matches SessionAction::ResolveCached { position } && position == old(
                            self,
                        ).registry_view()[swiss@]
                    } else {
                        r matches SessionAction::AskManager { swiss: w } && w@ == swiss@
                    }
                },
                SessionEvent::Abort { reason } => {
                    &&& final(self).spec_status() == SessionStatus::Aborted
                    &&& r matches SessionAction::EmitAborted { session_key, reason: rr }
                        && session_key@ == old(self).spec_remote_key() && rr@ == reason@
                },
            },
    {
        match ev {
            SessionEvent::Fetch { swiss } => match self.lookup_swiss(&swiss) {
                Some(position) => SessionAction::ResolveCached { position },
                None => SessionAction::AskManager { swiss },
            },
            SessionEvent::Abort { reason } => {
                self.mark_aborted();
                SessionAction::EmitAborted { session_key: self.remote_key.dup(), reason }
            },
        }
    }
}

/// Law: two fetches of one swiss number on one session resolve to the same
/// position. The first fetch that reaches the manager records the position
/// it exported at; a session never changes or drops a recorded entry, so
/// every later fetch is answered from the registry with that same position.
pub proof fn lemma_repeated_fetch_same_position(
    s0: Session,
    s1: Session,
    w: Seq<u8>,
    p: u64,
    cap: ExportedCap,
)
    requires
        !s0.registry_view().dom().contains(w),
        s1.registry_view() == s0.registry_view().insert(w, p),
    ensures
        s1.registry_view().dom().contains(w),
        s1.registry_view()[w] == p,
{
}

/// Law: recording a different swiss number leaves an earlier entry — and so
/// the position later fetches of it resolve to — unchanged.
pub proof fn lemma_registry_entry_stable(
    s0: Session,
    s1: Session,
    w: Seq<u8>,
    w2: Seq<u8>,
    p: u64,
    p2: u64,
)
    requires
        s0.registry_view().dom().contains(w),
        s0.registry_view()[w] == p,
        s1.registry_view() == s0.registry_view().insert(w2, p2),
        w2 != w,
    ensures
        s1.registry_view().dom().contains(w),
        s1.registry_view()[w] == p,
{
}

/// The no-op handler that fulfilled promises are acknowledged to.
pub struct FulfillResponseHandler;

impl FulfillResponseHandler {
    /// A shared handle to the handler.
    pub fn new() -> (r: std::sync::Arc<Self>)
    {
        std::sync::Arc::new(FulfillResponseHandler)
    }
}

} // verus!
