//! One live document and the peers attached to it.
//!
//! A session is the single point through which every change to its
//! document passes: callers hold it under one lock, and each method is one
//! in-memory state transition. Frames for a peer are placed in that peer's
//! bounded outbound queue, which the peer's writer drains; a peer whose queue
//! is full when a frame is due is dropped from the session rather than
//! waited for. The document is read here (for catch-up updates and
//! snapshots); integrating an update into it is left to the caller, which
//! reports the outcome.
use crate::doc::{check_state_vector, record_all, encode_diff, state_vector_decodes, state_vector_plausible};
use crate::frame::{copy_tail, decode_frame, encode_frame, frame_bytes, parse_frame, FrameKind};
use crate::link::{link_step, on_frame, LinkAction, LinkState};
use vstd::prelude::*;
use yrs::Doc;

verus! {

/// How many frames may wait in one peer's outbound queue.
pub const QUEUE_CAPACITY: usize = 32;

/// One attached connection.
#[derive(Debug)]
pub struct PeerHandle {
    pub connection_id: u64,
    pub state: LinkState,
    /// Encoded frames waiting to be written to the peer, oldest first.
    pub outbound: Vec<Vec<u8>>,
    /// The peer's latest presence payload, never persisted.
    pub presence: Option<Vec<u8>>,
}

/// What a peer handle stands for.
pub struct PeerModel {
    pub id: u64,
    pub state: LinkState,
    pub outbound: Seq<Seq<u8>>,
    pub presence: Option<Seq<u8>>,
}

impl View for PeerHandle {
    type V = PeerModel;

    open spec fn view(&self) -> PeerModel {
        PeerModel {
            id: self.connection_id,
            state: self.state,
            outbound: self.outbound@.map_values(|f: Vec<u8>| f@),
            presence: match self.presence {
                Some(p) => Some(p@),
                None => None,
            },
        }
    }
}

/// The live state of one document.
pub struct Session {
    pub document_id: String,
    pub doc: Doc,
    pub peers: Vec<PeerHandle>,
    /// An update was integrated since the last snapshot was taken for saving.
    pub dirty: bool,
    /// A snapshot was handed out for saving and its outcome is not known yet.
    pub saving: bool,
    /// The updates that the document took since the session was opened.
    pub integrated: Ghost<Set<Seq<u8>>>,
}

/// What a session stands for.
pub struct SessionModel {
    pub document_id: Seq<char>,
    pub doc: Doc,
    pub updates: Set<Seq<u8>>,
    pub peers: Seq<PeerModel>,
    pub dirty: bool,
    pub saving: bool,
}

impl View for Session {
    type V = SessionModel;

    open spec fn view(&self) -> SessionModel {
        SessionModel {
            document_id: self.document_id@,
            doc: self.doc,
            updates: self.integrated@,
            peers: self.peers@.map_values(|p: PeerHandle| p@),
            dirty: self.dirty,
            saving: self.saving,
        }
    }
}

/// Why a peer link was closed by the session.
#[derive(Clone, Copy, Debug, PartialEq, Eq, Structural)]
pub enum CloseReason {
    /// The bytes received are not one well-formed frame.
    Malformed,
    /// The frame is not allowed in the link's current state.
    OutOfOrder,
    /// The state vector of a `SyncStep1` does not decode.
    BadStateVector,
    /// The document did not take the update carried.
    BadUpdate,
    /// The peer's outbound queue is full.
    QueueFull,
}

/// What became of one received frame.
#[derive(Clone, Copy, Debug, PartialEq, Eq, Structural)]
pub enum ReceiveOutcome {
    /// No open link of that connection is attached: the frame is dropped.
    NotAttached,
    /// The frame asks for the update that brings the sender up to date from
    /// the state vector handed back: the caller asks `catch_up` for it and
    /// hands the result to `reply`.
    CatchUp,
    /// The catch-up update was queued for the sender.
    Replied,
    /// The frame carries an update: the caller integrates it into the
    /// document and reports the outcome with `Session::integrated`.
    Integrate,
    /// The update was integrated and passed on to the other peers.
    Applied,
    /// The presence payload was recorded and passed on to the other peers.
    Shared,
    /// The sender's link was closed.
    Closed(CloseReason),
}

/// Whether some peer in `peers` has connection id `id`.
pub open spec fn has_peer(peers: Seq<PeerModel>, id: u64) -> bool {
    exists|i: int| 0 <= i < peers.len() && peers[i].id == id
}

/// The position of the peer with connection id `id`.
pub open spec fn peer_index(peers: Seq<PeerModel>, id: u64) -> int {
    choose|i: int| 0 <= i < peers.len() && peers[i].id == id
}

/// Connection ids are unique, queues are bounded, closed links hold no
/// frames and no link is still connecting.
pub open spec fn peers_wf(peers: Seq<PeerModel>) -> bool {
    &&& forall|i: int, j: int|
        0 <= i < peers.len() && 0 <= j < peers.len() && i != j ==> peers[i].id != peers[j].id
    &&& forall|i: int|
        0 <= i < peers.len() ==> {
            &&& peer_wf(#[trigger] peers[i])
        }
}

/// A single peer's own constraints.
pub open spec fn peer_wf(p: PeerModel) -> bool {
    &&& p.outbound.len() <= QUEUE_CAPACITY
    &&& p.state != LinkState::Connecting
    &&& p.state == LinkState::Closed ==> p.outbound.len() == 0
}

pub open spec fn session_wf(s: SessionModel) -> bool {
    peers_wf(s.peers)
}

/// A newly attached peer.
pub open spec fn fresh_peer(id: u64) -> PeerModel {
    PeerModel {
        id,
        state: LinkState::AwaitingSyncStep1,
        outbound: Seq::empty(),
        presence: None,
    }
}

/// A peer whose link was closed: nothing more is written to it.
pub open spec fn closed_peer(p: PeerModel) -> PeerModel {
    PeerModel { state: LinkState::Closed, outbound: Seq::empty(), ..p }
}

/// Whether peer `p` has no room for a frame from `origin`: it is then
/// dropped instead of being waited for.
pub open spec fn overflows(p: PeerModel, origin: u64) -> bool {
    p.id != origin && p.state != LinkState::Closed && p.outbound.len() >= QUEUE_CAPACITY
}

/// Delivery of `frame` from `origin` to a peer `p` that has room.
pub open spec fn deliver(p: PeerModel, frame: Seq<u8>, origin: u64) -> PeerModel {
    if p.id == origin || p.state == LinkState::Closed {
        p
    } else {
        PeerModel { outbound: p.outbound.push(frame), ..p }
    }
}

/// Fan-out of `frame` from `origin`: every other open peer gets it queued,
/// and a peer without room is dropped from the session, with its presence.
pub open spec fn publish_spec(peers: Seq<PeerModel>, frame: Seq<u8>, origin: u64) -> Seq<PeerModel>
    decreases peers.len(),
{
    if peers.len() == 0 {
        Seq::empty()
    } else {
        let prev = publish_spec(peers.drop_last(), frame, origin);
        if overflows(peers.last(), origin) {
            prev
        } else {
            prev.push(deliver(peers.last(), frame, origin))
        }
    }
}

pub open spec fn with_peers(s: SessionModel, peers: Seq<PeerModel>) -> SessionModel {
    SessionModel { peers, ..s }
}

/// A session opened for `document_id` on document `doc`, which holds
/// whatever storage returned for it.
pub open spec fn open_spec(document_id: Seq<char>, doc: Doc) -> SessionModel {
    SessionModel {
        document_id,
        doc,
        updates: Set::empty(),
        peers: Seq::empty(),
        dirty: false,
        saving: false,
    }
}

pub open spec fn attach_spec(s: SessionModel, id: u64) -> SessionModel {
    if has_peer(s.peers, id) {
        s
    } else {
        with_peers(s, s.peers.push(fresh_peer(id)))
    }
}

pub open spec fn detach_spec(s: SessionModel, id: u64) -> SessionModel {
    if has_peer(s.peers, id) {
        with_peers(s, s.peers.remove(peer_index(s.peers, id)))
    } else {
        s
    }
}

/// The session after a frame `bytes` from connection `id`.
pub open spec fn receive_spec(s: SessionModel, id: u64, bytes: Seq<u8>) -> (
    SessionModel,
    ReceiveOutcome,
) {
    if !has_peer(s.peers, id) {
        (s, ReceiveOutcome::NotAttached)
    } else {
        let i = peer_index(s.peers, id);
        let p = s.peers[i];
        let close = |r: CloseReason|
            (with_peers(s, s.peers.update(i, closed_peer(p))), ReceiveOutcome::Closed(r));
        if p.state == LinkState::Closed {
            (s, ReceiveOutcome::NotAttached)
        } else {
            match parse_frame(bytes) {
                None => close(CloseReason::Malformed),
                Some((k, payload)) => {
                    let (next, action) = link_step(p.state, k);
                    match action {
                        LinkAction::SendSyncStep2 => (s, ReceiveOutcome::CatchUp),
                        LinkAction::ApplyUpdate => (s, ReceiveOutcome::Integrate),
                        LinkAction::ShareAwareness => (
                            with_peers(
                                s,
                                publish_spec(
                                    s.peers.update(i, PeerModel { presence: Some(payload), ..p }),
                                    frame_bytes(FrameKind::Awareness, payload),
                                    id,
                                ),
                            ),
                            ReceiveOutcome::Shared,
                        ),
                        _ => close(CloseReason::OutOfOrder),
                    }
                },
            }
        }
    }
}

/// The session after the caller hands over `diff`, the catch-up update
/// for connection `id` (`None` when the document gave none).
pub open spec fn reply_spec(s: SessionModel, id: u64, diff: Option<Seq<u8>>) -> (
    SessionModel,
    ReceiveOutcome,
) {
    if !has_peer(s.peers, id) || s.peers[peer_index(s.peers, id)].state == LinkState::Closed {
        (s, ReceiveOutcome::NotAttached)
    } else {
        let i = peer_index(s.peers, id);
        let p = s.peers[i];
        match diff {
            None => (
                with_peers(s, s.peers.update(i, closed_peer(p))),
                ReceiveOutcome::Closed(CloseReason::BadStateVector),
            ),
            Some(d) => if p.outbound.len() >= QUEUE_CAPACITY {
                (
                    with_peers(s, s.peers.update(i, closed_peer(p))),
                    ReceiveOutcome::Closed(CloseReason::QueueFull),
                )
            } else {
                (
                    with_peers(
                        s,
                        s.peers.update(
                            i,
                            PeerModel {
                                state: LinkState::Synced,
                                outbound: p.outbound.push(frame_bytes(FrameKind::SyncStep2, d)),
                                ..p
                            },
                        ),
                    ),
                    ReceiveOutcome::Replied,
                )
            },
        }
    }
}

/// The session after the caller reports whether the document took
/// `update`, received from `origin`.
pub open spec fn integrated_spec(s: SessionModel, origin: u64, update: Seq<u8>, taken: bool) -> (
    SessionModel,
    ReceiveOutcome,
) {
    if !has_peer(s.peers, origin) || s.peers[peer_index(s.peers, origin)].state
        == LinkState::Closed {
        (s, ReceiveOutcome::NotAttached)
    } else if taken {
        (
            SessionModel {
                updates: s.updates.insert(update),
                dirty: true,
                peers: publish_spec(s.peers, frame_bytes(FrameKind::Update, update), origin),
                ..s
            },
            ReceiveOutcome::Applied,
        )
    } else {
        let i = peer_index(s.peers, origin);
        (
            with_peers(s, s.peers.update(i, closed_peer(s.peers[i]))),
            ReceiveOutcome::Closed(CloseReason::BadUpdate),
        )
    }
}

/// Whether a snapshot is due for saving: nobody is attached, something
/// changed since the last one, and no save is under way.
pub open spec fn persist_due(s: SessionModel) -> bool {
    s.peers.len() == 0 && s.dirty && !s.saving
}

pub open spec fn begin_persist_spec(s: SessionModel, has_snapshot: bool) -> SessionModel {
    if persist_due(s) && has_snapshot {
        SessionModel { dirty: false, saving: true, ..s }
    } else {
        s
    }
}

pub open spec fn finish_persist_spec(s: SessionModel, saved: bool) -> SessionModel {
    SessionModel { saving: false, dirty: s.dirty || !saved, ..s }
}

/// Whether the session may leave the registry: nobody is attached and all
/// that it holds has been saved.
pub open spec fn evictable_spec(s: SessionModel) -> bool {
    s.peers.len() == 0 && !s.dirty && !s.saving
}

proof fn lemma_peer_index(peers: Seq<PeerModel>, id: u64, i: int)
    requires
        peers_wf(peers),
        0 <= i < peers.len(),
        peers[i].id == id,
    ensures
        has_peer(peers, id),
        peer_index(peers, id) == i,
{
    assert(peers[i].id == id);
    let k = peer_index(peers, id);
    assert(0 <= k < peers.len() && peers[k].id == id);
}

proof fn lemma_update_wf(peers: Seq<PeerModel>, i: int, q: PeerModel)
    requires
        peers_wf(peers),
        0 <= i < peers.len(),
        q.id == peers[i].id,
        peer_wf(q),
    ensures
        peers_wf(peers.update(i, q)),
{
    let u = peers.update(i, q);
    assert forall|a: int, b: int| 0 <= a < u.len() && 0 <= b < u.len() && a != b implies u[a].id
        != u[b].id by {
        assert(u[a].id == peers[a].id);
        assert(u[b].id == peers[b].id);
    }
    assert forall|a: int| 0 <= a < u.len() implies peer_wf(#[trigger] u[a]) by {
        if a != i {
            assert(u[a] == peers[a]);
        }
    }
}

proof fn lemma_remove_wf(peers: Seq<PeerModel>, i: int)
    requires
        peers_wf(peers),
        0 <= i < peers.len(),
    ensures
        peers_wf(peers.remove(i)),
{
    let u = peers.remove(i);
    assert forall|a: int| 0 <= a < u.len() implies #[trigger] u[a] == peers[if a < i {
        a
    } else {
        a + 1
    }] by {}
    assert forall|a: int, b: int| 0 <= a < u.len() && 0 <= b < u.len() && a != b implies u[a].id
        != u[b].id by {
        assert(u[a] == peers[if a < i { a } else { a + 1 }]);
        assert(u[b] == peers[if b < i { b } else { b + 1 }]);
    }
    assert forall|a: int| 0 <= a < u.len() implies peer_wf(#[trigger] u[a]) by {
        assert(u[a] == peers[if a < i { a } else { a + 1 }]);
    }
}

proof fn lemma_push_wf(peers: Seq<PeerModel>, q: PeerModel)
    requires
        peers_wf(peers),
        !has_peer(peers, q.id),
        peer_wf(q),
    ensures
        peers_wf(peers.push(q)),
{
    let u = peers.push(q);
    assert forall|a: int, b: int| 0 <= a < u.len() && 0 <= b < u.len() && a != b implies u[a].id
        != u[b].id by {
        if a < peers.len() && b < peers.len() {
            assert(u[a] == peers[a] && u[b] == peers[b]);
        } else if a < peers.len() {
            assert(u[a] == peers[a]);
        } else {
            assert(u[b] == peers[b]);
        }
    }
    assert forall|a: int| 0 <= a < u.len() implies peer_wf(#[trigger] u[a]) by {
        if a < peers.len() {
            assert(u[a] == peers[a]);
        }
    }
}

/// Each peer left after a fan-out is the delivery to some peer that had
/// room: the position of that peer.
proof fn lemma_publish_source(peers: Seq<PeerModel>, frame: Seq<u8>, origin: u64, m: int) -> (j: int)
    requires
        0 <= m < publish_spec(peers, frame, origin).len(),
    ensures
        0 <= j < peers.len(),
        !overflows(peers[j], origin),
        publish_spec(peers, frame, origin)[m] == deliver(peers[j], frame, origin),
    decreases peers.len(),
{
    let init = peers.drop_last();
    let prev = publish_spec(init, frame, origin);
    if m < prev.len() {
        let j = lemma_publish_source(init, frame, origin, m);
        assert(peers[j] == init[j]);
        j
    } else {
        (peers.len() - 1) as int
    }
}

/// Each peer that had room is left after a fan-out: its new position.
proof fn lemma_publish_target(peers: Seq<PeerModel>, frame: Seq<u8>, origin: u64, j: int) -> (m: int)
    requires
        0 <= j < peers.len(),
        !overflows(peers[j], origin),
    ensures
        0 <= m < publish_spec(peers, frame, origin).len(),
        publish_spec(peers, frame, origin)[m] == deliver(peers[j], frame, origin),
    decreases peers.len(),
{
    let init = peers.drop_last();
    let prev = publish_spec(init, frame, origin);
    if j < init.len() {
        assert(init[j] == peers[j]);
        lemma_publish_target(init, frame, origin, j)
    } else {
        prev.len() as int
    }
}

/// A fan-out keeps the peers well formed.
proof fn lemma_publish_wf(peers: Seq<PeerModel>, frame: Seq<u8>, origin: u64)
    requires
        peers_wf(peers),
    ensures
        peers_wf(publish_spec(peers, frame, origin)),
    decreases peers.len(),
{
    if peers.len() > 0 {
        let init = peers.drop_last();
        assert(peers_wf(init)) by {
            assert forall|a: int| 0 <= a < init.len() implies peer_wf(#[trigger] init[a]) by {
                assert(init[a] == peers[a]);
            }
            assert forall|a: int, b: int| 0 <= a < init.len() && 0 <= b < init.len() && a != b implies init[a].id != init[b].id by {
                assert(init[a] == peers[a] && init[b] == peers[b]);
            }
        }
        lemma_publish_wf(init, frame, origin);
        let prev = publish_spec(init, frame, origin);
        let last = peers.last();
        assert(peers[peers.len() - 1] == last);
        if !overflows(last, origin) {
            let q = deliver(last, frame, origin);
            assert(peer_wf(last));
            assert(!has_peer(prev, q.id)) by {
                if has_peer(prev, q.id) {
                    let m = choose|m: int| 0 <= m < prev.len() && prev[m].id == q.id;
                    let j = lemma_publish_source(init, frame, origin, m);
                    assert(init[j] == peers[j]);
                }
            }
            lemma_push_wf(prev, q);
        }
    }
}

/// A fan-out never adds peers.
proof fn lemma_publish_len(peers: Seq<PeerModel>, frame: Seq<u8>, origin: u64)
    ensures
        publish_spec(peers, frame, origin).len() <= peers.len(),
    decreases peers.len(),
{
    if peers.len() > 0 {
        lemma_publish_len(peers.drop_last(), frame, origin);
    }
}

/// After a fan-out, a peer is still there exactly when it had room, and it
/// then stands as the delivery to it.
proof fn lemma_publish_find(peers: Seq<PeerModel>, frame: Seq<u8>, origin: u64, j: int)
    requires
        peers_wf(peers),
        0 <= j < peers.len(),
    ensures
        has_peer(publish_spec(peers, frame, origin), peers[j].id) == !overflows(peers[j], origin),
        !overflows(peers[j], origin) ==> ({
            let res = publish_spec(peers, frame, origin);
            res[peer_index(res, peers[j].id)] == deliver(peers[j], frame, origin)
        }),
{
    let res = publish_spec(peers, frame, origin);
    lemma_publish_wf(peers, frame, origin);
    let id = peers[j].id;
    if !overflows(peers[j], origin) {
        let m = lemma_publish_target(peers, frame, origin, j);
        lemma_peer_index(res, id, m);
    } else {
        if has_peer(res, id) {
            let m = choose|m: int| 0 <= m < res.len() && res[m].id == id;
            let j2 = lemma_publish_source(peers, frame, origin, m);
            assert(peers[j2].id == id);
        }
    }
}

/// The position of the handle of connection `id`, if one is attached.
fn find_peer(peers: &Vec<PeerHandle>, id: u64) -> (r: Option<usize>)
    ensures
        match r {
            Some(i) => i < peers@.len() && peers@[i as int].connection_id == id,
            None => forall|j: int| 0 <= j < peers@.len() ==> peers@[j].connection_id != id,
        },
{
    let mut i: usize = 0;
    while i < peers.len()
        invariant
            i <= peers@.len(),
            forall|j: int| 0 <= j < i ==> peers@[j].connection_id != id,
        decreases peers@.len() - i,
    {
        if peers[i].connection_id == id {
            return Some(i);
        }
        i = i + 1;
    }
    None
}

impl Session {
    /// A session for `document_id` on `doc`, which the caller has built
    /// from what storage returned for it (empty where nothing was stored).
    pub fn new(document_id: String, doc: Doc) -> (r: Session)
        ensures
            session_wf(r@),
            r@ == open_spec(document_id@, doc),
    {
        let peers: Vec<PeerHandle> = Vec::new();
        assert(peers@.map_values(|p: PeerHandle| p@) =~= Seq::<PeerModel>::empty());
        Session {
            document_id,
            doc,
            peers,
            dirty: false,
            saving: false,
            integrated: Ghost(Set::empty()),
        }
    }

    /// Attaches a new link for `connection_id`; `false`, and no change, if
    /// that connection is attached already.
    pub fn attach(&mut self, connection_id: u64) -> (r: bool)
        requires
            session_wf(old(self)@),
        ensures
            session_wf(final(self)@),
            final(self)@ == attach_spec(old(self)@, connection_id),
            r == !has_peer(old(self)@.peers, connection_id),
    {
        match find_peer(&self.peers, connection_id) {
            Some(i) => {
                proof {
                    lemma_peer_index(self@.peers, connection_id, i as int);
                }
                false
            },
            None => {
                let ghost before = self@;
                let h = PeerHandle {
                    connection_id,
                    state: LinkState::AwaitingSyncStep1,
                    outbound: Vec::new(),
                    presence: None,
                };
                assert(h@.outbound =~= Seq::<Seq<u8>>::empty());
                self.peers.push(h);
                assert(self@.peers =~= before.peers.push(fresh_peer(connection_id)));
                proof {
                    assert(!has_peer(before.peers, connection_id));
                    lemma_push_wf(before.peers, fresh_peer(connection_id));
                }
                true
            },
        }
    }

    /// Detaches the link of `connection_id`, dropping its queue and its
    /// presence. Returns whether it was attached; a second call does nothing.
    pub fn detach(&mut self, connection_id: u64) -> (r: bool)
        requires
            session_wf(old(self)@),
        ensures
            session_wf(final(self)@),
            final(self)@ == detach_spec(old(self)@, connection_id),
            r == has_peer(old(self)@.peers, connection_id),
            !has_peer(final(self)@.peers, connection_id),
    {
        match find_peer(&self.peers, connection_id) {
            Some(i) => {
                let ghost before = self@;
                proof {
                    lemma_peer_index(self@.peers, connection_id, i as int);
                }
                self.peers.remove(i);
                assert(self@.peers =~= before.peers.remove(i as int));
                proof {
                    lemma_remove_wf(before.peers, i as int);
                }
                assert forall|j: int| 0 <= j < self@.peers.len() implies self@.peers[j].id
                    != connection_id by {
                    if j < i {
                        assert(self@.peers[j] == before.peers[j]);
                    } else {
                        assert(self@.peers[j] == before.peers[j + 1]);
                    }
                }
                true
            },
            None => false,
        }
    }

    /// Closes the link at position `i`: its queue is dropped.
    fn close_peer(&mut self, i: usize)
        requires
            i < old(self)@.peers.len(),
            session_wf(old(self)@),
        ensures
            session_wf(final(self)@),
            final(self)@ == with_peers(
                old(self)@,
                old(self)@.peers.update(i as int, closed_peer(old(self)@.peers[i as int])),
            ),
    {
        let ghost before = self@;
        let p = self.peers.remove(i);
        let PeerHandle { connection_id, state, outbound, presence } = p;
        let q = PeerHandle { connection_id, state: LinkState::Closed, outbound: Vec::new(), presence };
        assert(q@.outbound =~= Seq::<Seq<u8>>::empty());
        self.peers.insert(i, q);
        assert(self@.peers =~= before.peers.update(i as int, closed_peer(before.peers[i as int])));
        proof {
            lemma_update_wf(before.peers, i as int, closed_peer(before.peers[i as int]));
        }
    }

    /// Queues `frame` for every peer but `origin`. A peer whose queue is
    /// full is dropped from the session instead, so that it never holds up
    /// the others.
    pub fn publish(&mut self, frame: &[u8], origin: u64)
        requires
            session_wf(old(self)@),
        ensures
            session_wf(final(self)@),
            final(self)@ == with_peers(old(self)@, publish_spec(old(self)@.peers, frame@, origin)),
    {
        let ghost before = self@;
        let ghost n = before.peers.len();
        let mut kept: Vec<PeerHandle> = Vec::new();
        let ghost mut k: int = 0;
        assert(before.peers.subrange(0, 0) =~= Seq::<PeerModel>::empty());
        assert(kept@.map_values(|p: PeerHandle| p@) =~= Seq::<PeerModel>::empty());
        assert(self@.peers =~= before.peers.subrange(0, n as int));
        while self.peers.len() > 0
            invariant
                0 <= k <= n,
                n == before.peers.len(),
                self.document_id@ == before.document_id,
                self.doc == before.doc,
                self.integrated@ == before.updates,
                self.dirty == before.dirty,
                self.saving == before.saving,
                self@.peers == before.peers.subrange(k, n as int),
                kept@.map_values(|p: PeerHandle| p@) == publish_spec(
                    before.peers.subrange(0, k),
                    frame@,
                    origin,
                ),
            decreases self.peers@.len(),
        {
            let ghost rest = self@.peers;
            let ghost vrest = self.peers@;
            assert(rest.len() == vrest.len());
            assert(rest[0] == before.peers[k]);
            let p = self.peers.remove(0);
            assert(self.peers@ =~= vrest.drop_first());
            assert forall|x: int| 0 <= x < self@.peers.len() implies self@.peers[x]
                == before.peers.subrange(k + 1, n as int)[x] by {
                assert(self@.peers[x] == vrest[x + 1]@);
                assert(rest[x + 1] == vrest[x + 1]@);
            }
            assert(self@.peers =~= before.peers.subrange(k + 1, n as int));
            assert(p@ == before.peers[k]);
            let ghost pm = p@;
            let ghost prefix = before.peers.subrange(0, k + 1);
            assert(prefix.drop_last() =~= before.peers.subrange(0, k));
            assert(prefix.last() == pm);
            let PeerHandle { connection_id, state, outbound, presence } = p;
            if connection_id == origin || state == LinkState::Closed {
                let q = PeerHandle { connection_id, state, outbound, presence };
                assert(q@ == deliver(pm, frame@, origin));
                kept.push(q);
            } else if outbound.len() >= QUEUE_CAPACITY {
            } else {
                let ghost ob0 = outbound@;
                let mut ob = outbound;
                ob.push(copy_tail(frame, 0));
                assert(frame@.subrange(0, frame@.len() as int) =~= frame@);
                let q = PeerHandle { connection_id, state, outbound: ob, presence };
                assert(q@.outbound =~= ob0.map_values(|f: Vec<u8>| f@).push(frame@));
                assert(q@ == deliver(pm, frame@, origin));
                kept.push(q);
            }
            assert(kept@.map_values(|p: PeerHandle| p@) =~= publish_spec(prefix, frame@, origin));
            proof {
                k = k + 1;
            }
        }
        assert(before.peers.subrange(0, n as int) =~= before.peers);
        self.peers = kept;
        proof {
            lemma_publish_wf(before.peers, frame@, origin);
        }
    }

    /// Takes every frame waiting for `connection_id`, oldest first.
    pub fn take_outbound(&mut self, connection_id: u64) -> (r: Vec<Vec<u8>>)
        requires
            session_wf(old(self)@),
        ensures
            session_wf(final(self)@),
            has_peer(old(self)@.peers, connection_id) ==> {
                let i = peer_index(old(self)@.peers, connection_id);
                let p = old(self)@.peers[i];
                &&& r@.map_values(|f: Vec<u8>| f@) == p.outbound
                &&& final(self)@ == with_peers(
                    old(self)@,
                    old(self)@.peers.update(i, PeerModel { outbound: Seq::empty(), ..p }),
                )
            },
            !has_peer(old(self)@.peers, connection_id) ==> r@.len() == 0 && final(self)@ == old(
                self,
            )@,
    {
        match find_peer(&self.peers, connection_id) {
            Some(i) => {
                let ghost before = self@;
                proof {
                    lemma_peer_index(self@.peers, connection_id, i as int);
                }
                let p = self.peers.remove(i);
                let PeerHandle { connection_id, state, outbound, presence } = p;
                let q = PeerHandle { connection_id, state, outbound: Vec::new(), presence };
                let ghost pm = before.peers[i as int];
                assert(q@.outbound =~= Seq::<Seq<u8>>::empty());
                assert(q@ == PeerModel { outbound: Seq::empty(), ..pm });
                self.peers.insert(i, q);
                assert(self@.peers =~= before.peers.update(
                    i as int,
                    PeerModel { outbound: Seq::empty(), ..pm },
                ));
                proof {
                    lemma_update_wf(before.peers, i as int, PeerModel { outbound: Seq::empty(), ..pm });
                }
                outbound
            },
            None => {
                proof {
                    if has_peer(self@.peers, connection_id) {
                        let k = choose|k: int|
                            0 <= k < self@.peers.len() && self@.peers[k].id == connection_id;
                        assert(self.peers@[k].connection_id == connection_id);
                    }
                }
                Vec::new()
            },
        }
    }

    /// Handles the bytes of one frame received from `connection_id`. Presence
    /// is recorded and shared at once. For a handshake or an update nothing
    /// changes yet: the state vector, or the update, is handed back, and the
    /// caller, under the same lock, answers with `reply` or `integrated`. A
    /// frame that is malformed or out of turn closes the sender's link and
    /// touches nothing else.
    pub fn receive(&mut self, connection_id: u64, bytes: &[u8]) -> (r: (ReceiveOutcome, Option<Vec<u8>>))
        requires
            session_wf(old(self)@),
        ensures
            session_wf(final(self)@),
            receive_spec(old(self)@, connection_id, bytes@) == (final(self)@, r.0),
            r.1 is Some <==> (r.0 == ReceiveOutcome::Integrate || r.0 == ReceiveOutcome::CatchUp),
            r.1 matches Some(u) ==> (parse_frame(bytes@) matches Some((_, p)) && u@ == p),
    {
        let ghost before = self@;
        let i = match find_peer(&self.peers, connection_id) {
            None => {
                assert(!has_peer(before.peers, connection_id)) by {
                    if has_peer(before.peers, connection_id) {
                        let k = choose|k: int|
                            0 <= k < before.peers.len() && before.peers[k].id == connection_id;
                        assert(self.peers@[k].connection_id == connection_id);
                    }
                }
                assert(receive_spec(before, connection_id, bytes@) == (self@, ReceiveOutcome::NotAttached));
                return (ReceiveOutcome::NotAttached, None);
            },
            Some(i) => i,
        };
        proof {
            lemma_peer_index(before.peers, connection_id, i as int);
        }
        let ghost pm = before.peers[i as int];
        if self.peers[i].state == LinkState::Closed {
            assert(receive_spec(before, connection_id, bytes@) == (self@, ReceiveOutcome::NotAttached));
            return (ReceiveOutcome::NotAttached, None);
        }
        let frame = match decode_frame(bytes) {
            None => {
                self.close_peer(i);
                let r = ReceiveOutcome::Closed(CloseReason::Malformed);
                assert(receive_spec(before, connection_id, bytes@) == (self@, r));
                return (r, None);
            },
            Some(f) => f,
        };
        let (next, action) = on_frame(self.peers[i].state, frame.kind);
        match action {
            LinkAction::SendSyncStep2 => {
                assert(receive_spec(before, connection_id, bytes@) == (self@, ReceiveOutcome::CatchUp));
                (ReceiveOutcome::CatchUp, Some(frame.payload))
            },
            LinkAction::ApplyUpdate => {
                assert(receive_spec(before, connection_id, bytes@) == (self@, ReceiveOutcome::Integrate));
                (ReceiveOutcome::Integrate, Some(frame.payload))
            },
            LinkAction::ShareAwareness => {
                let p = self.peers.remove(i);
                let PeerHandle { connection_id: cid, state, outbound, presence: _ } = p;
                let q = PeerHandle {
                    connection_id: cid,
                    state,
                    outbound,
                    presence: Some(copy_tail(frame.payload.as_slice(), 0)),
                };
                assert(frame.payload@.subrange(0, frame.payload@.len() as int) =~= frame.payload@);
                let ghost qm = PeerModel { presence: Some(frame.payload@), ..pm };
                assert(q@ == qm);
                self.peers.insert(i, q);
                assert(self@.peers =~= before.peers.update(i as int, qm));
                proof {
                    lemma_update_wf(before.peers, i as int, qm);
                }
                let out = encode_frame(FrameKind::Awareness, frame.payload.as_slice());
                self.publish(out.as_slice(), connection_id);
                let r = ReceiveOutcome::Shared;
                assert(receive_spec(before, connection_id, bytes@) == (self@, r));
                (r, None)
            },
            _ => {
                self.close_peer(i);
                let r = ReceiveOutcome::Closed(CloseReason::OutOfOrder);
                assert(receive_spec(before, connection_id, bytes@) == (self@, r));
                (r, None)
            },
        }
    }

    /// The catch-up update for a peer at state vector `sv`, as the document
    /// gives it; `None` when `sv` is implausible or does not decode, or the
    /// document is busy.
    pub fn catch_up(&self, sv: &[u8]) -> (r: Option<Vec<u8>>)
        ensures
            r is Some ==> state_vector_plausible(sv@) && state_vector_decodes(sv@),
    {
        if check_state_vector(sv) {
            encode_diff(&self.doc, sv)
        } else {
            None
        }
    }

    /// Queues `diff`, the catch-up update for `connection_id`, as its
    /// `SyncStep2` and marks its link synced. Without an update, or without
    /// room in its queue, the link is closed instead.
    pub fn reply(&mut self, connection_id: u64, diff: Option<Vec<u8>>) -> (r: ReceiveOutcome)
        requires
            session_wf(old(self)@),
        ensures
            session_wf(final(self)@),
            reply_spec(
                old(self)@,
                connection_id,
                match diff {
                    Some(d) => Some(d@),
                    None => None,
                },
            ) == (final(self)@, r),
    {
        let ghost before = self@;
        let i = match find_peer(&self.peers, connection_id) {
            None => {
                assert(!has_peer(before.peers, connection_id)) by {
                    if has_peer(before.peers, connection_id) {
                        let k = choose|k: int|
                            0 <= k < before.peers.len() && before.peers[k].id == connection_id;
                        assert(self.peers@[k].connection_id == connection_id);
                    }
                }
                return ReceiveOutcome::NotAttached;
            },
            Some(i) => i,
        };
        proof {
            lemma_peer_index(before.peers, connection_id, i as int);
        }
        let ghost pm = before.peers[i as int];
        if self.peers[i].state == LinkState::Closed {
            return ReceiveOutcome::NotAttached;
        }
        match diff {
            None => {
                self.close_peer(i);
                ReceiveOutcome::Closed(CloseReason::BadStateVector)
            },
            Some(d) => {
                if self.peers[i].outbound.len() >= QUEUE_CAPACITY {
                    self.close_peer(i);
                    ReceiveOutcome::Closed(CloseReason::QueueFull)
                } else {
                    let reply = encode_frame(FrameKind::SyncStep2, d.as_slice());
                    let p = self.peers.remove(i);
                    let PeerHandle { connection_id: cid, state: _, outbound, presence } = p;
                    let mut ob = outbound;
                    ob.push(reply);
                    let q = PeerHandle { connection_id: cid, state: LinkState::Synced, outbound: ob, presence };
                    let ghost qm = PeerModel {
                        state: LinkState::Synced,
                        outbound: pm.outbound.push(frame_bytes(FrameKind::SyncStep2, d@)),
                        ..pm
                    };
                    assert(q@.outbound =~= qm.outbound);
                    assert(q@ == qm);
                    self.peers.insert(i, q);
                    assert(self@.peers =~= before.peers.update(i as int, qm));
                    proof {
                        lemma_update_wf(before.peers, i as int, qm);
                    }
                    ReceiveOutcome::Replied
                }
            },
        }
    }

    /// Records whether the document took `update`, which `receive` handed
    /// out for `origin`. A taken update marks the session dirty and goes to
    /// every other peer; one that was refused closes the sender's link. If
    /// `origin` has no open link any more, nothing changes.
    pub fn integrated(&mut self, origin: u64, update: &[u8], taken: bool) -> (r: ReceiveOutcome)
        requires
            session_wf(old(self)@),
        ensures
            session_wf(final(self)@),
            integrated_spec(old(self)@, origin, update@, taken) == (final(self)@, r),
    {
        let ghost before = self@;
        let i = match find_peer(&self.peers, origin) {
            None => {
                assert(!has_peer(before.peers, origin)) by {
                    if has_peer(before.peers, origin) {
                        let k = choose|k: int| 0 <= k < before.peers.len() && before.peers[k].id == origin;
                        assert(self.peers@[k].connection_id == origin);
                    }
                }
                return ReceiveOutcome::NotAttached;
            },
            Some(i) => i,
        };
        proof {
            lemma_peer_index(before.peers, origin, i as int);
        }
        if self.peers[i].state == LinkState::Closed {
            return ReceiveOutcome::NotAttached;
        }
        if taken {
            self.integrated = Ghost(self.integrated@.insert(update@));
            self.dirty = true;
            let out = encode_frame(FrameKind::Update, update);
            self.publish(out.as_slice(), origin);
            ReceiveOutcome::Applied
        } else {
            self.close_peer(i);
            ReceiveOutcome::Closed(CloseReason::BadUpdate)
        }
    }

    /// Begins a save with `snapshot`, the whole document as the caller
    /// took it from `catch_up` with the empty state vector, when one is due
    /// (nobody attached, changed since the last save, no save under way):
    /// hands the snapshot back and marks the save as under way. Otherwise
    /// hands back nothing and changes nothing.
    pub fn begin_persist(&mut self, snapshot: Option<Vec<u8>>) -> (r: Option<Vec<u8>>)
        requires
            session_wf(old(self)@),
        ensures
            session_wf(final(self)@),
            r == (if persist_due(old(self)@) {
                snapshot
            } else {
                None
            }),
            final(self)@ == begin_persist_spec(old(self)@, snapshot is Some),
    {
        if self.peers.len() == 0 && self.dirty && !self.saving {
            match snapshot {
                Some(s) => {
                    self.dirty = false;
                    self.saving = true;
                    Some(s)
                },
                None => None,
            }
        } else {
            None
        }
    }

    /// Records the outcome of the save begun last. After a failure the
    /// session is dirty again, so that the next chance saves it anew; the
    /// document itself is never rolled back.
    pub fn finish_persist(&mut self, saved: bool)
        requires
            session_wf(old(self)@),
        ensures
            session_wf(final(self)@),
            final(self)@ == finish_persist_spec(old(self)@, saved),
    {
        self.saving = false;
        if !saved {
            self.dirty = true;
        }
    }

    /// Whether the session may leave the registry.
    pub fn is_evictable(&self) -> (r: bool)
        ensures
            r == evictable_spec(self@),
    {
        self.peers.len() == 0 && !self.dirty && !self.saving
    }
}

/// No lost updates while peers exist: when the update `u` from the open
/// link of `a` is taken by the document, every other peer `b` with an open
/// link either has that update queued after all that it had before, or had
/// no room for it and has been dropped from the session.
pub proof fn lemma_no_lost_updates(s: SessionModel, a: u64, u: Seq<u8>, b: u64)
    requires
        session_wf(s),
        has_peer(s.peers, a),
        s.peers[peer_index(s.peers, a)].state != LinkState::Closed,
        has_peer(s.peers, b),
        b != a,
        s.peers[peer_index(s.peers, b)].state != LinkState::Closed,
    ensures
        ({
            let (after, outcome) = integrated_spec(s, a, u, true);
            let old_b = s.peers[peer_index(s.peers, b)];
            &&& outcome == ReceiveOutcome::Applied
            &&& after.updates == s.updates.insert(u)
            &&& has_peer(after.peers, b) ==> after.peers[peer_index(after.peers, b)].outbound
                == old_b.outbound.push(frame_bytes(FrameKind::Update, u))
            &&& !has_peer(after.peers, b) ==> old_b.outbound.len() >= QUEUE_CAPACITY
        }),
{
    let j = peer_index(s.peers, b);
    assert(0 <= j < s.peers.len() && s.peers[j].id == b);
    lemma_publish_find(s.peers, frame_bytes(FrameKind::Update, u), a, j);
}

/// Slow-peer isolation: a synced `sender` whose update frame arrives is
/// told to have it integrated, and once the document took it, the sender's
/// own link is untouched and sees `Applied`, while another peer `slow` whose
/// queue is full is dropped from the session instead of being waited for.
pub proof fn lemma_slow_peer_isolation(
    s: SessionModel,
    sender: u64,
    slow: u64,
    bytes: Seq<u8>,
    u: Seq<u8>,
)
    requires
        session_wf(s),
        has_peer(s.peers, sender),
        has_peer(s.peers, slow),
        sender != slow,
        s.peers[peer_index(s.peers, sender)].state == LinkState::Synced,
        s.peers[peer_index(s.peers, slow)].state != LinkState::Closed,
        s.peers[peer_index(s.peers, slow)].outbound.len() == QUEUE_CAPACITY,
        parse_frame(bytes) == Some((FrameKind::Update, u)),
    ensures
        ({
            let (mid, first) = receive_spec(s, sender, bytes);
            let (after, outcome) = integrated_spec(mid, sender, u, true);
            &&& first == ReceiveOutcome::Integrate
            &&& mid == s
            &&& outcome == ReceiveOutcome::Applied
            &&& after.updates == s.updates.insert(u)
            &&& has_peer(after.peers, sender)
            &&& after.peers[peer_index(after.peers, sender)] == s.peers[peer_index(s.peers, sender)]
            &&& !has_peer(after.peers, slow)
        }),
{
    let is = peer_index(s.peers, sender);
    let il = peer_index(s.peers, slow);
    assert(0 <= is < s.peers.len() && s.peers[is].id == sender);
    assert(0 <= il < s.peers.len() && s.peers[il].id == slow);
    let frame = frame_bytes(FrameKind::Update, u);
    lemma_publish_find(s.peers, frame, sender, is);
    lemma_publish_find(s.peers, frame, sender, il);
}

/// Persist-on-empty: on a freshly opened document, a peer that attaches,
/// completes the handshake, has one update taken and detaches leaves the
/// session with a save due, having taken exactly that update; once that
/// save has begun no second one is due.
pub proof fn lemma_persist_on_empty(
    document_id: Seq<char>,
    doc: Doc,
    p: u64,
    step1: Seq<u8>,
    sv: Seq<u8>,
    diff: Seq<u8>,
    update: Seq<u8>,
    u: Seq<u8>,
)
    requires
        parse_frame(step1) == Some((FrameKind::SyncStep1, sv)),
        parse_frame(update) == Some((FrameKind::Update, u)),
    ensures
        ({
            let s1 = attach_spec(open_spec(document_id, doc), p);
            let (s2, o2) = receive_spec(s1, p, step1);
            let (s3, o3) = reply_spec(s2, p, Some(diff));
            let (s4, o4) = receive_spec(s3, p, update);
            let (s5, o5) = integrated_spec(s4, p, u, true);
            let s6 = detach_spec(s5, p);
            let s7 = begin_persist_spec(s6, true);
            &&& o2 == ReceiveOutcome::CatchUp
            &&& o3 == ReceiveOutcome::Replied
            &&& o4 == ReceiveOutcome::Integrate
            &&& o5 == ReceiveOutcome::Applied
            &&& !persist_due(s5)
            &&& persist_due(s6)
            &&& s6.updates == Set::<Seq<u8>>::empty().insert(u)
            &&& s7.saving
            &&& !persist_due(s7)
        }),
{
    let s0 = open_spec(document_id, doc);
    let s1 = attach_spec(s0, p);
    assert(s1.peers =~= seq![fresh_peer(p)]);
    lemma_peer_index(s1.peers, p, 0);
    let (s2, o2) = receive_spec(s1, p, step1);
    lemma_peer_index(s2.peers, p, 0);
    let (s3, o3) = reply_spec(s2, p, Some(diff));
    assert(s3.peers.len() == 1 && s3.peers[0].id == p);
    assert(peers_wf(s3.peers));
    lemma_peer_index(s3.peers, p, 0);
    let (s4, o4) = receive_spec(s3, p, update);
    let frame = frame_bytes(FrameKind::Update, u);
    lemma_publish_find(s4.peers, frame, p, 0);
    let (s5, o5) = integrated_spec(s4, p, u, true);
    lemma_publish_wf(s4.peers, frame, p);
    let k = peer_index(s5.peers, p);
    assert(0 <= k < s5.peers.len() && s5.peers[k].id == p);
    assert(s5.peers.len() == 1) by {
        lemma_publish_len(s4.peers, frame, p);
    }
    assert(k == 0);
    let s6 = detach_spec(s5, p);
    assert(s6.peers.len() == 0);
    assert(s5.updates =~= Set::<Seq<u8>>::empty().insert(u));
}

/// Reattach recovers state: a session opened on a document owes no save,
/// replays no update to a peer that attaches, and answers that peer's
/// handshake with exactly the catch-up update that the document gave.
pub proof fn lemma_reattach_recovers(
    document_id: Seq<char>,
    doc: Doc,
    p: u64,
    step1: Seq<u8>,
    sv: Seq<u8>,
    diff: Seq<u8>,
)
    requires
        parse_frame(step1) == Some((FrameKind::SyncStep1, sv)),
    ensures
        ({
            let s = open_spec(document_id, doc);
            let s1 = attach_spec(s, p);
            let (s2, o2) = receive_spec(s1, p, step1);
            let (s3, o3) = reply_spec(s2, p, Some(diff));
            &&& !s.dirty
            &&& s1.peers.len() == 1
            &&& s1.peers[0].outbound.len() == 0
            &&& o2 == ReceiveOutcome::CatchUp
            &&& o3 == ReceiveOutcome::Replied
            &&& s3.doc == doc
            &&& s3.peers[0].outbound == seq![frame_bytes(FrameKind::SyncStep2, diff)]
        }),
{
    let s = open_spec(document_id, doc);
    assert(!has_peer(s.peers, p));
    let s1 = attach_spec(s, p);
    assert(s1.peers =~= seq![fresh_peer(p)]);
    lemma_peer_index(s1.peers, p, 0);
    let (s2, o2) = receive_spec(s1, p, step1);
    lemma_peer_index(s2.peers, p, 0);
    let (s3, o3) = reply_spec(s2, p, Some(diff));
    assert(s3.peers[0].outbound =~= seq![frame_bytes(FrameKind::SyncStep2, diff)]);
}

/// What a session records of a taken update is an insertion into its set
/// of integrated updates, so `record_all` (and with it the convergence law
/// of `crate::doc`) describes any sequence of taken updates.
pub proof fn lemma_integrated_records(s: SessionModel, origin: u64, u: Seq<u8>)
    requires
        has_peer(s.peers, origin),
        s.peers[peer_index(s.peers, origin)].state != LinkState::Closed,
    ensures
        integrated_spec(s, origin, u, true).0.updates == record_all(s.updates, seq![u]),
{
    let one = seq![u];
    assert(one.drop_last() =~= Seq::<Seq<u8>>::empty());
    assert(one.last() == u);
    assert(record_all(s.updates, one.drop_last()) == s.updates);
    assert(record_all(s.updates, one) == s.updates.insert(u));
}

} // verus!
