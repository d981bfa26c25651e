use draft_collab::frame::{decode_frame, encode_frame, FrameKind};
use draft_collab::link::LinkState;
use draft_collab::session::{CloseReason, ReceiveOutcome, Session, QUEUE_CAPACITY};
use yrs::updates::decoder::Decode;
use yrs::{Doc, GetString, ReadTxn, StateVector, Text, Transact, Update};

fn text_update(client: u64, s: &str) -> Vec<u8> {
    let doc = Doc::with_client_id(client);
    let text = doc.get_or_insert_text("body");
    {
        let mut txn = doc.transact_mut();
        text.insert(&mut txn, 0, s);
    }
    let txn = doc.transact();
    txn.encode_state_as_update_v1(&StateVector::default())
}

fn text_of(update: &[u8]) -> String {
    let doc = Doc::new();
    let text = doc.get_or_insert_text("body");
    {
        let mut txn = doc.transact_mut();
        txn.apply_update(Update::decode_v1(update).unwrap());
    }
    let txn = doc.transact();
    text.get_string(&txn)
}

fn open(id: &str, persisted: Option<Vec<u8>>) -> Session {
    let doc = Doc::new();
    if let Some(b) = persisted {
        let mut txn = doc.transact_mut();
        txn.apply_update(Update::decode_v1(&b).unwrap());
    }
    Session::new(id.to_string(), doc)
}

/// Hands a received frame to the session, integrating an update the way a
/// server does.
fn feed(s: &mut Session, id: u64, bytes: &[u8]) -> ReceiveOutcome {
    let (outcome, handed) = s.receive(id, bytes);
    match handed {
        None => outcome,
        Some(sv) if outcome == ReceiveOutcome::CatchUp => {
            let diff = s.catch_up(&sv);
            s.reply(id, diff)
        }
        Some(u) => {
            assert_eq!(outcome, ReceiveOutcome::Integrate);
            let taken = match Update::decode_v1(&u) {
                Ok(upd) => {
                    s.doc.transact_mut().apply_update(upd);
                    true
                }
                Err(_) => false,
            };
            s.integrated(id, &u, taken)
        }
    }
}

fn persist(s: &mut Session) -> Option<Vec<u8>> {
    let snapshot = s.catch_up(&empty_sv());
    s.begin_persist(snapshot)
}

fn empty_sv() -> Vec<u8> {
    vec![0]
}

fn synced(session: &mut Session, id: u64) {
    assert!(session.attach(id));
    let out = feed(session, id, &encode_frame(FrameKind::SyncStep1, &empty_sv()));
    assert_eq!(out, ReceiveOutcome::Replied);
    session.take_outbound(id);
}

#[test]
fn implausible_state_vector_is_refused() {
    let mut s = open("d", None);
    s.attach(1);
    // a count of 2^32 - 1 entries with nothing after it
    let huge = vec![0xff, 0xff, 0xff, 0xff, 0x0f];
    assert!(s.catch_up(&huge).is_none());
    assert_eq!(
        feed(&mut s, 1, &encode_frame(FrameKind::SyncStep1, &huge)),
        ReceiveOutcome::Closed(CloseReason::BadStateVector)
    );
    assert!(s.catch_up(&empty_sv()).is_some());
}

#[test]
fn reply_queues_exactly_the_given_update() {
    let mut s = open("d", None);
    s.attach(1);
    let (outcome, sv) = s.receive(1, &encode_frame(FrameKind::SyncStep1, &empty_sv()));
    assert_eq!(outcome, ReceiveOutcome::CatchUp);
    assert_eq!(sv, Some(empty_sv()));
    assert_eq!(s.peers[0].state, LinkState::AwaitingSyncStep1);
    assert_eq!(s.reply(1, Some(vec![4, 5])), ReceiveOutcome::Replied);
    assert_eq!(s.peers[0].state, LinkState::Synced);
    assert_eq!(s.take_outbound(1), vec![vec![0, 1, 2, 4, 5]]);
    assert_eq!(s.reply(2, Some(vec![])), ReceiveOutcome::NotAttached);
}

#[test]
fn open_fresh_session() {
    let s = open("doc1", None);
    assert!(s.peers.is_empty());
    assert!(!s.dirty);
    assert!(!s.saving);
    assert_eq!(s.document_id, "doc1");
}

#[test]
fn update_frame_asks_caller_to_integrate() {
    let mut s = open("d", None);
    synced(&mut s, 1);
    synced(&mut s, 2);
    let u = text_update(4, "x");
    let (outcome, update) = s.receive(1, &encode_frame(FrameKind::Update, &u));
    assert_eq!(outcome, ReceiveOutcome::Integrate);
    assert_eq!(update, Some(u.clone()));
    assert!(!s.dirty);
    assert!(s.take_outbound(2).is_empty());
    // the document refused it: only the sender is closed
    assert_eq!(s.integrated(1, &u, false), ReceiveOutcome::Closed(CloseReason::BadUpdate));
    assert_eq!(s.peers[0].state, LinkState::Closed);
    assert_eq!(s.peers[1].state, LinkState::Synced);
    assert!(!s.dirty);
    assert_eq!(s.integrated(1, &u, false), ReceiveOutcome::NotAttached);
}

#[test]
fn attach_twice_and_detach_idempotent() {
    let mut s = open("d", None);
    assert!(s.attach(1));
    assert!(!s.attach(1));
    assert_eq!(s.peers.len(), 1);
    assert_eq!(s.peers[0].state, LinkState::AwaitingSyncStep1);
    assert!(s.detach(1));
    assert!(!s.detach(1));
    assert!(s.peers.is_empty());
}

#[test]
fn handshake_replies_with_sync_step2() {
    let mut s = open("d", Some(text_update(7, "hello")));
    s.attach(1);
    let out = feed(&mut s, 1, &encode_frame(FrameKind::SyncStep1, &empty_sv()));
    assert_eq!(out, ReceiveOutcome::Replied);
    assert_eq!(s.peers[0].state, LinkState::Synced);
    let queued = s.take_outbound(1);
    assert_eq!(queued.len(), 1);
    let f = decode_frame(&queued[0]).unwrap();
    assert_eq!(f.kind, FrameKind::SyncStep2);
    assert_eq!(text_of(&f.payload), "hello");
    assert!(s.take_outbound(1).is_empty());
}

#[test]
fn update_before_handshake_closes_link() {
    let mut s = open("d", None);
    s.attach(1);
    let out = feed(&mut s, 1, &encode_frame(FrameKind::Update, &text_update(3, "x")));
    assert_eq!(out, ReceiveOutcome::Closed(CloseReason::OutOfOrder));
    assert_eq!(s.peers[0].state, LinkState::Closed);
    assert!(!s.dirty);
    // a closed link is ignored until it is detached
    let again = feed(&mut s, 1, &encode_frame(FrameKind::SyncStep1, &empty_sv()));
    assert_eq!(again, ReceiveOutcome::NotAttached);
}

#[test]
fn malformed_and_bad_payloads_close_only_sender() {
    let mut s = open("d", None);
    synced(&mut s, 1);
    synced(&mut s, 2);
    assert_eq!(feed(&mut s, 1, &[9, 9]), ReceiveOutcome::Closed(CloseReason::Malformed));
    assert_eq!(
        feed(&mut s, 2, &encode_frame(FrameKind::Update, &[0xff, 0xff, 0xff])),
        ReceiveOutcome::Closed(CloseReason::BadUpdate)
    );
    s.attach(3);
    assert_eq!(
        feed(&mut s, 3, &encode_frame(FrameKind::SyncStep1, &[0x80])),
        ReceiveOutcome::Closed(CloseReason::BadStateVector)
    );
    assert_eq!(feed(&mut s, 4, &encode_frame(FrameKind::SyncStep1, &empty_sv())), ReceiveOutcome::NotAttached);
}

#[test]
fn update_fans_out_to_others_not_sender() {
    let mut s = open("d", None);
    synced(&mut s, 1);
    synced(&mut s, 2);
    s.attach(3);
    let u = text_update(11, "abc");
    let frame = encode_frame(FrameKind::Update, &u);
    assert_eq!(feed(&mut s, 1, &frame), ReceiveOutcome::Applied);
    assert!(s.dirty);
    assert!(s.take_outbound(1).is_empty());
    assert_eq!(s.take_outbound(2), vec![frame.clone()]);
    assert_eq!(s.take_outbound(3), vec![frame]);
}

#[test]
fn awareness_is_shared_and_recorded() {
    let mut s = open("d", None);
    synced(&mut s, 1);
    synced(&mut s, 2);
    let frame = encode_frame(FrameKind::Awareness, &[1, 2, 3]);
    assert_eq!(feed(&mut s, 2, &frame), ReceiveOutcome::Shared);
    assert_eq!(s.peers[1].presence, Some(vec![1, 2, 3]));
    assert!(!s.dirty);
    assert_eq!(s.take_outbound(1), vec![frame]);
    s.detach(2);
    assert!(s.peers.iter().all(|p| p.presence.is_none()));
}

#[test]
fn slow_peer_is_closed_not_waited_for() {
    let mut s = open("d", None);
    synced(&mut s, 1);
    synced(&mut s, 2);
    for i in 0..QUEUE_CAPACITY {
        let frame = encode_frame(FrameKind::Update, &text_update(100 + i as u64, "a"));
        assert_eq!(feed(&mut s, 1, &frame), ReceiveOutcome::Applied);
    }
    assert_eq!(s.peers[1].outbound.len(), QUEUE_CAPACITY);
    let last = encode_frame(FrameKind::Update, &text_update(500, "b"));
    assert_eq!(feed(&mut s, 1, &last), ReceiveOutcome::Applied);
    assert_eq!(s.peers.len(), 1);
    assert_eq!(s.peers[0].connection_id, 1);
    assert_eq!(s.peers[0].state, LinkState::Synced);
    assert!(!s.detach(2));
    assert!(s.take_outbound(2).is_empty());
}

#[test]
fn persist_once_when_last_peer_leaves() {
    let mut s = open("d", None);
    synced(&mut s, 1);
    let u = text_update(21, "saved text");
    assert_eq!(feed(&mut s, 1, &encode_frame(FrameKind::Update, &u)), ReceiveOutcome::Applied);
    assert!(persist(&mut s).is_none());
    s.detach(1);
    let snapshot = persist(&mut s).unwrap();
    assert_eq!(text_of(&snapshot), "saved text");
    assert!(persist(&mut s).is_none());
    assert!(!s.is_evictable());
    s.finish_persist(true);
    assert!(s.is_evictable());
}

#[test]
fn failed_save_keeps_state_and_retries() {
    let mut s = open("d", None);
    synced(&mut s, 1);
    feed(&mut s, 1, &encode_frame(FrameKind::Update, &text_update(5, "kept")));
    s.detach(1);
    assert!(persist(&mut s).is_some());
    s.finish_persist(false);
    assert!(s.dirty);
    assert!(!s.is_evictable());
    let again = persist(&mut s).unwrap();
    assert_eq!(text_of(&again), "kept");
}

#[test]
fn reattach_recovers_saved_state() {
    let mut s = open("d", None);
    synced(&mut s, 1);
    feed(&mut s, 1, &encode_frame(FrameKind::Update, &text_update(9, "persisted")));
    s.detach(1);
    let snapshot = persist(&mut s).unwrap();
    let mut again = open("d", Some(snapshot));
    assert!(!again.dirty);
    again.attach(2);
    assert!(again.take_outbound(2).is_empty());
    feed(&mut again, 2, &encode_frame(FrameKind::SyncStep1, &empty_sv()));
    let reply = again.take_outbound(2);
    let f = decode_frame(&reply[0]).unwrap();
    assert_eq!(text_of(&f.payload), "persisted");
}

#[test]
fn convergence_in_any_order_with_duplicates() {
    let a = text_update(1, "left");
    let b = text_update(2, "right");
    let mut s1 = open("d", None);
    let mut s2 = open("d", None);
    synced(&mut s1, 1);
    synced(&mut s2, 1);
    for u in [&a, &b, &a] {
        feed(&mut s1, 1, &encode_frame(FrameKind::Update, u));
    }
    for u in [&b, &a, &b] {
        feed(&mut s2, 1, &encode_frame(FrameKind::Update, u));
    }
    s1.detach(1);
    s2.detach(1);
    let t1 = text_of(&persist(&mut s1).unwrap());
    let t2 = text_of(&persist(&mut s2).unwrap());
    assert_eq!(t1, t2);
    assert_eq!(t1.len(), 9);
}
