use draft_collab::frame::{decode_frame, encode_frame, FrameKind};
use draft_collab::link::{on_attach, on_frame, LinkAction, LinkState};

#[test]
fn encode_update_frame_bytes() {
    assert_eq!(encode_frame(FrameKind::Update, &[7, 8, 9]), vec![0, 2, 3, 7, 8, 9]);
}

#[test]
fn encode_each_kind_tag() {
    assert_eq!(encode_frame(FrameKind::SyncStep1, &[]), vec![0, 0, 0]);
    assert_eq!(encode_frame(FrameKind::SyncStep2, &[1]), vec![0, 1, 1, 1]);
    assert_eq!(encode_frame(FrameKind::Awareness, &[5, 6]), vec![1, 2, 5, 6]);
}

#[test]
fn encode_long_payload_uses_two_length_bytes() {
    let payload = vec![42u8; 300];
    let bytes = encode_frame(FrameKind::Update, &payload);
    // 300 = 0b10_0101100: low seven bits 44 with the continuation bit, then 2.
    assert_eq!(&bytes[..4], &[0, 2, 172, 2]);
    assert_eq!(bytes.len(), 304);
}

#[test]
fn frame_round_trip() {
    for kind in [FrameKind::SyncStep1, FrameKind::SyncStep2, FrameKind::Update, FrameKind::Awareness] {
        for len in [0usize, 1, 127, 128, 16384] {
            let payload: Vec<u8> = (0..len).map(|i| (i % 251) as u8).collect();
            let f = decode_frame(&encode_frame(kind, &payload)).unwrap();
            assert_eq!(f.kind, kind);
            assert_eq!(f.payload, payload);
        }
    }
}

#[test]
fn decode_rejects_malformed() {
    assert!(decode_frame(&[]).is_none());
    assert!(decode_frame(&[0]).is_none());
    assert!(decode_frame(&[0, 3, 0]).is_none());
    assert!(decode_frame(&[2, 0]).is_none());
    // length says two bytes, one follows
    assert!(decode_frame(&[0, 2, 2, 9]).is_none());
    // trailing byte after the payload
    assert!(decode_frame(&[0, 2, 1, 9, 9]).is_none());
    // length that never ends
    assert!(decode_frame(&[1, 0x80, 0x80]).is_none());
}

#[test]
fn link_handshake_transitions() {
    let s = on_attach(LinkState::Connecting);
    assert_eq!(s, LinkState::AwaitingSyncStep1);
    assert_eq!(on_frame(s, FrameKind::SyncStep1), (LinkState::Synced, LinkAction::SendSyncStep2));
    assert_eq!(on_frame(s, FrameKind::Update), (LinkState::Closed, LinkAction::Reject));
    assert_eq!(on_frame(s, FrameKind::SyncStep2), (LinkState::Closed, LinkAction::Reject));
    assert_eq!(
        on_frame(s, FrameKind::Awareness),
        (LinkState::AwaitingSyncStep1, LinkAction::ShareAwareness)
    );
    assert_eq!(on_frame(LinkState::Synced, FrameKind::Update), (LinkState::Synced, LinkAction::ApplyUpdate));
    assert_eq!(on_frame(LinkState::Synced, FrameKind::SyncStep2), (LinkState::Synced, LinkAction::ApplyUpdate));
    assert_eq!(on_frame(LinkState::Closed, FrameKind::Update), (LinkState::Closed, LinkAction::Ignore));
    assert_eq!(on_frame(LinkState::Connecting, FrameKind::SyncStep1), (LinkState::Closed, LinkAction::Reject));
    assert_eq!(on_attach(LinkState::Synced), LinkState::Synced);
}
