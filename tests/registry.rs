use draft_collab::registry::{DraftCollaborationManager, Lookup};
use draft_collab::session::Session;
use yrs::Doc;

#[test]
fn first_request_loads_others_wait() {
    let mut m: DraftCollaborationManager<u32> = DraftCollaborationManager::new();
    let id = "doc1".to_string();
    let mut loads = 0;
    for _ in 0..8 {
        match m.get_room(&id) {
            Lookup::MustLoad => loads += 1,
            Lookup::Pending => {}
            _ => panic!("unexpected lookup"),
        }
    }
    assert_eq!(loads, 1);
    assert!(m.complete_load(&id, 77));
    assert!(!m.complete_load(&id, 78));
    for _ in 0..3 {
        assert!(matches!(m.get_room(&id), Lookup::Found(77)));
    }
    assert_eq!(m.rooms.len(), 1);
}

#[test]
fn failed_load_leaves_nothing_behind() {
    let mut m: DraftCollaborationManager<u32> = DraftCollaborationManager::new();
    let id = "gone".to_string();
    assert!(matches!(m.get_room(&id), Lookup::MustLoad));
    assert!(m.abandon_load(&id));
    assert!(m.rooms.is_empty());
    assert!(matches!(m.get_room(&id), Lookup::MustLoad));
}

#[test]
fn evict_only_when_released_and_saved() {
    let mut m: DraftCollaborationManager<u32> = DraftCollaborationManager::new();
    let id = "d".to_string();
    let idle = Session::new(id.clone(), Doc::new());
    m.get_room(&id);
    m.complete_load(&id, 1);
    assert!(matches!(m.get_room(&id), Lookup::Found(1)));
    assert!(!m.evict(&id, &idle));
    assert_eq!(m.release(&id), Some(1));
    assert!(!m.evict(&id, &idle));
    assert_eq!(m.release(&id), Some(0));
    assert_eq!(m.release(&id), None);
    let mut busy = Session::new(id.clone(), Doc::new());
    busy.attach(9);
    assert!(!m.evict(&id, &busy));
    let mut unsaved = Session::new(id.clone(), Doc::new());
    unsaved.dirty = true;
    assert!(!m.evict(&id, &unsaved));
    let other = Session::new("e".to_string(), Doc::new());
    assert!(!m.evict(&id, &other));
    assert!(m.evict(&id, &idle));
    assert!(!m.evict(&id, &idle));
    assert!(m.rooms.is_empty());
}

#[test]
fn documents_are_independent() {
    let mut m: DraftCollaborationManager<u32> = DraftCollaborationManager::new();
    let a = "a".to_string();
    let b = "b".to_string();
    assert!(matches!(m.get_room(&a), Lookup::MustLoad));
    assert!(matches!(m.get_room(&b), Lookup::MustLoad));
    m.complete_load(&b, 2);
    assert!(matches!(m.get_room(&a), Lookup::Pending));
    assert!(matches!(m.get_room(&b), Lookup::Found(2)));
}
