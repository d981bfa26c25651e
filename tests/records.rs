use draft_collab::api_model::{Project as ApiProject, User as ApiUser};
use draft_collab::convert::{project_api_to_db, user_api_to_db};
use draft_collab::db_model::{
    get_str_id, unwrap_thing, unwrap_things, Agenda, Draft, DraftDecodeError, DraftPayload,
    Notification, RecordId, Requirement, TaskList,
};

#[test]
fn draft_content_base64_round_trip() {
    let d = Draft::new("n".to_string(), &vec![104, 105]);
    assert_eq!(d.content, "aGk=");
    assert_eq!(d.get_content(), Some(vec![104, 105]));
    let stored = Draft::from(DraftPayload { id: Some("x1".to_string()), name: "n".to_string(), content: vec![0, 255, 7] });
    assert_eq!(stored.id, Some(RecordId { table: "draft".to_string(), key: "x1".to_string() }));
    let back = DraftPayload::from(stored).unwrap();
    assert_eq!(back.id, Some("x1".to_string()));
    assert_eq!(back.content, vec![0, 255, 7]);
    let bad = Draft { id: None, name: String::new(), content: "not base64!".to_string() };
    assert_eq!(bad.get_content(), None);
    assert_eq!(DraftPayload::from(bad).err(), Some(DraftDecodeError::NotBase64));
}

#[test]
fn ids_and_constructors() {
    let t = RecordId { table: "user".to_string(), key: "u1".to_string() };
    assert_eq!(unwrap_thing(t.clone()), "u1");
    assert_eq!(get_str_id(&Some(t.clone())), "u1");
    assert_eq!(
        unwrap_things(vec![t, RecordId { table: "user".to_string(), key: "u2".to_string() }]),
        vec!["u1".to_string(), "u2".to_string()]
    );
    assert!(Agenda::new("a".to_string()).events.is_none());
    assert!(!Notification::new("t".to_string(), "c".to_string()).handled);
    assert_eq!(Requirement::new("n".to_string(), "d".to_string()).description, "d");
    let l = TaskList::new_with_id("l".to_string(), "k", "task_list");
    assert_eq!(l.id, Some(RecordId { table: "task_list".to_string(), key: "k".to_string() }));
    assert!(TaskList::new("l".to_string()).id.is_none());
}

#[test]
fn client_records_to_store() {
    let u = ApiUser {
        id: "user1".to_string(),
        username: "dc392".to_string(),
        email: Some("dc392@email.com".to_string()),
        avatar: None,
        status_pool: None,
    };
    let stored = user_api_to_db(u, "secret");
    assert_eq!(stored.id, Some(RecordId { table: "user".to_string(), key: "user1".to_string() }));
    assert_eq!(stored.password, "secret");
    assert_eq!(stored.avatar, "");
    assert_eq!(stored.email, "dc392@email.com");
    let p = ApiProject {
        id: String::new(),
        name: "p".to_string(),
        description: "d".to_string(),
        avatar: None,
        status_pool: None,
        github: Some(3),
    };
    let sp = project_api_to_db(p.clone());
    assert!(sp.id.is_none());
    assert_eq!(sp.github, 0);
    let sp2 = project_api_to_db(ApiProject { id: "proj9".to_string(), ..p });
    assert_eq!(sp2.id.unwrap().key, "proj9");
}
