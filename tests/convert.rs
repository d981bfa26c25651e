use draft_collab::api_model::{
    Asset, Credential, IndexedStatusContent, StatusContent, StatusPool as ApiStatusPool,
    TaskRelationType, Timestamp,
};
use draft_collab::convert::{
    agenda_db_to_api, credential_api_to_user_db, draft_db_to_api, event_db_to_api, notif_db_to_api,
    project_db_to_api, requ_db_to_api, status_pool_api_to_db, status_pool_db_to_api,
    task_list_db_to_api, task_relation_category_to_kind, user_db_to_api,
};
use draft_collab::db_model::{
    Agenda, AssetPath, DraftPayload, Event, Notification, NotificationSource, Project, RecordId,
    Requirement, Status, StatusPool, TaskList, User,
};

fn rid(table: &str, key: &str) -> Option<RecordId> {
    Some(RecordId { table: table.to_string(), key: key.to_string() })
}

#[test]
fn user_hides_empty_fields() {
    let user = User {
        id: rid("user", "user1"),
        username: "dc392".to_string(),
        avatar: String::new(),
        email: "dc392@email.com".to_string(),
        password: "pw".to_string(),
        status_pool: StatusPool::default(),
    };
    let api = user_db_to_api(user.clone()).unwrap();
    assert_eq!(api.id, "user1");
    assert_eq!(api.username, "dc392");
    assert_eq!(api.email, Some("dc392@email.com".to_string()));
    assert_eq!(api.avatar, None);
    assert!(user_db_to_api(User { id: None, ..user }).is_none());
}

#[test]
fn status_pool_both_ways() {
    let pool = StatusPool::new();
    let api = status_pool_db_to_api(pool).unwrap();
    assert_eq!(api.incomplete.len(), 1);
    assert_eq!(api.incomplete[0].id, "");
    assert_eq!(api.incomplete[0].status.name, "complete");
    assert_eq!(api.complete.description, "description");
    let client = ApiStatusPool {
        incomplete: vec![IndexedStatusContent {
            id: "1".to_string(),
            status: StatusContent { name: "plan".to_string(), description: "planned".to_string() },
        }],
        complete: StatusContent { name: "com".to_string(), description: "alr".to_string() },
    };
    let stored = status_pool_api_to_db(client);
    assert_eq!(
        stored.incomplete,
        vec![Status { name: "plan".to_string(), description: "planned".to_string(), number: "1".to_string() }]
    );
    assert_eq!(stored.complete.number, "0");
    assert_eq!(stored.complete.name, "com");
}

#[test]
fn signup_user_is_blank() {
    let u = credential_api_to_user_db(Credential { username: "a".to_string(), password: "b".to_string() }).unwrap();
    assert!(u.id.is_none());
    assert_eq!(u.username, "a");
    assert_eq!(u.password, "b");
    assert!(u.email.is_empty() && u.avatar.is_empty());
    assert!(u.status_pool.incomplete.is_empty());
}

#[test]
fn project_and_draft_need_ids() {
    let p = Project {
        id: rid("project", "proj1"),
        name: "n".to_string(),
        avatar: Some("av".to_string()),
        status_pool: StatusPool::new(),
        github: 42,
    };
    let api = project_db_to_api(p.clone()).unwrap();
    assert_eq!(api.id, "proj1");
    assert_eq!(api.description, "");
    assert_eq!(api.github, Some(42));
    assert_eq!(api.avatar, Some("av".to_string()));
    assert!(project_db_to_api(Project { id: None, ..p }).is_none());
    let d = DraftPayload::new("notes".to_string(), vec![1, 2]);
    assert!(d.id.is_none());
    assert!(draft_db_to_api(d.clone()).is_none());
    let api_d = draft_db_to_api(DraftPayload { id: Some("x".to_string()), ..d }).unwrap();
    assert_eq!(api_d.id, "x");
    assert_eq!(api_d.name, "notes");
}

#[test]
fn notification_assets() {
    let n = Notification { id: rid("notif", "n1"), title: "t".to_string(), content: "c".to_string(), handled: true };
    let task = notif_db_to_api(
        n.clone(),
        NotificationSource::Task(AssetPath("t1".to_string(), ("l1".to_string(), "proj1".to_string()))),
    );
    assert_eq!(task.id, "n1");
    assert!(task.handled);
    match task.asset {
        Asset::Task { path } => {
            assert_eq!(path.task_id, "t1");
            assert_eq!(path.task_list_id, "l1");
            assert_eq!(path.project_id, "proj1");
        }
        _ => panic!("wrong asset"),
    }
    let draft = notif_db_to_api(n, NotificationSource::Draft(AssetPath("d1".to_string(), (String::new(), String::new()))));
    assert!(matches!(draft.asset, Asset::Draft { path } if path.id == "d1"));
}

#[test]
fn requirement_event_agenda_task_list() {
    let r = requ_db_to_api(Requirement { id: rid("requ", "r1"), name: "n".to_string(), description: "body".to_string() });
    assert_eq!(r.id, "r1");
    assert_eq!(r.content, "body");
    let t = Timestamp { unix_millis: 1_700_000_000_000 };
    let e = event_db_to_api(
        Event { id: rid("event", "e1"), name: "n".to_string(), description: "d".to_string(), start_time: t, end_time: t },
        vec![],
    );
    assert_eq!(e.id, "e1");
    assert_eq!(e.start_time, t);
    let a = agenda_db_to_api(
        Agenda { id: rid("agenda", "a1"), name: "ag".to_string(), events: None },
        Some(vec!["e1".to_string(), "e2".to_string()]),
    );
    assert_eq!(a.events.len(), 2);
    assert_eq!(a.events[1].id, "e2");
    let none = agenda_db_to_api(Agenda { id: rid("agenda", "a2"), name: "x".to_string(), events: None }, None);
    assert!(none.events.is_empty());
    let l = task_list_db_to_api(TaskList {
        id: rid("task_list", "l1"),
        name: "list".to_string(),
        tasks: Some(vec!["t9".to_string()]),
        owner: None,
    })
    .unwrap();
    assert_eq!(l.tasks[0].id, "t9");
    assert!(task_list_db_to_api(TaskList { id: None, name: String::new(), tasks: None, owner: None }).is_none());
}

#[test]
fn relation_kind_words() {
    assert_eq!(task_relation_category_to_kind(&TaskRelationType::Auto), "auto");
    assert_eq!(task_relation_category_to_kind(&TaskRelationType::Dep), "dep");
}
