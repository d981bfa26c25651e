use draft_collab::api_model::{PullRequest, Status, TaskRelationType, Timestamp};
use draft_collab::db_model::{Event, RecordId, Task, TaskLink};
use draft_collab::notification::{
    assigned_event_to_notif, assigned_task_to_notif, deassign_event_to_notif, deassign_task_to_notif,
};
use draft_collab::requests::TaskSwitchable;
use draft_collab::task::{
    check_task_switch_complete, refresh_task_status, task_db_to_api, task_db_to_api_assigned,
    task_link_db_to_api, PreTask, TaskLinkError,
};

fn pre(dep: bool, complete: bool) -> PreTask {
    PreTask { dep, complete }
}

fn rid(key: &str) -> Option<RecordId> {
    Some(RecordId { table: "task".to_string(), key: key.to_string() })
}

#[test]
fn switchable_cases() {
    assert_eq!(check_task_switch_complete(&vec![]), TaskSwitchable::TrueAndFalse);
    assert_eq!(check_task_switch_complete(&vec![pre(true, false), pre(false, true)]), TaskSwitchable::False);
    assert_eq!(check_task_switch_complete(&vec![pre(true, true)]), TaskSwitchable::TrueAndFalse);
    assert_eq!(check_task_switch_complete(&vec![pre(false, true), pre(false, true)]), TaskSwitchable::True);
    assert_eq!(check_task_switch_complete(&vec![pre(false, true), pre(false, false)]), TaskSwitchable::TrueAndFalse);
}

#[test]
fn refresh_cases() {
    assert!(!refresh_task_status(&vec![pre(true, false)], true));
    assert!(refresh_task_status(&vec![pre(true, true)], true));
    assert!(!refresh_task_status(&vec![pre(true, true)], false));
    assert!(refresh_task_status(&vec![pre(false, true)], false));
    assert!(!refresh_task_status(&vec![pre(false, true), pre(false, false)], true));
    assert!(refresh_task_status(&vec![], true));
}

#[test]
fn task_shows_status_deadline_and_pr() {
    let mut t = Task::new("write".to_string());
    assert_eq!(t.status, "0");
    assert!(!t.complete);
    t.id = rid("t1");
    t.assignees = Some(vec!["u1".to_string(), "u2".to_string()]);
    let api = task_db_to_api(t.clone());
    assert_eq!(api.id, "t1");
    assert_eq!(api.status, Status::Incomplete { id: "0".to_string() });
    assert_eq!(api.deadline, Timestamp { unix_millis: 0 });
    assert_eq!(api.assignees.len(), 2);
    assert_eq!(api.assignees[1].id, "u2");
    assert!(api.pr.is_none());
    let pr = PullRequest { owner: "o".to_string(), repo: "r".to_string(), pull_number: 5, title: "fix".to_string() };
    let done = Task {
        complete: true,
        ddl: Some(Timestamp { unix_millis: 99 }),
        pr: pr.clone(),
        pr_assigned: true,
        ..t.clone()
    };
    let api = task_db_to_api(done.clone());
    assert_eq!(api.status, Status::Complete);
    assert_eq!(api.deadline, Timestamp { unix_millis: 99 });
    assert_eq!(api.pr, Some(pr));
    let assigned = task_db_to_api_assigned((done, "l1".to_string(), "proj1".to_string()));
    assert_eq!(assigned.task_list, "l1");
    assert_eq!(assigned.project, "proj1");
    assert_eq!(assigned.status, Status::Complete);
}

#[test]
fn task_links_checked() {
    let link = TaskLink { id: rid("k"), incoming: rid("a"), outgoing: rid("b"), kind: "auto".to_string() };
    let rel = task_link_db_to_api(link.clone()).unwrap();
    assert_eq!(rel.id, "k");
    assert_eq!(rel.from.id, "a");
    assert_eq!(rel.to.id, "b");
    assert_eq!(rel.category, TaskRelationType::Auto);
    let dep = task_link_db_to_api(TaskLink { kind: "dep".to_string(), ..link.clone() }).unwrap();
    assert_eq!(dep.category, TaskRelationType::Dep);
    assert_eq!(
        task_link_db_to_api(TaskLink { kind: "orig".to_string(), ..link.clone() }),
        Err(TaskLinkError::UnknownKind)
    );
    assert_eq!(task_link_db_to_api(TaskLink { outgoing: None, ..link }), Err(TaskLinkError::MissingId));
}

#[test]
fn assignment_notifications() {
    let mut t = Task::new("write".to_string());
    t.description = "the report".to_string();
    let n = assigned_task_to_notif(t.clone());
    assert_eq!(n.title, "Task: write has been assigned to you");
    assert_eq!(n.content, "Task description: the report");
    assert!(!n.handled && n.id.is_none());
    assert_eq!(deassign_task_to_notif(t).title, "Task: write has been deassigned from you");
    let e = Event {
        id: None,
        name: "standup".to_string(),
        description: "daily".to_string(),
        start_time: Timestamp { unix_millis: 0 },
        end_time: Timestamp { unix_millis: 0 },
    };
    assert_eq!(assigned_event_to_notif(e.clone()).title, "Event: standup has been assigned to you");
    let d = deassign_event_to_notif(e);
    assert_eq!(d.title, "Event: standup has been deassigned from you");
    assert_eq!(d.content, "Event description: daily");
}
