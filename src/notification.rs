//! The notifications sent when a task or event is assigned or taken away.
use crate::db_model::{Event, Notification, Task};
use vstd::prelude::*;
use vstd::string::StringExecFns;

verus! {

/// `prefix`, then `text`.
fn prefixed(prefix: &str, text: &str) -> (r: String)
    ensures
        r@ == prefix@ + text@,
{
    let mut r = prefix.to_owned();
    r.append(text);
    r
}

/// `prefix`, then `name`, then `suffix`.
fn framed(prefix: &str, name: &str, suffix: &str) -> (r: String)
    ensures
        r@ == prefix@ + name@ + suffix@,
{
    let mut r = prefix.to_owned();
    r.append(name);
    r.append(suffix);
    r
}

pub fn assigned_task_to_notif(task: Task) -> (r: Notification)
    ensures
        r.id is None,
        !r.handled,
        r.title@ == "Task: "@ + task.name@ + " has been assigned to you"@,
        r.content@ == "Task description: "@ + task.description@,
{
    Notification {
        id: None,
        title: framed("Task: ", task.name.as_str(), " has been assigned to you"),
        content: prefixed("Task description: ", task.description.as_str()),
        handled: false,
    }
}

pub fn deassign_task_to_notif(task: Task) -> (r: Notification)
    ensures
        r.id is None,
        !r.handled,
        r.title@ == "Task: "@ + task.name@ + " has been deassigned from you"@,
        r.content@ == "Task description: "@ + task.description@,
{
    Notification {
        id: None,
        title: framed("Task: ", task.name.as_str(), " has been deassigned from you"),
        content: prefixed("Task description: ", task.description.as_str()),
        handled: false,
    }
}

pub fn assigned_event_to_notif(event: Event) -> (r: Notification)
    ensures
        r.id is None,
        !r.handled,
        r.title@ == "Event: "@ + event.name@ + " has been assigned to you"@,
        r.content@ == "Event description: "@ + event.description@,
{
    Notification {
        id: None,
        title: framed("Event: ", event.name.as_str(), " has been assigned to you"),
        content: prefixed("Event description: ", event.description.as_str()),
        handled: false,
    }
}

pub fn deassign_event_to_notif(event: Event) -> (r: Notification)
    ensures
        r.id is None,
        !r.handled,
        r.title@ == "Event: "@ + event.name@ + " has been deassigned from you"@,
        r.content@ == "Event description: "@ + event.description@,
{
    Notification {
        id: None,
        title: framed("Event: ", event.name.as_str(), " has been deassigned from you"),
        content: prefixed("Event description: ", event.description.as_str()),
        handled: false,
    }
}

} // verus!
