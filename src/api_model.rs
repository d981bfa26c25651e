//! Records exchanged with the tracker's clients.
use vstd::prelude::*;

verus! {

/// A point in time, in milliseconds since the Unix epoch (UTC).
#[derive(Clone, Copy, Debug, PartialEq, Eq, Structural)]
pub struct Timestamp {
    pub unix_millis: i64,
}

/// A reference to another record by its id.
#[derive(Clone, Debug, PartialEq, Eq)]
pub struct Id {
    pub id: String,
}

/// A draft as listed to clients: its content travels over the live session.
#[derive(Clone, Debug, PartialEq, Eq)]
pub struct Draft {
    pub id: String,
    pub name: String,
}

#[derive(Clone, Debug, PartialEq, Eq)]
pub struct StatusContent {
    pub name: String,
    pub description: String,
}

#[derive(Clone, Debug, PartialEq, Eq)]
pub struct IndexedStatusContent {
    pub id: String,
    pub status: StatusContent,
}

/// The statuses a task can pass through before the single complete one.
#[derive(Clone, Debug, PartialEq, Eq)]
pub struct StatusPool {
    pub incomplete: Vec<IndexedStatusContent>,
    pub complete: StatusContent,
}

#[derive(Clone, Debug, PartialEq, Eq)]
pub enum Status {
    Incomplete { id: String },
    Complete,
}

#[derive(Clone, Copy, Debug, PartialEq, Eq, Structural)]
pub enum TaskRelationType {
    Auto,
    Dep,
}

/// A directed link between two tasks.
#[derive(Clone, Debug, PartialEq, Eq)]
pub struct TaskRelation {
    pub id: String,
    pub from: Id,
    pub to: Id,
    pub category: TaskRelationType,
}

#[derive(Clone, Debug, PartialEq, Eq)]
pub struct Task {
    pub id: String,
    pub name: String,
    pub description: String,
    pub assignees: Vec<Id>,
    pub status: Status,
    pub deadline: Timestamp,
    pub pr: Option<PullRequest>,
}

/// A task as listed to one of its assignees, with where it sits.
#[derive(Clone, Debug, PartialEq, Eq)]
pub struct AssignedTask {
    pub id: String,
    pub name: String,
    pub description: String,
    pub assignees: Vec<Id>,
    pub status: Status,
    pub deadline: Timestamp,
    pub project: String,
    pub task_list: String,
}

#[derive(Clone, Debug, PartialEq, Eq)]
pub struct TaskList {
    pub id: String,
    pub name: String,
    pub tasks: Vec<Id>,
}

#[derive(Clone, Debug, PartialEq, Eq)]
pub struct Credential {
    pub username: String,
    pub password: String,
}

#[derive(Clone, Debug, PartialEq, Eq)]
pub struct User {
    pub id: String,
    pub username: String,
    pub email: Option<String>,
    pub avatar: Option<String>,
    pub status_pool: Option<StatusPool>,
}

#[derive(Clone, Debug, PartialEq, Eq)]
pub struct Project {
    pub id: String,
    pub name: String,
    pub description: String,
    pub avatar: Option<String>,
    pub status_pool: Option<StatusPool>,
    pub github: Option<i64>,
}

#[derive(Clone, Debug, PartialEq, Eq)]
pub struct Requirement {
    pub id: String,
    pub name: String,
    pub content: String,
}

#[derive(Clone, Debug, PartialEq, Eq)]
pub struct TaskPath {
    pub task_id: String,
    pub task_list_id: String,
    pub project_id: String,
}

#[derive(Clone, Debug, PartialEq, Eq)]
pub struct DraftPath {
    pub id: String,
}

#[derive(Clone, Debug, PartialEq, Eq)]
pub struct EventPath {
    pub event_id: String,
    pub agenda_id: String,
    pub project_id: String,
}

/// What a notification is about.
#[derive(Clone, Debug, PartialEq, Eq)]
pub enum Asset {
    Task { path: TaskPath },
    Draft { path: DraftPath },
    Event { path: EventPath },
}

#[derive(Clone, Debug, PartialEq, Eq)]
pub struct Notification {
    pub id: String,
    pub title: String,
    pub content: String,
    pub asset: Asset,
    pub handled: bool,
}

#[derive(Clone, Debug, PartialEq, Eq)]
pub struct Event {
    pub id: String,
    pub name: String,
    pub description: String,
    pub start_time: Timestamp,
    pub end_time: Timestamp,
    pub participants: Vec<Id>,
}

#[derive(Clone, Debug, PartialEq, Eq)]
pub struct Agenda {
    pub id: String,
    pub name: String,
    pub events: Vec<Id>,
}

/// A pull request of the project's repository.
#[derive(Clone, Debug, Default, PartialEq, Eq)]
pub struct PullRequest {
    pub owner: String,
    pub repo: String,
    pub pull_number: i64,
    pub title: String,
}

} // verus!
