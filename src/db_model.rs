//! Records as the store keeps them.
use crate::api_model::{PullRequest, Timestamp};
use base64::Engine;
use vstd::prelude::*;

verus! {

/// The id of a stored record: its table and its key as the store renders it.
#[derive(Clone, Debug, PartialEq, Eq)]
pub struct RecordId {
    pub table: String,
    pub key: String,
}

#[derive(Clone, Debug, PartialEq, Eq)]
pub struct Status {
    pub name: String,
    pub description: String,
    pub number: String,
}

#[derive(Clone, Debug, PartialEq, Eq)]
pub struct StatusPool {
    pub incomplete: Vec<Status>,
    pub complete: Status,
}

impl Default for Status {
    fn default() -> (r: Status)
        ensures
            r.name@.len() == 0,
            r.description@.len() == 0,
            r.number@.len() == 0,
    {
        Status { name: String::new(), description: String::new(), number: String::new() }
    }
}

impl Default for StatusPool {
    fn default() -> (r: StatusPool)
        ensures
            r.incomplete@.len() == 0,
            r.complete.name@.len() == 0,
            r.complete.description@.len() == 0,
            r.complete.number@.len() == 0,
    {
        StatusPool { incomplete: Vec::new(), complete: Status::default() }
    }
}

impl Status {
    /// The status that a new pool starts from.
    pub fn new() -> (r: Status)
        ensures
            r.name@ == "complete"@,
            r.description@ == "description"@,
            r.number@.len() == 0,
    {
        Status {
            name: "complete".to_owned(),
            description: "description".to_owned(),
            number: String::new(),
        }
    }
}

impl StatusPool {
    /// A pool of one incomplete status beside the complete one, both fresh.
    pub fn new() -> (r: StatusPool)
        ensures
            r.incomplete@.len() == 1,
            r.incomplete@[0].name@ == "complete"@,
            r.incomplete@[0].description@ == "description"@,
            r.incomplete@[0].number@.len() == 0,
            r.complete.name@ == "complete"@,
            r.complete.description@ == "description"@,
            r.complete.number@.len() == 0,
    {
        let mut incomplete: Vec<Status> = Vec::new();
        incomplete.push(Status::new());
        StatusPool { incomplete, complete: Status::new() }
    }
}

/// A draft with its content as raw bytes: the persisted document state.
#[derive(Clone, Debug, PartialEq, Eq)]
pub struct DraftPayload {
    pub id: Option<String>,
    pub name: String,
    pub content: Vec<u8>,
}

impl DraftPayload {
    /// The raw form of a stored draft; an error if its content is not base64.
    pub fn from(draft: Draft) -> (r: Result<DraftPayload, DraftDecodeError>)
        ensures
            r matches Ok(p) ==> {
                &&& p.name@ == draft.name@
                &&& base64_text(p.content@) == draft.content@
                &&& match draft.id {
                    Some(rid) => p.id matches Some(k) && k@ == rid.key@,
                    None => p.id is None,
                }
            },
            forall|b: Seq<u8>| base64_text(b) == draft.content@ ==> (r matches Ok(p) && p.content@ == b),
    {
        let content = match draft.get_content() {
            Some(c) => c,
            None => {
                return Err(DraftDecodeError::NotBase64);
            },
        };
        Ok(
            DraftPayload {
                id: match draft.id {
                    Some(id) => Some(id.key),
                    None => None,
                },
                name: draft.name,
                content,
            },
        )
    }

    /// A draft not stored yet.
    pub fn new(name: String, content: Vec<u8>) -> (r: DraftPayload)
        ensures
            r.id is None,
            r.name@ == name@,
            r.content@ == content@,
    {
        DraftPayload { id: None, name, content }
    }
}

/// The standard base64 text (RFC 4648 alphabet, padded) of `b`.
pub uninterp spec fn base64_text(b: Seq<u8>) -> Seq<char>;

/// Relies on `base64::engine::general_purpose::STANDARD.encode`.
#[verifier::external_body]
fn encode_base64(b: &[u8]) -> (r: String)
    ensures
        r@ == base64_text(b@),
{
    base64::engine::general_purpose::STANDARD.encode(b)
}

/// Relies on `base64::engine::general_purpose::STANDARD.decode`: it takes
/// back what `encode` gave, and, requiring canonical padding and trailing
/// bits, accepts nothing else.
#[verifier::external_body]
fn decode_base64(s: &str) -> (r: Option<Vec<u8>>)
    ensures
        r is Some ==> base64_text(r->Some_0@) == s@,
        r is Some ==> forall|b: Seq<u8>| base64_text(b) == s@ ==> r->Some_0@ == b,
        r is Some <== exists|b: Seq<u8>| base64_text(b) == s@,
{
    base64::engine::general_purpose::STANDARD.decode(s).ok()
}

/// A draft as the store keeps it: the content as base64 text.
#[derive(Clone, Debug, PartialEq, Eq)]
pub struct Draft {
    pub id: Option<RecordId>,
    pub name: String,
    pub content: String,
}

/// Why a stored draft's content could not be read back.
#[derive(Clone, Copy, Debug, PartialEq, Eq, Structural)]
pub enum DraftDecodeError {
    NotBase64,
}

impl Draft {
    /// A draft not stored yet.
    pub fn new(name: String, content: &Vec<u8>) -> (r: Draft)
        ensures
            r.id is None,
            r.name@ == name@,
            r.content@ == base64_text(content@),
    {
        Draft { id: None, name, content: encode_base64(content.as_slice()) }
    }

    /// A draft stored under key `id` of the `draft` table.
    pub fn new_with_id(id: &str, name: String, content: &Vec<u8>) -> (r: Draft)
        ensures
            r.id matches Some(rid) && rid.table@ == "draft"@ && rid.key@ == id@,
            r.name@ == name@,
            r.content@ == base64_text(content@),
    {
        Draft {
            id: Some(RecordId { table: "draft".to_owned(), key: id.to_owned() }),
            name,
            content: encode_base64(content.as_slice()),
        }
    }

    /// The raw content, if the stored text is base64.
    pub fn get_content(&self) -> (r: Option<Vec<u8>>)
        ensures
            r matches Some(v) ==> base64_text(v@) == self.content@,
            forall|b: Seq<u8>| base64_text(b) == self.content@ ==> (r matches Some(v) && v@ == b),
    {
        decode_base64(self.content.as_str())
    }

    /// The stored form of `draft`.
    pub fn from(draft: DraftPayload) -> (r: Draft)
        ensures
            r.name@ == draft.name@,
            r.content@ == base64_text(draft.content@),
            match draft.id {
                Some(id) => r.id matches Some(rid) && rid.table@ == "draft"@ && rid.key@ == id@,
                None => r.id is None,
            },
    {
        match draft.id {
            Some(id) => Self::new_with_id(id.as_str(), draft.name, &draft.content),
            None => Self::new(draft.name, &draft.content),
        }
    }
}

/// A record's id with the ids of the two records above it.
#[derive(Debug, PartialEq, Eq)]
pub struct AssetPath(pub String, pub (String, String));

/// What a stored notification refers to.
#[derive(Debug, PartialEq, Eq)]
pub enum NotificationSource {
    Task(AssetPath),
    Event(AssetPath),
    Draft(AssetPath),
}

#[derive(Clone, Debug, PartialEq, Eq)]
pub struct Notification {
    pub id: Option<RecordId>,
    pub title: String,
    pub content: String,
    pub handled: bool,
}

#[derive(Clone, Debug, PartialEq, Eq)]
pub struct Requirement {
    pub id: Option<RecordId>,
    pub name: String,
    pub description: String,
}

#[derive(Clone, Debug, PartialEq, Eq)]
pub struct Project {
    pub id: Option<RecordId>,
    pub name: String,
    pub avatar: Option<String>,
    pub status_pool: StatusPool,
    pub github: i64,
}

#[derive(Clone, Debug, PartialEq, Eq)]
pub struct User {
    pub id: Option<RecordId>,
    pub username: String,
    pub avatar: String,
    pub email: String,
    pub password: String,
    pub status_pool: StatusPool,
}

#[derive(Clone, Debug, PartialEq, Eq)]
pub struct Credentials {
    pub username: String,
    pub password: String,
}

#[derive(Clone, Debug, PartialEq, Eq)]
pub struct Agenda {
    pub id: Option<RecordId>,
    pub name: String,
    pub events: Option<Vec<String>>,
}

#[derive(Clone, Debug, PartialEq, Eq)]
pub struct Event {
    pub id: Option<RecordId>,
    pub name: String,
    pub description: String,
    pub start_time: Timestamp,
    pub end_time: Timestamp,
}

#[derive(Clone, Debug, PartialEq, Eq)]
pub struct TaskList {
    pub id: Option<RecordId>,
    pub name: String,
    pub tasks: Option<Vec<String>>,
    pub owner: Option<String>,
}

#[derive(Clone, Debug, PartialEq, Eq)]
pub struct Task {
    pub id: Option<RecordId>,
    pub name: String,
    pub description: String,
    /// The number of its incomplete status, while not complete.
    pub status: String,
    pub complete: bool,
    pub ddl: Option<Timestamp>,
    pub assignees: Option<Vec<String>>,
    pub pr: PullRequest,
    pub pr_number: i64,
    pub pr_assigned: bool,
}

/// A stored link between two tasks; `kind` is `auto` or `dep`.
#[derive(Clone, Debug, PartialEq, Eq)]
pub struct TaskLink {
    pub id: Option<RecordId>,
    pub incoming: Option<RecordId>,
    pub outgoing: Option<RecordId>,
    pub kind: String,
}

/// Who owns a task list.
#[derive(Clone, Copy, Debug, PartialEq, Eq, Structural)]
pub enum Entity {
    User,
    Project,
}

/// The key of a stored record's id.
pub fn unwrap_thing(thing: RecordId) -> (r: String)
    ensures
        r@ == thing.key@,
{
    thing.key
}

/// The key of a record's id; the record must have been stored.
pub fn get_str_id(id: &Option<RecordId>) -> (r: String)
    requires
        id is Some,
    ensures
        r@ == id->Some_0.key@,
{
    match id {
        Some(t) => t.key.clone(),
        None => String::new(),
    }
}

/// The keys of `things`, in order.
pub fn unwrap_things(things: Vec<RecordId>) -> (r: Vec<String>)
    ensures
        r@.len() == things@.len(),
        forall|i: int| 0 <= i < things@.len() ==> (#[trigger] r@[i])@ == things@[i].key@,
{
    let mut r: Vec<String> = Vec::new();
    let mut i: usize = 0;
    while i < things.len()
        invariant
            i <= things@.len(),
            r@.len() == i,
            forall|j: int| 0 <= j < i ==> (#[trigger] r@[j])@ == things@[j].key@,
        decreases things@.len() - i,
    {
        r.push(things[i].key.clone());
        i = i + 1;
    }
    r
}

impl Agenda {
    /// An agenda not stored yet, with no events.
    pub fn new(name: String) -> (r: Agenda)
        ensures
            r.id is None,
            r.name@ == name@,
            r.events is None,
    {
        Agenda { id: None, name, events: None }
    }
}

impl Notification {
    /// A notification not stored yet, not handled.
    pub fn new(title: String, content: String) -> (r: Notification)
        ensures
            r.id is None,
            r.title@ == title@,
            r.content@ == content@,
            !r.handled,
    {
        Notification { id: None, title, content, handled: false }
    }
}

impl Requirement {
    /// A requirement not stored yet.
    pub fn new(name: String, description: String) -> (r: Requirement)
        ensures
            r.id is None,
            r.name@ == name@,
            r.description@ == description@,
    {
        Requirement { id: None, name, description }
    }
}

impl Task {
    /// A task not stored yet: incomplete in status `0`, with no deadline,
    /// assignee or pull request.
    pub fn new(name: String) -> (r: Task)
        ensures
            r.id is None,
            r.name@ == name@,
            r.description@.len() == 0,
            r.status@ == "0"@,
            !r.complete,
            r.ddl is None,
            r.assignees is None,
            r.pr_number == 0,
            !r.pr_assigned,
            r.pr.owner@.len() == 0 && r.pr.repo@.len() == 0 && r.pr.title@.len() == 0,
            r.pr.pull_number == 0,
    {
        Task {
            id: None,
            name,
            description: String::new(),
            status: "0".to_owned(),
            complete: false,
            ddl: None,
            assignees: None,
            pr: PullRequest {
                owner: String::new(),
                repo: String::new(),
                pull_number: 0,
                title: String::new(),
            },
            pr_number: 0,
            pr_assigned: false,
        }
    }
}

impl TaskList {
    /// A task list not stored yet, with no tasks and no owner.
    pub fn new(name: String) -> (r: TaskList)
        ensures
            r.id is None,
            r.name@ == name@,
            r.tasks is None,
            r.owner is None,
    {
        TaskList { id: None, name, tasks: None, owner: None }
    }

    /// A task list to be stored under key `id` of `table`.
    pub fn new_with_id(name: String, id: &str, table: &str) -> (r: TaskList)
        ensures
            r.id matches Some(rid) && rid.table@ == table@ && rid.key@ == id@,
            r.name@ == name@,
            r.tasks is None,
            r.owner is None,
    {
        TaskList {
            id: Some(RecordId { table: table.to_owned(), key: id.to_owned() }),
            name,
            tasks: None,
            owner: None,
        }
    }
}

} // verus!
