//! Conversions between stored records and the records clients see.
use crate::api_model::{
    Agenda as ApiAgenda, Asset, Credential, Draft as ApiDraft, DraftPath, Event as ApiEvent,
    EventPath, Id, IndexedStatusContent, Notification as ApiNotification, Project as ApiProject,
    Requirement as ApiRequirement, StatusContent, StatusPool as ApiStatusPool, TaskList as ApiTaskList,
    TaskPath, TaskRelationType, User as ApiUser,
};
use crate::db_model::{
    Agenda, AssetPath, DraftPayload, Event, Notification, NotificationSource, Project, RecordId,
    Requirement, Status, StatusPool, TaskList, User,
};
use vstd::prelude::*;

verus! {

/// `None` for an empty string, the string otherwise.
pub open spec fn non_empty(s: Seq<char>) -> Option<Seq<char>> {
    if s.len() == 0 {
        None
    } else {
        Some(s)
    }
}

pub open spec fn opt_view(o: Option<String>) -> Option<Seq<char>> {
    match o {
        Some(s) => Some(s@),
        None => None,
    }
}

/// `a` is the client's form of the stored pool `d`: each incomplete status
/// is indexed by its number.
pub open spec fn pool_shown_as(d: StatusPool, a: ApiStatusPool) -> bool {
    &&& a.incomplete@.len() == d.incomplete@.len()
    &&& forall|i: int|
        0 <= i < d.incomplete@.len() ==> {
            &&& (#[trigger] a.incomplete@[i]).id@ == d.incomplete@[i].number@
            &&& a.incomplete@[i].status.name@ == d.incomplete@[i].name@
            &&& a.incomplete@[i].status.description@ == d.incomplete@[i].description@
        }
    &&& a.complete.name@ == d.complete.name@
    &&& a.complete.description@ == d.complete.description@
}

/// `d` is the stored form of the client's pool `a`: each incomplete status
/// is numbered by its index, and the complete one is number `0`.
pub open spec fn pool_stored_as(a: ApiStatusPool, d: StatusPool) -> bool {
    &&& d.incomplete@.len() == a.incomplete@.len()
    &&& forall|i: int|
        0 <= i < a.incomplete@.len() ==> {
            &&& (#[trigger] d.incomplete@[i]).number@ == a.incomplete@[i].id@
            &&& d.incomplete@[i].name@ == a.incomplete@[i].status.name@
            &&& d.incomplete@[i].description@ == a.incomplete@[i].status.description@
        }
    &&& d.complete.name@ == a.complete.name@
    &&& d.complete.description@ == a.complete.description@
    &&& d.complete.number@ == "0"@
}

/// `ids` wraps each of `keys`, in order.
pub open spec fn ids_of(keys: Seq<String>, ids: Seq<Id>) -> bool {
    &&& ids.len() == keys.len()
    &&& forall|i: int| 0 <= i < keys.len() ==> (#[trigger] ids[i]).id@ == keys[i]@
}

/// `asset` names the record that `source` points at.
pub open spec fn asset_of(source: NotificationSource, asset: Asset) -> bool {
    match source {
        NotificationSource::Task(AssetPath(t, (l, p))) => match asset {
            Asset::Task { path } => path.task_id@ == t@ && path.task_list_id@ == l@
                && path.project_id@ == p@,
            _ => false,
        },
        NotificationSource::Event(AssetPath(e, (a, p))) => match asset {
            Asset::Event { path } => path.event_id@ == e@ && path.agenda_id@ == a@
                && path.project_id@ == p@,
            _ => false,
        },
        NotificationSource::Draft(AssetPath(d, _)) => match asset {
            Asset::Draft { path } => path.id@ == d@,
            _ => false,
        },
    }
}

pub(crate) fn wrap_ids(keys: &Vec<String>) -> (r: Vec<Id>)
    ensures
        ids_of(keys@, r@),
{
    let mut r: Vec<Id> = Vec::new();
    let mut i: usize = 0;
    while i < keys.len()
        invariant
            i <= keys@.len(),
            r@.len() == i,
            forall|j: int| 0 <= j < i ==> (#[trigger] r@[j]).id@ == keys@[j]@,
        decreases keys@.len() - i,
    {
        r.push(Id { id: keys[i].clone() });
        i = i + 1;
    }
    r
}

pub fn status_pool_db_to_api(status_pool: StatusPool) -> (r: Option<ApiStatusPool>)
    ensures
        r matches Some(a) && pool_shown_as(status_pool, a),
{
    let mut incomplete: Vec<IndexedStatusContent> = Vec::new();
    let mut i: usize = 0;
    while i < status_pool.incomplete.len()
        invariant
            i <= status_pool.incomplete@.len(),
            incomplete@.len() == i,
            forall|j: int|
                0 <= j < i ==> {
                    &&& (#[trigger] incomplete@[j]).id@ == status_pool.incomplete@[j].number@
                    &&& incomplete@[j].status.name@ == status_pool.incomplete@[j].name@
                    &&& incomplete@[j].status.description@
                        == status_pool.incomplete@[j].description@
                },
        decreases status_pool.incomplete@.len() - i,
    {
        let s = &status_pool.incomplete[i];
        incomplete.push(
            IndexedStatusContent {
                id: s.number.clone(),
                status: StatusContent { name: s.name.clone(), description: s.description.clone() },
            },
        );
        i = i + 1;
    }
    Some(
        ApiStatusPool {
            incomplete,
            complete: StatusContent {
                name: status_pool.complete.name,
                description: status_pool.complete.description,
            },
        },
    )
}

pub fn status_pool_api_to_db(status_pool: ApiStatusPool) -> (r: StatusPool)
    ensures
        pool_stored_as(status_pool, r),
{
    let mut incomplete: Vec<Status> = Vec::new();
    let mut i: usize = 0;
    while i < status_pool.incomplete.len()
        invariant
            i <= status_pool.incomplete@.len(),
            incomplete@.len() == i,
            forall|j: int|
                0 <= j < i ==> {
                    &&& (#[trigger] incomplete@[j]).number@ == status_pool.incomplete@[j].id@
                    &&& incomplete@[j].name@ == status_pool.incomplete@[j].status.name@
                    &&& incomplete@[j].description@
                        == status_pool.incomplete@[j].status.description@
                },
        decreases status_pool.incomplete@.len() - i,
    {
        let s = &status_pool.incomplete[i];
        incomplete.push(
            Status {
                name: s.status.name.clone(),
                description: s.status.description.clone(),
                number: s.id.clone(),
            },
        );
        i = i + 1;
    }
    StatusPool {
        incomplete,
        complete: Status {
            name: status_pool.complete.name,
            number: "0".to_owned(),
            description: status_pool.complete.description,
        },
    }
}

/// The client's form of a stored user; `None` for a user not stored yet.
/// An empty email or avatar is shown as absent.
pub fn user_db_to_api(user: User) -> (r: Option<ApiUser>)
    ensures
        r is Some <==> user.id is Some,
        r matches Some(u) ==> {
            &&& u.id@ == user.id->Some_0.key@
            &&& u.username@ == user.username@
            &&& opt_view(u.email) == non_empty(user.email@)
            &&& opt_view(u.avatar) == non_empty(user.avatar@)
            &&& u.status_pool matches Some(p) && pool_shown_as(user.status_pool, p)
        },
{
    match user.id {
        None => None,
        Some(id) => {
            let email = if user.email.as_str().is_empty() {
                None
            } else {
                Some(user.email)
            };
            let avatar = if user.avatar.as_str().is_empty() {
                None
            } else {
                Some(user.avatar)
            };
            Some(
                ApiUser {
                    id: id.key,
                    email,
                    username: user.username,
                    avatar,
                    status_pool: status_pool_db_to_api(user.status_pool),
                },
            )
        },
    }
}

/// The stored form of a signing-up user: no id, no avatar or email yet, and
/// an empty status pool.
pub fn credential_api_to_user_db(cred: Credential) -> (r: Option<User>)
    ensures
        r matches Some(u) && {
            &&& u.id is None
            &&& u.username@ == cred.username@
            &&& u.password@ == cred.password@
            &&& u.avatar@.len() == 0
            &&& u.email@.len() == 0
            &&& u.status_pool.incomplete@.len() == 0
            &&& u.status_pool.complete.name@.len() == 0
            &&& u.status_pool.complete.description@.len() == 0
            &&& u.status_pool.complete.number@.len() == 0
        },
{
    Some(
        User {
            id: None,
            username: cred.username,
            avatar: String::new(),
            email: String::new(),
            password: cred.password,
            status_pool: StatusPool::default(),
        },
    )
}

/// The client's form of a stored project; `None` for a project not stored
/// yet. The description is not stored and shows empty.
pub fn project_db_to_api(project: Project) -> (r: Option<ApiProject>)
    ensures
        r is Some <==> project.id is Some,
        r matches Some(p) ==> {
            &&& p.id@ == project.id->Some_0.key@
            &&& p.name@ == project.name@
            &&& p.description@.len() == 0
            &&& opt_view(p.avatar) == opt_view(project.avatar)
            &&& p.status_pool matches Some(sp) && pool_shown_as(project.status_pool, sp)
            &&& p.github == Some(project.github)
        },
{
    let id = match project.id {
        None => {
            return None;
        },
        Some(id) => id.key,
    };
    Some(
        ApiProject {
            id,
            name: project.name,
            description: String::new(),
            avatar: project.avatar,
            status_pool: status_pool_db_to_api(project.status_pool),
            github: Some(project.github),
        },
    )
}

/// The client's form of a stored notification about `source`.
pub fn notif_db_to_api(notif: Notification, source: NotificationSource) -> (r: ApiNotification)
    requires
        notif.id is Some,
    ensures
        r.id@ == notif.id->Some_0.key@,
        r.title@ == notif.title@,
        r.content@ == notif.content@,
        r.handled == notif.handled,
        asset_of(source, r.asset),
{
    let id = match notif.id {
        Some(id) => id.key,
        None => String::new(),
    };
    ApiNotification {
        id,
        title: notif.title,
        content: notif.content,
        handled: notif.handled,
        asset: match source {
            NotificationSource::Task(AssetPath(task_id, (task_list_id, project_id))) => {
                Asset::Task { path: TaskPath { task_id, task_list_id, project_id } }
            },
            NotificationSource::Event(AssetPath(event_id, (agenda_id, project_id))) => {
                Asset::Event { path: EventPath { event_id, agenda_id, project_id } }
            },
            NotificationSource::Draft(AssetPath(id, _)) => Asset::Draft { path: DraftPath { id } },
        },
    }
}

/// The client's form of a stored requirement: its description is the content.
pub fn requ_db_to_api(requ: Requirement) -> (r: ApiRequirement)
    requires
        requ.id is Some,
    ensures
        r.id@ == requ.id->Some_0.key@,
        r.name@ == requ.name@,
        r.content@ == requ.description@,
{
    let id = match requ.id {
        Some(id) => id.key,
        None => String::new(),
    };
    ApiRequirement { id, name: requ.name, content: requ.description }
}

/// The client's listing of a stored draft; `None` for a draft not stored yet.
pub fn draft_db_to_api(draft: DraftPayload) -> (r: Option<ApiDraft>)
    ensures
        r is Some <==> draft.id is Some,
        r matches Some(d) ==> d.id@ == draft.id->Some_0@ && d.name@ == draft.name@,
{
    let id = match draft.id {
        None => {
            return None;
        },
        Some(id) => id,
    };
    Some(ApiDraft { id, name: draft.name })
}

/// The client's form of a stored event with its participants.
pub fn event_db_to_api(event: Event, participants: Vec<Id>) -> (r: ApiEvent)
    requires
        event.id is Some,
    ensures
        r.id@ == event.id->Some_0.key@,
        r.name@ == event.name@,
        r.description@ == event.description@,
        r.start_time == event.start_time,
        r.end_time == event.end_time,
        r.participants@ == participants@,
{
    let id = match event.id {
        Some(id) => id.key,
        None => String::new(),
    };
    ApiEvent {
        id,
        name: event.name,
        description: event.description,
        start_time: event.start_time,
        end_time: event.end_time,
        participants,
    }
}

/// The client's form of a stored agenda holding `events` (none if absent).
pub fn agenda_db_to_api(agenda: Agenda, events: Option<Vec<String>>) -> (r: ApiAgenda)
    requires
        agenda.id is Some,
    ensures
        r.id@ == agenda.id->Some_0.key@,
        r.name@ == agenda.name@,
        match events {
            Some(e) => ids_of(e@, r.events@),
            None => r.events@.len() == 0,
        },
{
    let id = match agenda.id {
        Some(id) => id.key,
        None => String::new(),
    };
    let events = match events {
        Some(e) => wrap_ids(&e),
        None => Vec::new(),
    };
    ApiAgenda { id, name: agenda.name, events }
}

/// The client's form of a stored task list; `None` for one not stored yet.
pub fn task_list_db_to_api(task_list: TaskList) -> (r: Option<ApiTaskList>)
    ensures
        r is Some <==> task_list.id is Some,
        r matches Some(l) ==> {
            &&& l.id@ == task_list.id->Some_0.key@
            &&& l.name@ == task_list.name@
            &&& match task_list.tasks {
                Some(t) => ids_of(t@, l.tasks@),
                None => l.tasks@.len() == 0,
            }
        },
{
    let id = match task_list.id {
        None => {
            return None;
        },
        Some(id) => id.key,
    };
    let tasks = match task_list.tasks {
        None => Vec::new(),
        Some(t) => wrap_ids(&t),
    };
    Some(ApiTaskList { id, name: task_list.name, tasks })
}

/// The word that the store uses for a kind of task link.
pub open spec fn category_word(category: TaskRelationType) -> Seq<char> {
    match category {
        TaskRelationType::Auto => "auto"@,
        TaskRelationType::Dep => "dep"@,
    }
}

pub fn task_relation_category_to_kind(category: &TaskRelationType) -> (r: &'static str)
    ensures
        r@ == category_word(*category),
{
    match category {
        TaskRelationType::Auto => "auto",
        TaskRelationType::Dep => "dep",
    }
}

/// The stored form of a client's user, with `password`: an absent email or
/// avatar is stored empty, an absent pool as the empty pool.
pub fn user_api_to_db(user: ApiUser, password: &str) -> (r: User)
    ensures
        r.id matches Some(rid) && rid.table@ == "user"@ && rid.key@ == user.id@,
        r.username@ == user.username@,
        r.password@ == password@,
        r.avatar@ == match user.avatar {
            Some(a) => a@,
            None => Seq::<char>::empty(),
        },
        r.email@ == match user.email {
            Some(e) => e@,
            None => Seq::<char>::empty(),
        },
        match user.status_pool {
            Some(p) => pool_stored_as(p, r.status_pool),
            None => r.status_pool.incomplete@.len() == 0 && r.status_pool.complete.name@.len() == 0
                && r.status_pool.complete.description@.len() == 0 && r.status_pool.complete.number@.len() == 0,
        },
{
    User {
        id: Some(RecordId { table: "user".to_owned(), key: user.id }),
        username: user.username,
        avatar: match user.avatar {
            Some(a) => a,
            None => String::new(),
        },
        password: password.to_owned(),
        email: match user.email {
            Some(e) => e,
            None => String::new(),
        },
        status_pool: match user.status_pool {
            None => StatusPool::default(),
            Some(status_pool) => status_pool_api_to_db(status_pool),
        },
    }
}

/// The stored form of a client's project: an empty id means not stored
/// yet, and no repository is linked.
pub fn project_api_to_db(project: ApiProject) -> (r: Project)
    ensures
        project.id@.len() == 0 ==> r.id is None,
        project.id@.len() != 0 ==> (r.id matches Some(rid) && rid.table@ == "project"@
            && rid.key@ == project.id@),
        r.name@ == project.name@,
        opt_view(r.avatar) == opt_view(project.avatar),
        match project.status_pool {
            Some(p) => pool_stored_as(p, r.status_pool),
            None => r.status_pool.incomplete@.len() == 0 && r.status_pool.complete.name@.len() == 0
                && r.status_pool.complete.description@.len() == 0 && r.status_pool.complete.number@.len() == 0,
        },
        r.github == 0,
{
    Project {
        id: if project.id.as_str().is_empty() {
            None
        } else {
            Some(RecordId { table: "project".to_owned(), key: project.id })
        },
        name: project.name,
        avatar: project.avatar,
        status_pool: match project.status_pool {
            None => StatusPool::default(),
            Some(status_pool) => status_pool_api_to_db(status_pool),
        },
        github: 0,
    }
}

} // verus!
