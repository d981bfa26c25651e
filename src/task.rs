//! Task completion rules and the client's form of tasks and task links.
//!
//! A task's incoming links say which tasks come before it. A `dep` link
//! forbids completing the task while the task before it is incomplete; when
//! every incoming link is `auto`, the task follows the tasks before it: it is
//! complete exactly when they all are.
use crate::api_model::{
    AssignedTask, Id, PullRequest, Status as ApiStatus, Task as ApiTask, TaskRelation,
    TaskRelationType, Timestamp,
};
use crate::convert::ids_of;
use crate::db_model::{Task, TaskLink};
use crate::requests::TaskSwitchable;
use vstd::prelude::*;

verus! {

/// One incoming link of a task: whether it is a `dep` link, and whether the
/// task it comes from is complete.
#[derive(Clone, Copy, Debug, PartialEq, Eq, Structural)]
pub struct PreTask {
    pub dep: bool,
    pub complete: bool,
}

pub open spec fn blocked_by_dep(links: Seq<PreTask>) -> bool {
    exists|i: int| 0 <= i < links.len() && links[i].dep && !links[i].complete
}

pub open spec fn has_dep(links: Seq<PreTask>) -> bool {
    exists|i: int| 0 <= i < links.len() && links[i].dep
}

pub open spec fn all_complete(links: Seq<PreTask>) -> bool {
    forall|i: int| 0 <= i < links.len() ==> links[i].complete
}

/// Whether a task with incoming `links` may be switched to complete, to
/// incomplete, or both.
pub open spec fn switchable_spec(links: Seq<PreTask>) -> TaskSwitchable {
    if blocked_by_dep(links) {
        TaskSwitchable::False
    } else if !has_dep(links) && links.len() > 0 && all_complete(links) {
        TaskSwitchable::True
    } else {
        TaskSwitchable::TrueAndFalse
    }
}

/// The completion a task with incoming `links` must have, given its
/// current one.
pub open spec fn refreshed_spec(links: Seq<PreTask>, current: bool) -> bool {
    if blocked_by_dep(links) {
        false
    } else if !has_dep(links) && links.len() > 0 {
        all_complete(links)
    } else {
        current
    }
}

/// Scans `links` once: (some dep link is blocked, some link is dep, all
/// tasks before are complete).
fn scan_links(links: &Vec<PreTask>) -> (r: (bool, bool, bool))
    ensures
        r.0 == blocked_by_dep(links@),
        r.1 == has_dep(links@),
        r.2 == all_complete(links@),
{
    let mut blocked = false;
    let mut dep = false;
    let mut complete = true;
    let mut i: usize = 0;
    while i < links.len()
        invariant
            i <= links@.len(),
            blocked == blocked_by_dep(links@.subrange(0, i as int)),
            dep == has_dep(links@.subrange(0, i as int)),
            complete == all_complete(links@.subrange(0, i as int)),
        decreases links@.len() - i,
    {
        let ghost prev = links@.subrange(0, i as int);
        let l = links[i];
        let ghost next = links@.subrange(0, i + 1);
        assert(next =~= prev.push(l));
        if l.dep && !l.complete {
            blocked = true;
        }
        if l.dep {
            dep = true;
        }
        if !l.complete {
            complete = false;
        }
        assert(blocked == blocked_by_dep(next)) by {
            assert(next[i as int] == l);
            if blocked_by_dep(prev) {
                let k = choose|k: int| 0 <= k < prev.len() && prev[k].dep && !prev[k].complete;
                assert(next[k] == prev[k]);
            }
            if blocked_by_dep(next) && !(l.dep && !l.complete) {
                let k = choose|k: int| 0 <= k < next.len() && next[k].dep && !next[k].complete;
                assert(k < prev.len() && prev[k] == next[k]);
            }
        }
        assert(dep == has_dep(next)) by {
            assert(next[i as int] == l);
            if has_dep(prev) {
                let k = choose|k: int| 0 <= k < prev.len() && prev[k].dep;
                assert(next[k] == prev[k]);
            }
            if has_dep(next) && !l.dep {
                let k = choose|k: int| 0 <= k < next.len() && next[k].dep;
                assert(k < prev.len() && prev[k] == next[k]);
            }
        }
        assert(complete == all_complete(next)) by {
            if all_complete(next) {
                assert forall|k: int| 0 <= k < prev.len() implies prev[k].complete by {
                    assert(next[k] == prev[k]);
                }
                assert(next[i as int] == l);
            }
            if !complete && l.complete {
                let k = choose|k: int| 0 <= k < prev.len() && !prev[k].complete;
                assert(next[k] == prev[k]);
            }
        }
        i = i + 1;
    }
    assert(links@.subrange(0, i as int) =~= links@);
    (blocked, dep, complete)
}

/// Which ways a task with incoming `links` may be switched.
pub fn check_task_switch_complete(links: &Vec<PreTask>) -> (r: TaskSwitchable)
    ensures
        r == switchable_spec(links@),
{
    let (blocked, dep, complete) = scan_links(links);
    if blocked {
        TaskSwitchable::False
    } else if !dep && links.len() > 0 && complete {
        TaskSwitchable::True
    } else {
        TaskSwitchable::TrueAndFalse
    }
}

/// The completion that a task with incoming `links` must take; the caller
/// refreshes the tasks after it when this differs from `current`.
pub fn refresh_task_status(links: &Vec<PreTask>, current: bool) -> (r: bool)
    ensures
        r == refreshed_spec(links@, current),
{
    let (blocked, dep, complete) = scan_links(links);
    if blocked {
        false
    } else if !dep && links.len() > 0 {
        complete
    } else {
        current
    }
}

/// A refreshed task can always be switched to the completion it was
/// given.
pub proof fn lemma_refresh_within_switch(links: Seq<PreTask>, current: bool)
    ensures
        switchable_spec(links) == TaskSwitchable::False ==> !refreshed_spec(links, current),
        switchable_spec(links) == TaskSwitchable::True ==> refreshed_spec(links, current),
{
}

/// Why a stored task link cannot be shown.
#[derive(Clone, Copy, Debug, PartialEq, Eq, Structural)]
pub enum TaskLinkError {
    /// The link, or one of its ends, has no id.
    MissingId,
    /// The kind is neither `auto` nor `dep`.
    UnknownKind,
}

/// The client's form of a stored task status.
pub open spec fn status_shown(complete: bool, number: Seq<char>, s: ApiStatus) -> bool {
    if complete {
        s == ApiStatus::Complete
    } else {
        s matches ApiStatus::Incomplete { id } && id@ == number
    }
}

fn show_status(complete: bool, number: String) -> (r: ApiStatus)
    ensures
        status_shown(complete, number@, r),
{
    if complete {
        ApiStatus::Complete
    } else {
        ApiStatus::Incomplete { id: number }
    }
}

fn show_assignees(assignees: Option<Vec<String>>) -> (r: Vec<Id>)
    ensures
        match assignees {
            Some(a) => ids_of(a@, r@),
            None => r@.len() == 0,
        },
{
    match assignees {
        Some(a) => crate::convert::wrap_ids(&a),
        None => Vec::new(),
    }
}

/// The client's form of a stored task; a task without deadline shows the
/// epoch, and the pull request shows only once one is assigned.
pub fn task_db_to_api(task: Task) -> (r: ApiTask)
    requires
        task.id is Some,
    ensures
        r.id@ == task.id->Some_0.key@,
        r.name@ == task.name@,
        r.description@ == task.description@,
        match task.assignees {
            Some(a) => ids_of(a@, r.assignees@),
            None => r.assignees@.len() == 0,
        },
        status_shown(task.complete, task.status@, r.status),
        r.deadline == match task.ddl {
            Some(d) => d,
            None => Timestamp { unix_millis: 0 },
        },
        r.pr is Some <==> task.pr_assigned,
        r.pr matches Some(p) ==> p == task.pr,
{
    let id = match task.id {
        Some(id) => id.key,
        None => String::new(),
    };
    ApiTask {
        id,
        name: task.name,
        description: task.description,
        assignees: show_assignees(task.assignees),
        status: show_status(task.complete, task.status),
        deadline: match task.ddl {
            Some(d) => d,
            None => Timestamp { unix_millis: 0 },
        },
        pr: if task.pr_assigned {
            Some(task.pr)
        } else {
            None
        },
    }
}

/// The client's form of a stored task assigned to someone, with the ids of
/// its task list and project.
pub fn task_db_to_api_assigned(entry: (Task, String, String)) -> (r: AssignedTask)
    requires
        entry.0.id is Some,
    ensures
        r.id@ == entry.0.id->Some_0.key@,
        r.name@ == entry.0.name@,
        r.description@ == entry.0.description@,
        match entry.0.assignees {
            Some(a) => ids_of(a@, r.assignees@),
            None => r.assignees@.len() == 0,
        },
        status_shown(entry.0.complete, entry.0.status@, r.status),
        r.deadline == match entry.0.ddl {
            Some(d) => d,
            None => Timestamp { unix_millis: 0 },
        },
        r.task_list@ == entry.1@,
        r.project@ == entry.2@,
{
    let (task, task_list, project) = entry;
    let id = match task.id {
        Some(id) => id.key,
        None => String::new(),
    };
    AssignedTask {
        id,
        name: task.name,
        description: task.description,
        assignees: show_assignees(task.assignees),
        status: show_status(task.complete, task.status),
        deadline: match task.ddl {
            Some(d) => d,
            None => Timestamp { unix_millis: 0 },
        },
        project,
        task_list,
    }
}

/// The kind of link that a stored word names.
pub open spec fn kind_of_word(w: Seq<char>) -> Option<TaskRelationType> {
    if w == "auto"@ {
        Some(TaskRelationType::Auto)
    } else if w == "dep"@ {
        Some(TaskRelationType::Dep)
    } else {
        None
    }
}

/// The client's form of a stored task link.
pub fn task_link_db_to_api(link: TaskLink) -> (r: Result<TaskRelation, TaskLinkError>)
    ensures
        (link.id is None || link.incoming is None || link.outgoing is None) <==> r == Err::<
            TaskRelation,
            TaskLinkError,
        >(TaskLinkError::MissingId),
        r matches Ok(rel) ==> {
            &&& rel.id@ == link.id->Some_0.key@
            &&& rel.from.id@ == link.incoming->Some_0.key@
            &&& rel.to.id@ == link.outgoing->Some_0.key@
            &&& kind_of_word(link.kind@) == Some(rel.category)
        },
        r is Err && r != Err::<TaskRelation, TaskLinkError>(TaskLinkError::MissingId) ==> r
            == Err::<TaskRelation, TaskLinkError>(TaskLinkError::UnknownKind) && kind_of_word(
            link.kind@,
        ) is None,
        kind_of_word(link.kind@) is None ==> r is Err,
{
    let id = match link.id {
        Some(id) => id.key,
        None => {
            return Err(TaskLinkError::MissingId);
        },
    };
    let from = match link.incoming {
        Some(i) => i.key,
        None => {
            return Err(TaskLinkError::MissingId);
        },
    };
    let to = match link.outgoing {
        Some(o) => o.key,
        None => {
            return Err(TaskLinkError::MissingId);
        },
    };
    let auto = "auto".to_owned();
    let dep = "dep".to_owned();
    let category = if link.kind == auto {
        TaskRelationType::Auto
    } else if link.kind == dep {
        TaskRelationType::Dep
    } else {
        return Err(TaskLinkError::UnknownKind);
    };
    Ok(TaskRelation { id, from: Id { id: from }, to: Id { id: to }, category })
}

} // verus!
