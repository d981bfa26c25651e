//! Bodies of the requests and responses of the tracker's HTTP surface.
use crate::api_model::{Credential, Id, PullRequest, StatusPool, TaskRelation, TaskRelationType};
use vstd::prelude::*;

verus! {

/// Where the server is reachable.
#[derive(Clone, Debug, PartialEq, Eq)]
pub struct AppConfig {
    pub url: String,
}

#[derive(Clone, Debug, PartialEq, Eq)]
pub struct LoginRequest {
    pub credential: Credential,
}

#[derive(Clone, Debug, PartialEq, Eq)]
pub struct SignupRequest {
    pub credential: Credential,
}

#[derive(Clone, Debug, PartialEq, Eq)]
pub struct PatchDraftInfoRequest {
    pub name: Option<String>,
}

#[derive(Clone, Debug, PartialEq, Eq)]
pub struct CreateDraftForUserRequest {
    pub name: String,
}

#[derive(Clone, Debug, PartialEq, Eq)]
pub struct CreateDraftForProjectRequest {
    pub name: String,
}

#[derive(Clone, Debug, PartialEq, Eq)]
pub struct CreateAgendaForUserRequest {
    pub name: String,
    pub events: Vec<Id>,
}

#[derive(Clone, Debug, PartialEq, Eq)]
pub struct CreateAgendaForProjectRequest {
    pub name: String,
    pub events: Vec<Id>,
}

#[derive(Clone, Copy, Debug, PartialEq, Eq, Structural)]
pub enum UserPermissionInProject {
    Admin,
    Member,
}

#[derive(Clone, Debug, PartialEq, Eq)]
pub struct ProjectUser {
    pub id: String,
    pub position: UserPermissionInProject,
}

#[derive(Clone, Debug, PartialEq, Eq)]
pub struct GetProjectsForUserResponse {
    pub projects: Vec<ProjectUser>,
}

#[derive(Clone, Debug, PartialEq, Eq)]
pub struct CreateProjectRequest {
    pub name: String,
    pub description: String,
    pub avatar: Option<String>,
    pub status_pool: Option<StatusPool>,
}

#[derive(Clone, Debug, PartialEq, Eq)]
pub struct PatchProjectRequest {
    pub name: Option<String>,
    pub description: Option<String>,
    pub avatar: Option<String>,
    pub status_pool: Option<StatusPool>,
}

#[derive(Clone, Debug, PartialEq, Eq)]
pub struct GenInvitationTokenRequest {
    pub invitor_id: String,
    pub invitee_id: String,
    pub project_id: String,
}

#[derive(Clone, Debug, PartialEq, Eq)]
pub struct GenInvitationTokenResponse {
    pub invitation_token: String,
}

#[derive(Clone, Debug, PartialEq, Eq)]
pub struct AcceptInvitationRequest {
    pub invitation_token: String,
}

#[derive(Clone, Debug, PartialEq, Eq)]
pub struct GetTokenInfoResponse {
    pub invitor_id: String,
    pub project_name: String,
}

#[derive(Clone, Debug, PartialEq, Eq)]
pub struct GetAllPullRequestsResponse {
    pub prs: Vec<PullRequest>,
}

#[derive(Clone, Debug, PartialEq, Eq)]
pub struct CreateRequirementForProjectRequest {
    pub name: String,
    pub content: String,
}

#[derive(Clone, Debug, PartialEq, Eq)]
pub struct PatchRequirementRequest {
    pub name: Option<String>,
    pub content: Option<String>,
}

#[derive(Clone, Debug, PartialEq, Eq)]
pub struct GetLinksForTaskResponse {
    pub task_links: Vec<TaskRelation>,
}

#[derive(Clone, Debug, PartialEq, Eq)]
pub struct CreateTaskLinkForUserRequest {
    pub from: Id,
    pub to: Id,
    pub category: TaskRelationType,
}

#[derive(Clone, Debug, PartialEq, Eq)]
pub struct CreateTaskLinkForUserResponse {
    pub relation: TaskRelation,
}

#[derive(Clone, Debug, PartialEq, Eq)]
pub struct CreateTaskLinkForProjectRequest {
    pub from: Id,
    pub to: Id,
    pub category: TaskRelationType,
}

#[derive(Clone, Debug, PartialEq, Eq)]
pub struct CreateTaskLinkForProjectResponse {
    pub relation: TaskRelation,
}

#[derive(Clone, Debug, PartialEq, Eq)]
pub struct GetTaskLinksForProjectResponse {
    pub links: Vec<TaskRelation>,
}

#[derive(Clone, Debug, PartialEq, Eq)]
pub struct GetTaskLinksForUserResponse {
    pub links: Vec<TaskRelation>,
}

#[derive(Clone, Debug, PartialEq, Eq)]
pub struct PatchTaskLinkRequest {
    pub category: TaskRelationType,
}

#[derive(Clone, Debug, PartialEq, Eq)]
pub struct PatchTaskLinkResponse {
    pub task_relation: TaskRelation,
}

#[derive(Clone, Debug, PartialEq, Eq)]
pub struct CreateTaskListForProjectRequest {
    pub name: String,
}

#[derive(Clone, Debug, PartialEq, Eq)]
pub struct CreateTaskListForUserRequest {
    pub name: String,
}

#[derive(Clone, Debug, PartialEq, Eq)]
pub struct PatchUserInfoRequest {
    pub username: String,
    pub email: Option<String>,
    pub avatar: Option<String>,
    pub status_pool: Option<StatusPool>,
}

/// Who may be invited to which project, by whom.
#[derive(Clone, Debug, PartialEq, Eq)]
pub struct InvitationInfo {
    pub inviter: String,
    pub invitee: String,
    pub project: String,
}

/// The invitations handed out and not yet accepted, by token; a token
/// appears at most once.
#[derive(Clone, Debug, PartialEq, Eq)]
pub struct InvitationTokenRepository {
    pub tokens: Vec<(String, InvitationInfo)>,
}

/// Whether tasks of a list may be switched: never, always, or both ways.
#[derive(Clone, Copy, Debug, PartialEq, Eq, Structural)]
pub enum TaskSwitchable {
    False,
    True,
    TrueAndFalse,
}

} // verus!
