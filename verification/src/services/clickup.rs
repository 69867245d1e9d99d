//! What the task service replies, and the rules by which replies become a tree.

pub mod models;
pub mod order;
pub mod requests;
pub mod service;
pub mod timestamps;
pub mod tree;

pub use models::{
    ClickUpTaskResponseBody, ClickUpTimeInStatusResponseBody, CurrentStatus, StatusHistory,
    SubTask, TotalTime,
};
pub use requests::ClickUpService;
pub use service::{
    get_task, ClickUpGetWorkspacesResponseBody, ClickUpOauthTokenResponseBody,
    ClickUpServiceError, ClickUpWorkspace, ClickUpWorkspaceMember, ClickUpWorkspaceUser,
    GetTaskRequest,
};
