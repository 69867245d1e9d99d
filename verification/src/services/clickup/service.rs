use crate::services::clickup::models::{
    ClickUpTaskResponseBody, ClickUpTimeInStatusResponseBody, TaskBodyView, TimeInStatusView,
};
use vstd::prelude::*;
use vstd::string::StringExecFns;
use vstd::string::StringSliceAdditionalSpecFns;

verus! {

/// The code by which the service says that time in status is switched off for a workspace.
pub const TIME_IN_STATUS_NOT_ENABLED_ERROR_CODE: &'static str = "TIS_027";

/// The code by which the service refuses an id it cannot resolve.
pub const NOT_AUTHORIZED_ERROR_CODE: &'static str = "OAUTH_018";

/// Why a request to the task service came to nothing.
#[derive(Debug)]
pub enum ClickUpServiceError {
    /// The request could not be sent or its reply not received; holds the cause.
    FailedToSendNetworkRequestError(String),
    /// The reply did not have the expected shape; holds the cause and, where the
    /// body was read, a note that ends in the body.
    ParseError(String, Option<String>),
    /// Something that cannot happen between a well-behaved service and this library.
    UnexpectedError,
    /// Time in status is switched off for the workspace.
    TimeInStatusNotEnabled,
    /// A custom id was used without naming the workspace it belongs to.
    CustomIDError,
}

/// Which task to fetch, and whether its id is a custom id of a workspace.
#[derive(Debug, Clone)]
pub struct GetTaskRequest {
    pub task_id: String,
    /// The workspace whose custom id `task_id` is; `None` where it is a plain id.
    pub workspace_id: Option<String>,
}

/// The reply to an exchange of an authorization code for a token.
#[derive(Debug, Clone)]
pub struct ClickUpOauthTokenResponseBody {
    pub access_token: String,
}

/// The workspaces that a token gives access to.
#[derive(Debug, Clone)]
pub struct ClickUpGetWorkspacesResponseBody {
    pub teams: Vec<ClickUpWorkspace>,
}

#[derive(Debug, Clone)]
pub struct ClickUpWorkspace {
    pub id: String,
    pub name: String,
    pub color: String,
    pub avatar: Option<String>,
    pub members: Vec<ClickUpWorkspaceMember>,
}

#[derive(Debug, Clone)]
pub struct ClickUpWorkspaceMember {
    pub user: ClickUpWorkspaceUser,
}

#[derive(Debug, Clone)]
pub struct ClickUpWorkspaceUser {
    pub id: i32,
    pub username: String,
    pub color: Option<String>,
    pub profile_picture: Option<String>,
}

/// `part` occurs in `whole` as a run of consecutive bytes.
pub open spec fn occurs_in(part: Seq<u8>, whole: Seq<u8>) -> bool {
    exists|at: int| occurs_at(part, whole, at)
}

/// `part` stands in `whole` from position `at` on.
pub open spec fn occurs_at(part: Seq<u8>, whole: Seq<u8>, at: int) -> bool {
    &&& 0 <= at
    &&& at + part.len() <= whole.len()
    &&& whole.subrange(at, at + part.len()) == part
}

/// Whether `part` stands in `whole` from position `at` on.
fn stands_at(part: &[u8], whole: &[u8], at: usize) -> (found: bool)
    requires
        at + part@.len() <= whole@.len(),
    ensures
        found == occurs_at(part@, whole@, at as int),
{
    let size = whole.len();
    let mut k: usize = 0;
    while k < part.len()
        invariant
            k <= part@.len(),
            at + part@.len() <= size,
            size == whole@.len(),
            forall|j: int| 0 <= j < k ==> whole@[at + j] == part@[j],
        decreases part@.len() - k,
    {
        if whole[at + k] != part[k] {
            assert(whole@.subrange(at as int, at + part@.len())[k as int] != part@[k as int]);
            return false;
        }
        k = k + 1;
    }
    assert(whole@.subrange(at as int, at + part@.len()) =~= part@);
    true
}

/// Whether the bytes of `code` occur in `text`.
pub fn mentions(text: &str, code: &str) -> (found: bool)
    ensures
        found == occurs_in(code.spec_bytes(), text.spec_bytes()),
{
    let whole = text.as_bytes();
    let part = code.as_bytes();
    if part.len() > whole.len() {
        return false;
    }
    let last = whole.len() - part.len();
    let mut at: usize = 0;
    while at < last
        invariant
            at <= last,
            last == whole@.len() - part@.len(),
            whole@ == text.spec_bytes(),
            part@ == code.spec_bytes(),
            forall|j: int| 0 <= j < at ==> !occurs_at(part@, whole@, j),
        decreases last - at,
    {
        if stands_at(part, whole, at) {
            return true;
        }
        at = at + 1;
    }
    stands_at(part, whole, last)
}

/// The reply names the code for an id that cannot be resolved, and the request
/// named no workspace.
pub open spec fn is_custom_id_failure(text: &str, request_config: GetTaskRequest) -> bool {
    &&& occurs_in(NOT_AUTHORIZED_ERROR_CODE.spec_bytes(), text.spec_bytes())
    &&& request_config.workspace_id is None
}

/// The reply names the code for time in status being switched off.
pub open spec fn is_time_in_status_disabled(text: &str) -> bool {
    occurs_in(TIME_IN_STATUS_NOT_ENABLED_ERROR_CODE.spec_bytes(), text.spec_bytes())
}

/// The note kept with a task reply that has the wrong shape.
pub open spec fn task_note(status: Seq<char>, text: Seq<char>) -> Seq<char> {
    "get_task = "@ + status + " "@ + text
}

/// The note kept with a time-in-status reply that has the wrong shape.
pub open spec fn time_in_status_note(text: Seq<char>) -> Seq<char> {
    "get_task_time_in_status "@ + text
}

/// Whether a reply that has the wrong shape is the refusal of a custom id.
pub fn refuses_custom_id(text: &str, request_config: &GetTaskRequest) -> (refused: bool)
    ensures
        refused == is_custom_id_failure(text, *request_config),
{
    mentions(text, NOT_AUTHORIZED_ERROR_CODE) && request_config.workspace_id.is_none()
}

/// Judges the reply to a request for a task.
///
/// `parsed` is the body read as a task, or the cause for which it could not be;
/// `status` is the status line of the reply and `text` its body. A task that could
/// be read stands. Otherwise the refusal of a custom id is told apart from a body
/// of the wrong shape, which is kept with the status in the note.
pub fn task_from_reply(
    parsed: Result<ClickUpTaskResponseBody, String>,
    status: &str,
    text: &str,
    request_config: &GetTaskRequest,
) -> (task: Result<ClickUpTaskResponseBody, ClickUpServiceError>)
    ensures
        match parsed {
            Ok(body) => task == Ok::<ClickUpTaskResponseBody, ClickUpServiceError>(body),
            Err(cause) => if is_custom_id_failure(text, *request_config) {
                task == Err::<ClickUpTaskResponseBody, ClickUpServiceError>(
                    ClickUpServiceError::CustomIDError,
                )
            } else {
                &&& task matches Err(ClickUpServiceError::ParseError(kept, Some(note)))
                &&& kept == cause
                &&& note@ == task_note(status@, text@)
            },
        },
{
    match parsed {
        Ok(body) => Ok(body),
        Err(cause) => {
            if refuses_custom_id(text, request_config) {
                Err(ClickUpServiceError::CustomIDError)
            } else {
                let mut note = String::from_str("get_task = ");
                note.append(status);
                note.append(" ");
                note.append(text);
                assert(note@ =~= task_note(status@, text@));
                Err(ClickUpServiceError::ParseError(cause, Some(note)))
            }
        },
    }
}

/// Judges the reply to a request for a task's time in status.
///
/// A record that could be read stands. Otherwise a reply that says the feature is
/// switched off is told apart first, then the refusal of a custom id, then a body
/// of the wrong shape.
pub fn time_in_status_from_reply(
    parsed: Result<ClickUpTimeInStatusResponseBody, String>,
    text: &str,
    request_config: &GetTaskRequest,
) -> (record: Result<ClickUpTimeInStatusResponseBody, ClickUpServiceError>)
    ensures
        match parsed {
            Ok(body) => record == Ok::<ClickUpTimeInStatusResponseBody, ClickUpServiceError>(body),
            Err(cause) => if is_time_in_status_disabled(text) {
                record == Err::<ClickUpTimeInStatusResponseBody, ClickUpServiceError>(
                    ClickUpServiceError::TimeInStatusNotEnabled,
                )
            } else if is_custom_id_failure(text, *request_config) {
                record == Err::<ClickUpTimeInStatusResponseBody, ClickUpServiceError>(
                    ClickUpServiceError::CustomIDError,
                )
            } else {
                &&& record matches Err(ClickUpServiceError::ParseError(kept, Some(note)))
                &&& kept == cause
                &&& note@ == time_in_status_note(text@)
            },
        },
{
    match parsed {
        Ok(body) => Ok(body),
        Err(cause) => {
            if mentions(text, TIME_IN_STATUS_NOT_ENABLED_ERROR_CODE) {
                Err(ClickUpServiceError::TimeInStatusNotEnabled)
            } else if refuses_custom_id(text, request_config) {
                Err(ClickUpServiceError::CustomIDError)
            } else {
                let mut note = String::from_str("get_task_time_in_status ");
                note.append(text);
                Err(ClickUpServiceError::ParseError(cause, Some(note)))
            }
        },
    }
}

/// A task with its time-in-status record set.
pub open spec fn with_time_in_status(task: TaskBodyView, record: TimeInStatusView) -> TaskBodyView {
    TaskBodyView {
        id: task.id,
        custom_id: task.custom_id,
        name: task.name,
        text_content: task.text_content,
        description: task.description,
        points: task.points,
        date_created: task.date_created,
        sub_tasks: task.sub_tasks,
        time_in_status: Some(record),
    }
}

/// Joins the two replies for one task: the task with its time-in-status record.
///
/// Both must have succeeded. Where the task failed, its failure is returned, whatever
/// became of the record; else the failure of the record.
pub fn get_task(
    task: Result<ClickUpTaskResponseBody, ClickUpServiceError>,
    time_in_status: Result<ClickUpTimeInStatusResponseBody, ClickUpServiceError>,
) -> (joined: Result<ClickUpTaskResponseBody, ClickUpServiceError>)
    ensures
        match (task, time_in_status) {
            (Err(failure), _) => joined == Err::<ClickUpTaskResponseBody, ClickUpServiceError>(
                failure,
            ),
            (Ok(_), Err(failure)) => joined == Err::<ClickUpTaskResponseBody, ClickUpServiceError>(
                failure,
            ),
            (Ok(body), Ok(record)) => {
                &&& joined matches Ok(whole)
                &&& whole@ == with_time_in_status(body@, record@)
            },
        },
{
    let mut body = match task {
        Ok(body) => body,
        Err(failure) => {
            return Err(failure);
        },
    };
    let record = match time_in_status {
        Ok(record) => record,
        Err(failure) => {
            return Err(failure);
        },
    };
    body.time_in_status = Some(record);
    Ok(body)
}

/// Judges a reply that carries no codes of its own: what could be read stands, and
/// a body of the wrong shape is kept whole in the note.
pub fn body_from_reply<T>(parsed: Result<T, String>, text: &str) -> (body: Result<
    T,
    ClickUpServiceError,
>)
    ensures
        match parsed {
            Ok(read) => body == Ok::<T, ClickUpServiceError>(read),
            Err(cause) => {
                &&& body matches Err(ClickUpServiceError::ParseError(kept, Some(note)))
                &&& kept == cause
                &&& note@ == text@
            },
        },
{
    match parsed {
        Ok(read) => Ok(read),
        Err(cause) => Err(ClickUpServiceError::ParseError(cause, Some(String::from_str(text)))),
    }
}

} // verus!
