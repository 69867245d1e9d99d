use crate::services::clickup::service::{ClickUpServiceError, GetTaskRequest};
use vstd::prelude::*;
use vstd::string::StringExecFns;

verus! {

/// Where the task service is, and as whom this program speaks to it.
#[derive(Debug, Clone)]
pub struct ClickUpService {
    pub base_url: String,
    pub client_id: String,
    pub client_secret: String,
    pub redirect_uri: String,
}

/// The longest text, in characters, in which an address is looked for.
pub const LONGEST_ADDRESS: usize = 65536;

/// The names and values of query parameters, as plain values.
pub open spec fn pairs_view(pairs: Seq<(String, String)>) -> Seq<(Seq<char>, Seq<char>)> {
    Seq::new(pairs.len(), |i: int| (pairs[i].0@, pairs[i].1@))
}

/// The address that `url::Url::parse_with_params` makes of an address and query
/// parameters; `None` where it finds no absolute address in the text.
pub uninterp spec fn url_with_params(input: Seq<char>, params: Seq<(Seq<char>, Seq<char>)>) -> Option<
    Seq<char>,
>;

/// The query parameters of a login: the client and where to come back to.
pub open spec fn login_params(client_id: Seq<char>, redirect_uri: Seq<char>) -> Seq<
    (Seq<char>, Seq<char>),
> {
    seq![("client_id"@, client_id), ("redirect_uri"@, redirect_uri)]
}

/// The query parameters that mark an id as a custom id of a workspace.
pub open spec fn custom_id_params(workspace_id: Seq<char>) -> Seq<(Seq<char>, Seq<char>)> {
    seq![("custom_task_ids"@, "true"@), ("team_id"@, workspace_id)]
}

/// The query parameters of a request for a task: sub tasks are always asked for,
/// and the id is marked as a custom id where the request names a workspace.
pub open spec fn task_params(request_config: GetTaskRequest) -> Seq<(Seq<char>, Seq<char>)> {
    match request_config.workspace_id {
        Some(workspace_id) => seq![("include_subtasks"@, "true"@)] + custom_id_params(
            workspace_id@,
        ),
        None => seq![("include_subtasks"@, "true"@)],
    }
}

/// The query parameters of a request for a task's time in status.
pub open spec fn time_in_status_params(request_config: GetTaskRequest) -> Seq<
    (Seq<char>, Seq<char>),
> {
    match request_config.workspace_id {
        Some(workspace_id) => custom_id_params(workspace_id@),
        None => Seq::empty(),
    }
}

/// Calls `url::Url::parse_with_params` and hands back the address as text.
///
/// Claimed of it: the text depends on the address and the parameters alone. The
/// crate keeps positions within an address in 32 bits and stops the program where
/// one does not fit. It takes such a position where the address given ends, and
/// behind the parameters only where the address given has a fragment. So the
/// address handed to it is short and has no `#`; the parameters may be of any
/// length.
#[verifier::external_body]
fn parse_with_params(input: &str, params: &Vec<(String, String)>) -> (address: Option<String>)
    requires
        input@.len() <= LONGEST_ADDRESS,
        !input@.contains('#'),
    ensures
        (match address {
            Some(text) => Some(text@),
            None => None,
        }) == url_with_params(input@, pairs_view(params@)),
{
    match url::Url::parse_with_params(input, params.iter()) {
        Ok(address) => Some(String::from(address)),
        Err(_) => None,
    }
}

/// What a login address is once the address library has had its say: the address,
/// or an unexpected failure where it made none.
pub fn login_address(made: Option<String>) -> (address: Result<String, ClickUpServiceError>)
    ensures
        match made {
            Some(text) => address == Ok::<String, ClickUpServiceError>(text),
            None => address == Err::<String, ClickUpServiceError>(
                ClickUpServiceError::UnexpectedError,
            ),
        },
{
    match made {
        Some(text) => Ok(text),
        None => Err(ClickUpServiceError::UnexpectedError),
    }
}

/// A pair of a name and a value.
fn pair(name: &str, value: &str) -> (made: (String, String))
    ensures
        made.0@ == name@,
        made.1@ == value@,
{
    (String::from_str(name), String::from_str(value))
}

/// The query parameters that mark an id as a custom id of a workspace, behind what
/// `params` holds.
fn push_custom_id_params(params: &mut Vec<(String, String)>, workspace_id: &String)
    ensures
        pairs_view(final(params)@) == pairs_view(old(params)@) + custom_id_params(workspace_id@),
{
    params.push(pair("custom_task_ids", "true"));
    params.push(pair("team_id", workspace_id.as_str()));
    assert(pairs_view(params@) =~= pairs_view(old(params)@) + custom_id_params(workspace_id@));
}

/// The query parameters of a request for a task.
pub fn task_query(request_config: &GetTaskRequest) -> (params: Vec<(String, String)>)
    ensures
        pairs_view(params@) == task_params(*request_config),
{
    let mut params: Vec<(String, String)> = Vec::new();
    params.push(pair("include_subtasks", "true"));
    assert(pairs_view(params@) =~= seq![("include_subtasks"@, "true"@)]);
    match &request_config.workspace_id {
        Some(workspace_id) => {
            push_custom_id_params(&mut params, workspace_id);
        },
        None => {},
    }
    params
}

/// The query parameters of a request for a task's time in status.
pub fn time_in_status_query(request_config: &GetTaskRequest) -> (params: Vec<(String, String)>)
    ensures
        pairs_view(params@) == time_in_status_params(*request_config),
{
    let mut params: Vec<(String, String)> = Vec::new();
    assert(pairs_view(params@) =~= Seq::empty());
    match &request_config.workspace_id {
        Some(workspace_id) => {
            push_custom_id_params(&mut params, workspace_id);
            assert(pairs_view(params@) =~= custom_id_params(workspace_id@));
        },
        None => {},
    }
    params
}

/// What goes into the authorization header for a token.
pub fn bearer(token: &str) -> (header: String)
    ensures
        header@ == "Bearer "@ + token@,
{
    let mut header = String::from_str("Bearer ");
    header.append(token);
    header
}

impl ClickUpService {
    /// The service at its public address, for a client of it.
    pub fn new(client_id: &str, client_secret: &str, redirect_uri: &str) -> (service: Self)
        ensures
            service.base_url@ == "https://api.clickup.com"@,
            service.client_id@ == client_id@,
            service.client_secret@ == client_secret@,
            service.redirect_uri@ == redirect_uri@,
    {
        ClickUpService {
            base_url: String::from_str("https://api.clickup.com"),
            client_id: String::from_str(client_id),
            client_secret: String::from_str(client_secret),
            redirect_uri: String::from_str(redirect_uri),
        }
    }

    /// The address to send a user to for logging in: the login page, with the client
    /// and where to come back to as query parameters, in that order. The client's
    /// secret is no part of it.
    pub fn generate_oauth_login_redirect_url(&self) -> (address: Result<
        String,
        ClickUpServiceError,
    >)
        ensures
            match url_with_params(
                "https://app.clickup.com/api"@,
                login_params(self.client_id@, self.redirect_uri@),
            ) {
                Some(text) => address matches Ok(made) && made@ == text,
                None => address == Err::<String, ClickUpServiceError>(
                    ClickUpServiceError::UnexpectedError,
                ),
            },
    {
        let mut params: Vec<(String, String)> = Vec::new();
        params.push(pair("client_id", self.client_id.as_str()));
        params.push(pair("redirect_uri", self.redirect_uri.as_str()));
        proof {
            reveal_strlit("https://app.clickup.com/api");
            reveal_strlit("client_id");
            reveal_strlit("redirect_uri");
            assert(pairs_view(params@) =~= login_params(self.client_id@, self.redirect_uri@));
            assert(!"https://app.clickup.com/api"@.contains('#'));
        }
        login_address(parse_with_params("https://app.clickup.com/api", &params))
    }

    /// The address of a task.
    pub fn task_url(&self, request_config: &GetTaskRequest) -> (address: String)
        ensures
            address@ == self.base_url@ + "/api/v2/task/"@ + request_config.task_id@,
    {
        let mut address = self.base_url.clone();
        address.append("/api/v2/task/");
        address.append(request_config.task_id.as_str());
        address
    }

    /// The address of a task's time in status.
    pub fn time_in_status_url(&self, request_config: &GetTaskRequest) -> (address: String)
        ensures
            address@ == self.base_url@ + "/api/v2/task/"@ + request_config.task_id@
                + "/time_in_status"@,
    {
        let mut address = self.task_url(request_config);
        address.append("/time_in_status");
        address
    }

    /// The address at which an authorization code is exchanged for a token.
    pub fn oauth_token_url(&self) -> (address: String)
        ensures
            address@ == self.base_url@ + "/api/v2/oauth/token"@,
    {
        let mut address = self.base_url.clone();
        address.append("/api/v2/oauth/token");
        address
    }

    /// The address that lists the workspaces a token gives access to.
    pub fn workspaces_url(&self) -> (address: String)
        ensures
            address@ == self.base_url@ + "/api/v2/team"@,
    {
        let mut address = self.base_url.clone();
        address.append("/api/v2/team");
        address
    }
}

} // verus!
