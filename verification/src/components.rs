use crate::services::clickup::service::ClickUpGetWorkspacesResponseBody;
use vstd::prelude::*;

verus! {

/// A workspace as the pages show it.
#[derive(Debug, Clone)]
pub struct Workspace {
    pub id: String,
    pub name: String,
}

/// What the choice of a workspace shows: the workspaces, and which one is current.
#[derive(Debug, Clone)]
pub struct WorkspaceSelect {
    pub current_workspace_id: String,
    pub workspaces: Vec<Workspace>,
}

/// The id of the current workspace as the pages show it: empty where none is chosen.
pub open spec fn shown_workspace_id(current: Option<String>) -> Seq<char> {
    match current {
        Some(id) => id@,
        None => Seq::empty(),
    }
}

/// The workspaces of a reply, each with its id and name, in the order of the reply.
pub fn workspaces_of(body: &ClickUpGetWorkspacesResponseBody) -> (workspaces: Vec<Workspace>)
    ensures
        workspaces@.len() == body.teams@.len(),
        forall|i: int|
            0 <= i < body.teams@.len() ==> {
                &&& (#[trigger] workspaces@[i]).id@ == body.teams@[i].id@
                &&& workspaces@[i].name@ == body.teams@[i].name@
            },
{
    let mut workspaces: Vec<Workspace> = Vec::new();
    let mut i: usize = 0;
    while i < body.teams.len()
        invariant
            i <= body.teams.len(),
            workspaces@.len() == i,
            forall|j: int|
                0 <= j < i ==> {
                    &&& (#[trigger] workspaces@[j]).id@ == body.teams@[j].id@
                    &&& workspaces@[j].name@ == body.teams@[j].name@
                },
        decreases body.teams.len() - i,
    {
        workspaces.push(
            Workspace { id: body.teams[i].id.clone(), name: body.teams[i].name.clone() },
        );
        i = i + 1;
    }
    workspaces
}

/// The choice of a workspace for a reply that lists the workspaces: the current one,
/// or none where none is chosen yet, and the workspaces of the reply.
pub fn workspace_select(current: Option<String>, body: &ClickUpGetWorkspacesResponseBody) -> (select:
    WorkspaceSelect)
    ensures
        select.current_workspace_id@ == shown_workspace_id(current),
        select.workspaces@.len() == body.teams@.len(),
        forall|i: int|
            0 <= i < body.teams@.len() ==> {
                &&& (#[trigger] select.workspaces@[i]).id@ == body.teams@[i].id@
                &&& select.workspaces@[i].name@ == body.teams@[i].name@
            },
{
    let current_workspace_id = match current {
        Some(id) => id,
        None => String::new(),
    };
    WorkspaceSelect { current_workspace_id, workspaces: workspaces_of(body) }
}

} // verus!
