use clickup_time_in_status_analyzer::components::{workspace_select, workspaces_of};
use clickup_time_in_status_analyzer::services::clickup::service::{
    ClickUpGetWorkspacesResponseBody, ClickUpWorkspace, ClickUpWorkspaceMember,
    ClickUpWorkspaceUser,
};

fn team(id: &str, name: &str) -> ClickUpWorkspace {
    ClickUpWorkspace {
        id: id.to_string(),
        name: name.to_string(),
        color: "#fff".to_string(),
        avatar: None,
        members: vec![ClickUpWorkspaceMember {
            user: ClickUpWorkspaceUser {
                id: 1,
                username: "someone".to_string(),
                color: None,
                profile_picture: None,
            },
        }],
    }
}

#[test]
fn workspaces_keep_their_ids_names_and_order() {
    let body = ClickUpGetWorkspacesResponseBody {
        teams: vec![team("9001", "Engineering"), team("9002", "Design"), team("9003", "")],
    };
    let workspaces = workspaces_of(&body);
    let shown: Vec<(&str, &str)> =
        workspaces.iter().map(|w| (w.id.as_str(), w.name.as_str())).collect();
    assert_eq!(shown, vec![("9001", "Engineering"), ("9002", "Design"), ("9003", "")]);
    assert!(workspaces_of(&ClickUpGetWorkspacesResponseBody { teams: vec![] }).is_empty());
}

#[test]
fn the_choice_shows_the_current_workspace_or_none() {
    let body = ClickUpGetWorkspacesResponseBody { teams: vec![team("9001", "Engineering")] };
    let chosen = workspace_select(Some("9001".to_string()), &body);
    assert_eq!(chosen.current_workspace_id, "9001");
    assert_eq!(chosen.workspaces.len(), 1);
    assert_eq!(chosen.workspaces[0].id, "9001");
    assert_eq!(chosen.workspaces[0].name, "Engineering");
    let none = workspace_select(None, &body);
    assert_eq!(none.current_workspace_id, "");
    assert_eq!(none.workspaces.len(), 1);
}
