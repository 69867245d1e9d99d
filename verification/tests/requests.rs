use clickup_time_in_status_analyzer::services::clickup::requests::{
    bearer, login_address, task_query, time_in_status_query, ClickUpService,
    LONGEST_ADDRESS,
};
use clickup_time_in_status_analyzer::services::clickup::service::{
    ClickUpServiceError, GetTaskRequest,
};

fn pairs(list: &[(&str, &str)]) -> Vec<(String, String)> {
    list.iter().map(|(name, value)| (name.to_string(), value.to_string())).collect()
}

#[test]
fn a_service_is_at_its_public_address() {
    let service = ClickUpService::new("client", "secret", "https://example.com/back");
    assert_eq!(service.base_url, "https://api.clickup.com");
    assert_eq!(service.client_id, "client");
    assert_eq!(service.client_secret, "secret");
    assert_eq!(service.redirect_uri, "https://example.com/back");
}

#[test]
fn addresses_are_built_from_the_base() {
    let service = ClickUpService::new("client", "secret", "back");
    let request = GetTaskRequest { task_id: "86a8jcehg".to_string(), workspace_id: None };
    assert_eq!(service.task_url(&request), "https://api.clickup.com/api/v2/task/86a8jcehg");
    assert_eq!(
        service.time_in_status_url(&request),
        "https://api.clickup.com/api/v2/task/86a8jcehg/time_in_status"
    );
    assert_eq!(service.oauth_token_url(), "https://api.clickup.com/api/v2/oauth/token");
    assert_eq!(service.workspaces_url(), "https://api.clickup.com/api/v2/team");
    assert_eq!(bearer("pk_1"), "Bearer pk_1");
    assert_eq!(bearer(""), "Bearer ");
}

#[test]
fn a_plain_id_asks_for_sub_tasks_only() {
    let request = GetTaskRequest { task_id: "86a".to_string(), workspace_id: None };
    assert_eq!(task_query(&request), pairs(&[("include_subtasks", "true")]));
    assert_eq!(time_in_status_query(&request), pairs(&[]));
}

#[test]
fn a_custom_id_names_its_workspace() {
    let request = GetTaskRequest { task_id: "DEV-1".to_string(), workspace_id: Some("9001".to_string()) };
    assert_eq!(
        task_query(&request),
        pairs(&[("include_subtasks", "true"), ("custom_task_ids", "true"), ("team_id", "9001")])
    );
    assert_eq!(
        time_in_status_query(&request),
        pairs(&[("custom_task_ids", "true"), ("team_id", "9001")])
    );
}

#[test]
fn the_login_address_carries_the_client_and_the_way_back() {
    let service =
        ClickUpService::new("ABC 123", "s3cr3t", "https://example.com/oauth/redirect?x=1&y=2");
    let address = service.generate_oauth_login_redirect_url().unwrap();
    assert_eq!(
        address,
        "https://app.clickup.com/api?client_id=ABC+123&redirect_uri=https%3A%2F%2Fexample.com%2Foauth%2Fredirect%3Fx%3D1%26y%3D2"
    );
    assert!(!address.contains("s3cr3t"));
    let empty = ClickUpService::new("", "", "");
    assert_eq!(
        empty.generate_oauth_login_redirect_url().unwrap(),
        "https://app.clickup.com/api?client_id=&redirect_uri="
    );
}

#[test]
fn a_login_address_is_made_for_parameters_of_any_length() {
    assert_eq!(LONGEST_ADDRESS, 65536);
    let long = "x#".repeat(100_000);
    let wide = "é".repeat(70_000);
    let address = ClickUpService::new(&long, "", &wide).generate_oauth_login_redirect_url().unwrap();
    assert!(address.starts_with("https://app.clickup.com/api?client_id=x%23x%23"));
    assert!(address.ends_with("%C3%A9%C3%A9"));
    assert_eq!(address.len(), 38 + 4 * 100_000 + 14 + 6 * 70_000);
    assert!(!address.contains('#'));
}

#[test]
fn no_address_is_an_unexpected_failure() {
    assert_eq!(login_address(Some("https://a.b/".to_string())).unwrap(), "https://a.b/");
    assert!(matches!(login_address(None), Err(ClickUpServiceError::UnexpectedError)));
}
