use clickup_time_in_status_analyzer::domain::metrics::TimeInStatusFormula;
use clickup_time_in_status_analyzer::routes::{
    failure_page, listing_page, missing_task, task_page, task_request, time_in_status_formula,
    HtmlCheckbox, PostTaskResponseBody,
};
use clickup_time_in_status_analyzer::services::clickup::models::{
    ClickUpTaskResponseBody, ClickUpTimeInStatusResponseBody, CurrentStatus, StatusHistory,
    SubTask, TotalTime,
};
use clickup_time_in_status_analyzer::services::clickup::service::ClickUpServiceError;

const SOMETHING_WENT_WRONG: &str =
    "<p>Something went wrong, please review the information in the form and try again</p>";

fn form(task_id: &str, remove_weekends: bool, use_custom_id: bool) -> PostTaskResponseBody {
    PostTaskResponseBody {
        task_id: task_id.to_string(),
        remove_weekends: HtmlCheckbox(remove_weekends),
        use_custom_id: HtmlCheckbox(use_custom_id),
    }
}

fn task(id: &str, points: u64, days: u64, children: Vec<ClickUpTaskResponseBody>) -> ClickUpTaskResponseBody {
    ClickUpTaskResponseBody {
        id: id.to_string(),
        custom_id: None,
        name: format!("task {id}"),
        text_content: String::new(),
        description: String::new(),
        points: Some(points),
        date_created: 0,
        sub_tasks: Some(
            children
                .into_iter()
                .map(|child| SubTask {
                    id: child.id.clone(),
                    custom_id: None,
                    name: child.name.clone(),
                    points: None,
                    date_created: 0,
                    task: Some(child),
                })
                .collect(),
        ),
        time_in_status: Some(ClickUpTimeInStatusResponseBody {
            current_status: CurrentStatus {
                status: "closed".to_string(),
                total_time: TotalTime { by_minute: 0, since: 0 },
            },
            status_history: vec![StatusHistory {
                status: "in progress".to_string(),
                status_type: "custom".to_string(),
                total_time: TotalTime { by_minute: days * 1440, since: 0 },
                order_index: Some(5),
            }],
        }),
    }
}

#[test]
fn a_checkbox_is_ticked_when_the_form_sends_on() {
    assert!(HtmlCheckbox::from(Some("on".to_string())).0);
    assert!(!HtmlCheckbox::from(Some("off".to_string())).0);
    assert!(!HtmlCheckbox::from(Some("ON".to_string())).0);
    assert!(!HtmlCheckbox::from(Some("on ".to_string())).0);
    assert!(!HtmlCheckbox::from(Some("true".to_string())).0);
    assert!(!HtmlCheckbox::from(Some(String::new())).0);
    assert!(!HtmlCheckbox::from(None).0);
}

#[test]
fn a_form_without_a_task_asks_for_nothing() {
    assert_eq!(missing_task(), "<p>Missing task id.</p>");
    assert!(task_request(form("", false, false), None).is_none());
    assert!(task_request(form("", true, true), Some("9001".to_string())).is_none());
}

#[test]
fn the_workspace_is_named_only_for_a_custom_id() {
    let request = task_request(form("86a", false, false), Some("9001".to_string())).unwrap();
    assert_eq!(request.task_id, "86a");
    assert_eq!(request.workspace_id, None);
    let request = task_request(form("DEV-1", false, true), Some("9001".to_string())).unwrap();
    assert_eq!(request.task_id, "DEV-1");
    assert_eq!(request.workspace_id, Some("9001".to_string()));
    let request = task_request(form("DEV-1", true, true), None).unwrap();
    assert_eq!(request.task_id, "DEV-1");
    assert_eq!(request.workspace_id, None);
}

#[test]
fn weekends_are_left_out_where_the_form_says_so() {
    assert_eq!(time_in_status_formula(&form("x", true, false)), TimeInStatusFormula::NoWeekends);
    assert_eq!(time_in_status_formula(&form("x", false, true)), TimeInStatusFormula::FullTime);
}

#[test]
fn failures_that_a_user_can_mend_are_named() {
    assert_eq!(
        failure_page(&ClickUpServiceError::TimeInStatusNotEnabled),
        "<p>Time in status is not enabled for the selected workspace.</p>"
    );
    assert_eq!(
        failure_page(&ClickUpServiceError::CustomIDError),
        "<p>You might be using a custom id without setting the `Use Custom ID` field to true.</p>"
    );
    assert_eq!(failure_page(&ClickUpServiceError::UnexpectedError), SOMETHING_WENT_WRONG);
    assert_eq!(
        failure_page(&ClickUpServiceError::FailedToSendNetworkRequestError("down".to_string())),
        SOMETHING_WENT_WRONG
    );
    assert_eq!(
        failure_page(&ClickUpServiceError::ParseError("eof".to_string(), None)),
        SOMETHING_WENT_WRONG
    );
}

#[test]
fn a_listing_is_shown_as_it_is_written() {
    assert_eq!(listing_page("\nr - points"), "\n    <pre>\n        \nr - points\n    </pre>\n        ");
    assert_eq!(listing_page(""), "\n    <pre>\n        \n    </pre>\n        ");
}

#[test]
fn the_page_for_a_fetched_tree_lists_it_with_every_own_value_counted() {
    let tree = task("r", 3000, 7, vec![task("c", 2000, 14, vec![])]);
    let fetched = Ok(tree);
    assert_eq!(
        task_page(&fetched, TimeInStatusFormula::FullTime),
        "\n    <pre>\n        \
         \nr task r - points: 3 (5), time_spent: 7 (21)\
         \n\tc task c - points: 2 (2), time_spent: 14 (14)\
         \n    </pre>\n        "
    );
    assert_eq!(
        task_page(&fetched, TimeInStatusFormula::NoWeekends),
        "\n    <pre>\n        \
         \nr task r - points: 3 (5), time_spent: 5 (15)\
         \n\tc task c - points: 2 (2), time_spent: 10 (10)\
         \n    </pre>\n        "
    );
}

#[test]
fn the_page_for_a_failure_is_its_failure_page() {
    let failed = Err(ClickUpServiceError::TimeInStatusNotEnabled);
    assert_eq!(
        task_page(&failed, TimeInStatusFormula::FullTime),
        "<p>Time in status is not enabled for the selected workspace.</p>"
    );
    let failed = Err(ClickUpServiceError::ParseError("eof".to_string(), Some("{".to_string())));
    assert_eq!(task_page(&failed, TimeInStatusFormula::NoWeekends), SOMETHING_WENT_WRONG);
    let too_big = Ok(task("r", 1, 0, vec![task("c", u64::MAX, 0, vec![])]));
    assert_eq!(task_page(&too_big, TimeInStatusFormula::FullTime), SOMETHING_WENT_WRONG);
}
