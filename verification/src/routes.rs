use crate::domain::analysis::{analysis, analyze_and_list};
use crate::domain::metrics::{metrics, AggregrationMethod, TimeInStatusFormula};
use crate::domain::report::listing;
use crate::services::clickup::models::ClickUpTaskResponseBody;
use crate::services::clickup::service::{ClickUpServiceError, GetTaskRequest};
use vstd::prelude::*;
use vstd::std_specs::convert::FromSpecImpl;
use vstd::string::StringExecFns;

verus! {

/// A checkbox of a form: ticked or not.
#[derive(Debug, Clone, Copy)]
pub struct HtmlCheckbox(pub bool);

/// The form that asks for the analysis of a task.
#[derive(Debug, Clone)]
pub struct PostTaskResponseBody {
    pub task_id: String,
    pub remove_weekends: HtmlCheckbox,
    pub use_custom_id: HtmlCheckbox,
}

/// The form that asks for a ticket.
#[derive(Debug, Clone)]
pub struct GetTicketResponseBody {
    pub ticket_id: String,
}

/// The form that chooses a workspace.
#[derive(Debug, Clone)]
pub struct PutWorkspaceBody {
    pub workspace_id: String,
}

/// What the service hands over when a login comes back.
#[derive(Debug, Clone)]
pub struct OauthRedirectQueryParams {
    pub code: String,
}

impl From<Option<String>> for HtmlCheckbox {
    /// A checkbox is ticked exactly when the form sends `on` for it.
    fn from(value: Option<String>) -> (checkbox: Self) {
        match value {
            Some(sent) => HtmlCheckbox(sent == String::from_str("on")),
            None => HtmlCheckbox(false),
        }
    }
}

impl FromSpecImpl<Option<String>> for HtmlCheckbox {
    open spec fn obeys_from_spec() -> bool {
        true
    }

    open spec fn from_spec(value: Option<String>) -> Self {
        HtmlCheckbox(
            match value {
                Some(sent) => sent@ == "on"@,
                None => false,
            },
        )
    }
}

/// The page shown when the form names no task.
pub open spec fn missing_task_page() -> Seq<char> {
    "<p>Missing task id.</p>"@
}

/// The page shown for a failed fetch.
pub open spec fn failure_page_text(failure: ClickUpServiceError) -> Seq<char> {
    match failure {
        ClickUpServiceError::TimeInStatusNotEnabled =>
            "<p>Time in status is not enabled for the selected workspace.</p>"@,
        ClickUpServiceError::CustomIDError =>
            "<p>You might be using a custom id without setting the `Use Custom ID` field to true.</p>"@,
        _ =>
            "<p>Something went wrong, please review the information in the form and try again</p>"@,
    }
}

/// The page that shows a listing.
pub open spec fn listing_page_text(report: Seq<char>) -> Seq<char> {
    "\n    <pre>\n        "@ + report + "\n    </pre>\n        "@
}

/// The request that a form asks for: for the task it names, as a custom id of the
/// current workspace where the form says so, else as a plain id.
pub open spec fn requested(form: PostTaskResponseBody, workspace_id: Option<String>) -> GetTaskRequest {
    GetTaskRequest {
        task_id: form.task_id,
        workspace_id: if form.use_custom_id.0 {
            workspace_id
        } else {
            None
        },
    }
}

/// How times are counted for a form.
pub open spec fn formula_for(form: PostTaskResponseBody) -> TimeInStatusFormula {
    if form.remove_weekends.0 {
        TimeInStatusFormula::NoWeekends
    } else {
        TimeInStatusFormula::FullTime
    }
}

/// The page shown when the form names no task.
pub fn missing_task() -> (page: &'static str)
    ensures
        page@ == missing_task_page(),
{
    "<p>Missing task id.</p>"
}

/// The request that a form asks for, or `None` where it names no task.
pub fn task_request(form: PostTaskResponseBody, workspace_id: Option<String>) -> (request: Option<
    GetTaskRequest,
>)
    ensures
        form.task_id@.len() == 0 ==> request is None,
        form.task_id@.len() != 0 ==> request == Some(requested(form, workspace_id)),
{
    if form.task_id.as_str().is_empty() {
        None
    } else if form.use_custom_id.0 {
        Some(GetTaskRequest { task_id: form.task_id, workspace_id })
    } else {
        Some(GetTaskRequest { task_id: form.task_id, workspace_id: None })
    }
}

/// How times are counted for a form: without weekends where the form says so.
pub fn time_in_status_formula(form: &PostTaskResponseBody) -> (formula: TimeInStatusFormula)
    ensures
        formula == formula_for(*form),
{
    if form.remove_weekends.0 {
        TimeInStatusFormula::NoWeekends
    } else {
        TimeInStatusFormula::FullTime
    }
}

/// The page shown for a failed fetch. The two failures that a user can mend are
/// named; every other failure gets the same words.
pub fn failure_page(failure: &ClickUpServiceError) -> (page: &'static str)
    ensures
        page@ == failure_page_text(*failure),
{
    match failure {
        ClickUpServiceError::TimeInStatusNotEnabled => {
            "<p>Time in status is not enabled for the selected workspace.</p>"
        },
        ClickUpServiceError::CustomIDError => {
            "<p>You might be using a custom id without setting the `Use Custom ID` field to true.</p>"
        },
        _ => {
            "<p>Something went wrong, please review the information in the form and try again</p>"
        },
    }
}

/// The page that shows a listing.
pub fn listing_page(report: &str) -> (page: String)
    ensures
        page@ == listing_page_text(report@),
{
    let mut page = String::from_str("\n    <pre>\n        ");
    page.append(report);
    page.append("\n    </pre>\n        ");
    page
}

/// The page for the outcome of a fetch.
///
/// A fetched tree is rolled up with the own values of every task counted, its times
/// counted as `formula` says, and listed. A failed fetch gets its failure page, and
/// so does a tree whose numbers cannot be held: as an unexpected failure.
pub fn task_page(
    fetched: &Result<ClickUpTaskResponseBody, ClickUpServiceError>,
    formula: TimeInStatusFormula,
) -> (page: String)
    ensures
        page@ == match *fetched {
            Ok(tree) => if metrics(tree@, AggregrationMethod::NodeAndLeaf).fits() {
                listing_page_text(
                    listing(analysis(tree@, AggregrationMethod::NodeAndLeaf, formula), 0),
                )
            } else {
                failure_page_text(ClickUpServiceError::UnexpectedError)
            },
            Err(failure) => failure_page_text(failure),
        },
{
    match fetched {
        Ok(tree) => match analyze_and_list(tree, AggregrationMethod::NodeAndLeaf, formula) {
            Some(report) => listing_page(report.as_str()),
            None => String::from_str(failure_page(&ClickUpServiceError::UnexpectedError)),
        },
        Err(failure) => String::from_str(failure_page(failure)),
    }
}

} // verus!
