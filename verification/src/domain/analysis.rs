use crate::domain::metrics::{metrics, AggregrationMethod, Task, TaskView, TimeInStatusFormula};
use crate::domain::report::{generate_points_vs_time_spent_analysis, listing};
use crate::domain::weekends::{apply_no_weekends_formula, without_weekends};
use crate::services::clickup::models::{ClickUpTaskResponseBody, TaskBodyView};
use vstd::prelude::*;

verus! {

/// The metrics with their times counted as `formula` says.
pub open spec fn timed(task: TaskView, formula: TimeInStatusFormula) -> TaskView {
    match formula {
        TimeInStatusFormula::FullTime => task,
        TimeInStatusFormula::NoWeekends => without_weekends(task),
    }
}

/// The metrics of a fetched tree under `method`, with times counted as `formula` says.
pub open spec fn analysis(
    task: TaskBodyView,
    method: AggregrationMethod,
    formula: TimeInStatusFormula,
) -> TaskView {
    timed(metrics(task, method), formula)
}

/// Rolls a fetched tree up into its metrics under `method` and counts the times as
/// `formula` says.
///
/// The result is `None` exactly when some number of the metrics, before weekends are
/// taken out, cannot be held in 64 bits.
pub fn analyze(
    value: &ClickUpTaskResponseBody,
    method: AggregrationMethod,
    formula: TimeInStatusFormula,
) -> (task: Option<Task>)
    ensures
        task is Some <==> metrics(value@, method).fits(),
        task matches Some(t) ==> t@ == analysis(value@, method, formula),
{
    match Task::from_response(value, method) {
        None => None,
        Some(task) => {
            let mut task = task;
            match formula {
                TimeInStatusFormula::FullTime => {},
                TimeInStatusFormula::NoWeekends => {
                    apply_no_weekends_formula(&mut task);
                },
            }
            Some(task)
        },
    }
}

/// The listing of the metrics of a fetched tree under `method`, with times counted
/// as `formula` says; `None` exactly when `analyze` gives none.
pub fn analyze_and_list(
    value: &ClickUpTaskResponseBody,
    method: AggregrationMethod,
    formula: TimeInStatusFormula,
) -> (report: Option<String>)
    ensures
        report is Some <==> metrics(value@, method).fits(),
        report matches Some(text) ==> text@ == listing(analysis(value@, method, formula), 0),
{
    match analyze(value, method, formula) {
        None => None,
        Some(task) => Some(generate_points_vs_time_spent_analysis(&task)),
    }
}

/// Two conversions of one tree under one method and formula agree: both succeed or
/// both fail, and where they succeed their metrics are the same in every part.
pub proof fn lemma_analysis_is_determined(
    value: TaskBodyView,
    method: AggregrationMethod,
    formula: TimeInStatusFormula,
    first: Option<Task>,
    second: Option<Task>,
)
    requires
        first is Some <==> metrics(value, method).fits(),
        first matches Some(t) ==> t@ == analysis(value, method, formula),
        second is Some <==> metrics(value, method).fits(),
        second matches Some(t) ==> t@ == analysis(value, method, formula),
    ensures
        first is Some <==> second is Some,
        first is Some ==> first->Some_0@ == second->Some_0@,
{
}

} // verus!
